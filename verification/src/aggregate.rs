//! The state of an aggregate while one of its commands is handled, and the
//! registry of aggregates.
//!
//! A command handler addresses one aggregate, asks for its projection (which
//! is restored from a cache or by replaying the aggregate's stored events
//! through their sourcing handlers) and emits new events.  The new events are
//! then applied to the projection and stored, numbered after the last stored
//! event.
use crate::command_worker::{CommandError, EmitEventsAndResponse};
use crate::messages::{axon_serialize, Command, SerializedObject, SerializedObjectView};
use crate::text_map::TextMap;
use vstd::prelude::*;

verus! {

/// The result of a command handler: the events to emit, each with its type,
/// and the response to the caller.
pub struct EmitApplicableEventsAndResponse<E> {
    events: Vec<(String, E)>,
    response: Option<SerializedObject>,
}

impl<E> EmitApplicableEventsAndResponse<E> {
    /// The types of the events to emit, in order.
    pub closed spec fn event_types(self) -> Seq<Seq<char>> {
        Seq::new(self.events@.len(), |i: int| self.events@[i].0@)
    }

    /// The events to emit, in order.
    pub closed spec fn event_values(self) -> Seq<E> {
        Seq::new(self.events@.len(), |i: int| self.events@[i].1)
    }

    /// The response to the caller.
    pub closed spec fn spec_response(self) -> Option<SerializedObject> {
        self.response
    }

    /// The events to emit, each with its type.
    pub fn events(&self) -> (r: &Vec<(String, E)>)
        ensures
            r@.len() == self.event_types().len(),
            forall|i: int|
                0 <= i < r@.len() ==> (#[trigger] r@[i]).0@ == self.event_types()[i] && r@[i].1
                    == self.event_values()[i],
    {
        &self.events
    }

    /// The response to the caller.
    pub fn response(&self) -> (r: &Option<SerializedObject>)
        ensures
            *r == self.spec_response(),
    {
        &self.response
    }
}

/// A handler result with no events and no response yet.
pub fn emit_events<E>() -> (r: EmitApplicableEventsAndResponse<E>)
    ensures
        r.event_types().len() == 0,
        r.spec_response() is None,
{
    EmitApplicableEventsAndResponse { events: Vec::new(), response: None }
}

/// A handler result with no events yet and the given (encoded) response,
/// serialized under the given type name with an empty revision.
pub fn emit_events_and_response<E>(type_label: &str, response: Vec<u8>) -> (r:
    EmitApplicableEventsAndResponse<E>)
    ensures
        r.event_types().len() == 0,
        r.spec_response() matches Some(o) && o@ == (SerializedObjectView {
            payload_type: type_label@,
            revision: Seq::<char>::empty(),
            data: response@,
        }),
{
    let payload = axon_serialize(type_label, response);
    EmitApplicableEventsAndResponse { events: Vec::new(), response: Some(payload) }
}

/// Adds an event of the given type to a handler result.
pub fn emit<E>(holder: &mut EmitApplicableEventsAndResponse<E>, type_label: &str, event: E)
    ensures
        final(holder).event_types() == old(holder).event_types().push(type_label@),
        final(holder).event_values() == old(holder).event_values().push(event),
        final(holder).spec_response() == old(holder).spec_response(),
{
    holder.events.push((type_label.to_owned(), event));
    assert(holder.event_types() =~= old(holder).event_types().push(type_label@));
    assert(holder.event_values() =~= old(holder).event_values().push(event));
}

/// The state of an aggregate during the handling of one command: the events
/// emitted so far, the aggregate addressed (if any), its projection and the
/// sequence number of the last event applied to that projection (-1 while
/// none is).
pub struct AggregateState<P, E> {
    events: Vec<(String, E)>,
    aggregate_id: Option<String>,
    projection: P,
    seq: i64,
}

/// One step of applying new events: an event that its sourcing handler
/// applied takes the next number and becomes the projection's last event;
/// an event that it did not apply changes nothing.  Gives the new sequence
/// number of the projection and the next number to hand out.
pub open spec fn apply_step(seq: int, next: int, applied: bool) -> (int, int) {
    if applied {
        (next, next + 1)
    } else {
        (seq, next)
    }
}

/// Applying a series of new events, given for each whether its sourcing
/// handler applied it.
pub open spec fn apply_all(seq: int, next: int, applied: Seq<bool>) -> (int, int)
    decreases applied.len(),
{
    if applied.len() == 0 {
        (seq, next)
    } else {
        let (s, n) = apply_all(seq, next, applied.drop_last());
        apply_step(s, n, applied.last())
    }
}

/// The number of events that their sourcing handlers applied.
pub open spec fn count_applied(applied: Seq<bool>) -> nat
    decreases applied.len(),
{
    if applied.len() == 0 {
        0
    } else {
        count_applied(applied.drop_last()) + if applied.last() {
            1nat
        } else {
            0nat
        }
    }
}

/// After the new events of a command have been applied, starting from the
/// last stored sequence number `last`, the next number to hand out is `last`
/// plus one plus the number of applied events, and the projection's sequence
/// number is `last` plus that number.  So the projection stands at the last
/// of the `k` stored events (`last + k`) exactly when every event was applied.
pub proof fn lemma_new_event_numbering(last: int, applied: Seq<bool>)
    ensures
        apply_all(last, last + 1, applied) == (
            last + count_applied(applied),
            last + 1 + count_applied(applied),
        ),
        count_applied(applied) <= applied.len(),
        (apply_all(last, last + 1, applied).0 == last + applied.len()) <==> (count_applied(
            applied,
        ) == applied.len()),
    decreases applied.len(),
{
    if applied.len() > 0 {
        lemma_new_event_numbering(last, applied.drop_last());
    }
}

impl<P, E> AggregateState<P, E> {
    /// The events emitted so far, each with its type.
    pub closed spec fn event_types(self) -> Seq<Seq<char>> {
        Seq::new(self.events@.len(), |i: int| self.events@[i].0@)
    }

    pub closed spec fn event_values(self) -> Seq<E> {
        Seq::new(self.events@.len(), |i: int| self.events@[i].1)
    }

    /// The aggregate addressed so far, if any.
    pub closed spec fn spec_aggregate_id(self) -> Option<String> {
        self.aggregate_id
    }

    /// The current projection.
    pub closed spec fn spec_projection(self) -> P {
        self.projection
    }

    /// The sequence number of the last event applied to the projection.
    pub closed spec fn spec_seq(self) -> i64 {
        self.seq
    }

    /// The state of a command that has not yet addressed an aggregate.
    pub fn new(empty_projection: P) -> (r: AggregateState<P, E>)
        ensures
            r.event_types().len() == 0,
            r.spec_aggregate_id() is None,
            r.spec_projection() == empty_projection,
            r.spec_seq() == -1,
    {
        AggregateState { events: Vec::new(), aggregate_id: None, projection: empty_projection, seq: -1 }
    }

    /// Records an emitted event.
    pub fn emit(&mut self, event_type: &str, event: E)
        ensures
            final(self).event_types() == old(self).event_types().push(event_type@),
            final(self).event_values() == old(self).event_values().push(event),
            final(self).spec_aggregate_id() == old(self).spec_aggregate_id(),
            final(self).spec_projection() == old(self).spec_projection(),
            final(self).spec_seq() == old(self).spec_seq(),
    {
        self.events.push((event_type.to_owned(), event));
        assert(self.event_types() =~= old(self).event_types().push(event_type@));
        assert(self.event_values() =~= old(self).event_values().push(event));
    }

    /// The events emitted so far, each with its type.
    pub fn events(&self) -> (r: &Vec<(String, E)>)
        ensures
            r@.len() == self.event_types().len(),
            forall|i: int|
                0 <= i < r@.len() ==> (#[trigger] r@[i]).0@ == self.event_types()[i] && r@[i].1
                    == self.event_values()[i],
    {
        &self.events
    }

    /// The aggregate addressed so far, if any.
    pub fn aggregate_id(&self) -> (r: &Option<String>)
        ensures
            *r == self.spec_aggregate_id(),
    {
        &self.aggregate_id
    }

    /// The current projection.
    pub fn projection(&self) -> (r: &P)
        ensures
            *r == self.spec_projection(),
    {
        &self.projection
    }

    /// The sequence number of the last event applied to the projection.
    pub fn seq(&self) -> (r: i64)
        ensures
            r == self.spec_seq(),
    {
        self.seq
    }

    /// Addresses the aggregate with the given identifier.  A command may
    /// address only one aggregate: asking for another one than before fails
    /// and changes nothing.
    pub fn claim_aggregate_id(&mut self, aggregate_id: &str) -> (r: Result<(), CommandError>)
        ensures
            final(self).event_types() == old(self).event_types(),
            final(self).event_values() == old(self).event_values(),
            final(self).spec_projection() == old(self).spec_projection(),
            final(self).spec_seq() == old(self).spec_seq(),
            match old(self).spec_aggregate_id() {
                Some(existing) => if existing@ == aggregate_id@ {
                    r is Ok && final(self).spec_aggregate_id() == old(self).spec_aggregate_id()
                } else {
                    final(self).spec_aggregate_id() == old(self).spec_aggregate_id() && (r matches Err(
                        CommandError::InconsistentAggregateId(a, b),
                    ) && a@ == aggregate_id@ && b@ == existing@)
                },
                None => r is Ok && (final(self).spec_aggregate_id() matches Some(id) && id@
                    == aggregate_id@),
            },
    {
        let requested = aggregate_id.to_owned();
        match &self.aggregate_id {
            Some(existing) => {
                if *existing == requested {
                    Ok(())
                } else {
                    Err(CommandError::InconsistentAggregateId(requested, existing.clone()))
                }
            },
            None => {
                self.aggregate_id = Some(requested);
                Ok(())
            },
        }
    }

    /// Takes over a cached projection with the sequence number of its last
    /// event, if the cache held one.
    pub fn restore_cached(&mut self, cached: Option<(i64, P)>)
        ensures
            final(self).event_types() == old(self).event_types(),
            final(self).event_values() == old(self).event_values(),
            final(self).spec_aggregate_id() == old(self).spec_aggregate_id(),
            match cached {
                Some((s, p)) => final(self).spec_seq() == s && final(self).spec_projection() == p,
                None => final(self).spec_seq() == old(self).spec_seq()
                    && final(self).spec_projection() == old(self).spec_projection(),
            },
    {
        match cached {
            Some((s, p)) => {
                self.seq = s;
                self.projection = p;
            },
            None => {},
        }
    }

    /// Whether the projection still has to be restored from the stored events:
    /// no event has been applied to it yet.
    pub fn needs_replay(&self) -> (r: bool)
        ensures
            r == (self.spec_seq() < 0),
    {
        self.seq < 0
    }

    /// Replays a stored event with the given sequence number: the projection
    /// becomes what the event's sourcing handler made of it, if it applied the
    /// event, and the event's number becomes the projection's sequence number
    /// either way.
    pub fn replay_event(&mut self, event_seq: i64, applied: Option<P>)
        ensures
            final(self).event_types() == old(self).event_types(),
            final(self).event_values() == old(self).event_values(),
            final(self).spec_aggregate_id() == old(self).spec_aggregate_id(),
            final(self).spec_seq() == event_seq,
            match applied {
                Some(p) => final(self).spec_projection() == p,
                None => final(self).spec_projection() == old(self).spec_projection(),
            },
    {
        match applied {
            Some(p) => {
                self.projection = p;
            },
            None => {},
        }
        self.seq = event_seq;
    }

    /// Whether the restored projection goes into the cache: some stored event
    /// was applied to it.
    pub fn is_restored(&self) -> (r: bool)
        ensures
            r == (self.spec_seq() >= 0),
    {
        self.seq >= 0
    }

    /// Applies a newly emitted event that was given the number `next_seq`: if
    /// its sourcing handler applied it, the projection becomes the result and
    /// takes that number.  Returns the next number to hand out.
    pub fn apply_new_event(&mut self, next_seq: i64, applied: Option<P>) -> (r: i64)
        requires
            next_seq < i64::MAX,
        ensures
            final(self).event_types() == old(self).event_types(),
            final(self).event_values() == old(self).event_values(),
            final(self).spec_aggregate_id() == old(self).spec_aggregate_id(),
            (final(self).spec_seq() as int, r as int) == apply_step(
                old(self).spec_seq() as int,
                next_seq as int,
                applied is Some,
            ),
            match applied {
                Some(p) => final(self).spec_projection() == p,
                None => final(self).spec_projection() == old(self).spec_projection(),
            },
    {
        match applied {
            Some(p) => {
                self.projection = p;
                self.seq = next_seq;
                next_seq + 1
            },
            None => next_seq,
        }
    }

    /// Replays one stored event of the aggregate.  An event with a payload
    /// needs a sourcing handler for the payload's type: without one, replay
    /// fails and nothing changes.  Otherwise the event becomes the last one
    /// applied, and the projection becomes the one that the handler gave, if
    /// it gave one (an event without payload leaves the projection alone).
    pub fn replay_step(
        &mut self,
        event_seq: i64,
        payload_type: Option<&str>,
        handler_found: bool,
        applied: Option<P>,
    ) -> (r: Result<(), CommandError>)
        ensures
            final(self).event_types() == old(self).event_types(),
            final(self).event_values() == old(self).event_values(),
            final(self).spec_aggregate_id() == old(self).spec_aggregate_id(),
            match payload_type {
                Some(t) => if handler_found {
                    &&& r is Ok
                    &&& final(self).spec_seq() == event_seq
                    &&& match applied {
                        Some(p) => final(self).spec_projection() == p,
                        None => final(self).spec_projection() == old(self).spec_projection(),
                    }
                } else {
                    &&& r matches Err(CommandError::MissingSourcingHandler(n)) && n@ == t@
                    &&& final(self).spec_seq() == old(self).spec_seq()
                    &&& final(self).spec_projection() == old(self).spec_projection()
                },
                None => {
                    &&& r is Ok
                    &&& final(self).spec_seq() == event_seq
                    &&& final(self).spec_projection() == old(self).spec_projection()
                },
            },
    {
        match payload_type {
            Some(t) => {
                if !handler_found {
                    return Err(CommandError::MissingSourcingHandler(t.to_owned()));
                }
                self.replay_event(event_seq, applied);
            },
            None => {
                self.replay_event(event_seq, None);
            },
        }
        Ok(())
    }

    /// Applies one new event, which carries a payload of the given type: it
    /// needs a sourcing handler for that type, and without one nothing changes
    /// and applying fails.  Otherwise as `apply_new_event`, giving the next
    /// number to hand out.
    pub fn new_event_step(
        &mut self,
        next_seq: i64,
        payload_type: &str,
        handler_found: bool,
        applied: Option<P>,
    ) -> (r: Result<i64, CommandError>)
        requires
            next_seq < i64::MAX,
        ensures
            final(self).event_types() == old(self).event_types(),
            final(self).event_values() == old(self).event_values(),
            final(self).spec_aggregate_id() == old(self).spec_aggregate_id(),
            !handler_found ==> {
                &&& r matches Err(CommandError::MissingSourcingHandler(n)) && n@ == payload_type@
                &&& final(self).spec_seq() == old(self).spec_seq()
                &&& final(self).spec_projection() == old(self).spec_projection()
            },
            handler_found ==> {
                &&& r matches Ok(next) && (final(self).spec_seq() as int, next as int) == apply_step(
                    old(self).spec_seq() as int,
                    next_seq as int,
                    applied is Some,
                )
                &&& match applied {
                    Some(p) => final(self).spec_projection() == p,
                    None => final(self).spec_projection() == old(self).spec_projection(),
                }
            },
    {
        if !handler_found {
            return Err(CommandError::MissingSourcingHandler(payload_type.to_owned()));
        }
        Ok(self.apply_new_event(next_seq, applied))
    }
}

/// Whether the projection after applying new events goes into the cache:
/// at least one new event was applied.
pub fn new_events_applied(last_stored_seq: i64, next_seq: i64) -> (r: bool)
    ensures
        r == (next_seq > last_stored_seq + 1),
{
    next_seq as i128 > last_stored_seq as i128 + 1
}

/// The encoded payload of a command; fails, naming the command, when it has
/// no payload.
pub fn command_payload_data(command: &Command) -> (r: Result<Vec<u8>, CommandError>)
    ensures
        match command.payload {
            Some(p) => r matches Ok(d) && d@ == p.data@,
            None => r matches Err(CommandError::NoPayloadData(n)) && n@ == command.name@,
        },
{
    match &command.payload {
        Some(p) => {
            let d = p.data.clone();
            assert(d@ =~= p.data@);
            Ok(d)
        },
        None => Err(CommandError::NoPayloadData(command.name.clone())),
    }
}

/// Where the events emitted by a command are stored: nowhere if there are
/// none; otherwise under the addressed aggregate, numbered from the number
/// after the last stored event.  Fails when events were emitted but no
/// aggregate was addressed.
pub fn store_position(event_count: usize, aggregate_id: Option<String>, last_stored_seq: i64) -> (r:
    Result<Option<(String, i64)>, CommandError>)
    requires
        event_count != 0 && aggregate_id is Some ==> last_stored_seq < i64::MAX,
    ensures
        event_count == 0 ==> r matches Ok(None),
        event_count != 0 ==> match aggregate_id {
            Some(id) => r matches Ok(Some((a, n))) && a == id && n == last_stored_seq + 1,
            None => r matches Err(CommandError::MissingAggregateId),
        },
{
    if event_count == 0 {
        Ok(None)
    } else {
        match aggregate_id {
            Some(id) => Ok(Some((id, last_stored_seq + 1))),
            None => Err(CommandError::MissingAggregateId),
        }
    }
}

/// What a successfully handled command reports: no events (they have been
/// stored) and the handler's response.
pub fn handled_command(response: Option<SerializedObject>) -> (r: EmitEventsAndResponse)
    ensures
        r.events@.len() == 0,
        r.response == response,
{
    EmitEventsAndResponse { events: Vec::new(), response }
}

/// A registered aggregate: the commands it handles and its handle.
pub struct AggregateEntry<A> {
    command_names: Vec<String>,
    handle: A,
}

/// The aggregates known to a command worker, by name.
pub struct TheAggregateRegistry<A> {
    handlers: TextMap<AggregateEntry<A>>,
}

/// The names of the commands of a registered aggregate.
pub closed spec fn declared_commands<A>(entry: AggregateEntry<A>) -> Seq<Seq<char>> {
    Seq::new(entry.command_names@.len(), |i: int| entry.command_names@[i]@)
}

/// The commands of the entries, entry by entry, each entry's in its order.
pub closed spec fn commands_of_entries<A>(entries: Seq<AggregateEntry<A>>) -> Seq<Seq<char>>
    decreases entries.len(),
{
    if entries.len() == 0 {
        Seq::empty()
    } else {
        commands_of_entries(entries.drop_last()) + declared_commands(entries.last())
    }
}

proof fn lemma_commands_of_entries_take<A>(entries: Seq<AggregateEntry<A>>, i: int)
    requires
        0 <= i < entries.len(),
    ensures
        commands_of_entries(entries.take(i + 1)) == commands_of_entries(entries.take(i))
            + declared_commands(entries[i]),
{
    assert(entries.take(i + 1).drop_last() =~= entries.take(i));
}

/// When no entry lists a command twice and no two entries list the same
/// command, the commands of the entries hold each command once, and they hold
/// exactly the commands that some entry lists.
proof fn lemma_commands_of_entries_unique<A>(entries: Seq<AggregateEntry<A>>)
    requires
        forall|i: int| 0 <= i < entries.len() ==> #[trigger] declared_commands(entries[i]).no_duplicates(),
        forall|i: int, j: int, c: Seq<char>|
            0 <= i < entries.len() && 0 <= j < entries.len() && i != j && #[trigger] declared_commands(
                entries[i],
            ).contains(c) ==> !#[trigger] declared_commands(entries[j]).contains(c),
    ensures
        commands_of_entries(entries).no_duplicates(),
        forall|c: Seq<char>| #[trigger]
            commands_of_entries(entries).contains(c) <==> exists|i: int|
                0 <= i < entries.len() && #[trigger] declared_commands(entries[i]).contains(c),
    decreases entries.len(),
{
    if entries.len() > 0 {
        let init = entries.drop_last();
        let n = entries.len() - 1;
        assert forall|i: int| 0 <= i < init.len() implies #[trigger] declared_commands(
            init[i],
        ).no_duplicates() by {
            assert(init[i] == entries[i]);
        }
        assert forall|i: int, j: int, c: Seq<char>|
            0 <= i < init.len() && 0 <= j < init.len() && i != j && #[trigger] declared_commands(
                init[i],
            ).contains(c) implies !#[trigger] declared_commands(init[j]).contains(c) by {
            assert(init[i] == entries[i]);
            assert(init[j] == entries[j]);
        }
        lemma_commands_of_entries_unique(init);
        let a = commands_of_entries(init);
        let b = declared_commands(entries.last());
        assert(declared_commands(entries[n]).no_duplicates());
        assert forall|i: int, j: int| 0 <= i < a.len() && 0 <= j < b.len() implies a[i] != b[j] by {
            if a[i] == b[j] {
                assert(a.contains(a[i]));
                let k = choose|k: int| 0 <= k < init.len() && #[trigger] declared_commands(init[k]).contains(a[i]);
                assert(init[k] == entries[k]);
                assert(b.contains(b[j]));
                assert(declared_commands(entries[k]).contains(a[i]));
                assert(!declared_commands(entries[n]).contains(a[i]));
            }
        }
        vstd::seq_lib::lemma_no_dup_in_concat(a, b);
        assert(commands_of_entries(entries) == a + b);
        assert forall|c: Seq<char>| #[trigger] commands_of_entries(entries).contains(c) <==> exists|i: int|
            0 <= i < entries.len() && #[trigger] declared_commands(entries[i]).contains(c) by {
            if (a + b).contains(c) {
                let x = choose|x: int| 0 <= x < (a + b).len() && (a + b)[x] == c;
                if x < a.len() {
                    assert(a[x] == c);
                    assert(a.contains(c));
                    let k = choose|k: int| 0 <= k < init.len() && #[trigger] declared_commands(init[k]).contains(c);
                    assert(init[k] == entries[k]);
                } else {
                    assert(b[x - a.len()] == c);
                    assert(declared_commands(entries[n]).contains(c));
                }
            }
            if exists|i: int| 0 <= i < entries.len() && #[trigger] declared_commands(entries[i]).contains(c) {
                let k = choose|k: int| 0 <= k < entries.len() && #[trigger] declared_commands(entries[k]).contains(c);
                if k < n {
                    assert(init[k] == entries[k]);
                    assert(declared_commands(init[k]).contains(c));
                    assert(a.contains(c));
                    let x = choose|x: int| 0 <= x < a.len() && a[x] == c;
                    assert((a + b)[x] == c);
                } else {
                    let x = choose|x: int| 0 <= x < b.len() && b[x] == c;
                    assert((a + b)[a.len() + x] == c);
                }
            }
        }
    }
}

impl<A> TheAggregateRegistry<A> {
    /// The commands of all registered aggregates, in the order in which the
    /// aggregates were first registered, each aggregate's in the order it
    /// lists them.
    pub closed spec fn listed_commands(self) -> Seq<Seq<char>> {
        commands_of_entries(self.handlers.value_seq())
    }

    /// When no registered aggregate declares a command twice and no two
    /// declare the same command, the listed commands (those that
    /// `register_commands` appends) hold each declared command exactly once,
    /// and no other.
    pub proof fn lemma_listed_commands_unique(self)
        requires
            self.wf(),
            forall|a: Seq<char>| #[trigger]
                self.commands().contains_key(a) ==> self.commands()[a].no_duplicates(),
            forall|a: Seq<char>, b: Seq<char>, c: Seq<char>|
                self.commands().contains_key(a) && self.commands().contains_key(b) && a != b
                    && #[trigger] self.commands()[a].contains(c) ==> !#[trigger] self.commands()[b].contains(c),
        ensures
            self.listed_commands().no_duplicates(),
            forall|c: Seq<char>| #[trigger] self.listed_commands().contains(c) <==> self.declares(c),
    {
        self.handlers.lemma_view_matches_entries();
        let ks = self.handlers.key_seq();
        let vs = self.handlers.value_seq();
        assert forall|i: int| 0 <= i < vs.len() implies #[trigger] declared_commands(vs[i]).no_duplicates() by {
            assert(ks.contains(ks[i]));
            assert(self.commands().contains_key(ks[i]));
            assert(self.commands()[ks[i]] == declared_commands(vs[i]));
        }
        assert forall|i: int, j: int, c: Seq<char>|
            0 <= i < vs.len() && 0 <= j < vs.len() && i != j && #[trigger] declared_commands(
                vs[i],
            ).contains(c) implies !#[trigger] declared_commands(vs[j]).contains(c) by {
            assert(ks.contains(ks[i]));
            assert(ks.contains(ks[j]));
            assert(ks[i] != ks[j]);
            assert(self.commands()[ks[i]] == declared_commands(vs[i]));
            assert(self.commands()[ks[j]] == declared_commands(vs[j]));
        }
        lemma_commands_of_entries_unique(vs);
        assert forall|c: Seq<char>| #[trigger] self.listed_commands().contains(c) <==> self.declares(c) by {
            if self.listed_commands().contains(c) {
                let i = choose|i: int| 0 <= i < vs.len() && #[trigger] declared_commands(vs[i]).contains(c);
                assert(ks.contains(ks[i]));
                assert(self.commands()[ks[i]] == declared_commands(vs[i]));
                assert(self.commands().contains_key(ks[i]) && self.commands()[ks[i]].contains(c));
            }
            if self.declares(c) {
                let a = choose|a: Seq<char>| #[trigger]
                    self.commands().contains_key(a) && self.commands()[a].contains(c);
                assert(ks.contains(a));
                let i = choose|i: int| 0 <= i < ks.len() && ks[i] == a;
                assert(self.commands()[ks[i]] == declared_commands(vs[i]));
                assert(declared_commands(vs[i]).contains(c));
            }
        }
    }

    /// Some registered aggregate declares the command.
    pub open spec fn declares(self, c: Seq<char>) -> bool {
        exists|a: Seq<char>| #[trigger]
            self.commands().contains_key(a) && self.commands()[a].contains(c)
    }

    pub closed spec fn wf(self) -> bool {
        self.handlers.wf()
    }

    /// Each registered aggregate's name mapped to the commands it handles.
    pub closed spec fn commands(self) -> Map<Seq<char>, Seq<Seq<char>>> {
        Map::new(
            |k: Seq<char>| self.handlers@.contains_key(k),
            |k: Seq<char>| declared_commands(self.handlers@[k]),
        )
    }

    /// Each registered aggregate's name mapped to its handle.
    pub closed spec fn handles(self) -> Map<Seq<char>, A> {
        Map::new(|k: Seq<char>| self.handlers@.contains_key(k), |k: Seq<char>| self.handlers@[k].handle)
    }

    /// Registers an aggregate under its name with the commands it handles,
    /// replacing an aggregate registered under that name before.
    pub fn insert(&mut self, name: String, command_names: Vec<String>, handle: A)
        requires
            old(self).wf(),
        ensures
            final(self).wf(),
            final(self).commands() == old(self).commands().insert(
                name@,
                Seq::new(command_names@.len(), |i: int| command_names@[i]@),
            ),
            final(self).handles() == old(self).handles().insert(name@, handle),
            !old(self).commands().contains_key(name@) ==> final(self).listed_commands() == old(
                self,
            ).listed_commands() + Seq::new(command_names@.len(), |i: int| command_names@[i]@),
    {
        let ghost names = Seq::new(command_names@.len(), |i: int| command_names@[i]@);
        let entry = AggregateEntry { command_names, handle };
        assert(declared_commands(entry) =~= names);
        self.handlers.insert(name, entry);
        assert(self.commands() =~= old(self).commands().insert(name@, names));
        proof {
            if !old(self).commands().contains_key(name@) {
                let vs = self.handlers.value_seq();
                assert(vs.drop_last() =~= old(self).handlers.value_seq());
                assert(vs.last() == entry);
            }
        }
        assert(self.handles() =~= old(self).handles().insert(name@, handle));
    }

    /// The handle of the aggregate registered under the name, if any.
    pub fn get(&self, name: &str) -> (r: Option<&A>)
        requires
            self.wf(),
        ensures
            match r {
                Some(h) => self.handles().contains_key(name@) && *h == self.handles()[name@],
                None => !self.handles().contains_key(name@),
            },
    {
        match self.handlers.get(name) {
            Some(entry) => Some(&entry.handle),
            None => None,
        }
    }

    /// Lists every command of every registered aggregate and routes each to an
    /// aggregate that handles it.  The listed commands (`listed_commands`:
    /// aggregate by aggregate, each one's commands in its order) are appended
    /// to `commands`; in `routes`, each listed command is mapped to the name of an
    /// aggregate that declares it (the last one registered, if several do),
    /// and other entries stay as they were.
    pub fn register_commands(&self, commands: &mut Vec<String>, routes: &mut TextMap<String>)
        requires
            self.wf(),
            old(routes).wf(),
        ensures
            final(routes).wf(),
            final(commands)@.len() == old(commands)@.len() + self.listed_commands().len(),
            forall|i: int|
                0 <= i < old(commands)@.len() ==> #[trigger] final(commands)@[i] == old(commands)@[i],
            forall|i: int|
                0 <= i < self.listed_commands().len() ==> #[trigger] final(commands)@[old(
                    commands,
                )@.len() + i]@ == self.listed_commands()[i],
            forall|i: int|
                #![trigger final(commands)@[i]]
                old(commands)@.len() <= i < final(commands)@.len() ==> self.declares(final(commands)@[i]@),
            forall|a: Seq<char>, c: Seq<char>|
                #![trigger self.commands()[a].contains(c)]
                self.commands().contains_key(a) && self.commands()[a].contains(c) ==> {
                    &&& exists|i: int|
                        old(commands)@.len() <= i < final(commands)@.len() && #[trigger] final(commands)@[i]@ == c
                    &&& final(routes)@.contains_key(c)
                    &&& self.commands().contains_key(final(routes)@[c]@)
                    &&& self.commands()[final(routes)@[c]@].contains(c)
                },
            forall|k: Seq<char>|
                !(self.declares(k))
                    ==> (#[trigger] final(routes)@.contains_key(k) == old(routes)@.contains_key(k))
                    && (old(routes)@.contains_key(k) ==> final(routes)@[k] == old(routes)@[k]),
    {
        proof {
            self.handlers.lemma_view_matches_entries();
        }
        let ghost start = commands@.len();
        let ghost old_routes = routes@;
        let n = self.handlers.len();
        let mut i: usize = 0;
        while i < n
            invariant
                self.wf(),
                self.handlers.wf(),
                n == self.handlers.key_seq().len(),
                i <= n,
                routes.wf(),
                commands@.len() >= start,
                self.handlers.value_seq().len() == n,
                commands@.len() == start + commands_of_entries(
                    self.handlers.value_seq().take(i as int),
                ).len(),
                forall|j: int|
                    0 <= j < commands_of_entries(self.handlers.value_seq().take(i as int)).len()
                        ==> #[trigger] commands@[start + j]@ == commands_of_entries(
                        self.handlers.value_seq().take(i as int),
                    )[j],
                forall|j: int| 0 <= j < start ==> #[trigger] commands@[j] == old(commands)@[j],
                // every appended command is declared by some aggregate
                forall|j: int|
                    #![trigger commands@[j]]
                    start <= j < commands@.len() ==> self.declares(commands@[j]@),
                // the commands of the aggregates visited so far are listed and routed
                forall|m: int, c: Seq<char>|
                    #![trigger self.commands()[self.handlers.key_seq()[m]].contains(c)]
                    0 <= m < i && self.commands()[self.handlers.key_seq()[m]].contains(c) ==> {
                        &&& exists|j: int|
                            start <= j < commands@.len() && #[trigger] commands@[j]@ == c
                        &&& routes@.contains_key(c)
                        &&& self.commands().contains_key(routes@[c]@)
                        &&& self.commands()[routes@[c]@].contains(c)
                    },
                // every route that was added points to an aggregate that declares it
                forall|k: Seq<char>|
                    #![trigger routes@.contains_key(k)]
                    routes@.contains_key(k) && !(old_routes.contains_key(k) && routes@[k]
                        == old_routes[k]) ==> {
                        &&& self.commands().contains_key(routes@[k]@)
                        &&& self.commands()[routes@[k]@].contains(k)
                    },
                forall|k: Seq<char>|
                    #![trigger routes@.contains_key(k)]
                    old_routes.contains_key(k) ==> routes@.contains_key(k),
                forall|k: Seq<char>|
                    #![trigger routes@.contains_key(k)]
                    routes@.contains_key(k) && !old_routes.contains_key(k) ==> self.declares(k),
            decreases n - i,
        {
            let name = self.handlers.key_at(i);
            let entry = self.handlers.value_at(i);
            let ghost a = self.handlers.key_seq()[i as int];
            proof {
                self.handlers.lemma_view_matches_entries();
                assert(self.handlers.key_seq().contains(a));
                assert(self.commands()[a] == declared_commands(*entry));
            }
            let count = entry.command_names.len();
            let mut k: usize = 0;
            while k < count
                invariant
                    self.wf(),
                    self.handlers.wf(),
                    n == self.handlers.key_seq().len(),
                    i < n,
                    a == self.handlers.key_seq()[i as int],
                    name@ == a,
                    self.commands().contains_key(a),
                    self.commands()[a] == declared_commands(*entry),
                    count == entry.command_names@.len(),
                    k <= count,
                    self.handlers.value_seq().len() == n,
                    *entry == self.handlers.value_seq()[i as int],
                    commands@.len() == start + commands_of_entries(
                        self.handlers.value_seq().take(i as int),
                    ).len() + k,
                    forall|j: int|
                        0 <= j < commands_of_entries(self.handlers.value_seq().take(i as int)).len()
                            ==> #[trigger] commands@[start + j]@ == commands_of_entries(
                            self.handlers.value_seq().take(i as int),
                        )[j],
                    forall|q: int|
                        0 <= q < k ==> #[trigger] commands@[start + commands_of_entries(
                            self.handlers.value_seq().take(i as int),
                        ).len() + q]@ == entry.command_names@[q]@,
                    routes.wf(),
                    commands@.len() >= start,
                    forall|j: int| 0 <= j < start ==> #[trigger] commands@[j] == old(commands)@[j],
                    forall|j: int|
                        #![trigger commands@[j]]
                        start <= j < commands@.len() ==> self.declares(commands@[j]@),
                    forall|m: int, c: Seq<char>|
                        #![trigger self.commands()[self.handlers.key_seq()[m]].contains(c)]
                        0 <= m < i && self.commands()[self.handlers.key_seq()[m]].contains(c) ==> {
                            &&& exists|j: int|
                                start <= j < commands@.len() && #[trigger] commands@[j]@ == c
                            &&& routes@.contains_key(c)
                            &&& self.commands().contains_key(routes@[c]@)
                            &&& self.commands()[routes@[c]@].contains(c)
                        },
                    forall|q: int|
                        0 <= q < k ==> {
                            let c = #[trigger] entry.command_names@[q]@;
                            &&& exists|j: int|
                                start <= j < commands@.len() && #[trigger] commands@[j]@ == c
                            &&& routes@.contains_key(c)
                            &&& self.commands().contains_key(routes@[c]@)
                            &&& self.commands()[routes@[c]@].contains(c)
                        },
                    forall|c: Seq<char>|
                        #![trigger routes@.contains_key(c)]
                        routes@.contains_key(c) && !(old_routes.contains_key(c) && routes@[c]
                            == old_routes[c]) ==> {
                            &&& self.commands().contains_key(routes@[c]@)
                            &&& self.commands()[routes@[c]@].contains(c)
                        },
                    forall|c: Seq<char>|
                        #![trigger routes@.contains_key(c)]
                        old_routes.contains_key(c) ==> routes@.contains_key(c),
                    forall|c: Seq<char>|
                        #![trigger routes@.contains_key(c)]
                        routes@.contains_key(c) && !old_routes.contains_key(c) ==> self.declares(c),
                decreases count - k,
            {
                let command_name = &entry.command_names[k];
                let ghost c = command_name@;
                proof {
                    assert(declared_commands(*entry)[k as int] == c);
                    assert(self.commands()[a].contains(c));
                }
                let ghost pre_commands = commands@;
                let ghost pre_routes = routes@;
                commands.push(command_name.clone());
                routes.insert(command_name.clone(), name.clone());
                proof {
                    let j = commands@.len() - 1;
                    assert(commands@[j]@ == c);
                    assert(routes@ == pre_routes.insert(c, routes@[c]));
                    assert forall|c2: Seq<char>| #[trigger] pre_routes.contains_key(c2) && c2 != c
                        implies routes@.contains_key(c2) && routes@[c2] == pre_routes[c2] by {}
                    assert forall|q: int| 0 <= q < k + 1 implies {
                        let c2 = #[trigger] entry.command_names@[q]@;
                        &&& exists|j: int|
                            start <= j < commands@.len() && #[trigger] commands@[j]@ == c2
                        &&& routes@.contains_key(c2)
                        &&& self.commands().contains_key(routes@[c2]@)
                        &&& self.commands()[routes@[c2]@].contains(c2)
                    } by {
                        let c2 = entry.command_names@[q]@;
                        if q < k {
                            let j2 = choose|j2: int|
                                start <= j2 < pre_commands.len() && #[trigger] pre_commands[j2]@ == c2;
                            assert(commands@[j2]@ == c2);
                            if c2 == c {
                                assert(routes@[c2]@ == a);
                            } else {
                                assert(pre_routes.contains_key(c2));
                            }
                        } else {
                            assert(commands@[j]@ == c2);
                        }
                    }
                    assert forall|m: int, c2: Seq<char>|
                        #![trigger self.commands()[self.handlers.key_seq()[m]].contains(c2)]
                        0 <= m < i && self.commands()[self.handlers.key_seq()[m]].contains(
                            c2,
                        ) implies {
                        &&& exists|j2: int|
                            start <= j2 < commands@.len() && #[trigger] commands@[j2]@ == c2
                        &&& routes@.contains_key(c2)
                        &&& self.commands().contains_key(routes@[c2]@)
                        &&& self.commands()[routes@[c2]@].contains(c2)
                    } by {
                        let j2 = choose|j2: int|
                            start <= j2 < pre_commands.len() && #[trigger] pre_commands[j2]@ == c2;
                        assert(commands@[j2]@ == c2);
                        if c2 == c {
                            assert(routes@[c2]@ == a);
                        } else {
                            assert(pre_routes.contains_key(c2));
                        }
                    }
                    assert forall|j2: int| #![trigger commands@[j2]] start <= j2 < commands@.len() implies self.declares(commands@[j2]@) by {
                        if j2 == j {
                            assert(self.commands().contains_key(a) && self.commands()[a].contains(
                                commands@[j2]@,
                            ));
                        } else {
                            assert(commands@[j2] == pre_commands[j2]);
                        }
                    }
                    assert forall|c2: Seq<char>|
                        #![trigger routes@.contains_key(c2)]
                        routes@.contains_key(c2) && !(old_routes.contains_key(c2) && routes@[c2]
                            == old_routes[c2]) implies {
                            &&& self.commands().contains_key(routes@[c2]@)
                            &&& self.commands()[routes@[c2]@].contains(c2)
                        } by {
                        if c2 != c {
                            assert(pre_routes.contains_key(c2));
                        }
                    }
                    assert forall|c2: Seq<char>|
                        #![trigger routes@.contains_key(c2)]
                        routes@.contains_key(c2) && !old_routes.contains_key(c2) implies self.declares(c2) by {
                        if c2 == c {
                            assert(self.commands().contains_key(a) && self.commands()[a].contains(c2));
                        } else {
                            assert(pre_routes.contains_key(c2));
                        }
                    }
                    assert forall|c2: Seq<char>|
                        #![trigger routes@.contains_key(c2)]
                        old_routes.contains_key(c2) implies routes@.contains_key(c2) by {
                        if c2 != c {
                            assert(pre_routes.contains_key(c2));
                        }
                    }
                }
                k = k + 1;
            }
            proof {
                assert forall|m: int, c: Seq<char>|
                    #![trigger self.commands()[self.handlers.key_seq()[m]].contains(c)]
                    0 <= m < i + 1 && self.commands()[self.handlers.key_seq()[m]].contains(
                        c,
                    ) implies {
                    &&& exists|j: int| start <= j < commands@.len() && #[trigger] commands@[j]@ == c
                    &&& routes@.contains_key(c)
                    &&& self.commands().contains_key(routes@[c]@)
                    &&& self.commands()[routes@[c]@].contains(c)
                } by {
                    if m == i {
                        let q = choose|q: int|
                            0 <= q < declared_commands(*entry).len() && declared_commands(
                                *entry,
                            )[q] == c;
                        assert(entry.command_names@[q]@ == c);
                    }
                }
            }
            proof {
                let vs = self.handlers.value_seq();
                lemma_commands_of_entries_take(vs, i as int);
                let before = commands_of_entries(vs.take(i as int));
                let after = commands_of_entries(vs.take(i + 1));
                assert forall|j: int| 0 <= j < after.len() implies #[trigger] commands@[start
                    + j]@ == after[j] by {
                    if j < before.len() {
                        assert(after[j] == before[j]);
                    } else {
                        let q = j - before.len();
                        assert(after[j] == declared_commands(*entry)[q]);
                        assert(commands@[start + before.len() + q]@ == entry.command_names@[q]@);
                    }
                }
            }
            i = i + 1;
        }
        proof {
            let vs = self.handlers.value_seq();
            assert(vs.take(n as int) =~= vs);
            assert(commands_of_entries(vs.take(n as int)) == self.listed_commands());
            assert forall|k: Seq<char>| !(self.declares(k)) implies (routes@.contains_key(k)
                == old_routes.contains_key(k)) && (old_routes.contains_key(k) ==> routes@[k]
                == old_routes[k]) by {
                if routes@.contains_key(k) && !(old_routes.contains_key(k) && routes@[k]
                    == old_routes[k]) {
                    assert(self.commands().contains_key(routes@[k]@) && self.commands()[routes@[
                        k]@].contains(k));
                }
            }
            assert forall|a: Seq<char>, c: Seq<char>|
                #![trigger self.commands()[a].contains(c)]
                self.commands().contains_key(a) && self.commands()[a].contains(c) implies {
                &&& exists|j: int| start <= j < commands@.len() && #[trigger] commands@[j]@ == c
                &&& routes@.contains_key(c)
                &&& self.commands().contains_key(routes@[c]@)
                &&& self.commands()[routes@[c]@].contains(c)
            } by {
                assert(self.handlers.key_seq().contains(a));
                let m = choose|m: int|
                    0 <= m < self.handlers.key_seq().len() && self.handlers.key_seq()[m] == a;
                assert(self.commands()[self.handlers.key_seq()[m]].contains(c));
            }
        }
    }
}

/// A registry with no aggregates.
pub fn empty_aggregate_registry<A>() -> (r: TheAggregateRegistry<A>)
    ensures
        r.wf(),
        r.commands() == Map::<Seq<char>, Seq<Seq<char>>>::empty(),
        r.handles() == Map::<Seq<char>, A>::empty(),
{
    let r = TheAggregateRegistry { handlers: TextMap::new() };
    assert(r.commands() =~= Map::<Seq<char>, Seq<Seq<char>>>::empty());
    assert(r.handles() =~= Map::<Seq<char>, A>::empty());
    r
}

} // verus!
