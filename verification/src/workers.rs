//! The workers of a client, and how they are stopped together.
//!
//! Each worker runs until it stops by itself or is told to stop.  The client
//! keeps a registry of its running workers, by identifier.  Joining the
//! workers waits until one of them stops (or a termination signal arrives),
//! then tells every remaining worker to unsubscribe and stop, and waits until
//! all of them have stopped.
use vstd::prelude::*;
use vstd::std_specs::iter::IteratorSpec;

verus! {

/// A command for a worker.
#[derive(Clone, Copy, Debug, PartialEq, Eq, Structural)]
pub enum WorkerCommand {
    Unsubscribe,
    Stop,
}

/// The running workers, each with its handle, by identifier.
pub struct WorkerRegistry<H> {
    workers: std::collections::HashMap<u128, H>,
}

impl<H> WorkerRegistry<H> {
    /// The handle of each running worker, by identifier.
    pub closed spec fn handles(self) -> Map<u128, H> {
        self.workers@
    }

    /// The identifiers of the running workers.
    pub open spec fn ids(self) -> Set<u128> {
        self.handles().dom()
    }

    /// No workers.
    pub fn new() -> (r: WorkerRegistry<H>)
        ensures
            r.handles() == Map::<u128, H>::empty(),
    {
        WorkerRegistry { workers: std::collections::HashMap::new() }
    }

    /// Whether any worker is running.
    pub fn has_workers(&self) -> (r: bool)
        ensures
            r == (self.ids() != Set::<u128>::empty()),
    {
        let empty = self.workers.is_empty();
        proof {
            if !empty {
                assert(!(self.ids() =~= Set::<u128>::empty()));
            }
        }
        !empty
    }

    /// Registers a running worker, replacing a worker registered before
    /// under the same identifier.
    pub fn insert(&mut self, id: u128, handle: H)
        ensures
            final(self).handles() == old(self).handles().insert(id, handle),
    {
        broadcast use vstd::std_specs::hash::group_hash_axioms;

        self.workers.insert(id, handle);
    }

    /// Forgets the worker with the given identifier, if it is registered.
    pub fn remove_worker(&mut self, id: u128)
        ensures
            final(self).handles() == old(self).handles().remove(id),
    {
        broadcast use vstd::std_specs::hash::group_hash_axioms;

        self.workers.remove(&id);
    }

    /// The identifiers of the running workers, each once, in the order in
    /// which the map holds them.
    pub fn worker_ids(&self) -> (r: Vec<u128>)
        ensures
            r@.no_duplicates(),
            r@.to_set() == self.ids(),
    {
        broadcast use vstd::std_specs::hash::group_hash_axioms;

        let ghost all = vstd::std_specs::hash::spec_keys_iter(&self.workers).remaining();
        let mut r: Vec<u128> = Vec::new();
        for id in it: self.workers.keys()
            invariant
                it.seq() == all,
                r@ == all.take(it.index() as int).map_values(|k: &u128| *k),
        {
            r.push(*id);
            assert(r@ =~= all.take(it.index() + 1).map_values(|k: &u128| *k));
        }
        assert(r@ =~= all.unref());
        r
    }

    /// The handle of the running worker with the given identifier, if any.
    pub fn get(&self, id: u128) -> (r: Option<&H>)
        ensures
            match r {
                Some(h) => self.handles().contains_key(id) && *h == self.handles()[id],
                None => !self.handles().contains_key(id),
            },
    {
        broadcast use vstd::std_specs::hash::group_hash_axioms;

        self.workers.get(&id)
    }
}

/// Where joining the workers stands.
#[derive(Clone, Copy, Debug, PartialEq, Eq, Structural)]
pub enum JoinPhase {
    /// Nothing has happened yet.
    Start,
    /// Waiting for the first worker to stop, or for a termination signal.
    AwaitFirstStop,
    /// Telling the remaining workers to unsubscribe and stop.
    Stopping,
    /// Waiting for the remaining workers to stop.
    Draining,
    /// All workers have stopped.
    Done,
}

/// What happened.
#[derive(Clone, Copy, Debug, PartialEq, Eq, Structural)]
pub enum JoinEvent {
    /// Joining begins.
    Begin,
    /// The worker with this identifier stopped (a termination signal counts
    /// as the stop of a worker that is not registered).
    WorkerStopped(u128),
    /// Every worker in the list of the last `SendStops` was told to
    /// unsubscribe and to stop.
    StopsSent,
}

/// What to do next.
#[derive(Debug)]
pub enum JoinAction {
    /// Wait for a worker to stop or for a termination signal.
    AwaitStoppedOrSignal,
    /// Wait for a worker to stop.
    AwaitStopped,
    /// Send `Unsubscribe` and then `Stop` to each of these workers.
    SendStops(Vec<u128>),
    /// All workers have stopped; joining is over.
    Finished,
}

/// Whether the event can happen in the phase.
pub open spec fn expected_event(phase: JoinPhase, event: JoinEvent) -> bool {
    match phase {
        JoinPhase::Start => event is Begin,
        JoinPhase::AwaitFirstStop => event is WorkerStopped,
        JoinPhase::Stopping => event is StopsSent,
        JoinPhase::Draining => event is WorkerStopped,
        JoinPhase::Done => false,
    }
}

/// Takes one step of joining the workers: updates the registry and the phase
/// for the event and says what to do next.  The phase is `Done` exactly when
/// the answer is `Finished`, and then no worker is registered.
pub fn join_step<H>(phase: &mut JoinPhase, registry: &mut WorkerRegistry<H>, event: JoinEvent) -> (a:
    JoinAction)
    requires
        expected_event(*old(phase), event),
    ensures
        (*final(phase) == JoinPhase::Done) <==> (a is Finished),
        a is Finished ==> final(registry).ids() == Set::<u128>::empty(),
        match event {
            JoinEvent::WorkerStopped(id) => final(registry).handles() == old(registry).handles().remove(id),
            _ => final(registry).handles() == old(registry).handles(),
        },
        match *old(phase) {
            JoinPhase::Start => if old(registry).ids() == Set::<u128>::empty() {
                a is Finished
            } else {
                a is AwaitStoppedOrSignal && *final(phase) == JoinPhase::AwaitFirstStop
            },
            JoinPhase::AwaitFirstStop => *final(phase) == JoinPhase::Stopping && (a matches JoinAction::SendStops(ids)
                && ids@.no_duplicates() && ids@.to_set() == final(registry).ids()),
            JoinPhase::Stopping | JoinPhase::Draining => if final(registry).ids() == Set::<u128>::empty() {
                a is Finished
            } else {
                a is AwaitStopped && *final(phase) == JoinPhase::Draining
            },
            JoinPhase::Done => false,
        },
{
    match event {
        JoinEvent::Begin => {
            if registry.has_workers() {
                *phase = JoinPhase::AwaitFirstStop;
                JoinAction::AwaitStoppedOrSignal
            } else {
                *phase = JoinPhase::Done;
                JoinAction::Finished
            }
        },
        JoinEvent::WorkerStopped(id) => {
            registry.remove_worker(id);
            if *phase == JoinPhase::AwaitFirstStop {
                *phase = JoinPhase::Stopping;
                JoinAction::SendStops(registry.worker_ids())
            } else if registry.has_workers() {
                JoinAction::AwaitStopped
            } else {
                *phase = JoinPhase::Done;
                JoinAction::Finished
            }
        },
        JoinEvent::StopsSent => {
            if registry.has_workers() {
                *phase = JoinPhase::Draining;
                JoinAction::AwaitStopped
            } else {
                *phase = JoinPhase::Done;
                JoinAction::Finished
            }
        },
    }
}

} // verus!
