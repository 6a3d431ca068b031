//! Connecting to AxonServer.
//!
//! A client reaches AxonServer at `http://<host>:<port>`, identifies itself
//! with a fresh client identifier and a component name derived from its
//! label, and registers with the platform service.
use crate::ids::new_message_identifier;
use crate::messages::{
    ClientIdentification, GetAggregateEventsRequest, PlatformInboundInstruction,
    PlatformInboundRequest,
};
use crate::text_map::TextMap;
use crate::tracking_token::hex_digit_text;
use vstd::prelude::*;

verus! {

/// The character of a decimal digit.
pub open spec fn digit_char(d: nat) -> char {
    (48 + d) as char
}

/// The decimal notation of a number, without sign or leading zeros.
pub open spec fn decimal(n: nat) -> Seq<char>
    decreases n,
{
    if n < 10 {
        seq![digit_char(n)]
    } else {
        decimal(n / 10).push(digit_char(n % 10))
    }
}

/// Whether a character is a decimal digit.
pub open spec fn is_decimal_digit(c: char) -> bool {
    '0' <= c && c <= '9'
}

/// The number that a sequence of decimal digits denotes, the last digit
/// counting ones (0 for no digits).
pub open spec fn decimal_value(s: Seq<char>) -> int
    decreases s.len(),
{
    if s.len() == 0 {
        0
    } else {
        decimal_value(s.drop_last()) * 10 + (s.last() as int - '0' as int)
    }
}

/// `decimal(n)` is the usual decimal notation of `n`: at least one
/// character, decimal digits only, denoting `n`, and starting with `0` only
/// when it is `0` itself.
pub proof fn lemma_decimal_notation(n: nat)
    ensures
        decimal(n).len() > 0,
        forall|i: int| 0 <= i < decimal(n).len() ==> is_decimal_digit(#[trigger] decimal(n)[i]),
        decimal_value(decimal(n)) == n,
        decimal(n)[0] == '0' ==> decimal(n) == seq!['0'],
    decreases n,
{
    if n < 10 {
        let s = decimal(n);
        assert(s.drop_last() =~= Seq::<char>::empty());
        assert(decimal_value(s.drop_last()) == 0);
        assert(s.last() == digit_char(n));
        assert(digit_char(n) as int == 48 + n);
        assert('0' as int == 48);
        assert(decimal_value(s) == decimal_value(s.drop_last()) * 10 + (s.last() as int - '0' as int));
        if s[0] == '0' {
            assert(n == 0);
            assert(s =~= seq!['0']);
        }
    } else {
        lemma_decimal_notation(n / 10);
        let s = decimal(n);
        let h = decimal(n / 10);
        assert(s.drop_last() =~= h);
        assert(s.last() == digit_char(n % 10));
        assert(digit_char(n % 10) as int == 48 + n % 10);
        assert forall|i: int| 0 <= i < s.len() implies is_decimal_digit(#[trigger] s[i]) by {
            if i < h.len() {
                assert(s[i] == h[i]);
            }
        }
        assert(s[0] == h[0]);
        assert(n == (n / 10) * 10 + n % 10);
        assert('0' as int == 48);
        assert(decimal_value(s) == decimal_value(s.drop_last()) * 10 + (s.last() as int - '0' as int));
        if s[0] == '0' {
            assert(h == seq!['0']);
            assert(h.drop_last() =~= Seq::<char>::empty());
            assert(decimal_value(h.drop_last()) == 0);
            assert(decimal_value(h) == decimal_value(h.drop_last()) * 10 + (h.last() as int - '0' as int));
        }
    }
}

/// The decimal notation of a number, as `ToString::to_string` writes an
/// unsigned integer.
fn decimal_text(n: u64) -> (r: String)
    ensures
        r@ == decimal(n as nat),
    decreases n,
{
    if n < 10 {
        hex_digit_text(n).to_owned()
    } else {
        let mut r = decimal_text(n / 10);
        r.append(hex_digit_text(n % 10));
        assert(r@ =~= decimal((n / 10) as nat).push(digit_char((n % 10) as nat)));
        r
    }
}

/// The address of AxonServer on the given host and port.
pub fn server_url(host: &str, port: u32) -> (r: String)
    ensures
        r@ == "http://"@ + host@ + ":"@ + decimal(port as nat),
{
    let mut r = "http://".to_owned();
    r.append(host);
    r.append(":");
    let p = decimal_text(port as u64);
    r.append(p.as_str());
    r
}

/// The prefix of the component name with which a client identifies itself.
pub const COMPONENT_PREFIX: &'static str = "Rust client ";

/// How a client with the given label and identifier identifies itself: as
/// component "Rust client <label>", with no tags and no version.
pub fn client_identification(label: &str, client_id: &str) -> (r: ClientIdentification)
    ensures
        r.client_id@ == client_id@,
        r.component_name@ == COMPONENT_PREFIX@ + label@,
        r.tags.wf(),
        r.tags@ == Map::<Seq<char>, String>::empty(),
        r.version@ == Seq::<char>::empty(),
{
    proof {
        reveal_strlit("");
        assert(""@ =~= Seq::<char>::empty());
    }
    let mut component_name = COMPONENT_PREFIX.to_owned();
    component_name.append(label);
    ClientIdentification {
        client_id: client_id.to_owned(),
        component_name,
        tags: TextMap::new(),
        version: "".to_owned(),
    }
}

/// The instruction with which a client registers with the platform service,
/// under a fresh instruction identifier.
pub fn register_instruction(label: &str, client_id: &str) -> (r: PlatformInboundInstruction)
    ensures
        crate::ids::is_v4_uuid_text(r.instruction_id@),
        r.request matches Some(PlatformInboundRequest::Register(c)) && c.client_id@ == client_id@
            && c.component_name@ == COMPONENT_PREFIX@ + label@,
{
    let identification = client_identification(label, client_id);
    PlatformInboundInstruction {
        instruction_id: new_message_identifier(),
        request: Some(PlatformInboundRequest::Register(identification)),
    }
}

/// The request for all events of an aggregate, from the first, without
/// snapshots.
pub fn aggregate_events_request(aggregate_id: &str) -> (r: GetAggregateEventsRequest)
    ensures
        r.aggregate_id@ == aggregate_id@,
        !r.allow_snapshots,
        r.initial_sequence == 0,
        r.max_sequence == i64::MAX,
        r.min_token == 0,
{
    GetAggregateEventsRequest {
        aggregate_id: aggregate_id.to_owned(),
        allow_snapshots: false,
        initial_sequence: 0,
        max_sequence: i64::MAX,
        min_token: 0,
    }
}

} // verus!

verus! {

/// A handle on AxonServer, as the code that submits commands sees it: the
/// identifier and the display name of the client.
pub trait AxonServerHandleTrait {
    fn client_id(&self) -> &str;

    fn display_name(&self) -> &str;
}

} // verus!
