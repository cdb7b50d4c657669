//! Request/response correlation.
//!
//! While a request is outstanding the reader keeps decoding messages until
//! one arrives that is not an event: the first `response`-kind message is
//! the answer, however many events came before it, and a message of any
//! other kind is handed back as-is for forward compatibility.  Events seen
//! while waiting are surfaced to the caller for logging, never mistaken
//! for the answer.
//!
//! The session slot's exclusive lock serializes request issuance, so at most
//! one request is ever in flight per session; the first response on the
//! stream therefore answers the request just sent, and no sequence-number
//! check is needed to pair them.

use vstd::prelude::*;
use crate::protocol::JValue;
use crate::protocol::MessageKind;
use crate::protocol::classify;
use crate::protocol::message_kind;

verus! {

/// What the correlator does with one decoded message while a request is
/// pending: an event is set aside and the wait goes on; anything else is
/// the answer.
pub fn correlate_step(m: JValue) -> (r: Option<JValue>)
    ensures
        message_kind(m) == MessageKind::Event <==> r is None,
        r matches Some(v) ==> v == m,
{
    match classify(&m) {
        MessageKind::Event => None,
        _ => Some(m),
    }
}

/// Over a whole sequence of decoded messages, the index of the one a
/// pending request would receive: the first message that is not an event.
pub fn select_response(msgs: &Vec<JValue>) -> (r: Option<usize>)
    ensures
        match r {
            Some(i) => {
                &&& i < msgs@.len()
                &&& message_kind(msgs@[i as int]) != MessageKind::Event
                &&& forall|j: int| 0 <= j < i ==> message_kind(#[trigger] msgs@[j])
                    == MessageKind::Event
            },
            None => forall|j: int|
                0 <= j < msgs@.len() ==> message_kind(#[trigger] msgs@[j]) == MessageKind::Event,
        },
{
    let mut i: usize = 0;
    while i < msgs.len()
        invariant
            i <= msgs@.len(),
            forall|j: int| 0 <= j < i ==> message_kind(#[trigger] msgs@[j]) == MessageKind::Event,
        decreases msgs@.len() - i,
    {
        match classify(&msgs[i]) {
            MessageKind::Event => {
                i = i + 1;
            },
            _ => {
                return Some(i);
            },
        }
    }
    None
}

/// Correlation law: events received while a round-trip is pending are never
/// mistaken for the matching response.  If the first `response`-kind message
/// sits at position `k` with only events before it, then position `k` is
/// exactly what the reader selects.
pub proof fn lemma_first_response_selected(msgs: Seq<JValue>, i: int, k: int)
    requires
        0 <= k < msgs.len(),
        message_kind(msgs[k]) == MessageKind::Response,
        forall|j: int| 0 <= j < k ==> message_kind(#[trigger] msgs[j]) == MessageKind::Event,
        0 <= i < msgs.len(),
        message_kind(msgs[i]) != MessageKind::Event,
        forall|j: int| 0 <= j < i ==> message_kind(#[trigger] msgs[j]) == MessageKind::Event,
    ensures
        i == k,
{
    if i < k {
        assert(message_kind(msgs[i]) == MessageKind::Event);
    } else if k < i {
        assert(message_kind(msgs[k]) == MessageKind::Event);
    }
}

} // verus!
