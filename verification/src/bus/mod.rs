//! Topics and payloads on the bus.
//!
//! The daemon subscribes to the prefix `wm.tts.`, decodes the payload of each
//! topic of [`incoming`] into a request and publishes the events of
//! [`outgoing`].

pub mod event;
pub mod incoming;
pub mod outcome;
pub mod outgoing;
pub mod request;
pub mod turn;

pub use crate::bus::event::{
    CancelAckEvent, EndEvent, ErrorEvent, Event, ReloadAckEvent, StartEvent,
};
pub use crate::bus::request::{
    decode_request, CancelRequest, DecodeError, ReloadVoiceRequest, Request, SpeakRequest,
};
pub use crate::bus::turn::{TurnId, TurnSeq};

use crate::clock;
use crate::text;
use vstd::prelude::*;

verus! {

/// The prefix of every topic that concerns the daemon.
pub const TOPIC_PREFIX: &'static str = "wm.tts.";

/// Whether a topic is one that the daemon publishes.
pub open spec fn self_emitted(topic: Seq<char>) -> bool {
    exists|i: int| 0 <= i < outgoing::ALL@.len() && (#[trigger] outgoing::ALL@[i])@ == topic
}

/// Whether a topic is one that the daemon answers.
pub open spec fn inbound(topic: Seq<char>) -> bool {
    ||| topic == incoming::SPEAK@
    ||| topic == incoming::CANCEL@
    ||| topic == incoming::RELOAD_VOICE@
}

/// Whether a topic is one that the daemon publishes, by equality with one of
/// [`outgoing::ALL`].
pub fn is_self_emitted_topic(topic: &str) -> (r: bool)
    ensures
        r == self_emitted(topic@),
{
    let all = outgoing::ALL;
    let mut i: usize = 0;
    while i < all.len()
        invariant
            all == outgoing::ALL,
            i <= all@.len(),
            forall|k: int| 0 <= k < i ==> (#[trigger] all@[k])@ != topic@,
        decreases all@.len() - i,
    {
        if text::same_text(all[i], topic) {
            assert(outgoing::ALL@[i as int]@ == topic@);
            return true;
        }
        i += 1;
    }
    false
}

/// Whether the clock may give this as the time now, in milliseconds since the
/// Unix epoch; the greatest `u64` stands for a clock set before it.
pub open spec fn may_be_now(ms: u64) -> bool {
    exists|millis: Option<u128>| #[trigger]
        clock::may_read(millis) && ms == clock::reading(millis, u64::MAX)
}

/// Milliseconds since the Unix epoch; the greatest `u64` where the clock is
/// set before it.
pub fn now_unix_ms() -> (r: u64)
    ensures
        may_be_now(r),
{
    let millis = clock::millis();
    clock::reading_of(millis, u64::MAX)
}

pub(crate) proof fn lemma_topics_differ()
    ensures
        incoming::SPEAK@ != incoming::CANCEL@,
        incoming::SPEAK@ != incoming::RELOAD_VOICE@,
        incoming::CANCEL@ != incoming::RELOAD_VOICE@,
{
    reveal_strlit("wm.tts.speak");
    reveal_strlit("wm.tts.cancel");
    reveal_strlit("wm.tts.reload_voice");
    assert("wm.tts.speak"@.len() == 12);
    assert("wm.tts.cancel"@.len() == 13);
    assert("wm.tts.reload_voice"@.len() == 19);
}

/// No topic that the daemon answers is passed over as one of its own, and
/// every topic that it publishes is.
pub proof fn own_topics_and_requests_are_apart(topic: Seq<char>)
    ensures
        inbound(topic) ==> !self_emitted(topic),
        topic == outgoing::START@ ==> self_emitted(topic),
        topic == outgoing::CANCEL_ACK@ ==> self_emitted(topic),
        topic == outgoing::END@ ==> self_emitted(topic),
        topic == outgoing::ERROR@ ==> self_emitted(topic),
        topic == outgoing::RELOAD_ACK@ ==> self_emitted(topic),
{
    let all = outgoing::ALL@;
    assert(all.len() == 5);
    assert(all[0]@ == outgoing::START@);
    assert(all[1]@ == outgoing::CANCEL_ACK@);
    assert(all[2]@ == outgoing::END@);
    assert(all[3]@ == outgoing::ERROR@);
    assert(all[4]@ == outgoing::RELOAD_ACK@);
    reveal_strlit("wm.tts.speak");
    reveal_strlit("wm.tts.cancel");
    reveal_strlit("wm.tts.reload_voice");
    reveal_strlit("wm.tts.start");
    reveal_strlit("wm.tts.cancel.ack");
    reveal_strlit("wm.tts.end");
    reveal_strlit("wm.tts.error");
    reveal_strlit("wm.tts.reload.ack");
    assert("wm.tts.speak"@.len() == 12);
    assert("wm.tts.cancel"@.len() == 13);
    assert("wm.tts.reload_voice"@.len() == 19);
    assert("wm.tts.start"@.len() == 12);
    assert("wm.tts.cancel.ack"@.len() == 17);
    assert("wm.tts.end"@.len() == 10);
    assert("wm.tts.error"@.len() == 12);
    assert("wm.tts.reload.ack"@.len() == 17);
    assert("wm.tts.speak"@[8] == 'p');
    assert("wm.tts.start"@[8] == 't');
    assert("wm.tts.error"@[8] == 'r');
}

/// Every topic of the daemon, answered or published, is under the prefix that
/// it subscribes to.
pub proof fn topics_are_under_the_prefix(topic: Seq<char>)
    requires
        inbound(topic) || self_emitted(topic),
    ensures
        TOPIC_PREFIX@.is_prefix_of(topic),
{
    let all = outgoing::ALL@;
    assert(all[0]@ == outgoing::START@);
    assert(all[1]@ == outgoing::CANCEL_ACK@);
    assert(all[2]@ == outgoing::END@);
    assert(all[3]@ == outgoing::ERROR@);
    assert(all[4]@ == outgoing::RELOAD_ACK@);
    reveal_strlit("wm.tts.");
    reveal_strlit("wm.tts.speak");
    reveal_strlit("wm.tts.cancel");
    reveal_strlit("wm.tts.reload_voice");
    reveal_strlit("wm.tts.start");
    reveal_strlit("wm.tts.cancel.ack");
    reveal_strlit("wm.tts.end");
    reveal_strlit("wm.tts.error");
    reveal_strlit("wm.tts.reload.ack");
}

} // verus!
