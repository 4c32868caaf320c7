//! Topics that the daemon publishes.

use vstd::prelude::*;

verus! {

/// The first syllable of an utterance is ready.
pub const START: &'static str = "wm.tts.start";

/// Acknowledges a cancel request.
pub const CANCEL_ACK: &'static str = "wm.tts.cancel.ack";

/// An utterance has ended.
pub const END: &'static str = "wm.tts.end";

/// Something failed; the payload carries a kind and a message.
pub const ERROR: &'static str = "wm.tts.error";

/// Acknowledges a change of the active voice.
pub const RELOAD_ACK: &'static str = "wm.tts.reload.ack";

/// Every topic that the daemon publishes.
///
/// The bus echoes what is published. An echo that was answered with an error
/// would be echoed in turn, without end, so the daemon passes over these.
pub const ALL: [&'static str; 5] = [START, CANCEL_ACK, END, ERROR, RELOAD_ACK];

} // verus!
