//! Topics that the daemon answers.

use vstd::prelude::*;

verus! {

/// Render and play an utterance.
pub const SPEAK: &'static str = "wm.tts.speak";

/// Cancel the current utterance, if there is one.
pub const CANCEL: &'static str = "wm.tts.cancel";

/// Change the active voice.
pub const RELOAD_VOICE: &'static str = "wm.tts.reload_voice";

} // verus!
