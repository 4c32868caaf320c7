//! How an utterance ended.

use vstd::prelude::*;

verus! {

/// The player finished; the utterance is complete.
pub const OK: &'static str = "ok";

/// A cancel request cut the utterance short.
pub const CANCELLED: &'static str = "cancelled";

/// Playback failed; an error event says how.
pub const ERROR: &'static str = "error";

} // verus!
