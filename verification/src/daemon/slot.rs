//! What a cancel request acts on.

use vstd::prelude::*;

verus! {

/// The utterance that is being played, as a cancel request sees it.
#[derive(Debug, Clone, Copy, PartialEq, Eq)]
pub struct CancelSlot {
    /// Whether there is an utterance that has not been cancelled.
    pub armed: bool,
    /// Whether an utterance is being played.
    pub playing: bool,
    /// Milliseconds of audio that it has, where that is known.
    pub duration_ms: Option<u64>,
}

/// Milliseconds played, of an utterance that began `elapsed_ms` ago: no more
/// than the audio has, and none where nothing is being played.
pub open spec fn drained(slot: CancelSlot, elapsed_ms: u64) -> u64 {
    if !slot.playing {
        0
    } else {
        match slot.duration_ms {
            Some(d) => if d < elapsed_ms {
                d
            } else {
                elapsed_ms
            },
            None => elapsed_ms,
        }
    }
}

impl CancelSlot {
    /// Nothing is being played.
    pub open spec fn idle(self) -> bool {
        !self.armed && !self.playing && self.duration_ms is None
    }

    /// Nothing is being played.
    pub fn new() -> (r: Self)
        ensures
            r.idle(),
    {
        CancelSlot { armed: false, playing: false, duration_ms: None }
    }

    /// An utterance begins; it takes the place of whatever was there.
    pub fn install(&mut self, duration_ms: Option<u64>)
        ensures
            final(self).armed,
            final(self).playing,
            final(self).duration_ms == duration_ms,
    {
        self.armed = true;
        self.playing = true;
        self.duration_ms = duration_ms;
    }

    /// The utterance has ended.
    pub fn clear(&mut self)
        ensures
            final(self).idle(),
    {
        self.armed = false;
        self.playing = false;
        self.duration_ms = None;
    }

    /// Takes the right to cancel the utterance, which is given once.
    pub fn fire(&mut self) -> (r: bool)
        ensures
            r == old(self).armed,
            !final(self).armed,
            final(self).playing == old(self).playing,
            final(self).duration_ms == old(self).duration_ms,
    {
        let armed = self.armed;
        self.armed = false;
        armed
    }

    /// Milliseconds played, of an utterance that began `elapsed_ms` ago.
    pub fn drained_ms(&self, elapsed_ms: u64) -> (r: u64)
        ensures
            r == drained(*self, elapsed_ms),
    {
        if !self.playing {
            return 0;
        }
        match self.duration_ms {
            Some(d) => if d < elapsed_ms {
                d
            } else {
                elapsed_ms
            },
            None => elapsed_ms,
        }
    }
}

/// What is reported as played is never more than has passed since the
/// utterance began, nor more than it holds, and nothing while none is played.
pub proof fn drained_is_bounded(slot: CancelSlot, elapsed_ms: u64)
    ensures
        drained(slot, elapsed_ms) <= elapsed_ms,
        slot.playing && slot.duration_ms is Some ==> drained(slot, elapsed_ms)
            <= slot.duration_ms->0,
        slot.playing && (slot.duration_ms is None || elapsed_ms <= slot.duration_ms->0) ==> drained(
            slot,
            elapsed_ms,
        ) == elapsed_ms,
        !slot.playing ==> drained(slot, elapsed_ms) == 0,
{
}

} // verus!
