//! Playing audio from the cloud service while it comes.
//!
//! Chunks are written to the standard input of the player as they come.
//! [`StreamPlay`] decides what is done at each step. A failure before the first
//! chunk was written is one that nobody has heard; after that, the utterance
//! has to begin anew.

use crate::cloud::{CloudError, CloudFault};
use crate::daemon::player::{PlayOutcome, PlayResult, PlayView};
use crate::text;
use vstd::prelude::*;

verus! {

/// What came of playing a stream.
#[derive(Debug, Clone, PartialEq, Eq)]
pub enum StreamOutcome {
    /// It was played to its end, or cancelled.
    Played {
        /// Milliseconds from the start of the player to its end.
        duration_ms: u64,
        /// Whether it was cancelled.
        cancelled: bool,
        /// Bytes written to the player.
        played_bytes: u64,
    },
    /// It failed before a chunk reached the player.
    FailedBeforeFrame(CloudError),
    /// It failed after a chunk had reached the player.
    FailedMidStream(CloudError),
}

/// A [`StreamOutcome`] with its texts as sequences of characters.
pub enum OutcomeView {
    Played { duration_ms: u64, cancelled: bool, played_bytes: u64 },
    FailedBeforeFrame(CloudFault),
    FailedMidStream(CloudFault),
}

impl StreamOutcome {
    /// The outcome with its texts as sequences of characters.
    pub open spec fn view(self) -> OutcomeView {
        match self {
            StreamOutcome::Played { duration_ms, cancelled, played_bytes } => OutcomeView::Played {
                duration_ms,
                cancelled,
                played_bytes,
            },
            StreamOutcome::FailedBeforeFrame(e) => OutcomeView::FailedBeforeFrame(e@),
            StreamOutcome::FailedMidStream(e) => OutcomeView::FailedMidStream(e@),
        }
    }
}

/// What an end event tells of a stream that was played.
pub open spec fn stream_play(duration_ms: u64, cancelled: bool, played_bytes: u64) -> PlayView {
    PlayView {
        outcome: if cancelled {
            PlayOutcome::Cancelled
        } else {
            PlayOutcome::Finished
        },
        duration_ms,
        played_bytes: if cancelled {
            0
        } else {
            played_bytes
        },
        error: None,
    }
}

/// What an end event tells of a stream that was played.
pub fn stream_result(duration_ms: u64, cancelled: bool, played_bytes: u64) -> (r: PlayResult)
    ensures
        r@ == stream_play(duration_ms, cancelled, played_bytes),
        r@.coherent(),
{
    PlayResult {
        outcome: if cancelled {
            PlayOutcome::Cancelled
        } else {
            PlayOutcome::Finished
        },
        duration_ms,
        played_bytes: if cancelled {
            0
        } else {
            played_bytes
        },
        error: None,
    }
}

/// Where playing a stream stands.
#[derive(Debug, Clone, Copy, PartialEq, Eq)]
pub enum StreamPhase {
    /// The service is asked for a stream.
    Asking,
    /// The player is being started.
    Spawning,
    /// A chunk is awaited.
    Pumping,
    /// A chunk is being written.
    Writing {
        /// Its length.
        len: u64,
    },
    /// The player is being stopped.
    Stopping,
    /// The player is left to finish.
    Draining,
    /// It is over.
    Done,
}

/// What came of the last action.
#[derive(Debug, Clone)]
pub enum StreamEvent {
    /// The service gave no stream.
    Refused(CloudError),
    /// The service gave a stream.
    Granted,
    /// The player could not be started.
    SpawnFailed,
    /// The player has no standard input to write to.
    NoStdin,
    /// The player was started.
    Spawned,
    /// The utterance was cancelled.
    Cancel,
    /// A chunk came.
    Chunk {
        /// Its length.
        len: u64,
    },
    /// The chunk was written.
    Written,
    /// The chunk could not be written.
    WriteFailed(String),
    /// The stream failed.
    ItemFailed(CloudError),
    /// The stream has ended.
    Ended,
    /// The player has ended.
    Exited {
        /// Milliseconds since it was started.
        duration_ms: u64,
    },
}

/// What is to be done next.
#[derive(Debug, Clone)]
pub enum StreamAction {
    /// Start the player.
    Spawn,
    /// Wait for a chunk, or for the utterance to be cancelled.
    Receive,
    /// Write the chunk to the player.
    Write,
    /// Close the standard input of the player, stop it and wait for its end.
    Kill,
    /// Close the standard input of the player and wait for its end.
    Wait,
    /// It is over.
    Finish(StreamOutcome),
    /// Nothing.
    Pass,
}

/// The state of playing a stream.
#[derive(Debug, Clone)]
pub struct StreamPlay {
    /// The player.
    pub player_bin: String,
    /// Where it stands.
    pub phase: StreamPhase,
    /// Chunks written.
    pub frames: usize,
    /// Bytes written.
    pub bytes: u64,
    /// Whether the utterance was cancelled.
    pub cancelled: bool,
    /// What failed.
    pub error: Option<CloudError>,
}

/// The state with its texts as sequences of characters.
pub struct StateView {
    pub phase: StreamPhase,
    pub frames: usize,
    pub bytes: u64,
    pub cancelled: bool,
    pub error: Option<CloudFault>,
}

/// An event with its texts as sequences of characters.
pub enum EventView {
    Refused(CloudFault),
    Granted,
    SpawnFailed,
    NoStdin,
    Spawned,
    Cancel,
    Chunk { len: u64 },
    Written,
    WriteFailed(Seq<char>),
    ItemFailed(CloudFault),
    Ended,
    Exited { duration_ms: u64 },
}

/// An action with its texts as sequences of characters.
pub enum ActionView {
    Spawn,
    Receive,
    Write,
    Kill,
    Wait,
    Finish(OutcomeView),
    Pass,
}

impl StreamEvent {
    /// The event with its texts as sequences of characters.
    pub open spec fn view(self) -> EventView {
        match self {
            StreamEvent::Refused(e) => EventView::Refused(e@),
            StreamEvent::Granted => EventView::Granted,
            StreamEvent::SpawnFailed => EventView::SpawnFailed,
            StreamEvent::NoStdin => EventView::NoStdin,
            StreamEvent::Spawned => EventView::Spawned,
            StreamEvent::Cancel => EventView::Cancel,
            StreamEvent::Chunk { len } => EventView::Chunk { len },
            StreamEvent::Written => EventView::Written,
            StreamEvent::WriteFailed(why) => EventView::WriteFailed(why@),
            StreamEvent::ItemFailed(e) => EventView::ItemFailed(e@),
            StreamEvent::Ended => EventView::Ended,
            StreamEvent::Exited { duration_ms } => EventView::Exited { duration_ms },
        }
    }
}

impl StreamAction {
    /// The action with its texts as sequences of characters.
    pub open spec fn view(self) -> ActionView {
        match self {
            StreamAction::Spawn => ActionView::Spawn,
            StreamAction::Receive => ActionView::Receive,
            StreamAction::Write => ActionView::Write,
            StreamAction::Kill => ActionView::Kill,
            StreamAction::Wait => ActionView::Wait,
            StreamAction::Finish(o) => ActionView::Finish(o@),
            StreamAction::Pass => ActionView::Pass,
        }
    }
}

/// The sum, or the greatest number where it is too great.
pub open spec fn saturating(a: u64, b: u64) -> u64 {
    if a + b <= u64::MAX {
        (a + b) as u64
    } else {
        u64::MAX
    }
}

impl StateView {
    /// Nothing has happened yet.
    pub open spec fn fresh() -> Self {
        StateView {
            phase: StreamPhase::Asking,
            frames: 0,
            bytes: 0,
            cancelled: false,
            error: None,
        }
    }

    /// The same in another phase.
    pub open spec fn at(self, phase: StreamPhase) -> Self {
        StateView { phase, ..self }
    }

    /// The player is stopped because of a failure.
    pub open spec fn stopped_by(self, f: CloudFault) -> Self {
        StateView { phase: StreamPhase::Stopping, error: Some(f), ..self }
    }

    /// What came of it, once the player has ended.
    pub open spec fn outcome(self, duration_ms: u64) -> OutcomeView {
        if self.cancelled {
            OutcomeView::Played { duration_ms, cancelled: true, played_bytes: 0 }
        } else {
            match self.error {
                Some(f) => if self.frames > 0 {
                    OutcomeView::FailedMidStream(f)
                } else {
                    OutcomeView::FailedBeforeFrame(f)
                },
                None => OutcomeView::Played {
                    duration_ms,
                    cancelled: false,
                    played_bytes: self.bytes,
                },
            }
        }
    }
}

/// How it goes on after an event. An event that does not belong to the phase is
/// passed over.
pub open spec fn next(s: StateView, event: EventView, bin: Seq<char>) -> (StateView, ActionView) {
    match (s.phase, event) {
        (StreamPhase::Asking, EventView::Refused(f)) => (
            s.at(StreamPhase::Done),
            ActionView::Finish(OutcomeView::FailedBeforeFrame(f)),
        ),
        (StreamPhase::Asking, EventView::Granted) => (
            s.at(StreamPhase::Spawning),
            ActionView::Spawn,
        ),
        (StreamPhase::Spawning, EventView::SpawnFailed) => (
            s.at(StreamPhase::Done),
            ActionView::Finish(
                OutcomeView::FailedBeforeFrame(
                    CloudFault::Http("spawn streaming player: spawn streaming player "@ + bin),
                ),
            ),
        ),
        (StreamPhase::Spawning, EventView::NoStdin) => (
            s.stopped_by(CloudFault::Http("streaming player has no piped stdin"@)),
            ActionView::Kill,
        ),
        (StreamPhase::Spawning, EventView::Spawned) => (
            s.at(StreamPhase::Pumping),
            ActionView::Receive,
        ),
        (StreamPhase::Pumping, EventView::Cancel) => (
            StateView { phase: StreamPhase::Stopping, cancelled: true, ..s },
            ActionView::Kill,
        ),
        (StreamPhase::Pumping, EventView::Chunk { len }) => (
            s.at(StreamPhase::Writing { len }),
            ActionView::Write,
        ),
        (StreamPhase::Pumping, EventView::ItemFailed(f)) => (s.stopped_by(f), ActionView::Kill),
        (StreamPhase::Pumping, EventView::Ended) => (
            s.at(StreamPhase::Draining),
            ActionView::Wait,
        ),
        (StreamPhase::Writing { len }, EventView::Written) => (
            StateView {
                phase: StreamPhase::Pumping,
                frames: if s.frames < usize::MAX {
                    (s.frames + 1) as usize
                } else {
                    usize::MAX
                },
                bytes: saturating(s.bytes, len),
                ..s
            },
            ActionView::Receive,
        ),
        (StreamPhase::Writing { .. }, EventView::WriteFailed(why)) => (
            s.stopped_by(CloudFault::Http("player stdin write: "@ + why)),
            ActionView::Kill,
        ),
        (StreamPhase::Stopping, EventView::Exited { duration_ms })
        | (StreamPhase::Draining, EventView::Exited { duration_ms }) => (
            s.at(StreamPhase::Done),
            ActionView::Finish(s.outcome(duration_ms)),
        ),
        _ => (s, ActionView::Pass),
    }
}

impl StreamPlay {
    /// The state with its texts as sequences of characters.
    pub open spec fn view(self) -> StateView {
        StateView {
            phase: self.phase,
            frames: self.frames,
            bytes: self.bytes,
            cancelled: self.cancelled,
            error: match self.error {
                Some(e) => Some(e@),
                None => None,
            },
        }
    }

    /// Begins: the service is to be asked for a stream.
    pub fn new(player_bin: &str) -> (r: Self)
        ensures
            r@ == StateView::fresh(),
            r.player_bin@ == player_bin@,
    {
        StreamPlay {
            player_bin: player_bin.to_owned(),
            phase: StreamPhase::Asking,
            frames: 0,
            bytes: 0,
            cancelled: false,
            error: None,
        }
    }

    fn stop(&mut self, e: CloudError) -> (r: StreamAction)
        ensures
            final(self)@ == old(self)@.stopped_by(e@),
            final(self).player_bin == old(self).player_bin,
            r@ == ActionView::Kill,
    {
        self.phase = StreamPhase::Stopping;
        self.error = Some(e);
        StreamAction::Kill
    }

    fn outcome(&self, duration_ms: u64) -> (r: StreamOutcome)
        ensures
            r@ == self@.outcome(duration_ms),
    {
        if self.cancelled {
            return StreamOutcome::Played { duration_ms, cancelled: true, played_bytes: 0 };
        }
        match &self.error {
            Some(e) => {
                let e = clone_error(e);
                if self.frames > 0 {
                    StreamOutcome::FailedMidStream(e)
                } else {
                    StreamOutcome::FailedBeforeFrame(e)
                }
            },
            None => StreamOutcome::Played {
                duration_ms,
                cancelled: false,
                played_bytes: self.bytes,
            },
        }
    }

    /// Takes what came of the last action and says what is done next.
    pub fn step(&mut self, event: StreamEvent) -> (r: StreamAction)
        ensures
            final(self)@ == next(old(self)@, event@, old(self).player_bin@).0,
            r@ == next(old(self)@, event@, old(self).player_bin@).1,
            final(self).player_bin == old(self).player_bin,
    {
        match (self.phase, event) {
            (StreamPhase::Asking, StreamEvent::Refused(e)) => {
                self.phase = StreamPhase::Done;
                StreamAction::Finish(StreamOutcome::FailedBeforeFrame(e))
            },
            (StreamPhase::Asking, StreamEvent::Granted) => {
                self.phase = StreamPhase::Spawning;
                StreamAction::Spawn
            },
            (StreamPhase::Spawning, StreamEvent::SpawnFailed) => {
                self.phase = StreamPhase::Done;
                let why = text::joined2(
                    "spawn streaming player: spawn streaming player ",
                    self.player_bin.as_str(),
                );
                StreamAction::Finish(StreamOutcome::FailedBeforeFrame(CloudError::Http(why)))
            },
            (StreamPhase::Spawning, StreamEvent::NoStdin) => self.stop(
                CloudError::Http("streaming player has no piped stdin".to_owned()),
            ),
            (StreamPhase::Spawning, StreamEvent::Spawned) => {
                self.phase = StreamPhase::Pumping;
                StreamAction::Receive
            },
            (StreamPhase::Pumping, StreamEvent::Cancel) => {
                self.phase = StreamPhase::Stopping;
                self.cancelled = true;
                StreamAction::Kill
            },
            (StreamPhase::Pumping, StreamEvent::Chunk { len }) => {
                self.phase = StreamPhase::Writing { len };
                StreamAction::Write
            },
            (StreamPhase::Pumping, StreamEvent::ItemFailed(e)) => self.stop(e),
            (StreamPhase::Pumping, StreamEvent::Ended) => {
                self.phase = StreamPhase::Draining;
                StreamAction::Wait
            },
            (StreamPhase::Writing { len }, StreamEvent::Written) => {
                self.phase = StreamPhase::Pumping;
                self.frames = if self.frames < usize::MAX {
                    self.frames + 1
                } else {
                    usize::MAX
                };
                self.bytes = if len <= u64::MAX - self.bytes {
                    self.bytes + len
                } else {
                    u64::MAX
                };
                StreamAction::Receive
            },
            (StreamPhase::Writing { .. }, StreamEvent::WriteFailed(why)) => self.stop(
                CloudError::Http(text::joined2("player stdin write: ", why.as_str())),
            ),
            (StreamPhase::Stopping, StreamEvent::Exited { duration_ms })
            | (StreamPhase::Draining, StreamEvent::Exited { duration_ms }) => {
                let outcome = self.outcome(duration_ms);
                self.phase = StreamPhase::Done;
                StreamAction::Finish(outcome)
            },
            _ => StreamAction::Pass,
        }
    }
}

fn clone_error(e: &CloudError) -> (r: CloudError)
    ensures
        r@ == e@,
{
    match e {
        CloudError::NotEnabled => CloudError::NotEnabled,
        CloudError::MissingApiKey => CloudError::MissingApiKey,
        CloudError::MissingVoiceId => CloudError::MissingVoiceId,
        CloudError::Http(why) => CloudError::Http(why.clone()),
        CloudError::Status { status, body } => CloudError::Status {
            status: *status,
            body: body.clone(),
        },
        CloudError::Empty => CloudError::Empty,
    }
}

/// The state after the first `n` events.
pub open spec fn state_after(events: Seq<EventView>, n: nat, bin: Seq<char>) -> StateView
    decreases n,
{
    if n == 0 {
        StateView::fresh()
    } else {
        next(state_after(events, (n - 1) as nat, bin), events[n - 1], bin).0
    }
}

/// The action that follows the event at `i`.
pub open spec fn action_at(events: Seq<EventView>, i: nat, bin: Seq<char>) -> ActionView {
    next(state_after(events, i, bin), events[i as int], bin).1
}

/// Whether the event at `i` is that a chunk was written.
pub open spec fn writes(events: Seq<EventView>, i: nat, bin: Seq<char>) -> bool {
    events[i as int] is Written && state_after(events, i, bin).phase is Writing
}

/// Whether one of the first `n` events is that a chunk was written.
pub open spec fn heard(events: Seq<EventView>, n: nat, bin: Seq<char>) -> bool {
    exists|i: nat| i < n && #[trigger] writes(events, i, bin)
}

proof fn lemma_frames(events: Seq<EventView>, n: nat, bin: Seq<char>)
    ensures
        state_after(events, n, bin).frames > 0 <==> heard(events, n, bin),
        state_after(events, n, bin).phase == StreamPhase::Asking || state_after(
            events,
            n,
            bin,
        ).phase == StreamPhase::Spawning ==> state_after(events, n, bin).frames == 0,
    decreases n,
{
    if n > 0 {
        let m = (n - 1) as nat;
        lemma_frames(events, m, bin);
        if heard(events, n, bin) {
            let i = choose|i: nat| i < n && #[trigger] writes(events, i, bin);
            if i < m {
                assert(heard(events, m, bin));
            }
        }
        if heard(events, m, bin) {
            let i = choose|i: nat| i < m && #[trigger] writes(events, i, bin);
            assert(i < n && writes(events, i, bin));
        }
        if writes(events, m, bin) {
            assert(heard(events, n, bin));
        }
    }
}

/// A failure is told as one before the first chunk exactly if no chunk has
/// reached the player, and as one in the middle exactly if one has.
pub proof fn failure_says_whether_anything_was_heard(
    events: Seq<EventView>,
    i: nat,
    bin: Seq<char>,
)
    requires
        i < events.len(),
        action_at(events, i, bin) is Finish,
    ensures
        match action_at(events, i, bin)->Finish_0 {
            OutcomeView::FailedBeforeFrame(_) => !heard(events, i, bin),
            OutcomeView::FailedMidStream(_) => heard(events, i, bin),
            OutcomeView::Played { .. } => true,
        },
{
    lemma_frames(events, i, bin);
}

/// Playing a stream ends once: after its outcome nothing more is done.
pub proof fn stream_ends_once(events: Seq<EventView>, i: nat, j: nat, bin: Seq<char>)
    requires
        i < j < events.len(),
        action_at(events, i, bin) is Finish,
    ensures
        action_at(events, j, bin) == ActionView::Pass,
{
    lemma_done(events, (i + 1) as nat, j, bin);
}

proof fn lemma_done(events: Seq<EventView>, i: nat, j: nat, bin: Seq<char>)
    requires
        i <= j,
        state_after(events, i, bin).phase == StreamPhase::Done,
    ensures
        state_after(events, j, bin).phase == StreamPhase::Done,
    decreases j,
{
    if i < j {
        lemma_done(events, i, (j - 1) as nat, bin);
    }
}

/// A cancelled stream is told as cancelled, whatever had come before.
pub proof fn cancel_ends_the_stream(s: StateView, bin: Seq<char>, duration_ms: u64)
    requires
        s.phase == StreamPhase::Pumping,
    ensures
        ({
            let (stopped, action) = next(s, EventView::Cancel, bin);
            &&& action == ActionView::Kill
            &&& next(stopped, EventView::Exited { duration_ms }, bin).1 == ActionView::Finish(
                OutcomeView::Played { duration_ms, cancelled: true, played_bytes: 0 },
            )
        }),
{
}

/// Bytes written by the first `n` events.
pub open spec fn written_bytes(events: Seq<EventView>, n: nat, bin: Seq<char>) -> nat
    decreases n,
{
    if n == 0 {
        0
    } else {
        let m = (n - 1) as nat;
        written_bytes(events, m, bin) + (if writes(events, m, bin) {
            match state_after(events, m, bin).phase {
                StreamPhase::Writing { len } => len as nat,
                _ => 0,
            }
        } else {
            0
        })
    }
}

proof fn lemma_bytes(events: Seq<EventView>, n: nat, bin: Seq<char>)
    ensures
        state_after(events, n, bin).bytes == (if written_bytes(events, n, bin) <= u64::MAX {
            written_bytes(events, n, bin)
        } else {
            u64::MAX as nat
        }),
    decreases n,
{
    if n > 0 {
        lemma_bytes(events, (n - 1) as nat, bin);
    }
}

/// The bytes told of a stream that was played to its end are those that were
/// written to the player.
pub proof fn played_bytes_are_those_written(events: Seq<EventView>, i: nat, bin: Seq<char>)
    requires
        i < events.len(),
        action_at(events, i, bin) is Finish,
        written_bytes(events, i, bin) <= u64::MAX,
    ensures
        match action_at(events, i, bin)->Finish_0 {
            OutcomeView::Played { cancelled, played_bytes, .. } => played_bytes == (if cancelled {
                0
            } else {
                written_bytes(events, i, bin)
            }),
            _ => true,
        },
{
    lemma_bytes(events, i, bin);
}

} // verus!
