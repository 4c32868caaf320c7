//! Speaking one utterance.
//!
//! 1. `wm.tts.start` is published.
//! 2. A file in the cache is played.
//! 3. Without one, and with the cloud service active, the audio is streamed. A
//!    failure that nobody heard goes on with Piper in silence; one in the
//!    middle is published and the utterance begins anew with Piper.
//! 4. Otherwise Piper renders the file, and it is played.
//! 5. `wm.tts.end` is published, after `wm.tts.error` where playing failed. A
//!    text that cannot be rendered ends with `wm.tts.error` alone.
//!
//! [`Speak`] decides what is done at each step.

use crate::bus::event;
use crate::bus::event::{EndEvent, Event, StartEvent};
use crate::bus::request;
use crate::bus::request::SpeakRequest;
use crate::bus::turn::TurnId;
use crate::daemon::player::{Failure, FailureView, PlayOutcome, PlayResult, PlayView};
use crate::daemon::stream;
use crate::daemon::stream::StreamOutcome;
use crate::synth::SynthError;
use crate::text;
use vstd::prelude::*;

verus! {

/// How rendering a file went.
#[derive(Debug)]
pub enum RenderRun {
    /// The backend failed.
    SynthFailed(SynthError),
    /// The task that ran the backend was lost.
    JoinFailed(String),
    /// The file is there.
    Rendered,
}

/// What is told of a file that could not be rendered.
pub open spec fn render_fault(run: RenderRun) -> Option<FailureView> {
    match run {
        RenderRun::SynthFailed(SynthError::Io { path, source }) => Some(
            FailureView { kind: "io"@, message: "synth io on "@ + path@ + ": "@ + source@ },
        ),
        RenderRun::SynthFailed(e) => Some(FailureView { kind: "render"@, message: e.words() }),
        RenderRun::JoinFailed(why) => Some(
            FailureView { kind: "render"@, message: "synth task join failed: "@ + why@ },
        ),
        RenderRun::Rendered => None,
    }
}

/// What is told of a file that could not be rendered.
pub fn render_failure(run: &RenderRun) -> (r: Option<Failure>)
    ensures
        match r {
            Some(f) => render_fault(*run) == Some(f@),
            None => render_fault(*run) is None,
        },
{
    match run {
        RenderRun::SynthFailed(e) => match e {
            SynthError::Io { path, source } => Some(
                Failure {
                    kind: "io".to_owned(),
                    message: text::joined4("synth io on ", path.as_str(), ": ", source.as_str()),
                },
            ),
            _ => Some(Failure { kind: "render".to_owned(), message: e.message() }),
        },
        RenderRun::JoinFailed(why) => Some(
            Failure {
                kind: "render".to_owned(),
                message: text::joined2("synth task join failed: ", why.as_str()),
            },
        ),
        RenderRun::Rendered => None,
    }
}

/// Where an utterance stands.
#[derive(Debug, Clone, Copy, PartialEq, Eq)]
pub enum SpeakPhase {
    /// The utterance before it is being cancelled.
    Cancelling,
    /// Its start is being published.
    Starting,
    /// The cache is asked for its file.
    Looking,
    /// The audio is being streamed.
    Streaming,
    /// The failure of the stream is being published.
    TellingStream,
    /// The directory of its file is being made.
    MakingDir,
    /// Its file is being rendered.
    Rendering,
    /// The failure to render it is being published.
    TellingRender,
    /// Its file is being played.
    Playing,
    /// The failure to play it is being published.
    TellingPlay {
        /// How playing ended.
        outcome: PlayOutcome,
        /// Milliseconds that the player ran.
        duration_ms: u64,
        /// Bytes that were played.
        played_bytes: u64,
    },
    /// Its end is being published.
    Ending,
    /// It is over.
    Done,
}

/// What came of the last action.
#[derive(Debug)]
pub enum SpeakEvent {
    /// The utterance before it was cancelled.
    Fired,
    /// The event was published.
    Published,
    /// The event could not be published.
    PublishFailed(String),
    /// Whether the file is in the cache.
    Found(bool),
    /// The stream has ended.
    Streamed(StreamOutcome),
    /// The directory is there.
    DirMade,
    /// The directory could not be made.
    DirFailed(String),
    /// Rendering has ended.
    Rendered(RenderRun),
    /// Playing the file has ended.
    Played(PlayResult),
}

/// What is to be done next.
#[derive(Debug)]
pub enum SpeakAction {
    /// Cancel the utterance before it.
    Fire,
    /// Publish an event.
    Publish(Event),
    /// See whether this file exists.
    LookUp(String),
    /// Stream the audio of this text.
    Stream(String),
    /// Make this directory, if it is not there.
    MakeDir(String),
    /// Render a text into a file.
    Render {
        /// The voice.
        voice: String,
        /// The text.
        text: String,
        /// The file.
        path: String,
    },
    /// Play this file.
    Play(String),
    /// It is over.
    Finish,
    /// It is over because an event could not be published.
    Fail(String),
}

/// One utterance.
#[derive(Debug)]
pub struct Speak {
    /// The text.
    pub text: String,
    /// Where the request came from.
    pub source: String,
    /// The turn that it belongs to.
    pub turn_id: Option<TurnId>,
    /// Unix milliseconds when the request was accepted.
    pub accepted: u64,
    /// The voice.
    pub voice: String,
    /// The directory of the voice in the cache.
    pub dir: String,
    /// The file of the text in the cache.
    pub path: String,
    /// Whether the cloud service is asked.
    pub cloud_active: bool,
    /// Where the utterance stands.
    pub phase: SpeakPhase,
}

/// What stays the same of an utterance.
pub struct Utterance {
    pub text: Seq<char>,
    pub source: Seq<char>,
    pub turn_id: Option<Seq<char>>,
    pub accepted: u64,
    pub voice: Seq<char>,
    pub dir: Seq<char>,
    pub path: Seq<char>,
    pub cloud_active: bool,
}

/// An event with its texts as sequences of characters; of a file that could not
/// be rendered, what is told of it.
pub enum EventView {
    Fired,
    Published,
    PublishFailed(Seq<char>),
    Found(bool),
    Streamed(stream::OutcomeView),
    DirMade,
    DirFailed(Seq<char>),
    Rendered(Option<FailureView>),
    Played(PlayView),
}

/// An action with its texts as sequences of characters.
pub enum ActionView {
    Fire,
    Publish(event::EventView),
    LookUp(Seq<char>),
    Stream(Seq<char>),
    MakeDir(Seq<char>),
    Render { voice: Seq<char>, text: Seq<char>, path: Seq<char> },
    Play(Seq<char>),
    Finish,
    Fail(Seq<char>),
}

impl SpeakEvent {
    /// The event with its texts as sequences of characters.
    pub open spec fn view(self) -> EventView {
        match self {
            SpeakEvent::Fired => EventView::Fired,
            SpeakEvent::Published => EventView::Published,
            SpeakEvent::PublishFailed(why) => EventView::PublishFailed(why@),
            SpeakEvent::Found(b) => EventView::Found(b),
            SpeakEvent::Streamed(o) => EventView::Streamed(o@),
            SpeakEvent::DirMade => EventView::DirMade,
            SpeakEvent::DirFailed(why) => EventView::DirFailed(why@),
            SpeakEvent::Rendered(run) => EventView::Rendered(render_fault(run)),
            SpeakEvent::Played(p) => EventView::Played(p@),
        }
    }
}

impl SpeakAction {
    /// The action with its texts as sequences of characters.
    pub open spec fn view(self) -> ActionView {
        match self {
            SpeakAction::Fire => ActionView::Fire,
            SpeakAction::Publish(e) => ActionView::Publish(e@),
            SpeakAction::LookUp(path) => ActionView::LookUp(path@),
            SpeakAction::Stream(text) => ActionView::Stream(text@),
            SpeakAction::MakeDir(dir) => ActionView::MakeDir(dir@),
            SpeakAction::Render { voice, text, path } => ActionView::Render {
                voice: voice@,
                text: text@,
                path: path@,
            },
            SpeakAction::Play(path) => ActionView::Play(path@),
            SpeakAction::Finish => ActionView::Finish,
            SpeakAction::Fail(why) => ActionView::Fail(why@),
        }
    }
}

impl Utterance {
    /// The event that tells of its start.
    pub open spec fn start(self) -> event::EventView {
        event::EventView::Start {
            text: self.text,
            source: self.source,
            ts: self.accepted,
            turn_id: self.turn_id,
        }
    }

    /// The event that tells of its end.
    pub open spec fn end(
        self,
        outcome: PlayOutcome,
        duration_ms: u64,
        played_bytes: u64,
        now: u64,
    ) -> event::EventView {
        event::EventView::End {
            text: self.text,
            duration_ms,
            outcome: outcome.word(),
            played_bytes,
            ts: now,
            turn_id: self.turn_id,
        }
    }

    /// Turns to Piper: the directory of its file is made first.
    pub open spec fn to_piper(self) -> (SpeakPhase, ActionView) {
        (SpeakPhase::MakingDir, ActionView::MakeDir(self.dir))
    }

    /// Renders its file.
    pub open spec fn render(self) -> (SpeakPhase, ActionView) {
        (
            SpeakPhase::Rendering,
            ActionView::Render { voice: self.voice, text: self.text, path: self.path },
        )
    }

    /// Goes on after it was played: tells of a failure first, then of the end.
    pub open spec fn played(self, p: PlayView, now: u64) -> (SpeakPhase, ActionView) {
        match p.error {
            Some(f) => (
                SpeakPhase::TellingPlay {
                    outcome: p.outcome,
                    duration_ms: p.duration_ms,
                    played_bytes: p.played_bytes,
                },
                ActionView::Publish(
                    event::EventView::Error { kind: f.kind, message: f.message, ts: now },
                ),
            ),
            None => (
                SpeakPhase::Ending,
                ActionView::Publish(self.end(p.outcome, p.duration_ms, p.played_bytes, now)),
            ),
        }
    }
}

/// How an utterance goes on from a phase after an event, at the time `now`. An
/// event that does not belong to the phase ends it.
pub open spec fn next(u: Utterance, phase: SpeakPhase, e: EventView, now: u64) -> (
    SpeakPhase,
    ActionView,
) {
    match (phase, e) {
        (SpeakPhase::Cancelling, EventView::Fired) => (
            SpeakPhase::Starting,
            ActionView::Publish(u.start()),
        ),
        (SpeakPhase::Starting, EventView::Published) => (
            SpeakPhase::Looking,
            ActionView::LookUp(u.path),
        ),
        (SpeakPhase::Looking, EventView::Found(true)) => (
            SpeakPhase::Playing,
            ActionView::Play(u.path),
        ),
        (SpeakPhase::Looking, EventView::Found(false)) => if u.cloud_active {
            (SpeakPhase::Streaming, ActionView::Stream(u.text))
        } else {
            u.to_piper()
        },
        (
            SpeakPhase::Streaming,
            EventView::Streamed(stream::OutcomeView::Played { duration_ms, cancelled, played_bytes }),
        ) => u.played(stream::stream_play(duration_ms, cancelled, played_bytes), now),
        (
            SpeakPhase::Streaming,
            EventView::Streamed(stream::OutcomeView::FailedBeforeFrame(_)),
        ) => u.to_piper(),
        (
            SpeakPhase::Streaming,
            EventView::Streamed(stream::OutcomeView::FailedMidStream(f)),
        ) => (
            SpeakPhase::TellingStream,
            ActionView::Publish(
                event::EventView::Error { kind: "stream"@, message: f.words(), ts: now },
            ),
        ),
        (SpeakPhase::TellingStream, EventView::Published) => u.to_piper(),
        (SpeakPhase::MakingDir, EventView::DirMade) => u.render(),
        (SpeakPhase::MakingDir, EventView::DirFailed(why)) => (
            SpeakPhase::TellingRender,
            ActionView::Publish(
                event::EventView::Error {
                    kind: "io"@,
                    message: "cache dir "@ + u.dir + ": "@ + why,
                    ts: now,
                },
            ),
        ),
        (SpeakPhase::Rendering, EventView::Rendered(None)) => (
            SpeakPhase::Playing,
            ActionView::Play(u.path),
        ),
        (SpeakPhase::Rendering, EventView::Rendered(Some(f))) => (
            SpeakPhase::TellingRender,
            ActionView::Publish(
                event::EventView::Error { kind: f.kind, message: f.message, ts: now },
            ),
        ),
        (SpeakPhase::Playing, EventView::Played(p)) => u.played(p, now),
        (
            SpeakPhase::TellingPlay { outcome, duration_ms, played_bytes },
            EventView::Published,
        ) => (
            SpeakPhase::Ending,
            ActionView::Publish(u.end(outcome, duration_ms, played_bytes, now)),
        ),
        (SpeakPhase::Starting, EventView::PublishFailed(why))
        | (SpeakPhase::TellingStream, EventView::PublishFailed(why))
        | (SpeakPhase::TellingPlay { .. }, EventView::PublishFailed(why))
        | (SpeakPhase::Ending, EventView::PublishFailed(why)) => (
            SpeakPhase::Done,
            ActionView::Fail(why),
        ),
        _ => (SpeakPhase::Done, ActionView::Finish),
    }
}

/// How an utterance begins: with the cancelling of the one before it, where the
/// request asks for that and there is one.
pub open spec fn first(u: Utterance, cancel_first: bool) -> (SpeakPhase, ActionView) {
    if cancel_first {
        (SpeakPhase::Cancelling, ActionView::Fire)
    } else {
        (SpeakPhase::Starting, ActionView::Publish(u.start()))
    }
}

impl Speak {
    /// What stays the same of the utterance.
    pub open spec fn view(self) -> Utterance {
        Utterance {
            text: self.text@,
            source: self.source@,
            turn_id: request::turn_text(self.turn_id),
            accepted: self.accepted,
            voice: self.voice@,
            dir: self.dir@,
            path: self.path@,
            cloud_active: self.cloud_active,
        }
    }

    fn start_event(&self) -> (r: SpeakAction)
        ensures
            r@ == ActionView::Publish(self@.start()),
    {
        SpeakAction::Publish(
            Event::Start(
                StartEvent {
                    text: self.text.clone(),
                    source: self.source.clone(),
                    ts: self.accepted,
                    turn_id: request::text_to_turn(request::turn_to_text(&self.turn_id)),
                },
            ),
        )
    }

    fn end_event(&self, outcome: PlayOutcome, duration_ms: u64, played_bytes: u64, now: u64) -> (r:
        SpeakAction)
        ensures
            r@ == ActionView::Publish(self@.end(outcome, duration_ms, played_bytes, now)),
    {
        SpeakAction::Publish(
            Event::End(
                EndEvent {
                    text: self.text.clone(),
                    duration_ms,
                    outcome: outcome.label().to_owned(),
                    played_bytes,
                    ts: now,
                    turn_id: request::text_to_turn(request::turn_to_text(&self.turn_id)),
                },
            ),
        )
    }

    fn piper_step(&self) -> (r: (SpeakPhase, SpeakAction))
        ensures
            r.0 == self@.to_piper().0,
            r.1@ == self@.to_piper().1,
    {
        (SpeakPhase::MakingDir, SpeakAction::MakeDir(self.dir.clone()))
    }

    fn render_step(&self) -> (r: (SpeakPhase, SpeakAction))
        ensures
            r.0 == self@.render().0,
            r.1@ == self@.render().1,
    {
        (
            SpeakPhase::Rendering,
            SpeakAction::Render {
                voice: self.voice.clone(),
                text: self.text.clone(),
                path: self.path.clone(),
            },
        )
    }

    fn played_step(&self, p: &PlayResult, now: u64) -> (r: (SpeakPhase, SpeakAction))
        ensures
            r.0 == self@.played(p@, now).0,
            r.1@ == self@.played(p@, now).1,
    {
        match &p.error {
            Some(f) => (
                SpeakPhase::TellingPlay {
                    outcome: p.outcome,
                    duration_ms: p.duration_ms,
                    played_bytes: p.played_bytes,
                },
                SpeakAction::Publish(Event::error(f.kind.as_str(), f.message.as_str(), now)),
            ),
            None => (
                SpeakPhase::Ending,
                self.end_event(p.outcome, p.duration_ms, p.played_bytes, now),
            ),
        }
    }

    fn decide(&self, e: &SpeakEvent, now: u64) -> (r: (SpeakPhase, SpeakAction))
        ensures
            r.0 == next(self@, self.phase, e@, now).0,
            r.1@ == next(self@, self.phase, e@, now).1,
    {
        match (self.phase, e) {
            (SpeakPhase::Cancelling, SpeakEvent::Fired) => (
                SpeakPhase::Starting,
                self.start_event(),
            ),
            (SpeakPhase::Starting, SpeakEvent::Published) => (
                SpeakPhase::Looking,
                SpeakAction::LookUp(self.path.clone()),
            ),
            (SpeakPhase::Looking, SpeakEvent::Found(found)) => if *found {
                (SpeakPhase::Playing, SpeakAction::Play(self.path.clone()))
            } else if self.cloud_active {
                (SpeakPhase::Streaming, SpeakAction::Stream(self.text.clone()))
            } else {
                self.piper_step()
            },
            (SpeakPhase::Streaming, SpeakEvent::Streamed(outcome)) => match outcome {
                StreamOutcome::Played { duration_ms, cancelled, played_bytes } => {
                    let p = stream::stream_result(*duration_ms, *cancelled, *played_bytes);
                    self.played_step(&p, now)
                },
                StreamOutcome::FailedBeforeFrame(_) => self.piper_step(),
                StreamOutcome::FailedMidStream(f) => (
                    SpeakPhase::TellingStream,
                    SpeakAction::Publish(Event::error("stream", f.message().as_str(), now)),
                ),
            },
            (SpeakPhase::TellingStream, SpeakEvent::Published) => self.piper_step(),
            (SpeakPhase::MakingDir, SpeakEvent::DirMade) => self.render_step(),
            (SpeakPhase::MakingDir, SpeakEvent::DirFailed(why)) => {
                let message = text::joined4("cache dir ", self.dir.as_str(), ": ", why.as_str());
                (
                    SpeakPhase::TellingRender,
                    SpeakAction::Publish(Event::error("io", message.as_str(), now)),
                )
            },
            (SpeakPhase::Rendering, SpeakEvent::Rendered(run)) => match render_failure(run) {
                None => (SpeakPhase::Playing, SpeakAction::Play(self.path.clone())),
                Some(f) => (
                    SpeakPhase::TellingRender,
                    SpeakAction::Publish(Event::error(f.kind.as_str(), f.message.as_str(), now)),
                ),
            },
            (SpeakPhase::Playing, SpeakEvent::Played(p)) => self.played_step(p, now),
            (
                SpeakPhase::TellingPlay { outcome, duration_ms, played_bytes },
                SpeakEvent::Published,
            ) => (
                SpeakPhase::Ending,
                self.end_event(outcome, duration_ms, played_bytes, now),
            ),
            (SpeakPhase::Starting, SpeakEvent::PublishFailed(why))
            | (SpeakPhase::TellingStream, SpeakEvent::PublishFailed(why))
            | (SpeakPhase::TellingPlay { .. }, SpeakEvent::PublishFailed(why))
            | (SpeakPhase::Ending, SpeakEvent::PublishFailed(why)) => (
                SpeakPhase::Done,
                SpeakAction::Fail(why.clone()),
            ),
            _ => (SpeakPhase::Done, SpeakAction::Finish),
        }
    }

    /// Takes what came of the last action and says what is done next.
    pub fn step(&mut self, e: &SpeakEvent, now: u64) -> (r: SpeakAction)
        ensures
            final(self).phase == next(old(self)@, old(self).phase, e@, now).0,
            r@ == next(old(self)@, old(self).phase, e@, now).1,
            final(self)@ == old(self)@,
    {
        let (phase, action) = self.decide(e, now);
        self.phase = phase;
        action
    }

    /// Begins an utterance at the time `now`.
    pub fn begin(
        req: &SpeakRequest,
        voice: &str,
        dir: String,
        path: String,
        cloud_active: bool,
        armed: bool,
        now: u64,
    ) -> (r: (Speak, SpeakAction))
        ensures
            r.0@ == (Utterance {
                text: req.text@,
                source: match req.priority {
                    Some(p) => p@,
                    None => Seq::empty(),
                },
                turn_id: request::turn_text(req.turn_id),
                accepted: now,
                voice: voice@,
                dir: dir@,
                path: path@,
                cloud_active,
            }),
            r.0.phase == first(r.0@, req.cancel_previous && armed).0,
            r.1@ == first(r.0@, req.cancel_previous && armed).1,
    {
        let source = match &req.priority {
            Some(p) => p.clone(),
            None => String::new(),
        };
        let mut speak = Speak {
            text: req.text.clone(),
            source,
            turn_id: request::text_to_turn(request::turn_to_text(&req.turn_id)),
            accepted: now,
            voice: voice.to_owned(),
            dir,
            path,
            cloud_active,
            phase: SpeakPhase::Starting,
        };
        if req.cancel_previous && armed {
            speak.phase = SpeakPhase::Cancelling;
            (speak, SpeakAction::Fire)
        } else {
            let action = speak.start_event();
            (speak, action)
        }
    }
}

/// The phase after the first `n` events, each with the time at which it came.
pub open spec fn phase_after(
    u: Utterance,
    cancel_first: bool,
    events: Seq<(EventView, u64)>,
    n: nat,
) -> SpeakPhase
    decreases n,
{
    if n == 0 {
        first(u, cancel_first).0
    } else {
        next(
            u,
            phase_after(u, cancel_first, events, (n - 1) as nat),
            events[n - 1].0,
            events[n - 1].1,
        ).0
    }
}

/// The action after the first `n` events.
pub open spec fn action_after(
    u: Utterance,
    cancel_first: bool,
    events: Seq<(EventView, u64)>,
    n: nat,
) -> ActionView {
    if n == 0 {
        first(u, cancel_first).1
    } else {
        next(
            u,
            phase_after(u, cancel_first, events, (n - 1) as nat),
            events[n - 1].0,
            events[n - 1].1,
        ).1
    }
}

proof fn lemma_early_phases(
    u: Utterance,
    cancel_first: bool,
    events: Seq<(EventView, u64)>,
    n: nat,
)
    ensures
        phase_after(u, cancel_first, events, n) == SpeakPhase::Cancelling ==> n == 0
            && cancel_first,
        phase_after(u, cancel_first, events, n) == SpeakPhase::Starting ==> n == (if cancel_first {
            1nat
        } else {
            0
        }),
    decreases n,
{
    if n > 0 {
        lemma_early_phases(u, cancel_first, events, (n - 1) as nat);
    }
}

/// The start of an utterance is published first, and once.
pub proof fn start_is_published_first(
    u: Utterance,
    cancel_first: bool,
    events: Seq<(EventView, u64)>,
    n: nat,
    told: event::EventView,
)
    requires
        action_after(u, cancel_first, events, n) == ActionView::Publish(told),
    ensures
        ({
            let begin = if cancel_first {
                1nat
            } else {
                0
            };
            &&& n >= begin
            &&& n == begin <==> told is Start
            &&& n == begin ==> told == u.start()
        }),
{
    if n > 0 {
        lemma_early_phases(u, cancel_first, events, (n - 1) as nat);
        let before = phase_after(u, cancel_first, events, (n - 1) as nat);
        if cancel_first && n == 1 {
            assert(before == SpeakPhase::Cancelling);
        }
    }
}

proof fn lemma_over(
    u: Utterance,
    cancel_first: bool,
    events: Seq<(EventView, u64)>,
    i: nat,
    j: nat,
)
    requires
        i <= j,
        phase_after(u, cancel_first, events, i) == SpeakPhase::Ending || phase_after(
            u,
            cancel_first,
            events,
            i,
        ) == SpeakPhase::Done,
    ensures
        i < j ==> phase_after(u, cancel_first, events, j) == SpeakPhase::Done,
    decreases j,
{
    if i < j {
        lemma_over(u, cancel_first, events, i, (j - 1) as nat);
    }
}

/// The end of an utterance is the last that is published of it.
pub proof fn nothing_is_published_after_the_end(
    u: Utterance,
    cancel_first: bool,
    events: Seq<(EventView, u64)>,
    i: nat,
    j: nat,
    told: event::EventView,
)
    requires
        i < j,
        action_after(u, cancel_first, events, i) == ActionView::Publish(told),
        told is End,
    ensures
        action_after(u, cancel_first, events, j) is Finish || action_after(
            u,
            cancel_first,
            events,
            j,
        ) is Fail,
{
    assert(phase_after(u, cancel_first, events, i) == SpeakPhase::Ending);
    lemma_over(u, cancel_first, events, i, (j - 1) as nat);
}

/// The start and the end of an utterance carry the text and the turn id of its
/// request.
pub proof fn start_and_end_carry_the_turn(
    u: Utterance,
    cancel_first: bool,
    events: Seq<(EventView, u64)>,
    n: nat,
    told: event::EventView,
)
    requires
        action_after(u, cancel_first, events, n) == ActionView::Publish(told),
    ensures
        match told {
            event::EventView::Start { text, turn_id, .. } => text == u.text && turn_id
                == u.turn_id,
            event::EventView::End { text, turn_id, .. } => text == u.text && turn_id == u.turn_id,
            _ => true,
        },
{
}

/// Whether every result of playing a file that comes in is coherent.
pub open spec fn plays_are_coherent(events: Seq<(EventView, u64)>) -> bool {
    forall|i: int|
        0 <= i < events.len() ==> ((#[trigger] events[i]).0 matches EventView::Played(p)
            ==> p.coherent())
}

proof fn lemma_telling(
    u: Utterance,
    cancel_first: bool,
    events: Seq<(EventView, u64)>,
    n: nat,
)
    requires
        n <= events.len(),
        plays_are_coherent(events),
    ensures
        phase_after(u, cancel_first, events, n) matches SpeakPhase::TellingPlay {
            outcome,
            played_bytes,
            ..
        } ==> {
            &&& n > 0
            &&& outcome == PlayOutcome::Failed
            &&& played_bytes == 0
            &&& action_after(u, cancel_first, events, n) matches ActionView::Publish(told)
                && told is Error
        },
{
    if n > 0 {
        let e = events[n - 1];
    }
}

/// An end that tells of an error comes right after the event that says which,
/// and bytes are told only of an utterance that was played to its end.
pub proof fn failed_end_follows_its_error(
    u: Utterance,
    cancel_first: bool,
    events: Seq<(EventView, u64)>,
    n: nat,
    told: event::EventView,
)
    requires
        n <= events.len(),
        plays_are_coherent(events),
        action_after(u, cancel_first, events, n) == ActionView::Publish(told),
        told is End,
    ensures
        told->End_outcome == PlayOutcome::Failed.word() ==> n > 0 && (action_after(
            u,
            cancel_first,
            events,
            (n - 1) as nat,
        ) matches ActionView::Publish(before) && before is Error),
        told->End_outcome != PlayOutcome::Finished.word() ==> told->End_played_bytes == 0,
{
    reveal_strlit("ok");
    reveal_strlit("cancelled");
    reveal_strlit("error");
    assert("ok"@.len() == 2 && "cancelled"@.len() == 9 && "error"@.len() == 5);
    if n > 0 {
        let e = events[n - 1];
        lemma_telling(u, cancel_first, events, (n - 1) as nat);
    }
}

/// Whether an event is one that the phase waits for.
pub open spec fn awaited(phase: SpeakPhase, e: EventView) -> bool {
    match phase {
        SpeakPhase::Cancelling => e is Fired,
        SpeakPhase::Starting
        | SpeakPhase::TellingStream
        | SpeakPhase::TellingRender
        | SpeakPhase::TellingPlay { .. }
        | SpeakPhase::Ending => e is Published || e is PublishFailed,
        SpeakPhase::Looking => e is Found,
        SpeakPhase::Streaming => e is Streamed,
        SpeakPhase::MakingDir => e is DirMade || e is DirFailed,
        SpeakPhase::Rendering => e is Rendered,
        SpeakPhase::Playing => e is Played,
        SpeakPhase::Done => false,
    }
}

/// Every utterance is closed: it is over only when its end was published, or
/// the error that it could not be rendered, or when an event could not be
/// published.
pub proof fn utterance_is_closed(
    u: Utterance,
    cancel_first: bool,
    events: Seq<(EventView, u64)>,
    n: nat,
)
    requires
        0 < n <= events.len(),
        awaited(phase_after(u, cancel_first, events, (n - 1) as nat), events[n - 1].0),
        action_after(u, cancel_first, events, n) is Finish,
    ensures
        action_after(u, cancel_first, events, (n - 1) as nat) matches ActionView::Publish(told) && (
        told is End || told is Error),
{
    lemma_told(u, cancel_first, events, (n - 1) as nat);
}

proof fn lemma_told(u: Utterance, cancel_first: bool, events: Seq<(EventView, u64)>, n: nat)
    ensures
        match phase_after(u, cancel_first, events, n) {
            SpeakPhase::Ending => action_after(u, cancel_first, events, n) matches
                ActionView::Publish(told) && told is End,
            SpeakPhase::TellingRender => action_after(u, cancel_first, events, n) matches
                ActionView::Publish(told) && told is Error,
            _ => true,
        },
{
}

/// A failure of the cloud service that nobody heard is not told: the whole text
/// is rendered with Piper at once.
pub proof fn unheard_failure_falls_back_in_silence(
    u: Utterance,
    f: crate::cloud::CloudFault,
    now: u64,
)
    ensures
        next(
            u,
            SpeakPhase::Streaming,
            EventView::Streamed(stream::OutcomeView::FailedBeforeFrame(f)),
            now,
        ) == u.to_piper(),
        next(u, u.to_piper().0, EventView::DirMade, now) == u.render(),
        u.render().1->Render_text == u.text,
{
}

/// A failure in the middle of a stream is told, and then the whole text is
/// rendered with Piper.
pub proof fn broken_stream_is_told_and_restarted(
    u: Utterance,
    f: crate::cloud::CloudFault,
    now: u64,
    later: u64,
)
    ensures
        ({
            let (phase, action) = next(
                u,
                SpeakPhase::Streaming,
                EventView::Streamed(stream::OutcomeView::FailedMidStream(f)),
                now,
            );
            &&& action == ActionView::Publish(
                event::EventView::Error { kind: "stream"@, message: f.words(), ts: now },
            )
            &&& next(u, phase, EventView::Published, later) == u.to_piper()
            &&& next(u, u.to_piper().0, EventView::DirMade, later) == u.render()
            &&& u.render().1->Render_text == u.text
        }),
{
}

/// Piper is asked only right after the directory of the file was made; where it
/// could not be made, that is told and Piper is not asked.
pub proof fn piper_is_asked_only_with_a_directory(
    u: Utterance,
    cancel_first: bool,
    events: Seq<(EventView, u64)>,
    n: nat,
)
    requires
        action_after(u, cancel_first, events, n) is Render,
    ensures
        n > 1,
        action_after(u, cancel_first, events, n) == u.render().1,
        events[n - 1].0 == EventView::DirMade,
        action_after(u, cancel_first, events, (n - 1) as nat) == ActionView::MakeDir(u.dir),
{
    lemma_making(u, cancel_first, events, (n - 1) as nat);
}

proof fn lemma_making(u: Utterance, cancel_first: bool, events: Seq<(EventView, u64)>, n: nat)
    ensures
        phase_after(u, cancel_first, events, n) == SpeakPhase::MakingDir ==> n > 0 && action_after(
            u,
            cancel_first,
            events,
            n,
        ) == ActionView::MakeDir(u.dir),
{
}

/// A file in the cache is played without asking the cloud service or Piper.
pub proof fn cached_file_is_played(u: Utterance, now: u64)
    ensures
        next(u, SpeakPhase::Starting, EventView::Published, now) == (
            SpeakPhase::Looking,
            ActionView::LookUp(u.path),
        ),
        next(u, SpeakPhase::Looking, EventView::Found(true), now) == (
            SpeakPhase::Playing,
            ActionView::Play(u.path),
        ),
{
}

} // verus!
