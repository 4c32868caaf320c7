//! The life of the daemon.
//!
//! The phrases are loaded and rendered. Then the daemon connects to the bus
//! twice, once to listen and once to publish; on each connection it says who it
//! is before anything else. From then on it handles one message after the
//! other until the bus closes.
//!
//! [`Run`] decides what is done at each step.

use crate::bus;
use crate::bus::event;
use crate::bus::event::Event;
use crate::bus::request::Request;
use crate::daemon;
use crate::daemon::LineVerdict;
use crate::text;
use vstd::prelude::*;

verus! {

/// Where the daemon stands.
#[derive(Debug, Clone, Copy, PartialEq, Eq)]
pub enum RunPhase {
    /// The phrases are being loaded.
    Loading,
    /// The phrases are being rendered.
    Prerendering,
    /// The connection to listen on is being made.
    ConnectingToListen,
    /// It says who it is on that connection.
    AnnouncingListener,
    /// It asks for the messages of its topics.
    Subscribing,
    /// The connection to publish on is being made.
    ConnectingToPublish,
    /// It says who it is on that connection.
    AnnouncingPublisher,
    /// Heartbeats are being started on both.
    StartingHeartbeats,
    /// A line is awaited.
    Reading,
    /// A request is being handled.
    Dispatching,
    /// An error is being published.
    Answering,
    /// It is over.
    Done,
}

/// What came of the last action.
#[derive(Debug)]
pub enum RunEvent {
    /// It was done.
    Done,
    /// It failed.
    Failed(String),
    /// The bus is not there.
    NotReachable,
    /// A line came, and was judged.
    Line(LineVerdict),
    /// The bus has closed, or cannot be read any more.
    Closed,
}

/// What is to be done next.
#[derive(Debug)]
pub enum RunAction {
    /// Load the phrases from this file.
    LoadPhrases(String),
    /// Render the phrases; it does not matter if that fails.
    Prerender,
    /// Connect to the bus, if it is there.
    Connect,
    /// Say who is on the connection just made.
    Announce {
        /// The name of the session.
        session: String,
        /// What it is for.
        intent: String,
    },
    /// Ask for the messages whose topics begin so.
    Subscribe(String),
    /// Connect to the bus once more.
    ConnectAgain,
    /// Start the heartbeats of both connections.
    StartHeartbeats,
    /// Read a line and judge it.
    ReadLine,
    /// Handle a request.
    Dispatch(Request),
    /// Publish an error; it does not matter if that fails.
    Publish(Event),
    /// It is over.
    Exit,
    /// It is over because something failed.
    Fail(String),
}

/// The daemon as it runs.
#[derive(Debug)]
pub struct Run {
    /// The number of the process.
    pub pid: u32,
    /// The file of the phrases.
    pub cache_config: String,
    /// Where it stands.
    pub phase: RunPhase,
}

/// An event with its texts as sequences of characters.
pub enum EventView {
    Done,
    Failed(Seq<char>),
    NotReachable,
    Skip,
    Handle(Request),
    Reject(event::EventView),
    Closed,
}

/// An action with its texts as sequences of characters.
pub enum ActionView {
    LoadPhrases(Seq<char>),
    Prerender,
    Connect,
    Announce { session: Seq<char>, intent: Seq<char> },
    Subscribe(Seq<char>),
    ConnectAgain,
    StartHeartbeats,
    ReadLine,
    Dispatch(Request),
    Publish(event::EventView),
    Exit,
    Fail(Seq<char>),
}

impl RunEvent {
    /// The event with its texts as sequences of characters.
    pub open spec fn view(self) -> EventView {
        match self {
            RunEvent::Done => EventView::Done,
            RunEvent::Failed(why) => EventView::Failed(why@),
            RunEvent::NotReachable => EventView::NotReachable,
            RunEvent::Line(LineVerdict::Skip) => EventView::Skip,
            RunEvent::Line(LineVerdict::Handle(req)) => EventView::Handle(req),
            RunEvent::Line(LineVerdict::Reject(told)) => EventView::Reject(told@),
            RunEvent::Closed => EventView::Closed,
        }
    }
}

impl RunAction {
    /// The action with its texts as sequences of characters.
    pub open spec fn view(self) -> ActionView {
        match self {
            RunAction::LoadPhrases(path) => ActionView::LoadPhrases(path@),
            RunAction::Prerender => ActionView::Prerender,
            RunAction::Connect => ActionView::Connect,
            RunAction::Announce { session, intent } => ActionView::Announce {
                session: session@,
                intent: intent@,
            },
            RunAction::Subscribe(prefix) => ActionView::Subscribe(prefix@),
            RunAction::ConnectAgain => ActionView::ConnectAgain,
            RunAction::StartHeartbeats => ActionView::StartHeartbeats,
            RunAction::ReadLine => ActionView::ReadLine,
            RunAction::Dispatch(req) => ActionView::Dispatch(req),
            RunAction::Publish(told) => ActionView::Publish(told@),
            RunAction::Exit => ActionView::Exit,
            RunAction::Fail(why) => ActionView::Fail(why@),
        }
    }
}

/// The name under which it publishes.
pub open spec fn publisher_name(pid: u32) -> Seq<char> {
    "wm-tts-"@ + text::decimal_text(pid as nat)
}

/// The name under which it listens.
pub open spec fn listener_name(pid: u32) -> Seq<char> {
    publisher_name(pid) + "-sub"@
}

/// Says who listens.
pub open spec fn announce_listener(pid: u32) -> ActionView {
    ActionView::Announce { session: listener_name(pid), intent: "wm-tts control subscribe"@ }
}

/// Says who publishes.
pub open spec fn announce_publisher(pid: u32) -> ActionView {
    ActionView::Announce { session: publisher_name(pid), intent: "wm-tts publish path"@ }
}

/// How the daemon goes on from a phase after an event, at the time `now`. An
/// event that does not belong to the phase ends it.
pub open spec fn next(
    phase: RunPhase,
    e: EventView,
    pid: u32,
    cache_config: Seq<char>,
    now: u64,
) -> (RunPhase, ActionView) {
    match (phase, e) {
        (RunPhase::Loading, EventView::Done) => (RunPhase::Prerendering, ActionView::Prerender),
        (RunPhase::Loading, EventView::Failed(_)) => (
            RunPhase::Done,
            ActionView::Fail("loading cache config from "@ + cache_config),
        ),
        (RunPhase::Prerendering, EventView::Done)
        | (RunPhase::Prerendering, EventView::Failed(_)) => (
            RunPhase::ConnectingToListen,
            ActionView::Connect,
        ),
        (RunPhase::ConnectingToListen, EventView::Done) => (
            RunPhase::AnnouncingListener,
            announce_listener(pid),
        ),
        (RunPhase::ConnectingToListen, EventView::NotReachable) => (
            RunPhase::Done,
            ActionView::Exit,
        ),
        (RunPhase::AnnouncingListener, EventView::Done) => (
            RunPhase::Subscribing,
            ActionView::Subscribe(bus::TOPIC_PREFIX@),
        ),
        (RunPhase::Subscribing, EventView::Done) => (
            RunPhase::ConnectingToPublish,
            ActionView::ConnectAgain,
        ),
        (RunPhase::ConnectingToPublish, EventView::Done) => (
            RunPhase::AnnouncingPublisher,
            announce_publisher(pid),
        ),
        (RunPhase::AnnouncingPublisher, EventView::Done) => (
            RunPhase::StartingHeartbeats,
            ActionView::StartHeartbeats,
        ),
        (RunPhase::StartingHeartbeats, EventView::Done) => (
            RunPhase::Reading,
            ActionView::ReadLine,
        ),
        (RunPhase::ConnectingToListen, EventView::Failed(why))
        | (RunPhase::AnnouncingListener, EventView::Failed(why))
        | (RunPhase::Subscribing, EventView::Failed(why))
        | (RunPhase::ConnectingToPublish, EventView::Failed(why))
        | (RunPhase::AnnouncingPublisher, EventView::Failed(why)) => (
            RunPhase::Done,
            ActionView::Fail(why),
        ),
        (RunPhase::Reading, EventView::Skip) => (RunPhase::Reading, ActionView::ReadLine),
        (RunPhase::Reading, EventView::Handle(req)) => (
            RunPhase::Dispatching,
            ActionView::Dispatch(req),
        ),
        (RunPhase::Reading, EventView::Reject(told)) => (
            RunPhase::Answering,
            ActionView::Publish(told),
        ),
        (RunPhase::Dispatching, EventView::Done) => (RunPhase::Reading, ActionView::ReadLine),
        (RunPhase::Dispatching, EventView::Failed(why)) => (
            RunPhase::Answering,
            ActionView::Publish(
                event::EventView::Error { kind: "bus"@, message: "dispatch: "@ + why, ts: now },
            ),
        ),
        (RunPhase::Answering, EventView::Done) | (RunPhase::Answering, EventView::Failed(_)) => (
            RunPhase::Reading,
            ActionView::ReadLine,
        ),
        _ => (RunPhase::Done, ActionView::Exit),
    }
}

impl Run {
    /// Begins: the phrases are to be loaded.
    pub fn begin(pid: u32, cache_config: String) -> (r: (Self, RunAction))
        ensures
            r.0.pid == pid,
            r.0.cache_config@ == cache_config@,
            r.0.phase == RunPhase::Loading,
            r.1@ == ActionView::LoadPhrases(cache_config@),
    {
        let action = RunAction::LoadPhrases(cache_config.clone());
        (Run { pid, cache_config, phase: RunPhase::Loading }, action)
    }

    fn publisher(&self) -> (r: String)
        ensures
            r@ == publisher_name(self.pid),
    {
        text::joined2("wm-tts-", text::decimal(self.pid as u64).as_str())
    }

    fn announce(session: String, intent: &str) -> (r: RunAction)
        ensures
            r@ == (ActionView::Announce { session: session@, intent: intent@ }),
    {
        RunAction::Announce { session, intent: intent.to_owned() }
    }

    fn decide(&self, e: RunEvent, now: u64) -> (r: (RunPhase, RunAction))
        ensures
            r.0 == next(self.phase, e@, self.pid, self.cache_config@, now).0,
            r.1@ == next(self.phase, e@, self.pid, self.cache_config@, now).1,
    {
        match (self.phase, e) {
            (RunPhase::Loading, RunEvent::Done) => (RunPhase::Prerendering, RunAction::Prerender),
            (RunPhase::Loading, RunEvent::Failed(_)) => (
                RunPhase::Done,
                RunAction::Fail(
                    text::joined2("loading cache config from ", self.cache_config.as_str()),
                ),
            ),
            (RunPhase::Prerendering, RunEvent::Done)
            | (RunPhase::Prerendering, RunEvent::Failed(_)) => (
                RunPhase::ConnectingToListen,
                RunAction::Connect,
            ),
            (RunPhase::ConnectingToListen, RunEvent::Done) => {
                let session = text::joined2(self.publisher().as_str(), "-sub");
                (
                    RunPhase::AnnouncingListener,
                    Run::announce(session, "wm-tts control subscribe"),
                )
            },
            (RunPhase::ConnectingToListen, RunEvent::NotReachable) => (
                RunPhase::Done,
                RunAction::Exit,
            ),
            (RunPhase::AnnouncingListener, RunEvent::Done) => (
                RunPhase::Subscribing,
                RunAction::Subscribe(bus::TOPIC_PREFIX.to_owned()),
            ),
            (RunPhase::Subscribing, RunEvent::Done) => (
                RunPhase::ConnectingToPublish,
                RunAction::ConnectAgain,
            ),
            (RunPhase::ConnectingToPublish, RunEvent::Done) => (
                RunPhase::AnnouncingPublisher,
                Run::announce(self.publisher(), "wm-tts publish path"),
            ),
            (RunPhase::AnnouncingPublisher, RunEvent::Done) => (
                RunPhase::StartingHeartbeats,
                RunAction::StartHeartbeats,
            ),
            (RunPhase::StartingHeartbeats, RunEvent::Done) => (
                RunPhase::Reading,
                RunAction::ReadLine,
            ),
            (RunPhase::ConnectingToListen, RunEvent::Failed(why))
            | (RunPhase::AnnouncingListener, RunEvent::Failed(why))
            | (RunPhase::Subscribing, RunEvent::Failed(why))
            | (RunPhase::ConnectingToPublish, RunEvent::Failed(why))
            | (RunPhase::AnnouncingPublisher, RunEvent::Failed(why)) => (
                RunPhase::Done,
                RunAction::Fail(why),
            ),
            (RunPhase::Reading, RunEvent::Line(LineVerdict::Skip)) => (
                RunPhase::Reading,
                RunAction::ReadLine,
            ),
            (RunPhase::Reading, RunEvent::Line(LineVerdict::Handle(req))) => (
                RunPhase::Dispatching,
                RunAction::Dispatch(req),
            ),
            (RunPhase::Reading, RunEvent::Line(LineVerdict::Reject(told))) => (
                RunPhase::Answering,
                RunAction::Publish(told),
            ),
            (RunPhase::Dispatching, RunEvent::Done) => (RunPhase::Reading, RunAction::ReadLine),
            (RunPhase::Dispatching, RunEvent::Failed(why)) => (
                RunPhase::Answering,
                RunAction::Publish(daemon::dispatch_failed(why.as_str(), now)),
            ),
            (RunPhase::Answering, RunEvent::Done) | (RunPhase::Answering, RunEvent::Failed(_)) => (
                RunPhase::Reading,
                RunAction::ReadLine,
            ),
            _ => (RunPhase::Done, RunAction::Exit),
        }
    }

    /// Takes what came of the last action and says what is done next.
    pub fn step(&mut self, e: RunEvent, now: u64) -> (r: RunAction)
        ensures
            final(self).phase == next(
                old(self).phase,
                e@,
                old(self).pid,
                old(self).cache_config@,
                now,
            ).0,
            r@ == next(old(self).phase, e@, old(self).pid, old(self).cache_config@, now).1,
            final(self).pid == old(self).pid,
            final(self).cache_config == old(self).cache_config,
    {
        let (phase, action) = self.decide(e, now);
        self.phase = phase;
        action
    }
}

/// The phase after the first `n` events, each with the time at which it came.
pub open spec fn phase_after(
    events: Seq<(EventView, u64)>,
    n: nat,
    pid: u32,
    cache_config: Seq<char>,
) -> RunPhase
    decreases n,
{
    if n == 0 {
        RunPhase::Loading
    } else {
        next(
            phase_after(events, (n - 1) as nat, pid, cache_config),
            events[n - 1].0,
            pid,
            cache_config,
            events[n - 1].1,
        ).0
    }
}

/// The action after the first `n` events.
pub open spec fn action_after(
    events: Seq<(EventView, u64)>,
    n: nat,
    pid: u32,
    cache_config: Seq<char>,
) -> ActionView {
    if n == 0 {
        ActionView::LoadPhrases(cache_config)
    } else {
        next(
            phase_after(events, (n - 1) as nat, pid, cache_config),
            events[n - 1].0,
            pid,
            cache_config,
            events[n - 1].1,
        ).1
    }
}

/// How far the daemon has come in starting up.
pub open spec fn progress(phase: RunPhase) -> nat {
    match phase {
        RunPhase::Loading => 0,
        RunPhase::Prerendering => 1,
        RunPhase::ConnectingToListen => 2,
        RunPhase::AnnouncingListener => 3,
        RunPhase::Subscribing => 4,
        RunPhase::ConnectingToPublish => 5,
        RunPhase::AnnouncingPublisher => 6,
        RunPhase::StartingHeartbeats => 7,
        RunPhase::Reading | RunPhase::Dispatching | RunPhase::Answering => 8,
        RunPhase::Done => 0,
    }
}

proof fn lemma_startup(
    events: Seq<(EventView, u64)>,
    n: nat,
    pid: u32,
    cache_config: Seq<char>,
)
    ensures
        ({
            let phase = phase_after(events, n, pid, cache_config);
            &&& progress(phase) <= n
            &&& 0 < progress(phase) < 8 ==> progress(phase) == n
            &&& progress(phase) >= 3 ==> action_after(events, 3, pid, cache_config)
                == announce_listener(pid)
            &&& progress(phase) >= 4 ==> events[3].0 == EventView::Done && action_after(
                events,
                4,
                pid,
                cache_config,
            ) == ActionView::Subscribe(bus::TOPIC_PREFIX@)
            &&& progress(phase) >= 6 ==> action_after(events, 6, pid, cache_config)
                == announce_publisher(pid)
            &&& progress(phase) >= 7 ==> events[6].0 == EventView::Done
        }),
    decreases n,
{
    if n > 0 {
        lemma_startup(events, (n - 1) as nat, pid, cache_config);
    }
}

/// The daemon says who it is before it asks for messages, and the bus has
/// accepted that.
pub proof fn announces_before_it_subscribes(
    events: Seq<(EventView, u64)>,
    n: nat,
    pid: u32,
    cache_config: Seq<char>,
)
    requires
        action_after(events, n, pid, cache_config) is Subscribe,
    ensures
        n == 4,
        action_after(events, 3, pid, cache_config) == announce_listener(pid),
        events[3].0 == EventView::Done,
        action_after(events, n, pid, cache_config) == ActionView::Subscribe(bus::TOPIC_PREFIX@),
{
    lemma_startup(events, n, pid, cache_config);
    if n > 0 {
        lemma_startup(events, (n - 1) as nat, pid, cache_config);
    }
}

/// No message is read, handled or answered before the daemon has said who it is
/// on both connections and has subscribed.
pub proof fn serves_only_when_set_up(
    events: Seq<(EventView, u64)>,
    n: nat,
    pid: u32,
    cache_config: Seq<char>,
)
    requires
        action_after(events, n, pid, cache_config) is ReadLine || action_after(
            events,
            n,
            pid,
            cache_config,
        ) is Dispatch || action_after(events, n, pid, cache_config) is Publish,
    ensures
        n >= 8,
        action_after(events, 3, pid, cache_config) == announce_listener(pid),
        events[3].0 == EventView::Done,
        action_after(events, 4, pid, cache_config) == ActionView::Subscribe(bus::TOPIC_PREFIX@),
        action_after(events, 6, pid, cache_config) == announce_publisher(pid),
        events[6].0 == EventView::Done,
{
    lemma_startup(events, n, pid, cache_config);
    if n > 0 {
        lemma_startup(events, (n - 1) as nat, pid, cache_config);
    }
}

/// A message that is no request is answered once, and so is a request whose
/// handling failed; then the next line is read.
pub proof fn each_failure_is_answered_once(
    told: event::EventView,
    why: Seq<char>,
    pid: u32,
    cache_config: Seq<char>,
    now: u64,
    later: u64,
)
    ensures
        next(RunPhase::Reading, EventView::Reject(told), pid, cache_config, now) == (
            RunPhase::Answering,
            ActionView::Publish(told),
        ),
        next(RunPhase::Dispatching, EventView::Failed(why), pid, cache_config, now) == (
            RunPhase::Answering,
            ActionView::Publish(
                event::EventView::Error { kind: "bus"@, message: "dispatch: "@ + why, ts: now },
            ),
        ),
        next(RunPhase::Answering, EventView::Done, pid, cache_config, later) == (
            RunPhase::Reading,
            ActionView::ReadLine,
        ),
        next(RunPhase::Answering, EventView::Failed(why), pid, cache_config, later) == (
            RunPhase::Reading,
            ActionView::ReadLine,
        ),
{
}

} // verus!
