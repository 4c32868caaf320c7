//! The daemon at work: what each of its operations does with what it is given.

use crate::bus;
use crate::bus::event::{Event, ReloadAckEvent};
use crate::bus::request;
use crate::bus::request::{DecodeError, Request, SpeakRequest};
use crate::bus::turn::TurnId;
use crate::cache::{CacheError, CacheManager, RenderReport};
use crate::cloud::CloudError;
use crate::daemon;
use crate::daemon::player;
use crate::daemon::player::{AudioFacts, PlayOutcome, PlayResult, PlayerRun};
use crate::daemon::run::{Run, RunAction, RunEvent, RunPhase};
use crate::daemon::slot::CancelSlot;
use crate::daemon::speak::{RenderRun, Speak, SpeakAction, SpeakEvent, SpeakPhase};
use crate::daemon::stream;
use crate::daemon::stream::{StreamAction, StreamEvent, StreamOutcome, StreamPhase, StreamPlay};
use crate::daemon::{BusLine, DaemonState, Dispatched, LineVerdict};
use crate::laws::speaking;
use crate::synth::{Synth, SynthError};
use crate::text;
use vstd::prelude::*;

verus! {

/// Whether two turn ids are the same, or neither is there.
pub open spec fn same_turn(a: Option<TurnId>, b: Option<TurnId>) -> bool {
    match (a, b) {
        (Some(x), Some(y)) => x.0@ == y.0@,
        (None, None) => true,
        _ => false,
    }
}

/// Whether everything of a daemon but its slot is the same.
pub open spec fn rest_kept(a: DaemonState, b: DaemonState) -> bool {
    &&& a.active == b.active
    &&& a.player_bin == b.player_bin
    &&& a.sink_node == b.sink_node
    &&& a.synth == b.synth
    &&& a.cloud_active == b.cloud_active
    &&& a.cache_root == b.cache_root
    &&& a.cache_phrases == b.cache_phrases
}

// ---- an utterance --------------------------------------------------------

/// A request that is accepted becomes an utterance of its text, in the voice
/// that is active, with the file and the directory that the cache has for it.
/// Where it asks for that and something can be cancelled, that is done first;
/// otherwise its start is published first.
pub proof fn request_becomes_an_utterance(
    state: DaemonState,
    req: SpeakRequest,
    now: u64,
    phrase: &str,
    path: String,
    dir: String,
    r: (Speak, SpeakAction),
)
    requires
        call_ensures(DaemonState::handle_speak, (&state, &req, now), r),
        phrase@ == req.text@,
        call_ensures(CacheManager::entry_path, (&state.active.cache, phrase), path),
        call_ensures(CacheManager::voice_dir, (&state.active.cache,), dir),
    ensures
        r.0.text@ == req.text@,
        r.0.source@ == speaking::source_of(req),
        same_turn(r.0.turn_id, req.turn_id),
        r.0.accepted == now,
        r.0.voice@ == state.active.voice@,
        r.0.dir@ == dir@,
        r.0.path@ == path@,
        r.0.cloud_active == state.cloud_active,
        req.cancel_previous && state.slot.armed ==> r.1 is Fire && r.0.phase
            == SpeakPhase::Cancelling,
        !(req.cancel_previous && state.slot.armed) ==> starts(r.0, r.1) && r.0.phase
            == SpeakPhase::Starting,
{
    if req.priority is None {
        assert(speaking::source_of(req) =~= Seq::<char>::empty());
    }
}

/// Whether an action publishes the start of an utterance.
pub open spec fn starts(s: Speak, a: SpeakAction) -> bool {
    a matches SpeakAction::Publish(Event::Start(e)) && e.text@ == s.text@ && e.source@ == s.source@
        && e.ts == s.accepted && same_turn(e.turn_id, s.turn_id)
}

/// Whether an action publishes the end of an utterance.
pub open spec fn ends(
    s: Speak,
    a: SpeakAction,
    outcome: Seq<char>,
    duration_ms: u64,
    played_bytes: u64,
    now: u64,
) -> bool {
    a matches SpeakAction::Publish(Event::End(e)) && e.text@ == s.text@ && e.outcome@ == outcome
        && e.duration_ms == duration_ms && e.played_bytes == played_bytes && e.ts == now
        && same_turn(e.turn_id, s.turn_id)
}

/// Whether an action publishes an error.
pub open spec fn complains(a: SpeakAction, kind: Seq<char>, message: Seq<char>, now: u64) -> bool {
    a matches SpeakAction::Publish(Event::Error(e)) && e.kind@ == kind && e.message@ == message
        && e.ts == now
}

/// A step of an utterance acts for that utterance: it renders the text in the
/// voice into the file, streams the text, looks for and plays the file, makes the
/// directory; and nothing that the utterance stands for changes.
pub proof fn step_acts_for_its_utterance(s: &mut Speak, e: &SpeakEvent, now: u64, r: SpeakAction)
    requires
        call_ensures(Speak::step, (s, e, now), r),
    ensures
        match r {
            SpeakAction::Render { voice, text, path } => voice@ == old(s).voice@ && text@
                == old(s).text@ && path@ == old(s).path@,
            SpeakAction::Stream(t) => t@ == old(s).text@,
            SpeakAction::LookUp(p) => p@ == old(s).path@,
            SpeakAction::Play(p) => p@ == old(s).path@,
            SpeakAction::MakeDir(d) => d@ == old(s).dir@,
            SpeakAction::Publish(Event::Start(_)) => starts(*old(s), r),
            SpeakAction::Publish(Event::End(v)) => v.text@ == old(s).text@ && v.ts == now
                && same_turn(v.turn_id, old(s).turn_id),
            SpeakAction::Publish(Event::Error(v)) => v.ts == now,
            SpeakAction::Publish(_) => false,
            _ => true,
        },
        final(s).text@ == old(s).text@,
        final(s).source@ == old(s).source@,
        same_turn(final(s).turn_id, old(s).turn_id),
        final(s).accepted == old(s).accepted,
        final(s).voice@ == old(s).voice@,
        final(s).dir@ == old(s).dir@,
        final(s).path@ == old(s).path@,
        final(s).cloud_active == old(s).cloud_active,
        r is Finish || r is Fail ==> final(s).phase == SpeakPhase::Done,
{
    assert(final(s)@ == old(s)@);
    assert(final(s)@.text == final(s).text@ && old(s)@.text == old(s).text@);
    assert(final(s)@.turn_id == request::turn_text(final(s).turn_id));
    assert(old(s)@.turn_id == request::turn_text(old(s).turn_id));
}

/// The course of an utterance up to its audio: the start, the look into the
/// cache, and then the file that is there, or else the stream where the cloud
/// service is used, or else the directory, the rendering and the file rendered.
pub proof fn utterance_takes_its_course(s: &mut Speak, e: &SpeakEvent, now: u64, r: SpeakAction)
    requires
        call_ensures(Speak::step, (s, e, now), r),
    ensures
        old(s).phase == SpeakPhase::Cancelling && *e is Fired ==> r is Publish && starts(
            *old(s),
            r,
        ) && final(s).phase == SpeakPhase::Starting,
        old(s).phase == SpeakPhase::Starting && *e is Published ==> r is LookUp && final(s).phase
            == SpeakPhase::Looking,
        old(s).phase == SpeakPhase::Looking && *e == SpeakEvent::Found(true) ==> r is Play
            && final(s).phase == SpeakPhase::Playing,
        old(s).phase == SpeakPhase::Looking && *e == SpeakEvent::Found(false)
            && old(s).cloud_active ==> r is Stream && final(s).phase == SpeakPhase::Streaming,
        old(s).phase == SpeakPhase::Looking && *e == SpeakEvent::Found(false)
            && !old(s).cloud_active ==> r is MakeDir && final(s).phase == SpeakPhase::MakingDir,
        old(s).phase == SpeakPhase::Streaming ==> (*e matches SpeakEvent::Streamed(
            StreamOutcome::FailedBeforeFrame(_),
        ) ==> r is MakeDir && final(s).phase == SpeakPhase::MakingDir),
        old(s).phase == SpeakPhase::Streaming ==> (*e matches SpeakEvent::Streamed(
            StreamOutcome::FailedMidStream(f),
        ) ==> complains(r, "stream"@, f@.words(), now) && final(s).phase
            == SpeakPhase::TellingStream),
        old(s).phase == SpeakPhase::TellingStream && *e is Published ==> r is MakeDir
            && final(s).phase == SpeakPhase::MakingDir,
        old(s).phase == SpeakPhase::MakingDir && *e is DirMade ==> r is Render && final(s).phase
            == SpeakPhase::Rendering,
        old(s).phase == SpeakPhase::MakingDir ==> (*e matches SpeakEvent::DirFailed(why)
            ==> complains(r, "io"@, "cache dir "@ + old(s).dir@ + ": "@ + why@, now)
                && final(s).phase == SpeakPhase::TellingRender),
        old(s).phase == SpeakPhase::Rendering && *e == SpeakEvent::Rendered(RenderRun::Rendered)
            ==> r is Play && final(s).phase == SpeakPhase::Playing,
        old(s).phase == SpeakPhase::Rendering ==> (*e matches SpeakEvent::Rendered(
            RenderRun::JoinFailed(why),
        ) ==> complains(r, "render"@, "synth task join failed: "@ + why@, now) && final(s).phase
            == SpeakPhase::TellingRender),
        old(s).phase == SpeakPhase::Rendering ==> (*e matches SpeakEvent::Rendered(
            RenderRun::SynthFailed(SynthError::Io { path, source }),
        ) ==> complains(r, "io"@, "synth io on "@ + path@ + ": "@ + source@, now) && final(s).phase
            == SpeakPhase::TellingRender),
        old(s).phase == SpeakPhase::Rendering ==> (*e matches SpeakEvent::Rendered(
            RenderRun::SynthFailed(SynthError::BackendMissing(bin)),
        ) ==> complains(r, "render"@, "backend binary not found: "@ + bin@, now) && final(s).phase
            == SpeakPhase::TellingRender),
        old(s).phase == SpeakPhase::Rendering ==> (*e matches SpeakEvent::Rendered(
            RenderRun::SynthFailed(SynthError::BackendFailed { status, stderr }),
        ) ==> complains(
            r,
            "render"@,
            "backend exited with status "@ + text::signed_text(status as int) + ": "@ + stderr@,
            now,
        ) && final(s).phase == SpeakPhase::TellingRender),
        old(s).phase == SpeakPhase::TellingRender && *e is Published ==> r is Finish
            && final(s).phase == SpeakPhase::Done,
{
}

/// The end of an utterance: what was played is told with the time it took and
/// the bytes that were heard, a failure first with its error; once the end is
/// published nothing is left to do.
pub proof fn utterance_ends_as_it_was_played(
    s: &mut Speak,
    e: &SpeakEvent,
    now: u64,
    r: SpeakAction,
)
    requires
        call_ensures(Speak::step, (s, e, now), r),
    ensures
        old(s).phase == SpeakPhase::Playing ==> (*e matches SpeakEvent::Played(p) ==> {
            &&& p.error is None && p.outcome == PlayOutcome::Finished ==> ends(
                *old(s),
                r,
                "ok"@,
                p.duration_ms,
                p.played_bytes,
                now,
            ) && final(s).phase == SpeakPhase::Ending
            &&& p.error is None && p.outcome == PlayOutcome::Cancelled ==> ends(
                *old(s),
                r,
                "cancelled"@,
                p.duration_ms,
                p.played_bytes,
                now,
            ) && final(s).phase == SpeakPhase::Ending
            &&& p.error is None && p.outcome == PlayOutcome::Failed ==> ends(
                *old(s),
                r,
                "error"@,
                p.duration_ms,
                p.played_bytes,
                now,
            ) && final(s).phase == SpeakPhase::Ending
            &&& p.error is Some ==> complains(
                r,
                p.error->0.kind@,
                p.error->0.message@,
                now,
            ) && final(s).phase == (SpeakPhase::TellingPlay {
                outcome: p.outcome,
                duration_ms: p.duration_ms,
                played_bytes: p.played_bytes,
            })
        }),
        *e is Published ==> (old(s).phase matches SpeakPhase::TellingPlay {
            outcome,
            duration_ms,
            played_bytes,
        } ==> ends(
            *old(s),
            r,
            (match outcome {
                PlayOutcome::Finished => "ok"@,
                PlayOutcome::Cancelled => "cancelled"@,
                PlayOutcome::Failed => "error"@,
            }),
            duration_ms,
            played_bytes,
            now,
        ) && final(s).phase == SpeakPhase::Ending),
        old(s).phase == SpeakPhase::Streaming ==> (*e matches SpeakEvent::Streamed(
            StreamOutcome::Played { duration_ms, cancelled, played_bytes },
        ) ==> {
            &&& !cancelled ==> ends(*old(s), r, "ok"@, duration_ms, played_bytes, now)
            &&& cancelled ==> ends(*old(s), r, "cancelled"@, duration_ms, 0, now)
            &&& final(s).phase == SpeakPhase::Ending
        }),
        old(s).phase == SpeakPhase::Ending && *e is Published ==> r is Finish && final(s).phase
            == SpeakPhase::Done,
        *e matches SpeakEvent::PublishFailed(why) ==> (old(s).phase
            == SpeakPhase::Starting || old(s).phase
            == SpeakPhase::TellingStream || old(s).phase is TellingPlay || old(s).phase
            == SpeakPhase::Ending ==> (r matches SpeakAction::Fail(w) && w@ == why@
                && final(s).phase == SpeakPhase::Done)),
        old(s).phase == SpeakPhase::Done ==> r is Finish && final(s).phase == SpeakPhase::Done,
{
}

/// An event that an utterance does not wait for ends it, and so does the answer
/// to a failed rendering, whether or not that could be published.
pub proof fn unexpected_events_end_an_utterance(
    s: &mut Speak,
    e: &SpeakEvent,
    now: u64,
    r: SpeakAction,
)
    requires
        call_ensures(Speak::step, (s, e, now), r),
        match old(s).phase {
            SpeakPhase::Cancelling => !(*e is Fired),
            SpeakPhase::Starting
            | SpeakPhase::TellingStream
            | SpeakPhase::TellingPlay { .. }
            | SpeakPhase::Ending => !(*e is Published) && !(*e is PublishFailed),
            SpeakPhase::Looking => !(*e is Found),
            SpeakPhase::Streaming => !(*e is Streamed),
            SpeakPhase::MakingDir => !(*e is DirMade) && !(*e is DirFailed),
            SpeakPhase::Rendering => !(*e is Rendered),
            SpeakPhase::Playing => !(*e is Played),
            SpeakPhase::TellingRender | SpeakPhase::Done => true,
        },
    ensures
        r is Finish,
        final(s).phase == SpeakPhase::Done,
{
}

// ---- the loop ------------------------------------------------------------

/// The daemon begins by loading the phrases, and then does one thing after the
/// other until it reads; what fails on the way ends it, but for the rendering of
/// the phrases.
pub proof fn daemon_sets_itself_up(
    given: String,
    pid: u32,
    begun: (Run, RunAction),
    s: &mut Run,
    e: RunEvent,
    now: u64,
    r: RunAction,
)
    requires
        call_ensures(Run::begin, (pid, given), begun),
        call_ensures(Run::step, (s, e, now), r),
    ensures
        begun.0.pid == pid,
        begun.0.cache_config@ == given@,
        begun.0.phase == RunPhase::Loading,
        begun.1 matches RunAction::LoadPhrases(path) && path@ == given@,
        final(s).pid == old(s).pid,
        final(s).cache_config@ == old(s).cache_config@,
        r is Exit || r is Fail ==> final(s).phase == RunPhase::Done,
        old(s).phase == RunPhase::Loading && e is Done ==> r is Prerender && final(s).phase
            == RunPhase::Prerendering,
        old(s).phase == RunPhase::Loading && e is Failed ==> (r matches RunAction::Fail(why)
            && why@ == "loading cache config from "@ + old(s).cache_config@),
        old(s).phase == RunPhase::Prerendering && (e is Done || e is Failed) ==> r is Connect
            && final(s).phase == RunPhase::ConnectingToListen,
        old(s).phase == RunPhase::ConnectingToListen && e is NotReachable ==> r is Exit,
        old(s).phase == RunPhase::ConnectingToListen && e is Done ==> (r matches
            RunAction::Announce { session, intent } && session@ == "wm-tts-"@
            + text::decimal_text(old(s).pid as nat) + "-sub"@ && intent@
            == "wm-tts control subscribe"@ && final(s).phase == RunPhase::AnnouncingListener),
        old(s).phase == RunPhase::AnnouncingListener && e is Done ==> (r matches
            RunAction::Subscribe(prefix) && prefix@ == "wm.tts."@ && final(s).phase
            == RunPhase::Subscribing),
        old(s).phase == RunPhase::Subscribing && e is Done ==> r is ConnectAgain && final(s).phase
            == RunPhase::ConnectingToPublish,
        old(s).phase == RunPhase::ConnectingToPublish && e is Done ==> (r matches
            RunAction::Announce { session, intent } && session@ == "wm-tts-"@
            + text::decimal_text(old(s).pid as nat) && intent@ == "wm-tts publish path"@
                && final(s).phase == RunPhase::AnnouncingPublisher),
        old(s).phase == RunPhase::AnnouncingPublisher && e is Done ==> r is StartHeartbeats
            && final(s).phase == RunPhase::StartingHeartbeats,
        old(s).phase == RunPhase::StartingHeartbeats && e is Done ==> r is ReadLine
            && final(s).phase == RunPhase::Reading,
        e matches RunEvent::Failed(why) ==> (old(s).phase
            == RunPhase::ConnectingToListen || old(s).phase
            == RunPhase::AnnouncingListener || old(s).phase
            == RunPhase::Subscribing || old(s).phase
            == RunPhase::ConnectingToPublish || old(s).phase == RunPhase::AnnouncingPublisher
            ==> (r matches RunAction::Fail(w) && w@ == why@)),
{
}

/// Once it reads, the daemon goes on reading: after a line that says nothing,
/// after a request was handled, and after an error was answered, whether or not
/// that could be published. A request is handled, and a line that is none and a
/// request that failed are answered. Only the end of the bus ends it.
pub proof fn daemon_reads_on(s: &mut Run, e: RunEvent, now: u64, r: RunAction)
    requires
        call_ensures(Run::step, (s, e, now), r),
    ensures
        old(s).phase == RunPhase::Reading && e == RunEvent::Line(LineVerdict::Skip) ==> r
            is ReadLine && final(s).phase == RunPhase::Reading,
        old(s).phase == RunPhase::Reading ==> (e matches RunEvent::Line(LineVerdict::Handle(req))
            ==> r == RunAction::Dispatch(req) && final(s).phase == RunPhase::Dispatching),
        old(s).phase == RunPhase::Reading ==> (e matches RunEvent::Line(LineVerdict::Reject(told))
            ==> (r matches RunAction::Publish(t) && t@ == told@) && final(s).phase
            == RunPhase::Answering),
        old(s).phase == RunPhase::Reading && e is Closed ==> r is Exit && final(s).phase
            == RunPhase::Done,
        old(s).phase == RunPhase::Dispatching && e is Done ==> r is ReadLine && final(s).phase
            == RunPhase::Reading,
        old(s).phase == RunPhase::Dispatching ==> (e matches RunEvent::Failed(why) ==> (r matches
            RunAction::Publish(Event::Error(t)) && t.kind@ == "bus"@ && t.message@ == "dispatch: "@
            + why@ && t.ts == now) && final(s).phase == RunPhase::Answering),
        old(s).phase == RunPhase::Answering && (e is Done || e is Failed) ==> r is ReadLine
            && final(s).phase == RunPhase::Reading,
        old(s).phase == RunPhase::Done ==> r is Exit && final(s).phase == RunPhase::Done,
{
}

/// What does not answer to where the daemon stands ends it.
pub proof fn unexpected_events_end_the_daemon(s: &mut Run, e: RunEvent, now: u64, r: RunAction)
    requires
        call_ensures(Run::step, (s, e, now), r),
        match old(s).phase {
            RunPhase::Loading | RunPhase::Prerendering => !(e is Done) && !(e is Failed),
            RunPhase::ConnectingToListen
            | RunPhase::AnnouncingListener
            | RunPhase::Subscribing
            | RunPhase::ConnectingToPublish
            | RunPhase::AnnouncingPublisher => !(e is Done) && !(e is Failed),
            RunPhase::StartingHeartbeats => !(e is Done),
            RunPhase::Reading => !(e is Line),
            RunPhase::Dispatching | RunPhase::Answering => !(e is Done) && !(e is Failed),
            RunPhase::Done => true,
        },
    ensures
        r is Exit,
        final(s).phase == RunPhase::Done,
{
}

// ---- lines and requests --------------------------------------------------

/// What is done with a line: one that is no message, a reply, and a message on
/// one of the daemon's own topics are skipped; a request is handled; everything
/// else is answered with an error in words.
pub proof fn lines_are_judged(topic: &str, data: crate::json::Json, line: BusLine, now: u64,
    r: LineVerdict, own: bool)
    requires
        call_ensures(daemon::on_line, (&line, now), r),
        call_ensures(bus::is_self_emitted_topic, (topic,), own),
        line matches BusLine::Message { topic: t, data: d } ==> t@ == topic@ && d == data,
    ensures
        own <==> topic@ == "wm.tts.start"@ || topic@ == "wm.tts.cancel.ack"@ || topic@
            == "wm.tts.end"@ || topic@ == "wm.tts.error"@ || topic@ == "wm.tts.reload.ack"@,
        !(line is Message) ==> r is Skip,
        line is Message ==> (r is Skip <==> own),
        line is Message ==> (r matches LineVerdict::Handle(req) ==> request::decodes(
            topic@,
            data@,
            Ok(req),
        )),
        line is Message ==> (r matches LineVerdict::Reject(told) ==> exists|e: DecodeError|
            #[trigger] request::decodes(topic@, data@, Err(e)) && complaint(
                told,
                "bus"@,
                "decode: "@ + e.words(),
                now,
            )),
{
    lemma_own(topic@);
}

proof fn lemma_own(topic: Seq<char>)
    ensures
        bus::self_emitted(topic) <==> topic == "wm.tts.start"@ || topic == "wm.tts.cancel.ack"@
            || topic == "wm.tts.end"@ || topic == "wm.tts.error"@ || topic
            == "wm.tts.reload.ack"@,
{
    bus::own_topics_and_requests_are_apart(topic);
    if bus::self_emitted(topic) {
        let i = choose|i: int|
            0 <= i < bus::outgoing::ALL@.len() && (#[trigger] bus::outgoing::ALL@[i])@ == topic;
        assert(bus::outgoing::ALL@.len() == 5);
    }
}

/// Whether an event is an error in these words.
pub open spec fn complaint(told: Event, kind: Seq<char>, message: Seq<char>, now: u64) -> bool {
    told matches Event::Error(e) && e.kind@ == kind && e.message@ == message && e.ts == now
}

/// A failed request is told with its reason.
pub proof fn failed_request_is_told(why: &str, now: u64, r: Event)
    requires
        call_ensures(daemon::dispatch_failed, (why, now), r),
    ensures
        complaint(r, "bus"@, "dispatch: "@ + why@, now),
{
}

/// A cancel stops what can be stopped, once, and is acknowledged with what had
/// been played of it; what is left of the play keeps its place until it ends.
pub proof fn cancel_is_acknowledged(
    state: &mut DaemonState,
    elapsed_ms: u64,
    now: u64,
    r: (bool, Event),
)
    requires
        call_ensures(DaemonState::handle_cancel, (state, elapsed_ms, now), r),
    ensures
        r.0 == old(state).slot.armed,
        !final(state).slot.armed,
        final(state).slot.playing == old(state).slot.playing,
        final(state).slot.duration_ms == old(state).slot.duration_ms,
        rest_kept(*final(state), *old(state)),
        r.1 matches Event::CancelAck(a) && a.ts == now && (if !old(state).slot.playing {
            a.drained_ms == 0
        } else if old(state).slot.duration_ms is Some && old(state).slot.duration_ms->0
            < elapsed_ms {
            a.drained_ms == old(state).slot.duration_ms->0
        } else {
            a.drained_ms == elapsed_ms
        }),
{
}

/// While a file plays it can be cancelled, and the time that it takes is known
/// where the file tells it; when it ends it cannot be cancelled any more.
pub proof fn play_can_be_cancelled_while_it_lasts(
    before: &mut DaemonState,
    path: &str,
    file: Option<&[u8]>,
    begun: (Vec<String>, AudioFacts),
    after: &mut DaemonState,
    facts: AudioFacts,
    run: PlayerRun,
    ended: PlayResult,
)
    requires
        call_ensures(DaemonState::begin_play, (before, path, file), begun),
        call_ensures(DaemonState::end_play, (after, path, &facts, &run), ended),
    ensures
        final(before).slot.armed,
        final(before).slot.playing,
        final(before).slot.duration_ms == begun.1.duration_ms,
        begun.1 == player::facts_of(
            match file {
                Some(b) => Some(b@),
                None => None,
            },
        ),
        text::texts(begun.0@) == player::file_args(
            old(before).player_bin@,
            path@,
            crate::json::optional(old(before).sink_node),
        ),
        rest_kept(*final(before), *old(before)),
        !final(after).slot.armed,
        !final(after).slot.playing,
        final(after).slot.duration_ms is None,
        rest_kept(*final(after), *old(after)),
        ended@ == player::file_play(old(after).player_bin@, path@, facts.data_bytes, run),
{
}

/// A stream can be cancelled while it lasts, and how long it takes is not known.
pub proof fn stream_can_be_cancelled_while_it_lasts(
    before: &mut DaemonState,
    begun: (Vec<String>, StreamPlay),
    after: &mut DaemonState,
    ended: (),
)
    requires
        call_ensures(DaemonState::begin_stream, (before,), begun),
        call_ensures(DaemonState::end_stream, (after,), ended),
    ensures
        final(before).slot.armed,
        final(before).slot.playing,
        final(before).slot.duration_ms is None,
        rest_kept(*final(before), *old(before)),
        text::texts(begun.0@) == player::stream_args(
            old(before).player_bin@,
            crate::json::optional(old(before).sink_node),
        ),
        begun.1.player_bin@ == old(before).player_bin@,
        begun.1.phase == StreamPhase::Asking,
        begun.1.frames == 0,
        begun.1.bytes == 0,
        !begun.1.cancelled,
        begun.1.error is None,
        !final(after).slot.armed,
        !final(after).slot.playing,
        final(after).slot.duration_ms is None,
        rest_kept(*final(after), *old(after)),
{
}

/// A slot is filled when a play begins, empty when it ends, and fires once.
pub proof fn slot_fires_once(
    a: &mut CancelSlot,
    duration_ms: Option<u64>,
    b: &mut CancelSlot,
    c: &mut CancelSlot,
    fired: bool,
    fresh: CancelSlot,
)
    requires
        call_ensures(CancelSlot::install, (a, duration_ms), ()),
        call_ensures(CancelSlot::clear, (b,), ()),
        call_ensures(CancelSlot::fire, (c,), fired),
        call_ensures(CancelSlot::new, (), fresh),
    ensures
        final(a).armed && final(a).playing && final(a).duration_ms == duration_ms,
        !final(b).armed && !final(b).playing && final(b).duration_ms is None,
        fired == old(c).armed,
        !final(c).armed,
        final(c).playing == old(c).playing,
        final(c).duration_ms == old(c).duration_ms,
        !fresh.armed && !fresh.playing && fresh.duration_ms is None,
{
}

/// A change of voice that succeeded is acknowledged with the voice and the
/// counts of its rendering, and with the time from its begin to its end; one that
/// failed is an error that names the voice and the reason.
pub proof fn change_of_voice_is_told(
    new_voice: &str,
    result: Result<RenderReport, CacheError>,
    start_ms: u64,
    done_ms: u64,
    now: u64,
    r: Event,
)
    requires
        call_ensures(daemon::reload_event, (new_voice, &result, start_ms, done_ms, now), r),
    ensures
        match result {
            Ok(report) => r matches Event::ReloadAck(a) && a.voice@ == new_voice@ && a.cache_hits
                == report.hits && a.prerendered == report.rendered && a.failures
                == report.failures.len() && a.ts == now && (start_ms <= done_ms
                ==> a.elapsed_ms == done_ms - start_ms) && (start_ms > done_ms ==> a.elapsed_ms
                == 0),
            Err(e) => complaint(
                r,
                "voice"@,
                "prerender failed for "@ + new_voice@ + ": "@ + e.words(),
                now,
            ),
        },
{
}

/// A change of voice goes over the phrases in the new voice. The voice changes
/// only if they could be looked through; otherwise the one before stays. Nothing
/// else changes.
pub proof fn voice_changes_only_if_it_could_be_rendered<
    S: Synth,
    D: Fn(&str) -> Result<(), String>,
    F: Fn(&str) -> bool,
>(
    state: &mut DaemonState,
    new_voice: &str,
    synth: S,
    create_dir: D,
    is_file: F,
    r: Result<RenderReport, CacheError>,
)
    requires
        call_ensures(
            DaemonState::reload_voice::<S, D, F>,
            (state, new_voice, &synth, create_dir, is_file),
            r,
        ),
    ensures
        exists|manager: CacheManager|
            {
                &&& manager.root@ == old(state).cache_root@
                &&& manager.voice@ == new_voice@
                &&& #[trigger] manager.may_prerender(
                    text::texts(old(state).cache_phrases@),
                    synth,
                    create_dir,
                    is_file,
                    r,
                )
            },
        r is Ok ==> final(state).active.voice@ == new_voice@ && final(state).active.cache.voice@
            == new_voice@ && final(state).active.cache.root@ == old(state).cache_root@,
        r is Err ==> final(state).active == old(state).active,
        final(state).slot == old(state).slot,
        final(state).player_bin == old(state).player_bin,
        final(state).sink_node == old(state).sink_node,
        final(state).cloud_active == old(state).cloud_active,
        final(state).cache_root == old(state).cache_root,
        final(state).cache_phrases == old(state).cache_phrases,
{
}

/// Whether an acknowledgement tells of a report, and of the time it took.
pub open spec fn acknowledges(
    a: ReloadAckEvent,
    report: RenderReport,
    start_ms: u64,
    done_ms: u64,
) -> bool {
    &&& a.cache_hits == report.hits
    &&& a.prerendered == report.rendered
    &&& a.failures == report.failures.len()
    &&& start_ms <= done_ms ==> a.elapsed_ms == done_ms - start_ms
    &&& start_ms > done_ms ==> a.elapsed_ms == 0
}

/// A request is handed to what handles it, and a request to speak changes
/// nothing of the daemon.
pub proof fn requests_go_where_they_belong<
    S: Synth,
    D: Fn(&str) -> Result<(), String>,
    F: Fn(&str) -> bool,
>(
    state: &mut DaemonState,
    req: Request,
    synth: S,
    create_dir: D,
    is_file: F,
    elapsed_ms: u64,
    now: u64,
    r: Dispatched,
)
    requires
        call_ensures(
            DaemonState::dispatch::<S, D, F>,
            (state, &req, &synth, create_dir, is_file, elapsed_ms, now),
            r,
        ),
    ensures
        req is Speak <==> r is Speak,
        req is Cancel <==> r is Cancel,
        req is ReloadVoice <==> r is Reload,
        req matches Request::Speak(q) ==> (r matches Dispatched::Speak(s, action) && s.text@
            == q.text@ && s.source@ == speaking::source_of(q) && same_turn(s.turn_id, q.turn_id)
            && s.voice@ == old(state).active.voice@ && s.dir@ == old(state).active.cache.dir()
            && s.path@ == old(state).active.cache.entry(q.text@) && s.cloud_active
                == old(state).cloud_active && (!(action is Fire) ==> starts(s, action))
                && s.accepted == now && *final(state) == *old(state)
                && (action is Fire <==> q.cancel_previous && old(state).slot.armed)),
        r matches Dispatched::Cancel(fire, told) ==> fire == old(state).slot.armed
            && !final(state).slot.armed && (told matches Event::CancelAck(a) && a.ts == now
            && (if !old(state).slot.playing {
            a.drained_ms == 0
        } else if old(state).slot.duration_ms is Some && old(state).slot.duration_ms->0
            < elapsed_ms {
            a.drained_ms == old(state).slot.duration_ms->0
        } else {
            a.drained_ms == elapsed_ms
        })),
        r matches Dispatched::Reload(told) ==> told is ReloadAck || told is Error,
        r matches Dispatched::Reload(told) ==> (told matches Event::ReloadAck(a) ==> exists|
            report: RenderReport,
            done_ms: u64,
        |
            {
                &&& #[trigger] old(state).may_prerender(
                    req->ReloadVoice_0.voice@,
                    synth,
                    create_dir,
                    is_file,
                    Ok(report),
                )
                &&& #[trigger] bus::may_be_now(done_ms)
                &&& acknowledges(a, report, now, done_ms)
            }),
        r matches Dispatched::Reload(told) ==> (told matches Event::ReloadAck(a) ==> a.voice@
            == req->ReloadVoice_0.voice@ && final(state).active.voice@
            == req->ReloadVoice_0.voice@),
        r matches Dispatched::Reload(told) ==> (told is Error ==> *final(state) == *old(state)),
{
    if let Request::Speak(q) = req {
        if q.priority is None {
            assert(speaking::source_of(q) =~= Seq::<char>::empty());
        }
    }
    if let Request::ReloadVoice(q) = req {
        let told = r->Reload_0;
        if let Event::ReloadAck(a) = told {
            let (result, done_ms, later) = choose|
                result: Result<RenderReport, CacheError>,
                done_ms: u64,
                later: u64,
            |
                {
                    &&& #[trigger] old(state).may_prerender(
                        q.voice@,
                        synth,
                        create_dir,
                        is_file,
                        result,
                    )
                    &&& bus::may_be_now(done_ms)
                    &&& bus::may_be_now(later)
                    &&& told@ == #[trigger] daemon::reload_told(
                        q.voice@,
                        result,
                        now,
                        done_ms,
                        later,
                    )
                };
            let report = result->Ok_0;
            assert(old(state).may_prerender(q.voice@, synth, create_dir, is_file, Ok(report)));
            assert(report.failures@.len() == report.failures.len());
            assert(acknowledges(a, report, now, done_ms));
        }
    }
}

// ---- streams -------------------------------------------------------------

/// A step of a stream, by where it stands and what happened.
pub proof fn stream_steps(s: &mut StreamPlay, event: StreamEvent, r: StreamAction)
    requires
        call_ensures(StreamPlay::step, (s, event), r),
    ensures
        final(s).player_bin@ == old(s).player_bin@,
        r is Finish ==> final(s).phase == StreamPhase::Done,
        old(s).phase == StreamPhase::Asking && event is Granted ==> r is Spawn && final(s).phase
            == StreamPhase::Spawning,
        old(s).phase == StreamPhase::Spawning && event is Spawned ==> r is Receive
            && final(s).phase == StreamPhase::Pumping,
        old(s).phase == StreamPhase::Pumping ==> (event matches StreamEvent::Chunk { len } ==> r
            is Write && final(s).phase == (StreamPhase::Writing { len })),
        event is Written ==> (old(s).phase matches StreamPhase::Writing { len } ==> r is Receive
            && final(s).phase == StreamPhase::Pumping && (old(s).bytes + len <= u64::MAX
                ==> final(s).bytes == old(s).bytes + len) && final(s).frames > 0),
        old(s).phase == StreamPhase::Pumping && event is Ended ==> r is Wait && final(s).phase
            == StreamPhase::Draining,
        old(s).phase == StreamPhase::Pumping && event is Cancel ==> r is Kill && final(s).phase
            == StreamPhase::Stopping && final(s).cancelled,
        old(s).phase == StreamPhase::Pumping && event is ItemFailed ==> r is Kill
            && final(s).phase == StreamPhase::Stopping && final(s).error is Some,
        old(s).phase is Writing && event is WriteFailed ==> r is Kill && final(s).phase
            == StreamPhase::Stopping && final(s).error is Some,
        event matches StreamEvent::Exited { duration_ms } ==> (old(s).phase
            == StreamPhase::Stopping || old(s).phase == StreamPhase::Draining ==> {
            &&& r matches StreamAction::Finish(o)
            &&& old(s).cancelled ==> o@ == (stream::OutcomeView::Played {
                duration_ms,
                cancelled: true,
                played_bytes: 0,
            })
            &&& !old(s).cancelled && old(s).error is None ==> o@ == (
            stream::OutcomeView::Played {
                duration_ms,
                cancelled: false,
                played_bytes: old(s).bytes,
            })
            &&& !old(s).cancelled && old(s).error is Some && old(s).frames > 0 ==> (o matches
                StreamOutcome::FailedMidStream(f) && f@ == old(s).error->0@)
            &&& !old(s).cancelled && old(s).error is Some && old(s).frames == 0 ==> (o matches
                StreamOutcome::FailedBeforeFrame(f) && f@ == old(s).error->0@)
            &&& final(s).phase == StreamPhase::Done
        }),
{
    assert(final(s)@.error is Some <==> final(s).error is Some);
}

/// What a stream does not wait for is passed over: nothing is done, and it stands
/// where it stood.
pub proof fn stream_passes_over_the_rest(s: &mut StreamPlay, event: StreamEvent, r: StreamAction)
    requires
        call_ensures(StreamPlay::step, (s, event), r),
        match old(s).phase {
            StreamPhase::Asking => !(event is Granted) && !(event is Refused),
            StreamPhase::Spawning => !(event is Spawned) && !(event is SpawnFailed) && !(event
                is NoStdin),
            StreamPhase::Pumping => !(event is Chunk) && !(event is Ended) && !(event is Cancel)
                && !(event is ItemFailed),
            StreamPhase::Writing { .. } => !(event is Written) && !(event is WriteFailed),
            StreamPhase::Stopping | StreamPhase::Draining => !(event is Exited),
            StreamPhase::Done => true,
        },
    ensures
        r is Pass,
        final(s).phase == old(s).phase,
        final(s).frames == old(s).frames,
        final(s).bytes == old(s).bytes,
        final(s).cancelled == old(s).cancelled,
        final(s).error is Some <==> old(s).error is Some,
{
    assert(final(s)@ == old(s)@);
    assert(final(s)@.error is Some <==> final(s).error is Some);
    assert(old(s)@.error is Some <==> old(s).error is Some);
}

/// A stream that is refused, or whose player cannot be started, fails before
/// anything was heard; a player without an input is stopped.
pub proof fn stream_that_does_not_start(s: &mut StreamPlay, event: StreamEvent, r: StreamAction)
    requires
        call_ensures(StreamPlay::step, (s, event), r),
    ensures
        old(s).phase == StreamPhase::Asking ==> (event matches StreamEvent::Refused(f) ==> (
        r matches StreamAction::Finish(StreamOutcome::FailedBeforeFrame(g)) && g@ == f@)
            && final(s).phase == StreamPhase::Done),
        old(s).phase == StreamPhase::Spawning && event is SpawnFailed ==> (r matches
            StreamAction::Finish(StreamOutcome::FailedBeforeFrame(CloudError::Http(why))) && why@
            == "spawn streaming player: spawn streaming player "@ + old(s).player_bin@)
            && final(s).phase == StreamPhase::Done,
        old(s).phase == StreamPhase::Spawning && event is NoStdin ==> r is Kill && final(s).phase
            == StreamPhase::Stopping && (final(s).error matches Some(CloudError::Http(why))
            && why@ == "streaming player has no piped stdin"@),
        old(s).phase == StreamPhase::Pumping ==> (event matches StreamEvent::ItemFailed(f)
            ==> final(s).error is Some && final(s).error->0@ == f@),
        old(s).phase is Writing ==> (event matches StreamEvent::WriteFailed(why)
            ==> (final(s).error matches Some(CloudError::Http(w)) && w@
            == "player stdin write: "@ + why@)),
{
    assert(final(s)@.error is Some <==> final(s).error is Some);
}

} // verus!
