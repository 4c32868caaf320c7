//! Speaking an utterance: what is asked for, what is published, and in which
//! order.

use crate::bus::event;
use crate::bus::request;
use crate::bus::request::SpeakRequest;
use crate::daemon::player;
use crate::daemon::speak;
use crate::daemon::stream;
use crate::daemon::DaemonState;
use vstd::prelude::*;

verus! {

/// The source that a request names: its priority, or nothing.
pub open spec fn source_of(req: SpeakRequest) -> Seq<char> {
    if req.priority is Some {
        req.priority->0@
    } else {
        Seq::empty()
    }
}

/// The action after the first `n` events of the utterance that a request asks
/// for, begun at the time `now`.
pub open spec fn done_after(
    state: DaemonState,
    req: SpeakRequest,
    now: u64,
    events: Seq<(speak::EventView, u64)>,
    n: nat,
) -> speak::ActionView {
    speak::action_after(
        state.utterance(req, now),
        req.cancel_previous && state.slot.armed,
        events,
        n,
    )
}

/// Whatever is done for an utterance is done for the text of its request, in
/// the voice that was active when the request was accepted:
///
/// - a rendering is asked in that voice, of that text, and into the file that
///   the cache keeps for it, and the directory that is made is that of the
///   voice;
/// - the file that is looked up, and the one that is played, is the same file;
/// - what is streamed is that text;
/// - the start and the end that are published tell of that text and of the
///   turn of the request, and the start of its source and of the time at which
///   it was accepted.
pub proof fn everything_is_done_for_the_request(
    state: DaemonState,
    req: SpeakRequest,
    now: u64,
    events: Seq<(speak::EventView, u64)>,
    n: nat,
)
    ensures
        match done_after(state, req, now, events, n) {
            speak::ActionView::Render { voice, text, path } => {
                &&& voice == state.active.voice@
                &&& text == req.text@
                &&& path == state.active.cache.entry(req.text@)
            },
            speak::ActionView::MakeDir(dir) => dir == state.active.cache.dir(),
            speak::ActionView::LookUp(path) => path == state.active.cache.entry(req.text@),
            speak::ActionView::Play(path) => path == state.active.cache.entry(req.text@),
            speak::ActionView::Stream(text) => text == req.text@,
            speak::ActionView::Publish(event::EventView::Start { text, source, ts, turn_id }) => {
                &&& text == req.text@
                &&& source == source_of(req)
                &&& ts == now
                &&& turn_id == request::turn_text(req.turn_id)
            },
            speak::ActionView::Publish(event::EventView::End { text, turn_id, .. }) => {
                &&& text == req.text@
                &&& turn_id == request::turn_text(req.turn_id)
            },
            speak::ActionView::Publish(event::EventView::Error { .. }) => true,
            speak::ActionView::Publish(_) => false,
            speak::ActionView::Fire => req.cancel_previous && state.slot.armed && n == 0,
            speak::ActionView::Finish => n > 0,
            speak::ActionView::Fail(_) => n > 0,
        },
{
    if n > 0 {
        lemma_where(state, req, now, events, (n - 1) as nat);
    }
}

/// Which phase an action belongs to.
proof fn lemma_where(
    state: DaemonState,
    req: SpeakRequest,
    now: u64,
    events: Seq<(speak::EventView, u64)>,
    n: nat,
)
    ensures
        ({
            let u = state.utterance(req, now);
            let first = req.cancel_previous && state.slot.armed;
            let phase = speak::phase_after(u, first, events, n);
            match done_after(state, req, now, events, n) {
                speak::ActionView::Fire => phase == speak::SpeakPhase::Cancelling && n == 0,
                speak::ActionView::Publish(told) => match told {
                    event::EventView::Start { .. } => phase == speak::SpeakPhase::Starting,
                    event::EventView::End { .. } => phase == speak::SpeakPhase::Ending,
                    _ => phase == speak::SpeakPhase::TellingStream || phase
                        == speak::SpeakPhase::TellingRender || phase is TellingPlay,
                },
                speak::ActionView::LookUp(_) => phase == speak::SpeakPhase::Looking,
                speak::ActionView::Stream(_) => phase == speak::SpeakPhase::Streaming,
                speak::ActionView::MakeDir(_) => phase == speak::SpeakPhase::MakingDir,
                speak::ActionView::Render { .. } => phase == speak::SpeakPhase::Rendering,
                speak::ActionView::Play(_) => phase == speak::SpeakPhase::Playing,
                speak::ActionView::Finish => phase == speak::SpeakPhase::Done,
                speak::ActionView::Fail(_) => phase == speak::SpeakPhase::Done,
            }
        }),
    decreases n,
{
    if n > 0 {
        lemma_where(state, req, now, events, (n - 1) as nat);
    }
}

/// An utterance begins with its start, or, where the request asks to cancel and
/// something is being played, with cancelling that.
pub proof fn utterance_begins_with_its_start(
    state: DaemonState,
    req: SpeakRequest,
    now: u64,
    events: Seq<(speak::EventView, u64)>,
)
    ensures
        req.cancel_previous && state.slot.armed ==> done_after(state, req, now, events, 0) is Fire,
        !(req.cancel_previous && state.slot.armed) ==> {
            &&& done_after(state, req, now, events, 0) is Publish
            &&& done_after(state, req, now, events, 0)->Publish_0 is Start
        },
        done_after(state, req, now, events, 0) is Fire && events[0].0 is Fired ==> {
            &&& done_after(state, req, now, events, 1) is Publish
            &&& done_after(state, req, now, events, 1)->Publish_0 is Start
        },
{
    reveal_with_fuel(speak::phase_after, 2);
}

/// A text is first looked for in the cache. A file that is there is played; for
/// one that is not, the cloud service is asked where it is active, and Piper
/// where it is not.
pub proof fn cache_comes_first_then_cloud_then_piper(
    state: DaemonState,
    req: SpeakRequest,
    now: u64,
    events: Seq<(speak::EventView, u64)>,
    n: nat,
)
    ensures
        ({
            let before = done_after(state, req, now, events, n);
            let after = done_after(state, req, now, events, n + 1);
            let e = events[n as int].0;
            &&& before is Publish && before->Publish_0 is Start && e is Published
                ==> after is LookUp
            &&& before is LookUp && e == speak::EventView::Found(true) ==> after is Play
            &&& before is LookUp && e == speak::EventView::Found(false) && state.cloud_active
                ==> after is Stream
            &&& before is LookUp && e == speak::EventView::Found(false) && !state.cloud_active
                ==> after is MakeDir
            &&& before is MakeDir && e is DirMade ==> after is Render
            &&& before is Render && e == speak::EventView::Rendered(None) ==> after is Play
            &&& before is Stream ==> (e matches speak::EventView::Streamed(
                stream::OutcomeView::FailedBeforeFrame(_),
            ) ==> after is MakeDir)
        }),
{
    lemma_where(state, req, now, events, n);
}

/// What is told of the end is what came of playing: how it ended, how long the
/// player ran and how many bytes it took, at the time when it ended. A failure
/// is told first, with its kind and its message, and then the end.
pub proof fn end_tells_what_came_of_playing(
    state: DaemonState,
    req: SpeakRequest,
    now: u64,
    events: Seq<(speak::EventView, u64)>,
    n: nat,
    p: player::PlayView,
)
    requires
        done_after(state, req, now, events, n) is Play,
        events[n as int].0 == speak::EventView::Played(p),
    ensures
        ({
            let next = done_after(state, req, now, events, n + 1);
            let after = done_after(state, req, now, events, n + 2);
            let told = if p.error is Some {
                after
            } else {
                next
            };
            &&& next is Publish
            &&& p.error is Some ==> {
                &&& next->Publish_0 is Error
                &&& next->Publish_0->Error_kind == p.error->0.kind
                &&& next->Publish_0->Error_message == p.error->0.message
                &&& next->Publish_0->Error_ts == events[n as int].1
            }
            &&& p.error is None || events[n as int + 1].0 is Published ==> {
                &&& told is Publish
                &&& told->Publish_0 is End
                &&& told->Publish_0->End_duration_ms == p.duration_ms
                &&& told->Publish_0->End_played_bytes == p.played_bytes
                &&& p.outcome is Finished ==> told->Publish_0->End_outcome == "ok"@
                &&& p.outcome is Cancelled ==> told->Publish_0->End_outcome == "cancelled"@
                &&& p.outcome is Failed ==> told->Publish_0->End_outcome == "error"@
                &&& told->Publish_0->End_ts == events[n as int + (if p.error is Some {
                    1int
                } else {
                    0
                })].1
            }
        }),
{
    lemma_where(state, req, now, events, n);
}

/// What is told of the end of a stream: that it was played to its end, with the
/// bytes that were written, or that it was cancelled, with none; in either case
/// with the time that the player ran.
pub proof fn end_tells_what_came_of_a_stream(
    state: DaemonState,
    req: SpeakRequest,
    now: u64,
    events: Seq<(speak::EventView, u64)>,
    n: nat,
    duration_ms: u64,
    cancelled: bool,
    played_bytes: u64,
)
    requires
        done_after(state, req, now, events, n) is Stream,
        events[n as int].0 == speak::EventView::Streamed(
            stream::OutcomeView::Played { duration_ms, cancelled, played_bytes },
        ),
    ensures
        ({
            let next = done_after(state, req, now, events, n + 1);
            &&& next is Publish
            &&& next->Publish_0 is End
            &&& next->Publish_0->End_duration_ms == duration_ms
            &&& next->Publish_0->End_ts == events[n as int].1
            &&& cancelled ==> next->Publish_0->End_outcome == "cancelled"@
                && next->Publish_0->End_played_bytes == 0
            &&& !cancelled ==> next->Publish_0->End_outcome == "ok"@
                && next->Publish_0->End_played_bytes == played_bytes
        }),
{
    lemma_where(state, req, now, events, n);
}

/// A stream that fails in the middle is told with the words of its fault, and
/// the utterance then turns to Piper.
pub proof fn broken_stream_is_told_in_its_words(
    state: DaemonState,
    req: SpeakRequest,
    now: u64,
    events: Seq<(speak::EventView, u64)>,
    n: nat,
    f: crate::cloud::CloudFault,
)
    requires
        done_after(state, req, now, events, n) is Stream,
        events[n as int].0 == speak::EventView::Streamed(stream::OutcomeView::FailedMidStream(f)),
    ensures
        ({
            let next = done_after(state, req, now, events, n + 1);
            let after = done_after(state, req, now, events, n + 2);
            &&& next is Publish
            &&& next->Publish_0 is Error
            &&& next->Publish_0->Error_kind == "stream"@
            &&& next->Publish_0->Error_message == f.words()
            &&& next->Publish_0->Error_ts == events[n as int].1
            &&& events[n as int + 1].0 is Published ==> after is MakeDir
            &&& events[n as int + 1].0 matches speak::EventView::PublishFailed(why) ==> after
                == speak::ActionView::Fail(why)
        }),
{
    lemma_where(state, req, now, events, n);
}

/// A text that cannot be rendered is told, with its kind and message, or with
/// the directory that could not be made, and with that the utterance is over,
/// whether or not it could be published.
pub proof fn text_that_cannot_be_rendered_is_told(
    state: DaemonState,
    req: SpeakRequest,
    now: u64,
    events: Seq<(speak::EventView, u64)>,
    n: nat,
    f: player::FailureView,
)
    requires
        ({
            ||| {
                &&& done_after(state, req, now, events, n) is Render
                &&& events[n as int].0 == speak::EventView::Rendered(Some(f))
            }
            ||| {
                &&& done_after(state, req, now, events, n) is MakeDir
                &&& events[n as int].0 is DirFailed
                &&& f.kind == "io"@
                &&& f.message == "cache dir "@ + state.active.cache.dir() + ": "@ + (
                events[n as int].0->DirFailed_0)
            }
        }),
    ensures
        ({
            let next = done_after(state, req, now, events, n + 1);
            let after = done_after(state, req, now, events, n + 2);
            &&& next is Publish
            &&& next->Publish_0 is Error
            &&& next->Publish_0->Error_kind == f.kind
            &&& next->Publish_0->Error_message == f.message
            &&& next->Publish_0->Error_ts == events[n as int].1
            &&& events[n as int + 1].0 is Published || events[n as int + 1].0 is PublishFailed ==> after is Finish
        }),
{
    lemma_where(state, req, now, events, n);
}

/// An utterance is over once its end is published; a start or an end, or the
/// failure of playing, that cannot be published fails it with that reason.
pub proof fn utterance_is_over_with_its_end(
    state: DaemonState,
    req: SpeakRequest,
    now: u64,
    events: Seq<(speak::EventView, u64)>,
    n: nat,
)
    ensures
        ({
            let before = done_after(state, req, now, events, n);
            let after = done_after(state, req, now, events, n + 1);
            let e = events[n as int].0;
            &&& before is Publish && before->Publish_0 is End && e is Published ==> after is Finish
            &&& before is Publish && (before->Publish_0 is Start || before->Publish_0 is End) ==> (
            e matches speak::EventView::PublishFailed(why) ==> after == speak::ActionView::Fail(
                why,
            ))
            &&& before is Play && e is Played ==> (events[n as int + 1].0
                matches speak::EventView::PublishFailed(why) ==> done_after(
                state,
                req,
                now,
                events,
                n + 2,
            ) == speak::ActionView::Fail(why))
        }),
{
    lemma_where(state, req, now, events, n);
}

} // verus!
