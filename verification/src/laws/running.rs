//! The life of the daemon.

use crate::daemon::run;
use vstd::prelude::*;

verus! {

/// Whether an event is an answer to the action: something done or failed, a
/// bus that is not there when it is looked for, a line or the end of the bus
/// when one is read.
pub open spec fn answers(a: run::ActionView, e: run::EventView) -> bool {
    match a {
        run::ActionView::Connect => e is Done || e is Failed || e is NotReachable,
        run::ActionView::ReadLine => e is Skip || e is Handle || e is Reject || e is Closed,
        run::ActionView::StartHeartbeats => e is Done,
        run::ActionView::Exit => false,
        run::ActionView::Fail(_) => false,
        _ => e is Done || e is Failed,
    }
}

proof fn lemma_where(
    events: Seq<(run::EventView, u64)>,
    n: nat,
    pid: u32,
    cache_config: Seq<char>,
)
    ensures
        ({
            let phase = run::phase_after(events, n, pid, cache_config);
            match run::action_after(events, n, pid, cache_config) {
                run::ActionView::LoadPhrases(_) => phase == run::RunPhase::Loading,
                run::ActionView::Prerender => phase == run::RunPhase::Prerendering,
                run::ActionView::Connect => phase == run::RunPhase::ConnectingToListen,
                run::ActionView::Announce { .. } => phase == run::RunPhase::AnnouncingListener
                    || phase == run::RunPhase::AnnouncingPublisher,
                run::ActionView::Subscribe(_) => phase == run::RunPhase::Subscribing,
                run::ActionView::ConnectAgain => phase == run::RunPhase::ConnectingToPublish,
                run::ActionView::StartHeartbeats => phase == run::RunPhase::StartingHeartbeats,
                run::ActionView::ReadLine => phase == run::RunPhase::Reading,
                run::ActionView::Dispatch(_) => phase == run::RunPhase::Dispatching,
                run::ActionView::Publish(_) => phase == run::RunPhase::Answering,
                run::ActionView::Exit => phase == run::RunPhase::Done,
                run::ActionView::Fail(_) => phase == run::RunPhase::Done,
            }
        }),
    decreases n,
{
    if n > 0 {
        lemma_where(events, (n - 1) as nat, pid, cache_config);
    }
}

/// Once the daemon reads lines, it goes on reading lines. A line that is passed
/// over is followed by the next; a request is handled, and a line that is none
/// is answered with its error, and then the next line is read, however that
/// went. A request whose handling failed is told on the bus first.
pub proof fn daemon_goes_on_reading(
    events: Seq<(run::EventView, u64)>,
    n: nat,
    pid: u32,
    cache_config: Seq<char>,
)
    ensures
        ({
            let before = run::action_after(events, n, pid, cache_config);
            let after = run::action_after(events, n + 1, pid, cache_config);
            let (e, now) = events[n as int];
            &&& before is ReadLine && e is Skip ==> after is ReadLine
            &&& before is ReadLine ==> (e matches run::EventView::Handle(req) ==> after
                == run::ActionView::Dispatch(req))
            &&& before is ReadLine ==> (e matches run::EventView::Reject(told) ==> after
                == run::ActionView::Publish(told))
            &&& before is Dispatch && e is Done ==> after is ReadLine
            &&& before is Dispatch ==> (e matches run::EventView::Failed(why) ==> {
                &&& after is Publish
                &&& after->Publish_0 is Error
                &&& after->Publish_0->Error_kind == "bus"@
                &&& after->Publish_0->Error_message == "dispatch: "@ + why
                &&& after->Publish_0->Error_ts == now
            })
            &&& before is Publish && (e is Done || e is Failed) ==> after is ReadLine
        }),
{
    lemma_where(events, n, pid, cache_config);
}

/// As long as every action is answered, the daemon exits only because the bus
/// has closed, or was not there to begin with; and when the bus closes, it does.
pub proof fn daemon_exits_only_with_the_bus(
    events: Seq<(run::EventView, u64)>,
    n: nat,
    pid: u32,
    cache_config: Seq<char>,
)
    requires
        answers(run::action_after(events, n, pid, cache_config), events[n as int].0),
    ensures
        ({
            let before = run::action_after(events, n, pid, cache_config);
            let after = run::action_after(events, n + 1, pid, cache_config);
            let e = events[n as int].0;
            after is Exit <==> e is Closed || e is NotReachable
        }),
{
    lemma_where(events, n, pid, cache_config);
}

/// The daemon fails only while it starts: where the phrases cannot be loaded,
/// with the file in the message, or where a step of connecting fails, with its
/// reason. Phrases that cannot be rendered do not stop it.
pub proof fn daemon_fails_only_while_it_starts(
    events: Seq<(run::EventView, u64)>,
    n: nat,
    pid: u32,
    cache_config: Seq<char>,
)
    requires
        answers(run::action_after(events, n, pid, cache_config), events[n as int].0),
    ensures
        ({
            let before = run::action_after(events, n, pid, cache_config);
            let after = run::action_after(events, n + 1, pid, cache_config);
            let e = events[n as int].0;
            match before {
                run::ActionView::LoadPhrases(_) => {
                    &&& after is Fail <==> e is Failed
                    &&& e is Failed ==> after->Fail_0 == "loading cache config from "@
                        + cache_config
                },
                run::ActionView::Connect
                | run::ActionView::Announce { .. }
                | run::ActionView::Subscribe(_)
                | run::ActionView::ConnectAgain => {
                    &&& after is Fail <==> e is Failed
                    &&& e is Failed ==> after->Fail_0 == e->Failed_0
                },
                _ => !(after is Fail),
            }
        }),
{
    lemma_where(events, n, pid, cache_config);
}

/// How the daemon starts, where nothing fails: the phrases are loaded from the
/// configured file and rendered; it connects, says under which name it listens,
/// and subscribes to every topic of its own; it connects again and says under
/// which name it publishes; heartbeats are started; and it reads.
pub proof fn daemon_starts_in_order(
    events: Seq<(run::EventView, u64)>,
    pid: u32,
    cache_config: Seq<char>,
)
    requires
        events.len() >= 8,
        forall|i: int| 0 <= i < 8 ==> (#[trigger] events[i]).0 is Done,
    ensures
        run::action_after(events, 0, pid, cache_config) == run::ActionView::LoadPhrases(
            cache_config,
        ),
        run::action_after(events, 1, pid, cache_config) is Prerender,
        run::action_after(events, 2, pid, cache_config) is Connect,
        run::action_after(events, 3, pid, cache_config) == (run::ActionView::Announce {
            session: "wm-tts-"@ + crate::text::decimal_text(pid as nat) + "-sub"@,
            intent: "wm-tts control subscribe"@,
        }),
        run::action_after(events, 4, pid, cache_config) == run::ActionView::Subscribe("wm.tts."@),
        run::action_after(events, 5, pid, cache_config) is ConnectAgain,
        run::action_after(events, 6, pid, cache_config) == (run::ActionView::Announce {
            session: "wm-tts-"@ + crate::text::decimal_text(pid as nat),
            intent: "wm-tts publish path"@,
        }),
        run::action_after(events, 7, pid, cache_config) is StartHeartbeats,
        run::action_after(events, 8, pid, cache_config) is ReadLine,
{
    reveal_with_fuel(run::phase_after, 9);
    assert(events[0].0 is Done && events[1].0 is Done && events[2].0 is Done && events[3].0 is Done
        && events[4].0 is Done && events[5].0 is Done && events[6].0 is Done && events[7].0
        is Done);
}

/// Phrases that cannot be rendered do not keep the daemon from starting.
pub proof fn failed_rendering_does_not_stop_the_start(
    events: Seq<(run::EventView, u64)>,
    n: nat,
    pid: u32,
    cache_config: Seq<char>,
)
    requires
        run::action_after(events, n, pid, cache_config) is Prerender,
        events[n as int].0 is Done || events[n as int].0 is Failed,
    ensures
        run::action_after(events, n + 1, pid, cache_config) is Connect,
{
    lemma_where(events, n, pid, cache_config);
}

} // verus!
