//! Playing: the command line of the player, what is told of a played file, and
//! the course of a stream.

use crate::cloud::CloudFault;
use crate::daemon::player;
use crate::daemon::player::{FailureView, PlayOutcome, PlayView, PlayerRun};
use crate::daemon::slot;
use crate::daemon::slot::CancelSlot;
use crate::daemon::stream;
use crate::daemon::stream::{ActionView, EventView, OutcomeView, StreamPhase};
use crate::laws::texts;
use crate::wav;
use vstd::prelude::*;

verus! {

// ---- the command line ----------------------------------------------------

/// `pw-cat`, in whatever directory, is told to play, to what sink, and the type
/// of an mp3 file; the file comes last.
pub proof fn pw_cat_is_told_what_to_play(
    dir: Seq<char>,
    node: Seq<char>,
    at: Seq<char>,
    stem: Seq<char>,
    ext: Seq<char>,
)
    requires
        at.len() == 0 || at.last() == '/',
        stem.len() > 0,
        texts::free_of(stem, '/'),
        ext.len() > 0,
        texts::free_of(ext, '/'),
        texts::free_of(ext, '.'),
    ensures
        ({
            let audio = at + stem + seq!['.'] + ext;
            let mp3 = {
                &&& ext.len() == 3
                &&& ext[0] == 'm' || ext[0] == 'M'
                &&& ext[1] == 'p' || ext[1] == 'P'
                &&& ext[2] == '3'
            };
            let under = dir + "/pw-cat"@;
            &&& mp3 ==> player::file_args("pw-cat"@, audio, Some(node)) == seq![
                "--playback"@,
                "--target"@,
                node,
                "--media-type"@,
                "audio/mpeg"@,
                audio,
            ]
            &&& mp3 ==> player::file_args("pw-cat"@, audio, None) == seq![
                "--playback"@,
                "--media-type"@,
                "audio/mpeg"@,
                audio,
            ]
            &&& !mp3 ==> player::file_args("pw-cat"@, audio, Some(node)) == seq![
                "--playback"@,
                "--target"@,
                node,
                audio,
            ]
            &&& !mp3 ==> player::file_args("pw-cat"@, audio, None) == seq![
                "--playback"@,
                audio,
            ]
            &&& player::file_args(under, audio, Some(node)) == player::file_args(
                "pw-cat"@,
                audio,
                Some(node),
            )
            &&& player::file_args(under, audio, None) == player::file_args(
                "pw-cat"@,
                audio,
                None,
            )
            &&& player::stream_args("pw-cat"@, Some(node)) == seq![
                "--playback"@,
                "--target"@,
                node,
                "--media-type"@,
                "audio/mpeg"@,
                "-"@,
            ]
            &&& player::stream_args("pw-cat"@, None) == seq![
                "--playback"@,
                "--media-type"@,
                "audio/mpeg"@,
                "-"@,
            ]
            &&& player::stream_args(under, Some(node)) == player::stream_args(
                "pw-cat"@,
                Some(node),
            )
            &&& player::stream_args(under, None) == player::stream_args("pw-cat"@, None)
        }),
{
    let audio = at + stem + seq!['.'] + ext;
    texts::extension_stands_behind_the_last_dot(at, stem, ext);
    let under = dir + "/pw-cat"@;
    assert(under.subrange(dir.len() as int, under.len() as int) =~= "/pw-cat"@);
    assert("/pw-cat"@.is_suffix_of(under));
}

/// Any other player is handed the file and nothing else, and nothing at all for
/// a stream.
pub proof fn other_players_get_the_file_alone(
    bin: Seq<char>,
    audio: Seq<char>,
    node: Option<Seq<char>>,
)
    requires
        bin != "pw-cat"@,
        !"/pw-cat"@.is_suffix_of(bin),
    ensures
        player::file_args(bin, audio, node) == seq![audio],
        player::stream_args(bin, node) == Seq::<Seq<char>>::empty(),
{
    assert(player::file_args(bin, audio, node) =~= seq![audio]);
}

/// The first variable names the player, the second one only where there is no
/// first; without either it is `pw-cat`. An empty sink is no sink.
pub proof fn variables_name_player_and_sink(
    bin: Seq<char>,
    other: Option<Seq<char>>,
    node: Seq<char>,
)
    ensures
        player::player_for(Some(bin), other) == bin,
        player::player_for(None, Some(bin)) == bin,
        player::player_for(None, None) == "pw-cat"@,
        node.len() > 0 ==> player::filled(Some(node)) == Some(node),
        player::filled(Some(Seq::empty())) is None,
        player::filled(None) is None,
        player::ENV_PLAYER@ == "WM_PW_CAT_BIN"@,
        player::ENV_PLAYER_ALIAS@ == "WM_TTS_PLAYER"@,
        player::ENV_SINK_NODE@ == "WM_SINK_NODE"@,
{
}

// ---- a played file -------------------------------------------------------

/// A file that was played through is told with the time it took and the bytes of
/// its audio, a cancelled one with the time and no bytes, and every other one as
/// an error with no bytes, which is said in words.
pub proof fn played_file_is_told(
    bin: Seq<char>,
    audio: Seq<char>,
    data_bytes: u64,
    run: PlayerRun,
)
    ensures
        ({
            let told = player::file_play(bin, audio, data_bytes, run);
            match run {
                PlayerRun::Exited { success: true, status, duration_ms } => {
                    &&& told.outcome == PlayOutcome::Finished
                    &&& told.duration_ms == duration_ms
                    &&& told.played_bytes == data_bytes
                    &&& told.error is None
                },
                PlayerRun::Cancelled { duration_ms } => {
                    &&& told.outcome == PlayOutcome::Cancelled
                    &&& told.duration_ms == duration_ms
                    &&& told.played_bytes == 0
                    &&& told.error is None
                },
                PlayerRun::Missing => {
                    &&& told.outcome == PlayOutcome::Failed
                    &&& told.duration_ms == 0
                    &&& told.played_bytes == 0
                    &&& told.error == Some(
                        FailureView {
                            kind: "pw_cat_missing"@,
                            message: "player binary not found on $PATH: "@ + bin,
                        },
                    )
                },
                PlayerRun::SpawnFailed => {
                    &&& told.outcome == PlayOutcome::Failed
                    &&& told.duration_ms == 0
                    &&& told.played_bytes == 0
                    &&& told.error == Some(
                        FailureView {
                            kind: "io"@,
                            message: "spawn player: spawn "@ + bin + " "@ + audio,
                        },
                    )
                },
                PlayerRun::Exited { success: false, status, duration_ms } => {
                    &&& told.outcome == PlayOutcome::Failed
                    &&& told.duration_ms == duration_ms
                    &&& told.played_bytes == 0
                    &&& told.error == Some(
                        FailureView {
                            kind: "io"@,
                            message: "player exited non-zero: "@ + status@,
                        },
                    )
                },
                PlayerRun::WaitFailed { why, duration_ms } => {
                    &&& told.outcome == PlayOutcome::Failed
                    &&& told.duration_ms == duration_ms
                    &&& told.played_bytes == 0
                    &&& told.error == Some(
                        FailureView { kind: "io"@, message: "wait player: "@ + why@ },
                    )
                },
            }
        }),
        PlayOutcome::Finished.word() == "ok"@,
        PlayOutcome::Cancelled.word() == "cancelled"@,
        PlayOutcome::Failed.word() == "error"@,
{
}

/// What is known of a file are its duration and the bytes of its audio, each
/// where the file tells it; of a file that cannot be read nothing is known.
pub proof fn file_tells_its_facts(bytes: Seq<u8>)
    ensures
        player::facts_of(None).duration_ms is None,
        player::facts_of(None).data_bytes == 0,
        wav::duration_ms(bytes) is Ok ==> player::facts_of(Some(bytes)).duration_ms == Some(
            wav::duration_ms(bytes)->Ok_0,
        ),
        wav::duration_ms(bytes) is Err ==> player::facts_of(Some(bytes)).duration_ms is None,
        wav::data_bytes(bytes) is Ok ==> player::facts_of(Some(bytes)).data_bytes
            == wav::data_bytes(bytes)->Ok_0,
        wav::data_bytes(bytes) is Err ==> player::facts_of(Some(bytes)).data_bytes == 0,
{
}

/// A cancelled play has drained what was played of the file: the time since it
/// began, but never more than the file is long, and nothing where nothing plays.
pub proof fn cancel_drains_what_was_played(
    slot: CancelSlot,
    elapsed_ms: u64,
    later_ms: u64,
    d: u64,
)
    requires
        elapsed_ms <= later_ms,
    ensures
        slot::drained(slot, elapsed_ms) <= slot::drained(slot, later_ms),
        !slot.playing ==> slot::drained(slot, elapsed_ms) == 0,
        slot.playing && slot.duration_ms is None ==> slot::drained(slot, elapsed_ms) == elapsed_ms,
        slot.playing && slot.duration_ms == Some(d) && elapsed_ms <= d ==> slot::drained(
            slot,
            elapsed_ms,
        ) == elapsed_ms,
        slot.playing && slot.duration_ms == Some(d) && elapsed_ms >= d ==> slot::drained(
            slot,
            elapsed_ms,
        ) == d,
{
}

// ---- a stream ------------------------------------------------------------

proof fn lemma_state(events: Seq<EventView>, n: nat, bin: Seq<char>)
    ensures
        ({
            let s = stream::state_after(events, n, bin);
            let over = s.phase == StreamPhase::Stopping || s.phase == StreamPhase::Done;
            &&& s.cancelled ==> over && s.error is None
            &&& s.error is Some ==> over
            &&& s.phase == StreamPhase::Stopping ==> s.cancelled || s.error is Some
        }),
        n > 0 ==> {
            let s = stream::state_after(events, n, bin);
            match stream::action_at(events, (n - 1) as nat, bin) {
                ActionView::Spawn => s.phase == StreamPhase::Spawning,
                ActionView::Receive => s.phase == StreamPhase::Pumping,
                ActionView::Write => s.phase is Writing,
                ActionView::Kill => s.phase == StreamPhase::Stopping,
                ActionView::Wait => s.phase == StreamPhase::Draining,
                ActionView::Finish(_) => s.phase == StreamPhase::Done,
                ActionView::Pass => s == stream::state_after(events, (n - 1) as nat, bin),
            }
        },
    decreases n,
{
    if n > 0 {
        lemma_state(events, (n - 1) as nat, bin);
    }
}

/// The course of a stream. Once audio is granted the player is started; then
/// chunks are received and each is written before the next is received. At the
/// end of the audio the player may play out; a cancel, or anything that goes
/// wrong, stops it. What was not waited for is passed over.
pub proof fn stream_takes_its_course(events: Seq<EventView>, i: nat, bin: Seq<char>)
    requires
        i + 1 < events.len(),
    ensures
        ({
            let then = stream::action_at(events, i + 1, bin);
            let event = events[i as int + 1];
            match stream::action_at(events, i, bin) {
                ActionView::Spawn => match event {
                    EventView::Spawned => then == ActionView::Receive,
                    EventView::NoStdin => then == ActionView::Kill,
                    EventView::SpawnFailed => then == ActionView::Finish(
                        OutcomeView::FailedBeforeFrame(
                            CloudFault::Http(
                                "spawn streaming player: spawn streaming player "@ + bin,
                            ),
                        ),
                    ),
                    _ => then == ActionView::Pass,
                },
                ActionView::Receive => match event {
                    EventView::Chunk { .. } => then == ActionView::Write,
                    EventView::Ended => then == ActionView::Wait,
                    EventView::Cancel | EventView::ItemFailed(_) => then == ActionView::Kill,
                    _ => then == ActionView::Pass,
                },
                ActionView::Write => match event {
                    EventView::Written => then == ActionView::Receive,
                    EventView::WriteFailed(_) => then == ActionView::Kill,
                    _ => then == ActionView::Pass,
                },
                ActionView::Kill | ActionView::Wait => match event {
                    EventView::Exited { .. } => then is Finish,
                    _ => then == ActionView::Pass,
                },
                ActionView::Finish(_) => then == ActionView::Pass,
                ActionView::Pass => then == stream::next(
                    stream::state_after(events, i, bin),
                    event,
                    bin,
                ).1,
            }
        }),
        match events[0] {
            EventView::Granted => stream::action_at(events, 0, bin) == ActionView::Spawn,
            EventView::Refused(f) => stream::action_at(events, 0, bin) == ActionView::Finish(
                OutcomeView::FailedBeforeFrame(f),
            ),
            _ => stream::action_at(events, 0, bin) == ActionView::Pass,
        },
{
    lemma_state(events, i + 1, bin);
    lemma_state(events, 0, bin);
}

/// A stream that plays out is told as played with the time the player took; one
/// that was cancelled as cancelled; and one that broke with what broke it.
pub proof fn stream_ends_as_it_went(events: Seq<EventView>, i: nat, d: u64, bin: Seq<char>)
    requires
        i + 1 < events.len(),
        events[i as int + 1] == (EventView::Exited { duration_ms: d }),
        stream::action_at(events, i, bin) is Kill || stream::action_at(events, i, bin) is Wait,
    ensures
        ({
            let then = stream::action_at(events, i + 1, bin);
            &&& then is Finish
            &&& match events[i as int] {
                EventView::Ended => then->Finish_0 is Played && then->Finish_0->duration_ms == d
                    && !then->Finish_0->cancelled,
                EventView::Cancel => then->Finish_0 == (OutcomeView::Played {
                    duration_ms: d,
                    cancelled: true,
                    played_bytes: 0,
                }),
                EventView::ItemFailed(f) => failed_with(then->Finish_0, f),
                EventView::WriteFailed(why) => failed_with(
                    then->Finish_0,
                    CloudFault::Http("player stdin write: "@ + why),
                ),
                EventView::NoStdin => then->Finish_0 == OutcomeView::FailedBeforeFrame(
                    CloudFault::Http("streaming player has no piped stdin"@),
                ),
                _ => false,
            }
        }),
{
    lemma_state(events, i, bin);
    lemma_state(events, i + 1, bin);
    lemma_nothing_heard(events, i, bin);
}

proof fn lemma_nothing_heard(events: Seq<EventView>, n: nat, bin: Seq<char>)
    ensures
        ({
            let s = stream::state_after(events, n, bin);
            s.phase == StreamPhase::Asking || s.phase == StreamPhase::Spawning ==> s.frames == 0
        }),
    decreases n,
{
    if n > 0 {
        lemma_nothing_heard(events, (n - 1) as nat, bin);
    }
}

/// Whether a stream failed with `f`, before or after something was heard.
pub open spec fn failed_with(o: OutcomeView, f: CloudFault) -> bool {
    o == OutcomeView::FailedBeforeFrame(f) || o == OutcomeView::FailedMidStream(f)
}

/// Each chunk that is written counts with its length, and nothing else does.
pub proof fn chunk_counts_with_its_length(
    events: Seq<EventView>,
    i: nat,
    len: u64,
    bin: Seq<char>,
)
    requires
        i + 2 <= events.len(),
        stream::action_at(events, i, bin) is Write,
        events[i as int] == (EventView::Chunk { len }),
        events[i as int + 1] is Written,
        stream::state_after(events, i, bin).bytes + len <= u64::MAX,
    ensures
        stream::state_after(events, i + 2, bin).bytes == stream::state_after(events, i, bin).bytes
            + len,
        stream::state_after(events, i + 2, bin).frames > 0,
{
    lemma_state(events, i, bin);
    reveal_with_fuel(stream::state_after, 3);
    assert(stream::state_after(events, i + 2, bin) == stream::next(
        stream::state_after(events, i + 1, bin),
        events[i as int + 1],
        bin,
    ).0);
    assert(stream::state_after(events, i + 1, bin) == stream::next(
        stream::state_after(events, i, bin),
        events[i as int],
        bin,
    ).0);
}

/// A played stream is told with its time, and with its bytes unless it was
/// cancelled; it is no error.
pub proof fn played_stream_is_told(duration_ms: u64, played_bytes: u64)
    ensures
        stream::stream_play(duration_ms, false, played_bytes) == (PlayView {
            outcome: PlayOutcome::Finished,
            duration_ms,
            played_bytes,
            error: None,
        }),
        stream::stream_play(duration_ms, true, played_bytes) == (PlayView {
            outcome: PlayOutcome::Cancelled,
            duration_ms,
            played_bytes: 0,
            error: None,
        }),
{
}

} // verus!
