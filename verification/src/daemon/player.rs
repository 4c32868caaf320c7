//! The player: its command line, and what comes of a run.

use crate::bus::outcome;
use crate::json;
use crate::paths;
use crate::text;
use crate::vars;
use crate::wav;
use vstd::prelude::*;

verus! {

/// The player where none is configured.
pub const DEFAULT_PLAYER: &'static str = "pw-cat";

/// Names the player.
pub const ENV_PLAYER: &'static str = "WM_PW_CAT_BIN";

/// Another name for the player, read where the first is not set.
pub const ENV_PLAYER_ALIAS: &'static str = "WM_TTS_PLAYER";

/// Names the sink that the audio goes to.
pub const ENV_SINK_NODE: &'static str = "WM_SINK_NODE";

/// The player for these values of its two variables.
pub open spec fn player_for(first: Option<Seq<char>>, second: Option<Seq<char>>) -> Seq<char> {
    match (first, second) {
        (Some(bin), _) => bin,
        (None, Some(bin)) => bin,
        (None, None) => DEFAULT_PLAYER@,
    }
}

/// The player that the environment names.
pub fn player_from_env<F: Fn(&str) -> Option<String>>(var: &F) -> (r: String)
    requires
        forall|k: &str| #[trigger] call_requires(*var, (k,)),
    ensures
        exists|first: Option<Seq<char>>, second: Option<Seq<char>>|
            vars::may_read(*var, ENV_PLAYER@, first) && (first is None ==> vars::may_read(
                *var,
                ENV_PLAYER_ALIAS@,
                second,
            )) && r@ == #[trigger] player_for(first, second),
{
    let first = vars::read(var, ENV_PLAYER);
    let ghost a = json::optional(first);
    match first {
        Some(bin) => {
            assert(bin@ == player_for(a, None));
            bin
        },
        None => {
            let second = vars::read(var, ENV_PLAYER_ALIAS);
            let ghost b = json::optional(second);
            let r = match second {
                Some(bin) => bin,
                None => DEFAULT_PLAYER.to_owned(),
            };
            assert(r@ == player_for(a, b));
            r
        },
    }
}

/// A value that is not empty; else nothing.
pub open spec fn filled(value: Option<Seq<char>>) -> Option<Seq<char>> {
    match value {
        Some(v) => if v.len() == 0 {
            None
        } else {
            Some(v)
        },
        None => None,
    }
}

/// The sink that the environment names; none where the variable is unset or
/// empty, and then the audio goes to the default sink.
pub fn sink_node_from_env<F: Fn(&str) -> Option<String>>(var: &F) -> (r: Option<String>)
    requires
        forall|k: &str| #[trigger] call_requires(*var, (k,)),
    ensures
        exists|value: Option<Seq<char>>| #[trigger]
            vars::may_read(*var, ENV_SINK_NODE@, value) && json::optional(r) == filled(value),
{
    let value = vars::read(var, ENV_SINK_NODE);
    let ghost seen = json::optional(value);
    assert(vars::may_read(*var, ENV_SINK_NODE@, seen));
    match value {
        Some(v) => if v.as_str().unicode_len() == 0 {
            None
        } else {
            Some(v)
        },
        None => None,
    }
}

/// Whether a player is `pw-cat`, by its name or its path.
pub open spec fn is_pw_cat(bin: Seq<char>) -> bool {
    bin == "pw-cat"@ || "/pw-cat"@.is_suffix_of(bin)
}

fn pw_cat(bin: &str) -> (r: bool)
    ensures
        r == is_pw_cat(bin@),
{
    text::same_text(bin, "pw-cat") || text::ends_with(bin, "/pw-cat")
}

/// The arguments that name the sink.
pub open spec fn target_args(sink_node: Option<Seq<char>>) -> Seq<Seq<char>> {
    match sink_node {
        Some(node) => seq!["--target"@, node],
        None => Seq::empty(),
    }
}

/// The arguments that say that the audio is MP3.
pub open spec fn mp3_args() -> Seq<Seq<char>> {
    seq!["--media-type"@, "audio/mpeg"@]
}

/// The arguments for audio that comes on standard input: `pw-cat` is told that
/// it is MP3 and where it goes; another player is told nothing.
pub open spec fn stream_args(bin: Seq<char>, sink_node: Option<Seq<char>>) -> Seq<Seq<char>> {
    if is_pw_cat(bin) {
        seq!["--playback"@] + target_args(sink_node) + mp3_args() + seq!["-"@]
    } else {
        Seq::empty()
    }
}

/// The arguments for a file: `pw-cat` is told where the audio goes and, of an
/// MP3 file, that it is one; another player is given the file alone.
pub open spec fn file_args(
    bin: Seq<char>,
    audio: Seq<char>,
    sink_node: Option<Seq<char>>,
) -> Seq<Seq<char>> {
    (if is_pw_cat(bin) {
        seq!["--playback"@] + target_args(sink_node) + (if paths::mp3_path(audio) {
            mp3_args()
        } else {
            Seq::empty()
        })
    } else {
        Seq::empty()
    }) + seq![audio]
}

/// An optional text as a sequence of characters.
pub open spec fn optional_str(t: Option<&str>) -> Option<Seq<char>> {
    match t {
        Some(t) => Some(t@),
        None => None,
    }
}

fn push_target(args: &mut Vec<String>, sink_node: Option<&str>)
    ensures
        text::texts(final(args)@) == text::texts(old(args)@) + target_args(
            optional_str(sink_node),
        ),
{
    let ghost before = text::texts(args@);
    if let Some(node) = sink_node {
        text::push_text(args, "--target");
        text::push_text(args, node);
        assert(text::texts(args@) == before + seq!["--target"@, node@]);
    } else {
        assert(text::texts(args@) == before + Seq::<Seq<char>>::empty());
    }
}

fn push_mp3(args: &mut Vec<String>)
    ensures
        text::texts(final(args)@) == text::texts(old(args)@) + mp3_args(),
{
    let ghost before = text::texts(args@);
    text::push_text(args, "--media-type");
    text::push_text(args, "audio/mpeg");
    assert(text::texts(args@) == before + mp3_args());
}

/// The arguments for audio that comes on standard input.
pub fn streaming_player_args(player_bin: &str, sink_node: Option<&str>) -> (r: Vec<String>)
    ensures
        text::texts(r@) == stream_args(player_bin@, optional_str(sink_node)),
{
    let mut args: Vec<String> = Vec::new();
    assert(text::texts(args@) == Seq::<Seq<char>>::empty());
    if pw_cat(player_bin) {
        text::push_text(&mut args, "--playback");
        assert(text::texts(args@) == seq!["--playback"@]);
        push_target(&mut args, sink_node);
        push_mp3(&mut args);
        let ghost before = text::texts(args@);
        text::push_text(&mut args, "-");
        assert(text::texts(args@) == before + seq!["-"@]);
    }
    args
}

/// The arguments for a file.
pub fn player_args(player_bin: &str, audio: &str, sink_node: Option<&str>) -> (r: Vec<String>)
    ensures
        text::texts(r@) == file_args(player_bin@, audio@, optional_str(sink_node)),
{
    let mut args: Vec<String> = Vec::new();
    assert(text::texts(args@) == Seq::<Seq<char>>::empty());
    if pw_cat(player_bin) {
        text::push_text(&mut args, "--playback");
        assert(text::texts(args@) == seq!["--playback"@]);
        push_target(&mut args, sink_node);
        let ghost head = text::texts(args@);
        if paths::is_mp3_path(audio) {
            push_mp3(&mut args);
        } else {
            assert(text::texts(args@) == head + Seq::<Seq<char>>::empty());
        }
    }
    let ghost before = text::texts(args@);
    text::push_text(&mut args, audio);
    assert(text::texts(args@) == before + seq![audio@]);
    args
}

/// How an utterance ended.
#[derive(Debug, Clone, Copy, PartialEq, Eq)]
pub enum PlayOutcome {
    /// It was played to its end.
    Finished,
    /// It was cancelled.
    Cancelled,
    /// It failed.
    Failed,
}

impl PlayOutcome {
    /// The word for it in an end event.
    pub open spec fn word(self) -> Seq<char> {
        match self {
            PlayOutcome::Finished => outcome::OK@,
            PlayOutcome::Cancelled => outcome::CANCELLED@,
            PlayOutcome::Failed => outcome::ERROR@,
        }
    }

    /// The word for it in an end event.
    pub fn label(&self) -> (r: &'static str)
        ensures
            r@ == self.word(),
    {
        match self {
            PlayOutcome::Finished => outcome::OK,
            PlayOutcome::Cancelled => outcome::CANCELLED,
            PlayOutcome::Failed => outcome::ERROR,
        }
    }
}

/// A failure as an error event tells it.
#[derive(Debug, Clone, PartialEq, Eq)]
pub struct Failure {
    /// A short tag for its kind.
    pub kind: String,
    /// What failed, in words.
    pub message: String,
}

/// A failure with its texts as sequences of characters.
pub struct FailureView {
    pub kind: Seq<char>,
    pub message: Seq<char>,
}

impl Failure {
    /// The failure with its texts as sequences of characters.
    pub open spec fn view(self) -> FailureView {
        FailureView { kind: self.kind@, message: self.message@ }
    }
}

/// What came of playing an utterance.
#[derive(Debug, Clone, PartialEq, Eq)]
pub struct PlayResult {
    /// How it ended.
    pub outcome: PlayOutcome,
    /// Milliseconds from the start of the player to its end.
    pub duration_ms: u64,
    /// Bytes of audio that went to the sink.
    pub played_bytes: u64,
    /// The failure to tell of before the end.
    pub error: Option<Failure>,
}

/// A [`PlayResult`] with its texts as sequences of characters.
pub struct PlayView {
    pub outcome: PlayOutcome,
    pub duration_ms: u64,
    pub played_bytes: u64,
    pub error: Option<FailureView>,
}

impl PlayResult {
    /// The result with its texts as sequences of characters.
    pub open spec fn view(self) -> PlayView {
        PlayView {
            outcome: self.outcome,
            duration_ms: self.duration_ms,
            played_bytes: self.played_bytes,
            error: match self.error {
                Some(f) => Some(f@),
                None => None,
            },
        }
    }
}

impl PlayView {
    /// A failure is told of exactly where the utterance failed, and bytes are
    /// counted only where it was played to its end.
    pub open spec fn coherent(self) -> bool {
        &&& self.error is Some <==> self.outcome == PlayOutcome::Failed
        &&& self.outcome != PlayOutcome::Finished ==> self.played_bytes == 0
    }
}

/// How a run of the player on a file went.
#[derive(Debug, Clone, PartialEq, Eq)]
pub enum PlayerRun {
    /// The player does not exist.
    Missing,
    /// The player could not be started.
    SpawnFailed,
    /// The player ended on its own.
    Exited {
        /// Whether it reported success.
        success: bool,
        /// Its exit status in words.
        status: String,
        /// Milliseconds since it was started.
        duration_ms: u64,
    },
    /// Waiting for the player failed.
    WaitFailed {
        /// Why.
        why: String,
        /// Milliseconds since it was started.
        duration_ms: u64,
    },
    /// The utterance was cancelled and the player stopped.
    Cancelled {
        /// Milliseconds since it was started.
        duration_ms: u64,
    },
}

/// What a file is known to hold.
#[derive(Debug, Clone, Copy, PartialEq, Eq)]
pub struct AudioFacts {
    /// Milliseconds of audio, where the header says so.
    pub duration_ms: Option<u64>,
    /// Bytes of audio; 0 where the header does not say.
    pub data_bytes: u64,
}

/// What is known of a file from its bytes, if it could be read.
pub open spec fn facts_of(file: Option<Seq<u8>>) -> AudioFacts {
    match file {
        None => AudioFacts { duration_ms: None, data_bytes: 0 },
        Some(bytes) => AudioFacts {
            duration_ms: match wav::duration_ms(bytes) {
                Ok(ms) => Some(ms),
                Err(_) => None,
            },
            data_bytes: match wav::data_bytes(bytes) {
                Ok(n) => n,
                Err(_) => 0,
            },
        },
    }
}

/// What is known of a file from its bytes, if it could be read.
pub fn audio_facts(file: Option<&[u8]>) -> (r: AudioFacts)
    ensures
        r == facts_of(
            match file {
                Some(bytes) => Some(bytes@),
                None => None,
            },
        ),
{
    match file {
        None => AudioFacts { duration_ms: None, data_bytes: 0 },
        Some(bytes) => AudioFacts {
            duration_ms: match wav::parse_duration_ms_bytes(bytes) {
                Ok(ms) => Some(ms),
                Err(_) => None,
            },
            data_bytes: match wav::parse_data_bytes_bytes(bytes) {
                Ok(n) => n,
                Err(_) => 0,
            },
        },
    }
}

/// A result that tells of a failure.
pub open spec fn failed_play(duration_ms: u64, kind: Seq<char>, message: Seq<char>) -> PlayView {
    PlayView {
        outcome: PlayOutcome::Failed,
        duration_ms,
        played_bytes: 0,
        error: Some(FailureView { kind, message }),
    }
}

/// What came of playing a file with `data_bytes` bytes of audio.
pub open spec fn file_play(
    bin: Seq<char>,
    audio: Seq<char>,
    data_bytes: u64,
    run: PlayerRun,
) -> PlayView {
    match run {
        PlayerRun::Missing => failed_play(
            0,
            "pw_cat_missing"@,
            "player binary not found on $PATH: "@ + bin,
        ),
        PlayerRun::SpawnFailed => failed_play(
            0,
            "io"@,
            "spawn player: spawn "@ + bin + " "@ + audio,
        ),
        PlayerRun::Exited { success, status, duration_ms } => if success {
            PlayView {
                outcome: PlayOutcome::Finished,
                duration_ms,
                played_bytes: data_bytes,
                error: None,
            }
        } else {
            failed_play(duration_ms, "io"@, "player exited non-zero: "@ + status@)
        },
        PlayerRun::WaitFailed { why, duration_ms } => failed_play(
            duration_ms,
            "io"@,
            "wait player: "@ + why@,
        ),
        PlayerRun::Cancelled { duration_ms } => PlayView {
            outcome: PlayOutcome::Cancelled,
            duration_ms,
            played_bytes: 0,
            error: None,
        },
    }
}

fn failed_result(duration_ms: u64, kind: &str, message: String) -> (r: PlayResult)
    ensures
        r@ == failed_play(duration_ms, kind@, message@),
{
    PlayResult {
        outcome: PlayOutcome::Failed,
        duration_ms,
        played_bytes: 0,
        error: Some(Failure { kind: kind.to_owned(), message }),
    }
}

/// Judges a run of the player on a file.
pub fn file_result(player_bin: &str, audio: &str, data_bytes: u64, run: &PlayerRun) -> (r:
    PlayResult)
    ensures
        r@ == file_play(player_bin@, audio@, data_bytes, *run),
        r@.coherent(),
{
    match run {
        PlayerRun::Missing => failed_result(
            0,
            "pw_cat_missing",
            text::joined2("player binary not found on $PATH: ", player_bin),
        ),
        PlayerRun::SpawnFailed => failed_result(
            0,
            "io",
            text::joined4("spawn player: spawn ", player_bin, " ", audio),
        ),
        PlayerRun::Exited { success, status, duration_ms } => if *success {
            PlayResult {
                outcome: PlayOutcome::Finished,
                duration_ms: *duration_ms,
                played_bytes: data_bytes,
                error: None,
            }
        } else {
            failed_result(
                *duration_ms,
                "io",
                text::joined2("player exited non-zero: ", status.as_str()),
            )
        },
        PlayerRun::WaitFailed { why, duration_ms } => failed_result(
            *duration_ms,
            "io",
            text::joined2("wait player: ", why.as_str()),
        ),
        PlayerRun::Cancelled { duration_ms } => PlayResult {
            outcome: PlayOutcome::Cancelled,
            duration_ms: *duration_ms,
            played_bytes: 0,
            error: None,
        },
    }
}

/// The configured sink reaches the player: whenever `pw-cat` plays, for a file
/// as for a stream, `--target` and the sink stand right after `--playback`.
pub proof fn sink_reaches_pw_cat(bin: Seq<char>, audio: Seq<char>, node: Seq<char>)
    requires
        is_pw_cat(bin),
    ensures
        seq!["--playback"@, "--target"@, node].is_prefix_of(file_args(bin, audio, Some(node))),
        seq!["--playback"@, "--target"@, node].is_prefix_of(stream_args(bin, Some(node))),
        file_args(bin, audio, None).index_of_first("--target"@) is Some ==> audio == "--target"@,
{
    reveal_strlit("--playback");
    reveal_strlit("--target");
    reveal_strlit("--media-type");
    reveal_strlit("audio/mpeg");
    let args = file_args(bin, audio, None);
    assert("--playback"@.len() == 10);
    assert("--target"@.len() == 8);
    assert("--media-type"@.len() == 12);
    assert("audio/mpeg"@.len() == 10);
    args.index_of_first_ensures("--target"@);
}

} // verus!
