//! Synthesis settings, the `piper` command line, and output gain.
//!
//! The local backend is the `piper` command line tool:
//! `piper --model <voice>.onnx [--length_scale <s>] --output_file <out.wav>`
//! with the text on its standard input.
//!
//! Two knobs shape the output. The speaking rate is a multiplier of the normal
//! tempo and becomes the `--length_scale` argument, its reciprocal; a neutral
//! rate leaves the argument out. The gain multiplies the samples of the
//! rendered file.

use crate::json;
use crate::paths;
use crate::single;
use crate::single::Single;
use crate::text;
use crate::vars;
use crate::wav;
use vstd::arithmetic::power2;
use vstd::prelude::*;

verus! {

/// Encoding of the smallest speaking rate, 0.1.
pub const SPEAKING_RATE_MIN: u32 = 0x3dcc_cccd;

/// Encoding of the largest speaking rate, 5.
pub const SPEAKING_RATE_MAX: u32 = 0x40a0_0000;

/// Encoding of the smallest gain, 0.
pub const GAIN_MIN: u32 = 0;

/// Encoding of the largest gain, 4.
pub const GAIN_MAX: u32 = 0x4080_0000;

/// Speaking rate and gain of the output.
#[derive(Debug, Clone, Copy, PartialEq)]
pub struct VoiceConfig {
    /// Tempo relative to the normal one; below 1 is slower.
    pub speaking_rate: Single,
    /// Factor applied to the samples of the rendered file.
    pub gain: Single,
}

impl VoiceConfig {
    /// The speaking rate, brought into its range.
    pub open spec fn rate_in_effect(self) -> Single {
        self.speaking_rate.clamped(
            Single { bits: SPEAKING_RATE_MIN },
            Single { bits: SPEAKING_RATE_MAX },
        )
    }

    /// The gain, brought into its range.
    pub open spec fn gain_in_effect(self) -> Single {
        self.gain.clamped(Single { bits: GAIN_MIN }, Single { bits: GAIN_MAX })
    }

    /// Whether the speaking rate in effect is 1, so that `piper` keeps its own
    /// tempo.
    pub open spec fn rate_neutral(self) -> bool {
        self.rate_in_effect().near_one()
    }

    /// Whether the gain in effect is 1.
    pub open spec fn gain_unity(self) -> bool {
        self.gain_in_effect().near_one()
    }

    /// The factor by which `piper` stretches the speech, in units of 2 to the
    /// power -149: the reciprocal of the speaking rate in effect, rounded to a
    /// single.
    pub open spec fn length_scale(self) -> nat {
        single::rounded_quotient(power2::pow2(298), self.rate_in_effect().value() as nat)
    }

    /// The factor by which `piper` stretches the speech, written out with six
    /// places.
    pub open spec fn length_scale_text(self) -> Seq<char> {
        if self.rate_in_effect().nan() {
            "NaN"@
        } else {
            single::six_places(self.length_scale())
        }
    }

    /// The speaking rate, brought into its range.
    pub fn effective_speaking_rate(&self) -> (r: Single)
        ensures
            r == self.rate_in_effect(),
    {
        self.speaking_rate.clamp(
            Single { bits: SPEAKING_RATE_MIN },
            Single { bits: SPEAKING_RATE_MAX },
        )
    }

    /// The gain, brought into its range.
    pub fn effective_gain(&self) -> (r: Single)
        ensures
            r == self.gain_in_effect(),
    {
        self.gain.clamp(Single { bits: GAIN_MIN }, Single { bits: GAIN_MAX })
    }

    /// The factor by which `piper` stretches the speech: the reciprocal of the
    /// speaking rate in effect. What is not a number stays so.
    pub fn piper_length_scale(&self) -> (r: Single)
        ensures
            self.rate_in_effect().nan() ==> r.nan(),
            !self.rate_in_effect().nan() ==> {
                &&& 0x3e00_0000 <= r.bits < 0x4180_0000
                &&& r.value() == self.length_scale()
            },
    {
        let rate = self.effective_speaking_rate();
        if rate.is_nan() {
            return rate;
        }
        proof {
            let min = Single { bits: SPEAKING_RATE_MIN };
            let max = Single { bits: SPEAKING_RATE_MAX };
            if self.speaking_rate.nan() {
                assert(self.rate_in_effect() == self.speaking_rate);
            }
            single::lemma_range_of_bits(self.speaking_rate, min, max);
        }
        rate.reciprocal()
    }

    /// Writes out the factor by which `piper` stretches the speech.
    pub fn write_length_scale(&self) -> (r: String)
        ensures
            r@ == self.length_scale_text(),
    {
        let scale = self.piper_length_scale();
        if scale.is_nan() {
            "NaN".to_owned()
        } else {
            scale.to_six_places()
        }
    }

    /// Whether no `--length_scale` argument is to be given.
    pub fn is_rate_neutral(&self) -> (r: bool)
        ensures
            r == self.rate_neutral(),
    {
        self.effective_speaking_rate().is_near_one()
    }

    /// Whether the rendered file needs no scaling.
    pub fn is_gain_unity(&self) -> (r: bool)
        ensures
            r == self.gain_unity(),
    {
        self.effective_gain().is_near_one()
    }
}

impl Default for VoiceConfig {
    /// A little slower and louder than normal: rate 0.85, gain 1.2.
    fn default() -> (r: Self)
        ensures
            r.speaking_rate.bits == 0x3f59_999au32,
            r.gain.bits == 0x3f99_999au32,
    {
        VoiceConfig {
            speaking_rate: Single { bits: 0x3f59_999a },
            gain: Single { bits: 0x3f99_999a },
        }
    }
}

// ---- gain ----------------------------------------------------------------

/// Where the body of the first `data` chunk from `at` on stands: its start,
/// and its end, which is no later than the end of the file.
pub open spec fn data_body(b: Seq<u8>, at: int) -> Option<(int, int)>
    decreases
            if at <= b.len() {
                b.len() - at + 1
            } else {
                0
            },
{
    if at < 0 || at + 8 > b.len() {
        None
    } else if wav::quad(b, at) == wav::data_id() {
        let end = at + 8 + wav::le32(b, at + 4);
        Some((
            at + 8,
            if end <= b.len() {
                end
            } else {
                b.len() as int
            },
        ))
    } else {
        data_body(b, wav::next_chunk(b, at))
    }
}

/// The samples of a WAV file: where they start, and how many there are. A
/// byte left over at the end of the body belongs to no sample.
pub open spec fn sample_area(b: Seq<u8>) -> Option<(int, int)> {
    if wav::is_wave(b) {
        match data_body(b, 12) {
            Some((start, end)) => Some((start, (end - start) / 2)),
            None => None,
        }
    } else {
        None
    }
}

/// The signed 16-bit little-endian sample at `at`.
pub open spec fn sample_at(b: Seq<u8>, at: int) -> int {
    let u = b[at] + 0x100 * b[at + 1];
    if u < 0x8000 {
        u
    } else {
        u - 0x1_0000
    }
}

/// Whether `after` is `before` with every sample multiplied by `gain` and every
/// other byte kept.
pub open spec fn samples_scaled(before: Seq<u8>, after: Seq<u8>, gain: Single) -> bool {
    &&& after.len() == before.len()
    &&& match sample_area(before) {
        None => after == before,
        Some((start, count)) => {
            &&& forall|i: int|
                0 <= i < before.len() && !(start <= i < start + 2 * count) ==> after[i]
                    == #[trigger] before[i]
            &&& forall|k: int|
                0 <= k < count ==> sample_at(after, start + 2 * k) == gain.scaled(
                    #[trigger] sample_at(before, start + 2 * k) as i16,
                )
        },
    }
}

fn read_sample(bytes: &[u8], at: usize) -> (r: i16)
    requires
        at + 2 <= bytes@.len(),
    ensures
        r == sample_at(bytes@, at as int),
{
    let u: i32 = bytes[at] as i32 + 0x100 * (bytes[at + 1] as i32);
    if u < 0x8000 {
        u as i16
    } else {
        (u - 0x1_0000) as i16
    }
}

fn write_sample(bytes: &mut [u8], at: usize, sample: i16)
    requires
        at + 2 <= old(bytes)@.len(),
    ensures
        final(bytes)@.len() == old(bytes)@.len(),
        sample_at(final(bytes)@, at as int) == sample,
        forall|i: int|
            0 <= i < old(bytes)@.len() && i != at && i != at + 1 ==> final(bytes)@[i] == old(
                bytes,
            )@[i],
{
    let u: u32 = if sample < 0 {
        (sample as i32 + 0x1_0000) as u32
    } else {
        sample as u32
    };
    bytes[at] = (u % 0x100) as u8;
    bytes[at + 1] = (u / 0x100) as u8;
}

/// Finds the samples: where they start, and where the body ends.
fn find_data(bytes: &[u8]) -> (r: Option<(usize, usize)>)
    requires
        wav::is_wave(bytes@),
    ensures
        match data_body(bytes@, 12) {
            Some((start, end)) => (r matches Some((a, z)) && a == start && z == end && 12 <= start
                <= end <= bytes@.len()),
            None => r is None,
        },
{
    let len: usize = bytes.len();
    let mut cursor: usize = 12;
    while cursor <= len && len - cursor >= 8
        invariant
            len == bytes@.len(),
            12 <= cursor,
            data_body(bytes@, 12) == data_body(bytes@, cursor as int),
        decreases (if cursor <= len { len - cursor + 1 } else { 0 }),
    {
        let size: usize = wav::read_le32(bytes, cursor + 4) as usize;
        let body: usize = cursor + 8;
        if wav::quad_is(bytes, cursor, 0x64, 0x61, 0x74, 0x61) {
            let end: usize = if size > len - body {
                len
            } else {
                body + size
            };
            return Some((body, end));
        }
        let pad: usize = size % 2;
        if size > usize::MAX - body || pad > usize::MAX - (body + size) {
            assert(wav::next_chunk(bytes@, cursor as int) > len);
            assert(data_body(bytes@, wav::next_chunk(bytes@, cursor as int)) is None);
            return None;
        }
        cursor = body + size + pad;
    }
    None
}

/// Multiplies every sample of a 16-bit WAV file by `gain`. The first `data`
/// chunk is the one that is scaled, also where the file ends before it does;
/// the header and all other chunks stay as they are, and so does everything
/// where the bytes are no WAV file or hold no `data` chunk.
pub fn apply_gain_to_wav_bytes(bytes: &mut [u8], gain: Single)
    ensures
        samples_scaled(old(bytes)@, final(bytes)@, gain),
{
    if !wav::has_wave_header(bytes) {
        return;
    }
    let found = find_data(bytes);
    let (start, end): (usize, usize) = match found {
        Some(pair) => pair,
        None => {
            return;
        },
    };
    let ghost before = bytes@;
    let mut i: usize = start;
    while end - i >= 2
        invariant
            bytes@.len() == before.len(),
            12 <= start <= i <= end <= before.len(),
            (i - start) % 2 == 0,
            forall|j: int|
                0 <= j < before.len() && !(start <= j < i) ==> bytes@[j] == #[trigger] before[j],
            forall|k: int|
                0 <= k < (i - start) / 2 ==> sample_at(bytes@, start + 2 * k) == gain.scaled(
                    #[trigger] sample_at(before, start + 2 * k) as i16,
                ),
        decreases end - i,
    {
        let ghost mid = bytes@;
        let s = read_sample(bytes, i);
        let t = gain.scale(s);
        write_sample(bytes, i, t);
        proof {
            assert(s == sample_at(before, i as int));
            assert forall|k: int| 0 <= k < (i + 2 - start) / 2 implies sample_at(
                bytes@,
                start + 2 * k,
            ) == gain.scaled(#[trigger] sample_at(before, start + 2 * k) as i16) by {
                if k < (i - start) / 2 {
                    assert(sample_at(bytes@, start + 2 * k) == sample_at(mid, start + 2 * k));
                } else {
                    assert(start + 2 * k == i);
                }
            }
        }
        i += 2;
    }
    assert((end - start) / 2 == (i - start) / 2);
    assert(sample_area(before) == Some((start as int, (end - start) / 2)));
}

/// A gain of 1 changes nothing.
pub proof fn unity_gain_changes_nothing(before: Seq<u8>, after: Seq<u8>, gain: Single)
    requires
        samples_scaled(before, after, gain),
        gain.bits == 0x3f80_0000,
    ensures
        after == before,
{
    if let Some((start, count)) = sample_area(before) {
        lemma_data_body_bounds(before, 12);
        assert forall|i: int| 0 <= i < before.len() implies after[i] == before[i] by {
            if start <= i < start + 2 * count {
                let k = (i - start) / 2;
                let p = start + 2 * k;
                assert(i == p || i == p + 1);
                assert(-0x8000 <= sample_at(before, p) < 0x8000);
                assert(-0x8000 <= sample_at(after, p) < 0x8000);
                gain.one_keeps_every_sample(sample_at(before, p) as i16);
                assert(sample_at(before, p) == sample_at(after, p));
                assert(before[p] == after[p] && before[p + 1] == after[p + 1]);
            }
        }
    }
}

proof fn lemma_data_body_bounds(b: Seq<u8>, at: int)
    requires
        0 <= at,
    ensures
        data_body(b, at) matches Some((start, end)) ==> at + 8 <= start <= end <= b.len(),
    decreases
            if at <= b.len() {
                b.len() - at + 1
            } else {
                0
            },
{
    if at + 8 <= b.len() && wav::quad(b, at) != wav::data_id() {
        lemma_data_body_bounds(b, wav::next_chunk(b, at));
    }
}

/// The chunks behind a position up to which nothing else changed are the same.
proof fn lemma_same_tail(b: Seq<u8>, c: Seq<u8>, at: int)
    requires
        b.len() == c.len(),
        0 <= at,
        forall|i: int| at <= i < b.len() ==> b[i] == c[i],
    ensures
        wav::chunks(b, at) == wav::chunks(c, at),
        wav::chunks_end(b, at) == wav::chunks_end(c, at),
    decreases b.len() + 1 - at,
{
    if at + 8 <= b.len() {
        assert(wav::le32(b, at + 4) == wav::le32(c, at + 4));
        assert(wav::quad(b, at) == wav::quad(c, at));
        if wav::complete_at(b, at) {
            lemma_same_tail(b, c, wav::next_chunk(b, at));
        }
    }
}

/// Bytes that change within the body of the first `data` chunk alone leave the
/// chunks, the end of the walk and the `fmt ` bodies as they are.
proof fn lemma_chunks_kept(b: Seq<u8>, c: Seq<u8>, at: int, start: int, end: int)
    requires
        b.len() == c.len(),
        0 <= at,
        data_body(b, at) == Some((start, end)),
        forall|i: int| 0 <= i < b.len() && !(start <= i < end) ==> b[i] == c[i],
    ensures
        wav::chunks(b, at) == wav::chunks(c, at),
        wav::chunks_end(b, at) == wav::chunks_end(c, at),
        wav::chunks_end(b, at) + 8 <= b.len() ==> wav::le32(b, wav::chunks_end(b, at) + 4)
            == wav::le32(c, wav::chunks_end(b, at) + 4),
        forall|i: int|
            0 <= i < wav::chunks(b, at).len() && (#[trigger] wav::chunks(b, at)[i]).id
                == wav::fmt_id() && wav::chunks(b, at)[i].size >= 16 ==> wav::byte_rate(
                b,
                wav::chunks(b, at)[i],
            ) == wav::byte_rate(c, wav::chunks(b, at)[i]),
    decreases b.len() + 1 - at,
{
    lemma_data_body_bounds(b, at);
    assert(wav::le32(b, at + 4) == wav::le32(c, at + 4));
    assert(wav::quad(b, at) == wav::quad(c, at));
    let next = wav::next_chunk(b, at);
    if wav::complete_at(b, at) {
        let cs = wav::chunks(b, at);
        let rest = wav::chunks(b, next);
        assert(cs == seq![wav::chunk_at(b, at)] + rest);
        if wav::quad(b, at) == wav::data_id() {
            assert(end <= next);
            lemma_same_tail(b, c, next);
            wav::lemma_chunks_in_bounds(b, next);
            wav::lemma_end_not_before(b, next);
            assert(wav::fmt_id()[0] != wav::data_id()[0]);
            assert forall|i: int|
                0 <= i < cs.len() && (#[trigger] cs[i]).id == wav::fmt_id() && cs[i].size
                    >= 16 implies wav::byte_rate(b, cs[i]) == wav::byte_rate(c, cs[i]) by {
                assert(i > 0);
                assert(cs[i] == rest[i - 1]);
            }
        } else {
            lemma_data_body_bounds(b, next);
            lemma_chunks_kept(b, c, next, start, end);
            assert forall|i: int|
                0 <= i < cs.len() && (#[trigger] cs[i]).id == wav::fmt_id() && cs[i].size
                    >= 16 implies wav::byte_rate(b, cs[i]) == wav::byte_rate(c, cs[i]) by {
                if i > 0 {
                    assert(cs[i] == rest[i - 1]);
                } else {
                    assert(cs[i].start + 12 <= next < start);
                }
            }
        }
    }
}

/// Gain leaves the header alone: whatever it does to the samples, the file
/// declares the same duration and the same number of audio bytes as before.
pub proof fn gain_keeps_the_header(
    before: Seq<u8>,
    after: Seq<u8>,
    gain: Single,
)
    requires
        samples_scaled(before, after, gain),
    ensures
        wav::duration_ms(after) == wav::duration_ms(before),
        wav::data_bytes(after) == wav::data_bytes(before),
{
    if let Some((start, count)) = sample_area(before) {
        let (s, end) = data_body(before, 12)->0;
        lemma_data_body_bounds(before, 12);
        assert(start + 2 * count <= end);
        assert forall|i: int| 0 <= i < before.len() && !(start <= i < end) implies before[i]
            == after[i] by {}
        lemma_chunks_kept(before, after, 12, start, end);
        assert(wav::quad(after, 0) == wav::quad(before, 0));
        assert(wav::quad(after, 8) == wav::quad(before, 8));
        let cs = wav::chunks(before, 12);
        wav::lemma_last_named_is_one(cs, wav::fmt_id());
        if !wav::any_short_fmt(cs) {
            if let Some(f) = wav::last_named(cs, wav::fmt_id()) {
                let i = choose|i: int| 0 <= i < cs.len() && #[trigger] cs[i] == f;
                assert(!wav::short_fmt(cs[i]));
                assert(wav::byte_rate(before, f) == wav::byte_rate(after, f));
            }
        }
    }
}

// ---- the piper backend ---------------------------------------------------

/// What can go wrong in a synthesis backend.
#[derive(Debug, PartialEq, Eq)]
pub enum SynthError {
    /// The configured binary was not found on `$PATH`.
    BackendMissing(String),
    /// The backend ran but reported failure.
    BackendFailed {
        /// Exit status, or -1 where a signal ended the process.
        status: i32,
        /// The first 256 bytes of what the backend wrote to standard error.
        stderr: String,
    },
    /// Starting the backend, or reading or writing a file, failed.
    Io {
        /// The file or directory concerned.
        path: String,
        /// Why it failed.
        source: String,
    },
}

impl SynthError {
    /// The error in words.
    pub open spec fn words(self) -> Seq<char> {
        match self {
            SynthError::BackendMissing(bin) => "backend binary not found: "@ + bin@,
            SynthError::BackendFailed { status, stderr } => "backend exited with status "@
                + text::signed_text(status as int) + ": "@ + stderr@,
            SynthError::Io { path, source } => "i/o failure on "@ + path@ + ": "@ + source@,
        }
    }

    /// The error in words.
    pub fn message(&self) -> (r: String)
        ensures
            r@ == self.words(),
    {
        match self {
            SynthError::BackendMissing(bin) => text::joined2(
                "backend binary not found: ",
                bin.as_str(),
            ),
            SynthError::BackendFailed { status, stderr } => text::joined4(
                "backend exited with status ",
                text::signed_decimal(*status as i64).as_str(),
                ": ",
                stderr.as_str(),
            ),
            SynthError::Io { path, source } => text::joined4(
                "i/o failure on ",
                path.as_str(),
                ": ",
                source.as_str(),
            ),
        }
    }
}

/// A synthesis backend: renders `text` for `voice` into a WAV file at
/// `out_path`.
pub trait Synth {
    fn render(&self, voice: &str, text: &str, out_path: &str) -> Result<(), SynthError>;
}

/// The `piper` command line tool as a backend.
#[derive(Debug, Clone)]
pub struct PiperSubprocess {
    /// The `piper` binary, found through `$PATH` unless it is a path.
    pub bin: String,
    /// Directory of the `<voice>.onnx` models.
    pub models_root: String,
    /// Speaking rate and gain.
    pub voice_config: VoiceConfig,
}

/// A [`SynthError`] with its texts as sequences of characters.
pub enum SynthFault {
    BackendMissing(Seq<char>),
    BackendFailed { status: i32, stderr: Seq<char> },
    Io { path: Seq<char>, source: Seq<char> },
}

impl SynthError {
    /// The error with its texts as sequences of characters.
    pub open spec fn view(self) -> SynthFault {
        match self {
            SynthError::BackendMissing(bin) => SynthFault::BackendMissing(bin@),
            SynthError::BackendFailed { status, stderr } => SynthFault::BackendFailed {
                status,
                stderr: stderr@,
            },
            SynthError::Io { path, source } => SynthFault::Io { path: path@, source: source@ },
        }
    }
}

/// What a run of the backend comes to.
pub enum Judged {
    /// It failed.
    Failed(SynthFault),
    /// The file is ready.
    Ready,
    /// The file is there, and this gain is still to be applied.
    Scale(Single),
}

/// What a run of the backend comes to.
pub open spec fn judged(bin: Seq<char>, settings: VoiceConfig, run: PiperRun) -> Judged {
    match run {
        PiperRun::NotFound => Judged::Failed(SynthFault::BackendMissing(bin)),
        PiperRun::SpawnFailed(why) | PiperRun::WriteFailed(why) | PiperRun::WaitFailed(why) =>
            Judged::Failed(SynthFault::Io { path: bin, source: why@ }),
        PiperRun::Exited { success, code, stderr } => if !success {
            Judged::Failed(
                SynthFault::BackendFailed {
                    status: match code {
                        Some(c) => c,
                        None => -1i32,
                    },
                    stderr: text::first_bytes(stderr@, 256),
                },
            )
        } else if settings.gain_unity() {
            Judged::Ready
        } else {
            Judged::Scale(settings.gain_in_effect())
        },
    }
}

/// How one run of the backend went.
pub enum PiperRun {
    /// The process could not be started because the binary does not exist.
    NotFound,
    /// The process could not be started for another reason.
    SpawnFailed(String),
    /// The text could not be written to its standard input.
    WriteFailed(String),
    /// Waiting for the process failed.
    WaitFailed(String),
    /// The process ended.
    Exited {
        /// Whether it reported success.
        success: bool,
        /// Its exit status, unless a signal ended it.
        code: Option<i32>,
        /// What it wrote to standard error.
        stderr: String,
    },
}

/// Names the directory of the models.
pub const ENV_VOICE_DIR: &'static str = "WM_TTS_VOICE_DIR";

/// Where the models are kept under the home directory.
pub const MODELS_DIR: &'static str = ".local/share/wintermute/tts/models";

impl PiperSubprocess {
    /// A backend with the given binary, models and settings.
    pub fn new(bin: String, models_root: String, voice_config: VoiceConfig) -> (r: Self)
        ensures
            r.bin == bin,
            r.models_root == models_root,
            r.voice_config == voice_config,
    {
        PiperSubprocess { bin, models_root, voice_config }
    }

    /// Whether the models are where the environment puts them: in the
    /// directory that is configured, else under the home directory, else under
    /// the working directory.
    pub open spec fn models_at(
        self,
        voice_dir: Option<Seq<char>>,
        home: Option<Seq<char>>,
    ) -> bool {
        self.models_root@ == match (voice_dir, home) {
            (Some(dir), _) => dir,
            (None, Some(home)) => paths::joined_path(home, MODELS_DIR@),
            (None, None) => MODELS_DIR@,
        }
    }

    /// `piper` from `$PATH` with the default settings.
    pub fn from_env<F: Fn(&str) -> Option<String>>(var: &F) -> (r: Self)
        requires
            forall|k: &str| #[trigger] call_requires(*var, (k,)),
        ensures
            r.bin@ == "piper"@,
            exists|voice_dir: Option<Seq<char>>, home: Option<Seq<char>>|
                {
                    &&& vars::may_read(*var, ENV_VOICE_DIR@, voice_dir)
                    &&& vars::may_read(*var, "HOME"@, home)
                    &&& #[trigger] r.models_at(voice_dir, home)
                },
            r.voice_config.speaking_rate.bits == 0x3f59_999au32,
            r.voice_config.gain.bits == 0x3f99_999au32,
    {
        let voice_dir = vars::read(var, ENV_VOICE_DIR);
        let home = vars::read(var, "HOME");
        let ghost found = (json::optional(voice_dir), json::optional(home));
        let models_root = match voice_dir {
            Some(dir) => dir,
            None => match home {
                Some(home) => paths::join_path(home.as_str(), MODELS_DIR),
                None => MODELS_DIR.to_owned(),
            },
        };
        let r = Self::new("piper".to_owned(), models_root, VoiceConfig::default());
        assert(r.models_at(found.0, found.1));
        r
    }

    /// The model file of a voice.
    pub open spec fn model(self, voice: Seq<char>) -> Seq<char> {
        paths::joined_path(self.models_root@, voice + ".onnx"@)
    }

    /// The command line, binary first. The tempo is given only where it is not
    /// neutral.
    pub open spec fn argv(self, voice: Seq<char>, out_path: Seq<char>) -> Seq<Seq<char>> {
        seq![self.bin@, "--model"@, self.model(voice)] + (if self.voice_config.rate_neutral() {
            Seq::empty()
        } else {
            seq!["--length_scale"@, self.voice_config.length_scale_text()]
        }) + seq!["--output_file"@, out_path]
    }

    /// Builds the command line for rendering `voice` into `out_path`.
    pub fn build_argv(&self, voice: &str, out_path: &str) -> (r: Vec<String>)
        ensures
            text::texts(r@) == self.argv(voice@, out_path@),
    {
        let file = text::joined2(voice, ".onnx");
        let model = paths::join_path(self.models_root.as_str(), file.as_str());
        let mut args: Vec<String> = Vec::new();
        assert(text::texts(args@) == Seq::<Seq<char>>::empty());
        text::push_text(&mut args, self.bin.as_str());
        text::push_text(&mut args, "--model");
        text::push_text(&mut args, model.as_str());
        assert(text::texts(args@) == seq![self.bin@, "--model"@, self.model(voice@)]);
        let ghost head = text::texts(args@);
        if !self.voice_config.is_rate_neutral() {
            let scale = self.voice_config.write_length_scale();
            text::push_text(&mut args, "--length_scale");
            text::push_text(&mut args, scale.as_str());
            assert(text::texts(args@) == head + seq!["--length_scale"@, scale@]);
        } else {
            assert(text::texts(args@) == head + Seq::<Seq<char>>::empty());
        }
        let ghost body = text::texts(args@);
        text::push_text(&mut args, "--output_file");
        text::push_text(&mut args, out_path);
        assert(text::texts(args@) == body + seq!["--output_file"@, out_path@]);
        args
    }

    /// Judges a run of the backend. `Ok` holds the gain that is still to be
    /// applied to the rendered file, `None` where it needs none.
    pub fn run_outcome(&self, run: &PiperRun) -> (r: Result<Option<Single>, SynthError>)
        ensures
            match judged(self.bin@, self.voice_config, *run) {
                Judged::Failed(f) => r matches Err(e) && e@ == f,
                Judged::Ready => r == Ok::<Option<Single>, SynthError>(None),
                Judged::Scale(gain) => r == Ok::<Option<Single>, SynthError>(Some(gain)),
            },
    {
        match run {
            PiperRun::NotFound => Err(SynthError::BackendMissing(self.bin.clone())),
            PiperRun::SpawnFailed(why) => Err(
                SynthError::Io { path: self.bin.clone(), source: why.clone() },
            ),
            PiperRun::WriteFailed(why) => Err(
                SynthError::Io { path: self.bin.clone(), source: why.clone() },
            ),
            PiperRun::WaitFailed(why) => Err(
                SynthError::Io { path: self.bin.clone(), source: why.clone() },
            ),
            PiperRun::Exited { success, code, stderr } => if *success {
                if self.voice_config.is_gain_unity() {
                    Ok(None)
                } else {
                    Ok(Some(self.voice_config.effective_gain()))
                }
            } else {
                let status: i32 = match code {
                    Some(c) => *c,
                    None => -1,
                };
                Err(
                    SynthError::BackendFailed {
                        status,
                        stderr: text::take_bytes(stderr.as_str(), 256),
                    },
                )
            },
        }
    }
}

/// Whether applying a gain to a file may give this result: the file is read,
/// and its bytes with every sample scaled are put in its place.
pub open spec fn may_rescale<
    R: Fn(&str) -> Result<Vec<u8>, String>,
    W: Fn(&str, &[u8]) -> Result<(), String>,
>(wav_path: &str, gain: Single, read: R, replace: W, r: Result<(), String>) -> bool {
    exists|file: Result<Vec<u8>, String>| #[trigger]
        call_ensures(read, (wav_path,), file) && match file {
            Err(why) => r == Err::<(), String>(why),
            Ok(before) => exists|after: &[u8]|
                samples_scaled(before@, after@, gain) && #[trigger] call_ensures(
                    replace,
                    (wav_path, after),
                    r,
                ),
        }
}

/// Applies a gain to the WAV file at `wav_path`. `read` reads the file and
/// `replace` puts the bytes in its place.
pub fn apply_gain_to_wav<
    R: Fn(&str) -> Result<Vec<u8>, String>,
    W: Fn(&str, &[u8]) -> Result<(), String>,
>(wav_path: &str, gain: Single, read: R, replace: W) -> (r: Result<(), String>)
    requires
        call_requires(read, (wav_path,)),
        forall|b: &[u8]| #[trigger] call_requires(replace, (wav_path, b)),
    ensures
        may_rescale(wav_path, gain, read, replace, r),
{
    let file = read(wav_path);
    assert(call_ensures(read, (wav_path,), file));
    match file {
        Err(why) => Err(why),
        Ok(before) => {
            let mut bytes = before;
            apply_gain_to_wav_bytes(bytes.as_mut_slice(), gain);
            let after = bytes.as_slice();
            let done = replace(wav_path, after);
            assert(call_ensures(replace, (wav_path, after), done));
            done
        },
    }
}

/// Judges the scaling of the rendered file.
pub fn gain_outcome(out_path: &str, scaled: Result<(), String>) -> (r: Result<(), SynthError>)
    ensures
        match scaled {
            Ok(()) => r == Ok::<(), SynthError>(()),
            Err(why) => r matches Err(SynthError::Io { path, source }) && path@ == out_path@
                && source@ == why@,
        },
{
    match scaled {
        Ok(()) => Ok(()),
        Err(why) => Err(SynthError::Io { path: out_path.to_owned(), source: why }),
    }
}

impl PiperSubprocess {
    /// Renders `text` for `voice` into `out_path`: runs the backend with its
    /// command line and the text on its standard input, then applies the gain
    /// where it is not neutral. `read` and `replace` get at the rendered file.
    pub fn render_through<
        P: Fn(&Vec<String>, &str) -> PiperRun,
        R: Fn(&str) -> Result<Vec<u8>, String>,
        W: Fn(&str, &[u8]) -> Result<(), String>,
    >(
        &self,
        voice: &str,
        text: &str,
        out_path: &str,
        run: P,
        read: R,
        replace: W,
    ) -> (r: Result<(), SynthError>)
        requires
            forall|argv: &Vec<String>| #[trigger] call_requires(run, (argv, text)),
            call_requires(read, (out_path,)),
            forall|b: &[u8]| #[trigger] call_requires(replace, (out_path, b)),
        ensures
            exists|argv: &Vec<String>, ran: PiperRun|
                {
                    &&& text::texts(argv@) == self.argv(voice@, out_path@)
                    &&& #[trigger] call_ensures(run, (argv, text), ran)
                    &&& match judged(self.bin@, self.voice_config, ran) {
                        Judged::Failed(f) => r matches Err(e) && e@ == f,
                        Judged::Ready => r is Ok,
                        Judged::Scale(gain) => exists|done: Result<(), String>| #[trigger]
                            may_rescale(out_path, gain, read, replace, done) && match done {
                                Ok(()) => r is Ok,
                                Err(why) => r matches Err(SynthError::Io { path, source }) && path@
                                    == out_path@ && source@ == why@,
                            },
                    }
                },
    {
        let argv = self.build_argv(voice, out_path);
        let args = &argv;
        let ran = run(args, text);
        assert(call_ensures(run, (args, text), ran));
        let ghost seen = ran;
        match self.run_outcome(&ran) {
            Err(e) => Err(e),
            Ok(None) => Ok(()),
            Ok(Some(gain)) => {
                let done = apply_gain_to_wav(out_path, gain, read, replace);
                assert(may_rescale(out_path, gain, read, replace, done));
                gain_outcome(out_path, done)
            },
        }
    }
}

/// With a speaking rate and a gain of 1, `piper` is left to its own tempo and
/// its file is left as it is.
pub proof fn neutral_settings_change_nothing(
    piper: PiperSubprocess,
    voice: Seq<char>,
    out_path: Seq<char>,
    code: Option<i32>,
    stderr: String,
)
    requires
        piper.voice_config.speaking_rate.bits == 0x3f80_0000,
        piper.voice_config.gain.bits == 0x3f80_0000,
    ensures
        piper.argv(voice, out_path) == seq![
            piper.bin@,
            "--model"@,
            piper.model(voice),
            "--output_file"@,
            out_path,
        ],
        judged(
            piper.bin@,
            piper.voice_config,
            (PiperRun::Exited { success: true, code, stderr }),
        ) is Ready,
{
    let settings = piper.voice_config;
    single::lemma_one_is_neutral(
        settings.speaking_rate,
        Single { bits: SPEAKING_RATE_MIN },
        Single { bits: SPEAKING_RATE_MAX },
    );
    single::lemma_one_is_neutral(
        settings.gain,
        Single { bits: GAIN_MIN },
        Single { bits: GAIN_MAX },
    );
    assert(piper.argv(voice, out_path) =~= seq![
        piper.bin@,
        "--model"@,
        piper.model(voice),
        "--output_file"@,
        out_path,
    ]);
}

/// Slower speech is stretched more: of two speaking rates that are numbers, the
/// lower one never gives the smaller factor. The factor is positive, also for
/// rates that are not.
pub proof fn slower_rate_gives_no_smaller_scale(a: VoiceConfig, b: VoiceConfig)
    requires
        !a.speaking_rate.nan(),
        !b.speaking_rate.nan(),
        a.speaking_rate.value() <= b.speaking_rate.value(),
    ensures
        a.length_scale() >= b.length_scale(),
        b.length_scale() > 0,
{
    let min = Single { bits: SPEAKING_RATE_MIN };
    let max = Single { bits: SPEAKING_RATE_MAX };
    single::lemma_clamped_order(a.speaking_rate, b.speaking_rate, min, max);
    let low = a.rate_in_effect().value() as nat;
    let high = b.rate_in_effect().value() as nat;
    single::lemma_quotient_order(power2::pow2(298), low, high);
    single::lemma_units_of_bits(max);
    power2::lemma_pow2_strictly_increases(277, 298);
    single::lemma_quotient_positive(power2::pow2(298), high);
}

} // verus!
