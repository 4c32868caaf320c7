//! Operations on texts, numbers, files and the cache: what a call gives for what
//! it is given.

use crate::base64_text;
use crate::cache;
use crate::cache::{CacheError, CacheManager, RenderReport};
use crate::daemon;
use crate::daemon::player;
use crate::daemon::player::{AudioFacts, PlayOutcome, PlayResult, PlayerRun};
use crate::daemon::stream;
use crate::laws::numbers;
use crate::laws::texts;
use crate::laws::waves;
use crate::pass::{Pass, PassAction, PassEvent, PassPhase};
use crate::paths;
use crate::single::Single;
use crate::synth;
use crate::synth::VoiceConfig;
use crate::text;
use crate::wav;
use crate::wav::WavError;
use vstd::arithmetic::power2;
use vstd::prelude::*;

verus! {

// ---- texts ---------------------------------------------------------------

/// Trimming gives what stands between the white space at both ends.
pub proof fn trim_gives_the_inside(
    before: Seq<char>,
    inner: Seq<char>,
    after: Seq<char>,
    s: &str,
    r: &str,
)
    requires
        call_ensures(text::trim, (s,), r),
        s@ == before + inner + after,
        text::all_white(before),
        text::all_white(after),
        inner.len() > 0 ==> !text::white(inner[0]) && !text::white(inner.last()),
    ensures
        r@ == inner,
{
    text::surrounding_white_is_trimmed(before, inner, after);
    if inner.len() > 0 {
        text::lemma_trimmed_already(inner);
    } else {
        texts::trimming_takes_white_space_off_the_ends(inner);
        assert(text::trimmed(inner) =~= inner);
    }
}

/// Splitting gives the words one by one.
pub proof fn split_gives_the_words(
    word: Seq<char>,
    gap: Seq<char>,
    rest: &str,
    s: &str,
    r: Vec<String>,
    of_rest: Vec<String>,
)
    requires
        call_ensures(text::split_words, (s,), r),
        call_ensures(text::split_words, (rest,), of_rest),
        word.len() > 0,
        texts::no_white(word),
        gap.len() > 0,
        text::all_white(gap),
    ensures
        s@ == word + gap + rest@ ==> text::texts(r@) == seq![word] + text::texts(of_rest@),
        s@ == gap + rest@ ==> text::texts(r@) == text::texts(of_rest@),
        s@ == word ==> text::texts(r@) == seq![word],
        s@.len() == 0 ==> r@.len() == 0,
{
    texts::words_are_split_at_white_space(word, gap, rest@);
    if s@.len() == 0 {
        assert(s@ =~= Seq::<char>::empty());
        assert(text::texts(r@).len() == r@.len());
    }
}

/// Prefixes and suffixes, and what follows a prefix.
pub proof fn prefixes_and_suffixes(
    head: Seq<char>,
    tail: Seq<char>,
    s: &str,
    p: &str,
    q: &str,
    starts: bool,
    ends: bool,
    rest: Option<&str>,
)
    requires
        call_ensures(text::starts_with, (s, p), starts),
        call_ensures(text::ends_with, (s, q), ends),
        call_ensures(text::strip_prefix, (s, p), rest),
    ensures
        s@ == p@ + tail ==> starts && rest is Some && rest->0@ == tail,
        s@ == head + q@ ==> ends,
        starts ==> p@.len() <= s@.len() && s@.take(p@.len() as int) == p@,
        ends ==> q@.len() <= s@.len() && s@.skip(s@.len() - q@.len()) == q@,
        rest is Some <==> starts,
{
    if s@ == p@ + tail {
        assert(s@.subrange(0, p@.len() as int) =~= p@);
        assert(s@.skip(p@.len() as int) =~= tail);
    }
    if s@ == head + q@ {
        assert(s@.subrange(head.len() as int, s@.len() as int) =~= q@);
    }
    if ends {
        assert(s@.skip(s@.len() - q@.len()) =~= s@.subrange(
            s@.len() - q@.len(),
            s@.len() as int,
        ));
    }
}

/// The beginning of a text, in characters and in bytes, and a text without the
/// characters at its end.
pub proof fn beginnings_of_a_text(
    s: &str,
    max: usize,
    c: char,
    chars: String,
    bytes: String,
    bare: &str,
)
    requires
        call_ensures(text::take_chars, (s, max), chars),
        call_ensures(text::take_bytes, (s, max), bytes),
        call_ensures(text::trim_end_char, (s, c), bare),
    ensures
        chars@.is_prefix_of(s@),
        chars@.len() <= max,
        chars@.len() < max ==> chars@ == s@,
        bytes@.is_prefix_of(s@),
        vstd::utf8::encode_utf8(bytes@).len() <= max,
        bytes@.len() < s@.len() ==> vstd::utf8::encode_utf8(
            s@.take(bytes@.len() as int + 1),
        ).len() > max,
        bare@.is_prefix_of(s@),
        forall|i: int| bare@.len() <= i < s@.len() ==> #[trigger] s@[i] == c,
        bare@.len() > 0 ==> bare@.last() != c,
{
    texts::first_characters_are_the_beginning(s@, max as nat);
    texts::first_bytes_are_the_longest_beginning(s@, max as nat);
    texts::trailing_characters_are_taken_off(s@, c);
}

/// Small letters for capital ones.
pub proof fn small_letters(s: &str, low: String, i: int)
    requires
        call_ensures(text::to_ascii_lower, (s,), low),
        0 <= i < s@.len(),
    ensures
        low@.len() == s@.len(),
        texts::capital(s@[i]) ==> low@[i] as u32 == s@[i] as u32 + 32,
        !texts::capital(s@[i]) ==> low@[i] == s@[i],
{
    texts::capitals_become_small_letters(s@, i);
}

/// Numbers written out read back.
pub proof fn written_numbers_read_back(
    n: u64,
    m: i64,
    width: usize,
    plain: String,
    signed: String,
    hex: String,
    padded: String,
)
    requires
        call_ensures(text::decimal, (n,), plain),
        call_ensures(text::signed_decimal, (m,), signed),
        call_ensures(text::hex, (n, width), hex),
        call_ensures(text::padded_decimal, (n, width), padded),
    ensures
        texts::decimal_value(plain@) == n,
        texts::all_decimal(plain@),
        n > 0 ==> plain@[0] != '0',
        m >= 0 ==> texts::decimal_value(signed@) == m && texts::all_decimal(signed@),
        m < 0 ==> signed@[0] == '-' && texts::decimal_value(signed@.skip(1)) == -m
            && texts::all_decimal(signed@.skip(1)),
        text::hex_value(hex@) == n,
        text::all_hex(hex@),
        hex@.len() >= width,
        texts::decimal_value(padded@) == n,
        texts::all_decimal(padded@),
        padded@.len() >= width,
{
    texts::decimal_text_reads_back(n as nat);
    texts::padded_text_reads_back(n as nat, width as nat);
    texts::hex_text_is_no_longer_than_needed(n as nat, width as nat);
    text::hex_text_reads_back(n as nat, width as nat);
    if m < 0 {
        texts::decimal_text_reads_back((-m) as nat);
        assert(signed@.skip(1) =~= text::decimal_text((-m) as nat));
    } else {
        texts::decimal_text_reads_back(m as nat);
    }
}

/// Texts put together, compared, and taken apart.
pub proof fn texts_put_together(
    a: &str,
    b: &str,
    c: &str,
    d: &str,
    two: String,
    three: String,
    four: String,
    same: bool,
)
    requires
        call_ensures(text::joined2, (a, b), two),
        call_ensures(text::joined3, (a, b, c), three),
        call_ensures(text::joined4, (a, b, c, d), four),
        call_ensures(text::same_text, (a, b), same),
    ensures
        two@ == a@ + b@,
        three@ == a@ + b@ + c@,
        four@ == a@ + b@ + c@ + d@,
        same <==> a@ == b@,
{
}

/// Which of two texts comes first.
pub proof fn order_of_two_texts(
    common: Seq<char>,
    x: char,
    after_x: Seq<char>,
    y: char,
    after_y: Seq<char>,
    a: &str,
    b: &str,
    r: bool,
)
    requires
        call_ensures(text::is_earlier, (a, b), r),
        x != y,
    ensures
        a@ == common + seq![x] + after_x && b@ == common + seq![y] + after_y ==> (r <==> (
        x as u32) < (y as u32)),
        a@ == common && b@ == common + seq![y] + after_y ==> r,
        a@ == common + seq![x] + after_x && b@ == common ==> !r,
        a@ == b@ ==> !r,
{
    texts::first_difference_decides(common, x, after_x, y, after_y);
    text::lemma_earlier_irreflexive(a@);
}

/// Paths joined, and which are those of mp3 files.
pub proof fn paths_joined(
    base: &str,
    part: &str,
    joined: String,
    stem: Seq<char>,
    ext: Seq<char>,
    p: &str,
    mp3: bool,
)
    requires
        call_ensures(paths::join_path, (base, part), joined),
        call_ensures(paths::is_mp3_path, (p,), mp3),
        stem.len() > 0,
        texts::free_of(stem, '/'),
        ext.len() > 0,
        texts::free_of(ext, '/'),
        texts::free_of(ext, '.'),
    ensures
        part@.len() > 0 && part@[0] == '/' ==> joined@ == part@,
        base@.len() > 0 && base@.last() != '/' && (part@.len() == 0 || part@[0] != '/')
            ==> joined@ == base@ + "/"@ + part@,
        base@.len() > 0 && base@.last() == '/' && (part@.len() == 0 || part@[0] != '/')
            ==> joined@ == base@ + part@,
        p@ == stem + seq!['.'] + ext ==> (mp3 <==> {
            &&& ext.len() == 3
            &&& ext[0] == 'm' || ext[0] == 'M'
            &&& ext[1] == 'p' || ext[1] == 'P'
            &&& ext[2] == '3'
        }),
        texts::free_of(p@, '.') && texts::free_of(p@, '/') ==> !mp3,
{
    reveal_strlit("/");
    assert("/"@ =~= seq!['/']);
    texts::extension_stands_behind_the_last_dot(Seq::empty(), stem, ext);
    assert(Seq::<char>::empty() + stem + seq!['.'] + ext =~= stem + seq!['.'] + ext);
    if texts::free_of(p@, '.') && texts::free_of(p@, '/') {
        if p@.len() > 0 {
            texts::name_without_a_dot_has_no_extension(Seq::empty(), p@);
            assert(Seq::<char>::empty() + p@ =~= p@);
        }
    }
}

// ---- wave files ----------------------------------------------------------

/// The duration and the bytes of the audio of a file agree: the milliseconds are
/// those that the bytes take at the byte rate of the file, as many whole ones as
/// there are.
pub proof fn duration_and_bytes_agree(
    b: &[u8],
    duration: Result<u64, WavError>,
    bytes: Result<u64, WavError>,
)
    requires
        call_ensures(wav::parse_duration_ms_bytes, (b,), duration),
        call_ensures(wav::parse_data_bytes_bytes, (b,), bytes),
    ensures
        duration matches Ok(d) ==> {
            &&& bytes matches Ok(n)
            &&& exists|fmt: wav::Chunk|
                {
                    let rate = #[trigger] wav::byte_rate(b@, fmt);
                    &&& wav::last_named(wav::chunks(b@, 12), waves::fmt_name()) == Some(fmt)
                    &&& rate > 0
                    &&& d * rate <= 1000 * n < (d + 1) * rate
                }
        },
        duration == wav::duration_ms(b@),
        bytes == wav::data_bytes(b@),
{
    if let Ok(d) = duration {
        waves::duration_is_audio_over_byte_rate(b@, d);
    }
    assert(waves::fmt_name() =~= wav::fmt_id());
}

/// A file with a format and audio plays as long as its audio takes, and its
/// bytes are those of its audio, whatever stands before them.
pub proof fn file_is_as_long_as_its_audio(
    before: Seq<u8>,
    format: Seq<u8>,
    rate: nat,
    audio: Seq<u8>,
    filler: u8,
    b: &[u8],
    duration: Result<u64, WavError>,
    bytes: Result<u64, WavError>,
)
    requires
        call_ensures(wav::parse_duration_ms_bytes, (b,), duration),
        call_ensures(wav::parse_data_bytes_bytes, (b,), bytes),
        waves::whole(before),
        wav::data_bytes(before) != Err::<u64, WavError>(WavError::TruncatedFmt),
        16 <= format.len() < 0x1_0000_0000,
        0 < rate < 0x1_0000_0000,
        format.subrange(8, 12) == waves::four_bytes(rate),
        audio.len() < 0x1_0000_0000,
        b@ == before + waves::chunk(waves::fmt_name(), format, filler) + waves::chunk(
            waves::data_name(),
            audio,
            filler,
        ),
        b@.len() <= usize::MAX,
    ensures
        bytes == Ok::<u64, WavError>(audio.len() as u64),
        duration matches Ok(d) && d * rate <= 1000 * audio.len() < (d + 1) * rate,
{
    waves::file_plays_as_long_as_its_audio(before, format, rate, audio, filler);
}

/// What is told of a file on disk is what is told of its bytes; one that cannot
/// be read is told with the reason.
pub proof fn file_on_disk_is_told_by_its_bytes<R: Fn(&str) -> Result<Vec<u8>, String>>(
    path: &str,
    read: R,
    file: Result<Vec<u8>, String>,
    duration: Result<u64, WavError>,
    bytes: Result<u64, WavError>,
)
    requires
        call_ensures(wav::parse_duration_ms::<R>, (path, read), duration),
        call_ensures(wav::parse_data_bytes::<R>, (path, read), bytes),
        forall|f: Result<Vec<u8>, String>| #[trigger]
            call_ensures(read, (path,), f) ==> f == file,
    ensures
        file matches Ok(b) ==> duration == wav::duration_ms(b@) && bytes == wav::data_bytes(b@),
        file matches Err(why) ==> duration == Err::<u64, _>(WavError::Io(why)) && bytes == Err::<
            u64,
            _,
        >(WavError::Io(why)),
{
}

/// How a broken file is told.
pub proof fn wave_errors_in_words(e: WavError, r: String)
    requires
        call_ensures(WavError::message, (&e,), r),
    ensures
        match e {
            WavError::Io(why) => r@ == "io reading wav: "@ + why@,
            WavError::NotRiff => r@ == "not a RIFF/WAVE container"@,
            WavError::MissingFmt => r@ == "fmt chunk missing"@,
            WavError::MissingData => r@ == "data chunk missing"@,
            WavError::TruncatedFmt => r@ == "fmt chunk truncated"@,
            WavError::ZeroByteRate => r@ == "byte_rate is zero"@,
            WavError::SizeOverflow => r@ == "chunk size overflow"@,
        },
{
}

/// A gain is applied to each sample of the audio of a file, and to nothing else.
pub proof fn gain_is_applied_to_each_sample(
    head: Seq<u8>,
    audio: Seq<u8>,
    filler: u8,
    tail: Seq<u8>,
    bytes: &mut [u8],
    gain: Single,
)
    requires
        call_ensures(synth::apply_gain_to_wav_bytes, (bytes, gain), ()),
        old(bytes)@ == head + waves::chunk(waves::data_name(), audio, filler) + tail,
        waves::whole(head),
        wav::last_named(wav::chunks(head, 12), waves::data_name()) is None,
        audio.len() < 0x1_0000_0000,
    ensures
        ({
            let start = head.len() + 8;
            &&& final(bytes)@.len() == old(bytes)@.len()
            &&& forall|i: int|
                0 <= i < old(bytes)@.len() && !(start <= i < start + audio.len() / 2 * 2)
                    ==> final(bytes)@[i] == #[trigger] old(bytes)@[i]
            &&& forall|k: int, s: i16|
                0 <= k < audio.len() / 2 && audio.subrange(2 * k, 2 * k + 2) == waves::two_bytes(s)
                    ==> #[trigger] final(bytes)@.subrange(start + 2 * k, start + 2 * k + 2)
                    == #[trigger] waves::two_bytes(gain.scaled(s))
        }),
{
    waves::gain_multiplies_the_samples(head, audio, filler, tail, final(bytes)@, gain);
}

// ---- numbers -------------------------------------------------------------

/// A sample with a gain, and the settings in effect.
pub proof fn sample_with_a_gain(gain: Single, s: i16, r: i16)
    requires
        call_ensures(Single::scale, (gain, s), r),
        gain.bits < 0x7f80_0000,
    ensures
        s >= 0 ==> numbers::whole_up_to(
            crate::single::rounded(s as nat * gain.value() as nat),
            r as int,
            32767,
        ),
        s < 0 ==> numbers::whole_up_to(
            crate::single::rounded((-s) as nat * gain.value() as nat),
            -r,
            32768,
        ),
        gain.bits == 0x3f80_0000 ==> r == s,
{
    if s >= 0 {
        numbers::gain_gives_the_whole_part_of_the_product(gain, s as nat);
    } else {
        numbers::gain_gives_the_whole_part_of_the_product(gain, (-s) as nat);
        assert((-((-s) as nat as int)) as i16 == s);
    }
    if gain.bits == 0x3f80_0000 {
        gain.one_keeps_every_sample(s);
    }
}

/// The rate and the gain in effect lie in their ranges, and are neutral where
/// they are one.
pub proof fn settings_in_effect(
    c: VoiceConfig,
    rate: Single,
    gain: Single,
    neutral: bool,
    unity: bool,
)
    requires
        call_ensures(VoiceConfig::effective_speaking_rate, (&c,), rate),
        call_ensures(VoiceConfig::effective_gain, (&c,), gain),
        call_ensures(VoiceConfig::is_rate_neutral, (&c,), neutral),
        call_ensures(VoiceConfig::is_gain_unity, (&c,), unity),
    ensures
        neutral <==> rate.bits == 0x3f80_0000 || rate.bits == 0x3f7f_ffff,
        unity <==> gain.bits == 0x3f80_0000 || gain.bits == 0x3f7f_ffff,
        0x3dcc_cccd <= c.speaking_rate.bits <= 0x40a0_0000 ==> rate == c.speaking_rate,
        0x40a0_0000 < c.speaking_rate.bits <= 0x7f80_0000 ==> rate.bits == 0x40a0_0000,
        c.speaking_rate.bits < 0x3dcc_cccd ==> rate.bits == 0x3dcc_cccd,
        0x8000_0000 <= c.speaking_rate.bits <= 0xff80_0000 ==> rate.bits == 0x3dcc_cccd,
        c.gain.bits <= 0x4080_0000 ==> gain == c.gain,
        0x4080_0000 < c.gain.bits <= 0x7f80_0000 ==> gain.bits == 0x4080_0000,
        0x8000_0000 < c.gain.bits <= 0xff80_0000 ==> gain.bits == 0,
{
    numbers::settings_are_held_in_range(c);
    let m = crate::single::magnitude_bits(c.speaking_rate.bits);
    let g = crate::single::magnitude_bits(c.gain.bits);
    crate::single::lemma_magnitude_order(m, 0x3dcc_cccd);
    crate::single::lemma_magnitude_order(0x3dcc_cccd, m);
    crate::single::lemma_magnitude_order(m, 0x40a0_0000);
    crate::single::lemma_magnitude_order(0x40a0_0000, m);
    crate::single::lemma_magnitude_order(0, 0x3dcc_cccd);
    crate::single::lemma_magnitude_order(g, 0x4080_0000);
    crate::single::lemma_magnitude_order(0x4080_0000, g);
    crate::single::lemma_magnitude_order(0, g);
    assert(crate::single::magnitude(0) == 0);
}

/// The scale that is written for the synthesiser is one over the rate: the
/// nearest number to it, in six places.
pub proof fn scale_that_is_written(c: VoiceConfig, scale: Single, r: String)
    requires
        call_ensures(VoiceConfig::piper_length_scale, (&c,), scale),
        call_ensures(VoiceConfig::write_length_scale, (&c,), r),
        !c.speaking_rate.nan(),
    ensures
        exists|n: nat, k: nat|
            {
                &&& scale.value() == n * power2::pow2(k)
                &&& #[trigger] numbers::nearest(
                    power2::pow2(298),
                    (c.rate_in_effect().value() * power2::pow2(k)) as nat,
                    n,
                )
            },
        exists|whole: Seq<char>, places: Seq<char>|
            {
                &&& r@ == #[trigger] (whole + "."@ + places)
                &&& texts::all_decimal(whole)
                &&& texts::all_decimal(places)
                &&& places.len() == 6
                &&& numbers::nearest(
                    (scale.value() * 1_000_000) as nat,
                    power2::pow2(149),
                    texts::decimal_value(whole) * 1_000_000 + texts::decimal_value(places),
                )
            },
{
    numbers::scale_is_one_over_the_rate(c);
    numbers::settings_are_held_in_range(c);
    crate::single::lemma_range_of_bits(
        c.speaking_rate,
        Single { bits: 0x3dcc_cccd },
        Single { bits: 0x40a0_0000 },
    );
    assert(!c.rate_in_effect().nan());
    numbers::six_places_read_back(c.length_scale());
    assert(scale.value() == c.length_scale());
}

/// Order and equality of numbers go by their values; what is no number is neither
/// below nor equal to anything.
pub proof fn numbers_compare_by_value(a: Single, b: Single, below: bool, nan: bool, one: bool)
    requires
        call_ensures(Single::less, (a, b), below),
        call_ensures(Single::is_nan, (a,), nan),
        call_ensures(Single::is_near_one, (a,), one),
    ensures
        a.nan() || b.nan() ==> !below,
        !a.nan() && !b.nan() ==> (below <==> a.value() < b.value()),
        nan <==> 0x7f80_0000 < a.bits < 0x8000_0000 || 0xff80_0000 < a.bits,
        one <==> a.bits == 0x3f80_0000 || a.bits == 0x3f7f_ffff,
{
    numbers::bits_stand_for_values(a.bits);
    numbers::only_one_counts_as_one(a);
}

// ---- playing -------------------------------------------------------------

/// The arguments of the player, and what is told of its run.
pub proof fn player_is_run_and_told(
    bin: &str,
    audio: &str,
    node: Option<&str>,
    data_bytes: u64,
    run: PlayerRun,
    file_args: Vec<String>,
    stream_args: Vec<String>,
    told: PlayResult,
    label: &'static str,
)
    requires
        call_ensures(player::player_args, (bin, audio, node), file_args),
        call_ensures(player::streaming_player_args, (bin, node), stream_args),
        call_ensures(player::file_result, (bin, audio, data_bytes, &run), told),
        call_ensures(PlayOutcome::label, (&told.outcome,), label),
    ensures
        text::texts(file_args@) == player::file_args(
            bin@,
            audio@,
            match node {
                Some(n) => Some(n@),
                None => None,
            },
        ),
        text::texts(stream_args@) == player::stream_args(
            bin@,
            match node {
                Some(n) => Some(n@),
                None => None,
            },
        ),
        told@ == player::file_play(bin@, audio@, data_bytes, run),
        told.error is Some <==> label@ == "error"@,
        told.played_bytes > 0 ==> label@ == "ok"@ && told.played_bytes == data_bytes,
        run is Cancelled <==> label@ == "cancelled"@,
{
    reveal_strlit("ok");
    reveal_strlit("cancelled");
    reveal_strlit("error");
    assert("ok"@.len() == 2 && "cancelled"@.len() == 9 && "error"@.len() == 5);
}

/// What is known of a file to be played.
pub proof fn facts_of_a_file(bytes: &[u8], r: AudioFacts, none: AudioFacts)
    requires
        call_ensures(player::audio_facts, (Some(bytes),), r),
        call_ensures(player::audio_facts, (None::<&[u8]>,), none),
    ensures
        none.duration_ms is None,
        none.data_bytes == 0,
        r.duration_ms is Some <==> wav::duration_ms(bytes@) is Ok,
        r.duration_ms is Some ==> wav::duration_ms(bytes@) == Ok::<u64, WavError>(
            r.duration_ms->0,
        ),
        wav::data_bytes(bytes@) is Ok ==> wav::data_bytes(bytes@) == Ok::<u64, WavError>(
            r.data_bytes,
        ),
        wav::data_bytes(bytes@) is Err ==> r.data_bytes == 0,
{
}

/// What is told of a played stream.
pub proof fn stream_that_was_played(d: u64, cancelled: bool, n: u64, r: PlayResult)
    requires
        call_ensures(stream::stream_result, (d, cancelled, n), r),
    ensures
        r.duration_ms == d,
        r.error is None,
        cancelled ==> r.outcome == PlayOutcome::Cancelled && r.played_bytes == 0,
        !cancelled ==> r.outcome == PlayOutcome::Finished && r.played_bytes == n,
{
    assert(r@.error is None <==> r.error is None);
}

// ---- the cache -----------------------------------------------------------

/// A phrase is in the cache exactly if its file is there, and a hit names that
/// file.
pub proof fn phrase_is_there_with_its_file<F: Fn(&str) -> bool>(
    manager: CacheManager,
    phrase: &str,
    is_file: F,
    path: String,
    there: bool,
    r: bool,
    hit: Option<String>,
)
    requires
        call_ensures(CacheManager::has::<F>, (&manager, phrase, is_file), r),
        call_ensures(daemon::cache_hit_path::<F>, (&manager, phrase, is_file), hit),
        call_ensures(CacheManager::entry_path, (&manager, phrase), path),
        forall|p: &str, b: bool|
            p@ == path@ && #[trigger] call_ensures(is_file, (p,), b) ==> b == there,
    ensures
        r == there,
        hit is Some <==> there,
        hit matches Some(p) ==> p@ == path@,
{
}

/// The failures of a report stand in the order of their phrases, each under its
/// phrase.
pub proof fn failures_stand_in_order(report: RenderReport, i: int, j: int)
    requires
        report.wf(),
        0 <= i < report.failures@.len(),
        0 <= j < report.failures@.len(),
    ensures
        i < j ==> text::earlier(report.failures@[i].0@, report.failures@[j].0@),
        report@.failures.contains_key(report.failures@[i].0@),
        report@.failures[report.failures@[i].0@] == report.failures@[i].1@,
        report@.hits == report.hits,
        report@.rendered == report.rendered,
{
    lemma_pair(report.failures@, i);
}

proof fn lemma_pair(pairs: Seq<(String, String)>, i: int)
    requires
        cache::rising_keys(pairs),
        0 <= i < pairs.len(),
    ensures
        cache::pairs_map(pairs).contains_key(pairs[i].0@),
        cache::pairs_map(pairs)[pairs[i].0@] == pairs[i].1@,
    decreases pairs.len(),
{
    if i < pairs.len() - 1 {
        let front = pairs.drop_last();
        assert(front[i] == pairs[i]);
        assert forall|a: int, b: int| 0 <= a < b < front.len() implies text::earlier(
            (#[trigger] front[a]).0@,
            (#[trigger] front[b]).0@,
        ) by {
            assert(front[a] == pairs[a] && front[b] == pairs[b]);
        }
        lemma_pair(front, i);
        assert(text::earlier(pairs[i].0@, pairs[pairs.len() - 1].0@));
        text::lemma_earlier_irreflexive(pairs[i].0@);
    }
}

/// A failure is recorded under its phrase, in place of an earlier one, and
/// changes no count.
pub proof fn failure_is_recorded(report: &mut RenderReport, phrase: &str, why: String)
    requires
        old(report).wf(),
        call_ensures(RenderReport::record_failure, (report, phrase, why), ()),
    ensures
        final(report)@.hits == old(report)@.hits,
        final(report)@.rendered == old(report)@.rendered,
        final(report)@.failures.contains_key(phrase@),
        final(report)@.failures[phrase@] == why@,
        forall|k: Seq<char>|
            k != phrase@
                ==> (#[trigger] final(report)@.failures.contains_key(k) <==> old(report)@.failures.contains_key(k)),
{
}

/// A pass over the phrases begins with the directory of the voice, and then
/// takes phrase after phrase: what is there counts as a hit, what is not is
/// rendered in the voice, from the phrase, into its file, and counts as rendered
/// or is recorded as failed.
pub proof fn pass_takes_phrase_after_phrase<'a>(p: &mut Pass<'a>, e: PassEvent, r: PassAction)
    requires
        old(p).wf(),
        call_ensures(Pass::<'a>::step, (p, e), r),
    ensures
        final(p).wf(),
        *final(p).cache == *old(p).cache,
        final(p).phrases@ == old(p).phrases@,
        r matches PassAction::Render { voice, text, path } ==> {
            &&& old(p).phase == PassPhase::Looking
            &&& e == PassEvent::Found(false)
            &&& voice@ == old(p).cache.voice@
            &&& text@ == old(p).phrases@[old(p).at as int]@
            &&& path@ == old(p).cache.entry(old(p).phrases@[old(p).at as int]@)
        },
        r matches PassAction::LookUp(path) ==> final(p).at < final(p).phrases@.len() && path@
            == old(p).cache.entry(final(p).phrases@[final(p).at as int]@),
        r is Finish ==> final(p).at == final(p).phrases@.len(),
        old(p).phase == PassPhase::MakingDir && e is DirMade ==> final(p).at == old(p).at
            && final(p).report@ == old(p).report@ && (r is LookUp || r is Finish),
        old(p).phase == PassPhase::Looking && e == PassEvent::Found(true) ==> r is LookUp || r
            is Finish,
        old(p).phase == PassPhase::Looking && e == PassEvent::Found(false) ==> r is Render
            && final(p).phase == PassPhase::Rendering && final(p).at == old(p).at
                && final(p).report@ == old(p).report@,
        old(p).phase == PassPhase::Rendering && (e is Rendered || e is RenderFailed) ==> r
            is LookUp || r is Finish,
        r is LookUp ==> final(p).phase == PassPhase::Looking,
        old(p).phase == PassPhase::Done ==> r is Stop,
        old(p).phase == PassPhase::Looking && e == PassEvent::Found(true)
            ==> final(p).report@.hits == old(p).report@.hits + 1 && final(p).report@.rendered
            == old(p).report@.rendered && final(p).report@.failures == old(p).report@.failures
            && final(p).at
            == old(p).at + 1,
        old(p).phase == PassPhase::Rendering && e is Rendered ==> final(p).report@.rendered
            == old(p).report@.rendered + 1 && final(p).report@.hits == old(p).report@.hits
            && final(p).report@.failures == old(p).report@.failures && final(p).at == old(p).at + 1,
        old(p).phase == PassPhase::Rendering ==> (e matches PassEvent::RenderFailed(why)
            ==> final(p).report@.rendered == old(p).report@.rendered && final(p).report@.hits
            == old(p).report@.hits && final(p).report@.failures == old(p).report@.failures.insert(
            old(p).phrases@[old(p).at as int]@,
            why.words(),
        ) && final(p).at == old(p).at + 1),
        old(p).phase == PassPhase::MakingDir ==> (e matches PassEvent::DirFailed(why) ==> (
        r matches PassAction::Fail(CacheError::Io { path, source }) && path@
            == old(p).cache.dir() && source@ == why@)),
{
    assert forall|i: int| 0 <= i < old(p).phrases@.len() implies #[trigger] old(p).list()[i]
        == old(p).phrases@[i]@ by {}
}

/// Base 64 decodes to what was encoded, and refuses everything else with the
/// words of the decoder.
pub proof fn base64_is_decoded(payload: &str, bytes: Seq<u8>, r: Result<Vec<u8>, String>)
    requires
        call_ensures(base64_text::decode, (payload,), r),
    ensures
        payload@ == base64_text::base64_text(bytes) ==> (r matches Ok(b) && b@ == bytes),
        r matches Ok(b) ==> payload@ == base64_text::base64_text(b@),
        r matches Err(why) ==> why@ == base64_text::base64_fault(payload@),
{
    base64_text::base64_round_trip(bytes);
}

} // verus!
