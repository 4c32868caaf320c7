//! Voices: which engine a name stands for, how it is asked to render, and where
//! what it renders is kept.

use crate::cache;
use crate::cache::{CacheError, CacheManager, PhraseOutcome};
use crate::laws::numbers;
use crate::laws::texts;
use crate::single;
use crate::single::Single;
use crate::synth;
use crate::synth::{PiperRun, PiperSubprocess, SynthError};
use crate::text;
use crate::vars;
use crate::voicepack;
use crate::voicepack::{Backend, VoicePackError};
use vstd::prelude::*;

verus! {

// ---- names of voices -----------------------------------------------------

/// A name with a prefix stands for what follows the prefix: a voice of the cloud
/// service, the arguments of `espeak-ng`, or a Piper model; a name with none of
/// the prefixes is a Piper model. Nothing behind a prefix is an error of its own.
pub proof fn prefix_says_which_engine(
    id: Seq<char>,
    a: Seq<char>,
    b: Seq<char>,
    name: &str,
    r: Result<Backend, VoicePackError>,
)
    requires
        call_ensures(voicepack::resolve, (name,), r),
        id.len() > 0,
        !text::white(id[0]),
        !text::white(id.last()),
        a.len() > 0,
        b.len() > 0,
        texts::no_white(a),
        texts::no_white(b),
    ensures
        name@ == "cloud:"@ + id ==> (r matches Ok(Backend::ElevenLabs { voice_id }) && voice_id@
            == id),
        name@ == "piper:"@ + id ==> (r matches Ok(Backend::Piper { model_path }) && model_path@
            == id + ".onnx"@),
        name@ == "espeak:"@ + a + seq![' '] + b ==> (r matches Ok(Backend::EspeakNg { args })
            && text::texts(args@) == seq![a, b]),
        name@ == "cloud:"@ ==> r == Err::<Backend, _>(VoicePackError::EmptyCloudId),
        name@ == "espeak:"@ ==> r == Err::<Backend, _>(VoicePackError::EmptyEspeakArgs),
        text::all_white(name@) ==> r == Err::<Backend, _>(VoicePackError::Empty),
        name@ == id && !"cloud:"@.is_prefix_of(id) && !"espeak:"@.is_prefix_of(id)
            && !"piper:"@.is_prefix_of(id) ==> (r matches Ok(Backend::Piper { model_path })
            && model_path@ == id + ".onnx"@),
{
    reveal_strlit("cloud:");
    reveal_strlit("espeak:");
    reveal_strlit("piper:");
    let cloud = "cloud:"@;
    let espeak = "espeak:"@;
    let piper = "piper:"@;
    text::lemma_trimmed_already(id);
    assert(cloud[0] == 'c' && espeak[0] == 'e' && piper[0] == 'p');
    assert(cloud.last() == ':' && espeak.last() == ':' && piper.last() == ':');
    if name@ == cloud + id {
        lemma_behind(cloud, id);
    }
    if name@ == piper + id {
        lemma_behind(piper, id);
        lemma_first(cloud, name@);
        lemma_first(espeak, name@);
    }
    if name@ == espeak + a + seq![' '] + b {
        let rest = a + seq![' '] + b;
        assert(name@ =~= espeak + rest);
        assert(rest.last() == b.last());
        assert(name@.last() == b.last());
        assert(!text::white(b[b.len() - 1]));
        lemma_behind_untrimmed(espeak, rest);
        lemma_first(cloud, name@);
        texts::words_are_split_at_white_space(a, seq![' '], b);
        texts::words_are_split_at_white_space(b, seq![' '], b);
        assert(seq![a] + seq![b] =~= seq![a, b]);
    }
    if name@ == cloud {
        lemma_behind_untrimmed(cloud, Seq::empty());
        assert(cloud + Seq::<char>::empty() =~= cloud);
        assert(text::trimmed(Seq::<char>::empty()).len() == 0);
    }
    if name@ == espeak {
        lemma_behind_untrimmed(espeak, Seq::empty());
        assert(espeak + Seq::<char>::empty() =~= espeak);
        lemma_first(cloud, espeak);
        assert(text::words(Seq::<char>::empty()).len() == 0);
    }
    if text::all_white(name@) {
        text::surrounding_white_is_trimmed(name@, Seq::empty(), Seq::empty());
        assert(name@ + Seq::<char>::empty() + Seq::<char>::empty() =~= name@);
        assert(text::trimmed(Seq::<char>::empty()).len() == 0);
    }
}

proof fn lemma_first(prefix: Seq<char>, s: Seq<char>)
    requires
        prefix.len() > 0,
        s.len() > 0,
        prefix[0] != s[0],
    ensures
        !prefix.is_prefix_of(s),
{
    if prefix.is_prefix_of(s) {
        assert(s.subrange(0, prefix.len() as int)[0] == s[0]);
    }
}

proof fn lemma_behind(prefix: Seq<char>, id: Seq<char>)
    requires
        prefix.len() > 0,
        !text::white(prefix[0]),
        id.len() > 0,
        !text::white(id.last()),
    ensures
        text::trimmed(prefix + id) == prefix + id,
        prefix.is_prefix_of(prefix + id),
        voicepack::after(prefix + id, prefix) == id,
        (prefix + id)[0] == prefix[0],
{
    assert((prefix + id).last() == id.last());
    text::lemma_trimmed_already(prefix + id);
    assert((prefix + id).subrange(0, prefix.len() as int) =~= prefix);
    assert((prefix + id).skip(prefix.len() as int) =~= id);
}

proof fn lemma_behind_untrimmed(prefix: Seq<char>, rest: Seq<char>)
    requires
        prefix.len() > 0,
        !text::white(prefix[0]),
        !text::white((prefix + rest).last()),
    ensures
        text::trimmed(prefix + rest) == prefix + rest,
        prefix.is_prefix_of(prefix + rest),
        voicepack::after(prefix + rest, prefix) == rest,
        (prefix + rest)[0] == prefix[0],
{
    text::lemma_trimmed_already(prefix + rest);
    assert((prefix + rest).subrange(0, prefix.len() as int) =~= prefix);
    assert((prefix + rest).skip(prefix.len() as int) =~= rest);
}

/// White space behind the prefix does not count for a voice of the cloud service,
/// nor for arguments, but is part of the name of a Piper model. All the words
/// behind their prefix are arguments.
pub proof fn white_space_behind_a_prefix(
    gap: Seq<char>,
    id: Seq<char>,
    rest: &str,
    name: &str,
    words: Vec<String>,
    r: Result<Backend, VoicePackError>,
)
    requires
        call_ensures(voicepack::resolve, (name,), r),
        call_ensures(text::split_words, (rest,), words),
        text::all_white(gap),
        id.len() > 0,
        !text::white(id[0]),
        !text::white(id.last()),
        rest@.len() > 0,
        !text::white(rest@.last()),
    ensures
        name@ == "cloud:"@ + gap + id ==> (r matches Ok(Backend::ElevenLabs { voice_id })
            && voice_id@ == id),
        name@ == "piper:"@ + gap + id ==> (r matches Ok(Backend::Piper { model_path })
            && model_path@ == gap + id + ".onnx"@),
        name@ == "espeak:"@ + rest@ ==> (r matches Ok(Backend::EspeakNg { args }) && text::texts(
            args@,
        ) == text::texts(words@)),
{
    reveal_strlit("cloud:");
    reveal_strlit("espeak:");
    reveal_strlit("piper:");
    let cloud = "cloud:"@;
    let espeak = "espeak:"@;
    let piper = "piper:"@;
    assert(cloud[0] == 'c' && espeak[0] == 'e' && piper[0] == 'p');
    let tail = gap + id;
    assert(tail.last() == id.last());
    text::lemma_trimmed_already(id);
    text::surrounding_white_is_trimmed(gap, id, Seq::empty());
    assert(gap + id + Seq::<char>::empty() =~= tail);
    if name@ == cloud + gap + id {
        assert(name@ =~= cloud + tail);
        lemma_behind(cloud, tail);
    }
    if name@ == piper + gap + id {
        assert(name@ =~= piper + tail);
        lemma_behind(piper, tail);
        lemma_first(cloud, name@);
        lemma_first(espeak, name@);
    }
    if name@ == espeak + rest@ {
        lemma_behind(espeak, rest@);
        lemma_first(cloud, name@);
        lemma_some_word(rest@);
    }
}

proof fn lemma_some_word(s: Seq<char>)
    requires
        s.len() > 0,
        !text::white(s.last()),
    ensures
        text::words(s).len() > 0,
    decreases s.len(),
{
    if text::white(s[0]) {
        assert(s.skip(1).last() == s.last());
        lemma_some_word(s.skip(1));
    }
}

/// How a name that stands for nothing is told.
pub proof fn voice_errors_in_words(e: VoicePackError, r: String)
    requires
        call_ensures(VoicePackError::message, (&e,), r),
    ensures
        e is Empty ==> r@ == "voice-pack name is empty"@,
        e is EmptyCloudId ==> r@ == "cloud voice id is empty after `cloud:` prefix"@,
        e is EmptyEspeakArgs ==> r@ == "espeak args list is empty after `espeak:` prefix"@,
{
}

// ---- rendering -----------------------------------------------------------

/// Piper is called with the model of the voice, which lies under the directory
/// of the models, and with the file to write, in this order; the length scale
/// stands between the two, and only where the rate is not one.
pub proof fn piper_is_called_with_model_and_file(
    piper: PiperSubprocess,
    voice: &str,
    out_path: &str,
    r: Vec<String>,
)
    requires
        call_ensures(PiperSubprocess::build_argv, (&piper, voice, out_path), r),
        piper.models_root@.len() > 0,
        piper.models_root@.last() != '/',
        !seq!['/'].is_prefix_of(voice@),
        voice@.len() > 0,
    ensures
        ({
            let argv = text::texts(r@);
            let rate = piper.voice_config.rate_in_effect();
            let neutral = rate.bits == 0x3f80_0000 || rate.bits == 0x3f7f_ffff;
            let model = piper.models_root@ + "/"@ + voice@ + ".onnx"@;
            &&& neutral ==> argv == seq![
                piper.bin@,
                "--model"@,
                model,
                "--output_file"@,
                out_path@,
            ]
            &&& !neutral && !rate.nan() ==> argv == seq![
                piper.bin@,
                "--model"@,
                model,
                "--length_scale"@,
                single::six_places(piper.voice_config.length_scale()),
                "--output_file"@,
                out_path@,
            ]
            &&& rate.nan() ==> argv == seq![
                piper.bin@,
                "--model"@,
                model,
                "--length_scale"@,
                "NaN"@,
                "--output_file"@,
                out_path@,
            ]
        }),
{
    numbers::settings_are_held_in_range(piper.voice_config);
    let part = voice@ + ".onnx"@;
    if seq!['/'].is_prefix_of(part) {
        assert(part.subrange(0, 1)[0] == part[0]);
        assert(part[0] == voice@[0]);
        assert(voice@.subrange(0, 1) =~= seq!['/']);
    }
    texts::parts_are_joined_with_one_slash(piper.models_root@, part);
    assert(piper.models_root@ + "/"@ + voice@ + ".onnx"@ =~= piper.models_root@ + "/"@ + part);
}

/// A run of Piper that succeeded leaves the gain to be applied, if there is one;
/// every other is an error that tells the program and what went wrong. Of what a
/// failed run wrote no more than 256 bytes are kept; a run that a signal ended
/// has the status -1.
pub proof fn piper_run_is_judged(
    piper: PiperSubprocess,
    run: PiperRun,
    r: Result<Option<Single>, SynthError>,
)
    requires
        call_ensures(PiperSubprocess::run_outcome, (&piper, &run), r),
    ensures
        ({
            let gain = piper.voice_config.gain_in_effect();
            match run {
                PiperRun::Exited { success, code, stderr } => if success {
                    &&& gain.bits == 0x3f80_0000 || gain.bits == 0x3f7f_ffff ==> r == Ok::<
                        Option<Single>,
                        SynthError,
                    >(None)
                    &&& gain.bits != 0x3f80_0000 && gain.bits != 0x3f7f_ffff ==> r == Ok::<
                        Option<Single>,
                        SynthError,
                    >(Some(gain))
                } else {
                    &&& r matches Err(SynthError::BackendFailed { status, stderr: kept })
                    &&& code is Some ==> status == code->0
                    &&& code is None ==> status == -1
                    &&& kept@.is_prefix_of(stderr@)
                    &&& vstd::utf8::encode_utf8(kept@).len() <= 256
                    &&& kept@.len() < stderr@.len() ==> vstd::utf8::encode_utf8(
                        stderr@.take(kept@.len() as int + 1),
                    ).len() > 256
                },
                PiperRun::NotFound => r matches Err(SynthError::BackendMissing(bin)) && bin@
                    == piper.bin@,
                PiperRun::SpawnFailed(why) | PiperRun::WriteFailed(why) | PiperRun::WaitFailed(
                    why,
                ) => r matches Err(SynthError::Io { path, source }) && path@ == piper.bin@
                    && source@ == why@,
            }
        }),
{
    numbers::settings_are_held_in_range(piper.voice_config);
    if let PiperRun::Exited { stderr, .. } = run {
        texts::first_bytes_are_the_longest_beginning(stderr@, 256);
    }
}

/// A gain that could not be applied is told as a failure on the file.
pub proof fn gain_failure_names_the_file(
    out_path: &str,
    scaled: Result<(), String>,
    r: Result<(), SynthError>,
)
    requires
        call_ensures(synth::gain_outcome, (out_path, scaled), r),
    ensures
        r is Ok <==> scaled is Ok,
        scaled is Err ==> (r matches Err(SynthError::Io { path, source }) && path@ == out_path@
            && source@ == scaled->Err_0@),
{
}

/// How a failed rendering is told.
pub proof fn synth_errors_in_words(e: SynthError, r: String)
    requires
        call_ensures(SynthError::message, (&e,), r),
    ensures
        match e {
            SynthError::BackendMissing(bin) => r@ == "backend binary not found: "@ + bin@,
            SynthError::BackendFailed { status, stderr } => {
                &&& status >= 0 ==> r@ == "backend exited with status "@ + text::decimal_text(
                    status as nat,
                ) + ": "@ + stderr@
                &&& status < 0 ==> r@ == "backend exited with status "@ + (seq!['-']
                    + text::decimal_text((-status) as nat)) + ": "@ + stderr@
            },
            SynthError::Io { path, source } => r@ == "i/o failure on "@ + path@ + ": "@ + source@,
        },
{
}

/// The models lie in the directory that is named for them, or else in the user's
/// data directory.
pub proof fn models_lie_where_they_are_named<F: Fn(&str) -> Option<String>>(
    var: F,
    dir: Option<Seq<char>>,
    home: Option<Seq<char>>,
    r: PiperSubprocess,
)
    requires
        call_ensures(PiperSubprocess::from_env::<F>, (&var,), r),
        names(var, "WM_TTS_VOICE_DIR"@, dir),
        names(var, "HOME"@, home),
    ensures
        r.bin@ == "piper"@,
        dir is Some ==> r.models_root@ == dir->0,
        dir is None && home is Some && home->0.len() > 0 && home->0.last() != '/'
            ==> r.models_root@ == home->0 + "/"@ + ".local/share/wintermute/tts/models"@,
        dir is None && home is None ==> r.models_root@ == ".local/share/wintermute/tts/models"@,
        r.voice_config.speaking_rate.bits == 0x3f59_999a,
        r.voice_config.gain.bits == 0x3f99_999a,
{
    let (d, h) = choose|d: Option<Seq<char>>, h: Option<Seq<char>>|
        {
            &&& vars::may_read(var, synth::ENV_VOICE_DIR@, d)
            &&& vars::may_read(var, "HOME"@, h)
            &&& #[trigger] r.models_at(d, h)
        };
    assert(d == dir && h == home);
    if dir is None && home is Some && home->0.len() > 0 && home->0.last() != '/' {
        let part = ".local/share/wintermute/tts/models"@;
        reveal_strlit(".local/share/wintermute/tts/models");
        if seq!['/'].is_prefix_of(part) {
            assert(part.subrange(0, 1)[0] == part[0]);
        }
        texts::parts_are_joined_with_one_slash(home->0, part);
    }
}

/// Whether the environment has a value under a name, whenever it is asked.
pub open spec fn names<F: Fn(&str) -> Option<String>>(
    var: F,
    name: Seq<char>,
    value: Option<Seq<char>>,
) -> bool {
    forall|v: Option<Seq<char>>| #[trigger] vars::may_read(var, name, v) ==> v == value
}

/// What is said of the environment is what it gives: a value stands under a
/// name if every answer to that name is the value.
pub proof fn answers_are_what_is_named<F: Fn(&str) -> Option<String>>(
    var: F,
    name: Seq<char>,
    value: Option<Seq<char>>,
)
    requires
        forall|k: &str, v: Option<String>|
            k@ == name && #[trigger] call_ensures(var, (k,), v) ==> match v {
                Some(t) => value == Some(t@),
                None => value is None,
            },
    ensures
        names(var, name, value),
{
}

/// A blank value counts as none; any other is taken as it is, with its white
/// space.
pub proof fn blank_values_count_as_none(value: Option<String>, r: Option<String>)
    requires
        call_ensures(vars::nonempty_of, (value,), r),
    ensures
        value is None ==> r is None,
        value is Some && text::all_white(value->0@) ==> r is None,
        value is Some && !text::all_white(value->0@) ==> r is Some && r->0@ == value->0@,
{
    if value is Some {
        lemma_blank(value->0@);
    }
}

pub(crate) proof fn lemma_blank(s: Seq<char>)
    ensures
        text::trimmed(s).len() == 0 <==> text::all_white(s),
{
    if text::all_white(s) {
        text::surrounding_white_is_trimmed(s, Seq::empty(), Seq::empty());
        assert(s + Seq::<char>::empty() + Seq::<char>::empty() =~= s);
        assert(text::trimmed(Seq::<char>::empty()).len() == 0);
    } else {
        texts::trimming_takes_white_space_off_the_ends(s);
        let (i, j) = choose|i: int, j: int| #[trigger]
            texts::inside(s, i, j, text::trimmed(s));
        if i == j {
            let x = choose|x: int| 0 <= x < s.len() && !text::white(#[trigger] s[x]);
            if x < i {
                assert(s.subrange(0, i)[x] == s[x]);
            } else {
                assert(s.subrange(j, s.len() as int)[x - j] == s[x]);
            }
        }
    }
}

// ---- the cache -----------------------------------------------------------

/// What phrase a file is kept for: without the white space around it, and in
/// small letters.
pub proof fn phrases_are_kept_trimmed_and_small(
    before: Seq<char>,
    phrase: Seq<char>,
    after: Seq<char>,
    given: &str,
    r: String,
)
    requires
        call_ensures(cache::normalize, (given,), r),
        given@ == before + phrase + after,
        text::all_white(before),
        text::all_white(after),
        phrase.len() > 0,
        !text::white(phrase[0]),
        !text::white(phrase.last()),
    ensures
        vstd::utf8::is_ascii_chars(phrase) ==> r@ == text::ascii_lower(phrase),
        !vstd::utf8::is_ascii_chars(phrase) ==> r@ == text::unicode_lowercase(phrase),
{
    text::surrounding_white_is_trimmed(before, phrase, after);
    text::lemma_trimmed_already(phrase);
}

/// The file of a phrase lies under the root and the voice. Its name are the
/// first eight bytes of the digest of the phrase, two hexadecimal digits each, in
/// order, and `.wav`.
pub proof fn file_lies_under_root_and_voice(
    manager: CacheManager,
    phrase: &str,
    r: String,
    normal: String,
)
    requires
        call_ensures(CacheManager::entry_path, (&manager, phrase), r),
        call_ensures(cache::normalize, (phrase,), normal),
        manager.root@.len() > 0,
        manager.root@.last() != '/',
        manager.voice@.len() > 0,
        manager.voice@.last() != '/',
        manager.voice@[0] != '/',
    ensures
        exists|digits: Seq<char>|
            {
                &&& r@ == manager.root@ + "/"@ + manager.voice@ + "/"@ + digits + ".wav"@
                &&& #[trigger] spells(
                    digits,
                    cache::sha256_digest(vstd::utf8::encode_utf8(normal@)).take(8),
                )
            },
{
    let digest = cache::sha256_digest(vstd::utf8::encode_utf8(normal@));
    let digits = cache::hex_bytes(digest.take(8));
    assert(digest.len() == 32);
    lemma_spells(digest.take(8));
    let root = manager.root@;
    let voice = manager.voice@;
    if seq!['/'].is_prefix_of(voice) {
        assert(voice.subrange(0, 1)[0] == voice[0]);
    }
    texts::parts_are_joined_with_one_slash(root, voice);
    let dir = root + "/"@ + voice;
    assert(manager.dir() == dir);
    assert(dir.last() == voice.last());
    let name = digits + ".wav"@;
    assert(digits.len() == 16);
    if seq!['/'].is_prefix_of(name) {
        assert(name.subrange(0, 1)[0] == name[0]);
        assert(name[0] == digits[0]);
        let first = digest.take(8)[0];
        assert(text::lower_hex_digit(digits[0]));
    }
    texts::parts_are_joined_with_one_slash(dir, name);
    assert(r@ == dir + "/"@ + name);
    assert(dir + "/"@ + name =~= root + "/"@ + voice + "/"@ + digits + ".wav"@);
}

/// Whether a text spells bytes, two small hexadecimal digits for each.
pub open spec fn spells(digits: Seq<char>, b: Seq<u8>) -> bool {
    &&& digits.len() == 2 * b.len()
    &&& forall|i: int|
        0 <= i < b.len() ==> {
            &&& text::hex_value(digits.subrange(2 * i, 2 * i + 2)) == #[trigger] b[i]
            &&& text::lower_hex_digit(digits[2 * i])
            &&& text::lower_hex_digit(digits[2 * i + 1])
        }
}

proof fn lemma_spells(b: Seq<u8>)
    ensures
        spells(cache::hex_bytes(b), b),
    decreases b.len(),
{
    let d = cache::hex_bytes(b);
    if b.len() > 0 {
        let front = b.drop_last();
        lemma_spells(front);
        let e = cache::hex_bytes(front);
        let two = text::hex_text(b.last() as nat, 2);
        text::byte_takes_two_digits(b.last() as nat);
        text::hex_text_reads_back(b.last() as nat, 2);
        assert(d == e + two);
        assert forall|i: int| 0 <= i < b.len() implies {
            &&& text::hex_value(d.subrange(2 * i, 2 * i + 2)) == #[trigger] b[i]
            &&& text::lower_hex_digit(d[2 * i])
            &&& text::lower_hex_digit(d[2 * i + 1])
        } by {
            if i < front.len() {
                assert(front[i] == b[i]);
                assert(d.subrange(2 * i, 2 * i + 2) =~= e.subrange(2 * i, 2 * i + 2));
                assert(d[2 * i] == e[2 * i] && d[2 * i + 1] == e[2 * i + 1]);
            } else {
                assert(d.subrange(2 * i, 2 * i + 2) =~= two);
                assert(d[2 * i] == two[0] && d[2 * i + 1] == two[1]);
            }
        }
    }
}

/// How many phrases were there.
pub open spec fn hits_in(outcomes: Seq<PhraseOutcome>) -> nat {
    outcomes.filter(|o: PhraseOutcome| o is Hit).len()
}

/// How many phrases were rendered.
pub open spec fn rendered_in(outcomes: Seq<PhraseOutcome>) -> nat {
    outcomes.filter(|o: PhraseOutcome| o is Rendered).len()
}

/// The report of a pass counts the phrases that were there as hits and those
/// that were rendered as rendered.
pub proof fn report_counts_by_outcome(phrases: Seq<Seq<char>>, outcomes: Seq<PhraseOutcome>)
    ensures
        cache::tally(phrases, outcomes).hits == hits_in(outcomes),
        cache::tally(phrases, outcomes).rendered == rendered_in(outcomes),
    decreases outcomes.len(),
{
    reveal(Seq::filter);
    if outcomes.len() > 0 {
        report_counts_by_outcome(phrases, outcomes.drop_last());
    }
}

/// How a failed pass is told.
pub proof fn cache_errors_in_words(e: CacheError, r: String)
    requires
        call_ensures(CacheError::message, (&e,), r),
    ensures
        match e {
            CacheError::Io { path, source } => r@ == "io failure on "@ + path@ + ": "@ + source@,
            CacheError::Synth(s) => exists|why: Seq<char>|
                r@ == #[trigger] ("synth backend failure: "@ + why) && why == s.words(),
        },
{
    if let CacheError::Synth(s) = e {
        assert(r@ == "synth backend failure: "@ + s.words());
    }
}

} // verus!
