//! Settings: what the environment and the files say, and what counts where they
//! say nothing.

use crate::bus;
use crate::bus::turn;
use crate::bus::turn::{TurnId, TurnSeq};
use crate::clock;
use crate::cloud::CloudBackend;
use crate::config;
use crate::config::{CachePhrases, TtsConfig, TtsError, TtsFields};
use crate::daemon::player;
use crate::daemon::DaemonState;
use crate::laws::clouds;
use crate::laws::texts;
use crate::laws::voices;
use crate::synth::VoiceConfig;
use crate::text;
use crate::vars;
use vstd::prelude::*;

verus! {

/// The voice and the root of the cache come from the environment; without them
/// the voice is the default one, and the cache lies in the user's cache
/// directory. The cloud service is asked only where that is switched on.
pub proof fn configuration_comes_from_the_environment<F: Fn(&str) -> Option<String>>(
    var: F,
    voice: Option<Seq<char>>,
    dir: Option<Seq<char>>,
    home: Option<Seq<char>>,
    on: Option<Seq<char>>,
    r: TtsConfig,
)
    requires
        call_ensures(TtsConfig::from_env::<F>, (&var,), r),
        voices::names(var, "WM_TTS_VOICE"@, voice),
        voices::names(var, "WM_TTS_CACHE_DIR"@, dir),
        voices::names(var, "HOME"@, home),
        voices::names(var, "WM_CLOUD_TTS_QUALITY"@, on),
    ensures
        clouds::given(voice) ==> r.voice@ == voice->0,
        !clouds::given(voice) ==> r.voice@ == "en_US-lessac-medium"@,
        clouds::given(dir) ==> r.cache_root@ == dir->0,
        !clouds::given(dir) && clouds::given(home) && home->0.last() != '/' ==> r.cache_root@
            == home->0 + "/"@ + ".cache/wintermute/tts"@,
        !clouds::given(dir) && !clouds::given(home) ==> r.cache_root@ == ".cache/wintermute/tts"@,
        on is None ==> !r.cloud_quality,
        on is Some ==> r.cloud_quality == crate::cloud::truthy(on->0),
        r.voice_settings.speaking_rate.bits == 0x3f59_999a,
        r.voice_settings.gain.bits == 0x3f99_999a,
{
    let v = choose|v: config::ConfigVars| #[trigger] config::may_have(var, v) && r.comes_from(v);
    assert(v.voice == voice && v.cache_dir == dir && v.home == home && v.cloud == on);
    clouds::lemma_given(voice);
    clouds::lemma_given(dir);
    clouds::lemma_given(home);
    if clouds::given(home) && home->0.last() != '/' {
        let part = ".cache/wintermute/tts"@;
        reveal_strlit(".cache/wintermute/tts");
        if seq!['/'].is_prefix_of(part) {
            assert(part.subrange(0, 1)[0] == part[0]);
        }
        if home->0.len() == 0 {
            assert(text::all_white(home->0));
        }
        texts::parts_are_joined_with_one_slash(home->0, part);
    }
}

/// What a configuration file says counts, and what it leaves out has its
/// default; a configuration with nothing in it is the default one.
pub proof fn file_overrides_the_defaults(
    fields: TtsFields,
    r: TtsConfig,
    default: TtsConfig,
    settings: VoiceConfig,
)
    requires
        call_ensures(TtsConfig::with_defaults, (fields,), r),
        call_ensures(TtsConfig::default, (), default),
        call_ensures(VoiceConfig::default, (), settings),
    ensures
        fields.voice is Some ==> r.voice@ == fields.voice->0@,
        fields.voice is None ==> r.voice@ == "en_US-lessac-medium"@,
        fields.cache_root is Some ==> r.cache_root@ == fields.cache_root->0@,
        fields.cache_root is None ==> r.cache_root@ == ".cache/wintermute/tts"@,
        fields.cloud_quality is Some ==> r.cloud_quality == fields.cloud_quality->0,
        fields.cloud_quality is None ==> !r.cloud_quality,
        fields.speaking_rate is Some ==> r.voice_settings.speaking_rate
            == fields.speaking_rate->0,
        fields.speaking_rate is None ==> r.voice_settings.speaking_rate.bits == 0x3f59_999a,
        fields.gain is Some ==> r.voice_settings.gain == fields.gain->0,
        fields.gain is None ==> r.voice_settings.gain.bits == 0x3f99_999a,
        default.voice@ == "en_US-lessac-medium"@,
        default.cache_root@ == ".cache/wintermute/tts"@,
        !default.cloud_quality,
        default.voice_settings.speaking_rate.bits == settings.speaking_rate.bits,
        default.voice_settings.gain.bits == settings.gain.bits,
        settings.speaking_rate.bits == 0x3f59_999a,
        settings.gain.bits == 0x3f99_999a,
{
}

/// The file of the phrases is the one that is given, or else the one that the
/// environment names, or else the one of the system.
pub proof fn given_file_comes_first<F: Fn(&str) -> Option<String>>(
    given: Option<String>,
    var: F,
    value: Option<Seq<char>>,
    r: String,
)
    requires
        call_ensures(config::cache_config_path::<F>, (given, &var), r),
        voices::names(var, "WM_TTS_CACHE_CONFIG"@, value),
    ensures
        given is Some ==> r@ == given->0@,
        given is None && clouds::given(value) ==> r@ == value->0,
        given is None && !clouds::given(value) ==> r@ == "/etc/wintermute/tts-cache.yaml"@,
{
    clouds::lemma_given(value);
}

/// A list of phrases is accepted as it is if it is not empty and has none twice.
/// Otherwise the first phrase that has occurred before is told.
pub proof fn phrases_are_accepted_if_distinct(
    parsed: CachePhrases,
    r: Result<CachePhrases, TtsError>,
)
    requires
        call_ensures(config::check_phrases, (parsed,), r),
    ensures
        r matches Ok(kept) ==> kept == parsed,
        r is Ok <==> parsed.phrases@.len() > 0 && forall|i: int, j: int|
            0 <= i < j < parsed.phrases@.len() ==> (#[trigger] parsed.phrases@[i])@ != (
            #[trigger] parsed.phrases@[j])@,
        parsed.phrases@.len() == 0 ==> r == Err::<CachePhrases, _>(TtsError::EmptyPhrases),
        r matches Err(e) ==> (parsed.phrases@.len() > 0 ==> (e matches TtsError::DuplicatePhrase(
            phrase,
        ) && exists|i: int, j: int|
            {
                &&& 0 <= i < j < parsed.phrases@.len()
                &&& (#[trigger] parsed.phrases@[i])@ == phrase@
                &&& (#[trigger] parsed.phrases@[j])@ == phrase@
                &&& forall|k: int, l: int|
                    0 <= k < l < j ==> (#[trigger] parsed.phrases@[k])@ != (
                    #[trigger] parsed.phrases@[l])@
            })),
{
    let list = text::texts(parsed.phrases@);
    config::accepted_iff_distinct(parsed, r);
    assert forall|i: int| 0 <= i < list.len() implies #[trigger] list[i] == parsed.phrases@[i]@ by {
    }
    if r is Ok {
        assert forall|i: int, j: int| 0 <= i < j < parsed.phrases@.len() implies (
        #[trigger] parsed.phrases@[i])@ != (#[trigger] parsed.phrases@[j])@ by {
            assert(list[i] != list[j]);
        }
    } else if parsed.phrases@.len() > 0 {
        assert(r matches Err(TtsError::DuplicatePhrase(_)));
        let phrase = r->Err_0->DuplicatePhrase_0;
        let j = choose|j: int| #[trigger] config::first_repeat(list, j) && phrase@ == list[j];
        let i = choose|i: int| 0 <= i < j && #[trigger] list[i] == list[j];
        assert(parsed.phrases@[i]@ == phrase@);
        assert(parsed.phrases@[j]@ == phrase@);
        assert forall|k: int, l: int| 0 <= k < l < j implies (#[trigger] parsed.phrases@[k])@ != (
        #[trigger] parsed.phrases@[l])@ by {
            assert(!config::repeats(list, l));
            assert(list[k] != list[l]);
        }
    }
}

/// A list that cannot be read names its file, and one that cannot be parsed its
/// fault.
pub proof fn unreadable_phrases_are_told<
    R: Fn(&str) -> Result<String, String>,
    P: Fn(&str) -> Result<CachePhrases, String>,
>(path: &str, read: R, parse: P, r: Result<CachePhrases, TtsError>)
    requires
        call_ensures(config::load_cache_yaml::<R, P>, (path, read, parse), r),
        forall|blob: Result<String, String>| #[trigger]
            call_ensures(read, (path,), blob) ==> blob is Err,
    ensures
        r matches Err(TtsError::Io { path: p, source }) && p@ == path@ && exists|
            blob: Result<String, String>,
        |
            #[trigger] call_ensures(read, (path,), blob) && blob->Err_0@ == source@,
{
}

/// How a failure with the phrases is told.
pub proof fn phrase_errors_in_words(e: TtsError, r: String)
    requires
        call_ensures(TtsError::message, (&e,), r),
    ensures
        match e {
            TtsError::Yaml(why) => r@ == "yaml parse failure: "@ + why@,
            TtsError::Io { path, source } => r@ == "io failure on "@ + path@ + ": "@ + source@,
            TtsError::EmptyPhrases => r@ == "cache phrase list is empty"@,
            TtsError::DuplicatePhrase(phrase) => r@ == "duplicate phrase: "@
                + text::debug_quoted(phrase@),
        },
{
}

/// A daemon starts with the configured voice and cache, with the player and the
/// sink that the environment names, and with nothing to cancel.
pub proof fn daemon_starts_as_configured<F: Fn(&str) -> Option<String>>(
    cfg: TtsConfig,
    phrases: Vec<String>,
    cloud_active: bool,
    var: F,
    first: Option<Seq<char>>,
    second: Option<Seq<char>>,
    node: Option<Seq<char>>,
    dir: Option<Seq<char>>,
    home: Option<Seq<char>>,
    r: DaemonState,
)
    requires
        call_ensures(DaemonState::with_cloud::<F>, (&cfg, phrases, cloud_active, &var), r),
        voices::names(var, "WM_PW_CAT_BIN"@, first),
        voices::names(var, "WM_TTS_PLAYER"@, second),
        voices::names(var, "WM_SINK_NODE"@, node),
        voices::names(var, "WM_TTS_VOICE_DIR"@, dir),
        voices::names(var, "HOME"@, home),
    ensures
        dir is Some ==> r.synth.models_root@ == dir->0,
        dir is None && home is None ==> r.synth.models_root@
            == ".local/share/wintermute/tts/models"@,
        r.active.voice@ == cfg.voice@,
        r.active.cache.voice@ == cfg.voice@,
        r.active.cache.root@ == cfg.cache_root@,
        r.cache_root@ == cfg.cache_root@,
        r.cache_phrases == phrases,
        r.cloud_active == cloud_active,
        !r.slot.armed && !r.slot.playing && r.slot.duration_ms is None,
        first is Some ==> r.player_bin@ == first->0,
        first is None && second is Some ==> r.player_bin@ == second->0,
        first is None && second is None ==> r.player_bin@ == "pw-cat"@,
        node is Some && node->0.len() > 0 ==> r.sink_node is Some && r.sink_node->0@ == node->0,
        node is None || node->0.len() == 0 ==> r.sink_node is None,
        r.synth.bin@ == "piper"@,
        r.synth.voice_config == cfg.voice_settings,
{
    let (a, b) = choose|a: Option<Seq<char>>, b: Option<Seq<char>>|
        vars::may_read(var, player::ENV_PLAYER@, a) && (a is None ==> vars::may_read(
            var,
            player::ENV_PLAYER_ALIAS@,
            b,
        )) && r.player_bin@ == #[trigger] player::player_for(a, b);
    assert(a == first);
    if first is None {
        assert(b == second);
    }
}

/// A daemon uses the cloud service exactly if there is one to be used.
pub proof fn daemon_uses_the_service_it_has<
    T,
    F: Fn(&str) -> Option<String>,
    C: FnOnce() -> Option<T>,
>(
    cfg: TtsConfig,
    phrases: Vec<String>,
    var: F,
    make_client: C,
    r: (DaemonState, CloudBackend<T>),
)
    requires
        call_ensures(DaemonState::new::<T, F, C>, (&cfg, phrases, &var, make_client), r),
    ensures
        r.0.cloud_active <==> r.1 is ElevenLabs,
        r.1 matches CloudBackend::ElevenLabs(synth, client) ==> synth.config.enabled
            && synth.config.api_key is Some && synth.config.voice_id is Some,
        r.0.active.voice@ == cfg.voice@,
        r.0.active.cache.root@ == cfg.cache_root@,
        r.0.cache_phrases == phrases,
        !r.0.slot.armed && !r.0.slot.playing,
{
}

/// The limits on the cloud service.
pub proof fn service_is_not_waited_for_long()
    ensures
        crate::cloud::REQUEST_TIMEOUT_SECS == 10,
        crate::cloud::BODY_KEPT == 256,
        crate::cloud_ws::HANDSHAKE_TIMEOUT_SECS == 5,
        crate::cloud_ws::READ_TIMEOUT_SECS == 15,
        crate::cloud_ws::CHANNEL_DEPTH == 32,
{
}

// ---- turns and times -----------------------------------------------------

/// A text is taken as an id as it is, exactly if it is hexadecimal digits, a
/// dash and hexadecimal digits.
pub proof fn ids_are_taken_as_they_are(a: Seq<char>, b: Seq<char>, s: &str, r: Option<TurnId>)
    requires
        call_ensures(TurnId::parse, (s,), r),
        s@ == a + seq!['-'] + b,
        !a.contains('-'),
    ensures
        r is Some <==> a.len() > 0 && b.len() > 0 && text::all_hex(a) && text::all_hex(b),
        r matches Some(id) ==> id.0@ == s@,
{
    let t = s@;
    assert(t.take(a.len() as int) =~= a);
    assert(t.skip(a.len() as int + 1) =~= b);
    if a.len() > 0 && b.len() > 0 && text::all_hex(a) && text::all_hex(b) {
        assert(turn::dash_at(t, a.len() as int));
    }
    if turn::turn_form(t) {
        let d = choose|d: int| #[trigger] turn::dash_at(t, d);
        if d < a.len() {
            assert(t[d] == a[d]);
            assert(a.contains('-'));
        } else if d > a.len() {
            assert(t.take(d)[a.len() as int] == '-');
        }
    }
}

/// A new id tells the time and the number that it was made with: in front of its
/// dash the milliseconds, in at least thirteen digits, and behind it the number,
/// in at least four. A clock before its epoch counts as zero.
pub proof fn new_id_tells_time_and_number(millis: Option<u128>, seq: u32, r: TurnId)
    requires
        call_ensures(TurnId::mint_at, (millis, seq), r),
    ensures
        exists|a: Seq<char>, b: Seq<char>|
            {
                &&& r.0@ == #[trigger] (a + seq!['-'] + b)
                &&& text::all_hex(a) && a.len() >= 13
                &&& text::all_hex(b) && b.len() >= 4
                &&& text::hex_value(b) == seq
                &&& a.len() > 13 ==> a[0] != '0'
                &&& b.len() > 4 ==> b[0] != '0'
                &&& millis is None ==> text::hex_value(a) == 0
                &&& millis is Some && millis->0 <= u64::MAX ==> text::hex_value(a) == millis->0
                &&& millis is Some && millis->0 > u64::MAX ==> text::hex_value(a) == u64::MAX
            },
{
    crate::laws::messages::minted_id_tells_time_and_number(clock::reading(millis, 0), seq);
}

/// Numbers are given out one after the other, and start over after the last.
pub proof fn numbers_count_up(s: &mut TurnSeq, r: u32, fresh: TurnSeq)
    requires
        call_ensures(TurnSeq::take, (s,), r),
        call_ensures(TurnSeq::new, (), fresh),
    ensures
        fresh.next == 0,
        r == old(s).next,
        old(s).next < u32::MAX ==> final(s).next == old(s).next + 1,
        old(s).next == u32::MAX ==> final(s).next == 0,
{
}

/// A reading of the clock is the milliseconds since the epoch, as many as fit;
/// before the epoch it is the value set for that.
pub proof fn clock_reads_milliseconds(millis: Option<u128>, before_epoch: u64, r: u64)
    requires
        call_ensures(clock::reading_of, (millis, before_epoch), r),
    ensures
        millis is None ==> r == before_epoch,
        millis is Some && millis->0 <= u64::MAX ==> r == millis->0,
        millis is Some && millis->0 > u64::MAX ==> r == u64::MAX,
{
}

/// The time now is a reading of the clock; a clock before its epoch reads as the
/// largest time.
pub proof fn time_now_is_a_reading(r: u64)
    requires
        call_ensures(bus::now_unix_ms, (), r),
    ensures
        exists|millis: Option<u128>|
            {
                &&& #[trigger] clock::may_read(millis)
                &&& millis is None ==> r == u64::MAX
                &&& millis is Some && millis->0 <= u64::MAX ==> r == millis->0
                &&& millis is Some && millis->0 > u64::MAX ==> r == u64::MAX
            },
{
}

} // verus!
