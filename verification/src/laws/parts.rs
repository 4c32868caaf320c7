//! The smaller operations, and those that call what they are given.

use crate::bus::event::Event;
use crate::bus::request::SpeakRequest;
use crate::bus::turn::{TurnId, TurnSeq};
use crate::cache;
use crate::cache::{CacheError, CacheManager, PhraseOutcome, RenderReport};
use crate::clock;
use crate::cloud;
use crate::cloud::{CloudConfig, CloudError, DisabledCloudSynth, ElevenLabsCloudSynth};
use crate::config;
use crate::config::{CachePhrases, TtsError};
use crate::daemon;
use crate::daemon::player;
use crate::daemon::player::Failure;
use crate::daemon::slot::CancelSlot;
use crate::daemon::speak;
use crate::daemon::speak::{RenderRun, Speak, SpeakAction};
use crate::daemon::stream::{StreamPhase, StreamPlay};
use crate::daemon::DaemonState;
use crate::laws::clouds;
use crate::laws::serving;
use crate::laws::speaking;
use crate::laws::texts;
use crate::laws::voices;
use crate::pass;
use crate::single::Single;
use crate::synth;
use crate::synth::{PiperRun, PiperSubprocess, Synth, SynthError, VoiceConfig};
use crate::text;
use crate::vars;
use crate::wav;
use vstd::prelude::*;

verus! {

// ---- what is made of its parts -------------------------------------------

/// What is made is made of the parts given.
pub proof fn made_of_its_parts(
    root: String,
    voice: String,
    manager: CacheManager,
    bin: String,
    models: String,
    settings: VoiceConfig,
    piper: PiperSubprocess,
    config: CloudConfig,
    service: ElevenLabsCloudSynth,
    bits: u32,
    number: Single,
)
    requires
        call_ensures(CacheManager::new, (root, voice), manager),
        call_ensures(PiperSubprocess::new, (bin, models, settings), piper),
        call_ensures(ElevenLabsCloudSynth::new, (config,), service),
        call_ensures(Single::from_bits, (bits,), number),
    ensures
        manager.root@ == root@,
        manager.voice@ == voice@,
        piper.bin@ == bin@,
        piper.models_root@ == models@,
        piper.voice_config == settings,
        service.config == config,
        number.bits == bits,
{
}

/// A report begins with nothing in it, and counts its failures.
pub proof fn report_begins_empty(a: RenderReport, b: RenderReport, r: RenderReport, n: usize)
    requires
        call_ensures(RenderReport::new, (), a),
        call_ensures(RenderReport::default, (), b),
        r.wf(),
        call_ensures(RenderReport::failure_count, (&r,), n),
    ensures
        a.hits == 0,
        a.rendered == 0,
        a@.failures.dom().is_empty(),
        b.hits == 0,
        b.rendered == 0,
        b@.failures.dom().is_empty(),
        n == r@.failures.dom().len(),
{
    assert(a@.hits == a.hits && a@.rendered == a.rendered);
    assert(b@.hits == b.hits && b@.rendered == b.rendered);
}

/// An event that tells an error is one with that kind, those words and that
/// time.
pub proof fn error_is_made_of_its_words(kind: &str, message: &str, ts: u64, r: Event)
    requires
        call_ensures(Event::error, (kind, message, ts), r),
    ensures
        serving::complaint(r, kind@, message@, ts),
{
}

/// An id reads as the text that it is, and a new one has the next number.
pub proof fn id_reads_as_its_text(id: TurnId, s: &str, seq: &mut TurnSeq, new: TurnId)
    requires
        call_ensures(TurnId::as_str, (&id,), s),
        call_ensures(TurnId::mint, (seq,), new),
    ensures
        s@ == id.0@,
        exists|a: Seq<char>, b: Seq<char>|
            {
                &&& new.0@ == #[trigger] (a + seq!['-'] + b)
                &&& text::all_hex(a)
                &&& text::all_hex(b)
                &&& text::hex_value(b) == old(seq).next
            },
        old(seq).next < u32::MAX ==> final(seq).next == old(seq).next + 1,
        old(seq).next == u32::MAX ==> final(seq).next == 0,
{
    let millis = choose|millis: Option<u128>| #[trigger]
        clock::may_read(millis) && new.0@ == crate::bus::turn::minted(
            clock::reading(millis, 0),
            old(seq).next,
        );
    crate::laws::messages::minted_id_tells_time_and_number(
        clock::reading(millis, 0),
        old(seq).next,
    );
}

/// A stream begins with nothing written, and with the player that it is given.
pub proof fn stream_begins_empty(bin: &str, r: StreamPlay)
    requires
        call_ensures(StreamPlay::new, (bin,), r),
    ensures
        r.player_bin@ == bin@,
        r.phase == StreamPhase::Asking,
        r.frames == 0,
        r.bytes == 0,
        !r.cancelled,
        r.error is None,
{
    assert(r@.error is None <==> r.error is None);
}

/// An utterance begins as it is asked for.
pub proof fn utterance_begins_as_asked(
    req: SpeakRequest,
    voice: &str,
    dir: String,
    path: String,
    cloud_active: bool,
    armed: bool,
    now: u64,
    r: (Speak, SpeakAction),
)
    requires
        call_ensures(Speak::begin, (&req, voice, dir, path, cloud_active, armed, now), r),
    ensures
        r.0.text@ == req.text@,
        r.0.source@ == speaking::source_of(req),
        serving::same_turn(r.0.turn_id, req.turn_id),
        r.0.accepted == now,
        r.0.voice@ == voice@,
        r.0.dir@ == dir@,
        r.0.path@ == path@,
        r.0.cloud_active == cloud_active,
        r.1 is Fire <==> req.cancel_previous && armed,
        !(r.1 is Fire) ==> serving::starts(r.0, r.1),
{
    if req.priority is None {
        assert(speaking::source_of(req) =~= Seq::<char>::empty());
    }
}

/// The same phrase is the same key, whatever its white space and letters.
pub proof fn key_of_a_phrase(s: &str, a: String, b: String)
    requires
        call_ensures(daemon::phrase_key, (s,), a),
        call_ensures(cache::normalize, (s,), b),
    ensures
        a@ == b@,
{
}

/// What a play has drained when it is cancelled.
pub proof fn drained_of_a_play(s: CancelSlot, elapsed_ms: u64, r: u64)
    requires
        call_ensures(CancelSlot::drained_ms, (&s, elapsed_ms), r),
    ensures
        !s.playing ==> r == 0,
        s.playing && s.duration_ms is None ==> r == elapsed_ms,
        s.playing && s.duration_ms is Some && elapsed_ms <= s.duration_ms->0 ==> r == elapsed_ms,
        s.playing && s.duration_ms is Some && elapsed_ms > s.duration_ms->0 ==> r
            == s.duration_ms->0,
{
}

/// How a rendering that failed is told: a failure on a file as `io`, everything
/// else as `render`.
pub proof fn failed_rendering_is_told(run: RenderRun, r: Option<Failure>)
    requires
        call_ensures(speak::render_failure, (&run,), r),
    ensures
        run is Rendered <==> r is None,
        run matches RenderRun::SynthFailed(SynthError::Io { path, source }) ==> r is Some
            && r->0.kind@ == "io"@ && r->0.message@ == "synth io on "@ + path@ + ": "@ + source@,
        run matches RenderRun::SynthFailed(SynthError::BackendMissing(bin)) ==> r is Some
            && r->0.kind@ == "render"@ && r->0.message@ == "backend binary not found: "@ + bin@,
        run matches RenderRun::JoinFailed(why) ==> r is Some && r->0.kind@ == "render"@
            && r->0.message@ == "synth task join failed: "@ + why@,
{
}

/// Without a service nothing is rendered, and every call is refused.
pub proof fn no_service_renders_nothing(
    d: DisabledCloudSynth,
    text: &str,
    r: Result<Vec<u8>, CloudError>,
    active: bool,
)
    requires
        call_ensures(DisabledCloudSynth::render, (&d, text), r),
        call_ensures(DisabledCloudSynth::is_active, (&d,), active),
    ensures
        !active,
        r == Err::<Vec<u8>, _>(CloudError::NotEnabled),
{
}

/// The smaller parts of asking the service.
pub proof fn parts_of_asking_the_service(
    synth: ElevenLabsCloudSynth,
    voice: &str,
    url: String,
    active: bool,
    why: String,
    failed: CloudError,
    s: &str,
    max: usize,
    cut: String,
    bare: &str,
)
    requires
        call_ensures(ElevenLabsCloudSynth::endpoint, (&synth, voice), url),
        call_ensures(ElevenLabsCloudSynth::is_active, (&synth,), active),
        call_ensures(ElevenLabsCloudSynth::not_sent, (why,), failed),
        call_ensures(cloud::truncate, (s, max), cut),
        call_ensures(cloud::trim_trailing_slash, (s,), bare),
    ensures
        url@ == synth.config.base_url@ + "/v1/text-to-speech/"@ + voice@ + "?output_format="@
            + "mp3_44100_128"@,
        active <==> synth.config.enabled && synth.config.api_key is Some && synth.config.voice_id
            is Some,
        failed matches CloudError::Http(w) && w@ == why@,
        cut@.is_prefix_of(s@),
        cut@.len() <= max,
        cut@.len() < max ==> cut@ == s@,
        bare@.is_prefix_of(s@),
        bare@.len() > 0 ==> bare@.last() != '/',
        forall|i: int| bare@.len() <= i < s@.len() ==> #[trigger] s@[i] == '/',
{
    texts::first_characters_are_the_beginning(s@, max as nat);
    texts::trailing_characters_are_taken_off(s@, '/');
}

/// The player and the sink that the environment names.
pub proof fn environment_names_player_and_sink<F: Fn(&str) -> Option<String>>(
    var: F,
    first: Option<Seq<char>>,
    second: Option<Seq<char>>,
    node: Option<Seq<char>>,
    bin: String,
    sink: Option<String>,
)
    requires
        call_ensures(player::player_from_env::<F>, (&var,), bin),
        call_ensures(player::sink_node_from_env::<F>, (&var,), sink),
        voices::names(var, "WM_PW_CAT_BIN"@, first),
        voices::names(var, "WM_TTS_PLAYER"@, second),
        voices::names(var, "WM_SINK_NODE"@, node),
    ensures
        first is Some ==> bin@ == first->0,
        first is None && second is Some ==> bin@ == second->0,
        first is None && second is None ==> bin@ == "pw-cat"@,
        node is Some && node->0.len() > 0 ==> sink is Some && sink->0@ == node->0,
        node is None || node->0.len() == 0 ==> sink is None,
{
    let (a, b) = choose|a: Option<Seq<char>>, b: Option<Seq<char>>|
        vars::may_read(var, player::ENV_PLAYER@, a) && (a is None ==> vars::may_read(
            var,
            player::ENV_PLAYER_ALIAS@,
            b,
        )) && bin@ == #[trigger] player::player_for(a, b);
    assert(a == first);
    if first is None {
        assert(b == second);
    }
}

/// The defaults on their own.
pub proof fn defaults_on_their_own(voice: String, root: String, none: CachePhrases)
    requires
        call_ensures(config::default_voice, (), voice),
        call_ensures(config::default_cache_root, (), root),
        call_ensures(CachePhrases::default, (), none),
    ensures
        voice@ == "en_US-lessac-medium"@,
        root@ == ".cache/wintermute/tts"@,
        none.phrases@.len() == 0,
{
}

/// The header of a wave file, and its numbers.
pub proof fn header_of_a_wave_file(bytes: &[u8], at: usize, is: bool, n: u32)
    requires
        call_ensures(wav::has_wave_header, (bytes,), is),
        at + 4 <= bytes@.len(),
        call_ensures(wav::read_le32, (bytes, at), n),
    ensures
        is <==> bytes@.len() >= 12 && bytes@.take(4) == seq![0x52u8, 0x49u8, 0x46u8, 0x46u8]
            && bytes@.subrange(8, 12) == seq![0x57u8, 0x41u8, 0x56u8, 0x45u8],
        n == bytes@[at as int] + 256 * bytes@[at + 1] + 65536 * bytes@[at + 2] + 16777216
            * bytes@[at + 3],
{
    if bytes@.len() >= 12 {
        assert(bytes@.take(4) =~= wav::quad(bytes@, 0));
        assert(bytes@.subrange(8, 12) =~= wav::quad(bytes@, 8));
    }
}

/// A number held in a range.
pub proof fn number_held_in_a_range(x: Single, min: Single, max: Single, r: Single)
    requires
        call_ensures(Single::clamp, (x, min, max), r),
        !min.nan(),
        !max.nan(),
        min.value() <= max.value(),
    ensures
        x.nan() ==> r == x,
        !x.nan() && x.value() < min.value() ==> r == min,
        !x.nan() && x.value() > max.value() ==> r == max,
        min.value() <= x.value() <= max.value() ==> r == x,
{
}

// ---- what calls what it is given -----------------------------------------

/// A list of phrases that can be parsed is checked, and one that cannot is told
/// with the reason.
pub proof fn parsed_phrases_are_checked<P: Fn(&str) -> Result<CachePhrases, String>>(
    blob: &str,
    parse: P,
    parsed: Result<CachePhrases, String>,
    r: Result<CachePhrases, TtsError>,
)
    requires
        call_ensures(config::parse_cache_yaml::<P>, (blob, parse), r),
        forall|p: Result<CachePhrases, String>| #[trigger]
            call_ensures(parse, (blob,), p) ==> p == parsed,
    ensures
        parsed matches Err(why) ==> r == Err::<CachePhrases, _>(TtsError::Yaml(why)),
        parsed matches Ok(list) ==> (list.phrases@.len() == 0 ==> r == Err::<CachePhrases, _>(
            TtsError::EmptyPhrases,
        )),
        parsed matches Ok(list) ==> (r matches Ok(kept) ==> kept == list),
        parsed matches Ok(list) ==> (r is Ok <==> list.phrases@.len() > 0 && text::texts(
            list.phrases@,
        ).no_duplicates()),
{
    if let Ok(list) = parsed {
        config::accepted_iff_distinct(list, r);
    }
}

/// What is loaded is what is read, parsed and checked.
pub proof fn loaded_phrases_are_parsed_and_checked<
    R: Fn(&str) -> Result<String, String>,
    P: Fn(&str) -> Result<CachePhrases, String>,
>(
    path: &str,
    read: R,
    parse: P,
    content: Seq<char>,
    parsed: Result<CachePhrases, String>,
    r: Result<CachePhrases, TtsError>,
)
    requires
        call_ensures(config::load_cache_yaml::<R, P>, (path, read, parse), r),
        forall|blob: Result<String, String>| #[trigger]
            call_ensures(read, (path,), blob) ==> blob is Ok && blob->Ok_0@ == content,
        forall|b: &str, p: Result<CachePhrases, String>|
            b@ == content && #[trigger] call_ensures(parse, (b,), p) ==> p == parsed,
    ensures
        parsed matches Err(why) ==> r == Err::<CachePhrases, _>(TtsError::Yaml(why)),
        parsed matches Ok(list) ==> (r is Ok <==> list.phrases@.len() > 0 && text::texts(
            list.phrases@,
        ).no_duplicates()),
        parsed matches Ok(list) ==> (r matches Ok(kept) ==> kept == list),
{
    if let Ok(list) = parsed {
        config::accepted_iff_distinct(list, r);
    }
}

/// A rendering calls Piper with the text and its arguments, and asks for the
/// file only where a gain is left to be applied.
pub proof fn rendering_calls_piper<
    P: Fn(&Vec<String>, &str) -> PiperRun,
    R: Fn(&str) -> Result<Vec<u8>, String>,
    W: Fn(&str, &[u8]) -> Result<(), String>,
>(
    piper: PiperSubprocess,
    voice: &str,
    text: &str,
    out_path: &str,
    run: P,
    read: R,
    replace: W,
    ran: PiperRun,
    argv: Vec<String>,
    r: Result<(), SynthError>,
)
    requires
        call_ensures(
            PiperSubprocess::render_through::<P, R, W>,
            (&piper, voice, text, out_path, run, read, replace),
            r,
        ),
        call_ensures(PiperSubprocess::build_argv, (&piper, voice, out_path), argv),
        forall|a: &Vec<String>, x: PiperRun|
            text::texts(a@) == text::texts(argv@) && #[trigger] call_ensures(run, (a, text), x)
                ==> x == ran,
    ensures
        ran is NotFound ==> (r matches Err(SynthError::BackendMissing(b)) && b@ == piper.bin@),
        ran matches PiperRun::SpawnFailed(why) ==> (r matches Err(
            SynthError::Io { path, source },
        ) && path@ == piper.bin@ && source@ == why@),
        ran matches PiperRun::Exited { success, .. } ==> (!success ==> r is Err),
        ran matches PiperRun::Exited { success, .. } ==> (success
            && piper.voice_config.gain_in_effect().bits == 0x3f80_0000 ==> r is Ok),
        ran matches PiperRun::Exited { success, .. } ==> (success
            && !piper.voice_config.gain_unity() ==> exists|done: Result<(), String>| #[trigger]
            rescales(out_path, piper.voice_config.gain_in_effect(), read, replace, done) && (r
                is Ok <==> done is Ok) && (done matches Err(why) ==> (r matches Err(
                SynthError::Io { path, source },
            ) && path@ == out_path@ && source@ == why@))),
{
    crate::laws::numbers::settings_are_held_in_range(piper.voice_config);
    if let PiperRun::Exited { success, .. } = ran {
        if success && !piper.voice_config.gain_unity() {
            let gain = piper.voice_config.gain_in_effect();
            let done = choose|done: Result<(), String>| #[trigger]
                synth::may_rescale(out_path, gain, read, replace, done) && match done {
                    Ok(()) => r is Ok,
                    Err(why) => r matches Err(SynthError::Io { path, source }) && path@
                        == out_path@ && source@ == why@,
                };
            assert(rescales(out_path, gain, read, replace, done));
        }
    }
}

/// Whether applying a gain to a file may give `r`: the file is read, and what
/// replaces it differs by the gain; what cannot be read is not replaced.
pub open spec fn rescales<
    R: Fn(&str) -> Result<Vec<u8>, String>,
    W: Fn(&str, &[u8]) -> Result<(), String>,
>(path: &str, gain: Single, read: R, replace: W, r: Result<(), String>) -> bool {
    ||| exists|why: String| #[trigger]
        call_ensures(read, (path,), Err(why)) && r == Err::<(), String>(why)
    ||| exists|before: Vec<u8>, after: &[u8]|
        {
            &&& #[trigger] call_ensures(read, (path,), Ok(before))
            &&& synth::samples_scaled(before@, after@, gain)
            &&& #[trigger] call_ensures(replace, (path, after), r)
        }
}

/// A pass begins with the directory of the voice, and with nothing counted.
pub proof fn pass_begins_with_the_directory<'a>(
    manager: &'a CacheManager,
    phrases: &'a [String],
    dir: String,
    r: (pass::Pass<'a>, pass::PassAction),
)
    requires
        call_ensures(pass::Pass::<'a>::begin, (manager, phrases), r),
        call_ensures(CacheManager::voice_dir, (manager,), dir),
    ensures
        r.1 matches pass::PassAction::MakeDir(d) && d@ == dir@,
        r.0.phase == pass::PassPhase::MakingDir,
        r.0.at == 0,
        r.0.report.hits == 0,
        r.0.report.rendered == 0,
        *r.0.cache == *manager,
        r.0.phrases@ == phrases@,
        manager.root@.len() > 0 && manager.root@.last() != '/' && manager.voice@.len() > 0
            && manager.voice@[0] != '/' ==> dir@ == manager.root@ + "/"@ + manager.voice@,
{
    assert(r.0@.at == r.0.at && r.0@.tally == r.0.report@);
    assert(r.0.report@.hits == r.0.report.hits && r.0.report@.rendered == r.0.report.rendered);
    reveal_strlit("/");
    assert("/"@ =~= seq!['/']);
}

/// The service that the environment asks for is the one with the key, the voice
/// and the model that it names; without a client, or where it is not asked for,
/// there is none.
pub proof fn environment_asks_for_the_service<
    T,
    F: Fn(&str) -> Option<String>,
    C: FnOnce() -> Option<T>,
>(
    var: F,
    make_client: C,
    on: Option<Seq<char>>,
    key: Option<Seq<char>>,
    alias: Option<Seq<char>>,
    voice: Option<Seq<char>>,
    model: Option<Seq<char>>,
    r: cloud::CloudBackend<T>,
)
    requires
        call_ensures(cloud::cloud_synth_from_env::<T, F, C>, (&var, make_client), r),
        voices::names(var, "WM_CLOUD_TTS_QUALITY"@, on),
        voices::names(var, "ELEVENLABS_API_KEY"@, key),
        voices::names(var, "WM_TTS_CLOUD_API_KEY"@, alias),
        voices::names(var, "WM_TTS_VOICE_ID_CLOUD"@, voice),
        voices::names(var, "WM_TTS_CLOUD_MODEL"@, model),
    ensures
        r matches cloud::CloudBackend::ElevenLabs(synth, client) ==> {
            &&& on is Some && cloud::truthy(on->0)
            &&& clouds::given(key) ==> synth.config.api_key is Some && synth.config.api_key->0@
                == key->0
            &&& !clouds::given(key) ==> clouds::given(alias) && synth.config.api_key is Some
                && synth.config.api_key->0@ == alias->0
            &&& clouds::given(voice) && synth.config.voice_id is Some
                && synth.config.voice_id->0@ == voice->0
            &&& clouds::given(model) ==> synth.config.model_id@ == model->0
            &&& call_ensures(make_client, (), Some(client))
        },
        r is Disabled && on is Some && cloud::truthy(on->0) && (clouds::given(key)
            || clouds::given(alias)) && clouds::given(voice) ==> call_ensures(
            make_client,
            (),
            None::<T>,
        ),
{
    clouds::lemma_given(key);
    clouds::lemma_given(alias);
    clouds::lemma_given(voice);
    clouds::lemma_given(model);
}

/// A gain is applied to a file by reading it and replacing it.
pub proof fn gain_is_applied_to_a_file<
    R: Fn(&str) -> Result<Vec<u8>, String>,
    W: Fn(&str, &[u8]) -> Result<(), String>,
>(path: &str, gain: Single, read: R, replace: W, r: Result<(), String>)
    requires
        call_ensures(synth::apply_gain_to_wav::<R, W>, (path, gain, read, replace), r),
    ensures
        rescales(path, gain, read, replace, r),
{
}

/// Whether a phrase may fare so: it is a hit if its file is there; otherwise it
/// is rendered in the voice, from the phrase, into its file.
pub open spec fn fares<S: Synth, F: Fn(&str) -> bool>(
    manager: CacheManager,
    synth: S,
    is_file: F,
    phrase: Seq<char>,
    o: PhraseOutcome,
) -> bool {
    &&& exists|p: &str|
        p@ == manager.entry(phrase) && #[trigger] call_ensures(is_file, (p,), o is Hit)
    &&& !(o is Hit) ==> exists|v: &str, t: &str, p: &str, done: Result<(), SynthError>|
        {
            &&& v@ == manager.voice@
            &&& t@ == phrase
            &&& p@ == manager.entry(phrase)
            &&& #[trigger] call_ensures(S::render, (&synth, v, t, p), done)
            &&& o is Rendered <==> done is Ok
            &&& o matches PhraseOutcome::Failed(why) ==> done is Err && why
                == done->Err_0.words()
        }
}

/// A pass over the phrases makes the directory of the voice, or fails with it.
/// Its report counts each phrase by how it fared.
pub proof fn pass_reports_how_each_phrase_fared<
    S: Synth,
    D: Fn(&str) -> Result<(), String>,
    F: Fn(&str) -> bool,
>(
    manager: CacheManager,
    phrases: &[String],
    synth: S,
    create_dir: D,
    is_file: F,
    r: Result<RenderReport, CacheError>,
)
    requires
        call_ensures(
            CacheManager::prerender::<S, D, F>,
            (&manager, phrases, &synth, create_dir, is_file),
            r,
        ),
    ensures
        match r {
            Ok(report) => exists|outcomes: Seq<PhraseOutcome>|
                {
                    &&& outcomes.len() == phrases@.len()
                    &&& forall|i: int|
                        0 <= i < outcomes.len() ==> fares(
                            manager,
                            synth,
                            is_file,
                            phrases@[i]@,
                            #[trigger] outcomes[i],
                        )
                    &&& report.hits == #[trigger] voices::hits_in(outcomes)
                    &&& report.rendered == voices::rendered_in(outcomes)
                    &&& text::texts(phrases@).no_duplicates() ==> forall|i: int|
                        0 <= i < outcomes.len() ==> match #[trigger] outcomes[i] {
                            PhraseOutcome::Failed(why) => report@.failures.contains_key(
                                phrases@[i]@,
                            ) && report@.failures[phrases@[i]@] == why,
                            _ => !report@.failures.contains_key(phrases@[i]@),
                        }
                },
            Err(CacheError::Io { path, source }) => path@ == manager.dir() && exists|
                d: &str,
                why: String,
            |
                d@ == manager.dir() && why@ == source@ && #[trigger] call_ensures(
                    create_dir,
                    (d,),
                    Err(why),
                ),
            Err(CacheError::Synth(_)) => false,
        },
{
    let list = text::texts(phrases@);
    pass::result_tells_what_became_of_each_phrase(manager, list, synth, create_dir, is_file, r);
    if let Ok(report) = r {
        let outcomes = choose|outcomes: Seq<PhraseOutcome>|
            outcomes.len() == list.len() && (forall|i: int|
                0 <= i < outcomes.len() ==> manager.may_fare(
                    synth,
                    is_file,
                    list[i],
                    #[trigger] outcomes[i],
                )) && report@ == #[trigger] cache::tally(list, outcomes);
        voices::report_counts_by_outcome(list, outcomes);
        assert forall|i: int| 0 <= i < outcomes.len() implies fares(
            manager,
            synth,
            is_file,
            phrases@[i]@,
            #[trigger] outcomes[i],
        ) by {
            assert(list[i] == phrases@[i]@);
            assert(manager.may_fare(synth, is_file, list[i], outcomes[i]));
            lemma_fares(manager, synth, is_file, list[i], outcomes[i]);
        }
        if list.no_duplicates() {
            assert forall|i: int| 0 <= i < outcomes.len() implies match #[trigger] outcomes[i] {
                PhraseOutcome::Failed(why) => report@.failures.contains_key(phrases@[i]@)
                    && report@.failures[phrases@[i]@] == why,
                _ => !report@.failures.contains_key(phrases@[i]@),
            } by {
                assert(list[i] == phrases@[i]@);
                cache::failures_are_the_phrases_that_failed(list, outcomes, i);
            }
        }
        assert(report@.hits == report.hits);
        assert(voices::hits_in(outcomes) == report.hits);
    }
}

proof fn lemma_fares<S: Synth, F: Fn(&str) -> bool>(
    manager: CacheManager,
    synth: S,
    is_file: F,
    phrase: Seq<char>,
    o: PhraseOutcome,
)
    requires
        manager.may_fare(synth, is_file, phrase, o),
    ensures
        fares(manager, synth, is_file, phrase, o),
{
    match o {
        PhraseOutcome::Hit => {},
        PhraseOutcome::Rendered => {
            let done = choose|done: Result<(), SynthError>|
                done is Ok && #[trigger] manager.may_render(synth, phrase, done);
            let (v, t, p) = choose|v: &str, t: &str, p: &str|
                v@ == manager.voice@ && t@ == phrase && p@ == manager.entry(phrase)
                    && #[trigger] call_ensures(S::render, (&synth, v, t, p), done);
            assert(call_ensures(S::render, (&synth, v, t, p), done));
        },
        PhraseOutcome::Failed(why) => {
            let e = choose|e: SynthError|
                e.words() == why && #[trigger] manager.may_render(synth, phrase, Err(e));
            let done = Err::<(), SynthError>(e);
            let (v, t, p) = choose|v: &str, t: &str, p: &str|
                v@ == manager.voice@ && t@ == phrase && p@ == manager.entry(phrase)
                    && #[trigger] call_ensures(S::render, (&synth, v, t, p), done);
            assert(call_ensures(S::render, (&synth, v, t, p), done));
        },
    }
}

/// A change of voice is told by what became of its rendering, and the voice
/// changes only where it is acknowledged.
pub proof fn change_of_voice_is_told_as_it_went<
    S: Synth,
    D: Fn(&str) -> Result<(), String>,
    F: Fn(&str) -> bool,
>(
    state: &mut DaemonState,
    new_voice: &str,
    synth: S,
    create_dir: D,
    is_file: F,
    start_ms: u64,
    r: Event,
)
    requires
        call_ensures(
            DaemonState::handle_reload_voice::<S, D, F>,
            (state, new_voice, &synth, create_dir, is_file, start_ms),
            r,
        ),
    ensures
        r is ReloadAck || r is Error,
        r matches Event::ReloadAck(a) ==> a.voice@ == new_voice@ && final(state).active.voice@
            == new_voice@ && final(state).active.cache.voice@ == new_voice@,
        r matches Event::ReloadAck(a) ==> exists|report: RenderReport, done_ms: u64|
            {
                &&& #[trigger] old(state).may_prerender(
                    new_voice@,
                    synth,
                    create_dir,
                    is_file,
                    Ok(report),
                )
                &&& #[trigger] crate::bus::may_be_now(done_ms)
                &&& serving::acknowledges(a, report, start_ms, done_ms)
            },
        r matches Event::Error(e) ==> e.kind@ == "voice"@ && *final(state) == *old(state) && (
        "prerender failed for "@ + new_voice@ + ": "@).is_prefix_of(e.message@),
        final(state).slot == old(state).slot,
        final(state).cache_phrases == old(state).cache_phrases,
        final(state).cloud_active == old(state).cloud_active,
{
    let (result, done_ms, now) = choose|
        result: Result<RenderReport, CacheError>,
        done_ms: u64,
        now: u64,
    |
        {
            &&& #[trigger] old(state).may_prerender(new_voice@, synth, create_dir, is_file, result)
            &&& crate::bus::may_be_now(done_ms)
            &&& crate::bus::may_be_now(now)
            &&& r@ == #[trigger] daemon::reload_told(new_voice@, result, start_ms, done_ms, now)
        };
    if let Event::ReloadAck(a) = r {
        let report = result->Ok_0;
        assert(old(state).may_prerender(new_voice@, synth, create_dir, is_file, Ok(report)));
        assert(report.failures@.len() == report.failures.len());
        assert(serving::acknowledges(a, report, start_ms, done_ms));
    }
    if let Err(e) = result {
        let head = "prerender failed for "@ + new_voice@ + ": "@;
        assert((head + e.words()).subrange(0, head.len() as int) =~= head);
    }
}

} // verus!
