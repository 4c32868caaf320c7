//! The cloud service: its settings, what is asked of it, and what is made of its
//! answers.

use crate::base64_text;
use crate::cloud;
use crate::cloud::{
    CloudBackend, CloudBody, CloudConfig, CloudError, CloudRead, CloudRequest,
    ElevenLabsCloudSynth,
};
use crate::cloud_ws;
use crate::cloud_ws::{
    VoiceSettings, WsAction, WsBosFrame, WsEosFrame, WsEvent, WsFrame, WsPhase,
    WsStream, WsTextFrame,
};
use crate::json::{Flat, Json, Shape};
use crate::laws::texts;
use crate::laws::voices;
use crate::text;
use vstd::prelude::*;

verus! {

// ---- settings ------------------------------------------------------------

/// What a setting has to say to be on: 1, true, yes or on, in whatever letters
/// and with whatever white space around.
pub proof fn four_words_switch_on(
    before: Seq<char>,
    word: Seq<char>,
    after: Seq<char>,
    v: &str,
    r: bool,
)
    requires
        call_ensures(cloud::is_truthy, (v,), r),
        v@ == before + word + after,
        text::all_white(before),
        text::all_white(after),
        word.len() > 0,
        !text::white(word[0]),
        !text::white(word.last()),
    ensures
        r <==> {
            ||| text::ascii_lower(word) == "1"@
            ||| text::ascii_lower(word) == "true"@
            ||| text::ascii_lower(word) == "yes"@
            ||| text::ascii_lower(word) == "on"@
        },
{
    text::surrounding_white_is_trimmed(before, word, after);
    text::lemma_trimmed_already(word);
}

/// The service is used only if it is switched on and both a key and a voice are
/// named. The first variable names the key, the second one where the first is
/// blank; model and address have defaults, and slashes at the end of the address
/// do not count.
pub proof fn settings_come_from_the_environment<F: Fn(&str) -> Option<String>>(
    var: F,
    on: Option<Seq<char>>,
    key: Option<Seq<char>>,
    alias: Option<Seq<char>>,
    voice: Option<Seq<char>>,
    model: Option<Seq<char>>,
    url: Option<Seq<char>>,
    r: CloudConfig,
    active: bool,
)
    requires
        call_ensures(CloudConfig::from_env::<F>, (&var,), r),
        call_ensures(CloudConfig::is_active, (&r,), active),
        voices::names(var, "WM_CLOUD_TTS_QUALITY"@, on),
        voices::names(var, "ELEVENLABS_API_KEY"@, key),
        voices::names(var, "WM_TTS_CLOUD_API_KEY"@, alias),
        voices::names(var, "WM_TTS_VOICE_ID_CLOUD"@, voice),
        voices::names(var, "WM_TTS_CLOUD_MODEL"@, model),
        voices::names(var, "WM_TTS_CLOUD_BASE_URL"@, url),
    ensures
        on is None ==> !r.enabled,
        on is Some ==> r.enabled == cloud::truthy(on->0),
        given(key) ==> r.api_key is Some && r.api_key->0@ == key->0,
        !given(key) && given(alias) ==> r.api_key is Some && r.api_key->0@ == alias->0,
        !given(key) && !given(alias) ==> r.api_key is None,
        given(voice) ==> r.voice_id is Some && r.voice_id->0@ == voice->0,
        !given(voice) ==> r.voice_id is None,
        given(model) ==> r.model_id@ == model->0,
        !given(model) ==> r.model_id@ == "eleven_monolingual_v1"@,
        !given(url) ==> r.base_url@ == "https://api.elevenlabs.io"@,
        given(url) ==> r.base_url@.is_prefix_of(url->0) && (r.base_url@.len() == 0
            || r.base_url@.last() != '/') && forall|i: int|
            r.base_url@.len() <= i < url->0.len() ==> #[trigger] url->0[i] == '/',
        active <==> r.enabled && (given(key) || given(alias)) && given(voice),
{
    let v = choose|v: cloud::CloudVars| #[trigger] cloud::may_have(var, v) && r.comes_from(v);
    assert(v.enabled == on && v.api_key == key && v.api_key_alias == alias && v.voice_id == voice
        && v.model_id == model && v.base_url == url);
    lemma_given(key);
    lemma_given(alias);
    lemma_given(voice);
    lemma_given(model);
    lemma_given(url);
    if url is Some {
        texts::trailing_characters_are_taken_off(url->0, '/');
    }
}

/// Whether a variable is set to something that is not blank.
pub open spec fn given(value: Option<Seq<char>>) -> bool {
    value is Some && !text::all_white(value->0)
}

pub(crate) proof fn lemma_given(value: Option<Seq<char>>)
    ensures
        given(value) ==> crate::vars::nonempty(value) == value,
        !given(value) ==> crate::vars::nonempty(value) is None,
{
    if value is Some {
        voices::lemma_blank(value->0);
    }
}

/// Without settings the service is off.
pub proof fn service_is_off_by_default(r: CloudConfig, active: bool)
    requires
        call_ensures(CloudConfig::default, (), r),
        call_ensures(CloudConfig::is_active, (&r,), active),
    ensures
        !active,
        !r.enabled,
        r.api_key is None,
        r.voice_id is None,
        r.model_id@ == "eleven_monolingual_v1"@,
        r.base_url@ == "https://api.elevenlabs.io"@,
{
}

/// The service is asked with the settings that are active, and only then, and
/// only with a client.
pub proof fn service_needs_settings_and_client<T, C: FnOnce() -> Option<T>>(
    config: CloudConfig,
    make_client: C,
    r: CloudBackend<T>,
    active: bool,
)
    requires
        call_ensures(cloud::cloud_synth::<T, C>, (config, make_client), r),
        call_ensures(CloudBackend::<T>::is_active, (&r,), active),
    ensures
        active <==> r is ElevenLabs,
        active ==> config.enabled && config.api_key is Some && config.voice_id is Some,
        r matches CloudBackend::ElevenLabs(synth, client) ==> synth.config == config
            && call_ensures(make_client, (), Some(client)),
        config.enabled && config.api_key is Some && config.voice_id is Some && !active
            ==> call_ensures(make_client, (), None::<T>),
{
}

// ---- asking for a file ---------------------------------------------------

/// A request goes to the address of the voice, with the key, asking for mp3, and
/// carries the text and the model; without a key, or else without a voice, none
/// is made.
pub proof fn request_carries_text_and_model(
    synth: ElevenLabsCloudSynth,
    text: &str,
    r: Result<CloudRequest, CloudError>,
)
    requires
        call_ensures(ElevenLabsCloudSynth::request, (&synth, text), r),
    ensures
        synth.config.api_key is None ==> r == Err::<CloudRequest, _>(CloudError::MissingApiKey),
        synth.config.api_key is Some && synth.config.voice_id is None ==> r == Err::<
            CloudRequest,
            _,
        >(CloudError::MissingVoiceId),
        synth.config.api_key is Some && synth.config.voice_id is Some ==> {
            &&& r matches Ok(q)
            &&& q.url@ == synth.config.base_url@ + "/v1/text-to-speech/"@
                + synth.config.voice_id->0@ + "?output_format="@ + "mp3_44100_128"@
            &&& q.api_key@ == synth.config.api_key->0@
            &&& q.accept@ == "audio/mpeg"@
            &&& q.body@ == Shape::Object(
                seq![
                    ("text"@, Flat::Text(text@)),
                    ("model_id"@, Flat::Text(synth.config.model_id@)),
                ],
            )
        },
{
}

/// An answer with a status from 200 to 299 is audio, and is handed on as it is
/// unless it is empty; any other is a refusal, told with its status and no more
/// than 256 characters of its text.
pub proof fn answer_is_judged_by_its_status(
    status: u16,
    body: CloudBody,
    r: Result<Vec<u8>, CloudError>,
    read: CloudRead,
)
    requires
        call_ensures(ElevenLabsCloudSynth::judge, (status, body), r),
        call_ensures(ElevenLabsCloudSynth::on_status, (status,), read),
    ensures
        200 <= status < 300 <==> read is Audio,
        status < 200 || status >= 300 <==> read is Refusal,
        body matches CloudBody::Audio(Ok(bytes)) ==> (read is Audio && bytes@.len() > 0 ==> (
        r matches Ok(kept) && kept@ == bytes@)),
        body matches CloudBody::Audio(Ok(bytes)) ==> (read is Audio && bytes@.len() == 0 ==> r
            == Err::<Vec<u8>, _>(CloudError::Empty)),
        body matches CloudBody::Audio(Err(why)) ==> (read is Audio ==> (r matches Err(
            CloudError::Http(w),
        ) && w@ == why@)),
        body matches CloudBody::Refusal(Some(t)) ==> (r matches Err(
            CloudError::Status { status: s, body: kept },
        ) && s == status && kept@.is_prefix_of(t@) && kept@.len() <= 256 && (kept@.len() < 256
            ==> kept@ == t@)),
        body is Audio && read is Refusal ==> (r matches Err(
            CloudError::Status { status: s, body: kept },
        ) && s == status && kept@.len() == 0),
        body matches CloudBody::Refusal(None) ==> (r matches Err(
            CloudError::Status { status: s, body: kept },
        ) && s == status && kept@.len() == 0),
{
    if let CloudBody::Refusal(Some(t)) = body {
        texts::first_characters_are_the_beginning(t@, 256);
    }
}

/// The parts of an answer are judged alike, whether it is judged at once or part
/// by part.
pub proof fn parts_of_an_answer_are_judged_alike(
    status: u16,
    text: Option<String>,
    bytes: Result<Vec<u8>, String>,
    refused: CloudError,
    audio: Result<Vec<u8>, CloudError>,
    judged_refusal: Result<Vec<u8>, CloudError>,
    judged_audio: Result<Vec<u8>, CloudError>,
)
    requires
        call_ensures(ElevenLabsCloudSynth::refused, (status, text), refused),
        call_ensures(ElevenLabsCloudSynth::audio, (bytes,), audio),
        call_ensures(
            ElevenLabsCloudSynth::judge,
            (status, CloudBody::Refusal(text)),
            judged_refusal,
        ),
        call_ensures(
            ElevenLabsCloudSynth::judge,
            (status, CloudBody::Audio(bytes)),
            judged_audio,
        ),
    ensures
        judged_refusal matches Err(e) && e@ == refused@,
        200 <= status < 300 ==> judged_audio == audio,
{
}

/// How a failure of the service is told.
pub proof fn cloud_errors_in_words(e: CloudError, r: String)
    requires
        call_ensures(CloudError::message, (&e,), r),
    ensures
        match e {
            CloudError::NotEnabled => r@ == "cloud TTS not enabled or unconfigured"@,
            CloudError::MissingApiKey => r@ == "missing ElevenLabs api key"@,
            CloudError::MissingVoiceId => r@ == "missing cloud voice id"@,
            CloudError::Http(why) => r@ == "cloud http transport: "@ + why@,
            CloudError::Status { status, body } => r@ == "cloud http status "@
                + text::decimal_text(status as nat) + ": "@ + body@,
            CloudError::Empty => r@ == "cloud returned empty body"@,
        },
{
}

// ---- asking for a stream -------------------------------------------------

/// A stream is asked for at the address of the voice, under the web socket
/// scheme that belongs to the scheme of the service, and names the model and the
/// format.
pub proof fn stream_address_names_voice_and_model(
    config: CloudConfig,
    rest: Seq<char>,
    voice_id: &str,
    r: String,
)
    requires
        call_ensures(cloud_ws::streaming_url, (&config, voice_id), r),
    ensures
        config.base_url@ == "https://"@ + rest ==> r@ == "wss://"@ + rest
            + "/v1/text-to-speech/"@ + voice_id@ + "/stream-input?model_id="@ + config.model_id@
            + "&output_format="@ + "mp3_44100_128"@,
        config.base_url@ == "http://"@ + rest ==> r@ == "ws://"@ + rest + "/v1/text-to-speech/"@
            + voice_id@ + "/stream-input?model_id="@ + config.model_id@ + "&output_format="@
            + "mp3_44100_128"@,
        !"https://"@.is_prefix_of(config.base_url@) && !"http://"@.is_prefix_of(config.base_url@)
            ==> r@ == config.base_url@ + "/v1/text-to-speech/"@ + voice_id@
            + "/stream-input?model_id="@ + config.model_id@ + "&output_format="@
            + "mp3_44100_128"@,
{
    reveal_strlit("https://");
    reveal_strlit("http://");
    let base = config.base_url@;
    let long = "https://"@;
    let short = "http://"@;
    if base == long + rest {
        assert(base.subrange(0, 8) =~= long);
        assert(base.skip(8) =~= rest);
    }
    if base == short + rest {
        assert(base.subrange(0, 7) =~= short);
        assert(base.skip(7) =~= rest);
        assert(base[4] == ':');
        if long.is_prefix_of(base) {
            assert(base.subrange(0, 8)[4] == long[4]);
        }
    }
}

/// A stream is begun with the text, the key and the address of the configured
/// voice; without a key, or else without a voice, none is begun.
pub proof fn stream_is_begun_with_text_and_key(
    config: CloudConfig,
    text: &str,
    voice_id: &str,
    url: String,
    r: Result<WsStream, CloudError>,
)
    requires
        call_ensures(cloud_ws::eleven_labs_stream, (&config, text), r),
        call_ensures(cloud_ws::streaming_url, (&config, voice_id), url),
    ensures
        config.api_key is None ==> r == Err::<WsStream, _>(CloudError::MissingApiKey),
        config.api_key is Some && config.voice_id is None ==> r == Err::<WsStream, _>(
            CloudError::MissingVoiceId,
        ),
        config.api_key is Some && config.voice_id is Some && voice_id@ == config.voice_id->0@
            ==> {
            &&& r matches Ok(s)
            &&& s.url@ == url@
            &&& s.api_key@ == config.api_key->0@
            &&& s.text@ == text@
            &&& s.phase == WsPhase::Connecting
        },
{
}

/// The frames as they go out: each member under its name.
pub proof fn frames_are_written_by_name(
    settings: VoiceSettings,
    bos: WsBosFrame,
    txt: WsTextFrame,
    eos: WsEosFrame,
    settings_json: Json,
    bos_json: Json,
    txt_json: Json,
    eos_json: Json,
)
    requires
        call_ensures(VoiceSettings::to_json, (&settings,), settings_json),
        call_ensures(WsFrame::to_json, (&WsFrame::Bos(bos),), bos_json),
        call_ensures(WsFrame::to_json, (&WsFrame::Text(txt),), txt_json),
        call_ensures(WsFrame::to_json, (&WsFrame::Eos(eos),), eos_json),
    ensures
        settings_json@ == Shape::Object(
            seq![
                ("stability"@, Flat::Single(settings.stability)),
                ("similarity_boost"@, Flat::Single(settings.similarity_boost)),
            ],
        ),
        bos_json@ == Shape::Object(
            seq![
                ("text"@, Flat::Text(bos.text@)),
                ("xi_api_key"@, Flat::Text(bos.xi_api_key@)),
                ("voice_settings"@, Flat::Object),
            ],
        ),
        bos_json matches Json::Object(members) && members@[2].1@ == Shape::Object(
            seq![
                ("stability"@, Flat::Single(bos.voice_settings.stability)),
                ("similarity_boost"@, Flat::Single(bos.voice_settings.similarity_boost)),
            ],
        ),
        txt_json@ == Shape::Object(
            seq![
                ("text"@, Flat::Text(txt.text@)),
                ("try_trigger_generation"@, Flat::Bool(txt.try_trigger_generation)),
            ],
        ),
        eos_json@ == Shape::Object(seq![("text"@, Flat::Text(eos.text@))]),
{
}

/// What a step of a stream does, by where it stands and what happened: it opens
/// with a space, the key and the voice settings of a half and three quarters;
/// sends the text and asks for it at once; ends with an empty text; and then
/// reads. Nothing that it stands for changes.
pub proof fn stream_sends_and_then_reads(s: &mut WsStream, event: &WsEvent, r: WsAction)
    requires
        call_ensures(WsStream::step, (s, event), r),
    ensures
        final(s).url@ == old(s).url@,
        final(s).api_key@ == old(s).api_key@,
        final(s).text@ == old(s).text@,
        old(s).phase == WsPhase::Connecting && *event is Connected ==> {
            &&& r matches WsAction::Send(WsFrame::Bos(f))
            &&& f.text@ == " "@
            &&& f.xi_api_key@ == old(s).api_key@
            &&& f.voice_settings.stability.bits == 0x3f00_0000
            &&& f.voice_settings.similarity_boost.bits == 0x3f40_0000
            &&& final(s).phase == WsPhase::Opening
        },
        old(s).phase == WsPhase::Opening && *event is Sent ==> {
            &&& r matches WsAction::Send(WsFrame::Text(f))
            &&& f.text@ == old(s).text@
            &&& f.try_trigger_generation
            &&& final(s).phase == WsPhase::Speaking
        },
        old(s).phase == WsPhase::Speaking && *event is Sent ==> {
            &&& r matches WsAction::Send(WsFrame::Eos(f))
            &&& f.text@.len() == 0
            &&& final(s).phase == WsPhase::Ending
        },
        old(s).phase == WsPhase::Ending && *event is Sent ==> r is Read && final(s).phase
            == WsPhase::Reading,
        old(s).phase == WsPhase::Done ==> r is Stop && final(s).phase == WsPhase::Done,
{
    reveal_strlit(" ");
}

/// What is read: audio is decoded and handed on before anything else is read;
/// the last frame closes the stream once its audio is taken; a message without
/// audio is passed over; and the end of the connection closes it.
pub proof fn stream_hands_on_what_it_reads(
    s: &mut WsStream,
    event: &WsEvent,
    bytes: Seq<u8>,
    r: WsAction,
)
    requires
        call_ensures(WsStream::step, (s, event), r),
        old(s).phase == WsPhase::Reading,
    ensures
        *event matches WsEvent::Frame(f) ==> {
            let last = f.is_final == Some(true);
            &&& f.audio is Some && f.audio->0@ == base64_text::base64_text(bytes) && bytes.len()
                > 0 ==> (r matches WsAction::Forward(b) && b@ == bytes && final(s).phase == (
            WsPhase::Forwarding { last }))
            &&& f.audio is None || f.audio->0@ == base64_text::base64_text(Seq::empty()) ==> {
                &&& last ==> r is Close && final(s).phase == WsPhase::Done
                &&& !last ==> r is Read && final(s).phase == WsPhase::Reading
            }
        },
        *event is Idle ==> r is Read && final(s).phase == WsPhase::Reading,
        *event is Ended || *event is CloseMessage ==> r is Close && final(s).phase
            == WsPhase::Done,
{
    base64_text::base64_round_trip(bytes);
    base64_text::base64_round_trip(Seq::empty());
}

/// After audio was taken the stream reads on, or closes if it was the last.
pub proof fn stream_reads_on_until_the_last(
    s: &mut WsStream,
    event: &WsEvent,
    last: bool,
    r: WsAction,
)
    requires
        call_ensures(WsStream::step, (s, event), r),
        old(s).phase == (WsPhase::Forwarding { last }),
        *event is Delivered,
    ensures
        last ==> r is Close && final(s).phase == WsPhase::Done,
        !last ==> r is Read && final(s).phase == WsPhase::Reading,
{
}

/// What goes wrong is told in words, and ends the stream. The connection is
/// closed only where something could not be sent.
pub proof fn stream_failures_in_words(s: &mut WsStream, event: &WsEvent, r: WsAction)
    requires
        call_ensures(WsStream::step, (s, event), r),
    ensures
        ({
            let sending = old(s).phase == WsPhase::Opening || old(s).phase == WsPhase::Speaking
                || old(s).phase == WsPhase::Ending;
            let reading = old(s).phase == WsPhase::Reading;
            let connecting = old(s).phase == WsPhase::Connecting;
            match *event {
                WsEvent::BadRequest(why) => connecting ==> tells(
                    r,
                    "ws request: "@ + why@,
                    false,
                ),
                WsEvent::ConnectFailed(why) => connecting ==> tells(
                    r,
                    "ws connect: "@ + why@,
                    false,
                ),
                WsEvent::HandshakeTimeout => connecting ==> tells(
                    r,
                    "ws handshake timeout"@,
                    false,
                ),
                WsEvent::EncodeFailed(why) => sending ==> tells(
                    r,
                    "ws frame encode: "@ + why@,
                    true,
                ),
                WsEvent::SendFailed(why) => sending ==> tells(r, "ws send: "@ + why@, true),
                WsEvent::RecvFailed(why) => reading ==> tells(r, "ws recv: "@ + why@, false),
                WsEvent::ReadTimeout => reading ==> tells(r, "ws read timeout"@, false),
                WsEvent::BadFrame(why) => reading ==> tells(
                    r,
                    "ws frame decode: "@ + why@,
                    false,
                ),
                WsEvent::Frame(f) => reading && f.audio is Some && (forall|b: Seq<u8>|
                    f.audio->0@ != #[trigger] base64_text::base64_text(b)) ==> tells(
                    r,
                    "base64 decode: "@ + base64_text::base64_fault(f.audio->0@),
                    false,
                ),
                _ => true,
            }
        }),
        r is Report || r is Close || r is Stop ==> final(s).phase == WsPhase::Done,
{
}

/// What a stream does not wait for stops it: nothing more is done, and nothing is
/// told.
pub proof fn unexpected_events_stop_a_stream(s: &mut WsStream, event: &WsEvent, r: WsAction)
    requires
        call_ensures(WsStream::step, (s, event), r),
        match old(s).phase {
            WsPhase::Connecting => !(*event is BadRequest) && !(*event is ConnectFailed)
                && !(*event is HandshakeTimeout) && !(*event is Connected),
            WsPhase::Opening | WsPhase::Speaking | WsPhase::Ending => !(*event is EncodeFailed)
                && !(*event is SendFailed) && !(*event is Sent),
            WsPhase::Reading => match *event {
                WsEvent::RecvFailed(_)
                | WsEvent::ReadTimeout
                | WsEvent::BadFrame(_)
                | WsEvent::Ended
                | WsEvent::CloseMessage
                | WsEvent::Idle
                | WsEvent::Frame(_) => false,
                _ => true,
            },
            WsPhase::Forwarding { .. } => !(*event is Delivered),
            WsPhase::Done => true,
        },
    ensures
        r is Stop,
        final(s).phase == WsPhase::Done,
{
}

/// Whether an action tells a failure in these words.
pub open spec fn tells(r: WsAction, words: Seq<char>, closing: bool) -> bool {
    r matches WsAction::Report { error: CloudError::Http(why), close } && why@ == words && close
        == closing
}

/// Audio decodes to the bytes that it was encoded from, and to nothing else.
pub proof fn audio_decodes_to_its_bytes(
    payload: &str,
    bytes: Seq<u8>,
    r: Result<Vec<u8>, CloudError>,
)
    requires
        call_ensures(cloud_ws::decode_audio, (payload,), r),
    ensures
        payload@ == base64_text::base64_text(bytes) ==> (r matches Ok(b) && b@ == bytes),
        r matches Ok(b) ==> payload@ == base64_text::base64_text(b@),
        r matches Err(e) ==> (e matches CloudError::Http(why) && why@ == "base64 decode: "@
            + base64_text::base64_fault(payload@)),
{
    base64_text::base64_round_trip(bytes);
}

// ---- base 64 -------------------------------------------------------------

/// The sixty-four symbols in order.
pub proof fn symbols_are_in_order(n: int)
    requires
        0 <= n < 64,
    ensures
        base64_text::symbol(n)
            == "ABCDEFGHIJKLMNOPQRSTUVWXYZabcdefghijklmnopqrstuvwxyz0123456789+/"@[n],
{
    reveal_strlit("ABCDEFGHIJKLMNOPQRSTUVWXYZabcdefghijklmnopqrstuvwxyz0123456789+/");
}

/// Three bytes take four symbols, which spell their twenty-four bits six by six.
pub proof fn three_bytes_take_four_symbols(x: u8, y: u8, z: u8, rest: Seq<u8>)
    ensures
        ({
            let t = base64_text::base64_text(seq![x, y, z] + rest);
            let bits: int = 65536 * x + 256 * y + z;
            &&& t == t.take(4) + base64_text::base64_text(rest)
            &&& t[0] == base64_text::symbol(bits / 262144)
            &&& t[1] == base64_text::symbol((bits / 4096) % 64)
            &&& t[2] == base64_text::symbol((bits / 64) % 64)
            &&& t[3] == base64_text::symbol(bits % 64)
        }),
        base64_text::base64_text(Seq::empty()).len() == 0,
{
    let b = seq![x, y, z] + rest;
    lemma_six_by_six(x, y, z);
    assert(b[0] == x && b[1] == y && b[2] == z);
    assert(b.skip(3) =~= rest);
    let t = base64_text::base64_text(b);
    assert(t.take(4) + base64_text::base64_text(rest) =~= t);
}

/// Two bytes left over take three symbols and a sign of equality.
pub proof fn two_bytes_take_three_symbols(x: u8, y: u8)
    ensures
        ({
            let bits: int = 65536 * x + 256 * y;
            base64_text::base64_text(seq![x, y]) == seq![
                base64_text::symbol(bits / 262144),
                base64_text::symbol((bits / 4096) % 64),
                base64_text::symbol((bits / 64) % 64),
                '=',
            ]
        }),
{
    lemma_six_by_six(x, y, 0);
}

/// One byte left over takes two symbols and two signs of equality.
pub proof fn one_byte_takes_two_symbols(x: u8)
    ensures
        ({
            let bits: int = 65536 * x;
            base64_text::base64_text(seq![x]) == seq![
                base64_text::symbol(bits / 262144),
                base64_text::symbol((bits / 4096) % 64),
                '=',
                '=',
            ]
        }),
{
    lemma_six_by_six(x, 0, 0);
}

proof fn lemma_six_by_six(x: u8, y: u8, z: u8)
    ensures
        ({
            let bits: int = 65536 * x + 256 * y + z;
            &&& bits / 262144 == x as int / 4
            &&& (bits / 4096) % 64 == (x as int % 4) * 16 + y as int / 16
            &&& (bits / 64) % 64 == (y as int % 16) * 4 + z as int / 64
            &&& bits % 64 == z as int % 64
        }),
{
    let (x, y, z) = (x as int, y as int, z as int);
    let bits: int = 65536 * x + 256 * y + z;
    let (a, b) = (x / 4, x % 4);
    let (c, d) = (y / 16, y % 16);
    let (e, f) = (z / 64, z % 64);
    assert(bits == 262144 * a + 65536 * b + 4096 * c + 256 * d + 64 * e + f);
    assert(0 <= 65536 * b + 4096 * c + 256 * d + 64 * e + f < 262144);
    assert(bits / 262144 == a);
    assert(bits / 4096 == 64 * a + 16 * b + c);
    assert(bits / 64 == 64 * (64 * a + 16 * b + c) + 4 * d + e);
}

} // verus!
