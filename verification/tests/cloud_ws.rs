use serde::{Serialize, Serializer};
use wintermute_tts::cloud::{CloudConfig, CloudError};
use wintermute_tts::cloud_ws::{
    decode_audio, eleven_labs_stream, streaming_url, VoiceSettings, WsAction, WsAudioFrame,
    WsBosFrame, WsEosFrame, WsEvent, WsFrame, WsPhase, WsStream, WsTextFrame, CHANNEL_DEPTH, HANDSHAKE_TIMEOUT_SECS, READ_TIMEOUT_SECS,
};
use wintermute_tts::json::Json;

fn cfg_with(base: &str, model: &str, key: Option<&str>, voice: Option<&str>) -> CloudConfig {
    CloudConfig {
        enabled: true,
        api_key: key.map(str::to_string),
        voice_id: voice.map(str::to_string),
        model_id: model.to_string(),
        base_url: base.to_string(),
    }
}

/// A received message as a frame.
fn frame(body: &str) -> WsAudioFrame {
    let v: serde_json::Value = serde_json::from_str(body).unwrap();
    WsAudioFrame {
        audio: v["audio"].as_str().map(str::to_string),
        is_final: v["isFinal"].as_bool(),
    }
}

/// A value as it is written out, members in their order.
struct Written<'a>(&'a Json);

impl Serialize for Written<'_> {
    fn serialize<S: Serializer>(&self, out: S) -> Result<S::Ok, S::Error> {
        match self.0 {
            Json::Bool(b) => out.serialize_bool(*b),
            Json::Single(x) => out.serialize_f32(f32::from_bits(x.bits)),
            Json::Text(t) => out.serialize_str(t),
            Json::Object(members) => out.collect_map(members.iter().map(|m| (&m.0, Written(&m.1)))),
            other => panic!("no frame holds {other:?}"),
        }
    }
}

fn written(json: &Json) -> String {
    serde_json::to_string(&Written(json)).unwrap()
}

#[test]
fn bos_frame_serializes_with_required_fields() {
    let f = WsBosFrame {
        text: " ".to_string(),
        xi_api_key: "sk-test".to_string(),
        voice_settings: VoiceSettings::default(),
    };
    let s = written(&f.to_json());
    assert!(s.contains("\"text\":\" \""), "bos text field: {s}");
    assert!(s.contains("\"xi_api_key\":\"sk-test\""), "bos api key field: {s}");
    assert!(s.contains("\"voice_settings\""), "voice_settings: {s}");
    assert!(s.contains("\"stability\":0.5"), "stability: {s}");
    assert_eq!(
        written(&WsFrame::Bos(f).to_json()),
        "{\"text\":\" \",\"xi_api_key\":\"sk-test\",\"voice_settings\":{\"stability\":0.5,\"similarity_boost\":0.75}}"
    );
}

#[test]
fn text_frame_serializes_trigger() {
    let f = WsTextFrame {
        text: "Hello world.".to_string(),
        try_trigger_generation: true,
    };
    let s = written(&f.to_json());
    assert!(s.contains("\"try_trigger_generation\":true"), "{s}");
    assert!(s.contains("\"text\":\"Hello world.\""), "{s}");
    assert_eq!(written(&WsFrame::Text(f).to_json()), s);
}

#[test]
fn eos_frame_is_empty_text() {
    let f = WsEosFrame { text: String::new() };
    assert_eq!(written(&f.to_json()), "{\"text\":\"\"}");
    assert_eq!(written(&WsFrame::Eos(f).to_json()), "{\"text\":\"\"}");
}

fn stream() -> WsStream {
    let cfg = cfg_with("https://api.elevenlabs.io", "m", Some("k"), Some("v"));
    eleven_labs_stream(&cfg, "hi").expect("complete")
}

/// A stream that waits for its first frame.
fn reading() -> WsStream {
    let mut s = stream();
    s.step(&WsEvent::Connected);
    s.step(&WsEvent::Sent);
    s.step(&WsEvent::Sent);
    assert!(matches!(s.step(&WsEvent::Sent), WsAction::Read));
    s
}

fn reported(action: &WsAction) -> (String, bool) {
    match action {
        WsAction::Report { error: CloudError::Http(why), close } => (why.clone(), *close),
        other => panic!("expected a report, got {other:?}"),
    }
}

#[test]
fn voice_settings_default_matches_balanced_preset() {
    let v = VoiceSettings::default();
    assert_eq!(f32::from_bits(v.stability.bits), 0.5);
    assert_eq!(f32::from_bits(v.similarity_boost.bits), 0.75);
}

#[test]
fn audio_frame_decodes_full_message() {
    let f = frame(r#"{"audio":"aGVsbG8=","isFinal":true}"#);
    assert_eq!(f.audio.as_deref(), Some("aGVsbG8="));
    assert_eq!(f.is_final, Some(true));
    let payload = f.audio.unwrap();
    let bytes = decode_audio(&payload).unwrap();
    assert_eq!(bytes.as_slice(), b"hello");
}

#[test]
fn audio_frame_tolerates_missing_is_final() {
    let f = frame(r#"{"audio":"AAA="}"#);
    assert!(f.audio.is_some());
    assert_eq!(f.is_final, None);
    let mut s = reading();
    assert!(matches!(s.step(&WsEvent::Frame(f)), WsAction::Forward(b) if b == [0u8, 0]));
    assert!(matches!(s.step(&WsEvent::Delivered), WsAction::Read));
}

#[test]
fn audio_frame_tolerates_keepalive_with_no_audio() {
    let f = frame(r#"{"isFinal":false}"#);
    assert!(f.audio.is_none());
    assert_eq!(f.is_final, Some(false));
    let mut s = reading();
    assert!(matches!(s.step(&WsEvent::Frame(f)), WsAction::Read));
}

#[test]
fn decode_audio_rejects_invalid_base64() {
    let err = decode_audio("not!valid!base64!").unwrap_err();
    match err {
        CloudError::Http(msg) => assert!(msg.contains("base64"), "msg: {msg}"),
        other => panic!("expected Http, got {other:?}"),
    }
}

#[test]
fn decode_audio_takes_canonical_text_only() {
    assert_eq!(decode_audio(""), Ok(Vec::new()));
    assert_eq!(decode_audio("/+8="), Ok(vec![0xff, 0xef]));
    assert_eq!(decode_audio("AAEC"), Ok(vec![0, 1, 2]));
    assert_eq!(decode_audio("/w=="), Ok(vec![0xff]));
    // Stray bits, missing padding, too much padding.
    assert!(decode_audio("/x==").is_err());
    assert!(decode_audio("/w").is_err());
    assert!(decode_audio("/w=").is_err());
    assert!(decode_audio("AAEC====").is_err());
    assert_eq!(
        decode_audio("a!bc"),
        Err(CloudError::Http("base64 decode: Invalid symbol 33, offset 1.".to_string()))
    );
}

#[test]
fn streaming_url_replaces_https_with_wss() {
    let cfg = cfg_with(
        "https://api.elevenlabs.io",
        "eleven_turbo_v2",
        Some("k"),
        Some("v-abc"),
    );
    let url = streaming_url(&cfg, "v-abc");
    assert!(
        url.starts_with("wss://api.elevenlabs.io/v1/text-to-speech/v-abc/stream-input"),
        "url: {url}"
    );
    assert!(url.contains("model_id=eleven_turbo_v2"), "url: {url}");
    assert!(url.contains("output_format=mp3_44100_128"), "url: {url}");
    assert_eq!(
        url,
        "wss://api.elevenlabs.io/v1/text-to-speech/v-abc/stream-input?model_id=eleven_turbo_v2&output_format=mp3_44100_128"
    );
}

#[test]
fn streaming_url_replaces_http_with_ws() {
    let cfg = cfg_with("http://localhost:8080", "m", Some("k"), Some("v-abc"));
    let url = streaming_url(&cfg, "v-abc");
    assert!(
        url.starts_with("ws://localhost:8080/v1/text-to-speech/v-abc/stream-input"),
        "url: {url}"
    );
}

#[test]
fn streaming_url_passes_through_already_ws_base() {
    let cfg = cfg_with("wss://stage.example", "m", Some("k"), Some("v"));
    let url = streaming_url(&cfg, "v");
    assert!(url.starts_with("wss://stage.example/v1/"), "url: {url}");
}

#[test]
fn stream_returns_missing_api_key_synchronously() {
    let cfg = cfg_with("https://api.elevenlabs.io", "m", None, Some("v"));
    let err = eleven_labs_stream(&cfg, "hi").unwrap_err();
    assert!(matches!(err, CloudError::MissingApiKey));
}

#[test]
fn stream_returns_missing_voice_id_synchronously() {
    let cfg = cfg_with("https://api.elevenlabs.io", "m", Some("k"), None);
    let err = eleven_labs_stream(&cfg, "hi").unwrap_err();
    assert!(matches!(err, CloudError::MissingVoiceId));
}

#[test]
fn stream_reports_connect_failure_through_receiver() {
    let cfg = cfg_with("http://127.0.0.1:1", "m", Some("k"), Some("v"));
    let mut s = eleven_labs_stream(&cfg, "hi").expect("synchronous setup ok");
    assert_eq!(
        s.url,
        "ws://127.0.0.1:1/v1/text-to-speech/v/stream-input?model_id=m&output_format=mp3_44100_128"
    );
    let action = s.step(&WsEvent::ConnectFailed("refused".to_string()));
    assert_eq!(reported(&action), ("ws connect: refused".to_string(), false));
    assert!(matches!(s.step(&WsEvent::Connected), WsAction::Stop));
}

#[test]
fn frames_are_sent_in_order() {
    let mut s = stream();
    assert_eq!(s.phase, WsPhase::Connecting);
    match s.step(&WsEvent::Connected) {
        WsAction::Send(WsFrame::Bos(f)) => {
            assert_eq!(f.text, " ");
            assert_eq!(f.xi_api_key, "k");
            assert_eq!(f32::from_bits(f.voice_settings.stability.bits), 0.5);
        }
        other => panic!("expected the opening frame, got {other:?}"),
    }
    match s.step(&WsEvent::Sent) {
        WsAction::Send(WsFrame::Text(f)) => {
            assert_eq!(f.text, "hi");
            assert!(f.try_trigger_generation);
        }
        other => panic!("expected the text, got {other:?}"),
    }
    match s.step(&WsEvent::Sent) {
        WsAction::Send(WsFrame::Eos(f)) => assert_eq!(f.text, ""),
        other => panic!("expected the ending frame, got {other:?}"),
    }
    assert!(matches!(s.step(&WsEvent::Sent), WsAction::Read));
}

#[test]
fn chunks_come_in_order_until_the_last() {
    let mut s = reading();
    let first = frame(r#"{"audio":"AQ=="}"#);
    let last = frame(r#"{"audio":"Ag==","isFinal":true}"#);
    assert!(matches!(s.step(&WsEvent::Frame(first)), WsAction::Forward(b) if b == [1u8]));
    assert!(matches!(s.step(&WsEvent::Delivered), WsAction::Read));
    assert!(matches!(s.step(&WsEvent::Idle), WsAction::Read));
    assert!(matches!(s.step(&WsEvent::Frame(last)), WsAction::Forward(b) if b == [2u8]));
    assert!(matches!(s.step(&WsEvent::Delivered), WsAction::Close));
    assert_eq!(s.phase, WsPhase::Done);
}

#[test]
fn empty_chunks_are_not_handed_on() {
    let mut s = reading();
    assert!(matches!(s.step(&WsEvent::Frame(frame(r#"{"audio":""}"#))), WsAction::Read));
    let last = frame(r#"{"audio":"","isFinal":true}"#);
    assert!(matches!(s.step(&WsEvent::Frame(last)), WsAction::Close));
}

#[test]
fn the_peer_may_close_and_the_consumer_may_go() {
    assert!(matches!(reading().step(&WsEvent::CloseMessage), WsAction::Close));
    assert!(matches!(reading().step(&WsEvent::Ended), WsAction::Close));
    let mut s = reading();
    s.step(&WsEvent::Frame(frame(r#"{"audio":"AQ=="}"#)));
    assert!(matches!(s.step(&WsEvent::ConsumerGone), WsAction::Stop));
}

#[test]
fn each_failure_is_reported_once() {
    let why = || "e".to_string();
    let report = |mut s: WsStream, e: WsEvent| {
        let told = reported(&s.step(&e));
        assert_eq!(s.phase, WsPhase::Done);
        assert!(matches!(s.step(&WsEvent::ReadTimeout), WsAction::Stop));
        told
    };
    assert_eq!(
        report(stream(), WsEvent::BadRequest(why())),
        ("ws request: e".to_string(), false)
    );
    assert_eq!(
        report(stream(), WsEvent::HandshakeTimeout),
        ("ws handshake timeout".to_string(), false)
    );
    let mut opening = stream();
    opening.step(&WsEvent::Connected);
    assert_eq!(
        report(opening.clone(), WsEvent::EncodeFailed(why())),
        ("ws frame encode: e".to_string(), true)
    );
    assert_eq!(
        report(opening, WsEvent::SendFailed(why())),
        ("ws send: e".to_string(), true)
    );
    assert_eq!(
        report(reading(), WsEvent::RecvFailed(why())),
        ("ws recv: e".to_string(), false)
    );
    assert_eq!(
        report(reading(), WsEvent::ReadTimeout),
        ("ws read timeout".to_string(), false)
    );
    assert_eq!(
        report(reading(), WsEvent::BadFrame(why())),
        ("ws frame decode: e".to_string(), false)
    );
    assert_eq!(
        report(reading(), WsEvent::Frame(frame(r#"{"audio":"a!bc"}"#))),
        ("base64 decode: Invalid symbol 33, offset 1.".to_string(), false)
    );
}

#[test]
fn stream_limits_are_as_documented() {
    assert_eq!(CHANNEL_DEPTH, 32);
    assert_eq!(HANDSHAKE_TIMEOUT_SECS, 5);
    assert_eq!(READ_TIMEOUT_SECS, 15);
}
