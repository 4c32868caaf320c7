use wintermute_tts::cloud::{
    cloud_synth, cloud_synth_from_env, is_truthy, trim_trailing_slash, truncate, CloudBackend, CloudBody,
    CloudConfig, CloudError, CloudRead, DisabledCloudSynth, ElevenLabsCloudSynth,
    DEFAULT_BASE_URL, DEFAULT_MODEL_ID, ENV_API_KEY, ENV_API_KEY_ALIAS, ENV_BASE_URL, ENV_ENABLED,
    ENV_MODEL_ID, ENV_VOICE_ID, REQUEST_TIMEOUT_SECS,
};
use wintermute_tts::json::Json;

/// An environment with these variables.
fn env<'a>(pairs: &'a [(&'a str, &'a str)]) -> impl Fn(&str) -> Option<String> + 'a {
    move |key: &str| pairs.iter().find(|p| p.0 == key).map(|p| p.1.to_string())
}

#[test]
fn config_from_env_defaults_to_disabled() {
    let cfg = CloudConfig::from_env(&env(&[]));
    assert!(!cfg.enabled);
    assert!(cfg.api_key.is_none());
    assert!(cfg.voice_id.is_none());
    assert_eq!(cfg.model_id, DEFAULT_MODEL_ID);
    assert_eq!(cfg.base_url, DEFAULT_BASE_URL);
    assert!(!cfg.is_active());
    assert_eq!(cfg, CloudConfig::default());
}

#[test]
fn config_from_env_parses_all_fields() {
    let cfg = CloudConfig::from_env(&env(&[
        (ENV_ENABLED, "TRUE"),
        (ENV_API_KEY, "sk-test"),
        (ENV_VOICE_ID, "v-abc"),
        (ENV_MODEL_ID, "eleven_turbo_v2"),
        (ENV_BASE_URL, "https://stage.example/"),
    ]));
    assert!(cfg.enabled);
    assert_eq!(cfg.api_key.as_deref(), Some("sk-test"));
    assert_eq!(cfg.voice_id.as_deref(), Some("v-abc"));
    assert_eq!(cfg.model_id, "eleven_turbo_v2");
    assert_eq!(cfg.base_url, "https://stage.example");
    assert!(cfg.is_active());
}

#[test]
fn config_enabled_without_credentials_is_not_active() {
    let cfg = CloudConfig::from_env(&env(&[(ENV_ENABLED, "1")]));
    assert!(cfg.enabled);
    assert!(!cfg.is_active());
}

#[test]
fn truthy_variants_recognized() {
    for v in ["1", "true", "TRUE", "True", "yes", "YES", "on"] {
        assert!(is_truthy(v), "expected truthy: {v:?}");
    }
    for v in ["", "0", "false", "no", "off", "maybe"] {
        assert!(!is_truthy(v), "expected falsy: {v:?}");
    }
    assert!(is_truthy(" On\n"));
}

#[test]
fn disabled_returns_not_enabled() {
    let backend = DisabledCloudSynth;
    let err = backend.render("hello").expect_err("must error");
    assert!(matches!(err, CloudError::NotEnabled));
    assert!(!backend.is_active());
}

#[test]
fn elevenlabs_constructs_and_reports_active() {
    let cfg = CloudConfig {
        enabled: true,
        api_key: Some("sk-test".into()),
        voice_id: Some("v-abc".into()),
        model_id: DEFAULT_MODEL_ID.to_string(),
        base_url: DEFAULT_BASE_URL.to_string(),
    };
    let backend = ElevenLabsCloudSynth::new(cfg);
    assert!(backend.is_active());
    let url = backend.endpoint("v-abc");
    assert!(url.starts_with("https://api.elevenlabs.io/v1/text-to-speech/v-abc"));
    assert!(url.contains("output_format=mp3_44100_128"));
}

#[test]
fn factory_returns_disabled_when_env_missing() {
    let backend: CloudBackend<()> = cloud_synth_from_env(&env(&[]), || {
        panic!("no client is made in vain");
    });
    assert!(!backend.is_active());
}

#[test]
fn factory_goes_by_the_client_when_active() {
    let set = [(ENV_ENABLED, "on"), (ENV_API_KEY, "k"), (ENV_VOICE_ID, "v")];
    let backend = cloud_synth_from_env(&env(&set), || Some(7));
    assert!(backend.is_active());
    assert!(matches!(backend, CloudBackend::ElevenLabs(_, 7)));
    let backend: CloudBackend<u8> = cloud_synth_from_env(&env(&set), || None);
    assert!(!backend.is_active());
    let backend: CloudBackend<u8> = cloud_synth(CloudConfig::default(), || Some(1));
    assert!(matches!(backend, CloudBackend::Disabled(_)));
}

#[test]
fn api_key_has_a_second_name() {
    let cfg = CloudConfig::from_env(&env(&[(ENV_API_KEY, "  "), (ENV_API_KEY_ALIAS, "old")]));
    assert_eq!(cfg.api_key.as_deref(), Some("old"));
    let cfg = CloudConfig::from_env(&env(&[(ENV_API_KEY, "new"), (ENV_API_KEY_ALIAS, "old")]));
    assert_eq!(cfg.api_key.as_deref(), Some("new"));
    assert_eq!(ENV_API_KEY, "ELEVENLABS_API_KEY");
}

#[test]
fn trailing_slashes_go_and_long_texts_are_cut() {
    assert_eq!(trim_trailing_slash("https://x///"), "https://x");
    assert_eq!(trim_trailing_slash("///"), "");
    assert_eq!(truncate("äöü", 2), "äö");
    assert_eq!(truncate("äöü", 3), "äöü");
    assert_eq!(REQUEST_TIMEOUT_SECS, 10);
}

#[test]
fn request_needs_a_key_and_a_voice() {
    let mut synth = ElevenLabsCloudSynth::new(CloudConfig::default());
    assert_eq!(synth.request("t").unwrap_err(), CloudError::MissingApiKey);
    synth.config.api_key = Some("k".to_string());
    assert_eq!(synth.request("t").unwrap_err(), CloudError::MissingVoiceId);
    synth.config.voice_id = Some("v".to_string());
    let q = synth.request("say this").expect("complete");
    assert_eq!(
        q.url,
        "https://api.elevenlabs.io/v1/text-to-speech/v?output_format=mp3_44100_128"
    );
    assert_eq!(q.api_key, "k");
    assert_eq!(q.accept, "audio/mpeg");
    match q.body {
        Json::Object(members) => {
            assert_eq!(members.len(), 2);
            assert_eq!(members[0].0, "text");
            assert!(matches!(&members[0].1, Json::Text(t) if t == "say this"));
            assert_eq!(members[1].0, "model_id");
            assert!(matches!(&members[1].1, Json::Text(t) if t == "eleven_monolingual_v1"));
        }
        other => panic!("expected an object, got {other:?}"),
    }
}

#[test]
fn answers_are_judged_by_status_and_body() {
    assert_eq!(ElevenLabsCloudSynth::on_status(200), CloudRead::Audio);
    assert_eq!(ElevenLabsCloudSynth::on_status(299), CloudRead::Audio);
    assert_eq!(ElevenLabsCloudSynth::on_status(199), CloudRead::Refusal);
    assert_eq!(ElevenLabsCloudSynth::on_status(300), CloudRead::Refusal);
    let long = "x".repeat(300);
    assert_eq!(
        ElevenLabsCloudSynth::refused(429, Some(long)),
        CloudError::Status { status: 429, body: "x".repeat(256) }
    );
    assert_eq!(
        ElevenLabsCloudSynth::refused(500, None),
        CloudError::Status { status: 500, body: String::new() }
    );
    assert_eq!(ElevenLabsCloudSynth::audio(Ok(Vec::new())), Err(CloudError::Empty));
    assert_eq!(ElevenLabsCloudSynth::audio(Ok(vec![1, 2])), Ok(vec![1, 2]));
    assert_eq!(
        ElevenLabsCloudSynth::audio(Err("reset".to_string())),
        Err(CloudError::Http("reset".to_string()))
    );
    assert_eq!(
        ElevenLabsCloudSynth::not_sent("dns".to_string()),
        CloudError::Http("dns".to_string())
    );
}

#[test]
fn cloud_errors_are_described() {
    assert_eq!(
        CloudError::NotEnabled.message(),
        "cloud TTS not enabled or unconfigured"
    );
    assert_eq!(CloudError::MissingApiKey.message(), "missing ElevenLabs api key");
    assert_eq!(CloudError::MissingVoiceId.message(), "missing cloud voice id");
    assert_eq!(
        CloudError::Http("x".to_string()).message(),
        "cloud http transport: x"
    );
    assert_eq!(
        CloudError::Status { status: 401, body: "no".to_string() }.message(),
        "cloud http status 401: no"
    );
    assert_eq!(CloudError::Empty.message(), "cloud returned empty body");
}

#[test]
fn answers_are_judged_as_a_whole() {
    let judge = ElevenLabsCloudSynth::judge;
    assert_eq!(judge(200, CloudBody::Audio(Ok(vec![1, 2]))), Ok(vec![1, 2]));
    assert_eq!(judge(204, CloudBody::Audio(Ok(Vec::new()))), Err(CloudError::Empty));
    assert_eq!(
        judge(200, CloudBody::Audio(Err("reset".to_string()))),
        Err(CloudError::Http("reset".to_string()))
    );
    assert_eq!(
        judge(401, CloudBody::Refusal(Some("y".repeat(400)))),
        Err(CloudError::Status { status: 401, body: "y".repeat(256) })
    );
    assert_eq!(
        judge(500, CloudBody::Refusal(None)),
        Err(CloudError::Status { status: 500, body: String::new() })
    );
    assert_eq!(
        judge(302, CloudBody::Audio(Ok(vec![1]))),
        Err(CloudError::Status { status: 302, body: String::new() })
    );
}
