use wintermute_tts::config::{check_phrases, ENV_CACHE_CONFIG, ENV_CACHE_DIR, ENV_VOICE};
use wintermute_tts::single::Single;
use wintermute_tts::synth::VoiceConfig;
use wintermute_tts::{
    cache_config_path, load_cache_yaml, parse_cache_yaml, CachePhrases, TtsConfig, TtsError,
    TtsFields, DEFAULT_CACHE_CONFIG, DEFAULT_VOICE,
};

/// Reads a list of phrases out of YAML.
fn yaml(blob: &str) -> Result<CachePhrases, String> {
    let v: serde_yaml::Value = serde_yaml::from_str(blob).map_err(|e| e.to_string())?;
    let mut phrases = Vec::new();
    if let Some(list) = v.get("phrases").and_then(|p| p.as_sequence()) {
        for item in list {
            phrases.push(item.as_str().ok_or("expected a string")?.to_string());
        }
    }
    Ok(CachePhrases { phrases })
}

fn env<'a>(pairs: &'a [(&'a str, &'a str)]) -> impl Fn(&str) -> Option<String> + 'a {
    move |key: &str| pairs.iter().find(|p| p.0 == key).map(|p| p.1.to_string())
}

#[test]
fn parse_minimal_cache() {
    let blob = "phrases:\n  - yes\n  - no\n";
    let cache = parse_cache_yaml(blob, yaml).expect("valid yaml parses");
    assert_eq!(cache.phrases, vec!["yes".to_string(), "no".to_string()]);
}

#[test]
fn parse_empty_phrases_is_error() {
    let blob = "phrases: []\n";
    assert!(matches!(parse_cache_yaml(blob, yaml), Err(TtsError::EmptyPhrases)));
}

#[test]
fn parse_duplicate_phrase_is_error() {
    let blob = "phrases:\n  - yes\n  - yes\n";
    let result = parse_cache_yaml(blob, yaml);
    assert!(matches!(result, Err(TtsError::DuplicatePhrase(p)) if p == "yes"));
}

#[test]
fn default_voice_matches_constant() {
    let cfg = TtsConfig::default();
    assert_eq!(cfg.voice, DEFAULT_VOICE);
}

/// Reads a configuration out of YAML.
fn config(blob: &str) -> TtsConfig {
    let v: serde_yaml::Value = serde_yaml::from_str(blob).expect("parses");
    let number = |name: &str| {
        v.get("voice_settings")
            .and_then(|s| s.get(name))
            .and_then(|x| x.as_f64())
            .map(|x| Single::from_bits((x as f32).to_bits()))
    };
    TtsConfig::with_defaults(TtsFields {
        voice: v.get("voice").and_then(|x| x.as_str()).map(str::to_string),
        cache_root: v.get("cache_root").and_then(|x| x.as_str()).map(str::to_string),
        cloud_quality: v.get("cloud_quality").and_then(|x| x.as_bool()),
        speaking_rate: number("speaking_rate"),
        gain: number("gain"),
    })
}

fn value(s: Single) -> f32 {
    f32::from_bits(s.bits)
}

#[test]
fn voice_override_via_yaml() {
    let cfg = config("voice: en_GB-jenny\n");
    assert_eq!(cfg.voice, "en_GB-jenny");
    assert_eq!(cfg.cache_root, ".cache/wintermute/tts");
    assert!(!cfg.cloud_quality);
    let cfg = config("cache_root: /c\ncloud_quality: true\n");
    assert_eq!(cfg.voice, DEFAULT_VOICE);
    assert_eq!(cfg.cache_root, "/c");
    assert!(cfg.cloud_quality);
}

#[test]
fn voice_settings_deserialize_from_yaml() {
    let cfg = config("voice_settings:\n  speaking_rate: 0.75\n  gain: 1.5\n");
    assert!((value(cfg.voice_settings.speaking_rate) - 0.75).abs() < 1e-6);
    assert!((value(cfg.voice_settings.gain) - 1.5).abs() < 1e-6);
}

#[test]
fn voice_settings_absent_yields_defaults() {
    let cfg = config("voice: en_US-lessac-medium\n");
    let default_vc = VoiceConfig::default();
    let rate = value(cfg.voice_settings.speaking_rate) - value(default_vc.speaking_rate);
    assert!(rate.abs() < 1e-6);
    assert!((value(cfg.voice_settings.gain) - value(default_vc.gain)).abs() < 1e-6);
}

#[test]
fn neutral_voice_settings_restore_baseline_behaviour() {
    let cfg = config("voice_settings:\n  speaking_rate: 1.0\n  gain: 1.0\n");
    assert!(cfg.voice_settings.is_rate_neutral());
    assert!(cfg.voice_settings.is_gain_unity());
}

#[test]
fn load_missing_file_is_io_error() {
    let path = "/nonexistent/wm-tts-cache.yaml";
    let result = load_cache_yaml(path, |_: &str| Err("not found".to_string()), yaml);
    assert!(matches!(&result, Err(TtsError::Io { .. })));
    assert_eq!(
        result.unwrap_err().message(),
        "io failure on /nonexistent/wm-tts-cache.yaml: not found"
    );
}

#[test]
fn default_tts_config_has_elder_friendly_voice_settings() {
    let cfg = TtsConfig::default();
    assert!(
        f32::from_bits(cfg.voice_settings.speaking_rate.bits) < 1.0,
        "default speaking_rate must be slower than baseline"
    );
    assert!(
        f32::from_bits(cfg.voice_settings.gain.bits) > 1.0,
        "default gain must be louder than unity"
    );
}

#[test]
fn load_reads_parses_and_checks() {
    let read = |path: &str| {
        assert_eq!(path, "/etc/p.yaml");
        Ok("phrases:\n  - a\n".to_string())
    };
    let cache = load_cache_yaml("/etc/p.yaml", read, yaml).expect("loads");
    assert_eq!(cache.phrases, vec!["a".to_string()]);
    let result = load_cache_yaml("/etc/p.yaml", |_: &str| Ok("phrases: [1".to_string()), yaml);
    match result {
        Err(TtsError::Yaml(why)) => assert!(!why.is_empty()),
        other => panic!("expected Yaml, got {other:?}"),
    }
}

#[test]
fn first_repeated_phrase_is_named() {
    let list = |items: &[&str]| CachePhrases {
        phrases: items.iter().map(|s| s.to_string()).collect(),
    };
    assert_eq!(
        check_phrases(list(&["a", "b", "c", "b", "a"])),
        Err(TtsError::DuplicatePhrase("b".to_string()))
    );
    // Letter case and white space tell phrases apart here.
    assert_eq!(check_phrases(list(&["yes", "Yes", " yes"])), Ok(list(&["yes", "Yes", " yes"])));
    assert_eq!(
        TtsError::DuplicatePhrase("say \"hi\"\n".to_string()).message(),
        "duplicate phrase: \"say \\\"hi\\\"\\n\""
    );
    assert_eq!(TtsError::EmptyPhrases.message(), "cache phrase list is empty");
    assert_eq!(TtsError::Yaml("x".to_string()).message(), "yaml parse failure: x");
}

#[test]
fn configuration_comes_from_the_environment() {
    let cfg = TtsConfig::from_env(&env(&[]));
    assert_eq!(cfg.voice, "en_US-lessac-medium");
    assert_eq!(cfg.cache_root, ".cache/wintermute/tts");
    assert!(!cfg.cloud_quality);
    let cfg = TtsConfig::from_env(&env(&[("HOME", "/home/u")]));
    assert_eq!(cfg.cache_root, "/home/u/.cache/wintermute/tts");
    let cfg = TtsConfig::from_env(&env(&[
        ("HOME", "/home/u"),
        (ENV_VOICE, "en_GB-jenny"),
        (ENV_CACHE_DIR, "/var/c"),
        ("WM_CLOUD_TTS_QUALITY", "yes"),
    ]));
    assert_eq!(cfg.voice, "en_GB-jenny");
    assert_eq!(cfg.cache_root, "/var/c");
    assert!(cfg.cloud_quality);
}

#[test]
fn list_of_phrases_is_found() {
    assert_eq!(cache_config_path(None, &env(&[])), DEFAULT_CACHE_CONFIG);
    assert_eq!(cache_config_path(None, &env(&[(ENV_CACHE_CONFIG, "/e")])), "/e");
    assert_eq!(
        cache_config_path(Some("/g".to_string()), &env(&[(ENV_CACHE_CONFIG, "/e")])),
        "/g"
    );
}
