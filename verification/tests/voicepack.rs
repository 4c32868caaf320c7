use wintermute_tts::voicepack::{resolve, Backend, VoicePackError};

#[test]
fn bare_name_resolves_to_piper() {
    let backend = resolve("en_US-lessac-medium").expect("bare name resolves");
    assert_eq!(
        backend,
        Backend::Piper { model_path: "en_US-lessac-medium.onnx".to_string() }
    );
}

#[test]
fn piper_prefix_is_explicit() {
    let backend = resolve("piper:en_GB-jenny-low").expect("piper prefix resolves");
    assert_eq!(
        backend,
        Backend::Piper { model_path: "en_GB-jenny-low.onnx".to_string() }
    );
}

#[test]
fn cloud_prefix_resolves_to_eleven_labs() {
    let backend = resolve("cloud:21m00Tcm4TlvDq8ikWAM").expect("cloud resolves");
    assert_eq!(
        backend,
        Backend::ElevenLabs { voice_id: "21m00Tcm4TlvDq8ikWAM".to_string() }
    );
}

#[test]
fn espeak_prefix_resolves_with_args() {
    let backend = resolve("espeak:-v en-us -s 175").expect("espeak resolves");
    assert_eq!(
        backend,
        Backend::EspeakNg {
            args: vec![
                "-v".to_string(),
                "en-us".to_string(),
                "-s".to_string(),
                "175".to_string(),
            ]
        }
    );
}

#[test]
fn empty_name_is_error() {
    assert_eq!(resolve(""), Err(VoicePackError::Empty));
    assert_eq!(resolve("   "), Err(VoicePackError::Empty));
}

#[test]
fn empty_cloud_id_is_error() {
    assert_eq!(resolve("cloud:"), Err(VoicePackError::EmptyCloudId));
    assert_eq!(resolve("cloud:   "), Err(VoicePackError::EmptyCloudId));
}

#[test]
fn empty_espeak_args_is_error() {
    assert_eq!(resolve("espeak:"), Err(VoicePackError::EmptyEspeakArgs));
    assert_eq!(resolve("espeak:   "), Err(VoicePackError::EmptyEspeakArgs));
}

#[test]
fn whitespace_around_name_is_trimmed() {
    let backend = resolve("  en_US-amy-medium  ").expect("trimmed bare name resolves");
    assert_eq!(
        backend,
        Backend::Piper { model_path: "en_US-amy-medium.onnx".to_string() }
    );
}

#[test]
fn voicepack_resolver_present() {
    let backend = resolve("en_US-lessac-medium").expect("bare name must resolve to Piper");
    assert_eq!(
        backend,
        Backend::Piper { model_path: "en_US-lessac-medium.onnx".to_string() },
        "AC8: resolver maps the default Piper voice to a Piper backend"
    );

    let cloud = resolve("cloud:21m00Tcm4TlvDq8ikWAM").expect("cloud: prefix must resolve");
    assert!(
        matches!(cloud, Backend::ElevenLabs { ref voice_id } if voice_id == "21m00Tcm4TlvDq8ikWAM"),
        "AC8: resolver maps cloud: prefix to ElevenLabs backend"
    );

    let espeak = resolve("espeak:-v en-us").expect("espeak: prefix must resolve");
    assert!(
        matches!(espeak, Backend::EspeakNg { ref args } if args == &["-v".to_string(), "en-us".to_string()]),
        "AC8: resolver maps espeak: prefix to EspeakNg backend"
    );
}

#[test]
fn unicode_white_space_is_trimmed_and_splits() {
    assert_eq!(
        resolve("\u{2003}espeak:\u{a0}-v\u{3000}de\t"),
        Ok(Backend::EspeakNg { args: vec!["-v".to_string(), "de".to_string()] })
    );
    assert_eq!(
        resolve("cloud: id with spaces "),
        Ok(Backend::ElevenLabs { voice_id: "id with spaces".to_string() })
    );
    assert_eq!(resolve("\u{200b}"), Ok(Backend::Piper { model_path: "\u{200b}.onnx".into() }));
    assert_eq!(resolve("piper:"), Ok(Backend::Piper { model_path: ".onnx".into() }));
}

#[test]
fn voicepack_errors_are_described() {
    assert_eq!(VoicePackError::Empty.message(), "voice-pack name is empty");
    assert_eq!(
        VoicePackError::EmptyCloudId.message(),
        "cloud voice id is empty after `cloud:` prefix"
    );
    assert_eq!(
        VoicePackError::EmptyEspeakArgs.message(),
        "espeak args list is empty after `espeak:` prefix"
    );
}

#[test]
fn placeholder_ac() {}
