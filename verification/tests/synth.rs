use std::cell::RefCell;
use wintermute_tts::single::Single;
use wintermute_tts::synth::{
    apply_gain_to_wav, apply_gain_to_wav_bytes, gain_outcome, PiperRun, PiperSubprocess,
    SynthError, VoiceConfig, GAIN_MAX, GAIN_MIN, SPEAKING_RATE_MAX, SPEAKING_RATE_MIN,
};

fn single(x: f32) -> Single {
    Single::from_bits(x.to_bits())
}

fn settings(speaking_rate: f32, gain: f32) -> VoiceConfig {
    VoiceConfig { speaking_rate: single(speaking_rate), gain: single(gain) }
}

fn value(s: Single) -> f32 {
    f32::from_bits(s.bits)
}

fn env<'a>(pairs: &'a [(&'a str, &'a str)]) -> impl Fn(&str) -> Option<String> + 'a {
    move |key: &str| pairs.iter().find(|p| p.0 == key).map(|p| p.1.to_string())
}

#[test]
fn default_voice_config_elder_friendly() {
    let vc = VoiceConfig::default();
    assert!(
        value(vc.speaking_rate) < 1.0,
        "default speaking_rate should be slower than baseline"
    );
    assert!(value(vc.gain) > 1.0, "default gain should be louder than unity");
    assert_eq!(value(vc.speaking_rate), 0.85);
    assert_eq!(value(vc.gain), 1.20);
}

#[test]
fn neutral_rate_skips_length_scale() {
    let vc = settings(1.0, 1.0);
    assert!(vc.is_rate_neutral());
    assert!(vc.is_gain_unity());
}

#[test]
fn non_neutral_rate_produces_length_scale() {
    let vc = settings(0.5, 1.0);
    assert!(!vc.is_rate_neutral());
    let ls = value(vc.piper_length_scale());
    assert!(
        (ls - 2.0_f32).abs() < 1e-5,
        "0.5 speaking_rate → length_scale 2.0, got {ls}"
    );
}

#[test]
fn argv_includes_length_scale_for_non_neutral_rate() {
    let ps = PiperSubprocess::new("piper".to_string(), "/models".to_string(), settings(0.8, 1.0));
    let argv = ps.build_argv("en_US-lessac-medium", "/tmp/out.wav");
    let ls_idx = argv.iter().position(|a| a == "--length_scale");
    assert!(
        ls_idx.is_some(),
        "argv must contain --length_scale for non-neutral rate: {argv:?}"
    );
    let ls_val: f32 = argv[ls_idx.unwrap() + 1].parse().unwrap();
    assert!((ls_val - 1.25_f32).abs() < 1e-4, "expected ~1.25, got {ls_val}");
    assert_eq!(
        argv,
        vec![
            "piper",
            "--model",
            "/models/en_US-lessac-medium.onnx",
            "--length_scale",
            "1.250000",
            "--output_file",
            "/tmp/out.wav",
        ]
    );
}

#[test]
fn argv_omits_length_scale_for_neutral_rate() {
    let ps = PiperSubprocess::new("piper".to_string(), "/models".to_string(), settings(1.0, 1.0));
    let argv = ps.build_argv("en_US-lessac-medium", "/tmp/out.wav");
    assert!(
        !argv.contains(&"--length_scale".to_string()),
        "neutral rate must not emit --length_scale: {argv:?}"
    );
}

#[test]
fn speaking_rate_clamped_at_min() {
    let vc = settings(-1.0, 1.0);
    assert_eq!(vc.effective_speaking_rate().bits, SPEAKING_RATE_MIN);
}

#[test]
fn speaking_rate_clamped_at_max() {
    let vc = settings(999.0, 1.0);
    assert_eq!(vc.effective_speaking_rate().bits, SPEAKING_RATE_MAX);
}

#[test]
fn gain_clamped_at_min() {
    let vc = settings(1.0, -5.0);
    assert_eq!(vc.effective_gain().bits, GAIN_MIN);
}

#[test]
fn gain_clamped_at_max() {
    let vc = settings(1.0, 100.0);
    assert_eq!(vc.effective_gain().bits, GAIN_MAX);
}

/// A minimal 16-bit mono WAV file with these samples.
fn build_pcm16_wav(sample_rate: u32, samples: &[i16]) -> Vec<u8> {
    let num_channels: u16 = 1;
    let bits_per_sample: u16 = 16;
    let byte_rate: u32 = sample_rate * u32::from(num_channels) * u32::from(bits_per_sample) / 8;
    let block_align: u16 = num_channels * bits_per_sample / 8;
    let data_bytes: u32 = (samples.len() as u32) * 2;
    let riff_size: u32 = 4 + (8 + 16) + (8 + data_bytes);
    let mut buf = Vec::new();
    buf.extend_from_slice(b"RIFF");
    buf.extend_from_slice(&riff_size.to_le_bytes());
    buf.extend_from_slice(b"WAVE");
    buf.extend_from_slice(b"fmt ");
    buf.extend_from_slice(&16u32.to_le_bytes());
    buf.extend_from_slice(&1u16.to_le_bytes());
    buf.extend_from_slice(&num_channels.to_le_bytes());
    buf.extend_from_slice(&sample_rate.to_le_bytes());
    buf.extend_from_slice(&byte_rate.to_le_bytes());
    buf.extend_from_slice(&block_align.to_le_bytes());
    buf.extend_from_slice(&bits_per_sample.to_le_bytes());
    buf.extend_from_slice(b"data");
    buf.extend_from_slice(&data_bytes.to_le_bytes());
    for s in samples {
        buf.extend_from_slice(&s.to_le_bytes());
    }
    buf
}

fn read_samples_from_wav(bytes: &[u8]) -> Vec<i16> {
    let mut cursor = 12usize;
    while cursor + 8 <= bytes.len() {
        let id = &bytes[cursor..cursor + 4];
        let size = u32::from_le_bytes([
            bytes[cursor + 4],
            bytes[cursor + 5],
            bytes[cursor + 6],
            bytes[cursor + 7],
        ]) as usize;
        let body_start = cursor + 8;
        if id == b"data" {
            let body_end = (body_start + size).min(bytes.len());
            let mut samples = Vec::new();
            let mut i = body_start;
            while i + 1 < body_end {
                samples.push(i16::from_le_bytes([bytes[i], bytes[i + 1]]));
                i += 2;
            }
            return samples;
        }
        let pad = usize::from(size % 2 != 0);
        cursor = body_start + size + pad;
    }
    vec![]
}

#[test]
fn gain_2x_doubles_samples() {
    let input: Vec<i16> = vec![100, -200, 0, 1000];
    let mut bytes = build_pcm16_wav(22050, &input);
    apply_gain_to_wav_bytes(&mut bytes, single(2.0));
    let out = read_samples_from_wav(&bytes);
    assert_eq!(out, vec![200, -400, 0, 2000]);
}

#[test]
fn gain_unity_preserves_samples() {
    let input: Vec<i16> = vec![1000, -1000, 0, 32767, -32768];
    let mut bytes = build_pcm16_wav(22050, &input);
    apply_gain_to_wav_bytes(&mut bytes, single(1.0));
    let out = read_samples_from_wav(&bytes);
    assert_eq!(out, input);
}

#[test]
fn full_scale_at_max_gain_does_not_clip_beyond_i16_range() {
    let input: Vec<i16> = vec![i16::MAX, i16::MIN, i16::MAX / 2, -(i16::MAX / 2)];
    let mut bytes = build_pcm16_wav(22050, &input);
    apply_gain_to_wav_bytes(&mut bytes, single(f32::from_bits(GAIN_MAX)));
    let out = read_samples_from_wav(&bytes);
    assert_eq!(out.len(), input.len());
    assert_eq!(out[0], i16::MAX, "full-scale positive must saturate at i16::MAX");
    assert_eq!(out[1], i16::MIN, "full-scale negative must saturate at i16::MIN");
}

#[test]
fn non_riff_bytes_left_unchanged() {
    let mut bytes = b"NOT-A-WAV-FILE".to_vec();
    let original = bytes.clone();
    apply_gain_to_wav_bytes(&mut bytes, single(2.0));
    assert_eq!(bytes, original, "non-RIFF bytes must not be modified");
}

#[test]
fn from_env_defaults_to_piper_on_path() {
    let s = PiperSubprocess::from_env(&env(&[("HOME", "/home/u")]));
    assert_eq!(s.bin, "piper");
    assert!(s.models_root.ends_with(".local/share/wintermute/tts/models"));
    assert_eq!(s.models_root, "/home/u/.local/share/wintermute/tts/models");
    let s = PiperSubprocess::from_env(&env(&[]));
    assert_eq!(s.models_root, ".local/share/wintermute/tts/models");
    let s = PiperSubprocess::from_env(&env(&[("WM_TTS_VOICE_DIR", "/v"), ("HOME", "/home/u")]));
    assert_eq!(s.models_root, "/v");
}

#[test]
fn from_env_uses_elder_friendly_defaults() {
    let s = PiperSubprocess::from_env(&env(&[]));
    assert!(value(s.voice_config.speaking_rate) < 1.0);
    assert!(value(s.voice_config.gain) > 1.0);
}

#[test]
fn missing_binary_yields_backend_missing() {
    let s = PiperSubprocess::new(
        "/definitely/not/a/real/piper-binary-xyz".to_string(),
        "/tmp/no-models".to_string(),
        settings(1.0, 1.0),
    );
    let err = s
        .render_through(
            "en_US-lessac-medium",
            "hello",
            "/tmp/x.wav",
            |_: &Vec<String>, _: &str| PiperRun::NotFound,
            |_: &str| panic!("nothing to scale"),
            |_: &str, _: &[u8]| panic!("nothing to scale"),
        )
        .expect_err("missing binary must error");
    assert!(matches!(&err, SynthError::BackendMissing(_)));
    assert_eq!(
        err.message(),
        "backend binary not found: /definitely/not/a/real/piper-binary-xyz"
    );
}

#[test]
fn rendering_runs_piper_and_then_scales() {
    let s = PiperSubprocess::new("piper".to_string(), "/m".to_string(), settings(0.5, 30.0));
    let seen: RefCell<Vec<String>> = RefCell::new(Vec::new());
    let stored: RefCell<Vec<u8>> = RefCell::new(build_pcm16_wav(22050, &[1, -100, 10_000]));
    let done = s.render_through(
        "v",
        "the text",
        "/c/o.wav",
        |argv: &Vec<String>, text: &str| {
            seen.borrow_mut().extend(argv.iter().cloned());
            seen.borrow_mut().push(text.to_string());
            PiperRun::Exited { success: true, code: Some(0), stderr: String::new() }
        },
        |path: &str| {
            assert_eq!(path, "/c/o.wav");
            Ok(stored.borrow().clone())
        },
        |path: &str, bytes: &[u8]| {
            assert_eq!(path, "/c/o.wav");
            *stored.borrow_mut() = bytes.to_vec();
            Ok(())
        },
    );
    assert_eq!(done, Ok(()));
    assert_eq!(
        *seen.borrow(),
        vec![
            "piper",
            "--model",
            "/m/v.onnx",
            "--length_scale",
            "2.000000",
            "--output_file",
            "/c/o.wav",
            "the text",
        ]
    );
    assert_eq!(read_samples_from_wav(&stored.borrow()), vec![4, -400, 32767]);
}

#[test]
fn runs_of_piper_are_judged() {
    let s = PiperSubprocess::new("piper".to_string(), "/m".to_string(), settings(1.0, 1.0));
    let ok = PiperRun::Exited { success: true, code: Some(0), stderr: "x".to_string() };
    assert!(matches!(s.run_outcome(&ok), Ok(None)));
    let long = format!("{}é", "x".repeat(255));
    let failed = PiperRun::Exited { success: false, code: None, stderr: long };
    assert_eq!(
        s.run_outcome(&failed).err(),
        Some(SynthError::BackendFailed { status: -1, stderr: "x".repeat(255) })
    );
    let io = SynthError::Io { path: "piper".to_string(), source: "why".to_string() };
    assert_eq!(io.message(), "i/o failure on piper: why");
    for run in [
        PiperRun::SpawnFailed("why".to_string()),
        PiperRun::WriteFailed("why".to_string()),
        PiperRun::WaitFailed("why".to_string()),
    ] {
        assert_eq!(
            s.run_outcome(&run).err(),
            Some(SynthError::Io { path: "piper".to_string(), source: "why".to_string() })
        );
    }
    assert_eq!(
        gain_outcome("/o.wav", Err("disk".to_string())),
        Err(SynthError::Io { path: "/o.wav".to_string(), source: "disk".to_string() })
    );
}

#[test]
fn gain_replaces_the_file() {
    let stored: RefCell<Vec<u8>> = RefCell::new(build_pcm16_wav(22050, &[1, -3, 20000]));
    let before = stored.borrow().clone();
    let done = apply_gain_to_wav(
        "/o.wav",
        single(1.5),
        |_: &str| Ok(before.clone()),
        |path: &str, bytes: &[u8]| {
            assert_eq!(path, "/o.wav");
            *stored.borrow_mut() = bytes.to_vec();
            Ok(())
        },
    );
    assert_eq!(done, Ok(()));
    assert_eq!(read_samples_from_wav(&stored.borrow()), vec![1, -4, 30000]);
    assert_eq!(stored.borrow()[..44], before[..44]);
    let failed = apply_gain_to_wav(
        "/o.wav",
        single(1.5),
        |_: &str| Err("gone".to_string()),
        |_: &str, _: &[u8]| panic!("nothing to write"),
    );
    assert_eq!(failed, Err("gone".to_string()));
}

#[test]
fn settings_that_are_no_number_are_clamped_like_any_other() {
    let vc = settings(f32::NAN, f32::INFINITY);
    assert!(value(vc.effective_speaking_rate()).is_nan());
    assert_eq!(vc.effective_gain().bits, GAIN_MAX);
    assert!(!vc.is_rate_neutral());
    let vc = settings(1.0 + f32::EPSILON / 2.0, 1.0 - f32::EPSILON / 2.0);
    assert!(vc.is_rate_neutral());
    assert!(vc.is_gain_unity());
    let vc = settings(1.0 + f32::EPSILON, 1.0 - f32::EPSILON);
    assert!(!vc.is_rate_neutral());
    assert!(!vc.is_gain_unity());
}

#[test]
fn odd_byte_and_other_chunks_are_kept() {
    let mut bytes = b"RIFF\0\0\0\0WAVELIST\x03\0\0\0abc\0data\x05\0\0\0\x01\0\x02\0\x7f".to_vec();
    apply_gain_to_wav_bytes(&mut bytes, single(2.0));
    assert_eq!(
        bytes,
        b"RIFF\0\0\0\0WAVELIST\x03\0\0\0abc\0data\x05\0\0\0\x02\0\x04\0\x7f".to_vec()
    );
}

/// What single-precision arithmetic makes of a sample.
fn expected_sample(s: i16, gain: f32) -> i16 {
    (f32::from(s) * gain).clamp(f32::from(i16::MIN), f32::from(i16::MAX)) as i16
}

#[test]
fn samples_are_scaled_as_in_single_precision() {
    let gains = [
        0.0,
        -0.0,
        1.0,
        1.2,
        0.85,
        0.1,
        4.0,
        3.999_999_8,
        0.999_999_94,
        1.000_000_1,
        0.333_333_34,
        1.5,
        -1.0,
        -2.5,
        1.0e-30,
        1.0e30,
        f32::MIN_POSITIVE,
        f32::from_bits(1),
        f32::MAX,
        f32::INFINITY,
        f32::NEG_INFINITY,
        f32::NAN,
    ];
    for gain in gains {
        for s in i16::MIN..=i16::MAX {
            assert_eq!(
                single(gain).scale(s),
                expected_sample(s, gain),
                "{s} times {gain}"
            );
        }
    }
}

#[test]
fn samples_are_scaled_alike_under_many_gains() {
    let mut bits: u32 = 0x3f80_0000;
    for i in 0..200_000u32 {
        bits = bits.wrapping_mul(1_664_525).wrapping_add(1_013_904_223);
        let gain = f32::from_bits(bits);
        let s = (i.wrapping_mul(40_503) >> 3) as u16 as i16;
        assert_eq!(single(gain).scale(s), expected_sample(s, gain), "{s} times {gain}");
        let near = f32::from_bits(0x3d80_0000 + bits % 0x0300_0000);
        assert_eq!(single(near).scale(s), expected_sample(s, near), "{s} times {near}");
    }
}

#[test]
fn length_scale_is_as_in_single_precision() {
    let check = |bits: u32| {
        let rate = f32::from_bits(bits);
        let vc = VoiceConfig { speaking_rate: Single::from_bits(bits), gain: single(1.0) };
        let expected = 1.0_f32 / rate;
        assert_eq!(value(vc.piper_length_scale()), expected, "1 / {rate}");
        assert_eq!(vc.write_length_scale(), format!("{expected:.6}"), "1 / {rate}");
    };
    check(SPEAKING_RATE_MIN);
    check(SPEAKING_RATE_MAX);
    for rate in [0.5_f32, 0.85, 1.0, 0.25, 2.0, 4.0, 0.125, 0.8, 3.0, 0.999_999_94] {
        check(rate.to_bits());
    }
    // Rates whose reciprocal ends in a half of a millionth.
    for odd in (27..1279u32).step_by(2) {
        check((128.0_f32 / odd as f32).to_bits());
    }
    let span = SPEAKING_RATE_MAX - SPEAKING_RATE_MIN;
    for i in 0..100_000u32 {
        check(SPEAKING_RATE_MIN + ((u64::from(span) * u64::from(i)) / 99_999) as u32);
    }
    let vc = settings(f32::NAN, 1.0);
    assert!(value(vc.piper_length_scale()).is_nan());
    assert_eq!(vc.write_length_scale(), format!("{:.6}", f32::NAN));
    let vc = settings(100.0, 1.0);
    assert_eq!(vc.write_length_scale(), "0.200000");
}

#[test]
fn comparisons_are_those_of_single_precision() {
    let values = [
        0.0_f32,
        -0.0,
        1.0,
        -1.0,
        0.1,
        f32::MIN_POSITIVE,
        f32::from_bits(1),
        f32::MAX,
        f32::MIN,
        f32::INFINITY,
        f32::NEG_INFINITY,
        f32::NAN,
    ];
    for a in values {
        for b in values {
            assert_eq!(single(a) == single(b), a == b, "{a} == {b}");
            assert_eq!(single(a).less(single(b)), a < b, "{a} < {b}");
        }
        assert_eq!(single(a).is_nan(), a.is_nan());
    }
    assert_eq!(VoiceConfig::default(), settings(0.85, 1.2));
}

#[test]
fn full_scale_and_sign_are_kept() {
    for gain in [1.0_f32, 1.2, 3.5, 4.0, f32::MAX] {
        assert_eq!(single(gain).scale(i16::MAX), i16::MAX);
        assert_eq!(single(gain).scale(i16::MIN), i16::MIN);
    }
    assert_eq!(single(0.5).scale(-3), -1);
    assert_eq!(single(0.5).scale(3), 1);
    assert_eq!(single(f32::NAN).scale(1000), 0);
}

#[test]
fn slower_speech_is_stretched_more() {
    let rates = [
        f32::NEG_INFINITY,
        -1.0,
        0.0,
        0.05,
        0.1,
        0.5,
        0.85,
        0.999_999_94,
        1.0,
        1.5,
        4.999_999_5,
        5.0,
        999.0,
        f32::INFINITY,
    ];
    let scales: Vec<f32> =
        rates.iter().map(|r| value(settings(*r, 1.0).piper_length_scale())).collect();
    for pair in scales.windows(2) {
        assert!(pair[0] >= pair[1], "{} before {}", pair[0], pair[1]);
    }
    assert_eq!(scales[1], 1.0 / 0.1_f32);
    assert_eq!(scales[5], 2.0);
    assert_eq!(scales[12], 0.2);
}
