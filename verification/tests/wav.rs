use wintermute_tts::wav::{
    parse_data_bytes, parse_data_bytes_bytes, parse_duration_ms, parse_duration_ms_bytes, WavError,
};

/// A minimal 16-bit mono WAV file.
fn build_wav(sample_rate: u32, data_bytes: usize) -> Vec<u8> {
    let num_channels: u16 = 1;
    let bits_per_sample: u16 = 16;
    let byte_rate: u32 = sample_rate * u32::from(num_channels) * u32::from(bits_per_sample) / 8;
    let block_align: u16 = num_channels * bits_per_sample / 8;
    let data_size: u32 = u32::try_from(data_bytes).unwrap();
    let riff_size: u32 = 4 + (8 + 16) + (8 + data_size);
    let mut buf = Vec::new();
    buf.extend_from_slice(b"RIFF");
    buf.extend_from_slice(&riff_size.to_le_bytes());
    buf.extend_from_slice(b"WAVE");
    buf.extend_from_slice(b"fmt ");
    buf.extend_from_slice(&16u32.to_le_bytes());
    buf.extend_from_slice(&1u16.to_le_bytes());
    buf.extend_from_slice(&num_channels.to_le_bytes());
    buf.extend_from_slice(&sample_rate.to_le_bytes());
    buf.extend_from_slice(&byte_rate.to_le_bytes());
    buf.extend_from_slice(&block_align.to_le_bytes());
    buf.extend_from_slice(&bits_per_sample.to_le_bytes());
    buf.extend_from_slice(b"data");
    buf.extend_from_slice(&data_size.to_le_bytes());
    buf.resize(buf.len() + data_bytes, 0u8);
    buf
}

fn fmt_chunk(sample_rate: u32, byte_rate: u32) -> Vec<u8> {
    let mut buf = Vec::new();
    buf.extend_from_slice(b"fmt ");
    buf.extend_from_slice(&16u32.to_le_bytes());
    buf.extend_from_slice(&1u16.to_le_bytes());
    buf.extend_from_slice(&1u16.to_le_bytes());
    buf.extend_from_slice(&sample_rate.to_le_bytes());
    buf.extend_from_slice(&byte_rate.to_le_bytes());
    buf.extend_from_slice(&2u16.to_le_bytes());
    buf.extend_from_slice(&16u16.to_le_bytes());
    buf
}

#[test]
fn one_second_22050hz_mono_16bit_is_1000ms() {
    let bytes = build_wav(22050, 44100);
    let ms = parse_duration_ms_bytes(&bytes).unwrap();
    assert_eq!(ms, 1000);
}

#[test]
fn half_second_44100hz_mono_16bit_is_500ms() {
    let bytes = build_wav(44100, 44100);
    let ms = parse_duration_ms_bytes(&bytes).unwrap();
    assert_eq!(ms, 500);
}

#[test]
fn empty_body_is_zero_ms() {
    let bytes = build_wav(22050, 0);
    let ms = parse_duration_ms_bytes(&bytes).unwrap();
    assert_eq!(ms, 0);
}

#[test]
fn non_riff_is_rejected() {
    let bytes = b"NOTAWAVEFILE";
    let err = parse_duration_ms_bytes(bytes).unwrap_err();
    assert!(matches!(err, WavError::NotRiff));
}

#[test]
fn too_short_is_rejected() {
    let bytes = b"RIFF";
    let err = parse_duration_ms_bytes(bytes).unwrap_err();
    assert!(matches!(err, WavError::NotRiff));
}

#[test]
fn missing_data_chunk_is_rejected() {
    let mut buf = Vec::new();
    buf.extend_from_slice(b"RIFF");
    buf.extend_from_slice(&(4u32 + 8 + 16).to_le_bytes());
    buf.extend_from_slice(b"WAVE");
    buf.extend_from_slice(b"fmt ");
    buf.extend_from_slice(&16u32.to_le_bytes());
    buf.extend_from_slice(&1u16.to_le_bytes());
    buf.extend_from_slice(&1u16.to_le_bytes());
    buf.extend_from_slice(&22050u32.to_le_bytes());
    buf.extend_from_slice(&44100u32.to_le_bytes());
    buf.extend_from_slice(&2u16.to_le_bytes());
    buf.extend_from_slice(&16u16.to_le_bytes());
    let err = parse_duration_ms_bytes(&buf).unwrap_err();
    assert!(matches!(err, WavError::MissingData));
}

#[test]
fn truncated_fmt_chunk_is_rejected() {
    let mut buf = Vec::new();
    buf.extend_from_slice(b"RIFF");
    buf.extend_from_slice(&20u32.to_le_bytes());
    buf.extend_from_slice(b"WAVE");
    buf.extend_from_slice(b"fmt ");
    buf.extend_from_slice(&8u32.to_le_bytes());
    buf.extend_from_slice(&[0u8; 8]);
    let err = parse_duration_ms_bytes(&buf).unwrap_err();
    assert!(matches!(err, WavError::TruncatedFmt));
}

#[test]
fn unknown_chunks_are_skipped() {
    let sample_rate: u32 = 22050;
    let data_bytes: usize = 44100;
    let byte_rate: u32 = 44100;
    let extra_payload: [u8; 6] = *b"LISTab";
    let extra_size: u32 = 6;
    let data_u32 = u32::try_from(data_bytes).unwrap();
    let riff_size: u32 = 4 + (8 + extra_size) + (8 + 16) + (8 + data_u32);
    let mut buf = Vec::new();
    buf.extend_from_slice(b"RIFF");
    buf.extend_from_slice(&riff_size.to_le_bytes());
    buf.extend_from_slice(b"WAVE");
    buf.extend_from_slice(b"LIST");
    buf.extend_from_slice(&extra_size.to_le_bytes());
    buf.extend_from_slice(&extra_payload);
    buf.extend_from_slice(b"fmt ");
    buf.extend_from_slice(&16u32.to_le_bytes());
    buf.extend_from_slice(&1u16.to_le_bytes());
    buf.extend_from_slice(&1u16.to_le_bytes());
    buf.extend_from_slice(&sample_rate.to_le_bytes());
    buf.extend_from_slice(&byte_rate.to_le_bytes());
    buf.extend_from_slice(&2u16.to_le_bytes());
    buf.extend_from_slice(&16u16.to_le_bytes());
    buf.extend_from_slice(b"data");
    buf.extend_from_slice(&data_u32.to_le_bytes());
    buf.resize(buf.len() + data_bytes, 0u8);
    let ms = parse_duration_ms_bytes(&buf).unwrap();
    assert_eq!(ms, 1000);
}

#[test]
fn odd_sized_chunk_is_padded_to_even() {
    let sample_rate: u32 = 22050;
    let data_bytes: usize = 22050;
    let byte_rate: u32 = 44100;
    let extra_size: u32 = 5;
    let mut buf = Vec::new();
    buf.extend_from_slice(b"RIFF");
    buf.extend_from_slice(&0u32.to_le_bytes());
    buf.extend_from_slice(b"WAVE");
    buf.extend_from_slice(b"LIST");
    buf.extend_from_slice(&extra_size.to_le_bytes());
    buf.extend_from_slice(b"abcde");
    buf.push(0);
    buf.extend_from_slice(b"fmt ");
    buf.extend_from_slice(&16u32.to_le_bytes());
    buf.extend_from_slice(&1u16.to_le_bytes());
    buf.extend_from_slice(&1u16.to_le_bytes());
    buf.extend_from_slice(&sample_rate.to_le_bytes());
    buf.extend_from_slice(&byte_rate.to_le_bytes());
    buf.extend_from_slice(&2u16.to_le_bytes());
    buf.extend_from_slice(&16u16.to_le_bytes());
    let data_u32 = u32::try_from(data_bytes).unwrap();
    buf.extend_from_slice(b"data");
    buf.extend_from_slice(&data_u32.to_le_bytes());
    buf.resize(buf.len() + data_bytes, 0u8);
    let ms = parse_duration_ms_bytes(&buf).unwrap();
    assert_eq!(ms, 500);
}

#[test]
fn round_trip_through_tempfile() {
    let bytes = build_wav(16000, 16000);
    let ms = parse_duration_ms("sample.wav", |path: &str| {
        assert_eq!(path, "sample.wav");
        Ok(bytes.clone())
    })
    .unwrap();
    assert_eq!(ms, 500);
    assert_eq!(parse_data_bytes("sample.wav", |_: &str| Ok(bytes.clone())), Ok(16000));
}

#[test]
fn unreadable_file_is_an_io_error() {
    let missing = |_: &str| Err("no such file".to_string());
    assert_eq!(
        parse_duration_ms("x.wav", missing),
        Err(WavError::Io("no such file".to_string()))
    );
    assert_eq!(
        parse_data_bytes("x.wav", missing),
        Err(WavError::Io("no such file".to_string()))
    );
}

#[test]
fn data_bytes_are_those_the_header_declares() {
    let mut bytes = build_wav(22050, 1234);
    assert_eq!(parse_data_bytes_bytes(&bytes), Ok(1234));
    bytes.truncate(60);
    assert_eq!(parse_data_bytes_bytes(&bytes), Err(WavError::MissingData));
    assert_eq!(parse_data_bytes_bytes(b"RIFF"), Err(WavError::NotRiff));
}

#[test]
fn missing_fmt_and_zero_rate_are_rejected() {
    let mut head = b"RIFF\0\0\0\0WAVE".to_vec();
    head.extend_from_slice(b"data\x02\0\0\0\0\0");
    assert_eq!(parse_duration_ms_bytes(&head), Err(WavError::MissingFmt));
    assert_eq!(parse_data_bytes_bytes(&head), Ok(2));
    let mut zero = b"RIFF\0\0\0\0WAVE".to_vec();
    zero.extend_from_slice(&fmt_chunk(22050, 0));
    zero.extend_from_slice(b"data\x02\0\0\0\0\0");
    assert_eq!(parse_duration_ms_bytes(&zero), Err(WavError::ZeroByteRate));
}

#[test]
fn wav_errors_are_described() {
    assert_eq!(WavError::Io("gone".to_string()).message(), "io reading wav: gone");
    assert_eq!(WavError::NotRiff.message(), "not a RIFF/WAVE container");
    assert_eq!(WavError::MissingFmt.message(), "fmt chunk missing");
    assert_eq!(WavError::MissingData.message(), "data chunk missing");
    assert_eq!(WavError::TruncatedFmt.message(), "fmt chunk truncated");
    assert_eq!(WavError::ZeroByteRate.message(), "byte_rate is zero");
    assert_eq!(WavError::SizeOverflow.message(), "chunk size overflow");
}

#[test]
fn unknown_chunk_is_skipped_between_any_two() {
    let mut plain = b"RIFF\0\0\0\0WAVE".to_vec();
    plain.extend_from_slice(&fmt_chunk(22050, 44100));
    plain.extend_from_slice(b"data\x04\0\0\0\x01\0\x02\0");
    plain.extend_from_slice(b"data\xff\0\0\0cut short");
    let fmt_end = 12 + 24;
    let data_end = fmt_end + 12;
    for extra in [&b"LIST\x03\0\0\0abc\0"[..], &b"bext\0\0\0\0"[..], &b"junk\x02\0\0\0xy"[..]] {
        for at in [12, fmt_end, data_end] {
            let mut with = plain[..at].to_vec();
            with.extend_from_slice(extra);
            with.extend_from_slice(&plain[at..]);
            assert_eq!(parse_duration_ms_bytes(&with), parse_duration_ms_bytes(&plain));
            assert_eq!(parse_data_bytes_bytes(&with), Ok(4));
        }
    }
}
