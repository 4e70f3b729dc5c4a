use sonorant::source::{
    int_sample, parse_wav, to_stereo, SourceStatus, WavEncoding, WavError, WavLayout,
};

fn wav_bytes(tag: u16, channels: u16, rate: u32, bits: u16, data: &[u8]) -> Vec<u8> {
    let mut v = Vec::new();
    v.extend_from_slice(b"RIFF");
    v.extend_from_slice(&(36 + data.len() as u32).to_le_bytes());
    v.extend_from_slice(b"WAVEfmt ");
    v.extend_from_slice(&16u32.to_le_bytes());
    v.extend_from_slice(&tag.to_le_bytes());
    v.extend_from_slice(&channels.to_le_bytes());
    v.extend_from_slice(&rate.to_le_bytes());
    let align = channels * bits / 8;
    v.extend_from_slice(&(rate * align as u32).to_le_bytes());
    v.extend_from_slice(&align.to_le_bytes());
    v.extend_from_slice(&bits.to_le_bytes());
    v.extend_from_slice(b"data");
    v.extend_from_slice(&(data.len() as u32).to_le_bytes());
    v.extend_from_slice(data);
    v
}

/// The samples of a file as stereo floats, read through the library's layout: integer
/// PCM scaled to the unit range, floats as stored.
fn frames(bytes: &[u8]) -> Result<(WavLayout, Vec<f32>), WavError> {
    let l = parse_wav(bytes)?;
    let width = match l.encoding {
        WavEncoding::Pcm8 => 1,
        WavEncoding::Pcm16 => 2,
        WavEncoding::Pcm24 => 3,
        WavEncoding::Pcm32 | WavEncoding::Float32 => 4,
        WavEncoding::Float64 => 8,
    };
    let mut samples = Vec::new();
    for k in 0..l.usable_samples() {
        let at = l.data_start + k * width;
        let v = match l.encoding {
            WavEncoding::Pcm8 => int_sample(l.encoding, bytes, at) as f32 / 128.0,
            WavEncoding::Pcm16 => int_sample(l.encoding, bytes, at) as f32 / 32768.0,
            WavEncoding::Pcm24 => int_sample(l.encoding, bytes, at) as f32 / 8_388_608.0,
            WavEncoding::Pcm32 => (int_sample(l.encoding, bytes, at) as f64 / 2_147_483_648.0) as f32,
            WavEncoding::Float32 => f32::from_le_bytes(bytes[at..at + 4].try_into().unwrap()),
            WavEncoding::Float64 => f64::from_le_bytes(bytes[at..at + 8].try_into().unwrap()) as f32,
        };
        samples.push(v);
    }
    let mut out = Vec::new();
    to_stereo(&samples, l.source_channels as usize, &mut out);
    Ok((l, out))
}

#[test]
fn reads_the_common_encodings() {
    let pcm16: Vec<u8> = [0i16, 16384, -32768, 32767]
        .iter()
        .flat_map(|s| s.to_le_bytes())
        .collect();
    let (l, w) = frames(&wav_bytes(1, 2, 44100, 16, &pcm16)).unwrap();
    assert_eq!(l.sample_rate, 44100);
    assert_eq!(w, [0.0, 0.5, -1.0, 32767.0 / 32768.0]);

    let mono24: Vec<u8> = vec![0x00, 0x00, 0x40, 0x00, 0x00, 0xC0];
    let (_, w) = frames(&wav_bytes(1, 1, 48000, 24, &mono24)).unwrap();
    assert_eq!(w, [0.5, 0.5, -0.5, -0.5]);

    let f32s: Vec<u8> = [0.25f32, -0.75, 0.1, 0.2, 0.3, 0.4]
        .iter()
        .flat_map(|s| s.to_le_bytes())
        .collect();
    let (l, w) = frames(&wav_bytes(3, 3, 96000, 32, &f32s)).unwrap();
    assert_eq!(l.source_channels, 3);
    assert_eq!(w, [0.25, -0.75, 0.2, 0.3]);

    assert!(parse_wav(b"RIFF....WAVEjunk").is_err());
    assert!(parse_wav(&wav_bytes(2, 2, 44100, 4, &[0; 8])).is_err());
}

#[test]
fn extra_channels_keep_the_front_pair() {
    let mut out = Vec::new();
    to_stereo(&[1.0, 2.0, 3.0, 4.0, 5.0, 6.0], 3, &mut out);
    assert_eq!(out, [1.0, 2.0, 4.0, 5.0]);
    to_stereo(&[1.0, 2.0], 1, &mut out);
    assert_eq!(out, [1.0, 1.0, 2.0, 2.0]);
}

#[test]
fn stereo_passes_through_and_no_channels_gives_nothing() {
    let mut out = vec![9];
    to_stereo(&[1, 2, 3, 4], 2, &mut out);
    assert_eq!(out, [1, 2, 3, 4]);
    to_stereo(&[1, 2, 3], 0, &mut out);
    assert!(out.is_empty());
    to_stereo(&[1, 2, 3, 4, 5, 6, 7], 4, &mut out);
    assert_eq!(out, [1, 2]);
}

#[test]
fn every_refusal_says_why() {
    assert_eq!(parse_wav(b"RIFX....WAVE"), Err(WavError::NotRiffWave));
    assert_eq!(parse_wav(b"RIFF....WAV"), Err(WavError::NotRiffWave));
    assert_eq!(parse_wav(b"RIFF....WAVEdata\x00\x00\x00\x00"), Err(WavError::NoFmtChunk));
    let mut no_data = wav_bytes(1, 2, 44100, 16, &[]);
    no_data.truncate(36);
    assert_eq!(parse_wav(&no_data), Err(WavError::NoDataChunk));
    assert_eq!(parse_wav(&wav_bytes(1, 0, 44100, 16, &[0; 4])), Err(WavError::NoChannelsOrRate));
    assert_eq!(parse_wav(&wav_bytes(1, 2, 0, 16, &[0; 4])), Err(WavError::NoChannelsOrRate));
    assert_eq!(
        parse_wav(&wav_bytes(2, 2, 44100, 4, &[0; 8])),
        Err(WavError::Unsupported { tag: 2, bits: 4 })
    );
    assert_eq!(
        WavError::Unsupported { tag: 2, bits: 4 }.message(),
        "unsupported WAV encoding: tag 2, 4 bits"
    );
    assert_eq!(WavError::NotRiffWave.message(), "not a RIFF WAVE file");
}

#[test]
fn chunks_are_walked_past_the_ones_not_wanted() {
    let mut v = Vec::new();
    v.extend_from_slice(b"RIFF\0\0\0\0WAVE");
    v.extend_from_slice(b"LIST\x03\0\0\0abc\0");
    let body = wav_bytes(1, 1, 8000, 8, &[128, 255, 0]);
    v.extend_from_slice(&body[12..]);
    let l = parse_wav(&v).unwrap();
    assert_eq!(l.encoding, WavEncoding::Pcm8);
    assert_eq!(l.data_len, 3);
    assert_eq!(int_sample(l.encoding, &v, l.data_start), 0);
    assert_eq!(int_sample(l.encoding, &v, l.data_start + 1), 127);
    assert_eq!(int_sample(l.encoding, &v, l.data_start + 2), -128);
}

#[test]
fn a_data_chunk_longer_than_the_file_runs_to_its_end() {
    let mut v = wav_bytes(1, 2, 44100, 16, &[1, 0, 2, 0, 3]);
    let n = v.len();
    v[n - 9..n - 5].copy_from_slice(&1000u32.to_le_bytes());
    let l = parse_wav(&v).unwrap();
    assert_eq!(l.data_len, 5);
    assert_eq!(l.usable_samples(), 2);
}

#[test]
fn the_extensible_header_names_its_real_format() {
    let mut v = Vec::new();
    v.extend_from_slice(b"RIFF\0\0\0\0WAVEfmt ");
    v.extend_from_slice(&40u32.to_le_bytes());
    let mut fmt = vec![0u8; 40];
    fmt[0..2].copy_from_slice(&0xFFFEu16.to_le_bytes());
    fmt[2..4].copy_from_slice(&2u16.to_le_bytes());
    fmt[4..8].copy_from_slice(&48000u32.to_le_bytes());
    fmt[14..16].copy_from_slice(&32u16.to_le_bytes());
    fmt[24..26].copy_from_slice(&3u16.to_le_bytes());
    v.extend_from_slice(&fmt);
    v.extend_from_slice(b"data\x08\0\0\0");
    v.extend_from_slice(&[0; 8]);
    let l = parse_wav(&v).unwrap();
    assert_eq!(l.encoding, WavEncoding::Float32);
    assert_eq!(l.sample_rate, 48000);
}

#[test]
fn statuses_read_as_the_status_line_says_them() {
    assert_eq!(SourceStatus::Starting.to_text(), "starting capture");
    assert_eq!(SourceStatus::Failed("no".into()).to_text(), "capture failed: no");
    assert_eq!(SourceStatus::Running("Whole system".into()).to_text(), "Whole system");
}
