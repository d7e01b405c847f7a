use spotidown::{
    run_download_stream, AudioFormat, ConverterAction, ConverterMachine, DecryptStage,
    EncodeOutcome, EncoderSettings, Quality, SpotifyError, StreamDriver, HEADER_LEN,
};

fn sample_bytes(n: usize) -> Vec<u8> {
    (0..n).map(|i| (i % 251) as u8).collect()
}

#[test]
fn decrypt_stage_reproduces_plaintext_minus_header() {
    // A synthetic source of known plaintext, fed in fixed-size chunks with the
    // decryption done upstream, reproduces the plaintext bit for bit in the
    // output, minus the skipped header region.
    let plain = sample_bytes(1000);
    let chunks: Vec<Vec<u8>> = plain.chunks(100).map(|c| c.to_vec()).collect();
    let (out, progress) = run_download_stream(&chunks, plain.len());
    assert_eq!(out, plain[HEADER_LEN..].to_vec());
    // One report per chunk that contributed payload, never decreasing.
    assert_eq!(progress.len(), 9);
    let mut last = 0usize;
    for (read, total) in progress {
        assert!(read >= last);
        assert_eq!(total, 1000);
        last = read;
    }
    assert_eq!(last, 1000 - HEADER_LEN);
}

#[test]
fn decrypt_stage_header_split_across_chunks() {
    let plain = sample_bytes(400);
    // The header region ends inside the second chunk.
    let chunks = vec![plain[..150].to_vec(), plain[150..200].to_vec(), plain[200..].to_vec()];
    let mut stage = DecryptStage::new();
    assert_eq!(stage.feed(&chunks[0]), Vec::<u8>::new());
    assert_eq!(stage.feed(&chunks[1]), plain[HEADER_LEN..200].to_vec());
    assert_eq!(stage.feed(&chunks[2]), plain[200..].to_vec());
}

#[test]
fn decrypt_stage_exact_header_chunk() {
    let plain = sample_bytes(300);
    let chunks = vec![plain[..HEADER_LEN].to_vec(), Vec::new(), plain[HEADER_LEN..].to_vec()];
    let (out, progress) = run_download_stream(&chunks, plain.len());
    assert_eq!(out, plain[HEADER_LEN..].to_vec());
    // The header chunk and the empty chunk emit no progress.
    assert_eq!(progress.len(), 1);
    assert_eq!(progress[0], (plain.len() - HEADER_LEN, plain.len()));
}

#[test]
fn progress_is_monotonic_and_tracks_source_bytes() {
    let mut driver = StreamDriver::new(500);
    let mut last = 0usize;
    for len in [100usize, 0, 250, 150] {
        match driver.on_chunk(len) {
            Some((read, total)) => {
                assert!(read >= last);
                assert_eq!(total, 500);
                last = read;
            }
            None => assert_eq!(len, 0),
        }
    }
    assert_eq!(driver.bytes_read(), 500);
    driver.on_end();
    assert!(driver.finished());
    assert!(driver.file_exists());
}

#[test]
fn zero_length_chunk_is_not_eof_and_emits_no_progress() {
    let mut driver = StreamDriver::new(100);
    assert!(driver.on_chunk(0).is_none());
    assert!(!driver.finished());
    assert!(!driver.failed());
    assert_eq!(driver.bytes_read(), 0);
    // The stream goes on: a later chunk still reports progress.
    assert_eq!(driver.on_chunk(40), Some((40, 100)));
}

#[test]
fn stream_error_removes_destination_file() {
    let mut driver = StreamDriver::new(100);
    driver.on_chunk(30);
    assert!(driver.file_exists());
    driver.on_error();
    assert!(driver.failed());
    assert!(!driver.file_exists());
    assert!(!driver.finished());
}

#[test]
fn progress_may_exceed_declared_total() {
    // Output of a re-encoded stream can overshoot the declared source size;
    // the driver reports it as-is and callers clamp for display.
    let mut driver = StreamDriver::new(100);
    assert_eq!(driver.on_chunk(150), Some((150, 100)));
}

#[test]
fn encoder_settings_enforce_tier_floor() {
    let s = EncoderSettings::new(Quality::Q320, 44100);
    assert_eq!(s.sample_rate, 44100);
    assert_eq!(s.channels, 2);
    assert_eq!(s.vbr_quality, 0);
    assert_eq!(s.min_bitrate_kbps, 320);
    assert!(s.enforce_min_bitrate);
    assert_eq!(EncoderSettings::new(Quality::Q256, 48000).min_bitrate_kbps, 256);
    assert_eq!(EncoderSettings::new(Quality::Q160, 48000).min_bitrate_kbps, 160);
    assert_eq!(EncoderSettings::new(Quality::Q96, 48000).min_bitrate_kbps, 96);
}

#[test]
fn converter_accepts_only_ogg_sources() {
    assert!(ConverterMachine::new(AudioFormat::OGG).is_ok());
    assert!(matches!(
        ConverterMachine::new(AudioFormat::AAC),
        Err(SpotifyError::InvalidFormat)
    ));
    assert!(matches!(
        ConverterMachine::new(AudioFormat::MP4),
        Err(SpotifyError::InvalidFormat)
    ));
    assert!(matches!(
        ConverterMachine::new(AudioFormat::Unknown),
        Err(SpotifyError::InvalidFormat)
    ));
}

#[test]
fn converter_skips_zero_sample_packets() {
    let mut m = ConverterMachine::new(AudioFormat::OGG).unwrap();
    assert!(matches!(m.on_packet(0), ConverterAction::SkipPacket));
    assert!(!m.is_ended());
    assert!(matches!(m.on_packet(1024), ConverterAction::EncodePacket));
}

#[test]
fn converter_zero_encoder_output_is_not_eof() {
    let mut m = ConverterMachine::new(AudioFormat::OGG).unwrap();
    m.on_packet(1024);
    assert!(matches!(m.on_encode_status(0), EncodeOutcome::ReadAgain));
    assert!(!m.is_ended());
    assert!(matches!(m.on_encode_status(417), EncodeOutcome::Output(417)));
}

#[test]
fn converter_negative_status_aborts() {
    let mut m = ConverterMachine::new(AudioFormat::OGG).unwrap();
    m.on_packet(1024);
    match m.on_encode_status(-5) {
        EncodeOutcome::Abort(SpotifyError::Encoder(s)) => assert_eq!(s, -5),
        _ => panic!("expected an encoder abort"),
    }
    assert!(m.is_ended());
    assert!(matches!(m.on_packet(512), ConverterAction::Eof));
}

#[test]
fn converter_flushes_exactly_once() {
    let mut m = ConverterMachine::new(AudioFormat::OGG).unwrap();
    assert!(matches!(m.on_stream_end(), ConverterAction::Flush));
    assert!(m.is_ended());
    assert!(matches!(m.on_stream_end(), ConverterAction::Eof));
    assert!(matches!(m.on_packet(100), ConverterAction::Eof));
}

#[test]
fn converter_decode_error_closes_quietly() {
    let mut m = ConverterMachine::new(AudioFormat::OGG).unwrap();
    assert!(matches!(m.on_decode_error(), ConverterAction::Eof));
    assert!(m.is_ended());
    assert!(matches!(m.on_stream_end(), ConverterAction::Eof));
}
