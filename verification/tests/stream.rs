use fetching_core::audio::{
    alternatives_needed, ogg_alternatives_needed, select_ogg_source, stop_after, AltLookup, OggSelectError,
    Source, StreamError,
    best_candidate, best_format, data_rate_bytes_per_sec, format_rank, header_len_for,
    strip_header_and_copy, AudioFormat, RetryConfig, RetryStep,
};
use fetching_core::stream::{
    calculate_retry_delay_ms, is_retriable_error, skip_header_and_copy, stream_step_after_failure,
    streaming_buffer_bytes, AUDIO_BUFFER_SIZE, MAX_RETRIES, RETRY_BASE_DELAY_MS, STREAM_ATTEMPTS,
    SPOTIFY_OGG_HEADER_END, STREAMING_BUFFER_HINT_KBPS,
};

#[test]
fn test_constants_are_valid() {
    assert_eq!(SPOTIFY_OGG_HEADER_END, 0xa7);
    assert_eq!(SPOTIFY_OGG_HEADER_END, 167);
    assert_eq!(STREAMING_BUFFER_HINT_KBPS, 160);
    assert_eq!(AUDIO_BUFFER_SIZE, 8192);
    assert_eq!(MAX_RETRIES, 3);
    assert_eq!(RETRY_BASE_DELAY_MS, 5000);
}

#[test]
fn test_retry_delay_calculation() {
    let base = RETRY_BASE_DELAY_MS;
    assert_eq!(base * (2_u64.pow(0)), 5000);
    assert_eq!(base * (2_u64.pow(1)), 10000);
    assert_eq!(base * (2_u64.pow(2)), 20000);
    assert_eq!(calculate_retry_delay_ms(1), 5000);
    assert_eq!(calculate_retry_delay_ms(2), 10000);
    assert_eq!(calculate_retry_delay_ms(3), 20000);
}

#[test]
fn test_header_skip_buffer_size() {
    let buffer = [0u8; SPOTIFY_OGG_HEADER_END];
    assert_eq!(buffer.len(), 167);
    assert_eq!(buffer.len(), SPOTIFY_OGG_HEADER_END);
}

#[test]
fn test_audio_buffer_size_is_power_of_two() {
    assert_eq!(AUDIO_BUFFER_SIZE, 8192);
    assert!(AUDIO_BUFFER_SIZE.is_power_of_two());
}

#[test]
fn test_streaming_buffer_calculation() {
    let bytes_per_second = (STREAMING_BUFFER_HINT_KBPS * 1024 / 8) as usize;
    assert_eq!(bytes_per_second, 20480);
    assert_eq!(streaming_buffer_bytes(), 20480);
}

#[test]
fn test_skip_header_and_copy_with_mock_data() {
    let mut input_data = vec![0xFF; SPOTIFY_OGG_HEADER_END];
    input_data.extend_from_slice(b"OggS\x00\x02");
    input_data.extend_from_slice(b"actual audio data here");
    let mut output = Vec::new();

    let bytes_written = skip_header_and_copy(&input_data, &mut output).unwrap();

    assert!(!output.starts_with(&[0xFF]));
    assert!(output.starts_with(b"OggS\x00\x02"));
    assert!(output
        .windows(b"actual audio data here".len())
        .any(|w| w == b"actual audio data here"));
    assert_eq!(bytes_written, b"OggS\x00\x02actual audio data here".len());
}

#[test]
fn test_skip_header_and_copy_exact_header_size() {
    let input_data = vec![0xAB; SPOTIFY_OGG_HEADER_END];
    let mut output = Vec::new();

    let bytes_written = skip_header_and_copy(&input_data, &mut output).unwrap();

    assert_eq!(bytes_written, 0);
    assert!(output.is_empty());
}

#[test]
fn test_skip_header_and_copy_large_file() {
    let mut input_data = vec![0x00; SPOTIFY_OGG_HEADER_END];
    input_data.extend(vec![0xAB; AUDIO_BUFFER_SIZE * 2 + 100]);
    let mut output = Vec::new();

    let bytes_written = skip_header_and_copy(&input_data, &mut output).unwrap();

    assert_eq!(bytes_written, AUDIO_BUFFER_SIZE * 2 + 100);
    assert_eq!(output.len(), AUDIO_BUFFER_SIZE * 2 + 100);
    assert!(output.iter().all(|&b| b == 0xAB));
}

#[test]
fn skip_header_rejects_short_input() {
    let input_data = vec![0u8; 10];
    let mut output = vec![1u8];
    assert!(skip_header_and_copy(&input_data, &mut output).is_err());
    assert_eq!(output, vec![1u8]);
}

#[test]
fn strip_header_skips_exactly_header_bytes() {
    const HDR: usize = 167;
    let mut data = vec![0xFFu8; HDR];
    data.extend_from_slice(b"OggS real audio");
    let mut out = Vec::new();

    let n = strip_header_and_copy(&data, &mut out, HDR, 4096).unwrap();

    assert_eq!(n, b"OggS real audio".len());
    assert_eq!(out, b"OggS real audio");
}

#[test]
fn strip_header_with_only_header_data_produces_empty_output() {
    let data = vec![0u8; 167];
    let mut out = Vec::new();

    let n = strip_header_and_copy(&data, &mut out, 167, 4096).unwrap();

    assert_eq!(n, 0);
    assert!(out.is_empty());
}

#[test]
fn strip_header_copies_multiple_buffer_sized_chunks() {
    const HDR: usize = 167;
    const BUF: usize = 256;
    let mut data = vec![0u8; HDR];
    data.extend(vec![0xABu8; BUF * 3 + 17]);
    let mut out = Vec::new();

    let n = strip_header_and_copy(&data, &mut out, HDR, BUF).unwrap();

    assert_eq!(n, BUF * 3 + 17);
    assert!(out.iter().all(|&b| b == 0xAB));
}

#[test]
fn strip_header_with_zero_buffer_writes_nothing() {
    let data = vec![7u8; 20];
    let mut out = Vec::new();
    assert_eq!(strip_header_and_copy(&data, &mut out, 4, 0).unwrap(), 0);
    assert!(out.is_empty());
}

#[test]
fn test_is_retriable_error() {
    assert!(is_retriable_error("audio key error occurred"));
    assert!(is_retriable_error("Service unavailable - try again"));
    assert!(is_retriable_error("timeout exceeded"));
    assert!(is_retriable_error("Deadline expired"));

    assert!(!is_retriable_error("invalid track format"));
    assert!(!is_retriable_error("file not found"));
    assert!(!is_retriable_error("permission denied"));
}

#[test]
fn caching_path_retry_steps() {
    assert_eq!(
        stream_step_after_failure(0, "timeout", None),
        RetryStep::RetryAfter { next_attempt: 1, delay_ms: 5000 }
    );
    assert_eq!(
        stream_step_after_failure(1, "timeout", None),
        RetryStep::RetryAfter { next_attempt: 2, delay_ms: 10000 }
    );
    assert_eq!(
        stream_step_after_failure(3, "timeout", None),
        RetryStep::RetryAfter { next_attempt: 4, delay_ms: 40000 }
    );
    assert_eq!(stream_step_after_failure(4, "timeout", None), RetryStep::Exhausted);
    assert_eq!(stream_step_after_failure(0, "invalid format", None), RetryStep::FailNow);
    assert_eq!(
        stream_step_after_failure(0, "Deadline expired", Some(0)),
        RetryStep::RetryAfter { next_attempt: 1, delay_ms: 0 }
    );
}

#[test]
fn retry_config_delays_double_up_to_the_ceiling() {
    let cfg = RetryConfig::default();
    assert_eq!(cfg.delay_for_attempt(1), 5000);
    assert_eq!(cfg.delay_for_attempt(2), 10000);
    assert_eq!(cfg.delay_for_attempt(3), 20000);
    assert_eq!(cfg.delay_for_attempt(4), 30000);
    assert_eq!(cfg.delay_for_attempt(60), 30000);
    assert_eq!(
        cfg.step_after_failure(0, "audio key error"),
        RetryStep::RetryAfter { next_attempt: 1, delay_ms: 5000 }
    );
    assert_eq!(cfg.step_after_failure(4, "audio key error"), RetryStep::Exhausted);
    assert_eq!(cfg.step_after_failure(1, "404"), RetryStep::FailNow);
}

#[test]
fn formats_rank_and_pick() {
    assert_eq!(format_rank(AudioFormat::FLAC_FLAC), 0);
    assert_eq!(format_rank(AudioFormat::OGG_VORBIS_320), 2);
    assert_eq!(format_rank(AudioFormat::XHE_AAC_12), 18);
    assert_eq!(
        best_format(&vec![AudioFormat::MP3_96, AudioFormat::OGG_VORBIS_160, AudioFormat::AAC_160]),
        Some(AudioFormat::OGG_VORBIS_160)
    );
    assert_eq!(best_format(&vec![]), None);
    assert_eq!(best_candidate(&vec![7, 2, 5, 2]), Some(1));
    assert_eq!(best_candidate(&vec![]), None);
    assert_eq!(header_len_for(AudioFormat::OGG_VORBIS_96), 167);
    assert_eq!(header_len_for(AudioFormat::MP3_320), 0);
    assert_eq!(data_rate_bytes_per_sec(AudioFormat::OGG_VORBIS_160), 20480);
    assert_eq!(data_rate_bytes_per_sec(AudioFormat::XHE_AAC_12), 1536);
}

#[test]
fn retries_never_go_past_the_last_attempt() {
    let cfg = RetryConfig { max_attempts: 2, base_delay_ms: 10, max_delay_ms: 100 };
    assert_eq!(
        cfg.step_after_failure(0, "Service unavailable"),
        RetryStep::RetryAfter { next_attempt: 1, delay_ms: 10 }
    );
    assert_eq!(cfg.step_after_failure(1, "Service unavailable"), RetryStep::Exhausted);
    let none = RetryConfig { max_attempts: 0, base_delay_ms: 10, max_delay_ms: 100 };
    assert_eq!(none.step_after_failure(0, "timeout"), RetryStep::Exhausted);
}

#[test]
fn test_download_exhausts_all_retries() {
    // A downloader that always fails with a retriable error, with no delay.
    let mut attempts = 0u32;
    let mut attempt = 0u32;
    let result: Result<(), String> = loop {
        attempts += 1;
        let err = "Service unavailable".to_string();
        match stream_step_after_failure(attempt, &err, Some(0)) {
            RetryStep::RetryAfter { next_attempt, delay_ms } => {
                assert_eq!(delay_ms, 0);
                attempt = next_attempt;
            }
            RetryStep::FailNow | RetryStep::Exhausted => break Err(err),
        }
    };
    assert!(result.is_err());
    assert_eq!(attempts, 5);
    assert_eq!(attempts, STREAM_ATTEMPTS);
}

#[test]
fn lossless_audio_ends_the_search() {
    assert!(!alternatives_needed(Some(AudioFormat::FLAC_FLAC)));
    assert!(alternatives_needed(Some(AudioFormat::FLAC_FLAC_24BIT)));
    assert!(alternatives_needed(Some(AudioFormat::OGG_VORBIS_320)));
    assert!(alternatives_needed(None));
    assert!(stop_after(Some(AudioFormat::FLAC_FLAC)));
    assert!(!stop_after(Some(AudioFormat::MP3_320)));
    assert!(!stop_after(None));
    assert!(!ogg_alternatives_needed(Some(AudioFormat::OGG_VORBIS_320)));
    assert!(ogg_alternatives_needed(Some(AudioFormat::OGG_VORBIS_160)));
    assert!(ogg_alternatives_needed(None));
}

#[test]
fn short_input_reports_header_and_available_bytes() {
    let mut out = vec![9u8];
    match skip_header_and_copy(&vec![0u8; 10], &mut out) {
        Err(StreamError::TruncatedHeader { header_len, available }) => {
            assert_eq!(header_len, 167);
            assert_eq!(available, 10);
        }
        other => panic!("{other:?}"),
    }
    assert_eq!(out, vec![9u8]);
    match strip_header_and_copy(&vec![0u8; 3], &mut out, 4, 8192) {
        Err(StreamError::TruncatedHeader { header_len, available }) => assert_eq!((header_len, available), (4, 3)),
        other => panic!("{other:?}"),
    }
}

#[test]
fn ogg_search_over_alternatives() {
    // OGG 320 on the track itself: the alternatives are not looked at.
    assert_eq!(
        select_ogg_source(Some(AudioFormat::OGG_VORBIS_320), &vec![AltLookup::Unparsable]),
        Ok(Source::Original)
    );
    // A better alternative wins; ties go to the track, then to earlier alternatives.
    assert_eq!(
        select_ogg_source(
            Some(AudioFormat::OGG_VORBIS_96),
            &vec![AltLookup::FetchFailed, AltLookup::Fetched(Some(AudioFormat::OGG_VORBIS_160)), AltLookup::Fetched(Some(AudioFormat::OGG_VORBIS_160))]
        ),
        Ok(Source::Alternative(1))
    );
    assert_eq!(
        select_ogg_source(Some(AudioFormat::OGG_VORBIS_160), &vec![AltLookup::Fetched(Some(AudioFormat::OGG_VORBIS_160))]),
        Ok(Source::Original)
    );
    // An unparsable alternative URI is an error.
    assert_eq!(
        select_ogg_source(None, &vec![AltLookup::Fetched(None), AltLookup::Unparsable, AltLookup::Unparsable]),
        Err(OggSelectError::BadAlternative(1))
    );
    // Nothing offers OGG Vorbis.
    assert_eq!(
        select_ogg_source(None, &vec![AltLookup::FetchFailed, AltLookup::Fetched(None)]),
        Err(OggSelectError::NotAvailable)
    );
}
