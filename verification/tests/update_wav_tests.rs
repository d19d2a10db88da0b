use dictate::audio::{
    AudioProcessor, BeepType, DEFAULT_CHANNELS, DEFAULT_MAX_RECORDING_DURATION_SECONDS,
    DEFAULT_SAMPLE_RATE,
};
use dictate::update::{
    cached_update_available, check_finish, check_start, is_newer, newer_than_current, normalize,
    release_tag, update_message, updates_disabled, CheckOutcome, CheckStep, CURRENT_VERSION,
};
use dictate::wav::WavEncoder;

#[test]
fn detects_newer_releases() {
    assert!(is_newer("1.2.4", "1.2.3"));
    assert!(is_newer("2.0.0", "1.9.9"));
    assert!(is_newer("1.10.0", "1.9.0"));
    assert!(is_newer("v1.2.4", "1.2.3"));
    assert!(is_newer("1.2.4", "v1.2.3"));
    assert!(is_newer("1.2.1", "1.2"));
}

#[test]
fn ignores_same_or_older() {
    assert!(!is_newer("1.2.3", "1.2.3"));
    assert!(!is_newer("1.2.3", "1.2.4"));
    assert!(!is_newer("1.9.0", "1.10.0"));
    assert!(!is_newer("1.2", "1.2.0"));
    assert!(!is_newer("", "1.2.3"));
    assert!(!is_newer("1.2.3", ""));
}

#[test]
fn release_beats_same_number_prerelease() {
    assert!(is_newer("1.1.0", "1.1.0-dev"));
    assert!(!is_newer("1.1.0-dev", "1.1.0"));
    assert!(is_newer("1.1.0-dev", "1.0.9"));
}

#[test]
fn version_normalization_and_notice() {
    assert_eq!(normalize("  vV1.2 "), "1.2");
    assert_eq!(newer_than_current(" v99.0.0"), Some("99.0.0".to_string()));
    assert_eq!(newer_than_current(CURRENT_VERSION), None);
    assert!(!is_newer("1.x.3", "1.0.3"));
    assert!(is_newer("1.2.99999999999999999999999", "1.1"));
    assert_eq!(
        update_message("9.9.9"),
        format!(
            "dictate: update available — v9.9.9 (you have v{}). Update with: curl -fsSL https://dictate.adityamer.dev/install.sh | sh",
            CURRENT_VERSION
        )
    );
}

#[test]
fn test_wav_encoder_creation() {
    let encoder = WavEncoder::new(16000, 1);
    assert_eq!(encoder.sample_rate, 16000);
    assert_eq!(encoder.channels, 1);
}

#[test]
fn test_wav_encoder_default() {
    let encoder = WavEncoder::default();
    assert_eq!(encoder.sample_rate, 16000);
    assert_eq!(encoder.channels, 1);
}

#[test]
fn test_wav_header_generation_mono_16khz() {
    let encoder = WavEncoder::new(16000, 1);
    let header = encoder.generate_header(1000);

    assert_eq!(header.len(), 44);
    assert_eq!(&header[0..4], b"RIFF");
    assert_eq!(&header[8..12], b"WAVE");
    assert_eq!(&header[12..16], b"fmt ");
    assert_eq!(u16::from_le_bytes([header[20], header[21]]), 1);
    assert_eq!(u16::from_le_bytes([header[22], header[23]]), 1);
    assert_eq!(
        u32::from_le_bytes([header[24], header[25], header[26], header[27]]),
        16000
    );
    assert_eq!(u16::from_le_bytes([header[34], header[35]]), 16);
    assert_eq!(&header[36..40], b"data");
}

#[test]
fn wav_header_sizes_and_rates() {
    let header = WavEncoder::new(44100, 2).generate_header(3);
    assert_eq!(u32::from_le_bytes([header[4], header[5], header[6], header[7]]), 42);
    assert_eq!(u32::from_le_bytes([header[28], header[29], header[30], header[31]]), 176400);
    assert_eq!(u16::from_le_bytes([header[32], header[33]]), 4);
    assert_eq!(u32::from_le_bytes([header[40], header[41], header[42], header[43]]), 6);
}

#[test]
fn test_audio_format_constants() {
    assert_eq!(DEFAULT_SAMPLE_RATE, 16000);
    assert_eq!(DEFAULT_CHANNELS, 1);
    assert_eq!(DEFAULT_MAX_RECORDING_DURATION_SECONDS, 300);
}

#[test]
fn test_audio_processor_creation() {
    let processor = AudioProcessor::new(16000);
    assert_eq!(processor.sample_rate, 16000);
}

#[test]
fn test_audio_processor_default() {
    let processor = AudioProcessor::default();
    assert_eq!(processor.sample_rate, 16000);
}

#[test]
fn test_beep_types_distinct() {
    assert_ne!(BeepType::RecordingStart, BeepType::RecordingStop);
    assert_ne!(BeepType::Success, BeepType::Error);
}

#[test]
fn test_window_size_samples() {
    assert_eq!(AudioProcessor::new(16000).window_size_samples(), 160);
    assert_eq!(AudioProcessor::new(44100).window_size_samples(), 441);
}

#[test]
fn window_size_rounds_down() {
    assert_eq!(AudioProcessor::new(8050).window_size_samples(), 80);
    assert_eq!(AudioProcessor::new(99).window_size_samples(), 0);
}

#[test]
fn cache_roundtrip_reports_newer() {
    assert_eq!(cached_update_available(false, Some("99.0.0")), Some("99.0.0".to_string()));
    assert_eq!(cached_update_available(false, Some(CURRENT_VERSION)), None);
}

#[test]
fn opt_out_disables_everything() {
    let disabled = updates_disabled(Some("1"));
    assert!(disabled);
    assert_eq!(cached_update_available(disabled, Some("99.0.0")), None);
    assert!(matches!(
        check_start(disabled, true, None, 0, 86400),
        CheckStep::Answer(CheckOutcome::Unknown)
    ));
    assert!(!updates_disabled(Some("no")));
    assert!(!updates_disabled(None));
    assert!(updates_disabled(Some(" Yes ")));
}

#[test]
fn check_uses_fresh_cache_then_fetch() {
    assert!(matches!(
        check_start(false, false, Some(("v99.0.0", 1000)), 2000, 86400),
        CheckStep::Answer(CheckOutcome::Newer(v)) if v == "99.0.0"
    ));
    assert!(matches!(check_start(false, false, Some(("99.0.0", 0)), 90000, 86400), CheckStep::Fetch));
    assert!(matches!(check_start(false, true, Some(("99.0.0", 1000)), 2000, 86400), CheckStep::Fetch));
    assert!(matches!(check_start(false, false, Some((" v ", 1000)), 2000, 86400), CheckStep::Fetch));
    assert_eq!(check_finish(Some(CURRENT_VERSION), None), CheckOutcome::Current);
    assert_eq!(check_finish(None, Some("99.0.0")), CheckOutcome::Newer("99.0.0".to_string()));
    assert_eq!(check_finish(None, None), CheckOutcome::Unknown);
    assert_eq!(release_tag(r#"{"tag_name":"v2.3.4","name":"x"}"#), Some("2.3.4".to_string()));
    assert_eq!(release_tag(r#"{"tag_name":"  "}"#), None);
    assert_eq!(release_tag("oops"), None);
}
