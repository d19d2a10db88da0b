use dictate::config::{is_retired_env_key, prune_retired_env_lines, Config, PolishBackend};
use dictate::profile::DictateProfile;

fn vars(pairs: &[(&str, &str)]) -> Vec<(String, String)> {
    pairs.iter().map(|(k, v)| (k.to_string(), v.to_string())).collect()
}

#[test]
fn test_default_config() {
    let config = Config::default();
    assert_eq!(config.mistral_api_key, None);
    assert_eq!(config.mistral_model, "voxtral-mini-latest");
    assert_eq!(config.transcription_provider, "mistral");
    assert_eq!(config.transcription_language, "auto");
    assert_eq!(config.transcription_timeout_seconds, 60);
    assert_eq!(config.audio_sample_rate, 16000);
    assert!(config.enable_audio_feedback);
}

#[test]
fn test_config_from_env_defaults() {
    let config = Config::from_env(&[]);
    assert_eq!(config.transcription_provider, "mistral");
    assert_eq!(config.transcription_language, "auto");
    assert_eq!(config.mistral_api_key, None);
}

#[test]
fn test_config_from_env_variables() {
    let env = vars(&[
        ("MISTRAL_API_KEY", "mistral-key"),
        ("MISTRAL_MODEL", "voxtral-mini-2602"),
        ("GROQ_API_KEY", "groq-key"),
        ("GROQ_MODEL", "whisper-large-v3-turbo"),
        ("TRANSCRIPTION_PROVIDER", "groq"),
        ("TRANSCRIPTION_LANGUAGE", "en"),
        ("TRANSCRIPTION_TIMEOUT_SECONDS", "120"),
        ("AUDIO_SAMPLE_RATE", "44100"),
    ]);
    let config = Config::from_env(&env);
    assert_eq!(config.mistral_api_key, Some("mistral-key".to_string()));
    assert_eq!(config.mistral_model, "voxtral-mini-2602");
    assert_eq!(config.groq_api_key, Some("groq-key".to_string()));
    assert_eq!(config.transcription_provider, "groq");
    assert_eq!(config.transcription_language, "en");
    assert_eq!(config.transcription_timeout_seconds, 120);
    assert_eq!(config.audio_sample_rate, 44100);
}

#[test]
fn test_config_from_env_invalid_numbers() {
    let env = vars(&[
        ("AUDIO_BUFFER_DURATION_SECONDS", "invalid"),
        ("AUDIO_SAMPLE_RATE", "not-a-number"),
        ("TRANSCRIPTION_TIMEOUT_SECONDS", "invalid"),
    ]);
    let config = Config::from_env(&env);
    assert_eq!(config.audio_buffer_duration_seconds, 300);
    assert_eq!(config.audio_sample_rate, 16000);
    assert_eq!(config.transcription_timeout_seconds, 60);
}

#[test]
fn from_env_reads_flags_profile_and_output() {
    let env = vars(&[
        ("BATCH_MODE", " Yes "),
        ("CONTEXT_EDITING", "off"),
        ("AUDIO_CHANNELS", "+2"),
        ("AUDIO_SAMPLE_RATE", "99999999999"),
        ("SHORTCUT_OUTPUT", "stdout"),
        ("OUTPUT_MODE", "type"),
    ]);
    let config = Config::from_env(&env);
    assert!(config.batch_mode);
    assert!(!config.context_editing);
    assert_eq!(config.audio_channels, 2);
    assert_eq!(config.audio_sample_rate, 16000);
    assert_eq!(config.profile, DictateProfile::BatchClip);
    assert_eq!(config.default_pipe_to, None);
    let profiled = Config::from_env(&vars(&[("DICTATE_PROFILE", "command"), ("BATCH_MODE", "1")]));
    assert_eq!(profiled.profile, DictateProfile::Command);
}

#[test]
fn prune_retired_env_keys_drops_enable_overlay() {
    let saved = prune_retired_env_lines(
        "MISTRAL_API_KEY=x\nENABLE_OVERLAY=true\nTRANSCRIPTION_PROVIDER=mistral\n",
    )
    .unwrap();
    assert!(!saved.contains("ENABLE_OVERLAY"));
    assert!(saved.contains("MISTRAL_API_KEY"));
    assert_eq!(saved, "MISTRAL_API_KEY=x\nTRANSCRIPTION_PROVIDER=mistral\n");
}

#[test]
fn prune_keeps_comments_and_reports_no_change() {
    assert_eq!(prune_retired_env_lines("# ENABLE_OVERLAY=true\nA=1\n"), None);
    assert_eq!(prune_retired_env_lines(" dictate_overlay_socket = /tmp/x"), Some(String::new()));
    assert!(is_retired_env_key(" enable_overlay "));
    assert!(!is_retired_env_key("MISTRAL_API_KEY"));
}

#[test]
fn polish_auto_prefers_mistral_when_key_set() {
    let config = Config {
        mistral_api_key: Some("k".to_string()),
        polish_provider: "auto".to_string(),
        ..Default::default()
    };
    assert_eq!(config.resolve_polish_backend(), Some(PolishBackend::Mistral));
}

#[test]
fn polish_auto_prefers_opencode_over_mistral() {
    let config = Config {
        opencode_api_key: Some("k".to_string()),
        mistral_api_key: Some("k".to_string()),
        polish_provider: "auto".to_string(),
        ..Default::default()
    };
    assert_eq!(config.resolve_polish_backend(), Some(PolishBackend::OpenCode));
}

#[test]
fn opencode_key_alone_does_not_enable_mistral_polish() {
    let config = Config {
        opencode_api_key: Some("k".to_string()),
        mistral_api_key: None,
        polish_provider: "mistral".to_string(),
        ..Default::default()
    };
    assert_eq!(config.resolve_polish_backend(), None);
}

#[test]
fn polish_auto_uses_ollama_without_mistral_key() {
    let config = Config {
        mistral_api_key: None,
        polish_provider: "auto".to_string(),
        ..Default::default()
    };
    assert_eq!(config.resolve_polish_backend(), Some(PolishBackend::Ollama));
}

#[test]
fn unknown_polish_provider_gives_no_backend() {
    let config = Config { polish_provider: "gpt".to_string(), ..Default::default() };
    assert_eq!(config.resolve_polish_backend(), None);
    assert!(!config.polish_available());
    let blank_key = Config {
        opencode_api_key: Some("  ".to_string()),
        polish_provider: "zen".to_string(),
        ..Default::default()
    };
    assert_eq!(blank_key.resolve_polish_backend(), None);
}

#[test]
fn command_mode_needs_switch_and_backend() {
    let mut config = Config::default();
    assert!(!config.command_mode_uses_llm());
    config.text_processing.command_mode.use_llm = true;
    assert!(config.command_mode_uses_llm());
    config.polish_provider = "mistral".to_string();
    assert!(!config.command_mode_uses_llm());
}

#[test]
fn realtime_choice_follows_profile_provider_and_mode() {
    let config = Config::default();
    assert!(config.use_mistral_realtime_stt());
    assert!(config.realtime_daemon_active_on_start());
    assert!(!config.use_deepgram_realtime_stt());
    let batch = Config { transcription_mode: "BATCH".to_string(), ..Default::default() };
    assert!(!batch.use_mistral_realtime_stt());
    let deepgram = Config { transcription_provider: "Deepgram".to_string(), ..Default::default() };
    assert!(deepgram.use_deepgram_realtime_stt());
    let clip = Config { profile: DictateProfile::BatchClip, ..Default::default() };
    assert!(!clip.realtime_daemon_active_on_start());
}

#[test]
fn pipe_to_prefers_command_line() {
    let config = Config {
        default_pipe_to: Some(vec!["wtype".to_string(), "-".to_string()]),
        ..Default::default()
    };
    let cli = vec!["cat".to_string()];
    assert_eq!(config.resolve_pipe_to(Some(&cli)), Some(&cli));
    assert_eq!(config.resolve_pipe_to(None), config.default_pipe_to.as_ref());
}

#[test]
fn test_config_validation_mistral_success() {
    let config = Config { mistral_api_key: Some("test-key".to_string()), ..Default::default() };
    assert!(config.validate("", false).is_ok());
}

#[test]
fn test_config_validation_mistral_missing_api_key() {
    let result = Config::default().validate("", false);
    assert!(result.is_err());
    assert!(result.unwrap_err().contains("MISTRAL_API_KEY"));
}

#[test]
fn test_config_validation_groq_success() {
    let config = Config {
        transcription_provider: "groq".to_string(),
        groq_api_key: Some("test-key".to_string()),
        ..Default::default()
    };
    assert!(config.validate("", false).is_ok());
}

#[test]
fn test_config_validation_unsupported_provider() {
    let config = Config { transcription_provider: "azure".to_string(), ..Default::default() };
    let result = config.validate("", false);
    assert!(result.is_err());
    assert!(result.unwrap_err().contains("azure"));
}

#[test]
fn validation_errors_in_order() {
    let local = Config { transcription_provider: "local".to_string(), ..Default::default() };
    assert_eq!(
        local.validate("/m/ggml.bin", false).unwrap_err(),
        "Local model not found at /m/ggml.bin. Use --download-model to fetch it."
    );
    assert!(local.validate("/m/ggml.bin", true).is_ok());
    let zero = Config {
        mistral_api_key: Some("k".to_string()),
        audio_sample_rate: 0,
        audio_channels: 0,
        ..Default::default()
    };
    assert_eq!(zero.validate("", false).unwrap_err(), "AUDIO_SAMPLE_RATE must be greater than 0");
    let mode = Config {
        mistral_api_key: Some("k".to_string()),
        transcription_mode: "Streaming".to_string(),
        ..Default::default()
    };
    assert_eq!(
        mode.validate("", false).unwrap_err(),
        "Unsupported TRANSCRIPTION_MODE: streaming. Supported modes: auto, realtime, batch"
    );
    let smart = Config {
        mistral_api_key: Some("k".to_string()),
        profile: DictateProfile::SmartPaste,
        polish_provider: "none".to_string(),
        ..Default::default()
    };
    assert!(smart.validate("", false).unwrap_err().starts_with("DICTATE_PROFILE=smart_paste"));
    let delay = Config {
        mistral_api_key: Some("k".to_string()),
        mistral_realtime_delay_ms: 0,
        ..Default::default()
    };
    assert_eq!(delay.validate("", false).unwrap_err(), "MISTRAL_REALTIME_DELAY_MS must be greater than 0");
}

#[test]
fn transcript_history_follows_text_config() {
    let mut config = Config::default();
    assert!(!config.save_transcript_history());
    config.text_processing.history.enabled = true;
    assert!(config.save_transcript_history());
}
