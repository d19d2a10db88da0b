use dictate::config::Config;
use dictate::transcription::online::{
    attempt_count, authorization_header, check_audio_size, parse_error_body, retry_after,
    retry_delay_ms, transcription_response, transcription_url, ApiDialect, AuthStyle,
    OnlineProviderOptions,
};
use dictate::transcription::{NetworkErrorDetails, TranscriptionError, TranscriptionFactory};

fn test_options() -> OnlineProviderOptions {
    OnlineProviderOptions {
        provider_name: "Test",
        api_key: "test-key".to_string(),
        timeout_seconds: 30,
        max_retries: 0,
        model: "test-model".to_string(),
        base_url: "https://example.test/v1".to_string(),
        auth_style: AuthStyle::Bearer,
        dialect: ApiDialect::OpenAiCompatible,
        vocabulary: Vec::new(),
    }
}

fn deepgram_options() -> OnlineProviderOptions {
    OnlineProviderOptions {
        provider_name: "Deepgram",
        api_key: "dg-key".to_string(),
        timeout_seconds: 30,
        max_retries: 0,
        model: "nova-3".to_string(),
        base_url: "http://127.0.0.1:1234/".to_string(),
        auth_style: AuthStyle::Token,
        dialect: ApiDialect::Deepgram,
        vocabulary: Vec::new(),
    }
}

#[test]
fn test_factory_unsupported_provider() {
    let config = Config::default();
    let result = TranscriptionFactory::create_provider_options("unsupported", &config);
    assert!(matches!(result, Err(TranscriptionError::UnsupportedProvider(_))));
}

#[test]
fn test_factory_mistral_provider_missing_key() {
    let config = Config::default();
    let result = TranscriptionFactory::create_provider_options("mistral", &config);
    assert!(matches!(result, Err(TranscriptionError::ConfigurationError(_))));
}

#[test]
fn test_factory_mistral_provider_creation() {
    let config = Config { mistral_api_key: Some("test-key".to_string()), ..Default::default() };
    let result = TranscriptionFactory::create_provider_options("mistral", &config);
    assert!(result.is_ok());
}

#[test]
fn test_provider_switching_case_insensitive() {
    let config = Config { mistral_api_key: Some("test-key".to_string()), ..Default::default() };
    assert!(TranscriptionFactory::create_provider_options("Mistral", &config).is_ok());
    assert!(TranscriptionFactory::create_provider_options("MISTRAL", &config).is_ok());
}

#[test]
fn factory_fills_provider_defaults() {
    let mut config = Config {
        deepgram_api_key: Some("dg".to_string()),
        transcription_max_retries: 5,
        ..Default::default()
    };
    config.text_processing.preferred_words = vec!["Zed".to_string()];
    let o = TranscriptionFactory::create_provider_options("deepgram", &config).unwrap();
    assert_eq!(o.provider_name, "Deepgram");
    assert_eq!(o.base_url, "https://api.deepgram.com");
    assert_eq!(o.model, "nova-3");
    assert_eq!(o.auth_style, AuthStyle::Token);
    assert_eq!(o.dialect, ApiDialect::Deepgram);
    assert_eq!(o.max_retries, 5);
    assert_eq!(o.vocabulary, vec!["Zed".to_string()]);
    let groq = TranscriptionFactory::create_online_options("groq", &config);
    match groq {
        Err(e) => assert_eq!(e.to_string(), "Configuration error: Groq API key not found"),
        Ok(_) => panic!("groq has no key"),
    }
    match TranscriptionFactory::create_provider_options("Local", &config) {
        Err(TranscriptionError::ConfigurationError(m)) => assert!(m.contains("--features local")),
        _ => panic!("local is not built in"),
    }
}

#[test]
fn request_urls_per_dialect() {
    assert_eq!(
        transcription_url(&test_options(), Some("en")),
        "https://example.test/v1/audio/transcriptions"
    );
    assert_eq!(
        transcription_url(&deepgram_options(), Some("AUTO")),
        "http://127.0.0.1:1234/v1/listen?model=nova-3&smart_format=true"
    );
    assert_eq!(
        transcription_url(&deepgram_options(), Some("de")),
        "http://127.0.0.1:1234/v1/listen?model=nova-3&smart_format=true&language=de"
    );
    assert_eq!(authorization_header(&test_options()), "Bearer test-key");
    assert_eq!(authorization_header(&deepgram_options()), "Token dg-key");
}

#[test]
fn deepgram_dialect_parses_nested_transcript() {
    let body = r#"{"results":{"channels":[{"alternatives":[{"transcript":"hello from deepgram"}]}]}}"#;
    let text = transcription_response(&deepgram_options(), 200, body).unwrap();
    assert_eq!(text, "hello from deepgram");
}

#[test]
fn openai_dialect_reads_text_field() {
    assert_eq!(transcription_response(&test_options(), 200, r#"{"text":"hi"}"#).unwrap(), "hi");
    match transcription_response(&test_options(), 200, r#"{"other":1}"#) {
        Err(TranscriptionError::ApiError(d)) => {
            assert_eq!(d.error_message, "No text field in response");
            assert_eq!(d.status_code, Some(200));
        }
        _ => panic!("missing text"),
    }
    assert!(matches!(
        transcription_response(&test_options(), 200, "not json"),
        Err(TranscriptionError::JsonError(_))
    ));
}

#[test]
fn error_statuses_are_classified() {
    match transcription_response(&test_options(), 401, r#"{"error":{"message":"bad key"}}"#) {
        Err(TranscriptionError::AuthenticationFailed { provider, details }) => {
            assert_eq!(provider, "Test");
            assert_eq!(details, Some("bad key".to_string()));
        }
        _ => panic!("auth failure"),
    }
    match transcription_response(&test_options(), 500, r#"{"error":{"type":"server","message":"boom"}}"#) {
        Err(TranscriptionError::ApiError(d)) => {
            assert_eq!(d.status_code, Some(500));
            assert_eq!(d.error_code, Some("server".to_string()));
            assert_eq!(d.error_message, "boom");
        }
        _ => panic!("api error"),
    }
}

#[test]
fn test_file_size_validation() {
    assert!(matches!(
        check_audio_size(26 * 1024 * 1024),
        Err(TranscriptionError::FileTooLarge(_))
    ));
    assert!(check_audio_size(25 * 1024 * 1024).is_ok());
}

#[test]
fn test_parse_error_body() {
    let (code, message) = parse_error_body(r#"{"error":{"code":"bad","message":"Nope"}}"#);
    assert_eq!(code, Some("bad".to_string()));
    assert_eq!(message, "Nope");

    let (code, message) = parse_error_body("plain error");
    assert_eq!(code, None);
    assert_eq!(message, "plain error");
}

#[test]
fn numeric_error_code_does_not_fall_back_to_type() {
    let (code, _) = parse_error_body(r#"{"error":{"code":42,"type":"t"}}"#);
    assert_eq!(code, None);
}

#[test]
fn retry_schedule_doubles_up_to_eight_seconds() {
    assert_eq!(retry_delay_ms(1), 1000);
    assert_eq!(retry_delay_ms(2), 2000);
    assert_eq!(retry_delay_ms(3), 4000);
    assert_eq!(retry_delay_ms(9), 8000);
    assert_eq!(attempt_count(3), 4);
    assert_eq!(attempt_count(u32::MAX), u32::MAX);
    let net = TranscriptionError::NetworkError(NetworkErrorDetails {
        provider: "Test".to_string(),
        error_type: "Request timeout".to_string(),
        error_message: "slow".to_string(),
    });
    assert_eq!(retry_after(&net, 1, 3), Some(1000));
    assert_eq!(retry_after(&net, 4, 3), None);
    let auth = TranscriptionError::AuthenticationFailed { provider: "Test".to_string(), details: None };
    assert_eq!(retry_after(&auth, 1, 3), None);
}

#[test]
fn deepgram_dialect_omits_auto_language() {
    assert_eq!(
        transcription_url(&deepgram_options(), Some("auto")),
        "http://127.0.0.1:1234/v1/listen?model=nova-3&smart_format=true"
    );
    assert_eq!(
        transcription_url(&deepgram_options(), Some("de")),
        "http://127.0.0.1:1234/v1/listen?model=nova-3&smart_format=true&language=de"
    );
    assert_eq!(
        transcription_url(&test_options(), Some("de")),
        "https://example.test/v1/audio/transcriptions"
    );
}

#[test]
fn deepgram_channels_must_be_an_array() {
    let body = r#"{"results":{"channels":{"0":{"alternatives":[{"transcript":"x"}]}}}}"#;
    match transcription_response(&deepgram_options(), 200, body) {
        Err(TranscriptionError::ApiError(d)) => assert_eq!(d.error_message, "No text field in response"),
        _ => panic!("an object of channels holds no transcript"),
    }
    assert!(matches!(
        transcription_response(&deepgram_options(), 200, "not json"),
        Err(TranscriptionError::JsonError(_))
    ));
}
