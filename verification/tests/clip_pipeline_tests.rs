use dictate::clip_pipeline::{plan_clip_text, transcription_error_hint, transcription_language, ClipPlan};
use dictate::config::Config;
use dictate::profile::DictateProfile;
use dictate::transcription::{ApiErrorDetails, TranscriptionError};

#[test]
fn auto_language_is_left_out() {
    assert_eq!(transcription_language(&Config::default()), None);
    let de = Config { transcription_language: "de".to_string(), ..Default::default() };
    assert_eq!(transcription_language(&de), Some("de".to_string()));
}

#[test]
fn clip_text_plans() {
    let config = Config::default();
    assert!(matches!(plan_clip_text("fix grammar", &config, true, "plain"), ClipPlan::Command(t) if t == "fix grammar"));
    assert!(matches!(plan_clip_text(" hello ", &config, false, "plain"), ClipPlan::Done(t) if t == " hello "));
    let smart = Config { profile: DictateProfile::SmartPaste, ..Default::default() };
    match plan_clip_text("hello", &smart, false, "plain") {
        ClipPlan::Polish { local, prompt } => {
            assert_eq!(local, "hello");
            assert_eq!(prompt.user, "Dictation mode: plain\nLanguage: auto\n\nRaw transcript:\nhello");
        }
        _ => panic!("smart paste polishes"),
    }
}

#[test]
fn error_hints() {
    let auth = TranscriptionError::AuthenticationFailed {
        provider: "Groq".to_string(),
        details: Some("bad key".to_string()),
    };
    assert_eq!(
        transcription_error_hint(&auth),
        vec!["  🔑 Authentication details: bad key".to_string(), "  💡 Check your Groq API key".to_string()]
    );
    let api = TranscriptionError::ApiError(ApiErrorDetails {
        provider: "Mistral".to_string(),
        status_code: Some(429),
        error_code: Some("rate_limited".to_string()),
        error_message: "slow down".to_string(),
        raw_response: None,
    });
    assert_eq!(
        transcription_error_hint(&api),
        vec!["  📡 HTTP 429".to_string(), "  🏷️  Error code: rate_limited".to_string()]
    );
    assert_eq!(
        transcription_error_hint(&TranscriptionError::FileTooLarge(30000000)),
        vec!["  💡 Audio too large: 30000000 bytes (max 25MB)".to_string()]
    );
    assert!(transcription_error_hint(&TranscriptionError::JsonError("x".to_string())).is_empty());
}
