use dictate::transcription::{
    append_deepgram_keyterms, encode_model, sanitize_language, stt_hint_terms, whisper_prompt,
    ApiErrorDetails, NetworkErrorDetails, TranscriptionError,
};

#[test]
fn test_transcription_error_display() {
    let error = TranscriptionError::AuthenticationFailed {
        provider: "Mistral".to_string(),
        details: None,
    };
    assert_eq!(error.to_string(), "Authentication failed with Mistral");

    let error = TranscriptionError::AuthenticationFailed {
        provider: "Groq".to_string(),
        details: Some("Invalid API key".to_string()),
    };
    assert_eq!(
        error.to_string(),
        "Authentication failed with Groq: Invalid API key"
    );

    let error = TranscriptionError::FileTooLarge(30_000_000);
    assert_eq!(
        error.to_string(),
        "File too large: 30000000 bytes (max 25MB)"
    );

    let error = TranscriptionError::UnsupportedProvider("azure".to_string());
    assert_eq!(error.to_string(), "Unsupported provider: azure");
}

#[test]
fn api_and_network_error_display() {
    let error = TranscriptionError::ApiError(ApiErrorDetails {
        provider: "Groq".to_string(),
        status_code: Some(429),
        error_code: Some("rate_limit".to_string()),
        error_message: "slow down".to_string(),
        raw_response: None,
    });
    assert_eq!(
        error.to_string(),
        "API error with Groq (HTTP 429) [rate_limit]: slow down"
    );
    let error = TranscriptionError::NetworkError(NetworkErrorDetails {
        provider: "Mistral".to_string(),
        error_type: "timeout".to_string(),
        error_message: "no reply".to_string(),
    });
    assert_eq!(
        error.to_string(),
        "Network error with Mistral: timeout - no reply"
    );
    assert_eq!(
        TranscriptionError::FileTooLarge(0).to_string(),
        "File too large: 0 bytes (max 25MB)"
    );
    assert_eq!(
        TranscriptionError::JsonError("bad".to_string()).to_string(),
        "JSON error: bad"
    );
}

#[test]
fn sanitize_language_allows_codes_and_auto() {
    assert_eq!(sanitize_language("auto"), None);
    assert_eq!(sanitize_language("AUTO"), None);
    assert_eq!(sanitize_language(""), None);
    assert_eq!(sanitize_language("en"), Some("en".to_string()));
    assert_eq!(sanitize_language("en-US"), Some("en-us".to_string()));
}

#[test]
fn sanitize_language_rejects_injection() {
    assert_eq!(sanitize_language("en&foo=bar"), None);
    assert_eq!(sanitize_language("en?x=1"), None);
    assert_eq!(sanitize_language("../x"), None);
    assert_eq!(sanitize_language("e"), None);
    assert_eq!(sanitize_language("averylonglanguagename"), None);
    assert_eq!(sanitize_language("-en"), None);
    assert_eq!(sanitize_language("en--us"), None);
}

#[test]
fn encode_model_neutralizes_query_breakout() {
    assert_eq!(encode_model("nova-3"), "nova-3");
    assert_eq!(
        encode_model("m&smart_format=false"),
        "m%26smart_format%3Dfalse"
    );
}

#[test]
fn encode_model_escapes_every_utf8_byte() {
    assert_eq!(encode_model("é x"), "%C3%A9%20x");
    assert_eq!(encode_model("a.b_c~d"), "a.b_c~d");
}

#[test]
fn stt_hint_terms_keep_names_and_drop_query_breakers() {
    let terms = [
        "Hyprland".to_string(),
        "  Supabase ".to_string(),
        "bad&x=1".to_string(),
        "a,b".to_string(),
        String::new(),
        "hyprland".to_string(),
    ];
    assert_eq!(
        stt_hint_terms(&terms),
        vec!["Hyprland".to_string(), "Supabase".to_string()]
    );
    assert_eq!(
        whisper_prompt(&terms).as_deref(),
        Some("Hyprland, Supabase")
    );
    let mut url = "https://api.deepgram.com/v1/listen?model=nova-3".to_string();
    append_deepgram_keyterms(&mut url, &terms);
    assert_eq!(
        url,
        "https://api.deepgram.com/v1/listen?model=nova-3&keyterm=Hyprland&keyterm=Supabase"
    );
}

#[test]
fn deepgram_keyterms_encode_spaces_in_phrases() {
    let mut url = String::from("https://example.test/v1/listen?");
    append_deepgram_keyterms(&mut url, &["Wispr Flow".to_string()]);
    assert!(url.contains("keyterm=Wispr%20Flow"));
    assert!(!url.contains("keyterm=Wispr Flow"));
}

#[test]
fn stt_hints_cap_and_length_limit() {
    let long = "x".repeat(61);
    let mut terms: Vec<String> = (0..100).map(|i| format!("term{i}")).collect();
    terms.insert(0, long);
    let hints = stt_hint_terms(&terms);
    assert_eq!(hints.len(), 80);
    assert_eq!(hints[0], "term0");
    assert_eq!(whisper_prompt(&[]), None);
}
