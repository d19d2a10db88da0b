use dictate::config::PolishBackend;
use dictate::llm_polish::{
    handle_polish_failure, is_fence_lang_tag, polish_attempts, polish_model_for_backend,
    polish_reply, polish_retry_delay_ms, polish_system_prompt, polish_unavailable_message,
    segment_polish_prompt, strip_wrapping_quotes, transcript_polish_prompt, transform_prompt,
    vocabulary_prompt, DEFAULT_OLLAMA_POLISH_MODEL, DEFAULT_SYSTEM, SEGMENT_SYSTEM_SUFFIX,
    TRANSFORM_SYSTEM,
};
use dictate::profile::DictateProfile;
use dictate::text_processing::{PolishConfig, TextProcessingConfig};

#[test]
fn strips_quotes() {
    assert_eq!(strip_wrapping_quotes("\"hello\""), "hello");
}

#[test]
fn ollama_model_when_polish_model_is_mistral_default() {
    let polish = PolishConfig::default();
    let m = polish_model_for_backend(&polish.model, PolishBackend::Ollama, None);
    assert_eq!(m, DEFAULT_OLLAMA_POLISH_MODEL);
}

#[test]
fn strips_single_quotes_and_inner_space() {
    assert_eq!(strip_wrapping_quotes("  ' hi there '  "), "hi there");
}

#[test]
fn strips_code_fence_with_language_tag() {
    assert_eq!(strip_wrapping_quotes("```rust\nfn main() {}\n```"), "fn main() {}");
}

#[test]
fn keeps_first_line_of_fence_when_not_a_tag() {
    assert_eq!(
        strip_wrapping_quotes("```hello world\nsecond\n```"),
        "hello world\nsecond"
    );
}

#[test]
fn fence_without_newline_keeps_inner_text() {
    assert_eq!(strip_wrapping_quotes("```just text```"), "just text");
}

#[test]
fn unwrapped_text_is_only_trimmed() {
    assert_eq!(strip_wrapping_quotes("  plain text \n"), "plain text");
    assert_eq!(strip_wrapping_quotes("\"open quote only"), "\"open quote only");
}

#[test]
fn fence_language_tags() {
    let tag: Vec<char> = " py-3_x ".chars().collect();
    assert!(is_fence_lang_tag(&tag));
    let not_tag: Vec<char> = "two words".chars().collect();
    assert!(!is_fence_lang_tag(&not_tag));
    assert!(!is_fence_lang_tag(&[]));
}

#[test]
fn polish_model_choices() {
    assert_eq!(polish_model_for_backend("  ", PolishBackend::Mistral, None), "mistral-small-latest");
    assert_eq!(polish_model_for_backend(" large ", PolishBackend::Mistral, None), "large");
    assert_eq!(
        polish_model_for_backend("mistral-small-latest", PolishBackend::Ollama, Some("llama3")),
        "llama3"
    );
    assert_eq!(polish_model_for_backend("qwen", PolishBackend::Ollama, Some("llama3")), "qwen");
    assert_eq!(polish_model_for_backend("", PolishBackend::OpenCode, None), "big-pickle");
}

#[test]
fn unavailable_messages_name_the_backend() {
    assert!(polish_unavailable_message(" Mistral ").starts_with("POLISH_PROVIDER=mistral"));
    assert!(polish_unavailable_message("ollama").starts_with("Polish via Ollama failed"));
    assert!(polish_unavailable_message("auto").starts_with("No polish backend"));
}

#[test]
fn failure_falls_back_unless_error() {
    let polish = PolishConfig::default();
    assert_eq!(handle_polish_failure(&polish, "local text"), "local text");
    let strict = PolishConfig { on_failure: "error".to_string(), ..Default::default() };
    assert_eq!(handle_polish_failure(&strict, "local text"), "");
}

#[test]
fn retry_schedule() {
    assert_eq!(polish_retry_delay_ms(0), 0);
    assert_eq!(polish_retry_delay_ms(3), 1200);
    assert_eq!(polish_attempts(0), 1);
    assert_eq!(polish_attempts(3), 3);
}

#[test]
fn system_prompt_default_and_style() {
    let polish = PolishConfig::default();
    assert_eq!(polish_system_prompt(&polish), DEFAULT_SYSTEM);
    let custom = PolishConfig {
        system_prompt: "Be brief.".to_string(),
        style: "email".to_string(),
        ..Default::default()
    };
    assert_eq!(
        polish_system_prompt(&custom),
        "Be brief.\n\nFormat: polished email body. Greeting and sign-off only if the speaker implied them."
    );
}

#[test]
fn vocabulary_prompt_lists_terms() {
    let empty = TextProcessingConfig::default();
    assert_eq!(vocabulary_prompt(&empty), "");
    let config = TextProcessingConfig {
        preferred_words: vec!["Zed".to_string(), "Anthropic".to_string()],
        ..Default::default()
    };
    assert_eq!(
        vocabulary_prompt(&config),
        "\n\nPreferred vocabulary: if the transcript resembles one of these terms, use this spelling:\n- Anthropic\n- Zed"
    );
}

#[test]
fn vocabulary_prompt_keeps_first_eighty_terms() {
    let words: Vec<String> = (100..190).map(|i| format!("term{i}")).collect();
    let config = TextProcessingConfig { preferred_words: words, ..Default::default() };
    let prompt = vocabulary_prompt(&config);
    assert_eq!(prompt.matches("\n- ").count(), 80);
    assert!(prompt.ends_with("- term179"));
}

#[test]
fn segment_prompt_with_and_without_prior_context() {
    let config = TextProcessingConfig::default();
    assert!(segment_polish_prompt("   ", "x", &config, "en", "plain").is_none());
    let p = segment_polish_prompt("hello there", "  ", &config, "en", "plain").unwrap();
    assert_eq!(p.system, format!("{DEFAULT_SYSTEM}{SEGMENT_SYSTEM_SUFFIX}"));
    assert_eq!(
        p.user,
        "Dictation mode: plain\nLanguage: en\n\nNew segment (raw STT after local cleanup):\nhello there"
    );
    let p = segment_polish_prompt("next bit", " Earlier. ", &config, "auto", "markdown").unwrap();
    assert_eq!(
        p.user,
        "Dictation mode: markdown\nLanguage: auto\n\nPrior context (already in the app):\nEarlier.\n\nNew segment (raw STT after local cleanup):\nnext bit"
    );
}

#[test]
fn transcript_prompt_respects_profile_and_switch() {
    let config = TextProcessingConfig::default();
    let p = transcript_polish_prompt("raw words", &config, DictateProfile::Segmented, "en", "plain")
        .unwrap();
    assert_eq!(p.system, DEFAULT_SYSTEM);
    assert_eq!(p.user, "Dictation mode: plain\nLanguage: en\n\nRaw transcript:\nraw words");
    assert!(transcript_polish_prompt("raw", &config, DictateProfile::BatchClip, "en", "plain").is_none());
    let off = TextProcessingConfig {
        polish: PolishConfig { enabled: false, ..Default::default() },
        ..Default::default()
    };
    assert!(transcript_polish_prompt("raw", &off, DictateProfile::Segmented, "en", "plain").is_none());
}

#[test]
fn transform_prompt_trims_both_parts() {
    let p = transform_prompt("  make it formal ", "\nhey there\n");
    assert_eq!(p.system, TRANSFORM_SYSTEM);
    assert_eq!(p.user, "Instruction (from voice):\nmake it formal\n\nSource text:\nhey there");
}

#[test]
fn replies_are_trimmed_and_unwrapped() {
    assert_eq!(polish_reply("  \"Done.\"  "), Some("Done.".to_string()));
    assert_eq!(polish_reply(" \n "), None);
}
