use dictate::config_cli::{
    wizard_given_answer, wizard_start, wizard_step, WizardField, WizardNext, WizardOptions,
};

fn pairs(v: &[(&str, &str)]) -> Vec<(String, String)> {
    v.iter().map(|(k, x)| (k.to_string(), x.to_string())).collect()
}

/// Runs the wizard, taking each default where no option was given.
fn run(options: &WizardOptions) -> (Vec<(String, String)>, Option<String>, Vec<WizardField>) {
    let (mut state, mut question) = wizard_start();
    let mut writes = Vec::new();
    let mut asked = Vec::new();
    loop {
        asked.push(question.field);
        let answer = wizard_given_answer(options, question.field)
            .unwrap_or_else(|| question.default.clone().unwrap_or_default());
        let (next_state, w, next) = wizard_step(&state, options, &answer);
        writes.extend(w);
        state = next_state;
        match next {
            WizardNext::Ask(p) => question = p,
            WizardNext::Fail(m) => return (writes, Some(m), asked),
            WizardNext::Done => return (writes, None, asked),
        }
    }
}

fn some(s: &str) -> Option<String> {
    Some(s.to_string())
}

#[test]
fn wizard_non_interactive_mistral() {
    let options = WizardOptions {
        provider: some("Mistral"),
        profile: some("segmented"),
        mistral_api_key: some("key123"),
        language: some("auto"),
        output_mode: some("type"),
        desktop: some("Hyprland"),
        shortcut_key: some("SUPER,R"),
        audio_feedback: some("true"),
        ..Default::default()
    };
    let (writes, failure, _) = run(&options);
    assert_eq!(failure, None);
    assert_eq!(
        writes,
        pairs(&[
            ("provider", "mistral"),
            ("profile", "segmented"),
            ("batch-mode", "false"),
            ("transcription-mode", "auto"),
            ("mistral-api-key", "key123"),
            ("language", "auto"),
            ("shortcut-output", "type"),
            ("shortcut-desktop", "hyprland"),
            ("shortcut-key", "SUPER,R"),
            ("audio-feedback", "true"),
            ("beep-volume", "0.1"),
        ])
    );
}

#[test]
fn wizard_smart_paste_groq_defaults() {
    let options = WizardOptions {
        provider: some("groq"),
        profile: some("Smart Paste"),
        audio_feedback: some("false"),
        desktop: some("gnome"),
        ..Default::default()
    };
    let (writes, failure, asked) = run(&options);
    assert_eq!(failure, None);
    assert!(!asked.contains(&WizardField::BeepVolume));
    assert_eq!(
        writes,
        pairs(&[
            ("provider", "groq"),
            ("profile", "smart_paste"),
            ("batch-mode", "true"),
            ("transcription-mode", "auto"),
            ("groq-model", "whisper-large-v3-turbo"),
            ("language", "auto"),
            ("shortcut-output", "paste"),
            ("shortcut-desktop", "gnome"),
            ("shortcut-key", "<Super>r"),
            ("audio-feedback", "false"),
        ])
    );
}

#[test]
fn wizard_mistral_models_only_when_given() {
    let options = WizardOptions {
        provider: some("mistral"),
        mistral_realtime_model: some("rt-model"),
        audio_feedback: some("no"),
        beep_volume: some("0.5"),
        ..Default::default()
    };
    let (writes, failure, asked) = run(&options);
    assert_eq!(failure, None);
    assert!(!asked.contains(&WizardField::MistralModel));
    assert!(writes.contains(&("mistral-realtime-model".to_string(), "rt-model".to_string())));
    assert!(!writes.iter().any(|(k, _)| k == "mistral-api-key"));
    assert_eq!(writes.last(), Some(&("beep-volume".to_string(), "0.5".to_string())));
}

#[test]
fn wizard_unknown_provider_fails_after_profile() {
    let options = WizardOptions { provider: some("OpenAI"), ..Default::default() };
    let (writes, failure, _) = run(&options);
    assert_eq!(
        failure.as_deref(),
        Some("Unsupported provider 'openai'. Use mistral, groq, or local.")
    );
    assert_eq!(
        writes,
        pairs(&[
            ("provider", "openai"),
            ("profile", "segmented"),
            ("batch-mode", "false"),
            ("transcription-mode", "auto"),
        ])
    );
}

#[test]
fn wizard_local_asks_whisper_model() {
    let options = WizardOptions {
        provider: some("local"),
        desktop: some("KDE"),
        audio_feedback: some("false"),
        ..Default::default()
    };
    let (writes, _, _) = run(&options);
    assert!(writes.contains(&("whisper-model".to_string(), "ggml-base.en.bin".to_string())));
    assert!(writes.contains(&("shortcut-key".to_string(), "Meta+R".to_string())));
}
