use dictate::config::Config;
use dictate::config_cli::{
    default_output_for, default_shortcut_for, wizard_asks_beep_volume, wizard_batch_mode,
    wizard_closing_lines, wizard_profile_key, wizard_provider_error,
};
use dictate::doctor::{autostart_status_lines, doctor_report, DoctorFacts};
use dictate::profile::DictateProfile;

fn facts(env_exists: bool) -> DoctorFacts {
    DoctorFacts {
        env_path: "/home/u/.config/dictate/.env".to_string(),
        env_exists,
        env_pruned: false,
        text_config_path: "/home/u/.config/dictate/text.toml".to_string(),
        ollama_model_env: None,
        local_model_path: "/models/ggml-base.en.bin".to_string(),
        local_model_exists: false,
        autostart: autostart_status_lines(true, true, true, true),
        tools: vec![
            ("wl-copy".to_string(), "command -v wl-copy".to_string(), true),
            ("ydotool".to_string(), "command -v ydotool".to_string(), false),
        ],
        validation: Ok(()),
    }
}

#[test]
fn autostart_all_active_has_no_hint() {
    let lines = autostart_status_lines(true, true, true, true);
    assert_eq!(
        lines,
        vec![
            "Warm Dictate daemons:",
            "✓ Live: active (dictate-live.service)",
            "✓ Smart: active (dictate-smart.service)",
        ]
    );
}

#[test]
fn autostart_missing_service_asks_for_install() {
    let lines = autostart_status_lines(false, false, true, false);
    assert_eq!(
        lines,
        vec![
            "Warm Dictate daemons:",
            "✗ Live: not installed (dictate-live.service)",
            "! Smart: installed but not active (dictate-smart.service)",
            "  Run: dictate autostart install",
        ]
    );
}

#[test]
fn doctor_report_default_config() {
    let mut config = Config::default();
    config.mistral_api_key = Some("key".to_string());
    let lines = doctor_report(&config, &facts(true));
    assert_eq!(lines[0], "dictate doctor\n");
    assert_eq!(lines[1], "✓ Config file: /home/u/.config/dictate/.env");
    assert!(lines[2].starts_with("  Profile: Dictation (segmented) — "));
    assert_eq!(lines[3], "  Run: dictate --daemon (shortcut toggles recording via SIGUSR1)");
    assert_eq!(lines[4], "✓ LLM polish: Mistral chat ([polish] in text.toml)");
    assert!(lines.contains(&"✓ MISTRAL_API_KEY is set".to_string()));
    assert!(lines.contains(&"✓ wl-copy available".to_string()));
    assert!(lines.contains(&"  Optional: ydotool not detected (command -v ydotool)".to_string()));
    assert!(lines.contains(&"✓ Live: active (dictate-live.service)".to_string()));
    assert_eq!(lines.last().unwrap(), "\n✓ Configuration validates");
}

#[test]
fn doctor_report_missing_env_and_key() {
    let mut config = Config::default();
    config.profile = DictateProfile::BatchClip;
    let mut f = facts(false);
    f.validation = Err("MISTRAL_API_KEY is required".to_string());
    let lines = doctor_report(&config, &f);
    assert_eq!(lines[1], "✗ Config file missing: /home/u/.config/dictate/.env");
    assert_eq!(lines[2], "  Run: dictate config wizard");
    assert!(lines[3].starts_with("  Profile: Batch clip (batch_clip)"));
    assert!(!lines.iter().any(|l| l.contains("dictate --daemon (shortcut")));
    assert!(!lines.iter().any(|l| l.contains("LLM polish")));
    assert!(lines.contains(&"✗ MISTRAL_API_KEY missing (required for Mistral)".to_string()));
    assert!(lines.contains(&"  Batch STT path (profile or legacy BATCH_MODE)".to_string()));
    assert_eq!(lines.last().unwrap(), "\n⚠ Validation: MISTRAL_API_KEY is required");
}

#[test]
fn wizard_profile_key_lowers_and_joins() {
    assert_eq!(wizard_profile_key("Smart Paste"), "smart_paste");
    assert_eq!(wizard_profile_key("live_typing"), "live_typing");
}

#[test]
fn wizard_batch_mode_for_clip_profiles() {
    assert_eq!(wizard_batch_mode("smart_paste"), "true");
    assert_eq!(wizard_batch_mode("batch_clip"), "true");
    assert_eq!(wizard_batch_mode("segmented"), "false");
}

#[test]
fn wizard_defaults_per_profile_and_desktop() {
    assert_eq!(default_output_for("smart_paste"), "paste");
    assert_eq!(default_output_for("segmented"), "type");
    assert_eq!(default_shortcut_for("niri"), "Mod,R");
    assert_eq!(default_shortcut_for("gnome"), "<Super>r");
    assert_eq!(default_shortcut_for("kde"), "Meta+R");
    assert_eq!(default_shortcut_for("sway"), "Mod4+R");
    assert_eq!(default_shortcut_for("hyprland"), "SUPER,R");
}

#[test]
fn wizard_beep_volume_question() {
    assert!(wizard_asks_beep_volume(" TRUE ", false));
    assert!(wizard_asks_beep_volume("false", true));
    assert!(!wizard_asks_beep_volume("false", false));
}

#[test]
fn wizard_rejects_unknown_provider() {
    assert_eq!(wizard_provider_error("groq"), None);
    assert_eq!(
        wizard_provider_error("openai"),
        Some("Unsupported provider 'openai'. Use mistral, groq, or local.".to_string())
    );
}

#[test]
fn wizard_closing_mentions_daemon_for_daemon_profiles() {
    let lines = wizard_closing_lines("/c/.env", "gnome", "smart_paste", "paste", "<Super>r");
    assert_eq!(
        lines,
        vec![
            "\nSaved config to /c/.env",
            "Run `dictate shortcuts gnome --profile smart_paste --mode paste --key <Super>r` to print a shortcut snippet.",
            "Daemon profiles: run `dictate --daemon` in the background (or use the shortcut below).",
        ]
    );
    let lines = wizard_closing_lines("/c/.env", "kde", "batch_clip", "type", "Meta+R");
    assert_eq!(lines.len(), 2);
}
