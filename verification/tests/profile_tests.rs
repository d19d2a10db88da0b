use dictate::polish_styles::apply_style_to_system;
use dictate::profile::{DictateMode, DictateProfile};

#[test]
fn parse_aliases() {
    assert_eq!(
        DictateProfile::parse("live_typing"),
        Some(DictateProfile::Segmented)
    );
    assert_eq!(
        DictateProfile::parse("smart-paste"),
        Some(DictateProfile::Segmented)
    );
    assert_eq!(
        DictateProfile::parse("batch"),
        Some(DictateProfile::BatchClip)
    );
}

#[test]
fn legacy_batch_mode() {
    assert_eq!(
        DictateProfile::from_env_legacy(None, true, "auto"),
        DictateProfile::BatchClip
    );
}

#[test]
fn default_profile_is_segmented() {
    assert_eq!(
        DictateProfile::from_env_legacy(None, false, "auto"),
        DictateProfile::Segmented
    );
}

#[test]
fn polish_flags_by_profile() {
    assert!(DictateProfile::Segmented.uses_llm_polish());
    assert!(DictateProfile::Segmented.uses_segment_polish());
    assert!(DictateProfile::Segmented.types_live_deltas());
    assert!(!DictateProfile::BatchClip.uses_llm_polish());
    assert!(!DictateProfile::Command.types_live_deltas());
    assert_eq!(DictateMode::Live.profile(), DictateProfile::Segmented);
    assert_eq!(DictateMode::Smart.profile(), DictateProfile::Segmented);
}

#[test]
fn casual_adds_suffix() {
    let out = apply_style_to_system("base", "casual");
    assert!(out.contains("casual"));
    assert!(out.starts_with("base"));
}

#[test]
fn profile_names_round_trip() {
    for p in [
        DictateProfile::Segmented,
        DictateProfile::BatchClip,
        DictateProfile::Command,
    ] {
        assert_eq!(DictateProfile::parse(p.as_str()), Some(p));
    }
    assert_eq!(DictateProfile::LiveTyping.as_str(), "segmented");
    assert_eq!(DictateProfile::BatchClip.label(), "Batch clip");
    assert_eq!(DictateProfile::parse("  COMMAND-mode "), Some(DictateProfile::Command));
    assert_eq!(DictateProfile::parse("unknown"), None);
}

#[test]
fn legacy_env_profile_wins_and_batch_is_case_insensitive() {
    assert_eq!(
        DictateProfile::from_env_legacy(Some("command".to_string()), true, "auto"),
        DictateProfile::Command
    );
    assert_eq!(
        DictateProfile::from_env_legacy(Some("nonsense".to_string()), false, "BATCH"),
        DictateProfile::BatchClip
    );
}

#[test]
fn mode_parse_aliases() {
    assert_eq!(DictateMode::parse(" Live-Typing "), Some(DictateMode::Live));
    assert_eq!(DictateMode::parse("polish"), Some(DictateMode::Smart));
    assert_eq!(DictateMode::parse("batch"), None);
    assert_eq!(DictateMode::default(), DictateMode::Live);
}

#[test]
fn profile_flags() {
    assert!(DictateProfile::BatchClip.implies_batch_stt());
    assert!(DictateProfile::Command.implies_batch_stt());
    assert!(!DictateProfile::Segmented.implies_batch_stt());
    assert!(!DictateProfile::BatchClip.wants_daemon());
    assert!(DictateProfile::Command.is_command_mode());
    assert!(!DictateProfile::Command.is_dictation());
}

#[test]
fn style_suffixes() {
    assert_eq!(
        dictate::polish_styles::style_system_suffix(" default "),
        None
    );
    assert!(dictate::polish_styles::style_system_suffix("FORMAL")
        .unwrap()
        .starts_with("Tone: formal"));
    assert_eq!(apply_style_to_system("base", "unknown"), "base");
    assert_eq!(
        apply_style_to_system("base", "email"),
        "base\n\nFormat: polished email body. Greeting and sign-off only if the speaker implied them."
    );
}
