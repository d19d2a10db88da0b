use dictate::config_cli::{
    config_value, custom_keybindings_value, daemon_match_pattern, gnome_binding, mode_name,
    normalize_config_key, service_contents, shortcut_command, shortcut_lines, toggle_daemon_argv,
    toggle_shell, with_config_value, ShortcutArgs, ShortcutDesktop, ShortcutMode, ToggleKind,
};
use dictate::config_cli::{
    desktop_choices, detect_desktop, parse_shortcut_desktop, setup_settings, SetupAnswers,
};

#[test]
fn auto_shortcut_uses_daemon_and_configured_output() {
    let cmd = shortcut_command(&ShortcutMode::Auto, "segmented");
    assert_eq!(cmd, "dictate --daemon");
}

#[test]
fn explicit_type_shortcut_still_available() {
    let cmd = shortcut_command(&ShortcutMode::Type, "segmented");
    assert_eq!(cmd, "dictate --daemon --pipe-to ydotool type --file -");
}

#[test]
fn live_shortcut_targets_live_daemon_only() {
    let cmd = shortcut_command(&ShortcutMode::Type, "live_typing");
    assert_eq!(
        toggle_shell(&cmd),
        "pgrep -f '[d]ictate --daemon --mode live --pipe-to ydotool type --file -' >/dev/null && pkill -f --signal SIGUSR1 '[d]ictate --daemon --mode live --pipe-to ydotool type --file -' || (dictate --daemon --mode live --pipe-to ydotool type --file - &)"
    );
}

#[test]
fn batch_profile_shortcut_has_no_daemon() {
    assert_eq!(shortcut_command(&ShortcutMode::Clipboard, "batch"), "dictate --pipe-to wl-copy");
    assert_eq!(
        shortcut_command(&ShortcutMode::Paste, "smart"),
        "dictate --daemon --mode smart --pipe-to sh -c 'wl-copy && ydotool key 29:1 47:1 47:0 29:0'"
    );
    assert_eq!(mode_name(&ShortcutMode::Paste), "clipboard + paste");
}

#[test]
fn toggle_shell_quotes_single_quotes() {
    assert_eq!(
        toggle_shell("x 'y'"),
        "pgrep -f 'x '\"'\"'y'\"'\"'' >/dev/null && pkill -f --signal SIGUSR1 'x '\"'\"'y'\"'\"'' || (x 'y' &)"
    );
}

#[test]
fn config_keys_are_normalized() {
    assert_eq!(normalize_config_key(" Mistral-Key "), "MISTRAL_API_KEY");
    assert_eq!(normalize_config_key("output_mode"), "SHORTCUT_OUTPUT");
    assert_eq!(normalize_config_key("custom-thing"), "CUSTOM_THING");
}

#[test]
fn config_values_are_read_from_lines() {
    let contents = "# PROVIDER=x\n\nTRANSCRIPTION_PROVIDER = groq \nTRANSCRIPTION_PROVIDER=mistral\n";
    assert_eq!(config_value(contents, "provider"), Some("groq".to_string()));
    assert_eq!(config_value(contents, "language"), None);
}

#[test]
fn config_values_are_set_in_place_or_appended() {
    assert_eq!(
        with_config_value("#A=1\nA=1\nB=2", "a", "9"),
        "#A=1\nA=9\nB=2\n"
    );
    assert_eq!(with_config_value("B=2\n", "a", "9"), "B=2\nA=9\n");
    assert_eq!(with_config_value("", "beep_volume", "0.2"), "BEEP_VOLUME=0.2\n");
}

#[test]
fn daemon_argv_and_pattern() {
    assert_eq!(
        toggle_daemon_argv(ToggleKind::Live),
        vec!["dictate", "--daemon", "--mode", "live", "--pipe-to", "ydotool", "type", "--file", "-"]
    );
    assert_eq!(
        daemon_match_pattern(ToggleKind::Smart),
        "[d]ictate --daemon --mode smart"
    );
}

#[test]
fn gnome_bindings() {
    assert_eq!(gnome_binding("SUPER,SHIFT,R"), "<Super><Shift>r");
    assert_eq!(gnome_binding(" ctrl , alt ,F5,"), "<Control><Alt>f5");
}

#[test]
fn keybinding_list_keeps_others_and_adds_ours() {
    assert_eq!(
        custom_keybindings_value(Some("['/a/', '/x/dictate-type/', '/org/gnome/settings-daemon/plugins/media-keys/custom-keybindings/dictate-live/']")),
        "['/a/', '/org/gnome/settings-daemon/plugins/media-keys/custom-keybindings/dictate-live/', '/org/gnome/settings-daemon/plugins/media-keys/custom-keybindings/dictate-smart/']"
    );
    assert_eq!(
        custom_keybindings_value(None),
        "['/org/gnome/settings-daemon/plugins/media-keys/custom-keybindings/dictate-live/', '/org/gnome/settings-daemon/plugins/media-keys/custom-keybindings/dictate-smart/']"
    );
}

#[test]
fn service_unit_runs_the_warm_daemon() {
    let unit = service_contents(ToggleKind::Live, "/usr/bin/dictate");
    assert!(unit.starts_with("[Unit]\nDescription=Dictate warm live typing daemon\n"));
    assert!(unit.contains(
        "ExecStart=/usr/bin/dictate --daemon --mode live --idle-on-start --pipe-to ydotool type --file -\n"
    ));
}

#[test]
fn shortcut_lines_for_desktops() {
    let args = ShortcutArgs {
        desktop: ShortcutDesktop::Gnome,
        mode: ShortcutMode::Auto,
        profile: "smart".to_string(),
        key: "SUPER,R".to_string(),
        install: false,
    };
    let lines = shortcut_lines(&args);
    assert_eq!(lines[3], "# 3. Name: Dictate (auto output)");
    assert_eq!(lines[4], "#    Command: dictate toggle smart");
    let args = ShortcutArgs {
        desktop: ShortcutDesktop::Hyprland,
        mode: ShortcutMode::Stdout,
        profile: "segmented".to_string(),
        key: "SUPER,R".to_string(),
        install: false,
    };
    let lines = shortcut_lines(&args);
    assert_eq!(lines.len(), 4);
    assert!(lines[1].starts_with("bind = SUPER, R, exec, pgrep -f '[d]ictate --daemon'"));
    assert!(lines[3].starts_with("# bind = SUPER SHIFT, R, exec, pgrep"));
}

#[test]
fn desktop_detection_and_choices() {
    assert_eq!(detect_desktop("x11", "GNOME"), "other");
    assert_eq!(detect_desktop("wayland", "ubuntu:GNOME"), "gnome");
    assert_eq!(detect_desktop("", "KDE"), "kde");
    assert_eq!(detect_desktop("wayland", "sway"), "sway");
    assert_eq!(detect_desktop("wayland", "niri"), "niri");
    assert_eq!(detect_desktop("wayland", "unknown"), "hyprland");
    assert_eq!(parse_shortcut_desktop(" KDE "), ShortcutDesktop::Kde);
    assert_eq!(parse_shortcut_desktop("whatever"), ShortcutDesktop::Hyprland);
    assert_eq!(desktop_choices(), vec!["hyprland", "niri", "gnome", "kde", "sway", "other"]);
}

#[test]
fn setup_writes_answers_in_order() {
    let answers = SetupAnswers {
        use_mistral: true,
        api_key: Some("  sk-1 ".to_string()),
        shortcut: " SUPER,R ".to_string(),
        desktop: "gnome".to_string(),
        beeps: false,
    };
    let settings = setup_settings(&answers);
    let keys: Vec<&str> = settings.iter().map(|(k, _)| k.as_str()).collect();
    assert_eq!(
        keys,
        vec![
            "provider", "mistral-api-key", "profile", "batch-mode", "transcription-mode", "language",
            "shortcut-output", "shortcut-key-live", "shortcut-key", "shortcut-desktop", "audio-feedback"
        ]
    );
    assert_eq!(settings[1].1, "sk-1");
    assert_eq!(settings[7].1, "SUPER,R");
    assert_eq!(settings[10].1, "false");
    let groq = SetupAnswers { use_mistral: false, api_key: Some(" ".to_string()), ..answers };
    let settings = setup_settings(&groq);
    assert_eq!(settings[0], ("provider".to_string(), "groq".to_string()));
    assert_eq!(settings[1].0, "profile");
}
