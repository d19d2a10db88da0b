use dictate::control::{pipe_name, send_command, Slot};
use dictate::platform::hotkeys::{parse, HotkeyError, MOD_CONTROL, MOD_NOREPEAT, MOD_SHIFT, MOD_WIN};
use dictate::platform::{
    backspace_invocation, clipboard_read_command, is_internal, parse_pipe_to_env, pipe_to_for_mode,
    windows, INTERNAL_CMD,
};

#[test]
fn parses_compositor_style_shortcut() {
    let spec = parse("SUPER,SHIFT,R").unwrap();
    assert_eq!(spec.key, 'R' as u32);
    assert_eq!(spec.modifiers, MOD_NOREPEAT | MOD_WIN | MOD_SHIFT);
}

#[test]
fn parses_gnome_and_plus_styles() {
    assert_eq!(
        parse("<Super><Shift>r").unwrap(),
        parse("SUPER,SHIFT,R").unwrap()
    );
    assert_eq!(
        parse("Meta+Shift+R").unwrap(),
        parse("SUPER,SHIFT,R").unwrap()
    );
}

#[test]
fn parses_function_keys() {
    assert_eq!(parse("CTRL,F9").unwrap().key, 0x78);
}

#[test]
fn rejects_modifierless_and_unknown_keys() {
    assert!(parse("R").is_err());
    assert!(parse("SUPER").is_err());
    assert!(parse("SUPER,BANANA").is_err());
}

#[test]
fn hotkey_errors_name_the_problem() {
    assert_eq!(
        parse("SUPER,BANANA,ALT").unwrap_err(),
        HotkeyError::UnsupportedKey("BANANA".to_string())
    );
    assert_eq!(
        parse("R").unwrap_err().to_string(),
        "shortcut 'R' has no modifier — Windows would capture the bare key globally"
    );
    assert_eq!(
        parse("CTRL").unwrap_err().to_string(),
        "shortcut 'CTRL' has no key, only modifiers"
    );
    let spec = parse("ctrl+space").unwrap();
    assert_eq!(spec.key, 0x20);
    assert_eq!(spec.modifiers, MOD_NOREPEAT | MOD_CONTROL);
    assert!(parse("CTRL,F25").is_err());
}

#[test]
fn internal_sinks_are_recognised() {
    assert!(is_internal(&[INTERNAL_CMD.to_string(), "type".to_string()]));
    assert!(!is_internal(&["ydotool".to_string()]));
    assert!(!is_internal(&[]));
}

#[test]
fn unix_pipe_targets() {
    assert_eq!(
        pipe_to_for_mode("type"),
        Some(vec![
            "ydotool".to_string(),
            "type".to_string(),
            "--file".to_string(),
            "-".to_string()
        ])
    );
    assert_eq!(pipe_to_for_mode("copy"), Some(vec!["wl-copy".to_string()]));
    assert_eq!(pipe_to_for_mode("stdout"), None);
    assert_eq!(parse_pipe_to_env(Some(" STDOUT ")), None);
    assert_eq!(parse_pipe_to_env(None), None);
    assert_eq!(
        parse_pipe_to_env(Some(" Clipboard ")),
        Some(vec!["wl-copy".to_string()])
    );
    assert_eq!(
        clipboard_read_command(),
        vec!["wl-paste".to_string(), "--no-newline".to_string()]
    );
}

#[test]
fn unix_backspace_uses_ydotool_keys() {
    let sink = vec!["/usr/bin/ydotool".to_string(), "type".to_string()];
    let (argv, input) = backspace_invocation(&sink, 2).unwrap();
    assert_eq!(argv, vec!["ydotool", "key", "14:1", "14:0", "14:1", "14:0"]);
    assert_eq!(input, "");
    assert_eq!(backspace_invocation(&["wl-copy".to_string()], 2), None);
}

#[test]
fn windows_sinks_are_internal() {
    assert_eq!(
        windows::pipe_to_for_mode("paste"),
        Some(vec![INTERNAL_CMD.to_string(), "paste".to_string()])
    );
    let sink = windows::pipe_to_for_mode("type").unwrap();
    assert_eq!(
        windows::backspace_invocation(&sink, 12),
        Some((
            vec![INTERNAL_CMD.to_string(), "backspace".to_string()],
            "12".to_string()
        ))
    );
    let clip = windows::pipe_to_for_mode("clipboard").unwrap();
    assert_eq!(windows::backspace_invocation(&clip, 3), None);
    assert_eq!(
        windows::clipboard_read_command(),
        vec![INTERNAL_CMD.to_string(), "clipboard-read".to_string()]
    );
}

#[test]
fn slots_and_control_commands() {
    assert_eq!(Slot::from_mode(Some("live")), Slot::Live);
    assert_eq!(Slot::from_mode(Some("other")), Slot::Main);
    assert_eq!(Slot::from_mode(None), Slot::Main);
    assert_eq!(Slot::Hotkeys.as_str(), "hotkeys");
    assert_eq!(pipe_name(Slot::Smart), r"\\.\pipe\dictate-smart");
    assert_eq!(
        send_command(Slot::Live, "toggle").unwrap(),
        vec!["pkill", "-f", "--signal", "SIGUSR1", "[d]ictate --daemon --mode live"]
    );
    assert_eq!(
        send_command(Slot::Main, "ping").unwrap(),
        vec!["pgrep", "-f", "[d]ictate --daemon"]
    );
    assert_eq!(
        send_command(Slot::Main, "reboot").unwrap_err(),
        "unknown control message 'reboot'"
    );
}
