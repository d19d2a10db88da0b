use dictate::polish_styles::apply_style_to_system;
use dictate::transcription::encode_model;
use dictate::config::prune_retired_env_lines;
use dictate::config_cli::{config_value, with_config_value};
use dictate::editing::{apply_edit, EditPolicy, TextEdit};
use dictate::startup::{ClipDaemon, ClipDaemonAction, ClipDaemonEvent};
use dictate::transcript::TranscriptBuffer;
use dictate::typing::{MockTypingBackend, TypingOperation};
use dictate::update::is_newer;
use dictate::word_store::WordBook;

#[test]
fn config_value_reads_back_what_was_set() {
    let contents = "# comment\nTRANSCRIPTION_PROVIDER=groq\r\nOTHER=1\n";
    let updated = with_config_value(contents, "provider", "  mistral ");
    assert_eq!(config_value(&updated, "provider"), Some("mistral".to_string()));
    assert_eq!(config_value(&updated, "OTHER"), Some("1".to_string()));

    let appended = with_config_value("", "beep-volume", "0.3");
    assert_eq!(appended, "BEEP_VOLUME=0.3\n");
    assert_eq!(config_value(&appended, "beep_volume"), Some("0.3".to_string()));
}

#[test]
fn pruning_twice_removes_nothing_more() {
    let once = prune_retired_env_lines("A=1\nENABLE_OVERLAY=true\r\nB=2\n").unwrap();
    assert_eq!(once, "A=1\nB=2\n");
    assert_eq!(prune_retired_env_lines(&once), None);
    let emptied = prune_retired_env_lines("enable_overlay=1\n").unwrap();
    assert_eq!(emptied, "");
    assert_eq!(prune_retired_env_lines(&emptied), None);
}

#[test]
fn newer_is_a_strict_order() {
    assert!(!is_newer("v1.4.0", "1.4.0"));
    assert!(is_newer("1.4.1", "1.4.0"));
    assert!(!is_newer("1.4.0", "1.4.1"));
    assert!(is_newer("1.4.0", "1.4.0-rc1"));
    assert!(!is_newer("1.4.0-rc1", "1.4.0"));
}

#[test]
fn a_word_keeps_one_misspelling() {
    let mut book = WordBook::default();
    book.set_misspelling("Draft", Some("Draught"));
    book.set_misspelling("Draft", Some("Draf"));
    let entries = book.dictionary.entries();
    assert_eq!(entries, vec![("Draf".to_string(), "Draft".to_string())]);
}

#[test]
fn two_toggles_transcribe_once() {
    let mut daemon = ClipDaemon::new();
    let first = daemon.step(false, ClipDaemonEvent::Toggle);
    assert!(daemon.recording);
    assert!(!first.contains(&ClipDaemonAction::TranscribeClip));
    let second = daemon.step(false, ClipDaemonEvent::Toggle);
    assert!(!daemon.recording);
    assert!(second.contains(&ClipDaemonAction::TranscribeClip));
    let _ = daemon.step(false, ClipDaemonEvent::Toggle);
    let last = daemon.step(false, ClipDaemonEvent::Shutdown);
    assert_eq!(
        last,
        vec![
            ClipDaemonAction::StopRecording,
            ClipDaemonAction::ClearBuffer,
            ClipDaemonAction::Exit
        ]
    );
}

#[test]
fn keys_sent_match_the_buffer() {
    let mut backend = MockTypingBackend::new();
    let mut buffer = TranscriptBuffer::new();
    let policy = EditPolicy::default();
    apply_edit(&mut backend, &mut buffer, TextEdit::Insert("hello wörld".to_string()), policy).unwrap();
    let range = buffer.last_word_range().unwrap();
    apply_edit(
        &mut backend,
        &mut buffer,
        TextEdit::ReplaceSuffix {
            range,
            replacement: "there".to_string(),
        },
        policy,
    )
    .unwrap();
    assert_eq!(buffer.text(), "hello there");
    assert_eq!(
        backend.operations(),
        vec![
            TypingOperation::Type("hello wörld".to_string()),
            TypingOperation::Backspace(5),
            TypingOperation::Type("there".to_string()),
        ]
    );
}

#[test]
fn is_newer_chains_and_ignores_v() {
    assert!(is_newer("1.2.0", "1.1.9"));
    assert!(is_newer("1.1.9", "1.1.9-rc1"));
    assert!(is_newer("1.2.0", "1.1.9-rc1"));
    assert_eq!(is_newer("v1.2", "1.1"), is_newer("1.2", "1.1"));
    assert_eq!(is_newer("1.0", "V1.0"), is_newer("1.0", "1.0"));
    assert_eq!(is_newer("v 1.2", "1.1"), is_newer(" 1.2", "1.1"));
}

#[test]
fn adding_a_word_twice_changes_nothing_more() {
    let mut book = WordBook::default();
    book.add_preferred_word("zeta");
    book.add_preferred_word("Alpha");
    book.add_preferred_word("alpha");
    assert_eq!(book.preferred_words, vec!["Alpha".to_string(), "zeta".to_string()]);
    let before = book.preferred_words.clone();
    book.add_preferred_word("Beta");
    let once = book.preferred_words.clone();
    book.add_preferred_word("Beta");
    assert_eq!(book.preferred_words, once);
    assert!(before.iter().all(|w| once.contains(w)));
}

#[test]
fn starring_twice_restores_the_stars() {
    let mut book = WordBook::default();
    book.toggle_star("beta");
    book.toggle_star("alpha");
    let stars = book.starred_words.clone();
    book.toggle_star("gamma");
    assert!(book.starred_words.contains(&"gamma".to_string()));
    book.toggle_star("gamma");
    assert_eq!(book.starred_words, stars);
    book.toggle_star("alpha");
    assert!(!book.starred_words.contains(&"alpha".to_string()));
    book.toggle_star("alpha");
    assert_eq!(book.starred_words, stars);
}

#[test]
fn style_only_extends_the_prompt() {
    let o = apply_style_to_system("base", "casual");
    assert!(o.starts_with("base\n\n"));
    assert_eq!(apply_style_to_system("b", " Default "), "b");
}

#[test]
fn encoded_model_is_url_safe() {
    let o = encode_model("m&smart_format=false é");
    assert!(o.bytes().all(|c| c.is_ascii_alphanumeric() || b"-_.~%".contains(&c)));
    assert_eq!(encode_model("nova-3"), "nova-3");
    assert_eq!(encode_model("m&smart_format=false"), "m%26smart_format%3Dfalse");
}
