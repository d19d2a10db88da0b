use dictate::config::Config;
use dictate::context_session::{
    edit_policy, final_segment_edit, handle_final_segment, handle_live_delta,
    live_correction_edit, live_delta_action, normalize_insert_spacing,
    normalize_replacement_phrase, preprocess_insert, replace_typed_suffix, trailing_command,
    typed_suffix_edit, LiveAction,
};
use dictate::editing::{apply_edit, EditPolicy, TextEdit};
use dictate::intent::DictationIntent;
use dictate::text_processing::TextProcessingConfig;
use dictate::transcript::TranscriptBuffer;
use dictate::typing::{MockTypingBackend, TypingOperation};

fn live_delta(
    backend: &mut MockTypingBackend,
    buffer: &mut TranscriptBuffer,
    context_editing: bool,
    delta: &str,
) -> bool {
    let config = Config { context_editing, ..Default::default() };
    handle_live_delta(backend, buffer, &config, delta).unwrap()
}

#[test]
fn scratch_that_deletes_sentence() {
    let mut backend = MockTypingBackend::new();
    let mut buffer = TranscriptBuffer::new();
    buffer.append_typed("Hello world. This is wrong.");
    let config = Config::default();
    handle_final_segment(&mut backend, &mut buffer, &config, "scratch that", "plain").unwrap();
    assert_eq!(buffer.text(), "Hello world. ");
    assert!(backend
        .operations()
        .iter()
        .any(|op| matches!(op, TypingOperation::Backspace(_))));
}

#[test]
fn live_scratch_that_deletes_typed_command_and_sentence() {
    let mut backend = MockTypingBackend::new();
    let mut buffer = TranscriptBuffer::new();
    live_delta(&mut backend, &mut buffer, true, "Hello world. This is wrong. ");
    let edited = live_delta(&mut backend, &mut buffer, true, "scratch that");
    assert!(edited);
    assert_eq!(buffer.text(), "Hello world. ");
    assert!(backend
        .operations()
        .iter()
        .any(|op| matches!(op, TypingOperation::Backspace(_))));
}

#[test]
fn live_no_i_mean_replaces_recent_words() {
    let mut backend = MockTypingBackend::new();
    let mut buffer = TranscriptBuffer::new();
    live_delta(&mut backend, &mut buffer, true, "the meeting is at five");
    let edited = live_delta(&mut backend, &mut buffer, true, " no i mean six");
    assert!(edited);
    assert_eq!(buffer.text(), "the meeting is at six");
}

#[test]
fn live_no_thanks_is_not_a_command() {
    let mut backend = MockTypingBackend::new();
    let mut buffer = TranscriptBuffer::new();
    let edited = live_delta(&mut backend, &mut buffer, true, "see you later no thanks");
    assert!(!edited);
    assert_eq!(buffer.text(), "see you later no thanks");
}

#[test]
fn live_delta_skips_edits_when_disabled() {
    let mut backend = MockTypingBackend::new();
    let mut buffer = TranscriptBuffer::new();
    let edited = live_delta(&mut backend, &mut buffer, false, "Hello world. scratch that");
    assert!(!edited);
    assert_eq!(buffer.text(), "Hello world. scratch that");
    assert!(backend
        .operations()
        .iter()
        .all(|op| matches!(op, TypingOperation::Type(_))));
}

#[test]
fn replace_typed_suffix_rewrites_preview() {
    let mut backend = MockTypingBackend::new();
    let mut buffer = TranscriptBuffer::new();
    buffer.append_typed("the meeting is at five");
    let policy = EditPolicy::default();
    replace_typed_suffix(
        &mut backend,
        &mut buffer,
        "the meeting is at five",
        "The meeting is at 5.",
        policy,
    )
    .unwrap();
    assert_eq!(buffer.text(), "The meeting is at 5.");
    assert_eq!(
        backend.operations(),
        vec![TypingOperation::Backspace(22), TypingOperation::Type("The meeting is at 5.".to_string())]
    );
}

#[test]
fn typed_suffix_edit_needs_a_changed_suffix() {
    let mut buffer = TranscriptBuffer::new();
    buffer.append_typed("abc");
    assert!(typed_suffix_edit(&buffer, "", "x").is_none());
    assert!(typed_suffix_edit(&buffer, "bc", "bc").is_none());
    assert!(typed_suffix_edit(&buffer, "zz", "y").is_none());
    assert_eq!(
        typed_suffix_edit(&buffer, "bc", "BC"),
        Some(TextEdit::ReplaceSuffix { range: 1..3, replacement: "BC".to_string() })
    );
}

#[test]
fn insert_spacing() {
    assert_eq!(normalize_insert_spacing("Hello", "world"), " world");
    assert_eq!(normalize_insert_spacing("Hello", ", world"), ", world");
    assert_eq!(normalize_insert_spacing("Hello ", "world"), "world");
    assert_eq!(normalize_insert_spacing("", "world"), "world");
    assert_eq!(normalize_insert_spacing("Hi", ""), "");
}

#[test]
fn final_segment_inserts_with_space() {
    let mut buffer = TranscriptBuffer::new();
    buffer.append_typed("Hello");
    let config = TextProcessingConfig::default();
    let policy = edit_policy(&Config::default());
    assert_eq!(
        final_segment_edit(&buffer, &config, "world", "plain", policy),
        Some(TextEdit::Insert(" world".to_string()))
    );
}

#[test]
fn replacement_phrases_are_normalized() {
    assert_eq!(normalize_replacement_phrase("  Make it Six! "), "six");
    assert_eq!(normalize_replacement_phrase("change that to: the blue one"), "the blue one");
    assert_eq!(normalize_replacement_phrase("Tuesday"), "tuesday");
}

#[test]
fn trailing_commands_cover_the_command_words() {
    assert_eq!(
        trailing_command("one two. delete last word  "),
        Some((8..27, DictationIntent::DeleteLastWords(1)))
    );
    assert_eq!(trailing_command("nothing to see"), None);
    assert_eq!(trailing_command("   "), None);
}

#[test]
fn live_correction_without_words_before_is_none() {
    let mut buffer = TranscriptBuffer::new();
    buffer.append_typed("scratch that");
    assert_eq!(live_correction_edit(&buffer), None);
}

#[test]
fn final_segment_types_processed_text() {
    let mut backend = MockTypingBackend::new();
    let mut buffer = TranscriptBuffer::new();
    buffer.append_typed("Hello");
    handle_final_segment(&mut backend, &mut buffer, &Config::default(), "world", "plain").unwrap();
    assert_eq!(buffer.text(), "Hello world");
    assert_eq!(backend.operations(), vec![TypingOperation::Type(" world".to_string())]);
}

#[test]
fn apply_edit_sends_operations_then_records() {
    let mut backend = MockTypingBackend::new();
    let mut buffer = TranscriptBuffer::new();
    buffer.append_typed("héllo wörld");
    let policy = EditPolicy::default();
    apply_edit(&mut backend, &mut buffer, TextEdit::DeleteSuffix { range: 7..13 }, policy).unwrap();
    assert_eq!(buffer.text(), "héllo ");
    assert_eq!(backend.operations(), vec![TypingOperation::Backspace(5)]);
    let refuse = EditPolicy { type_rejected_commands: true, ..EditPolicy::default() };
    apply_edit(&mut backend, &mut buffer, TextEdit::Reject("no".to_string()), refuse).unwrap();
    assert_eq!(buffer.text(), "héllo no");
    apply_edit(&mut backend, &mut buffer, TextEdit::ResetContext, policy).unwrap();
    assert_eq!(buffer.text(), "");
}

#[test]
fn live_delta_action_reports_command_range() {
    let mut buffer = TranscriptBuffer::new();
    buffer.append_typed("one two. delete last word");
    match live_delta_action(&buffer, true) {
        LiveAction::Command { range, backspaces, intent } => {
            assert_eq!(range, 8..25);
            assert_eq!(backspaces, 17);
            assert_eq!(intent, DictationIntent::DeleteLastWords(1));
        }
        _ => panic!("expected a command"),
    }
    assert!(matches!(live_delta_action(&buffer, false), LiveAction::Nothing));
}

#[test]
fn preprocess_insert_uses_text_config() {
    let mut config = Config::default();
    config.text_processing.dictionary.push(("jason".to_string(), "JSON".to_string()));
    assert_eq!(preprocess_insert("send jason", &config, "plain"), "send JSON");
}

#[test]
fn replace_typed_suffix_leaves_moved_text_alone() {
    let mut backend = MockTypingBackend::new();
    let mut buffer = TranscriptBuffer::new();
    buffer.append_typed("hello there");
    replace_typed_suffix(&mut backend, &mut buffer, "five", "5", EditPolicy::default()).unwrap();
    assert_eq!(buffer.text(), "hello there");
    assert!(backend.operations().is_empty());
}
