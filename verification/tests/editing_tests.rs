use dictate::editing::{apply_edit, plan_edit, EditPolicy, TextEdit};
use dictate::intent::DictationIntent;
use dictate::transcript::TranscriptBuffer;
use dictate::typing::{MockTypingBackend, TypingOperation};

#[test]
fn deletes_last_word() {
    let mut backend = MockTypingBackend::new();
    let mut buffer = TranscriptBuffer::new();
    buffer.append_typed("hello world");
    let edit = plan_edit(&buffer, DictationIntent::DeleteLastWords(1), EditPolicy::default());
    apply_edit(&mut backend, &mut buffer, edit, EditPolicy::default()).unwrap();
    assert_eq!(buffer.text(), "hello ");
    assert_eq!(backend.operations(), vec![TypingOperation::Backspace(5)]);
}

#[test]
fn replaces_exact_suffix() {
    let mut backend = MockTypingBackend::new();
    let mut buffer = TranscriptBuffer::new();
    buffer.append_typed("meeting at five");
    let edit = plan_edit(
        &buffer,
        DictationIntent::ReplaceRecentExact {
            from: "five".into(),
            to: "six".into(),
        },
        EditPolicy::default(),
    );
    apply_edit(&mut backend, &mut buffer, edit, EditPolicy::default()).unwrap();
    assert_eq!(buffer.text(), "meeting at six");
    assert_eq!(
        backend.operations(),
        vec![
            TypingOperation::Backspace(4),
            TypingOperation::Type("six".into())
        ]
    );
}

#[test]
fn rejects_large_delete() {
    let mut buffer = TranscriptBuffer::new();
    buffer.append_typed("hello world");
    let policy = EditPolicy {
        max_delete_chars: 3,
        ..EditPolicy::default()
    };
    let edit = plan_edit(&buffer, DictationIntent::DeleteLastWords(1), policy);
    assert!(matches!(edit, TextEdit::Reject(_)));
}

#[test]
fn deletes_last_sentence() {
    let mut backend = MockTypingBackend::new();
    let mut buffer = TranscriptBuffer::new();
    buffer.append_typed("Hello world. This is wrong.");
    let edit = plan_edit(&buffer, DictationIntent::DeleteLastSentence, EditPolicy::default());
    apply_edit(&mut backend, &mut buffer, edit, EditPolicy::default()).unwrap();
    assert_eq!(buffer.text(), "Hello world. ");
}

#[test]
fn implicit_replacement_replaces_suffix_words() {
    let mut backend = MockTypingBackend::new();
    let mut buffer = TranscriptBuffer::new();
    buffer.append_typed("the meeting is at five");
    let edit = plan_edit(
        &buffer,
        DictationIntent::ReplaceRecentImplicit {
            replacement: "six".into(),
        },
        EditPolicy::default(),
    );
    apply_edit(&mut backend, &mut buffer, edit, EditPolicy::default()).unwrap();
    assert_eq!(buffer.text(), "the meeting is at six");
}

#[test]
fn reset_context_clears_buffer_without_typing() {
    let mut backend = MockTypingBackend::new();
    let mut buffer = TranscriptBuffer::new();
    buffer.append_typed("hello");
    let edit = plan_edit(&buffer, DictationIntent::ResetContext, EditPolicy::default());
    apply_edit(&mut backend, &mut buffer, edit, EditPolicy::default()).unwrap();
    assert_eq!(buffer.text(), "");
    assert!(backend.operations().is_empty());
}
