use dictate::clipboard_intent::{
    is_voice_edit_command, looks_like_command_instruction, should_apply_clipboard_command,
};
use dictate::intent::{detect_intent, DictationIntent};

#[test]
fn detects_delete_commands() {
    assert_eq!(
        detect_intent("sorry remove that last line"),
        DictationIntent::DeleteLastLine
    );
    assert_eq!(
        detect_intent("scratch that"),
        DictationIntent::DeleteLastSentence
    );
    assert_eq!(
        detect_intent("delete last two words"),
        DictationIntent::DeleteLastWords(2)
    );
    assert_eq!(
        detect_intent("delete last 5 words"),
        DictationIntent::DeleteLastWords(5)
    );
}

#[test]
fn detects_replacements() {
    assert_eq!(
        detect_intent("replace five with six"),
        DictationIntent::ReplaceRecentExact {
            from: "five".into(),
            to: "six".into()
        }
    );
    assert_eq!(
        detect_intent("change monday to tuesday"),
        DictationIntent::ReplaceRecentExact {
            from: "monday".into(),
            to: "tuesday".into()
        }
    );
    assert_eq!(
        detect_intent("no I mean Friday"),
        DictationIntent::ReplaceRecentImplicit {
            replacement: "friday".into()
        }
    );
}

#[test]
fn detects_resets_rejections_and_plain_text() {
    assert_eq!(
        detect_intent("Reset dictate context, please."),
        DictationIntent::ResetContext
    );
    assert_eq!(
        detect_intent("replace with six"),
        DictationIntent::CommandRejected {
            reason: "Incomplete replace command".into()
        }
    );
    assert_eq!(
        detect_intent("change it"),
        DictationIntent::InsertText("change it".into())
    );
    assert_eq!(detect_intent("remove last word"), DictationIntent::DeleteLastWords(1));
    assert_eq!(
        detect_intent("delete last banana words"),
        DictationIntent::InsertText("delete last banana words".into())
    );
    assert_eq!(
        detect_intent("Hello there."),
        DictationIntent::InsertText("Hello there.".into())
    );
    assert_eq!(
        detect_intent("Actually, the blue one"),
        DictationIntent::ReplaceRecentImplicit {
            replacement: "the blue one".into()
        }
    );
}

#[test]
fn detects_instruction_phrases() {
    assert!(looks_like_command_instruction("make this more concise"));
    assert!(looks_like_command_instruction("please fix grammar"));
    assert!(looks_like_command_instruction(
        "turn this into bullet points"
    ));
    assert!(!looks_like_command_instruction(
        "The quarterly report shows revenue increased across all regions and we should schedule a follow-up meeting with the finance team next Tuesday"
    ));
    assert!(!looks_like_command_instruction(
        "Is this working? Hello? Hello?"
    ));
}

#[test]
fn scratch_not_clipboard_command() {
    assert!(!should_apply_clipboard_command(
        "scratch that",
        "some long clipboard text here ok"
    ));
}

#[test]
fn needs_clipboard_and_instruction() {
    assert!(should_apply_clipboard_command(
        "fix grammar",
        "hello world this is a test"
    ));
    assert!(!should_apply_clipboard_command("fix grammar", "short"));
    assert!(!should_apply_clipboard_command(
        "hello world dictation only",
        "some long clipboard text here ok"
    ));
    assert!(!should_apply_clipboard_command(
        "Is this working? Hello? Hello?",
        "some long clipboard text here ok"
    ));
}

#[test]
fn command_verbs_and_voice_edits() {
    assert!(looks_like_command_instruction("\"Summarize!\" it"));
    assert!(!looks_like_command_instruction("   "));
    assert!(is_voice_edit_command("delete last line"));
    assert!(!is_voice_edit_command("write a poem"));
}

#[test]
fn clipboard_limit_counts_characters() {
    let six = "éééééé";
    assert!(!should_apply_clipboard_command("fix grammar", six));
    let twelve = "éééééééééééé";
    assert!(should_apply_clipboard_command("fix grammar", twelve));
}
