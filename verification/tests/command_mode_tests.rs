use dictate::command_mode::{split_sentences, transform_text};

#[test]
fn fixes_grammar_locally() {
    assert_eq!(
        transform_text("fix grammar", "um hello  world").unwrap(),
        "Hello world."
    );
}

#[test]
fn turns_text_into_bullets() {
    assert_eq!(
        transform_text(
            "turn this into bullet points",
            "Install PipeWire. Set the keybind."
        )
        .unwrap(),
        "- Install PipeWire\n- Set the keybind"
    );
}

#[test]
fn makes_text_concise() {
    assert_eq!(
        transform_text(
            "make this more concise",
            "I think basically we should just ship this"
        )
        .unwrap(),
        "We should ship this."
    );
}

#[test]
fn rewrites_casually() {
    assert_eq!(
        transform_text("rewrite casually", "You are not required to do this").unwrap(),
        "You're not required to do this."
    );
}

#[test]
fn summarizes_text() {
    assert_eq!(
        transform_text(
            "summarize this paragraph",
            "Dictate is a local speech tool. It works on Wayland. It supports providers."
        )
        .unwrap(),
        "Dictate is a local speech tool It works on Wayland."
    );
}

#[test]
fn rejects_unknown_instruction() {
    assert!(transform_text("dance", "hello").is_err());
}

#[test]
fn unknown_instruction_names_the_local_commands() {
    assert_eq!(
        transform_text("  dance  ", "hello").unwrap_err(),
        "Unsupported command mode instruction: 'dance'. Supported local commands: fix grammar, turn this into bullet points, make this more concise, rewrite casually, summarize this paragraph."
    );
}

#[test]
fn sentences_are_split_and_trimmed() {
    assert_eq!(
        split_sentences(" One. Two!  \n three? four"),
        vec!["One.", "Two!", "three?", "four"]
    );
    assert!(split_sentences("  . ").len() == 1);
    assert!(split_sentences("   ").is_empty());
}

#[test]
fn bullets_fall_back_to_the_text() {
    assert_eq!(transform_text("make a list", " - - ").unwrap(), " - - ");
}

#[test]
fn summary_of_one_sentence() {
    assert_eq!(
        transform_text("give me a summary", "just this one"),
        Ok("Just this one.".to_string())
    );
}
