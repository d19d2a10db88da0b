use dictate::developer_modes::apply_developer_mode;

#[test]
fn markdown_heading() {
    assert_eq!(
        apply_developer_mode("heading two install", "markdown"),
        "## Install"
    );
}

#[test]
fn git_commit_conventionalizes() {
    assert_eq!(
        apply_developer_mode("fix release audio device", "git-commit"),
        "fix: release audio device"
    );
}

#[test]
fn terminal_command_adds_flags() {
    assert_eq!(
        apply_developer_mode("cargo build release features local", "terminal"),
        "cargo build --release --features local"
    );
}

#[test]
fn code_symbols_are_expanded() {
    assert_eq!(
        apply_developer_mode(
            "open paren user id colon string close paren arrow result",
            "code-symbols"
        ),
        "(user_id: String) -> Result"
    );
}

#[test]
fn file_paths_are_compacted() {
    assert_eq!(
        apply_developer_mode(
            "home slash projects slash dictate slash read me dot md",
            "file-path"
        ),
        "~/projects/dictate/README.md"
    );
}

#[test]
fn developer_vocabulary_applies_to_modes() {
    assert_eq!(
        apply_developer_mode("install pipe wire", "plain"),
        "install PipeWire"
    );
}

#[test]
fn vocabulary_ignores_case_and_repeats() {
    assert_eq!(
        apply_developer_mode("PIPE WIRE pipe wire on way land", "plain"),
        "PipeWire PipeWire on Wayland"
    );
}

#[test]
fn vocabulary_keeps_phrases_inside_words() {
    assert_eq!(apply_developer_mode("xpipe wire", ""), "xpipe wire");
    assert_eq!(apply_developer_mode("get hubs", "default"), "get hubs");
}

#[test]
fn unknown_mode_keeps_text() {
    assert_eq!(apply_developer_mode("hello there", "poetry"), "hello there");
}

#[test]
fn mode_names_are_normalized() {
    assert_eq!(
        apply_developer_mode("dash two", "  File_Path "),
        "-two"
    );
    assert_eq!(apply_developer_mode("bullet milk", "MD"), "- Milk");
}

#[test]
fn markdown_writes_breaks() {
    assert_eq!(
        apply_developer_mode("first new line second new paragraph third", "markdown"),
        "first\nsecond\n\nthird"
    );
    assert_eq!(
        apply_developer_mode("run code block ls end code block", "markdown"),
        "run\n```\nls\n```"
    );
}

#[test]
fn commit_messages() {
    assert_eq!(
        apply_developer_mode("feat: Add parser.", "commit"),
        "feat: Add parser"
    );
    assert_eq!(
        apply_developer_mode("Added Support for flags...", "git"),
        "feat: support for flags"
    );
    assert_eq!(apply_developer_mode("Tidy up", "git"), "chore: tidy up");
}

#[test]
fn terminal_pipes_and_git_add() {
    assert_eq!(
        apply_developer_mode("git all, pipe less", "shell"),
        "git add . | less"
    );
    assert_eq!(apply_developer_mode("ls dash dash all", "command"), "ls --all");
    assert_eq!(
        apply_developer_mode("ls double dash help", "terminal"),
        "ls --help"
    );
}

#[test]
fn code_symbols_spacing() {
    assert_eq!(
        apply_developer_mode("open bracket one comma two close bracket", "code"),
        "[one, two]"
    );
    assert_eq!(
        apply_developer_mode("x equals open brace close brace", "code"),
        "x = {}"
    );
    assert_eq!(
        apply_developer_mode("a fat arrow b dot c", "code-symbol"),
        "a_fat -> b. c"
    );
    assert_eq!(
        apply_developer_mode("comma fat arrow value", "code"),
        ", => value"
    );
}

#[test]
fn file_path_separators() {
    assert_eq!(
        apply_developer_mode("tilde slash my underscore file dot rs", "path"),
        "~/my_file.rs"
    );
    assert_eq!(
        apply_developer_mode("c colon backslash temp", "filepath"),
        "ccolon\\temp"
    );
}
