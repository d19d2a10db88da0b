//! Wayland/Linux output sinks: everything is an external helper binary.
use crate::platform::YDOTOOL_PASTE_SHELL;
use crate::text::{chars_of, ends_with, ends_with_str, eq_str};
use crate::text::views;
use vstd::prelude::*;

verus! {

pub open spec fn spec_pipe_to_for_mode(mode: Seq<char>) -> Option<Seq<Seq<char>>> {
    if mode == "type"@ || mode == "typing"@ {
        Some(seq!["ydotool"@, "type"@, "--file"@, "-"@])
    } else if mode == "clipboard"@ || mode == "copy"@ {
        Some(seq!["wl-copy"@])
    } else if mode == "paste"@ || mode == "clipboard_paste"@ {
        Some(seq!["sh"@, "-c"@, YDOTOOL_PASTE_SHELL@])
    } else {
        None
    }
}

/// Owned copies of string literals.
pub fn owned(parts: &[&str]) -> (v: Vec<String>)
    ensures
        v@.len() == parts@.len(),
        forall|i: int| 0 <= i < parts@.len() ==> #[trigger] v@[i]@ == parts@[i]@,
{
    let mut v: Vec<String> = Vec::new();
    let mut i: usize = 0;
    while i < parts.len()
        invariant
            0 <= i <= parts@.len(),
            v@.len() == i,
            forall|k: int| 0 <= k < i ==> #[trigger] v@[k]@ == parts@[k]@,
        decreases parts@.len() - i,
    {
        v.push(String::from_str(parts[i]));
        i = i + 1;
    }
    v
}

/// Argv for a `SHORTCUT_OUTPUT` / `--pipe-to` mode, or `None` for stdout.
pub fn pipe_to_for_mode(mode: &str) -> (r: Option<Vec<String>>)
    ensures
        match r {
            Some(v) => spec_pipe_to_for_mode(mode@) == Some(views(v@)),
            None => spec_pipe_to_for_mode(mode@) is None,
        },
{
    let m = chars_of(mode);
    if eq_str(&m, "type") || eq_str(&m, "typing") {
        let v = owned(&["ydotool", "type", "--file", "-"]);
        proof {
            assert(views(v@) =~= seq!["ydotool"@, "type"@, "--file"@, "-"@]);
        }
        Some(v)
    } else if eq_str(&m, "clipboard") || eq_str(&m, "copy") {
        let v = owned(&["wl-copy"]);
        proof {
            assert(views(v@) =~= seq!["wl-copy"@]);
        }
        Some(v)
    } else if eq_str(&m, "paste") || eq_str(&m, "clipboard_paste") {
        let v = owned(&["sh", "-c", YDOTOOL_PASTE_SHELL]);
        proof {
            assert(views(v@) =~= seq!["sh"@, "-c"@, YDOTOOL_PASTE_SHELL@]);
        }
        Some(v)
    } else {
        None
    }
}

/// Argv that prints the current clipboard on stdout.
pub fn clipboard_read_command() -> (v: Vec<String>)
    ensures
        views(v@) == seq!["wl-paste"@, "--no-newline"@],
{
    let v = owned(&["wl-paste", "--no-newline"]);
    proof {
        assert(views(v@) =~= seq!["wl-paste"@, "--no-newline"@]);
    }
    v
}

/// Hint shown when the clipboard cannot be read.
pub const CLIPBOARD_HINT: &'static str = "Install wl-clipboard or configure [command_mode].clipboard_command in text.toml.";

/// `ydotool key` arguments pressing and releasing Backspace `count` times.
pub open spec fn backspace_keys(count: nat) -> Seq<Seq<char>>
    decreases count,
{
    if count == 0 {
        seq!["ydotool"@, "key"@]
    } else {
        backspace_keys((count - 1) as nat).push("14:1"@).push("14:0"@)
    }
}

pub open spec fn spec_backspace_invocation(sink: Seq<Seq<char>>, count: nat) -> Option<
    (Seq<Seq<char>>, Seq<char>),
> {
    if sink.len() > 0 && ends_with(sink[0], "ydotool"@) {
        Some((backspace_keys(count), Seq::<char>::empty()))
    } else {
        None
    }
}

/// How to erase `count` characters through `sink`, when the sink has a
/// dedicated key-press path. `None` falls back to writing `\u{8}` to stdin.
pub fn backspace_invocation(sink: &[String], count: usize) -> (r: Option<(Vec<String>, String)>)
    ensures
        match r {
            Some((argv, input)) => spec_backspace_invocation(views(sink@), count as nat) == Some(
                (views(argv@), input@),
            ),
            None => spec_backspace_invocation(views(sink@), count as nat) is None,
        },
{
    if sink.len() == 0 {
        return None;
    }
    let first = chars_of(sink[0].as_str());
    if !ends_with_str(&first, "ydotool") {
        return None;
    }
    let mut argv = owned(&["ydotool", "key"]);
    proof {
        assert(views(argv@) =~= backspace_keys(0));
    }
    let mut i: usize = 0;
    while i < count
        invariant
            0 <= i <= count,
            views(argv@) == backspace_keys(i as nat),
        decreases count - i,
    {
        let ghost before = argv@;
        argv.push(String::from_str("14:1"));
        argv.push(String::from_str("14:0"));
        proof {
            assert(views(argv@) =~= views(before).push("14:1"@).push("14:0"@));
        }
        i = i + 1;
    }
    Some((argv, String::new()))
}

} // verus!
