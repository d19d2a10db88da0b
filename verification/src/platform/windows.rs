//! Windows output sinks: typing, clipboard and paste are served in-process and
//! addressed through `INTERNAL_CMD` pseudo-commands.
use crate::platform::{is_internal, INTERNAL_CMD};
use crate::text::{chars_of, decimal, decimal_vec, eq_str, string_of};
use crate::text::views;
use vstd::prelude::*;

verus! {

/// The pseudo-command for an in-process sink.
pub fn internal(sink: &str) -> (v: Vec<String>)
    ensures
        views(v@) == seq![INTERNAL_CMD@, sink@],
{
    let mut v: Vec<String> = Vec::new();
    v.push(String::from_str(INTERNAL_CMD));
    v.push(String::from_str(sink));
    proof {
        assert(views(v@) =~= seq![INTERNAL_CMD@, sink@]);
    }
    v
}

pub open spec fn spec_pipe_to_for_mode(mode: Seq<char>) -> Option<Seq<Seq<char>>> {
    if mode == "type"@ || mode == "typing"@ {
        Some(seq![INTERNAL_CMD@, "type"@])
    } else if mode == "clipboard"@ || mode == "copy"@ {
        Some(seq![INTERNAL_CMD@, "clipboard"@])
    } else if mode == "paste"@ || mode == "clipboard_paste"@ {
        Some(seq![INTERNAL_CMD@, "paste"@])
    } else {
        None
    }
}

/// Argv for a `SHORTCUT_OUTPUT` / `--pipe-to` mode, or `None` for stdout.
pub fn pipe_to_for_mode(mode: &str) -> (r: Option<Vec<String>>)
    ensures
        match r {
            Some(v) => spec_pipe_to_for_mode(mode@) == Some(views(v@)),
            None => spec_pipe_to_for_mode(mode@) is None,
        },
{
    let m = chars_of(mode);
    if eq_str(&m, "type") || eq_str(&m, "typing") {
        Some(internal("type"))
    } else if eq_str(&m, "clipboard") || eq_str(&m, "copy") {
        Some(internal("clipboard"))
    } else if eq_str(&m, "paste") || eq_str(&m, "clipboard_paste") {
        Some(internal("paste"))
    } else {
        None
    }
}

/// Argv that yields the current clipboard.
pub fn clipboard_read_command() -> (v: Vec<String>)
    ensures
        views(v@) == seq![INTERNAL_CMD@, "clipboard-read"@],
{
    internal("clipboard-read")
}

/// Hint shown when the clipboard cannot be read.
pub const CLIPBOARD_HINT: &'static str = "Close any clipboard manager holding the clipboard, or set [command_mode].clipboard_command in text.toml.";

pub open spec fn spec_backspace_invocation(sink: Seq<Seq<char>>, count: nat) -> Option<
    (Seq<Seq<char>>, Seq<char>),
> {
    if sink.len() > 0 && sink[0] == INTERNAL_CMD@ && sink.len() > 1 && (sink[1] == "type"@
        || sink[1] == "paste"@) {
        Some((seq![INTERNAL_CMD@, "backspace"@], decimal(count)))
    } else {
        None
    }
}

/// How to erase `count` characters through `sink`: the typing sinks send real
/// Backspace keys; anything else falls back to writing `\u{8}` into stdin.
pub fn backspace_invocation(sink: &[String], count: usize) -> (r: Option<(Vec<String>, String)>)
    ensures
        match r {
            Some((argv, input)) => spec_backspace_invocation(views(sink@), count as nat) == Some(
                (views(argv@), input@),
            ),
            None => spec_backspace_invocation(views(sink@), count as nat) is None,
        },
{
    if !is_internal(sink) {
        return None;
    }
    if sink.len() < 2 {
        return None;
    }
    let second = chars_of(sink[1].as_str());
    if eq_str(&second, "type") || eq_str(&second, "paste") {
        Some((internal("backspace"), string_of(&decimal_vec(count as u64))))
    } else {
        None
    }
}

} // verus!
