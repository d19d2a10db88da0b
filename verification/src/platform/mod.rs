//! Platform glue: which helper commands serve as output sinks.
//!
//! On Wayland the output sinks are external helpers (`ydotool`, `wl-copy`).
//! Windows implements the same sinks in-process and addresses them through a
//! pseudo-command whose argv[0] is `INTERNAL_CMD`.
use crate::text::{chars_of, eq_str, lower, lower_vec, trim, trimmed};
use crate::text::views;
use vstd::prelude::*;

pub mod hotkeys;
pub mod unix;
pub mod windows;

pub use unix::{backspace_invocation, clipboard_read_command, pipe_to_for_mode, CLIPBOARD_HINT};

verus! {

/// argv[0] marking a pipe target that dictate services itself.
pub const INTERNAL_CMD: &'static str = "@dictate";

/// Shell snippet that copies stdin and presses Ctrl+V through ydotool.
pub const YDOTOOL_PASTE_SHELL: &'static str = "wl-copy && ydotool key 29:1 47:1 47:0 29:0";

/// True when `argv` addresses an in-process sink rather than an external binary.
pub fn is_internal(argv: &[String]) -> (b: bool)
    ensures
        b == (argv@.len() > 0 && argv@[0]@ == INTERNAL_CMD@),
{
    if argv.len() == 0 {
        return false;
    }
    let first = chars_of(argv[0].as_str());
    eq_str(&first, INTERNAL_CMD)
}

pub open spec fn spec_parse_pipe_to_env(mode: Option<Seq<char>>) -> Option<Seq<Seq<char>>> {
    match mode {
        None => None,
        Some(m) => {
            let k = lower(trim(m));
            if k == "stdout"@ || k == ""@ {
                None
            } else {
                unix::spec_pipe_to_for_mode(k)
            }
        },
    }
}

/// Resolve a `SHORTCUT_OUTPUT` value to a pipe target: `None` for stdout.
pub fn parse_pipe_to_env(mode: Option<&str>) -> (r: Option<Vec<String>>)
    ensures
        match r {
            Some(v) => spec_parse_pipe_to_env(match mode {
                Some(m) => Some(m@),
                None => None,
            }) == Some(views(v@)),
            None => spec_parse_pipe_to_env(match mode {
                Some(m) => Some(m@),
                None => None,
            }) is None,
        },
{
    match mode {
        None => None,
        Some(m) => {
            let t = trimmed(m);
            let k = lower_vec(&t);
            if eq_str(&k, "stdout") || eq_str(&k, "") {
                None
            } else {
                let ks = crate::text::string_of(&k);
                pipe_to_for_mode(ks.as_str())
            }
        },
    }
}

} // verus!
