//! One shortcut: treat speech as a clipboard command when context matches.
use crate::intent::{detect_intent, spec_detect_intent, DictationIntent, IntentModel};
use crate::text::{
    chars_of, char_is_ascii_alnum, contains, contains_str, eq_str, is_ascii_alnum, lower,
    lower_vec, slice_vec, split_ws, split_ws_vec, trim, trim_vec, trimmed,
};
use vstd::prelude::*;

verus! {

/// Min clipboard size to consider "user copied something to edit".
pub const MIN_CLIPBOARD_CHARS: usize = 12;

/// `str::trim_matches(|c| !c.is_ascii_alphanumeric())`: the text between the
/// first and the last ASCII letter or digit.
pub open spec fn trim_non_alnum_start(s: Seq<char>) -> Seq<char>
    decreases s.len(),
{
    if s.len() > 0 && !is_ascii_alnum(s[0]) {
        trim_non_alnum_start(s.drop_first())
    } else {
        s
    }
}

pub open spec fn trim_non_alnum_end(s: Seq<char>) -> Seq<char>
    decreases s.len(),
{
    if s.len() > 0 && !is_ascii_alnum(s.last()) {
        trim_non_alnum_end(s.drop_last())
    } else {
        s
    }
}

pub open spec fn trim_non_alnum(s: Seq<char>) -> Seq<char> {
    trim_non_alnum_end(trim_non_alnum_start(s))
}

pub fn trim_non_alnum_vec(v: &[char]) -> (r: Vec<char>)
    ensures
        r@ == trim_non_alnum(v@),
{
    let mut i: usize = 0;
    proof {
        assert(v@.skip(0) =~= v@);
    }
    while i < v.len() && !char_is_ascii_alnum(v[i])
        invariant
            0 <= i <= v@.len(),
            trim_non_alnum_start(v@.skip(i as int)) == trim_non_alnum_start(v@),
        decreases v@.len() - i,
    {
        proof {
            assert(v@.skip(i as int).drop_first() =~= v@.skip(i + 1));
        }
        i = i + 1;
    }
    let rest = slice_vec(v, i, v.len());
    proof {
        assert(rest@ =~= v@.skip(i as int));
    }
    let mut j: usize = rest.len();
    proof {
        assert(rest@.take(j as int) =~= rest@);
    }
    while j > 0 && !char_is_ascii_alnum(rest[j - 1])
        invariant
            0 <= j <= rest@.len(),
            trim_non_alnum_end(rest@.take(j as int)) == trim_non_alnum_end(rest@),
        decreases j,
    {
        proof {
            assert(rest@.take(j as int).drop_last() =~= rest@.take(j - 1));
        }
        j = j - 1;
    }
    slice_vec(&rest, 0, j)
}

pub open spec fn is_command_start(w: Seq<char>) -> bool {
    ||| w == "fix"@
    ||| w == "rewrite"@
    ||| w == "summarize"@
    ||| w == "translate"@
    ||| w == "rephrase"@
    ||| w == "polish"@
    ||| w == "format"@
    ||| w == "simplify"@
    ||| w == "expand"@
    ||| w == "shorten"@
    ||| w == "correct"@
    ||| w == "improve"@
    ||| w == "proofread"@
}

pub open spec fn has_explicit_phrase(n: Seq<char>) -> bool {
    ||| contains(n, "fix grammar"@)
    ||| contains(n, "fix the grammar"@)
    ||| contains(n, "make this"@)
    ||| contains(n, "make that"@)
    ||| contains(n, "turn this"@)
    ||| contains(n, "turn that"@)
    ||| contains(n, "turn it"@)
    ||| contains(n, "more concise"@)
    ||| contains(n, "shorter"@)
    ||| contains(n, "into bullet"@)
    ||| contains(n, "bullet points"@)
    ||| contains(n, "as bullets"@)
    ||| contains(n, "rewrite this"@)
    ||| contains(n, "rewrite that"@)
    ||| contains(n, "summarize this"@)
    ||| contains(n, "summarize that"@)
    ||| contains(n, "summarize the"@)
    ||| contains(n, "edit this"@)
    ||| contains(n, "edit that"@)
    ||| contains(n, "format this"@)
    ||| contains(n, "format that"@)
    ||| contains(n, "proofread this"@)
    ||| contains(n, "proofread that"@)
}

/// A short utterance (at most 28 words) whose first word is an editing verb,
/// or that holds one of the editing phrases.
pub open spec fn spec_looks_like_command_instruction(transcript: Seq<char>) -> bool {
    let t = trim(transcript);
    let words = split_ws(t);
    if t.len() == 0 || words.len() > 28 {
        false
    } else {
        let normalized = trim_non_alnum(lower(t));
        let first = if words.len() > 0 {
            lower(trim_non_alnum(words[0]))
        } else {
            Seq::<char>::empty()
        };
        is_command_start(first) || has_explicit_phrase(normalized)
    }
}

fn is_command_start_exec(w: &[char]) -> (b: bool)
    ensures
        b == is_command_start(w@),
{
    eq_str(w, "fix") || eq_str(w, "rewrite") || eq_str(w, "summarize") || eq_str(w, "translate")
        || eq_str(w, "rephrase") || eq_str(w, "polish") || eq_str(w, "format") || eq_str(
        w,
        "simplify",
    ) || eq_str(w, "expand") || eq_str(w, "shorten") || eq_str(w, "correct") || eq_str(
        w,
        "improve",
    ) || eq_str(w, "proofread")
}

fn has_explicit_phrase_exec(n: &[char]) -> (b: bool)
    ensures
        b == has_explicit_phrase(n@),
{
    contains_str(n, "fix grammar") || contains_str(n, "fix the grammar") || contains_str(
        n,
        "make this",
    ) || contains_str(n, "make that") || contains_str(n, "turn this") || contains_str(
        n,
        "turn that",
    ) || contains_str(n, "turn it") || contains_str(n, "more concise") || contains_str(
        n,
        "shorter",
    ) || contains_str(n, "into bullet") || contains_str(n, "bullet points") || contains_str(
        n,
        "as bullets",
    ) || contains_str(n, "rewrite this") || contains_str(n, "rewrite that") || contains_str(
        n,
        "summarize this",
    ) || contains_str(n, "summarize that") || contains_str(n, "summarize the") || contains_str(
        n,
        "edit this",
    ) || contains_str(n, "edit that") || contains_str(n, "format this") || contains_str(
        n,
        "format that",
    ) || contains_str(n, "proofread this") || contains_str(n, "proofread that")
}

/// Heuristic: short utterance about changing text, not dictating a paragraph.
pub fn looks_like_command_instruction(transcript: &str) -> (b: bool)
    ensures
        b == spec_looks_like_command_instruction(transcript@),
{
    let t = trimmed(transcript);
    if t.len() == 0 {
        return false;
    }
    let words = split_ws_vec(&t);
    if words.len() > 28 {
        return false;
    }
    let lower_t = lower_vec(&t);
    let normalized = trim_non_alnum_vec(&lower_t);
    let first = if words.len() > 0 {
        let f = trim_non_alnum_vec(&words[0]);
        lower_vec(&f)
    } else {
        Vec::new()
    };
    if is_command_start_exec(&first) {
        return true;
    }
    has_explicit_phrase_exec(&normalized)
}

/// Voice correction ("scratch that") is never a clipboard command.
pub fn is_voice_edit_command(transcript: &str) -> (b: bool)
    ensures
        b == !(spec_detect_intent(transcript@) is InsertText),
{
    match detect_intent(transcript) {
        DictationIntent::InsertText(_) => false,
        _ => true,
    }
}

/// Clipboard has content (at least `MIN_CLIPBOARD_CHARS` characters once trimmed)
/// and the speech sounds like an instruction rather than a voice edit.
pub open spec fn spec_should_apply_clipboard_command(transcript: Seq<char>, clipboard: Seq<char>) -> bool {
    &&& spec_detect_intent(transcript) is InsertText
    &&& trim(clipboard).len() >= MIN_CLIPBOARD_CHARS
    &&& spec_looks_like_command_instruction(transcript)
}

/// Auto: clipboard has content + speech sounds like an instruction.
pub fn should_apply_clipboard_command(transcript: &str, clipboard: &str) -> (b: bool)
    ensures
        b == spec_should_apply_clipboard_command(transcript@, clipboard@),
{
    if is_voice_edit_command(transcript) {
        return false;
    }
    let clip = trimmed(clipboard);
    if clip.len() < MIN_CLIPBOARD_CHARS {
        return false;
    }
    looks_like_command_instruction(transcript)
}


/// A voice edit ("scratch that", "actually ...") is never taken as a
/// clipboard command, whatever the clipboard holds.
pub proof fn lemma_voice_edit_not_clipboard(transcript: Seq<char>, clipboard: Seq<char>)
    requires
        !(spec_detect_intent(transcript) is InsertText),
    ensures
        !spec_should_apply_clipboard_command(transcript, clipboard),
{
}

} // verus!
