//! Developer dictation modes: vocabulary fixes, then rewriting for Markdown,
//! commit messages, shell commands, code and file paths.
use crate::matching::{phrase_pass, phrase_pass_vec, phrase_pattern, phrase_pattern_of};
use crate::text::{
    alphanumeric, append, char_at_byte, char_index_at_byte, char_is_alphanumeric, chars_of,
    eq_str, eq_vec, is_boundary, join, join_vec, lower, lower_vec, replace, replace_char,
    replace_char_vec, replace_str, slice_vec, split_ws, split_ws_vec, starts_with,
    starts_with_vec, string_of, trim, trim_vec, upper, upper_vec, wv,
};
use vstd::prelude::*;

verus! {

// ───────────────────────── vocabulary ─────────────────────────

/// Passes repeated for as long as they shorten the text. Every replacement of
/// the vocabulary is shorter than the phrase it replaces, so a pass that
/// changes the text shortens it, and the first pass that does not is the
/// one that changes nothing.
pub open spec fn phrase_fixpoint(s: Seq<char>, spoken: Seq<char>, replacement: Seq<char>) -> Seq<
    char,
>
    decreases s.len(),
{
    match phrase_pass(s, spoken, replacement) {
        Some(next) => if next.len() < s.len() {
            phrase_fixpoint(next, spoken, replacement)
        } else {
            next
        },
        None => s,
    }
}

/// Replaces `spoken` as a whole word, in any case, by `replacement`, pass
/// after pass.
fn replace_phrase_case_insensitive(input: Vec<char>, spoken: &str, replacement: &str) -> (r: Vec<
    char,
>)
    ensures
        r@ == phrase_fixpoint(input@, spoken@, replacement@),
{
    let pattern = phrase_pattern_of(spoken);
    let rep = chars_of(replacement);
    let mut text = input;
    loop
        invariant
            pattern@ == phrase_pattern(spoken@),
            rep@ == replacement@,
            phrase_fixpoint(text@, spoken@, replacement@) == phrase_fixpoint(
                input@,
                spoken@,
                replacement@,
            ),
        decreases text@.len(),
    {
        let next = match phrase_pass_vec(&text, pattern.as_str(), &rep) {
            Some(next) => next,
            None => {
                return text;
            },
        };
        if next.len() < text.len() {
            text = next;
        } else {
            return next;
        }
    }
}

/// Spoken names of developer tools written the way they are spelled.
pub open spec fn developer_vocabulary(s: Seq<char>) -> Seq<char> {
    let s = phrase_fixpoint(s, "pipe wire"@, "PipeWire"@);
    let s = phrase_fixpoint(s, "way land"@, "Wayland"@);
    let s = phrase_fixpoint(s, "hyper land"@, "Hyprland"@);
    let s = phrase_fixpoint(s, "high per land"@, "Hyprland"@);
    let s = phrase_fixpoint(s, "vox stroll"@, "Voxtral"@);
    let s = phrase_fixpoint(s, "get hub"@, "GitHub"@);
    let s = phrase_fixpoint(s, "get lab"@, "GitLab"@);
    phrase_fixpoint(s, "read me"@, "README"@)
}

fn apply_developer_vocabulary(input: &str) -> (r: Vec<char>)
    ensures
        r@ == developer_vocabulary(input@),
{
    let text = chars_of(input);
    let text = replace_phrase_case_insensitive(text, "pipe wire", "PipeWire");
    let text = replace_phrase_case_insensitive(text, "way land", "Wayland");
    let text = replace_phrase_case_insensitive(text, "hyper land", "Hyprland");
    let text = replace_phrase_case_insensitive(text, "high per land", "Hyprland");
    let text = replace_phrase_case_insensitive(text, "vox stroll", "Voxtral");
    let text = replace_phrase_case_insensitive(text, "get hub", "GitHub");
    let text = replace_phrase_case_insensitive(text, "get lab", "GitLab");
    replace_phrase_case_insensitive(text, "read me", "README")
}

// ───────────────────────── first letters ─────────────────────────

/// The first character upper-cased.
pub open spec fn capitalized_first(s: Seq<char>) -> Seq<char> {
    if s.len() == 0 {
        s
    } else {
        upper(seq![s[0]]) + s.skip(1)
    }
}

/// The first character lower-cased.
pub open spec fn lowercased_first(s: Seq<char>) -> Seq<char> {
    if s.len() == 0 {
        s
    } else {
        lower(seq![s[0]]) + s.skip(1)
    }
}

fn capitalize_first(input: &[char]) -> (r: Vec<char>)
    ensures
        r@ == capitalized_first(input@),
{
    if input.len() == 0 {
        return Vec::new();
    }
    let mut first: Vec<char> = Vec::new();
    first.push(input[0]);
    let mut r = upper_vec(&first);
    let rest = slice_vec(input, 1, input.len());
    append(&mut r, &rest);
    proof {
        assert(first@ =~= seq![input@[0]]);
        assert(rest@ =~= input@.skip(1));
    }
    r
}

fn lowercase_first(input: &[char]) -> (r: Vec<char>)
    ensures
        r@ == lowercased_first(input@),
{
    if input.len() == 0 {
        return Vec::new();
    }
    let mut first: Vec<char> = Vec::new();
    first.push(input[0]);
    let mut r = lower_vec(&first);
    let rest = slice_vec(input, 1, input.len());
    append(&mut r, &rest);
    proof {
        assert(first@ =~= seq![input@[0]]);
        assert(rest@ =~= input@.skip(1));
    }
    r
}

// ───────────────────────── spoken prefixes ─────────────────────────

/// The text after its first `n` bytes, when `n` falls on a character boundary.
pub open spec fn cut_at_byte(s: Seq<char>, n: nat) -> Option<Seq<char>> {
    if exists|k: int| is_boundary(s, n, k) {
        Some(s.skip(char_at_byte(s, n)))
    } else {
        None
    }
}

fn cut_at_byte_vec(v: &[char], n: usize) -> (r: Option<Vec<char>>)
    ensures
        match r {
            Some(t) => cut_at_byte(v@, n as nat) == Some(t@),
            None => cut_at_byte(v@, n as nat) is None,
        },
{
    match char_index_at_byte(v, n) {
        Some(k) => {
            proof {
                let c = char_at_byte(v@, n as nat);
                assert(is_boundary(v@, n as nat, c));
                crate::text::lemma_boundary_unique(v@, n as nat, k as int, c);
            }
            let t = slice_vec(v, k, v.len());
            proof {
                assert(t@ =~= v@.skip(k as int));
            }
            Some(t)
        },
        None => None,
    }
}

/// A spoken prefix, matched on the lower-cased text `l`, and the text `t` that
/// follows it. The prefixes are ASCII, so their length in bytes is their
/// length; the rest of `t` is cut there.
pub open spec fn after_prefix(t: Seq<char>, l: Seq<char>, p: Seq<char>) -> Option<Seq<char>> {
    if starts_with(l, p) {
        cut_at_byte(t, p.len())
    } else {
        None
    }
}

fn after_prefix_vec(t: &[char], l: &[char], p: &str) -> (r: Option<Vec<char>>)
    ensures
        match r {
            Some(rest) => after_prefix(t@, l@, p@) == Some(rest@),
            None => after_prefix(t@, l@, p@) is None,
        },
{
    let pv = chars_of(p);
    if starts_with_vec(l, &pv) {
        cut_at_byte_vec(t, pv.len())
    } else {
        None
    }
}

// ───────────────────────── Markdown ─────────────────────────

/// Spoken Markdown prefixes and what they become.
pub open spec fn markdown_prefix(i: int) -> (Seq<char>, Seq<char>) {
    if i == 0 {
        ("heading one "@, "# "@)
    } else if i == 1 {
        ("heading 1 "@, "# "@)
    } else if i == 2 {
        ("h one "@, "# "@)
    } else if i == 3 {
        ("heading two "@, "## "@)
    } else if i == 4 {
        ("heading 2 "@, "## "@)
    } else if i == 5 {
        ("h two "@, "## "@)
    } else if i == 6 {
        ("heading three "@, "### "@)
    } else if i == 7 {
        ("heading 3 "@, "### "@)
    } else if i == 8 {
        ("h three "@, "### "@)
    } else if i == 9 {
        ("bullet "@, "- "@)
    } else if i == 10 {
        ("dash "@, "- "@)
    } else {
        ("quote "@, "> "@)
    }
}

pub const MARKDOWN_PREFIXES: usize = 12;

fn markdown_prefix_exec(i: usize) -> (r: (&'static str, &'static str))
    ensures
        (r.0@, r.1@) == markdown_prefix(i as int),
{
    if i == 0 {
        ("heading one ", "# ")
    } else if i == 1 {
        ("heading 1 ", "# ")
    } else if i == 2 {
        ("h one ", "# ")
    } else if i == 3 {
        ("heading two ", "## ")
    } else if i == 4 {
        ("heading 2 ", "## ")
    } else if i == 5 {
        ("h two ", "## ")
    } else if i == 6 {
        ("heading three ", "### ")
    } else if i == 7 {
        ("heading 3 ", "### ")
    } else if i == 8 {
        ("h three ", "### ")
    } else if i == 9 {
        ("bullet ", "- ")
    } else if i == 10 {
        ("dash ", "- ")
    } else {
        ("quote ", "> ")
    }
}

/// The first Markdown prefix, from the `i`-th on, that the trimmed text
/// starts with, turned into its marker and the capitalized rest.
pub open spec fn markdown_from(t: Seq<char>, l: Seq<char>, i: int) -> Option<Seq<char>>
    decreases MARKDOWN_PREFIXES - i,
{
    if i < 0 || i >= MARKDOWN_PREFIXES {
        None
    } else {
        let (p, marker) = markdown_prefix(i);
        match after_prefix(t, l, p) {
            Some(rest) => Some(marker + capitalized_first(rest)),
            None => markdown_from(t, l, i + 1),
        }
    }
}

/// Markdown mode: a spoken heading, bullet or quote prefix becomes its marker;
/// otherwise spoken paragraph, line and code-block breaks are written out.
pub open spec fn markdown(s: Seq<char>) -> Seq<char> {
    let t = trim(s);
    match markdown_from(t, lower(t), 0) {
        Some(r) => r,
        None => replace(
            replace(
                replace(replace(s, " new paragraph "@, "\n\n"@), " new line "@, "\n"@),
                " code block "@,
                "\n```\n"@,
            ),
            " end code block"@,
            "\n```"@,
        ),
    }
}

fn markdown_mode(input: &[char]) -> (r: Vec<char>)
    ensures
        r@ == markdown(input@),
{
    let t = trim_vec(input);
    let l = lower_vec(&t);
    let mut i: usize = 0;
    while i < MARKDOWN_PREFIXES
        invariant
            0 <= i <= MARKDOWN_PREFIXES,
            t@ == trim(input@),
            l@ == lower(t@),
            markdown_from(t@, l@, i as int) == markdown_from(t@, l@, 0),
        decreases MARKDOWN_PREFIXES - i,
    {
        let (p, marker) = markdown_prefix_exec(i);
        match after_prefix_vec(&t, &l, p) {
            Some(rest) => {
                let mut r = chars_of(marker);
                let c = capitalize_first(&rest);
                append(&mut r, &c);
                return r;
            },
            None => {},
        }
        i = i + 1;
    }
    proof {
        reveal_strlit(" new paragraph ");
        reveal_strlit(" new line ");
        reveal_strlit(" code block ");
        reveal_strlit(" end code block");
    }
    let r = replace_str(input, " new paragraph ", "\n\n");
    let r = replace_str(&r, " new line ", "\n");
    let r = replace_str(&r, " code block ", "\n```\n");
    replace_str(&r, " end code block", "\n```")
}

// ───────────────────────── commit messages ─────────────────────────

/// The text without trailing full stops.
pub open spec fn trim_end_dots(s: Seq<char>) -> Seq<char>
    decreases s.len(),
{
    if s.len() > 0 && s.last() == '.' {
        trim_end_dots(s.drop_last())
    } else {
        s
    }
}

fn trim_end_dots_vec(v: &[char]) -> (r: Vec<char>)
    ensures
        r@ == trim_end_dots(v@),
{
    let mut j: usize = v.len();
    proof {
        assert(v@.take(j as int) =~= v@);
    }
    while j > 0 && v[j - 1] == '.'
        invariant
            0 <= j <= v@.len(),
            trim_end_dots(v@.take(j as int)) == trim_end_dots(v@),
        decreases j,
    {
        proof {
            assert(v@.take(j as int).drop_last() =~= v@.take(j - 1));
        }
        j = j - 1;
    }
    let r = slice_vec(v, 0, j);
    proof {
        assert(r@ =~= v@.take(j as int));
    }
    r
}

/// Spoken verbs and the conventional commit type they stand for.
pub open spec fn commit_verb(i: int) -> (Seq<char>, Seq<char>) {
    if i == 0 {
        ("fix "@, "fix"@)
    } else if i == 1 {
        ("fixed "@, "fix"@)
    } else if i == 2 {
        ("add "@, "feat"@)
    } else if i == 3 {
        ("added "@, "feat"@)
    } else if i == 4 {
        ("implement "@, "feat"@)
    } else if i == 5 {
        ("update "@, "chore"@)
    } else if i == 6 {
        ("refactor "@, "refactor"@)
    } else if i == 7 {
        ("document "@, "docs"@)
    } else if i == 8 {
        ("docs "@, "docs"@)
    } else if i == 9 {
        ("test "@, "test"@)
    } else {
        ("chore "@, "chore"@)
    }
}

pub const COMMIT_VERBS: usize = 11;

fn commit_verb_exec(i: usize) -> (r: (&'static str, &'static str))
    ensures
        (r.0@, r.1@) == commit_verb(i as int),
{
    if i == 0 {
        ("fix ", "fix")
    } else if i == 1 {
        ("fixed ", "fix")
    } else if i == 2 {
        ("add ", "feat")
    } else if i == 3 {
        ("added ", "feat")
    } else if i == 4 {
        ("implement ", "feat")
    } else if i == 5 {
        ("update ", "chore")
    } else if i == 6 {
        ("refactor ", "refactor")
    } else if i == 7 {
        ("document ", "docs")
    } else if i == 8 {
        ("docs ", "docs")
    } else if i == 9 {
        ("test ", "test")
    } else {
        ("chore ", "chore")
    }
}

/// The first spoken verb, from the `i`-th on, that the text starts with,
/// turned into `type: rest`.
pub open spec fn commit_from(t: Seq<char>, l: Seq<char>, i: int) -> Option<Seq<char>>
    decreases COMMIT_VERBS - i,
{
    if i < 0 || i >= COMMIT_VERBS {
        None
    } else {
        let (verb, kind) = commit_verb(i);
        match after_prefix(t, l, verb) {
            Some(rest) => Some(kind + ": "@ + lowercased_first(trim(rest))),
            None => commit_from(t, l, i + 1),
        }
    }
}

/// Commit mode: a conventional commit subject. A text that already holds a
/// `:` is kept; a leading spoken verb gives the type; anything else is a chore.
pub open spec fn git_commit(s: Seq<char>) -> Seq<char> {
    let t = trim_end_dots(trim(s));
    if t.contains(':') {
        t
    } else {
        match commit_from(t, lower(t), 0) {
            Some(r) => r,
            None => "chore: "@ + lowercased_first(t),
        }
    }
}

/// The spoken verbs of commit mode, in the order they are tried.
pub open spec fn spoken_verb(i: int) -> Seq<char> {
    if i == 0 {
        "fix "@
    } else if i == 1 {
        "fixed "@
    } else if i == 2 {
        "add "@
    } else if i == 3 {
        "added "@
    } else if i == 4 {
        "implement "@
    } else if i == 5 {
        "update "@
    } else if i == 6 {
        "refactor "@
    } else if i == 7 {
        "document "@
    } else if i == 8 {
        "docs "@
    } else if i == 9 {
        "test "@
    } else {
        "chore "@
    }
}

/// The commit type each spoken verb stands for.
pub open spec fn spoken_type(i: int) -> Seq<char> {
    if i == 0 {
        "fix"@
    } else if i == 1 {
        "fix"@
    } else if i == 2 {
        "feat"@
    } else if i == 3 {
        "feat"@
    } else if i == 4 {
        "feat"@
    } else if i == 5 {
        "chore"@
    } else if i == 6 {
        "refactor"@
    } else if i == 7 {
        "docs"@
    } else if i == 8 {
        "docs"@
    } else if i == 9 {
        "test"@
    } else {
        "chore"@
    }
}

/// No spoken verb begins another: a text starts with at most one of them.
proof fn lemma_one_verb_prefix(l: Seq<char>, j: int, v: int)
    requires
        0 <= j < 11,
        0 <= v < 11,
        j != v,
        starts_with(l, spoken_verb(v)),
    ensures
        !starts_with(l, spoken_verb(j)),
{

    reveal_strlit("fix ");
    reveal_strlit("fixed ");
    reveal_strlit("add ");
    reveal_strlit("added ");
    reveal_strlit("implement ");
    reveal_strlit("update ");
    reveal_strlit("refactor ");
    reveal_strlit("document ");
    reveal_strlit("docs ");
    reveal_strlit("test ");
    reveal_strlit("chore ");
    let a = spoken_verb(j);
    let b = spoken_verb(v);
    if starts_with(l, a) {
        if j == 0 && v == 1 {
            assert(a[3] == l[3] && b[3] == l[3]);
        } else if j == 0 && v == 2 {
            assert(a[0] == l[0] && b[0] == l[0]);
        } else if j == 0 && v == 3 {
            assert(a[0] == l[0] && b[0] == l[0]);
        } else if j == 0 && v == 4 {
            assert(a[0] == l[0] && b[0] == l[0]);
        } else if j == 0 && v == 5 {
            assert(a[0] == l[0] && b[0] == l[0]);
        } else if j == 0 && v == 6 {
            assert(a[0] == l[0] && b[0] == l[0]);
        } else if j == 0 && v == 7 {
            assert(a[0] == l[0] && b[0] == l[0]);
        } else if j == 0 && v == 8 {
            assert(a[0] == l[0] && b[0] == l[0]);
        } else if j == 0 && v == 9 {
            assert(a[0] == l[0] && b[0] == l[0]);
        } else if j == 0 && v == 10 {
            assert(a[0] == l[0] && b[0] == l[0]);
        } else if j == 1 && v == 0 {
            assert(a[3] == l[3] && b[3] == l[3]);
        } else if j == 1 && v == 2 {
            assert(a[0] == l[0] && b[0] == l[0]);
        } else if j == 1 && v == 3 {
            assert(a[0] == l[0] && b[0] == l[0]);
        } else if j == 1 && v == 4 {
            assert(a[0] == l[0] && b[0] == l[0]);
        } else if j == 1 && v == 5 {
            assert(a[0] == l[0] && b[0] == l[0]);
        } else if j == 1 && v == 6 {
            assert(a[0] == l[0] && b[0] == l[0]);
        } else if j == 1 && v == 7 {
            assert(a[0] == l[0] && b[0] == l[0]);
        } else if j == 1 && v == 8 {
            assert(a[0] == l[0] && b[0] == l[0]);
        } else if j == 1 && v == 9 {
            assert(a[0] == l[0] && b[0] == l[0]);
        } else if j == 1 && v == 10 {
            assert(a[0] == l[0] && b[0] == l[0]);
        } else if j == 2 && v == 0 {
            assert(a[0] == l[0] && b[0] == l[0]);
        } else if j == 2 && v == 1 {
            assert(a[0] == l[0] && b[0] == l[0]);
        } else if j == 2 && v == 3 {
            assert(a[3] == l[3] && b[3] == l[3]);
        } else if j == 2 && v == 4 {
            assert(a[0] == l[0] && b[0] == l[0]);
        } else if j == 2 && v == 5 {
            assert(a[0] == l[0] && b[0] == l[0]);
        } else if j == 2 && v == 6 {
            assert(a[0] == l[0] && b[0] == l[0]);
        } else if j == 2 && v == 7 {
            assert(a[0] == l[0] && b[0] == l[0]);
        } else if j == 2 && v == 8 {
            assert(a[0] == l[0] && b[0] == l[0]);
        } else if j == 2 && v == 9 {
            assert(a[0] == l[0] && b[0] == l[0]);
        } else if j == 2 && v == 10 {
            assert(a[0] == l[0] && b[0] == l[0]);
        } else if j == 3 && v == 0 {
            assert(a[0] == l[0] && b[0] == l[0]);
        } else if j == 3 && v == 1 {
            assert(a[0] == l[0] && b[0] == l[0]);
        } else if j == 3 && v == 2 {
            assert(a[3] == l[3] && b[3] == l[3]);
        } else if j == 3 && v == 4 {
            assert(a[0] == l[0] && b[0] == l[0]);
        } else if j == 3 && v == 5 {
            assert(a[0] == l[0] && b[0] == l[0]);
        } else if j == 3 && v == 6 {
            assert(a[0] == l[0] && b[0] == l[0]);
        } else if j == 3 && v == 7 {
            assert(a[0] == l[0] && b[0] == l[0]);
        } else if j == 3 && v == 8 {
            assert(a[0] == l[0] && b[0] == l[0]);
        } else if j == 3 && v == 9 {
            assert(a[0] == l[0] && b[0] == l[0]);
        } else if j == 3 && v == 10 {
            assert(a[0] == l[0] && b[0] == l[0]);
        } else if j == 4 && v == 0 {
            assert(a[0] == l[0] && b[0] == l[0]);
        } else if j == 4 && v == 1 {
            assert(a[0] == l[0] && b[0] == l[0]);
        } else if j == 4 && v == 2 {
            assert(a[0] == l[0] && b[0] == l[0]);
        } else if j == 4 && v == 3 {
            assert(a[0] == l[0] && b[0] == l[0]);
        } else if j == 4 && v == 5 {
            assert(a[0] == l[0] && b[0] == l[0]);
        } else if j == 4 && v == 6 {
            assert(a[0] == l[0] && b[0] == l[0]);
        } else if j == 4 && v == 7 {
            assert(a[0] == l[0] && b[0] == l[0]);
        } else if j == 4 && v == 8 {
            assert(a[0] == l[0] && b[0] == l[0]);
        } else if j == 4 && v == 9 {
            assert(a[0] == l[0] && b[0] == l[0]);
        } else if j == 4 && v == 10 {
            assert(a[0] == l[0] && b[0] == l[0]);
        } else if j == 5 && v == 0 {
            assert(a[0] == l[0] && b[0] == l[0]);
        } else if j == 5 && v == 1 {
            assert(a[0] == l[0] && b[0] == l[0]);
        } else if j == 5 && v == 2 {
            assert(a[0] == l[0] && b[0] == l[0]);
        } else if j == 5 && v == 3 {
            assert(a[0] == l[0] && b[0] == l[0]);
        } else if j == 5 && v == 4 {
            assert(a[0] == l[0] && b[0] == l[0]);
        } else if j == 5 && v == 6 {
            assert(a[0] == l[0] && b[0] == l[0]);
        } else if j == 5 && v == 7 {
            assert(a[0] == l[0] && b[0] == l[0]);
        } else if j == 5 && v == 8 {
            assert(a[0] == l[0] && b[0] == l[0]);
        } else if j == 5 && v == 9 {
            assert(a[0] == l[0] && b[0] == l[0]);
        } else if j == 5 && v == 10 {
            assert(a[0] == l[0] && b[0] == l[0]);
        } else if j == 6 && v == 0 {
            assert(a[0] == l[0] && b[0] == l[0]);
        } else if j == 6 && v == 1 {
            assert(a[0] == l[0] && b[0] == l[0]);
        } else if j == 6 && v == 2 {
            assert(a[0] == l[0] && b[0] == l[0]);
        } else if j == 6 && v == 3 {
            assert(a[0] == l[0] && b[0] == l[0]);
        } else if j == 6 && v == 4 {
            assert(a[0] == l[0] && b[0] == l[0]);
        } else if j == 6 && v == 5 {
            assert(a[0] == l[0] && b[0] == l[0]);
        } else if j == 6 && v == 7 {
            assert(a[0] == l[0] && b[0] == l[0]);
        } else if j == 6 && v == 8 {
            assert(a[0] == l[0] && b[0] == l[0]);
        } else if j == 6 && v == 9 {
            assert(a[0] == l[0] && b[0] == l[0]);
        } else if j == 6 && v == 10 {
            assert(a[0] == l[0] && b[0] == l[0]);
        } else if j == 7 && v == 0 {
            assert(a[0] == l[0] && b[0] == l[0]);
        } else if j == 7 && v == 1 {
            assert(a[0] == l[0] && b[0] == l[0]);
        } else if j == 7 && v == 2 {
            assert(a[0] == l[0] && b[0] == l[0]);
        } else if j == 7 && v == 3 {
            assert(a[0] == l[0] && b[0] == l[0]);
        } else if j == 7 && v == 4 {
            assert(a[0] == l[0] && b[0] == l[0]);
        } else if j == 7 && v == 5 {
            assert(a[0] == l[0] && b[0] == l[0]);
        } else if j == 7 && v == 6 {
            assert(a[0] == l[0] && b[0] == l[0]);
        } else if j == 7 && v == 8 {
            assert(a[3] == l[3] && b[3] == l[3]);
        } else if j == 7 && v == 9 {
            assert(a[0] == l[0] && b[0] == l[0]);
        } else if j == 7 && v == 10 {
            assert(a[0] == l[0] && b[0] == l[0]);
        } else if j == 8 && v == 0 {
            assert(a[0] == l[0] && b[0] == l[0]);
        } else if j == 8 && v == 1 {
            assert(a[0] == l[0] && b[0] == l[0]);
        } else if j == 8 && v == 2 {
            assert(a[0] == l[0] && b[0] == l[0]);
        } else if j == 8 && v == 3 {
            assert(a[0] == l[0] && b[0] == l[0]);
        } else if j == 8 && v == 4 {
            assert(a[0] == l[0] && b[0] == l[0]);
        } else if j == 8 && v == 5 {
            assert(a[0] == l[0] && b[0] == l[0]);
        } else if j == 8 && v == 6 {
            assert(a[0] == l[0] && b[0] == l[0]);
        } else if j == 8 && v == 7 {
            assert(a[3] == l[3] && b[3] == l[3]);
        } else if j == 8 && v == 9 {
            assert(a[0] == l[0] && b[0] == l[0]);
        } else if j == 8 && v == 10 {
            assert(a[0] == l[0] && b[0] == l[0]);
        } else if j == 9 && v == 0 {
            assert(a[0] == l[0] && b[0] == l[0]);
        } else if j == 9 && v == 1 {
            assert(a[0] == l[0] && b[0] == l[0]);
        } else if j == 9 && v == 2 {
            assert(a[0] == l[0] && b[0] == l[0]);
        } else if j == 9 && v == 3 {
            assert(a[0] == l[0] && b[0] == l[0]);
        } else if j == 9 && v == 4 {
            assert(a[0] == l[0] && b[0] == l[0]);
        } else if j == 9 && v == 5 {
            assert(a[0] == l[0] && b[0] == l[0]);
        } else if j == 9 && v == 6 {
            assert(a[0] == l[0] && b[0] == l[0]);
        } else if j == 9 && v == 7 {
            assert(a[0] == l[0] && b[0] == l[0]);
        } else if j == 9 && v == 8 {
            assert(a[0] == l[0] && b[0] == l[0]);
        } else if j == 9 && v == 10 {
            assert(a[0] == l[0] && b[0] == l[0]);
        } else if j == 10 && v == 0 {
            assert(a[0] == l[0] && b[0] == l[0]);
        } else if j == 10 && v == 1 {
            assert(a[0] == l[0] && b[0] == l[0]);
        } else if j == 10 && v == 2 {
            assert(a[0] == l[0] && b[0] == l[0]);
        } else if j == 10 && v == 3 {
            assert(a[0] == l[0] && b[0] == l[0]);
        } else if j == 10 && v == 4 {
            assert(a[0] == l[0] && b[0] == l[0]);
        } else if j == 10 && v == 5 {
            assert(a[0] == l[0] && b[0] == l[0]);
        } else if j == 10 && v == 6 {
            assert(a[0] == l[0] && b[0] == l[0]);
        } else if j == 10 && v == 7 {
            assert(a[0] == l[0] && b[0] == l[0]);
        } else if j == 10 && v == 8 {
            assert(a[0] == l[0] && b[0] == l[0]);
        } else if j == 10 && v == 9 {
            assert(a[0] == l[0] && b[0] == l[0]);
        }
    }
}

proof fn lemma_commit_from_skips(t: Seq<char>, l: Seq<char>, j: int, v: int)
    requires
        0 <= j <= v < 11,
        starts_with(l, spoken_verb(v)),
        forall|x: int| 0 <= x < 11 ==> #[trigger] commit_verb(x) == (spoken_verb(x), spoken_type(x)),
    ensures
        commit_from(t, l, j) == commit_from(t, l, v),
    decreases v - j,
{
    if j < v {
        lemma_one_verb_prefix(l, j, v);
        assert(commit_verb(j) == (spoken_verb(j), spoken_type(j)));
        lemma_commit_from_skips(t, l, j + 1, v);
    }
}

/// Commit mode: a subject without `:` whose lower-case form starts with a
/// spoken verb becomes that verb's commit type, `: `, and the rest of the
/// subject trimmed with its first letter lower-cased (the verb taken as as
/// many bytes of the subject as it has letters).
pub proof fn lemma_commit_spoken_verb(s: Seq<char>, v: int)
    requires
        0 <= v < 11,
        !trim_end_dots(trim(s)).contains(':'),
        starts_with(lower(trim_end_dots(trim(s))), spoken_verb(v)),
        is_boundary(
            trim_end_dots(trim(s)),
            spoken_verb(v).len(),
            spoken_verb(v).len() as int,
        ),
    ensures
        git_commit(s) == spoken_type(v) + ": "@ + lowercased_first(
            trim(trim_end_dots(trim(s)).skip(spoken_verb(v).len() as int)),
        ),
{
    let t = trim_end_dots(trim(s));
    let l = lower(t);
    let p = spoken_verb(v);
    assert forall|x: int| 0 <= x < 11 implies #[trigger] commit_verb(x) == (spoken_verb(x), spoken_type(x)) by {}
    lemma_commit_from_skips(t, l, 0, v);
    let k = char_at_byte(t, p.len());
    assert(is_boundary(t, p.len(), k));
    crate::text::lemma_boundary_unique(t, p.len(), k, p.len() as int);
    assert(commit_verb(v) == (spoken_verb(v), spoken_type(v)));
    assert(after_prefix(t, l, p) == Some(t.skip(p.len() as int)));
}

/// Commit mode: a subject without `:` that starts with none of the spoken
/// verbs becomes a chore.
pub proof fn lemma_commit_default_chore(s: Seq<char>)
    requires
        !trim_end_dots(trim(s)).contains(':'),
        forall|v: int| 0 <= v < 11 ==> !starts_with(lower(trim_end_dots(trim(s))), #[trigger] spoken_verb(v)),
    ensures
        git_commit(s) == "chore: "@ + lowercased_first(trim_end_dots(trim(s))),
{
    let t = trim_end_dots(trim(s));
    let l = lower(t);
    assert forall|x: int| 0 <= x < 11 implies #[trigger] commit_verb(x) == (spoken_verb(x), spoken_type(x)) by {}
    assert forall|j: int| 0 <= j <= 11 implies #[trigger] commit_from(t, l, j) is None by {
        lemma_commit_none_from(t, l, j);
    }
}

proof fn lemma_commit_none_from(t: Seq<char>, l: Seq<char>, j: int)
    requires
        0 <= j <= 11,
        forall|v: int| 0 <= v < 11 ==> !starts_with(l, #[trigger] spoken_verb(v)),
        forall|x: int| 0 <= x < 11 ==> #[trigger] commit_verb(x) == (spoken_verb(x), spoken_type(x)),
    ensures
        commit_from(t, l, j) is None,
    decreases 11 - j,
{
    if j < 11 {
        assert(!starts_with(l, spoken_verb(j)));
        assert(commit_verb(j) == (spoken_verb(j), spoken_type(j)));
        lemma_commit_none_from(t, l, j + 1);
    }
}

/// Commit mode keeps a subject that already holds a `:` as it is, once
/// trimmed and without trailing dots.
pub proof fn lemma_commit_keeps_typed_subject(s: Seq<char>)
    requires
        trim_end_dots(trim(s)).contains(':'),
    ensures
        git_commit(s) == trim_end_dots(trim(s)),
{
}

fn git_commit_mode(input: &[char]) -> (r: Vec<char>)
    ensures
        r@ == git_commit(input@),
{
    let trimmed = trim_vec(input);
    let t = trim_end_dots_vec(&trimmed);
    if crate::text::has_char(&t, ':') {
        return t;
    }
    let l = lower_vec(&t);
    let mut i: usize = 0;
    while i < COMMIT_VERBS
        invariant
            0 <= i <= COMMIT_VERBS,
            t@ == trim_end_dots(trim(input@)),
            !t@.contains(':'),
            l@ == lower(t@),
            commit_from(t@, l@, i as int) == commit_from(t@, l@, 0),
        decreases COMMIT_VERBS - i,
    {
        let (verb, kind) = commit_verb_exec(i);
        match after_prefix_vec(&t, &l, verb) {
            Some(rest) => {
                let mut r = chars_of(kind);
                let sep = chars_of(": ");
                append(&mut r, &sep);
                let rest = trim_vec(&rest);
                let lf = lowercase_first(&rest);
                append(&mut r, &lf);
                proof {
                    assert(commit_from(t@, l@, i as int) == Some(kind@ + ": "@ + lowercased_first(rest@)));
                }
                return r;
            },
            None => {},
        }
        i = i + 1;
    }
    let mut r = chars_of("chore: ");
    let lf = lowercase_first(&t);
    append(&mut r, &lf);
    r
}

// ───────────────────────── shell commands ─────────────────────────

pub open spec fn is_sep(c: char) -> bool {
    c == ',' || c == '.' || c == ';'
}

pub open spec fn strip_sep_start(s: Seq<char>) -> Seq<char>
    decreases s.len(),
{
    if s.len() > 0 && is_sep(s[0]) {
        strip_sep_start(s.drop_first())
    } else {
        s
    }
}

pub open spec fn strip_sep_end(s: Seq<char>) -> Seq<char>
    decreases s.len(),
{
    if s.len() > 0 && is_sep(s.last()) {
        strip_sep_end(s.drop_last())
    } else {
        s
    }
}

/// A word without `,` `.` `;` at either end.
pub open spec fn strip_seps(s: Seq<char>) -> Seq<char> {
    strip_sep_end(strip_sep_start(s))
}

fn strip_seps_vec(v: &[char]) -> (r: Vec<char>)
    ensures
        r@ == strip_seps(v@),
{
    let mut i: usize = 0;
    proof {
        assert(v@.skip(0) =~= v@);
    }
    while i < v.len() && (v[i] == ',' || v[i] == '.' || v[i] == ';')
        invariant
            0 <= i <= v@.len(),
            strip_sep_start(v@.skip(i as int)) == strip_sep_start(v@),
        decreases v@.len() - i,
    {
        proof {
            assert(v@.skip(i as int).drop_first() =~= v@.skip(i + 1));
        }
        i = i + 1;
    }
    let rest = slice_vec(v, i, v.len());
    proof {
        assert(rest@ =~= v@.skip(i as int));
    }
    let mut j: usize = rest.len();
    proof {
        assert(rest@.take(j as int) =~= rest@);
    }
    while j > 0 && (rest[j - 1] == ',' || rest[j - 1] == '.' || rest[j - 1] == ';')
        invariant
            0 <= j <= rest@.len(),
            strip_sep_end(rest@.take(j as int)) == strip_sep_end(rest@),
        decreases j,
    {
        proof {
            assert(rest@.take(j as int).drop_last() =~= rest@.take(j - 1));
        }
        j = j - 1;
    }
    let r = slice_vec(&rest, 0, j);
    proof {
        assert(r@ =~= rest@.take(j as int));
    }
    r
}

/// Spoken shell words turned into what they stand for, the `i`-th word on.
pub open spec fn terminal_step(words: Seq<Seq<char>>, i: int, out: Seq<Seq<char>>) -> Seq<
    Seq<char>,
>
    decreases words.len() - i,
{
    if i < 0 || i >= words.len() {
        out
    } else {
        let w = lower(words[i]);
        let next_is_dash = i + 1 < words.len() && lower(words[i + 1]) == "dash"@;
        if (w == "dash"@ || w == "double"@) && next_is_dash {
            terminal_step(words, i + 2, out.push("--"@))
        } else if w == "pipe"@ {
            terminal_step(words, i + 1, out.push("|"@))
        } else if w == "release"@ && out.len() > 0 && out.last() == "build"@ {
            terminal_step(words, i + 1, out.push("--release"@))
        } else if w == "features"@ {
            terminal_step(words, i + 1, out.push("--features"@))
        } else if w == "all"@ && out.len() > 0 && out.last() == "git"@ {
            terminal_step(words, i + 1, out.push("add"@).push("."@))
        } else {
            terminal_step(words, i + 1, out.push(words[i]))
        }
    }
}

pub open spec fn terminal_words(s: Seq<char>) -> Seq<Seq<char>> {
    split_ws(s).map_values(|w: Seq<char>| strip_seps(w))
}

/// Terminal mode: spoken flags, pipes and `git add .` written out, the words
/// joined by spaces, with no space after `--`.
pub open spec fn terminal(s: Seq<char>) -> Seq<char> {
    replace(join(terminal_step(terminal_words(s), 0, seq![]), " "@), "-- "@, "--"@)
}

fn last_is(out: &Vec<Vec<char>>, word: &str) -> (b: bool)
    ensures
        b == (wv(out@).len() > 0 && wv(out@).last() == word@),
{
    if out.len() == 0 {
        false
    } else {
        eq_str(&out[out.len() - 1], word)
    }
}

fn next_lower_is(words: &Vec<Vec<char>>, i: usize, word: &str) -> (b: bool)
    requires
        i < words@.len(),
    ensures
        b == (i + 1 < words@.len() && lower(wv(words@)[i + 1]) == word@),
{
    if words.len() - i >= 2 {
        let n = lower_vec(&words[i + 1]);
        eq_str(&n, word)
    } else {
        false
    }
}

fn push_word(out: &mut Vec<Vec<char>>, word: &str)
    ensures
        wv(final(out)@) == wv(old(out)@).push(word@),
{
    out.push(chars_of(word));
    proof {
        assert(wv(final(out)@) =~= wv(old(out)@).push(word@));
    }
}

fn terminal_mode(input: &[char]) -> (r: Vec<char>)
    ensures
        r@ == terminal(input@),
{
    let raw = split_ws_vec(input);
    let mut words: Vec<Vec<char>> = Vec::new();
    let mut k: usize = 0;
    while k < raw.len()
        invariant
            0 <= k <= raw@.len(),
            wv(raw@) == split_ws(input@),
            wv(words@) == terminal_words(input@).take(k as int),
        decreases raw@.len() - k,
    {
        let w = strip_seps_vec(&raw[k]);
        proof {
            assert(wv(raw@)[k as int] == raw@[k as int]@);
            assert(wv(raw@).len() == raw@.len());
            assert(terminal_words(input@)[k as int] == strip_seps(raw@[k as int]@));
        }
        let ghost before = wv(words@);
        words.push(w);
        proof {
            assert(wv(words@) =~= before.push(w@));
            assert(terminal_words(input@).take(k + 1) =~= terminal_words(input@).take(k as int).push(
                terminal_words(input@)[k as int],
            ));
            assert(wv(words@) =~= terminal_words(input@).take(k + 1));
        }
        k = k + 1;
    }
    proof {
        assert(terminal_words(input@).take(k as int) =~= terminal_words(input@));
    }
    let ghost ws = wv(words@);
    let mut out: Vec<Vec<char>> = Vec::new();
    let mut i: usize = 0;
    proof {
        assert(wv(out@) =~= Seq::<Seq<char>>::empty());
    }
    while i < words.len()
        invariant
            0 <= i <= words@.len(),
            ws == wv(words@),
            terminal_step(ws, i as int, wv(out@)) == terminal_step(ws, 0, seq![]),
        decreases words@.len() - i,
    {
        let w = lower_vec(&words[i]);
        let next_is_dash = next_lower_is(&words, i, "dash");
        if (eq_str(&w, "dash") || eq_str(&w, "double")) && next_is_dash {
            push_word(&mut out, "--");
            i = i + 2;
        } else if eq_str(&w, "pipe") {
            push_word(&mut out, "|");
            i = i + 1;
        } else if eq_str(&w, "release") && last_is(&out, "build") {
            push_word(&mut out, "--release");
            i = i + 1;
        } else if eq_str(&w, "features") {
            push_word(&mut out, "--features");
            i = i + 1;
        } else if eq_str(&w, "all") && last_is(&out, "git") {
            push_word(&mut out, "add");
            push_word(&mut out, ".");
            i = i + 1;
        } else {
            let copy = slice_vec(&words[i], 0, words[i].len());
            proof {
                assert(copy@ =~= ws[i as int]);
            }
            let ghost before = wv(out@);
            out.push(copy);
            proof {
                assert(wv(out@) =~= before.push(ws[i as int]));
            }
            i = i + 1;
        }
    }
    let joined = join_vec(&out, &chars_of(" "));
    proof {
        reveal_strlit("-- ");
    }
    replace_str(&joined, "-- ", "--")
}

// ───────────────────────── code ─────────────────────────

/// Every character is a Unicode letter or digit, or `_`.
pub open spec fn identifier_chars(s: Seq<char>) -> bool {
    forall|i: int| 0 <= i < s.len() ==> alphanumeric(#[trigger] s[i]) || s[i] == '_'
}

/// Lower-cased words that name a symbol in code mode.
pub open spec fn symbol_word(l: Seq<char>) -> bool {
    l == "open"@ || l == "close"@ || l == "left"@ || l == "right"@ || l == "colon"@ || l
        == "comma"@ || l == "dot"@ || l == "arrow"@ || l == "equals"@
}

/// A word that may be part of an identifier.
pub open spec fn is_identifier(s: Seq<char>) -> bool {
    identifier_chars(s) && !symbol_word(lower(s))
}

fn is_identifier_word(token: &[char]) -> (b: bool)
    ensures
        b == is_identifier(token@),
{
    let mut i: usize = 0;
    while i < token.len()
        invariant
            0 <= i <= token@.len(),
            forall|k: int| 0 <= k < i ==> alphanumeric(#[trigger] token@[k]) || token@[k] == '_',
        decreases token@.len() - i,
    {
        if !(char_is_alphanumeric(token[i]) || token[i] == '_') {
            return false;
        }
        i = i + 1;
    }
    let l = lower_vec(token);
    !(eq_str(&l, "open") || eq_str(&l, "close") || eq_str(&l, "left") || eq_str(&l, "right")
        || eq_str(&l, "colon") || eq_str(&l, "comma") || eq_str(&l, "dot") || eq_str(&l, "arrow")
        || eq_str(&l, "equals"))
}

pub open spec fn opens(l: Seq<char>) -> bool {
    l == "open"@ || l == "left"@
}

pub open spec fn closes(l: Seq<char>) -> bool {
    l == "close"@ || l == "right"@
}

pub open spec fn is_paren(l: Seq<char>) -> bool {
    l == "paren"@ || l == "parenthesis"@
}

/// Spoken code tokens turned into symbols, the `i`-th token on; two
/// identifier words in a row are joined by `_`.
pub open spec fn code_step(ts: Seq<Seq<char>>, i: int, out: Seq<Seq<char>>) -> Seq<Seq<char>>
    decreases ts.len() - i,
{
    if i < 0 || i >= ts.len() {
        out
    } else {
        let t = lower(ts[i]);
        let has_next = i + 1 < ts.len();
        let n = if has_next {
            lower(ts[i + 1])
        } else {
            Seq::<char>::empty()
        };
        if opens(t) && has_next && is_paren(n) {
            code_step(ts, i + 2, out.push("("@))
        } else if closes(t) && has_next && is_paren(n) {
            code_step(ts, i + 2, out.push(")"@))
        } else if opens(t) && has_next && n == "brace"@ {
            code_step(ts, i + 2, out.push("{"@))
        } else if closes(t) && has_next && n == "brace"@ {
            code_step(ts, i + 2, out.push("}"@))
        } else if opens(t) && has_next && n == "bracket"@ {
            code_step(ts, i + 2, out.push("["@))
        } else if closes(t) && has_next && n == "bracket"@ {
            code_step(ts, i + 2, out.push("]"@))
        } else if t == "colon"@ {
            code_step(ts, i + 1, out.push(":"@))
        } else if t == "comma"@ {
            code_step(ts, i + 1, out.push(","@))
        } else if t == "dot"@ || t == "period"@ {
            code_step(ts, i + 1, out.push("."@))
        } else if t == "arrow"@ {
            code_step(ts, i + 1, out.push("->"@))
        } else if t == "fat"@ && has_next && n == "arrow"@ {
            code_step(ts, i + 2, out.push("=>"@))
        } else if t == "equals"@ {
            code_step(ts, i + 1, out.push("="@))
        } else if t == "string"@ {
            code_step(ts, i + 1, out.push("String"@))
        } else if t == "result"@ {
            code_step(ts, i + 1, out.push("Result"@))
        } else if has_next && is_identifier(ts[i]) && is_identifier(ts[i + 1]) {
            code_step(ts, i + 2, out.push(ts[i] + "_"@ + ts[i + 1]))
        } else {
            code_step(ts, i + 1, out.push(ts[i]))
        }
    }
}

/// The text without trailing spaces.
pub open spec fn strip_spaces_end(s: Seq<char>) -> Seq<char>
    decreases s.len(),
{
    if s.len() > 0 && s.last() == ' ' {
        strip_spaces_end(s.drop_last())
    } else {
        s
    }
}

pub open spec fn closing_token(t: Seq<char>) -> bool {
    t == ")"@ || t == "]"@ || t == "}"@ || t == ","@ || t == "."@ || t == ":"@
}

pub open spec fn opening_token(t: Seq<char>) -> bool {
    t == "("@ || t == "["@ || t == "{"@
}

pub open spec fn operator_token(t: Seq<char>) -> bool {
    t == "->"@ || t == "=>"@ || t == "="@
}

/// Appends one code token: closing punctuation sticks to what precedes it,
/// an opening bracket is spaced from a word, an operator is spaced on both
/// sides, any other token is spaced unless it follows an opening bracket.
pub open spec fn join_code_step(out: Seq<char>, t: Seq<char>) -> Seq<char> {
    if closing_token(t) {
        strip_spaces_end(out) + t + " "@
    } else if opening_token(t) {
        (if out.len() > 0 && out.last() != ' ' {
            out.push(' ')
        } else {
            out
        }) + t
    } else if operator_token(t) {
        strip_spaces_end(out).push(' ') + t + " "@
    } else {
        (if out.len() > 0 && !(out.last() == ' ' || out.last() == '(' || out.last() == '['
            || out.last() == '{') {
            out.push(' ')
        } else {
            out
        }) + t
    }
}

pub open spec fn join_code_fold(ts: Seq<Seq<char>>) -> Seq<char>
    decreases ts.len(),
{
    if ts.len() == 0 {
        Seq::<char>::empty()
    } else {
        join_code_step(join_code_fold(ts.drop_last()), ts.last())
    }
}

/// Code tokens written out with code spacing.
pub open spec fn join_code(ts: Seq<Seq<char>>) -> Seq<char> {
    trim(join_code_fold(ts))
}

fn strip_spaces_end_vec(out: &mut Vec<char>)
    ensures
        final(out)@ == strip_spaces_end(old(out)@),
{
    while out.len() > 0 && out[out.len() - 1] == ' '
        invariant
            strip_spaces_end(out@) == strip_spaces_end(old(out)@),
        decreases out@.len(),
    {
        let ghost before = out@;
        out.pop();
        proof {
            assert(out@ =~= before.drop_last());
        }
    }
}

fn join_code_tokens(tokens: &Vec<Vec<char>>) -> (r: Vec<char>)
    ensures
        r@ == join_code(wv(tokens@)),
{
    let ghost ts = wv(tokens@);
    let mut out: Vec<char> = Vec::new();
    let mut i: usize = 0;
    proof {
        assert(ts.take(0) =~= Seq::<Seq<char>>::empty());
    }
    while i < tokens.len()
        invariant
            0 <= i <= tokens@.len(),
            ts == wv(tokens@),
            out@ == join_code_fold(ts.take(i as int)),
        decreases tokens@.len() - i,
    {
        let t = &tokens[i];
        proof {
            assert(ts.take(i + 1).drop_last() =~= ts.take(i as int));
            assert(ts.take(i + 1).last() == t@);
        }
        let ghost before = out@;
        if eq_str(t, ")") || eq_str(t, "]") || eq_str(t, "}") || eq_str(t, ",") || eq_str(t, ".")
            || eq_str(t, ":") {
            strip_spaces_end_vec(&mut out);
            append(&mut out, t);
            out.push(' ');
            proof {
                reveal_strlit(" ");
                assert(out@ =~= join_code_step(before, t@));
            }
        } else if eq_str(t, "(") || eq_str(t, "[") || eq_str(t, "{") {
            if out.len() > 0 && out[out.len() - 1] != ' ' {
                out.push(' ');
            }
            append(&mut out, t);
            proof {
                assert(out@ =~= join_code_step(before, t@));
            }
        } else if eq_str(t, "->") || eq_str(t, "=>") || eq_str(t, "=") {
            strip_spaces_end_vec(&mut out);
            out.push(' ');
            append(&mut out, t);
            out.push(' ');
            proof {
                reveal_strlit(" ");
                assert(out@ =~= join_code_step(before, t@));
            }
        } else {
            if out.len() > 0 {
                let last = out[out.len() - 1];
                if !(last == ' ' || last == '(' || last == '[' || last == '{') {
                    out.push(' ');
                }
            }
            append(&mut out, t);
            proof {
                assert(out@ =~= join_code_step(before, t@));
            }
        }
        i = i + 1;
    }
    proof {
        assert(ts.take(tokens@.len() as int) =~= ts);
    }
    trim_vec(&out)
}

/// Code mode: spoken brackets, punctuation and operators written as symbols.
pub open spec fn code_symbols(s: Seq<char>) -> Seq<char> {
    join_code(code_step(split_ws(s), 0, seq![]))
}

fn code_symbols_mode(input: &[char]) -> (r: Vec<char>)
    ensures
        r@ == code_symbols(input@),
{
    let tokens = split_ws_vec(input);
    let ghost ts = wv(tokens@);
    let mut out: Vec<Vec<char>> = Vec::new();
    let mut i: usize = 0;
    proof {
        assert(wv(out@) =~= Seq::<Seq<char>>::empty());
    }
    while i < tokens.len()
        invariant
            0 <= i <= tokens@.len(),
            ts == wv(tokens@),
            ts == split_ws(input@),
            code_step(ts, i as int, wv(out@)) == code_step(ts, 0, seq![]),
        decreases tokens@.len() - i,
    {
        let t = lower_vec(&tokens[i]);
        let has_next = i + 1 < tokens.len();
        let n = if has_next {
            lower_vec(&tokens[i + 1])
        } else {
            Vec::new()
        };
        proof {
            if !has_next {
                assert(n@ =~= Seq::<char>::empty());
            }
        }
        let open = eq_str(&t, "open") || eq_str(&t, "left");
        let close = eq_str(&t, "close") || eq_str(&t, "right");
        let paren = eq_str(&n, "paren") || eq_str(&n, "parenthesis");
        if open && has_next && paren {
            push_word(&mut out, "(");
            i = i + 2;
        } else if close && has_next && paren {
            push_word(&mut out, ")");
            i = i + 2;
        } else if open && has_next && eq_str(&n, "brace") {
            push_word(&mut out, "{");
            i = i + 2;
        } else if close && has_next && eq_str(&n, "brace") {
            push_word(&mut out, "}");
            i = i + 2;
        } else if open && has_next && eq_str(&n, "bracket") {
            push_word(&mut out, "[");
            i = i + 2;
        } else if close && has_next && eq_str(&n, "bracket") {
            push_word(&mut out, "]");
            i = i + 2;
        } else if eq_str(&t, "colon") {
            push_word(&mut out, ":");
            i = i + 1;
        } else if eq_str(&t, "comma") {
            push_word(&mut out, ",");
            i = i + 1;
        } else if eq_str(&t, "dot") || eq_str(&t, "period") {
            push_word(&mut out, ".");
            i = i + 1;
        } else if eq_str(&t, "arrow") {
            push_word(&mut out, "->");
            i = i + 1;
        } else if eq_str(&t, "fat") && has_next && eq_str(&n, "arrow") {
            push_word(&mut out, "=>");
            i = i + 2;
        } else if eq_str(&t, "equals") {
            push_word(&mut out, "=");
            i = i + 1;
        } else if eq_str(&t, "string") {
            push_word(&mut out, "String");
            i = i + 1;
        } else if eq_str(&t, "result") {
            push_word(&mut out, "Result");
            i = i + 1;
        } else if has_next && is_identifier_word(&tokens[i]) && is_identifier_word(&tokens[i + 1]) {
            let mut joined = slice_vec(&tokens[i], 0, tokens[i].len());
            joined.push('_');
            append(&mut joined, &tokens[i + 1]);
            proof {
                assert(joined@ =~= ts[i as int] + "_"@ + ts[i + 1]) by {
                    reveal_strlit("_");
                }
            }
            let ghost before = wv(out@);
            out.push(joined);
            proof {
                assert(wv(out@) =~= before.push(ts[i as int] + "_"@ + ts[i + 1]));
            }
            i = i + 2;
        } else {
            let copy = slice_vec(&tokens[i], 0, tokens[i].len());
            proof {
                assert(copy@ =~= ts[i as int]);
            }
            let ghost before = wv(out@);
            out.push(copy);
            proof {
                assert(wv(out@) =~= before.push(ts[i as int]));
            }
            i = i + 1;
        }
    }
    join_code_tokens(&out)
}

// ───────────────────────── file paths ─────────────────────────

/// A spoken path token as the character it names.
pub open spec fn path_token(t: Seq<char>) -> Seq<char> {
    let l = lower(t);
    if l == "slash"@ || l == "forward-slash"@ {
        "/"@
    } else if l == "backslash"@ {
        "\\"@
    } else if l == "dot"@ || l == "period"@ {
        "."@
    } else if l == "dash"@ || l == "hyphen"@ {
        "-"@
    } else if l == "underscore"@ {
        "_"@
    } else if l == "tilde"@ || l == "home"@ {
        "~"@
    } else {
        t
    }
}

/// File-path mode: spoken separators written as characters, all run together.
pub open spec fn file_path(s: Seq<char>) -> Seq<char> {
    join(split_ws(s).map_values(|t: Seq<char>| path_token(t)), Seq::<char>::empty())
}

fn path_token_vec(t: &[char]) -> (r: Vec<char>)
    ensures
        r@ == path_token(t@),
{
    let l = lower_vec(t);
    if eq_str(&l, "slash") || eq_str(&l, "forward-slash") {
        chars_of("/")
    } else if eq_str(&l, "backslash") {
        chars_of("\\")
    } else if eq_str(&l, "dot") || eq_str(&l, "period") {
        chars_of(".")
    } else if eq_str(&l, "dash") || eq_str(&l, "hyphen") {
        chars_of("-")
    } else if eq_str(&l, "underscore") {
        chars_of("_")
    } else if eq_str(&l, "tilde") || eq_str(&l, "home") {
        chars_of("~")
    } else {
        slice_vec(t, 0, t.len())
    }
}

fn file_path_mode(input: &[char]) -> (r: Vec<char>)
    ensures
        r@ == file_path(input@),
{
    let tokens = split_ws_vec(input);
    let mut out: Vec<Vec<char>> = Vec::new();
    let mut i: usize = 0;
    while i < tokens.len()
        invariant
            0 <= i <= tokens@.len(),
            wv(tokens@) == split_ws(input@),
            wv(out@) == split_ws(input@).map_values(|t: Seq<char>| path_token(t)).take(i as int),
        decreases tokens@.len() - i,
    {
        let p = path_token_vec(&tokens[i]);
        let ghost before = wv(out@);
        out.push(p);
        proof {
            let pm = split_ws(input@).map_values(|t: Seq<char>| path_token(t));
            assert(wv(tokens@)[i as int] == tokens@[i as int]@);
            assert(wv(out@) =~= before.push(p@));
            assert(pm[i as int] == path_token(tokens@[i as int]@));
            assert(pm.take(i + 1) =~= pm.take(i as int).push(pm[i as int]));
            assert(wv(out@) =~= pm.take(i + 1));
        }
        i = i + 1;
    }
    proof {
        assert(split_ws(input@).map_values(|t: Seq<char>| path_token(t)).take(i as int)
            =~= split_ws(input@).map_values(|t: Seq<char>| path_token(t)));
    }
    join_vec(&out, &Vec::new())
}

// ───────────────────────── modes ─────────────────────────

/// The mode's name, trimmed, lower-cased, with `_` read as `-`.
pub open spec fn mode_key(mode: Seq<char>) -> Seq<char> {
    replace_char(lower(trim(mode)), '_', '-')
}

/// The text after the developer vocabulary, rewritten for the named mode;
/// plain, default, empty and unknown modes leave it as it is.
pub open spec fn spec_apply_developer_mode(input: Seq<char>, mode: Seq<char>) -> Seq<char> {
    let t = developer_vocabulary(input);
    let k = mode_key(mode);
    if k == "markdown"@ || k == "md"@ {
        markdown(t)
    } else if k == "git"@ || k == "git-commit"@ || k == "commit"@ {
        git_commit(t)
    } else if k == "terminal"@ || k == "shell"@ || k == "command"@ {
        terminal(t)
    } else if k == "code"@ || k == "code-symbol"@ || k == "code-symbols"@ {
        code_symbols(t)
    } else if k == "file"@ || k == "path"@ || k == "file-path"@ || k == "filepath"@ {
        file_path(t)
    } else {
        t
    }
}

pub fn apply_developer_mode(input: &str, mode: &str) -> (r: String)
    ensures
        r@ == spec_apply_developer_mode(input@, mode@),
{
    let text = apply_developer_vocabulary(input);
    let m = crate::text::trimmed(mode);
    let l = lower_vec(&m);
    let k = replace_char_vec(&l, '_', '-');
    let out = if eq_str(&k, "markdown") || eq_str(&k, "md") {
        markdown_mode(&text)
    } else if eq_str(&k, "git") || eq_str(&k, "git-commit") || eq_str(&k, "commit") {
        git_commit_mode(&text)
    } else if eq_str(&k, "terminal") || eq_str(&k, "shell") || eq_str(&k, "command") {
        terminal_mode(&text)
    } else if eq_str(&k, "code") || eq_str(&k, "code-symbol") || eq_str(&k, "code-symbols") {
        code_symbols_mode(&text)
    } else if eq_str(&k, "file") || eq_str(&k, "path") || eq_str(&k, "file-path") || eq_str(
        &k,
        "filepath",
    ) {
        file_path_mode(&text)
    } else {
        text
    };
    string_of(&out)
}

} // verus!
