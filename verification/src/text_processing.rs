//! Processing of dictated text before it is typed: dictionary entries,
//! preferred words, spoken inline corrections, snippets and cleanup.
use crate::matching::{
    find_matches, found_model, found_models, group_or_empty, group_text, phrase_pass,
    phrase_pattern, regex_matches, splice, splice_vec, texts, Found, FoundModel,
};
use crate::text::{
    alphabetic, alphanumeric, append, blen, blen_wide, char_at_byte, is_boundary, char_is_alphabetic, char_is_alphanumeric, char_is_ws,
    chars_of, copy_strings, eq_ignore_ascii_case, eq_vec, is_ws, join, join_vec, lemma_len_le_blen,
    lower, lower_vec, slice_vec, split_ws, split_ws_vec, string_of, trim, trim_end, trim_end_vec,
    trim_vec, trimmed, upper, upper_vec, vec_eq_ignore_ascii_case, views, wv, lex_lt, lex_lt_vec,
    copy_chars,
};
use vstd::prelude::*;

verus! {

// ───────────────────────── configuration ─────────────────────────

pub struct Snippet {
    pub trigger: String,
    pub text: String,
}

pub open spec fn snippet_views(v: Seq<Snippet>) -> Seq<(Seq<char>, Seq<char>)> {
    v.map_values(|s: Snippet| (s.trigger@, s.text@))
}

#[derive(Debug, Clone, Copy, PartialEq, Eq, Structural)]
pub struct CleanupConfig {
    pub enabled: bool,
    pub fix_spacing: bool,
    pub capitalize_sentences: bool,
    pub fix_punctuation: bool,
    pub spoken_punctuation: bool,
    pub remove_fillers: bool,
    pub clean_repeated_words: bool,
    pub spoken_lists: bool,
}

impl Default for CleanupConfig {
    fn default() -> (c: Self)
        ensures
            !c.enabled && !c.fix_spacing && !c.capitalize_sentences && !c.fix_punctuation
                && !c.spoken_punctuation && !c.remove_fillers && !c.clean_repeated_words
                && !c.spoken_lists,
    {
        CleanupConfig {
            enabled: false,
            fix_spacing: false,
            capitalize_sentences: false,
            fix_punctuation: false,
            spoken_punctuation: false,
            remove_fillers: false,
            clean_repeated_words: false,
            spoken_lists: false,
        }
    }
}

#[derive(Debug, Clone, Copy, PartialEq, Eq, Structural)]
pub struct HistoryConfig {
    pub enabled: bool,
}

impl Default for HistoryConfig {
    fn default() -> (c: Self)
        ensures
            !c.enabled,
    {
        HistoryConfig { enabled: false }
    }
}

pub struct CommandModeConfig {
    pub clipboard_command: Vec<String>,
    /// When local voice commands don't match, use the LLM (needs an API key).
    pub use_llm: bool,
}

impl Default for CommandModeConfig {
    fn default() -> (c: Self)
        ensures
            c.clipboard_command@.len() == 0,
            !c.use_llm,
    {
        CommandModeConfig { clipboard_command: Vec::new(), use_llm: false }
    }
}

impl CommandModeConfig {
    /// The configured clipboard command, or `wl-paste --no-newline`.
    pub fn clipboard_command_or_default(&self) -> (r: Vec<String>)
        ensures
            views(r@) == (if self.clipboard_command@.len() == 0 {
                seq!["wl-paste"@, "--no-newline"@]
            } else {
                views(self.clipboard_command@)
            }),
    {
        if self.clipboard_command.len() == 0 {
            let r = vec![String::from_str("wl-paste"), String::from_str("--no-newline")];
            proof {
                assert(views(r@) =~= seq!["wl-paste"@, "--no-newline"@]);
            }
            r
        } else {
            copy_strings(&self.clipboard_command)
        }
    }
}

/// Settings of the language-model polish pass. The sampling temperature is a
/// float and stays with the code that builds the request.
pub struct PolishConfig {
    /// Tone preset: casual, formal, concise, email, bullets.
    pub style: String,
    pub enabled: bool,
    pub model: String,
    pub max_tokens: u32,
    pub system_prompt: String,
    /// `error` inserts nothing when polish fails; anything else falls back
    /// to the locally processed text.
    pub on_failure: String,
}

impl Default for PolishConfig {
    fn default() -> (c: Self)
        ensures
            c.style@ == Seq::<char>::empty(),
            c.enabled,
            c.model@ == "mistral-small-latest"@,
            c.max_tokens == 2048,
            c.system_prompt@ == Seq::<char>::empty(),
            c.on_failure@ == "fallback"@,
    {
        PolishConfig {
            style: String::new(),
            enabled: true,
            model: String::from_str("mistral-small-latest"),
            max_tokens: 2048,
            system_prompt: String::new(),
            on_failure: String::from_str("fallback"),
        }
    }
}

impl PolishConfig {
    /// Polish runs when the profile asks for it and it is not switched off.
    pub fn effective_enabled(&self, profile_wants_polish: bool) -> (b: bool)
        ensures
            b == (profile_wants_polish && self.enabled),
    {
        profile_wants_polish && self.enabled
    }
}

/// Text-processing settings. Dictionary entries are `(spoken, written)` pairs.
pub struct TextProcessingConfig {
    pub dictionary: Vec<(String, String)>,
    /// Words the user cares about: applied with conservative fuzzy matching,
    /// and passed on to polish prompts.
    pub preferred_words: Vec<String>,
    pub snippets: Vec<Snippet>,
    pub cleanup: CleanupConfig,
    pub command_mode: CommandModeConfig,
    pub polish: PolishConfig,
    pub history: HistoryConfig,
}

impl Default for TextProcessingConfig {
    fn default() -> (c: Self)
        ensures
            c.dictionary@.len() == 0,
            c.preferred_words@.len() == 0,
            c.snippets@.len() == 0,
            !c.cleanup.enabled,
            c.command_mode.clipboard_command@.len() == 0,
            !c.command_mode.use_llm,
            c.polish.enabled,
            c.polish.model@ == "mistral-small-latest"@,
            c.polish.on_failure@ == "fallback"@,
            c.polish.style@ == Seq::<char>::empty(),
            c.polish.system_prompt@ == Seq::<char>::empty(),
            !c.history.enabled,
    {
        TextProcessingConfig {
            dictionary: Vec::new(),
            preferred_words: Vec::new(),
            snippets: Vec::new(),
            cleanup: CleanupConfig::default(),
            command_mode: CommandModeConfig::default(),
            polish: PolishConfig::default(),
            history: HistoryConfig::default(),
        }
    }
}

pub open spec fn dictionary_views(d: Seq<(String, String)>) -> Seq<(Seq<char>, Seq<char>)> {
    d.map_values(|e: (String, String)| (e.0@, e.1@))
}

// ───────────────────────── snippets ─────────────────────────

/// The text of the first snippet, from the `i`-th on, whose trigger equals
/// the trimmed input, ignoring ASCII case.
pub open spec fn snippet_from(t: Seq<char>, sns: Seq<(Seq<char>, Seq<char>)>, i: int) -> Option<
    Seq<char>,
>
    decreases sns.len() - i,
{
    if i < 0 || i >= sns.len() {
        None
    } else if trim(sns[i].0).len() > 0 && eq_ignore_ascii_case(t, trim(sns[i].0)) {
        Some(sns[i].1)
    } else {
        snippet_from(t, sns, i + 1)
    }
}

/// A snippet whose trigger is the whole (trimmed) text replaces it.
pub open spec fn spec_apply_snippets(input: Seq<char>, sns: Seq<(Seq<char>, Seq<char>)>) -> Seq<
    char,
> {
    match snippet_from(trim(input), sns, 0) {
        Some(text) => text,
        None => input,
    }
}

pub fn apply_snippets(input: &str, snippets: &[Snippet]) -> (r: String)
    ensures
        r@ == spec_apply_snippets(input@, snippet_views(snippets@)),
{
    let t = trimmed(input);
    let ghost sns = snippet_views(snippets@);
    let mut i: usize = 0;
    while i < snippets.len()
        invariant
            0 <= i <= snippets@.len(),
            sns == snippet_views(snippets@),
            t@ == trim(input@),
            snippet_from(t@, sns, i as int) == snippet_from(t@, sns, 0),
        decreases snippets@.len() - i,
    {
        let trig = trimmed(snippets[i].trigger.as_str());
        if trig.len() > 0 && vec_eq_ignore_ascii_case(&t, &trig) {
            return String::from_str(snippets[i].text.as_str());
        }
        i = i + 1;
    }
    String::from_str(input)
}

// ───────────────────────── punctuation ─────────────────────────

pub open spec fn is_terminal_mark(c: char) -> bool {
    c == '.' || c == '!' || c == '?' || c == ',' || c == ':' || c == ';'
}

/// Ends in `. ! ? , : ;`.
pub open spec fn ends_with_terminal_punctuation(s: Seq<char>) -> bool {
    s.len() > 0 && is_terminal_mark(s.last())
}

/// Is exactly one of `. ! ? , : ;`.
pub open spec fn is_terminal_punctuation(s: Seq<char>) -> bool {
    s.len() == 1 && is_terminal_mark(s[0])
}

/// A full stop after the text when it does not already end a sentence.
pub open spec fn spec_fix_punctuation(s: Seq<char>) -> Seq<char> {
    let t = trim_end(s);
    if t.len() == 0 || t.last() == '.' || t.last() == '!' || t.last() == '?' || t.last() == ':' {
        s
    } else {
        t.push('.')
    }
}

fn fix_punctuation(input: &[char]) -> (r: Vec<char>)
    ensures
        r@ == spec_fix_punctuation(input@),
{
    let mut t = trim_end_vec(input);
    if t.len() == 0 {
        return slice_vec(input, 0, input.len());
    }
    let last = t[t.len() - 1];
    if last == '.' || last == '!' || last == '?' || last == ':' {
        let r = slice_vec(input, 0, input.len());
        proof {
            assert(r@ =~= input@);
        }
        return r;
    }
    t.push('.');
    t
}

// ───────────────────────── capitalization ─────────────────────────

/// Whether the next letter starts a sentence, and the text so far.
pub open spec fn cap_step(state: (bool, Seq<char>), c: char) -> (bool, Seq<char>) {
    let (cap, out) = state;
    if cap && alphabetic(c) {
        (false, out + upper(seq![c]))
    } else if c == '.' || c == '!' || c == '?' || c == '\n' {
        (true, out.push(c))
    } else if !is_ws(c) {
        (false, out.push(c))
    } else {
        (cap, out.push(c))
    }
}

pub open spec fn cap_fold(s: Seq<char>) -> (bool, Seq<char>)
    decreases s.len(),
{
    if s.len() == 0 {
        (true, Seq::<char>::empty())
    } else {
        cap_step(cap_fold(s.drop_last()), s.last())
    }
}

/// The first letter of the text and of each sentence upper-cased.
pub open spec fn spec_capitalize_sentences(s: Seq<char>) -> Seq<char> {
    cap_fold(s).1
}

fn capitalize_sentences(input: &[char]) -> (r: Vec<char>)
    ensures
        r@ == spec_capitalize_sentences(input@),
{
    let mut out: Vec<char> = Vec::new();
    let mut cap = true;
    let mut i: usize = 0;
    proof {
        assert(input@.take(0) =~= Seq::<char>::empty());
    }
    while i < input.len()
        invariant
            0 <= i <= input@.len(),
            (cap, out@) == cap_fold(input@.take(i as int)),
        decreases input@.len() - i,
    {
        let c = input[i];
        proof {
            assert(input@.take(i + 1).drop_last() =~= input@.take(i as int));
        }
        if cap && char_is_alphabetic(c) {
            let mut one: Vec<char> = Vec::new();
            one.push(c);
            let u = upper_vec(&one);
            proof {
                assert(one@ =~= seq![c]);
            }
            append(&mut out, &u);
            cap = false;
        } else {
            out.push(c);
            if c == '.' || c == '!' || c == '?' || c == '\n' {
                cap = true;
            } else if !char_is_ws(c) {
                cap = false;
            }
        }
        i = i + 1;
    }
    proof {
        assert(input@.take(input@.len() as int) =~= input@);
    }
    out
}

proof fn lemma_cap_fold_extends(x: Seq<char>, r: Seq<char>)
    ensures
        cap_fold(x + r).1.len() >= cap_fold(x).1.len(),
        cap_fold(x + r).1.take(cap_fold(x).1.len() as int) == cap_fold(x).1,
    decreases r.len(),
{
    if r.len() == 0 {
        assert(x + r =~= x);
        assert(cap_fold(x).1.take(cap_fold(x).1.len() as int) =~= cap_fold(x).1);
    } else {
        lemma_cap_fold_extends(x, r.drop_last());
        assert((x + r).drop_last() =~= x + r.drop_last());
        let before = cap_fold(x + r.drop_last()).1;
        let after = cap_fold(x + r).1;
        assert(after.take(before.len() as int) =~= before);
        assert(after.take(cap_fold(x).1.len() as int) =~= before.take(cap_fold(x).1.len() as int));
    }
}

proof fn lemma_cap_fold_ws(x: Seq<char>, w: Seq<char>)
    requires
        cap_fold(x).0,
        forall|i: int| 0 <= i < w.len() ==> is_ws(#[trigger] w[i]) && !alphabetic(w[i]),
    ensures
        cap_fold(x + w).0,
    decreases w.len(),
{
    if w.len() == 0 {
        assert(x + w =~= x);
    } else {
        let d = w.drop_last();
        assert forall|i: int| 0 <= i < d.len() implies is_ws(#[trigger] d[i]) && !alphabetic(d[i]) by {
            assert(d[i] == w[i]);
        }
        lemma_cap_fold_ws(x, d);
        assert((x + w).drop_last() =~= x + d);
        assert(is_ws(w[w.len() - 1]) && !alphabetic(w[w.len() - 1]));
    }
}

/// Sentence capitalization: a letter that follows a `.`, `!`, `?` or line
/// break, with only whitespace between, comes out upper-cased; what comes
/// before it is capitalized as on its own. (Whitespace and the terminator
/// are taken to be no letters.)
pub proof fn lemma_capitalize_after_terminator(
    p: Seq<char>,
    t: char,
    w: Seq<char>,
    c: char,
    r: Seq<char>,
)
    requires
        t == '.' || t == '!' || t == '?' || t == '\n',
        !alphabetic(t),
        forall|i: int| 0 <= i < w.len() ==> is_ws(#[trigger] w[i]) && !alphabetic(w[i]),
        alphabetic(c),
    ensures
        ({
            let o = spec_capitalize_sentences(p + seq![t] + w + seq![c] + r);
            let q = spec_capitalize_sentences(p + seq![t] + w);
            &&& o.len() >= q.len() + upper(seq![c]).len()
            &&& o.take(q.len() as int) == q
            &&& o.subrange(q.len() as int, (q.len() + upper(seq![c]).len()) as int) == upper(seq![c])
        }),
{
    let x = p + seq![t];
    assert((p + seq![t]).drop_last() =~= p);
    assert(cap_fold(x).0);
    lemma_cap_fold_ws(x, w);
    let y = x + w;
    let z = y + seq![c];
    assert(z.drop_last() =~= y);
    assert(cap_fold(z).1 == cap_fold(y).1 + upper(seq![c]));
    lemma_cap_fold_extends(z, r);
    assert(p + seq![t] + w + seq![c] + r =~= z + r);
    assert(p + seq![t] + w =~= y);
    let o = cap_fold(z + r).1;
    let q = cap_fold(y).1;
    let u = upper(seq![c]);
    let ql = q.len() as int;
    let e = (q.len() + u.len()) as int;
    assert(o.take(e) == q + u);
    assert(o.take(ql) =~= o.take(e).take(ql));
    assert(o.subrange(ql, e) =~= o.take(e).subrange(ql, e));
    assert((q + u).subrange(ql, e) =~= u);
    assert((q + u).take(ql) =~= q);
}

/// Sentence capitalization at the start: the first letter of the text,
/// after any leading whitespace, comes out upper-cased.
pub proof fn lemma_capitalize_first_letter(w: Seq<char>, c: char, r: Seq<char>)
    requires
        forall|i: int| 0 <= i < w.len() ==> is_ws(#[trigger] w[i]) && !alphabetic(w[i]),
        alphabetic(c),
    ensures
        ({
            let o = spec_capitalize_sentences(w + seq![c] + r);
            &&& o.len() >= w.len() + upper(seq![c]).len()
            &&& o.take(w.len() as int) == w
            &&& o.subrange(w.len() as int, (w.len() + upper(seq![c]).len()) as int) == upper(seq![c])
        }),
{
    let e = Seq::<char>::empty();
    assert(e + w =~= w);
    lemma_cap_fold_ws(e, w);
    lemma_cap_fold_ws_kept(w);
    let z = w + seq![c];
    assert(z.drop_last() =~= w);
    lemma_cap_fold_extends(z, r);
    assert(w + seq![c] + r =~= z + r);
    let o = cap_fold(z + r).1;
    let u = upper(seq![c]);
    let ql = w.len() as int;
    let en = (w.len() + u.len()) as int;
    assert(o.take(en) == w + u);
    assert(o.take(ql) =~= o.take(en).take(ql));
    assert(o.subrange(ql, en) =~= o.take(en).subrange(ql, en));
    assert((w + u).subrange(ql, en) =~= u);
    assert((w + u).take(ql) =~= w);
}

proof fn lemma_cap_fold_ws_kept(w: Seq<char>)
    requires
        forall|i: int| 0 <= i < w.len() ==> is_ws(#[trigger] w[i]) && !alphabetic(w[i]),
    ensures
        cap_fold(w).1 == w,
        cap_fold(w).0,
    decreases w.len(),
{
    if w.len() > 0 {
        let d = w.drop_last();
        assert forall|i: int| 0 <= i < d.len() implies is_ws(#[trigger] d[i]) && !alphabetic(d[i]) by {
            assert(d[i] == w[i]);
        }
        lemma_cap_fold_ws_kept(d);
        assert(is_ws(w[w.len() - 1]) && !alphabetic(w[w.len() - 1]));
        assert(d.push(w.last()) =~= w);
    }
}

/// Inside a sentence nothing is capitalized: a character that follows a
/// character that is neither whitespace nor a sentence end, with only
/// whitespace other than a line break between, comes out as it went in.
pub proof fn lemma_capitalize_keeps_mid_sentence(
    p: Seq<char>,
    x: char,
    w: Seq<char>,
    c: char,
    r: Seq<char>,
)
    requires
        !is_ws(x),
        !(x == '.' || x == '!' || x == '?' || x == '\n'),
        forall|i: int| 0 <= i < w.len() ==> is_ws(#[trigger] w[i]) && w[i] != '\n',
    ensures
        ({
            let o = spec_capitalize_sentences(p + seq![x] + w + seq![c] + r);
            let q = spec_capitalize_sentences(p + seq![x] + w);
            &&& o.len() > q.len()
            &&& o.take(q.len() as int) == q
            &&& o[q.len() as int] == c
        }),
{
    let y0 = p + seq![x];
    assert(y0.drop_last() =~= p);
    assert(!cap_fold(y0).0);
    lemma_cap_fold_ws_off(y0, w);
    let y = y0 + w;
    let z = y + seq![c];
    assert(z.drop_last() =~= y);
    assert(cap_fold(z).1 == cap_fold(y).1.push(c));
    lemma_cap_fold_extends(z, r);
    assert(p + seq![x] + w + seq![c] + r =~= z + r);
    assert(p + seq![x] + w =~= y);
    let o = cap_fold(z + r).1;
    let q = cap_fold(y).1;
    let ql = q.len() as int;
    assert(o.take(ql + 1) == q.push(c));
    assert(o.take(ql) =~= o.take(ql + 1).take(ql));
    assert(o[ql] == o.take(ql + 1)[ql]);
}

proof fn lemma_cap_fold_ws_off(x: Seq<char>, w: Seq<char>)
    requires
        !cap_fold(x).0,
        forall|i: int| 0 <= i < w.len() ==> is_ws(#[trigger] w[i]) && w[i] != '\n',
    ensures
        !cap_fold(x + w).0,
    decreases w.len(),
{
    if w.len() == 0 {
        assert(x + w =~= x);
    } else {
        let d = w.drop_last();
        assert forall|i: int| 0 <= i < d.len() implies is_ws(#[trigger] d[i]) by {
            assert(d[i] == w[i]);
        }
        lemma_cap_fold_ws_off(x, d);
        assert((x + w).drop_last() =~= x + d);
        assert(is_ws(w[w.len() - 1]) && w[w.len() - 1] != '\n');
    }
}

// ───────────────────────── repeated words ─────────────────────────

/// A letter, digit or `_`.
pub open spec fn is_word_char(c: char) -> bool {
    alphanumeric(c) || c == '_'
}

pub open spec fn strip_nonword_start(s: Seq<char>) -> Seq<char>
    decreases s.len(),
{
    if s.len() > 0 && !is_word_char(s[0]) {
        strip_nonword_start(s.drop_first())
    } else {
        s
    }
}

pub open spec fn strip_nonword_end(s: Seq<char>) -> Seq<char>
    decreases s.len(),
{
    if s.len() > 0 && !is_word_char(s.last()) {
        strip_nonword_end(s.drop_last())
    } else {
        s
    }
}

/// A token without the punctuation around it, lower-cased.
pub open spec fn word_key(token: Seq<char>) -> Seq<char> {
    lower(strip_nonword_end(strip_nonword_start(token)))
}

fn word_key_vec(v: &[char]) -> (r: Vec<char>)
    ensures
        r@ == word_key(v@),
{
    let mut i: usize = 0;
    proof {
        assert(v@.skip(0) =~= v@);
    }
    while i < v.len() && !(char_is_alphanumeric(v[i]) || v[i] == '_')
        invariant
            0 <= i <= v@.len(),
            strip_nonword_start(v@.skip(i as int)) == strip_nonword_start(v@),
        decreases v@.len() - i,
    {
        proof {
            assert(v@.skip(i as int).drop_first() =~= v@.skip(i + 1));
        }
        i = i + 1;
    }
    let rest = slice_vec(v, i, v.len());
    proof {
        assert(rest@ =~= v@.skip(i as int));
    }
    let mut j: usize = rest.len();
    proof {
        assert(rest@.take(j as int) =~= rest@);
    }
    while j > 0 && !(char_is_alphanumeric(rest[j - 1]) || rest[j - 1] == '_')
        invariant
            0 <= j <= rest@.len(),
            strip_nonword_end(rest@.take(j as int)) == strip_nonword_end(rest@),
        decreases j,
    {
        proof {
            assert(rest@.take(j as int).drop_last() =~= rest@.take(j - 1));
        }
        j = j - 1;
    }
    let core = slice_vec(&rest, 0, j);
    proof {
        assert(core@ =~= rest@.take(j as int));
    }
    lower_vec(&core)
}

/// The previous word's key and the tokens kept so far.
pub open spec fn repeat_fold(tokens: Seq<Seq<char>>) -> (Option<Seq<char>>, Seq<Seq<char>>)
    decreases tokens.len(),
{
    if tokens.len() == 0 {
        (None, Seq::<Seq<char>>::empty())
    } else {
        let (prev, kept) = repeat_fold(tokens.drop_last());
        let token = tokens.last();
        let key = word_key(token);
        if key.len() > 0 && prev == Some(key) {
            (prev, kept)
        } else if key.len() > 0 {
            (Some(key), kept.push(token))
        } else {
            (None, kept.push(token))
        }
    }
}

/// A word said twice in a row is kept once; the words are joined by spaces.
pub open spec fn spec_clean_repeated_words(s: Seq<char>) -> Seq<char> {
    join(repeat_fold(split_ws(s)).1, " "@)
}

fn clean_repeated_words(input: &[char]) -> (r: Vec<char>)
    ensures
        r@ == spec_clean_repeated_words(input@),
{
    let tokens = split_ws_vec(input);
    let ghost ts = wv(tokens@);
    let mut kept: Vec<Vec<char>> = Vec::new();
    let mut prev: Option<Vec<char>> = None;
    let mut i: usize = 0;
    proof {
        assert(ts.take(0) =~= Seq::<Seq<char>>::empty());
        assert(wv(kept@) =~= Seq::<Seq<char>>::empty());
    }
    while i < tokens.len()
        invariant
            0 <= i <= tokens@.len(),
            ts == wv(tokens@),
            ts == split_ws(input@),
            (match prev {
                Some(p) => Some(p@),
                None => None,
            }, wv(kept@)) == repeat_fold(ts.take(i as int)),
        decreases tokens@.len() - i,
    {
        let token = &tokens[i];
        proof {
            assert(ts.take(i + 1).drop_last() =~= ts.take(i as int));
            assert(ts.take(i + 1).last() == token@);
        }
        let key = word_key_vec(token);
        let same = match &prev {
            Some(p) => key.len() > 0 && eq_vec(&key, p),
            None => false,
        };
        if !same {
            let copy = slice_vec(token, 0, token.len());
            proof {
                assert(copy@ =~= token@);
            }
            let ghost before = wv(kept@);
            kept.push(copy);
            proof {
                assert(wv(kept@) =~= before.push(token@));
            }
            if key.len() > 0 {
                prev = Some(key);
            } else {
                prev = None;
            }
        }
        i = i + 1;
    }
    proof {
        assert(ts.take(tokens@.len() as int) =~= ts);
        reveal_strlit(" ");
    }
    join_vec(&kept, &chars_of(" "))
}

// ───────────────────────── preferred words ─────────────────────────

pub open spec fn min3(a: nat, b: nat, c: nat) -> nat {
    let m = if a < b {
        a
    } else {
        b
    };
    if m < c {
        m
    } else {
        c
    }
}

/// Edit distance: the fewest single-character insertions, deletions and
/// substitutions that turn `a` into `b`.
pub open spec fn lev(a: Seq<char>, b: Seq<char>) -> nat
    decreases a.len() + b.len(),
{
    if a.len() == 0 {
        b.len()
    } else if b.len() == 0 {
        a.len()
    } else {
        min3(
            lev(a.drop_last(), b.drop_last()) + if a.last() == b.last() {
                0nat
            } else {
                1nat
            },
            lev(a, b.drop_last()) + 1,
            lev(a.drop_last(), b) + 1,
        )
    }
}

pub proof fn lemma_lev_bound(a: Seq<char>, b: Seq<char>)
    ensures
        lev(a, b) <= if a.len() > b.len() {
            a.len()
        } else {
            b.len()
        },
    decreases a.len() + b.len(),
{
    if a.len() > 0 && b.len() > 0 {
        lemma_lev_bound(a.drop_last(), b.drop_last());
    }
}

fn levenshtein(a: &[char], b: &[char]) -> (d: usize)
    requires
        a@.len() < usize::MAX,
        b@.len() < usize::MAX,
    ensures
        d == lev(a@, b@),
{
    let mut costs: Vec<usize> = Vec::new();
    let mut k: usize = 0;
    while k <= b.len()
        invariant
            0 <= k <= b@.len() + 1,
            b@.len() < usize::MAX,
            costs@.len() == k,
            forall|j: int| 0 <= j < k ==> costs@[j] == j,
        decreases b@.len() + 1 - k,
    {
        costs.push(k);
        k = k + 1;
    }
    proof {
        assert forall|j: int| 0 <= j <= b@.len() implies costs@[j] == lev(a@.take(0), b@.take(j)) by {
            assert(a@.take(0).len() == 0);
            assert(b@.take(j).len() == j);
        }
    }
    let mut i: usize = 0;
    while i < a.len()
        invariant
            0 <= i <= a@.len(),
            a@.len() < usize::MAX,
            b@.len() < usize::MAX,
            costs@.len() == b@.len() + 1,
            forall|j: int| 0 <= j <= b@.len() ==> costs@[j] == lev(a@.take(i as int), b@.take(j)),
        decreases a@.len() - i,
    {
        let ca = a[i];
        let ghost ai = a@.take(i as int);
        let ghost ai1 = a@.take(i + 1);
        proof {
            assert(ai1.drop_last() =~= ai);
            assert(ai1.last() == ca);
            assert(b@.take(0).len() == 0);
        }
        let mut previous = costs[0];
        costs.set(0, i + 1);
        let mut j: usize = 0;
        while j < b.len()
            invariant
                0 <= j <= b@.len(),
                i < a@.len(),
                a@.len() < usize::MAX,
                b@.len() < usize::MAX,
                ai == a@.take(i as int),
                ai1 == a@.take(i + 1),
                ai1.drop_last() == ai,
                ai1.last() == ca,
                costs@.len() == b@.len() + 1,
                forall|k: int| 0 <= k <= j ==> costs@[k] == lev(ai1, b@.take(k)),
                forall|k: int| j < k <= b@.len() ==> costs@[k] == lev(ai, b@.take(k)),
                previous == lev(ai, b@.take(j as int)),
            decreases b@.len() - j,
        {
            let ghost bj = b@.take(j as int);
            let ghost bj1 = b@.take(j + 1);
            proof {
                assert(bj1.drop_last() =~= bj);
                assert(bj1.last() == b@[j as int]);
                lemma_lev_bound(ai, bj);
                lemma_lev_bound(ai1, bj);
                lemma_lev_bound(ai, bj1);
            }
            let temp = costs[j + 1];
            let substitution = previous + if ca != b[j] {
                1
            } else {
                0
            };
            let insertion = costs[j] + 1;
            let deletion = costs[j + 1] + 1;
            let m1 = if substitution < insertion {
                substitution
            } else {
                insertion
            };
            let m = if m1 < deletion {
                m1
            } else {
                deletion
            };
            proof {
                assert(m == lev(ai1, bj1));
            }
            costs.set(j + 1, m);
            previous = temp;
            j = j + 1;
        }
        i = i + 1;
    }
    proof {
        assert(a@.take(a@.len() as int) =~= a@);
        assert(b@.take(b@.len() as int) =~= b@);
    }
    costs[b.len()]
}

/// How many edits a near match may be away, by the longer word's length.
pub open spec fn fuzzy_distance_threshold(len: nat) -> nat {
    if len <= 6 {
        1
    } else if len <= 11 {
        2
    } else {
        3
    }
}

fn fuzzy_threshold(len: usize) -> (t: usize)
    ensures
        t == fuzzy_distance_threshold(len as nat),
{
    if len <= 6 {
        1
    } else if len <= 11 {
        2
    } else {
        3
    }
}

pub open spec fn max_nat(a: nat, b: nat) -> nat {
    if a > b {
        a
    } else {
        b
    }
}

pub open spec fn abs_diff(a: nat, b: nat) -> nat {
    if a > b {
        (a - b) as nat
    } else {
        (b - a) as nat
    }
}

/// Scanning the terms from the `i`-th on: a term equal to the token but for
/// case replaces it (unless it is the very same text); otherwise the first
/// term at the smallest edit distance within the threshold does.
pub open spec fn preferred_from(
    token: Seq<char>,
    terms: Seq<Seq<char>>,
    i: int,
    best: Option<(Seq<char>, nat)>,
) -> Option<Seq<char>>
    decreases terms.len() - i,
{
    if i < 0 || i >= terms.len() {
        match best {
            Some((t, _)) => Some(t),
            None => None,
        }
    } else {
        let term = terms[i];
        let tl = lower(token);
        let ml = lower(term);
        if tl == ml {
            if token == term {
                None
            } else {
                Some(term)
            }
        } else {
            let allowed = fuzzy_distance_threshold(max_nat(tl.len(), ml.len()));
            if abs_diff(tl.len(), ml.len()) > allowed {
                preferred_from(token, terms, i + 1, best)
            } else {
                let d = lev(tl, ml);
                if d <= allowed && !(best matches Some((_, bd)) && bd <= d) {
                    preferred_from(token, terms, i + 1, Some((term, d)))
                } else {
                    preferred_from(token, terms, i + 1, best)
                }
            }
        }
    }
}

/// The preferred term that replaces a word of at least five characters.
pub open spec fn preferred_replacement(token: Seq<char>, terms: Seq<Seq<char>>) -> Option<Seq<char>> {
    if token.len() < 5 {
        None
    } else {
        preferred_from(token, terms, 0, None)
    }
}

/// Edits a near match may be away, by the longer word's length: one up to
/// six characters, two up to eleven, three beyond.
pub open spec fn edit_budget(len: nat) -> nat {
    if len <= 6 {
        1
    } else if len <= 11 {
        2
    } else {
        3
    }
}

/// Near-miss correction toward a single preferred term: a word of at least
/// five characters is replaced by the term when it differs from it only in
/// case, or when their lower-case forms differ and are within the edit
/// budget (one edit for words up to six characters); otherwise it is kept.
pub proof fn lemma_single_term_correction(token: Seq<char>, term: Seq<char>)
    requires
        token.len() >= 5,
    ensures
        preferred_replacement(token, seq![term]) == if lower(token) == lower(term) {
            if token == term {
                None
            } else {
                Some(term)
            }
        } else if lev(lower(token), lower(term)) <= edit_budget(
            max_nat(lower(token).len(), lower(term).len()),
        ) {
            Some(term)
        } else {
            None
        },
{
    let tl = lower(token);
    let ml = lower(term);
    lemma_lev_len_gap(tl, ml);
    let ts = seq![term];
    assert(ts[0] == term);
    assert(preferred_from(token, ts, 1, None) is None);
    if tl != ml {
        let d = lev(tl, ml);
        assert(preferred_from(token, ts, 1, Some((term, d))) == Some(term));
    }
}

/// Words shorter than five characters are never corrected.
pub proof fn lemma_short_words_kept(token: Seq<char>, terms: Seq<Seq<char>>)
    requires
        token.len() < 5,
    ensures
        preferred_replacement(token, terms) is None,
{
}

/// Of two near terms, both differing from the word beyond case, the closer
/// one wins, the first on a tie; a term beyond its edit budget is passed
/// over.
pub proof fn lemma_closer_term_wins(token: Seq<char>, a: Seq<char>, b: Seq<char>)
    requires
        token.len() >= 5,
        lower(token) != lower(a),
        lower(token) != lower(b),
    ensures
        ({
            let tl = lower(token);
            let da = lev(tl, lower(a));
            let db = lev(tl, lower(b));
            let a_ok = da <= edit_budget(max_nat(tl.len(), lower(a).len()));
            let b_ok = db <= edit_budget(max_nat(tl.len(), lower(b).len()));
            preferred_replacement(token, seq![a, b]) == if a_ok && b_ok {
                if db < da {
                    Some(b)
                } else {
                    Some(a)
                }
            } else if a_ok {
                Some(a)
            } else if b_ok {
                Some(b)
            } else {
                None
            }
        }),
{
    let tl = lower(token);
    lemma_lev_len_gap(tl, lower(a));
    lemma_lev_len_gap(tl, lower(b));
    let ts = seq![a, b];
    assert(ts[0] == a && ts[1] == b);
    let da = lev(tl, lower(a));
    let db = lev(tl, lower(b));
    assert(preferred_from(token, ts, 2, None) is None);
    assert(preferred_from(token, ts, 2, Some((a, da))) == Some(a));
    assert(preferred_from(token, ts, 2, Some((b, db))) == Some(b));
    let ba = fuzzy_distance_threshold(max_nat(tl.len(), lower(a).len()));
    let bb = fuzzy_distance_threshold(max_nat(tl.len(), lower(b).len()));
    assert(ba == edit_budget(max_nat(tl.len(), lower(a).len())));
    assert(bb == edit_budget(max_nat(tl.len(), lower(b).len())));
    let best1: Option<(Seq<char>, nat)> = if da <= ba {
        Some((a, da))
    } else {
        None
    };
    assert(preferred_from(token, ts, 0, None) == preferred_from(token, ts, 1, best1));
    if db <= bb && !(best1 matches Some((_, bd)) && bd <= db) {
        assert(preferred_from(token, ts, 1, best1) == preferred_from(token, ts, 2, Some((b, db))));
    } else {
        assert(preferred_from(token, ts, 1, best1) == preferred_from(token, ts, 2, best1));
    }
}

proof fn lemma_lev_len_gap(a: Seq<char>, b: Seq<char>)
    ensures
        lev(a, b) >= abs_diff(a.len(), b.len()),
    decreases a.len() + b.len(),
{
    if a.len() > 0 && b.len() > 0 {
        lemma_lev_len_gap(a.drop_last(), b.drop_last());
        lemma_lev_len_gap(a.drop_last(), b);
        lemma_lev_len_gap(a, b.drop_last());
    }
}

fn preferred_replacement_vec(token: &[char], terms: &Vec<Vec<char>>) -> (r: Option<Vec<char>>)
    ensures
        match r {
            Some(t) => preferred_replacement(token@, wv(terms@)) == Some(t@),
            None => preferred_replacement(token@, wv(terms@)) is None,
        },
{
    if token.len() < 5 {
        return None;
    }
    let ghost ts = wv(terms@);
    let tl = lower_vec(token);
    proof {
        lemma_len_le_blen(tl@);
    }
    let mut best: Option<(usize, usize)> = None;
    let mut i: usize = 0;
    while i < terms.len()
        invariant
            0 <= i <= terms@.len(),
            ts == wv(terms@),
            tl@ == lower(token@),
            tl@.len() < usize::MAX,
            token@.len() >= 5,
            preferred_from(
                token@,
                ts,
                i as int,
                match best {
                    Some((k, d)) => Some((ts[k as int], d as nat)),
                    None => None,
                },
            ) == preferred_from(token@, ts, 0, None),
            best matches Some((k, _)) ==> k < i,
        decreases terms@.len() - i,
    {
        let term = &terms[i];
        proof {
            assert(ts[i as int] == term@);
        }
        let ml = lower_vec(term);
        proof {
            lemma_len_le_blen(ml@);
        }
        if eq_vec(&tl, &ml) {
            if eq_vec(token, term) {
                return None;
            } else {
                let r = copy_chars(term);
                proof {
                    let bv = match best {
                        Some((k, d)) => Some((ts[k as int], d as nat)),
                        None => None,
                    };
                    assert(preferred_from(token@, ts, i as int, bv) == Some(term@));
                }
                return Some(r);
            }
        }
        let longer = if tl.len() > ml.len() {
            tl.len()
        } else {
            ml.len()
        };
        let allowed = fuzzy_threshold(longer);
        let delta = if tl.len() > ml.len() {
            tl.len() - ml.len()
        } else {
            ml.len() - tl.len()
        };
        if delta <= allowed {
            let d = levenshtein(&tl, &ml);
            let better = match best {
                Some((_, bd)) => !(bd <= d),
                None => true,
            };
            if d <= allowed && better {
                best = Some((i, d));
            }
        }
        i = i + 1;
    }
    match best {
        Some((k, _)) => Some(copy_chars(&terms[k])),
        None => None,
    }
}

/// A term of letters, digits, `_`, `-` and `+` only.
pub open spec fn single_word_term(s: Seq<char>) -> bool {
    forall|i: int|
        0 <= i < s.len() ==> alphanumeric(#[trigger] s[i]) || s[i] == '_' || s[i] == '-' || s[i]
            == '+'
}

/// The preferred words, trimmed, that are single words of at least five
/// characters.
pub open spec fn preferred_terms(words: Seq<Seq<char>>) -> Seq<Seq<char>>
    decreases words.len(),
{
    if words.len() == 0 {
        Seq::<Seq<char>>::empty()
    } else {
        let rest = preferred_terms(words.drop_last());
        let t = trim(words.last());
        if t.len() >= 5 && single_word_term(t) {
            rest.push(t)
        } else {
            rest
        }
    }
}

fn is_single_word_term(t: &[char]) -> (b: bool)
    ensures
        b == single_word_term(t@),
{
    let mut i: usize = 0;
    while i < t.len()
        invariant
            0 <= i <= t@.len(),
            forall|k: int|
                0 <= k < i ==> alphanumeric(#[trigger] t@[k]) || t@[k] == '_' || t@[k] == '-'
                    || t@[k] == '+',
        decreases t@.len() - i,
    {
        let c = t[i];
        if !(char_is_alphanumeric(c) || c == '_' || c == '-' || c == '+') {
            return false;
        }
        i = i + 1;
    }
    true
}

fn preferred_terms_vec(words: &[String]) -> (r: Vec<Vec<char>>)
    ensures
        wv(r@) == preferred_terms(views(words@)),
{
    let ghost ws = views(words@);
    let mut r: Vec<Vec<char>> = Vec::new();
    let mut i: usize = 0;
    proof {
        assert(ws.take(0) =~= Seq::<Seq<char>>::empty());
        assert(wv(r@) =~= Seq::<Seq<char>>::empty());
    }
    while i < words.len()
        invariant
            0 <= i <= words@.len(),
            ws == views(words@),
            wv(r@) == preferred_terms(ws.take(i as int)),
        decreases words@.len() - i,
    {
        proof {
            assert(ws.take(i + 1).drop_last() =~= ws.take(i as int));
            assert(ws.take(i + 1).last() == words@[i as int]@);
        }
        let t = trimmed(words[i].as_str());
        if t.len() >= 5 && is_single_word_term(&t) {
            let ghost before = wv(r@);
            r.push(t);
            proof {
                assert(wv(r@) =~= before.push(t@));
            }
        }
        i = i + 1;
    }
    proof {
        assert(ws.take(words@.len() as int) =~= ws);
    }
    r
}

/// A run of letters, digits, `_`, `+` and `-` that starts with a letter.
pub open spec fn word_pattern() -> Seq<char> {
    "\\p{L}[\\p{L}\\p{N}_+-]*"@
}

/// Each word replaced by its preferred term, if any.
pub open spec fn preferred_reps(fs: Seq<FoundModel>, terms: Seq<Seq<char>>) -> Seq<Seq<char>> {
    fs.map_values(
        |f: FoundModel|
            match preferred_replacement(group_or_empty(f, 0), terms) {
                Some(t) => t,
                None => group_or_empty(f, 0),
            },
    )
}

/// Near matches of the preferred words corrected to their spelling.
pub open spec fn spec_apply_preferred_words(input: Seq<char>, words: Seq<Seq<char>>) -> Seq<char> {
    let terms = preferred_terms(words);
    if terms.len() == 0 || trim(input).len() == 0 {
        input
    } else {
        match regex_matches(word_pattern(), false, input) {
            Some(fs) => splice(input, fs, preferred_reps(fs, terms)),
            None => input,
        }
    }
}

pub fn apply_preferred_words(input: &str, preferred_words: &[String]) -> (r: String)
    ensures
        r@ == spec_apply_preferred_words(input@, views(preferred_words@)),
{
    let terms = preferred_terms_vec(preferred_words);
    let v = chars_of(input);
    let t = trim_vec(&v);
    if terms.len() == 0 || t.len() == 0 {
        return String::from_str(input);
    }
    let fs = match find_matches("\\p{L}[\\p{L}\\p{N}_+-]*", false, &v) {
        Some(fs) => fs,
        None => {
            return String::from_str(input);
        },
    };
    let mut reps: Vec<Vec<char>> = Vec::new();
    let mut i: usize = 0;
    while i < fs.len()
        invariant
            0 <= i <= fs@.len(),
            reps@.len() == i,
            forall|j: int|
                0 <= j < i ==> (#[trigger] reps@[j])@ == preferred_reps(
                    found_models(fs@),
                    wv(terms@),
                )[j],
        decreases fs@.len() - i,
    {
        let token = group_text(&fs[i], 0);
        let rep = match preferred_replacement_vec(&token, &terms) {
            Some(t) => t,
            None => token,
        };
        reps.push(rep);
        i = i + 1;
    }
    proof {
        assert(texts(reps@) =~= preferred_reps(found_models(fs@), wv(terms@)));
    }
    string_of(&splice_vec(&v, &fs, &reps))
}

// ───────────────────────── repeated passes ─────────────────────────

/// The whole-word replacements that are run pass after pass.
pub enum PassKind {
    /// A dictionary entry: the phrase, then what it is written as.
    Phrase(Seq<char>, Seq<char>),
    /// A correction target: the phrase, then its correction, which absorbs
    /// a single punctuation mark after the phrase when it ends in one itself.
    Correction(Seq<char>, Seq<char>),
    /// Filler words.
    Fillers,
}

pub open spec fn correction_reps(fs: Seq<FoundModel>, to: Seq<char>) -> Seq<Seq<char>> {
    fs.map_values(
        |f: FoundModel|
            group_or_empty(f, 1) + to + if ends_with_terminal_punctuation(to)
                && is_terminal_punctuation(group_or_empty(f, 3)) {
                Seq::<char>::empty()
            } else {
                group_or_empty(f, 3)
            },
    )
}

/// `um`, `uh`, `erm`, `er` or `ah` as a whole word.
pub open spec fn filler_pattern() -> Seq<char> {
    "(^|[^\\p{L}\\p{N}_])(um|uh|erm|er|ah)([^\\p{L}\\p{N}_]|$)"@
}

/// A filler between two spaces (or the text's ends) leaves one space; next
/// to anything else it leaves what was around it.
pub open spec fn filler_reps(fs: Seq<FoundModel>) -> Seq<Seq<char>> {
    fs.map_values(
        |f: FoundModel|
            if trim(group_or_empty(f, 1)).len() == 0 && trim(group_or_empty(f, 3)).len() == 0 {
                " "@
            } else {
                group_or_empty(f, 1) + group_or_empty(f, 3)
            },
    )
}

/// One pass; `None` when its pattern cannot be built.
pub open spec fn run_pass(s: Seq<char>, k: PassKind) -> Option<Seq<char>> {
    match k {
        PassKind::Phrase(spoken, written) => phrase_pass(s, spoken, written),
        PassKind::Correction(from, to) => match regex_matches(phrase_pattern(from), true, s) {
            Some(fs) => Some(splice(s, fs, correction_reps(fs, to))),
            None => None,
        },
        PassKind::Fillers => match regex_matches(filler_pattern(), true, s) {
            Some(fs) => Some(splice(s, fs, filler_reps(fs))),
            None => None,
        },
    }
}

/// Passes run until one changes nothing, its pattern cannot be built, or
/// `fuel` passes have run.
pub open spec fn repeat_pass(s: Seq<char>, k: PassKind, fuel: nat) -> Seq<char>
    decreases fuel,
{
    if fuel == 0 {
        s
    } else {
        match run_pass(s, k) {
            None => s,
            Some(next) => if next == s {
                s
            } else {
                repeat_pass(next, k, (fuel - 1) as nat)
            },
        }
    }
}

pub const MAX_REPLACE_ITERATIONS: usize = 64;

fn correction_reps_vec(fs: &Vec<Found>, to: &[char]) -> (r: Vec<Vec<char>>)
    ensures
        r@.len() == fs@.len(),
        texts(r@) == correction_reps(found_models(fs@), to@),
{
    let to_ends = to.len() > 0 && (to[to.len() - 1] == '.' || to[to.len() - 1] == '!' || to[to.len()
        - 1] == '?' || to[to.len() - 1] == ',' || to[to.len() - 1] == ':' || to[to.len() - 1]
        == ';');
    let mut r: Vec<Vec<char>> = Vec::new();
    let mut i: usize = 0;
    while i < fs.len()
        invariant
            0 <= i <= fs@.len(),
            to_ends == ends_with_terminal_punctuation(to@),
            r@.len() == i,
            forall|j: int|
                0 <= j < i ==> (#[trigger] r@[j])@ == correction_reps(found_models(fs@), to@)[j],
        decreases fs@.len() - i,
    {
        let mut t = group_text(&fs[i], 1);
        append(&mut t, to);
        let right = group_text(&fs[i], 3);
        let single = right.len() == 1 && (right[0] == '.' || right[0] == '!' || right[0] == '?'
            || right[0] == ',' || right[0] == ':' || right[0] == ';');
        if !(to_ends && single) {
            append(&mut t, &right);
        }
        proof {
            assert(found_models(fs@)[i as int] == found_model(fs@[i as int]));
            if to_ends && single {
                assert(t@ =~= correction_reps(found_models(fs@), to@)[i as int]);
            }
        }
        r.push(t);
        i = i + 1;
    }
    proof {
        assert(texts(r@) =~= correction_reps(found_models(fs@), to@));
    }
    r
}

fn filler_reps_vec(fs: &Vec<Found>) -> (r: Vec<Vec<char>>)
    ensures
        r@.len() == fs@.len(),
        texts(r@) == filler_reps(found_models(fs@)),
{
    let mut r: Vec<Vec<char>> = Vec::new();
    let mut i: usize = 0;
    while i < fs.len()
        invariant
            0 <= i <= fs@.len(),
            r@.len() == i,
            forall|j: int| 0 <= j < i ==> (#[trigger] r@[j])@ == filler_reps(found_models(fs@))[j],
        decreases fs@.len() - i,
    {
        let left = group_text(&fs[i], 1);
        let right = group_text(&fs[i], 3);
        let lt = trim_vec(&left);
        let rt = trim_vec(&right);
        let t = if lt.len() == 0 && rt.len() == 0 {
            let s = chars_of(" ");
            s
        } else {
            let mut s = left;
            append(&mut s, &right);
            s
        };
        proof {
            assert(found_models(fs@)[i as int] == found_model(fs@[i as int]));
        }
        r.push(t);
        i = i + 1;
    }
    proof {
        assert(texts(r@) =~= filler_reps(found_models(fs@)));
    }
    r
}

/// Replaces `from` as a whole word, in any case, by `to`, pass after pass.
fn replace_correction_target(input: &[char], from: &[char], to: &[char]) -> (r: Vec<char>)
    ensures
        r@ == repeat_pass(
            input@,
            PassKind::Correction(from@, to@),
            MAX_REPLACE_ITERATIONS as nat,
        ),
{
    let pattern = crate::matching::phrase_pattern_of(string_of(from).as_str());
    let ghost k = PassKind::Correction(from@, to@);
    let mut text = copy_chars(input);
    let mut n: usize = 0;
    while n < MAX_REPLACE_ITERATIONS
        invariant
            0 <= n <= MAX_REPLACE_ITERATIONS,
            pattern@ == phrase_pattern(from@),
            k == PassKind::Correction(from@, to@),
            repeat_pass(text@, k, (MAX_REPLACE_ITERATIONS - n) as nat) == repeat_pass(
                input@,
                k,
                MAX_REPLACE_ITERATIONS as nat,
            ),
        decreases MAX_REPLACE_ITERATIONS - n,
    {
        let fs = match find_matches(pattern.as_str(), true, &text) {
            Some(fs) => fs,
            None => {
                return text;
            },
        };
        let reps = correction_reps_vec(&fs, to);
        let next = splice_vec(&text, &fs, &reps);
        if eq_vec(&next, &text) {
            return text;
        }
        text = next;
        n = n + 1;
    }
    text
}

/// Filler words removed, pass after pass.
fn remove_filler_words(input: &[char]) -> (r: Vec<char>)
    ensures
        r@ == repeat_pass(input@, PassKind::Fillers, MAX_REPLACE_ITERATIONS as nat),
{
    let mut text = copy_chars(input);
    let mut n: usize = 0;
    while n < MAX_REPLACE_ITERATIONS
        invariant
            0 <= n <= MAX_REPLACE_ITERATIONS,
            repeat_pass(text@, PassKind::Fillers, (MAX_REPLACE_ITERATIONS - n) as nat)
                == repeat_pass(input@, PassKind::Fillers, MAX_REPLACE_ITERATIONS as nat),
        decreases MAX_REPLACE_ITERATIONS - n,
    {
        let fs = match find_matches(
            "(^|[^\\p{L}\\p{N}_])(um|uh|erm|er|ah)([^\\p{L}\\p{N}_]|$)",
            true,
            &text,
        ) {
            Some(fs) => fs,
            None => {
                return text;
            },
        };
        let reps = filler_reps_vec(&fs);
        let next = splice_vec(&text, &fs, &reps);
        if eq_vec(&next, &text) {
            return text;
        }
        text = next;
        n = n + 1;
    }
    text
}

// ───────────────────────── dictionary ─────────────────────────

/// The entries whose spoken side is not blank, in order.
pub open spec fn dictionary_entries(d: Seq<(Seq<char>, Seq<char>)>) -> Seq<(Seq<char>, Seq<char>)>
    decreases d.len(),
{
    if d.len() == 0 {
        d
    } else {
        let rest = dictionary_entries(d.drop_last());
        if trim(d.last().0).len() > 0 {
            rest.push(d.last())
        } else {
            rest
        }
    }
}

/// The first entry, from the `k`-th on, whose spoken side is shorter (in
/// bytes) than `n`.
pub open spec fn first_shorter(s: Seq<(Seq<char>, Seq<char>)>, n: nat, k: int) -> int
    decreases s.len() - k,
{
    if k < 0 || k >= s.len() {
        s.len() as int
    } else if blen(s[k].0) < n {
        k
    } else {
        first_shorter(s, n, k + 1)
    }
}

/// The entries ordered by the length of their spoken side, longest first;
/// entries of equal length keep their order.
pub open spec fn longest_first(es: Seq<(Seq<char>, Seq<char>)>) -> Seq<(Seq<char>, Seq<char>)>
    decreases es.len(),
{
    if es.len() == 0 {
        es
    } else {
        let s = longest_first(es.drop_last());
        s.insert(first_shorter(s, blen(es.last().0), 0), es.last())
    }
}

pub open spec fn apply_entries(s: Seq<char>, es: Seq<(Seq<char>, Seq<char>)>) -> Seq<char>
    decreases es.len(),
{
    if es.len() == 0 {
        s
    } else {
        repeat_pass(
            apply_entries(s, es.drop_last()),
            PassKind::Phrase(es.last().0, es.last().1),
            MAX_REPLACE_ITERATIONS as nat,
        )
    }
}

/// Each dictionary phrase, longest first, written as its entry says wherever
/// it stands as a whole word, in any case.
pub open spec fn spec_apply_dictionary(input: Seq<char>, d: Seq<(Seq<char>, Seq<char>)>) -> Seq<char> {
    apply_entries(input, longest_first(dictionary_entries(d)))
}

pub open spec fn pairs_view(v: Seq<(Vec<char>, Vec<char>)>) -> Seq<(Seq<char>, Seq<char>)> {
    v.map_values(|e: (Vec<char>, Vec<char>)| (e.0@, e.1@))
}

fn sorted_entries(dictionary: &[(String, String)]) -> (r: Vec<(Vec<char>, Vec<char>)>)
    ensures
        pairs_view(r@) == longest_first(dictionary_entries(dictionary_views(dictionary@))),
{
    let ghost d = dictionary_views(dictionary@);
    let mut kept: Vec<(Vec<char>, Vec<char>)> = Vec::new();
    let mut i: usize = 0;
    proof {
        assert(d.take(0) =~= Seq::<(Seq<char>, Seq<char>)>::empty());
        assert(pairs_view(kept@) =~= Seq::<(Seq<char>, Seq<char>)>::empty());
    }
    while i < dictionary.len()
        invariant
            0 <= i <= dictionary@.len(),
            d == dictionary_views(dictionary@),
            pairs_view(kept@) == dictionary_entries(d.take(i as int)),
        decreases dictionary@.len() - i,
    {
        proof {
            assert(d.take(i + 1).drop_last() =~= d.take(i as int));
            assert(d.take(i + 1).last() == (dictionary@[i as int].0@, dictionary@[i as int].1@));
        }
        let trig = chars_of(dictionary[i].0.as_str());
        let t = trim_vec(&trig);
        if t.len() > 0 {
            let rep = chars_of(dictionary[i].1.as_str());
            let ghost before = pairs_view(kept@);
            kept.push((trig, rep));
            proof {
                assert(pairs_view(kept@) =~= before.push(d.take(i + 1).last()));
            }
        }
        i = i + 1;
    }
    proof {
        assert(d.take(dictionary@.len() as int) =~= d);
    }
    let ghost es = pairs_view(kept@);
    let mut out: Vec<(Vec<char>, Vec<char>)> = Vec::new();
    let mut j: usize = 0;
    proof {
        assert(es.take(0) =~= Seq::<(Seq<char>, Seq<char>)>::empty());
        assert(pairs_view(out@) =~= Seq::<(Seq<char>, Seq<char>)>::empty());
    }
    while j < kept.len()
        invariant
            0 <= j <= kept@.len(),
            es == pairs_view(kept@),
            pairs_view(out@) == longest_first(es.take(j as int)),
        decreases kept@.len() - j,
    {
        proof {
            assert(es.take(j + 1).drop_last() =~= es.take(j as int));
            assert(es.take(j + 1).last() == (kept@[j as int].0@, kept@[j as int].1@));
        }
        let n = blen_wide(&kept[j].0);
        let ghost s = pairs_view(out@);
        let mut p: usize = 0;
        while p < out.len() && !(blen_wide(&out[p].0) < n)
            invariant
                0 <= p <= out@.len(),
                s == pairs_view(out@),
                n == blen(kept@[j as int].0@),
                first_shorter(s, n as nat, p as int) == first_shorter(s, n as nat, 0),
            decreases out@.len() - p,
        {
            p = p + 1;
        }
        let entry = (copy_chars(&kept[j].0), copy_chars(&kept[j].1));
        out.insert(p, entry);
        proof {
            assert(first_shorter(s, n as nat, p as int) == p);
            assert(pairs_view(out@) =~= s.insert(p as int, (kept@[j as int].0@, kept@[j as int].1@)));
        }
        j = j + 1;
    }
    proof {
        assert(es.take(kept@.len() as int) =~= es);
    }
    out
}

fn apply_phrase_entry(input: Vec<char>, spoken: &[char], written: &[char]) -> (r: Vec<char>)
    ensures
        r@ == repeat_pass(
            input@,
            PassKind::Phrase(spoken@, written@),
            MAX_REPLACE_ITERATIONS as nat,
        ),
{
    let pattern = crate::matching::phrase_pattern_of(string_of(spoken).as_str());
    let ghost k = PassKind::Phrase(spoken@, written@);
    let ghost orig = input@;
    let mut text = input;
    let mut n: usize = 0;
    while n < MAX_REPLACE_ITERATIONS
        invariant
            0 <= n <= MAX_REPLACE_ITERATIONS,
            pattern@ == phrase_pattern(spoken@),
            orig == input@,
            k == PassKind::Phrase(spoken@, written@),
            repeat_pass(text@, k, (MAX_REPLACE_ITERATIONS - n) as nat) == repeat_pass(
                orig,
                k,
                MAX_REPLACE_ITERATIONS as nat,
            ),
        decreases MAX_REPLACE_ITERATIONS - n,
    {
        let next = match crate::matching::phrase_pass_vec(&text, pattern.as_str(), written) {
            Some(next) => next,
            None => {
                proof {
                    assert(run_pass(text@, k) is None);
                }
                return text;
            },
        };
        proof {
            assert(run_pass(text@, k) == Some(next@));
        }
        if eq_vec(&next, &text) {
            return text;
        }
        text = next;
        n = n + 1;
    }
    text
}

pub fn apply_dictionary(input: &str, dictionary: &[(String, String)]) -> (r: String)
    ensures
        r@ == spec_apply_dictionary(input@, dictionary_views(dictionary@)),
{
    let entries = sorted_entries(dictionary);
    let ghost es = pairs_view(entries@);
    let mut text = chars_of(input);
    let mut i: usize = 0;
    proof {
        assert(es.take(0) =~= Seq::<(Seq<char>, Seq<char>)>::empty());
    }
    while i < entries.len()
        invariant
            0 <= i <= entries@.len(),
            es == pairs_view(entries@),
            text@ == apply_entries(input@, es.take(i as int)),
        decreases entries@.len() - i,
    {
        proof {
            assert(es.take(i + 1).drop_last() =~= es.take(i as int));
            assert(es.take(i + 1).last() == (entries@[i as int].0@, entries@[i as int].1@));
        }
        text = apply_phrase_entry(text, &entries[i].0, &entries[i].1);
        i = i + 1;
    }
    proof {
        assert(es.take(entries@.len() as int) =~= es);
    }
    string_of(&text)
}

// ───────────────────────── spacing ─────────────────────────

/// The lines of a text, as `str::lines` gives them: split at `\n`, a `\r`
/// before the `\n` dropped, no empty line after a final `\n`.
pub open spec fn lines(s: Seq<char>) -> Seq<Seq<char>> {
    let parts = crate::text::split_char(s, '\n');
    let n = parts.len() - 1;
    let inner = parts.take(n).map_values(
        |l: Seq<char>|
            if l.len() > 0 && l.last() == '\r' {
                l.drop_last()
            } else {
                l
            },
    );
    if parts[n].len() == 0 {
        inner
    } else {
        inner.push(parts[n])
    }
}

/// The lines of a text, as `str::lines` gives them.
pub fn lines_vec(input: &[char]) -> (r: Vec<Vec<char>>)
    ensures
        wv(r@) == lines(input@),
{
    let parts = crate::text::split_char_vec(input, '\n');
    let ghost ps = wv(parts@);
    let ghost ls = lines(input@);
    proof {
        assert(ps.len() > 0);
    }
    let n = parts.len() - 1;
    let mut out: Vec<Vec<char>> = Vec::new();
    let mut i: usize = 0;
    while i < n
        invariant
            0 <= i <= n,
            n == parts@.len() - 1,
            ps == wv(parts@),
            ps == crate::text::split_char(input@, '\n'),
            ls == lines(input@),
            wv(out@) == ls.take(i as int),
        decreases n - i,
    {
        let part = &parts[i];
        let line = if part.len() > 0 && part[part.len() - 1] == '\r' {
            slice_vec(part, 0, part.len() - 1)
        } else {
            copy_chars(part)
        };
        proof {
            assert(ls[i as int] == line@) by {
                assert(ps[i as int] == part@);
                if part@.len() > 0 && part@.last() == '\r' {
                    assert(line@ =~= part@.drop_last());
                }
            }
        }
        let ghost before = wv(out@);
        out.push(line);
        proof {
            assert(wv(out@) =~= before.push(line@));
            assert(ls.take(i + 1) =~= ls.take(i as int).push(ls[i as int]));
        }
        i = i + 1;
    }
    if parts[n].len() > 0 {
        let last = copy_chars(&parts[n]);
        let ghost before = wv(out@);
        out.push(last);
        proof {
            assert(ps[n as int] == parts@[n as int]@);
            assert(wv(out@) =~= before.push(last@));
            assert(ls =~= ls.take(n as int).push(ps[n as int]));
        }
    } else {
        proof {
            assert(ps[n as int] == parts@[n as int]@);
            assert(ls.take(n as int) =~= ls);
        }
    }
    out
}

/// Whitespace before `, . ; ! ?`.
pub open spec fn spacing_pattern() -> Seq<char> {
    "\\s+([,.;!?])"@
}

/// A line with its words joined by single spaces and no space before
/// punctuation.
pub open spec fn line_spacing(l: Seq<char>) -> Seq<char> {
    let c = crate::text::collapse_ws(l);
    match regex_matches(spacing_pattern(), false, c) {
        Some(fs) => splice(c, fs, fs.map_values(|f: FoundModel| group_or_empty(f, 1))),
        None => c,
    }
}

pub open spec fn spec_fix_spacing(s: Seq<char>) -> Seq<char> {
    trim(join(lines(s).map_values(|l: Seq<char>| line_spacing(l)), "\n"@))
}

fn line_spacing_vec(l: &[char]) -> (r: Vec<char>)
    ensures
        r@ == line_spacing(l@),
{
    let words = split_ws_vec(l);
    let c = join_vec(&words, &chars_of(" "));
    proof {
        reveal_strlit(" ");
        assert(" "@ =~= seq![' ']);
    }
    let fs = match find_matches("\\s+([,.;!?])", false, &c) {
        Some(fs) => fs,
        None => {
            return c;
        },
    };
    let mut reps: Vec<Vec<char>> = Vec::new();
    let mut i: usize = 0;
    while i < fs.len()
        invariant
            0 <= i <= fs@.len(),
            reps@.len() == i,
            forall|j: int|
                0 <= j < i ==> (#[trigger] reps@[j])@ == group_or_empty(found_models(fs@)[j], 1),
        decreases fs@.len() - i,
    {
        reps.push(group_text(&fs[i], 1));
        i = i + 1;
    }
    proof {
        assert(texts(reps@) =~= found_models(fs@).map_values(
            |f: FoundModel| group_or_empty(f, 1),
        ));
    }
    splice_vec(&c, &fs, &reps)
}

fn fix_spacing(input: &[char]) -> (r: Vec<char>)
    ensures
        r@ == spec_fix_spacing(input@),
{
    let parts = crate::text::split_char_vec(input, '\n');
    let ghost ps = wv(parts@);
    let ghost ls = lines(input@);
    proof {
        assert(ps.len() > 0);
    }
    let n = parts.len() - 1;
    let mut fixed: Vec<Vec<char>> = Vec::new();
    let mut i: usize = 0;
    while i < n
        invariant
            0 <= i <= n,
            n == parts@.len() - 1,
            ps == wv(parts@),
            ps == crate::text::split_char(input@, '\n'),
            ls == lines(input@),
            wv(fixed@) == ls.take(i as int).map_values(|l: Seq<char>| line_spacing(l)),
        decreases n - i,
    {
        let part = &parts[i];
        let line = if part.len() > 0 && part[part.len() - 1] == '\r' {
            slice_vec(part, 0, part.len() - 1)
        } else {
            copy_chars(part)
        };
        proof {
            assert(ls[i as int] == line@) by {
                assert(ps[i as int] == part@);
                if part@.len() > 0 && part@.last() == '\r' {
                    assert(line@ =~= part@.drop_last());
                }
            }
        }
        let f = line_spacing_vec(&line);
        let ghost before = wv(fixed@);
        fixed.push(f);
        proof {
            assert(wv(fixed@) =~= before.push(f@));
            assert(ls.take(i + 1) =~= ls.take(i as int).push(ls[i as int]));
            assert(wv(fixed@) =~= ls.take(i + 1).map_values(|l: Seq<char>| line_spacing(l)));
        }
        i = i + 1;
    }
    if parts[n].len() > 0 {
        let f = line_spacing_vec(&parts[n]);
        let ghost before = wv(fixed@);
        fixed.push(f);
        proof {
            assert(ps[n as int] == parts@[n as int]@);
            assert(wv(fixed@) =~= before.push(f@));
            assert(ls =~= ls.take(n as int).push(ps[n as int]));
            assert(wv(fixed@) =~= ls.map_values(|l: Seq<char>| line_spacing(l)));
        }
    } else {
        proof {
            assert(ps[n as int] == parts@[n as int]@);
            assert(ls.take(n as int) =~= ls);
        }
    }
    let joined = join_vec(&fixed, &chars_of("\n"));
    trim_vec(&joined)
}

/// Filler words removed, then the spacing fixed.
pub open spec fn spec_remove_fillers(s: Seq<char>) -> Seq<char> {
    spec_fix_spacing(repeat_pass(s, PassKind::Fillers, MAX_REPLACE_ITERATIONS as nat))
}

fn remove_fillers(input: &[char]) -> (r: Vec<char>)
    ensures
        r@ == spec_remove_fillers(input@),
{
    let t = remove_filler_words(input);
    fix_spacing(&t)
}

// ───────────────────────── spoken punctuation ─────────────────────────

/// Spoken punctuation and the mark it stands for, in the order tried.
pub open spec fn spoken_punctuation(i: int) -> (Seq<char>, Seq<char>) {
    if i == 0 {
        ("exclamation mark"@, "!"@)
    } else if i == 1 {
        ("exclamation point"@, "!"@)
    } else if i == 2 {
        ("exclamation"@, "!"@)
    } else if i == 3 {
        ("question mark"@, "?"@)
    } else if i == 4 {
        ("question"@, "?"@)
    } else if i == 5 {
        ("comma"@, ","@)
    } else if i == 6 {
        ("period"@, "."@)
    } else if i == 7 {
        ("full stop"@, "."@)
    } else if i == 8 {
        ("colon"@, ":"@)
    } else {
        ("semicolon"@, ";"@)
    }
}

pub const SPOKEN_PUNCTUATION: usize = 10;

fn spoken_punctuation_exec(i: usize) -> (r: (&'static str, &'static str))
    ensures
        (r.0@, r.1@) == spoken_punctuation(i as int),
{
    if i == 0 {
        ("exclamation mark", "!")
    } else if i == 1 {
        ("exclamation point", "!")
    } else if i == 2 {
        ("exclamation", "!")
    } else if i == 3 {
        ("question mark", "?")
    } else if i == 4 {
        ("question", "?")
    } else if i == 5 {
        ("comma", ",")
    } else if i == 6 {
        ("period", ".")
    } else if i == 7 {
        ("full stop", ".")
    } else if i == 8 {
        ("colon", ":")
    } else {
        ("semicolon", ";")
    }
}

/// The spoken punctuation words from the `i`-th on, replaced in turn.
pub open spec fn punctuation_from(s: Seq<char>, i: int) -> Seq<char>
    decreases SPOKEN_PUNCTUATION - i,
{
    if i < 0 || i >= SPOKEN_PUNCTUATION {
        s
    } else {
        let (spoken, mark) = spoken_punctuation(i);
        punctuation_from(
            repeat_pass(s, PassKind::Correction(spoken, mark), MAX_REPLACE_ITERATIONS as nat),
            i + 1,
        )
    }
}

/// Spoken punctuation written as marks, then the spacing fixed.
pub open spec fn spec_apply_spoken_punctuation(s: Seq<char>) -> Seq<char> {
    spec_fix_spacing(punctuation_from(s, 0))
}

fn apply_spoken_punctuation(input: &[char]) -> (r: Vec<char>)
    ensures
        r@ == spec_apply_spoken_punctuation(input@),
{
    let mut text = copy_chars(input);
    let mut i: usize = 0;
    while i < SPOKEN_PUNCTUATION
        invariant
            0 <= i <= SPOKEN_PUNCTUATION,
            punctuation_from(text@, i as int) == punctuation_from(input@, 0),
        decreases SPOKEN_PUNCTUATION - i,
    {
        let (spoken, mark) = spoken_punctuation_exec(i);
        let sv = chars_of(spoken);
        let mv = chars_of(mark);
        text = replace_correction_target(&text, &sv, &mv);
        i = i + 1;
    }
    fix_spacing(&text)
}

// ───────────────────────── inline corrections ─────────────────────────

/// Quotes and punctuation that a spoken correction term may be wrapped in.
pub open spec fn is_wrap_mark(c: char) -> bool {
    c == '"' || c == '\'' || c == '`' || c == ',' || c == ';' || c == ':' || c == '.' || c == '!'
        || c == '?' || c == ' '
}

pub open spec fn strip_wrap_start(s: Seq<char>) -> Seq<char>
    decreases s.len(),
{
    if s.len() > 0 && is_wrap_mark(s[0]) {
        strip_wrap_start(s.drop_first())
    } else {
        s
    }
}

pub open spec fn strip_wrap_end(s: Seq<char>) -> Seq<char>
    decreases s.len(),
{
    if s.len() > 0 && is_wrap_mark(s.last()) {
        strip_wrap_end(s.drop_last())
    } else {
        s
    }
}

fn strip_wrap_vec(v: &[char]) -> (r: Vec<char>)
    ensures
        r@ == strip_wrap_end(strip_wrap_start(v@)),
{
    let mut i: usize = 0;
    proof {
        assert(v@.skip(0) =~= v@);
    }
    while i < v.len() && (v[i] == '"' || v[i] == '\'' || v[i] == '`' || v[i] == ',' || v[i] == ';'
        || v[i] == ':' || v[i] == '.' || v[i] == '!' || v[i] == '?' || v[i] == ' ')
        invariant
            0 <= i <= v@.len(),
            strip_wrap_start(v@.skip(i as int)) == strip_wrap_start(v@),
        decreases v@.len() - i,
    {
        proof {
            assert(v@.skip(i as int).drop_first() =~= v@.skip(i + 1));
        }
        i = i + 1;
    }
    let rest = slice_vec(v, i, v.len());
    proof {
        assert(rest@ =~= v@.skip(i as int));
    }
    let mut j: usize = rest.len();
    proof {
        assert(rest@.take(j as int) =~= rest@);
    }
    while j > 0 && (rest[j - 1] == '"' || rest[j - 1] == '\'' || rest[j - 1] == '`' || rest[j - 1]
        == ',' || rest[j - 1] == ';' || rest[j - 1] == ':' || rest[j - 1] == '.' || rest[j - 1]
        == '!' || rest[j - 1] == '?' || rest[j - 1] == ' ')
        invariant
            0 <= j <= rest@.len(),
            strip_wrap_end(rest@.take(j as int)) == strip_wrap_end(rest@),
        decreases j,
    {
        proof {
            assert(rest@.take(j as int).drop_last() =~= rest@.take(j - 1));
        }
        j = j - 1;
    }
    let r = slice_vec(&rest, 0, j);
    proof {
        assert(r@ =~= rest@.take(j as int));
    }
    r
}

/// Spoken marks at the end of a correction term and what they become.
pub open spec fn spoken_mark(i: int) -> (Seq<char>, Seq<char>) {
    if i == 0 {
        (" question mark"@, "?"@)
    } else if i == 1 {
        (" exclamation mark"@, "!"@)
    } else if i == 2 {
        (" exclamation point"@, "!"@)
    } else if i == 3 {
        (" exclamation"@, "!"@)
    } else if i == 4 {
        (" period"@, "."@)
    } else if i == 5 {
        (" full stop"@, "."@)
    } else if i == 6 {
        (" comma"@, ","@)
    } else if i == 7 {
        (" colon"@, ":"@)
    } else {
        (" semicolon"@, ";"@)
    }
}

pub const SPOKEN_MARKS: usize = 9;

fn spoken_mark_exec(i: usize) -> (r: (&'static str, &'static str))
    ensures
        (r.0@, r.1@) == spoken_mark(i as int),
{
    if i == 0 {
        (" question mark", "?")
    } else if i == 1 {
        (" exclamation mark", "!")
    } else if i == 2 {
        (" exclamation point", "!")
    } else if i == 3 {
        (" exclamation", "!")
    } else if i == 4 {
        (" period", ".")
    } else if i == 5 {
        (" full stop", ".")
    } else if i == 6 {
        (" comma", ",")
    } else if i == 7 {
        (" colon", ":")
    } else {
        (" semicolon", ";")
    }
}

/// The text without its last `n` bytes (or empty when it has fewer), when
/// that cut falls on a character boundary.
pub open spec fn drop_end_bytes(s: Seq<char>, n: nat) -> Option<Seq<char>> {
    if exists|k: int| is_boundary(s, kept_bytes(s, n), k) {
        Some(s.take(char_at_byte(s, kept_bytes(s, n))))
    } else {
        None
    }
}

/// How many bytes are left once the last `n` are taken off.
pub open spec fn kept_bytes(s: Seq<char>, n: nat) -> nat {
    if blen(s) >= n {
        (blen(s) - n) as nat
    } else {
        0
    }
}

/// The first spoken mark, from the `i`-th on, that the lower-cased term ends
/// with, written as its mark. The spoken marks are ASCII, so their length in
/// bytes is their length; the term is cut there.
pub open spec fn mark_from(c: Seq<char>, l: Seq<char>, i: int) -> Seq<char>
    decreases SPOKEN_MARKS - i,
{
    if i < 0 || i >= SPOKEN_MARKS {
        c
    } else {
        let (spoken, mark) = spoken_mark(i);
        if crate::text::ends_with(l, spoken) {
            match drop_end_bytes(c, spoken.len()) {
                Some(kept) => trim_end(kept) + mark,
                None => mark_from(c, l, i + 1),
            }
        } else {
            mark_from(c, l, i + 1)
        }
    }
}

/// A spoken correction term: trimmed, unwrapped from quotes and punctuation,
/// and a spoken mark at its end written as the mark.
pub open spec fn spec_cleanup_correction_term(term: Seq<char>) -> Seq<char> {
    let c = strip_wrap_end(strip_wrap_start(trim(term)));
    mark_from(c, lower(c), 0)
}

fn cleanup_correction_term(term: &[char]) -> (r: Vec<char>)
    ensures
        r@ == spec_cleanup_correction_term(term@),
{
    let t = trim_vec(term);
    let c = strip_wrap_vec(&t);
    let l = lower_vec(&c);
    let total = blen_wide(&c);
    let mut i: usize = 0;
    while i < SPOKEN_MARKS
        invariant
            0 <= i <= SPOKEN_MARKS,
            c@ == strip_wrap_end(strip_wrap_start(trim(term@))),
            l@ == lower(c@),
            total == blen(c@),
            mark_from(c@, l@, i as int) == mark_from(c@, l@, 0),
        decreases SPOKEN_MARKS - i,
    {
        let (spoken, mark) = spoken_mark_exec(i);
        let sv = chars_of(spoken);
        if crate::text::ends_with_vec(&l, &sv) {
            let n = sv.len() as u128;
            let keep: u128 = if total >= n {
                total - n
            } else {
                0
            };
            match crate::text::take_bytes(&c, keep) {
                Some(kept) => {
                    proof {
                        let k = choose|k: int| #[trigger] is_boundary(c@, keep as nat, k) && kept@ == c@.take(k);
                        assert(is_boundary(c@, keep as nat, k));
                        let ck = char_at_byte(c@, keep as nat);
                        assert(is_boundary(c@, keep as nat, ck));
                        crate::text::lemma_boundary_unique(c@, keep as nat, k, ck);
                        assert(kept_bytes(c@, sv@.len()) == keep as nat);
                        assert(drop_end_bytes(c@, sv@.len()) == Some(kept@));
                        assert(mark_from(c@, l@, i as int) == trim_end(kept@) + mark@);
                    }
                    let mut r = trim_end_vec(&kept);
                    let mv = chars_of(mark);
                    append(&mut r, &mv);
                    return r;
                },
                None => {},
            }
        }
        i = i + 1;
    }
    c
}

/// A spoken inline correction: `replace X with Y` (also heard as `the
/// replace` or `the place`), optionally after `actually`, up to the end of
/// the sentence.
pub open spec fn inline_pattern() -> Seq<char> {
    "(?i)(?:^|[\\s.!?])(?:actually\\s+)?(?:replace|the\\s+replace|the\\s+place)\\s+(.+?)\\s+with\\s+(.+?)(?:[.!?](?:\\s|$)|$)"@
}

/// The text before the correction with the correction made, then the text
/// after it.
pub open spec fn join_correction(corrected: Seq<char>, after: Seq<char>) -> Seq<char> {
    if trim(corrected).len() == 0 {
        after
    } else if after.len() == 0 {
        corrected
    } else {
        corrected + " "@ + after
    }
}

/// The first spoken correction in the text carried out, or `None` when there
/// is none to carry out.
pub open spec fn inline_step(s: Seq<char>) -> Option<Seq<char>> {
    match regex_matches(inline_pattern(), false, s) {
        None => None,
        Some(fs) => if fs.len() == 0 {
            None
        } else {
            let f = fs[0];
            if !(f.groups.len() > 2 && f.groups[1] is Some && f.groups[2] is Some) {
                None
            } else {
                let from = spec_cleanup_correction_term(f.groups[1]->0);
                let to = spec_cleanup_correction_term(f.groups[2]->0);
                if from.len() == 0 || to.len() == 0 {
                    None
                } else {
                    let before = trim_end(s.take(f.start));
                    let after = crate::text::trim_start(s.skip(f.end));
                    let c = repeat_pass(
                        before,
                        PassKind::Correction(from, to),
                        MAX_REPLACE_ITERATIONS as nat,
                    );
                    let c = if c == before && eq_ignore_ascii_case(from, "working"@) {
                        repeat_pass(
                            before,
                            PassKind::Correction("correct"@, to),
                            MAX_REPLACE_ITERATIONS as nat,
                        )
                    } else {
                        c
                    };
                    Some(join_correction(c, after))
                }
            }
        },
    }
}

/// Corrections carried out one after the other, at most `fuel` of them.
pub open spec fn inline_fuel(s: Seq<char>, fuel: nat) -> Seq<char>
    decreases fuel,
{
    if fuel == 0 {
        s
    } else {
        match inline_step(s) {
            None => s,
            Some(next) => inline_fuel(next, (fuel - 1) as nat),
        }
    }
}

/// Spoken corrections carried out on the text before them. Each correction
/// removes its own command from the text, so a text holds fewer corrections
/// than characters, which bounds their number.
pub open spec fn spec_apply_inline_corrections(s: Seq<char>) -> Seq<char> {
    inline_fuel(s, s.len())
}

fn inline_step_vec(s: &[char]) -> (r: Option<Vec<char>>)
    ensures
        match r {
            Some(next) => inline_step(s@) == Some(next@),
            None => inline_step(s@) is None,
        },
{
    let fs = match find_matches(
        "(?i)(?:^|[\\s.!?])(?:actually\\s+)?(?:replace|the\\s+replace|the\\s+place)\\s+(.+?)\\s+with\\s+(.+?)(?:[.!?](?:\\s|$)|$)",
        false,
        s,
    ) {
        Some(fs) => fs,
        None => {
            return None;
        },
    };
    if fs.len() == 0 {
        return None;
    }
    let f = &fs[0];
    proof {
        assert(found_models(fs@)[0] == found_model(*f));
    }
    if !(f.groups.len() > 2) {
        return None;
    }
    let g1 = match &f.groups[1] {
        Some(g) => g,
        None => {
            return None;
        },
    };
    let g2 = match &f.groups[2] {
        Some(g) => g,
        None => {
            return None;
        },
    };
    let from = cleanup_correction_term(g1);
    let to = cleanup_correction_term(g2);
    if from.len() == 0 || to.len() == 0 {
        return None;
    }
    let head = slice_vec(s, 0, f.start);
    let before = trim_end_vec(&head);
    let tail = slice_vec(s, f.end, s.len());
    let after = crate::text::trim_start_vec(&tail);
    proof {
        assert(head@ =~= s@.take(f.start as int));
        assert(tail@ =~= s@.skip(f.end as int));
    }
    let mut corrected = replace_correction_target(&before, &from, &to);
    if eq_vec(&corrected, &before) && vec_eq_ignore_ascii_case(&from, &chars_of("working")) {
        corrected = replace_correction_target(&before, &chars_of("correct"), &to);
    }
    let ct = trim_vec(&corrected);
    let out = if ct.len() == 0 {
        after
    } else if after.len() == 0 {
        corrected
    } else {
        let mut o = corrected;
        o.push(' ');
        append(&mut o, &after);
        proof {
            reveal_strlit(" ");
        }
        o
    };
    Some(out)
}

fn apply_inline_corrections(input: &[char]) -> (r: Vec<char>)
    ensures
        r@ == spec_apply_inline_corrections(input@),
{
    let mut text = copy_chars(input);
    let mut fuel: usize = input.len();
    while fuel > 0
        invariant
            inline_fuel(text@, fuel as nat) == inline_fuel(input@, input@.len()),
        decreases fuel,
    {
        match inline_step_vec(&text) {
            Some(next) => {
                text = next;
            },
            None => {
                return text;
            },
        }
        fuel = fuel - 1;
    }
    text
}

// ───────────────────────── spoken lists ─────────────────────────

/// `first`, `second` … `tenth`, optionally followed by `thing` and by `is`,
/// `are` or `:`.
pub open spec fn list_marker_pattern() -> Seq<char> {
    "(^|\\s)(first|second|third|fourth|fifth|sixth|seventh|eighth|ninth|tenth)(?:\\s+thing)?\\s+(?:is|are|:)?\\s+"@
}

pub open spec fn is_list_mark(c: char) -> bool {
    c == ',' || c == ';' || c == ':' || c == '-' || c == ' '
}

pub open spec fn strip_list_start(s: Seq<char>) -> Seq<char>
    decreases s.len(),
{
    if s.len() > 0 && is_list_mark(s[0]) {
        strip_list_start(s.drop_first())
    } else {
        s
    }
}

pub open spec fn strip_list_end(s: Seq<char>) -> Seq<char>
    decreases s.len(),
{
    if s.len() > 0 && is_list_mark(s.last()) {
        strip_list_end(s.drop_last())
    } else {
        s
    }
}

/// A list item as a bullet: trimmed, capitalized, ending a sentence.
pub open spec fn spec_normalize_list_item(item: Seq<char>) -> Seq<char> {
    let t = strip_list_end(strip_list_start(trim(item)));
    "- "@ + spec_fix_punctuation(spec_capitalize_sentences(t))
}

fn normalize_list_item(item: &[char]) -> (r: Vec<char>)
    ensures
        r@ == spec_normalize_list_item(item@),
{
    let t = trim_vec(item);
    let mut i: usize = 0;
    proof {
        assert(t@.skip(0) =~= t@);
    }
    while i < t.len() && (t[i] == ',' || t[i] == ';' || t[i] == ':' || t[i] == '-' || t[i] == ' ')
        invariant
            0 <= i <= t@.len(),
            strip_list_start(t@.skip(i as int)) == strip_list_start(t@),
        decreases t@.len() - i,
    {
        proof {
            assert(t@.skip(i as int).drop_first() =~= t@.skip(i + 1));
        }
        i = i + 1;
    }
    let rest = slice_vec(&t, i, t.len());
    proof {
        assert(rest@ =~= t@.skip(i as int));
    }
    let mut j: usize = rest.len();
    proof {
        assert(rest@.take(j as int) =~= rest@);
    }
    while j > 0 && (rest[j - 1] == ',' || rest[j - 1] == ';' || rest[j - 1] == ':' || rest[j - 1]
        == '-' || rest[j - 1] == ' ')
        invariant
            0 <= j <= rest@.len(),
            strip_list_end(rest@.take(j as int)) == strip_list_end(rest@),
        decreases j,
    {
        proof {
            assert(rest@.take(j as int).drop_last() =~= rest@.take(j - 1));
        }
        j = j - 1;
    }
    let core = slice_vec(&rest, 0, j);
    proof {
        assert(core@ =~= rest@.take(j as int));
    }
    let cap = capitalize_sentences(&core);
    let fixed = fix_punctuation(&cap);
    let mut r = chars_of("- ");
    append(&mut r, &fixed);
    r
}

/// Where the `i`-th item ends: at the next marker, or at the end of the text.
pub open spec fn item_end(s: Seq<char>, fs: Seq<FoundModel>, i: int) -> int {
    if i + 1 < fs.len() {
        fs[i + 1].start
    } else {
        s.len() as int
    }
}

/// The non-empty items after the first `n` markers, as bullets.
pub open spec fn list_items(s: Seq<char>, fs: Seq<FoundModel>, n: int) -> Seq<Seq<char>>
    decreases n,
{
    if n <= 0 {
        Seq::<Seq<char>>::empty()
    } else {
        let prev = list_items(s, fs, n - 1);
        let item = trim(s.subrange(fs[n - 1].end, item_end(s, fs, n - 1)));
        if item.len() > 0 {
            prev.push(spec_normalize_list_item(item))
        } else {
            prev
        }
    }
}

/// A text that is a spoken list from its start (two or more items after
/// `first`, `second` … markers) written as a list of bullets.
pub open spec fn spec_convert_spoken_lists(s: Seq<char>) -> Seq<char> {
    match regex_matches(list_marker_pattern(), true, s) {
        None => s,
        Some(fs) => if fs.len() < 2 || trim(s.take(fs[0].start)).len() > 0 {
            s
        } else {
            let items = list_items(s, fs, fs.len() as int);
            if items.len() < 2 {
                s
            } else {
                "First:\n"@ + join(items, "\n"@)
            }
        },
    }
}

fn convert_spoken_lists(input: &[char]) -> (r: Vec<char>)
    ensures
        r@ == spec_convert_spoken_lists(input@),
{
    let fs = match find_matches(
        "(^|\\s)(first|second|third|fourth|fifth|sixth|seventh|eighth|ninth|tenth)(?:\\s+thing)?\\s+(?:is|are|:)?\\s+",
        true,
        input,
    ) {
        Some(fs) => fs,
        None => {
            return copy_chars(input);
        },
    };
    let ghost fm = found_models(fs@);
    if fs.len() < 2 {
        return copy_chars(input);
    }
    proof {
        assert(fm[0] == found_model(fs@[0]));
    }
    let head = slice_vec(input, 0, fs[0].start);
    let head = trim_vec(&head);
    proof {
        assert(input@.subrange(0, fs@[0].start as int) =~= input@.take(fs@[0].start as int));
    }
    if head.len() > 0 {
        return copy_chars(input);
    }
    let mut items: Vec<Vec<char>> = Vec::new();
    let mut i: usize = 0;
    proof {
        assert(wv(items@) =~= Seq::<Seq<char>>::empty());
    }
    while i < fs.len()
        invariant
            0 <= i <= fs@.len(),
            fm == found_models(fs@),
            crate::matching::matches_ok(input@, fm),
            wv(items@) == list_items(input@, fm, i as int),
        decreases fs@.len() - i,
    {
        proof {
            assert(fm[i as int] == found_model(fs@[i as int]));
            if i + 1 < fs@.len() {
                assert(fm[i + 1] == found_model(fs@[i + 1]));
                assert(fm[i as int].end <= fm[i + 1].start);
            }
        }
        let end = if i + 1 < fs.len() {
            fs[i + 1].start
        } else {
            input.len()
        };
        let raw = slice_vec(input, fs[i].end, end);
        let item = trim_vec(&raw);
        if item.len() > 0 {
            let bullet = normalize_list_item(&item);
            let ghost before = wv(items@);
            items.push(bullet);
            proof {
                assert(wv(items@) =~= before.push(bullet@));
            }
        }
        i = i + 1;
    }
    if items.len() < 2 {
        return copy_chars(input);
    }
    let mut r = chars_of("First:\n");
    let body = join_vec(&items, &chars_of("\n"));
    append(&mut r, &body);
    r
}

// ───────────────────────── cleanup ─────────────────────────

/// The cleanup steps that are switched on, in order: fillers, repeated words,
/// spoken punctuation, spoken lists, spacing, capitals, final punctuation.
pub open spec fn spec_apply_cleanup(s: Seq<char>, c: CleanupConfig) -> Seq<char> {
    if !c.enabled {
        s
    } else {
        let s = if c.remove_fillers {
            spec_remove_fillers(s)
        } else {
            s
        };
        let s = if c.clean_repeated_words {
            spec_clean_repeated_words(s)
        } else {
            s
        };
        let s = if c.spoken_punctuation {
            spec_apply_spoken_punctuation(s)
        } else {
            s
        };
        let s = if c.spoken_lists {
            spec_convert_spoken_lists(s)
        } else {
            s
        };
        let s = if c.fix_spacing {
            spec_fix_spacing(s)
        } else {
            s
        };
        let s = if c.capitalize_sentences {
            spec_capitalize_sentences(s)
        } else {
            s
        };
        if c.fix_punctuation {
            spec_fix_punctuation(s)
        } else {
            s
        }
    }
}

fn apply_cleanup_vec(input: Vec<char>, cleanup: &CleanupConfig) -> (r: Vec<char>)
    ensures
        r@ == spec_apply_cleanup(input@, *cleanup),
{
    if !cleanup.enabled {
        return input;
    }
    let mut text = input;
    if cleanup.remove_fillers {
        text = remove_fillers(&text);
    }
    if cleanup.clean_repeated_words {
        text = clean_repeated_words(&text);
    }
    if cleanup.spoken_punctuation {
        text = apply_spoken_punctuation(&text);
    }
    if cleanup.spoken_lists {
        text = convert_spoken_lists(&text);
    }
    if cleanup.fix_spacing {
        text = fix_spacing(&text);
    }
    if cleanup.capitalize_sentences {
        text = capitalize_sentences(&text);
    }
    if cleanup.fix_punctuation {
        text = fix_punctuation(&text);
    }
    text
}

pub fn apply_cleanup(input: &str, cleanup: &CleanupConfig) -> (r: String)
    ensures
        r@ == spec_apply_cleanup(input@, *cleanup),
{
    string_of(&apply_cleanup_vec(chars_of(input), cleanup))
}

// ───────────────────────── the whole pipeline ─────────────────────────

/// Dictionary, preferred words, inline corrections, snippets, then cleanup.
pub open spec fn spec_process_text(
    input: Seq<char>,
    d: Seq<(Seq<char>, Seq<char>)>,
    words: Seq<Seq<char>>,
    snippets: Seq<(Seq<char>, Seq<char>)>,
    cleanup: CleanupConfig,
) -> Seq<char> {
    let t = spec_apply_dictionary(input, d);
    let t = spec_apply_preferred_words(t, words);
    let t = spec_apply_inline_corrections(t);
    let t = spec_apply_snippets(t, snippets);
    spec_apply_cleanup(t, cleanup)
}

pub fn process_text(input: &str, config: &TextProcessingConfig) -> (r: String)
    ensures
        r@ == spec_process_text(
            input@,
            dictionary_views(config.dictionary@),
            views(config.preferred_words@),
            snippet_views(config.snippets@),
            config.cleanup,
        ),
{
    let t = apply_dictionary(input, &config.dictionary);
    let t = apply_preferred_words(t.as_str(), &config.preferred_words);
    let t = apply_inline_corrections(&chars_of(t.as_str()));
    let t = apply_snippets(string_of(&t).as_str(), &config.snippets);
    string_of(&apply_cleanup_vec(chars_of(t.as_str()), &config.cleanup))
}

// ───────────────────────── vocabulary for prompts ─────────────────────────

/// Trimmed, non-blank terms, each kept the first time its lower-case form
/// appears.
pub open spec fn vocab_collect(items: Seq<Seq<char>>) -> Seq<Seq<char>>
    decreases items.len(),
{
    if items.len() == 0 {
        items
    } else {
        vocab_step(vocab_collect(items.drop_last()), items.last())
    }
}

/// One more term, kept when it is not blank and not already there.
pub open spec fn vocab_step(out: Seq<Seq<char>>, item: Seq<char>) -> Seq<Seq<char>> {
    let t = trim(item);
    if t.len() == 0 || exists|k: int| 0 <= k < out.len() && lower(#[trigger] out[k]) == lower(t) {
        out
    } else {
        out.push(t)
    }
}

fn collect_term(out: &mut Vec<Vec<char>>, raw: &[char])
    ensures
        wv(final(out)@) == vocab_step(wv(old(out)@), raw@),
{
    let t = trim_vec(raw);
    if t.len() > 0 {
        let key = lower_vec(&t);
        if !has_lower(out, &key) {
            let ghost before = wv(out@);
            out.push(t);
            proof {
                assert(wv(out@) =~= before.push(t@));
            }
        }
    }
}

/// The first term, from the `k`-th on, whose lower-case form comes after `key`.
pub open spec fn first_after(s: Seq<Seq<char>>, key: Seq<char>, k: int) -> int
    decreases s.len() - k,
{
    if k < 0 || k >= s.len() {
        s.len() as int
    } else if lex_lt(key, lower(s[k])) {
        k
    } else {
        first_after(s, key, k + 1)
    }
}

/// The terms sorted by their lower-case form; equal forms keep their order.
pub open spec fn sort_by_lower(s: Seq<Seq<char>>) -> Seq<Seq<char>>
    decreases s.len(),
{
    if s.len() == 0 {
        s
    } else {
        let t = sort_by_lower(s.drop_last());
        t.insert(first_after(t, lower(s.last()), 0), s.last())
    }
}

/// The preferred words, then the written side of the dictionary entries,
/// without blanks or repeats (ignoring case), sorted ignoring case.
pub open spec fn spec_preferred_vocabulary(
    words: Seq<Seq<char>>,
    d: Seq<(Seq<char>, Seq<char>)>,
) -> Seq<Seq<char>> {
    sort_by_lower(vocab_collect(words + d.map_values(|e: (Seq<char>, Seq<char>)| e.1)))
}

fn has_lower(out: &Vec<Vec<char>>, key: &[char]) -> (b: bool)
    ensures
        b == exists|k: int| 0 <= k < out@.len() && lower(#[trigger] wv(out@)[k]) == key@,
{
    let mut i: usize = 0;
    while i < out.len()
        invariant
            0 <= i <= out@.len(),
            forall|k: int| 0 <= k < i ==> lower(#[trigger] wv(out@)[k]) != key@,
        decreases out@.len() - i,
    {
        let l = lower_vec(&out[i]);
        if eq_vec(&l, key) {
            proof {
                assert(wv(out@)[i as int] == out@[i as int]@);
                assert(lower(wv(out@)[i as int]) == key@);
            }
            return true;
        }
        i = i + 1;
    }
    false
}

/// A stable sort of the terms by their lower-case form.
pub fn sort_by_lower_vec(out: &Vec<Vec<char>>) -> (sorted: Vec<Vec<char>>)
    ensures
        wv(sorted@) == sort_by_lower(wv(out@)),
{
    let ghost es = wv(out@);
    let mut sorted: Vec<Vec<char>> = Vec::new();
    let mut j: usize = 0;
    proof {
        assert(es.take(0) =~= Seq::<Seq<char>>::empty());
        assert(wv(sorted@) =~= Seq::<Seq<char>>::empty());
    }
    while j < out.len()
        invariant
            0 <= j <= out@.len(),
            es == wv(out@),
            wv(sorted@) == sort_by_lower(es.take(j as int)),
        decreases out@.len() - j,
    {
        proof {
            assert(es.take(j + 1).drop_last() =~= es.take(j as int));
            assert(es.take(j + 1).last() == out@[j as int]@);
        }
        let key = lower_vec(&out[j]);
        let ghost s = wv(sorted@);
        let mut p: usize = 0;
        while p < sorted.len() && !lex_lt_vec(&key, &lower_vec(&sorted[p]))
            invariant
                0 <= p <= sorted@.len(),
                s == wv(sorted@),
                j < out@.len(),
                key@ == lower(out@[j as int]@),
                first_after(s, key@, p as int) == first_after(s, key@, 0),
            decreases sorted@.len() - p,
        {
            p = p + 1;
        }
        let item = copy_chars(&out[j]);
        sorted.insert(p, item);
        proof {
            assert(first_after(s, key@, p as int) == p);
            assert(wv(sorted@) =~= s.insert(p as int, out@[j as int]@));
        }
        j = j + 1;
    }
    proof {
        assert(es.take(out@.len() as int) =~= es);
    }
    sorted
}

pub fn preferred_vocabulary(config: &TextProcessingConfig) -> (r: Vec<String>)
    ensures
        views(r@) == spec_preferred_vocabulary(
            views(config.preferred_words@),
            dictionary_views(config.dictionary@),
        ),
{
    let ghost items = views(config.preferred_words@) + dictionary_views(config.dictionary@).map_values(
        |e: (Seq<char>, Seq<char>)| e.1,
    );
    let nw = config.preferred_words.len();
    let mut out: Vec<Vec<char>> = Vec::new();
    let mut i: usize = 0;
    proof {
        assert(items.take(0) =~= Seq::<Seq<char>>::empty());
        assert(wv(out@) =~= Seq::<Seq<char>>::empty());
    }
    while i < nw
        invariant
            0 <= i <= nw,
            nw == config.preferred_words@.len(),
            items == views(config.preferred_words@) + dictionary_views(config.dictionary@).map_values(
                |e: (Seq<char>, Seq<char>)| e.1,
            ),
            wv(out@) == vocab_collect(items.take(i as int)),
        decreases nw - i,
    {
        proof {
            assert(items.take(i + 1).drop_last() =~= items.take(i as int));
            assert(items.take(i + 1).last() == config.preferred_words@[i as int]@);
        }
        let raw = chars_of(config.preferred_words[i].as_str());
        collect_term(&mut out, &raw);
        i = i + 1;
    }
    let mut j: usize = 0;
    while j < config.dictionary.len()
        invariant
            0 <= j <= config.dictionary@.len(),
            nw == config.preferred_words@.len(),
            items == views(config.preferred_words@) + dictionary_views(config.dictionary@).map_values(
                |e: (Seq<char>, Seq<char>)| e.1,
            ),
            wv(out@) == vocab_collect(items.take(nw + j)),
        decreases config.dictionary@.len() - j,
    {
        proof {
            assert(items.take(nw + j + 1).drop_last() =~= items.take(nw + j));
            assert(items.take(nw + j + 1).last() == config.dictionary@[j as int].1@);
        }
        let raw = chars_of(config.dictionary[j].1.as_str());
        collect_term(&mut out, &raw);
        j = j + 1;
    }
    proof {
        assert(items.take(nw + j) =~= items);
    }
    let sorted = sort_by_lower_vec(&out);
    let mut r: Vec<String> = Vec::new();
    let mut k: usize = 0;
    while k < sorted.len()
        invariant
            0 <= k <= sorted@.len(),
            r@.len() == k,
            forall|m: int| 0 <= m < k ==> (#[trigger] r@[m])@ == sorted@[m]@,
        decreases sorted@.len() - k,
    {
        r.push(string_of(&sorted[k]));
        k = k + 1;
    }
    proof {
        assert(views(r@) =~= wv(sorted@));
    }
    r
}

} // verus!
