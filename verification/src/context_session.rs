//! Session output decisions: spacing of inserted text, live spoken
//! corrections, trailing voice commands and polished replacements. The
//! session types the text and commits the edits these decisions give.
use crate::config::Config;
use crate::developer_modes::{apply_developer_mode, spec_apply_developer_mode};
use crate::editing::{
    applicable, apply_edit, chars_between, edit_applicable, edit_model, plan_is_unmeasurable,
    spec_commit, spec_edit_operations, spec_plan, spec_uncommitted, spec_validate, try_plan_edit,
    EditModel, EditPolicy, TextEdit,
};
use crate::typing::{OperationModel, TypingBackend};
use crate::intent::{detect_intent, intent_model, spec_detect_intent, DictationIntent, IntentModel};
use crate::text::{
    append, blen, byte_offset, char_at_byte, char_index_at_byte, char_is_ascii_punct, char_is_ws,
    chars_of, collapse_ws, contains, ends_with, eq_str, eq_vec, is_ascii_punct, is_boundary, is_ws,
    join, join_vec, lemma_blen_mono, lower, lower_vec, occurs_at, rfind_vec, slice_vec, split_ws,
    split_ws_vec, starts_with, starts_with_str, string_of, trim, trim_end, trim_start, trim_vec,
    wv,
};
use crate::text_processing::{process_text, spec_process_text, TextProcessingConfig, dictionary_views, snippet_views};
use crate::transcript::{
    content_end, is_word_start, last_words_range_in, opt_range_model, spec_last_words_range,
    TranscriptBuffer, TranscriptModel,
};
use std::ops::Range;
use vstd::prelude::*;

verus! {

pub open spec fn spec_edit_policy(config: Config) -> EditPolicy {
    EditPolicy {
        max_delete_chars: config.context_editing_max_delete_chars,
        max_delete_words: config.context_editing_max_delete_words,
        type_rejected_commands: false,
    }
}

/// The edit limits taken from the configuration; rejected commands are never
/// typed.
pub fn edit_policy(config: &Config) -> (p: EditPolicy)
    ensures
        p == spec_edit_policy(*config),
{
    EditPolicy {
        max_delete_chars: config.context_editing_max_delete_chars,
        max_delete_words: config.context_editing_max_delete_words,
        type_rejected_commands: false,
    }
}

// ───────────────────────── spacing ─────────────────────────

pub open spec fn is_closing_mark(c: char) -> bool {
    c == '.' || c == ',' || c == '!' || c == '?' || c == ':' || c == ';'
}

/// Text typed after `previous` gets a space in front when `previous` does not
/// end in whitespace and the text starts with neither whitespace nor
/// closing punctuation.
pub open spec fn spec_normalize_insert_spacing(previous: Seq<char>, next: Seq<char>) -> Seq<char> {
    if previous.len() == 0 || next.len() == 0 {
        next
    } else if !is_ws(previous.last()) && !is_ws(next[0]) && !is_closing_mark(next[0]) {
        seq![' '] + next
    } else {
        next
    }
}

fn normalize_spacing_vec(previous: &[char], next: &[char]) -> (r: Vec<char>)
    ensures
        r@ == spec_normalize_insert_spacing(previous@, next@),
{
    if previous.len() == 0 || next.len() == 0 {
        return crate::text::copy_chars(next);
    }
    let p = previous[previous.len() - 1];
    let n = next[0];
    if !char_is_ws(p) && !char_is_ws(n) && !(n == '.' || n == ',' || n == '!' || n == '?' || n
        == ':' || n == ';') {
        let mut r: Vec<char> = Vec::new();
        r.push(' ');
        append(&mut r, next);
        proof {
            assert(r@ =~= seq![' '] + next@);
        }
        r
    } else {
        crate::text::copy_chars(next)
    }
}

pub fn normalize_insert_spacing(previous: &str, next: &str) -> (r: String)
    ensures
        r@ == spec_normalize_insert_spacing(previous@, next@),
{
    string_of(&normalize_spacing_vec(&chars_of(previous), &chars_of(next)))
}

/// Dictionary, snippets and cleanup, then the developer mode, for plain
/// inserted text (not voice commands).
pub open spec fn spec_preprocess_insert(text: Seq<char>, config: TextProcessingConfig, mode: Seq<char>) -> Seq<char> {
    spec_apply_developer_mode(
        spec_process_text(
            text,
            dictionary_views(config.dictionary@),
            crate::text::views(config.preferred_words@),
            snippet_views(config.snippets@),
            config.cleanup,
        ),
        mode,
    )
}

fn process_insert(text: &str, config: &TextProcessingConfig, dictation_mode: &str) -> (r: String)
    ensures
        r@ == spec_preprocess_insert(text@, *config, dictation_mode@),
{
    let t = process_text(text, config);
    apply_developer_mode(t.as_str(), dictation_mode)
}

/// Dictionary, snippets and cleanup, then the developer mode, for plain
/// inserted text only (not voice commands).
pub fn preprocess_insert(text: &str, config: &Config, dictation_mode: &str) -> (r: String)
    ensures
        r@ == spec_preprocess_insert(text@, config.text_processing, dictation_mode@),
{
    process_insert(text, &config.text_processing, dictation_mode)
}

// ───────────────────────── final segments ─────────────────────────

/// A finished segment's intent: inserted text is processed and spaced after
/// what was typed before; commands are kept as they are.
pub open spec fn final_intent(
    typed: Seq<char>,
    config: TextProcessingConfig,
    raw: Seq<char>,
    mode: Seq<char>,
) -> IntentModel {
    match spec_detect_intent(raw) {
        IntentModel::InsertText(insert) => IntentModel::InsertText(
            spec_normalize_insert_spacing(typed, spec_preprocess_insert(insert, config, mode)),
        ),
        other => other,
    }
}

/// The edit a finished segment asks for, checked against the typed text;
/// `None` when the planned range cannot be measured on the text.
pub fn final_segment_edit(
    buffer: &TranscriptBuffer,
    config: &TextProcessingConfig,
    raw_text: &str,
    dictation_mode: &str,
    policy: EditPolicy,
) -> (r: Option<TextEdit>)
    ensures
        match r {
            Some(e) => !plan_is_unmeasurable(
                buffer@.text,
                final_intent(buffer@.text, *config, raw_text@, dictation_mode@),
                policy,
            ) && edit_model(e) == spec_validate(
                buffer@.text,
                spec_plan(
                    buffer@.text,
                    final_intent(buffer@.text, *config, raw_text@, dictation_mode@),
                    policy,
                ),
                policy,
            ),
            None => plan_is_unmeasurable(
                buffer@.text,
                final_intent(buffer@.text, *config, raw_text@, dictation_mode@),
                policy,
            ),
        },
{
    let intent = detect_intent(raw_text);
    let intent = match intent {
        DictationIntent::InsertText(insert) => {
            let processed = process_insert(insert.as_str(), config, dictation_mode);
            DictationIntent::InsertText(normalize_insert_spacing(buffer.text(), processed.as_str()))
        },
        other => other,
    };
    try_plan_edit(buffer, intent, policy)
}

// ───────────────────────── trailing commands ─────────────────────────

/// Character indices of the word starts before `k`, in order.
pub open spec fn starts_upto(s: Seq<char>, k: int) -> Seq<int>
    decreases k,
{
    if k <= 0 {
        Seq::<int>::empty()
    } else if is_word_start(s, k - 1) {
        starts_upto(s, k - 1).push(k - 1)
    } else {
        starts_upto(s, k - 1)
    }
}

/// The commands recognized at the end of live text: deletions, a context
/// reset and exact replacements (an implicit `no …` is left to the live
/// corrections, so that `no thanks` stays text).
pub open spec fn is_trailing_command(i: IntentModel) -> bool {
    match i {
        IntentModel::DeleteLastSentence => true,
        IntentModel::DeleteLastLine => true,
        IntentModel::DeleteLastWords(_) => true,
        IntentModel::ResetContext => true,
        IntentModel::ReplaceRecentExact { .. } => true,
        _ => false,
    }
}

/// The longest command among the last `n`, `n - 1` … `1` words.
pub open spec fn trailing_from(s: Seq<char>, ws: Seq<int>, je: int, n: int) -> Option<(int, IntentModel)>
    decreases n,
{
    if n < 1 || n > ws.len() {
        None
    } else {
        let k = ws[ws.len() - n];
        let intent = spec_detect_intent(s.subrange(k, je));
        if is_trailing_command(intent) {
            Some((k, intent))
        } else {
            trailing_from(s, ws, je, n - 1)
        }
    }
}

/// A voice command spoken at the end of the text (within its last eight
/// words): its byte range, from the end of the text before it to the end of
/// the text, and the command.
pub open spec fn spec_trailing_command(s: Seq<char>) -> Option<((nat, nat), IntentModel)> {
    let je = content_end(s);
    let ws = starts_upto(s, je);
    if je == 0 || ws.len() == 0 {
        None
    } else {
        let n = if ws.len() < 8 {
            ws.len() as int
        } else {
            8
        };
        match trailing_from(s, ws, je, n) {
            None => None,
            Some((k, intent)) => Some(
                ((if k > 0 {
                    blen(trim_end(s.take(k)))
                } else {
                    0
                }, blen(s)), intent),
            ),
        }
    }
}

proof fn lemma_starts_upto(s: Seq<char>, k: int)
    requires
        0 <= k <= s.len(),
    ensures
        forall|i: int| 0 <= i < starts_upto(s, k).len() ==> 0 <= #[trigger] starts_upto(s, k)[i] < k,
    decreases k,
{
    if k > 0 {
        lemma_starts_upto(s, k - 1);
        let prev = starts_upto(s, k - 1);
        if is_word_start(s, k - 1) {
            assert forall|i: int| 0 <= i < starts_upto(s, k).len() implies 0
                <= #[trigger] starts_upto(s, k)[i] < k by {
                if i < prev.len() {
                    assert(starts_upto(s, k)[i] == prev[i]);
                }
            }
        }
    }
}

pub fn trailing_command(text: &str) -> (r: Option<(Range<usize>, DictationIntent)>)
    requires
        blen(text@) <= usize::MAX,
    ensures
        match r {
            Some((range, intent)) => spec_trailing_command(text@) == Some(
                ((range.start as nat, range.end as nat), intent_model(intent)),
            ) && crate::transcript::valid_byte_range(text@, range.start as nat, range.end as nat),
            None => spec_trailing_command(text@) is None,
        },
{
    let v = chars_of(text);
    let je = crate::text::trim_end_index(&v);
    proof {
        assert(content_end(v@) == je);
    }
    let mut ws: Vec<usize> = Vec::new();
    let mut k: usize = 0;
    while k < je
        invariant
            0 <= k <= je <= v@.len(),
            v@ == text@,
            ws@.map_values(|x: usize| x as int) == starts_upto(v@, k as int),
        decreases je - k,
    {
        let start = !char_is_ws(v[k]) && (k == 0 || char_is_ws(v[k - 1]));
        let ghost before = ws@.map_values(|x: usize| x as int);
        if start {
            ws.push(k);
            proof {
                assert(ws@.map_values(|x: usize| x as int) =~= before.push(k as int));
            }
        }
        k = k + 1;
    }
    let ghost wsv = ws@.map_values(|x: usize| x as int);
    if je == 0 || ws.len() == 0 {
        return None;
    }
    proof {
        lemma_starts_upto(v@, je as int);
    }
    let mut n: usize = if ws.len() < 8 {
        ws.len()
    } else {
        8
    };
    while n >= 1
        invariant
            0 <= n <= ws@.len(),
            n <= 8,
            wsv == ws@.map_values(|x: usize| x as int),
            wsv == starts_upto(v@, je as int),
            v@ == text@,
            je == content_end(v@),
            je <= v@.len(),
            blen(v@) <= usize::MAX,
            forall|i: int| 0 <= i < wsv.len() ==> 0 <= #[trigger] wsv[i] < je,
            trailing_from(v@, wsv, je as int, n as int) == trailing_from(
                v@,
                wsv,
                je as int,
                (if wsv.len() < 8 {
                    wsv.len() as int
                } else {
                    8
                }),
            ),
        decreases n,
    {
        let k = ws[ws.len() - n];
        proof {
            assert(wsv[ws@.len() - n] == k as int);
        }
        let suffix = string_of(&slice_vec(&v, k, je));
        let intent = detect_intent(suffix.as_str());
        let hit = match &intent {
            DictationIntent::DeleteLastSentence => true,
            DictationIntent::DeleteLastLine => true,
            DictationIntent::DeleteLastWords(_) => true,
            DictationIntent::ResetContext => true,
            DictationIntent::ReplaceRecentExact { .. } => true,
            _ => false,
        };
        if hit {
            let ghost mut sj: int = 0;
            let start = if k > 0 {
                let head = slice_vec(&v, 0, k);
                let j = crate::text::trim_end_index(&head);
                proof {
                    assert(head@ =~= v@.take(k as int));
                    lemma_blen_mono(v@, k as int, v@.len() as int);
                    lemma_blen_mono(head@, j as int, head@.len() as int);
                    assert(v@.take(v@.len() as int) =~= v@);
                    assert(head@.take(head@.len() as int) =~= head@);
                    assert(head@.take(j as int) =~= v@.take(j as int));
                    sj = j as int;
                }
                byte_offset(&head, j)
            } else {
                proof {
                    assert(v@.take(0) =~= Seq::<char>::empty());
                }
                0
            };
            let end = byte_offset(&v, v.len());
            proof {
                assert(v@.take(v@.len() as int) =~= v@);
                assert(is_boundary(v@, start as nat, sj));
                assert(is_boundary(v@, end as nat, v@.len() as int));
            }
            return Some((start..end, intent));
        }
        n = n - 1;
    }
    None
}

// ───────────────────────── live corrections ─────────────────────────

/// Spoken corrections, in the order they are looked for.
pub open spec fn correction_marker(i: int) -> Seq<char> {
    if i == 0 {
        "actually scratch that"@
    } else if i == 1 {
        "scratch that"@
    } else if i == 2 {
        "actually no"@
    } else if i == 3 {
        "no i mean"@
    } else {
        "i mean"@
    }
}

pub const CORRECTION_MARKERS: usize = 5;

fn correction_marker_exec(i: usize) -> (r: &'static str)
    ensures
        r@ == correction_marker(i as int),
{
    if i == 0 {
        "actually scratch that"
    } else if i == 1 {
        "scratch that"
    } else if i == 2 {
        "actually no"
    } else if i == 3 {
        "no i mean"
    } else {
        "i mean"
    }
}

/// Prefixes dropped from a spoken replacement (`make it six` is `six`).
pub open spec fn filler_prefix(i: int) -> Seq<char> {
    if i == 0 {
        "let s make it "@
    } else if i == 1 {
        "lets make it "@
    } else if i == 2 {
        "let us make it "@
    } else if i == 3 {
        "make it "@
    } else if i == 4 {
        "change it to "@
    } else if i == 5 {
        "change that to "@
    } else if i == 6 {
        "to "@
    } else {
        "by "@
    }
}

pub const FILLER_PREFIXES: usize = 8;

fn filler_prefix_exec(i: usize) -> (r: &'static str)
    ensures
        r@ == filler_prefix(i as int),
{
    if i == 0 {
        "let s make it "
    } else if i == 1 {
        "lets make it "
    } else if i == 2 {
        "let us make it "
    } else if i == 3 {
        "make it "
    } else if i == 4 {
        "change it to "
    } else if i == 5 {
        "change that to "
    } else if i == 6 {
        "to "
    } else {
        "by "
    }
}

/// Each ASCII punctuation mark read as a space.
pub open spec fn punct_as_space(s: Seq<char>) -> Seq<char> {
    s.map_values(
        |c: char|
            if is_ascii_punct(c) {
                ' '
            } else {
                c
            },
    )
}

/// The text after the first matching filler prefix, from the `i`-th on.
pub open spec fn strip_filler_from(n: Seq<char>, i: int) -> Seq<char>
    decreases FILLER_PREFIXES - i,
{
    if i < 0 || i >= FILLER_PREFIXES {
        n
    } else if starts_with(n, filler_prefix(i)) {
        trim(n.skip(filler_prefix(i).len() as int))
    } else {
        strip_filler_from(n, i + 1)
    }
}

/// A spoken replacement: lower-cased, punctuation dropped, words single
/// spaced, a leading `make it` or `change it to` style phrase dropped.
pub open spec fn spec_normalize_replacement_phrase(r: Seq<char>) -> Seq<char> {
    strip_filler_from(collapse_ws(punct_as_space(lower(trim(r)))), 0)
}

pub fn normalize_replacement_phrase(replacement: &str) -> (r: String)
    ensures
        r@ == spec_normalize_replacement_phrase(replacement@),
{
    let t = crate::text::trimmed(replacement);
    let l = lower_vec(&t);
    let mut m: Vec<char> = Vec::new();
    let mut i: usize = 0;
    while i < l.len()
        invariant
            0 <= i <= l@.len(),
            m@ == punct_as_space(l@.take(i as int)),
        decreases l@.len() - i,
    {
        let c = l[i];
        m.push(if char_is_ascii_punct(c) {
            ' '
        } else {
            c
        });
        proof {
            assert(m@ =~= punct_as_space(l@.take(i + 1)));
        }
        i = i + 1;
    }
    proof {
        assert(l@.take(l@.len() as int) =~= l@);
    }
    let words = split_ws_vec(&m);
    let n = join_vec(&words, &chars_of(" "));
    proof {
        reveal_strlit(" ");
        assert(" "@ =~= seq![' ']);
    }
    let mut k: usize = 0;
    while k < FILLER_PREFIXES
        invariant
            0 <= k <= FILLER_PREFIXES,
            n@ == collapse_ws(punct_as_space(lower(trim(replacement@)))),
            strip_filler_from(n@, k as int) == strip_filler_from(n@, 0),
        decreases FILLER_PREFIXES - k,
    {
        let p = filler_prefix_exec(k);
        if starts_with_str(&n, p) {
            let plen = p.unicode_len();
            let rest = slice_vec(&n, plen, n.len());
            proof {
                assert(rest@ =~= n@.skip(p@.len() as int));
            }
            return string_of(&trim_vec(&rest));
        }
        k = k + 1;
    }
    string_of(&n)
}

/// The last occurrence of `p` in `s`.
pub open spec fn last_occurrence(s: Seq<char>, p: Seq<char>) -> Option<int> {
    if contains(s, p) {
        Some(
            choose|i: int|
                occurs_at(s, p, i) && forall|j: int| i < j ==> !#[trigger] occurs_at(s, p, j),
        )
    } else {
        None
    }
}

fn last_occurrence_vec(s: &[char], p: &[char]) -> (r: Option<usize>)
    ensures
        match r {
            Some(i) => last_occurrence(s@, p@) == Some(i as int) && occurs_at(s@, p@, i as int),
            None => last_occurrence(s@, p@) is None,
        },
{
    let found = rfind_vec(s, p);
    match found {
        Some(i) => {
            proof {
                assert(contains(s@, p@));
                let k = choose|k: int|
                    occurs_at(s@, p@, k) && forall|j: int| k < j ==> !#[trigger] occurs_at(s@, p@, j);
                if k < i {
                    assert(occurs_at(s@, p@, i as int));
                } else if i < k {
                    assert(occurs_at(s@, p@, k));
                }
            }
            Some(i)
        },
        None => None,
    }
}

/// Whitespace or closing punctuation before a spoken replacement.
pub open spec fn is_lead(c: char) -> bool {
    is_ws(c) || is_closing_mark(c)
}

pub open spec fn strip_lead(s: Seq<char>) -> Seq<char>
    decreases s.len(),
{
    if s.len() > 0 && is_lead(s[0]) {
        strip_lead(s.drop_first())
    } else {
        s
    }
}

/// The characters before byte `n`, when `n` falls on a boundary.
pub open spec fn prefix_at_byte(s: Seq<char>, n: nat) -> Option<Seq<char>> {
    if exists|k: int| is_boundary(s, n, k) {
        Some(s.take(char_at_byte(s, n)))
    } else {
        None
    }
}

/// The characters from byte `n` on, when `n` falls on a boundary.
pub open spec fn suffix_at_byte(s: Seq<char>, n: nat) -> Option<Seq<char>> {
    if exists|k: int| is_boundary(s, n, k) {
        Some(s.skip(char_at_byte(s, n)))
    } else {
        None
    }
}

/// How many recent words a spoken replacement of `n` words replaces.
pub open spec fn target_words(n: nat) -> nat {
    let n = if n < 1 {
        1
    } else {
        n
    };
    if n > 4 {
        4
    } else {
        n
    }
}

/// The live correction for the `i`-th marker on, as an edit. A marker is
/// found in the lower-cased text; its byte offsets there are used in the
/// text itself, and a text where they do not fall on character boundaries
/// gives no edit.
pub open spec fn live_correction_from(s: Seq<char>, l: Seq<char>, i: int) -> Option<EditModel>
    decreases CORRECTION_MARKERS - i,
{
    if i < 0 || i >= CORRECTION_MARKERS {
        None
    } else {
        let marker = correction_marker(i);
        match last_occurrence(l, marker) {
            None => live_correction_from(s, l, i + 1),
            Some(mi) => {
                let marker_start = blen(l.take(mi));
                match suffix_at_byte(s, marker_start + marker.len()) {
                    None => None,
                    Some(rest) => {
                        let replacement = spec_normalize_replacement_phrase(trim(strip_lead(rest)));
                        if replacement.len() == 0 {
                            live_correction_from(s, l, i + 1)
                        } else {
                            match prefix_at_byte(s, marker_start) {
                                None => None,
                                Some(before) => match spec_last_words_range(
                                    before,
                                    target_words(split_ws(replacement).len()),
                                ) {
                                    None => None,
                                    Some((a, _)) => match prefix_at_byte(s, a) {
                                        None => None,
                                        Some(head) => Some(
                                            EditModel::ReplaceSuffix(
                                                a,
                                                blen(trim_end(s)),
                                                spec_normalize_insert_spacing(head, replacement),
                                            ),
                                        ),
                                    },
                                },
                            }
                        }
                    },
                }
            },
        }
    }
}

/// A spoken correction at the end of the live text (`… no I mean six`): the
/// recent words it corrects, replaced by what follows it.
pub open spec fn spec_live_correction_edit(s: Seq<char>) -> Option<EditModel> {
    live_correction_from(s, lower(s), 0)
}

pub fn prefix_at_byte_vec(v: &[char], n: usize) -> (r: Option<Vec<char>>)
    ensures
        match r {
            Some(t) => prefix_at_byte(v@, n as nat) == Some(t@),
            None => prefix_at_byte(v@, n as nat) is None,
        },
{
    match char_index_at_byte(v, n) {
        Some(k) => {
            proof {
                let c = char_at_byte(v@, n as nat);
                assert(is_boundary(v@, n as nat, c));
                crate::text::lemma_boundary_unique(v@, n as nat, k as int, c);
            }
            let t = slice_vec(v, 0, k);
            proof {
                assert(t@ =~= v@.take(k as int));
            }
            Some(t)
        },
        None => None,
    }
}

pub fn suffix_at_byte_vec(v: &[char], n: usize) -> (r: Option<Vec<char>>)
    ensures
        match r {
            Some(t) => suffix_at_byte(v@, n as nat) == Some(t@),
            None => suffix_at_byte(v@, n as nat) is None,
        },
{
    match char_index_at_byte(v, n) {
        Some(k) => {
            proof {
                let c = char_at_byte(v@, n as nat);
                assert(is_boundary(v@, n as nat, c));
                crate::text::lemma_boundary_unique(v@, n as nat, k as int, c);
            }
            let t = slice_vec(v, k, v.len());
            proof {
                assert(t@ =~= v@.skip(k as int));
            }
            Some(t)
        },
        None => None,
    }
}

fn strip_lead_vec(v: &[char]) -> (r: Vec<char>)
    ensures
        r@ == strip_lead(v@),
{
    let mut i: usize = 0;
    proof {
        assert(v@.skip(0) =~= v@);
    }
    while i < v.len() && (char_is_ws(v[i]) || v[i] == '.' || v[i] == ',' || v[i] == '!' || v[i]
        == '?' || v[i] == ':' || v[i] == ';')
        invariant
            0 <= i <= v@.len(),
            strip_lead(v@.skip(i as int)) == strip_lead(v@),
        decreases v@.len() - i,
    {
        proof {
            assert(v@.skip(i as int).drop_first() =~= v@.skip(i + 1));
        }
        i = i + 1;
    }
    let r = slice_vec(v, i, v.len());
    proof {
        assert(r@ =~= v@.skip(i as int));
    }
    r
}

pub open spec fn opt_edit_model(e: Option<TextEdit>) -> Option<EditModel> {
    match e {
        Some(x) => Some(edit_model(x)),
        None => None,
    }
}

/// The live correction for the `i`-th marker: `None` when the next marker is
/// to be tried, else the outcome.
#[verifier::rlimit(40)]
fn correction_at(text: &str, v: &Vec<char>, l: &Vec<char>, i: usize) -> (r: Option<Option<TextEdit>>)
    requires
        i < CORRECTION_MARKERS,
        v@ == text@,
        blen(v@) <= usize::MAX,
        l@ == lower(v@),
        blen(l@) <= isize::MAX,
    ensures
        match r {
            None => live_correction_from(v@, l@, i as int) == live_correction_from(v@, l@, i + 1),
            Some(x) => live_correction_from(v@, l@, i as int) == opt_edit_model(x),
        },
{
    let marker = correction_marker_exec(i);
    let mv = chars_of(marker);
    match last_occurrence_vec(&l, &mv) {
        None => {
            return None;
        },
        Some(mi) => {
            proof {
                lemma_blen_mono(l@, mi as int, l@.len() as int);
                assert(l@.take(l@.len() as int) =~= l@);
            }
            let marker_start = byte_offset(&l, mi);
            let after = marker_start + mv.len();
            let rest = match suffix_at_byte_vec(&v, after) {
                Some(rest) => rest,
                None => {
                    return Some(None);
                },
            };
            let lead = strip_lead_vec(&rest);
            let cleaned = trim_vec(&lead);
            let replacement = normalize_replacement_phrase(string_of(&cleaned).as_str());
            let rv = chars_of(replacement.as_str());
            if rv.len() > 0 {
                let before = match prefix_at_byte_vec(&v, marker_start) {
                    Some(b) => b,
                    None => {
                        return Some(None);
                    },
                };
                proof {
                    let k = choose|k: int| #[trigger] is_boundary(v@, marker_start as nat, k);
                    assert(is_boundary(v@, marker_start as nat, k));
                    assert(before@ == v@.take(char_at_byte(v@, marker_start as nat)));
                    let c = char_at_byte(v@, marker_start as nat);
                    assert(is_boundary(v@, marker_start as nat, c));
                    lemma_blen_mono(v@, c, v@.len() as int);
                    assert(v@.take(v@.len() as int) =~= v@);
                }
                let words = split_ws_vec(&rv);
                let n: usize = if words.len() < 1 {
                    1
                } else {
                    words.len()
                };
                let target: usize = if n > 4 {
                    4
                } else {
                    n
                };
                let bs = string_of(&before);
                let range = match last_words_range_in(bs.as_str(), target) {
                    Some(r) => r,
                    None => {
                        return Some(None);
                    },
                };
                let head = match prefix_at_byte_vec(&v, range.start) {
                    Some(h) => h,
                    None => {
                        return Some(None);
                    },
                };
                let rep = normalize_spacing_vec(&head, &rv);
                let end = crate::transcript::trim_end_index(text);
                return Some(
                    Some(
                        TextEdit::ReplaceSuffix {
                            range: range.start..end,
                            replacement: string_of(&rep),
                        },
                    ),
                );
            }
            None
        },
    }
}

/// The live correction spoken at the end of the typed text, as an edit.
pub fn live_correction_edit(buffer: &TranscriptBuffer) -> (r: Option<TextEdit>)
    ensures
        opt_edit_model(r) == spec_live_correction_edit(buffer@.text),
{
    let text = buffer.text();
    let v = chars_of(text);
    let l = lower_vec(&v);
    let mut i: usize = 0;
    while i < CORRECTION_MARKERS
        invariant
            0 <= i <= CORRECTION_MARKERS,
            v@ == buffer@.text,
            text@ == buffer@.text,
            blen(v@) <= usize::MAX,
            l@ == lower(v@),
            blen(l@) <= isize::MAX,
            live_correction_from(v@, l@, i as int) == live_correction_from(v@, l@, 0),
        decreases CORRECTION_MARKERS - i,
    {
        match correction_at(text, &v, &l, i) {
            Some(x) => {
                return x;
            },
            None => {},
        }
        i = i + 1;
    }
    None
}

/// Replacing a live-typed suffix of the text with its polished form: `None`
/// when the suffix is empty, unchanged, or not at the end of the text.
pub open spec fn spec_typed_suffix_edit(s: Seq<char>, typed: Seq<char>, replacement: Seq<char>) -> Option<
    EditModel,
> {
    if typed.len() == 0 || replacement == typed || !ends_with(s, typed) {
        None
    } else {
        Some(EditModel::ReplaceSuffix((blen(s) - blen(typed)) as nat, blen(s), replacement))
    }
}

pub fn typed_suffix_edit(buffer: &TranscriptBuffer, typed_suffix: &str, replacement: &str) -> (r: Option<TextEdit>)
    ensures
        opt_edit_model(r) == spec_typed_suffix_edit(buffer@.text, typed_suffix@, replacement@),
{
    let tv = chars_of(typed_suffix);
    let rv = chars_of(replacement);
    if tv.len() == 0 || eq_vec(&rv, &tv) {
        return None;
    }
    let text = buffer.text();
    let v = chars_of(text);
    if !crate::text::ends_with_vec(&v, &tv) {
        return None;
    }
    let cut = v.len() - tv.len();
    proof {
        assert(v@ =~= v@.take(cut as int) + tv@);
        crate::text::lemma_blen_concat(v@.take(cut as int), tv@);
        lemma_blen_mono(v@, cut as int, v@.len() as int);
        assert(v@.take(v@.len() as int) =~= v@);
    }
    let start = byte_offset(&v, cut);
    let end = byte_offset(&v, v.len());
    Some(TextEdit::ReplaceSuffix { range: start..end, replacement: String::from_str(replacement) })
}

/// What to do after a live delta was typed: nothing, a spoken correction,
/// or a trailing command whose words are backspaced and taken out of the
/// buffer before the command is planned.
pub enum LiveAction {
    Nothing,
    Correct(TextEdit),
    Command { range: Range<usize>, backspaces: usize, intent: DictationIntent },
}

/// The decision after a live delta: corrections first, then trailing
/// commands; nothing when context editing is off.
pub fn live_delta_action(buffer: &TranscriptBuffer, context_editing: bool) -> (a: LiveAction)
    ensures
        !context_editing ==> a is Nothing,
        context_editing ==> match a {
            LiveAction::Nothing => spec_live_correction_edit(buffer@.text) is None
                && spec_trailing_command(buffer@.text) is None,
            LiveAction::Correct(e) => spec_live_correction_edit(buffer@.text) == Some(edit_model(e)),
            LiveAction::Command { range, backspaces, intent } => spec_live_correction_edit(buffer@.text) is None
                && spec_trailing_command(buffer@.text) == Some(
                ((range.start as nat, range.end as nat), intent_model(intent)),
            ) && backspaces == crate::editing::chars_between(
                buffer@.text,
                range.start as nat,
                range.end as nat,
            ) && crate::transcript::valid_byte_range(
                buffer@.text,
                range.start as nat,
                range.end as nat,
            ),
        },
{
    if !context_editing {
        return LiveAction::Nothing;
    }
    match live_correction_edit(buffer) {
        Some(edit) => {
            return LiveAction::Correct(edit);
        },
        None => {},
    }
    let text = buffer.text();
    match trailing_command(text) {
        Some((range, intent)) => {
            let backspaces = crate::editing::chars_in_range(buffer, &range);
            LiveAction::Command { range, backspaces, intent }
        },
        None => LiveAction::Nothing,
    }
}

// ───────────────────────── carrying the decisions out ─────────────────────────

/// The edit a finished segment asks for, checked against the typed text.
pub open spec fn spec_final_segment_edit(m: TranscriptModel, c: Config, raw: Seq<char>, mode: Seq<char>) -> EditModel {
    let p = spec_edit_policy(c);
    spec_validate(m.text, spec_plan(m.text, final_intent(m.text, c.text_processing, raw, mode), p), p)
}

/// Whether a finished segment's edit can be carried out: its range can be
/// measured on the typed text and the edit fits the buffer.
pub open spec fn final_segment_goes_through(m: TranscriptModel, c: Config, raw: Seq<char>, mode: Seq<char>) -> bool {
    let p = spec_edit_policy(c);
    &&& !plan_is_unmeasurable(m.text, final_intent(m.text, c.text_processing, raw, mode), p)
    &&& applicable(m, spec_final_segment_edit(m, c, raw, mode), p)
}

/// Types a finished segment, or carries out the voice command it holds.
/// `Ok` means the edit went through: its keys went to the backend and the
/// buffer recorded it. An edit whose range cannot be measured or carried out
/// on the typed text is refused with an error before anything is sent; a
/// failure of the backend comes back as its error. A reliable backend is
/// owed success whenever the edit can be carried out.
pub fn handle_final_segment<B: TypingBackend>(
    backend: &mut B,
    buffer: &mut TranscriptBuffer,
    config: &Config,
    raw_text: &str,
    dictation_mode: &str,
) -> (r: Result<(), String>)
    ensures
        ({
            let e = spec_final_segment_edit(old(buffer)@, *config, raw_text@, dictation_mode@);
            let p = spec_edit_policy(*config);
            if final_segment_goes_through(old(buffer)@, *config, raw_text@, dictation_mode@) {
                &&& r is Ok ==> final(buffer)@ == spec_commit(old(buffer)@, e, p)
                &&& r is Ok && old(backend).keeps_record() ==> final(backend).sent()
                    == old(backend).sent() + spec_edit_operations(old(buffer)@, e, p)
                &&& r is Err ==> final(buffer)@ == spec_uncommitted(old(buffer)@, e)
                &&& old(backend).is_reliable() ==> r is Ok
            } else {
                &&& r is Err
                &&& final(buffer)@ == old(buffer)@
                &&& *final(backend) == *old(backend)
            }
        }),
{
    let policy = edit_policy(config);
    let edit = match final_segment_edit(buffer, &config.text_processing, raw_text, dictation_mode, policy) {
        Some(e) => e,
        None => {
            return Err(String::from_str("Edit range does not fall on the typed text"));
        },
    };
    if !edit_applicable(buffer, &edit, policy) {
        return Err(String::from_str("Edit cannot be applied to the typed text"));
    }
    apply_edit(backend, buffer, edit, policy)
}

/// The buffer and the answer after a live delta, when everything went
/// through: the delta is typed; with context editing on, a spoken correction
/// is applied, else a trailing command is backspaced, taken out and carried
/// out. `true` when a voice edit changed the buffer.
pub open spec fn spec_live_delta(m: TranscriptModel, c: Config, delta: Seq<char>) -> (TranscriptModel, bool) {
    if delta.len() == 0 {
        (m, false)
    } else {
        let m1 = crate::transcript::append_model(m, delta);
        let p = spec_edit_policy(c);
        if !c.context_editing {
            (m1, false)
        } else {
            match spec_live_correction_edit(m1.text) {
                Some(e) => (spec_commit(m1, e, p), true),
                None => match spec_trailing_command(m1.text) {
                    Some(((a, b), im)) => {
                        let m2 = crate::transcript::delete_model(m1, a, b);
                        (spec_commit(m2, spec_validate(m2.text, spec_plan(m2.text, im, p), p), p), true)
                    },
                    None => (m1, false),
                },
            }
        }
    }
}

/// The keys a live delta sends when everything goes through: the delta,
/// then the keys of the spoken correction, or the backspaces that take a
/// trailing command out followed by the keys of its edit.
pub open spec fn spec_live_delta_operations(m: TranscriptModel, c: Config, delta: Seq<char>) -> Seq<
    OperationModel,
> {
    if delta.len() == 0 {
        Seq::<OperationModel>::empty()
    } else {
        let m1 = crate::transcript::append_model(m, delta);
        let typed = seq![OperationModel::Type(delta)];
        let p = spec_edit_policy(c);
        if !c.context_editing {
            typed
        } else {
            match spec_live_correction_edit(m1.text) {
                Some(e) => typed + spec_edit_operations(m1, e, p),
                None => match spec_trailing_command(m1.text) {
                    Some(((a, b), im)) => {
                        let m2 = crate::transcript::delete_model(m1, a, b);
                        typed.push(OperationModel::Backspace(chars_between(m1.text, a, b)))
                            + spec_edit_operations(m2, spec_validate(m2.text, spec_plan(m2.text, im, p), p), p)
                    },
                    None => typed,
                },
            }
        }
    }
}

/// Whether the voice edit a live delta holds, if any, can be carried out:
/// a correction fits the buffer, or a trailing command leaves room for its
/// segments and its edit can be measured and fits the buffer.
pub open spec fn live_delta_goes_through(m: TranscriptModel, c: Config, delta: Seq<char>) -> bool {
    if delta.len() == 0 || !c.context_editing {
        true
    } else {
        let m1 = crate::transcript::append_model(m, delta);
        let p = spec_edit_policy(c);
        match spec_live_correction_edit(m1.text) {
            Some(e) => applicable(m1, e, p),
            None => match spec_trailing_command(m1.text) {
                Some(((a, b), im)) => {
                    let m2 = crate::transcript::delete_model(m1, a, b);
                    &&& m1.next_id < u64::MAX
                    &&& !plan_is_unmeasurable(m2.text, im, p)
                    &&& applicable(m2, spec_validate(m2.text, spec_plan(m2.text, im, p), p), p)
                },
                None => true,
            },
        }
    }
}

/// Types a live realtime delta, then applies in-stream voice edits when
/// context editing is on. `Ok(true)` when a voice command changed the buffer
/// (the delta is then no preview text). A voice edit that cannot be carried
/// out is refused with an error; a reliable backend is owed success
/// otherwise.
pub fn handle_live_delta<B: TypingBackend>(
    backend: &mut B,
    buffer: &mut TranscriptBuffer,
    config: &Config,
    delta: &str,
) -> (r: Result<bool, String>)
    requires
        blen(old(buffer)@.text) + blen(delta@) <= usize::MAX,
        old(buffer)@.next_id < u64::MAX,
    ensures
        r matches Ok(changed) ==> (final(buffer)@, changed) == spec_live_delta(
            old(buffer)@,
            *config,
            delta@,
        ) && (old(backend).keeps_record() ==> final(backend).sent() == old(backend).sent()
            + spec_live_delta_operations(old(buffer)@, *config, delta@)),
        live_delta_goes_through(old(buffer)@, *config, delta@) ==> (old(backend).is_reliable()
            ==> r is Ok),
        !live_delta_goes_through(old(buffer)@, *config, delta@) ==> r is Err,
{
    if delta.unicode_len() == 0 {
        return Ok(false);
    }
    match backend.type_text(delta) {
        Err(e) => {
            return Err(e);
        },
        Ok(_) => {},
    }
    buffer.append_typed(delta);
    if !config.context_editing {
        return Ok(false);
    }
    let policy = edit_policy(config);
    match live_delta_action(buffer, true) {
        LiveAction::Nothing => Ok(false),
        LiveAction::Correct(edit) => {
            if !edit_applicable(buffer, &edit, policy) {
                return Err(String::from_str("Edit cannot be applied to the typed text"));
            }
            match apply_edit(backend, buffer, edit, policy) {
                Err(e) => Err(e),
                Ok(_) => Ok(true),
            }
        },
        LiveAction::Command { range, backspaces, intent } => {
            if buffer.next_id() == u64::MAX {
                return Err(String::from_str("Too many segments in this session"));
            }
            match backend.backspace(backspaces) {
                Err(e) => {
                    return Err(e);
                },
                Ok(_) => {},
            }
            buffer.delete_range(range);
            let edit = match try_plan_edit(buffer, intent, policy) {
                Some(e) => e,
                None => {
                    return Err(String::from_str("Edit range does not fall on the typed text"));
                },
            };
            if !edit_applicable(buffer, &edit, policy) {
                return Err(String::from_str("Edit cannot be applied to the typed text"));
            }
            match apply_edit(backend, buffer, edit, policy) {
                Err(e) => Err(e),
                Ok(_) => Ok(true),
            }
        },
    }
}

/// Whether replacing a typed suffix can be carried out: there is nothing to
/// replace, or the replacement fits the buffer.
pub open spec fn suffix_replacement_goes_through(
    m: TranscriptModel,
    typed: Seq<char>,
    replacement: Seq<char>,
    p: EditPolicy,
) -> bool {
    match spec_typed_suffix_edit(m.text, typed, replacement) {
        Some(e) => applicable(m, e, p),
        None => true,
    }
}

/// After live typing an utterance, replaces that suffix of the typed text
/// with its polished form; nothing happens when the suffix is empty,
/// unchanged, or no longer at the end of the text. A replacement that does
/// not fit the buffer is refused with an error before anything is sent; a
/// reliable backend is owed success otherwise.
pub fn replace_typed_suffix<B: TypingBackend>(
    backend: &mut B,
    buffer: &mut TranscriptBuffer,
    typed_suffix: &str,
    replacement: &str,
    policy: EditPolicy,
) -> (r: Result<(), String>)
    ensures
        r is Ok ==> match spec_typed_suffix_edit(old(buffer)@.text, typed_suffix@, replacement@) {
            Some(e) => final(buffer)@ == spec_commit(old(buffer)@, e, policy) && (old(
                backend).keeps_record() ==> final(backend).sent() == old(backend).sent()
                + spec_edit_operations(old(buffer)@, e, policy)),
            None => final(buffer)@ == old(buffer)@ && *final(backend) == *old(backend),
        },
        suffix_replacement_goes_through(old(buffer)@, typed_suffix@, replacement@, policy) ==> {
            &&& old(backend).is_reliable() ==> r is Ok
            &&& r is Err ==> (spec_typed_suffix_edit(old(buffer)@.text, typed_suffix@, replacement@)
                matches Some(e) && final(buffer)@ == spec_uncommitted(old(buffer)@, e))
        },
        !suffix_replacement_goes_through(old(buffer)@, typed_suffix@, replacement@, policy) ==> {
            &&& r is Err
            &&& final(buffer)@ == old(buffer)@
            &&& *final(backend) == *old(backend)
        },
{
    let edit = match typed_suffix_edit(buffer, typed_suffix, replacement) {
        Some(e) => e,
        None => {
            return Ok(());
        },
    };
    if !edit_applicable(buffer, &edit, policy) {
        return Err(String::from_str("Edit cannot be applied to the typed text"));
    }
    apply_edit(backend, buffer, edit, policy)
}

} // verus!
