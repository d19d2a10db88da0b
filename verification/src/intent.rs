//! What a finalized utterance asks for: text to insert, or a voice edit of
//! what was typed before.
use crate::text::{
    append, chars_of, char_is_ascii_punct, contains, contains_str, eq_str, is_ascii_punct, join,
    join_vec, lower, lower_vec, parse_unsigned, parse_unsigned_vec, position, position_exec,
    slice_vec, split_ws, split_ws_vec, starts_with, starts_with_str, string_of, sub_words, trim,
    trim_vec, wv,
};
use vstd::prelude::*;

verus! {

#[derive(Debug, PartialEq, Eq)]
pub enum DictationIntent {
    InsertText(String),
    DeleteLastSentence,
    DeleteLastLine,
    DeleteLastWords(usize),
    ReplaceRecentExact { from: String, to: String },
    ReplaceRecentImplicit { replacement: String },
    ResetContext,
    CommandRejected { reason: String },
}

/// The mathematical value of an intent: its strings taken by their views.
pub enum IntentModel {
    InsertText(Seq<char>),
    DeleteLastSentence,
    DeleteLastLine,
    DeleteLastWords(nat),
    ReplaceRecentExact { from: Seq<char>, to: Seq<char> },
    ReplaceRecentImplicit { replacement: Seq<char> },
    ResetContext,
    CommandRejected { reason: Seq<char> },
}

pub open spec fn intent_model(i: DictationIntent) -> IntentModel {
    match i {
        DictationIntent::InsertText(t) => IntentModel::InsertText(t@),
        DictationIntent::DeleteLastSentence => IntentModel::DeleteLastSentence,
        DictationIntent::DeleteLastLine => IntentModel::DeleteLastLine,
        DictationIntent::DeleteLastWords(n) => IntentModel::DeleteLastWords(n as nat),
        DictationIntent::ReplaceRecentExact { from, to } => IntentModel::ReplaceRecentExact {
            from: from@,
            to: to@,
        },
        DictationIntent::ReplaceRecentImplicit { replacement } =>
            IntentModel::ReplaceRecentImplicit { replacement: replacement@ },
        DictationIntent::ResetContext => IntentModel::ResetContext,
        DictationIntent::CommandRejected { reason } => IntentModel::CommandRejected {
            reason: reason@,
        },
    }
}

// ───────────────────────── normalization ─────────────────────────

pub open spec fn punct_to_space(s: Seq<char>) -> Seq<char> {
    s.map_values(|c: char| if is_ascii_punct(c) { ' ' } else { c })
}

pub open spec fn is_filler(w: Seq<char>) -> bool {
    w == "sorry"@ || w == "please"@ || w == "uh"@ || w == "um"@
}

pub open spec fn drop_fillers(ws: Seq<Seq<char>>) -> Seq<Seq<char>>
    decreases ws.len(),
{
    if ws.len() == 0 {
        ws
    } else if is_filler(ws.last()) {
        drop_fillers(ws.drop_last())
    } else {
        drop_fillers(ws.drop_last()).push(ws.last())
    }
}

/// A command as compared against the phrase list: lowercased, ASCII
/// punctuation read as spaces, politeness and hesitation words dropped,
/// single spaces between words.
pub open spec fn spec_normalize_command(text: Seq<char>) -> Seq<char> {
    join(drop_fillers(split_ws(punct_to_space(lower(text)))), " "@)
}

fn punct_to_space_vec(v: &[char]) -> (r: Vec<char>)
    ensures
        r@ == punct_to_space(v@),
{
    let mut out: Vec<char> = Vec::new();
    let mut i: usize = 0;
    while i < v.len()
        invariant
            0 <= i <= v@.len(),
            out@ == punct_to_space(v@.take(i as int)),
        decreases v@.len() - i,
    {
        let c = if char_is_ascii_punct(v[i]) {
            ' '
        } else {
            v[i]
        };
        out.push(c);
        proof {
            assert(punct_to_space(v@.take(i + 1)) =~= punct_to_space(v@.take(i as int)).push(c));
        }
        i = i + 1;
    }
    proof {
        assert(v@.take(v@.len() as int) =~= v@);
    }
    out
}

fn is_filler_exec(w: &[char]) -> (b: bool)
    ensures
        b == is_filler(w@),
{
    eq_str(w, "sorry") || eq_str(w, "please") || eq_str(w, "uh") || eq_str(w, "um")
}

pub fn normalize_command(text: &str) -> (r: Vec<char>)
    ensures
        r@ == spec_normalize_command(text@),
{
    let raw = chars_of(text);
    let l = lower_vec(&raw);
    let p = punct_to_space_vec(&l);
    let words = split_ws_vec(&p);
    let ghost ws = wv(words@);
    let mut kept: Vec<Vec<char>> = Vec::new();
    let mut i: usize = 0;
    while i < words.len()
        invariant
            0 <= i <= words@.len(),
            ws == wv(words@),
            wv(kept@) == drop_fillers(ws.take(i as int)),
        decreases words@.len() - i,
    {
        proof {
            assert(ws.take(i + 1).drop_last() =~= ws.take(i as int));
            assert(ws.take(i + 1).last() == words@[i as int]@);
        }
        if !is_filler_exec(&words[i]) {
            let w = slice_vec(&words[i], 0, words[i].len());
            let ghost before = kept@;
            proof {
                assert(w@ =~= words@[i as int]@);
            }
            kept.push(w);
            proof {
                assert(kept@ == before.push(w));
                assert(wv(kept@) =~= wv(before).push(w@));
            }
        }
        i = i + 1;
    }
    proof {
        assert(ws.take(words@.len() as int) =~= ws);
    }
    let sep = chars_of(" ");
    join_vec(&kept, &sep)
}

// ───────────────────────── word commands ─────────────────────────

pub open spec fn named_count(w: Seq<char>) -> Option<nat> {
    if w == "one"@ {
        Some(1)
    } else if w == "two"@ {
        Some(2)
    } else if w == "three"@ {
        Some(3)
    } else if w == "four"@ {
        Some(4)
    } else if w == "five"@ {
        Some(5)
    } else if w == "six"@ {
        Some(6)
    } else if w == "seven"@ {
        Some(7)
    } else if w == "eight"@ {
        Some(8)
    } else if w == "nine"@ {
        Some(9)
    } else if w == "ten"@ {
        Some(10)
    } else {
        None
    }
}

/// A count word: a decimal number that fits `usize`, or `one` … `ten`.
pub open spec fn spec_parse_count(w: Seq<char>) -> Option<nat> {
    match parse_unsigned(w, usize::MAX as nat) {
        Some(n) => Some(n),
        None => named_count(w),
    }
}

pub fn parse_count(word: &[char]) -> (r: Option<usize>)
    ensures
        match r {
            Some(n) => spec_parse_count(word@) == Some(n as nat),
            None => spec_parse_count(word@) is None,
        },
{
    match parse_unsigned_vec(word, usize::MAX as u64) {
        Some(n) => {
            return Some(n as usize);
        },
        None => {},
    }
    if eq_str(word, "one") {
        Some(1)
    } else if eq_str(word, "two") {
        Some(2)
    } else if eq_str(word, "three") {
        Some(3)
    } else if eq_str(word, "four") {
        Some(4)
    } else if eq_str(word, "five") {
        Some(5)
    } else if eq_str(word, "six") {
        Some(6)
    } else if eq_str(word, "seven") {
        Some(7)
    } else if eq_str(word, "eight") {
        Some(8)
    } else if eq_str(word, "nine") {
        Some(9)
    } else if eq_str(word, "ten") {
        Some(10)
    } else {
        None
    }
}

pub open spec fn is_word_word(w: Seq<char>) -> bool {
    w == "word"@ || w == "words"@
}

/// `delete last <n> words` and `remove last word`.
pub open spec fn spec_parse_delete_words(words: Seq<Seq<char>>) -> Option<nat> {
    if words.len() < 3 {
        None
    } else if !(words[0] == "delete"@ || words[0] == "remove"@) || words[1] != "last"@ {
        None
    } else if is_word_word(words[2]) {
        Some(1)
    } else {
        match spec_parse_count(words[2]) {
            None => None,
            Some(c) => if words.len() > 3 && is_word_word(words[3]) {
                Some(c)
            } else {
                None
            },
        }
    }
}

pub fn parse_delete_words(words: &Vec<Vec<char>>) -> (r: Option<usize>)
    ensures
        match r {
            Some(n) => spec_parse_delete_words(wv(words@)) == Some(n as nat),
            None => spec_parse_delete_words(wv(words@)) is None,
        },
{
    if words.len() < 3 {
        return None;
    }
    if !(eq_str(&words[0], "delete") || eq_str(&words[0], "remove")) || !eq_str(&words[1], "last") {
        return None;
    }
    if eq_str(&words[2], "word") || eq_str(&words[2], "words") {
        return Some(1);
    }
    let count = match parse_count(&words[2]) {
        Some(c) => c,
        None => {
            return None;
        },
    };
    if words.len() > 3 && (eq_str(&words[3], "word") || eq_str(&words[3], "words")) {
        Some(count)
    } else {
        None
    }
}

/// `replace X with Y` and `change X to Y`.
pub open spec fn spec_parse_explicit_replacement(words: Seq<Seq<char>>) -> Option<IntentModel> {
    if words.len() == 0 || !(words[0] == "replace"@ || words[0] == "change"@) {
        None
    } else {
        let verb = words[0];
        let sep = if verb == "replace"@ {
            "with"@
        } else {
            "to"@
        };
        match position(words, sep) {
            None => None,
            Some(idx) => if idx <= 1 || idx + 1 >= words.len() {
                Some(
                    IntentModel::CommandRejected {
                        reason: "Incomplete "@ + verb + " command"@,
                    },
                )
            } else {
                Some(
                    IntentModel::ReplaceRecentExact {
                        from: join(words.subrange(1, idx), " "@),
                        to: join(words.subrange(idx + 1, words.len() as int), " "@),
                    },
                )
            },
        }
    }
}

pub fn parse_explicit_replacement(words: &Vec<Vec<char>>) -> (r: Option<DictationIntent>)
    ensures
        match r {
            Some(i) => spec_parse_explicit_replacement(wv(words@)) == Some(intent_model(i)),
            None => spec_parse_explicit_replacement(wv(words@)) is None,
        },
{
    if words.len() == 0 {
        return None;
    }
    let is_replace = eq_str(&words[0], "replace");
    if !is_replace && !eq_str(&words[0], "change") {
        return None;
    }
    let sep: &str = if is_replace {
        "with"
    } else {
        "to"
    };
    let idx = match position_exec(words, sep) {
        Some(i) => i,
        None => {
            return None;
        },
    };
    if idx <= 1 || idx >= words.len() - 1 {
        let mut reason = String::from_str("Incomplete ");
        let verb = string_of(&words[0]);
        reason.append(verb.as_str());
        reason.append(" command");
        return Some(DictationIntent::CommandRejected { reason });
    }
    let space = chars_of(" ");
    let from = join_vec(&sub_words(words, 1, idx), &space);
    let to = join_vec(&sub_words(words, idx + 1, words.len()), &space);
    Some(DictationIntent::ReplaceRecentExact { from: string_of(&from), to: string_of(&to) })
}

pub open spec fn spec_replacement_intent(replacement: Seq<char>) -> IntentModel {
    let r = trim(replacement);
    if r.len() == 0 {
        IntentModel::CommandRejected { reason: "Replacement text is empty"@ }
    } else {
        IntentModel::ReplaceRecentImplicit { replacement: r }
    }
}

pub fn replacement_intent(replacement: &[char]) -> (r: DictationIntent)
    ensures
        intent_model(r) == spec_replacement_intent(replacement@),
{
    let t = trim_vec(replacement);
    if t.len() == 0 {
        DictationIntent::CommandRejected { reason: String::from_str("Replacement text is empty") }
    } else {
        DictationIntent::ReplaceRecentImplicit { replacement: string_of(&t) }
    }
}

// ───────────────────────── detection ─────────────────────────

pub open spec fn deletes_sentence(n: Seq<char>) -> bool {
    ||| n == "scratch that"@
    ||| n == "forget that"@
    ||| n == "remove that"@
    ||| n == "delete that"@
    ||| contains(n, "remove last sentence"@)
    ||| contains(n, "delete last sentence"@)
    ||| contains(n, "remove that sentence"@)
    ||| contains(n, "delete that sentence"@)
}

pub open spec fn deletes_line(n: Seq<char>) -> bool {
    ||| contains(n, "delete last line"@)
    ||| contains(n, "remove last line"@)
    ||| contains(n, "remove that last line"@)
    ||| contains(n, "delete that last line"@)
    ||| contains(n, "scratch that line"@)
}

/// What an utterance asks for. Checked in order: context reset, delete the
/// last sentence, delete the last line, delete the last words, explicit
/// replacement, implicit replacement (`actually`, `no i mean`, `i mean`,
/// `no`); anything else is text to insert, unchanged.
pub open spec fn spec_detect_intent(text: Seq<char>) -> IntentModel {
    let n = spec_normalize_command(text);
    let words = split_ws(n);
    if n == "reset dictate context"@ || n == "clear dictate context"@ {
        IntentModel::ResetContext
    } else if deletes_sentence(n) {
        IntentModel::DeleteLastSentence
    } else if deletes_line(n) {
        IntentModel::DeleteLastLine
    } else if spec_parse_delete_words(words) is Some {
        IntentModel::DeleteLastWords(spec_parse_delete_words(words)->0)
    } else if spec_parse_explicit_replacement(words) is Some {
        spec_parse_explicit_replacement(words)->0
    } else if starts_with(n, "actually "@) {
        spec_replacement_intent(n.skip("actually "@.len() as int))
    } else if starts_with(n, "no i mean "@) {
        spec_replacement_intent(n.skip("no i mean "@.len() as int))
    } else if starts_with(n, "i mean "@) {
        spec_replacement_intent(n.skip("i mean "@.len() as int))
    } else if starts_with(n, "no "@) {
        spec_replacement_intent(n.skip("no "@.len() as int))
    } else {
        IntentModel::InsertText(text)
    }
}

fn strip_then_replace(n: &Vec<char>, prefix: &str) -> (r: Option<DictationIntent>)
    ensures
        match r {
            Some(i) => starts_with(n@, prefix@) && intent_model(i) == spec_replacement_intent(
                n@.skip(prefix@.len() as int),
            ),
            None => !starts_with(n@, prefix@),
        },
{
    if starts_with_str(n, prefix) {
        let plen = prefix.unicode_len();
        let rest = slice_vec(n, plen, n.len());
        proof {
            assert(rest@ =~= n@.skip(prefix@.len() as int));
        }
        Some(replacement_intent(&rest))
    } else {
        None
    }
}

pub fn detect_intent(text: &str) -> (r: DictationIntent)
    ensures
        intent_model(r) == spec_detect_intent(text@),
{
    let n = normalize_command(text);
    let words = split_ws_vec(&n);
    if eq_str(&n, "reset dictate context") || eq_str(&n, "clear dictate context") {
        return DictationIntent::ResetContext;
    }
    if eq_str(&n, "scratch that") || eq_str(&n, "forget that") || eq_str(&n, "remove that")
        || eq_str(&n, "delete that") || contains_str(&n, "remove last sentence") || contains_str(
        &n,
        "delete last sentence",
    ) || contains_str(&n, "remove that sentence") || contains_str(&n, "delete that sentence") {
        return DictationIntent::DeleteLastSentence;
    }
    if contains_str(&n, "delete last line") || contains_str(&n, "remove last line")
        || contains_str(&n, "remove that last line") || contains_str(&n, "delete that last line")
        || contains_str(&n, "scratch that line") {
        return DictationIntent::DeleteLastLine;
    }
    if let Some(count) = parse_delete_words(&words) {
        return DictationIntent::DeleteLastWords(count);
    }
    if let Some(intent) = parse_explicit_replacement(&words) {
        return intent;
    }
    if let Some(i) = strip_then_replace(&n, "actually ") {
        return i;
    }
    if let Some(i) = strip_then_replace(&n, "no i mean ") {
        return i;
    }
    if let Some(i) = strip_then_replace(&n, "i mean ") {
        return i;
    }
    if let Some(i) = strip_then_replace(&n, "no ") {
        return i;
    }
    DictationIntent::InsertText(String::from_str(text))
}


/// What detection keeps of the words: text that is no command is inserted
/// exactly as spoken, and a spoken replacement ("actually ...") is the
/// trimmed, non-empty rest.
pub proof fn lemma_detect_keeps_text(text: Seq<char>)
    ensures
        spec_detect_intent(text) matches IntentModel::InsertText(t) ==> t == text,
        spec_detect_intent(text) matches IntentModel::ReplaceRecentImplicit { replacement } ==> (
        replacement.len() > 0 && trim(replacement) == replacement),
{
    let n = spec_normalize_command(text);
    let rest = if starts_with(n, "actually "@) {
        n.skip("actually "@.len() as int)
    } else if starts_with(n, "no i mean "@) {
        n.skip("no i mean "@.len() as int)
    } else if starts_with(n, "i mean "@) {
        n.skip("i mean "@.len() as int)
    } else {
        n.skip("no "@.len() as int)
    };
    crate::text::lemma_trim_idempotent(rest);
}


/// The spoken numbers one to ten, in order.
pub open spec fn number_words() -> Seq<Seq<char>> {
    seq!["one"@, "two"@, "three"@, "four"@, "five"@, "six"@, "seven"@, "eight"@, "nine"@, "ten"@]
}

/// "delete last <n> words": the count word stands for its number, the
/// `k`-th of one to ten for `k`, whichever of "delete"/"remove" and
/// "word"/"words" is said and whatever follows.
pub proof fn lemma_delete_words_count(words: Seq<Seq<char>>, k: int)
    requires
        1 <= k <= 10,
        words.len() >= 4,
        words[0] == "delete"@ || words[0] == "remove"@,
        words[1] == "last"@,
        words[2] == number_words()[k - 1],
        words[3] == "word"@ || words[3] == "words"@,
    ensures
        spec_parse_delete_words(words) == Some(k as nat),
{
    reveal_strlit("one");
    reveal_strlit("two");
    reveal_strlit("three");
    reveal_strlit("four");
    reveal_strlit("five");
    reveal_strlit("six");
    reveal_strlit("seven");
    reveal_strlit("eight");
    reveal_strlit("nine");
    reveal_strlit("ten");
    reveal_strlit("word");
    reveal_strlit("words");
    let w = words[2];
    assert(w.len() > 0);
    assert(!crate::text::is_ascii_digit(w[0]));
    assert(!crate::text::all_digits(crate::text::unsigned_body(w)));
    assert(!is_word_word(w));
    assert(spec_parse_count(w) == Some(k as nat)) by {
        if k == 1 {
            assert(w == "one"@);
        } else if k == 2 {
            assert(w == "two"@);
        } else if k == 3 {
            assert(w == "three"@);
        } else if k == 4 {
            assert(w == "four"@);
        } else if k == 5 {
            assert(w == "five"@);
        } else if k == 6 {
            assert(w == "six"@);
        } else if k == 7 {
            assert(w == "seven"@);
        } else if k == 8 {
            assert(w == "eight"@);
        } else if k == 9 {
            assert(w == "nine"@);
        } else {
            assert(w == "ten"@);
        }
    }
    assert(is_word_word(words[3]));
}


/// "delete last word" deletes one word; "delete last <digits> words" deletes
/// as many words as the digits say.
pub proof fn lemma_delete_words_plain(words: Seq<Seq<char>>)
    requires
        words.len() >= 3,
        words[0] == "delete"@ || words[0] == "remove"@,
        words[1] == "last"@,
    ensures
        (words[2] == "word"@ || words[2] == "words"@) ==> spec_parse_delete_words(words) == Some(1nat),
        (crate::text::all_digits(words[2]) && crate::text::digits_value(words[2]) <= usize::MAX
            && words.len() >= 4 && (words[3] == "word"@ || words[3] == "words"@))
            ==> spec_parse_delete_words(words) == Some(crate::text::digits_value(words[2])),
{
    reveal_strlit("word");
    reveal_strlit("words");
    let w = words[2];
    if crate::text::all_digits(w) {
        assert(w[0] != '+');
        assert(crate::text::unsigned_body(w) == w);
        assert(!is_word_word(w)) by {
            if is_word_word(w) {
                assert(w[0] == 'w');
            }
        }
    }
}

} // verus!
