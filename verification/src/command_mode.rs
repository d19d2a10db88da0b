//! Local voice commands that rewrite a piece of text (from the clipboard or
//! given): fix grammar, bullet points, concise, casual, summary.
use crate::text::{
    append, chars_of, contains, contains_str, eq_vec, is_ws, join, join_vec, lower, lower_vec,
    replace, replace_str, slice_vec, split_ws, split_ws_vec, string_of, trim, trim_end, trim_vec,
    trimmed, wv,
};
use crate::text_processing::{spec_apply_cleanup, CleanupConfig, lines};
use vstd::prelude::*;

verus! {

// ───────────────────────── sentences ─────────────────────────

pub open spec fn ends_sentence(c: char) -> bool {
    c == '.' || c == '!' || c == '?' || c == '\n'
}

/// The sentences finished so far, and the one being read.
pub open spec fn sentence_fold(s: Seq<char>) -> (Seq<Seq<char>>, Seq<char>)
    decreases s.len(),
{
    if s.len() == 0 {
        (Seq::<Seq<char>>::empty(), Seq::<char>::empty())
    } else {
        let (done, cur) = sentence_fold(s.drop_last());
        let cur = cur.push(s.last());
        if ends_sentence(s.last()) {
            if trim(cur).len() > 0 {
                (done.push(trim(cur)), Seq::<char>::empty())
            } else {
                (done, Seq::<char>::empty())
            }
        } else {
            (done, cur)
        }
    }
}

/// The text cut after each `.`, `!`, `?` and line break, each piece trimmed,
/// blank pieces left out.
pub open spec fn spec_split_sentences(s: Seq<char>) -> Seq<Seq<char>> {
    let (done, cur) = sentence_fold(s);
    if trim(cur).len() > 0 {
        done.push(trim(cur))
    } else {
        done
    }
}

pub fn split_sentences(source: &str) -> (r: Vec<String>)
    ensures
        crate::text::views(r@) == spec_split_sentences(source@),
{
    let v = chars_of(source);
    let mut done: Vec<Vec<char>> = Vec::new();
    let mut cur: Vec<char> = Vec::new();
    let mut i: usize = 0;
    proof {
        assert(v@.take(0) =~= Seq::<char>::empty());
        assert(wv(done@) =~= Seq::<Seq<char>>::empty());
    }
    while i < v.len()
        invariant
            0 <= i <= v@.len(),
            v@ == source@,
            (wv(done@), cur@) == sentence_fold(v@.take(i as int)),
        decreases v@.len() - i,
    {
        let c = v[i];
        proof {
            assert(v@.take(i + 1).drop_last() =~= v@.take(i as int));
        }
        cur.push(c);
        if c == '.' || c == '!' || c == '?' || c == '\n' {
            let t = trim_vec(&cur);
            if t.len() > 0 {
                let ghost before = wv(done@);
                done.push(t);
                proof {
                    assert(wv(done@) =~= before.push(t@));
                }
            }
            cur = Vec::new();
        }
        i = i + 1;
    }
    proof {
        assert(v@.take(v@.len() as int) =~= v@);
    }
    let t = trim_vec(&cur);
    if t.len() > 0 {
        let ghost before = wv(done@);
        done.push(t);
        proof {
            assert(wv(done@) =~= before.push(t@));
        }
    }
    let mut r: Vec<String> = Vec::new();
    let mut k: usize = 0;
    while k < done.len()
        invariant
            0 <= k <= done@.len(),
            r@.len() == k,
            forall|m: int| 0 <= m < k ==> (#[trigger] r@[m])@ == done@[m]@,
        decreases done@.len() - k,
    {
        r.push(string_of(&done[k]));
        k = k + 1;
    }
    proof {
        assert(crate::text::views(r@) =~= wv(done@));
    }
    r
}

// ───────────────────────── the rewrites ─────────────────────────

/// Every cleanup step.
pub open spec fn grammar_cleanup() -> CleanupConfig {
    CleanupConfig {
        enabled: true,
        fix_spacing: true,
        capitalize_sentences: true,
        fix_punctuation: true,
        spoken_punctuation: true,
        remove_fillers: true,
        clean_repeated_words: true,
        spoken_lists: true,
    }
}

/// The cleanup for one bullet: no final punctuation, no lists.
pub open spec fn bullet_cleanup() -> CleanupConfig {
    CleanupConfig {
        enabled: true,
        fix_spacing: true,
        capitalize_sentences: true,
        fix_punctuation: false,
        spoken_punctuation: true,
        remove_fillers: true,
        clean_repeated_words: true,
        spoken_lists: false,
    }
}

/// The cleanup before and after dropping filler phrases (the second one
/// keeps filler words).
pub open spec fn concise_cleanup(remove_fillers: bool) -> CleanupConfig {
    CleanupConfig {
        enabled: true,
        fix_spacing: true,
        capitalize_sentences: true,
        fix_punctuation: true,
        spoken_punctuation: true,
        remove_fillers: remove_fillers,
        clean_repeated_words: true,
        spoken_lists: false,
    }
}

fn cleanup(v: &[char], c: CleanupConfig) -> (r: Vec<char>)
    ensures
        r@ == spec_apply_cleanup(v@, c),
{
    let s = crate::text_processing::apply_cleanup(string_of(v).as_str(), &c);
    chars_of(s.as_str())
}

pub open spec fn spec_fix_grammar(s: Seq<char>) -> Seq<char> {
    spec_apply_cleanup(s, grammar_cleanup())
}

fn fix_grammar(source: &[char]) -> (r: Vec<char>)
    ensures
        r@ == spec_fix_grammar(source@),
{
    cleanup(
        source,
        CleanupConfig {
            enabled: true,
            fix_spacing: true,
            capitalize_sentences: true,
            fix_punctuation: true,
            spoken_punctuation: true,
            remove_fillers: true,
            clean_repeated_words: true,
            spoken_lists: true,
        },
    )
}

pub open spec fn is_bullet_mark(c: char) -> bool {
    c == '-' || c == '•' || c == ' '
}

pub open spec fn strip_bullet_start(s: Seq<char>) -> Seq<char>
    decreases s.len(),
{
    if s.len() > 0 && is_bullet_mark(s[0]) {
        strip_bullet_start(s.drop_first())
    } else {
        s
    }
}

pub open spec fn strip_bullet_end(s: Seq<char>) -> Seq<char>
    decreases s.len(),
{
    if s.len() > 0 && is_bullet_mark(s.last()) {
        strip_bullet_end(s.drop_last())
    } else {
        s
    }
}

/// The text without trailing full stops.
pub open spec fn trim_end_dots(s: Seq<char>) -> Seq<char>
    decreases s.len(),
{
    if s.len() > 0 && s.last() == '.' {
        trim_end_dots(s.drop_last())
    } else {
        s
    }
}

fn trim_end_dots_vec(v: &[char]) -> (r: Vec<char>)
    ensures
        r@ == trim_end_dots(v@),
{
    let mut j: usize = v.len();
    proof {
        assert(v@.take(j as int) =~= v@);
    }
    while j > 0 && v[j - 1] == '.'
        invariant
            0 <= j <= v@.len(),
            trim_end_dots(v@.take(j as int)) == trim_end_dots(v@),
        decreases j,
    {
        proof {
            assert(v@.take(j as int).drop_last() =~= v@.take(j - 1));
        }
        j = j - 1;
    }
    let r = slice_vec(v, 0, j);
    proof {
        assert(r@ =~= v@.take(j as int));
    }
    r
}

/// The bullets for a line's sentences: each stripped of dashes and bullets,
/// cleaned up, without final full stops; blank ones left out.
pub open spec fn sentence_bullets(ss: Seq<Seq<char>>) -> Seq<Seq<char>>
    decreases ss.len(),
{
    if ss.len() == 0 {
        Seq::<Seq<char>>::empty()
    } else {
        let prev = sentence_bullets(ss.drop_last());
        let item = strip_bullet_end(strip_bullet_start(trim(ss.last())));
        if item.len() == 0 {
            prev
        } else {
            prev.push("- "@ + trim_end_dots(spec_apply_cleanup(item, bullet_cleanup())))
        }
    }
}

pub open spec fn line_bullets(ls: Seq<Seq<char>>) -> Seq<Seq<char>>
    decreases ls.len(),
{
    if ls.len() == 0 {
        Seq::<Seq<char>>::empty()
    } else {
        line_bullets(ls.drop_last()) + sentence_bullets(spec_split_sentences(ls.last()))
    }
}

/// One bullet per sentence, line by line; the text itself when there is none.
pub open spec fn spec_bullet_points(s: Seq<char>) -> Seq<char> {
    let items = line_bullets(lines(s));
    if items.len() == 0 {
        s
    } else {
        join(items, "\n"@)
    }
}

fn bullet_item(sentence: &[char]) -> (r: Option<Vec<char>>)
    ensures
        match r {
            Some(b) => {
                let item = strip_bullet_end(strip_bullet_start(trim(sentence@)));
                &&& item.len() > 0
                &&& b@ == "- "@ + trim_end_dots(spec_apply_cleanup(item, bullet_cleanup()))
            },
            None => strip_bullet_end(strip_bullet_start(trim(sentence@))).len() == 0,
        },
{
    let t = trim_vec(sentence);
    let mut i: usize = 0;
    proof {
        assert(t@.skip(0) =~= t@);
    }
    while i < t.len() && (t[i] == '-' || t[i] == '•' || t[i] == ' ')
        invariant
            0 <= i <= t@.len(),
            strip_bullet_start(t@.skip(i as int)) == strip_bullet_start(t@),
        decreases t@.len() - i,
    {
        proof {
            assert(t@.skip(i as int).drop_first() =~= t@.skip(i + 1));
        }
        i = i + 1;
    }
    let rest = slice_vec(&t, i, t.len());
    proof {
        assert(rest@ =~= t@.skip(i as int));
    }
    let mut j: usize = rest.len();
    proof {
        assert(rest@.take(j as int) =~= rest@);
    }
    while j > 0 && (rest[j - 1] == '-' || rest[j - 1] == '•' || rest[j - 1] == ' ')
        invariant
            0 <= j <= rest@.len(),
            strip_bullet_end(rest@.take(j as int)) == strip_bullet_end(rest@),
        decreases j,
    {
        proof {
            assert(rest@.take(j as int).drop_last() =~= rest@.take(j - 1));
        }
        j = j - 1;
    }
    let item = slice_vec(&rest, 0, j);
    proof {
        assert(item@ =~= rest@.take(j as int));
    }
    if item.len() == 0 {
        return None;
    }
    let cleaned = cleanup(
        &item,
        CleanupConfig {
            enabled: true,
            fix_spacing: true,
            capitalize_sentences: true,
            fix_punctuation: false,
            spoken_punctuation: true,
            remove_fillers: true,
            clean_repeated_words: true,
            spoken_lists: false,
        },
    );
    let mut b = chars_of("- ");
    let body = trim_end_dots_vec(&cleaned);
    append(&mut b, &body);
    Some(b)
}

fn turn_into_bullet_points(source: &[char]) -> (r: Vec<char>)
    ensures
        r@ == spec_bullet_points(source@),
{
    let parts = crate::text::split_char_vec(source, '\n');
    let ghost ls = lines(source@);
    let ghost ps = wv(parts@);
    let n = parts.len() - 1;
    let mut items: Vec<Vec<char>> = Vec::new();
    let mut li: usize = 0;
    let line_count: usize = if parts[n].len() == 0 {
        n
    } else {
        n + 1
    };
    proof {
        assert(ls.len() == line_count);
        assert(ls.take(0) =~= Seq::<Seq<char>>::empty());
        assert(wv(items@) =~= Seq::<Seq<char>>::empty());
    }
    while li < line_count
        invariant
            0 <= li <= line_count,
            n == parts@.len() - 1,
            ps == wv(parts@),
            ps == crate::text::split_char(source@, '\n'),
            ls == lines(source@),
            ls.len() == line_count,
            line_count <= n + 1,
            wv(items@) == line_bullets(ls.take(li as int)),
        decreases line_count - li,
    {
        let part = &parts[li];
        let line = if li < n && part.len() > 0 && part[part.len() - 1] == '\r' {
            slice_vec(part, 0, part.len() - 1)
        } else {
            slice_vec(part, 0, part.len())
        };
        proof {
            assert(ps[li as int] == part@);
            if li < n && part@.len() > 0 && part@.last() == '\r' {
                assert(line@ =~= part@.drop_last());
            } else {
                assert(line@ =~= part@);
            }
            assert(ls[li as int] == line@);
            assert(ls.take(li + 1).drop_last() =~= ls.take(li as int));
        }
        let sentences = split_sentences(string_of(&line).as_str());
        let ghost ss = crate::text::views(sentences@);
        let ghost before = wv(items@);
        let mut si: usize = 0;
        proof {
            assert(ss.take(0) =~= Seq::<Seq<char>>::empty());
            assert(wv(items@) =~= before + sentence_bullets(ss.take(0)));
        }
        while si < sentences.len()
            invariant
                0 <= si <= sentences@.len(),
                ss == crate::text::views(sentences@),
                wv(items@) == before + sentence_bullets(ss.take(si as int)),
            decreases sentences@.len() - si,
        {
            proof {
                assert(ss.take(si + 1).drop_last() =~= ss.take(si as int));
                assert(ss.take(si + 1).last() == sentences@[si as int]@);
            }
            let sv = chars_of(sentences[si].as_str());
            match bullet_item(&sv) {
                Some(b) => {
                    let ghost mid = wv(items@);
                    items.push(b);
                    proof {
                        assert(wv(items@) =~= mid.push(b@));
                    }
                },
                None => {},
            }
            si = si + 1;
        }
        proof {
            assert(ss.take(sentences@.len() as int) =~= ss);
        }
        li = li + 1;
    }
    proof {
        assert(ls.take(line_count as int) =~= ls);
    }
    if items.len() == 0 {
        slice_vec(source, 0, source.len())
    } else {
        join_vec(&items, &chars_of("\n"))
    }
}

/// Filler phrases dropped by the concise rewrite, each also in lower case.
pub open spec fn filler_phrase(i: int) -> (Seq<char>, Seq<char>) {
    if i == 0 {
        ("I think "@, "i think "@)
    } else if i == 1 {
        ("Basically, "@, "basically, "@)
    } else if i == 2 {
        ("Basically "@, "basically "@)
    } else if i == 3 {
        ("Actually, "@, "actually, "@)
    } else if i == 4 {
        ("Actually "@, "actually "@)
    } else if i == 5 {
        ("In order to "@, "in order to "@)
    } else {
        ("Just "@, "just "@)
    }
}

pub const FILLER_PHRASES: usize = 7;

fn filler_phrase_exec(i: usize) -> (r: (&'static str, &'static str))
    ensures
        (r.0@, r.1@) == filler_phrase(i as int),
        r.0@.len() > 0,
        r.1@.len() > 0,
{
    proof {
        reveal_strlit("I think ");
        reveal_strlit("i think ");
        reveal_strlit("Basically, ");
        reveal_strlit("basically, ");
        reveal_strlit("Basically ");
        reveal_strlit("basically ");
        reveal_strlit("Actually, ");
        reveal_strlit("actually, ");
        reveal_strlit("Actually ");
        reveal_strlit("actually ");
        reveal_strlit("In order to ");
        reveal_strlit("in order to ");
        reveal_strlit("Just ");
        reveal_strlit("just ");
    }
    if i == 0 {
        ("I think ", "i think ")
    } else if i == 1 {
        ("Basically, ", "basically, ")
    } else if i == 2 {
        ("Basically ", "basically ")
    } else if i == 3 {
        ("Actually, ", "actually, ")
    } else if i == 4 {
        ("Actually ", "actually ")
    } else if i == 5 {
        ("In order to ", "in order to ")
    } else {
        ("Just ", "just ")
    }
}

/// The filler phrases from the `i`-th on removed, each as written and in
/// lower case.
pub open spec fn drop_fillers_from(s: Seq<char>, i: int) -> Seq<char>
    decreases FILLER_PHRASES - i,
{
    if i < 0 || i >= FILLER_PHRASES {
        s
    } else {
        let (phrase, lowered) = filler_phrase(i);
        drop_fillers_from(
            replace(replace(s, phrase, Seq::<char>::empty()), lowered, Seq::<char>::empty()),
            i + 1,
        )
    }
}

pub open spec fn spec_make_concise(s: Seq<char>) -> Seq<char> {
    spec_apply_cleanup(
        drop_fillers_from(spec_apply_cleanup(s, concise_cleanup(true)), 0),
        concise_cleanup(false),
    )
}

fn make_concise(source: &[char]) -> (r: Vec<char>)
    ensures
        r@ == spec_make_concise(source@),
{
    let mut text = cleanup(
        source,
        CleanupConfig {
            enabled: true,
            fix_spacing: true,
            capitalize_sentences: true,
            fix_punctuation: true,
            spoken_punctuation: true,
            remove_fillers: true,
            clean_repeated_words: true,
            spoken_lists: false,
        },
    );
    let mut i: usize = 0;
    while i < FILLER_PHRASES
        invariant
            0 <= i <= FILLER_PHRASES,
            drop_fillers_from(text@, i as int) == drop_fillers_from(
                spec_apply_cleanup(source@, concise_cleanup(true)),
                0,
            ),
        decreases FILLER_PHRASES - i,
    {
        let (phrase, lowered) = filler_phrase_exec(i);
        proof {
            reveal_strlit("");
            assert(""@ =~= Seq::<char>::empty());
        }
        text = replace_str(&text, phrase, "");
        text = replace_str(&text, lowered, "");
        i = i + 1;
    }
    cleanup(
        &text,
        CleanupConfig {
            enabled: true,
            fix_spacing: true,
            capitalize_sentences: true,
            fix_punctuation: true,
            spoken_punctuation: true,
            remove_fillers: false,
            clean_repeated_words: true,
            spoken_lists: false,
        },
    )
}

/// Formal phrases and their contractions.
pub open spec fn contraction(i: int) -> (Seq<char>, Seq<char>) {
    if i == 0 {
        ("Do not"@, "Don't"@)
    } else if i == 1 {
        ("do not"@, "don't"@)
    } else if i == 2 {
        ("Cannot"@, "Can't"@)
    } else if i == 3 {
        ("cannot"@, "can't"@)
    } else if i == 4 {
        ("Will not"@, "Won't"@)
    } else if i == 5 {
        ("will not"@, "won't"@)
    } else if i == 6 {
        ("It is"@, "It's"@)
    } else if i == 7 {
        ("it is"@, "it's"@)
    } else if i == 8 {
        ("You are"@, "You're"@)
    } else if i == 9 {
        ("you are"@, "you're"@)
    } else if i == 10 {
        ("We are"@, "We're"@)
    } else {
        ("we are"@, "we're"@)
    }
}

pub const CONTRACTIONS: usize = 12;

fn contraction_exec(i: usize) -> (r: (&'static str, &'static str))
    ensures
        (r.0@, r.1@) == contraction(i as int),
        r.0@.len() > 0,
{
    proof {
        reveal_strlit("Do not");
        reveal_strlit("do not");
        reveal_strlit("Cannot");
        reveal_strlit("cannot");
        reveal_strlit("Will not");
        reveal_strlit("will not");
        reveal_strlit("It is");
        reveal_strlit("it is");
        reveal_strlit("You are");
        reveal_strlit("you are");
        reveal_strlit("We are");
        reveal_strlit("we are");
    }
    if i == 0 {
        ("Do not", "Don't")
    } else if i == 1 {
        ("do not", "don't")
    } else if i == 2 {
        ("Cannot", "Can't")
    } else if i == 3 {
        ("cannot", "can't")
    } else if i == 4 {
        ("Will not", "Won't")
    } else if i == 5 {
        ("will not", "won't")
    } else if i == 6 {
        ("It is", "It's")
    } else if i == 7 {
        ("it is", "it's")
    } else if i == 8 {
        ("You are", "You're")
    } else if i == 9 {
        ("you are", "you're")
    } else if i == 10 {
        ("We are", "We're")
    } else {
        ("we are", "we're")
    }
}

pub open spec fn contract_from(s: Seq<char>, i: int) -> Seq<char>
    decreases CONTRACTIONS - i,
{
    if i < 0 || i >= CONTRACTIONS {
        s
    } else {
        let (formal, casual) = contraction(i);
        contract_from(replace(s, formal, casual), i + 1)
    }
}

/// Grammar fixed, then formal phrases contracted.
pub open spec fn spec_rewrite_casually(s: Seq<char>) -> Seq<char> {
    contract_from(spec_fix_grammar(s), 0)
}

fn rewrite_casually(source: &[char]) -> (r: Vec<char>)
    ensures
        r@ == spec_rewrite_casually(source@),
{
    let mut text = fix_grammar(source);
    let mut i: usize = 0;
    while i < CONTRACTIONS
        invariant
            0 <= i <= CONTRACTIONS,
            contract_from(text@, i as int) == contract_from(spec_fix_grammar(source@), 0),
        decreases CONTRACTIONS - i,
    {
        let (formal, casual) = contraction_exec(i);
        text = replace_str(&text, formal, casual);
        i = i + 1;
    }
    text
}

/// Number of words.
pub open spec fn word_count(s: Seq<char>) -> nat {
    split_ws(s).len()
}

/// The first sentence, from the `i`-th on, of the fewest words among those
/// of at least four words.
pub open spec fn key_sentence(ss: Seq<Seq<char>>, i: int, best: Option<Seq<char>>) -> Option<
    Seq<char>,
>
    decreases ss.len() - i,
{
    if i < 0 || i >= ss.len() {
        best
    } else {
        let n = word_count(ss[i]);
        if n >= 4 && (best matches Some(b) ==> n < word_count(b)) {
            key_sentence(ss, i + 1, Some(ss[i]))
        } else {
            key_sentence(ss, i + 1, best)
        }
    }
}

/// The first sentence and the shortest later sentence of at least four
/// words, grammar fixed.
pub open spec fn spec_summarize(s: Seq<char>) -> Seq<char> {
    let ss = spec_split_sentences(s);
    if ss.len() == 0 {
        trim(s)
    } else {
        let first = trim(ss[0]);
        let summary = match key_sentence(ss, 1, None) {
            Some(k) => if trim(k) == first {
                first
            } else {
                trim_end_dots(first) + " "@ + trim(k)
            },
            None => first,
        };
        spec_fix_grammar(summary)
    }
}

fn summarize(source: &str) -> (r: Vec<char>)
    ensures
        r@ == spec_summarize(source@),
{
    let sentences = split_sentences(source);
    let ghost ss = crate::text::views(sentences@);
    if sentences.len() == 0 {
        return trimmed(source);
    }
    let first = trimmed(sentences[0].as_str());
    proof {
        assert(ss[0] == sentences@[0]@);
    }
    let mut best: Option<usize> = None;
    let mut best_count: usize = 0;
    let mut i: usize = 1;
    while i < sentences.len()
        invariant
            1 <= i <= sentences@.len(),
            ss == crate::text::views(sentences@),
            ss == spec_split_sentences(source@),
            first@ == trim(ss[0]),
            best matches Some(b) ==> b < i && best_count == word_count(ss[b as int]),
            key_sentence(
                ss,
                i as int,
                match best {
                    Some(b) => Some(ss[b as int]),
                    None => None,
                },
            ) == key_sentence(ss, 1, None),
        decreases sentences@.len() - i,
    {
        let words = split_ws_vec(&chars_of(sentences[i].as_str()));
        let n = words.len();
        proof {
            assert(ss[i as int] == sentences@[i as int]@);
        }
        let better = match best {
            Some(_) => n < best_count,
            None => true,
        };
        if n >= 4 && better {
            best = Some(i);
            best_count = n;
        }
        i = i + 1;
    }
    proof {
        let bv = match best {
            Some(b) => Some(ss[b as int]),
            None => None,
        };
        assert(key_sentence(ss, i as int, bv) == bv);
    }
    let summary = match best {
        Some(b) => {
            let k = trimmed(sentences[b].as_str());
            proof {
                assert(ss[b as int] == sentences@[b as int]@);
            }
            if eq_vec(&k, &first) {
                first
            } else {
                let mut s = trim_end_dots_vec(&first);
                s.push(' ');
                append(&mut s, &k);
                proof {
                    reveal_strlit(" ");
                }
                s
            }
        },
        None => first,
    };
    proof {
        let first_s = trim(ss[0]);
        let expected = match key_sentence(ss, 1, None) {
            Some(k) => if trim(k) == first_s {
                first_s
            } else {
                trim_end_dots(first_s) + " "@ + trim(k)
            },
            None => first_s,
        };
        assert(summary@ == expected);
    }
    fix_grammar(&summary)
}

// ───────────────────────── choosing the rewrite ─────────────────────────

/// The rewrite named by the instruction (trimmed, lower-cased): bullets or
/// lists, concise or shorter, casual or friendly, summaries, then grammar,
/// punctuation or fixes; anything else is refused with the list of local
/// commands.
pub open spec fn spec_transform_text(instruction: Seq<char>, source: Seq<char>) -> Result<
    Seq<char>,
    Seq<char>,
> {
    let n = lower(trim(instruction));
    if contains(n, "bullet"@) || contains(n, "list"@) {
        Ok(spec_bullet_points(source))
    } else if contains(n, "concise"@) || contains(n, "shorter"@) {
        Ok(spec_make_concise(source))
    } else if contains(n, "casual"@) || contains(n, "friendly"@) {
        Ok(spec_rewrite_casually(source))
    } else if contains(n, "summarize"@) || contains(n, "summary"@) {
        Ok(spec_summarize(source))
    } else if contains(n, "grammar"@) || contains(n, "punctuation"@) || contains(n, "fix"@) {
        Ok(spec_fix_grammar(source))
    } else {
        Err(
            "Unsupported command mode instruction: '"@ + trim(instruction)
                + "'. Supported local commands: fix grammar, turn this into bullet points, make this more concise, rewrite casually, summarize this paragraph."@,
        )
    }
}

pub fn transform_text(instruction: &str, source: &str) -> (r: Result<String, String>)
    ensures
        match r {
            Ok(out) => spec_transform_text(instruction@, source@) == Ok::<Seq<char>, Seq<char>>(out@),
            Err(e) => spec_transform_text(instruction@, source@) == Err::<Seq<char>, Seq<char>>(e@),
        },
{
    let t = trimmed(instruction);
    let n = lower_vec(&t);
    let src = chars_of(source);
    let out = if contains_str(&n, "bullet") || contains_str(&n, "list") {
        turn_into_bullet_points(&src)
    } else if contains_str(&n, "concise") || contains_str(&n, "shorter") {
        make_concise(&src)
    } else if contains_str(&n, "casual") || contains_str(&n, "friendly") {
        rewrite_casually(&src)
    } else if contains_str(&n, "summarize") || contains_str(&n, "summary") {
        summarize(source)
    } else if contains_str(&n, "grammar") || contains_str(&n, "punctuation") || contains_str(
        &n,
        "fix",
    ) {
        fix_grammar(&src)
    } else {
        let mut m = String::from_str("Unsupported command mode instruction: '");
        m.append(string_of(&t).as_str());
        m.append(
            "'. Supported local commands: fix grammar, turn this into bullet points, make this more concise, rewrite casually, summarize this paragraph.",
        );
        return Err(m);
    };
    Ok(string_of(&out))
}

/// What a voice instruction on source text comes to: the local transform's
/// result, a request to the chat model when no local rule matched and the
/// configuration lets the model handle commands, or the local refusal.
pub enum CommandPlan {
    Done(String),
    AskModel(crate::llm_polish::ChatPrompt),
    Fail(String),
}

/// Plans a voice command on `source` (the clipboard text).
pub fn command_mode_plan(
    instruction: &str,
    source: &str,
    config: Option<&crate::config::Config>,
) -> (r: CommandPlan)
    ensures
        match r {
            CommandPlan::Done(out) => spec_transform_text(instruction@, source@) == Ok::<
                Seq<char>,
                Seq<char>,
            >(out@),
            CommandPlan::Fail(e) => spec_transform_text(instruction@, source@) == Err::<
                Seq<char>,
                Seq<char>,
            >(e@) && !(config matches Some(c) && c.text_processing.command_mode.use_llm
                && crate::config::spec_resolve_polish_backend(
                c.polish_provider@,
                crate::config::has_trimmed_key(c.opencode_api_key),
                crate::config::has_key(c.mistral_api_key),
            ) is Some),
            CommandPlan::AskModel(p) => spec_transform_text(instruction@, source@) is Err && (
            config matches Some(c) && c.text_processing.command_mode.use_llm
                && crate::config::spec_resolve_polish_backend(
                c.polish_provider@,
                crate::config::has_trimmed_key(c.opencode_api_key),
                crate::config::has_key(c.mistral_api_key),
            ) is Some) && p.system@ == crate::llm_polish::TRANSFORM_SYSTEM@ && p.user@
                == "Instruction (from voice):\n"@ + trim(instruction@) + "\n\nSource text:\n"@
                + trim(source@),
        },
{
    match transform_text(instruction, source) {
        Ok(out) => CommandPlan::Done(out),
        Err(local_err) => match config {
            Some(c) => {
                if c.command_mode_uses_llm() {
                    CommandPlan::AskModel(crate::llm_polish::transform_prompt(instruction, source))
                } else {
                    CommandPlan::Fail(local_err)
                }
            },
            None => CommandPlan::Fail(local_err),
        },
    }
}

} // verus!
