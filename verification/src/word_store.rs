//! The user's vocabulary: preferred words, what they are misheard as, and
//! the words marked with a star.
use crate::text::{
    copy_strings, chars_of, eq_ignore_ascii_case, eq_str, eq_vec, lemma_lex_asymmetric, lemma_lex_irreflexive,
    lemma_lex_total, lemma_lex_transitive, lex_lt, lex_lt_vec, lower, lower_vec, string_of, trim,
    trimmed, vec_eq_ignore_ascii_case, views, wv,
};
use crate::text_processing::{first_after, sort_by_lower, sort_by_lower_vec};
use vstd::prelude::*;

verus! {

/// Longest word or phrase, in characters, kept in the vocabulary.
pub const MAX_WORD_LEN: usize = 60;

/// Number of characters in a word.
pub fn word_char_len(word: &str) -> (n: usize)
    ensures
        n == word@.len(),
{
    word.unicode_len()
}

// ───────────────────────── the heard-as map ─────────────────────────

/// Entries ordered by key, each key once.
pub open spec fn keys_sorted(s: Seq<(Seq<char>, Seq<char>)>) -> bool {
    forall|i: int, j: int| 0 <= i < j < s.len() ==> lex_lt(#[trigger] s[i].0, #[trigger] s[j].0)
}

/// Index of the entry with key `k`, from the `i`-th entry on.
pub open spec fn key_index(s: Seq<(Seq<char>, Seq<char>)>, k: Seq<char>, i: int) -> Option<int>
    decreases s.len() - i,
{
    if i < 0 || i >= s.len() {
        None
    } else if s[i].0 == k {
        Some(i)
    } else {
        key_index(s, k, i + 1)
    }
}

/// Where a new key goes: before the first larger key, from the `i`-th on.
pub open spec fn insert_position(s: Seq<(Seq<char>, Seq<char>)>, k: Seq<char>, i: int) -> int
    decreases s.len() - i,
{
    if i < 0 || i >= s.len() {
        s.len() as int
    } else if lex_lt(k, s[i].0) {
        i
    } else {
        insert_position(s, k, i + 1)
    }
}

/// The map with `k` mapped to `v`.
pub open spec fn map_insert(s: Seq<(Seq<char>, Seq<char>)>, k: Seq<char>, v: Seq<char>) -> Seq<
    (Seq<char>, Seq<char>),
> {
    match key_index(s, k, 0) {
        Some(i) => s.update(i, (k, v)),
        None => s.insert(insert_position(s, k, 0), (k, v)),
    }
}

/// The map without the key `k`.
pub open spec fn map_remove(s: Seq<(Seq<char>, Seq<char>)>, k: Seq<char>) -> Seq<
    (Seq<char>, Seq<char>),
> {
    match key_index(s, k, 0) {
        Some(i) => s.remove(i),
        None => s,
    }
}

/// The map without the entries whose value is `w`, ignoring ASCII case.
pub open spec fn without_value(s: Seq<(Seq<char>, Seq<char>)>, w: Seq<char>) -> Seq<
    (Seq<char>, Seq<char>),
>
    decreases s.len(),
{
    if s.len() == 0 {
        s
    } else {
        let rest = without_value(s.drop_last(), w);
        if eq_ignore_ascii_case(s.last().1, w) {
            rest
        } else {
            rest.push(s.last())
        }
    }
}

proof fn lemma_without_value_from(s: Seq<(Seq<char>, Seq<char>)>, w: Seq<char>, x: (Seq<char>, Seq<char>))
    requires
        without_value(s, w).contains(x),
    ensures
        s.contains(x),
    decreases s.len(),
{
    if s.len() > 0 {
        let rest = without_value(s.drop_last(), w);
        if rest.contains(x) {
            lemma_without_value_from(s.drop_last(), w, x);
            let i = choose|i: int| 0 <= i < s.drop_last().len() && s.drop_last()[i] == x;
            assert(s[i] == x);
        } else {
            assert(x == s.last());
            assert(s[s.len() - 1] == x);
        }
    }
}

proof fn lemma_without_value_sorted(s: Seq<(Seq<char>, Seq<char>)>, w: Seq<char>)
    requires
        keys_sorted(s),
    ensures
        keys_sorted(without_value(s, w)),
    decreases s.len(),
{
    if s.len() > 0 {
        let d = s.drop_last();
        assert(keys_sorted(d)) by {
            assert forall|i: int, j: int| 0 <= i < j < d.len() implies lex_lt(#[trigger] d[i].0, #[trigger] d[j].0) by {
                assert(d[i] == s[i] && d[j] == s[j]);
            }
        }
        lemma_without_value_sorted(d, w);
        let rest = without_value(d, w);
        if !eq_ignore_ascii_case(s.last().1, w) {
            let r = rest.push(s.last());
            assert forall|i: int, j: int| 0 <= i < j < r.len() implies lex_lt(#[trigger] r[i].0, #[trigger] r[j].0) by {
                if j == r.len() - 1 {
                    assert(rest.contains(r[i]));
                    lemma_without_value_from(d, w, r[i]);
                    let k = choose|k: int| 0 <= k < d.len() && d[k] == r[i];
                    assert(s[k] == d[k]);
                    assert(lex_lt(s[k].0, s[s.len() - 1].0));
                } else {
                    assert(r[i] == rest[i] && r[j] == rest[j]);
                }
            }
        }
    }
}

proof fn lemma_key_index(s: Seq<(Seq<char>, Seq<char>)>, k: Seq<char>, i: int)
    requires
        0 <= i <= s.len(),
    ensures
        match key_index(s, k, i) {
            Some(j) => i <= j < s.len() && s[j].0 == k,
            None => forall|j: int| i <= j < s.len() ==> s[j].0 != k,
        },
    decreases s.len() - i,
{
    if i < s.len() {
        lemma_key_index(s, k, i + 1);
    }
}

proof fn lemma_insert_position(s: Seq<(Seq<char>, Seq<char>)>, k: Seq<char>, i: int)
    requires
        0 <= i <= s.len(),
    ensures
        i <= insert_position(s, k, i) <= s.len(),
        forall|j: int| i <= j < insert_position(s, k, i) ==> !lex_lt(k, #[trigger] s[j].0),
        insert_position(s, k, i) < s.len() ==> lex_lt(k, s[insert_position(s, k, i)].0),
    decreases s.len() - i,
{
    if i < s.len() {
        lemma_insert_position(s, k, i + 1);
    }
}

proof fn lemma_map_insert_sorted(s: Seq<(Seq<char>, Seq<char>)>, k: Seq<char>, v: Seq<char>)
    requires
        keys_sorted(s),
    ensures
        keys_sorted(map_insert(s, k, v)),
{
    lemma_key_index(s, k, 0);
    match key_index(s, k, 0) {
        Some(i) => {
            let r = s.update(i, (k, v));
            assert forall|a: int, b: int| 0 <= a < b < r.len() implies lex_lt(#[trigger] r[a].0, #[trigger] r[b].0) by {
                assert(r[a].0 == s[a].0 && r[b].0 == s[b].0);
            }
        },
        None => {
            lemma_insert_position(s, k, 0);
            let p = insert_position(s, k, 0);
            let r = s.insert(p, (k, v));
            assert forall|a: int, b: int| 0 <= a < b < r.len() implies lex_lt(#[trigger] r[a].0, #[trigger] r[b].0) by {
                if b < p {
                    assert(r[a] == s[a] && r[b] == s[b]);
                } else if b == p {
                    assert(r[a] == s[a]);
                    assert(!lex_lt(k, s[a].0));
                    assert(s[a].0 != k);
                    lemma_lex_total(s[a].0, k);
                } else if a == p {
                    assert(r[b] == s[b - 1]);
                    if b - 1 == p {
                        assert(lex_lt(k, s[p].0));
                    } else {
                        assert(lex_lt(s[p].0, s[b - 1].0));
                        lemma_lex_transitive(k, s[p].0, s[b - 1].0);
                    }
                } else if a < p {
                    assert(r[a] == s[a] && r[b] == s[b - 1]);
                } else {
                    assert(r[a] == s[a - 1] && r[b] == s[b - 1]);
                }
            }
        },
    }
}

proof fn lemma_map_remove_sorted(s: Seq<(Seq<char>, Seq<char>)>, k: Seq<char>)
    requires
        keys_sorted(s),
    ensures
        keys_sorted(map_remove(s, k)),
{
    match key_index(s, k, 0) {
        Some(i) => {
            lemma_key_index(s, k, 0);
            let r = s.remove(i);
            assert forall|a: int, b: int| 0 <= a < b < r.len() implies lex_lt(#[trigger] r[a].0, #[trigger] r[b].0) by {
                if b < i {
                    assert(r[a] == s[a] && r[b] == s[b]);
                } else if a < i {
                    assert(r[a] == s[a] && r[b] == s[b + 1]);
                } else {
                    assert(r[a] == s[a + 1] && r[b] == s[b + 1]);
                }
            }
        },
        None => {},
    }
}

/// What Dictate hears, mapped to the word it should write; ordered by what
/// is heard, each heard form once.
pub struct WordMap {
    entries: Vec<(String, String)>,
}

pub open spec fn entry_views(v: Seq<(String, String)>) -> Seq<(Seq<char>, Seq<char>)> {
    v.map_values(|e: (String, String)| (e.0@, e.1@))
}

impl View for WordMap {
    type V = Seq<(Seq<char>, Seq<char>)>;

    closed spec fn view(&self) -> Seq<(Seq<char>, Seq<char>)> {
        entry_views(self.entries@)
    }
}

impl WordMap {
    #[verifier::type_invariant]
    closed spec fn sorted(self) -> bool {
        keys_sorted(entry_views(self.entries@))
    }

    pub fn new() -> (m: Self)
        ensures
            m@.len() == 0,
    {
        let m = WordMap { entries: Vec::new() };
        proof {
            assert(entry_views(m.entries@) =~= Seq::<(Seq<char>, Seq<char>)>::empty());
        }
        m
    }

    pub fn len(&self) -> (n: usize)
        ensures
            n == self@.len(),
    {
        self.entries.len()
    }

    /// What `key` is mapped to.
    pub fn get(&self, key: &str) -> (r: Option<&String>)
        ensures
            match r {
                Some(v) => key_index(self@, key@, 0) matches Some(i) && self@[i].1 == v@,
                None => key_index(self@, key@, 0) is None,
            },
    {
        let ghost s = self@;
        let mut i: usize = 0;
        while i < self.entries.len()
            invariant
                0 <= i <= self.entries@.len(),
                s == entry_views(self.entries@),
                key_index(s, key@, i as int) == key_index(s, key@, 0),
            decreases self.entries@.len() - i,
        {
            if eq_str(&chars_of(self.entries[i].0.as_str()), key) {
                return Some(&self.entries[i].1);
            }
            i = i + 1;
        }
        None
    }

    pub fn insert(&mut self, key: String, value: String)
        ensures
            final(self)@ == map_insert(old(self)@, key@, value@),
            keys_sorted(final(self)@),
    {
        proof {
            use_type_invariant(&*self);
        }
        let ghost s = self@;
        let k = chars_of(key.as_str());
        let mut i: usize = 0;
        while i < self.entries.len()
            invariant
                0 <= i <= self.entries@.len(),
                s == entry_views(self.entries@),
                s == old(self)@,
                keys_sorted(s),
                k@ == key@,
                key_index(s, key@, i as int) == key_index(s, key@, 0),
            decreases self.entries@.len() - i,
        {
            if eq_vec(&chars_of(self.entries[i].0.as_str()), &k) {
                let mut entries = Vec::new();
                std::mem::swap(&mut entries, &mut self.entries);
                entries.set(i, (key, value));
                proof {
                    lemma_map_insert_sorted(s, key@, value@);
                    assert(entry_views(entries@) =~= map_insert(s, key@, value@));
                }
                self.entries = entries;
                return;
            }
            i = i + 1;
        }
        let mut p: usize = 0;
        while p < self.entries.len() && !lex_lt_vec(&k, &chars_of(self.entries[p].0.as_str()))
            invariant
                0 <= p <= self.entries@.len(),
                s == entry_views(self.entries@),
                s == old(self)@,
                keys_sorted(s),
                k@ == key@,
                key_index(s, key@, 0) is None,
                insert_position(s, key@, p as int) == insert_position(s, key@, 0),
            decreases self.entries@.len() - p,
        {
            p = p + 1;
        }
        let mut entries = Vec::new();
        std::mem::swap(&mut entries, &mut self.entries);
        entries.insert(p, (key, value));
        proof {
            lemma_map_insert_sorted(s, key@, value@);
            assert(entry_views(entries@) =~= map_insert(s, key@, value@));
        }
        self.entries = entries;
    }

    pub fn remove(&mut self, key: &str)
        ensures
            final(self)@ == map_remove(old(self)@, key@),
            keys_sorted(final(self)@),
    {
        proof {
            use_type_invariant(&*self);
        }
        let ghost s = self@;
        let mut i: usize = 0;
        while i < self.entries.len()
            invariant
                0 <= i <= self.entries@.len(),
                s == entry_views(self.entries@),
                s == old(self)@,
                keys_sorted(s),
                key_index(s, key@, i as int) == key_index(s, key@, 0),
            decreases self.entries@.len() - i,
        {
            if eq_str(&chars_of(self.entries[i].0.as_str()), key) {
                let mut entries = Vec::new();
                std::mem::swap(&mut entries, &mut self.entries);
                entries.remove(i);
                proof {
                    lemma_map_remove_sorted(s, key@);
                    assert(entry_views(entries@) =~= map_remove(s, key@));
                }
                self.entries = entries;
                return;
            }
            i = i + 1;
        }
    }

    /// Drops every entry whose value is `word`, ignoring ASCII case.
    pub fn remove_value(&mut self, word: &[char])
        ensures
            final(self)@ == without_value(old(self)@, word@),
            keys_sorted(final(self)@),
    {
        proof {
            use_type_invariant(&*self);
        }
        let ghost s = self@;
        let mut kept: Vec<(String, String)> = Vec::new();
        let mut i: usize = 0;
        proof {
            assert(s.take(0) =~= Seq::<(Seq<char>, Seq<char>)>::empty());
            assert(entry_views(kept@) =~= Seq::<(Seq<char>, Seq<char>)>::empty());
        }
        while i < self.entries.len()
            invariant
                0 <= i <= self.entries@.len(),
                s == entry_views(self.entries@),
                entry_views(kept@) == without_value(s.take(i as int), word@),
            decreases self.entries@.len() - i,
        {
            proof {
                assert(s.take(i + 1).drop_last() =~= s.take(i as int));
            }
            let value = chars_of(self.entries[i].1.as_str());
            if !vec_eq_ignore_ascii_case(&value, word) {
                let ghost before = entry_views(kept@);
                kept.push(
                    (
                        String::from_str(self.entries[i].0.as_str()),
                        String::from_str(self.entries[i].1.as_str()),
                    ),
                );
                proof {
                    assert(entry_views(kept@) =~= before.push(s[i as int]));
                }
            }
            i = i + 1;
        }
        proof {
            assert(s.take(s.len() as int) =~= s);
            lemma_without_value_sorted(s, word@);
        }
        self.entries = kept;
    }

    /// A copy of the entries, in key order.
    pub fn entries(&self) -> (r: Vec<(String, String)>)
        ensures
            entry_views(r@) == self@,
    {
        let mut r: Vec<(String, String)> = Vec::new();
        let mut i: usize = 0;
        while i < self.entries.len()
            invariant
                0 <= i <= self.entries@.len(),
                r@.len() == i,
                forall|k: int|
                    0 <= k < i ==> (#[trigger] r@[k]).0@ == self.entries@[k].0@ && r@[k].1@
                        == self.entries@[k].1@,
            decreases self.entries@.len() - i,
        {
            r.push(
                (
                    String::from_str(self.entries[i].0.as_str()),
                    String::from_str(self.entries[i].1.as_str()),
                ),
            );
            i = i + 1;
        }
        proof {
            assert(entry_views(r@) =~= entry_views(self.entries@));
        }
        r
    }
}

impl Default for WordMap {
    fn default() -> (m: Self)
        ensures
            m@.len() == 0,
    {
        WordMap::new()
    }
}

// ───────────────────────── the word book ─────────────────────────

/// A word, ignoring ASCII case, is in the list.
pub open spec fn listed(ws: Seq<Seq<char>>, w: Seq<char>) -> bool {
    exists|i: int| 0 <= i < ws.len() && eq_ignore_ascii_case(#[trigger] ws[i], w)
}

/// The list without the words equal to `w`, ignoring ASCII case.
pub open spec fn unlisted(ws: Seq<Seq<char>>, w: Seq<char>) -> Seq<Seq<char>>
    decreases ws.len(),
{
    if ws.len() == 0 {
        ws
    } else {
        let rest = unlisted(ws.drop_last(), w);
        if eq_ignore_ascii_case(ws.last(), w) {
            rest
        } else {
            rest.push(ws.last())
        }
    }
}

/// The list with each word equal to `from` (ignoring ASCII case) written `to`.
pub open spec fn recased(ws: Seq<Seq<char>>, from: Seq<char>, to: Seq<char>) -> Seq<Seq<char>> {
    ws.map_values(
        |w: Seq<char>|
            if eq_ignore_ascii_case(w, from) {
                to
            } else {
                w
            },
    )
}

/// The vocabulary by value.
pub struct BookModel {
    pub preferred: Seq<Seq<char>>,
    pub dictionary: Seq<(Seq<char>, Seq<char>)>,
    pub starred: Seq<Seq<char>>,
}

/// A trimmed word, kept when it is not blank, not too long and not already
/// listed; the list stays sorted ignoring case.
pub open spec fn spec_add_word(ws: Seq<Seq<char>>, word: Seq<char>) -> Seq<Seq<char>> {
    let w = trim(word);
    if w.len() == 0 || w.len() > MAX_WORD_LEN || listed(ws, w) {
        ws
    } else {
        sort_by_lower(ws.push(w))
    }
}

pub open spec fn spec_add_preferred_word(b: BookModel, word: Seq<char>) -> BookModel {
    BookModel { preferred: spec_add_word(b.preferred, word), ..b }
}

/// The word, its misspelling and its star removed.
pub open spec fn spec_remove_preferred_word(b: BookModel, word: Seq<char>) -> BookModel {
    let w = trim(word);
    BookModel {
        preferred: unlisted(b.preferred, w),
        dictionary: without_value(b.dictionary, w),
        starred: unlisted(b.starred, w),
    }
}

/// The word's misspelling replaced (or removed, for none), and the word
/// added to the preferred words.
pub open spec fn spec_set_misspelling(b: BookModel, correct: Seq<char>, wrong: Option<Seq<char>>) -> BookModel {
    let c = trim(correct);
    if c.len() == 0 {
        b
    } else {
        let d = without_value(b.dictionary, c);
        let d = match wrong {
            Some(w) => if trim(w).len() > 0 && trim(w).len() <= MAX_WORD_LEN && c.len()
                <= MAX_WORD_LEN {
                map_insert(d, trim(w), c)
            } else {
                d
            },
            None => d,
        };
        spec_add_preferred_word(BookModel { dictionary: d, ..b }, c)
    }
}

proof fn lemma_without_value_none(s: Seq<(Seq<char>, Seq<char>)>, w: Seq<char>)
    ensures
        forall|i: int| 0 <= i < without_value(s, w).len() ==> !eq_ignore_ascii_case(
            #[trigger] without_value(s, w)[i].1,
            w,
        ),
    decreases s.len(),
{
    if s.len() > 0 {
        lemma_without_value_none(s.drop_last(), w);
        let rest = without_value(s.drop_last(), w);
        if !eq_ignore_ascii_case(s.last().1, w) {
            assert forall|i: int| 0 <= i < rest.push(s.last()).len() implies !eq_ignore_ascii_case(
                #[trigger] rest.push(s.last())[i].1,
                w,
            ) by {
                if i < rest.len() {
                    assert(rest.push(s.last())[i] == rest[i]);
                }
            }
        }
    }
}

/// A word has one misspelling: once one is set for it, the only dictionary
/// entry whose value is the word (ignoring ASCII case) maps that misspelling
/// to it.
pub proof fn lemma_one_misspelling_per_word(b: BookModel, correct: Seq<char>, wrong: Seq<char>)
    requires
        trim(correct).len() > 0,
        trim(correct).len() <= MAX_WORD_LEN,
        0 < trim(wrong).len() <= MAX_WORD_LEN,
    ensures
        spec_set_misspelling(b, correct, Some(wrong)).dictionary.contains((trim(wrong), trim(correct))),
        forall|i: int|
            0 <= i < spec_set_misspelling(b, correct, Some(wrong)).dictionary.len()
                && eq_ignore_ascii_case(
                #[trigger] spec_set_misspelling(b, correct, Some(wrong)).dictionary[i].1,
                trim(correct),
            ) ==> spec_set_misspelling(b, correct, Some(wrong)).dictionary[i] == (
                trim(wrong),
                trim(correct),
            ),
{
    let c = trim(correct);
    let k = trim(wrong);
    let d = without_value(b.dictionary, c);
    let e = (k, c);
    lemma_without_value_none(b.dictionary, c);
    lemma_key_index(d, k, 0);
    lemma_insert_position(d, k, 0);
    let r = map_insert(d, k, c);
    assert(spec_set_misspelling(b, correct, Some(wrong)).dictionary == r);
    match key_index(d, k, 0) {
        Some(j) => {
            assert(r[j] == e);
            assert forall|i: int| 0 <= i < r.len() && eq_ignore_ascii_case(#[trigger] r[i].1, c)
                implies r[i] == e by {
                if i != j {
                    assert(r[i] == d[i]);
                }
            }
        },
        None => {
            let p = insert_position(d, k, 0);
            assert(r[p] == e);
            assert forall|i: int| 0 <= i < r.len() && eq_ignore_ascii_case(#[trigger] r[i].1, c)
                implies r[i] == e by {
                if i < p {
                    assert(r[i] == d[i]);
                } else if i > p {
                    assert(r[i] == d[i - 1]);
                }
            }
        },
    }
}

pub open spec fn spec_remove_alias(b: BookModel, heard: Seq<char>) -> BookModel {
    BookModel { dictionary: map_remove(b.dictionary, trim(heard)), ..b }
}

/// The star added to the word, or taken off it.
pub open spec fn spec_toggle_star(b: BookModel, word: Seq<char>) -> BookModel {
    let w = trim(word);
    if w.len() == 0 {
        b
    } else if listed(b.starred, w) {
        BookModel { starred: unlisted(b.starred, w), ..b }
    } else {
        BookModel { starred: sort_by_lower(b.starred.push(w)), ..b }
    }
}

pub open spec fn spec_replace_word_casing(b: BookModel, from: Seq<char>, to: Seq<char>) -> BookModel {
    BookModel {
        preferred: recased(b.preferred, from, to),
        starred: recased(b.starred, from, to),
        ..b
    }
}

/// Saving an edited row: the previous word is dropped (or re-cased, or its
/// misspelling cleared), then the word and its misspelling are set.
pub open spec fn spec_upsert_row(
    b: BookModel,
    word: Seq<char>,
    misspelling: Option<Seq<char>>,
    previous: Option<Seq<char>>,
) -> BookModel {
    let w = trim(word);
    let b = match previous {
        Some(p) => if trim(p).len() > 0 {
            let p = trim(p);
            if !eq_ignore_ascii_case(p, w) {
                spec_remove_preferred_word(b, p)
            } else if p != w {
                spec_replace_word_casing(b, p, w)
            } else {
                spec_set_misspelling(b, p, None)
            }
        } else {
            b
        },
        None => b,
    };
    spec_set_misspelling(spec_add_preferred_word(b, w), w, misspelling)
}

/// Why a new word cannot be added, if it cannot.
pub open spec fn spec_validate_new_word(b: BookModel, word: Seq<char>, except: Option<Seq<char>>) -> Result<
    (),
    Seq<char>,
> {
    let w = trim(word);
    if w.len() == 0 {
        Err("Enter a word or phrase."@)
    } else if w.len() > MAX_WORD_LEN {
        Err("Use at most 60 characters."@)
    } else if exists|i: int|
        0 <= i < b.preferred.len() && eq_ignore_ascii_case(#[trigger] b.preferred[i], w)
            && (except matches Some(e) ==> !eq_ignore_ascii_case(b.preferred[i], e)) {
        Err("That word is already in your dictionary."@)
    } else {
        Ok(())
    }
}

/// One row of the vocabulary as shown: the word, what it is misheard as,
/// and its star.
pub struct DictionaryRow {
    pub word: String,
    /// What Dictate often hears instead of `word`.
    pub misspelling: Option<String>,
    pub starred: bool,
}

pub struct RowModel {
    pub word: Seq<char>,
    pub misspelling: Option<Seq<char>>,
    pub starred: bool,
}

pub open spec fn row_model(r: DictionaryRow) -> RowModel {
    RowModel {
        word: r.word@,
        misspelling: match r.misspelling {
            Some(m) => Some(m@),
            None => None,
        },
        starred: r.starred,
    }
}

/// The first heard form, in key order, that is written as `word`.
pub open spec fn misspelling_for(d: Seq<(Seq<char>, Seq<char>)>, word: Seq<char>, i: int) -> Option<
    Seq<char>,
>
    decreases d.len() - i,
{
    if i < 0 || i >= d.len() {
        None
    } else if eq_ignore_ascii_case(d[i].1, word) {
        Some(d[i].0)
    } else {
        misspelling_for(d, word, i + 1)
    }
}

/// Starred rows first, then by the word ignoring case.
pub open spec fn row_before(a: RowModel, b: RowModel) -> bool {
    (a.starred && !b.starred) || (a.starred == b.starred && lex_lt(lower(a.word), lower(b.word)))
}

pub open spec fn row_position(s: Seq<RowModel>, x: RowModel, k: int) -> int
    decreases s.len() - k,
{
    if k < 0 || k >= s.len() {
        s.len() as int
    } else if row_before(x, s[k]) {
        k
    } else {
        row_position(s, x, k + 1)
    }
}

/// A stable sort of the rows.
pub open spec fn sort_rows(s: Seq<RowModel>) -> Seq<RowModel>
    decreases s.len(),
{
    if s.len() == 0 {
        s
    } else {
        let t = sort_rows(s.drop_last());
        t.insert(row_position(t, s.last(), 0), s.last())
    }
}

pub open spec fn spec_rows(b: BookModel) -> Seq<RowModel> {
    sort_rows(
        b.preferred.map_values(
            |w: Seq<char>|
                RowModel {
                    word: w,
                    misspelling: misspelling_for(b.dictionary, w, 0),
                    starred: listed(b.starred, w),
                },
        ),
    )
}

/// Preferred words, what they are misheard as, and starred words.
pub struct WordBook {
    pub preferred_words: Vec<String>,
    pub dictionary: WordMap,
    pub starred_words: Vec<String>,
}

pub open spec fn book_model(b: WordBook) -> BookModel {
    BookModel {
        preferred: views(b.preferred_words@),
        dictionary: b.dictionary@,
        starred: views(b.starred_words@),
    }
}

impl Default for WordBook {
    fn default() -> (b: Self)
        ensures
            b.preferred_words@.len() == 0,
            b.dictionary@.len() == 0,
            b.starred_words@.len() == 0,
    {
        WordBook { preferred_words: Vec::new(), dictionary: WordMap::new(), starred_words: Vec::new() }
    }
}

fn strings_of(v: &Vec<Vec<char>>) -> (r: Vec<String>)
    ensures
        views(r@) == wv(v@),
{
    let mut r: Vec<String> = Vec::new();
    let mut i: usize = 0;
    while i < v.len()
        invariant
            0 <= i <= v@.len(),
            r@.len() == i,
            forall|k: int| 0 <= k < i ==> (#[trigger] r@[k])@ == v@[k]@,
        decreases v@.len() - i,
    {
        r.push(string_of(&v[i]));
        i = i + 1;
    }
    proof {
        assert(views(r@) =~= wv(v@));
    }
    r
}

fn chars_of_all(v: &Vec<String>) -> (r: Vec<Vec<char>>)
    ensures
        wv(r@) == views(v@),
{
    let mut r: Vec<Vec<char>> = Vec::new();
    let mut i: usize = 0;
    while i < v.len()
        invariant
            0 <= i <= v@.len(),
            r@.len() == i,
            forall|k: int| 0 <= k < i ==> (#[trigger] r@[k])@ == v@[k]@,
        decreases v@.len() - i,
    {
        r.push(chars_of(v[i].as_str()));
        i = i + 1;
    }
    proof {
        assert(wv(r@) =~= views(v@));
    }
    r
}

fn is_listed(ws: &Vec<String>, w: &[char]) -> (b: bool)
    ensures
        b == listed(views(ws@), w@),
{
    let mut i: usize = 0;
    while i < ws.len()
        invariant
            0 <= i <= ws@.len(),
            forall|k: int| 0 <= k < i ==> !eq_ignore_ascii_case(#[trigger] views(ws@)[k], w@),
        decreases ws@.len() - i,
    {
        if vec_eq_ignore_ascii_case(&chars_of(ws[i].as_str()), w) {
            proof {
                assert(views(ws@)[i as int] == ws@[i as int]@);
            }
            return true;
        }
        i = i + 1;
    }
    false
}

fn unlisted_vec(ws: &Vec<String>, w: &[char]) -> (r: Vec<String>)
    ensures
        views(r@) == unlisted(views(ws@), w@),
{
    let ghost s = views(ws@);
    let mut r: Vec<String> = Vec::new();
    let mut i: usize = 0;
    proof {
        assert(s.take(0) =~= Seq::<Seq<char>>::empty());
        assert(views(r@) =~= Seq::<Seq<char>>::empty());
    }
    while i < ws.len()
        invariant
            0 <= i <= ws@.len(),
            s == views(ws@),
            views(r@) == unlisted(s.take(i as int), w@),
        decreases ws@.len() - i,
    {
        proof {
            assert(s.take(i + 1).drop_last() =~= s.take(i as int));
            assert(s.take(i + 1).last() == ws@[i as int]@);
        }
        if !vec_eq_ignore_ascii_case(&chars_of(ws[i].as_str()), w) {
            let ghost before = views(r@);
            r.push(String::from_str(ws[i].as_str()));
            proof {
                assert(views(r@) =~= before.push(ws@[i as int]@));
            }
        }
        i = i + 1;
    }
    proof {
        assert(s.take(ws@.len() as int) =~= s);
    }
    r
}

fn recased_vec(ws: &Vec<String>, from: &[char], to: &[char]) -> (r: Vec<String>)
    ensures
        views(r@) == recased(views(ws@), from@, to@),
{
    let mut r: Vec<String> = Vec::new();
    let mut i: usize = 0;
    while i < ws.len()
        invariant
            0 <= i <= ws@.len(),
            r@.len() == i,
            forall|k: int|
                0 <= k < i ==> (#[trigger] r@[k])@ == (if eq_ignore_ascii_case(ws@[k]@, from@) {
                    to@
                } else {
                    ws@[k]@
                }),
        decreases ws@.len() - i,
    {
        if vec_eq_ignore_ascii_case(&chars_of(ws[i].as_str()), from) {
            r.push(string_of(to));
        } else {
            r.push(String::from_str(ws[i].as_str()));
        }
        i = i + 1;
    }
    proof {
        assert(views(r@) =~= recased(views(ws@), from@, to@));
    }
    r
}

/// The list with `w` added, sorted ignoring case.
fn add_sorted(ws: &Vec<String>, w: &[char]) -> (r: Vec<String>)
    ensures
        views(r@) == sort_by_lower(views(ws@).push(w@)),
{
    let mut all = chars_of_all(ws);
    let ghost before = wv(all@);
    all.push(crate::text::copy_chars(w));
    proof {
        assert(wv(all@) =~= before.push(w@));
    }
    let sorted = sort_by_lower_vec(&all);
    strings_of(&sorted)
}

fn misspelling_of(entries: &Vec<(String, String)>, word: &[char]) -> (r: Option<String>)
    ensures
        match r {
            Some(m) => misspelling_for(entry_views(entries@), word@, 0) == Some(m@),
            None => misspelling_for(entry_views(entries@), word@, 0) is None,
        },
{
    let ghost d = entry_views(entries@);
    let mut k: usize = 0;
    while k < entries.len()
        invariant
            0 <= k <= entries@.len(),
            d == entry_views(entries@),
            misspelling_for(d, word@, k as int) == misspelling_for(d, word@, 0),
        decreases entries@.len() - k,
    {
        if vec_eq_ignore_ascii_case(&chars_of(entries[k].1.as_str()), word) {
            return Some(String::from_str(entries[k].0.as_str()));
        }
        k = k + 1;
    }
    None
}

fn goes_before(key: &[char], starred: bool, other: &DictionaryRow) -> (b: bool)
    ensures
        b == ((starred && !other.starred) || (starred == other.starred && lex_lt(
            key@,
            lower(other.word@),
        ))),
{
    let ol = lower_vec(&chars_of(other.word.as_str()));
    (starred && !other.starred) || (starred == other.starred && lex_lt_vec(key, &ol))
}

impl WordBook {
    pub fn add_preferred_word(&mut self, word: &str)
        ensures
            book_model(*final(self)) == spec_add_preferred_word(book_model(*old(self)), word@),
    {
        let w = trimmed(word);
        if w.len() == 0 || w.len() > MAX_WORD_LEN {
            return;
        }
        if !is_listed(&self.preferred_words, &w) {
            self.preferred_words = add_sorted(&self.preferred_words, &w);
        }
    }

    pub fn remove_preferred_word(&mut self, word: &str)
        ensures
            book_model(*final(self)) == spec_remove_preferred_word(book_model(*old(self)), word@),
    {
        let needle = trimmed(word);
        self.preferred_words = unlisted_vec(&self.preferred_words, &needle);
        self.starred_words = unlisted_vec(&self.starred_words, &needle);
        self.dictionary.remove_value(&needle);
    }

    pub fn set_misspelling(&mut self, correct: &str, wrong: Option<&str>)
        ensures
            book_model(*final(self)) == spec_set_misspelling(
                book_model(*old(self)),
                correct@,
                match wrong {
                    Some(w) => Some(w@),
                    None => None,
                },
            ),
    {
        let c = trimmed(correct);
        if c.len() == 0 {
            return;
        }
        self.dictionary.remove_value(&c);
        match wrong {
            Some(w) => {
                let wt = trimmed(w);
                if wt.len() > 0 && wt.len() <= MAX_WORD_LEN && c.len() <= MAX_WORD_LEN {
                    self.dictionary.insert(string_of(&wt), string_of(&c));
                }
            },
            None => {},
        }
        let cs = string_of(&c);
        proof {
            assert(cs@ == trim(correct@));
        }
        self.add_preferred_word(cs.as_str());
    }

    pub fn add_alias(&mut self, heard: &str, preferred: &str)
        ensures
            book_model(*final(self)) == spec_set_misspelling(
                book_model(*old(self)),
                preferred@,
                Some(heard@),
            ),
    {
        self.set_misspelling(preferred, Some(heard));
    }

    pub fn remove_alias(&mut self, heard: &str)
        ensures
            book_model(*final(self)) == spec_remove_alias(book_model(*old(self)), heard@),
    {
        let h = trimmed(heard);
        self.dictionary.remove(string_of(&h).as_str());
    }

    pub fn toggle_star(&mut self, word: &str)
        ensures
            book_model(*final(self)) == spec_toggle_star(book_model(*old(self)), word@),
    {
        let w = trimmed(word);
        if w.len() == 0 {
            return;
        }
        if is_listed(&self.starred_words, &w) {
            self.starred_words = unlisted_vec(&self.starred_words, &w);
        } else {
            self.starred_words = add_sorted(&self.starred_words, &w);
        }
    }

    fn replace_word_casing(&mut self, from: &[char], to: &[char])
        ensures
            book_model(*final(self)) == spec_replace_word_casing(book_model(*old(self)), from@, to@),
    {
        self.preferred_words = recased_vec(&self.preferred_words, from, to);
        self.starred_words = recased_vec(&self.starred_words, from, to);
    }

    pub fn upsert_row(&mut self, word: &str, misspelling: Option<&str>, previous_word: Option<&str>)
        ensures
            book_model(*final(self)) == spec_upsert_row(
                book_model(*old(self)),
                word@,
                match misspelling {
                    Some(m) => Some(m@),
                    None => None,
                },
                match previous_word {
                    Some(p) => Some(p@),
                    None => None,
                },
            ),
    {
        let w = trimmed(word);
        let ws = string_of(&w);
        match previous_word {
            Some(p) => {
                let pt = trimmed(p);
                if pt.len() > 0 {
                    let ps = string_of(&pt);
                    if !vec_eq_ignore_ascii_case(&pt, &w) {
                        self.remove_preferred_word(ps.as_str());
                        proof {
                            crate::text::lemma_trim_idempotent(p@);
                        }
                    } else if !eq_vec(&pt, &w) {
                        self.replace_word_casing(&pt, &w);
                    } else {
                        self.set_misspelling(ps.as_str(), None);
                        proof {
                            crate::text::lemma_trim_idempotent(p@);
                        }
                    }
                }
            },
            None => {},
        }
        self.add_preferred_word(ws.as_str());
        proof {
            crate::text::lemma_trim_idempotent(word@);
        }
        self.set_misspelling(ws.as_str(), misspelling);
    }

    /// Why a new word cannot be added, if it cannot.
    pub fn validate_new_word(&self, word: &str, except_word: Option<&str>) -> (r: Result<(), String>)
        ensures
            match r {
                Ok(()) => spec_validate_new_word(
                    book_model(*self),
                    word@,
                    match except_word {
                        Some(e) => Some(e@),
                        None => None,
                    },
                ) == Ok::<(), Seq<char>>(()),
                Err(m) => spec_validate_new_word(
                    book_model(*self),
                    word@,
                    match except_word {
                        Some(e) => Some(e@),
                        None => None,
                    },
                ) == Err::<(), Seq<char>>(m@),
            },
    {
        let w = trimmed(word);
        if w.len() == 0 {
            return Err(String::from_str("Enter a word or phrase."));
        }
        if w.len() > MAX_WORD_LEN {
            return Err(String::from_str("Use at most 60 characters."));
        }
        let ghost ex = match except_word {
            Some(e) => Some(e@),
            None => None,
        };
        let ghost pv = views(self.preferred_words@);
        let mut i: usize = 0;
        while i < self.preferred_words.len()
            invariant
                0 <= i <= self.preferred_words@.len(),
                pv == views(self.preferred_words@),
                pv == book_model(*self).preferred,
                w@ == trim(word@),
                w@.len() > 0,
                w@.len() <= MAX_WORD_LEN,
                ex == (match except_word {
                    Some(e) => Some(e@),
                    None => None,
                }),
                forall|k: int|
                    0 <= k < i ==> !(eq_ignore_ascii_case(#[trigger] pv[k], w@) && (ex matches Some(
                        e,
                    ) ==> !eq_ignore_ascii_case(pv[k], e))),
            decreases self.preferred_words@.len() - i,
        {
            let existing = chars_of(self.preferred_words[i].as_str());
            proof {
                assert(pv[i as int] == existing@);
            }
            if vec_eq_ignore_ascii_case(&existing, &w) {
                let excepted = match except_word {
                    Some(e) => vec_eq_ignore_ascii_case(&existing, &chars_of(e)),
                    None => false,
                };
                if !excepted {
                    proof {
                        assert(eq_ignore_ascii_case(pv[i as int], w@) && (ex matches Some(e)
                            ==> !eq_ignore_ascii_case(pv[i as int], e)));
                    }
                    return Err(String::from_str("That word is already in your dictionary."));
                }
            }
            i = i + 1;
        }
        Ok(())
    }

    /// The rows shown for the vocabulary: starred words first, then by the
    /// word ignoring case.
    pub fn rows(&self) -> (r: Vec<DictionaryRow>)
        ensures
            r@.map_values(|x: DictionaryRow| row_model(x)) == spec_rows(book_model(*self)),
    {
        let entries = self.dictionary.entries();
        let ghost d = self.dictionary@;
        let ghost b = book_model(*self);
        let ghost unsorted = b.preferred.map_values(
            |w: Seq<char>|
                RowModel {
                    word: w,
                    misspelling: misspelling_for(b.dictionary, w, 0),
                    starred: listed(b.starred, w),
                },
        );
        let mut out: Vec<DictionaryRow> = Vec::new();
        let mut j: usize = 0;
        proof {
            assert(unsorted.take(0) =~= Seq::<RowModel>::empty());
            assert(out@.map_values(|x: DictionaryRow| row_model(x)) =~= Seq::<RowModel>::empty());
        }
        while j < self.preferred_words.len()
            invariant
                0 <= j <= self.preferred_words@.len(),
                entry_views(entries@) == d,
                d == self.dictionary@,
                b == book_model(*self),
                unsorted.len() == self.preferred_words@.len(),
                unsorted == b.preferred.map_values(
                    |w: Seq<char>|
                        RowModel {
                            word: w,
                            misspelling: misspelling_for(b.dictionary, w, 0),
                            starred: listed(b.starred, w),
                        },
                ),
                out@.map_values(|x: DictionaryRow| row_model(x)) == sort_rows(
                    unsorted.take(j as int),
                ),
            decreases self.preferred_words@.len() - j,
        {
            let word = chars_of(self.preferred_words[j].as_str());
            proof {
                assert(b.preferred[j as int] == word@);
            }
            let miss = misspelling_of(&entries, &word);
            let starred = is_listed(&self.starred_words, &word);
            let row = DictionaryRow { word: string_of(&word), misspelling: miss, starred };
            proof {
                assert(row_model(row) == unsorted[j as int]);
                assert(unsorted.take(j + 1).drop_last() =~= unsorted.take(j as int));
            }
            let ghost s = out@.map_values(|x: DictionaryRow| row_model(x));
            let key = lower_vec(&word);
            let mut p: usize = 0;
            while p < out.len() && !goes_before(&key, starred, &out[p])
                invariant
                    0 <= p <= out@.len(),
                    s == out@.map_values(|x: DictionaryRow| row_model(x)),
                    key@ == lower(word@),
                    row_model(row).word == word@,
                    row_model(row).starred == starred,
                    row_position(s, row_model(row), p as int) == row_position(s, row_model(row), 0),
                decreases out@.len() - p,
            {
                proof {
                    assert(s[p as int] == row_model(out@[p as int]));
                }
                p = p + 1;
            }
            out.insert(p, row);
            proof {
                assert(out@.map_values(|x: DictionaryRow| row_model(x)) =~= s.insert(
                    p as int,
                    unsorted[j as int],
                ));
            }
            j = j + 1;
        }
        proof {
            assert(unsorted.take(self.preferred_words@.len() as int) =~= unsorted);
        }
        out
    }
}

// ───────────────────────── reading the word book ─────────────────────────

/// The parts of a `text.toml` file that hold the word book: for
/// `preferred_words` and `starred_words`, each item's string when it is one
/// (`None` for the list when the key holds no array); for `dictionary`, each
/// entry's key and its string value, in the order of the parsed table.
pub struct WordLists {
    pub preferred: Option<Vec<Option<String>>>,
    pub starred: Option<Vec<Option<String>>>,
    pub dictionary: Option<Vec<(String, Option<String>)>>,
}

pub open spec fn opt_str(o: Option<String>) -> Option<Seq<char>> {
    match o {
        Some(s) => Some(s@),
        None => None,
    }
}

pub open spec fn items_view(v: Option<Vec<Option<String>>>) -> Option<Seq<Option<Seq<char>>>> {
    match v {
        Some(items) => Some(items@.map_values(|o: Option<String>| opt_str(o))),
        None => None,
    }
}

pub open spec fn entries_view(v: Option<Vec<(String, Option<String>)>>) -> Option<
    Seq<(Seq<char>, Option<Seq<char>>)>,
> {
    match v {
        Some(items) => Some(items@.map_values(|e: (String, Option<String>)| (e.0@, opt_str(e.1)))),
        None => None,
    }
}

pub open spec fn word_lists_view(l: WordLists) -> (
    Option<Seq<Option<Seq<char>>>>,
    Option<Seq<Option<Seq<char>>>>,
    Option<Seq<(Seq<char>, Option<Seq<char>>)>>,
) {
    (items_view(l.preferred), items_view(l.starred), entries_view(l.dictionary))
}

/// What the `toml` crate reads from a text under a top-level key holding an
/// array: each item's string, or `None` for an item that is not a string;
/// `None` when the key is missing or holds no array; the parse error message
/// when the text is not TOML.
pub uninterp spec fn toml_string_list(text: Seq<char>, key: Seq<char>) -> Result<
    Option<Seq<Option<Seq<char>>>>,
    Seq<char>,
>;

/// What the `toml` crate reads from a text under a top-level key holding a
/// table: each entry's key with its string value, or `None` for a value that
/// is not a string; `None` when the key is missing or holds no table; the
/// parse error message when the text is not TOML.
pub uninterp spec fn toml_string_table(text: Seq<char>, key: Seq<char>) -> Result<
    Option<Seq<(Seq<char>, Option<Seq<char>>)>>,
    Seq<char>,
>;

pub open spec fn list_result_view(r: Result<Option<Vec<Option<String>>>, String>) -> Result<
    Option<Seq<Option<Seq<char>>>>,
    Seq<char>,
> {
    match r {
        Ok(l) => Ok(items_view(l)),
        Err(e) => Err(e@),
    }
}

pub open spec fn table_result_view(r: Result<Option<Vec<(String, Option<String>)>>, String>) -> Result<
    Option<Seq<(Seq<char>, Option<Seq<char>>)>>,
    Seq<char>,
> {
    match r {
        Ok(l) => Ok(entries_view(l)),
        Err(e) => Err(e@),
    }
}

/// `toml::from_str::<toml::Value>` on the text, then `Value::get` with the
/// key, `Value::as_array` and `Value::as_str` on each item. The contract
/// names the result and says no more of it.
#[verifier::external_body]
fn read_string_list(text: &str, key: &str) -> (r: Result<Option<Vec<Option<String>>>, String>)
    ensures
        list_result_view(r) == toml_string_list(text@, key@),
{
    let v: toml::Value = match toml::from_str(text) {
        Ok(v) => v,
        Err(e) => return Err(e.to_string()),
    };
    Ok(v.get(key).and_then(toml::Value::as_array)
        .map(|a| a.iter().map(|x| x.as_str().map(String::from)).collect()))
}

/// `toml::from_str::<toml::Value>` on the text, then `Value::get` with the
/// key, `Value::as_table` and `Value::as_str` on each value, entries in the
/// table's own order. The contract names the result and says no more of it.
#[verifier::external_body]
fn read_string_table(text: &str, key: &str) -> (r: Result<Option<Vec<(String, Option<String>)>>, String>)
    ensures
        table_result_view(r) == toml_string_table(text@, key@),
{
    let v: toml::Value = match toml::from_str(text) {
        Ok(v) => v,
        Err(e) => return Err(e.to_string()),
    };
    Ok(v.get(key).and_then(toml::Value::as_table)
        .map(|t| t.iter().map(|(k, x)| (k.clone(), x.as_str().map(String::from))).collect()))
}

/// The three parts of a word file: the `preferred_words` and
/// `starred_words` arrays and the `dictionary` table, or the first parse
/// error.
pub open spec fn spec_word_lists(text: Seq<char>) -> Result<
    (
        Option<Seq<Option<Seq<char>>>>,
        Option<Seq<Option<Seq<char>>>>,
        Option<Seq<(Seq<char>, Option<Seq<char>>)>>,
    ),
    Seq<char>,
> {
    match toml_string_list(text, "preferred_words"@) {
        Err(e) => Err(e),
        Ok(p) => match toml_string_list(text, "starred_words"@) {
            Err(e) => Err(e),
            Ok(st) => match toml_string_table(text, "dictionary"@) {
                Err(e) => Err(e),
                Ok(d) => Ok((p, st, d)),
            },
        },
    }
}

pub open spec fn lists_result_view(r: Result<WordLists, String>) -> Result<
    (
        Option<Seq<Option<Seq<char>>>>,
        Option<Seq<Option<Seq<char>>>>,
        Option<Seq<(Seq<char>, Option<Seq<char>>)>>,
    ),
    Seq<char>,
> {
    match r {
        Ok(l) => Ok(word_lists_view(l)),
        Err(e) => Err(e@),
    }
}

/// Reads the three parts of a word file from its text.
pub fn word_lists_from_toml(text: &str) -> (r: Result<WordLists, String>)
    ensures
        lists_result_view(r) == spec_word_lists(text@),
{
    let preferred = match read_string_list(text, "preferred_words") {
        Ok(p) => p,
        Err(e) => {
            return Err(e);
        },
    };
    let starred = match read_string_list(text, "starred_words") {
        Ok(p) => p,
        Err(e) => {
            return Err(e);
        },
    };
    let dictionary = match read_string_table(text, "dictionary") {
        Ok(p) => p,
        Err(e) => {
            return Err(e);
        },
    };
    Ok(WordLists { preferred, starred, dictionary })
}

/// The preferred words added one after another, skipping non-strings.
pub open spec fn add_all_preferred(b: BookModel, items: Seq<Option<Seq<char>>>) -> BookModel
    decreases items.len(),
{
    if items.len() == 0 {
        b
    } else {
        let before = add_all_preferred(b, items.drop_last());
        match items.last() {
            Some(w) => spec_add_preferred_word(before, w),
            None => before,
        }
    }
}

/// Starred words: trimmed, without blanks and repeats (ignoring ASCII case).
pub open spec fn collect_starred(items: Seq<Option<Seq<char>>>) -> Seq<Seq<char>>
    decreases items.len(),
{
    if items.len() == 0 {
        Seq::<Seq<char>>::empty()
    } else {
        let before = collect_starred(items.drop_last());
        match items.last() {
            Some(w) => if trim(w).len() == 0 || listed(before, trim(w)) {
                before
            } else {
                before.push(trim(w))
            },
            None => before,
        }
    }
}

/// The dictionary entries added as aliases, skipping non-string values.
pub open spec fn add_all_aliases(b: BookModel, entries: Seq<(Seq<char>, Option<Seq<char>>)>) -> BookModel
    decreases entries.len(),
{
    if entries.len() == 0 {
        b
    } else {
        let before = add_all_aliases(b, entries.drop_last());
        match entries.last().1 {
            Some(preferred) => spec_set_misspelling(before, preferred, Some(entries.last().0)),
            None => before,
        }
    }
}

pub open spec fn empty_book() -> BookModel {
    BookModel {
        preferred: Seq::<Seq<char>>::empty(),
        dictionary: Seq::<(Seq<char>, Seq<char>)>::empty(),
        starred: Seq::<Seq<char>>::empty(),
    }
}

/// The word book a parsed file describes.
pub open spec fn spec_book_from_lists(
    l: (
        Option<Seq<Option<Seq<char>>>>,
        Option<Seq<Option<Seq<char>>>>,
        Option<Seq<(Seq<char>, Option<Seq<char>>)>>,
    ),
) -> BookModel {
    let b1 = match l.0 {
        Some(items) => add_all_preferred(empty_book(), items),
        None => empty_book(),
    };
    let b2 = match l.1 {
        Some(items) => BookModel { starred: sort_by_lower(collect_starred(items)), ..b1 },
        None => b1,
    };
    match l.2 {
        Some(entries) => add_all_aliases(b2, entries),
        None => b2,
    }
}

pub open spec fn spec_word_book_from_toml(text: Seq<char>) -> Result<BookModel, Seq<char>> {
    if trim(text).len() == 0 {
        Ok(empty_book())
    } else {
        match spec_word_lists(text) {
            Ok(l) => Ok(spec_book_from_lists(l)),
            Err(e) => Err(e),
        }
    }
}

pub open spec fn book_result_view(r: Result<WordBook, String>) -> Result<BookModel, Seq<char>> {
    match r {
        Ok(b) => Ok(book_model(b)),
        Err(e) => Err(e@),
    }
}

fn is_listed_vec(ws: &Vec<Vec<char>>, w: &[char]) -> (b: bool)
    ensures
        b == listed(wv(ws@), w@),
{
    let mut i: usize = 0;
    while i < ws.len()
        invariant
            0 <= i <= ws@.len(),
            forall|k: int| 0 <= k < i ==> !eq_ignore_ascii_case(#[trigger] wv(ws@)[k], w@),
        decreases ws@.len() - i,
    {
        if vec_eq_ignore_ascii_case(&ws[i], w) {
            proof {
                assert(eq_ignore_ascii_case(wv(ws@)[i as int], w@));
            }
            return true;
        }
        i = i + 1;
    }
    false
}

/// The word book saved in a `text.toml` file's text; an empty text is an
/// empty book. Other sections of the file are left to their own readers.
pub fn word_book_from_toml(contents: &str) -> (r: Result<WordBook, String>)
    ensures
        book_result_view(r) == spec_word_book_from_toml(contents@),
{
    if trimmed(contents).len() == 0 {
        let book = WordBook::default();
        proof {
            assert(views(book.preferred_words@) =~= Seq::<Seq<char>>::empty());
            assert(views(book.starred_words@) =~= Seq::<Seq<char>>::empty());
            assert(book.dictionary@ =~= Seq::<(Seq<char>, Seq<char>)>::empty());
        }
        return Ok(book);
    }
    match word_lists_from_toml(contents) {
        Ok(lists) => Ok(book_from_lists(&lists)),
        Err(e) => Err(e),
    }
}

/// The word book that the parts of a word file describe: the preferred
/// words added in order, the starred words trimmed, deduplicated and
/// sorted, and the dictionary entries added as aliases.
pub fn book_from_lists(lists: &WordLists) -> (book: WordBook)
    ensures
        book_model(book) == spec_book_from_lists(word_lists_view(*lists)),
{
    let mut book = WordBook::default();
    proof {
        assert(views(book.preferred_words@) =~= Seq::<Seq<char>>::empty());
        assert(views(book.starred_words@) =~= Seq::<Seq<char>>::empty());
        assert(book.dictionary@ =~= Seq::<(Seq<char>, Seq<char>)>::empty());
        assert(book_model(book) == empty_book());
    }
    let ghost lv = word_lists_view(*lists);
    match &lists.preferred {
        Some(items) => {
            let ghost iv = items@.map_values(|o: Option<String>| opt_str(o));
            let mut i: usize = 0;
            while i < items.len()
                invariant
                    0 <= i <= items@.len(),
                    iv == items@.map_values(|o: Option<String>| opt_str(o)),
                    book_model(book) == add_all_preferred(empty_book(), iv.take(i as int)),
                decreases items@.len() - i,
            {
                proof {
                    assert(iv.take(i + 1).drop_last() =~= iv.take(i as int));
                    assert(iv.take(i + 1).last() == opt_str(items@[i as int]));
                }
                match &items[i] {
                    Some(w) => {
                        book.add_preferred_word(w.as_str());
                    },
                    None => {},
                }
                i = i + 1;
            }
            proof {
                assert(iv.take(items@.len() as int) =~= iv);
            }
        },
        None => {},
    }
    let ghost b1 = book_model(book);
    match &lists.starred {
        Some(items) => {
            let ghost iv = items@.map_values(|o: Option<String>| opt_str(o));
            let mut starred: Vec<Vec<char>> = Vec::new();
            let mut i: usize = 0;
            while i < items.len()
                invariant
                    0 <= i <= items@.len(),
                    iv == items@.map_values(|o: Option<String>| opt_str(o)),
                    wv(starred@) == collect_starred(iv.take(i as int)),
                decreases items@.len() - i,
            {
                proof {
                    assert(iv.take(i + 1).drop_last() =~= iv.take(i as int));
                    assert(iv.take(i + 1).last() == opt_str(items@[i as int]));
                }
                match &items[i] {
                    Some(w) => {
                        let t = trimmed(w.as_str());
                        if t.len() > 0 && !is_listed_vec(&starred, &t) {
                            let ghost before = wv(starred@);
                            starred.push(t);
                            proof {
                                assert(wv(starred@) =~= before.push(t@));
                            }
                        }
                    },
                    None => {},
                }
                i = i + 1;
            }
            proof {
                assert(iv.take(items@.len() as int) =~= iv);
            }
            let sorted = sort_by_lower_vec(&starred);
            book.starred_words = strings_of(&sorted);
        },
        None => {},
    }
    proof {
        assert(book_model(book) == match lv.1 {
            Some(items) => BookModel { starred: sort_by_lower(collect_starred(items)), ..b1 },
            None => b1,
        });
    }
    let ghost b2 = book_model(book);
    match &lists.dictionary {
        Some(entries) => {
            let ghost ev = entries@.map_values(|e: (String, Option<String>)| (e.0@, opt_str(e.1)));
            let mut i: usize = 0;
            while i < entries.len()
                invariant
                    0 <= i <= entries@.len(),
                    ev == entries@.map_values(|e: (String, Option<String>)| (e.0@, opt_str(e.1))),
                    book_model(book) == add_all_aliases(b2, ev.take(i as int)),
                decreases entries@.len() - i,
            {
                proof {
                    assert(ev.take(i + 1).drop_last() =~= ev.take(i as int));
                    assert(ev.take(i + 1).last() == (entries@[i as int].0@, opt_str(entries@[i as int].1)));
                }
                let (heard, preferred) = &entries[i];
                match preferred {
                    Some(p) => {
                        book.add_alias(heard.as_str(), p.as_str());
                    },
                    None => {},
                }
                i = i + 1;
            }
            proof {
                assert(ev.take(entries@.len() as int) =~= ev);
            }
        },
        None => {},
    }
    book
}

// ───────────────────────── saving the word book ─────────────────────────

/// One change to a TOML document's top-level table: a key set to an array
/// of strings, a key set to a table of strings, or a key removed.
pub enum TomlEdit {
    Strings(String, Vec<String>),
    StringTable(String, Vec<(String, String)>),
    Remove(String),
}

pub enum TomlEditModel {
    Strings(Seq<char>, Seq<Seq<char>>),
    StringTable(Seq<char>, Seq<(Seq<char>, Seq<char>)>),
    Remove(Seq<char>),
}

pub open spec fn toml_edit_model(e: TomlEdit) -> TomlEditModel {
    match e {
        TomlEdit::Strings(k, ws) => TomlEditModel::Strings(k@, views(ws@)),
        TomlEdit::StringTable(k, es) => TomlEditModel::StringTable(k@, entry_views(es@)),
        TomlEdit::Remove(k) => TomlEditModel::Remove(k@),
    }
}

pub open spec fn toml_edit_models(v: Seq<TomlEdit>) -> Seq<TomlEditModel> {
    v.map_values(|e: TomlEdit| toml_edit_model(e))
}

/// Why a TOML document could not be edited.
pub enum TomlEditError {
    /// The text is not TOML; the parser's message.
    Parse(String),
    /// The document is not a table.
    NotATable,
    /// The edited document could not be written; the writer's message.
    Print(String),
}

pub enum TomlEditErrorModel {
    Parse(Seq<char>),
    NotATable,
    Print(Seq<char>),
}

pub open spec fn toml_edit_result_view(r: Result<String, TomlEditError>) -> Result<Seq<char>, TomlEditErrorModel> {
    match r {
        Ok(t) => Ok(t@),
        Err(TomlEditError::Parse(m)) => Err(TomlEditErrorModel::Parse(m@)),
        Err(TomlEditError::NotATable) => Err(TomlEditErrorModel::NotATable),
        Err(TomlEditError::Print(m)) => Err(TomlEditErrorModel::Print(m@)),
    }
}

/// What the `toml` crate gives for a text with the edits applied in order
/// to its top-level table, written out pretty, or why it could not.
pub uninterp spec fn toml_edited(text: Seq<char>, edits: Seq<TomlEditModel>) -> Result<
    Seq<char>,
    TomlEditErrorModel,
>;

/// `toml::from_str::<toml::Value>` on the text, then for each edit in
/// order `Map::insert` (the strings converted with `Value::from`, as an
/// array or, through a `BTreeMap`, a table) or `Map::remove` on its
/// top-level table, then `toml::to_string_pretty`. The contract names the result and says no more
/// of it.
#[verifier::external_body]
fn edit_toml(text: &str, edits: &Vec<TomlEdit>) -> (r: Result<String, TomlEditError>)
    ensures
        toml_edit_result_view(r) == toml_edited(text@, toml_edit_models(edits@)),
{
    let mut root: toml::Value = match toml::from_str(text) {
        Ok(v) => v,
        Err(e) => return Err(TomlEditError::Parse(e.to_string())),
    };
    let Some(table) = root.as_table_mut() else { return Err(TomlEditError::NotATable) };
    for edit in edits {
        let _ = match edit {
            TomlEdit::Strings(k, ws) => table.insert(k.clone(), ws.clone().into()),
            TomlEdit::StringTable(k, es) => table.insert(k.clone(), es.iter().cloned().collect::<std::collections::BTreeMap<String, String>>().into()),
            TomlEdit::Remove(k) => table.remove(k),
        };
    }
    toml::to_string_pretty(&root).map_err(|e| TomlEditError::Print(e.to_string()))
}

/// How the word book is written into its file: the preferred words and
/// the dictionary replace what was there, the starred words too unless
/// there are none, in which case their key is removed.
pub open spec fn spec_word_book_edits(b: BookModel) -> Seq<TomlEditModel> {
    seq![TomlEditModel::Strings("preferred_words"@, b.preferred)] + (if b.starred.len() == 0 {
        seq![TomlEditModel::Remove("starred_words"@)]
    } else {
        seq![TomlEditModel::Strings("starred_words"@, b.starred)]
    }) + seq![TomlEditModel::StringTable("dictionary"@, b.dictionary)]
}

/// The text of the word file after saving: the existing text (blank text
/// reads as an empty document) with the book's edits, every other key kept
/// as the edits leave it; a document that is not a table is refused with a
/// message naming the file.
pub open spec fn spec_word_book_toml(existing: Seq<char>, b: BookModel, file_label: Seq<char>) -> Result<
    Seq<char>,
    Seq<char>,
> {
    let base = if trim(existing).len() == 0 {
        Seq::<char>::empty()
    } else {
        existing
    };
    match toml_edited(base, spec_word_book_edits(b)) {
        Ok(t) => Ok(t),
        Err(TomlEditErrorModel::Parse(m)) => Err(m),
        Err(TomlEditErrorModel::NotATable) => Err(file_label + " must contain a TOML table"@),
        Err(TomlEditErrorModel::Print(m)) => Err(m),
    }
}

/// The text to write back to the word file `file_label`, given its
/// current text; see `spec_word_book_toml`.
pub fn word_book_toml(existing: &str, book: &WordBook, file_label: &str) -> (r: Result<String, String>)
    ensures
        match r {
            Ok(t) => spec_word_book_toml(existing@, book_model(*book), file_label@) == Ok::<Seq<char>, Seq<char>>(t@),
            Err(e) => spec_word_book_toml(existing@, book_model(*book), file_label@) == Err::<Seq<char>, Seq<char>>(e@),
        },
{
    let mut edits: Vec<TomlEdit> = Vec::new();
    edits.push(TomlEdit::Strings(String::from_str("preferred_words"), copy_strings(&book.preferred_words)));
    if book.starred_words.len() == 0 {
        edits.push(TomlEdit::Remove(String::from_str("starred_words")));
    } else {
        edits.push(TomlEdit::Strings(String::from_str("starred_words"), copy_strings(&book.starred_words)));
    }
    edits.push(TomlEdit::StringTable(String::from_str("dictionary"), book.dictionary.entries()));
    proof {
        assert(toml_edit_models(edits@) =~= spec_word_book_edits(book_model(*book)));
    }
    let base = if trimmed(existing).len() == 0 {
        ""
    } else {
        existing
    };
    proof {
        reveal_strlit("");
        assert(base@ == (if trim(existing@).len() == 0 {
            Seq::<char>::empty()
        } else {
            existing@
        }));
    }
    match edit_toml(base, &edits) {
        Ok(t) => Ok(t),
        Err(TomlEditError::Parse(m)) => Err(m),
        Err(TomlEditError::NotATable) => {
            let mut m = String::from_str(file_label);
            m.append(" must contain a TOML table");
            Err(m)
        },
        Err(TomlEditError::Print(m)) => Err(m),
    }
}

/// Adding words from the command line: each valid word is added, each
/// invalid one gives its message. The answer says whether the book changed.
pub open spec fn spec_add_words(b: BookModel, words: Seq<Seq<char>>) -> (BookModel, bool, Seq<Seq<char>>)
    decreases words.len(),
{
    if words.len() == 0 {
        (b, false, Seq::<Seq<char>>::empty())
    } else {
        let (before, changed, messages) = spec_add_words(b, words.drop_last());
        match spec_validate_new_word(before, words.last(), None) {
            Ok(_) => (spec_add_preferred_word(before, words.last()), true, messages),
            Err(m) => (before, changed, messages.push(m)),
        }
    }
}

/// Adds the given words to the book; see `spec_add_words`.
pub fn add_words(book: &mut WordBook, words: &[String]) -> (r: (bool, Vec<String>))
    ensures
        ({
            let (b, changed, messages) = spec_add_words(book_model(*old(book)), views(words@));
            book_model(*final(book)) == b && r.0 == changed && views(r.1@) == messages
        }),
{
    let ghost ws = views(words@);
    let ghost start = book_model(*book);
    let mut changed = false;
    let mut messages: Vec<String> = Vec::new();
    let mut i: usize = 0;
    while i < words.len()
        invariant
            0 <= i <= words@.len(),
            ws == views(words@),
            spec_add_words(start, ws.take(i as int)) == (book_model(*book), changed, views(messages@)),
        decreases words@.len() - i,
    {
        proof {
            assert(ws.take(i + 1).drop_last() =~= ws.take(i as int));
            assert(ws.take(i + 1).last() == words@[i as int]@);
        }
        match book.validate_new_word(words[i].as_str(), None) {
            Ok(()) => {
                book.add_preferred_word(words[i].as_str());
                changed = true;
            },
            Err(m) => {
                let ghost before = views(messages@);
                messages.push(m);
                proof {
                    assert(views(messages@) =~= before.push(m@));
                }
            },
        }
        i = i + 1;
    }
    proof {
        assert(ws.take(words@.len() as int) =~= ws);
    }
    (changed, messages)
}

/// A row is shown for a search when the query (trimmed, ignoring case)
/// is empty or occurs in the word or in its misspelling.
pub open spec fn spec_row_matches(r: RowModel, query: Seq<char>) -> bool {
    let q = lower(trim(query));
    q.len() == 0 || crate::text::contains(lower(r.word), q) || (r.misspelling matches Some(m)
        && crate::text::contains(lower(m), q))
}

pub fn row_matches_filter(row: &DictionaryRow, query: &str) -> (b: bool)
    ensures
        b == spec_row_matches(row_model(*row), query@),
{
    let q = lower_vec(&trimmed(query));
    if q.len() == 0 {
        return true;
    }
    if crate::text::contains_vec(&lower_vec(&chars_of(row.word.as_str())), &q) {
        return true;
    }
    match &row.misspelling {
        Some(m) => crate::text::contains_vec(&lower_vec(&chars_of(m.as_str())), &q),
        None => false,
    }
}


// ───────────────────────── order and uniqueness of the word lists ─────────────────────────

/// Sorted by lower-case form (equal forms in any order).
pub open spec fn sorted_lower(ws: Seq<Seq<char>>) -> bool {
    forall|i: int, j: int| 0 <= i < j < ws.len() ==> !lex_lt(lower(#[trigger] ws[j]), lower(#[trigger] ws[i]))
}

/// No two entries equal ignoring ASCII case.
pub open spec fn distinct_ci(ws: Seq<Seq<char>>) -> bool {
    forall|i: int, j: int| 0 <= i < j < ws.len() ==> !eq_ignore_ascii_case(#[trigger] ws[i], #[trigger] ws[j])
}

proof fn lemma_eq_ci_symmetric(a: Seq<char>, b: Seq<char>)
    requires
        eq_ignore_ascii_case(a, b),
    ensures
        eq_ignore_ascii_case(b, a),
{
    assert forall|i: int| 0 <= i < b.len() implies #[trigger] crate::text::ascii_lower(b[i])
        == crate::text::ascii_lower(a[i]) by {
        assert(crate::text::ascii_lower(a[i]) == crate::text::ascii_lower(b[i]));
    }
}

proof fn lemma_eq_ci_reflexive(a: Seq<char>)
    ensures
        eq_ignore_ascii_case(a, a),
{
}

proof fn lemma_first_after(t: Seq<Seq<char>>, key: Seq<char>, k0: int)
    requires
        sorted_lower(t),
        0 <= k0 <= t.len(),
    ensures
        k0 <= first_after(t, key, k0) <= t.len(),
        forall|k: int| k0 <= k < first_after(t, key, k0) ==> !lex_lt(key, lower(#[trigger] t[k])),
        forall|k: int| first_after(t, key, k0) <= k < t.len() ==> lex_lt(key, lower(#[trigger] t[k])),
    decreases t.len() - k0,
{
    if k0 < t.len() {
        if lex_lt(key, lower(t[k0])) {
            assert forall|k: int| k0 <= k < t.len() implies lex_lt(key, lower(#[trigger] t[k])) by {
                if k > k0 {
                    assert(!lex_lt(lower(t[k]), lower(t[k0])));
                    if lower(t[k]) != lower(t[k0]) {
                        lemma_lex_total(lower(t[k]), lower(t[k0]));
                        lemma_lex_transitive(key, lower(t[k0]), lower(t[k]));
                    }
                }
            }
        } else {
            lemma_first_after(t, key, k0 + 1);
        }
    }
}

proof fn lemma_insert_sorted(t: Seq<Seq<char>>, x: Seq<char>)
    requires
        sorted_lower(t),
    ensures
        sorted_lower(t.insert(first_after(t, lower(x), 0), x)),
{
    let p = first_after(t, lower(x), 0);
    lemma_first_after(t, lower(x), 0);
    let u = t.insert(p, x);
    assert forall|i: int, j: int| 0 <= i < j < u.len() implies !lex_lt(lower(#[trigger] u[j]), lower(#[trigger] u[i])) by {
        if i == p {
            if j - 1 < t.len() {
                assert(u[j] == t[j - 1]);
                lemma_lex_asymmetric(lower(x), lower(t[j - 1]));
            }
        } else if j == p {
            assert(u[i] == t[i]);
        } else {
            let ti = if i < p { i } else { i - 1 };
            let tj = if j < p { j } else { j - 1 };
            assert(u[i] == t[ti] && u[j] == t[tj]);
        }
    }
}

proof fn lemma_insert_contains(t: Seq<Seq<char>>, p: int, x: Seq<char>, y: Seq<char>)
    requires
        0 <= p <= t.len(),
    ensures
        t.insert(p, x).contains(y) <==> (t.contains(y) || y == x),
{
    let u = t.insert(p, x);
    if u.contains(y) {
        let k = choose|k: int| 0 <= k < u.len() && u[k] == y;
        if k < p {
            assert(t[k] == y);
        } else if k > p {
            assert(t[k - 1] == y);
        }
    }
    if t.contains(y) {
        let k = choose|k: int| 0 <= k < t.len() && t[k] == y;
        if k < p {
            assert(u[k] == y);
        } else {
            assert(u[k + 1] == y);
        }
    }
    if y == x {
        assert(u[p] == y);
    }
}

proof fn lemma_insert_distinct(t: Seq<Seq<char>>, p: int, x: Seq<char>)
    requires
        0 <= p <= t.len(),
        distinct_ci(t),
        forall|k: int| 0 <= k < t.len() ==> !eq_ignore_ascii_case(#[trigger] t[k], x),
    ensures
        distinct_ci(t.insert(p, x)),
{
    let u = t.insert(p, x);
    assert forall|i: int, j: int| 0 <= i < j < u.len() implies !eq_ignore_ascii_case(
        #[trigger] u[i],
        #[trigger] u[j],
    ) by {
        if i == p {
            assert(u[j] == t[j - 1]);
            if eq_ignore_ascii_case(u[i], u[j]) {
                lemma_eq_ci_symmetric(u[i], u[j]);
            }
        } else if j == p {
            assert(u[i] == t[i]);
        } else {
            let ti = if i < p { i } else { i - 1 };
            let tj = if j < p { j } else { j - 1 };
            assert(u[i] == t[ti] && u[j] == t[tj]);
        }
    }
}

/// Sorting by lower-case form keeps the same words and orders them.
#[verifier::spinoff_prover]
pub proof fn lemma_sort_by_lower(s: Seq<Seq<char>>)
    ensures
        sorted_lower(sort_by_lower(s)),
        sort_by_lower(s).len() == s.len(),
        forall|y: Seq<char>| #[trigger] sort_by_lower(s).contains(y) <==> s.contains(y),
        distinct_ci(s) ==> distinct_ci(sort_by_lower(s)),
    decreases s.len(),
{
    if s.len() > 0 {
        let d = s.drop_last();
        let x = s.last();
        let t = sort_by_lower(d);
        lemma_sort_by_lower(d);
        let p = first_after(t, lower(x), 0);
        lemma_first_after(t, lower(x), 0);
        lemma_insert_sorted(t, x);
        assert forall|y: Seq<char>| #[trigger] sort_by_lower(s).contains(y) <==> s.contains(y) by {
            lemma_insert_contains(t, p, x, y);
            assert(s =~= d.push(x));
            if d.contains(y) {
                let k = choose|k: int| 0 <= k < d.len() && d[k] == y;
                assert(s[k] == y);
            }
            if s.contains(y) && y != x {
                let k = choose|k: int| 0 <= k < s.len() && s[k] == y;
                assert(d[k] == y);
            }
            if y == x {
                assert(s[s.len() - 1] == y);
            }
        }
        if distinct_ci(s) {
            assert forall|i: int, j: int| 0 <= i < j < d.len() implies !eq_ignore_ascii_case(
                #[trigger] d[i],
                #[trigger] d[j],
            ) by {
                assert(d[i] == s[i] && d[j] == s[j]);
            }
            assert forall|k: int| 0 <= k < t.len() implies !eq_ignore_ascii_case(#[trigger] t[k], x) by {
                assert(t.contains(t[k]));
                assert(d.contains(t[k]));
                let m = choose|m: int| 0 <= m < d.len() && d[m] == t[k];
                assert(s[m] == t[k]);
                assert(!eq_ignore_ascii_case(s[m], s[s.len() - 1]));
            }
            lemma_insert_distinct(t, p, x);
        }
    }
}

/// Adding a word keeps the list sorted by lower-case form and free of
/// entries equal ignoring ASCII case; every old entry stays; the word is
/// listed afterwards exactly when it was before or it is a valid new word;
/// adding it again changes nothing.
#[verifier::spinoff_prover]
pub proof fn lemma_add_word_keeps_order(ws: Seq<Seq<char>>, word: Seq<char>)
    requires
        sorted_lower(ws),
        distinct_ci(ws),
    ensures
        sorted_lower(spec_add_word(ws, word)),
        distinct_ci(spec_add_word(ws, word)),
        forall|y: Seq<char>| ws.contains(y) ==> #[trigger] spec_add_word(ws, word).contains(y),
        listed(spec_add_word(ws, word), trim(word)) <==> (listed(ws, trim(word)) || (1
            <= trim(word).len() <= MAX_WORD_LEN)),
        spec_add_word(spec_add_word(ws, word), word) == spec_add_word(ws, word),
{
    let w = trim(word);
    let r = spec_add_word(ws, word);
    if !(w.len() == 0 || w.len() > MAX_WORD_LEN || listed(ws, w)) {
        let s = ws.push(w);
        assert forall|i: int, j: int| 0 <= i < j < s.len() implies !eq_ignore_ascii_case(
            #[trigger] s[i],
            #[trigger] s[j],
        ) by {
            if j == ws.len() {
                assert(s[i] == ws[i]);
                if eq_ignore_ascii_case(s[i], s[j]) {
                    assert(eq_ignore_ascii_case(ws[i], w));
                }
            } else {
                assert(s[i] == ws[i] && s[j] == ws[j]);
            }
        }
        lemma_sort_by_lower(s);
        assert forall|y: Seq<char>| ws.contains(y) implies #[trigger] r.contains(y) by {
            let k = choose|k: int| 0 <= k < ws.len() && ws[k] == y;
            assert(s[k] == y);
            assert(s.contains(y));
        }
        assert(s[ws.len() as int] == w);
        assert(s.contains(w));
        assert(r.contains(w));
        let k = choose|k: int| 0 <= k < r.len() && r[k] == w;
        lemma_eq_ci_reflexive(w);
        assert(eq_ignore_ascii_case(r[k], w));
        assert(listed(r, w));
    }
}


/// Strictly sorted by lower-case form: no two entries share it.
pub open spec fn strictly_sorted_lower(ws: Seq<Seq<char>>) -> bool {
    forall|i: int, j: int| 0 <= i < j < ws.len() ==> lex_lt(lower(#[trigger] ws[i]), lower(#[trigger] ws[j]))
}

proof fn lemma_sort_sorted_is_identity(s: Seq<Seq<char>>)
    requires
        sorted_lower(s),
    ensures
        sort_by_lower(s) == s,
    decreases s.len(),
{
    if s.len() > 0 {
        let d = s.drop_last();
        assert(sorted_lower(d)) by {
            assert forall|i: int, j: int| 0 <= i < j < d.len() implies !lex_lt(lower(#[trigger] d[j]), lower(#[trigger] d[i])) by {
                assert(d[i] == s[i] && d[j] == s[j]);
            }
        }
        lemma_sort_sorted_is_identity(d);
        lemma_first_after(d, lower(s.last()), 0);
        let p = first_after(d, lower(s.last()), 0);
        if p < d.len() {
            assert(d[p] == s[p]);
            assert(!lex_lt(lower(s[s.len() - 1]), lower(s[p])));
        }
        assert(d.insert(d.len() as int, s.last()) =~= s);
    }
}

proof fn lemma_unlisted_none(ws: Seq<Seq<char>>, w: Seq<char>)
    requires
        !listed(ws, w),
    ensures
        unlisted(ws, w) == ws,
    decreases ws.len(),
{
    if ws.len() > 0 {
        let d = ws.drop_last();
        assert(!listed(d, w)) by {
            if listed(d, w) {
                let k = choose|k: int| 0 <= k < d.len() && eq_ignore_ascii_case(#[trigger] d[k], w);
                assert(ws[k] == d[k]);
            }
        }
        lemma_unlisted_none(d, w);
        assert(!eq_ignore_ascii_case(ws[ws.len() - 1], w));
        assert(d.push(ws.last()) =~= ws);
    }
}

proof fn lemma_unlisted_insert(t: Seq<Seq<char>>, p: int, x: Seq<char>, w: Seq<char>)
    requires
        0 <= p <= t.len(),
        eq_ignore_ascii_case(x, w),
    ensures
        unlisted(t.insert(p, x), w) == unlisted(t, w),
    decreases t.len(),
{
    let u = t.insert(p, x);
    if p == t.len() {
        assert(u.drop_last() =~= t);
    } else {
        assert(u.drop_last() =~= t.drop_last().insert(p, x));
        assert(u.last() == t.last());
        lemma_unlisted_insert(t.drop_last(), p, x, w);
    }
}

proof fn lemma_unlisted_one(ws: Seq<Seq<char>>, w: Seq<char>, q: int)
    requires
        0 <= q < ws.len(),
        eq_ignore_ascii_case(ws[q], w),
        forall|k: int| 0 <= k < ws.len() && k != q ==> !eq_ignore_ascii_case(#[trigger] ws[k], w),
    ensures
        unlisted(ws, w) == ws.remove(q),
    decreases ws.len(),
{
    let d = ws.drop_last();
    if q == ws.len() - 1 {
        assert(!listed(d, w)) by {
            if listed(d, w) {
                let k = choose|k: int| 0 <= k < d.len() && eq_ignore_ascii_case(#[trigger] d[k], w);
                assert(ws[k] == d[k]);
            }
        }
        lemma_unlisted_none(d, w);
        assert(ws.remove(q) =~= d);
    } else {
        assert forall|k: int| 0 <= k < d.len() && k != q implies !eq_ignore_ascii_case(#[trigger] d[k], w) by {
            assert(ws[k] == d[k]);
        }
        assert(d[q] == ws[q]);
        lemma_unlisted_one(d, w, q);
        assert(!eq_ignore_ascii_case(ws[ws.len() - 1], w));
        assert(d.remove(q).push(ws.last()) =~= ws.remove(q));
    }
}

/// Starring a word twice gives back the starred list as it was, when that
/// list is sorted with no two entries sharing a lower-case form and the
/// word is either not starred or starred as written; after the first call
/// the word is starred exactly when it was not. The other lists never
/// change.
#[verifier::spinoff_prover]
pub proof fn lemma_toggle_star_round_trip(b: BookModel, word: Seq<char>)
    requires
        trim(word).len() > 0,
        strictly_sorted_lower(b.starred),
        distinct_ci(b.starred),
        !listed(b.starred, trim(word)) || b.starred.contains(trim(word)),
    ensures
        listed(spec_toggle_star(b, word).starred, trim(word)) == !listed(b.starred, trim(word)),
        spec_toggle_star(spec_toggle_star(b, word), word) == b,
{
    let t = trim(word);
    let old = b.starred;
    lemma_eq_ci_reflexive(t);
    assert(sorted_lower(old)) by {
        assert forall|i: int, j: int| 0 <= i < j < old.len() implies !lex_lt(lower(#[trigger] old[j]), lower(#[trigger] old[i])) by {
            lemma_lex_asymmetric(lower(old[i]), lower(old[j]));
        }
    }
    if !listed(old, t) {
        lemma_sort_sorted_is_identity(old);
        let p = first_after(old, lower(t), 0);
        lemma_first_after(old, lower(t), 0);
        assert(old.push(t).drop_last() =~= old);
        let s1 = old.insert(p, t);
        assert(sort_by_lower(old.push(t)) == s1);
        assert(s1[p] == t);
        assert(listed(s1, t));
        lemma_unlisted_insert(old, p, t, t);
        lemma_unlisted_none(old, t);
        assert(spec_toggle_star(spec_toggle_star(b, word), word).starred == old);
    } else {
        let q = choose|q: int| 0 <= q < old.len() && old[q] == t;
        assert forall|k: int| 0 <= k < old.len() && k != q implies !eq_ignore_ascii_case(#[trigger] old[k], t) by {
            if k < q {
                assert(!eq_ignore_ascii_case(old[k], old[q]));
            } else {
                assert(!eq_ignore_ascii_case(old[q], old[k]));
                if eq_ignore_ascii_case(old[k], t) {
                    lemma_eq_ci_symmetric(old[k], t);
                }
            }
        }
        lemma_unlisted_one(old, t, q);
        let u = old.remove(q);
        assert(!listed(u, t)) by {
            if listed(u, t) {
                let k = choose|k: int| 0 <= k < u.len() && eq_ignore_ascii_case(#[trigger] u[k], t);
                let m = if k < q { k } else { k + 1 };
                assert(u[k] == old[m]);
            }
        }
        assert(sorted_lower(u)) by {
            assert forall|i: int, j: int| 0 <= i < j < u.len() implies !lex_lt(lower(#[trigger] u[j]), lower(#[trigger] u[i])) by {
                let mi = if i < q { i } else { i + 1 };
                let mj = if j < q { j } else { j + 1 };
                assert(u[i] == old[mi] && u[j] == old[mj]);
            }
        }
        lemma_sort_sorted_is_identity(u);
        lemma_first_after(u, lower(t), 0);
        let p = first_after(u, lower(t), 0);
        if p < q {
            assert(u[p] == old[p]);
            lemma_lex_asymmetric(lower(old[p]), lower(old[q]));
        }
        if p > q {
            assert(u[q] == old[q + 1]);
        }
        assert(p == q);
        assert(u.push(t).drop_last() =~= u);
        assert(u.insert(q, t) =~= old);
    }
}

} // verus!
