//! Regular-expression search through the `regex` crate, and splicing
//! replacements into the searched text.
use crate::text::{
    append, char_at_byte, char_index_at_byte, is_boundary,
    lemma_blen_mono, lemma_boundary_unique, slice_vec, string_of,
};
use vstd::prelude::*;

verus! {

/// What the `regex` crate finds: `None` when `pattern` does not compile (with
/// case-insensitive matching when asked for), else, for each successive match
/// in `haystack`, the byte span of every capture group (group 0 is the whole
/// match; `None` for a group that took no part in it).
pub uninterp spec fn regex_captures(
    pattern: Seq<char>,
    case_insensitive: bool,
    haystack: Seq<char>,
) -> Option<Seq<Seq<Option<(usize, usize)>>>>;

/// A byte span that starts no later than it ends, both on character boundaries.
pub open spec fn span_ok(s: Seq<char>, sp: (usize, usize)) -> bool {
    &&& sp.0 <= sp.1
    &&& exists|k: int| #[trigger] is_boundary(s, sp.0 as nat, k)
    &&& exists|k: int| #[trigger] is_boundary(s, sp.1 as nat, k)
}

/// The span of the whole match.
pub open spec fn whole(m: Seq<Option<(usize, usize)>>) -> (usize, usize) {
    m[0]->0
}

/// Every match has its whole-match group, every span is well placed, and the
/// matches come in order without overlapping.
pub open spec fn captures_ok(s: Seq<char>, ms: Seq<Seq<Option<(usize, usize)>>>) -> bool {
    &&& forall|i: int| 0 <= i < ms.len() ==> (#[trigger] ms[i]).len() > 0 && ms[i][0] is Some
    &&& forall|i: int, g: int|
        0 <= i < ms.len() && 0 <= g < ms[i].len() && (#[trigger] ms[i][g]) is Some ==> span_ok(
            s,
            ms[i][g]->0,
        )
    &&& forall|i: int, j: int|
        0 <= i < j < ms.len() ==> whole(#[trigger] ms[i]).1 <= whole(#[trigger] ms[j]).0
}

pub open spec fn caps_view(v: Seq<Vec<Option<(usize, usize)>>>) -> Seq<Seq<Option<(usize, usize)>>> {
    v.map_values(|m: Vec<Option<(usize, usize)>>| m@)
}

/// `regex::RegexBuilder::new(pattern).case_insensitive(..).build()`, then
/// `Regex::captures_iter(haystack)`, each group taken by `Match::start` and
/// `Match::end`. The result is named; beside the name the contract states what
/// the crate's documentation promises of it: the matches are successive and do
/// not overlap, group 0 is present in each, and every offset falls on a
/// character boundary, a start no later than its end.
#[verifier::external_body]
fn captures_all(pattern: &str, case_insensitive: bool, haystack: &str) -> (r: Option<
    Vec<Vec<Option<(usize, usize)>>>,
>)
    ensures
        r is None ==> regex_captures(pattern@, case_insensitive, haystack@) is None,
        r matches Some(v) ==> regex_captures(pattern@, case_insensitive, haystack@) == Some(
            caps_view(v@),
        ) && captures_ok(haystack@, caps_view(v@)),
{
    match regex::RegexBuilder::new(pattern).case_insensitive(case_insensitive).build() {
        Ok(re) => Some(
            re.captures_iter(haystack).map(
                |c| c.iter().map(|g| g.map(|m| (m.start(), m.end()))).collect(),
            ).collect(),
        ),
        Err(_) => None,
    }
}

/// The characters that have a meaning in a pattern.
pub open spec fn is_meta(c: char) -> bool {
    c == '\\' || c == '.' || c == '+' || c == '*' || c == '?' || c == '(' || c == ')' || c
        == '|' || c == '[' || c == ']' || c == '{' || c == '}' || c == '^' || c == '$' || c
        == '#' || c == '&' || c == '-' || c == '~'
}

/// The text with a backslash before each character that has a meaning in a
/// pattern, so that the pattern matches the text literally.
pub open spec fn escaped(s: Seq<char>) -> Seq<char>
    decreases s.len(),
{
    if s.len() == 0 {
        Seq::<char>::empty()
    } else if is_meta(s.last()) {
        escaped(s.drop_last()) + seq!['\\', s.last()]
    } else {
        escaped(s.drop_last()).push(s.last())
    }
}

/// `regex::escape`: a backslash before each of `\ . + * ? ( ) | [ ] { } ^ $ # & - ~`.
#[verifier::external_body]
fn escape(s: &str) -> (r: String)
    ensures
        r@ == escaped(s@),
{
    regex::escape(s)
}

/// A pattern for `phrase` as a whole word: group 1 is the character before it
/// (or nothing at the start), group 2 the phrase, group 3 the character after
/// it (or nothing at the end), the characters around it being neither
/// letters, digits nor `_`.
pub open spec fn phrase_pattern(phrase: Seq<char>) -> Seq<char> {
    "(^|[^\\p{L}\\p{N}_])("@ + escaped(phrase) + ")([^\\p{L}\\p{N}_]|$)"@
}

pub fn phrase_pattern_of(phrase: &str) -> (r: String)
    ensures
        r@ == phrase_pattern(phrase@),
{
    let mut p = String::from_str("(^|[^\\p{L}\\p{N}_])(");
    let e = escape(phrase);
    p.append(e.as_str());
    p.append(")([^\\p{L}\\p{N}_]|$)");
    p
}

/// One match, by character index: where the whole match starts and ends, and
/// the text of each capture group.
pub struct Found {
    pub start: usize,
    pub end: usize,
    pub groups: Vec<Option<Vec<char>>>,
}

pub struct FoundModel {
    pub start: int,
    pub end: int,
    pub groups: Seq<Option<Seq<char>>>,
}

pub open spec fn opt_text(g: Option<Vec<char>>) -> Option<Seq<char>> {
    match g {
        Some(t) => Some(t@),
        None => None,
    }
}

pub open spec fn found_model(f: Found) -> FoundModel {
    FoundModel {
        start: f.start as int,
        end: f.end as int,
        groups: f.groups@.map_values(|g: Option<Vec<char>>| opt_text(g)),
    }
}

pub open spec fn found_models(v: Seq<Found>) -> Seq<FoundModel> {
    v.map_values(|f: Found| found_model(f))
}

/// The text of a byte span.
pub open spec fn span_text(s: Seq<char>, g: Option<(usize, usize)>) -> Option<Seq<char>> {
    match g {
        Some(sp) => Some(s.subrange(char_at_byte(s, sp.0 as nat), char_at_byte(s, sp.1 as nat))),
        None => None,
    }
}

pub open spec fn found_of(s: Seq<char>, m: Seq<Option<(usize, usize)>>) -> FoundModel {
    FoundModel {
        start: char_at_byte(s, whole(m).0 as nat),
        end: char_at_byte(s, whole(m).1 as nat),
        groups: m.map_values(|g: Option<(usize, usize)>| span_text(s, g)),
    }
}

/// The matches of `pattern` in `s`, by character index; `None` when the
/// pattern does not compile.
pub open spec fn regex_matches(pattern: Seq<char>, case_insensitive: bool, s: Seq<char>) -> Option<
    Seq<FoundModel>,
> {
    match regex_captures(pattern, case_insensitive, s) {
        Some(ms) => Some(ms.map_values(|m: Seq<Option<(usize, usize)>>| found_of(s, m))),
        None => None,
    }
}

/// Matches lie within the text, in order, without overlapping.
pub open spec fn matches_ok(s: Seq<char>, fs: Seq<FoundModel>) -> bool {
    &&& forall|i: int| 0 <= i < fs.len() ==> 0 <= (#[trigger] fs[i]).start <= fs[i].end <= s.len()
    &&& forall|i: int, j: int| 0 <= i < j < fs.len() ==> (#[trigger] fs[i]).end <= (#[trigger] fs[j]).start
}

proof fn lemma_boundary_order(s: Seq<char>, a: nat, b: nat, ka: int, kb: int)
    requires
        is_boundary(s, a, ka),
        is_boundary(s, b, kb),
        a <= b,
    ensures
        ka <= kb,
{
    if kb < ka {
        lemma_blen_mono(s, kb, ka);
    }
}

proof fn lemma_char_at_byte(s: Seq<char>, b: nat, k: int)
    requires
        is_boundary(s, b, k),
    ensures
        char_at_byte(s, b) == k,
{
    let c = char_at_byte(s, b);
    assert(is_boundary(s, b, c));
    lemma_boundary_unique(s, b, k, c);
}

/// The character index of a byte offset promised to be a boundary.
fn char_index(v: &[char], b: usize) -> (k: usize)
    requires
        exists|k: int| #[trigger] is_boundary(v@, b as nat, k),
    ensures
        is_boundary(v@, b as nat, k as int),
        k as int == char_at_byte(v@, b as nat),
{
    match char_index_at_byte(v, b) {
        Some(k) => {
            proof {
                lemma_char_at_byte(v@, b as nat, k as int);
            }
            k
        },
        None => {
            proof {
                let w = choose|k: int| #[trigger] is_boundary(v@, b as nat, k);
                assert(is_boundary(v@, b as nat, w));
            }
            0
        },
    }
}

/// The groups of one match, by text.
fn groups_of(v: &[char], m: &Vec<Option<(usize, usize)>>) -> (r: Vec<Option<Vec<char>>>)
    requires
        forall|g: int| 0 <= g < m@.len() && (#[trigger] m@[g]) is Some ==> span_ok(v@, m@[g]->0),
    ensures
        r@.map_values(|g: Option<Vec<char>>| opt_text(g)) == m@.map_values(
            |g: Option<(usize, usize)>| span_text(v@, g),
        ),
{
    let mut r: Vec<Option<Vec<char>>> = Vec::new();
    let mut g: usize = 0;
    while g < m.len()
        invariant
            0 <= g <= m@.len(),
                forall|g: int| 0 <= g < m@.len() && (#[trigger] m@[g]) is Some ==> span_ok(v@, m@[g]->0),
            r@.len() == g,
            forall|j: int| 0 <= j < g ==> opt_text(#[trigger] r@[j]) == span_text(v@, m@[j]),
        decreases m@.len() - g,
    {
        match m[g] {
            Some(sp) => {
                assert(m@[g as int] is Some);
                let a = char_index(v, sp.0);
                let b = char_index(v, sp.1);
                proof {
                    lemma_boundary_order(v@, sp.0 as nat, sp.1 as nat, a as int, b as int);
                }
                r.push(Some(slice_vec(v, a, b)));
            },
            None => {
                r.push(None);
            },
        }
        g = g + 1;
    }
    proof {
        assert(r@.map_values(|g: Option<Vec<char>>| opt_text(g)) =~= m@.map_values(
            |g: Option<(usize, usize)>| span_text(v@, g),
        ));
    }
    r
}

/// The matches of `pattern` in `hay`, by character index.
pub fn find_matches(pattern: &str, case_insensitive: bool, hay: &[char]) -> (r: Option<Vec<Found>>)
    ensures
        r is None <==> regex_matches(pattern@, case_insensitive, hay@) is None,
        r matches Some(v) ==> regex_matches(pattern@, case_insensitive, hay@) == Some(
            found_models(v@),
        ) && matches_ok(hay@, found_models(v@)),
{
    let text = string_of(hay);
    let caps = match captures_all(pattern, case_insensitive, text.as_str()) {
        Some(c) => c,
        None => {
            return None;
        },
    };
    let ghost ms = caps_view(caps@);
    let mut out: Vec<Found> = Vec::new();
    let mut i: usize = 0;
    while i < caps.len()
        invariant
            0 <= i <= caps@.len(),
            ms == caps_view(caps@),
            captures_ok(hay@, ms),
            out@.len() == i,
            forall|j: int| 0 <= j < i ==> found_model(#[trigger] out@[j]) == found_of(hay@, ms[j]),
            forall|j: int| 0 <= j < i ==> is_boundary(hay@, whole(ms[j]).0 as nat, (#[trigger] out@[j]).start as int),
            forall|j: int| 0 <= j < i ==> is_boundary(hay@, whole(ms[j]).1 as nat, (#[trigger] out@[j]).end as int),
        decreases caps@.len() - i,
    {
        let m = &caps[i];
        proof {
            assert(ms[i as int] == m@);
            assert(ms[i as int].len() > 0 && ms[i as int][0] is Some);
            assert(m@[0] is Some);
            assert forall|g: int| 0 <= g < m@.len() && (#[trigger] m@[g]) is Some implies span_ok(
                hay@,
                m@[g]->0,
            ) by {
                assert(ms[i as int][g] == m@[g]);
            }
        }
        let whole = m[0].unwrap();
        assert(span_ok(hay@, whole));
        let start = char_index(hay, whole.0);
        let end = char_index(hay, whole.1);
        let groups = groups_of(hay, m);
        out.push(Found { start, end, groups });
        proof {
            assert(found_model(out@[i as int]) == found_of(hay@, ms[i as int]));
        }
        i = i + 1;
    }
    proof {
        let fm = found_models(out@);
        assert(ms.map_values(|m: Seq<Option<(usize, usize)>>| found_of(hay@, m)) =~= fm);
        assert forall|i: int| 0 <= i < fm.len() implies 0 <= (#[trigger] fm[i]).start <= fm[i].end
            <= hay@.len() by {
            assert(ms[i].len() > 0 && ms[i][0] is Some);
            assert(ms[i][0] is Some);
            assert(span_ok(hay@, ms[i][0]->0));
            assert(is_boundary(hay@, whole(ms[i]).0 as nat, out@[i].start as int));
            assert(is_boundary(hay@, whole(ms[i]).1 as nat, out@[i].end as int));
            lemma_boundary_order(
                hay@,
                whole(ms[i]).0 as nat,
                whole(ms[i]).1 as nat,
                out@[i].start as int,
                out@[i].end as int,
            );
        }
        assert forall|i: int, j: int| 0 <= i < j < fm.len() implies (#[trigger] fm[i]).end <= (
        #[trigger] fm[j]).start by {
            assert(whole(ms[i]).1 <= whole(ms[j]).0);
            assert(is_boundary(hay@, whole(ms[i]).1 as nat, out@[i].end as int));
            assert(is_boundary(hay@, whole(ms[j]).0 as nat, out@[j].start as int));
            lemma_boundary_order(
                hay@,
                whole(ms[i]).1 as nat,
                whole(ms[j]).0 as nat,
                out@[i].end as int,
                out@[j].start as int,
            );
        }
    }
    Some(out)
}

/// The text of capture group `g`, or nothing when the group took no part.
pub open spec fn group_or_empty(f: FoundModel, g: int) -> Seq<char> {
    if 0 <= g < f.groups.len() && f.groups[g] is Some {
        f.groups[g]->0
    } else {
        Seq::<char>::empty()
    }
}

pub fn group_text(f: &Found, g: usize) -> (r: Vec<char>)
    ensures
        r@ == group_or_empty(found_model(*f), g as int),
{
    if g < f.groups.len() {
        match &f.groups[g] {
            Some(t) => {
                proof {
                    assert(found_model(*f).groups[g as int] == opt_text(f.groups@[g as int]));
                }
                let r = slice_vec(t, 0, t.len());
                proof {
                    assert(r@ =~= t@);
                }
                r
            },
            None => {
                proof {
                    assert(found_model(*f).groups[g as int] == opt_text(f.groups@[g as int]));
                }
                Vec::new()
            },
        }
    } else {
        Vec::new()
    }
}

/// The text with each match replaced: the part before the first match, the
/// first replacement, the part between the first two matches, and so on.
pub open spec fn splice(s: Seq<char>, fs: Seq<FoundModel>, reps: Seq<Seq<char>>) -> Seq<char>
    decreases fs.len(),
{
    if fs.len() == 0 {
        s
    } else {
        let n = fs.len() - 1;
        splice(s.take(fs[n].start), fs.take(n), reps.take(n)) + reps[n] + s.skip(fs[n].end)
    }
}

proof fn lemma_splice_extend(s: Seq<char>, fs: Seq<FoundModel>, reps: Seq<Seq<char>>, last: int, a: int)
    requires
        0 <= last <= a <= s.len(),
        forall|j: int| 0 <= j < fs.len() ==> 0 <= (#[trigger] fs[j]).start <= fs[j].end <= last,
    ensures
        splice(s.take(a), fs, reps) == splice(s.take(last), fs, reps) + s.subrange(last, a),
{
    if fs.len() == 0 {
        assert(s.take(a) =~= s.take(last) + s.subrange(last, a));
    } else {
        let n = fs.len() - 1;
        assert(s.take(a).take(fs[n].start) =~= s.take(fs[n].start));
        assert(s.take(last).take(fs[n].start) =~= s.take(fs[n].start));
        assert(s.take(a).skip(fs[n].end) =~= s.take(last).skip(fs[n].end) + s.subrange(last, a));
    }
}

pub open spec fn texts(v: Seq<Vec<char>>) -> Seq<Seq<char>> {
    v.map_values(|t: Vec<char>| t@)
}

pub fn splice_vec(s: &[char], fs: &Vec<Found>, reps: &Vec<Vec<char>>) -> (r: Vec<char>)
    requires
        matches_ok(s@, found_models(fs@)),
        reps@.len() == fs@.len(),
    ensures
        r@ == splice(s@, found_models(fs@), texts(reps@)),
{
    let ghost fm = found_models(fs@);
    let ghost rs = texts(reps@);
    let mut out: Vec<char> = Vec::new();
    let mut last: usize = 0;
    let mut i: usize = 0;
    proof {
        assert(fm.take(0).len() == 0);
        assert(out@ =~= splice(s@.take(0), fm.take(0), rs.take(0)));
    }
    while i < fs.len()
        invariant
            0 <= i <= fs@.len(),
            fm == found_models(fs@),
            rs == texts(reps@),
            reps@.len() == fs@.len(),
            matches_ok(s@, fm),
            last <= s@.len(),
            forall|j: int| i <= j < fm.len() ==> last <= (#[trigger] fm[j]).start,
            forall|j: int| 0 <= j < i ==> (#[trigger] fm[j]).end <= last,
            out@ == splice(s@.take(last as int), fm.take(i as int), rs.take(i as int)),
        decreases fs@.len() - i,
    {
        let f = &fs[i];
        proof {
            assert(fm[i as int] == found_model(*f));
            assert(0 <= fm[i as int].start <= fm[i as int].end <= s@.len());
            lemma_splice_extend(s@, fm.take(i as int), rs.take(i as int), last as int, f.start as int);
            let t = fm.take(i + 1);
            assert(t.take(i as int) =~= fm.take(i as int));
            assert(rs.take(i + 1).take(i as int) =~= rs.take(i as int));
            assert(s@.take(f.end as int).take(f.start as int) =~= s@.take(f.start as int));
            assert(s@.take(f.end as int).skip(f.end as int) =~= Seq::<char>::empty());
            assert(rs[i as int] == reps@[i as int]@);
        }
        let piece = slice_vec(s, last, f.start);
        append(&mut out, &piece);
        append(&mut out, &reps[i]);
        proof {
            assert(out@ =~= splice(s@.take(f.end as int), fm.take(i + 1), rs.take(i + 1)));
        }
        last = f.end;
        i = i + 1;
    }
    proof {
        lemma_splice_extend(s@, fm, rs, last as int, s@.len() as int);
        assert(fm.take(fs@.len() as int) =~= fm);
        assert(rs.take(fs@.len() as int) =~= rs);
        assert(s@.take(s@.len() as int) =~= s@);
    }
    let rest = slice_vec(s, last, s.len());
    append(&mut out, &rest);
    out
}

// ───────────────────────── whole-phrase replacement ─────────────────────────

/// For each match of a phrase: the characters around it kept, `replacement`
/// in its place.
pub open spec fn phrase_reps(fs: Seq<FoundModel>, replacement: Seq<char>) -> Seq<Seq<char>> {
    fs.map_values(|f: FoundModel| group_or_empty(f, 1) + replacement + group_or_empty(f, 3))
}

/// One pass replacing `spoken` wherever it stands as a whole word, in any
/// case; `None` when no pattern could be built for it.
pub open spec fn phrase_pass(s: Seq<char>, spoken: Seq<char>, replacement: Seq<char>) -> Option<
    Seq<char>,
> {
    pattern_pass(s, phrase_pattern(spoken), replacement)
}

/// One pass of a phrase pattern, matched in any case.
pub open spec fn pattern_pass(s: Seq<char>, pattern: Seq<char>, replacement: Seq<char>) -> Option<
    Seq<char>,
> {
    match regex_matches(pattern, true, s) {
        Some(fs) => Some(splice(s, fs, phrase_reps(fs, replacement))),
        None => None,
    }
}

pub fn phrase_reps_vec(fs: &Vec<Found>, replacement: &[char]) -> (r: Vec<Vec<char>>)
    ensures
        r@.len() == fs@.len(),
        texts(r@) == phrase_reps(found_models(fs@), replacement@),
{
    let mut r: Vec<Vec<char>> = Vec::new();
    let mut i: usize = 0;
    while i < fs.len()
        invariant
            0 <= i <= fs@.len(),
            r@.len() == i,
            forall|j: int|
                0 <= j < i ==> (#[trigger] r@[j])@ == group_or_empty(found_model(fs@[j]), 1)
                    + replacement@ + group_or_empty(found_model(fs@[j]), 3),
        decreases fs@.len() - i,
    {
        let mut t = group_text(&fs[i], 1);
        append(&mut t, replacement);
        let after = group_text(&fs[i], 3);
        append(&mut t, &after);
        r.push(t);
        i = i + 1;
    }
    proof {
        assert(texts(r@) =~= phrase_reps(found_models(fs@), replacement@));
    }
    r
}

pub fn phrase_pass_vec(text: &[char], pattern: &str, replacement: &[char]) -> (r: Option<Vec<char>>)
    ensures
        match r {
            Some(next) => pattern_pass(text@, pattern@, replacement@) == Some(next@),
            None => pattern_pass(text@, pattern@, replacement@) is None,
        },
{
    let fs = match find_matches(pattern, true, text) {
        Some(fs) => fs,
        None => {
            return None;
        },
    };
    let reps = phrase_reps_vec(&fs, replacement);
    Some(splice_vec(text, &fs, &reps))
}

} // verus!
