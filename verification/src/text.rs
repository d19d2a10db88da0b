//! Character-level text model shared by the whole library.
//!
//! Strings are modelled by their view, a `Seq<char>`. Spec functions here say
//! what trimming, splitting, searching and replacing mean on that model, and
//! the executable helpers compute them on `Vec<char>` buffers.
use vstd::prelude::*;

verus! {

broadcast use vstd::string::group_string_axioms;

// ───────────────────────── characters ─────────────────────────

/// Unicode `White_Space` property, as `char::is_whitespace` defines it.
pub open spec fn is_ws(c: char) -> bool {
    ||| ('\t' <= c && c <= '\r')
    ||| c == ' '
    ||| c == '\u{85}'
    ||| c == '\u{a0}'
    ||| c == '\u{1680}'
    ||| ('\u{2000}' <= c && c <= '\u{200a}')
    ||| c == '\u{2028}'
    ||| c == '\u{2029}'
    ||| c == '\u{202f}'
    ||| c == '\u{205f}'
    ||| c == '\u{3000}'
}

pub fn char_is_ws(c: char) -> (b: bool)
    ensures
        b == is_ws(c),
{
    ('\t' <= c && c <= '\r') || c == ' ' || c == '\u{85}' || c == '\u{a0}' || c == '\u{1680}'
        || ('\u{2000}' <= c && c <= '\u{200a}') || c == '\u{2028}' || c == '\u{2029}'
        || c == '\u{202f}' || c == '\u{205f}' || c == '\u{3000}'
}

pub open spec fn is_ascii_digit(c: char) -> bool {
    '0' <= c && c <= '9'
}

pub open spec fn is_ascii_lower(c: char) -> bool {
    'a' <= c && c <= 'z'
}

pub open spec fn is_ascii_upper(c: char) -> bool {
    'A' <= c && c <= 'Z'
}

pub open spec fn is_ascii_alnum(c: char) -> bool {
    is_ascii_digit(c) || is_ascii_lower(c) || is_ascii_upper(c)
}

/// `char::is_ascii_punctuation`.
pub open spec fn is_ascii_punct(c: char) -> bool {
    ||| ('!' <= c && c <= '/')
    ||| (':' <= c && c <= '@')
    ||| ('[' <= c && c <= '`')
    ||| ('{' <= c && c <= '~')
}

pub fn char_is_ascii_digit(c: char) -> (b: bool)
    ensures
        b == is_ascii_digit(c),
{
    '0' <= c && c <= '9'
}

pub fn char_is_ascii_alnum(c: char) -> (b: bool)
    ensures
        b == is_ascii_alnum(c),
{
    ('0' <= c && c <= '9') || ('a' <= c && c <= 'z') || ('A' <= c && c <= 'Z')
}

pub fn char_is_ascii_punct(c: char) -> (b: bool)
    ensures
        b == is_ascii_punct(c),
{
    ('!' <= c && c <= '/') || (':' <= c && c <= '@') || ('[' <= c && c <= '`') || ('{' <= c
        && c <= '~')
}

/// `char::to_ascii_lowercase`.
pub open spec fn ascii_lower(c: char) -> char {
    if is_ascii_upper(c) {
        ((c as u32) + 32) as char
    } else {
        c
    }
}

pub fn char_ascii_lower(c: char) -> (r: char)
    ensures
        r == ascii_lower(c),
{
    if 'A' <= c && c <= 'Z' {
        let u: u32 = (c as u32) + 32;
        proof {
            assert(0x61 <= u <= 0x7a);
        }
        char_from_ascii(u)
    } else {
        c
    }
}

/// Converts a code point below 0x80 to its character.
pub fn char_from_ascii(u: u32) -> (c: char)
    requires
        u < 0x80,
    ensures
        c == u as char,
        c as u32 == u,
{
    let b: u8 = u as u8;
    b as char
}

/// `str::eq_ignore_ascii_case`, on characters.
pub open spec fn eq_ignore_ascii_case(a: Seq<char>, b: Seq<char>) -> bool {
    &&& a.len() == b.len()
    &&& forall|i: int| 0 <= i < a.len() ==> #[trigger] ascii_lower(a[i]) == ascii_lower(b[i])
}

pub fn vec_eq_ignore_ascii_case(a: &[char], b: &[char]) -> (r: bool)
    ensures
        r == eq_ignore_ascii_case(a@, b@),
{
    if a.len() != b.len() {
        return false;
    }
    let mut i: usize = 0;
    while i < a.len()
        invariant
            a@.len() == b@.len(),
            0 <= i <= a@.len(),
            forall|k: int| 0 <= k < i ==> #[trigger] ascii_lower(a@[k]) == ascii_lower(b@[k]),
        decreases a@.len() - i,
    {
        if char_ascii_lower(a[i]) != char_ascii_lower(b[i]) {
            return false;
        }
        i = i + 1;
    }
    true
}

// ───────────────────────── conversions ─────────────────────────

/// The characters of a string, in order.
pub fn chars_of(s: &str) -> (v: Vec<char>)
    ensures
        v@ == s@,
{
    let mut v: Vec<char> = Vec::new();
    for c in it: s.chars()
        invariant
            v@ == it.history(),
    {
        v.push(c);
    }
    v
}

/// Appends one character to a string (`String::push`).
#[verifier::external_body]
pub(crate) fn push_char(s: &mut String, c: char)
    ensures
        final(s)@ == old(s)@.push(c),
{
    s.push(c);
}

/// The string made of the given characters.
pub fn string_of(v: &[char]) -> (s: String)
    ensures
        s@ == v@,
{
    let mut s = String::new();
    let mut i: usize = 0;
    while i < v.len()
        invariant
            0 <= i <= v@.len(),
            s@ == v@.take(i as int),
        decreases v@.len() - i,
    {
        push_char(&mut s, v[i]);
        proof {
            assert(v@.take(i + 1) =~= v@.take(i as int).push(v@[i as int]));
        }
        i = i + 1;
    }
    proof {
        assert(v@.take(v@.len() as int) =~= v@);
    }
    s
}

/// A copy of `v[a..b]`.
pub fn slice_vec(v: &[char], a: usize, b: usize) -> (r: Vec<char>)
    requires
        a <= b <= v@.len(),
    ensures
        r@ == v@.subrange(a as int, b as int),
{
    let mut r: Vec<char> = Vec::new();
    let mut i: usize = a;
    while i < b
        invariant
            a <= i <= b <= v@.len(),
            r@ == v@.subrange(a as int, i as int),
        decreases b - i,
    {
        r.push(v[i]);
        proof {
            assert(v@.subrange(a as int, i + 1) =~= v@.subrange(a as int, i as int).push(
                v@[i as int],
            ));
        }
        i = i + 1;
    }
    r
}

/// `v` followed by `w`.
pub fn concat(v: &[char], w: &[char]) -> (r: Vec<char>)
    ensures
        r@ == v@ + w@,
{
    let mut r = slice_vec(v, 0, v.len());
    proof {
        assert(v@.subrange(0, v@.len() as int) =~= v@);
    }
    append(&mut r, w);
    r
}

/// Appends `w` to `r`.
pub fn append(r: &mut Vec<char>, w: &[char])
    ensures
        final(r)@ == old(r)@ + w@,
{
    let mut i: usize = 0;
    while i < w.len()
        invariant
            0 <= i <= w@.len(),
            r@ == old(r)@ + w@.take(i as int),
        decreases w@.len() - i,
    {
        r.push(w[i]);
        proof {
            assert(w@.take(i + 1) =~= w@.take(i as int).push(w@[i as int]));
        }
        i = i + 1;
    }
    proof {
        assert(w@.take(w@.len() as int) =~= w@);
    }
}

/// Compares a buffer with a string.
pub fn eq_str(v: &[char], s: &str) -> (b: bool)
    ensures
        b == (v@ == s@),
{
    let n = s.unicode_len();
    if v.len() != n {
        return false;
    }
    let mut i: usize = 0;
    while i < n
        invariant
            v@.len() == n == s@.len(),
            0 <= i <= n,
            forall|k: int| 0 <= k < i ==> v@[k] == s@[k],
        decreases n - i,
    {
        if v[i] != s.get_char(i) {
            return false;
        }
        i = i + 1;
    }
    proof {
        assert(v@ =~= s@);
    }
    true
}

/// Compares two buffers.
pub fn eq_vec(v: &[char], w: &[char]) -> (b: bool)
    ensures
        b == (v@ == w@),
{
    if v.len() != w.len() {
        return false;
    }
    let mut i: usize = 0;
    while i < v.len()
        invariant
            v@.len() == w@.len(),
            0 <= i <= v@.len(),
            forall|k: int| 0 <= k < i ==> v@[k] == w@[k],
        decreases v@.len() - i,
    {
        if v[i] != w[i] {
            return false;
        }
        i = i + 1;
    }
    proof {
        assert(v@ =~= w@);
    }
    true
}

// ───────────────────────── Unicode character classes ─────────────────────────

/// What `char::is_alphanumeric` returns: the Unicode `Alphabetic` or `Numeric` property.
pub uninterp spec fn alphanumeric(c: char) -> bool;

/// What `char::is_alphabetic` returns: the Unicode `Alphabetic` property.
pub uninterp spec fn alphabetic(c: char) -> bool;

/// `char::is_alphanumeric`. The Unicode tables behind it are not restated;
/// the result is named.
#[verifier::external_body]
pub(crate) fn char_is_alphanumeric(c: char) -> (b: bool)
    ensures
        b == alphanumeric(c),
{
    c.is_alphanumeric()
}

/// `char::is_alphabetic`. The Unicode tables behind it are not restated; the
/// result is named.
#[verifier::external_body]
pub(crate) fn char_is_alphabetic(c: char) -> (b: bool)
    ensures
        b == alphabetic(c),
{
    c.is_alphabetic()
}

// ───────────────────────── Unicode case mapping ─────────────────────────

/// What `str::to_lowercase` returns for a string.
pub uninterp spec fn lower(s: Seq<char>) -> Seq<char>;

/// What `str::to_uppercase` returns for a string.
pub uninterp spec fn upper(s: Seq<char>) -> Seq<char>;

/// `str::to_lowercase`: the full Unicode lowercase mapping of `s`. The mapping
/// is a function of the string alone; its table is not restated here. The
/// result is a `String` in memory, so its UTF-8 length is at most `isize::MAX`.
#[verifier::external_body]
pub(crate) fn to_lowercase(s: &str) -> (r: String)
    ensures
        r@ == lower(s@),
        blen(r@) <= isize::MAX,
{
    s.to_lowercase()
}

/// `str::to_uppercase`: the full Unicode uppercase mapping of `s`. The mapping
/// is a function of the string alone; its table is not restated here. The
/// result is a `String` in memory, so its UTF-8 length is at most `isize::MAX`.
#[verifier::external_body]
pub(crate) fn to_uppercase(s: &str) -> (r: String)
    ensures
        r@ == upper(s@),
        blen(r@) <= isize::MAX,
{
    s.to_uppercase()
}

/// Lowercase of a buffer.
pub fn lower_vec(v: &[char]) -> (r: Vec<char>)
    ensures
        r@ == lower(v@),
        blen(r@) <= isize::MAX,
{
    let s = string_of(v);
    let l = to_lowercase(s.as_str());
    chars_of(l.as_str())
}

/// Uppercase of a buffer.
pub fn upper_vec(v: &[char]) -> (r: Vec<char>)
    ensures
        r@ == upper(v@),
        blen(r@) <= isize::MAX,
{
    let s = string_of(v);
    let u = to_uppercase(s.as_str());
    chars_of(u.as_str())
}

// ───────────────────────── trimming ─────────────────────────

/// `str::trim_start`.
pub open spec fn trim_start(s: Seq<char>) -> Seq<char>
    decreases s.len(),
{
    if s.len() > 0 && is_ws(s[0]) {
        trim_start(s.drop_first())
    } else {
        s
    }
}

/// `str::trim_end`.
pub open spec fn trim_end(s: Seq<char>) -> Seq<char>
    decreases s.len(),
{
    if s.len() > 0 && is_ws(s.last()) {
        trim_end(s.drop_last())
    } else {
        s
    }
}

/// `str::trim`.
pub open spec fn trim(s: Seq<char>) -> Seq<char> {
    trim_end(trim_start(s))
}

/// Index of the first non-whitespace character (or the length).
pub fn trim_start_index(v: &[char]) -> (i: usize)
    ensures
        i <= v@.len(),
        v@.skip(i as int) == trim_start(v@),
        forall|k: int| 0 <= k < i ==> is_ws(#[trigger] v@[k]),
        i < v@.len() ==> !is_ws(v@[i as int]),
{
    let mut i: usize = 0;
    proof {
        assert(v@.skip(0) =~= v@);
    }
    while i < v.len() && char_is_ws(v[i])
        invariant
            0 <= i <= v@.len(),
            trim_start(v@.skip(i as int)) == trim_start(v@),
            forall|k: int| 0 <= k < i ==> is_ws(#[trigger] v@[k]),
        decreases v@.len() - i,
    {
        proof {
            assert(v@.skip(i as int).drop_first() =~= v@.skip(i + 1));
        }
        i = i + 1;
    }
    i
}

/// Length of the buffer once trailing whitespace is dropped.
pub fn trim_end_index(v: &[char]) -> (j: usize)
    ensures
        j <= v@.len(),
        v@.take(j as int) == trim_end(v@),
        forall|k: int| j <= k < v@.len() ==> is_ws(#[trigger] v@[k]),
        j > 0 ==> !is_ws(v@[j - 1]),
{
    let mut j: usize = v.len();
    proof {
        assert(v@.take(j as int) =~= v@);
    }
    while j > 0 && char_is_ws(v[j - 1])
        invariant
            0 <= j <= v@.len(),
            trim_end(v@.take(j as int)) == trim_end(v@),
            forall|k: int| j <= k < v@.len() ==> is_ws(#[trigger] v@[k]),
        decreases j,
    {
        proof {
            assert(v@.take(j as int).drop_last() =~= v@.take(j - 1));
        }
        j = j - 1;
    }
    j
}

pub proof fn lemma_trim_start_ws_prefix(s: Seq<char>, i: int)
    requires
        0 <= i <= s.len(),
        forall|k: int| 0 <= k < i ==> is_ws(#[trigger] s[k]),
        i < s.len() ==> !is_ws(s[i]),
    ensures
        trim_start(s) == s.skip(i),
    decreases i,
{
    if i == 0 {
        assert(s.skip(0) =~= s);
    } else {
        assert(s.drop_first().skip(i - 1) =~= s.skip(i));
        lemma_trim_start_ws_prefix(s.drop_first(), i - 1);
    }
}

pub proof fn lemma_trim_end_ws_suffix(s: Seq<char>, j: int)
    requires
        0 <= j <= s.len(),
        forall|k: int| j <= k < s.len() ==> is_ws(#[trigger] s[k]),
        j > 0 ==> !is_ws(s[j - 1]),
    ensures
        trim_end(s) == s.take(j),
    decreases s.len() - j,
{
    if j == s.len() {
        assert(s.take(j) =~= s);
    } else {
        assert(s.drop_last().take(j) =~= s.take(j));
        lemma_trim_end_ws_suffix(s.drop_last(), j);
    }
}

/// `str::trim` on a buffer.
pub fn trim_vec(v: &[char]) -> (r: Vec<char>)
    ensures
        r@ == trim(v@),
{
    let i = trim_start_index(v);
    let rest = slice_vec(v, i, v.len());
    let j = trim_end_index(&rest);
    proof {
        assert(rest@ =~= v@.skip(i as int));
    }
    slice_vec(&rest, 0, j)
}

/// `str::trim_end` on a buffer.
pub fn trim_end_vec(v: &[char]) -> (r: Vec<char>)
    ensures
        r@ == trim_end(v@),
{
    let j = trim_end_index(v);
    slice_vec(v, 0, j)
}

/// `str::trim_start` on a buffer.
pub fn trim_start_vec(v: &[char]) -> (r: Vec<char>)
    ensures
        r@ == trim_start(v@),
{
    let i = trim_start_index(v);
    slice_vec(v, i, v.len())
}

/// `s.trim()` as characters.
pub fn trimmed(s: &str) -> (r: Vec<char>)
    ensures
        r@ == trim(s@),
{
    let v = chars_of(s);
    trim_vec(&v)
}

// ───────────────────────── searching ─────────────────────────

pub open spec fn starts_with(s: Seq<char>, p: Seq<char>) -> bool {
    p.len() <= s.len() && s.take(p.len() as int) == p
}

pub open spec fn ends_with(s: Seq<char>, p: Seq<char>) -> bool {
    p.len() <= s.len() && s.skip(s.len() - p.len()) == p
}

pub open spec fn occurs_at(s: Seq<char>, p: Seq<char>, i: int) -> bool {
    0 <= i && i + p.len() <= s.len() && s.subrange(i, i + p.len()) == p
}

/// `str::contains` with a string pattern.
pub open spec fn contains(s: Seq<char>, p: Seq<char>) -> bool {
    exists|i: int| #[trigger] occurs_at(s, p, i)
}

pub fn occurs_at_exec(v: &[char], p: &[char], i: usize) -> (b: bool)
    ensures
        b == occurs_at(v@, p@, i as int),
{
    if i > v.len() || p.len() > v.len() - i {
        return false;
    }
    let n = v.len();
    let mut k: usize = 0;
    while k < p.len()
        invariant
            n == v@.len(),
            i + p@.len() <= v@.len(),
            0 <= k <= p@.len(),
            forall|m: int| 0 <= m < k ==> v@[i + m] == p@[m],
        decreases p@.len() - k,
    {
        assert(i + k < v@.len());
        let idx: usize = i + k;
        if v[idx] != p[k] {
            proof {
                assert(v@.subrange(i as int, i + p@.len())[k as int] != p@[k as int]);
            }
            return false;
        }
        k = k + 1;
    }
    proof {
        assert(v@.subrange(i as int, i + p@.len()) =~= p@);
    }
    true
}

pub fn starts_with_vec(v: &[char], p: &[char]) -> (b: bool)
    ensures
        b == starts_with(v@, p@),
{
    let b = occurs_at_exec(v, p, 0);
    proof {
        if p@.len() <= v@.len() {
            assert(v@.take(p@.len() as int) =~= v@.subrange(0, p@.len() as int));
        }
    }
    b
}

pub fn ends_with_vec(v: &[char], p: &[char]) -> (b: bool)
    ensures
        b == ends_with(v@, p@),
{
    if p.len() > v.len() {
        return false;
    }
    let b = occurs_at_exec(v, p, v.len() - p.len());
    proof {
        assert(v@.skip(v@.len() - p@.len()) =~= v@.subrange(
            v@.len() - p@.len(),
            v@.len() as int,
        ));
    }
    b
}

/// First occurrence of `p` in `v` (`str::find`).
pub fn find_vec(v: &[char], p: &[char]) -> (r: Option<usize>)
    ensures
        r matches Some(i) ==> occurs_at(v@, p@, i as int) && forall|j: int|
            0 <= j < i ==> !#[trigger] occurs_at(v@, p@, j),
        r is None ==> !contains(v@, p@),
{
    if p.len() > v.len() {
        proof {
            assert forall|j: int| !#[trigger] occurs_at(v@, p@, j) by {}
        }
        return None;
    }
    let last = v.len() - p.len();
    let mut i: usize = 0;
    loop
        invariant
            last == v@.len() - p@.len(),
            0 <= i <= last,
            forall|j: int| 0 <= j < i ==> !#[trigger] occurs_at(v@, p@, j),
        decreases last - i,
    {
        if occurs_at_exec(v, p, i) {
            return Some(i);
        }
        if i == last {
            proof {
                assert forall|j: int| !#[trigger] occurs_at(v@, p@, j) by {
                    if 0 <= j <= i {
                    }
                }
            }
            return None;
        }
        i = i + 1;
    }
}

/// Last occurrence of `p` in `v` (`str::rfind`).
pub fn rfind_vec(v: &[char], p: &[char]) -> (r: Option<usize>)
    ensures
        r matches Some(i) ==> occurs_at(v@, p@, i as int) && forall|j: int|
            i < j ==> !#[trigger] occurs_at(v@, p@, j),
        r is None ==> !contains(v@, p@),
{
    if p.len() > v.len() {
        proof {
            assert forall|j: int| !#[trigger] occurs_at(v@, p@, j) by {}
        }
        return None;
    }
    let mut i: usize = v.len() - p.len();
    loop
        invariant
            0 <= i <= v@.len() - p@.len(),
            forall|j: int| i < j ==> !#[trigger] occurs_at(v@, p@, j),
        decreases i,
    {
        if occurs_at_exec(v, p, i) {
            return Some(i);
        }
        if i == 0 {
            proof {
                assert forall|j: int| !#[trigger] occurs_at(v@, p@, j) by {
                    if 0 <= j {
                    }
                }
            }
            return None;
        }
        i = i - 1;
    }
}

pub fn contains_vec(v: &[char], p: &[char]) -> (b: bool)
    ensures
        b == contains(v@, p@),
{
    match find_vec(v, p) {
        Some(i) => true,
        None => false,
    }
}

/// Whether `v` contains the string `p`.
pub fn contains_str(v: &[char], p: &str) -> (b: bool)
    ensures
        b == contains(v@, p@),
{
    let pv = chars_of(p);
    contains_vec(v, &pv)
}

/// Whether `v` starts with the string `p`.
pub fn starts_with_str(v: &[char], p: &str) -> (b: bool)
    ensures
        b == starts_with(v@, p@),
{
    let pv = chars_of(p);
    starts_with_vec(v, &pv)
}

/// Whether `v` ends with the string `p`.
pub fn ends_with_str(v: &[char], p: &str) -> (b: bool)
    ensures
        b == ends_with(v@, p@),
{
    let pv = chars_of(p);
    ends_with_vec(v, &pv)
}

/// Whether `v` contains the character `c`.
pub fn has_char(v: &[char], c: char) -> (b: bool)
    ensures
        b == v@.contains(c),
{
    let mut i: usize = 0;
    while i < v.len()
        invariant
            0 <= i <= v@.len(),
            forall|k: int| 0 <= k < i ==> v@[k] != c,
        decreases v@.len() - i,
    {
        if v[i] == c {
            return true;
        }
        i = i + 1;
    }
    false
}

// ───────────────────────── replacing ─────────────────────────

/// `str::replace` with a non-empty pattern: non-overlapping occurrences,
/// scanned left to right.
pub open spec fn replace(s: Seq<char>, from: Seq<char>, to: Seq<char>) -> Seq<char>
    decreases s.len(),
{
    if from.len() == 0 || s.len() < from.len() {
        s
    } else if s.take(from.len() as int) == from {
        to + replace(s.skip(from.len() as int), from, to)
    } else {
        seq![s[0]] + replace(s.drop_first(), from, to)
    }
}

pub fn replace_vec(v: &[char], from: &[char], to: &[char]) -> (r: Vec<char>)
    requires
        from@.len() > 0,
    ensures
        r@ == replace(v@, from@, to@),
{
    let mut out: Vec<char> = Vec::new();
    let mut i: usize = 0;
    proof {
        assert(v@.skip(0) =~= v@);
    }
    while i < v.len()
        invariant
            0 <= i <= v@.len(),
            from@.len() > 0,
            out@ + replace(v@.skip(i as int), from@, to@) == replace(v@, from@, to@),
        decreases v@.len() - i,
    {
        let ghost rest = v@.skip(i as int);
        if from.len() <= v.len() - i && occurs_at_exec(v, from, i) {
            proof {
                assert(rest.take(from@.len() as int) =~= v@.subrange(i as int, i + from@.len()));
                assert(rest.skip(from@.len() as int) =~= v@.skip(i + from@.len()));
                assert(out@ + to@ + replace(v@.skip(i + from@.len()), from@, to@) =~= out@ + (
                to@ + replace(v@.skip(i + from@.len()), from@, to@)));
            }
            append(&mut out, to);
            i = i + from.len();
        } else {
            proof {
                if from@.len() <= v@.len() - i {
                    assert(rest.take(from@.len() as int) =~= v@.subrange(
                        i as int,
                        i + from@.len(),
                    ));
                }
                assert(rest.drop_first() =~= v@.skip(i + 1));
                assert(rest[0] == v@[i as int]);
                if from@.len() > rest.len() {
                    // the tail no longer changes
                    lemma_replace_short(rest, from@, to@);
                    lemma_replace_short(rest.drop_first(), from@, to@);
                    assert(rest =~= seq![rest[0]] + rest.drop_first());
                }
                assert(out@.push(v@[i as int]) + replace(v@.skip(i + 1), from@, to@) =~= out@ + (
                seq![v@[i as int]] + replace(v@.skip(i + 1), from@, to@)));
            }
            out.push(v[i]);
            i = i + 1;
        }
    }
    proof {
        assert(v@.skip(i as int).len() == 0);
        assert(out@ + v@.skip(i as int) =~= out@);
    }
    out
}

pub proof fn lemma_replace_short(s: Seq<char>, from: Seq<char>, to: Seq<char>)
    requires
        s.len() < from.len(),
    ensures
        replace(s, from, to) == s,
{
}

/// `str::replace` with string arguments, on a buffer.
pub fn replace_str(v: &[char], from: &str, to: &str) -> (r: Vec<char>)
    requires
        from@.len() > 0,
    ensures
        r@ == replace(v@, from@, to@),
{
    let f = chars_of(from);
    let t = chars_of(to);
    replace_vec(v, &f, &t)
}

/// Replaces every `from` character with `to`.
pub open spec fn replace_char(s: Seq<char>, from: char, to: char) -> Seq<char> {
    s.map_values(|c: char| if c == from { to } else { c })
}

pub fn replace_char_vec(v: &[char], from: char, to: char) -> (r: Vec<char>)
    ensures
        r@ == replace_char(v@, from, to),
{
    let mut out: Vec<char> = Vec::new();
    let mut i: usize = 0;
    while i < v.len()
        invariant
            0 <= i <= v@.len(),
            out@ == replace_char(v@.take(i as int), from, to),
        decreases v@.len() - i,
    {
        let c = if v[i] == from {
            to
        } else {
            v[i]
        };
        out.push(c);
        proof {
            assert(replace_char(v@.take(i + 1), from, to) =~= replace_char(
                v@.take(i as int),
                from,
                to,
            ).push(c));
        }
        i = i + 1;
    }
    proof {
        assert(v@.take(v@.len() as int) =~= v@);
    }
    out
}

// ───────────────────────── splitting and joining ─────────────────────────

/// State of a left-to-right whitespace split: finished words and the word
/// being read.
pub open spec fn split_ws_state(s: Seq<char>) -> (Seq<Seq<char>>, Seq<char>)
    decreases s.len(),
{
    if s.len() == 0 {
        (seq![], seq![])
    } else {
        let (words, cur) = split_ws_state(s.drop_last());
        if is_ws(s.last()) {
            if cur.len() > 0 {
                (words.push(cur), seq![])
            } else {
                (words, cur)
            }
        } else {
            (words, cur.push(s.last()))
        }
    }
}

/// `str::split_whitespace`.
pub open spec fn split_ws(s: Seq<char>) -> Seq<Seq<char>> {
    let (words, cur) = split_ws_state(s);
    if cur.len() > 0 {
        words.push(cur)
    } else {
        words
    }
}

pub fn split_ws_vec(v: &[char]) -> (r: Vec<Vec<char>>)
    ensures
        r@.map_values(|w: Vec<char>| w@) == split_ws(v@),
{
    let mut words: Vec<Vec<char>> = Vec::new();
    let mut cur: Vec<char> = Vec::new();
    let mut i: usize = 0;
    while i < v.len()
        invariant
            0 <= i <= v@.len(),
            (words@.map_values(|w: Vec<char>| w@), cur@) == split_ws_state(v@.take(i as int)),
        decreases v@.len() - i,
    {
        proof {
            assert(v@.take(i + 1).drop_last() =~= v@.take(i as int));
        }
        let c = v[i];
        if char_is_ws(c) {
            if cur.len() > 0 {
                let w = cur;
                words.push(w);
                cur = Vec::new();
                proof {
                    assert(words@.map_values(|w: Vec<char>| w@) =~= split_ws_state(
                        v@.take(i as int),
                    ).0.push(split_ws_state(v@.take(i as int)).1));
                    assert(cur@ =~= Seq::<char>::empty());
                }
            }
        } else {
            cur.push(c);
        }
        i = i + 1;
    }
    proof {
        assert(v@.take(v@.len() as int) =~= v@);
    }
    if cur.len() > 0 {
        words.push(cur);
        proof {
            assert(words@.map_values(|w: Vec<char>| w@) =~= split_ws_state(v@).0.push(
                split_ws_state(v@).1,
            ));
        }
    }
    words
}

/// Splits `s` at every `sep` character (`str::split` with a char pattern):
/// `n` separators always give `n + 1` pieces.
pub open spec fn split_char_state(s: Seq<char>, sep: char) -> (Seq<Seq<char>>, Seq<char>)
    decreases s.len(),
{
    if s.len() == 0 {
        (seq![], seq![])
    } else {
        let (pieces, cur) = split_char_state(s.drop_last(), sep);
        if s.last() == sep {
            (pieces.push(cur), seq![])
        } else {
            (pieces, cur.push(s.last()))
        }
    }
}

pub open spec fn split_char(s: Seq<char>, sep: char) -> Seq<Seq<char>> {
    let (pieces, cur) = split_char_state(s, sep);
    pieces.push(cur)
}

pub fn split_char_vec(v: &[char], sep: char) -> (r: Vec<Vec<char>>)
    ensures
        r@.map_values(|w: Vec<char>| w@) == split_char(v@, sep),
{
    let mut pieces: Vec<Vec<char>> = Vec::new();
    let mut cur: Vec<char> = Vec::new();
    let mut i: usize = 0;
    while i < v.len()
        invariant
            0 <= i <= v@.len(),
            (pieces@.map_values(|w: Vec<char>| w@), cur@) == split_char_state(
                v@.take(i as int),
                sep,
            ),
        decreases v@.len() - i,
    {
        proof {
            assert(v@.take(i + 1).drop_last() =~= v@.take(i as int));
        }
        let c = v[i];
        if c == sep {
            let w = cur;
            pieces.push(w);
            cur = Vec::new();
            proof {
                assert(pieces@.map_values(|w: Vec<char>| w@) =~= split_char_state(
                    v@.take(i as int),
                    sep,
                ).0.push(split_char_state(v@.take(i as int), sep).1));
                assert(cur@ =~= Seq::<char>::empty());
            }
        } else {
            cur.push(c);
        }
        i = i + 1;
    }
    proof {
        assert(v@.take(v@.len() as int) =~= v@);
    }
    pieces.push(cur);
    proof {
        assert(pieces@.map_values(|w: Vec<char>| w@) =~= split_char_state(v@, sep).0.push(
            split_char_state(v@, sep).1,
        ));
    }
    pieces
}

/// `[..].join(sep)`.
pub open spec fn join(words: Seq<Seq<char>>, sep: Seq<char>) -> Seq<char>
    decreases words.len(),
{
    if words.len() == 0 {
        seq![]
    } else if words.len() == 1 {
        words[0]
    } else {
        join(words.drop_last(), sep) + sep + words.last()
    }
}

pub fn join_vec(words: &Vec<Vec<char>>, sep: &[char]) -> (r: Vec<char>)
    ensures
        r@ == join(words@.map_values(|w: Vec<char>| w@), sep@),
{
    let ghost ws = words@.map_values(|w: Vec<char>| w@);
    let mut out: Vec<char> = Vec::new();
    let mut i: usize = 0;
    while i < words.len()
        invariant
            0 <= i <= words@.len(),
            ws == words@.map_values(|w: Vec<char>| w@),
            out@ == join(ws.take(i as int), sep@),
        decreases words@.len() - i,
    {
        proof {
            assert(ws.take(i + 1).drop_last() =~= ws.take(i as int));
            assert(ws.take(i + 1).last() == words@[i as int]@);
        }
        if i > 0 {
            append(&mut out, sep);
        } else {
            proof {
                assert(ws.take(1) =~= seq![words@[0]@]);
            }
        }
        append(&mut out, &words[i]);
        i = i + 1;
    }
    proof {
        assert(ws.take(words@.len() as int) =~= ws);
    }
    out
}

/// The words of a string joined by single spaces.
pub open spec fn collapse_ws(s: Seq<char>) -> Seq<char> {
    join(split_ws(s), seq![' '])
}

} // verus!

verus! {

// ───────────────────────── numbers ─────────────────────────

/// The ASCII digit for `d < 10`.
pub open spec fn digit_char(d: nat) -> char {
    ((48 + d) as u32) as char
}

/// Decimal representation of `n`, as `{}` formats an unsigned integer.
pub open spec fn decimal(n: nat) -> Seq<char>
    decreases n,
{
    if n < 10 {
        seq![digit_char(n)]
    } else {
        decimal(n / 10).push(digit_char(n % 10))
    }
}

pub fn decimal_vec(n: u64) -> (r: Vec<char>)
    ensures
        r@ == decimal(n as nat),
    decreases n,
{
    let d: u32 = (n % 10) as u32;
    let c = char_from_ascii(48 + d);
    if n < 10 {
        let mut r: Vec<char> = Vec::new();
        r.push(c);
        proof {
            assert(r@ =~= seq![digit_char(n as nat)]);
        }
        r
    } else {
        let mut r = decimal_vec(n / 10);
        r.push(c);
        r
    }
}

/// Uppercase hexadecimal digit for `d < 16`.
pub open spec fn hex_digit(d: nat) -> char {
    if d < 10 {
        ((48 + d) as u32) as char
    } else {
        ((55 + d) as u32) as char
    }
}

pub fn hex_digit_exec(d: u8) -> (c: char)
    requires
        d < 16,
    ensures
        c == hex_digit(d as nat),
{
    if d < 10 {
        char_from_ascii(48 + d as u32)
    } else {
        char_from_ascii(55 + d as u32)
    }
}

/// Whether every character of `s` is an ASCII digit and there is at least one.
pub open spec fn all_digits(s: Seq<char>) -> bool {
    s.len() > 0 && forall|i: int| 0 <= i < s.len() ==> is_ascii_digit(#[trigger] s[i])
}

/// Value of a string of ASCII digits.
pub open spec fn digits_value(s: Seq<char>) -> nat
    decreases s.len(),
{
    if s.len() == 0 {
        0
    } else {
        digits_value(s.drop_last()) * 10 + ((s.last() as u32) - 48) as nat
    }
}

/// Parses an unsigned decimal number (`str::parse::<u64>` and friends):
/// an optional `+`, then at least one digit, the value at most `max`.
pub open spec fn unsigned_body(s: Seq<char>) -> Seq<char> {
    if s.len() > 0 && s[0] == '+' {
        s.drop_first()
    } else {
        s
    }
}

pub open spec fn parse_unsigned(s: Seq<char>, max: nat) -> Option<nat> {
    let body = unsigned_body(s);
    if all_digits(body) && digits_value(body) <= max {
        Some(digits_value(body))
    } else {
        None
    }
}

pub proof fn lemma_digits_value_mono(s: Seq<char>, i: int)
    requires
        0 <= i <= s.len(),
        forall|k: int| 0 <= k < s.len() ==> is_ascii_digit(#[trigger] s[k]),
    ensures
        digits_value(s.take(i)) <= digits_value(s),
    decreases s.len() - i,
{
    if i < s.len() {
        lemma_digits_value_mono(s, i + 1);
        assert(s.take(i + 1).drop_last() =~= s.take(i));
    } else {
        assert(s.take(i) =~= s);
    }
}

pub fn parse_unsigned_vec(v: &[char], max: u64) -> (r: Option<u64>)
    ensures
        r matches Some(n) ==> parse_unsigned(v@, max as nat) == Some(n as nat),
        r is None ==> parse_unsigned(v@, max as nat) is None,
{
    let start: usize = if v.len() > 0 && v[0] == '+' {
        1
    } else {
        0
    };
    let ghost body = unsigned_body(v@);
    proof {
        assert(body =~= v@.skip(start as int));
    }
    if start >= v.len() {
        return None;
    }
    let mut i: usize = start;
    while i < v.len()
        invariant
            start <= i <= v@.len(),
            body == v@.skip(start as int),
            body == unsigned_body(v@),
            forall|k: int| start <= k < i ==> is_ascii_digit(#[trigger] v@[k]),
        decreases v@.len() - i,
    {
        if !char_is_ascii_digit(v[i]) {
            proof {
                assert(body[i - start] == v@[i as int]);
                assert(!is_ascii_digit(body[i - start]));
                assert(!all_digits(body));
            }
            return None;
        }
        i = i + 1;
    }
    let mut acc: u64 = 0;
    let mut j: usize = start;
    proof {
        assert(body.take(0) =~= Seq::<char>::empty());
    }
    while j < v.len()
        invariant
            start <= j <= v@.len(),
            body == v@.skip(start as int),
            body == unsigned_body(v@),
            forall|k: int| start <= k < v@.len() ==> is_ascii_digit(#[trigger] v@[k]),
            acc as nat == digits_value(body.take(j - start)),
            acc <= max,
        decreases v@.len() - j,
    {
        let d: u64 = ((v[j] as u32) - 48) as u64;
        proof {
            assert(body.take(j + 1 - start).drop_last() =~= body.take(j - start));
            assert(body.take(j + 1 - start).last() == v@[j as int]);
        }
        if d > max || acc > (max - d) / 10 {
            proof {
                assert forall|k: int| 0 <= k < body.len() implies is_ascii_digit(
                    #[trigger] body[k],
                ) by {
                    assert(body[k] == v@[start + k]);
                }
                lemma_digits_value_mono(body, j + 1 - start);
                assert(digits_value(body.take(j + 1 - start)) == acc * 10 + d);
                if d <= max {
                    assert(acc >= (max - d) / 10 + 1);
                    assert(acc * 10 + d > max) by (nonlinear_arith)
                        requires
                            acc >= (max - d) / 10 + 1,
                            d <= max,
                    ;
                }
            }
            return None;
        }
        proof {
            assert(acc * 10 + d <= max) by (nonlinear_arith)
                requires
                    acc <= (max - d) / 10,
                    d <= max,
            ;
        }
        acc = acc * 10 + d;
        j = j + 1;
    }
    proof {
        assert(body.take(v@.len() - start) =~= body);
        assert forall|k: int| 0 <= k < body.len() implies is_ascii_digit(#[trigger] body[k]) by {
            assert(body[k] == v@[start + k]);
        }
    }
    Some(acc)
}

} // verus!

verus! {

/// `s` without any `c` character.
pub open spec fn remove_char(s: Seq<char>, c: char) -> Seq<char>
    decreases s.len(),
{
    if s.len() == 0 {
        s
    } else if s.last() == c {
        remove_char(s.drop_last(), c)
    } else {
        remove_char(s.drop_last(), c).push(s.last())
    }
}

pub fn remove_char_vec(v: &[char], c: char) -> (r: Vec<char>)
    ensures
        r@ == remove_char(v@, c),
{
    let mut out: Vec<char> = Vec::new();
    let mut i: usize = 0;
    while i < v.len()
        invariant
            0 <= i <= v@.len(),
            out@ == remove_char(v@.take(i as int), c),
        decreases v@.len() - i,
    {
        proof {
            assert(v@.take(i + 1).drop_last() =~= v@.take(i as int));
        }
        if v[i] != c {
            out.push(v[i]);
        }
        i = i + 1;
    }
    proof {
        assert(v@.take(v@.len() as int) =~= v@);
    }
    out
}

} // verus!

verus! {

// ───────────────────────── word lists ─────────────────────────

/// The views of a list of character buffers.
pub open spec fn wv(v: Seq<Vec<char>>) -> Seq<Seq<char>> {
    v.map_values(|w: Vec<char>| w@)
}

/// A copy of `v[a..b]` for a list of words.
pub fn sub_words(v: &Vec<Vec<char>>, a: usize, b: usize) -> (r: Vec<Vec<char>>)
    requires
        a <= b <= v@.len(),
    ensures
        wv(r@) == wv(v@).subrange(a as int, b as int),
{
    let mut r: Vec<Vec<char>> = Vec::new();
    let mut i: usize = a;
    while i < b
        invariant
            a <= i <= b <= v@.len(),
            wv(r@) == wv(v@).subrange(a as int, i as int),
        decreases b - i,
    {
        let w = slice_vec(&v[i], 0, v[i].len());
        let ghost before = r@;
        proof {
            assert(w@ =~= v@[i as int]@);
        }
        r.push(w);
        proof {
            assert(r@ == before.push(w));
            assert(wv(r@) =~= wv(before).push(w@));
            assert(wv(v@)[i as int] == w@);
            assert(wv(v@).subrange(a as int, i + 1) =~= wv(v@).subrange(a as int, i as int).push(
                wv(v@)[i as int],
            ));
        }
        i = i + 1;
    }
    r
}

/// First position of `x` in `ws`.
pub open spec fn position(ws: Seq<Seq<char>>, x: Seq<char>) -> Option<int>
    decreases ws.len(),
{
    if ws.len() == 0 {
        None
    } else if ws[0] == x {
        Some(0)
    } else {
        match position(ws.drop_first(), x) {
            Some(i) => Some(i + 1),
            None => None,
        }
    }
}

pub proof fn lemma_position_at(ws: Seq<Seq<char>>, x: Seq<char>, i: int)
    requires
        0 <= i < ws.len(),
        ws[i] == x,
        forall|j: int| 0 <= j < i ==> ws[j] != x,
    ensures
        position(ws, x) == Some(i),
    decreases i,
{
    if i > 0 {
        lemma_position_at(ws.drop_first(), x, i - 1);
    }
}

pub proof fn lemma_position_none(ws: Seq<Seq<char>>, x: Seq<char>)
    requires
        forall|j: int| 0 <= j < ws.len() ==> ws[j] != x,
    ensures
        position(ws, x) is None,
    decreases ws.len(),
{
    if ws.len() > 0 {
        lemma_position_none(ws.drop_first(), x);
    }
}

/// Position of the string `x` among the words.
pub fn position_exec(ws: &Vec<Vec<char>>, x: &str) -> (r: Option<usize>)
    ensures
        match r {
            Some(i) => position(wv(ws@), x@) == Some(i as int) && i < ws@.len(),
            None => position(wv(ws@), x@) is None,
        },
{
    let ghost w = wv(ws@);
    let mut i: usize = 0;
    while i < ws.len()
        invariant
            0 <= i <= ws@.len(),
            w == wv(ws@),
            forall|j: int| 0 <= j < i ==> w[j] != x@,
        decreases ws@.len() - i,
    {
        if eq_str(&ws[i], x) {
            proof {
                lemma_position_at(w, x@, i as int);
            }
            return Some(i);
        }
        i = i + 1;
    }
    proof {
        lemma_position_none(w, x@);
    }
    None
}

} // verus!

verus! {

// ───────────────────────── UTF-8 byte offsets ─────────────────────────

/// Bytes in the UTF-8 encoding of a character (`char::len_utf8`).
pub open spec fn char_width(c: char) -> nat {
    if (c as u32) < 0x80 {
        1
    } else if (c as u32) < 0x800 {
        2
    } else if (c as u32) < 0x10000 {
        3
    } else {
        4
    }
}

/// Bytes in the UTF-8 encoding of a string (`str::len`).
pub open spec fn blen(s: Seq<char>) -> nat
    decreases s.len(),
{
    if s.len() == 0 {
        0
    } else {
        blen(s.drop_last()) + char_width(s.last())
    }
}

pub fn char_len_utf8(c: char) -> (n: usize)
    ensures
        n == char_width(c),
{
    let u = c as u32;
    if u < 0x80 {
        1
    } else if u < 0x800 {
        2
    } else if u < 0x10000 {
        3
    } else {
        4
    }
}

pub proof fn lemma_blen_mono(s: Seq<char>, i: int, j: int)
    requires
        0 <= i <= j <= s.len(),
    ensures
        blen(s.take(i)) + (j - i) <= blen(s.take(j)),
    decreases j - i,
{
    if i < j {
        lemma_blen_mono(s, i, j - 1);
        assert(s.take(j).drop_last() =~= s.take(j - 1));
    }
}

pub proof fn lemma_blen_concat(a: Seq<char>, b: Seq<char>)
    ensures
        blen(a + b) == blen(a) + blen(b),
    decreases b.len(),
{
    if b.len() == 0 {
        assert(a + b =~= a);
    } else {
        lemma_blen_concat(a, b.drop_last());
        assert((a + b).drop_last() =~= a + b.drop_last());
    }
}

/// Byte offset of the character at index `k`.
pub fn byte_offset(v: &[char], k: usize) -> (n: usize)
    requires
        k <= v@.len(),
        blen(v@) <= usize::MAX,
    ensures
        n == blen(v@.take(k as int)),
{
    let mut n: usize = 0;
    let mut i: usize = 0;
    proof {
        assert(v@.take(0) =~= Seq::<char>::empty());
    }
    while i < k
        invariant
            0 <= i <= k <= v@.len(),
            blen(v@) <= usize::MAX,
            n == blen(v@.take(i as int)),
        decreases k - i,
    {
        proof {
            assert(v@.take(i + 1).drop_last() =~= v@.take(i as int));
            lemma_blen_mono(v@, i + 1, v@.len() as int);
            assert(v@.take(v@.len() as int) =~= v@);
        }
        n = n + char_len_utf8(v[i]);
        i = i + 1;
    }
    n
}

/// The character index whose byte offset is `b`, when `b` falls on a
/// character boundary.
pub open spec fn is_boundary(s: Seq<char>, b: nat, k: int) -> bool {
    0 <= k <= s.len() && blen(s.take(k)) == b
}

pub proof fn lemma_boundary_unique(s: Seq<char>, b: nat, k1: int, k2: int)
    requires
        is_boundary(s, b, k1),
        is_boundary(s, b, k2),
    ensures
        k1 == k2,
{
    if k1 < k2 {
        lemma_blen_mono(s, k1, k2);
    } else if k2 < k1 {
        lemma_blen_mono(s, k2, k1);
    }
}

/// Character index at byte offset `b`, or `None` when `b` is not a boundary.
pub fn char_index_at_byte(v: &[char], b: usize) -> (r: Option<usize>)
    ensures
        match r {
            Some(k) => is_boundary(v@, b as nat, k as int),
            None => forall|k: int| !#[trigger] is_boundary(v@, b as nat, k),
        },
{
    let mut n: u128 = 0;
    let mut i: usize = 0;
    proof {
        assert(v@.take(0) =~= Seq::<char>::empty());
    }
    while i < v.len() && n < b as u128
        invariant
            0 <= i <= v@.len(),
            n == blen(v@.take(i as int)),
            n <= b + 4,
            forall|k: int| 0 <= k < i ==> blen(v@.take(k)) < b,
        decreases v@.len() - i,
    {
        proof {
            assert(v@.take(i + 1).drop_last() =~= v@.take(i as int));
        }
        n = n + char_len_utf8(v[i]) as u128;
        i = i + 1;
    }
    if n == b as u128 {
        Some(i)
    } else {
        proof {
            assert forall|k: int| !#[trigger] is_boundary(v@, b as nat, k) by {
                if 0 <= k <= v@.len() && blen(v@.take(k)) == b {
                    if k > i {
                        lemma_blen_mono(v@, i as int, k);
                    }
                }
            }
        }
        None
    }
}

/// The UTF-8 length of a buffer, when it fits in `usize`.
pub fn blen_checked(v: &[char]) -> (r: Option<usize>)
    ensures
        r matches Some(n) ==> n == blen(v@),
        r is None ==> blen(v@) > usize::MAX,
{
    let mut n: u128 = 0;
    let mut i: usize = 0;
    proof {
        assert(v@.take(0) =~= Seq::<char>::empty());
    }
    while i < v.len()
        invariant
            0 <= i <= v@.len(),
            n == blen(v@.take(i as int)),
            n <= usize::MAX,
        decreases v@.len() - i,
    {
        proof {
            assert(v@.take(i + 1).drop_last() =~= v@.take(i as int));
        }
        n = n + char_len_utf8(v[i]) as u128;
        if n > usize::MAX as u128 {
            proof {
                lemma_blen_mono(v@, i + 1, v@.len() as int);
                assert(v@.take(v@.len() as int) =~= v@);
            }
            return None;
        }
        i = i + 1;
    }
    proof {
        assert(v@.take(v@.len() as int) =~= v@);
    }
    Some(n as usize)
}


/// Character index of a byte offset that is a boundary.
pub open spec fn char_at_byte(s: Seq<char>, b: nat) -> int {
    choose|k: int| is_boundary(s, b, k)
}

/// The views of a list of strings.
pub open spec fn views(v: Seq<String>) -> Seq<Seq<char>> {
    v.map_values(|s: String| s@)
}

/// A copy of a list of strings.
pub fn copy_strings(v: &Vec<String>) -> (r: Vec<String>)
    ensures
        views(r@) == views(v@),
{
    let mut r: Vec<String> = Vec::new();
    let mut i: usize = 0;
    while i < v.len()
        invariant
            0 <= i <= v@.len(),
            r@.len() == i,
            forall|k: int| 0 <= k < i ==> (#[trigger] r@[k])@ == v@[k]@,
        decreases v@.len() - i,
    {
        r.push(String::from_str(v[i].as_str()));
        i = i + 1;
    }
    proof {
        assert(views(r@) =~= views(v@));
    }
    r
}

/// A buffer holds no more characters than its UTF-8 encoding has bytes.
pub proof fn lemma_len_le_blen(s: Seq<char>)
    ensures
        s.len() <= blen(s),
{
    lemma_blen_mono(s, 0, s.len() as int);
    assert(s.take(0) =~= Seq::<char>::empty());
    assert(s.take(s.len() as int) =~= s);
}

/// The UTF-8 length of a buffer, in a width that always holds it.
pub fn blen_wide(v: &[char]) -> (n: u128)
    ensures
        n == blen(v@),
{
    let mut n: u128 = 0;
    let mut i: usize = 0;
    proof {
        assert(v@.take(0) =~= Seq::<char>::empty());
    }
    while i < v.len()
        invariant
            0 <= i <= v@.len(),
            n == blen(v@.take(i as int)),
            n <= 4 * (i as int),
        decreases v@.len() - i,
    {
        proof {
            assert(v@.take(i + 1).drop_last() =~= v@.take(i as int));
            assert(i < usize::MAX);
            assert(4 * (i as int) + 4 <= u128::MAX);
        }
        let w = char_len_utf8(v[i]);
        n = n + w as u128;
        i = i + 1;
    }
    proof {
        assert(v@.take(v@.len() as int) =~= v@);
    }
    n
}

/// The first `b` bytes of a buffer, when `b` falls on a character boundary.
pub fn take_bytes(v: &[char], b: u128) -> (r: Option<Vec<char>>)
    ensures
        match r {
            Some(t) => exists|k: int| #[trigger] is_boundary(v@, b as nat, k) && t@ == v@.take(k),
            None => forall|k: int| !#[trigger] is_boundary(v@, b as nat, k),
        },
{
    let mut n: u128 = 0;
    let mut i: usize = 0;
    proof {
        assert(v@.take(0) =~= Seq::<char>::empty());
    }
    while i < v.len() && n < b
        invariant
            0 <= i <= v@.len(),
            n == blen(v@.take(i as int)),
            n <= 4 * (i as int),
            forall|k: int| 0 <= k < i ==> blen(v@.take(k)) < b,
        decreases v@.len() - i,
    {
        proof {
            assert(v@.take(i + 1).drop_last() =~= v@.take(i as int));
            assert(i < usize::MAX);
            assert(4 * (i as int) + 4 <= u128::MAX);
        }
        let w = char_len_utf8(v[i]);
        n = n + w as u128;
        i = i + 1;
    }
    if n == b {
        let t = slice_vec(v, 0, i);
        proof {
            assert(t@ =~= v@.take(i as int));
            assert(is_boundary(v@, b as nat, i as int));
        }
        Some(t)
    } else {
        proof {
            assert forall|k: int| !#[trigger] is_boundary(v@, b as nat, k) by {
                if 0 <= k <= v@.len() && blen(v@.take(k)) == b {
                    if k > i {
                        lemma_blen_mono(v@, i as int, k);
                    }
                }
            }
        }
        None
    }
}

/// Lexicographic order of code points, which is also the byte order of
/// their UTF-8 encodings.
pub open spec fn lex_lt(a: Seq<char>, b: Seq<char>) -> bool
    decreases a.len(),
{
    if a.len() == 0 {
        b.len() > 0
    } else if b.len() == 0 {
        false
    } else if a[0] != b[0] {
        a[0] < b[0]
    } else {
        lex_lt(a.drop_first(), b.drop_first())
    }
}

pub fn lex_lt_vec(a: &[char], b: &[char]) -> (r: bool)
    ensures
        r == lex_lt(a@, b@),
{
    let mut i: usize = 0;
    proof {
        assert(a@.skip(0) =~= a@);
        assert(b@.skip(0) =~= b@);
    }
    while i < a.len() && i < b.len() && a[i] == b[i]
        invariant
            0 <= i <= a@.len(),
            i <= b@.len(),
            lex_lt(a@.skip(i as int), b@.skip(i as int)) == lex_lt(a@, b@),
        decreases a@.len() - i,
    {
        proof {
            assert(a@.skip(i as int).drop_first() =~= a@.skip(i + 1));
            assert(b@.skip(i as int).drop_first() =~= b@.skip(i + 1));
        }
        i = i + 1;
    }
    if i == a.len() {
        proof {
            assert(a@.skip(i as int).len() == 0);
        }
        i < b.len()
    } else if i == b.len() {
        false
    } else {
        a[i] < b[i]
    }
}

pub proof fn lemma_lex_irreflexive(a: Seq<char>)
    ensures
        !lex_lt(a, a),
    decreases a.len(),
{
    if a.len() > 0 {
        lemma_lex_irreflexive(a.drop_first());
    }
}

pub proof fn lemma_lex_asymmetric(a: Seq<char>, b: Seq<char>)
    requires
        lex_lt(a, b),
    ensures
        !lex_lt(b, a),
    decreases a.len(),
{
    if a.len() > 0 && b.len() > 0 && a[0] == b[0] {
        lemma_lex_asymmetric(a.drop_first(), b.drop_first());
    }
}

pub proof fn lemma_lex_transitive(a: Seq<char>, b: Seq<char>, c: Seq<char>)
    requires
        lex_lt(a, b),
        lex_lt(b, c),
    ensures
        lex_lt(a, c),
    decreases a.len(),
{
    if a.len() > 0 && b.len() > 0 && c.len() > 0 && a[0] == b[0] && b[0] == c[0] {
        lemma_lex_transitive(a.drop_first(), b.drop_first(), c.drop_first());
    }
}

pub proof fn lemma_lex_total(a: Seq<char>, b: Seq<char>)
    requires
        a != b,
    ensures
        lex_lt(a, b) || lex_lt(b, a),
    decreases a.len(),
{
    if a.len() > 0 && b.len() > 0 {
        if a[0] == b[0] {
            if a.drop_first() == b.drop_first() {
                assert(a =~= seq![a[0]] + a.drop_first());
                assert(b =~= seq![b[0]] + b.drop_first());
                assert(false);
            } else {
                lemma_lex_total(a.drop_first(), b.drop_first());
            }
        }
    } else if a.len() == 0 && b.len() == 0 {
        assert(a =~= b);
    }
}

/// A copy of a buffer.
pub fn copy_chars(v: &[char]) -> (r: Vec<char>)
    ensures
        r@ == v@,
{
    let r = slice_vec(v, 0, v.len());
    proof {
        assert(r@ =~= v@);
    }
    r
}

pub proof fn lemma_trim_start_shape(s: Seq<char>)
    ensures
        trim_start(s).len() > 0 ==> !is_ws(trim_start(s)[0]),
    decreases s.len(),
{
    if s.len() > 0 && is_ws(s[0]) {
        lemma_trim_start_shape(s.drop_first());
    }
}

pub proof fn lemma_trim_end_shape(s: Seq<char>)
    ensures
        trim_end(s).len() > 0 ==> !is_ws(trim_end(s).last()),
        trim_end(s).len() <= s.len(),
        trim_end(s) == s.take(trim_end(s).len() as int),
    decreases s.len(),
{
    if s.len() > 0 && is_ws(s.last()) {
        lemma_trim_end_shape(s.drop_last());
        assert(s.drop_last().take(trim_end(s).len() as int) =~= s.take(trim_end(s).len() as int));
    } else {
        assert(s.take(s.len() as int) =~= s);
    }
}

/// Trimming twice is trimming once.
pub proof fn lemma_trim_idempotent(s: Seq<char>)
    ensures
        trim(trim(s)) == trim(s),
{
    let u = trim(s);
    lemma_trim_start_shape(s);
    lemma_trim_end_shape(trim_start(s));
    if u.len() > 0 {
        assert(u[0] == trim_start(s)[0]);
        assert(trim_start(u) == u);
        assert(trim_end(u) == u);
    } else {
        assert(trim_start(u) == u);
    }
}

/// `str::split_once` with a character: the text before and after the first `c`.
pub open spec fn split_once_char(s: Seq<char>, c: char) -> Option<(Seq<char>, Seq<char>)>
    decreases s.len(),
{
    if s.len() == 0 {
        None
    } else if s[0] == c {
        Some((Seq::<char>::empty(), s.drop_first()))
    } else {
        match split_once_char(s.drop_first(), c) {
            Some((a, b)) => Some((seq![s[0]] + a, b)),
            None => None,
        }
    }
}

pub proof fn lemma_split_once_at(s: Seq<char>, c: char, i: int)
    requires
        0 <= i < s.len(),
        s[i] == c,
        forall|j: int| 0 <= j < i ==> s[j] != c,
    ensures
        split_once_char(s, c) == Some((s.take(i), s.skip(i + 1))),
    decreases i,
{
    if i == 0 {
        assert(s.take(0) =~= Seq::<char>::empty());
        assert(s.skip(1) =~= s.drop_first());
    } else {
        lemma_split_once_at(s.drop_first(), c, i - 1);
        assert(seq![s[0]] + s.drop_first().take(i - 1) =~= s.take(i));
        assert(s.drop_first().skip(i) =~= s.skip(i + 1));
    }
}

pub proof fn lemma_split_once_none(s: Seq<char>, c: char)
    requires
        forall|j: int| 0 <= j < s.len() ==> s[j] != c,
    ensures
        split_once_char(s, c) is None,
    decreases s.len(),
{
    if s.len() > 0 {
        lemma_split_once_none(s.drop_first(), c);
    }
}

/// `str::split_once` with a character.
pub fn split_once_vec(s: &[char], c: char) -> (r: Option<(Vec<char>, Vec<char>)>)
    ensures
        match r {
            Some((a, b)) => split_once_char(s@, c) == Some((a@, b@)),
            None => split_once_char(s@, c) is None,
        },
{
    let mut i: usize = 0;
    while i < s.len()
        invariant
            0 <= i <= s@.len(),
            forall|j: int| 0 <= j < i ==> s@[j] != c,
        decreases s@.len() - i,
    {
        if s[i] == c {
            proof {
                lemma_split_once_at(s@, c, i as int);
            }
            return Some((slice_vec(s, 0, i), slice_vec(s, i + 1, s.len())));
        }
        i = i + 1;
    }
    proof {
        lemma_split_once_none(s@, c);
    }
    None
}

} // verus!
