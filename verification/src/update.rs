//! Release version comparison and the update notice.
use crate::text::{
    all_digits, split_once_char, lemma_split_once_at, lemma_split_once_none, chars_of, char_is_ascii_digit, digits_value, is_ascii_digit, parse_unsigned,
    parse_unsigned_vec, slice_vec, split_char, split_char_vec, string_of, trim, trim_vec,
    trim_start, trim_end, is_ws,
};
use vstd::prelude::*;

verus! {

pub const REPO: &'static str = "Aditya190803/dictate";

/// The version of this build.
pub const CURRENT_VERSION: &'static str = "1.0.5";

/// Drops every leading `v` or `V`.
pub open spec fn strip_v(s: Seq<char>) -> Seq<char>
    decreases s.len(),
{
    if s.len() > 0 && (s[0] == 'v' || s[0] == 'V') {
        strip_v(s.drop_first())
    } else {
        s
    }
}

/// A release tag without its `v` prefix and surrounding whitespace.
pub open spec fn spec_normalize(tag: Seq<char>) -> Seq<char> {
    trim(strip_v(trim(tag)))
}

pub fn normalize(tag: &str) -> (r: String)
    ensures
        r@ == spec_normalize(tag@),
{
    let v = chars_of(tag);
    let t = trim_vec(&v);
    let mut i: usize = 0;
    proof {
        assert(t@.skip(0) =~= t@);
    }
    while i < t.len() && (t[i] == 'v' || t[i] == 'V')
        invariant
            0 <= i <= t@.len(),
            strip_v(t@.skip(i as int)) == strip_v(t@),
        decreases t@.len() - i,
    {
        proof {
            assert(t@.skip(i as int).drop_first() =~= t@.skip(i + 1));
        }
        i = i + 1;
    }
    let rest = slice_vec(&t, i, t.len());
    proof {
        assert(rest@ =~= t@.skip(i as int));
    }
    string_of(&trim_vec(&rest))
}

/// Number and pre-release parts of a version: `1.2.0-dev` is `1.2.0` and `dev`.
pub open spec fn spec_split_pre(s: Seq<char>) -> (Seq<char>, Option<Seq<char>>) {
    match split_once_char(s, '-') {
        Some((num, pre)) => (num, Some(pre)),
        None => (s, None),
    }
}

pub fn split_pre(s: &[char]) -> (r: (Vec<char>, Option<Vec<char>>))
    ensures
        r.0@ == spec_split_pre(s@).0,
        match r.1 {
            Some(p) => spec_split_pre(s@).1 == Some(p@),
            None => spec_split_pre(s@).1 is None,
        },
{
    let mut i: usize = 0;
    while i < s.len()
        invariant
            0 <= i <= s@.len(),
            forall|j: int| 0 <= j < i ==> s@[j] != '-',
        decreases s@.len() - i,
    {
        if s[i] == '-' {
            proof {
                lemma_split_once_at(s@, '-', i as int);
            }
            return (slice_vec(s, 0, i), Some(slice_vec(s, i + 1, s.len())));
        }
        i = i + 1;
    }
    proof {
        lemma_split_once_none(s@, '-');
    }
    (slice_vec(s, 0, s.len()), None)
}

/// Leading ASCII digits of a string.
pub open spec fn digit_prefix(s: Seq<char>) -> Seq<char>
    decreases s.len(),
{
    if s.len() > 0 && is_ascii_digit(s[0]) {
        seq![s[0]] + digit_prefix(s.drop_first())
    } else {
        Seq::<char>::empty()
    }
}

/// Value of the leading digits of a version part; `0` when there are none or
/// they do not fit a `u64`.
pub open spec fn spec_leading_num(part: Seq<char>) -> nat {
    match parse_unsigned(digit_prefix(part), u64::MAX as nat) {
        Some(n) => n,
        None => 0,
    }
}

proof fn lemma_digit_prefix(s: Seq<char>, i: int)
    requires
        0 <= i <= s.len(),
        forall|j: int| 0 <= j < i ==> is_ascii_digit(#[trigger] s[j]),
        i < s.len() ==> !is_ascii_digit(s[i]),
    ensures
        digit_prefix(s) == s.take(i),
    decreases i,
{
    if i == 0 {
        assert(s.take(0) =~= Seq::<char>::empty());
    } else {
        lemma_digit_prefix(s.drop_first(), i - 1);
        assert(seq![s[0]] + s.drop_first().take(i - 1) =~= s.take(i));
    }
}

pub fn leading_num(part: &[char]) -> (n: u64)
    ensures
        n as nat == spec_leading_num(part@),
{
    let mut i: usize = 0;
    while i < part.len() && char_is_ascii_digit(part[i])
        invariant
            0 <= i <= part@.len(),
            forall|j: int| 0 <= j < i ==> is_ascii_digit(#[trigger] part@[j]),
        decreases part@.len() - i,
    {
        i = i + 1;
    }
    proof {
        lemma_digit_prefix(part@, i as int);
    }
    let digits = slice_vec(part, 0, i);
    proof {
        assert(digits@ =~= part@.take(i as int));
    }
    match parse_unsigned_vec(&digits, u64::MAX) {
        Some(n) => n,
        None => 0,
    }
}

/// Numeric parts of a version number.
pub open spec fn version_parts(num: Seq<char>) -> Seq<nat> {
    split_char(num, '.').map_values(|p: Seq<char>| spec_leading_num(p))
}

pub open spec fn part_at(parts: Seq<nat>, i: int) -> nat {
    if 0 <= i < parts.len() {
        parts[i]
    } else {
        0
    }
}

/// Compares two version-part lists from position `i` on: `Some(newer)` at the
/// first differing part, `None` when all remaining parts agree.
pub open spec fn compare_from(l: Seq<nat>, c: Seq<nat>, i: int) -> Option<bool>
    decreases (if l.len() > c.len() {
        l.len()
    } else {
        c.len()
    }) - i,
{
    if i < 0 || i >= l.len() && i >= c.len() {
        None
    } else if part_at(l, i) != part_at(c, i) {
        Some(part_at(l, i) > part_at(c, i))
    } else {
        compare_from(l, c, i + 1)
    }
}

/// Whether release `latest` is newer than `current`: numeric parts compared in
/// order (missing parts read as `0`); on a tie, a release beats a pre-release.
pub open spec fn spec_is_newer(latest: Seq<char>, current: Seq<char>) -> bool {
    let l = spec_normalize(latest);
    let c = spec_normalize(current);
    if l.len() == 0 || c.len() == 0 {
        false
    } else {
        let (ln, lp) = spec_split_pre(l);
        let (cn, cp) = spec_split_pre(c);
        match compare_from(version_parts(ln), version_parts(cn), 0) {
            Some(newer) => newer,
            None => lp is None && cp is Some,
        }
    }
}

fn parts_of(num: &[char]) -> (r: Vec<u64>)
    ensures
        r@.map_values(|n: u64| n as nat) == version_parts(num@),
{
    let pieces = split_char_vec(num, '.');
    let ghost ps = pieces@.map_values(|w: Vec<char>| w@);
    let mut out: Vec<u64> = Vec::new();
    let mut i: usize = 0;
    while i < pieces.len()
        invariant
            0 <= i <= pieces@.len(),
            ps == pieces@.map_values(|w: Vec<char>| w@),
            ps == split_char(num@, '.'),
            out@.map_values(|n: u64| n as nat) == ps.take(i as int).map_values(
                |p: Seq<char>| spec_leading_num(p),
            ),
        decreases pieces@.len() - i,
    {
        let n = leading_num(&pieces[i]);
        let ghost before = out@;
        out.push(n);
        proof {
            assert(ps[i as int] == pieces@[i as int]@);
            assert(ps.take(i + 1) =~= ps.take(i as int).push(ps[i as int]));
            assert(out@ =~= before.push(n));
            assert(out@.map_values(|n: u64| n as nat) =~= before.map_values(|n: u64| n as nat).push(
                n as nat,
            ));
            assert(ps.take(i + 1).map_values(|p: Seq<char>| spec_leading_num(p)) =~= ps.take(
                i as int,
            ).map_values(|p: Seq<char>| spec_leading_num(p)).push(spec_leading_num(ps[i as int])));
        }
        i = i + 1;
    }
    proof {
        assert(ps.take(pieces@.len() as int) =~= ps);
    }
    out
}

#[verifier::loop_isolation(false)]
pub fn is_newer(latest: &str, current: &str) -> (b: bool)
    ensures
        b == spec_is_newer(latest@, current@),
{
    let latest = normalize(latest);
    let current = normalize(current);
    let lv = chars_of(latest.as_str());
    let cv = chars_of(current.as_str());
    if lv.len() == 0 || cv.len() == 0 {
        return false;
    }
    let (ln, lp) = split_pre(&lv);
    let (cn, cp) = split_pre(&cv);
    let lparts = parts_of(&ln);
    let cparts = parts_of(&cn);
    let ghost l = lparts@.map_values(|n: u64| n as nat);
    let ghost c = cparts@.map_values(|n: u64| n as nat);
    let n = if lparts.len() > cparts.len() {
        lparts.len()
    } else {
        cparts.len()
    };
    let mut i: usize = 0;
    while i < n
        invariant
            0 <= i <= n,
            n == if l.len() > c.len() {
                l.len()
            } else {
                c.len()
            },
            l == lparts@.map_values(|n: u64| n as nat),
            c == cparts@.map_values(|n: u64| n as nat),
            compare_from(l, c, i as int) == compare_from(l, c, 0),
        decreases n - i,
    {
        let a: u64 = if i < lparts.len() {
            lparts[i]
        } else {
            0
        };
        let b: u64 = if i < cparts.len() {
            cparts[i]
        } else {
            0
        };
        proof {
            assert(a as nat == part_at(l, i as int));
            assert(b as nat == part_at(c, i as int));
        }
        if a != b {
            return a > b;
        }
        i = i + 1;
    }
    lp.is_none() && cp.is_some()
}

/// How to reinstall dictate on this platform.
pub fn reinstall_command() -> (s: &'static str)
    ensures
        s@ == "curl -fsSL https://dictate.adityamer.dev/install.sh | sh"@,
{
    "curl -fsSL https://dictate.adityamer.dev/install.sh | sh"
}

/// The notice printed when a newer release exists.
pub fn update_message(latest: &str) -> (s: String)
    ensures
        s@ == "dictate: update available — v"@ + latest@ + " (you have v"@ + CURRENT_VERSION@
            + "). Update with: "@ + "curl -fsSL https://dictate.adityamer.dev/install.sh | sh"@,
{
    let mut s = String::from_str("dictate: update available — v");
    s.append(latest);
    s.append(" (you have v");
    s.append(CURRENT_VERSION);
    s.append("). Update with: ");
    s.append(reinstall_command());
    s
}

pub open spec fn spec_newer_than_current(latest: Seq<char>) -> Option<Seq<char>> {
    if spec_is_newer(latest, CURRENT_VERSION@) {
        Some(spec_normalize(latest))
    } else {
        None
    }
}

/// The normalized tag when it is newer than this build.
pub fn newer_than_current(latest: &str) -> (r: Option<String>)
    ensures
        match r {
            Some(v) => spec_newer_than_current(latest@) == Some(v@),
            None => spec_newer_than_current(latest@) is None,
        },
{
    if is_newer(latest, CURRENT_VERSION) {
        Some(normalize(latest))
    } else {
        None
    }
}

/// How long a cached answer is trusted: one day.
pub const CACHE_TTL_SECS: u64 = 86400;

/// What an update check found.
#[derive(Debug, PartialEq, Eq)]
pub enum CheckOutcome {
    /// A newer release, by its normalized tag.
    Newer(String),
    Current,
    Unknown,
}

pub enum OutcomeModel {
    Newer(Seq<char>),
    Current,
    Unknown,
}

pub open spec fn outcome_model(o: CheckOutcome) -> OutcomeModel {
    match o {
        CheckOutcome::Newer(v) => OutcomeModel::Newer(v@),
        CheckOutcome::Current => OutcomeModel::Current,
        CheckOutcome::Unknown => OutcomeModel::Unknown,
    }
}

/// A cache entry counts when its tag is not blank once normalized.
pub open spec fn usable_cache(latest: Seq<char>) -> bool {
    spec_normalize(latest).len() > 0
}

fn cache_usable(latest: &str) -> (b: bool)
    ensures
        b == usable_cache(latest@),
{
    normalize(latest).as_str().unicode_len() > 0
}

/// The answer a release tag gives: newer or current.
pub open spec fn spec_outcome_of(latest: Seq<char>) -> OutcomeModel {
    match spec_newer_than_current(latest) {
        Some(v) => OutcomeModel::Newer(v),
        None => OutcomeModel::Current,
    }
}

fn outcome_of(latest: &str) -> (o: CheckOutcome)
    ensures
        outcome_model(o) == spec_outcome_of(latest@),
{
    match newer_than_current(latest) {
        Some(v) => CheckOutcome::Newer(v),
        None => CheckOutcome::Current,
    }
}

/// The startup nudge, from the cache alone: the newer release, unless checks
/// are switched off or the cache holds nothing usable.
pub fn cached_update_available(disabled: bool, cached_latest: Option<&str>) -> (r: Option<String>)
    ensures
        match r {
            Some(v) => !disabled && (cached_latest matches Some(l) && usable_cache(l@)
                && spec_newer_than_current(l@) == Some(v@)),
            None => disabled || !(cached_latest matches Some(l) && usable_cache(l@)
                && spec_newer_than_current(l@) is Some),
        },
{
    if disabled {
        return None;
    }
    match cached_latest {
        Some(l) => {
            if cache_usable(l) {
                newer_than_current(l)
            } else {
                None
            }
        },
        None => None,
    }
}

/// The first step of a check: an answer from a fresh cache (unless
/// forced), or a fetch.
pub enum CheckStep {
    Answer(CheckOutcome),
    Fetch,
}

/// `Some` answer before any fetch: `Unknown` when checks are off; the
/// cached answer when it is younger than the TTL and the check is not forced.
pub open spec fn spec_check_start(
    disabled: bool,
    force: bool,
    cache: Option<(Seq<char>, u64)>,
    now: u64,
    ttl: u64,
) -> Option<OutcomeModel> {
    if disabled {
        Some(OutcomeModel::Unknown)
    } else if force {
        None
    } else {
        match cache {
            Some((latest, checked_at)) => {
                let age = if now >= checked_at {
                    now - checked_at
                } else {
                    0
                };
                if usable_cache(latest) && age < ttl {
                    Some(spec_outcome_of(latest))
                } else {
                    None
                }
            },
            None => None,
        }
    }
}

pub fn check_start(disabled: bool, force: bool, cache: Option<(&str, u64)>, now: u64, ttl: u64) -> (r: CheckStep)
    ensures
        match r {
            CheckStep::Answer(o) => spec_check_start(
                disabled,
                force,
                match cache {
                    Some((l, t)) => Some((l@, t)),
                    None => None,
                },
                now,
                ttl,
            ) == Some(outcome_model(o)),
            CheckStep::Fetch => spec_check_start(
                disabled,
                force,
                match cache {
                    Some((l, t)) => Some((l@, t)),
                    None => None,
                },
                now,
                ttl,
            ) is None,
        },
{
    if disabled {
        return CheckStep::Answer(CheckOutcome::Unknown);
    }
    if !force {
        match cache {
            Some((latest, checked_at)) => {
                if cache_usable(latest) && now.saturating_sub(checked_at) < ttl {
                    return CheckStep::Answer(outcome_of(latest));
                }
            },
            None => {},
        }
    }
    CheckStep::Fetch
}

/// The answer after a fetch: the fetched tag's answer, else (offline) a
/// newer release the cache still knows, else `Unknown`.
pub fn check_finish(fetched: Option<&str>, cached_latest: Option<&str>) -> (o: CheckOutcome)
    ensures
        outcome_model(o) == match fetched {
            Some(l) => spec_outcome_of(l@),
            None => match cached_latest {
                Some(c) => if usable_cache(c@) && spec_newer_than_current(c@) is Some {
                    OutcomeModel::Newer(spec_newer_than_current(c@)->0)
                } else {
                    OutcomeModel::Unknown
                },
                None => OutcomeModel::Unknown,
            },
        },
{
    match fetched {
        Some(l) => outcome_of(l),
        None => match cached_update_available(false, cached_latest) {
            Some(v) => CheckOutcome::Newer(v),
            None => CheckOutcome::Unknown,
        },
    }
}

/// The release tag of a GitHub "latest release" response: its `tag_name`,
/// normalized, when not blank.
pub fn release_tag(body: &str) -> (r: Option<String>)
    ensures
        match r {
            Some(t) => crate::json::json_str(body@, "/tag_name"@) matches Some(raw) && spec_normalize(
                raw,
            ) == t@ && t@.len() > 0,
            None => !(crate::json::json_str(body@, "/tag_name"@) matches Some(raw) && spec_normalize(
                raw,
            ).len() > 0),
        },
{
    match crate::json::json_at(body, "/tag_name") {
        Ok(Some(Some(raw))) => {
            let t = normalize(raw.as_str());
            if t.as_str().unicode_len() > 0 {
                Some(t)
            } else {
                None
            }
        },
        _ => None,
    }
}

/// `DICTATE_NO_UPDATE_CHECK` switches checks off when it is 1, true, yes or on.
pub fn updates_disabled(value: Option<&str>) -> (b: bool)
    ensures
        b == match value {
            Some(v) => crate::config::is_truthy(v@),
            None => false,
        },
{
    match value {
        Some(v) => {
            let k = crate::text::lower_vec(&crate::text::trimmed(v));
            crate::text::eq_str(&k, "1") || crate::text::eq_str(&k, "true")
                || crate::text::eq_str(&k, "yes") || crate::text::eq_str(&k, "on")
        },
        None => false,
    }
}

// ───────────────────────── the order of releases ─────────────────────────

proof fn lemma_compare_same(l: Seq<nat>, i: int)
    ensures
        compare_from(l, l, i) is None,
    decreases l.len() - i,
{
    if 0 <= i < l.len() {
        lemma_compare_same(l, i + 1);
    }
}

proof fn lemma_compare_flip(l: Seq<nat>, c: Seq<nat>, i: int)
    ensures
        compare_from(c, l, i) == match compare_from(l, c, i) {
            Some(x) => Some(!x),
            None => None,
        },
    decreases (if l.len() > c.len() {
        l.len()
    } else {
        c.len()
    }) - i,
{
    if !(i < 0 || i >= l.len() && i >= c.len()) && part_at(l, i) == part_at(c, i) {
        lemma_compare_flip(l, c, i + 1);
    }
}

/// No release is newer than itself, and of two releases at most one is
/// newer than the other.
pub proof fn lemma_is_newer_strict(a: Seq<char>, b: Seq<char>)
    ensures
        !spec_is_newer(a, a),
        !(spec_is_newer(a, b) && spec_is_newer(b, a)),
{
    let an = spec_split_pre(spec_normalize(a)).0;
    let bn = spec_split_pre(spec_normalize(b)).0;
    lemma_compare_same(version_parts(an), 0);
    lemma_compare_flip(version_parts(an), version_parts(bn), 0);
}


proof fn lemma_compare_step(p: Seq<nat>, q: Seq<nat>, i: int)
    requires
        i >= 0,
    ensures
        compare_from(p, q, i) == if part_at(p, i) != part_at(q, i) {
            Some(part_at(p, i) > part_at(q, i))
        } else {
            compare_from(p, q, i + 1)
        },
{
    if i >= p.len() && i >= q.len() {
        assert(compare_from(p, q, i + 1) is None);
    }
}

proof fn lemma_compare_trans(l: Seq<nat>, c: Seq<nat>, d: Seq<nat>, i: int)
    requires
        i >= 0,
    ensures
        compare_from(l, c, i) == Some(true) && compare_from(c, d, i) == Some(true)
            ==> compare_from(l, d, i) == Some(true),
        compare_from(l, c, i) is None ==> compare_from(l, d, i) == compare_from(c, d, i),
        compare_from(c, d, i) is None ==> compare_from(l, d, i) == compare_from(l, c, i),
    decreases (if l.len() >= c.len() && l.len() >= d.len() {
        l.len()
    } else if c.len() >= d.len() {
        c.len()
    } else {
        d.len()
    }) - i,
{
    lemma_compare_step(l, c, i);
    lemma_compare_step(c, d, i);
    lemma_compare_step(l, d, i);
    if i >= l.len() && i >= c.len() && i >= d.len() {
        assert(compare_from(l, c, i) is None);
        assert(compare_from(c, d, i) is None);
        assert(compare_from(l, d, i) is None);
    } else {
        lemma_compare_trans(l, c, d, i + 1);
    }
}

/// Being newer is transitive: a release newer than one that is newer than a
/// third is newer than the third.
pub proof fn lemma_is_newer_transitive(a: Seq<char>, b: Seq<char>, c: Seq<char>)
    requires
        spec_is_newer(a, b),
        spec_is_newer(b, c),
    ensures
        spec_is_newer(a, c),
{
    let an = spec_split_pre(spec_normalize(a)).0;
    let bn = spec_split_pre(spec_normalize(b)).0;
    let cn = spec_split_pre(spec_normalize(c)).0;
    lemma_compare_trans(version_parts(an), version_parts(bn), version_parts(cn), 0);
}

proof fn lemma_trim_end_after(c: char, x: Seq<char>)
    ensures
        trim_end(seq![c] + x) == if trim_end(x).len() == 0 && is_ws(c) {
            Seq::<char>::empty()
        } else {
            seq![c] + trim_end(x)
        },
    decreases x.len(),
{
    if x.len() > 0 && is_ws(x.last()) {
        assert((seq![c] + x).drop_last() =~= seq![c] + x.drop_last());
        lemma_trim_end_after(c, x.drop_last());
    } else if x.len() == 0 {
        assert(seq![c] + x =~= seq![c]);
        assert(seq![c].drop_last() =~= Seq::<char>::empty());
        assert(trim_end(Seq::<char>::empty()) == Seq::<char>::empty());
        assert(trim_end(x) == x);
        assert(seq![c] + Seq::<char>::empty() =~= seq![c]);
    } else {
        assert((seq![c] + x).last() == x.last());
        assert(trim_end(x) == x);
    }
}

proof fn lemma_trim_end_twice(x: Seq<char>)
    ensures
        trim_end(trim_end(x)) == trim_end(x),
{
    crate::text::lemma_trim_end_shape(x);
}

proof fn lemma_trim_ends_commute(a: Seq<char>)
    ensures
        trim_start(trim_end(a)) == trim(a),
    decreases a.len(),
{
    if a.len() > 0 {
        let r = a.drop_first();
        assert(a =~= seq![a[0]] + r);
        lemma_trim_end_after(a[0], r);
        if is_ws(a[0]) {
            lemma_trim_ends_commute(r);
            if trim_end(r).len() > 0 {
                let t = seq![a[0]] + trim_end(r);
                assert(t.drop_first() =~= trim_end(r));
            }
        }
    }
}

proof fn lemma_normalize_v(c: char, a: Seq<char>)
    requires
        c == 'v' || c == 'V',
        !(a.len() > 0 && is_ws(a[0]) && trim(a).len() > 0 && (trim(a)[0] == 'v' || trim(a)[0] == 'V')),
    ensures
        spec_normalize(seq![c] + a) == spec_normalize(a),
{
    let s = seq![c] + a;
    assert(trim_start(s) == s);
    lemma_trim_end_after(c, a);
    let y = trim_end(a);
    let t = seq![c] + y;
    assert(t.drop_first() =~= y);
    assert(strip_v(t) == strip_v(y));
    if a.len() > 0 && is_ws(a[0]) {
        crate::text::lemma_trim_end_shape(a);
        if y.len() > 0 {
            assert(y[0] == a[0]);
        }
        assert(strip_v(y) == y);
        lemma_trim_ends_commute(a);
        lemma_trim_end_twice(trim_start(a));
        crate::text::lemma_trim_idempotent(a);
        assert(strip_v(trim(a)) == trim(a));
    } else {
        assert(trim_start(a) == a);
    }
}

/// A `v` or `V` written before a release tag changes nothing in the
/// comparison, on either side, except for a tag that is whitespace followed
/// by a `v` (there the added letter is the one stripped).
pub proof fn lemma_is_newer_ignores_v(c: char, a: Seq<char>, b: Seq<char>)
    requires
        c == 'v' || c == 'V',
        !(a.len() > 0 && is_ws(a[0]) && trim(a).len() > 0 && (trim(a)[0] == 'v' || trim(a)[0] == 'V')),
    ensures
        spec_is_newer(seq![c] + a, b) == spec_is_newer(a, b),
        spec_is_newer(b, seq![c] + a) == spec_is_newer(b, a),
{
    lemma_normalize_v(c, a);
}

} // verus!
