//! What setting a key in the config file's text does to reading it back.
use crate::config::{drops_line, kept_lines, spec_prune_retired};
use crate::config_cli::{config_value_at, set_from, spec_config_value, spec_normalize_config_key, spec_with_config_value};
use crate::text::{
    is_ws, join, lemma_split_once_at, lemma_trim_end_shape, lemma_trim_start_shape,
    lemma_trim_start_ws_prefix, split_char, split_char_state, split_once_char, starts_with, trim,
    trim_end, trim_start,
};
use crate::text_processing::lines;
use vstd::prelude::*;

verus! {

/// A line without its trailing carriage return.
pub open spec fn strip_cr(l: Seq<char>) -> Seq<char> {
    if l.len() > 0 && l.last() == '\r' {
        l.drop_last()
    } else {
        l
    }
}

pub open spec fn no_char(s: Seq<char>, c: char) -> bool {
    forall|i: int| 0 <= i < s.len() ==> s[i] != c
}

/// A variable name that a `KEY=value` line can hold and give back: not
/// empty, no `=` or line break in it, no whitespace at its ends, and not
/// read as a comment.
pub open spec fn plain_key(k: Seq<char>) -> bool {
    &&& k.len() > 0
    &&& !is_ws(k[0])
    &&& !is_ws(k.last())
    &&& k[0] != '#'
    &&& no_char(k, '=')
    &&& no_char(k, '\n')
}

/// The value one line gives to `key`, as the reader of the file sees it.
pub open spec fn read_line(l: Seq<char>, key: Seq<char>) -> Option<Seq<char>> {
    let t = trim(l);
    if t.len() == 0 || t[0] == '#' {
        None
    } else {
        match split_once_char(t, '=') {
            Some((k, v)) => if trim(k) == key {
                Some(trim(v))
            } else {
                None
            },
            None => None,
        }
    }
}

/// A line that the writer of the file takes as the setting of `key`.
pub open spec fn sets_key(l: Seq<char>, key: Seq<char>) -> bool {
    !starts_with(trim_start(l), "#"@) && (split_once_char(l, '=') matches Some((lk, _)) && trim(lk)
        == key)
}

// ───────────────────────── splitting joined lines ─────────────────────────

proof fn lemma_state_append(s: Seq<char>, t: Seq<char>, sep: char)
    requires
        no_char(t, sep),
    ensures
        split_char_state(s + t, sep) == (split_char_state(s, sep).0, split_char_state(s, sep).1 + t),
    decreases t.len(),
{
    if t.len() == 0 {
        assert(s + t =~= s);
        assert(split_char_state(s, sep).1 + t =~= split_char_state(s, sep).1);
    } else {
        let u = t.drop_last();
        assert((s + t).drop_last() =~= s + u);
        assert((s + t).last() == t.last());
        lemma_state_append(s, u, sep);
        assert(split_char_state(s, sep).1 + u + seq![t.last()] =~= split_char_state(s, sep).1 + t);
        assert((split_char_state(s, sep).1 + u).push(t.last()) =~= split_char_state(s, sep).1 + t);
    }
}

proof fn lemma_state_sep(s: Seq<char>, sep: char)
    ensures
        split_char_state(s.push(sep), sep) == (
            split_char_state(s, sep).0.push(split_char_state(s, sep).1),
            Seq::<char>::empty(),
        ),
{
    assert(s.push(sep).drop_last() =~= s);
}

proof fn lemma_join_state(ws: Seq<Seq<char>>, sep: char)
    requires
        ws.len() >= 1,
        forall|i: int| 0 <= i < ws.len() ==> no_char(#[trigger] ws[i], sep),
    ensures
        split_char_state(join(ws, seq![sep]), sep) == (ws.drop_last(), ws.last()),
    decreases ws.len(),
{
    if ws.len() == 1 {
        lemma_state_append(Seq::<char>::empty(), ws[0], sep);
        assert(Seq::<char>::empty() + ws[0] =~= ws[0]);
        assert(Seq::<char>::empty() + ws[0] =~= ws[0]);
        assert(ws.drop_last() =~= Seq::<Seq<char>>::empty());
    } else {
        let dl = ws.drop_last();
        assert forall|i: int| 0 <= i < dl.len() implies no_char(#[trigger] dl[i], sep) by {
            assert(dl[i] == ws[i]);
        }
        lemma_join_state(dl, sep);
        let j = join(dl, seq![sep]);
        assert(join(ws, seq![sep]) == j + seq![sep] + ws.last());
        assert(j + seq![sep] =~= j.push(sep));
        assert(no_char(ws.last(), sep)) by {
            assert(ws.last() == ws[ws.len() - 1]);
        }
        lemma_state_append(j.push(sep), ws.last(), sep);
        lemma_state_sep(j, sep);
        assert(dl.drop_last().push(dl.last()) =~= dl);
        assert(Seq::<char>::empty() + ws.last() =~= ws.last());
    }
}

/// Lines without line breaks, joined and ended by `\n`, split back into the
/// same lines (bar a trailing carriage return).
proof fn lemma_lines_of_joined(ws: Seq<Seq<char>>)
    requires
        ws.len() >= 1,
        forall|i: int| 0 <= i < ws.len() ==> no_char(#[trigger] ws[i], '\n'),
    ensures
        lines(join(ws, "\n"@) + "\n"@) == ws.map_values(|l: Seq<char>| strip_cr(l)),
{
    reveal_strlit("\n");
    assert("\n"@ =~= seq!['\n']);
    let j = join(ws, seq!['\n']);
    lemma_join_state(ws, '\n');
    assert(j + seq!['\n'] =~= j.push('\n'));
    lemma_state_sep(j, '\n');
    assert(ws.drop_last().push(ws.last()) =~= ws);
    let parts = split_char(j.push('\n'), '\n');
    assert(parts == ws.push(Seq::<char>::empty()));
    assert(parts.take(ws.len() as int) =~= ws);
    assert(lines(j.push('\n')) =~= ws.map_values(|l: Seq<char>| strip_cr(l)));
}

proof fn lemma_state_no_sep(s: Seq<char>, sep: char)
    ensures
        forall|i: int| 0 <= i < split_char_state(s, sep).0.len() ==> no_char(
            #[trigger] split_char_state(s, sep).0[i],
            sep,
        ),
        no_char(split_char_state(s, sep).1, sep),
    decreases s.len(),
{
    if s.len() > 0 {
        lemma_state_no_sep(s.drop_last(), sep);
    }
}

/// No line of a text holds a line break.
proof fn lemma_lines_no_newline(s: Seq<char>)
    ensures
        forall|i: int| 0 <= i < lines(s).len() ==> no_char(#[trigger] lines(s)[i], '\n'),
{
    let parts = split_char(s, '\n');
    lemma_state_no_sep(s, '\n');
    assert forall|i: int| 0 <= i < parts.len() implies no_char(#[trigger] parts[i], '\n') by {
        if i < parts.len() - 1 {
            assert(parts[i] == split_char_state(s, '\n').0[i]);
        }
    }
    assert forall|i: int| 0 <= i < lines(s).len() implies no_char(#[trigger] lines(s)[i], '\n') by {
        let l = lines(s)[i];
        if i < parts.len() - 1 {
            let p = parts[i];
            assert(l == strip_cr(p));
            assert(no_char(p, '\n'));
        } else {
            assert(l == parts[parts.len() - 1]);
        }
    }
}

// ───────────────────────── the writer's lines ─────────────────────────

proof fn lemma_set_from_elems(ls: Seq<Seq<char>>, key: Seq<char>, entry: Seq<char>, i: int, found: bool)
    requires
        0 <= i,
    ensures
        forall|j: int| 0 <= j < set_from(ls, key, entry, i, found).len() ==> #[trigger] set_from(
            ls,
            key,
            entry,
            i,
            found,
        )[j] == entry || ls.contains(set_from(ls, key, entry, i, found)[j]),
        !found ==> set_from(ls, key, entry, i, found).len() >= 1,
    decreases ls.len() - i,
{
    if i < ls.len() {
        let l = ls[i];
        let sets = !found && sets_key(l, key);
        lemma_set_from_elems(ls, key, entry, i + 1, sets || found);
        let rest = set_from(ls, key, entry, i + 1, sets || found);
        let s = set_from(ls, key, entry, i, found);
        if sets {
            assert(s == seq![entry] + rest);
        } else {
            assert(s == seq![l] + rest);
        }
        assert forall|j: int| 0 <= j < s.len() implies #[trigger] s[j] == entry || ls.contains(s[j]) by {
            if j > 0 {
                assert(s[j] == rest[j - 1]);
            } else if !sets {
                assert(ls[i] == l);
            }
        }
    }
}

// ───────────────────────── the reader's lines ─────────────────────────

proof fn lemma_value_at_shift(a: Seq<char>, r: Seq<Seq<char>>, key: Seq<char>, i: int)
    requires
        0 <= i,
    ensures
        config_value_at(seq![a] + r, key, i + 1) == config_value_at(r, key, i),
    decreases r.len() - i,
{
    let x = seq![a] + r;
    if i < r.len() {
        assert(x[i + 1] == r[i]);
        lemma_value_at_shift(a, r, key, i + 1);
    }
}

proof fn lemma_value_at_step(x: Seq<Seq<char>>, key: Seq<char>)
    requires
        x.len() > 0,
    ensures
        config_value_at(x, key, 0) == match read_line(x[0], key) {
            Some(v) => Some(v),
            None => config_value_at(x, key, 1),
        },
{
}

/// `trim_start` skips a prefix of whitespace.
proof fn lemma_trim_start_index(s: Seq<char>)
    ensures
        0 <= s.len() - trim_start(s).len() <= s.len(),
        trim_start(s) == s.skip(s.len() - trim_start(s).len()),
        forall|k: int| 0 <= k < s.len() - trim_start(s).len() ==> is_ws(#[trigger] s[k]),
    decreases s.len(),
{
    if s.len() > 0 && is_ws(s[0]) {
        lemma_trim_start_index(s.drop_first());
        let n = s.len() - trim_start(s).len();
        assert(s.drop_first().skip(n - 1) =~= s.skip(n));
        assert forall|k: int| 0 <= k < n implies is_ws(#[trigger] s[k]) by {
            if k > 0 {
                assert(s[k] == s.drop_first()[k - 1]);
            }
        }
    } else {
        assert(s.skip(0) =~= s);
    }
}

/// Whitespace in front changes nothing once trimmed.
proof fn lemma_trim_start_ws_front(s: Seq<char>, p: int)
    requires
        0 <= p <= s.len(),
        forall|k: int| 0 <= k < p ==> is_ws(#[trigger] s[k]),
    ensures
        trim_start(s) == trim_start(s.skip(p)),
    decreases p,
{
    if p == 0 {
        assert(s.skip(0) =~= s);
    } else {
        assert(is_ws(s[0]));
        assert(s.drop_first().skip(p - 1) =~= s.skip(p));
        assert forall|k: int| 0 <= k < p - 1 implies is_ws(#[trigger] s.drop_first()[k]) by {
            assert(s.drop_first()[k] == s[k + 1]);
        }
        lemma_trim_start_ws_front(s.drop_first(), p - 1);
    }
}

pub open spec fn split_parts(s: Seq<char>, c: char) -> bool {
    match split_once_char(s, c) {
        Some((a, b)) => s == a + seq![c] + b && no_char(a, c),
        None => no_char(s, c),
    }
}

proof fn lemma_split_once_parts(s: Seq<char>, c: char)
    ensures
        split_parts(s, c),
    decreases s.len(),
{
    if s.len() > 0 {
        if s[0] == c {
            assert(s =~= Seq::<char>::empty() + seq![c] + s.drop_first());
        } else {
            lemma_split_once_parts(s.drop_first(), c);
            match split_once_char(s.drop_first(), c) {
                Some((a, b)) => {
                    assert(s.drop_first() == a + seq![c] + b);
                    assert(s =~= seq![s[0]] + s.drop_first());
                    assert(s =~= (seq![s[0]] + a) + seq![c] + b);
                    assert forall|i: int| 0 <= i < (seq![s[0]] + a).len() implies (seq![s[0]]
                        + a)[i] != c by {
                        if i > 0 {
                            assert((seq![s[0]] + a)[i] == a[i - 1]);
                        }
                    }
                },
                None => {
                    assert forall|i: int| 0 <= i < s.len() implies s[i] != c by {
                        if i > 0 {
                            assert(s[i] == s.drop_first()[i - 1]);
                        }
                    }
                },
            }
        }
    }
}

/// A line the reader takes as setting `key` is one the writer replaces.
proof fn lemma_read_means_sets(l: Seq<char>, key: Seq<char>)
    requires
        read_line(strip_cr(l), key) is Some,
    ensures
        sets_key(l, key),
{
    let m = strip_cr(l);
    let ts = trim_start(m);
    let t = trim(m);
    lemma_trim_start_index(m);
    lemma_trim_start_shape(m);
    lemma_trim_end_shape(ts);
    let i = m.len() - ts.len();
    assert(t == ts.take(t.len() as int));
    assert(t.len() > 0 && t[0] != '#');
    assert(forall|x: int| 0 <= x < t.len() ==> t[x] == #[trigger] m[i + x]);
    lemma_split_once_parts(t, '=');
    let (a, b) = split_once_char(t, '=')->0;
    let e = a.len() as int;
    assert(t[e] == '=') by {
        assert(t == a + seq!['='] + b);
    }
    assert(forall|x: int| 0 <= x < e ==> t[x] == a[x]) by {
        assert(t == a + seq!['='] + b);
    }
    assert(forall|k: int| 0 <= k < m.len() ==> l[k] == m[k]);
    assert(m.len() <= l.len());
    assert forall|k: int| 0 <= k < i + e implies l[k] != '=' by {
        if k < i {
            assert(is_ws(m[k]));
        } else {
            assert(m[k] == t[k - i]);
            assert(a[k - i] != '=');
        }
    }
    assert(l[i + e] == '=') by {
        assert(m[i + e] == t[e]);
    }
    lemma_split_once_at(l, '=', i + e);
    let lk = l.take(i + e);
    assert forall|k: int| 0 <= k < i implies is_ws(#[trigger] lk[k]) by {
        assert(lk[k] == m[k]);
    }
    lemma_trim_start_ws_front(lk, i);
    assert(lk.skip(i) =~= a) by {
        assert forall|x: int| 0 <= x < e implies lk.skip(i)[x] == a[x] by {
            assert(lk.skip(i)[x] == m[i + x]);
        }
    }
    assert(trim(lk) == trim(a));
    assert(trim(a) == key);
    assert(split_once_char(l, '=') == Some((lk, l.skip(i + e + 1))));
    // Not a comment: the first non-blank character is `t[0]`.
    assert forall|k: int| 0 <= k < i implies is_ws(#[trigger] l[k]) by {
        assert(l[k] == m[k]);
    }
    assert(!is_ws(l[i])) by {
        assert(ts[0] == m[i]);
    }
    lemma_trim_start_ws_prefix(l, i);
    reveal_strlit("#");
    assert(trim_start(l)[0] == t[0]);
    assert("#"@ =~= seq!['#']);
    if starts_with(trim_start(l), "#"@) {
        assert(trim_start(l).take(1)[0] == trim_start(l)[0]);
    }
}

// ───────────────────────── the line that was written ─────────────────────────

proof fn lemma_trim_end_after(a: Seq<char>, b: Seq<char>)
    requires
        a.len() > 0,
        !is_ws(a.last()),
    ensures
        trim_end(a + b) == a + trim_end(b),
    decreases b.len(),
{
    if b.len() == 0 {
        assert(a + b =~= a);
        assert(a + trim_end(b) =~= a);
    } else {
        assert((a + b).last() == b.last());
        if is_ws(b.last()) {
            assert((a + b).drop_last() =~= a + b.drop_last());
            lemma_trim_end_after(a, b.drop_last());
        }
    }
}

/// A trailing whitespace character changes nothing once trimmed.
proof fn lemma_trim_drop_ws_last(s: Seq<char>)
    requires
        s.len() > 0,
        is_ws(s.last()),
    ensures
        trim(s) == trim(s.drop_last()),
    decreases s.len(),
{
    if s.len() == 1 {
        assert(s.drop_last() =~= Seq::<char>::empty());
        assert(trim_start(s.drop_first()) == s.drop_first());
        assert(s.drop_first() =~= Seq::<char>::empty());
    } else if is_ws(s[0]) {
        assert(s.drop_last().drop_first() =~= s.drop_first().drop_last());
        assert(s.drop_first().last() == s.last());
        lemma_trim_drop_ws_last(s.drop_first());
        assert(s.drop_last()[0] == s[0]);
    } else {
        assert(s.drop_last()[0] == s[0]);
        assert(trim_start(s.drop_last()) == s.drop_last());
    }
}

proof fn lemma_trim_of_trim_end(s: Seq<char>)
    ensures
        trim(trim_end(s)) == trim(s),
    decreases s.len(),
{
    if s.len() > 0 && is_ws(s.last()) {
        lemma_trim_of_trim_end(s.drop_last());
        lemma_trim_drop_ws_last(s);
    }
}

/// The written line gives the value back, trimmed.
proof fn lemma_entry_reads_back(key: Seq<char>, value: Seq<char>)
    requires
        plain_key(key),
    ensures
        read_line(strip_cr(key + seq!['='] + value), key) == Some(trim(value)),
{
    let a = key + seq!['='];
    let e = a + value;
    let w = if value.len() > 0 && value.last() == '\r' {
        value.drop_last()
    } else {
        value
    };
    assert(strip_cr(e) == a + w) by {
        if value.len() > 0 && value.last() == '\r' {
            assert(e.last() == '\r');
            assert(e.drop_last() =~= a + value.drop_last());
        } else {
            assert(e.len() > 0);
            if value.len() == 0 {
                assert(e.last() == '=');
                assert(a + w =~= e);
            } else {
                assert(e.last() == value.last());
            }
        }
    }
    assert(trim(w) == trim(value)) by {
        if value.len() > 0 && value.last() == '\r' {
            lemma_trim_drop_ws_last(value);
        }
    }
    let m = a + w;
    assert(m[0] == key[0]);
    assert(trim_start(m) == m);
    assert(a.last() == '=');
    lemma_trim_end_after(a, w);
    let t = a + trim_end(w);
    assert(trim(m) == t);
    assert(t[0] == key[0]);
    assert(t[key.len() as int] == '=');
    assert forall|j: int| 0 <= j < key.len() implies t[j] != '=' by {
        assert(t[j] == key[j]);
    }
    lemma_split_once_at(t, '=', key.len() as int);
    assert(t.take(key.len() as int) =~= key);
    assert(t.skip(key.len() as int + 1) =~= trim_end(w));
    assert(trim_start(key) == key);
    assert(trim_end(key) == key);
    lemma_trim_of_trim_end(w);
}

proof fn lemma_read_after_set_from(ls: Seq<Seq<char>>, key: Seq<char>, value: Seq<char>, i: int)
    requires
        0 <= i,
        plain_key(key),
    ensures
        config_value_at(
            set_from(ls, key, key + seq!['='] + value, i, false).map_values(|l: Seq<char>| strip_cr(l)),
            key,
            0,
        ) == Some(trim(value)),
    decreases ls.len() - i,
{
    let entry = key + seq!['='] + value;
    let s = set_from(ls, key, entry, i, false);
    let x = s.map_values(|l: Seq<char>| strip_cr(l));
    lemma_entry_reads_back(key, value);
    if i >= ls.len() {
        assert(s == seq![entry]);
        lemma_value_at_step(x, key);
    } else {
        let l = ls[i];
        if sets_key(l, key) {
            assert(s == seq![entry] + set_from(ls, key, entry, i + 1, true));
            assert(x[0] == strip_cr(entry));
            lemma_value_at_step(x, key);
        } else {
            let rest = set_from(ls, key, entry, i + 1, false);
            assert(s == seq![l] + rest);
            let xr = rest.map_values(|q: Seq<char>| strip_cr(q));
            assert(x =~= seq![strip_cr(l)] + xr);
            if read_line(strip_cr(l), key) is Some {
                lemma_read_means_sets(l, key);
            }
            lemma_value_at_step(x, key);
            lemma_value_at_shift(strip_cr(l), xr, key, 0);
            lemma_read_after_set_from(ls, key, value, i + 1);
        }
    }
}

/// Reading a key back from the config file's text just after setting it
/// gives the value that was set, trimmed; whatever else the file holds.
/// This holds for values without line breaks, and for keys whose variable
/// name can stand on its own in a `KEY=value` line.
pub proof fn lemma_config_get_after_set(contents: Seq<char>, key: Seq<char>, value: Seq<char>)
    requires
        plain_key(spec_normalize_config_key(key)),
        no_char(value, '\n'),
    ensures
        spec_config_value(spec_with_config_value(contents, key, value), key) == Some(trim(value)),
{
    let k = spec_normalize_config_key(key);
    reveal_strlit("=");
    assert("="@ =~= seq!['=']);
    let entry = k + seq!['='] + value;
    assert(k + "="@ + value == entry);
    let ls = lines(contents);
    let s = set_from(ls, k, entry, 0, false);
    lemma_set_from_elems(ls, k, entry, 0, false);
    lemma_lines_no_newline(contents);
    assert(no_char(entry, '\n')) by {
        assert forall|j: int| 0 <= j < entry.len() implies entry[j] != '\n' by {
            if j < k.len() {
                assert(entry[j] == k[j]);
            } else if j > k.len() {
                assert(entry[j] == value[j - k.len() - 1]);
            }
        }
    }
    assert forall|j: int| 0 <= j < s.len() implies no_char(#[trigger] s[j], '\n') by {
        if s[j] != entry {
            assert(ls.contains(s[j]));
            let q = choose|q: int| 0 <= q < ls.len() && ls[q] == s[j];
            assert(no_char(ls[q], '\n'));
        }
    }
    lemma_lines_of_joined(s);
    lemma_read_after_set_from(ls, k, value, 0);
}

// ───────────────────────── pruning retired keys ─────────────────────────

proof fn lemma_kept_from(s: Seq<Seq<char>>)
    ensures
        forall|i: int| 0 <= i < kept_lines(s).len() ==> !drops_line(#[trigger] kept_lines(s)[i]) && s.contains(
            kept_lines(s)[i],
        ),
    decreases s.len(),
{
    reveal(Seq::filter);
    if s.len() > 0 {
        let d = s.drop_last();
        lemma_kept_from(d);
        let sub = kept_lines(d);
        let k = kept_lines(s);
        assert forall|i: int| 0 <= i < k.len() implies !drops_line(#[trigger] k[i]) && s.contains(k[i]) by {
            if i < sub.len() {
                assert(k[i] == sub[i]);
                let j = choose|j: int| 0 <= j < d.len() && d[j] == sub[i];
                assert(s[j] == sub[i]);
            } else {
                assert(k[i] == s.last());
                assert(s[s.len() - 1] == s.last());
            }
        }
    }
}

proof fn lemma_kept_all(s: Seq<Seq<char>>)
    requires
        forall|i: int| 0 <= i < s.len() ==> !drops_line(#[trigger] s[i]),
    ensures
        kept_lines(s) == s,
    decreases s.len(),
{
    reveal(Seq::filter);
    if s.len() > 0 {
        let d = s.drop_last();
        assert forall|i: int| 0 <= i < d.len() implies !drops_line(#[trigger] d[i]) by {
            assert(d[i] == s[i]);
        }
        lemma_kept_all(d);
        assert(!drops_line(s[s.len() - 1]));
        assert(d.push(s.last()) =~= s);
    }
}

/// Pruning the retired keys from the environment file's text, then pruning
/// the result again, removes nothing the second time.
pub proof fn lemma_prune_retired_once(contents: Seq<char>)
    ensures
        spec_prune_retired(contents) matches Some(out) ==> spec_prune_retired(out) is None,
{
    let ls = lines(contents);
    let k = kept_lines(ls);
    if k.len() != ls.len() {
        reveal_strlit("\n");
        assert("\n"@ =~= seq!['\n']);
        let j = join(k, "\n"@);
        lemma_kept_from(ls);
        lemma_lines_no_newline(contents);
        if j.len() > 0 {
            assert(k.len() >= 1);
            assert forall|i: int| 0 <= i < k.len() implies no_char(#[trigger] k[i], '\n') by {
                let q = choose|q: int| 0 <= q < ls.len() && ls[q] == k[i];
                assert(no_char(ls[q], '\n'));
            }
            lemma_lines_of_joined(k);
            assert(j.push('\n') == j + "\n"@);
            let ls2 = lines(j.push('\n'));
            assert forall|i: int| 0 <= i < ls2.len() implies !drops_line(#[trigger] ls2[i]) by {
                assert(ls2[i] == strip_cr(k[i]));
                assert(!drops_line(k[i]));
                if k[i].len() > 0 && k[i].last() == '\r' {
                    lemma_trim_drop_ws_last(k[i]);
                }
            }
            lemma_kept_all(ls2);
        } else {
            let parts = split_char(j, '\n');
            assert(j =~= Seq::<char>::empty());
            assert(parts =~= seq![Seq::<char>::empty()]);
            assert(lines(j) =~= Seq::<Seq<char>>::empty());
            lemma_kept_all(lines(j));
        }
    }
}

} // verus!
