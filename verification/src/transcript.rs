//! What has been typed in this dictation session, and where its recent words,
//! sentences and lines are, in UTF-8 byte offsets of the typed text.
use crate::text::{
    blen, byte_offset, char_index_at_byte, chars_of, char_is_ws, char_len_utf8, is_boundary, is_ws,
    lemma_blen_concat, lemma_blen_mono, lemma_boundary_unique, lower, lower_vec, rfind_vec,
    occurs_at, slice_vec, string_of, trim, trim_end, trim_end_index as chars_trim_end_index,
    trim_start, trim_vec, concat,
};
use std::ops::Range;
use vstd::prelude::*;

verus! {

/// `std::time::Instant`, carried as an opaque timestamp.
#[verifier::external_type_specification]
#[verifier::external_body]
pub struct ExInstant(std::time::Instant);

/// `Instant::now`: the current monotonic time. Nothing is stated of the value.
#[verifier::external_body]
fn instant_now() -> std::time::Instant {
    std::time::Instant::now()
}

pub type SegmentId = u64;

#[derive(Debug, Clone, Copy, PartialEq, Eq, Structural)]
pub enum SegmentKind {
    Inserted,
    Deleted,
    Command,
    RejectedCommand,
}

#[derive(Debug)]
pub struct TranscriptSegment {
    pub id: SegmentId,
    pub text: String,
    pub kind: SegmentKind,
    pub typed_range: Range<usize>,
    pub started_at: Option<std::time::Instant>,
    pub finalized_at: Option<std::time::Instant>,
}

/// A segment taken by its id, text, kind and byte range, and by which of
/// its two instants (start and finalization) are recorded.
pub struct SegmentModel {
    pub id: nat,
    pub text: Seq<char>,
    pub kind: SegmentKind,
    pub start: nat,
    pub end: nat,
    pub started: bool,
    pub finalized: bool,
}

pub open spec fn segment_model(s: TranscriptSegment) -> SegmentModel {
    SegmentModel {
        id: s.id as nat,
        text: s.text@,
        kind: s.kind,
        start: s.typed_range.start as nat,
        end: s.typed_range.end as nat,
        started: s.started_at is Some,
        finalized: s.finalized_at is Some,
    }
}

pub open spec fn segment_models(v: Seq<TranscriptSegment>) -> Seq<SegmentModel> {
    v.map_values(|s: TranscriptSegment| segment_model(s))
}

/// The typed text of a session and the log of edits made to it.
#[derive(Debug)]
pub struct TranscriptBuffer {
    text: String,
    segments: Vec<TranscriptSegment>,
    next_id: SegmentId,
}

/// The value of a buffer: typed text, segment log, next segment id.
pub struct TranscriptModel {
    pub text: Seq<char>,
    pub segments: Seq<SegmentModel>,
    pub next_id: nat,
}

impl View for TranscriptBuffer {
    type V = TranscriptModel;

    closed spec fn view(&self) -> TranscriptModel {
        TranscriptModel {
            text: self.text@,
            segments: segment_models(self.segments@),
            next_id: self.next_id as nat,
        }
    }
}

// ───────────────────────── text positions ─────────────────────────

pub open spec fn is_word_start(s: Seq<char>, k: int) -> bool {
    0 <= k < s.len() && !is_ws(s[k]) && (k == 0 || is_ws(s[k - 1]))
}

/// Number of word starts in `s[a..b]`.
pub open spec fn starts_in(s: Seq<char>, a: int, b: int) -> nat
    decreases b - a,
{
    if a >= b {
        0
    } else {
        starts_in(s, a + 1, b) + if is_word_start(s, a) {
            1nat
        } else {
            0nat
        }
    }
}

/// Two different word starts before `b` see different numbers of words up to `b`.
pub proof fn lemma_starts_in_strict(s: Seq<char>, k1: int, k2: int, b: int)
    requires
        0 <= k1 < k2 < b <= s.len(),
        is_word_start(s, k1),
    ensures
        starts_in(s, k1, b) > starts_in(s, k2, b),
    decreases k2 - k1,
{
    if k1 + 1 < k2 {
        lemma_starts_in_mono(s, k1 + 1, k2, b);
    }
}

pub proof fn lemma_starts_in_mono(s: Seq<char>, k1: int, k2: int, b: int)
    requires
        0 <= k1 <= k2 <= b,
    ensures
        starts_in(s, k1, b) >= starts_in(s, k2, b),
    decreases k2 - k1,
{
    if k1 < k2 {
        lemma_starts_in_mono(s, k1 + 1, k2, b);
    }
}

/// Character index where the last `count` words before `je` begin.
pub open spec fn words_start_at(s: Seq<char>, je: int, count: nat, k: int) -> bool {
    is_word_start(s, k) && k < je && starts_in(s, k, je) == count
}

/// At most one place begins the last `count` words.
pub proof fn lemma_words_start_unique(s: Seq<char>, je: int, count: nat, k1: int, k2: int)
    requires
        je <= s.len(),
        words_start_at(s, je, count, k1),
        words_start_at(s, je, count, k2),
    ensures
        k1 == k2,
{
    if k1 < k2 {
        lemma_starts_in_strict(s, k1, k2, je);
    } else if k2 < k1 {
        lemma_starts_in_strict(s, k2, k1, je);
    }
}

/// Byte range of the last `count` words before the trailing whitespace.
pub open spec fn spec_last_words_range(s: Seq<char>, count: nat) -> Option<(nat, nat)> {
    let je = content_end(s);
    if exists|k: int| #[trigger] words_start_at(s, je, count, k) {
        Some(byte_range(s, choose|k: int| #[trigger] words_start_at(s, je, count, k), je))
    } else {
        None
    }
}

pub proof fn lemma_starts_in_at_start(s: Seq<char>, k: int, b: int)
    requires
        is_word_start(s, k),
        k < b,
    ensures
        starts_in(s, k, b) >= 1,
{
}

pub open spec fn is_terminator(c: char) -> bool {
    c == '.' || c == '!' || c == '?' || c == '\n'
}

/// Index of the last sentence terminator before `k`, or `-1`.
pub open spec fn last_terminator_before(s: Seq<char>, k: int) -> int
    decreases k,
{
    if k <= 0 {
        -1
    } else if is_terminator(s[k - 1]) {
        k - 1
    } else {
        last_terminator_before(s, k - 1)
    }
}

/// Index of the last newline before `k`, or `-1`.
pub open spec fn last_newline_before(s: Seq<char>, k: int) -> int
    decreases k,
{
    if k <= 0 {
        -1
    } else if s[k - 1] == '\n' {
        k - 1
    } else {
        last_newline_before(s, k - 1)
    }
}

/// Character length of the text once trailing whitespace is dropped.
pub open spec fn content_end(s: Seq<char>) -> int {
    trim_end(s).len() as int
}

/// Start (character index) of the last sentence ending at `je`: after the last
/// `.`, `!`, `?` or newline that is not the final character, whitespace skipped.
pub open spec fn sentence_start(s: Seq<char>, je: int) -> int {
    let boundary = last_terminator_before(s, je - 1) + 1;
    je - trim_start(s.subrange(boundary, je)).len()
}

pub open spec fn byte_range(s: Seq<char>, a: int, b: int) -> (nat, nat) {
    (blen(s.take(a)), blen(s.take(b)))
}

pub open spec fn range_model(r: Range<usize>) -> (nat, nat) {
    (r.start as nat, r.end as nat)
}

pub open spec fn opt_range_model(r: Option<Range<usize>>) -> Option<(nat, nat)> {
    match r {
        Some(r) => Some(range_model(r)),
        None => None,
    }
}

pub open spec fn spec_last_line_range(s: Seq<char>) -> Option<(nat, nat)> {
    let je = content_end(s);
    if je == 0 {
        None
    } else {
        Some(byte_range(s, last_newline_before(s, je) + 1, je))
    }
}

pub open spec fn spec_last_sentence_range(s: Seq<char>) -> Option<(nat, nat)> {
    let je = content_end(s);
    if je == 0 {
        None
    } else {
        Some(byte_range(s, sentence_start(s, je), je))
    }
}

/// Where the trimmed needle last occurs, case-insensitively, in the text up
/// to its trailing whitespace; the byte range is reckoned in the lowercased
/// strings, and kept only when it ends where that text ends.
pub open spec fn spec_last_exact_suffix_match(s: Seq<char>, needle: Seq<char>) -> Option<
    (nat, nat),
> {
    let h = trim_end(s);
    let n = trim(needle);
    let lh = lower(h);
    let ln = lower(n);
    if n.len() == 0 {
        None
    } else if exists|i: int| #[trigger] occurs_at(lh, ln, i) {
        let i = choose|i: int| occurs_at(lh, ln, i) && forall|j: int| i < j ==> !#[trigger] occurs_at(lh, ln, j);
        let start = blen(lh.take(i));
        if start + blen(ln) == blen(h) {
            Some((start, start + blen(ln)))
        } else {
            None
        }
    } else {
        None
    }
}

/// The characters between two byte offsets of `s`, when both are boundaries.
pub open spec fn valid_byte_range(s: Seq<char>, start: nat, end: nat) -> bool {
    exists|a: int, b: int| is_boundary(s, start, a) && is_boundary(s, end, b) && a <= b
}

pub open spec fn char_range(s: Seq<char>, start: nat, end: nat) -> (int, int) {
    choose|p: (int, int)| is_boundary(s, start, p.0) && is_boundary(s, end, p.1) && p.0 <= p.1
}

pub open spec fn recent_window_spec(s: Seq<char>, max_chars: nat) -> Seq<char> {
    if s.len() <= max_chars {
        s
    } else if max_chars == 0 {
        s.skip(s.len() - 1)
    } else {
        s.skip(s.len() - max_chars)
    }
}

/// The buffer after appending typed text.
pub open spec fn append_model(m: TranscriptModel, t: Seq<char>) -> TranscriptModel {
    TranscriptModel {
        text: m.text + t,
        segments: m.segments.push(
            SegmentModel {
                id: m.next_id,
                text: t,
                kind: SegmentKind::Inserted,
                start: blen(m.text),
                end: blen(m.text) + blen(t),
                started: false,
                finalized: true,
            },
        ),
        next_id: m.next_id + 1,
    }
}

/// The buffer after logging a command (kind `Command` or `RejectedCommand`).
pub open spec fn command_model(m: TranscriptModel, t: Seq<char>, kind: SegmentKind) -> TranscriptModel {
    TranscriptModel {
        text: m.text,
        segments: m.segments.push(
            SegmentModel {
                id: m.next_id,
                text: t,
                kind,
                start: blen(m.text),
                end: blen(m.text),
                started: false,
                finalized: true,
            },
        ),
        next_id: m.next_id + 1,
    }
}

/// The buffer after removing the bytes `start..end`.
pub open spec fn delete_model(m: TranscriptModel, start: nat, end: nat) -> TranscriptModel {
    let (a, b) = char_range(m.text, start, end);
    TranscriptModel {
        text: m.text.take(a) + m.text.skip(b),
        segments: m.segments.push(
            SegmentModel {
                id: m.next_id,
                text: m.text.subrange(a, b),
                kind: SegmentKind::Deleted,
                start,
                end,
                started: false,
                finalized: true,
            },
        ),
        next_id: m.next_id + 1,
    }
}

/// The buffer after replacing the bytes `start..end` with `r`.
pub open spec fn replace_model(m: TranscriptModel, start: nat, end: nat, r: Seq<char>) -> TranscriptModel {
    let (a, b) = char_range(m.text, start, end);
    TranscriptModel {
        text: m.text.take(a) + r + m.text.skip(b),
        segments: m.segments.push(
            SegmentModel {
                id: m.next_id,
                text: m.text.subrange(a, b),
                kind: SegmentKind::Deleted,
                start,
                end,
                started: false,
                finalized: true,
            },
        ).push(
            SegmentModel {
                id: m.next_id + 1,
                text: r,
                kind: SegmentKind::Inserted,
                start,
                end: start + blen(r),
                started: false,
                finalized: true,
            },
        ),
        next_id: m.next_id + 2,
    }
}

/// The buffer after it is cleared (ids keep counting).
pub open spec fn clear_model(m: TranscriptModel) -> TranscriptModel {
    TranscriptModel { text: Seq::<char>::empty(), segments: Seq::<SegmentModel>::empty(), next_id: m.next_id }
}

/// A logged segment's shape: its range is ordered; inserted and deleted
/// text spans exactly its range; a command covers no text; it records its
/// finalization and no start.
pub open spec fn segment_shape_ok(g: SegmentModel) -> bool {
    &&& g.start <= g.end
    &&& (g.kind is Inserted || g.kind is Deleted) ==> blen(g.text) == g.end - g.start
    &&& (g.kind is Command || g.kind is RejectedCommand) ==> g.start == g.end
    &&& !g.started && g.finalized
}

/// The segment log of a buffer: ids strictly increase, all lie below the
/// next id, and every segment has its shape.
pub open spec fn log_ok(m: TranscriptModel) -> bool {
    &&& forall|i: int, j: int|
        0 <= i < j < m.segments.len() ==> (#[trigger] m.segments[i]).id < (#[trigger] m.segments[j]).id
    &&& forall|i: int| 0 <= i < m.segments.len() ==> (#[trigger] m.segments[i]).id < m.next_id
    &&& forall|i: int| 0 <= i < m.segments.len() ==> segment_shape_ok(#[trigger] m.segments[i])
}

/// From `m` to `m2` no id is reused: the next id never goes back, and each
/// segment of `m2` is either one that `m` had at the same place or has an
/// id `m` had not given out.
pub open spec fn ids_fresh(m: TranscriptModel, m2: TranscriptModel) -> bool {
    &&& m2.next_id >= m.next_id
    &&& forall|i: int|
        0 <= i < m2.segments.len() ==> ((#[trigger] m2.segments[i]).id >= m.next_id || (i
            < m.segments.len() && m2.segments[i] == m.segments[i]))
}

proof fn lemma_push_ok(m: TranscriptModel, g: SegmentModel)
    requires
        log_ok(m),
        g.id == m.next_id,
        segment_shape_ok(g),
    ensures
        log_ok(TranscriptModel { text: m.text, segments: m.segments.push(g), next_id: m.next_id + 1 }),
{
}

proof fn lemma_range_span(s: Seq<char>, start: nat, end: nat)
    requires
        valid_byte_range(s, start, end),
    ensures
        start <= end,
        char_range(s, start, end).0 <= char_range(s, start, end).1,
        blen(s.subrange(char_range(s, start, end).0, char_range(s, start, end).1)) == end - start,
{
    let (wa, wb) = choose|wa: int, wb: int|
        is_boundary(s, start, wa) && is_boundary(s, end, wb) && wa <= wb;
    let w = (wa, wb);
    assert(is_boundary(s, start, w.0) && is_boundary(s, end, w.1) && w.0 <= w.1);
    let (a, b) = char_range(s, start, end);
    assert(is_boundary(s, start, a) && is_boundary(s, end, b) && a <= b);
    assert(s.take(b) =~= s.take(a) + s.subrange(a, b));
    lemma_blen_concat(s.take(a), s.subrange(a, b));
    lemma_blen_mono(s, a, b);
}

/// Every operation on the buffer keeps its segment log well formed and
/// never gives out an id twice, `clear` included.
pub proof fn lemma_segment_log_kept(
    m: TranscriptModel,
    t: Seq<char>,
    kind: SegmentKind,
    start: nat,
    end: nat,
)
    requires
        log_ok(m),
    ensures
        log_ok(TranscriptModel { text: Seq::<char>::empty(), segments: Seq::<SegmentModel>::empty(), next_id: 0 }),
        log_ok(append_model(m, t)) && ids_fresh(m, append_model(m, t)),
        (kind is Command || kind is RejectedCommand) ==> log_ok(command_model(m, t, kind)) && ids_fresh(
            m,
            command_model(m, t, kind),
        ),
        valid_byte_range(m.text, start, end) ==> log_ok(delete_model(m, start, end)) && ids_fresh(
            m,
            delete_model(m, start, end),
        ),
        valid_byte_range(m.text, start, end) ==> log_ok(replace_model(m, start, end, t)) && ids_fresh(
            m,
            replace_model(m, start, end, t),
        ),
        log_ok(clear_model(m)) && ids_fresh(m, clear_model(m)),
{
    lemma_blen_concat(m.text, t);
    let ga = SegmentModel {
        id: m.next_id,
        text: t,
        kind: SegmentKind::Inserted,
        start: blen(m.text),
        end: blen(m.text) + blen(t),
        started: false,
        finalized: true,
    };
    lemma_push_ok(m, ga);
    assert(append_model(m, t).segments == m.segments.push(ga));
    if kind is Command || kind is RejectedCommand {
        let gc = SegmentModel {
            id: m.next_id,
            text: t,
            kind,
            start: blen(m.text),
            end: blen(m.text),
            started: false,
            finalized: true,
        };
        lemma_push_ok(m, gc);
    }
    if valid_byte_range(m.text, start, end) {
        lemma_range_span(m.text, start, end);
        let (a, b) = char_range(m.text, start, end);
        let gd = SegmentModel {
            id: m.next_id,
            text: m.text.subrange(a, b),
            kind: SegmentKind::Deleted,
            start,
            end,
            started: false,
            finalized: true,
        };
        lemma_push_ok(m, gd);
        let m1 = TranscriptModel { text: m.text, segments: m.segments.push(gd), next_id: m.next_id + 1 };
        let gi = SegmentModel {
            id: m.next_id + 1,
            text: t,
            kind: SegmentKind::Inserted,
            start,
            end: start + blen(t),
            started: false,
            finalized: true,
        };
        lemma_push_ok(m1, gi);
    }
}

/// Byte length of the text without trailing whitespace.
pub fn trim_end_index(text: &str) -> (n: usize)
    requires
        blen(text@) <= usize::MAX,
    ensures
        n == blen(trim_end(text@)),
{
    let v = chars_of(text);
    let j = chars_trim_end_index(&v);
    byte_offset(&v, j)
}

/// Byte range of the last `count` words of a text, before its trailing
/// whitespace.
pub fn last_words_range_in(text: &str, count: usize) -> (r: Option<Range<usize>>)
    requires
        blen(text@) <= usize::MAX,
    ensures
        opt_range_model(r) == spec_last_words_range(text@, count as nat),
{
    let v = chars_of(text);
    let je = chars_trim_end_index(&v);
    proof {
        assert(v@.take(je as int).len() == je);
    }
    if count == 0 || je == 0 {
        proof {
            assert forall|k: int| !#[trigger] words_start_at(v@, je as int, count as nat, k) by {
                if words_start_at(v@, je as int, count as nat, k) {
                    lemma_starts_in_at_start(v@, k, je as int);
                }
            }
        }
        return None;
    }
    let mut k: usize = je;
    let mut c: usize = 0;
    while k > 0
        invariant
            0 <= k <= je <= v@.len(),
            v@ == text@,
            blen(v@) <= usize::MAX,
            je == content_end(v@),
            c == starts_in(v@, k as int, je as int),
            c < count,
        decreases k,
    {
        k = k - 1;
        let starts = !char_is_ws(v[k]) && (k == 0 || char_is_ws(v[k - 1]));
        if starts {
            c = c + 1;
            if c == count {
                proof {
                    lemma_blen_mono(v@, k as int, v@.len() as int);
                    lemma_blen_mono(v@, je as int, v@.len() as int);
                    assert(v@.take(v@.len() as int) =~= v@);
                }
                let start = byte_offset(&v, k);
                let end = byte_offset(&v, je);
                proof {
                    assert(words_start_at(v@, je as int, count as nat, k as int));
                    let ck = choose|k: int| #[trigger] words_start_at(v@, je as int, count as nat, k);
                    lemma_words_start_unique(v@, je as int, count as nat, k as int, ck);
                }
                return Some(start..end);
            }
        }
    }
    proof {
        assert forall|k: int| !#[trigger] words_start_at(v@, je as int, count as nat, k) by {
            if words_start_at(v@, je as int, count as nat, k) {
                lemma_starts_in_mono(v@, 0, k, je as int);
            }
        }
    }
    None
}

impl TranscriptBuffer {
    #[verifier::type_invariant]
    closed spec fn fits(self) -> bool {
        blen(self.text@) <= usize::MAX
    }

    pub fn new() -> (b: Self)
        ensures
            b@.text == Seq::<char>::empty(),
            b@.segments == Seq::<SegmentModel>::empty(),
            b@.next_id == 0,
    {
        let b = TranscriptBuffer { text: String::new(), segments: Vec::new(), next_id: 0 };
        proof {
            assert(segment_models(b.segments@) =~= Seq::<SegmentModel>::empty());
        }
        b
    }

    pub fn text(&self) -> (t: &str)
        ensures
            t@ == self@.text,
            blen(t@) <= usize::MAX,
    {
        proof {
            use_type_invariant(self);
        }
        self.text.as_str()
    }

    /// The id the next logged segment gets.
    pub fn next_id(&self) -> (n: u64)
        ensures
            n == self@.next_id,
    {
        self.next_id
    }

    pub fn segments(&self) -> (s: &[TranscriptSegment])
        ensures
            segment_models(s@) == self@.segments,
    {
        self.segments.as_slice()
    }

    pub fn clear(&mut self)
        ensures
            final(self)@ == clear_model(old(self)@),
    {
        self.text = String::new();
        self.segments = Vec::new();
        proof {
            assert(segment_models(self.segments@) =~= Seq::<SegmentModel>::empty());
        }
    }

    /// The last `max_chars` characters (the last one when `max_chars` is 0).
    pub fn recent_window(&self, max_chars: usize) -> (w: &str)
        ensures
            w@ == recent_window_spec(self@.text, max_chars as nat),
    {
        let n = self.text.as_str().unicode_len();
        if n <= max_chars {
            proof {
                assert(self.text@.subrange(0, n as int) =~= self.text@);
            }
            return self.text.as_str().substring_char(0, n);
        }
        let keep: usize = if max_chars == 0 {
            1
        } else {
            max_chars
        };
        let w = self.text.as_str().substring_char(n - keep, n);
        proof {
            assert(self.text@.subrange(n - keep, n as int) =~= self.text@.skip(n - keep));
        }
        w
    }

    fn push_segment(&mut self, text: &str, kind: SegmentKind, typed_range: Range<usize>)
        requires
            old(self)@.next_id < u64::MAX,
        ensures
            final(self)@.text == old(self)@.text,
            final(self)@.next_id == old(self)@.next_id + 1,
            final(self)@.segments == old(self)@.segments.push(
                SegmentModel {
                    id: old(self)@.next_id,
                    text: text@,
                    kind,
                    start: typed_range.start as nat,
                    end: typed_range.end as nat,
                    started: false,
                    finalized: true,
                },
            ),
    {
        proof {
            use_type_invariant(&*self);
        }
        let id = self.next_id;
        self.next_id = self.next_id + 1;
        let seg = TranscriptSegment {
            id,
            text: String::from_str(text),
            kind,
            typed_range,
            started_at: None,
            finalized_at: Some(instant_now()),
        };
        let ghost before = self.segments@;
        let mut segs: Vec<TranscriptSegment> = Vec::new();
        std::mem::swap(&mut segs, &mut self.segments);
        segs.push(seg);
        self.segments = segs;
        proof {
            assert(self.segments@ == before.push(seg));
            assert(segment_models(self.segments@) =~= segment_models(before).push(
                segment_model(seg),
            ));
        }
    }

    fn text_blen(&self) -> (n: usize)
        ensures
            n == blen(self@.text),
    {
        proof {
            use_type_invariant(self);
        }
        let v = chars_of(self.text.as_str());
        proof {
            assert(v@.take(v@.len() as int) =~= v@);
        }
        byte_offset(&v, v.len())
    }

    /// Appends typed text; returns its byte range in the buffer.
    pub fn append_typed(&mut self, text: &str) -> (r: Range<usize>)
        requires
            blen(old(self)@.text) + blen(text@) <= usize::MAX,
            old(self)@.next_id < u64::MAX,
        ensures
            final(self)@ == append_model(old(self)@, text@),
            range_model(r) == (blen(old(self)@.text), blen(old(self)@.text) + blen(text@)),
    {
        let start = self.text_blen();
        let add_chars = chars_of(text);
        proof {
            assert(add_chars@.take(add_chars@.len() as int) =~= add_chars@);
            lemma_blen_concat(self.text@, text@);
        }
        let add = byte_offset(&add_chars, add_chars.len());
        let mut t = String::new();
        std::mem::swap(&mut t, &mut self.text);
        t.append(text);
        self.text = t;
        let range = start..start + add;
        self.push_segment(text, SegmentKind::Inserted, start..start + add);
        range
    }

    pub fn record_command(&mut self, text: &str)
        requires
            old(self)@.next_id < u64::MAX,
        ensures
            final(self)@ == command_model(old(self)@, text@, SegmentKind::Command),
    {
        let n = self.text_blen();
        self.push_segment(text, SegmentKind::Command, n..n);
    }

    pub fn record_rejected_command(&mut self, text: &str)
        requires
            old(self)@.next_id < u64::MAX,
        ensures
            final(self)@ == command_model(old(self)@, text@, SegmentKind::RejectedCommand),
    {
        let n = self.text_blen();
        self.push_segment(text, SegmentKind::RejectedCommand, n..n);
    }

    /// Removes the bytes `range` of the text (on character boundaries) and logs them.
    pub fn delete_range(&mut self, range: Range<usize>)
        requires
            valid_byte_range(old(self)@.text, range.start as nat, range.end as nat),
            old(self)@.next_id < u64::MAX,
        ensures
            final(self)@ == delete_model(old(self)@, range.start as nat, range.end as nat),
    {
        proof {
            use_type_invariant(&*self);
        }
        let ghost s = self.text@;
        let v = chars_of(self.text.as_str());
        let a = char_index_at_byte(&v, range.start).unwrap();
        let b = char_index_at_byte(&v, range.end).unwrap();
        proof {
            let (wa, wb) = choose|wa: int, wb: int|
                is_boundary(s, range.start as nat, wa) && is_boundary(s, range.end as nat, wb)
                    && wa <= wb;
            lemma_boundary_unique(s, range.start as nat, a as int, wa);
            lemma_boundary_unique(s, range.end as nat, b as int, wb);
            assert(is_boundary(s, range.start as nat, a as int) && is_boundary(
                s,
                range.end as nat,
                b as int,
            ) && a <= b);
            let (ca, cb) = char_range(s, range.start as nat, range.end as nat);
            lemma_boundary_unique(s, range.start as nat, a as int, ca);
            lemma_boundary_unique(s, range.end as nat, b as int, cb);
        }
        let deleted = string_of(&slice_vec(&v, a, b));
        let kept = concat(&slice_vec(&v, 0, a), &slice_vec(&v, b, v.len()));
        proof {
            assert(v@.subrange(0, a as int) =~= s.take(a as int));
            assert(v@.subrange(b as int, v@.len() as int) =~= s.skip(b as int));
            lemma_blen_concat(s.take(a as int), s.skip(b as int));
            lemma_blen_concat(s.take(b as int), s.skip(b as int));
            assert(s.take(b as int) + s.skip(b as int) =~= s);
            lemma_blen_mono(s, a as int, b as int);
        }
        self.text = string_of(&kept);
        self.push_segment(deleted.as_str(), SegmentKind::Deleted, range);
    }

    /// Replaces the bytes `range` of the text with `replacement`; returns the
    /// byte range the replacement now occupies.
    pub fn replace_range(&mut self, range: Range<usize>, replacement: &str) -> (r: Range<usize>)
        requires
            valid_byte_range(old(self)@.text, range.start as nat, range.end as nat),
            blen(old(self)@.text) + blen(replacement@) <= usize::MAX,
            old(self)@.next_id + 1 < u64::MAX,
        ensures
            final(self)@ == replace_model(
                old(self)@,
                range.start as nat,
                range.end as nat,
                replacement@,
            ),
            range_model(r) == (range.start as nat, range.start as nat + blen(replacement@)),
    {
        proof {
            use_type_invariant(&*self);
        }
        let ghost s = self.text@;
        let v = chars_of(self.text.as_str());
        let a = char_index_at_byte(&v, range.start).unwrap();
        let b = char_index_at_byte(&v, range.end).unwrap();
        proof {
            let (wa, wb) = choose|wa: int, wb: int|
                is_boundary(s, range.start as nat, wa) && is_boundary(s, range.end as nat, wb)
                    && wa <= wb;
            lemma_boundary_unique(s, range.start as nat, a as int, wa);
            lemma_boundary_unique(s, range.end as nat, b as int, wb);
            assert(is_boundary(s, range.start as nat, a as int) && is_boundary(
                s,
                range.end as nat,
                b as int,
            ) && a <= b);
            let (ca, cb) = char_range(s, range.start as nat, range.end as nat);
            lemma_boundary_unique(s, range.start as nat, a as int, ca);
            lemma_boundary_unique(s, range.end as nat, b as int, cb);
        }
        let old_text = string_of(&slice_vec(&v, a, b));
        let rep = chars_of(replacement);
        proof {
            assert(rep@.take(rep@.len() as int) =~= rep@);
            lemma_blen_mono(s, a as int, s.len() as int);
            assert(s.take(s.len() as int) =~= s);
        }
        let rep_len = byte_offset(&rep, rep.len());
        let head = concat(&slice_vec(&v, 0, a), &rep);
        let new_text = concat(&head, &slice_vec(&v, b, v.len()));
        proof {
            assert(v@.subrange(0, a as int) =~= s.take(a as int));
            assert(v@.subrange(b as int, v@.len() as int) =~= s.skip(b as int));
            lemma_blen_concat(s.take(a as int), replacement@);
            lemma_blen_concat(s.take(a as int) + replacement@, s.skip(b as int));
            lemma_blen_concat(s.take(b as int), s.skip(b as int));
            assert(s.take(b as int) + s.skip(b as int) =~= s);
            lemma_blen_mono(s, a as int, b as int);
        }
        self.text = string_of(&new_text);
        let start = range.start;
        self.push_segment(old_text.as_str(), SegmentKind::Deleted, range);
        self.push_segment(replacement, SegmentKind::Inserted, start..start + rep_len);
        start..start + rep_len
    }

    /// Byte range of the last `count` words before the trailing whitespace.
    pub fn last_words_range(&self, count: usize) -> (r: Option<Range<usize>>)
        ensures
            opt_range_model(r) == spec_last_words_range(self@.text, count as nat),
    {
        proof {
            use_type_invariant(self);
        }
        last_words_range_in(self.text.as_str(), count)
    }

    /// Byte range of the last word before the trailing whitespace.
    pub fn last_word_range(&self) -> (r: Option<Range<usize>>)
        ensures
            opt_range_model(r) == spec_last_words_range(self@.text, 1),
    {
        self.last_words_range(1)
    }

    /// Byte range of the last line, up to the trailing whitespace.
    pub fn last_line_range(&self) -> (r: Option<Range<usize>>)
        ensures
            opt_range_model(r) == spec_last_line_range(self@.text),
    {
        proof {
            use_type_invariant(self);
        }
        let v = chars_of(self.text.as_str());
        let je = chars_trim_end_index(&v);
        if je == 0 {
            return None;
        }
        let mut k: usize = je;
        while k > 0 && v[k - 1] != '\n'
            invariant
                0 <= k <= je <= v@.len(),
                last_newline_before(v@, k as int) == last_newline_before(v@, je as int),
            decreases k,
        {
            k = k - 1;
        }
        proof {
            lemma_blen_mono(v@, k as int, v@.len() as int);
            lemma_blen_mono(v@, je as int, v@.len() as int);
            assert(v@.take(v@.len() as int) =~= v@);
        }
        let start = byte_offset(&v, k);
        let end = byte_offset(&v, je);
        Some(start..end)
    }

    /// Byte range of the last sentence, up to the trailing whitespace.
    pub fn last_sentence_range(&self) -> (r: Option<Range<usize>>)
        ensures
            opt_range_model(r) == spec_last_sentence_range(self@.text),
    {
        proof {
            use_type_invariant(self);
        }
        let v = chars_of(self.text.as_str());
        let je = chars_trim_end_index(&v);
        if je == 0 {
            return None;
        }
        let mut k: usize = je - 1;
        while k > 0 && !(v[k - 1] == '.' || v[k - 1] == '!' || v[k - 1] == '?' || v[k - 1] == '\n')
            invariant
                0 <= k <= je - 1,
                je <= v@.len(),
                last_terminator_before(v@, k as int) == last_terminator_before(v@, je - 1),
            decreases k,
        {
            k = k - 1;
        }
        let boundary = k;
        let mut st: usize = boundary;
        proof {
            assert(v@.subrange(boundary as int, je as int).skip(0) =~= v@.subrange(
                boundary as int,
                je as int,
            ));
        }
        while st < je && char_is_ws(v[st])
            invariant
                boundary <= st <= je <= v@.len(),
                trim_start(v@.subrange(st as int, je as int)) == trim_start(
                    v@.subrange(boundary as int, je as int),
                ),
            decreases je - st,
        {
            proof {
                assert(v@.subrange(st as int, je as int).drop_first() =~= v@.subrange(
                    st + 1,
                    je as int,
                ));
            }
            st = st + 1;
        }
        proof {
            if st < je {
                assert(!is_ws(v@.subrange(st as int, je as int)[0]));
            }
            assert(trim_start(v@.subrange(st as int, je as int)) == v@.subrange(
                st as int,
                je as int,
            ));
            lemma_blen_mono(v@, st as int, v@.len() as int);
            lemma_blen_mono(v@, je as int, v@.len() as int);
            assert(v@.take(v@.len() as int) =~= v@);
        }
        let start = byte_offset(&v, st);
        let end = byte_offset(&v, je);
        Some(start..end)
    }

    /// Byte range of `needle` (trimmed, compared case-insensitively) when it
    /// is what the text ends with.
    pub fn last_exact_suffix_match(&self, needle: &str) -> (r: Option<Range<usize>>)
        ensures
            opt_range_model(r) == spec_last_exact_suffix_match(self@.text, needle@),
    {
        proof {
            use_type_invariant(self);
        }
        let v = chars_of(self.text.as_str());
        let je = chars_trim_end_index(&v);
        let h = slice_vec(&v, 0, je);
        let n = trim_vec(&chars_of(needle));
        if n.len() == 0 {
            return None;
        }
        let lh = lower_vec(&h);
        let ln = lower_vec(&n);
        proof {
            assert(h@ =~= trim_end(self@.text));
            lemma_blen_mono(v@, je as int, v@.len() as int);
            assert(v@.take(v@.len() as int) =~= v@);
            assert(h@.take(h@.len() as int) =~= h@);
        }
        let hb = byte_offset(&h, h.len());
        match rfind_vec(&lh, &ln) {
            None => None,
            Some(i) => {
                // lowercasing may change byte lengths, so bound them before adding
                let lhb = crate::text::blen_checked(&lh);
                let lnb = crate::text::blen_checked(&ln);
                match (lhb, lnb) {
                    (Some(_), Some(nb)) => {
                        let start = byte_offset(&lh, i);
                        proof {
                            let c = choose|c: int| occurs_at(lh@, ln@, c) && forall|j: int|
                                c < j ==> !#[trigger] occurs_at(lh@, ln@, j);
                            assert(occurs_at(lh@, ln@, i as int));
                            if c < i {
                            } else if i < c {
                            }
                            assert(c == i);
                        }
                        if start <= hb && nb == hb - start {
                            Some(start..start + nb)
                        } else {
                            None
                        }
                    },
                    _ => None,
                }
            },
        }
    }
}

} // verus!
