//! Turning a dictation intent into a safe edit of the typed text, and
//! carrying the edit out on the transcript buffer.
use crate::intent::{intent_model, DictationIntent, IntentModel};
use crate::text::{
    blen, char_at_byte, char_index_at_byte, chars_of, decimal, decimal_vec, is_boundary, split_ws, split_ws_vec,
    string_of, trim, trim_end, trim_vec, trimmed, lemma_blen_mono,
};
use crate::transcript::{
    byte_range, content_end, spec_last_exact_suffix_match, spec_last_line_range,
    spec_last_sentence_range, spec_last_words_range, trim_end_index, TranscriptBuffer,
    TranscriptModel,
};
use crate::typing::{OperationModel, TypingBackend, TypingOperation, operation_model, operation_models};
use std::ops::Range;
use vstd::prelude::*;

verus! {

#[derive(Debug, Clone, Copy)]
pub struct EditPolicy {
    pub max_delete_chars: usize,
    pub max_delete_words: usize,
    pub type_rejected_commands: bool,
}

impl Default for EditPolicy {
    fn default() -> (p: Self)
        ensures
            p.max_delete_chars == 300,
            p.max_delete_words == 10,
            !p.type_rejected_commands,
    {
        EditPolicy { max_delete_chars: 300, max_delete_words: 10, type_rejected_commands: false }
    }
}

#[derive(Debug, PartialEq, Eq)]
pub enum TextEdit {
    Insert(String),
    DeleteSuffix { range: Range<usize> },
    ReplaceSuffix { range: Range<usize>, replacement: String },
    ResetContext,
    Reject(String),
}

/// An edit taken by its value; ranges are UTF-8 byte offsets.
pub enum EditModel {
    Insert(Seq<char>),
    DeleteSuffix(nat, nat),
    ReplaceSuffix(nat, nat, Seq<char>),
    ResetContext,
    Reject(Seq<char>),
}

pub open spec fn edit_model(e: TextEdit) -> EditModel {
    match e {
        TextEdit::Insert(t) => EditModel::Insert(t@),
        TextEdit::DeleteSuffix { range } => EditModel::DeleteSuffix(
            range.start as nat,
            range.end as nat,
        ),
        TextEdit::ReplaceSuffix { range, replacement } => EditModel::ReplaceSuffix(
            range.start as nat,
            range.end as nat,
            replacement@,
        ),
        TextEdit::ResetContext => EditModel::ResetContext,
        TextEdit::Reject(r) => EditModel::Reject(r@),
    }
}

pub open spec fn spec_plan_exact(s: Seq<char>, from: Seq<char>, to: Seq<char>) -> EditModel {
    if trim(to).len() == 0 {
        EditModel::Reject("Replacement text is empty"@)
    } else {
        match spec_last_exact_suffix_match(s, from) {
            None => EditModel::Reject("Could not safely find recent suffix '"@ + from + "'"@),
            Some((a, b)) => EditModel::ReplaceSuffix(a, b, trim(to)),
        }
    }
}

pub open spec fn implicit_target_words(replacement: Seq<char>) -> nat {
    let n = split_ws(trim(replacement)).len();
    let n = if n < 1 {
        1
    } else {
        n
    };
    if n > 4 {
        4
    } else {
        n
    }
}

pub open spec fn spec_plan_implicit(s: Seq<char>, replacement: Seq<char>) -> EditModel {
    let r = trim(replacement);
    if r.len() == 0 {
        EditModel::Reject("Replacement text is empty"@)
    } else {
        match spec_last_words_range(s, implicit_target_words(replacement)) {
            None => EditModel::Reject("No recent words to replace"@),
            Some((a, b)) => EditModel::ReplaceSuffix(a, b, r),
        }
    }
}

/// A spoken replacement of `k` words ("actually Friday evening") replaces
/// the last `k` words of the typed text, at most four: when the typed text
/// (before its trailing whitespace) has a word start at character `i`
/// followed by exactly that many word starts, the edit replaces from that
/// word's first byte to the end of the text with the trimmed replacement.
pub proof fn lemma_implicit_replaces_last_words(s: Seq<char>, replacement: Seq<char>, i: int)
    requires
        trim(replacement).len() > 0,
        split_ws(trim(replacement)).len() >= 1,
        crate::transcript::is_word_start(s, i),
        i < content_end(s),
        crate::transcript::starts_in(s, i, content_end(s)) == (if split_ws(trim(replacement)).len()
            > 4 {
            4
        } else {
            split_ws(trim(replacement)).len()
        }),
    ensures
        spec_plan_implicit(s, replacement) == EditModel::ReplaceSuffix(
            blen(s.take(i)),
            blen(s.take(content_end(s))),
            trim(replacement),
        ),
{
    let je = content_end(s);
    let m = implicit_target_words(replacement);
    crate::text::lemma_trim_end_shape(s);
    assert(crate::transcript::words_start_at(s, je, m, i));
    let k = choose|k: int| #[trigger] crate::transcript::words_start_at(s, je, m, k);
    crate::transcript::lemma_words_start_unique(s, je, m, i, k);
}

/// An empty spoken replacement is refused, whatever was typed.
pub proof fn lemma_implicit_empty_refused(s: Seq<char>, replacement: Seq<char>)
    requires
        trim(replacement).len() == 0,
    ensures
        spec_plan_implicit(s, replacement) is Reject,
{
}

/// The edit an intent asks for, before the safety checks.
pub open spec fn spec_plan(s: Seq<char>, i: IntentModel, p: EditPolicy) -> EditModel {
    match i {
        IntentModel::InsertText(t) => EditModel::Insert(t),
        IntentModel::DeleteLastSentence => match spec_last_sentence_range(s) {
            Some((a, b)) => EditModel::DeleteSuffix(a, b),
            None => EditModel::Reject("No previous sentence to delete"@),
        },
        IntentModel::DeleteLastLine => match spec_last_line_range(s) {
            Some((a, b)) => EditModel::DeleteSuffix(a, b),
            None => EditModel::Reject("No previous line to delete"@),
        },
        IntentModel::DeleteLastWords(n) => if n > p.max_delete_words {
            EditModel::Reject(refusal_text(n, "words"@, p.max_delete_words as nat))
        } else {
            match spec_last_words_range(s, n) {
                Some((a, b)) => EditModel::DeleteSuffix(a, b),
                None => EditModel::Reject("Not enough previous words to delete"@),
            }
        },
        IntentModel::ReplaceRecentExact { from, to } => spec_plan_exact(s, from, to),
        IntentModel::ReplaceRecentImplicit { replacement } => spec_plan_implicit(s, replacement),
        IntentModel::ResetContext => EditModel::ResetContext,
        IntentModel::CommandRejected { reason } => EditModel::Reject(reason),
    }
}

/// The safety checks: a deletion or replacement must end where the text ends
/// (before trailing whitespace) and remove at most `max_delete_chars` characters.
pub open spec fn spec_validate(s: Seq<char>, e: EditModel, p: EditPolicy) -> EditModel {
    match e {
        EditModel::DeleteSuffix(a, b) => validate_range(s, a, b, p, e),
        EditModel::ReplaceSuffix(a, b, _) => validate_range(s, a, b, p, e),
        _ => e,
    }
}

pub open spec fn validate_range(s: Seq<char>, a: nat, b: nat, p: EditPolicy, e: EditModel) -> EditModel {
    if b != blen(trim_end(s)) {
        EditModel::Reject("Edit target is not at the current suffix"@)
    } else {
        let n = content_end(s) - char_at_byte(s, a);
        if n > p.max_delete_chars {
            EditModel::Reject(refusal_text(n as nat, "chars"@, p.max_delete_chars as nat))
        } else {
            e
        }
    }
}

/// A planned range can be measured: when it ends at the text's end, its start
/// is a character boundary no later than that end.
pub open spec fn measurable(s: Seq<char>, e: EditModel) -> bool {
    match e {
        EditModel::DeleteSuffix(a, b) => b == blen(trim_end(s)) ==> starts_within(s, a),
        EditModel::ReplaceSuffix(a, b, _) => b == blen(trim_end(s)) ==> starts_within(s, a),
        _ => true,
    }
}

/// Byte `a` is a character boundary no later than the end of the content.
pub open spec fn starts_within(s: Seq<char>, a: nat) -> bool {
    exists|k: int| #[trigger] is_boundary(s, a, k) && k <= content_end(s)
}

/// Measuring the planned edit would slice the text off a character boundary.
/// Only an exact replacement can do so, when lowercasing changed byte lengths.
pub open spec fn plan_is_unmeasurable(s: Seq<char>, i: IntentModel, p: EditPolicy) -> bool {
    !measurable(s, spec_plan(s, i, p))
}

pub fn plan_exact_replacement(buffer: &TranscriptBuffer, from: &str, to: &str) -> (e: TextEdit)
    ensures
        edit_model(e) == spec_plan_exact(buffer@.text, from@, to@),
{
    let t = trimmed(to);
    if t.len() == 0 {
        return TextEdit::Reject(String::from_str("Replacement text is empty"));
    }
    match buffer.last_exact_suffix_match(from) {
        None => {
            let mut m = String::from_str("Could not safely find recent suffix '");
            m.append(from);
            m.append("'");
            TextEdit::Reject(m)
        },
        Some(range) => TextEdit::ReplaceSuffix { range, replacement: string_of(&t) },
    }
}

pub fn plan_implicit_replacement(buffer: &TranscriptBuffer, replacement: &str) -> (e: TextEdit)
    ensures
        edit_model(e) == spec_plan_implicit(buffer@.text, replacement@),
{
    let r = trimmed(replacement);
    if r.len() == 0 {
        return TextEdit::Reject(String::from_str("Replacement text is empty"));
    }
    let words = split_ws_vec(&r);
    let n: usize = if words.len() < 1 {
        1
    } else {
        words.len()
    };
    let target: usize = if n > 4 {
        4
    } else {
        n
    };
    match buffer.last_words_range(target) {
        None => TextEdit::Reject(String::from_str("No recent words to replace")),
        Some(range) => TextEdit::ReplaceSuffix { range, replacement: string_of(&r) },
    }
}

/// `Refusing to delete {n} {what}; limit is {limit}`.
pub open spec fn refusal_text(n: nat, what: Seq<char>, limit: nat) -> Seq<char> {
    "Refusing to delete "@ + decimal(n) + " "@ + what + "; limit is "@ + decimal(limit)
}

fn refusal(what: &str, n: usize, limit: usize) -> (s: String)
    ensures
        s@ == refusal_text(n as nat, what@, limit as nat),
{
    let mut s = String::from_str("Refusing to delete ");
    s.append(string_of(&decimal_vec(n as u64)).as_str());
    s.append(" ");
    s.append(what);
    s.append("; limit is ");
    s.append(string_of(&decimal_vec(limit as u64)).as_str());
    s
}

pub fn validate_edit(buffer: &TranscriptBuffer, edit: TextEdit, policy: EditPolicy) -> (e: TextEdit)
    requires
        measurable(buffer@.text, edit_model(edit)),
    ensures
        edit_model(e) == spec_validate(buffer@.text, edit_model(edit), policy),
{
    let (start, end) = match &edit {
        TextEdit::DeleteSuffix { range } => (range.start, range.end),
        TextEdit::ReplaceSuffix { range, .. } => (range.start, range.end),
        _ => {
            return edit;
        },
    };
    let text = buffer.text();
    let suffix_end = trim_end_index(text);
    if end != suffix_end {
        return TextEdit::Reject(String::from_str("Edit target is not at the current suffix"));
    }
    let v = chars_of(text);
    let je = crate::text::trim_end_index(&v);
    let ka = match char_index_at_byte(&v, start) {
        Some(k) => k,
        None => {
            proof {
                let k = choose|k: int| #[trigger] is_boundary(v@, start as nat, k) && k
                    <= content_end(v@);
                assert(is_boundary(v@, start as nat, k));
            }
            return edit;
        },
    };
    proof {
        let k = choose|k: int| #[trigger] is_boundary(v@, start as nat, k) && k <= content_end(v@);
        crate::text::lemma_boundary_unique(v@, start as nat, k, ka as int);
        assert(ka as int == char_at_byte(v@, start as nat)) by {
            let c = char_at_byte(v@, start as nat);
            assert(is_boundary(v@, start as nat, k));
            crate::text::lemma_boundary_unique(v@, start as nat, k, c);
        }
    }
    let deleted = je - ka;
    if deleted > policy.max_delete_chars {
        return TextEdit::Reject(refusal("chars", deleted, policy.max_delete_chars));
    }
    edit
}

/// The edit an intent asks for, before the safety checks.
fn plan_raw(buffer: &TranscriptBuffer, intent: DictationIntent, policy: EditPolicy) -> (e: TextEdit)
    ensures
        edit_model(e) == spec_plan(buffer@.text, intent_model(intent), policy),
{
    match intent {
        DictationIntent::InsertText(text) => TextEdit::Insert(text),
        DictationIntent::DeleteLastSentence => match buffer.last_sentence_range() {
            Some(range) => TextEdit::DeleteSuffix { range },
            None => TextEdit::Reject(String::from_str("No previous sentence to delete")),
        },
        DictationIntent::DeleteLastLine => match buffer.last_line_range() {
            Some(range) => TextEdit::DeleteSuffix { range },
            None => TextEdit::Reject(String::from_str("No previous line to delete")),
        },
        DictationIntent::DeleteLastWords(count) => {
            if count > policy.max_delete_words {
                TextEdit::Reject(refusal("words", count, policy.max_delete_words))
            } else {
                match buffer.last_words_range(count) {
                    Some(range) => TextEdit::DeleteSuffix { range },
                    None => TextEdit::Reject(
                        String::from_str("Not enough previous words to delete"),
                    ),
                }
            }
        },
        DictationIntent::ReplaceRecentExact { from, to } => plan_exact_replacement(
            buffer,
            from.as_str(),
            to.as_str(),
        ),
        DictationIntent::ReplaceRecentImplicit { replacement } => plan_implicit_replacement(
            buffer,
            replacement.as_str(),
        ),
        DictationIntent::ResetContext => TextEdit::ResetContext,
        DictationIntent::CommandRejected { reason } => TextEdit::Reject(reason),
    }
}

/// Whether a range ending where the text's content ends starts on a
/// character boundary within the content.
fn range_measurable(buffer: &TranscriptBuffer, start: usize, end: usize) -> (b: bool)
    ensures
        b == (end == blen(trim_end(buffer@.text)) ==> starts_within(buffer@.text, start as nat)),
{
    let text = buffer.text();
    if end != trim_end_index(text) {
        return true;
    }
    let v = chars_of(text);
    let je = crate::text::trim_end_index(&v);
    proof {
        assert(content_end(v@) == je);
    }
    match char_index_at_byte(&v, start) {
        Some(k) => {
            proof {
                assert(is_boundary(v@, start as nat, k as int));
                assert forall|k2: int| #[trigger] is_boundary(v@, start as nat, k2) implies k2 == k by {
                    crate::text::lemma_boundary_unique(v@, start as nat, k as int, k2);
                }
            }
            k <= je
        },
        None => false,
    }
}

/// Whether the edit's range can be measured on the text.
fn is_measurable(buffer: &TranscriptBuffer, edit: &TextEdit) -> (b: bool)
    ensures
        b == measurable(buffer@.text, edit_model(*edit)),
{
    match edit {
        TextEdit::DeleteSuffix { range } => range_measurable(buffer, range.start, range.end),
        TextEdit::ReplaceSuffix { range, .. } => range_measurable(buffer, range.start, range.end),
        _ => true,
    }
}

/// Plans the edit for an intent against the typed text, then applies the
/// safety checks. An intent whose planned range cannot be measured on the
/// text is outside the domain.
pub fn plan_edit(buffer: &TranscriptBuffer, intent: DictationIntent, policy: EditPolicy) -> (e: TextEdit)
    requires
        !plan_is_unmeasurable(buffer@.text, intent_model(intent), policy),
    ensures
        edit_model(e) == spec_validate(
            buffer@.text,
            spec_plan(buffer@.text, intent_model(intent), policy),
            policy,
        ),
{
    let edit = plan_raw(buffer, intent, policy);
    validate_edit(buffer, edit, policy)
}

/// Plans and checks the edit as `plan_edit` does, or gives `None` when the
/// planned range cannot be measured on the text.
pub fn try_plan_edit(buffer: &TranscriptBuffer, intent: DictationIntent, policy: EditPolicy) -> (r: Option<TextEdit>)
    ensures
        match r {
            Some(e) => !plan_is_unmeasurable(buffer@.text, intent_model(intent), policy)
                && edit_model(e) == spec_validate(
                buffer@.text,
                spec_plan(buffer@.text, intent_model(intent), policy),
                policy,
            ),
            None => plan_is_unmeasurable(buffer@.text, intent_model(intent), policy),
        },
{
    let ghost im = intent_model(intent);
    let edit = plan_raw(buffer, intent, policy);
    if !is_measurable(buffer, &edit) {
        return None;
    }
    Some(validate_edit(buffer, edit, policy))
}

} // verus!

verus! {

/// Whether carrying out an edit stays within the buffer's limits and slices
/// the text on character boundaries.
pub open spec fn applicable(m: TranscriptModel, e: EditModel, p: EditPolicy) -> bool {
    &&& m.next_id + 2 < u64::MAX
    &&& match e {
        EditModel::Insert(t) => blen(m.text) + blen(t) <= usize::MAX,
        EditModel::DeleteSuffix(a, b) => crate::transcript::valid_byte_range(m.text, a, b),
        EditModel::ReplaceSuffix(a, b, r) => crate::transcript::valid_byte_range(m.text, a, b)
            && blen(m.text) + blen(r) <= usize::MAX,
        EditModel::ResetContext => true,
        EditModel::Reject(r) => p.type_rejected_commands ==> blen(m.text) + blen(r) <= usize::MAX,
    }
}

/// Characters in the bytes `a..b` of the text.
pub open spec fn chars_between(s: Seq<char>, a: nat, b: nat) -> nat {
    let (ca, cb) = crate::transcript::char_range(s, a, b);
    (cb - ca) as nat
}

/// What is typed to carry out an edit, in order.
pub open spec fn spec_edit_operations(m: TranscriptModel, e: EditModel, p: EditPolicy) -> Seq<
    OperationModel,
> {
    match e {
        EditModel::Insert(t) => seq![OperationModel::Type(t)],
        EditModel::DeleteSuffix(a, b) => seq![OperationModel::Backspace(chars_between(m.text, a, b))],
        EditModel::ReplaceSuffix(a, b, r) => seq![
            OperationModel::Backspace(chars_between(m.text, a, b)),
            OperationModel::Type(r),
        ],
        EditModel::ResetContext => Seq::<OperationModel>::empty(),
        EditModel::Reject(r) => if p.type_rejected_commands {
            seq![OperationModel::Type(r)]
        } else {
            Seq::<OperationModel>::empty()
        },
    }
}

/// The buffer once an edit is carried out.
pub open spec fn spec_commit(m: TranscriptModel, e: EditModel, p: EditPolicy) -> TranscriptModel {
    match e {
        EditModel::Insert(t) => crate::transcript::append_model(m, t),
        EditModel::DeleteSuffix(a, b) => crate::transcript::delete_model(m, a, b),
        EditModel::ReplaceSuffix(a, b, r) => crate::transcript::replace_model(m, a, b, r),
        EditModel::ResetContext => crate::transcript::clear_model(m),
        EditModel::Reject(r) => {
            let logged = crate::transcript::command_model(
                m,
                r,
                crate::transcript::SegmentKind::RejectedCommand,
            );
            if p.type_rejected_commands {
                crate::transcript::append_model(logged, r)
            } else {
                logged
            }
        },
    }
}

/// Characters in the byte range of the buffer's text.
pub fn chars_in_range(buffer: &TranscriptBuffer, range: &Range<usize>) -> (n: usize)
    requires
        crate::transcript::valid_byte_range(buffer@.text, range.start as nat, range.end as nat),
    ensures
        n == chars_between(buffer@.text, range.start as nat, range.end as nat),
{
    let text = buffer.text();
    let v = chars_of(text);
    let a = char_index_at_byte(&v, range.start);
    let b = char_index_at_byte(&v, range.end);
    proof {
        let (wa, wb) = choose|wa: int, wb: int|
            is_boundary(v@, range.start as nat, wa) && is_boundary(v@, range.end as nat, wb) && wa
                <= wb;
        let (ca, cb) = crate::transcript::char_range(v@, range.start as nat, range.end as nat);
        assert(is_boundary(v@, range.start as nat, wa) && is_boundary(v@, range.end as nat, wb)
            && wa <= wb);
        crate::text::lemma_boundary_unique(v@, range.start as nat, wa, ca);
        crate::text::lemma_boundary_unique(v@, range.end as nat, wb, cb);
        if let Some(ka) = a {
            crate::text::lemma_boundary_unique(v@, range.start as nat, wa, ka as int);
        }
        if let Some(kb) = b {
            crate::text::lemma_boundary_unique(v@, range.end as nat, wb, kb as int);
        }
    }
    match (a, b) {
        (Some(ka), Some(kb)) => kb - ka,
        _ => 0,
    }
}

/// The typing operations that carry out `edit`, in the order they are sent.
pub fn edit_operations(buffer: &TranscriptBuffer, edit: &TextEdit, policy: EditPolicy) -> (ops: Vec<
    TypingOperation,
>)
    requires
        applicable(buffer@, edit_model(*edit), policy),
    ensures
        operation_models(ops@) == spec_edit_operations(buffer@, edit_model(*edit), policy),
{
    let mut ops: Vec<TypingOperation> = Vec::new();
    match edit {
        TextEdit::Insert(text) => {
            ops.push(TypingOperation::Type(String::from_str(text.as_str())));
        },
        TextEdit::DeleteSuffix { range } => {
            let n = chars_in_range(buffer, range);
            ops.push(TypingOperation::Backspace(n));
        },
        TextEdit::ReplaceSuffix { range, replacement } => {
            let n = chars_in_range(buffer, range);
            ops.push(TypingOperation::Backspace(n));
            ops.push(TypingOperation::Type(String::from_str(replacement.as_str())));
        },
        TextEdit::ResetContext => {},
        TextEdit::Reject(reason) => {
            if policy.type_rejected_commands {
                ops.push(TypingOperation::Type(String::from_str(reason.as_str())));
            }
        },
    }
    proof {
        assert(operation_models(ops@) =~= spec_edit_operations(buffer@, edit_model(*edit), policy));
    }
    ops
}

/// Records an edit in the buffer once its typing operations went through.
pub fn commit_edit(buffer: &mut TranscriptBuffer, edit: TextEdit, policy: EditPolicy)
    requires
        applicable(old(buffer)@, edit_model(edit), policy),
    ensures
        final(buffer)@ == spec_commit(old(buffer)@, edit_model(edit), policy),
{
    match edit {
        TextEdit::Insert(text) => {
            buffer.append_typed(text.as_str());
        },
        TextEdit::DeleteSuffix { range } => {
            buffer.delete_range(range);
        },
        TextEdit::ReplaceSuffix { range, replacement } => {
            buffer.replace_range(range, replacement.as_str());
        },
        TextEdit::ResetContext => {
            buffer.clear();
        },
        TextEdit::Reject(reason) => {
            buffer.record_rejected_command(reason.as_str());
            if policy.type_rejected_commands {
                buffer.append_typed(reason.as_str());
            }
        },
    }
}

/// The buffer when typing failed part-way: a refusal is logged before its
/// text is typed; every other edit leaves the buffer as it was.
pub open spec fn spec_uncommitted(m: TranscriptModel, e: EditModel) -> TranscriptModel {
    match e {
        EditModel::Reject(r) => crate::transcript::command_model(
            m,
            r,
            crate::transcript::SegmentKind::RejectedCommand,
        ),
        _ => m,
    }
}

/// Whether `text` can be appended to the buffer within `usize` bytes.
fn fits_after(buffer: &TranscriptBuffer, text: &str) -> (b: bool)
    ensures
        b == (blen(buffer@.text) + blen(text@) <= usize::MAX),
{
    let a = crate::text::blen_wide(&chars_of(buffer.text()));
    let c = crate::text::blen_wide(&chars_of(text));
    c <= usize::MAX as u128 - a
}

/// Whether the byte range falls on character boundaries of the buffer's text.
fn range_valid(buffer: &TranscriptBuffer, range: &Range<usize>) -> (b: bool)
    ensures
        b == crate::transcript::valid_byte_range(buffer@.text, range.start as nat, range.end as nat),
{
    let v = chars_of(buffer.text());
    let a = char_index_at_byte(&v, range.start);
    let b = char_index_at_byte(&v, range.end);
    match (a, b) {
        (Some(ka), Some(kb)) => {
            proof {
                if !(ka <= kb) {
                    assert forall|x: int, y: int|
                        is_boundary(v@, range.start as nat, x) && is_boundary(v@, range.end as nat, y)
                            implies !(x <= y) by {
                        crate::text::lemma_boundary_unique(v@, range.start as nat, x, ka as int);
                        crate::text::lemma_boundary_unique(v@, range.end as nat, y, kb as int);
                    }
                }
            }
            ka <= kb
        },
        _ => false,
    }
}

/// Whether `applicable` holds: the edit can be carried out on the buffer.
pub fn edit_applicable(buffer: &TranscriptBuffer, edit: &TextEdit, policy: EditPolicy) -> (b: bool)
    ensures
        b == applicable(buffer@, edit_model(*edit), policy),
{
    if buffer.next_id() >= u64::MAX - 2 {
        return false;
    }
    match edit {
        TextEdit::Insert(t) => fits_after(buffer, t.as_str()),
        TextEdit::DeleteSuffix { range } => range_valid(buffer, range),
        TextEdit::ReplaceSuffix { range, replacement } => range_valid(buffer, range) && fits_after(
            buffer,
            replacement.as_str(),
        ),
        TextEdit::ResetContext => true,
        TextEdit::Reject(r) => !policy.type_rejected_commands || fits_after(buffer, r.as_str()),
    }
}

/// Sends one typing operation to the backend.
fn send_operation<B: TypingBackend>(backend: &mut B, op: &TypingOperation) -> (r: Result<(), String>)
    ensures
        old(backend).keeps_record() ==> final(backend).keeps_record() && (r is Ok
            ==> final(backend).sent() == old(backend).sent().push(operation_model(*op))),
        old(backend).is_reliable() ==> r is Ok && final(backend).is_reliable(),
{
    match op {
        TypingOperation::Type(t) => backend.type_text(t.as_str()),
        TypingOperation::Backspace(n) => backend.backspace(*n),
    }
}

/// Carries out an edit: its typing operations go to the backend in order,
/// then the buffer records the edit. A refusal is logged before its text is
/// typed. When the backend fails, its error comes back and the buffer stays
/// as `spec_uncommitted` says; a reliable backend never fails.
pub fn apply_edit<B: TypingBackend>(
    backend: &mut B,
    buffer: &mut TranscriptBuffer,
    edit: TextEdit,
    policy: EditPolicy,
) -> (r: Result<(), String>)
    requires
        applicable(old(buffer)@, edit_model(edit), policy),
    ensures
        match r {
            Ok(_) => final(buffer)@ == spec_commit(old(buffer)@, edit_model(edit), policy),
            Err(_) => final(buffer)@ == spec_uncommitted(old(buffer)@, edit_model(edit)),
        },
        old(backend).keeps_record() && r is Ok ==> final(backend).sent() == old(backend).sent()
            + spec_edit_operations(old(buffer)@, edit_model(edit), policy),
        old(backend).is_reliable() ==> r is Ok && final(backend).is_reliable(),
{
    if let TextEdit::Reject(reason) = &edit {
        buffer.record_rejected_command(reason.as_str());
        if policy.type_rejected_commands {
            match backend.type_text(reason.as_str()) {
                Err(e) => {
                    return Err(e);
                },
                Ok(_) => {},
            }
            buffer.append_typed(reason.as_str());
        }
        return Ok(());
    }
    let ops = edit_operations(buffer, &edit, policy);
    let ghost expected = spec_edit_operations(old(buffer)@, edit_model(edit), policy);
    let mut i: usize = 0;
    while i < ops.len()
        invariant
            0 <= i <= ops@.len(),
            buffer@ == old(buffer)@,
            applicable(buffer@, edit_model(edit), policy),
            !(edit is Reject),
            operation_models(ops@) == expected,
            old(backend).keeps_record() ==> backend.keeps_record() && backend.sent()
                == old(backend).sent() + expected.take(i as int),
            old(backend).is_reliable() ==> backend.is_reliable(),
        decreases ops@.len() - i,
    {
        let ghost before = backend.sent();
        match send_operation(backend, &ops[i]) {
            Err(e) => {
                return Err(e);
            },
            Ok(_) => {},
        }
        proof {
            assert(operation_model(ops@[i as int]) == expected[i as int]);
            assert(expected.take(i as int).push(expected[i as int]) =~= expected.take(i + 1));
        }
        i = i + 1;
    }
    proof {
        assert(expected.take(ops@.len() as int) =~= expected);
    }
    commit_edit(buffer, edit, policy);
    Ok(())
}

// ───────────────────────── the screen and the buffer ─────────────────────────

/// What the typed text looks like after the operations: a backspace erases
/// the last characters (as many as there are), typing appends.
pub open spec fn screen_after(s: Seq<char>, ops: Seq<OperationModel>) -> Seq<char>
    decreases ops.len(),
{
    if ops.len() == 0 {
        s
    } else {
        let before = screen_after(s, ops.drop_last());
        match ops.last() {
            OperationModel::Type(t) => before + t,
            OperationModel::Backspace(n) => if n <= before.len() {
                before.take(before.len() - n)
            } else {
                Seq::<char>::empty()
            },
        }
    }
}

/// The edited range, if the edit has one, ends where the typed text ends.
pub open spec fn edits_the_end(m: TranscriptModel, e: EditModel) -> bool {
    match e {
        EditModel::DeleteSuffix(_, b) => b == blen(m.text),
        EditModel::ReplaceSuffix(_, b, _) => b == blen(m.text),
        _ => true,
    }
}

/// The keys sent for an edit turn the typed text into the buffer's new text,
/// when the edited range ends at the end of the text. (Resetting the context
/// forgets the typed text without touching the screen, so it is left out.)
pub proof fn lemma_edit_keys_match_buffer(m: TranscriptModel, e: EditModel, p: EditPolicy)
    requires
        applicable(m, e, p),
        edits_the_end(m, e),
        !(e is ResetContext),
    ensures
        screen_after(m.text, spec_edit_operations(m, e, p)) == spec_commit(m, e, p).text,
{
    reveal_with_fuel(screen_after, 3);
    let s = m.text;
    assert(s.take(s.len() as int) =~= s);
    assert(is_boundary(s, blen(s), s.len() as int));
    match e {
        EditModel::Insert(t) => {
            assert(seq![OperationModel::Type(t)].drop_last() =~= Seq::<OperationModel>::empty());
        },
        EditModel::DeleteSuffix(a, b) => {
            let (wa, wb) = choose|wa: int, wb: int|
                is_boundary(s, a, wa) && is_boundary(s, b, wb) && wa <= wb;
            let w = (wa, wb);
            assert(is_boundary(s, a, w.0) && is_boundary(s, b, w.1) && w.0 <= w.1);
            let (ca, cb) = crate::transcript::char_range(s, a, b);
            assert(is_boundary(s, a, ca) && is_boundary(s, b, cb) && ca <= cb);
            crate::text::lemma_boundary_unique(s, b, cb, s.len() as int);
            let ops = spec_edit_operations(m, e, p);
            assert(ops.drop_last() =~= Seq::<OperationModel>::empty());
            assert(s.skip(cb) =~= Seq::<char>::empty());
            assert(s.take(ca) + s.skip(cb) =~= s.take(ca));
        },
        EditModel::ReplaceSuffix(a, b, r) => {
            let (wa, wb) = choose|wa: int, wb: int|
                is_boundary(s, a, wa) && is_boundary(s, b, wb) && wa <= wb;
            let w = (wa, wb);
            assert(is_boundary(s, a, w.0) && is_boundary(s, b, w.1) && w.0 <= w.1);
            let (ca, cb) = crate::transcript::char_range(s, a, b);
            assert(is_boundary(s, a, ca) && is_boundary(s, b, cb) && ca <= cb);
            crate::text::lemma_boundary_unique(s, b, cb, s.len() as int);
            let ops = spec_edit_operations(m, e, p);
            assert(ops.drop_last().drop_last() =~= Seq::<OperationModel>::empty());
            assert(ops.drop_last() =~= seq![OperationModel::Backspace(chars_between(s, a, b))]);
            assert(s.skip(cb) =~= Seq::<char>::empty());
            assert(s.take(ca) + r + s.skip(cb) =~= s.take(ca) + r);
        },
        EditModel::ResetContext => {},
        EditModel::Reject(r) => {
            if p.type_rejected_commands {
                assert(seq![OperationModel::Type(r)].drop_last() =~= Seq::<OperationModel>::empty());
            }
        },
    }
}

} // verus!
