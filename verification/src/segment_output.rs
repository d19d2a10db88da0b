//! Finishing an utterance: whether it is a clipboard command, polished text,
//! a voice edit or plain text. The clipboard read, the polish request and the
//! typing are carried out by the program around the library, which hands the
//! results back to the session functions.
use crate::clipboard_intent::{should_apply_clipboard_command, spec_should_apply_clipboard_command};
use crate::config::{has_key, has_trimmed_key, spec_resolve_polish_backend, Config};
use crate::context_session::{
    prefix_at_byte, prefix_at_byte_vec, preprocess_insert, spec_preprocess_insert,
    suffix_at_byte, suffix_at_byte_vec,
};
use crate::intent::{detect_intent, spec_detect_intent, DictationIntent, IntentModel};
use crate::profile::{spec_is_dictation, DictateProfile, POLISH_CONTEXT_CHARS};
use crate::text::{blen, chars_of, string_of, trim, trimmed};
use crate::transcript::{recent_window_spec, TranscriptBuffer};
use vstd::prelude::*;

verus! {

/// What is done with a finished utterance.
#[derive(Debug)]
pub enum SegmentPlan {
    /// The text is blank.
    Nothing,
    /// The speech is an instruction on the clipboard text.
    ClipboardCommand { instruction: String, clipboard: String },
    /// Polish the locally processed text with the recent typed text as
    /// context, then insert the answer (when it is not empty).
    Polish { local: String, prior: String },
    /// Insert through the session, where voice commands edit the typed text.
    Insert(String),
    /// Type the processed text and append it to the session.
    TypePlain(String),
}

pub enum PlanModel {
    Nothing,
    ClipboardCommand { instruction: Seq<char>, clipboard: Seq<char> },
    Polish { local: Seq<char>, prior: Seq<char> },
    Insert(Seq<char>),
    TypePlain(Seq<char>),
}

pub open spec fn plan_model(p: SegmentPlan) -> PlanModel {
    match p {
        SegmentPlan::Nothing => PlanModel::Nothing,
        SegmentPlan::ClipboardCommand { instruction, clipboard } => PlanModel::ClipboardCommand {
            instruction: instruction@,
            clipboard: clipboard@,
        },
        SegmentPlan::Polish { local, prior } => PlanModel::Polish { local: local@, prior: prior@ },
        SegmentPlan::Insert(t) => PlanModel::Insert(t@),
        SegmentPlan::TypePlain(t) => PlanModel::TypePlain(t@),
    }
}

/// Polish can run for a finished segment: it is switched on and a backend
/// is available.
pub open spec fn segment_polish_on(c: Config) -> bool {
    c.text_processing.polish.enabled && spec_resolve_polish_backend(
        c.polish_provider@,
        has_trimmed_key(c.opencode_api_key),
        has_key(c.mistral_api_key),
    ) is Some
}

/// A command profile always applies the speech to the clipboard; otherwise
/// the speech has to sound like an instruction on clipboard text.
pub open spec fn takes_clipboard(c: Config, text: Seq<char>, clip: Seq<char>) -> bool {
    c.profile == DictateProfile::Command || (spec_should_apply_clipboard_command(text, clip)
        && clip.len() > 0)
}

pub open spec fn spec_segment_plan(
    c: Config,
    typed: Seq<char>,
    raw: Seq<char>,
    clipboard: Option<Seq<char>>,
    mode: Seq<char>,
) -> PlanModel {
    let text = trim(raw);
    let plain = PlanModel::TypePlain(spec_preprocess_insert(text, c.text_processing, mode));
    if text.len() == 0 {
        PlanModel::Nothing
    } else if clipboard is Some && takes_clipboard(c, text, trim(clipboard->0)) {
        PlanModel::ClipboardCommand { instruction: text, clipboard: trim(clipboard->0) }
    } else if spec_is_dictation(c.profile) {
        match spec_detect_intent(text) {
            IntentModel::InsertText(insert) => {
                let local = spec_preprocess_insert(insert, c.text_processing, mode);
                if segment_polish_on(c) {
                    PlanModel::Polish {
                        local,
                        prior: recent_window_spec(typed, POLISH_CONTEXT_CHARS as nat),
                    }
                } else if local.len() > 0 {
                    PlanModel::Insert(local)
                } else {
                    PlanModel::Nothing
                }
            },
            _ => if c.context_editing {
                PlanModel::Insert(text)
            } else {
                plain
            },
        }
    } else if c.context_editing {
        PlanModel::Insert(text)
    } else {
        plain
    }
}

/// Plans a finished utterance. `clipboard` is what the clipboard held, when
/// it could be read.
pub fn plan_finalized_segment(
    config: &Config,
    buffer: &TranscriptBuffer,
    raw_text: &str,
    clipboard: Option<&str>,
    dictation_mode: &str,
) -> (r: SegmentPlan)
    ensures
        plan_model(r) == spec_segment_plan(
            *config,
            buffer@.text,
            raw_text@,
            match clipboard {
                Some(c) => Some(c@),
                None => None,
            },
            dictation_mode@,
        ),
{
    let t = trimmed(raw_text);
    if t.len() == 0 {
        return SegmentPlan::Nothing;
    }
    let text = string_of(&t);
    match clipboard {
        Some(raw_clip) => {
            let clip = string_of(&trimmed(raw_clip));
            let wanted = config.profile == DictateProfile::Command || (should_apply_clipboard_command(
                text.as_str(),
                clip.as_str(),
            ) && clip.as_str().unicode_len() > 0);
            if wanted {
                return SegmentPlan::ClipboardCommand { instruction: text, clipboard: clip };
            }
        },
        None => {},
    }
    if config.profile.uses_segment_polish() {
        match detect_intent(text.as_str()) {
            DictationIntent::InsertText(insert) => {
                let local = preprocess_insert(insert.as_str(), config, dictation_mode);
                if config.text_processing.polish.enabled && config.polish_available() {
                    let prior = String::from_str(buffer.recent_window(POLISH_CONTEXT_CHARS));
                    SegmentPlan::Polish { local, prior }
                } else if local.as_str().unicode_len() > 0 {
                    SegmentPlan::Insert(local)
                } else {
                    SegmentPlan::Nothing
                }
            },
            _ => {
                if config.context_editing {
                    SegmentPlan::Insert(text)
                } else {
                    SegmentPlan::TypePlain(preprocess_insert(text.as_str(), config, dictation_mode))
                }
            },
        }
    } else if config.context_editing {
        SegmentPlan::Insert(text)
    } else {
        SegmentPlan::TypePlain(preprocess_insert(text.as_str(), config, dictation_mode))
    }
}

/// What is done with an utterance that was typed live, once it ends.
#[derive(Debug)]
pub enum UtterancePlan {
    /// Blank, or a voice command: nothing to polish or record.
    Skip,
    /// Polish the typed text with the text before it as context; replace the
    /// typed text when the answer differs.
    Polish { typed: String, prior: String },
    /// Keep the typed text as it is and record it.
    Keep { typed: String },
}

pub enum UtteranceModel {
    Skip,
    Polish { typed: Seq<char>, prior: Seq<char> },
    Keep { typed: Seq<char> },
}

pub open spec fn utterance_model(p: UtterancePlan) -> UtteranceModel {
    match p {
        UtterancePlan::Skip => UtteranceModel::Skip,
        UtterancePlan::Polish { typed, prior } => UtteranceModel::Polish { typed: typed@, prior: prior@ },
        UtterancePlan::Keep { typed } => UtteranceModel::Keep { typed: typed@ },
    }
}

/// Where the utterance starts: its recorded start, at most the text's end.
pub open spec fn utterance_cut(s: Seq<char>, start: nat) -> nat {
    if start < blen(s) {
        start
    } else {
        blen(s)
    }
}

pub open spec fn spec_utterance_plan(c: Config, s: Seq<char>, start: nat) -> UtteranceModel {
    let cut = utterance_cut(s, start);
    let typed = suffix_at_byte(s, cut)->0;
    if trim(typed).len() == 0 || !(spec_detect_intent(trim(typed)) is InsertText) {
        UtteranceModel::Skip
    } else if segment_polish_on(c) {
        UtteranceModel::Polish { typed, prior: prefix_at_byte(s, cut)->0 }
    } else {
        UtteranceModel::Keep { typed }
    }
}

/// Plans the end of a live-typed utterance starting at byte
/// `utterance_start` of the typed text. The start must fall on a character
/// boundary (or past the end).
pub fn plan_live_utterance(config: &Config, buffer: &TranscriptBuffer, utterance_start: usize) -> (r:
    UtterancePlan)
    requires
        suffix_at_byte(buffer@.text, utterance_cut(buffer@.text, utterance_start as nat)) is Some,
    ensures
        utterance_model(r) == spec_utterance_plan(*config, buffer@.text, utterance_start as nat),
{
    let text = buffer.text();
    let v = chars_of(text);
    let n = crate::text::byte_offset(&v, v.len());
    proof {
        assert(v@.take(v@.len() as int) =~= v@);
    }
    let cut = if utterance_start < n {
        utterance_start
    } else {
        n
    };
    let typed_v = match suffix_at_byte_vec(&v, cut) {
        Some(t) => t,
        None => {
            return UtterancePlan::Skip;
        },
    };
    let typed = string_of(&typed_v);
    let tt = trimmed(typed.as_str());
    if tt.len() == 0 {
        return UtterancePlan::Skip;
    }
    match detect_intent(string_of(&tt).as_str()) {
        DictationIntent::InsertText(_) => {},
        _ => {
            return UtterancePlan::Skip;
        },
    }
    if config.text_processing.polish.enabled && config.polish_available() {
        let prior = match prefix_at_byte_vec(&v, cut) {
            Some(p) => string_of(&p),
            None => {
                return UtterancePlan::Skip;
            },
        };
        UtterancePlan::Polish { typed, prior }
    } else {
        UtterancePlan::Keep { typed }
    }
}

} // verus!
