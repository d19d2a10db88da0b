//! The whole-clip path: what is asked of the transcriber, what becomes of
//! the transcript, and the hints shown when transcription fails. Recording,
//! the request and the output are carried out by the program around the
//! library.
use crate::config::Config;
use crate::context_session::{preprocess_insert, spec_preprocess_insert};
use crate::llm_polish::{spec_polish_system_prompt, spec_transcript_user_body, spec_vocabulary_prompt, transcript_polish_prompt, ChatPrompt};
use crate::profile::{spec_is_dictation, DictateProfile};
use crate::text::{chars_of, decimal, decimal_vec, eq_str, string_of, views};
use crate::transcription::{error_view, ErrorView, TranscriptionError};
use vstd::prelude::*;

verus! {

/// The language sent with a transcription request: none for `auto`.
pub fn transcription_language(config: &Config) -> (r: Option<String>)
    ensures
        match r {
            None => config.transcription_language@ == "auto"@,
            Some(l) => config.transcription_language@ != "auto"@ && l@
                == config.transcription_language@,
        },
{
    let l = chars_of(config.transcription_language.as_str());
    if eq_str(&l, "auto") {
        None
    } else {
        Some(String::from_str(config.transcription_language.as_str()))
    }
}

/// What becomes of a clip's transcript.
pub enum ClipPlan {
    /// The transcript is a command on the clipboard text.
    Command(String),
    /// The locally processed transcript is the result.
    Done(String),
    /// Ask the chat model to polish the locally processed transcript; on
    /// failure the local text stands in for it.
    Polish { local: String, prompt: ChatPrompt },
}

pub enum ClipPlanModel {
    Command(Seq<char>),
    Done(Seq<char>),
    Polish { local: Seq<char>, system: Seq<char>, user: Seq<char> },
}

pub open spec fn clip_plan_model(p: ClipPlan) -> ClipPlanModel {
    match p {
        ClipPlan::Command(t) => ClipPlanModel::Command(t@),
        ClipPlan::Done(t) => ClipPlanModel::Done(t@),
        ClipPlan::Polish { local, prompt } => ClipPlanModel::Polish {
            local: local@,
            system: prompt.system@,
            user: prompt.user@,
        },
    }
}

/// Command mode takes the transcript as an instruction. Otherwise the
/// transcript is processed locally; only the smart-paste profile polishes
/// it, and only when polish is on.
pub open spec fn spec_clip_plan(c: Config, text: Seq<char>, command_mode: bool, mode: Seq<char>) -> ClipPlanModel {
    let local = spec_preprocess_insert(text, c.text_processing, mode);
    if command_mode {
        ClipPlanModel::Command(text)
    } else if c.profile != DictateProfile::SmartPaste || !c.text_processing.polish.enabled {
        ClipPlanModel::Done(local)
    } else {
        ClipPlanModel::Polish {
            local,
            system: spec_polish_system_prompt(
                c.text_processing.polish.system_prompt@,
                c.text_processing.polish.style@,
            ),
            user: spec_transcript_user_body(
                mode,
                c.transcription_language@,
                spec_vocabulary_prompt(c.text_processing),
                local,
            ),
        }
    }
}

/// Plans the text of a transcribed clip.
pub fn plan_clip_text(text: &str, config: &Config, command_mode_enabled: bool, dictation_mode: &str) -> (r:
    ClipPlan)
    ensures
        clip_plan_model(r) == spec_clip_plan(*config, text@, command_mode_enabled, dictation_mode@),
{
    if command_mode_enabled {
        return ClipPlan::Command(String::from_str(text));
    }
    let local = preprocess_insert(text, config, dictation_mode);
    if config.profile != DictateProfile::SmartPaste || !config.text_processing.polish.enabled {
        return ClipPlan::Done(local);
    }
    match transcript_polish_prompt(
        local.as_str(),
        &config.text_processing,
        config.profile,
        config.transcription_language.as_str(),
        dictation_mode,
    ) {
        Some(prompt) => ClipPlan::Polish { local, prompt },
        None => ClipPlan::Done(local),
    }
}

pub open spec fn spec_error_hint(e: ErrorView) -> Seq<Seq<char>> {
    match e {
        ErrorView::AuthenticationFailed { provider, details } => match details {
            Some(d) => seq!["  🔑 Authentication details: "@ + d, "  💡 Check your "@ + provider + " API key"@],
            None => seq!["  💡 Check your "@ + provider + " API key"@],
        },
        ErrorView::NetworkError { provider, error_type, error_message } => seq![
            "  🌐 "@ + provider + ": "@ + error_type + " - "@ + error_message,
        ],
        ErrorView::ApiError { status_code, error_code, .. } => (match status_code {
            Some(s) => seq!["  📡 HTTP "@ + decimal(s as nat)],
            None => Seq::<Seq<char>>::empty(),
        }) + (match error_code {
            Some(c) => seq!["  🏷️  Error code: "@ + c],
            None => Seq::<Seq<char>>::empty(),
        }),
        ErrorView::FileTooLarge(size) => seq!["  💡 Audio too large: "@ + decimal(size) + " bytes (max 25MB)"@],
        _ => Seq::<Seq<char>>::empty(),
    }
}

/// The lines that explain a transcription failure to the user.
pub fn transcription_error_hint(e: &TranscriptionError) -> (r: Vec<String>)
    ensures
        views(r@) == spec_error_hint(error_view(*e)),
{
    let mut lines: Vec<String> = Vec::new();
    match e {
        TranscriptionError::AuthenticationFailed { provider, details } => {
            if let Some(d) = details {
                let mut l = String::from_str("  🔑 Authentication details: ");
                l.append(d.as_str());
                lines.push(l);
            }
            let mut l = String::from_str("  💡 Check your ");
            l.append(provider.as_str());
            l.append(" API key");
            lines.push(l);
        },
        TranscriptionError::NetworkError(d) => {
            let mut l = String::from_str("  🌐 ");
            l.append(d.provider.as_str());
            l.append(": ");
            l.append(d.error_type.as_str());
            l.append(" - ");
            l.append(d.error_message.as_str());
            lines.push(l);
        },
        TranscriptionError::ApiError(d) => {
            if let Some(s) = d.status_code {
                let mut l = String::from_str("  📡 HTTP ");
                l.append(string_of(&decimal_vec(s as u64)).as_str());
                lines.push(l);
            }
            if let Some(c) = &d.error_code {
                let mut l = String::from_str("  🏷️  Error code: ");
                l.append(c.as_str());
                lines.push(l);
            }
        },
        TranscriptionError::FileTooLarge(size) => {
            let mut l = String::from_str("  💡 Audio too large: ");
            l.append(string_of(&decimal_vec(*size as u64)).as_str());
            l.append(" bytes (max 25MB)");
            lines.push(l);
        },
        _ => {},
    }
    proof {
        assert(views(lines@) =~= spec_error_hint(error_view(*e)));
    }
    lines
}

} // verus!
