//! User-facing dictation profiles (how dictate behaves), distinct from STT provider settings.
use crate::text::{chars_of, eq_ignore_ascii_case, eq_str, lower, lower_vec, replace_char, replace_char_vec, trim, trimmed, vec_eq_ignore_ascii_case};
use vstd::prelude::*;

verus! {

/// Prior typed text included in per-segment LLM polish prompts.
pub const POLISH_CONTEXT_CHARS: usize = 2000;

/// Legacy CLI `--mode` aliases. Both map to the same dictation product.
#[derive(Debug, Clone, Copy, PartialEq, Eq, Structural)]
pub enum DictateMode {
    Live,
    Smart,
}

impl Default for DictateMode {
    fn default() -> (m: Self)
        ensures
            m == DictateMode::Live,
    {
        DictateMode::Live
    }
}

/// The lookup key of a mode or profile name: trimmed, lowercased, `-` read as `_`.
pub open spec fn name_key(s: Seq<char>) -> Seq<char> {
    replace_char(lower(trim(s)), '-', '_')
}

pub fn name_key_exec(s: &str) -> (k: Vec<char>)
    ensures
        k@ == name_key(s@),
{
    let t = trimmed(s);
    let l = lower_vec(&t);
    replace_char_vec(&l, '-', '_')
}

pub open spec fn spec_mode_parse(k: Seq<char>) -> Option<DictateMode> {
    if k == "live"@ || k == "live_typing"@ || k == "realtime"@ {
        Some(DictateMode::Live)
    } else if k == "smart"@ || k == "smart_paste"@ || k == "polish"@ {
        Some(DictateMode::Smart)
    } else {
        None
    }
}

impl DictateMode {
    pub fn parse(s: &str) -> (r: Option<Self>)
        ensures
            r == spec_mode_parse(name_key(s@)),
    {
        let k = name_key_exec(s);
        if eq_str(&k, "live") || eq_str(&k, "live_typing") || eq_str(&k, "realtime") {
            Some(DictateMode::Live)
        } else if eq_str(&k, "smart") || eq_str(&k, "smart_paste") || eq_str(&k, "polish") {
            Some(DictateMode::Smart)
        } else {
            None
        }
    }

    pub fn profile(self) -> (p: DictateProfile)
        ensures
            p == DictateProfile::Segmented,
    {
        DictateProfile::Segmented
    }
}

/// How dictation should feel for the user.
#[derive(Debug, Clone, Copy, PartialEq, Eq, Structural)]
pub enum DictateProfile {
    /// Default product: type as you speak, voice corrections, polish on pause.
    Segmented,
    /// Alias of `Segmented` (kept so old configs deserialize).
    LiveTyping,
    /// Alias of `Segmented` (kept so old configs deserialize).
    SmartPaste,
    /// Whole-clip batch STT, local text processing only, paste once.
    BatchClip,
    /// Record a voice instruction; transform clipboard text (not free dictation).
    Command,
}

impl Default for DictateProfile {
    fn default() -> (p: Self)
        ensures
            p == DictateProfile::Segmented,
    {
        DictateProfile::Segmented
    }
}

pub open spec fn spec_profile_parse(k: Seq<char>) -> Option<DictateProfile> {
    if k == "segmented"@ || k == "default"@ || k == "dictate"@ || k == "live_typing"@ || k
        == "live"@ || k == "realtime"@ || k == "stream"@ || k == "smart_paste"@ || k == "smart"@
        || k == "polish"@ || k == "polished"@ {
        Some(DictateProfile::Segmented)
    } else if k == "batch_clip"@ || k == "batch"@ || k == "clip"@ {
        Some(DictateProfile::BatchClip)
    } else if k == "command"@ || k == "command_mode"@ {
        Some(DictateProfile::Command)
    } else {
        None
    }
}

pub open spec fn spec_is_dictation(p: DictateProfile) -> bool {
    p == DictateProfile::Segmented || p == DictateProfile::LiveTyping || p
        == DictateProfile::SmartPaste
}

pub open spec fn spec_from_env_legacy(
    profile_var: Option<Seq<char>>,
    batch_mode: bool,
    transcription_mode: Seq<char>,
) -> DictateProfile {
    if profile_var is Some && spec_profile_parse(name_key(profile_var->0)) is Some {
        spec_profile_parse(name_key(profile_var->0))->0
    } else if batch_mode || eq_ignore_ascii_case(transcription_mode, "batch"@) {
        DictateProfile::BatchClip
    } else {
        DictateProfile::Segmented
    }
}

impl DictateProfile {
    pub fn parse(s: &str) -> (r: Option<Self>)
        ensures
            r == spec_profile_parse(name_key(s@)),
    {
        let k = name_key_exec(s);
        if eq_str(&k, "segmented") || eq_str(&k, "default") || eq_str(&k, "dictate") || eq_str(
            &k,
            "live_typing",
        ) || eq_str(&k, "live") || eq_str(&k, "realtime") || eq_str(&k, "stream") || eq_str(
            &k,
            "smart_paste",
        ) || eq_str(&k, "smart") || eq_str(&k, "polish") || eq_str(&k, "polished") {
            Some(DictateProfile::Segmented)
        } else if eq_str(&k, "batch_clip") || eq_str(&k, "batch") || eq_str(&k, "clip") {
            Some(DictateProfile::BatchClip)
        } else if eq_str(&k, "command") || eq_str(&k, "command_mode") {
            Some(DictateProfile::Command)
        } else {
            None
        }
    }

    pub fn as_str(self) -> (s: &'static str)
        ensures
            s@ == (match self {
                DictateProfile::BatchClip => "batch_clip"@,
                DictateProfile::Command => "command"@,
                _ => "segmented"@,
            }),
    {
        match self {
            DictateProfile::Segmented | DictateProfile::LiveTyping | DictateProfile::SmartPaste => {
                "segmented"
            },
            DictateProfile::BatchClip => "batch_clip",
            DictateProfile::Command => "command",
        }
    }

    pub fn label(self) -> (s: &'static str)
        ensures
            s@ == (match self {
                DictateProfile::BatchClip => "Batch clip"@,
                DictateProfile::Command => "Command"@,
                _ => "Dictation"@,
            }),
    {
        match self {
            DictateProfile::Segmented | DictateProfile::LiveTyping | DictateProfile::SmartPaste => {
                "Dictation"
            },
            DictateProfile::BatchClip => "Batch clip",
            DictateProfile::Command => "Command",
        }
    }

    pub fn description(self) -> (s: &'static str)
        ensures
            s@ == (match self {
                DictateProfile::BatchClip => "Record, stop, transcribe once with local cleanup only."@,
                DictateProfile::Command => "Speak an instruction; applies to clipboard text (e.g. fix grammar)."@,
                _ => "Words appear as you speak; pauses polish the last phrase; say scratch that to edit."@,
            }),
    {
        match self {
            DictateProfile::Segmented | DictateProfile::LiveTyping | DictateProfile::SmartPaste => {
                "Words appear as you speak; pauses polish the last phrase; say scratch that to edit."
            },
            DictateProfile::BatchClip => "Record, stop, transcribe once with local cleanup only.",
            DictateProfile::Command => "Speak an instruction; applies to clipboard text (e.g. fix grammar).",
        }
    }

    /// Resolve profile from env: `DICTATE_PROFILE` wins; legacy `BATCH_MODE` /
    /// `TRANSCRIPTION_MODE` otherwise.
    pub fn from_env_legacy(
        profile_var: Option<String>,
        batch_mode: bool,
        transcription_mode: &str,
    ) -> (p: Self)
        ensures
            p == spec_from_env_legacy(
                match profile_var {
                    Some(v) => Some(v@),
                    None => None,
                },
                batch_mode,
                transcription_mode@,
            ),
    {
        if let Some(raw) = profile_var {
            if let Some(p) = Self::parse(raw.as_str()) {
                return p;
            }
        }
        let mode = chars_of(transcription_mode);
        let batch = chars_of("batch");
        if batch_mode || vec_eq_ignore_ascii_case(&mode, &batch) {
            DictateProfile::BatchClip
        } else {
            DictateProfile::Segmented
        }
    }

    /// Apply profile to legacy STT flags (for code paths that still read batch_mode).
    pub fn implies_batch_stt(self) -> (b: bool)
        ensures
            b == (self == DictateProfile::BatchClip || self == DictateProfile::Command),
    {
        matches!(self, DictateProfile::BatchClip | DictateProfile::Command)
    }

    pub fn wants_daemon(self) -> (b: bool)
        ensures
            b == (self != DictateProfile::BatchClip),
    {
        !matches!(self, DictateProfile::BatchClip)
    }

    /// Free dictation (type + voice edits + polish), not clipboard-command or batch-only.
    pub fn is_dictation(self) -> (b: bool)
        ensures
            b == spec_is_dictation(self),
    {
        matches!(self, DictateProfile::Segmented | DictateProfile::LiveTyping | DictateProfile::SmartPaste)
    }

    /// Whole-clip polish (one-shot / groq-local clip path).
    pub fn uses_llm_polish(self) -> (b: bool)
        ensures
            b == spec_is_dictation(self),
    {
        self.is_dictation()
    }

    /// Per-utterance polish + session buffer.
    pub fn uses_segment_polish(self) -> (b: bool)
        ensures
            b == spec_is_dictation(self),
    {
        self.is_dictation()
    }

    /// Word-by-word typing when the STT provider streams deltas (Mistral).
    pub fn types_live_deltas(self) -> (b: bool)
        ensures
            b == spec_is_dictation(self),
    {
        self.is_dictation()
    }

    pub fn is_command_mode(self) -> (b: bool)
        ensures
            b == (self == DictateProfile::Command),
    {
        self == DictateProfile::Command
    }
}

} // verus!
