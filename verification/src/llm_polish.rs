//! Prompts for the chat model that frames and polishes utterances, and the
//! handling of what it answers. The request itself is sent by the caller.
use crate::config::PolishBackend;
use crate::polish_styles::{apply_style_to_system, spec_apply_style_to_system};
use crate::profile::DictateProfile;
use crate::text::{
    contains, contains_str, chars_of, eq_str, is_ascii_alnum, join, join_vec, lower, lower_vec,
    slice_vec, split_once_char, split_once_vec, string_of, trim, trim_vec, trimmed, views,
    char_is_ascii_alnum, starts_with_str, ends_with_str, starts_with, ends_with,
};
use crate::text_processing::{
    dictionary_views, preferred_vocabulary, spec_preferred_vocabulary, PolishConfig,
    TextProcessingConfig,
};
use vstd::prelude::*;

verus! {

pub const DEFAULT_SYSTEM: &'static str = "You receive a raw speech-to-text transcript. Output ONLY the final text to insert into the focused application.

Rules:
- Apply the speaker's latest correction when they contradict themselves (e.g. \"by 130 no actually by two\" → \"I will reach by 2.\").
- Honor spoken layout: \"next line\", \"new paragraph\", \"bullet\", \"point one/two\" become real newlines or list formatting.
- Fix grammar, punctuation, and sentence boundaries; preserve meaning.
- Do not add quotes, preamble, or markdown fences unless the dictation mode is markdown.
";

pub const SEGMENT_SYSTEM_SUFFIX: &'static str = "

You are polishing ONE segment of ongoing dictation. Prior context was already inserted in the app; output ONLY the polished form of the new segment (not the whole document). Use prior context for terminology and continuity. Fix self-corrections within this segment only.
";

pub const TRANSFORM_SYSTEM: &'static str = "You edit text according to a spoken instruction. Output ONLY the transformed text—no quotes, preamble, or markdown fences unless the user asked for markdown.";

pub const DEFAULT_OLLAMA_POLISH_MODEL: &'static str = "gemma-4";

/// The system and user messages of one chat request.
pub struct ChatPrompt {
    pub system: String,
    pub user: String,
}

// ───────────────────────── prompts ─────────────────────────

pub open spec fn spec_polish_system_prompt(system_prompt: Seq<char>, style: Seq<char>) -> Seq<char> {
    let base = if trim(system_prompt).len() == 0 {
        DEFAULT_SYSTEM@
    } else {
        system_prompt
    };
    spec_apply_style_to_system(base, style)
}

/// The configured system prompt, or the default one, with the style preset.
pub fn polish_system_prompt(polish: &PolishConfig) -> (r: String)
    ensures
        r@ == spec_polish_system_prompt(polish.system_prompt@, polish.style@),
{
    let t = trimmed(polish.system_prompt.as_str());
    if t.len() == 0 {
        apply_style_to_system(DEFAULT_SYSTEM, polish.style.as_str())
    } else {
        apply_style_to_system(polish.system_prompt.as_str(), polish.style.as_str())
    }
}

pub open spec fn bullets(terms: Seq<Seq<char>>) -> Seq<Seq<char>> {
    terms.map_values(|t: Seq<char>| "- "@ + t)
}

/// At most the first 80 terms, as `- term` lines, after a heading; nothing
/// when there are no terms.
pub open spec fn spec_vocabulary_block(vocabulary: Seq<Seq<char>>) -> Seq<char> {
    if vocabulary.len() == 0 {
        Seq::<char>::empty()
    } else {
        let n = if vocabulary.len() < 80 {
            vocabulary.len() as int
        } else {
            80
        };
        "\n\nPreferred vocabulary: if the transcript resembles one of these terms, use this spelling:\n"@
            + join(bullets(vocabulary.take(n)), "\n"@)
    }
}

pub open spec fn spec_vocabulary_prompt(config: TextProcessingConfig) -> Seq<char> {
    spec_vocabulary_block(
        spec_preferred_vocabulary(
            views(config.preferred_words@),
            dictionary_views(config.dictionary@),
        ),
    )
}

/// The preferred-vocabulary part of a polish request.
pub fn vocabulary_prompt(config: &TextProcessingConfig) -> (r: String)
    ensures
        r@ == spec_vocabulary_prompt(*config),
{
    let vocabulary = preferred_vocabulary(config);
    if vocabulary.len() == 0 {
        return String::new();
    }
    let n: usize = if vocabulary.len() < 80 {
        vocabulary.len()
    } else {
        80
    };
    let ghost vs = views(vocabulary@);
    let mut lines: Vec<Vec<char>> = Vec::new();
    let mut i: usize = 0;
    while i < n
        invariant
            0 <= i <= n <= vocabulary@.len(),
            vs == views(vocabulary@),
            lines@.len() == i,
            lines@.map_values(|w: Vec<char>| w@) == bullets(vs.take(i as int)),
        decreases n - i,
    {
        let mut line = chars_of("- ");
        let term = chars_of(vocabulary[i].as_str());
        crate::text::append(&mut line, &term);
        let ghost before = lines@;
        proof {
            assert(line@ == "- "@ + vs[i as int]);
            assert(vs.take(i + 1) =~= vs.take(i as int).push(vs[i as int]));
        }
        lines.push(line);
        proof {
            assert(lines@ == before.push(line));
            assert forall|k: int| 0 <= k < i implies #[trigger] lines@[k]@ == bullets(vs.take(i + 1))[k] by {
                assert(lines@[k] == before[k]);
                assert(before.map_values(|w: Vec<char>| w@)[k] == bullets(vs.take(i as int))[k]);
            }
            assert(lines@.map_values(|w: Vec<char>| w@) =~= bullets(vs.take(i + 1)));
        }
        i = i + 1;
    }
    let sep = chars_of("\n");
    let joined = join_vec(&lines, &sep);
    let mut out = String::from_str(
        "\n\nPreferred vocabulary: if the transcript resembles one of these terms, use this spelling:\n",
    );
    out.append(string_of(&joined).as_str());
    proof {
        reveal_strlit("\n");
    }
    out
}

pub open spec fn spec_segment_user_body(
    mode: Seq<char>,
    language: Seq<char>,
    vocabulary: Seq<char>,
    prior: Seq<char>,
    segment: Seq<char>,
) -> Seq<char> {
    let head = "Dictation mode: "@ + mode + "\nLanguage: "@ + language + vocabulary;
    if trim(prior).len() == 0 {
        head + "\n\nNew segment (raw STT after local cleanup):\n"@ + segment
    } else {
        head + "\n\nPrior context (already in the app):\n"@ + trim(prior)
            + "\n\nNew segment (raw STT after local cleanup):\n"@ + segment
    }
}

/// The request that polishes one segment of ongoing dictation; `None` when
/// the segment is blank and nothing is to be asked.
pub fn segment_polish_prompt(
    local_segment: &str,
    prior_context: &str,
    config: &TextProcessingConfig,
    language: &str,
    dictation_mode: &str,
) -> (r: Option<ChatPrompt>)
    ensures
        match r {
            None => trim(local_segment@).len() == 0,
            Some(p) => trim(local_segment@).len() > 0 && p.system@ == spec_polish_system_prompt(
                config.polish.system_prompt@,
                config.polish.style@,
            ) + SEGMENT_SYSTEM_SUFFIX@ && p.user@ == spec_segment_user_body(
                dictation_mode@,
                language@,
                spec_vocabulary_prompt(*config),
                prior_context@,
                local_segment@,
            ),
        },
{
    if trimmed(local_segment).len() == 0 {
        return None;
    }
    let mut system = polish_system_prompt(&config.polish);
    system.append(SEGMENT_SYSTEM_SUFFIX);
    let prior = trimmed(prior_context);
    let vocabulary = vocabulary_prompt(config);
    let mut user = String::from_str("Dictation mode: ");
    user.append(dictation_mode);
    user.append("\nLanguage: ");
    user.append(language);
    user.append(vocabulary.as_str());
    if prior.len() > 0 {
        user.append("\n\nPrior context (already in the app):\n");
        user.append(string_of(&prior).as_str());
    }
    user.append("\n\nNew segment (raw STT after local cleanup):\n");
    user.append(local_segment);
    Some(ChatPrompt { system, user })
}

pub open spec fn spec_transcript_user_body(
    mode: Seq<char>,
    language: Seq<char>,
    vocabulary: Seq<char>,
    raw: Seq<char>,
) -> Seq<char> {
    "Dictation mode: "@ + mode + "\nLanguage: "@ + language + vocabulary + "\n\nRaw transcript:\n"@
        + raw
}

/// The request that polishes a whole transcript; `None` when polish is off
/// for this profile, in which case the transcript stays as it is.
pub fn transcript_polish_prompt(
    raw_after_local: &str,
    config: &TextProcessingConfig,
    profile: DictateProfile,
    language: &str,
    dictation_mode: &str,
) -> (r: Option<ChatPrompt>)
    ensures
        match r {
            None => !(crate::profile::spec_is_dictation(profile) && config.polish.enabled),
            Some(p) => crate::profile::spec_is_dictation(profile) && config.polish.enabled
                && p.system@ == spec_polish_system_prompt(
                config.polish.system_prompt@,
                config.polish.style@,
            ) && p.user@ == spec_transcript_user_body(
                dictation_mode@,
                language@,
                spec_vocabulary_prompt(*config),
                raw_after_local@,
            ),
        },
{
    if !config.polish.effective_enabled(profile.uses_llm_polish()) {
        return None;
    }
    let system = polish_system_prompt(&config.polish);
    let vocabulary = vocabulary_prompt(config);
    let mut user = String::from_str("Dictation mode: ");
    user.append(dictation_mode);
    user.append("\nLanguage: ");
    user.append(language);
    user.append(vocabulary.as_str());
    user.append("\n\nRaw transcript:\n");
    user.append(raw_after_local);
    Some(ChatPrompt { system, user })
}

/// The request that transforms source text by a spoken instruction.
pub fn transform_prompt(instruction: &str, source: &str) -> (p: ChatPrompt)
    ensures
        p.system@ == TRANSFORM_SYSTEM@,
        p.user@ == "Instruction (from voice):\n"@ + trim(instruction@) + "\n\nSource text:\n"@
            + trim(source@),
{
    let mut user = String::from_str("Instruction (from voice):\n");
    user.append(string_of(&trimmed(instruction)).as_str());
    user.append("\n\nSource text:\n");
    user.append(string_of(&trimmed(source)).as_str());
    ChatPrompt { system: String::from_str(TRANSFORM_SYSTEM), user }
}

// ───────────────────────── models and failures ─────────────────────────

pub open spec fn spec_polish_model(
    configured: Seq<char>,
    backend: PolishBackend,
    ollama_env_model: Option<Seq<char>>,
) -> Seq<char> {
    let c = trim(configured);
    match backend {
        PolishBackend::Mistral => if c.len() == 0 {
            "mistral-small-latest"@
        } else {
            c
        },
        PolishBackend::Ollama => if c.len() == 0 || contains(c, "mistral"@) {
            match ollama_env_model {
                Some(m) => m,
                None => DEFAULT_OLLAMA_POLISH_MODEL@,
            }
        } else {
            c
        },
        PolishBackend::OpenCode => if c.len() == 0 || contains(c, "mistral"@) {
            "big-pickle"@
        } else {
            c
        },
    }
}

/// The chat model to ask. A Mistral model name makes no sense to Ollama or
/// OpenCode Zen, so those fall back to their own default (for Ollama the
/// `OLLAMA_POLISH_MODEL` setting, read by the caller).
pub fn polish_model_for_backend(
    configured_model: &str,
    backend: PolishBackend,
    ollama_env_model: Option<&str>,
) -> (r: String)
    ensures
        r@ == spec_polish_model(
            configured_model@,
            backend,
            match ollama_env_model {
                Some(m) => Some(m@),
                None => None,
            },
        ),
{
    let c = trimmed(configured_model);
    match backend {
        PolishBackend::Mistral => {
            if c.len() == 0 {
                String::from_str("mistral-small-latest")
            } else {
                string_of(&c)
            }
        },
        PolishBackend::Ollama => {
            if c.len() == 0 || contains_str(&c, "mistral") {
                match ollama_env_model {
                    Some(m) => String::from_str(m),
                    None => String::from_str(DEFAULT_OLLAMA_POLISH_MODEL),
                }
            } else {
                string_of(&c)
            }
        },
        PolishBackend::OpenCode => {
            if c.len() == 0 || contains_str(&c, "mistral") {
                String::from_str("big-pickle")
            } else {
                string_of(&c)
            }
        },
    }
}

pub open spec fn spec_polish_unavailable_message(provider: Seq<char>) -> Seq<char> {
    let mode = lower(trim(provider));
    if mode == "mistral"@ {
        "POLISH_PROVIDER=mistral but MISTRAL_API_KEY is missing (set key or use POLISH_PROVIDER=ollama)"@
    } else if mode == "ollama"@ {
        "Polish via Ollama failed — is Ollama running? (ollama serve). Set OLLAMA_BASE_URL / OLLAMA_POLISH_MODEL if needed."@
    } else {
        "No polish backend: set MISTRAL_API_KEY or run Ollama locally (POLISH_PROVIDER=auto|ollama)"@
    }
}

/// What to tell the user when no polish backend can be used.
pub fn polish_unavailable_message(polish_provider: &str) -> (r: String)
    ensures
        r@ == spec_polish_unavailable_message(polish_provider@),
{
    let mode = lower_vec(&trimmed(polish_provider));
    if eq_str(&mode, "mistral") {
        String::from_str(
            "POLISH_PROVIDER=mistral but MISTRAL_API_KEY is missing (set key or use POLISH_PROVIDER=ollama)",
        )
    } else if eq_str(&mode, "ollama") {
        String::from_str(
            "Polish via Ollama failed — is Ollama running? (ollama serve). Set OLLAMA_BASE_URL / OLLAMA_POLISH_MODEL if needed.",
        )
    } else {
        String::from_str(
            "No polish backend: set MISTRAL_API_KEY or run Ollama locally (POLISH_PROVIDER=auto|ollama)",
        )
    }
}

/// The text inserted when polish failed: nothing when `on_failure` is
/// `error`, else the locally processed transcript.
pub fn handle_polish_failure(polish: &PolishConfig, fallback_text: &str) -> (r: String)
    ensures
        r@ == (if polish.on_failure@ == "error"@ {
            Seq::<char>::empty()
        } else {
            fallback_text@
        }),
{
    let mode = chars_of(polish.on_failure.as_str());
    if eq_str(&mode, "error") {
        String::new()
    } else {
        String::from_str(fallback_text)
    }
}

/// Milliseconds to wait before retry number `attempt` of a polish request.
pub fn polish_retry_delay_ms(attempt: u32) -> (ms: u64)
    ensures
        ms == 400 * attempt,
{
    400 * (attempt as u64)
}

/// How many times a polish request is tried: the retry setting, at least once.
pub fn polish_attempts(max_retries: u32) -> (n: u32)
    ensures
        n == (if max_retries < 1 {
            1
        } else {
            max_retries
        }),
{
    if max_retries < 1 {
        1
    } else {
        max_retries
    }
}

// ───────────────────────── replies ─────────────────────────

pub open spec fn is_fence_lang(line: Seq<char>) -> bool {
    let t = trim(line);
    t.len() > 0 && forall|i: int|
        0 <= i < t.len() ==> #[trigger] is_ascii_alnum(t[i]) || t[i] == '_' || t[i] == '-'
}

/// Whether the first line inside a code fence is a language tag.
pub fn is_fence_lang_tag(line: &[char]) -> (b: bool)
    ensures
        b == is_fence_lang(line@),
{
    let t = trim_vec(line);
    if t.len() == 0 {
        return false;
    }
    let mut i: usize = 0;
    while i < t.len()
        invariant
            0 <= i <= t@.len(),
            t@ == trim(line@),
            forall|k: int| 0 <= k < i ==> #[trigger] is_ascii_alnum(t@[k]) || t@[k] == '_' || t@[k] == '-',
        decreases t@.len() - i,
    {
        let c = t[i];
        if !(char_is_ascii_alnum(c) || c == '_' || c == '-') {
            proof {
                let tt = trim(line@);
                assert(tt == t@);
                assert(!(is_ascii_alnum(tt[i as int]) || tt[i as int] == '_' || tt[i as int] == '-'));
                assert(!is_fence_lang(line@));
            }
            return false;
        }
        i = i + 1;
    }
    true
}

pub open spec fn wrapped_in(t: Seq<char>, q: char) -> bool {
    t.len() > 0 && t[0] == q && t[t.len() - 1] == q
}

/// The content between a leading and a trailing triple backtick.
pub open spec fn fence_inner(t: Seq<char>) -> Option<Seq<char>> {
    if t.len() >= 6 && starts_with(t, "```"@) && ends_with(t.subrange(3, t.len() as int), "```"@) {
        Some(t.subrange(3, t.len() - 3))
    } else {
        None
    }
}

pub open spec fn spec_strip_wrapping_quotes(s: Seq<char>) -> Seq<char> {
    let t = trim(s);
    if wrapped_in(t, '"') || wrapped_in(t, '\'') {
        trim(t.subrange(1, t.len() - 1))
    } else {
        match fence_inner(t) {
            Some(raw) => {
                let inner = trim(raw);
                match split_once_char(inner, '\n') {
                    Some((first, rest)) => if is_fence_lang(first) {
                        trim(rest)
                    } else {
                        inner
                    },
                    None => inner,
                }
            },
            None => t,
        }
    }
}

/// A reply that is a lone quote character cannot be unwrapped.
pub open spec fn is_lone_quote(s: Seq<char>) -> bool {
    trim(s) == seq!['"'] || trim(s) == seq!['\'']
}

/// Removes quotes, or a code fence with an optional language tag, that the
/// model put around its whole answer.
pub fn strip_wrapping_quotes(s: &str) -> (r: String)
    requires
        !is_lone_quote(s@),
    ensures
        r@ == spec_strip_wrapping_quotes(s@),
{
    let t = trimmed(s);
    let n = t.len();
    if n > 0 && ((t[0] == '"' && t[n - 1] == '"') || (t[0] == '\'' && t[n - 1] == '\'')) {
        proof {
            assert(n >= 2) by {
                if n == 1 {
                    assert(t@ =~= seq![t@[0]]);
                }
            }
        }
        let inner = slice_vec(&t, 1, n - 1);
        return string_of(&trim_vec(&inner));
    }
    if n >= 6 && starts_with_str(&t, "```") {
        let rest = slice_vec(&t, 3, n);
        if ends_with_str(&rest, "```") {
            let raw = slice_vec(&t, 3, n - 3);
            let inner = trim_vec(&raw);
            match split_once_vec(&inner, '\n') {
                Some((first, after)) => {
                    if is_fence_lang_tag(&first) {
                        return string_of(&trim_vec(&after));
                    }
                },
                None => {},
            }
            return string_of(&inner);
        }
    }
    proof {
        reveal_strlit("```");
    }
    string_of(&t)
}

/// A chat reply made ready for insertion: trimmed and unwrapped; `None` when
/// the model answered with nothing.
pub fn polish_reply(content: &str) -> (r: Option<String>)
    requires
        !is_lone_quote(content@),
    ensures
        match r {
            None => trim(content@).len() == 0,
            Some(t) => trim(content@).len() > 0 && t@ == spec_strip_wrapping_quotes(trim(content@)),
        },
{
    let t = trimmed(content);
    if t.len() == 0 {
        return None;
    }
    let ts = string_of(&t);
    proof {
        crate::text::lemma_trim_idempotent(content@);
    }
    Some(strip_wrapping_quotes(ts.as_str()))
}

} // verus!
