//! Settings read from the environment, and the decisions taken from them.
use crate::platform::{parse_pipe_to_env, spec_parse_pipe_to_env};
use crate::profile::{spec_from_env_legacy, DictateProfile};
use crate::text::{
    chars_of, eq_ignore_ascii_case, eq_str, join, join_vec, lower, lower_vec, parse_unsigned,
    parse_unsigned_vec, split_once_char, split_once_vec, string_of, trim, trimmed, upper,
    upper_vec, vec_eq_ignore_ascii_case, views, wv,
};
use crate::text_processing::{lines, lines_vec, TextProcessingConfig};
use vstd::prelude::*;

verus! {

/// Chat backend for transcript polish (not the speech-to-text provider).
#[derive(Debug, Clone, Copy, PartialEq, Eq, Structural)]
pub enum PolishBackend {
    /// OpenCode Zen (OpenAI-compatible, `big-pickle`); text only, never speech.
    OpenCode,
    Mistral,
    Ollama,
}

/// Configuration of dictate, as read from the environment. The beep volume
/// is a float and is kept by the program around the library.
pub struct Config {
    pub mistral_api_key: Option<String>,
    pub mistral_base_url: Option<String>,
    pub mistral_model: String,
    pub mistral_realtime_model: String,
    pub mistral_realtime_base_url: Option<String>,
    pub mistral_realtime_delay_ms: u32,
    pub transcription_mode: String,
    /// Legacy flag; the profile drives behaviour.
    pub batch_mode: bool,
    pub groq_api_key: Option<String>,
    pub groq_base_url: Option<String>,
    pub groq_model: String,
    pub deepgram_api_key: Option<String>,
    pub deepgram_base_url: Option<String>,
    pub deepgram_model: String,
    pub transcription_provider: String,
    pub transcription_language: String,
    pub transcription_timeout_seconds: u64,
    pub transcription_max_retries: u32,
    pub audio_buffer_duration_seconds: usize,
    pub audio_sample_rate: u32,
    pub audio_channels: u16,
    /// Local whisper.cpp model file used by the `local` provider.
    pub whisper_model: String,
    pub enable_audio_feedback: bool,
    pub text_processing: TextProcessingConfig,
    pub profile: DictateProfile,
    /// Pipe command used when the command line gives none.
    pub default_pipe_to: Option<Vec<String>>,
    pub shortcut_key: Option<String>,
    pub shortcut_key_live: Option<String>,
    pub shortcut_key_smart: Option<String>,
    pub shortcut_desktop: Option<String>,
    /// Voice corrections on typed session text.
    pub context_editing: bool,
    pub context_editing_max_delete_chars: usize,
    pub context_editing_max_delete_words: usize,
    /// Chat backend for polish: `auto`, `opencode`, `mistral` or `ollama`.
    pub polish_provider: String,
    pub ollama_base_url: String,
    pub ollama_api_key: Option<String>,
    /// OpenCode Zen key, for text polish only.
    pub opencode_api_key: Option<String>,
    pub opencode_base_url: Option<String>,
}

pub open spec fn opt_view(o: Option<String>) -> Option<Seq<char>> {
    match o {
        Some(s) => Some(s@),
        None => None,
    }
}

impl Default for Config {
    fn default() -> (c: Self)
        ensures
            c.mistral_api_key is None,
            c.mistral_base_url is None,
            c.mistral_model@ == "voxtral-mini-latest"@,
            c.mistral_realtime_model@ == "voxtral-mini-transcribe-realtime-2602"@,
            c.mistral_realtime_base_url is None,
            c.mistral_realtime_delay_ms == 480,
            c.transcription_mode@ == "auto"@,
            !c.batch_mode,
            c.groq_api_key is None,
            c.groq_base_url is None,
            c.groq_model@ == "whisper-large-v3-turbo"@,
            c.deepgram_api_key is None,
            c.deepgram_base_url is None,
            c.deepgram_model@ == "nova-3"@,
            c.transcription_provider@ == "mistral"@,
            c.transcription_language@ == "auto"@,
            c.transcription_timeout_seconds == 60,
            c.transcription_max_retries == 3,
            c.audio_buffer_duration_seconds == 300,
            c.audio_sample_rate == 16000,
            c.audio_channels == 1,
            c.whisper_model@ == "ggml-base.en.bin"@,
            c.enable_audio_feedback,
            c.text_processing.preferred_words@.len() == 0,
            c.text_processing.dictionary@.len() == 0,
            !c.text_processing.history.enabled,
            !c.text_processing.command_mode.use_llm,
            c.profile == DictateProfile::Segmented,
            c.default_pipe_to is None,
            c.shortcut_key is None,
            c.shortcut_key_live is None,
            c.shortcut_key_smart is None,
            c.shortcut_desktop is None,
            c.context_editing,
            c.context_editing_max_delete_chars == 300,
            c.context_editing_max_delete_words == 10,
            c.polish_provider@ == "auto"@,
            c.ollama_base_url@ == "http://127.0.0.1:11434"@,
            c.ollama_api_key is None,
            c.opencode_api_key is None,
            c.opencode_base_url is None,
    {
        Config {
            mistral_api_key: None,
            mistral_base_url: None,
            mistral_model: String::from_str("voxtral-mini-latest"),
            mistral_realtime_model: String::from_str("voxtral-mini-transcribe-realtime-2602"),
            mistral_realtime_base_url: None,
            mistral_realtime_delay_ms: 480,
            transcription_mode: String::from_str("auto"),
            batch_mode: false,
            groq_api_key: None,
            groq_base_url: None,
            groq_model: String::from_str("whisper-large-v3-turbo"),
            deepgram_api_key: None,
            deepgram_base_url: None,
            deepgram_model: String::from_str("nova-3"),
            transcription_provider: String::from_str("mistral"),
            transcription_language: String::from_str("auto"),
            transcription_timeout_seconds: 60,
            transcription_max_retries: 3,
            audio_buffer_duration_seconds: 300,
            audio_sample_rate: 16000,
            audio_channels: 1,
            whisper_model: String::from_str("ggml-base.en.bin"),
            enable_audio_feedback: true,
            text_processing: TextProcessingConfig::default(),
            profile: DictateProfile::Segmented,
            default_pipe_to: None,
            shortcut_key: None,
            shortcut_key_live: None,
            shortcut_key_smart: None,
            shortcut_desktop: None,
            context_editing: true,
            context_editing_max_delete_chars: 300,
            context_editing_max_delete_words: 10,
            polish_provider: String::from_str("auto"),
            ollama_base_url: String::from_str("http://127.0.0.1:11434"),
            ollama_api_key: None,
            opencode_api_key: None,
            opencode_base_url: None,
        }
    }
}

// ───────────────────────── reading the environment ─────────────────────────

pub open spec fn env_views(vars: Seq<(String, String)>) -> Seq<(Seq<char>, Seq<char>)> {
    vars.map_values(|p: (String, String)| (p.0@, p.1@))
}

/// The value of the first variable called `name`.
pub open spec fn env_value(vars: Seq<(Seq<char>, Seq<char>)>, name: Seq<char>) -> Option<Seq<char>>
    decreases vars.len(),
{
    if vars.len() == 0 {
        None
    } else if vars[0].0 == name {
        Some(vars[0].1)
    } else {
        env_value(vars.drop_first(), name)
    }
}

pub open spec fn env_str_or(vars: Seq<(Seq<char>, Seq<char>)>, name: Seq<char>, default: Seq<char>) -> Seq<char> {
    match env_value(vars, name) {
        Some(v) => v,
        None => default,
    }
}

/// An unsigned number, or the default when the variable is unset or is no
/// number that fits.
pub open spec fn env_parse_or(
    vars: Seq<(Seq<char>, Seq<char>)>,
    name: Seq<char>,
    max: nat,
    default: nat,
) -> nat {
    match env_value(vars, name) {
        Some(v) => match parse_unsigned(v, max) {
            Some(n) => n,
            None => default,
        },
        None => default,
    }
}

pub open spec fn is_truthy(v: Seq<char>) -> bool {
    let k = lower(trim(v));
    k == "true"@ || k == "1"@ || k == "yes"@ || k == "on"@
}

pub open spec fn env_bool_or(vars: Seq<(Seq<char>, Seq<char>)>, name: Seq<char>, default: bool) -> bool {
    match env_value(vars, name) {
        Some(v) => is_truthy(v),
        None => default,
    }
}

proof fn lemma_env_value_step(vars: Seq<(Seq<char>, Seq<char>)>, name: Seq<char>, i: int)
    requires
        0 <= i < vars.len(),
        vars[i].0 != name,
    ensures
        env_value(vars.skip(i), name) == env_value(vars.skip(i + 1), name),
{
    assert(vars.skip(i).drop_first() =~= vars.skip(i + 1));
}

/// `std::env::var(name)` taken from a list of variables.
fn env_var(vars: &[(String, String)], name: &str) -> (r: Option<String>)
    ensures
        opt_view(r) == env_value(env_views(vars@), name@),
{
    let ghost vs = env_views(vars@);
    let n = vars.len();
    let mut i: usize = 0;
    proof {
        assert(vs.skip(0) =~= vs);
    }
    while i < n
        invariant
            0 <= i <= n,
            n == vars@.len(),
            vs == env_views(vars@),
            env_value(vs.skip(i as int), name@) == env_value(vs, name@),
        decreases n - i,
    {
        let key = chars_of(vars[i].0.as_str());
        if eq_str(&key, name) {
            proof {
                assert(vs.skip(i as int)[0] == vs[i as int]);
            }
            return Some(String::from_str(vars[i].1.as_str()));
        }
        proof {
            lemma_env_value_step(vs, name@, i as int);
        }
        i = i + 1;
    }
    proof {
        assert(vs.skip(n as int).len() == 0);
    }
    None
}

fn env_str(vars: &[(String, String)], name: &str, default: &str) -> (r: String)
    ensures
        r@ == env_str_or(env_views(vars@), name@, default@),
{
    match env_var(vars, name) {
        Some(v) => v,
        None => String::from_str(default),
    }
}

fn env_number(vars: &[(String, String)], name: &str, max: u64, default: u64) -> (r: u64)
    requires
        default <= max,
    ensures
        r == env_parse_or(env_views(vars@), name@, max as nat, default as nat),
        r <= max,
{
    match env_var(vars, name) {
        Some(v) => {
            let c = chars_of(v.as_str());
            match parse_unsigned_vec(&c, max) {
                Some(n) => n,
                None => default,
            }
        },
        None => default,
    }
}

fn env_bool(vars: &[(String, String)], name: &str, default: bool) -> (r: bool)
    ensures
        r == env_bool_or(env_views(vars@), name@, default),
{
    match env_var(vars, name) {
        Some(v) => {
            let k = lower_vec(&trimmed(v.as_str()));
            eq_str(&k, "true") || eq_str(&k, "1") || eq_str(&k, "yes") || eq_str(&k, "on")
        },
        None => default,
    }
}

/// The output mode: `SHORTCUT_OUTPUT`, else `OUTPUT_MODE`.
pub open spec fn output_mode(vars: Seq<(Seq<char>, Seq<char>)>) -> Option<Seq<char>> {
    match env_value(vars, "SHORTCUT_OUTPUT"@) {
        Some(v) => Some(v),
        None => env_value(vars, "OUTPUT_MODE"@),
    }
}

pub open spec fn pipe_view(o: Option<Vec<String>>) -> Option<Seq<Seq<char>>> {
    match o {
        Some(v) => Some(views(v@)),
        None => None,
    }
}

impl Config {
    /// Configuration from environment variables, given as `(name, value)`
    /// pairs. Unset variables take the defaults; numbers that do not parse
    /// take the defaults as well.
    pub fn from_env(vars: &[(String, String)]) -> (c: Self)
        ensures
            ({
                let e = env_views(vars@);
                &&& opt_view(c.mistral_api_key) == env_value(e, "MISTRAL_API_KEY"@)
                &&& opt_view(c.mistral_base_url) == env_value(e, "MISTRAL_BASE_URL"@)
                &&& c.mistral_model@ == env_str_or(e, "MISTRAL_MODEL"@, "voxtral-mini-latest"@)
                &&& c.mistral_realtime_model@ == env_str_or(
                    e,
                    "MISTRAL_REALTIME_MODEL"@,
                    "voxtral-mini-transcribe-realtime-2602"@,
                )
                &&& opt_view(c.mistral_realtime_base_url) == env_value(e, "MISTRAL_REALTIME_BASE_URL"@)
                &&& c.mistral_realtime_delay_ms == env_parse_or(
                    e,
                    "MISTRAL_REALTIME_DELAY_MS"@,
                    u32::MAX as nat,
                    480,
                )
                &&& c.transcription_mode@ == env_str_or(e, "TRANSCRIPTION_MODE"@, "auto"@)
                &&& c.batch_mode == env_bool_or(e, "BATCH_MODE"@, false)
                &&& opt_view(c.groq_api_key) == env_value(e, "GROQ_API_KEY"@)
                &&& opt_view(c.groq_base_url) == env_value(e, "GROQ_BASE_URL"@)
                &&& c.groq_model@ == env_str_or(e, "GROQ_MODEL"@, "whisper-large-v3-turbo"@)
                &&& opt_view(c.deepgram_api_key) == env_value(e, "DEEPGRAM_API_KEY"@)
                &&& opt_view(c.deepgram_base_url) == env_value(e, "DEEPGRAM_BASE_URL"@)
                &&& c.deepgram_model@ == env_str_or(e, "DEEPGRAM_MODEL"@, "nova-3"@)
                &&& c.transcription_provider@ == env_str_or(e, "TRANSCRIPTION_PROVIDER"@, "mistral"@)
                &&& c.transcription_language@ == env_str_or(e, "TRANSCRIPTION_LANGUAGE"@, "auto"@)
                &&& c.transcription_timeout_seconds == env_parse_or(
                    e,
                    "TRANSCRIPTION_TIMEOUT_SECONDS"@,
                    u64::MAX as nat,
                    60,
                )
                &&& c.transcription_max_retries == env_parse_or(
                    e,
                    "TRANSCRIPTION_MAX_RETRIES"@,
                    u32::MAX as nat,
                    3,
                )
                &&& c.audio_buffer_duration_seconds == env_parse_or(
                    e,
                    "AUDIO_BUFFER_DURATION_SECONDS"@,
                    usize::MAX as nat,
                    300,
                )
                &&& c.audio_sample_rate == env_parse_or(e, "AUDIO_SAMPLE_RATE"@, u32::MAX as nat, 16000)
                &&& c.audio_channels == env_parse_or(e, "AUDIO_CHANNELS"@, u16::MAX as nat, 1)
                &&& c.whisper_model@ == env_str_or(e, "WHISPER_MODEL"@, "ggml-base.en.bin"@)
                &&& c.enable_audio_feedback == env_bool_or(e, "ENABLE_AUDIO_FEEDBACK"@, true)
                &&& c.text_processing.preferred_words@.len() == 0
                &&& c.text_processing.dictionary@.len() == 0
                &&& c.profile == spec_from_env_legacy(
                    env_value(e, "DICTATE_PROFILE"@),
                    env_bool_or(e, "BATCH_MODE"@, false),
                    env_str_or(e, "TRANSCRIPTION_MODE"@, "auto"@),
                )
                &&& pipe_view(c.default_pipe_to) == spec_parse_pipe_to_env(output_mode(e))
                &&& opt_view(c.shortcut_key) == env_value(e, "SHORTCUT_KEY"@)
                &&& opt_view(c.shortcut_key_live) == env_value(e, "SHORTCUT_KEY_LIVE"@)
                &&& opt_view(c.shortcut_key_smart) == env_value(e, "SHORTCUT_KEY_SMART"@)
                &&& opt_view(c.shortcut_desktop) == env_value(e, "SHORTCUT_DESKTOP"@)
                &&& c.context_editing == env_bool_or(e, "CONTEXT_EDITING"@, true)
                &&& c.context_editing_max_delete_chars == env_parse_or(
                    e,
                    "CONTEXT_EDITING_MAX_DELETE_CHARS"@,
                    usize::MAX as nat,
                    300,
                )
                &&& c.context_editing_max_delete_words == env_parse_or(
                    e,
                    "CONTEXT_EDITING_MAX_DELETE_WORDS"@,
                    usize::MAX as nat,
                    10,
                )
                &&& c.polish_provider@ == env_str_or(e, "POLISH_PROVIDER"@, "auto"@)
                &&& c.ollama_base_url@ == env_str_or(e, "OLLAMA_BASE_URL"@, "http://127.0.0.1:11434"@)
                &&& opt_view(c.ollama_api_key) == env_value(e, "OLLAMA_API_KEY"@)
                &&& opt_view(c.opencode_api_key) == env_value(e, "OPENCODE_API_KEY"@)
                &&& opt_view(c.opencode_base_url) == env_value(e, "OPENCODE_BASE_URL"@)
            }),
    {
        let mode_var = match env_var(vars, "SHORTCUT_OUTPUT") {
            Some(v) => Some(v),
            None => env_var(vars, "OUTPUT_MODE"),
        };
        let default_pipe_to = match &mode_var {
            Some(m) => parse_pipe_to_env(Some(m.as_str())),
            None => parse_pipe_to_env(None),
        };
        let transcription_mode = env_str(vars, "TRANSCRIPTION_MODE", "auto");
        let batch_mode = env_bool(vars, "BATCH_MODE", false);
        let profile = DictateProfile::from_env_legacy(
            env_var(vars, "DICTATE_PROFILE"),
            batch_mode,
            transcription_mode.as_str(),
        );
        let c = Config {
            mistral_api_key: env_var(vars, "MISTRAL_API_KEY"),
            mistral_base_url: env_var(vars, "MISTRAL_BASE_URL"),
            mistral_model: env_str(vars, "MISTRAL_MODEL", "voxtral-mini-latest"),
            mistral_realtime_model: env_str(
                vars,
                "MISTRAL_REALTIME_MODEL",
                "voxtral-mini-transcribe-realtime-2602",
            ),
            mistral_realtime_base_url: env_var(vars, "MISTRAL_REALTIME_BASE_URL"),
            mistral_realtime_delay_ms: env_number(
                vars,
                "MISTRAL_REALTIME_DELAY_MS",
                u32::MAX as u64,
                480,
            ) as u32,
            transcription_mode,
            batch_mode,
            groq_api_key: env_var(vars, "GROQ_API_KEY"),
            groq_base_url: env_var(vars, "GROQ_BASE_URL"),
            groq_model: env_str(vars, "GROQ_MODEL", "whisper-large-v3-turbo"),
            deepgram_api_key: env_var(vars, "DEEPGRAM_API_KEY"),
            deepgram_base_url: env_var(vars, "DEEPGRAM_BASE_URL"),
            deepgram_model: env_str(vars, "DEEPGRAM_MODEL", "nova-3"),
            transcription_provider: env_str(vars, "TRANSCRIPTION_PROVIDER", "mistral"),
            transcription_language: env_str(vars, "TRANSCRIPTION_LANGUAGE", "auto"),
            transcription_timeout_seconds: env_number(
                vars,
                "TRANSCRIPTION_TIMEOUT_SECONDS",
                u64::MAX,
                60,
            ),
            transcription_max_retries: env_number(
                vars,
                "TRANSCRIPTION_MAX_RETRIES",
                u32::MAX as u64,
                3,
            ) as u32,
            audio_buffer_duration_seconds: env_number(
                vars,
                "AUDIO_BUFFER_DURATION_SECONDS",
                usize::MAX as u64,
                300,
            ) as usize,
            audio_sample_rate: env_number(vars, "AUDIO_SAMPLE_RATE", u32::MAX as u64, 16000) as u32,
            audio_channels: env_number(vars, "AUDIO_CHANNELS", u16::MAX as u64, 1) as u16,
            whisper_model: env_str(vars, "WHISPER_MODEL", "ggml-base.en.bin"),
            enable_audio_feedback: env_bool(vars, "ENABLE_AUDIO_FEEDBACK", true),
            text_processing: TextProcessingConfig::default(),
            profile,
            default_pipe_to,
            shortcut_key: env_var(vars, "SHORTCUT_KEY"),
            shortcut_key_live: env_var(vars, "SHORTCUT_KEY_LIVE"),
            shortcut_key_smart: env_var(vars, "SHORTCUT_KEY_SMART"),
            shortcut_desktop: env_var(vars, "SHORTCUT_DESKTOP"),
            context_editing: env_bool(vars, "CONTEXT_EDITING", true),
            context_editing_max_delete_chars: env_number(
                vars,
                "CONTEXT_EDITING_MAX_DELETE_CHARS",
                usize::MAX as u64,
                300,
            ) as usize,
            context_editing_max_delete_words: env_number(
                vars,
                "CONTEXT_EDITING_MAX_DELETE_WORDS",
                usize::MAX as u64,
                10,
            ) as usize,
            polish_provider: env_str(vars, "POLISH_PROVIDER", "auto"),
            ollama_base_url: env_str(vars, "OLLAMA_BASE_URL", "http://127.0.0.1:11434"),
            ollama_api_key: env_var(vars, "OLLAMA_API_KEY"),
            opencode_api_key: env_var(vars, "OPENCODE_API_KEY"),
            opencode_base_url: env_var(vars, "OPENCODE_BASE_URL"),
        };
        c
    }
}

// ───────────────────────── decisions ─────────────────────────

pub open spec fn has_key(k: Option<String>) -> bool {
    match k {
        Some(v) => v@.len() > 0,
        None => false,
    }
}

pub open spec fn has_trimmed_key(k: Option<String>) -> bool {
    match k {
        Some(v) => trim(v@).len() > 0,
        None => false,
    }
}

/// `auto` (or nothing): OpenCode Zen when its key is set, else Mistral when
/// its key is set, else Ollama. An explicit backend needs its own key
/// (Ollama needs none); an unknown name gives no backend.
pub open spec fn spec_resolve_polish_backend(
    provider: Seq<char>,
    opencode_key: bool,
    mistral_key: bool,
) -> Option<PolishBackend> {
    let mode = lower(trim(provider));
    if mode == "opencode"@ || mode == "zen"@ || mode == "big-pickle"@ {
        if opencode_key {
            Some(PolishBackend::OpenCode)
        } else {
            None
        }
    } else if mode == "mistral"@ {
        if mistral_key {
            Some(PolishBackend::Mistral)
        } else {
            None
        }
    } else if mode == "ollama"@ {
        Some(PolishBackend::Ollama)
    } else if mode == "auto"@ || mode == ""@ {
        if opencode_key {
            Some(PolishBackend::OpenCode)
        } else if mistral_key {
            Some(PolishBackend::Mistral)
        } else {
            Some(PolishBackend::Ollama)
        }
    } else {
        None
    }
}

pub open spec fn is_streaming_profile(p: DictateProfile) -> bool {
    p == DictateProfile::Segmented || p == DictateProfile::LiveTyping
}

pub open spec fn spec_uses_realtime(c: Config, provider: Seq<char>) -> bool {
    is_streaming_profile(c.profile) && eq_ignore_ascii_case(c.transcription_provider@, provider)
        && !eq_ignore_ascii_case(c.transcription_mode@, "batch"@)
}

pub open spec fn is_retired_key(key: Seq<char>) -> bool {
    let k = upper(trim(key));
    k == "ENABLE_OVERLAY"@ || k == "DICTATE_OVERLAY_SOCKET"@
}

/// A line of the environment file that sets a retired key.
pub open spec fn drops_line(line: Seq<char>) -> bool {
    let t = trim(line);
    !(t.len() > 0 && t[0] == '#') && t.len() > 0 && match split_once_char(t, '=') {
        Some((key, _)) => is_retired_key(key),
        None => false,
    }
}

pub open spec fn kept_lines(ls: Seq<Seq<char>>) -> Seq<Seq<char>> {
    ls.filter(|l: Seq<char>| !drops_line(l))
}

/// The environment file without its retired keys; `None` when it has none.
pub open spec fn spec_prune_retired(contents: Seq<char>) -> Option<Seq<char>> {
    let ls = lines(contents);
    if kept_lines(ls).len() == ls.len() {
        None
    } else {
        let out = join(kept_lines(ls), "\n"@);
        Some(
            if out.len() > 0 {
                out.push('\n')
            } else {
                out
            },
        )
    }
}

pub open spec fn provider_key_error(c: Config, local_model_path: Seq<char>, local_model_exists: bool) -> Option<Seq<char>> {
    let p = lower(c.transcription_provider@);
    if p == "mistral"@ {
        if c.mistral_api_key is None {
            Some("MISTRAL_API_KEY is required when using Mistral provider. Please set it in your .env file."@)
        } else {
            None
        }
    } else if p == "groq"@ {
        if c.groq_api_key is None {
            Some("GROQ_API_KEY is required when using Groq provider. Please set it in your .env file."@)
        } else {
            None
        }
    } else if p == "deepgram"@ {
        if c.deepgram_api_key is None {
            Some("DEEPGRAM_API_KEY is required when using Deepgram provider. Please set it in your .env file."@)
        } else {
            None
        }
    } else if p == "local"@ {
        if !local_model_exists {
            Some("Local model not found at "@ + local_model_path + ". Use --download-model to fetch it."@)
        } else {
            None
        }
    } else {
        Some("Unsupported transcription provider: "@ + p
            + ". Supported providers: mistral, groq, deepgram, local"@)
    }
}

/// The first problem of the configuration, in the order they are checked.
pub open spec fn spec_validation_error(c: Config, local_model_path: Seq<char>, local_model_exists: bool) -> Option<Seq<char>> {
    let mode = lower(c.transcription_mode@);
    if provider_key_error(c, local_model_path, local_model_exists) is Some {
        provider_key_error(c, local_model_path, local_model_exists)
    } else if c.audio_buffer_duration_seconds == 0 {
        Some("AUDIO_BUFFER_DURATION_SECONDS must be greater than 0"@)
    } else if c.audio_sample_rate == 0 {
        Some("AUDIO_SAMPLE_RATE must be greater than 0"@)
    } else if c.audio_channels == 0 {
        Some("AUDIO_CHANNELS must be greater than 0"@)
    } else if c.transcription_timeout_seconds == 0 {
        Some("TRANSCRIPTION_TIMEOUT_SECONDS must be greater than 0"@)
    } else if !(mode == "auto"@ || mode == "realtime"@ || mode == "batch"@) {
        Some("Unsupported TRANSCRIPTION_MODE: "@ + mode + ". Supported modes: auto, realtime, batch"@)
    } else if c.profile == DictateProfile::SmartPaste && spec_resolve_polish_backend(
        c.polish_provider@,
        has_trimmed_key(c.opencode_api_key),
        has_key(c.mistral_api_key),
    ) is None {
        Some("DICTATE_PROFILE=smart_paste requires a polish backend (MISTRAL_API_KEY or Ollama)."@)
    } else if c.mistral_realtime_delay_ms == 0 {
        Some("MISTRAL_REALTIME_DELAY_MS must be greater than 0"@)
    } else {
        None
    }
}

pub(crate) fn key_set(k: &Option<String>) -> (b: bool)
    ensures
        b == has_key(*k),
{
    match k {
        Some(v) => v.as_str().unicode_len() > 0,
        None => false,
    }
}

fn trimmed_key_set(k: &Option<String>) -> (b: bool)
    ensures
        b == has_trimmed_key(*k),
{
    match k {
        Some(v) => trimmed(v.as_str()).len() > 0,
        None => false,
    }
}

/// Whether a key of the environment file is one that is no longer used.
pub fn is_retired_env_key(key: &str) -> (b: bool)
    ensures
        b == is_retired_key(key@),
{
    let k = upper_vec(&trimmed(key));
    eq_str(&k, "ENABLE_OVERLAY") || eq_str(&k, "DICTATE_OVERLAY_SOCKET")
}

fn drops_line_exec(line: &[char]) -> (b: bool)
    ensures
        b == drops_line(line@),
{
    let t = crate::text::trim_vec(line);
    if t.len() == 0 || t[0] == '#' {
        return false;
    }
    match split_once_vec(&t, '=') {
        Some((key, _)) => is_retired_env_key(string_of(&key).as_str()),
        None => false,
    }
}

/// The environment file's text without the lines that set retired keys;
/// `None` when there is nothing to remove.
pub fn prune_retired_env_lines(contents: &str) -> (r: Option<String>)
    ensures
        opt_view(r) == spec_prune_retired(contents@),
{
    let c = chars_of(contents);
    let ls = lines_vec(&c);
    let ghost lv = wv(ls@);
    let mut kept: Vec<Vec<char>> = Vec::new();
    let mut i: usize = 0;
    while i < ls.len()
        invariant
            0 <= i <= ls@.len(),
            lv == wv(ls@),
            wv(kept@) == kept_lines(lv.take(i as int)),
        decreases ls@.len() - i,
    {
        let drop = drops_line_exec(&ls[i]);
        let ghost before = wv(kept@);
        proof {
            reveal(Seq::filter);
            assert(lv.take(i + 1).drop_last() =~= lv.take(i as int));
            assert(lv.take(i + 1).last() == lv[i as int]);
            assert(lv[i as int] == ls@[i as int]@);
        }
        if !drop {
            kept.push(crate::text::copy_chars(&ls[i]));
            proof {
                assert(wv(kept@) =~= before.push(lv[i as int]));
            }
        }
        i = i + 1;
    }
    proof {
        assert(lv.take(ls@.len() as int) =~= lv);
    }
    if kept.len() == ls.len() {
        return None;
    }
    let mut out = join_vec(&kept, &chars_of("\n"));
    if out.len() > 0 {
        out.push('\n');
    }
    Some(string_of(&out))
}

impl Config {
    pub fn save_transcript_history(&self) -> (b: bool)
        ensures
            b == self.text_processing.history.enabled,
    {
        self.text_processing.history.enabled
    }

    /// The chat backend for polish and command-mode fallback, chosen by
    /// `polish_provider` and the keys that are set. Independent of the
    /// speech-to-text provider.
    pub fn resolve_polish_backend(&self) -> (r: Option<PolishBackend>)
        ensures
            r == spec_resolve_polish_backend(
                self.polish_provider@,
                has_trimmed_key(self.opencode_api_key),
                has_key(self.mistral_api_key),
            ),
    {
        let mode = lower_vec(&trimmed(self.polish_provider.as_str()));
        let opencode = trimmed_key_set(&self.opencode_api_key);
        let mistral = key_set(&self.mistral_api_key);
        if eq_str(&mode, "opencode") || eq_str(&mode, "zen") || eq_str(&mode, "big-pickle") {
            if opencode {
                Some(PolishBackend::OpenCode)
            } else {
                None
            }
        } else if eq_str(&mode, "mistral") {
            if mistral {
                Some(PolishBackend::Mistral)
            } else {
                None
            }
        } else if eq_str(&mode, "ollama") {
            Some(PolishBackend::Ollama)
        } else if eq_str(&mode, "auto") || eq_str(&mode, "") {
            if opencode {
                Some(PolishBackend::OpenCode)
            } else if mistral {
                Some(PolishBackend::Mistral)
            } else {
                Some(PolishBackend::Ollama)
            }
        } else {
            None
        }
    }

    /// Whether polish or the command-mode model can run at all.
    pub fn polish_available(&self) -> (b: bool)
        ensures
            b == spec_resolve_polish_backend(
                self.polish_provider@,
                has_trimmed_key(self.opencode_api_key),
                has_key(self.mistral_api_key),
            ) is Some,
    {
        self.resolve_polish_backend().is_some()
    }

    /// The model handles command instructions that no local rule matched.
    pub fn command_mode_uses_llm(&self) -> (b: bool)
        ensures
            b == (self.text_processing.command_mode.use_llm && spec_resolve_polish_backend(
                self.polish_provider@,
                has_trimmed_key(self.opencode_api_key),
                has_key(self.mistral_api_key),
            ) is Some),
    {
        self.text_processing.command_mode.use_llm && self.polish_available()
    }

    /// Mistral realtime speech-to-text: a streaming profile, the Mistral
    /// provider, and not batch mode.
    pub fn use_mistral_realtime_stt(&self) -> (b: bool)
        ensures
            b == spec_uses_realtime(*self, "mistral"@),
    {
        let streaming = matches!(self.profile, DictateProfile::Segmented | DictateProfile::LiveTyping);
        let provider = chars_of(self.transcription_provider.as_str());
        let mode = chars_of(self.transcription_mode.as_str());
        streaming && vec_eq_ignore_ascii_case(&provider, &chars_of("mistral"))
            && !vec_eq_ignore_ascii_case(&mode, &chars_of("batch"))
    }

    /// Deepgram realtime speech-to-text, under the same conditions.
    pub fn use_deepgram_realtime_stt(&self) -> (b: bool)
        ensures
            b == spec_uses_realtime(*self, "deepgram"@),
    {
        let streaming = matches!(self.profile, DictateProfile::Segmented | DictateProfile::LiveTyping);
        let provider = chars_of(self.transcription_provider.as_str());
        let mode = chars_of(self.transcription_mode.as_str());
        streaming && vec_eq_ignore_ascii_case(&provider, &chars_of("deepgram"))
            && !vec_eq_ignore_ascii_case(&mode, &chars_of("batch"))
    }

    /// Realtime daemons started from a shortcut listen on the first press.
    pub fn realtime_daemon_active_on_start(&self) -> (b: bool)
        ensures
            b == (is_streaming_profile(self.profile) && spec_uses_realtime(*self, "mistral"@)),
    {
        matches!(self.profile, DictateProfile::Segmented | DictateProfile::LiveTyping)
            && self.use_mistral_realtime_stt()
    }

    /// The pipe command: the command line's, else the configured default.
    pub fn resolve_pipe_to<'a>(&'a self, cli: Option<&'a Vec<String>>) -> (r: Option<&'a Vec<String>>)
        ensures
            r == (match cli {
                Some(v) => Some(v),
                None => match &self.default_pipe_to {
                    Some(v) => Some(v),
                    None => None,
                },
            }),
    {
        match cli {
            Some(v) => Some(v),
            None => match &self.default_pipe_to {
                Some(v) => Some(v),
                None => None,
            },
        }
    }

    /// Checks the configuration; the error names the first problem. Whether
    /// the local model file exists is looked up by the caller.
    pub fn validate(&self, local_model_path: &str, local_model_exists: bool) -> (r: Result<(), String>)
        ensures
            match r {
                Ok(_) => spec_validation_error(*self, local_model_path@, local_model_exists) is None,
                Err(m) => spec_validation_error(*self, local_model_path@, local_model_exists)
                    == Some(m@),
            },
    {
        let p = lower_vec(&chars_of(self.transcription_provider.as_str()));
        if eq_str(&p, "mistral") {
            if self.mistral_api_key.is_none() {
                return Err(String::from_str(
                    "MISTRAL_API_KEY is required when using Mistral provider. Please set it in your .env file.",
                ));
            }
        } else if eq_str(&p, "groq") {
            if self.groq_api_key.is_none() {
                return Err(String::from_str(
                    "GROQ_API_KEY is required when using Groq provider. Please set it in your .env file.",
                ));
            }
        } else if eq_str(&p, "deepgram") {
            if self.deepgram_api_key.is_none() {
                return Err(String::from_str(
                    "DEEPGRAM_API_KEY is required when using Deepgram provider. Please set it in your .env file.",
                ));
            }
        } else if eq_str(&p, "local") {
            if !local_model_exists {
                let mut m = String::from_str("Local model not found at ");
                m.append(local_model_path);
                m.append(". Use --download-model to fetch it.");
                return Err(m);
            }
        } else {
            let mut m = String::from_str("Unsupported transcription provider: ");
            m.append(string_of(&p).as_str());
            m.append(". Supported providers: mistral, groq, deepgram, local");
            return Err(m);
        }
        if self.audio_buffer_duration_seconds == 0 {
            return Err(String::from_str("AUDIO_BUFFER_DURATION_SECONDS must be greater than 0"));
        }
        if self.audio_sample_rate == 0 {
            return Err(String::from_str("AUDIO_SAMPLE_RATE must be greater than 0"));
        }
        if self.audio_channels == 0 {
            return Err(String::from_str("AUDIO_CHANNELS must be greater than 0"));
        }
        if self.transcription_timeout_seconds == 0 {
            return Err(String::from_str("TRANSCRIPTION_TIMEOUT_SECONDS must be greater than 0"));
        }
        let mode = lower_vec(&chars_of(self.transcription_mode.as_str()));
        if !(eq_str(&mode, "auto") || eq_str(&mode, "realtime") || eq_str(&mode, "batch")) {
            let mut m = String::from_str("Unsupported TRANSCRIPTION_MODE: ");
            m.append(string_of(&mode).as_str());
            m.append(". Supported modes: auto, realtime, batch");
            return Err(m);
        }
        if self.profile == DictateProfile::SmartPaste && !self.polish_available() {
            return Err(String::from_str(
                "DICTATE_PROFILE=smart_paste requires a polish backend (MISTRAL_API_KEY or Ollama).",
            ));
        }
        if self.mistral_realtime_delay_ms == 0 {
            return Err(String::from_str("MISTRAL_REALTIME_DELAY_MS must be greater than 0"));
        }
        Ok(())
    }
}

} // verus!
