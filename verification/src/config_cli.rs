//! Configuration commands: config keys and the `.env` file's lines, desktop
//! shortcuts, warm-daemon services and GNOME keybindings.
use crate::platform::YDOTOOL_PASTE_SHELL;
use crate::profile::{name_key, spec_profile_parse, DictateProfile};
use crate::text::{
    append, chars_of, contains, eq_str, eq_vec, find_vec, join, join_vec, lower, lower_vec,
    occurs_at, replace, replace_char, replace_char_vec, replace_str, slice_vec, split_char,
    split_char_vec, split_once_char, split_once_vec, starts_with, starts_with_str, string_of, trim,
    trim_start, trim_start_vec, trim_vec, trimmed, upper, upper_vec, views, wv,
};
use crate::text_processing::lines;
use vstd::prelude::*;

verus! {

// ───────────────────────── commands ─────────────────────────

pub struct WizardOptions {
    pub provider: Option<String>,
    pub mistral_api_key: Option<String>,
    pub groq_api_key: Option<String>,
    pub mistral_model: Option<String>,
    pub mistral_realtime_model: Option<String>,
    pub profile: Option<String>,
    pub groq_model: Option<String>,
    pub whisper_model: Option<String>,
    pub language: Option<String>,
    pub output_mode: Option<String>,
    pub desktop: Option<String>,
    pub shortcut_key: Option<String>,
    pub audio_feedback: Option<String>,
    pub beep_volume: Option<String>,
}

impl Default for WizardOptions {
    fn default() -> (o: Self)
        ensures
            o.provider is None && o.mistral_api_key is None && o.groq_api_key is None
                && o.mistral_model is None && o.mistral_realtime_model is None && o.profile is None
                && o.groq_model is None && o.whisper_model is None && o.language is None
                && o.output_mode is None && o.desktop is None && o.shortcut_key is None
                && o.audio_feedback is None && o.beep_volume is None,
    {
        WizardOptions {
            provider: None,
            mistral_api_key: None,
            groq_api_key: None,
            mistral_model: None,
            mistral_realtime_model: None,
            profile: None,
            groq_model: None,
            whisper_model: None,
            language: None,
            output_mode: None,
            desktop: None,
            shortcut_key: None,
            audio_feedback: None,
            beep_volume: None,
        }
    }
}

#[allow(inconsistent_fields)]
pub enum ConfigCommand {
    /// Interactively create or update the config file.
    Wizard(Box<WizardOptions>),
    /// Print the current config file, or one config key.
    Get { key: Option<String> },
    /// Set one config key in the config file.
    SetKey { key: String, value: String },
    /// Open the config file in $EDITOR.
    Edit,
}

#[derive(Debug, Clone, Copy, PartialEq, Eq, Structural)]
pub enum AutostartCommand {
    /// Install and start warm live + smart user services
    Install,
    /// Stop and remove warm user services
    Remove,
    /// Print warm service status
    Status,
}

#[derive(Debug, Clone, Copy, PartialEq, Eq, Structural)]
pub enum ShortcutDesktop {
    Hyprland,
    Niri,
    Gnome,
    Kde,
    Sway,
    Other,
}

#[derive(Debug, Clone, Copy, PartialEq, Eq, Structural)]
pub enum ShortcutMode {
    Auto,
    Stdout,
    Clipboard,
    Type,
    Paste,
}

/// Daemon slot toggled by desktop shortcuts (`dictate toggle live|smart`).
#[derive(Debug, Clone, Copy, PartialEq, Eq, Structural)]
pub enum ToggleKind {
    Live,
    Smart,
}

pub struct ShortcutArgs {
    pub desktop: ShortcutDesktop,
    pub mode: ShortcutMode,
    pub profile: String,
    pub key: String,
    /// GNOME only: write live + smart keybindings from the config file.
    pub install: bool,
}

// ───────────────────────── config keys ─────────────────────────

/// The variable that a friendly config key names.
pub open spec fn config_key_name(k: Seq<char>) -> Option<Seq<char>> {
    if k == "provider"@ {
        Some("TRANSCRIPTION_PROVIDER"@)
    } else if k == "language"@ || k == "transcription_language"@ {
        Some("TRANSCRIPTION_LANGUAGE"@)
    } else if k == "timeout"@ || k == "transcription_timeout"@ || k
        == "transcription_timeout_seconds"@ {
        Some("TRANSCRIPTION_TIMEOUT_SECONDS"@)
    } else if k == "retries"@ || k == "max_retries"@ || k == "transcription_max_retries"@ {
        Some("TRANSCRIPTION_MAX_RETRIES"@)
    } else if k == "mistral_key"@ || k == "mistral_api_key"@ {
        Some("MISTRAL_API_KEY"@)
    } else if k == "polish_provider"@ {
        Some("POLISH_PROVIDER"@)
    } else if k == "ollama_base_url"@ {
        Some("OLLAMA_BASE_URL"@)
    } else if k == "ollama_api_key"@ {
        Some("OLLAMA_API_KEY"@)
    } else if k == "ollama_polish_model"@ {
        Some("OLLAMA_POLISH_MODEL"@)
    } else if k == "mistral_model"@ {
        Some("MISTRAL_MODEL"@)
    } else if k == "mistral_realtime_model"@ || k == "realtime_model"@ {
        Some("MISTRAL_REALTIME_MODEL"@)
    } else if k == "mistral_realtime_base_url"@ || k == "realtime_base_url"@ {
        Some("MISTRAL_REALTIME_BASE_URL"@)
    } else if k == "mistral_realtime_delay"@ || k == "mistral_realtime_delay_ms"@ || k
        == "realtime_delay"@ {
        Some("MISTRAL_REALTIME_DELAY_MS"@)
    } else if k == "profile"@ || k == "dictate_profile"@ {
        Some("DICTATE_PROFILE"@)
    } else if k == "batch_mode"@ || k == "batch"@ {
        Some("BATCH_MODE"@)
    } else if k == "transcription_mode"@ || k == "stt_mode"@ {
        Some("TRANSCRIPTION_MODE"@)
    } else if k == "shortcut_output"@ || k == "shortcut_output_mode"@ {
        Some("SHORTCUT_OUTPUT"@)
    } else if k == "mistral_base_url"@ {
        Some("MISTRAL_BASE_URL"@)
    } else if k == "groq_key"@ || k == "groq_api_key"@ {
        Some("GROQ_API_KEY"@)
    } else if k == "groq_model"@ {
        Some("GROQ_MODEL"@)
    } else if k == "groq_base_url"@ {
        Some("GROQ_BASE_URL"@)
    } else if k == "local_model"@ || k == "whisper_model"@ {
        Some("WHISPER_MODEL"@)
    } else if k == "audio_feedback"@ || k == "enable_audio_feedback"@ {
        Some("ENABLE_AUDIO_FEEDBACK"@)
    } else if k == "beep_volume"@ {
        Some("BEEP_VOLUME"@)
    } else if k == "shortcut"@ || k == "shortcut_key"@ {
        Some("SHORTCUT_KEY"@)
    } else if k == "shortcut_key_live"@ || k == "shortcut_live"@ {
        Some("SHORTCUT_KEY_LIVE"@)
    } else if k == "shortcut_key_smart"@ || k == "shortcut_smart"@ {
        Some("SHORTCUT_KEY_SMART"@)
    } else if k == "desktop"@ || k == "shortcut_desktop"@ {
        Some("SHORTCUT_DESKTOP"@)
    } else if k == "mode"@ || k == "output_mode"@ {
        Some("SHORTCUT_OUTPUT"@)
    } else {
        None
    }
}

fn config_key_name_exec(k: &[char]) -> (r: Option<&'static str>)
    ensures
        match r {
            Some(n) => config_key_name(k@) == Some(n@),
            None => config_key_name(k@) is None,
        },
{
    if eq_str(k, "provider") {
        Some("TRANSCRIPTION_PROVIDER")
    } else if eq_str(k, "language") || eq_str(k, "transcription_language") {
        Some("TRANSCRIPTION_LANGUAGE")
    } else if eq_str(k, "timeout") || eq_str(k, "transcription_timeout") || eq_str(
        k,
        "transcription_timeout_seconds",
    ) {
        Some("TRANSCRIPTION_TIMEOUT_SECONDS")
    } else if eq_str(k, "retries") || eq_str(k, "max_retries") || eq_str(
        k,
        "transcription_max_retries",
    ) {
        Some("TRANSCRIPTION_MAX_RETRIES")
    } else if eq_str(k, "mistral_key") || eq_str(k, "mistral_api_key") {
        Some("MISTRAL_API_KEY")
    } else if eq_str(k, "polish_provider") {
        Some("POLISH_PROVIDER")
    } else if eq_str(k, "ollama_base_url") {
        Some("OLLAMA_BASE_URL")
    } else if eq_str(k, "ollama_api_key") {
        Some("OLLAMA_API_KEY")
    } else if eq_str(k, "ollama_polish_model") {
        Some("OLLAMA_POLISH_MODEL")
    } else if eq_str(k, "mistral_model") {
        Some("MISTRAL_MODEL")
    } else if eq_str(k, "mistral_realtime_model") || eq_str(k, "realtime_model") {
        Some("MISTRAL_REALTIME_MODEL")
    } else if eq_str(k, "mistral_realtime_base_url") || eq_str(k, "realtime_base_url") {
        Some("MISTRAL_REALTIME_BASE_URL")
    } else if eq_str(k, "mistral_realtime_delay") || eq_str(k, "mistral_realtime_delay_ms")
        || eq_str(k, "realtime_delay") {
        Some("MISTRAL_REALTIME_DELAY_MS")
    } else if eq_str(k, "profile") || eq_str(k, "dictate_profile") {
        Some("DICTATE_PROFILE")
    } else if eq_str(k, "batch_mode") || eq_str(k, "batch") {
        Some("BATCH_MODE")
    } else if eq_str(k, "transcription_mode") || eq_str(k, "stt_mode") {
        Some("TRANSCRIPTION_MODE")
    } else if eq_str(k, "shortcut_output") || eq_str(k, "shortcut_output_mode") {
        Some("SHORTCUT_OUTPUT")
    } else if eq_str(k, "mistral_base_url") {
        Some("MISTRAL_BASE_URL")
    } else if eq_str(k, "groq_key") || eq_str(k, "groq_api_key") {
        Some("GROQ_API_KEY")
    } else if eq_str(k, "groq_model") {
        Some("GROQ_MODEL")
    } else if eq_str(k, "groq_base_url") {
        Some("GROQ_BASE_URL")
    } else if eq_str(k, "local_model") || eq_str(k, "whisper_model") {
        Some("WHISPER_MODEL")
    } else if eq_str(k, "audio_feedback") || eq_str(k, "enable_audio_feedback") {
        Some("ENABLE_AUDIO_FEEDBACK")
    } else if eq_str(k, "beep_volume") {
        Some("BEEP_VOLUME")
    } else if eq_str(k, "shortcut") || eq_str(k, "shortcut_key") {
        Some("SHORTCUT_KEY")
    } else if eq_str(k, "shortcut_key_live") || eq_str(k, "shortcut_live") {
        Some("SHORTCUT_KEY_LIVE")
    } else if eq_str(k, "shortcut_key_smart") || eq_str(k, "shortcut_smart") {
        Some("SHORTCUT_KEY_SMART")
    } else if eq_str(k, "desktop") || eq_str(k, "shortcut_desktop") {
        Some("SHORTCUT_DESKTOP")
    } else if eq_str(k, "mode") || eq_str(k, "output_mode") {
        Some("SHORTCUT_OUTPUT")
    } else {
        None
    }
}

/// A config key as the variable it names: trimmed, lower-cased, `-` read as
/// `_`; a known friendly name maps to its variable, anything else is
/// upper-cased.
pub open spec fn spec_normalize_config_key(key: Seq<char>) -> Seq<char> {
    let k = replace_char(lower(trim(key)), '-', '_');
    match config_key_name(k) {
        Some(n) => n,
        None => upper(k),
    }
}

pub fn normalize_config_key(key: &str) -> (r: String)
    ensures
        r@ == spec_normalize_config_key(key@),
{
    let t = trimmed(key);
    let l = lower_vec(&t);
    let k = replace_char_vec(&l, '-', '_');
    match config_key_name_exec(&k) {
        Some(n) => String::from_str(n),
        None => string_of(&upper_vec(&k)),
    }
}

// ───────────────────────── the config file's lines ─────────────────────────

/// The value of `key` in the lines from the `i`-th on: the first line that is
/// neither blank nor a `#` comment and reads `key = value`.
pub open spec fn config_value_at(ls: Seq<Seq<char>>, key: Seq<char>, i: int) -> Option<Seq<char>>
    decreases ls.len() - i,
{
    if i < 0 || i >= ls.len() {
        None
    } else {
        let t = trim(ls[i]);
        if t.len() == 0 || t[0] == '#' {
            config_value_at(ls, key, i + 1)
        } else {
            match split_once_char(t, '=') {
                Some((k, v)) => if trim(k) == key {
                    Some(trim(v))
                } else {
                    config_value_at(ls, key, i + 1)
                },
                None => config_value_at(ls, key, i + 1),
            }
        }
    }
}

/// The value a config file's text gives to a key (normalized first).
pub open spec fn spec_config_value(contents: Seq<char>, key: Seq<char>) -> Option<Seq<char>> {
    config_value_at(lines(contents), spec_normalize_config_key(key), 0)
}

fn lines_vec(s: &[char]) -> (r: Vec<Vec<char>>)
    ensures
        wv(r@) == lines(s@),
{
    let parts = split_char_vec(s, '\n');
    let ghost ps = wv(parts@);
    let ghost ls = lines(s@);
    let n = parts.len() - 1;
    let mut out: Vec<Vec<char>> = Vec::new();
    let mut i: usize = 0;
    proof {
        assert(wv(out@) =~= Seq::<Seq<char>>::empty());
    }
    while i < n
        invariant
            0 <= i <= n,
            n == parts@.len() - 1,
            ps == wv(parts@),
            ps == split_char(s@, '\n'),
            ls == lines(s@),
            wv(out@) == ls.take(i as int),
        decreases n - i,
    {
        let part = &parts[i];
        let line = if part.len() > 0 && part[part.len() - 1] == '\r' {
            slice_vec(part, 0, part.len() - 1)
        } else {
            slice_vec(part, 0, part.len())
        };
        proof {
            assert(ps[i as int] == part@);
            if part@.len() > 0 && part@.last() == '\r' {
                assert(line@ =~= part@.drop_last());
            } else {
                assert(line@ =~= part@);
            }
            assert(ls[i as int] == line@);
        }
        let ghost before = wv(out@);
        out.push(line);
        proof {
            assert(wv(out@) =~= before.push(ls[i as int]));
            assert(ls.take(i + 1) =~= ls.take(i as int).push(ls[i as int]));
        }
        i = i + 1;
    }
    if parts[n].len() > 0 {
        let last = slice_vec(&parts[n], 0, parts[n].len());
        let ghost before = wv(out@);
        out.push(last);
        proof {
            assert(ps[n as int] == parts@[n as int]@);
            assert(last@ =~= ps[n as int]);
            assert(wv(out@) =~= before.push(last@));
            assert(ls =~= ls.take(n as int).push(ps[n as int]));
        }
    } else {
        proof {
            assert(ps[n as int] == parts@[n as int]@);
            assert(ls.take(n as int) =~= ls);
        }
    }
    out
}

/// The value a config file's text gives to a key.
pub fn config_value(contents: &str, key: &str) -> (r: Option<String>)
    ensures
        match r {
            Some(v) => spec_config_value(contents@, key@) == Some(v@),
            None => spec_config_value(contents@, key@) is None,
        },
{
    let k = normalize_config_key(key);
    let kv = chars_of(k.as_str());
    let ls = lines_vec(&chars_of(contents));
    let ghost lsv = wv(ls@);
    let mut i: usize = 0;
    while i < ls.len()
        invariant
            0 <= i <= ls@.len(),
            lsv == wv(ls@),
            lsv == lines(contents@),
            kv@ == spec_normalize_config_key(key@),
            config_value_at(lsv, kv@, i as int) == config_value_at(lsv, kv@, 0),
        decreases ls@.len() - i,
    {
        let t = trim_vec(&ls[i]);
        proof {
            assert(lsv[i as int] == ls@[i as int]@);
        }
        if t.len() > 0 && t[0] != '#' {
            match split_once_vec(&t, '=') {
                Some((lk, v)) => {
                    if eq_vec(&trim_vec(&lk), &kv) {
                        return Some(string_of(&trim_vec(&v)));
                    }
                },
                None => {},
            }
        }
        i = i + 1;
    }
    None
}

/// The lines from the `i`-th on with the first setting of `key` (not in a
/// comment) replaced by `entry`; `entry` added at the end when no line set it.
pub open spec fn set_from(ls: Seq<Seq<char>>, key: Seq<char>, entry: Seq<char>, i: int, found: bool) -> Seq<
    Seq<char>,
>
    decreases ls.len() - i,
{
    if i < 0 || i >= ls.len() {
        if found {
            Seq::<Seq<char>>::empty()
        } else {
            seq![entry]
        }
    } else {
        let l = ls[i];
        let sets = !found && !starts_with(trim_start(l), "#"@) && (split_once_char(l, '=') matches Some(
            (lk, _),
        ) && trim(lk) == key);
        if sets {
            seq![entry] + set_from(ls, key, entry, i + 1, true)
        } else {
            seq![l] + set_from(ls, key, entry, i + 1, found)
        }
    }
}

/// A config file's text with a key (normalized first) set to a value.
pub open spec fn spec_with_config_value(contents: Seq<char>, key: Seq<char>, value: Seq<char>) -> Seq<
    char,
> {
    let k = spec_normalize_config_key(key);
    join(set_from(lines(contents), k, k + "="@ + value, 0, false), "\n"@) + "\n"@
}

pub fn with_config_value(contents: &str, key: &str, value: &str) -> (r: String)
    ensures
        r@ == spec_with_config_value(contents@, key@, value@),
{
    let k = normalize_config_key(key);
    let kv = chars_of(k.as_str());
    let mut entry = chars_of(k.as_str());
    entry.push('=');
    append(&mut entry, &chars_of(value));
    proof {
        reveal_strlit("=");
        assert(entry@ =~= k@ + "="@ + value@);
    }
    let ls = lines_vec(&chars_of(contents));
    let ghost lsv = wv(ls@);
    let mut out: Vec<Vec<char>> = Vec::new();
    let mut found = false;
    let mut i: usize = 0;
    proof {
        assert(wv(out@) + set_from(lsv, kv@, entry@, 0, false) =~= set_from(lsv, kv@, entry@, 0, false));
    }
    while i < ls.len()
        invariant
            0 <= i <= ls@.len(),
            lsv == wv(ls@),
            wv(out@) + set_from(lsv, kv@, entry@, i as int, found) == set_from(
                lsv,
                kv@,
                entry@,
                0,
                false,
            ),
        decreases ls@.len() - i,
    {
        let l = &ls[i];
        proof {
            assert(lsv[i as int] == l@);
        }
        let mut sets = false;
        if !found && !starts_with_str(&trim_start_vec(l), "#") {
            match split_once_vec(l, '=') {
                Some((lk, _)) => {
                    sets = eq_vec(&trim_vec(&lk), &kv);
                },
                None => {},
            }
        }
        let ghost before = wv(out@);
        if sets {
            out.push(crate::text::copy_chars(&entry));
            found = true;
            proof {
                assert(wv(out@) =~= before.push(entry@));
                assert(before + set_from(lsv, kv@, entry@, i as int, false) =~= wv(out@)
                    + set_from(lsv, kv@, entry@, i + 1, true));
            }
        } else {
            out.push(crate::text::copy_chars(l));
            proof {
                assert(wv(out@) =~= before.push(l@));
                assert(before + set_from(lsv, kv@, entry@, i as int, found) =~= wv(out@)
                    + set_from(lsv, kv@, entry@, i + 1, found));
            }
        }
        i = i + 1;
    }
    if !found {
        let ghost before = wv(out@);
        out.push(entry);
        proof {
            assert(wv(out@) =~= before + set_from(lsv, kv@, entry@, i as int, found));
        }
    } else {
        proof {
            assert(wv(out@) =~= wv(out@) + set_from(lsv, kv@, entry@, i as int, found));
        }
    }
    let mut r = join_vec(&out, &chars_of("\n"));
    r.push('\n');
    proof {
        reveal_strlit("\n");
    }
    string_of(&r)
}

// ───────────────────────── shortcuts ─────────────────────────

/// Whether a shortcut for the profile starts the long-running daemon.
pub open spec fn profile_uses_daemon(profile: Seq<char>) -> bool {
    (match spec_profile_parse(name_key(profile)) {
        Some(p) => p == DictateProfile::Segmented || p == DictateProfile::LiveTyping || p
            == DictateProfile::SmartPaste || p == DictateProfile::Command,
        None => false,
    }) || profile == "segmented"@ || profile == "live_typing"@ || profile == "smart_paste"@
        || profile == "command"@
}

/// The `dictate` command line a shortcut runs.
pub open spec fn spec_shortcut_command(mode: ShortcutMode, profile: Seq<char>) -> Seq<char> {
    let daemon_flag = if profile_uses_daemon(profile) {
        " --daemon"@
    } else {
        Seq::<char>::empty()
    };
    let mode_flag = if profile == "smart_paste"@ || profile == "smart"@ {
        " --mode smart"@
    } else if profile == "live_typing"@ || profile == "live"@ {
        " --mode live"@
    } else {
        Seq::<char>::empty()
    };
    let base = "dictate"@ + daemon_flag + mode_flag;
    match mode {
        ShortcutMode::Auto => base,
        ShortcutMode::Stdout => base,
        ShortcutMode::Clipboard => base + " --pipe-to wl-copy"@,
        ShortcutMode::Type => base + " --pipe-to ydotool type --file -"@,
        ShortcutMode::Paste => base + " --pipe-to sh -c '"@ + YDOTOOL_PASTE_SHELL@ + "'"@,
    }
}

pub fn shortcut_command(mode: &ShortcutMode, profile: &str) -> (r: String)
    ensures
        r@ == spec_shortcut_command(*mode, profile@),
{
    let pv = chars_of(profile);
    let daemon = match DictateProfile::parse(profile) {
        Some(p) => match p {
            DictateProfile::Segmented => true,
            DictateProfile::LiveTyping => true,
            DictateProfile::SmartPaste => true,
            DictateProfile::Command => true,
            _ => false,
        },
        None => false,
    } || eq_str(&pv, "segmented") || eq_str(&pv, "live_typing") || eq_str(&pv, "smart_paste")
        || eq_str(&pv, "command");
    let mut base = String::from_str("dictate");
    if daemon {
        base.append(" --daemon");
    }
    if eq_str(&pv, "smart_paste") || eq_str(&pv, "smart") {
        base.append(" --mode smart");
    } else if eq_str(&pv, "live_typing") || eq_str(&pv, "live") {
        base.append(" --mode live");
    }
    proof {
        reveal_strlit("");
        assert(""@ =~= Seq::<char>::empty());
    }
    match mode {
        ShortcutMode::Auto => base,
        ShortcutMode::Stdout => base,
        ShortcutMode::Clipboard => {
            base.append(" --pipe-to wl-copy");
            base
        },
        ShortcutMode::Type => {
            base.append(" --pipe-to ydotool type --file -");
            base
        },
        ShortcutMode::Paste => {
            base.append(" --pipe-to sh -c '");
            base.append(YDOTOOL_PASTE_SHELL);
            base.append("'");
            base
        },
    }
}

/// How a shortcut mode is described.
pub open spec fn spec_mode_name(mode: ShortcutMode) -> Seq<char> {
    match mode {
        ShortcutMode::Auto => "auto output"@,
        ShortcutMode::Stdout => "stdout"@,
        ShortcutMode::Clipboard => "clipboard"@,
        ShortcutMode::Type => "direct typing"@,
        ShortcutMode::Paste => "clipboard + paste"@,
    }
}

pub fn mode_name(mode: &ShortcutMode) -> (s: &'static str)
    ensures
        s@ == spec_mode_name(*mode),
{
    match mode {
        ShortcutMode::Auto => "auto output",
        ShortcutMode::Stdout => "stdout",
        ShortcutMode::Clipboard => "clipboard",
        ShortcutMode::Type => "direct typing",
        ShortcutMode::Paste => "clipboard + paste",
    }
}

/// The first occurrence of `from` replaced by `to` (`str::replacen` once).
pub open spec fn replace_first(s: Seq<char>, from: Seq<char>, to: Seq<char>) -> Seq<char> {
    if contains(s, from) {
        let i = choose|i: int|
            occurs_at(s, from, i) && forall|j: int| 0 <= j < i ==> !#[trigger] occurs_at(s, from, j);
        s.take(i) + to + s.skip(i + from.len())
    } else {
        s
    }
}

pub fn replace_first_vec(s: &[char], from: &[char], to: &[char]) -> (r: Vec<char>)
    ensures
        r@ == replace_first(s@, from@, to@),
{
    let found = find_vec(s, from);
    match found {
        Some(i) => {
            proof {
                assert(occurs_at(s@, from@, i as int));
                assert(i + from@.len() <= s@.len());
                assert(contains(s@, from@));
                let k = choose|k: int|
                    occurs_at(s@, from@, k) && forall|j: int|
                        0 <= j < k ==> !#[trigger] occurs_at(s@, from@, j);
                if k < i {
                    assert(occurs_at(s@, from@, k));
                } else if i < k {
                    assert(occurs_at(s@, from@, i as int));
                }
            }
            let n = s.len();
            assert(i + from@.len() <= n);
            let end: usize = i + from.len();
            let mut r = slice_vec(s, 0, i);
            append(&mut r, to);
            let rest = slice_vec(s, end, s.len());
            append(&mut r, &rest);
            r
        },
        None => crate::text::copy_chars(s),
    }
}

/// A shell command that toggles the matching long-running daemon with
/// `SIGUSR1`, or starts the command in the background when none runs.
pub open spec fn spec_toggle_shell(cmd: Seq<char>) -> Seq<char> {
    let pattern = replace(replace_first(cmd, "dictate"@, "[d]ictate"@), "'"@, "'\"'\"'"@);
    "pgrep -f '"@ + pattern + "' >/dev/null && pkill -f --signal SIGUSR1 '"@ + pattern
        + "' || ("@ + cmd + " &)"@
}

pub fn toggle_shell(cmd: &str) -> (r: String)
    ensures
        r@ == spec_toggle_shell(cmd@),
{
    let c = chars_of(cmd);
    let first = replace_first_vec(&c, &chars_of("dictate"), &chars_of("[d]ictate"));
    proof {
        reveal_strlit("'");
    }
    let pattern = string_of(&replace_str(&first, "'", "'\"'\"'"));
    let mut r = String::from_str("pgrep -f '");
    r.append(pattern.as_str());
    r.append("' >/dev/null && pkill -f --signal SIGUSR1 '");
    r.append(pattern.as_str());
    r.append("' || (");
    r.append(cmd);
    r.append(" &)");
    r
}

/// The command line that starts a daemon for the slot.
pub open spec fn spec_toggle_daemon_argv(kind: ToggleKind) -> Seq<Seq<char>> {
    match kind {
        ToggleKind::Live => seq![
            "dictate"@,
            "--daemon"@,
            "--mode"@,
            "live"@,
            "--pipe-to"@,
            "ydotool"@,
            "type"@,
            "--file"@,
            "-"@,
        ],
        ToggleKind::Smart => seq![
            "dictate"@,
            "--daemon"@,
            "--mode"@,
            "smart"@,
            "--pipe-to"@,
            "sh"@,
            "-c"@,
            YDOTOOL_PASTE_SHELL@,
        ],
    }
}

pub fn toggle_daemon_argv(kind: ToggleKind) -> (v: Vec<String>)
    ensures
        views(v@) == spec_toggle_daemon_argv(kind),
{
    let mut v = vec![
        String::from_str("dictate"),
        String::from_str("--daemon"),
        String::from_str("--mode"),
    ];
    match kind {
        ToggleKind::Live => {
            v.push(String::from_str("live"));
            v.push(String::from_str("--pipe-to"));
            v.push(String::from_str("ydotool"));
            v.push(String::from_str("type"));
            v.push(String::from_str("--file"));
            v.push(String::from_str("-"));
        },
        ToggleKind::Smart => {
            v.push(String::from_str("smart"));
            v.push(String::from_str("--pipe-to"));
            v.push(String::from_str("sh"));
            v.push(String::from_str("-c"));
            v.push(String::from_str(YDOTOOL_PASTE_SHELL));
        },
    }
    proof {
        assert(views(v@) =~= spec_toggle_daemon_argv(kind));
    }
    v
}

/// The `pgrep -f` pattern of a slot's daemon (the bracket keeps the pattern
/// from matching the shell that runs it).
pub fn daemon_match_pattern(kind: ToggleKind) -> (s: String)
    ensures
        s@ == (match kind {
            ToggleKind::Live => "[d]ictate --daemon --mode live"@,
            ToggleKind::Smart => "[d]ictate --daemon --mode smart"@,
        }),
{
    match kind {
        ToggleKind::Live => String::from_str("[d]ictate --daemon --mode live"),
        ToggleKind::Smart => String::from_str("[d]ictate --daemon --mode smart"),
    }
}

// ───────────────────────── warm daemons ─────────────────────────

pub const LIVE_SERVICE: &'static str = "dictate-live.service";
pub const SMART_SERVICE: &'static str = "dictate-smart.service";

/// The command a warm daemon service runs, given the path of the executable.
pub open spec fn spec_warm_daemon_command(kind: ToggleKind, exe: Seq<char>) -> Seq<char> {
    match kind {
        ToggleKind::Live => exe + " --daemon --mode live --idle-on-start --pipe-to ydotool type --file -"@,
        ToggleKind::Smart => exe + " --daemon --mode smart --idle-on-start --pipe-to sh -c '"@
            + YDOTOOL_PASTE_SHELL@ + "'"@,
    }
}

pub fn warm_daemon_command(kind: ToggleKind, exe: &str) -> (r: String)
    ensures
        r@ == spec_warm_daemon_command(kind, exe@),
{
    let mut r = String::from_str(exe);
    match kind {
        ToggleKind::Live => {
            r.append(" --daemon --mode live --idle-on-start --pipe-to ydotool type --file -");
        },
        ToggleKind::Smart => {
            r.append(" --daemon --mode smart --idle-on-start --pipe-to sh -c '");
            r.append(YDOTOOL_PASTE_SHELL);
            r.append("'");
        },
    }
    r
}

/// The systemd user unit of a warm daemon.
pub open spec fn spec_service_contents(kind: ToggleKind, exe: Seq<char>) -> Seq<char> {
    let description = match kind {
        ToggleKind::Live => "Dictate warm live typing daemon"@,
        ToggleKind::Smart => "Dictate warm smart paste daemon"@,
    };
    "[Unit]\nDescription="@ + description
        + "\nAfter=graphical-session.target pipewire.service\n\n[Service]\nType=simple\nExecStart="@
        + spec_warm_daemon_command(kind, exe)
        + "\nRestart=on-failure\nRestartSec=2\n\n[Install]\nWantedBy=default.target\n"@
}

pub fn service_contents(kind: ToggleKind, exe: &str) -> (r: String)
    ensures
        r@ == spec_service_contents(kind, exe@),
{
    let mut r = String::from_str("[Unit]\nDescription=");
    match kind {
        ToggleKind::Live => r.append("Dictate warm live typing daemon"),
        ToggleKind::Smart => r.append("Dictate warm smart paste daemon"),
    }
    r.append(
        "\nAfter=graphical-session.target pipewire.service\n\n[Service]\nType=simple\nExecStart=",
    );
    let command = warm_daemon_command(kind, exe);
    r.append(command.as_str());
    r.append("\nRestart=on-failure\nRestartSec=2\n\n[Install]\nWantedBy=default.target\n");
    r
}

/// The settings written to a new config file.
pub const DEFAULT_CONFIG: &'static str = "TRANSCRIPTION_PROVIDER=mistral\nDICTATE_PROFILE=segmented\nMISTRAL_MODEL=voxtral-mini-latest\nMISTRAL_REALTIME_MODEL=voxtral-mini-transcribe-realtime-2602\nMISTRAL_REALTIME_DELAY_MS=480\nGROQ_MODEL=whisper-large-v3-turbo\nTRANSCRIPTION_LANGUAGE=auto\nTRANSCRIPTION_TIMEOUT_SECONDS=60\nTRANSCRIPTION_MAX_RETRIES=3\nENABLE_AUDIO_FEEDBACK=true\nBEEP_VOLUME=0.1\nSHORTCUT_OUTPUT=type\nSHORTCUT_KEY_LIVE=SUPER,R\nSHORTCUT_KEY_SMART=SUPER,SHIFT,R\n";

// ───────────────────────── GNOME keybindings ─────────────────────────

/// Modifiers seen so far, and the key.
pub open spec fn binding_step(state: (Seq<Seq<char>>, Seq<char>), part: Seq<char>) -> (Seq<Seq<char>>, Seq<char>) {
    let p = trim(part);
    if p.len() == 0 {
        state
    } else {
        let u = upper(p);
        if u == "SUPER"@ || u == "META"@ || u == "WIN"@ {
            (state.0.push("<Super>"@), state.1)
        } else if u == "SHIFT"@ {
            (state.0.push("<Shift>"@), state.1)
        } else if u == "CTRL"@ || u == "CONTROL"@ {
            (state.0.push("<Control>"@), state.1)
        } else if u == "ALT"@ {
            (state.0.push("<Alt>"@), state.1)
        } else {
            (state.0, lower(u))
        }
    }
}

pub open spec fn binding_fold(parts: Seq<Seq<char>>) -> (Seq<Seq<char>>, Seq<char>)
    decreases parts.len(),
{
    if parts.len() == 0 {
        (Seq::<Seq<char>>::empty(), Seq::<char>::empty())
    } else {
        binding_step(binding_fold(parts.drop_last()), parts.last())
    }
}

/// A `SUPER,SHIFT,R` style key as a GNOME binding, `<Super><Shift>r`; the
/// last part that is not a modifier is the key.
pub open spec fn spec_gnome_binding(key: Seq<char>) -> Seq<char> {
    let (mods, cap) = binding_fold(split_char(key, ','));
    join(mods, Seq::<char>::empty()) + cap
}

pub fn gnome_binding(key: &str) -> (r: String)
    ensures
        r@ == spec_gnome_binding(key@),
{
    let parts = split_char_vec(&chars_of(key), ',');
    let ghost ps = wv(parts@);
    let mut mods: Vec<Vec<char>> = Vec::new();
    let mut keycap: Vec<char> = Vec::new();
    let mut i: usize = 0;
    proof {
        assert(ps.take(0) =~= Seq::<Seq<char>>::empty());
        assert(wv(mods@) =~= Seq::<Seq<char>>::empty());
    }
    while i < parts.len()
        invariant
            0 <= i <= parts@.len(),
            ps == wv(parts@),
            (wv(mods@), keycap@) == binding_fold(ps.take(i as int)),
        decreases parts@.len() - i,
    {
        proof {
            assert(ps.take(i + 1).drop_last() =~= ps.take(i as int));
            assert(ps.take(i + 1).last() == parts@[i as int]@);
        }
        let p = trim_vec(&parts[i]);
        if p.len() > 0 {
            let u = upper_vec(&p);
            let ghost before = wv(mods@);
            if eq_str(&u, "SUPER") || eq_str(&u, "META") || eq_str(&u, "WIN") {
                mods.push(chars_of("<Super>"));
                proof {
                    assert(wv(mods@) =~= before.push("<Super>"@));
                }
            } else if eq_str(&u, "SHIFT") {
                mods.push(chars_of("<Shift>"));
                proof {
                    assert(wv(mods@) =~= before.push("<Shift>"@));
                }
            } else if eq_str(&u, "CTRL") || eq_str(&u, "CONTROL") {
                mods.push(chars_of("<Control>"));
                proof {
                    assert(wv(mods@) =~= before.push("<Control>"@));
                }
            } else if eq_str(&u, "ALT") {
                mods.push(chars_of("<Alt>"));
                proof {
                    assert(wv(mods@) =~= before.push("<Alt>"@));
                }
            } else {
                keycap = lower_vec(&u);
            }
        }
        i = i + 1;
    }
    proof {
        assert(ps.take(parts@.len() as int) =~= ps);
    }
    let none: Vec<char> = Vec::new();
    let mut r = join_vec(&mods, &none);
    append(&mut r, &keycap);
    proof {
        assert(none@ =~= Seq::<char>::empty());
    }
    string_of(&r)
}

pub const LIVE_KEYBINDING_PATH: &'static str = "/org/gnome/settings-daemon/plugins/media-keys/custom-keybindings/dictate-live/";
pub const SMART_KEYBINDING_PATH: &'static str = "/org/gnome/settings-daemon/plugins/media-keys/custom-keybindings/dictate-smart/";

pub open spec fn strip_char_start(s: Seq<char>, c: char) -> Seq<char>
    decreases s.len(),
{
    if s.len() > 0 && s[0] == c {
        strip_char_start(s.drop_first(), c)
    } else {
        s
    }
}

pub open spec fn strip_char_end(s: Seq<char>, c: char) -> Seq<char>
    decreases s.len(),
{
    if s.len() > 0 && s.last() == c {
        strip_char_end(s.drop_last(), c)
    } else {
        s
    }
}

/// `str::trim_matches` with one character.
pub open spec fn strip_char(s: Seq<char>, c: char) -> Seq<char> {
    strip_char_end(strip_char_start(s, c), c)
}

fn strip_char_start_vec(v: &[char], c: char) -> (r: Vec<char>)
    ensures
        r@ == strip_char_start(v@, c),
{
    let mut i: usize = 0;
    proof {
        assert(v@.skip(0) =~= v@);
    }
    while i < v.len() && v[i] == c
        invariant
            0 <= i <= v@.len(),
            strip_char_start(v@.skip(i as int), c) == strip_char_start(v@, c),
        decreases v@.len() - i,
    {
        proof {
            assert(v@.skip(i as int).drop_first() =~= v@.skip(i + 1));
        }
        i = i + 1;
    }
    let r = slice_vec(v, i, v.len());
    proof {
        assert(r@ =~= v@.skip(i as int));
    }
    r
}

fn strip_char_end_vec(v: &[char], c: char) -> (r: Vec<char>)
    ensures
        r@ == strip_char_end(v@, c),
{
    let mut j: usize = v.len();
    proof {
        assert(v@.take(j as int) =~= v@);
    }
    while j > 0 && v[j - 1] == c
        invariant
            0 <= j <= v@.len(),
            strip_char_end(v@.take(j as int), c) == strip_char_end(v@, c),
        decreases j,
    {
        proof {
            assert(v@.take(j as int).drop_last() =~= v@.take(j - 1));
        }
        j = j - 1;
    }
    let r = slice_vec(v, 0, j);
    proof {
        assert(r@ =~= v@.take(j as int));
    }
    r
}

/// A custom keybinding path listed by `gsettings`, unquoted.
pub open spec fn listed_path(part: Seq<char>) -> Seq<char> {
    strip_char(strip_char(trim(part), '"'), '\'')
}

/// Paths kept from the current list: not blank, not one of the old
/// `dictate-type`, `dictate-clip` or `dictate-stream` bindings.
pub open spec fn kept_paths(parts: Seq<Seq<char>>) -> Seq<Seq<char>>
    decreases parts.len(),
{
    if parts.len() == 0 {
        parts
    } else {
        let rest = kept_paths(parts.drop_last());
        let p = listed_path(parts.last());
        if p.len() == 0 || contains(p, "dictate-type"@) || contains(p, "dictate-clip"@) || contains(
            p,
            "dictate-stream"@,
        ) {
            rest
        } else {
            rest.push(p)
        }
    }
}

pub open spec fn with_path(paths: Seq<Seq<char>>, p: Seq<char>) -> Seq<Seq<char>> {
    if paths.contains(p) {
        paths
    } else {
        paths.push(p)
    }
}

/// Each path quoted, the list bracketed.
pub open spec fn quoted_list(paths: Seq<Seq<char>>) -> Seq<char> {
    "["@ + join(paths.map_values(|p: Seq<char>| "'"@ + p + "'"@), ", "@) + "]"@
}

/// The new `custom-keybindings` value: the current list (when `gsettings`
/// gave one) without stale Dictate bindings, with the live and smart
/// bindings added.
pub open spec fn spec_custom_keybindings_value(existing: Option<Seq<char>>) -> Seq<char> {
    let paths = match existing {
        Some(raw) => kept_paths(
            split_char(strip_char_end(strip_char_start(trim(raw), '['), ']'), ','),
        ),
        None => Seq::<Seq<char>>::empty(),
    };
    quoted_list(with_path(with_path(paths, LIVE_KEYBINDING_PATH@), SMART_KEYBINDING_PATH@))
}

fn has_path(paths: &Vec<Vec<char>>, p: &[char]) -> (b: bool)
    ensures
        b == wv(paths@).contains(p@),
{
    let mut i: usize = 0;
    while i < paths.len()
        invariant
            0 <= i <= paths@.len(),
            forall|k: int| 0 <= k < i ==> wv(paths@)[k] != p@,
        decreases paths@.len() - i,
    {
        if eq_vec(&paths[i], p) {
            proof {
                assert(wv(paths@)[i as int] == p@);
            }
            return true;
        }
        i = i + 1;
    }
    false
}

fn add_path(paths: &mut Vec<Vec<char>>, p: &str)
    ensures
        wv(final(paths)@) == with_path(wv(old(paths)@), p@),
{
    let pv = chars_of(p);
    if !has_path(paths, &pv) {
        let ghost before = wv(paths@);
        paths.push(pv);
        proof {
            assert(wv(paths@) =~= before.push(p@));
        }
    }
}

pub fn custom_keybindings_value(existing: Option<&str>) -> (r: String)
    ensures
        r@ == spec_custom_keybindings_value(
            match existing {
                Some(s) => Some(s@),
                None => None,
            },
        ),
{
    let mut paths: Vec<Vec<char>> = Vec::new();
    proof {
        assert(wv(paths@) =~= Seq::<Seq<char>>::empty());
    }
    match existing {
        Some(raw) => {
            let t = trimmed(raw);
            let t = strip_char_start_vec(&t, '[');
            let t = strip_char_end_vec(&t, ']');
            let parts = split_char_vec(&t, ',');
            let ghost ps = wv(parts@);
            let mut i: usize = 0;
            proof {
                assert(ps.take(0) =~= Seq::<Seq<char>>::empty());
            }
            while i < parts.len()
                invariant
                    0 <= i <= parts@.len(),
                    ps == wv(parts@),
                    wv(paths@) == kept_paths(ps.take(i as int)),
                decreases parts@.len() - i,
            {
                proof {
                    assert(ps.take(i + 1).drop_last() =~= ps.take(i as int));
                    assert(ps.take(i + 1).last() == parts@[i as int]@);
                }
                let p = trim_vec(&parts[i]);
                let p = strip_char_start_vec(&p, '"');
                let p = strip_char_end_vec(&p, '"');
                let p = strip_char_start_vec(&p, '\'');
                let p = strip_char_end_vec(&p, '\'');
                if !(p.len() == 0 || crate::text::contains_str(&p, "dictate-type")
                    || crate::text::contains_str(&p, "dictate-clip")
                    || crate::text::contains_str(&p, "dictate-stream")) {
                    let ghost before = wv(paths@);
                    paths.push(p);
                    proof {
                        assert(wv(paths@) =~= before.push(p@));
                    }
                }
                i = i + 1;
            }
            proof {
                assert(ps.take(parts@.len() as int) =~= ps);
            }
        },
        None => {},
    }
    add_path(&mut paths, LIVE_KEYBINDING_PATH);
    add_path(&mut paths, SMART_KEYBINDING_PATH);
    let ghost final_paths = wv(paths@);
    let mut quoted: Vec<Vec<char>> = Vec::new();
    let mut k: usize = 0;
    while k < paths.len()
        invariant
            0 <= k <= paths@.len(),
            final_paths == wv(paths@),
            quoted@.len() == k,
            forall|m: int| 0 <= m < k ==> (#[trigger] quoted@[m])@ == "'"@ + final_paths[m] + "'"@,
        decreases paths@.len() - k,
    {
        let mut q = chars_of("'");
        append(&mut q, &paths[k]);
        append(&mut q, &chars_of("'"));
        proof {
            assert(final_paths[k as int] == paths@[k as int]@);
        }
        quoted.push(q);
        k = k + 1;
    }
    proof {
        assert(wv(quoted@) =~= final_paths.map_values(|p: Seq<char>| "'"@ + p + "'"@));
    }
    let mut r = chars_of("[");
    append(&mut r, &join_vec(&quoted, &chars_of(", ")));
    append(&mut r, &chars_of("]"));
    string_of(&r)
}

// ───────────────────────── printed shortcuts ─────────────────────────

/// The clipboard variant's command, toggling a daemon that pipes to `wl-copy`.
pub open spec fn clipboard_toggle() -> Seq<char> {
    "pgrep -f '[d]ictate --daemon --pipe-to wl-copy' >/dev/null && pkill -f --signal SIGUSR1 '[d]ictate --daemon --pipe-to wl-copy' || (dictate --daemon --pipe-to wl-copy &)"@
}

/// The parts of a `MOD,KEY` shortcut: the modifier, and the key (`R` when
/// there is none).
pub open spec fn key_parts(key: Seq<char>) -> (Seq<char>, Seq<char>) {
    let parts = split_char(key, ',');
    (parts[0], if parts.len() > 1 {
        parts[1]
    } else {
        "R"@
    })
}

/// What `dictate shortcuts <desktop>` prints (without `--install`): the
/// binding for the desktop, or instructions to add the command by hand.
pub open spec fn spec_shortcut_lines(
    desktop: ShortcutDesktop,
    mode: ShortcutMode,
    profile: Seq<char>,
    key: Seq<char>,
    mode_label: Seq<char>,
) -> Seq<Seq<char>> {
    let shell = spec_toggle_shell(spec_shortcut_command(mode, profile));
    let (mod_part, char_part) = key_parts(key);
    match desktop {
        ShortcutDesktop::Hyprland => seq![
            "# Dictate — profile "@ + profile + " ("@ + mode_label + ")"@,
            "bind = "@ + replace(key, ","@, ", "@) + ", exec, "@ + shell,
            "# Clipboard variant:"@,
            "# bind = "@ + mod_part + " SHIFT, "@ + char_part + ", exec, "@ + clipboard_toggle(),
        ],
        ShortcutDesktop::Niri => seq![
            "// Dictate — profile "@ + profile + " ("@ + mode_label + ")"@,
            replace(key, ","@, "+"@) + " { spawn \"sh\" \"-c\" \""@ + shell + "\"; }"@,
            "// Clipboard variant:"@,
            "// Shift+"@ + mod_part + "+"@ + char_part + " { spawn \"sh\" \"-c\" \""@
                + clipboard_toggle() + "\"; }"@,
        ],
        ShortcutDesktop::Gnome => seq![
            "# GNOME Custom Shortcut"@,
            "# 1. Settings → Keyboard → Keyboard Shortcuts"@,
            "# 2. Scroll to bottom, click +"@,
            "# 3. Name: Dictate ("@ + mode_label + ")"@,
            "#    Command: dictate toggle "@ + (if profile == "smart_paste"@ || profile
                == "smart"@ {
                "smart"@
            } else {
                "live"@
            }),
            "#    Shortcut: "@ + key,
            "# Or: dictate shortcuts gnome --install"@,
        ],
        ShortcutDesktop::Kde => seq![
            "# KDE Custom Shortcut"@,
            "# Add this command as a custom shortcut:"@,
            shell,
        ],
        ShortcutDesktop::Sway => seq![
            "# Sway Custom Shortcut"@,
            "# Add this command as a custom shortcut:"@,
            shell,
        ],
        ShortcutDesktop::Other => seq![
            "# Generic Custom Shortcut"@,
            "# Add this command in your desktop settings:"@,
            shell,
        ],
    }
}

/// The pieces written one after the other.
pub open spec fn concat_all(ps: Seq<Seq<char>>) -> Seq<char>
    decreases ps.len(),
{
    if ps.len() == 0 {
        Seq::<char>::empty()
    } else {
        concat_all(ps.drop_last()) + ps.last()
    }
}

pub open spec fn str_views(v: Seq<&str>) -> Seq<Seq<char>> {
    v.map_values(|p: &str| p@)
}

fn cat(parts: Vec<&str>) -> (r: String)
    ensures
        r@ == concat_all(str_views(parts@)),
{
    let ghost ps = str_views(parts@);
    let mut r = String::new();
    let mut i: usize = 0;
    proof {
        assert(ps.take(0) =~= Seq::<Seq<char>>::empty());
    }
    while i < parts.len()
        invariant
            0 <= i <= parts@.len(),
            ps == str_views(parts@),
            r@ == concat_all(ps.take(i as int)),
        decreases parts@.len() - i,
    {
        proof {
            assert(ps.take(i + 1).drop_last() =~= ps.take(i as int));
            assert(ps.take(i + 1).last() == parts@[i as int]@);
        }
        r.append(parts[i]);
        i = i + 1;
    }
    proof {
        assert(ps.take(parts@.len() as int) =~= ps);
    }
    r
}

#[verifier::spinoff_prover]
#[verifier::rlimit(40)]
pub fn shortcut_lines(args: &ShortcutArgs) -> (r: Vec<String>)
    ensures
        views(r@) == spec_shortcut_lines(
            args.desktop,
            args.mode,
            args.profile@,
            args.key@,
            spec_mode_name(args.mode),
        ),
{
    let cmd = shortcut_command(&args.mode, args.profile.as_str());
    let shell = toggle_shell(cmd.as_str());
    let label = mode_name(&args.mode);
    let kv = chars_of(args.key.as_str());
    let parts = split_char_vec(&kv, ',');
    proof {
        assert(wv(parts@).len() > 0);
        assert(wv(parts@)[0] == parts@[0]@);
    }
    let mod_part = string_of(&parts[0]);
    let char_part = if parts.len() > 1 {
        proof {
            assert(wv(parts@)[1] == parts@[1]@);
        }
        string_of(&parts[1])
    } else {
        String::from_str("R")
    };
    let clip = "pgrep -f '[d]ictate --daemon --pipe-to wl-copy' >/dev/null && pkill -f --signal SIGUSR1 '[d]ictate --daemon --pipe-to wl-copy' || (dictate --daemon --pipe-to wl-copy &)";
    let profile = args.profile.as_str();
    let key = args.key.as_str();
    let r = match args.desktop {
        ShortcutDesktop::Hyprland => {
            proof {
                reveal_strlit(",");
            }
            let spaced = string_of(&replace_str(&kv, ",", ", "));
            vec![
                cat(vec!["# Dictate — profile ", profile, " (", label, ")"]),
                cat(vec!["bind = ", spaced.as_str(), ", exec, ", shell.as_str()]),
                String::from_str("# Clipboard variant:"),
                cat(vec!["# bind = ", mod_part.as_str(), " SHIFT, ", char_part.as_str(), ", exec, ", clip]),
            ]
        },
        ShortcutDesktop::Niri => {
            proof {
                reveal_strlit(",");
            }
            let plus = string_of(&replace_str(&kv, ",", "+"));
            vec![
                cat(vec!["// Dictate — profile ", profile, " (", label, ")"]),
                cat(vec![plus.as_str(), " { spawn \"sh\" \"-c\" \"", shell.as_str(), "\"; }"]),
                String::from_str("// Clipboard variant:"),
                cat(
                    vec![
                        "// Shift+",
                        mod_part.as_str(),
                        "+",
                        char_part.as_str(),
                        " { spawn \"sh\" \"-c\" \"",
                        clip,
                        "\"; }",
                    ],
                ),
            ]
        },
        ShortcutDesktop::Gnome => {
            let pv = chars_of(profile);
            let toggle = if eq_str(&pv, "smart_paste") || eq_str(&pv, "smart") {
                "smart"
            } else {
                "live"
            };
            vec![
                String::from_str("# GNOME Custom Shortcut"),
                String::from_str("# 1. Settings → Keyboard → Keyboard Shortcuts"),
                String::from_str("# 2. Scroll to bottom, click +"),
                cat(vec!["# 3. Name: Dictate (", label, ")"]),
                cat(vec!["#    Command: dictate toggle ", toggle]),
                cat(vec!["#    Shortcut: ", key]),
                String::from_str("# Or: dictate shortcuts gnome --install"),
            ]
        },
        ShortcutDesktop::Kde => vec![
            String::from_str("# KDE Custom Shortcut"),
            String::from_str("# Add this command as a custom shortcut:"),
            String::from_str(shell.as_str()),
        ],
        ShortcutDesktop::Sway => vec![
            String::from_str("# Sway Custom Shortcut"),
            String::from_str("# Add this command as a custom shortcut:"),
            String::from_str(shell.as_str()),
        ],
        ShortcutDesktop::Other => vec![
            String::from_str("# Generic Custom Shortcut"),
            String::from_str("# Add this command in your desktop settings:"),
            String::from_str(shell.as_str()),
        ],
    };
    proof {
        reveal_with_fuel(concat_all, 8);
        assert(views(r@) =~= spec_shortcut_lines(
            args.desktop,
            args.mode,
            args.profile@,
            args.key@,
            spec_mode_name(args.mode),
        ));
    }
    r
}

// ───────────────────────── setup ─────────────────────────

pub open spec fn spec_detect_desktop(session_type: Seq<char>, current_desktop: Seq<char>) -> Seq<char> {
    let d = lower(current_desktop);
    if session_type != "wayland"@ && session_type.len() > 0 {
        "other"@
    } else if contains(d, "gnome"@) || contains(d, "unity"@) {
        "gnome"@
    } else if contains(d, "kde"@) || contains(d, "plasma"@) {
        "kde"@
    } else if contains(d, "sway"@) {
        "sway"@
    } else if contains(d, "hyprland"@) {
        "hyprland"@
    } else if contains(d, "niri"@) {
        "niri"@
    } else {
        "hyprland"@
    }
}

/// The desktop guessed from `XDG_SESSION_TYPE` and `XDG_CURRENT_DESKTOP`
/// (empty when unset): a session other than Wayland is `other`; Hyprland
/// is the default.
pub fn detect_desktop(session_type: &str, current_desktop: &str) -> (r: &'static str)
    ensures
        r@ == spec_detect_desktop(session_type@, current_desktop@),
{
    let session = chars_of(session_type);
    if !eq_str(&session, "wayland") && session.len() > 0 {
        return "other";
    }
    let d = lower_vec(&chars_of(current_desktop));
    if crate::text::contains_str(&d, "gnome") || crate::text::contains_str(&d, "unity") {
        "gnome"
    } else if crate::text::contains_str(&d, "kde") || crate::text::contains_str(&d, "plasma") {
        "kde"
    } else if crate::text::contains_str(&d, "sway") {
        "sway"
    } else if crate::text::contains_str(&d, "hyprland") {
        "hyprland"
    } else if crate::text::contains_str(&d, "niri") {
        "niri"
    } else {
        "hyprland"
    }
}

pub open spec fn spec_parse_shortcut_desktop(s: Seq<char>) -> ShortcutDesktop {
    let k = lower(trim(s));
    if k == "gnome"@ {
        ShortcutDesktop::Gnome
    } else if k == "kde"@ {
        ShortcutDesktop::Kde
    } else if k == "sway"@ {
        ShortcutDesktop::Sway
    } else if k == "niri"@ {
        ShortcutDesktop::Niri
    } else if k == "other"@ {
        ShortcutDesktop::Other
    } else {
        ShortcutDesktop::Hyprland
    }
}

/// The desktop a setup answer names; Hyprland unless it names another.
pub fn parse_shortcut_desktop(s: &str) -> (d: ShortcutDesktop)
    ensures
        d == spec_parse_shortcut_desktop(s@),
{
    let k = lower_vec(&trimmed(s));
    if eq_str(&k, "gnome") {
        ShortcutDesktop::Gnome
    } else if eq_str(&k, "kde") {
        ShortcutDesktop::Kde
    } else if eq_str(&k, "sway") {
        ShortcutDesktop::Sway
    } else if eq_str(&k, "niri") {
        ShortcutDesktop::Niri
    } else if eq_str(&k, "other") {
        ShortcutDesktop::Other
    } else {
        ShortcutDesktop::Hyprland
    }
}

/// The desktops offered during setup, in order.
pub fn desktop_choices() -> (r: Vec<String>)
    ensures
        views(r@) == seq!["hyprland"@, "niri"@, "gnome"@, "kde"@, "sway"@, "other"@],
{
    let r = vec![
        String::from_str("hyprland"),
        String::from_str("niri"),
        String::from_str("gnome"),
        String::from_str("kde"),
        String::from_str("sway"),
        String::from_str("other"),
    ];
    proof {
        assert(views(r@) =~= seq!["hyprland"@, "niri"@, "gnome"@, "kde"@, "sway"@, "other"@]);
    }
    r
}

/// What the setup questions were answered with.
pub struct SetupAnswers {
    /// Mistral for speech-to-text (else Groq).
    pub use_mistral: bool,
    /// The key typed for the chosen provider, if any.
    pub api_key: Option<String>,
    /// The start/stop shortcut.
    pub shortcut: String,
    pub desktop: String,
    /// Audio feedback beeps.
    pub beeps: bool,
}

pub open spec fn key_setting(a: SetupAnswers) -> Seq<(Seq<char>, Seq<char>)> {
    match a.api_key {
        Some(k) => if trim(k@).len() > 0 {
            seq![
                (if a.use_mistral {
                    "mistral-api-key"@
                } else {
                    "groq-api-key"@
                }, trim(k@)),
            ]
        } else {
            Seq::<(Seq<char>, Seq<char>)>::empty()
        },
        None => Seq::<(Seq<char>, Seq<char>)>::empty(),
    }
}

pub open spec fn spec_setup_settings(a: SetupAnswers) -> Seq<(Seq<char>, Seq<char>)> {
    seq![("provider"@, if a.use_mistral {
        "mistral"@
    } else {
        "groq"@
    })] + key_setting(a) + seq![
        ("profile"@, "segmented"@),
        ("batch-mode"@, "false"@),
        ("transcription-mode"@, "auto"@),
        ("language"@, "auto"@),
        ("shortcut-output"@, "type"@),
        ("shortcut-key-live"@, trim(a.shortcut@)),
        ("shortcut-key"@, trim(a.shortcut@)),
        ("shortcut-desktop"@, a.desktop@),
        ("audio-feedback"@, if a.beeps {
            "true"@
        } else {
            "false"@
        }),
    ]
}

pub open spec fn pair_views(v: Seq<(String, String)>) -> Seq<(Seq<char>, Seq<char>)> {
    v.map_values(|p: (String, String)| (p.0@, p.1@))
}

fn push_pair(v: &mut Vec<(String, String)>, k: &str, value: &str)
    ensures
        pair_views(final(v)@) == pair_views(old(v)@).push((k@, value@)),
{
    let ghost before = v@;
    v.push((String::from_str(k), String::from_str(value)));
    proof {
        assert(pair_views(v@) =~= pair_views(before).push((k@, value@)));
    }
}

/// The settings setup writes, in order, for its answers.
pub fn setup_settings(answers: &SetupAnswers) -> (r: Vec<(String, String)>)
    ensures
        pair_views(r@) == spec_setup_settings(*answers),
{
    let mut r: Vec<(String, String)> = Vec::new();
    proof {
        assert(pair_views(r@) =~= Seq::<(Seq<char>, Seq<char>)>::empty());
    }
    push_pair(&mut r, "provider", if answers.use_mistral { "mistral" } else { "groq" });
    let ghost head = pair_views(r@);
    match &answers.api_key {
        Some(k) => {
            let t = string_of(&trimmed(k.as_str()));
            if t.as_str().unicode_len() > 0 {
                push_pair(
                    &mut r,
                    if answers.use_mistral { "mistral-api-key" } else { "groq-api-key" },
                    t.as_str(),
                );
            }
        },
        None => {},
    }
    proof {
        assert(pair_views(r@) =~= head + key_setting(*answers));
    }
    let shortcut = string_of(&trimmed(answers.shortcut.as_str()));
    push_pair(&mut r, "profile", "segmented");
    push_pair(&mut r, "batch-mode", "false");
    push_pair(&mut r, "transcription-mode", "auto");
    push_pair(&mut r, "language", "auto");
    push_pair(&mut r, "shortcut-output", "type");
    push_pair(&mut r, "shortcut-key-live", shortcut.as_str());
    push_pair(&mut r, "shortcut-key", shortcut.as_str());
    push_pair(&mut r, "shortcut-desktop", answers.desktop.as_str());
    push_pair(&mut r, "audio-feedback", if answers.beeps { "true" } else { "false" });
    proof {
        assert(pair_views(r@) =~= spec_setup_settings(*answers));
    }
    r
}

// ───────────────────────── wizard ─────────────────────────

/// A profile answer as the wizard stores it: lowercase, spaces as `_`.
pub fn wizard_profile_key(answer: &str) -> (r: String)
    ensures
        r@ == replace_char(lower(answer@), ' ', '_'),
{
    string_of(&replace_char_vec(&lower_vec(&chars_of(answer)), ' ', '_'))
}

/// `BATCH_MODE` for a profile: on for the whole-clip profiles.
pub fn wizard_batch_mode(profile: &str) -> (r: &'static str)
    ensures
        r@ == (if profile@ == "smart_paste"@ || profile@ == "batch_clip"@ {
            "true"@
        } else {
            "false"@
        }),
{
    let p = chars_of(profile);
    if eq_str(&p, "smart_paste") || eq_str(&p, "batch_clip") {
        "true"
    } else {
        "false"
    }
}

/// The output offered by default: paste for smart paste, else typing.
pub fn default_output_for(profile: &str) -> (r: &'static str)
    ensures
        r@ == (if profile@ == "smart_paste"@ {
            "paste"@
        } else {
            "type"@
        }),
{
    if eq_str(&chars_of(profile), "smart_paste") {
        "paste"
    } else {
        "type"
    }
}

pub open spec fn spec_default_shortcut(desktop: Seq<char>) -> Seq<char> {
    if desktop == "niri"@ {
        "Mod,R"@
    } else if desktop == "gnome"@ {
        "<Super>r"@
    } else if desktop == "kde"@ {
        "Meta+R"@
    } else if desktop == "sway"@ {
        "Mod4+R"@
    } else {
        "SUPER,R"@
    }
}

/// The shortcut offered by default, in the desktop's own notation.
pub fn default_shortcut_for(desktop: &str) -> (r: &'static str)
    ensures
        r@ == spec_default_shortcut(desktop@),
{
    let d = chars_of(desktop);
    if eq_str(&d, "niri") {
        "Mod,R"
    } else if eq_str(&d, "gnome") {
        "<Super>r"
    } else if eq_str(&d, "kde") {
        "Meta+R"
    } else if eq_str(&d, "sway") {
        "Mod4+R"
    } else {
        "SUPER,R"
    }
}

/// The beep volume is asked when feedback is on or a volume was given.
pub fn wizard_asks_beep_volume(audio_feedback: &str, volume_given: bool) -> (b: bool)
    ensures
        b == (crate::text::eq_ignore_ascii_case(trim(audio_feedback@), "true"@) || volume_given),
{
    crate::text::vec_eq_ignore_ascii_case(&trimmed(audio_feedback), &chars_of("true")) || volume_given
}

/// The wizard knows three providers; any other answer stops it.
pub fn wizard_provider_error(provider: &str) -> (r: Option<String>)
    ensures
        match r {
            None => provider@ == "mistral"@ || provider@ == "groq"@ || provider@ == "local"@,
            Some(m) => !(provider@ == "mistral"@ || provider@ == "groq"@ || provider@ == "local"@)
                && m@ == "Unsupported provider '"@ + provider@ + "'. Use mistral, groq, or local."@,
        },
{
    let p = chars_of(provider);
    if eq_str(&p, "mistral") || eq_str(&p, "groq") || eq_str(&p, "local") {
        None
    } else {
        let mut m = String::from_str("Unsupported provider '");
        m.append(provider);
        m.append("'. Use mistral, groq, or local.");
        Some(m)
    }
}

pub open spec fn spec_wizard_closing(
    path: Seq<char>,
    desktop: Seq<char>,
    profile: Seq<char>,
    output: Seq<char>,
    shortcut: Seq<char>,
) -> Seq<Seq<char>> {
    seq![
        "\nSaved config to "@ + path,
        "Run `dictate shortcuts "@ + desktop + " --profile "@ + profile + " --mode "@ + output
            + " --key "@ + shortcut + "` to print a shortcut snippet."@,
    ] + if profile == "smart_paste"@ || profile == "live_typing"@ {
        seq!["Daemon profiles: run `dictate --daemon` in the background (or use the shortcut below)."@]
    } else {
        Seq::<Seq<char>>::empty()
    }
}

/// What the wizard prints once the configuration is saved.
pub fn wizard_closing_lines(
    path: &str,
    desktop: &str,
    profile: &str,
    output: &str,
    shortcut: &str,
) -> (r: Vec<String>)
    ensures
        views(r@) == spec_wizard_closing(path@, desktop@, profile@, output@, shortcut@),
{
    let mut saved = String::from_str("\nSaved config to ");
    saved.append(path);
    let mut run = String::from_str("Run `dictate shortcuts ");
    run.append(desktop);
    run.append(" --profile ");
    run.append(profile);
    run.append(" --mode ");
    run.append(output);
    run.append(" --key ");
    run.append(shortcut);
    run.append("` to print a shortcut snippet.");
    let mut r: Vec<String> = Vec::new();
    r.push(saved);
    r.push(run);
    let p = chars_of(profile);
    if eq_str(&p, "smart_paste") || eq_str(&p, "live_typing") {
        r.push(String::from_str(
            "Daemon profiles: run `dictate --daemon` in the background (or use the shortcut below).",
        ));
    }
    proof {
        assert(views(r@) =~= spec_wizard_closing(path@, desktop@, profile@, output@, shortcut@));
    }
    r
}


// ───────────────────────── the wizard, question by question ─────────────────────────

/// A question the configuration wizard asks.
#[derive(Clone, Copy, Debug, PartialEq, Eq, Structural)]
pub enum WizardField {
    Provider,
    Profile,
    MistralApiKey,
    MistralModel,
    MistralRealtimeModel,
    GroqApiKey,
    GroqModel,
    WhisperModel,
    Language,
    OutputMode,
    Desktop,
    ShortcutKey,
    AudioFeedback,
    BeepVolume,
}

/// A question as it is put: its text and the answer taken on Enter.
pub struct WizardPrompt {
    pub field: WizardField,
    pub message: String,
    pub default: Option<String>,
}

/// Where the wizard stands: the question pending and the answers that later
/// questions and the closing lines depend on.
pub struct WizardState {
    pub asking: WizardField,
    pub provider: String,
    pub profile: String,
    pub output_mode: String,
    pub desktop: String,
    pub shortcut: String,
}

/// What comes after an answer: another question, a refusal, or the end.
pub enum WizardNext {
    Ask(WizardPrompt),
    Fail(String),
    Done,
}

pub struct WizardModel {
    pub asking: WizardField,
    pub provider: Seq<char>,
    pub profile: Seq<char>,
    pub output_mode: Seq<char>,
    pub desktop: Seq<char>,
    pub shortcut: Seq<char>,
}

pub enum WizardNextModel {
    Ask(WizardField, Seq<char>, Option<Seq<char>>),
    Fail(Seq<char>),
    Done,
}

pub open spec fn wizard_model(s: WizardState) -> WizardModel {
    WizardModel {
        asking: s.asking,
        provider: s.provider@,
        profile: s.profile@,
        output_mode: s.output_mode@,
        desktop: s.desktop@,
        shortcut: s.shortcut@,
    }
}

pub open spec fn opt_view(o: Option<String>) -> Option<Seq<char>> {
    match o {
        Some(s) => Some(s@),
        None => None,
    }
}

pub open spec fn wizard_next_view(n: WizardNext) -> WizardNextModel {
    match n {
        WizardNext::Ask(p) => WizardNextModel::Ask(p.field, p.message@, opt_view(p.default)),
        WizardNext::Fail(m) => WizardNextModel::Fail(m@),
        WizardNext::Done => WizardNextModel::Done,
    }
}

/// The text of a question and its default; the output and shortcut
/// defaults follow the profile and the desktop chosen before.
pub open spec fn spec_wizard_prompt(f: WizardField, profile: Seq<char>, desktop: Seq<char>) -> WizardNextModel {
    match f {
        WizardField::Provider => WizardNextModel::Ask(f, "Provider (mistral/groq/local)"@, Some("mistral"@)),
        WizardField::Profile => WizardNextModel::Ask(
            f,
            "Dictation style (Enter = segmented default; legacy: live_typing | smart_paste | batch_clip)"@,
            Some("segmented"@),
        ),
        WizardField::MistralApiKey => WizardNextModel::Ask(f, "Mistral API key"@, None),
        WizardField::MistralModel => WizardNextModel::Ask(f, "Mistral batch model"@, Some("voxtral-mini-latest"@)),
        WizardField::MistralRealtimeModel => WizardNextModel::Ask(
            f,
            "Mistral realtime model"@,
            Some("voxtral-mini-transcribe-realtime-2602"@),
        ),
        WizardField::GroqApiKey => WizardNextModel::Ask(f, "Groq API key"@, None),
        WizardField::GroqModel => WizardNextModel::Ask(f, "Groq model"@, Some("whisper-large-v3-turbo"@)),
        WizardField::WhisperModel => WizardNextModel::Ask(f, "Local Whisper model"@, Some("ggml-base.en.bin"@)),
        WizardField::Language => WizardNextModel::Ask(f, "Language (auto or ISO code)"@, Some("auto"@)),
        WizardField::OutputMode => WizardNextModel::Ask(
            f,
            "Shortcut output: type | clipboard | paste | stdout"@,
            Some(if profile == "smart_paste"@ { "paste"@ } else { "type"@ }),
        ),
        WizardField::Desktop => WizardNextModel::Ask(
            f,
            "Desktop (hyprland/niri/gnome/kde/sway/other)"@,
            Some("hyprland"@),
        ),
        WizardField::ShortcutKey => WizardNextModel::Ask(f, "Shortcut key"@, Some(spec_default_shortcut(desktop))),
        WizardField::AudioFeedback => WizardNextModel::Ask(f, "Audio feedback (true/false)"@, Some("true"@)),
        WizardField::BeepVolume => WizardNextModel::Ask(f, "Beep volume (0.0 to 1.0)"@, Some("0.1"@)),
    }
}

/// The question that follows the Mistral key or model: the models only
/// where they were given on the command line.
pub open spec fn after_mistral(o: WizardOptions, from_key: bool) -> WizardField {
    if from_key && o.mistral_model is Some {
        WizardField::MistralModel
    } else if o.mistral_realtime_model is Some {
        WizardField::MistralRealtimeModel
    } else {
        WizardField::Language
    }
}

pub open spec fn ask(m: WizardModel, f: WizardField) -> WizardNextModel {
    spec_wizard_prompt(f, m.profile, m.desktop)
}

/// One answer of the wizard: the settings it writes, in order, what the
/// wizard keeps, and what comes next.
pub open spec fn spec_wizard_step(m: WizardModel, o: WizardOptions, answer: Seq<char>) -> (
    WizardModel,
    Seq<(Seq<char>, Seq<char>)>,
    WizardNextModel,
) {
    match m.asking {
        WizardField::Provider => {
            let m2 = WizardModel { asking: WizardField::Profile, provider: lower(answer), ..m };
            (m2, seq![("provider"@, lower(answer))], ask(m2, WizardField::Profile))
        },
        WizardField::Profile => {
            let p = replace_char(lower(answer), ' ', '_');
            let writes = seq![
                ("profile"@, p),
                ("batch-mode"@, if p == "smart_paste"@ || p == "batch_clip"@ { "true"@ } else { "false"@ }),
                ("transcription-mode"@, "auto"@),
            ];
            if m.provider == "mistral"@ {
                let m2 = WizardModel { asking: WizardField::MistralApiKey, profile: p, ..m };
                (m2, writes, ask(m2, WizardField::MistralApiKey))
            } else if m.provider == "groq"@ {
                let m2 = WizardModel { asking: WizardField::GroqApiKey, profile: p, ..m };
                (m2, writes, ask(m2, WizardField::GroqApiKey))
            } else if m.provider == "local"@ {
                let m2 = WizardModel { asking: WizardField::WhisperModel, profile: p, ..m };
                (m2, writes, ask(m2, WizardField::WhisperModel))
            } else {
                (
                    WizardModel { profile: p, ..m },
                    writes,
                    WizardNextModel::Fail(
                        "Unsupported provider '"@ + m.provider + "'. Use mistral, groq, or local."@,
                    ),
                )
            }
        },
        WizardField::MistralApiKey => {
            let f = after_mistral(o, true);
            let m2 = WizardModel { asking: f, ..m };
            (m2, key_write("mistral-api-key"@, answer), ask(m2, f))
        },
        WizardField::MistralModel => {
            let f = after_mistral(o, false);
            let m2 = WizardModel { asking: f, ..m };
            (m2, seq![("mistral-model"@, answer)], ask(m2, f))
        },
        WizardField::MistralRealtimeModel => {
            let m2 = WizardModel { asking: WizardField::Language, ..m };
            (m2, seq![("mistral-realtime-model"@, answer)], ask(m2, WizardField::Language))
        },
        WizardField::GroqApiKey => {
            let m2 = WizardModel { asking: WizardField::GroqModel, ..m };
            (m2, key_write("groq-api-key"@, answer), ask(m2, WizardField::GroqModel))
        },
        WizardField::GroqModel => {
            let m2 = WizardModel { asking: WizardField::Language, ..m };
            (m2, seq![("groq-model"@, answer)], ask(m2, WizardField::Language))
        },
        WizardField::WhisperModel => {
            let m2 = WizardModel { asking: WizardField::Language, ..m };
            (m2, seq![("whisper-model"@, answer)], ask(m2, WizardField::Language))
        },
        WizardField::Language => {
            let m2 = WizardModel { asking: WizardField::OutputMode, ..m };
            (m2, seq![("language"@, answer)], ask(m2, WizardField::OutputMode))
        },
        WizardField::OutputMode => {
            let m2 = WizardModel { asking: WizardField::Desktop, output_mode: answer, ..m };
            (m2, seq![("shortcut-output"@, answer)], ask(m2, WizardField::Desktop))
        },
        WizardField::Desktop => {
            let m2 = WizardModel { asking: WizardField::ShortcutKey, desktop: lower(answer), ..m };
            (m2, seq![("shortcut-desktop"@, lower(answer))], ask(m2, WizardField::ShortcutKey))
        },
        WizardField::ShortcutKey => {
            let m2 = WizardModel { asking: WizardField::AudioFeedback, shortcut: answer, ..m };
            (m2, seq![("shortcut-key"@, answer)], ask(m2, WizardField::AudioFeedback))
        },
        WizardField::AudioFeedback => {
            if crate::text::eq_ignore_ascii_case(trim(answer), "true"@) || o.beep_volume is Some {
                let m2 = WizardModel { asking: WizardField::BeepVolume, ..m };
                (m2, seq![("audio-feedback"@, answer)], ask(m2, WizardField::BeepVolume))
            } else {
                (m, seq![("audio-feedback"@, answer)], WizardNextModel::Done)
            }
        },
        WizardField::BeepVolume => (m, seq![("beep-volume"@, answer)], WizardNextModel::Done),
    }
}

/// An API key is written only when one was typed.
pub open spec fn key_write(key: Seq<char>, answer: Seq<char>) -> Seq<(Seq<char>, Seq<char>)> {
    if answer.len() == 0 {
        Seq::<(Seq<char>, Seq<char>)>::empty()
    } else {
        seq![(key, answer)]
    }
}

fn some_str(s: &str) -> (r: Option<String>)
    ensures
        opt_view(r) == Some(s@),
{
    Some(String::from_str(s))
}

/// The question for a field, worded as `spec_wizard_prompt` says.
pub fn wizard_prompt(field: WizardField, profile: &str, desktop: &str) -> (p: WizardPrompt)
    ensures
        wizard_next_view(WizardNext::Ask(p)) == spec_wizard_prompt(field, profile@, desktop@),
{
    let (message, default) = match field {
        WizardField::Provider => ("Provider (mistral/groq/local)", some_str("mistral")),
        WizardField::Profile => (
            "Dictation style (Enter = segmented default; legacy: live_typing | smart_paste | batch_clip)",
            some_str("segmented"),
        ),
        WizardField::MistralApiKey => ("Mistral API key", None),
        WizardField::MistralModel => ("Mistral batch model", some_str("voxtral-mini-latest")),
        WizardField::MistralRealtimeModel => (
            "Mistral realtime model",
            some_str("voxtral-mini-transcribe-realtime-2602"),
        ),
        WizardField::GroqApiKey => ("Groq API key", None),
        WizardField::GroqModel => ("Groq model", some_str("whisper-large-v3-turbo")),
        WizardField::WhisperModel => ("Local Whisper model", some_str("ggml-base.en.bin")),
        WizardField::Language => ("Language (auto or ISO code)", some_str("auto")),
        WizardField::OutputMode => (
            "Shortcut output: type | clipboard | paste | stdout",
            some_str(default_output_for(profile)),
        ),
        WizardField::Desktop => ("Desktop (hyprland/niri/gnome/kde/sway/other)", some_str("hyprland")),
        WizardField::ShortcutKey => ("Shortcut key", some_str(default_shortcut_for(desktop))),
        WizardField::AudioFeedback => ("Audio feedback (true/false)", some_str("true")),
        WizardField::BeepVolume => ("Beep volume (0.0 to 1.0)", some_str("0.1")),
    };
    WizardPrompt { field, message: String::from_str(message), default }
}

/// The wizard before its first answer: it asks for the provider.
pub fn wizard_start() -> (r: (WizardState, WizardPrompt))
    ensures
        wizard_model(r.0) == (WizardModel {
            asking: WizardField::Provider,
            provider: Seq::<char>::empty(),
            profile: Seq::<char>::empty(),
            output_mode: Seq::<char>::empty(),
            desktop: Seq::<char>::empty(),
            shortcut: Seq::<char>::empty(),
        }),
        wizard_next_view(WizardNext::Ask(r.1)) == spec_wizard_prompt(
            WizardField::Provider,
            Seq::<char>::empty(),
            Seq::<char>::empty(),
        ),
{
    let state = WizardState {
        asking: WizardField::Provider,
        provider: String::new(),
        profile: String::new(),
        output_mode: String::new(),
        desktop: String::new(),
        shortcut: String::new(),
    };
    let p = wizard_prompt(WizardField::Provider, "", "");
    proof {
        reveal_strlit("");
    }
    (state, p)
}

/// The answer given on the command line for a field, if any; the wizard
/// asks only for the others.
pub fn wizard_given_answer(options: &WizardOptions, field: WizardField) -> (r: Option<String>)
    ensures
        opt_view(r) == opt_view(match field {
            WizardField::Provider => options.provider,
            WizardField::Profile => options.profile,
            WizardField::MistralApiKey => options.mistral_api_key,
            WizardField::MistralModel => options.mistral_model,
            WizardField::MistralRealtimeModel => options.mistral_realtime_model,
            WizardField::GroqApiKey => options.groq_api_key,
            WizardField::GroqModel => options.groq_model,
            WizardField::WhisperModel => options.whisper_model,
            WizardField::Language => options.language,
            WizardField::OutputMode => options.output_mode,
            WizardField::Desktop => options.desktop,
            WizardField::ShortcutKey => options.shortcut_key,
            WizardField::AudioFeedback => options.audio_feedback,
            WizardField::BeepVolume => options.beep_volume,
        }),
{
    let o = match field {
        WizardField::Provider => &options.provider,
        WizardField::Profile => &options.profile,
        WizardField::MistralApiKey => &options.mistral_api_key,
        WizardField::MistralModel => &options.mistral_model,
        WizardField::MistralRealtimeModel => &options.mistral_realtime_model,
        WizardField::GroqApiKey => &options.groq_api_key,
        WizardField::GroqModel => &options.groq_model,
        WizardField::WhisperModel => &options.whisper_model,
        WizardField::Language => &options.language,
        WizardField::OutputMode => &options.output_mode,
        WizardField::Desktop => &options.desktop,
        WizardField::ShortcutKey => &options.shortcut_key,
        WizardField::AudioFeedback => &options.audio_feedback,
        WizardField::BeepVolume => &options.beep_volume,
    };
    match o {
        Some(v) => Some(String::from_str(v.as_str())),
        None => None,
    }
}

fn copy_state(s: &WizardState, asking: WizardField) -> (r: WizardState)
    ensures
        wizard_model(r) == (WizardModel { asking, ..wizard_model(*s) }),
{
    WizardState {
        asking,
        provider: String::from_str(s.provider.as_str()),
        profile: String::from_str(s.profile.as_str()),
        output_mode: String::from_str(s.output_mode.as_str()),
        desktop: String::from_str(s.desktop.as_str()),
        shortcut: String::from_str(s.shortcut.as_str()),
    }
}

fn one_write(k: &str, v: &str) -> (r: Vec<(String, String)>)
    ensures
        pair_views(r@) == seq![(k@, v@)],
{
    let mut r: Vec<(String, String)> = Vec::new();
    push_pair(&mut r, k, v);
    proof {
        assert(pair_views(r@) =~= seq![(k@, v@)]);
    }
    r
}

fn ask_next(s: WizardState) -> (r: (WizardState, WizardNext))
    ensures
        wizard_model(r.0) == wizard_model(s),
        wizard_next_view(r.1) == ask(wizard_model(s), s.asking),
{
    let p = wizard_prompt(s.asking, s.profile.as_str(), s.desktop.as_str());
    (s, WizardNext::Ask(p))
}

/// Takes the answer to the pending question: gives the settings to write,
/// in order, the new state and what comes next; see `spec_wizard_step`.
pub fn wizard_step(state: &WizardState, options: &WizardOptions, answer: &str) -> (r: (
    WizardState,
    Vec<(String, String)>,
    WizardNext,
))
    ensures
        ({
            let (m, w, n) = spec_wizard_step(wizard_model(*state), *options, answer@);
            wizard_model(r.0) == m && pair_views(r.1@) == w && wizard_next_view(r.2) == n
        }),
{
    match state.asking {
        WizardField::Provider => {
            let p = string_of(&lower_vec(&chars_of(answer)));
            let mut s = copy_state(state, WizardField::Profile);
            s.provider = String::from_str(p.as_str());
            let w = one_write("provider", p.as_str());
            let (s, n) = ask_next(s);
            (s, w, n)
        },
        WizardField::Profile => {
            let p = wizard_profile_key(answer);
            let mut w = one_write("profile", p.as_str());
            push_pair(&mut w, "batch-mode", wizard_batch_mode(p.as_str()));
            push_pair(&mut w, "transcription-mode", "auto");
            proof {
                reveal_strlit("smart_paste");
                reveal_strlit("batch_clip");
            }
            match wizard_provider_error(state.provider.as_str()) {
                Some(m) => {
                    let mut s = copy_state(state, state.asking);
                    s.profile = p;
                    (s, w, WizardNext::Fail(m))
                },
                None => {
                    let prov = chars_of(state.provider.as_str());
                    let f = if eq_str(&prov, "mistral") {
                        WizardField::MistralApiKey
                    } else if eq_str(&prov, "groq") {
                        WizardField::GroqApiKey
                    } else {
                        WizardField::WhisperModel
                    };
                    let mut s = copy_state(state, f);
                    s.profile = p;
                    let (s, n) = ask_next(s);
                    (s, w, n)
                },
            }
        },
        WizardField::MistralApiKey | WizardField::GroqApiKey => {
            let (key, f) = if state.asking == WizardField::MistralApiKey {
                let f = if options.mistral_model.is_some() {
                    WizardField::MistralModel
                } else if options.mistral_realtime_model.is_some() {
                    WizardField::MistralRealtimeModel
                } else {
                    WizardField::Language
                };
                ("mistral-api-key", f)
            } else {
                ("groq-api-key", WizardField::GroqModel)
            };
            let mut w: Vec<(String, String)> = Vec::new();
            if answer.unicode_len() > 0 {
                w = one_write(key, answer);
            }
            proof {
                assert(pair_views(Seq::<(String, String)>::empty()) =~= Seq::<(Seq<char>, Seq<char>)>::empty());
            }
            let (s, n) = ask_next(copy_state(state, f));
            (s, w, n)
        },
        WizardField::AudioFeedback => {
            let w = one_write("audio-feedback", answer);
            if wizard_asks_beep_volume(answer, options.beep_volume.is_some()) {
                let (s, n) = ask_next(copy_state(state, WizardField::BeepVolume));
                (s, w, n)
            } else {
                (copy_state(state, state.asking), w, WizardNext::Done)
            }
        },
        WizardField::BeepVolume => {
            (copy_state(state, state.asking), one_write("beep-volume", answer), WizardNext::Done)
        },
        WizardField::OutputMode => {
            let mut s = copy_state(state, WizardField::Desktop);
            s.output_mode = String::from_str(answer);
            let (s, n) = ask_next(s);
            (s, one_write("shortcut-output", answer), n)
        },
        WizardField::Desktop => {
            let d = string_of(&lower_vec(&chars_of(answer)));
            let mut s = copy_state(state, WizardField::ShortcutKey);
            s.desktop = String::from_str(d.as_str());
            let w = one_write("shortcut-desktop", d.as_str());
            let (s, n) = ask_next(s);
            (s, w, n)
        },
        WizardField::ShortcutKey => {
            let mut s = copy_state(state, WizardField::AudioFeedback);
            s.shortcut = String::from_str(answer);
            let (s, n) = ask_next(s);
            (s, one_write("shortcut-key", answer), n)
        },
        _ => {
            let (key, f) = match state.asking {
                WizardField::MistralModel => (
                    "mistral-model",
                    if options.mistral_realtime_model.is_some() {
                        WizardField::MistralRealtimeModel
                    } else {
                        WizardField::Language
                    },
                ),
                WizardField::MistralRealtimeModel => ("mistral-realtime-model", WizardField::Language),
                WizardField::GroqModel => ("groq-model", WizardField::Language),
                WizardField::WhisperModel => ("whisper-model", WizardField::Language),
                _ => ("language", WizardField::OutputMode),
            };
            let (s, n) = ask_next(copy_state(state, f));
            (s, one_write(key, answer), n)
        },
    }
}

} // verus!
