//! The `dictate doctor` report and the warm-daemon status, as lines of text.
//! What can only be learned from the machine (files, services, tools, the
//! validation of the beep volume) is looked up by the caller and handed in.
use crate::config::{has_key, opt_view, spec_resolve_polish_backend, has_trimmed_key, Config, PolishBackend};
use crate::config_cli::{LIVE_SERVICE, SMART_SERVICE};
use crate::profile::{spec_is_dictation, DictateProfile};
use crate::text::{chars_of, contains, decimal, decimal_vec, eq_str, join, join_vec, lower, lower_vec, string_of, trim, trimmed, views, wv};
use crate::text_processing::{dictionary_views, preferred_vocabulary, spec_preferred_vocabulary};
use vstd::prelude::*;

verus! {

fn push_line(v: &mut Vec<String>, s: String)
    ensures
        views(final(v)@) == views(old(v)@).push(s@),
{
    let ghost before = v@;
    v.push(s);
    proof {
        assert(views(v@) =~= views(before).push(s@));
    }
}

fn push_str(v: &mut Vec<String>, s: &str)
    ensures
        views(final(v)@) == views(old(v)@).push(s@),
{
    push_line(v, String::from_str(s));
}

fn cat(parts: &[&str]) -> (r: String)
    ensures
        r@ == cat_spec(parts@),
{
    let mut r = String::new();
    let mut i: usize = 0;
    while i < parts.len()
        invariant
            0 <= i <= parts@.len(),
            r@ == cat_spec(parts@.take(i as int)),
        decreases parts@.len() - i,
    {
        proof {
            assert(parts@.take(i + 1).drop_last() =~= parts@.take(i as int));
        }
        r.append(parts[i]);
        i = i + 1;
    }
    proof {
        assert(parts@.take(parts@.len() as int) =~= parts@);
    }
    r
}

/// The parts joined end to end.
pub open spec fn cat_spec(parts: Seq<&str>) -> Seq<char>
    decreases parts.len(),
{
    if parts.len() == 0 {
        Seq::<char>::empty()
    } else {
        cat_spec(parts.drop_last()) + parts.last()@
    }
}

// ───────────────────────── warm daemons ─────────────────────────

pub open spec fn service_line(label: Seq<char>, name: Seq<char>, installed: bool, active: bool) -> Seq<char> {
    (if active {
        "✓"@
    } else if installed {
        "!"@
    } else {
        "✗"@
    }) + " "@ + label + ": "@ + (if active {
        "active"@
    } else if installed {
        "installed but not active"@
    } else {
        "not installed"@
    }) + " ("@ + name + ")"@
}

pub open spec fn spec_autostart_lines(
    live_installed: bool,
    live_active: bool,
    smart_installed: bool,
    smart_active: bool,
) -> Seq<Seq<char>> {
    seq![
        "Warm Dictate daemons:"@,
        service_line("Live"@, LIVE_SERVICE@, live_installed, live_active),
        service_line("Smart"@, SMART_SERVICE@, smart_installed, smart_active),
    ] + if !live_active || !smart_active {
        seq!["  Run: dictate autostart install"@]
    } else {
        Seq::<Seq<char>>::empty()
    }
}

fn service_status(label: &str, name: &str, installed: bool, active: bool) -> (r: String)
    ensures
        r@ == service_line(label@, name@, installed, active),
{
    let marker = if active {
        "✓"
    } else if installed {
        "!"
    } else {
        "✗"
    };
    let state = if active {
        "active"
    } else if installed {
        "installed but not active"
    } else {
        "not installed"
    };
    let r = cat(&[marker, " ", label, ": ", state, " (", name, ")"]);
    proof {
        reveal_with_fuel(cat_spec, 9);
        assert(cat_spec(seq![marker, " ", label, ": ", state, " (", name, ")"]) =~= service_line(
            label@,
            name@,
            installed,
            active,
        ));
    }
    r
}

/// The status of the warm live and smart daemons, from whether each
/// service file is installed and each service is active.
pub fn autostart_status_lines(
    live_installed: bool,
    live_active: bool,
    smart_installed: bool,
    smart_active: bool,
) -> (r: Vec<String>)
    ensures
        views(r@) == spec_autostart_lines(live_installed, live_active, smart_installed, smart_active),
{
    let mut r: Vec<String> = Vec::new();
    push_str(&mut r, "Warm Dictate daemons:");
    push_line(&mut r, service_status("Live", LIVE_SERVICE, live_installed, live_active));
    push_line(&mut r, service_status("Smart", SMART_SERVICE, smart_installed, smart_active));
    if !live_active || !smart_active {
        push_str(&mut r, "  Run: dictate autostart install");
    }
    proof {
        assert(views(r@) =~= spec_autostart_lines(
            live_installed,
            live_active,
            smart_installed,
            smart_active,
        ));
    }
    r
}

// ───────────────────────── the report ─────────────────────────

/// What the caller found on the machine.
pub struct DoctorFacts {
    pub env_path: String,
    pub env_exists: bool,
    /// Retired keys were removed from the environment file just now.
    pub env_pruned: bool,
    pub text_config_path: String,
    /// `OLLAMA_POLISH_MODEL`, when set.
    pub ollama_model_env: Option<String>,
    pub local_model_path: String,
    pub local_model_exists: bool,
    /// The warm-daemon status lines.
    pub autostart: Vec<String>,
    /// Optional tools: name, the shell check run, whether it passed.
    pub tools: Vec<(String, String, bool)>,
    /// The outcome of validating the configuration.
    pub validation: Result<(), String>,
}

pub open spec fn opt_lines(b: bool, l: Seq<char>) -> Seq<Seq<char>> {
    if b {
        seq![l]
    } else {
        Seq::<Seq<char>>::empty()
    }
}

pub open spec fn env_lines(path: Seq<char>, exists: bool, pruned: bool) -> Seq<Seq<char>> {
    if exists {
        if pruned {
            seq!["✓ Config file: "@ + path + " (removed obsolete keys)"@]
        } else {
            seq!["✓ Config file: "@ + path]
        }
    } else {
        seq!["✗ Config file missing: "@ + path, "  Run: dictate config wizard"@]
    }
}

pub open spec fn profile_line(p: DictateProfile) -> Seq<char> {
    let (label, name, description) = match p {
        DictateProfile::BatchClip => (
            "Batch clip"@,
            "batch_clip"@,
            "Record, stop, transcribe once with local cleanup only."@,
        ),
        DictateProfile::Command => (
            "Command"@,
            "command"@,
            "Speak an instruction; applies to clipboard text (e.g. fix grammar)."@,
        ),
        _ => (
            "Dictation"@,
            "segmented"@,
            "Words appear as you speak; pauses polish the last phrase; say scratch that to edit."@,
        ),
    };
    "  Profile: "@ + label + " ("@ + name + ") — "@ + description
}

/// The Ollama model the report names.
pub open spec fn doctor_ollama_model(configured: Seq<char>, env: Option<Seq<char>>) -> Seq<char> {
    if trim(configured).len() == 0 || contains(configured, "mistral"@) {
        match env {
            Some(m) => m,
            None => "gemma-4"@,
        }
    } else {
        configured
    }
}

pub open spec fn polish_lines(c: Config, env: Option<Seq<char>>) -> Seq<Seq<char>> {
    if spec_is_dictation(c.profile) {
        match spec_resolve_polish_backend(
            c.polish_provider@,
            has_trimmed_key(c.opencode_api_key),
            has_key(c.mistral_api_key),
        ) {
            Some(PolishBackend::Mistral) => seq!["✓ LLM polish: Mistral chat ([polish] in text.toml)"@],
            Some(PolishBackend::OpenCode) => seq!["✓ LLM polish: OpenCode Zen chat ([polish] in text.toml)"@],
            Some(PolishBackend::Ollama) => seq![
                "✓ LLM polish: Ollama at "@ + c.ollama_base_url@ + " (model: "@ + doctor_ollama_model(
                    c.text_processing.polish.model@,
                    env,
                ) + ")"@,
            ],
            None => seq![
                "  LLM polish off — set MISTRAL_API_KEY or run Ollama (POLISH_PROVIDER=auto|ollama)"@,
            ],
        }
    } else {
        Seq::<Seq<char>>::empty()
    }
}

pub open spec fn or_str(o: Option<String>, default: Seq<char>) -> Seq<char> {
    match o {
        Some(s) => s@,
        None => default,
    }
}

pub open spec fn saved_lines(c: Config, text_config_path: Seq<char>) -> Seq<Seq<char>> {
    let n = spec_preferred_vocabulary(
        views(c.text_processing.preferred_words@),
        dictionary_views(c.text_processing.dictionary@),
    ).len();
    seq![
        "✓ Clipboard commands: auto when you copied text (≥12 chars) and speak an instruction (same shortcut)"@,
        "✓ Live shortcut: "@ + or_str(c.shortcut_key_live, "SUPER,R"@)
            + " → realtime typing (minimal local cleanup)"@,
        "✓ Smart shortcut: "@ + or_str(c.shortcut_key_smart, "SUPER,SHIFT,R"@)
            + " → record, polish, paste once"@,
        "✓ Words UI: run `dictate words` to edit "@ + text_config_path,
    ] + opt_lines(n > 0, "  Preferred vocabulary: "@ + decimal(n) + " terms configured"@) + match c.shortcut_key {
        Some(k) => seq!["  Legacy shortcut key (saved): "@ + k@],
        None => Seq::<Seq<char>>::empty(),
    } + match c.shortcut_desktop {
        Some(d) => seq!["  Shortcut desktop (saved): "@ + d@],
        None => Seq::<Seq<char>>::empty(),
    } + opt_lines(
        c.batch_mode || c.profile == DictateProfile::BatchClip || c.profile == DictateProfile::Command,
        "  Batch STT path (profile or legacy BATCH_MODE)"@,
    )
}

pub open spec fn provider_line(c: Config, model_path: Seq<char>, model_exists: bool) -> Seq<char> {
    let p = lower(c.transcription_provider@);
    if p == "mistral"@ {
        if has_key(c.mistral_api_key) {
            "✓ MISTRAL_API_KEY is set"@
        } else {
            "✗ MISTRAL_API_KEY missing (required for Mistral)"@
        }
    } else if p == "groq"@ {
        if has_key(c.groq_api_key) {
            "✓ GROQ_API_KEY is set"@
        } else {
            "✗ GROQ_API_KEY missing"@
        }
    } else if p == "local"@ {
        if model_exists {
            "✓ Local model: "@ + model_path
        } else {
            "✗ Local model missing — run: dictate --download-model"@
        }
    } else {
        "✗ Unknown provider: "@ + p
    }
}

pub open spec fn pipe_line(c: Config) -> Seq<char> {
    match c.default_pipe_to {
        Some(pipe) => "✓ Default output pipe: "@ + join(views(pipe@), " "@),
        None => "  Default output: stdout (set SHORTCUT_OUTPUT in .env or use --pipe-to)"@,
    }
}

pub open spec fn tool_line(t: (String, String, bool)) -> Seq<char> {
    if t.2 {
        "✓ "@ + t.0@ + " available"@
    } else {
        "  Optional: "@ + t.0@ + " not detected ("@ + t.1@ + ")"@
    }
}

pub open spec fn validation_line(v: Result<(), String>) -> Seq<char> {
    match v {
        Ok(_) => "\n✓ Configuration validates"@,
        Err(e) => "\n⚠ Validation: "@ + e@,
    }
}

pub open spec fn spec_doctor_report(c: Config, f: DoctorFacts) -> Seq<Seq<char>> {
    seq!["dictate doctor\n"@] + env_lines(f.env_path@, f.env_exists, f.env_pruned) + seq![
        profile_line(c.profile),
    ] + opt_lines(
        c.profile != DictateProfile::BatchClip,
        "  Run: dictate --daemon (shortcut toggles recording via SIGUSR1)"@,
    ) + polish_lines(c, opt_view(f.ollama_model_env)) + saved_lines(c, f.text_config_path@) + seq![
        provider_line(c, f.local_model_path@, f.local_model_exists),
        pipe_line(c),
    ] + views(f.autostart@) + seq![
        "  Stuck modifiers after paste? Run: ydotool key 29:0 42:0 56:0 125:0 (release Ctrl/Shift/Alt/Super)"@,
    ] + f.tools@.map_values(|t: (String, String, bool)| tool_line(t)) + seq![
        validation_line(f.validation),
    ]
}

fn append_lines(v: &mut Vec<String>, w: Vec<String>)
    ensures
        views(final(v)@) == views(old(v)@) + views(w@),
{
    let ghost before = views(v@);
    let mut i: usize = 0;
    while i < w.len()
        invariant
            0 <= i <= w@.len(),
            views(v@) == before + views(w@).take(i as int),
        decreases w@.len() - i,
    {
        push_str(v, w[i].as_str());
        proof {
            assert(views(w@).take(i + 1) =~= views(w@).take(i as int).push(w@[i as int]@));
        }
        i = i + 1;
    }
    proof {
        assert(views(w@).take(w@.len() as int) =~= views(w@));
    }
}

fn polish_report(config: &Config, ollama_env: &Option<String>) -> (r: Vec<String>)
    ensures
        views(r@) == polish_lines(*config, opt_view(*ollama_env)),
{
    let mut r: Vec<String> = Vec::new();
    if !config.profile.uses_segment_polish() {
        proof {
            assert(views(r@) =~= Seq::<Seq<char>>::empty());
        }
        return r;
    }
    match config.resolve_polish_backend() {
        Some(PolishBackend::Mistral) => push_str(&mut r, "✓ LLM polish: Mistral chat ([polish] in text.toml)"),
        Some(PolishBackend::OpenCode) => push_str(&mut r, "✓ LLM polish: OpenCode Zen chat ([polish] in text.toml)"),
        Some(PolishBackend::Ollama) => {
            let configured = config.text_processing.polish.model.as_str();
            let c = chars_of(configured);
            let model = if trimmed(configured).len() == 0 || crate::text::contains_str(&c, "mistral") {
                match ollama_env {
                    Some(m) => String::from_str(m.as_str()),
                    None => String::from_str("gemma-4"),
                }
            } else {
                String::from_str(configured)
            };
            let line = cat(&["✓ LLM polish: Ollama at ", config.ollama_base_url.as_str(), " (model: ", model.as_str(), ")"]);
            proof {
                reveal_with_fuel(cat_spec, 6);
            }
            push_line(&mut r, line);
        },
        None => push_str(
            &mut r,
            "  LLM polish off — set MISTRAL_API_KEY or run Ollama (POLISH_PROVIDER=auto|ollama)",
        ),
    }
    proof {
        assert(views(r@) =~= polish_lines(*config, opt_view(*ollama_env)));
    }
    r
}

fn saved_report(config: &Config, text_config_path: &str) -> (r: Vec<String>)
    ensures
        views(r@) == saved_lines(*config, text_config_path@),
{
    let mut r: Vec<String> = Vec::new();
    push_str(
        &mut r,
        "✓ Clipboard commands: auto when you copied text (≥12 chars) and speak an instruction (same shortcut)",
    );
    let live = match &config.shortcut_key_live {
        Some(k) => k.as_str(),
        None => "SUPER,R",
    };
    let smart = match &config.shortcut_key_smart {
        Some(k) => k.as_str(),
        None => "SUPER,SHIFT,R",
    };
    proof {
        reveal_with_fuel(cat_spec, 4);
    }
    push_line(&mut r, cat(&["✓ Live shortcut: ", live, " → realtime typing (minimal local cleanup)"]));
    push_line(&mut r, cat(&["✓ Smart shortcut: ", smart, " → record, polish, paste once"]));
    push_line(&mut r, cat(&["✓ Words UI: run `dictate words` to edit ", text_config_path]));
    let ghost head = views(r@);
    let n = preferred_vocabulary(&config.text_processing).len();
    if n > 0 {
        let digits = string_of(&decimal_vec(n as u64));
        push_line(&mut r, cat(&["  Preferred vocabulary: ", digits.as_str(), " terms configured"]));
    }
    let ghost with_vocab = views(r@);
    match &config.shortcut_key {
        Some(k) => push_line(&mut r, cat(&["  Legacy shortcut key (saved): ", k.as_str()])),
        None => {},
    }
    let ghost with_key = views(r@);
    match &config.shortcut_desktop {
        Some(d) => push_line(&mut r, cat(&["  Shortcut desktop (saved): ", d.as_str()])),
        None => {},
    }
    let ghost with_desktop = views(r@);
    if config.batch_mode || config.profile.implies_batch_stt() {
        push_str(&mut r, "  Batch STT path (profile or legacy BATCH_MODE)");
    }
    proof {
        let nv = spec_preferred_vocabulary(
            views(config.text_processing.preferred_words@),
            dictionary_views(config.text_processing.dictionary@),
        ).len();
        assert(with_vocab =~= head + opt_lines(nv > 0, "  Preferred vocabulary: "@ + decimal(nv) + " terms configured"@));
        assert(views(r@) =~= saved_lines(*config, text_config_path@));
    }
    r
}

fn provider_report(config: &Config, model_path: &str, model_exists: bool) -> (r: String)
    ensures
        r@ == provider_line(*config, model_path@, model_exists),
{
    let p = lower_vec(&chars_of(config.transcription_provider.as_str()));
    if eq_str(&p, "mistral") {
        if crate::config::key_set(&config.mistral_api_key) {
            String::from_str("✓ MISTRAL_API_KEY is set")
        } else {
            String::from_str("✗ MISTRAL_API_KEY missing (required for Mistral)")
        }
    } else if eq_str(&p, "groq") {
        if crate::config::key_set(&config.groq_api_key) {
            String::from_str("✓ GROQ_API_KEY is set")
        } else {
            String::from_str("✗ GROQ_API_KEY missing")
        }
    } else if eq_str(&p, "local") {
        if model_exists {
            let mut s = String::from_str("✓ Local model: ");
            s.append(model_path);
            s
        } else {
            String::from_str("✗ Local model missing — run: dictate --download-model")
        }
    } else {
        let mut s = String::from_str("✗ Unknown provider: ");
        s.append(string_of(&p).as_str());
        s
    }
}

fn pipe_report(config: &Config) -> (r: String)
    ensures
        r@ == pipe_line(*config),
{
    match &config.default_pipe_to {
        Some(pipe) => {
            let mut words: Vec<Vec<char>> = Vec::new();
            let mut i: usize = 0;
            while i < pipe.len()
                invariant
                    0 <= i <= pipe@.len(),
                    wv(words@) == views(pipe@).take(i as int),
                decreases pipe@.len() - i,
            {
                let ghost before = wv(words@);
                words.push(chars_of(pipe[i].as_str()));
                proof {
                    assert(wv(words@) =~= before.push(pipe@[i as int]@));
                    assert(views(pipe@).take(i + 1) =~= views(pipe@).take(i as int).push(pipe@[i as int]@));
                }
                i = i + 1;
            }
            proof {
                assert(views(pipe@).take(pipe@.len() as int) =~= views(pipe@));
                assert(words@.map_values(|w: Vec<char>| w@) =~= wv(words@));
            }
            let joined = join_vec(&words, &chars_of(" "));
            let mut s = String::from_str("✓ Default output pipe: ");
            s.append(string_of(&joined).as_str());
            s
        },
        None => String::from_str("  Default output: stdout (set SHORTCUT_OUTPUT in .env or use --pipe-to)"),
    }
}

fn tool_report(tools: &Vec<(String, String, bool)>) -> (r: Vec<String>)
    ensures
        views(r@) == tools@.map_values(|t: (String, String, bool)| tool_line(t)),
{
    let mut r: Vec<String> = Vec::new();
    let mut i: usize = 0;
    while i < tools.len()
        invariant
            0 <= i <= tools@.len(),
            views(r@) == tools@.take(i as int).map_values(|t: (String, String, bool)| tool_line(t)),
        decreases tools@.len() - i,
    {
        let (name, check, ok) = &tools[i];
        proof {
            reveal_with_fuel(cat_spec, 6);
        }
        let line = if *ok {
            cat(&["✓ ", name.as_str(), " available"])
        } else {
            cat(&["  Optional: ", name.as_str(), " not detected (", check.as_str(), ")"])
        };
        let ghost before = views(r@);
        push_line(&mut r, line);
        proof {
            assert(tools@.take(i + 1) =~= tools@.take(i as int).push(tools@[i as int]));
            assert(views(r@) =~= tools@.take(i + 1).map_values(|t: (String, String, bool)| tool_line(t)));
        }
        i = i + 1;
    }
    proof {
        assert(tools@.take(tools@.len() as int) =~= tools@);
    }
    r
}

/// The lines `dictate doctor` prints, in order.
#[verifier::rlimit(40)]
pub fn doctor_report(config: &Config, facts: &DoctorFacts) -> (r: Vec<String>)
    ensures
        views(r@) == spec_doctor_report(*config, *facts),
{
    let mut r: Vec<String> = Vec::new();
    push_str(&mut r, "dictate doctor\n");
    if facts.env_exists {
        if facts.env_pruned {
            let mut s = String::from_str("✓ Config file: ");
            s.append(facts.env_path.as_str());
            s.append(" (removed obsolete keys)");
            push_line(&mut r, s);
        } else {
            let mut s = String::from_str("✓ Config file: ");
            s.append(facts.env_path.as_str());
            push_line(&mut r, s);
        }
    } else {
        let mut s = String::from_str("✗ Config file missing: ");
        s.append(facts.env_path.as_str());
        push_line(&mut r, s);
        push_str(&mut r, "  Run: dictate config wizard");
    }
    let ghost a = views(r@);
    proof {
        reveal_with_fuel(cat_spec, 7);
    }
    let profile_text = cat(&[
        "  Profile: ",
        config.profile.label(),
        " (",
        config.profile.as_str(),
        ") — ",
        config.profile.description(),
    ]);
    push_line(&mut r, profile_text);
    if config.profile.wants_daemon() {
        push_str(&mut r, "  Run: dictate --daemon (shortcut toggles recording via SIGUSR1)");
    }
    let ghost b = views(r@);
    append_lines(&mut r, polish_report(config, &facts.ollama_model_env));
    append_lines(&mut r, saved_report(config, facts.text_config_path.as_str()));
    push_line(&mut r, provider_report(config, facts.local_model_path.as_str(), facts.local_model_exists));
    push_line(&mut r, pipe_report(config));
    let ghost c = views(r@);
    append_lines(&mut r, crate::text::copy_strings(&facts.autostart));
    push_str(
        &mut r,
        "  Stuck modifiers after paste? Run: ydotool key 29:0 42:0 56:0 125:0 (release Ctrl/Shift/Alt/Super)",
    );
    append_lines(&mut r, tool_report(&facts.tools));
    match &facts.validation {
        Ok(_) => push_str(&mut r, "\n✓ Configuration validates"),
        Err(e) => {
            let mut s = String::from_str("\n⚠ Validation: ");
            s.append(e.as_str());
            push_line(&mut r, s);
        },
    }
    proof {
        assert(a =~= seq!["dictate doctor\n"@] + env_lines(
            facts.env_path@,
            facts.env_exists,
            facts.env_pruned,
        ));
        assert(b =~= a + seq![profile_line(config.profile)] + opt_lines(
            config.profile != DictateProfile::BatchClip,
            "  Run: dictate --daemon (shortcut toggles recording via SIGUSR1)"@,
        ));
        assert(views(r@) =~= spec_doctor_report(*config, *facts));
    }
    r
}

} // verus!
