//! Realtime speech-to-text over a WebSocket: the endpoints, what each
//! server message means, and the decisions of a dictation session. The
//! program around the library owns the socket, the microphone and the
//! clock; it hands each event to a session and carries out the actions
//! it gets back.
use crate::config::Config;
use crate::config_cli::{replace_first, replace_first_vec};
use crate::json::{json_at, json_query, json_str};
use crate::text::{
    chars_of, decimal, decimal_vec, eq_ignore_ascii_case, eq_str, replace, replace_str,
    string_of, trim, trimmed, vec_eq_ignore_ascii_case, views,
};
use crate::text_processing::{
    dictionary_views, process_text, snippet_views, spec_process_text, TextProcessingConfig,
};
use crate::transcription::online::{trim_end_slashes, trim_end_slashes_vec};
use vstd::prelude::*;

verus! {

// ───────────────────────── endpoints ─────────────────────────

/// `trim_end_matches("/v1")`: every trailing `/v1` removed.
pub open spec fn trim_end_v1(s: Seq<char>) -> Seq<char>
    decreases s.len(),
{
    if s.len() >= 3 && s.subrange(s.len() - 3, s.len() as int) == "/v1"@ {
        trim_end_v1(s.subrange(0, s.len() - 3))
    } else {
        s
    }
}

fn trim_end_v1_vec(v: &[char]) -> (r: Vec<char>)
    ensures
        r@ == trim_end_v1(v@),
{
    proof {
        reveal_strlit("/v1");
    }
    let mut n = v.len();
    proof {
        assert(v@.take(n as int) =~= v@);
    }
    while n >= 3 && v[n - 3] == '/' && v[n - 2] == 'v' && v[n - 1] == '1'
        invariant
            0 <= n <= v@.len(),
            trim_end_v1(v@.take(n as int)) == trim_end_v1(v@),
        decreases n,
    {
        proof {
            reveal_strlit("/v1");
            let t = v@.take(n as int);
            assert(t.subrange(t.len() - 3, t.len() as int) =~= "/v1"@);
            assert(t.subrange(0, t.len() - 3) =~= v@.take(n - 3));
        }
        n = n - 3;
    }
    proof {
        reveal_strlit("/v1");
        let t = v@.take(n as int);
        if t.len() >= 3 && t.subrange(t.len() - 3, t.len() as int) == "/v1"@ {
            assert(t.subrange(t.len() - 3, t.len() as int)[0] == t[n - 3]);
            assert(t.subrange(t.len() - 3, t.len() as int)[1] == t[n - 2]);
            assert(t.subrange(t.len() - 3, t.len() as int)[2] == t[n - 1]);
        }
    }
    crate::text::slice_vec(v, 0, n)
}

/// The Mistral base: the realtime base URL, else the API base URL, else
/// `wss://api.mistral.ai`; `http(s)` turned into `ws(s)`; `/v1` and `/` cut
/// off the end.
pub open spec fn spec_mistral_base(realtime_base: Option<Seq<char>>, base: Option<Seq<char>>) -> Seq<char> {
    let b = match realtime_base {
        Some(u) => u,
        None => match base {
            Some(u) => u,
            None => "wss://api.mistral.ai"@,
        },
    };
    trim_end_slashes(trim_end_v1(replace(replace(b, "https://"@, "wss://"@), "http://"@, "ws://"@)))
}

pub open spec fn spec_mistral_realtime_url(c: Config) -> Seq<char> {
    spec_mistral_base(
        crate::config::opt_view(c.mistral_realtime_base_url),
        crate::config::opt_view(c.mistral_base_url),
    ) + "/v1/audio/transcriptions/realtime?model="@ + c.mistral_realtime_model@
        + "&target_streaming_delay_ms="@ + decimal(c.mistral_realtime_delay_ms as nat)
}

/// The Mistral realtime transcription endpoint.
pub fn mistral_realtime_url(config: &Config) -> (r: String)
    ensures
        r@ == spec_mistral_realtime_url(*config),
{
    let chosen = match &config.mistral_realtime_base_url {
        Some(u) => chars_of(u.as_str()),
        None => match &config.mistral_base_url {
            Some(u) => chars_of(u.as_str()),
            None => chars_of("wss://api.mistral.ai"),
        },
    };
    proof {
        reveal_strlit("https://");
        reveal_strlit("http://");
    }
    let b = replace_str(&chosen, "https://", "wss://");
    let b = replace_str(&b, "http://", "ws://");
    let b = trim_end_v1_vec(&b);
    let b = trim_end_slashes_vec(&b);
    let mut url = string_of(&b);
    url.append("/v1/audio/transcriptions/realtime?model=");
    url.append(config.mistral_realtime_model.as_str());
    url.append("&target_streaming_delay_ms=");
    url.append(string_of(&decimal_vec(config.mistral_realtime_delay_ms as u64)).as_str());
    url
}

pub open spec fn spec_deepgram_realtime_url(c: Config) -> Seq<char> {
    let b = match c.deepgram_base_url {
        Some(u) => u@,
        None => "https://api.deepgram.com"@,
    };
    let b = replace_first(replace_first(trim_end_slashes(b), "https://"@, "wss://"@), "http://"@, "ws://"@);
    let lang = trim(c.transcription_language@);
    b + "/v1/listen?model="@ + c.deepgram_model@
        + "&encoding=linear16&sample_rate=16000&channels=1&smart_format=true&interim_results=false&endpointing=300"@
        + if lang.len() > 0 && !eq_ignore_ascii_case(lang, "auto"@) {
        "&language="@ + lang
    } else {
        Seq::<char>::empty()
    }
}

/// The Deepgram streaming endpoint. Every option is a query parameter;
/// `auto` is left out so the model's default language applies.
pub fn deepgram_realtime_url(config: &Config) -> (r: String)
    ensures
        r@ == spec_deepgram_realtime_url(*config),
{
    let base = match &config.deepgram_base_url {
        Some(u) => chars_of(u.as_str()),
        None => chars_of("https://api.deepgram.com"),
    };
    let b = trim_end_slashes_vec(&base);
    let b = replace_first_vec(&b, &chars_of("https://"), &chars_of("wss://"));
    let b = replace_first_vec(&b, &chars_of("http://"), &chars_of("ws://"));
    let mut url = string_of(&b);
    url.append("/v1/listen?model=");
    url.append(config.deepgram_model.as_str());
    url.append(
        "&encoding=linear16&sample_rate=16000&channels=1&smart_format=true&interim_results=false&endpointing=300",
    );
    let lang = trimmed(config.transcription_language.as_str());
    if lang.len() > 0 && !vec_eq_ignore_ascii_case(&lang, &chars_of("auto")) {
        url.append("&language=");
        url.append(string_of(&lang).as_str());
    }
    url
}

// ───────────────────────── output of a finished segment ─────────────────────────

/// Text through the local processing pipeline.
pub open spec fn processed(config: TextProcessingConfig, s: Seq<char>) -> Seq<char> {
    spec_process_text(
        s,
        dictionary_views(config.dictionary@),
        views(config.preferred_words@),
        snippet_views(config.snippets@),
        config.cleanup,
    )
}

/// How the session was started.
#[derive(Debug, Clone, Copy)]
pub struct RealtimeSettings {
    /// Listening from the start (else a warm daemon waits for a toggle).
    pub active_on_start: bool,
    /// A toggle ends the session (else it pauses and resumes dictation).
    pub exit_on_signal: bool,
    /// Deltas are typed as they arrive.
    pub type_deltas: bool,
    /// Finished segments are polished and edited into the session.
    pub segment_polish: bool,
    /// Every server event is logged.
    pub debug: bool,
}

/// What is done with a piece of finished text.
#[derive(Debug)]
pub enum Output {
    /// Polished and applied to the session as a finished segment.
    Finalize(String),
    /// Typed as it is.
    Type(String),
    /// Only shown on the terminal.
    Show(String),
}

pub enum OutputModel {
    Finalize(Seq<char>),
    Type(Seq<char>),
    Show(Seq<char>),
}

pub open spec fn output_model(o: Output) -> OutputModel {
    match o {
        Output::Finalize(s) => OutputModel::Finalize(s@),
        Output::Type(s) => OutputModel::Type(s@),
        Output::Show(s) => OutputModel::Show(s@),
    }
}

/// Text of the preview tail when it is flushed: nothing when blank.
pub open spec fn spec_flush_output(
    text: Seq<char>,
    s: RealtimeSettings,
    config: TextProcessingConfig,
) -> Option<OutputModel> {
    if trim(text).len() == 0 {
        None
    } else if s.segment_polish {
        Some(OutputModel::Finalize(text))
    } else if s.type_deltas {
        Some(OutputModel::Type(processed(config, text)))
    } else {
        Some(OutputModel::Show(trim(text)))
    }
}

pub open spec fn opt_output_model(o: Option<Output>) -> Option<OutputModel> {
    match o {
        Some(x) => Some(output_model(x)),
        None => None,
    }
}

/// The output of pending preview text.
pub fn flush_output(text: &str, settings: RealtimeSettings, config: &TextProcessingConfig) -> (r: Option<Output>)
    ensures
        opt_output_model(r) == spec_flush_output(text@, settings, *config),
{
    let t = trimmed(text);
    if t.len() == 0 {
        None
    } else if settings.segment_polish {
        Some(Output::Finalize(String::from_str(text)))
    } else if settings.type_deltas {
        Some(Output::Type(process_text(text, config)))
    } else {
        Some(Output::Show(string_of(&t)))
    }
}

/// A finished segment from the server: trimmed, then handled as a flush.
pub open spec fn spec_segment_output(
    segment: Seq<char>,
    s: RealtimeSettings,
    config: TextProcessingConfig,
) -> Option<OutputModel> {
    spec_flush_output(trim(segment), s, config)
}

pub fn segment_output(segment: &str, settings: RealtimeSettings, config: &TextProcessingConfig) -> (r: Option<Output>)
    ensures
        opt_output_model(r) == spec_segment_output(segment@, settings, *config),
{
    let t = string_of(&trimmed(segment));
    proof {
        crate::text::lemma_trim_idempotent(segment@);
    }
    flush_output(t.as_str(), settings, config)
}

// ───────────────────────── actions ─────────────────────────

/// One step for the program to carry out, in order.
#[derive(Debug)]
pub enum SessionAction {
    /// Handle finished text.
    Emit(Output),
    /// Forget the typed text of the previous dictation.
    ClearSessionBuffer,
    StartRecording,
    StopRecording,
    BeepStart,
    BeepStop,
    BeepError,
    /// Ask the server to transcribe what it holds (`input_audio.flush`,
    /// Deepgram `Finalize`).
    SendFlush,
    /// Tell the server no more audio comes (`input_audio.end`, Deepgram
    /// `CloseStream`).
    SendEnd,
    /// Deepgram `KeepAlive`.
    SendKeepAlive,
    /// Send the captured audio chunk.
    SendAudio,
    /// Flush the preview when the drain deadline (3.5 s from now) passes.
    StartDrain,
    /// Report the server's error event.
    ReportServerError,
    /// Log the event for diagnosis.
    LogEvent,
    /// Leave the session.
    Exit,
}

pub enum ActionModel {
    Emit(OutputModel),
    ClearSessionBuffer,
    StartRecording,
    StopRecording,
    BeepStart,
    BeepStop,
    BeepError,
    SendFlush,
    SendEnd,
    SendKeepAlive,
    SendAudio,
    StartDrain,
    ReportServerError,
    LogEvent,
    Exit,
}

pub open spec fn action_model(a: SessionAction) -> ActionModel {
    match a {
        SessionAction::Emit(o) => ActionModel::Emit(output_model(o)),
        SessionAction::ClearSessionBuffer => ActionModel::ClearSessionBuffer,
        SessionAction::StartRecording => ActionModel::StartRecording,
        SessionAction::StopRecording => ActionModel::StopRecording,
        SessionAction::BeepStart => ActionModel::BeepStart,
        SessionAction::BeepStop => ActionModel::BeepStop,
        SessionAction::BeepError => ActionModel::BeepError,
        SessionAction::SendFlush => ActionModel::SendFlush,
        SessionAction::SendEnd => ActionModel::SendEnd,
        SessionAction::SendKeepAlive => ActionModel::SendKeepAlive,
        SessionAction::SendAudio => ActionModel::SendAudio,
        SessionAction::StartDrain => ActionModel::StartDrain,
        SessionAction::ReportServerError => ActionModel::ReportServerError,
        SessionAction::LogEvent => ActionModel::LogEvent,
        SessionAction::Exit => ActionModel::Exit,
    }
}

pub open spec fn action_models(v: Seq<SessionAction>) -> Seq<ActionModel> {
    v.map_values(|a: SessionAction| action_model(a))
}

pub open spec fn emit_models(o: Option<OutputModel>) -> Seq<ActionModel> {
    match o {
        Some(x) => seq![ActionModel::Emit(x)],
        None => Seq::<ActionModel>::empty(),
    }
}

fn push_action(v: &mut Vec<SessionAction>, a: SessionAction)
    ensures
        action_models(final(v)@) == action_models(old(v)@).push(action_model(a)),
{
    let ghost before = v@;
    v.push(a);
    proof {
        assert(v@ == before.push(a));
        assert(action_models(v@) =~= action_models(before).push(action_model(a)));
    }
}

fn push_emit(v: &mut Vec<SessionAction>, o: Option<Output>)
    ensures
        action_models(final(v)@) == action_models(old(v)@) + emit_models(opt_output_model(o)),
{
    match o {
        Some(x) => {
            push_action(v, SessionAction::Emit(x));
            proof {
                assert(action_models(v@) =~= action_models(old(v)@) + emit_models(
                    opt_output_model(o),
                ));
            }
        },
        None => {
            proof {
                assert(action_models(v@) =~= action_models(old(v)@) + emit_models(
                    opt_output_model(o),
                ));
            }
        },
    }
}

// ───────────────────────── Mistral ─────────────────────────

/// A Mistral realtime server message, by its `type`.
#[derive(Debug)]
pub enum MistralMessage {
    /// `transcription.text.delta`, with its text when it has one.
    Delta(Option<String>),
    /// `transcription.segment`, with its text when it has one.
    Segment(Option<String>),
    /// `transcription.done`.
    Done,
    /// `session.created` or `session.updated`.
    Session,
    /// `error`.
    Error,
    /// Any other type.
    Other(String),
    /// No JSON, or no string `type`.
    Untyped,
}

pub enum MistralMessageModel {
    Delta(Option<Seq<char>>),
    Segment(Option<Seq<char>>),
    Done,
    Session,
    Error,
    Other(Seq<char>),
    Untyped,
}

/// A Mistral frame by its `type` and `text` fields, where they are strings.
pub open spec fn spec_classify_mistral(kind: Option<Seq<char>>, text: Option<Seq<char>>) -> MistralMessageModel {
    match kind {
        None => MistralMessageModel::Untyped,
        Some(k) => if k == "transcription.text.delta"@ {
            MistralMessageModel::Delta(text)
        } else if k == "transcription.segment"@ {
            MistralMessageModel::Segment(text)
        } else if k == "transcription.done"@ {
            MistralMessageModel::Done
        } else if k == "session.created"@ || k == "session.updated"@ {
            MistralMessageModel::Session
        } else if k == "error"@ {
            MistralMessageModel::Error
        } else {
            MistralMessageModel::Other(k)
        },
    }
}

pub open spec fn spec_mistral_message(text: Seq<char>) -> MistralMessageModel {
    spec_classify_mistral(json_str(text, "/type"@), json_str(text, "/text"@))
}

/// The key a realtime connection needs, or the message that stops the
/// stream before it connects.
pub open spec fn spec_realtime_key(key: Option<Seq<char>>, name: Seq<char>, service: Seq<char>) -> Result<
    Seq<char>,
    Seq<char>,
> {
    match key {
        Some(k) => Ok(k),
        None => Err(name + " is required for "@ + service + " realtime STT"@),
    }
}

pub open spec fn str_result_view(r: Result<String, String>) -> Result<Seq<char>, Seq<char>> {
    match r {
        Ok(s) => Ok(s@),
        Err(e) => Err(e@),
    }
}

fn realtime_key(key: &Option<String>, name: &str, service: &str) -> (r: Result<String, String>)
    ensures
        str_result_view(r) == spec_realtime_key(opt_view(*key), name@, service@),
{
    match key {
        Some(k) => Ok(String::from_str(k.as_str())),
        None => {
            let mut m = String::from_str(name);
            m.append(" is required for ");
            m.append(service);
            m.append(" realtime STT");
            Err(m)
        },
    }
}

/// The Mistral key for a realtime stream, checked before connecting.
pub fn mistral_realtime_key(config: &Config) -> (r: Result<String, String>)
    ensures
        str_result_view(r) == spec_realtime_key(opt_view(config.mistral_api_key), "MISTRAL_API_KEY"@, "Mistral"@),
{
    realtime_key(&config.mistral_api_key, "MISTRAL_API_KEY", "Mistral")
}

/// The Deepgram key for a realtime stream, checked before connecting.
pub fn deepgram_realtime_key(config: &Config) -> (r: Result<String, String>)
    ensures
        str_result_view(r) == spec_realtime_key(opt_view(config.deepgram_api_key), "DEEPGRAM_API_KEY"@, "Deepgram"@),
{
    realtime_key(&config.deepgram_api_key, "DEEPGRAM_API_KEY", "Deepgram")
}

pub open spec fn opt_view(o: Option<String>) -> Option<Seq<char>> {
    match o {
        Some(s) => Some(s@),
        None => None,
    }
}

pub open spec fn mistral_message_model(m: MistralMessage) -> MistralMessageModel {
    match m {
        MistralMessage::Delta(t) => MistralMessageModel::Delta(opt_view(t)),
        MistralMessage::Segment(t) => MistralMessageModel::Segment(opt_view(t)),
        MistralMessage::Done => MistralMessageModel::Done,
        MistralMessage::Session => MistralMessageModel::Session,
        MistralMessage::Error => MistralMessageModel::Error,
        MistralMessage::Other(k) => MistralMessageModel::Other(k@),
        MistralMessage::Untyped => MistralMessageModel::Untyped,
    }
}

fn str_at(text: &str, pointer: &str) -> (r: Option<String>)
    ensures
        opt_view(r) == json_str(text@, pointer@),
{
    match json_at(text, pointer) {
        Ok(Some(Some(s))) => Some(s),
        _ => None,
    }
}

/// Classifies a Mistral frame from its `type` and `text` fields.
pub fn classify_mistral(kind: Option<String>, text: Option<String>) -> (m: MistralMessage)
    ensures
        mistral_message_model(m) == spec_classify_mistral(opt_view(kind), opt_view(text)),
{
    let kind = match kind {
        Some(k) => k,
        None => {
            return MistralMessage::Untyped;
        },
    };
    let k = chars_of(kind.as_str());
    if eq_str(&k, "transcription.text.delta") {
        MistralMessage::Delta(text)
    } else if eq_str(&k, "transcription.segment") {
        MistralMessage::Segment(text)
    } else if eq_str(&k, "transcription.done") {
        MistralMessage::Done
    } else if eq_str(&k, "session.created") || eq_str(&k, "session.updated") {
        MistralMessage::Session
    } else if eq_str(&k, "error") {
        MistralMessage::Error
    } else {
        MistralMessage::Other(kind)
    }
}

/// Reads a text frame from the Mistral socket.
pub fn mistral_message(text: &str) -> (m: MistralMessage)
    ensures
        mistral_message_model(m) == spec_mistral_message(text@),
{
    classify_mistral(str_at(text, "/type"), str_at(text, "/text"))
}

/// Something that happened to a Mistral session.
#[derive(Debug)]
pub enum MistralEvent {
    /// The start/stop signal.
    Toggle,
    /// The drain deadline passed.
    DrainDeadline,
    /// A text frame arrived.
    Message(MistralMessage),
    /// The microphone delivered a chunk.
    AudioChunk,
    /// The microphone stream ended.
    AudioClosed,
    /// Sending audio to the server failed.
    SendFailed,
}

pub enum MistralEventModel {
    Toggle,
    DrainDeadline,
    Message(MistralMessageModel),
    AudioChunk,
    AudioClosed,
    SendFailed,
}

pub open spec fn mistral_event_model(e: MistralEvent) -> MistralEventModel {
    match e {
        MistralEvent::Toggle => MistralEventModel::Toggle,
        MistralEvent::DrainDeadline => MistralEventModel::DrainDeadline,
        MistralEvent::Message(m) => MistralEventModel::Message(mistral_message_model(m)),
        MistralEvent::AudioChunk => MistralEventModel::AudioChunk,
        MistralEvent::AudioClosed => MistralEventModel::AudioClosed,
        MistralEvent::SendFailed => MistralEventModel::SendFailed,
    }
}

/// The decisions' state of a Mistral session.
pub struct MistralSession {
    /// Dictation is on.
    pub active: bool,
    /// The microphone is open.
    pub capturing: bool,
    /// Stopped, waiting for the server's last words before flushing.
    pub draining: bool,
    /// Audio may be sent (cleared by a server or send error).
    pub audio_send_ready: bool,
    /// Text received as deltas and not yet finished.
    pub preview_tail: String,
}

pub struct SessionModel {
    pub active: bool,
    pub capturing: bool,
    pub draining: bool,
    pub audio_send_ready: bool,
    pub preview_tail: Seq<char>,
}

pub open spec fn session_model(s: MistralSession) -> SessionModel {
    SessionModel {
        active: s.active,
        capturing: s.capturing,
        draining: s.draining,
        audio_send_ready: s.audio_send_ready,
        preview_tail: s.preview_tail@,
    }
}

/// Event kinds that are always logged.
pub open spec fn is_logged_kind(k: Seq<char>) -> bool {
    k == "transcription.language"@ || k == "input_audio_buffer.speech_started"@ || k
        == "input_audio_buffer.speech_stopped"@
}

/// Starting (or resuming) dictation: pending preview text is flushed when a
/// drain was under way, else dropped; the session's typed text is forgotten
/// and recording starts.
pub open spec fn start_steps(
    m: SessionModel,
    s: RealtimeSettings,
    c: TextProcessingConfig,
    first_start: bool,
) -> (SessionModel, Seq<ActionModel>) {
    let flushed = if m.draining {
        emit_models(spec_flush_output(m.preview_tail, s, c))
    } else {
        Seq::<ActionModel>::empty()
    };
    (
        SessionModel {
            active: true,
            capturing: true,
            draining: false,
            audio_send_ready: if first_start {
                true
            } else {
                m.audio_send_ready
            },
            preview_tail: Seq::<char>::empty(),
        },
        flushed + seq![
            ActionModel::ClearSessionBuffer,
            ActionModel::StartRecording,
            ActionModel::BeepStart,
        ],
    )
}

pub open spec fn spec_mistral_step(
    m: SessionModel,
    s: RealtimeSettings,
    c: TextProcessingConfig,
    e: MistralEventModel,
) -> (SessionModel, Seq<ActionModel>) {
    match e {
        MistralEventModel::DrainDeadline => (
            SessionModel { draining: false, preview_tail: Seq::<char>::empty(), ..m },
            emit_models(spec_flush_output(m.preview_tail, s, c)),
        ),
        MistralEventModel::Toggle => if s.exit_on_signal {
            (
                SessionModel { capturing: false, ..m },
                seq![
                    ActionModel::SendFlush,
                    ActionModel::SendEnd,
                    ActionModel::StopRecording,
                    ActionModel::BeepStop,
                    ActionModel::Exit,
                ],
            )
        } else if !s.active_on_start && !m.capturing {
            start_steps(m, s, c, true)
        } else if !m.active {
            start_steps(m, s, c, false)
        } else {
            (
                SessionModel { active: false, capturing: false, draining: true, ..m },
                seq![
                    ActionModel::StopRecording,
                    ActionModel::BeepStop,
                    ActionModel::SendFlush,
                    ActionModel::StartDrain,
                ],
            )
        },
        MistralEventModel::Message(msg) => match msg {
            MistralMessageModel::Delta(Some(d)) => if s.type_deltas {
                (m, seq![ActionModel::Emit(OutputModel::Type(processed(c, d)))])
            } else if s.segment_polish {
                (SessionModel { preview_tail: m.preview_tail + d, ..m }, Seq::<ActionModel>::empty())
            } else {
                (m, Seq::<ActionModel>::empty())
            },
            MistralMessageModel::Segment(t) => if s.type_deltas {
                (SessionModel { preview_tail: Seq::<char>::empty(), ..m }, Seq::<ActionModel>::empty())
            } else {
                match t {
                    Some(seg) => if trim(seg).len() == 0 {
                        (m, Seq::<ActionModel>::empty())
                    } else {
                        (
                            SessionModel { preview_tail: Seq::<char>::empty(), ..m },
                            emit_models(spec_segment_output(seg, s, c)),
                        )
                    },
                    None => (m, Seq::<ActionModel>::empty()),
                }
            },
            MistralMessageModel::Done => if trim(m.preview_tail).len() == 0 {
                (m, Seq::<ActionModel>::empty())
            } else {
                (
                    SessionModel { preview_tail: Seq::<char>::empty(), ..m },
                    emit_models(spec_flush_output(m.preview_tail, s, c)),
                )
            },
            MistralMessageModel::Error => (
                SessionModel { audio_send_ready: false, ..m },
                seq![ActionModel::ReportServerError, ActionModel::BeepError],
            ),
            MistralMessageModel::Other(k) => if s.debug || is_logged_kind(k) {
                (m, seq![ActionModel::LogEvent])
            } else {
                (m, Seq::<ActionModel>::empty())
            },
            _ => (m, Seq::<ActionModel>::empty()),
        },
        MistralEventModel::AudioChunk => if m.active && m.audio_send_ready {
            (m, seq![ActionModel::SendAudio])
        } else {
            (m, Seq::<ActionModel>::empty())
        },
        MistralEventModel::AudioClosed => (SessionModel { capturing: false, ..m }, Seq::<ActionModel>::empty()),
        MistralEventModel::SendFailed => (
            SessionModel { audio_send_ready: false, ..m },
            seq![ActionModel::BeepError],
        ),
    }
}

impl MistralSession {
    /// A session as it is before the first event: recording when it is
    /// active from the start.
    pub fn new(settings: RealtimeSettings) -> (s: Self)
        ensures
            session_model(s) == (SessionModel {
                active: settings.active_on_start,
                capturing: settings.active_on_start,
                draining: false,
                audio_send_ready: true,
                preview_tail: Seq::<char>::empty(),
            }),
    {
        MistralSession {
            active: settings.active_on_start,
            capturing: settings.active_on_start,
            draining: false,
            audio_send_ready: true,
            preview_tail: String::new(),
        }
    }

    fn start(
        &mut self,
        settings: RealtimeSettings,
        config: &TextProcessingConfig,
        first_start: bool,
        actions: &mut Vec<SessionAction>,
    )
        requires
            action_models(old(actions)@) == Seq::<ActionModel>::empty(),
        ensures
            (session_model(*final(self)), action_models(final(actions)@)) == start_steps(
                session_model(*old(self)),
                settings,
                *config,
                first_start,
            ),
    {
        if self.draining {
            self.draining = false;
            let o = flush_output(self.preview_tail.as_str(), settings, config);
            push_emit(actions, o);
        }
        self.preview_tail = String::new();
        push_action(actions, SessionAction::ClearSessionBuffer);
        push_action(actions, SessionAction::StartRecording);
        push_action(actions, SessionAction::BeepStart);
        self.active = true;
        self.capturing = true;
        if first_start {
            self.audio_send_ready = true;
        }
        proof {
            let flushed = if old(self).draining {
                emit_models(spec_flush_output(old(self).preview_tail@, settings, *config))
            } else {
                Seq::<ActionModel>::empty()
            };
            assert(action_models(actions@) =~= flushed + seq![
                ActionModel::ClearSessionBuffer,
                ActionModel::StartRecording,
                ActionModel::BeepStart,
            ]);
        }
    }

    /// Takes one event: the session moves on and the actions to carry out
    /// come back in order.
    pub fn step(&mut self, settings: RealtimeSettings, config: &TextProcessingConfig, event: MistralEvent) -> (actions: Vec<SessionAction>)
        ensures
            (session_model(*final(self)), action_models(actions@)) == spec_mistral_step(
                session_model(*old(self)),
                settings,
                *config,
                mistral_event_model(event),
            ),
    {
        let mut actions: Vec<SessionAction> = Vec::new();
        proof {
            assert(action_models(actions@) =~= Seq::<ActionModel>::empty());
        }
        match event {
            MistralEvent::DrainDeadline => {
                self.draining = false;
                let o = flush_output(self.preview_tail.as_str(), settings, config);
                self.preview_tail = String::new();
                push_emit(&mut actions, o);
                proof {
                    assert(action_models(actions@) =~= emit_models(opt_output_model(o)));
                }
            },
            MistralEvent::Toggle => {
                if settings.exit_on_signal {
                    push_action(&mut actions, SessionAction::SendFlush);
                    push_action(&mut actions, SessionAction::SendEnd);
                    push_action(&mut actions, SessionAction::StopRecording);
                    push_action(&mut actions, SessionAction::BeepStop);
                    push_action(&mut actions, SessionAction::Exit);
                    self.capturing = false;
                } else if !settings.active_on_start && !self.capturing {
                    self.start(settings, config, true, &mut actions);
                } else if !self.active {
                    self.start(settings, config, false, &mut actions);
                } else {
                    self.active = false;
                    self.capturing = false;
                    push_action(&mut actions, SessionAction::StopRecording);
                    push_action(&mut actions, SessionAction::BeepStop);
                    push_action(&mut actions, SessionAction::SendFlush);
                    push_action(&mut actions, SessionAction::StartDrain);
                    self.draining = true;
                }
            },
            MistralEvent::Message(msg) => {
                match msg {
                    MistralMessage::Delta(Some(d)) => {
                        if settings.type_deltas {
                            push_action(
                                &mut actions,
                                SessionAction::Emit(Output::Type(process_text(d.as_str(), config))),
                            );
                        } else if settings.segment_polish {
                            self.preview_tail.append(d.as_str());
                        }
                    },
                    MistralMessage::Segment(t) => {
                        if settings.type_deltas {
                            self.preview_tail = String::new();
                        } else {
                            match t {
                                Some(seg) => {
                                    if trimmed(seg.as_str()).len() > 0 {
                                        self.preview_tail = String::new();
                                        let o = segment_output(seg.as_str(), settings, config);
                                        push_emit(&mut actions, o);
                                        proof {
                                            assert(action_models(actions@) =~= emit_models(
                                                opt_output_model(o),
                                            ));
                                        }
                                    }
                                },
                                None => {},
                            }
                        }
                    },
                    MistralMessage::Done => {
                        if trimmed(self.preview_tail.as_str()).len() > 0 {
                            let o = flush_output(self.preview_tail.as_str(), settings, config);
                            self.preview_tail = String::new();
                            push_emit(&mut actions, o);
                            proof {
                                assert(action_models(actions@) =~= emit_models(
                                    opt_output_model(o),
                                ));
                            }
                        }
                    },
                    MistralMessage::Error => {
                        self.audio_send_ready = false;
                        push_action(&mut actions, SessionAction::ReportServerError);
                        push_action(&mut actions, SessionAction::BeepError);
                    },
                    MistralMessage::Other(k) => {
                        let kc = chars_of(k.as_str());
                        if settings.debug || eq_str(&kc, "transcription.language") || eq_str(
                            &kc,
                            "input_audio_buffer.speech_started",
                        ) || eq_str(&kc, "input_audio_buffer.speech_stopped") {
                            push_action(&mut actions, SessionAction::LogEvent);
                        }
                    },
                    _ => {},
                }
            },
            MistralEvent::AudioChunk => {
                if self.active && self.audio_send_ready {
                    push_action(&mut actions, SessionAction::SendAudio);
                }
            },
            MistralEvent::AudioClosed => {
                self.capturing = false;
            },
            MistralEvent::SendFailed => {
                self.audio_send_ready = false;
                push_action(&mut actions, SessionAction::BeepError);
            },
        }
        proof {
            let r = spec_mistral_step(
                session_model(*old(self)),
                settings,
                *config,
                mistral_event_model(event),
            );
            assert(action_models(actions@) =~= r.1);
        }
        actions
    }
}

/// The microphone is open only while dictation is on, and a drain runs
/// only while it is off.
pub open spec fn coherent(m: SessionModel) -> bool {
    &&& m.capturing ==> m.active
    &&& m.draining ==> !m.active
}

/// A new session is coherent, and every event keeps it so.
pub proof fn lemma_session_stays_coherent(
    m: SessionModel,
    s: RealtimeSettings,
    c: TextProcessingConfig,
    e: MistralEventModel,
)
    requires
        coherent(m),
    ensures
        coherent(spec_mistral_step(m, s, c, e).0),
        coherent(
            SessionModel {
                active: s.active_on_start,
                capturing: s.active_on_start,
                draining: false,
                audio_send_ready: true,
                preview_tail: Seq::<char>::empty(),
            },
        ),
{
}

/// Audio goes to the server only while dictation is on and no error stopped
/// sending.
pub proof fn lemma_audio_only_while_active(
    m: SessionModel,
    s: RealtimeSettings,
    c: TextProcessingConfig,
    e: MistralEventModel,
)
    ensures
        spec_mistral_step(m, s, c, e).1.contains(ActionModel::SendAudio) ==> m.active
            && m.audio_send_ready && e == MistralEventModel::AudioChunk,
{
    let r = spec_mistral_step(m, s, c, e);
    if r.1.contains(ActionModel::SendAudio) {
        let i = choose|i: int| 0 <= i < r.1.len() && r.1[i] == ActionModel::SendAudio;
        match e {
            MistralEventModel::AudioChunk => {},
            MistralEventModel::DrainDeadline => {
                assert(r.1[i] is Emit);
            },
            MistralEventModel::Toggle => {
                if !s.exit_on_signal && (!s.active_on_start && !m.capturing || !m.active) {
                    let first = !s.active_on_start && !m.capturing;
                    let flushed = if m.draining {
                        emit_models(spec_flush_output(m.preview_tail, s, c))
                    } else {
                        Seq::<ActionModel>::empty()
                    };
                    assert(r.1 == flushed + seq![
                        ActionModel::ClearSessionBuffer,
                        ActionModel::StartRecording,
                        ActionModel::BeepStart,
                    ]);
                    if i < flushed.len() {
                        assert(r.1[i] == flushed[i]);
                    } else {
                        assert(r.1[i] == seq![
                            ActionModel::ClearSessionBuffer,
                            ActionModel::StartRecording,
                            ActionModel::BeepStart,
                        ][i - flushed.len()]);
                    }
                }
            },
            MistralEventModel::Message(msg) => {},
            _ => {},
        }
    }
}

// ───────────────────────── Deepgram ─────────────────────────

/// A Deepgram streaming message, by its `type`.
#[derive(Debug)]
pub enum DeepgramMessage {
    /// `Results`, with its transcript (empty when it has none).
    Results(String),
    /// `Metadata`, `SpeechStarted` or `UtteranceEnd`.
    Info,
    /// Another or no type, with the `error` string when there is one.
    Other(Option<String>),
    /// No JSON.
    Unreadable,
}

pub enum DeepgramMessageModel {
    Results(Seq<char>),
    Info,
    Other(Option<Seq<char>>),
    Unreadable,
}

pub open spec fn deepgram_message_model(m: DeepgramMessage) -> DeepgramMessageModel {
    match m {
        DeepgramMessage::Results(t) => DeepgramMessageModel::Results(t@),
        DeepgramMessage::Info => DeepgramMessageModel::Info,
        DeepgramMessage::Other(e) => DeepgramMessageModel::Other(opt_view(e)),
        DeepgramMessage::Unreadable => DeepgramMessageModel::Unreadable,
    }
}

/// A Deepgram frame by its fields: whether it reads as JSON, and its `type`,
/// first transcript and `error` fields where they are strings.
pub open spec fn spec_classify_deepgram(
    readable: bool,
    kind: Option<Seq<char>>,
    transcript: Option<Seq<char>>,
    error: Option<Seq<char>>,
) -> DeepgramMessageModel {
    if !readable {
        DeepgramMessageModel::Unreadable
    } else {
        match kind {
            Some(k) => if k == "Results"@ {
                DeepgramMessageModel::Results(
                    match transcript {
                        Some(t) => t,
                        None => Seq::<char>::empty(),
                    },
                )
            } else if k == "Metadata"@ || k == "SpeechStarted"@ || k == "UtteranceEnd"@ {
                DeepgramMessageModel::Info
            } else {
                DeepgramMessageModel::Other(error)
            },
            None => DeepgramMessageModel::Other(error),
        }
    }
}

pub open spec fn spec_deepgram_message(text: Seq<char>) -> DeepgramMessageModel {
    spec_classify_deepgram(
        json_query(text, "/type"@) is Ok,
        json_str(text, "/type"@),
        json_str(text, "/channel/alternatives/0/transcript"@),
        json_str(text, "/error"@),
    )
}

/// Classifies a Deepgram frame from its fields.
pub fn classify_deepgram(
    readable: bool,
    kind: Option<String>,
    transcript: Option<String>,
    error: Option<String>,
) -> (m: DeepgramMessage)
    ensures
        deepgram_message_model(m) == spec_classify_deepgram(
            readable,
            opt_view(kind),
            opt_view(transcript),
            opt_view(error),
        ),
{
    if !readable {
        return DeepgramMessage::Unreadable;
    }
    let kind = match kind {
        Some(k) => k,
        None => {
            return DeepgramMessage::Other(error);
        },
    };
    let k = chars_of(kind.as_str());
    if eq_str(&k, "Results") {
        let t = match transcript {
            Some(t) => t,
            None => String::new(),
        };
        DeepgramMessage::Results(t)
    } else if eq_str(&k, "Metadata") || eq_str(&k, "SpeechStarted") || eq_str(&k, "UtteranceEnd") {
        DeepgramMessage::Info
    } else {
        DeepgramMessage::Other(error)
    }
}

/// Reads a text frame from the Deepgram socket.
pub fn deepgram_message(text: &str) -> (m: DeepgramMessage)
    ensures
        deepgram_message_model(m) == spec_deepgram_message(text@),
{
    let readable = match json_at(text, "/type") {
        Err(_) => false,
        Ok(_) => true,
    };
    classify_deepgram(
        readable,
        str_at(text, "/type"),
        str_at(text, "/channel/alternatives/0/transcript"),
        str_at(text, "/error"),
    )
}

/// Something that happened to a Deepgram session.
#[derive(Debug)]
pub enum DeepgramEvent {
    Toggle,
    Message(DeepgramMessage),
    /// The microphone could not be opened.
    RecordingFailed,
    AudioChunk,
    AudioClosed,
    /// The keep-alive timer fired; `idle` when no audio came for 8 s.
    KeepAliveTick { idle: bool },
}

pub enum DeepgramEventModel {
    Toggle,
    Message(DeepgramMessageModel),
    RecordingFailed,
    AudioChunk,
    AudioClosed,
    KeepAliveTick { idle: bool },
}

pub open spec fn deepgram_event_model(e: DeepgramEvent) -> DeepgramEventModel {
    match e {
        DeepgramEvent::Toggle => DeepgramEventModel::Toggle,
        DeepgramEvent::Message(m) => DeepgramEventModel::Message(deepgram_message_model(m)),
        DeepgramEvent::RecordingFailed => DeepgramEventModel::RecordingFailed,
        DeepgramEvent::AudioChunk => DeepgramEventModel::AudioChunk,
        DeepgramEvent::AudioClosed => DeepgramEventModel::AudioClosed,
        DeepgramEvent::KeepAliveTick { idle } => DeepgramEventModel::KeepAliveTick { idle },
    }
}

/// The decisions' state of a Deepgram session: whether the microphone is open.
pub struct DeepgramSession {
    pub capturing: bool,
}

pub open spec fn spec_deepgram_step(
    capturing: bool,
    s: RealtimeSettings,
    c: TextProcessingConfig,
    e: DeepgramEventModel,
) -> (bool, Seq<ActionModel>) {
    match e {
        DeepgramEventModel::Toggle => if s.exit_on_signal {
            (
                false,
                seq![
                    ActionModel::SendEnd,
                    ActionModel::StopRecording,
                    ActionModel::BeepStop,
                    ActionModel::Exit,
                ],
            )
        } else if !capturing {
            (true, seq![ActionModel::StartRecording, ActionModel::BeepStart])
        } else {
            (false, seq![ActionModel::SendFlush, ActionModel::StopRecording, ActionModel::BeepStop])
        },
        DeepgramEventModel::Message(msg) => match msg {
            DeepgramMessageModel::Results(t) => (capturing, emit_models(spec_segment_output(t, s, c))),
            DeepgramMessageModel::Other(Some(_)) => (capturing, seq![ActionModel::ReportServerError]),
            _ => (capturing, Seq::<ActionModel>::empty()),
        },
        DeepgramEventModel::RecordingFailed => (false, Seq::<ActionModel>::empty()),
        DeepgramEventModel::AudioChunk => (capturing, seq![ActionModel::SendAudio]),
        DeepgramEventModel::AudioClosed => (false, Seq::<ActionModel>::empty()),
        DeepgramEventModel::KeepAliveTick { idle } => if !capturing || idle {
            (capturing, seq![ActionModel::SendKeepAlive])
        } else {
            (capturing, Seq::<ActionModel>::empty())
        },
    }
}

impl DeepgramSession {
    pub fn new(settings: RealtimeSettings) -> (s: Self)
        ensures
            s.capturing == settings.active_on_start,
    {
        DeepgramSession { capturing: settings.active_on_start }
    }

    /// Takes one event: the session moves on and the actions to carry out
    /// come back in order. With `interim_results` off, every transcript is
    /// final and is handled as a finished segment.
    pub fn step(&mut self, settings: RealtimeSettings, config: &TextProcessingConfig, event: DeepgramEvent) -> (actions: Vec<SessionAction>)
        ensures
            (final(self).capturing, action_models(actions@)) == spec_deepgram_step(
                old(self).capturing,
                settings,
                *config,
                deepgram_event_model(event),
            ),
    {
        let mut actions: Vec<SessionAction> = Vec::new();
        proof {
            assert(action_models(actions@) =~= Seq::<ActionModel>::empty());
        }
        match event {
            DeepgramEvent::Toggle => {
                if settings.exit_on_signal {
                    push_action(&mut actions, SessionAction::SendEnd);
                    push_action(&mut actions, SessionAction::StopRecording);
                    push_action(&mut actions, SessionAction::BeepStop);
                    push_action(&mut actions, SessionAction::Exit);
                    self.capturing = false;
                } else if !self.capturing {
                    push_action(&mut actions, SessionAction::StartRecording);
                    push_action(&mut actions, SessionAction::BeepStart);
                    self.capturing = true;
                } else {
                    push_action(&mut actions, SessionAction::SendFlush);
                    push_action(&mut actions, SessionAction::StopRecording);
                    push_action(&mut actions, SessionAction::BeepStop);
                    self.capturing = false;
                }
            },
            DeepgramEvent::Message(msg) => {
                match msg {
                    DeepgramMessage::Results(t) => {
                        let o = segment_output(t.as_str(), settings, config);
                        push_emit(&mut actions, o);
                        proof {
                            assert(action_models(actions@) =~= emit_models(opt_output_model(o)));
                        }
                    },
                    DeepgramMessage::Other(Some(_)) => {
                        push_action(&mut actions, SessionAction::ReportServerError);
                    },
                    _ => {},
                }
            },
            DeepgramEvent::RecordingFailed => {
                self.capturing = false;
            },
            DeepgramEvent::AudioChunk => {
                push_action(&mut actions, SessionAction::SendAudio);
            },
            DeepgramEvent::AudioClosed => {
                self.capturing = false;
            },
            DeepgramEvent::KeepAliveTick { idle } => {
                if !self.capturing || idle {
                    push_action(&mut actions, SessionAction::SendKeepAlive);
                }
            },
        }
        proof {
            let r = spec_deepgram_step(
                old(self).capturing,
                settings,
                *config,
                deepgram_event_model(event),
            );
            assert(action_models(actions@) =~= r.1);
        }
        actions
    }
}

} // verus!
