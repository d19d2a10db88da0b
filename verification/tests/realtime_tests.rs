use dictate::config::Config;
use dictate::realtime::{
    deepgram_message, deepgram_realtime_url, flush_output, mistral_message, mistral_realtime_url,
    segment_output, DeepgramEvent, DeepgramMessage, DeepgramSession, MistralEvent, MistralMessage,
    MistralSession, Output, RealtimeSettings, SessionAction,
};
use dictate::text_processing::TextProcessingConfig;

fn warm(segment_polish: bool, type_deltas: bool) -> RealtimeSettings {
    RealtimeSettings {
        active_on_start: false,
        exit_on_signal: false,
        type_deltas,
        segment_polish,
        debug: false,
    }
}

#[test]
fn mistral_url_from_defaults_and_http_bases() {
    let config = Config::default();
    assert_eq!(
        mistral_realtime_url(&config),
        "wss://api.mistral.ai/v1/audio/transcriptions/realtime?model=voxtral-mini-transcribe-realtime-2602&target_streaming_delay_ms=480"
    );
    let local = Config {
        mistral_base_url: Some("http://localhost:8080/v1/v1".to_string()),
        mistral_realtime_delay_ms: 240,
        ..Default::default()
    };
    assert_eq!(
        mistral_realtime_url(&local),
        "ws://localhost:8080/v1/audio/transcriptions/realtime?model=voxtral-mini-transcribe-realtime-2602&target_streaming_delay_ms=240"
    );
    let both = Config {
        mistral_base_url: Some("https://ignored".to_string()),
        mistral_realtime_base_url: Some("https://rt.example/".to_string()),
        ..Default::default()
    };
    assert!(mistral_realtime_url(&both).starts_with("wss://rt.example/v1/audio"));
}

#[test]
fn deepgram_url_sets_language_unless_auto() {
    let config = Config::default();
    assert_eq!(
        deepgram_realtime_url(&config),
        "wss://api.deepgram.com/v1/listen?model=nova-3&encoding=linear16&sample_rate=16000&channels=1&smart_format=true&interim_results=false&endpointing=300"
    );
    let de = Config {
        transcription_language: " de ".to_string(),
        deepgram_base_url: Some("http://127.0.0.1:9000//".to_string()),
        ..Default::default()
    };
    assert_eq!(
        deepgram_realtime_url(&de),
        "ws://127.0.0.1:9000/v1/listen?model=nova-3&encoding=linear16&sample_rate=16000&channels=1&smart_format=true&interim_results=false&endpointing=300&language=de"
    );
}

#[test]
fn mistral_messages_are_read_by_type() {
    assert!(matches!(
        mistral_message(r#"{"type":"transcription.text.delta","text":"hi"}"#),
        MistralMessage::Delta(Some(t)) if t == "hi"
    ));
    assert!(matches!(
        mistral_message(r#"{"type":"transcription.segment"}"#),
        MistralMessage::Segment(None)
    ));
    assert!(matches!(mistral_message(r#"{"type":"transcription.done"}"#), MistralMessage::Done));
    assert!(matches!(mistral_message(r#"{"type":"session.updated"}"#), MistralMessage::Session));
    assert!(matches!(mistral_message(r#"{"type":"error","error":"x"}"#), MistralMessage::Error));
    assert!(matches!(
        mistral_message(r#"{"type":"transcription.language"}"#),
        MistralMessage::Other(k) if k == "transcription.language"
    ));
    assert!(matches!(mistral_message("garbage"), MistralMessage::Untyped));
    assert!(matches!(mistral_message(r#"{"type":3}"#), MistralMessage::Untyped));
}

#[test]
fn deepgram_messages_are_read_by_type() {
    assert!(matches!(
        deepgram_message(r#"{"type":"Results","channel":{"alternatives":[{"transcript":"hello"}]}}"#),
        DeepgramMessage::Results(t) if t == "hello"
    ));
    assert!(matches!(
        deepgram_message(r#"{"type":"Results"}"#),
        DeepgramMessage::Results(t) if t.is_empty()
    ));
    assert!(matches!(deepgram_message(r#"{"type":"Metadata"}"#), DeepgramMessage::Info));
    assert!(matches!(
        deepgram_message(r#"{"error":"bad auth"}"#),
        DeepgramMessage::Other(Some(e)) if e == "bad auth"
    ));
    assert!(matches!(deepgram_message("{"), DeepgramMessage::Unreadable));
}

#[test]
fn outputs_follow_the_profile() {
    let config = TextProcessingConfig::default();
    assert!(flush_output("  ", warm(true, false), &config).is_none());
    assert!(matches!(
        flush_output(" hi ", warm(true, false), &config),
        Some(Output::Finalize(t)) if t == " hi "
    ));
    assert!(matches!(
        flush_output(" hi ", warm(false, true), &config),
        Some(Output::Type(t)) if t == " hi "
    ));
    assert!(matches!(
        flush_output(" hi ", warm(false, false), &config),
        Some(Output::Show(t)) if t == "hi"
    ));
    assert!(matches!(
        segment_output(" done ", warm(true, false), &config),
        Some(Output::Finalize(t)) if t == "done"
    ));
}

#[test]
fn warm_mistral_session_collects_then_flushes_on_drain() {
    let settings = warm(true, false);
    let config = TextProcessingConfig::default();
    let mut session = MistralSession::new(settings);
    assert!(!session.active && !session.capturing);

    let actions = session.step(settings, &config, MistralEvent::Toggle);
    assert!(matches!(
        actions.as_slice(),
        [SessionAction::ClearSessionBuffer, SessionAction::StartRecording, SessionAction::BeepStart]
    ));
    assert!(session.active && session.capturing);

    assert!(matches!(
        session.step(settings, &config, MistralEvent::AudioChunk).as_slice(),
        [SessionAction::SendAudio]
    ));
    for delta in ["hello ", "world"] {
        let m = MistralMessage::Delta(Some(delta.to_string()));
        assert!(session.step(settings, &config, MistralEvent::Message(m)).is_empty());
    }
    assert_eq!(session.preview_tail, "hello world");

    let actions = session.step(settings, &config, MistralEvent::Toggle);
    assert!(matches!(
        actions.as_slice(),
        [SessionAction::StopRecording, SessionAction::BeepStop, SessionAction::SendFlush, SessionAction::StartDrain]
    ));
    assert!(session.draining && !session.active);
    assert!(session.step(settings, &config, MistralEvent::AudioChunk).is_empty());

    let actions = session.step(settings, &config, MistralEvent::DrainDeadline);
    assert!(matches!(
        actions.as_slice(),
        [SessionAction::Emit(Output::Finalize(t))] if t == "hello world"
    ));
    assert!(!session.draining && session.preview_tail.is_empty());
}

#[test]
fn restarting_during_a_drain_flushes_the_preview_first() {
    let settings = warm(true, false);
    let config = TextProcessingConfig::default();
    let mut session = MistralSession::new(settings);
    session.step(settings, &config, MistralEvent::Toggle);
    session.step(settings, &config, MistralEvent::Message(MistralMessage::Delta(Some("tail".to_string()))));
    session.step(settings, &config, MistralEvent::Toggle);
    let actions = session.step(settings, &config, MistralEvent::Toggle);
    assert!(matches!(
        actions.as_slice(),
        [SessionAction::Emit(Output::Finalize(t)), SessionAction::ClearSessionBuffer, SessionAction::StartRecording, SessionAction::BeepStart]
            if t == "tail"
    ));
}

#[test]
fn server_error_stops_audio_until_restart() {
    let settings = RealtimeSettings { active_on_start: true, ..warm(true, false) };
    let config = TextProcessingConfig::default();
    let mut session = MistralSession::new(settings);
    let actions = session.step(settings, &config, MistralEvent::Message(MistralMessage::Error));
    assert!(matches!(actions.as_slice(), [SessionAction::ReportServerError, SessionAction::BeepError]));
    assert!(session.step(settings, &config, MistralEvent::AudioChunk).is_empty());
}

#[test]
fn live_typing_types_processed_deltas_and_skips_segments() {
    let settings = RealtimeSettings { active_on_start: true, ..warm(false, true) };
    let config = TextProcessingConfig::default();
    let mut session = MistralSession::new(settings);
    let actions = session.step(
        settings,
        &config,
        MistralEvent::Message(MistralMessage::Delta(Some("hello".to_string()))),
    );
    assert!(matches!(actions.as_slice(), [SessionAction::Emit(Output::Type(t))] if t == "hello"));
    let actions = session.step(
        settings,
        &config,
        MistralEvent::Message(MistralMessage::Segment(Some("hello".to_string()))),
    );
    assert!(actions.is_empty());
}

#[test]
fn exit_signal_ends_the_session() {
    let settings = RealtimeSettings { active_on_start: true, exit_on_signal: true, ..warm(true, false) };
    let config = TextProcessingConfig::default();
    let mut session = MistralSession::new(settings);
    let actions = session.step(settings, &config, MistralEvent::Toggle);
    assert!(matches!(
        actions.as_slice(),
        [SessionAction::SendFlush, SessionAction::SendEnd, SessionAction::StopRecording, SessionAction::BeepStop, SessionAction::Exit]
    ));
}

#[test]
fn deepgram_session_toggles_and_keeps_alive() {
    let settings = warm(true, false);
    let config = TextProcessingConfig::default();
    let mut session = DeepgramSession::new(settings);
    assert!(matches!(
        session.step(settings, &config, DeepgramEvent::KeepAliveTick { idle: false }).as_slice(),
        [SessionAction::SendKeepAlive]
    ));
    assert!(matches!(
        session.step(settings, &config, DeepgramEvent::Toggle).as_slice(),
        [SessionAction::StartRecording, SessionAction::BeepStart]
    ));
    assert!(session.step(settings, &config, DeepgramEvent::KeepAliveTick { idle: false }).is_empty());
    let results = deepgram_message(r#"{"type":"Results","channel":{"alternatives":[{"transcript":" ok "}]}}"#);
    assert!(matches!(
        session.step(settings, &config, DeepgramEvent::Message(results)).as_slice(),
        [SessionAction::Emit(Output::Finalize(t))] if t == "ok"
    ));
    assert!(matches!(
        session.step(settings, &config, DeepgramEvent::Toggle).as_slice(),
        [SessionAction::SendFlush, SessionAction::StopRecording, SessionAction::BeepStop]
    ));
    assert!(!session.capturing);
}

#[test]
fn realtime_keys_are_checked_before_connecting() {
    let mut config = dictate::config::Config::default();
    assert_eq!(
        dictate::realtime::mistral_realtime_key(&config),
        Err("MISTRAL_API_KEY is required for Mistral realtime STT".to_string())
    );
    assert_eq!(
        dictate::realtime::deepgram_realtime_key(&config),
        Err("DEEPGRAM_API_KEY is required for Deepgram realtime STT".to_string())
    );
    config.mistral_api_key = Some("k".to_string());
    assert_eq!(dictate::realtime::mistral_realtime_key(&config), Ok("k".to_string()));
}
