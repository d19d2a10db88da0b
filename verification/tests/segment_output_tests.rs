use dictate::command_mode::{command_mode_plan, CommandPlan};
use dictate::config::Config;
use dictate::context_session::handle_final_segment;
use dictate::llm_polish::handle_polish_failure;
use dictate::profile::DictateProfile;
use dictate::segment_output::{
    plan_finalized_segment, plan_live_utterance, SegmentPlan, UtterancePlan,
};
use dictate::transcript::TranscriptBuffer;
use dictate::typing::MockTypingBackend;

#[test]
fn segment_polish_off_types_local_processed() {
    let config = Config {
        profile: DictateProfile::Segmented,
        mistral_api_key: None,
        ..Default::default()
    };
    let mut buffer = TranscriptBuffer::new();
    let mut backend = MockTypingBackend::new();
    let text = match plan_finalized_segment(&config, &buffer, "hello world", None, "plain") {
        SegmentPlan::Polish { local, .. } => {
            // No chat backend answers here, so polish fails and falls back.
            handle_polish_failure(&config.text_processing.polish, &local)
        }
        SegmentPlan::Insert(t) => t,
        other => panic!("unexpected plan {other:?}"),
    };
    handle_final_segment(&mut backend, &mut buffer, &config, &text, "plain").unwrap();
    assert!(buffer.text().contains("hello"));
}

#[test]
fn blank_segment_is_nothing() {
    let config = Config::default();
    let buffer = TranscriptBuffer::new();
    assert!(matches!(
        plan_finalized_segment(&config, &buffer, "  \n", Some("clip"), "plain"),
        SegmentPlan::Nothing
    ));
}

#[test]
fn polish_plan_carries_recent_context() {
    let config = Config { mistral_api_key: Some("k".to_string()), ..Default::default() };
    let mut buffer = TranscriptBuffer::new();
    buffer.append_typed("Earlier text.");
    match plan_finalized_segment(&config, &buffer, " next part ", None, "plain") {
        SegmentPlan::Polish { local, prior } => {
            assert_eq!(local, "next part");
            assert_eq!(prior, "Earlier text.");
        }
        other => panic!("unexpected plan {other:?}"),
    }
}

#[test]
fn without_polish_text_is_inserted_or_typed() {
    let mut config = Config { polish_provider: "mistral".to_string(), ..Default::default() };
    let buffer = TranscriptBuffer::new();
    assert!(matches!(
        plan_finalized_segment(&config, &buffer, "hello", None, "plain"),
        SegmentPlan::Insert(t) if t == "hello"
    ));
    assert!(matches!(
        plan_finalized_segment(&config, &buffer, "scratch that", None, "plain"),
        SegmentPlan::Insert(t) if t == "scratch that"
    ));
    config.context_editing = false;
    assert!(matches!(
        plan_finalized_segment(&config, &buffer, "scratch that", None, "plain"),
        SegmentPlan::TypePlain(t) if t == "scratch that"
    ));
    config.profile = DictateProfile::BatchClip;
    assert!(matches!(
        plan_finalized_segment(&config, &buffer, " hi ", None, "plain"),
        SegmentPlan::TypePlain(t) if t == "hi"
    ));
}

#[test]
fn command_profile_always_uses_the_clipboard() {
    let config = Config { profile: DictateProfile::Command, ..Default::default() };
    let buffer = TranscriptBuffer::new();
    match plan_finalized_segment(&config, &buffer, "fix grammar", Some("  some text  "), "plain") {
        SegmentPlan::ClipboardCommand { instruction, clipboard } => {
            assert_eq!(instruction, "fix grammar");
            assert_eq!(clipboard, "some text");
        }
        other => panic!("unexpected plan {other:?}"),
    }
}

#[test]
fn instruction_with_clipboard_text_becomes_a_command() {
    let config = Config::default();
    let buffer = TranscriptBuffer::new();
    let clip = "This is a paragraph that somebody copied earlier and wants rewritten.";
    assert!(matches!(
        plan_finalized_segment(&config, &buffer, "make this more concise", Some(clip), "plain"),
        SegmentPlan::ClipboardCommand { .. }
    ));
    assert!(!matches!(
        plan_finalized_segment(&config, &buffer, "make this more concise", Some("  "), "plain"),
        SegmentPlan::ClipboardCommand { .. }
    ));
}

#[test]
fn live_utterance_plans() {
    let keep = Config { polish_provider: "mistral".to_string(), ..Default::default() };
    let polish = Config { mistral_api_key: Some("k".to_string()), ..Default::default() };
    let mut buffer = TranscriptBuffer::new();
    buffer.append_typed("First. second part");
    assert!(matches!(
        plan_live_utterance(&keep, &buffer, 7),
        UtterancePlan::Keep { typed } if typed == "second part"
    ));
    assert!(matches!(
        plan_live_utterance(&polish, &buffer, 7),
        UtterancePlan::Polish { typed, prior } if typed == "second part" && prior == "First. "
    ));
    assert!(matches!(plan_live_utterance(&keep, &buffer, 100), UtterancePlan::Skip));
    let mut command = TranscriptBuffer::new();
    command.append_typed("scratch that");
    assert!(matches!(plan_live_utterance(&keep, &command, 0), UtterancePlan::Skip));
}

#[test]
fn command_mode_plans() {
    assert!(matches!(
        command_mode_plan("fix grammar", "hello world", None),
        CommandPlan::Done(t) if t == "Hello world."
    ));
    assert!(matches!(command_mode_plan("translate", "x", None), CommandPlan::Fail(_)));
    let mut config = Config { mistral_api_key: Some("k".to_string()), ..Default::default() };
    assert!(matches!(command_mode_plan("translate", "x", Some(&config)), CommandPlan::Fail(_)));
    config.text_processing.command_mode.use_llm = true;
    match command_mode_plan(" translate to german ", " hallo ", Some(&config)) {
        CommandPlan::AskModel(p) => {
            assert_eq!(p.user, "Instruction (from voice):\ntranslate to german\n\nSource text:\nhallo")
        }
        _ => panic!("expected a model request"),
    }
}
