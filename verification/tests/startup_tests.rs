use dictate::config::Config;
use dictate::profile::DictateProfile;
use dictate::startup::{
    apply_mode_arg, choose_run_mode, smart_mode_problem, validation_is_fatal, ClipDaemon,
    ClipDaemonAction, ClipDaemonEvent, RunMode,
};

#[test]
fn mode_argument_overrides_profile() {
    let mut config = Config { profile: DictateProfile::BatchClip, ..Default::default() };
    assert!(apply_mode_arg(&mut config, None).is_ok());
    assert_eq!(config.profile, DictateProfile::BatchClip);
    assert!(apply_mode_arg(&mut config, Some("smart")).is_ok());
    assert_eq!(config.profile, DictateProfile::Segmented);
    assert_eq!(
        apply_mode_arg(&mut config, Some("turbo")).unwrap_err(),
        "Unknown --mode turbo; use live or smart"
    );
}

#[test]
fn smart_paste_needs_mistral() {
    let groq = Config {
        profile: DictateProfile::SmartPaste,
        transcription_provider: "groq".to_string(),
        ..Default::default()
    };
    assert!(smart_mode_problem(&groq).is_some());
    let mistral = Config { profile: DictateProfile::SmartPaste, transcription_provider: "Mistral".to_string(), ..Default::default() };
    assert!(smart_mode_problem(&mistral).is_none());
    assert!(validation_is_fatal(&Config { transcription_provider: "local".to_string(), ..Default::default() }));
    assert!(!validation_is_fatal(&Config::default()));
}

#[test]
fn run_mode_selection() {
    let config = Config::default();
    assert_eq!(choose_run_mode(&config, true, false, false), RunMode::RealtimeDaemon);
    assert_eq!(choose_run_mode(&config, true, false, true), RunMode::DaemonClip);
    assert_eq!(choose_run_mode(&config, false, false, false), RunMode::Stream);
    let groq = Config { transcription_provider: "groq".to_string(), ..Default::default() };
    assert_eq!(choose_run_mode(&groq, false, false, false), RunMode::Clip);
    assert_eq!(choose_run_mode(&groq, false, true, false), RunMode::Stream);
    let smart = Config { profile: DictateProfile::SmartPaste, ..Default::default() };
    assert_eq!(choose_run_mode(&smart, false, false, false), RunMode::DaemonClip);
}

#[test]
fn clip_daemon_toggles_between_recording_and_transcribing() {
    let mut d = ClipDaemon::new();
    assert!(d.step(true, ClipDaemonEvent::Tick).is_empty());
    assert_eq!(
        d.step(true, ClipDaemonEvent::Toggle),
        vec![ClipDaemonAction::ShowListening, ClipDaemonAction::BeepStart, ClipDaemonAction::StartRecording]
    );
    assert_eq!(d.step(true, ClipDaemonEvent::Tick), vec![ClipDaemonAction::PollAudio, ClipDaemonAction::ShowLevel]);
    assert_eq!(d.step(false, ClipDaemonEvent::Tick), vec![ClipDaemonAction::PollAudio]);
    assert_eq!(
        d.step(true, ClipDaemonEvent::Toggle),
        vec![
            ClipDaemonAction::ShowProcessing,
            ClipDaemonAction::StopRecording,
            ClipDaemonAction::BeepStop,
            ClipDaemonAction::TranscribeClip
        ]
    );
    assert!(!d.recording);
    d.step(true, ClipDaemonEvent::Toggle);
    d.step(true, ClipDaemonEvent::RecordingFailed);
    assert!(!d.recording);
    assert_eq!(
        d.step(true, ClipDaemonEvent::Shutdown),
        vec![ClipDaemonAction::ClearBuffer, ClipDaemonAction::Exit]
    );
}
