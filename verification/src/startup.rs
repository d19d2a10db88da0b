//! What the program does when it starts: the `--mode` override, the checks
//! that stop it, which loop it runs, and the decisions of the clip daemon.
use crate::config::{spec_uses_realtime, Config};
use crate::profile::{name_key, spec_mode_parse, DictateMode, DictateProfile};
use crate::text::{chars_of, eq_ignore_ascii_case, eq_str, vec_eq_ignore_ascii_case};
use vstd::prelude::*;

verus! {

/// Applies `--mode live|smart`: both pick the default profile, and nothing
/// else in the configuration changes. An unknown mode is refused with its
/// message.
pub fn apply_mode_arg(config: &mut Config, mode: Option<&str>) -> (r: Result<(), String>)
    ensures
        match mode {
            None => r is Ok && final(config).profile == old(config).profile,
            Some(m) => match spec_mode_parse(name_key(m@)) {
                Some(_) => r is Ok && final(config).profile == DictateProfile::Segmented,
                None => r matches Err(e) && e@ == "Unknown --mode "@ + m@ + "; use live or smart"@
                    && final(config).profile == old(config).profile,
            },
        },
        *final(config) == (Config { profile: final(config).profile, ..*old(config) }),
{
    match mode {
        None => Ok(()),
        Some(m) => match DictateMode::parse(m) {
            Some(parsed) => {
                config.profile = parsed.profile();
                Ok(())
            },
            None => {
                let mut e = String::from_str("Unknown --mode ");
                e.append(m);
                e.append("; use live or smart");
                Err(e)
            },
        },
    }
}

/// Smart paste polishes with Mistral, so it needs Mistral speech-to-text.
pub fn smart_mode_problem(config: &Config) -> (r: Option<&'static str>)
    ensures
        match r {
            Some(m) => config.profile == DictateProfile::SmartPaste && !eq_ignore_ascii_case(
                config.transcription_provider@,
                "mistral"@,
            ) && m@ == "Smart mode requires TRANSCRIPTION_PROVIDER=mistral (LLM polish)"@,
            None => !(config.profile == DictateProfile::SmartPaste && !eq_ignore_ascii_case(
                config.transcription_provider@,
                "mistral"@,
            )),
        },
{
    let provider = chars_of(config.transcription_provider.as_str());
    if config.profile == DictateProfile::SmartPaste && !vec_eq_ignore_ascii_case(
        &provider,
        &chars_of("mistral"),
    ) {
        Some("Smart mode requires TRANSCRIPTION_PROVIDER=mistral (LLM polish)")
    } else {
        None
    }
}

/// A configuration problem only stops the program for the local provider,
/// which cannot run without its model; for the others it is a warning.
pub fn validation_is_fatal(config: &Config) -> (b: bool)
    ensures
        b == (config.transcription_provider@ == "local"@),
{
    eq_str(&chars_of(config.transcription_provider.as_str()), "local")
}

/// The loop the program runs.
#[derive(Debug, Clone, Copy, PartialEq, Eq, Structural)]
pub enum RunMode {
    /// Realtime speech-to-text as a warm daemon.
    RealtimeDaemon,
    /// Whole clips, started and stopped by signals, as a daemon.
    DaemonClip,
    /// Continuous transcription until a signal.
    Stream,
    /// One clip, then exit.
    Clip,
}

pub open spec fn spec_run_mode(c: Config, daemon: bool, stream: bool, command_mode: bool) -> RunMode {
    let realtime = spec_uses_realtime(c, "mistral"@) && !command_mode;
    if daemon && realtime {
        RunMode::RealtimeDaemon
    } else if daemon || c.profile == DictateProfile::SmartPaste {
        RunMode::DaemonClip
    } else if stream || realtime {
        RunMode::Stream
    } else {
        RunMode::Clip
    }
}

/// Picks the loop from the flags and the profile.
pub fn choose_run_mode(config: &Config, daemon: bool, stream: bool, command_mode: bool) -> (m: RunMode)
    ensures
        m == spec_run_mode(*config, daemon, stream, command_mode),
{
    let realtime = config.use_mistral_realtime_stt() && !command_mode;
    if daemon && realtime {
        RunMode::RealtimeDaemon
    } else if daemon || config.profile == DictateProfile::SmartPaste {
        RunMode::DaemonClip
    } else if stream || realtime {
        RunMode::Stream
    } else {
        RunMode::Clip
    }
}

// ───────────────────────── the clip daemon ─────────────────────────

/// Something that happened to the clip daemon.
#[derive(Debug, Clone, Copy)]
pub enum ClipDaemonEvent {
    /// The start/stop signal.
    Toggle,
    /// The terminate signal.
    Shutdown,
    /// The microphone could not be opened.
    RecordingFailed,
    /// The polling timer fired.
    Tick,
}

/// One step for the program to carry out, in order.
#[derive(Debug, Clone, Copy, PartialEq, Eq, Structural)]
pub enum ClipDaemonAction {
    ShowListening,
    BeepStart,
    StartRecording,
    ShowProcessing,
    StopRecording,
    BeepStop,
    /// Take the recorded audio, transcribe and output it, clear the buffer
    /// and show the idle state.
    TranscribeClip,
    ClearBuffer,
    /// Let the recorder process its audio events.
    PollAudio,
    /// Show the level of the last tenth of a second on the overlay.
    ShowLevel,
    Exit,
}

pub open spec fn spec_clip_daemon_step(recording: bool, overlay: bool, e: ClipDaemonEvent) -> (bool, Seq<ClipDaemonAction>) {
    match e {
        ClipDaemonEvent::Toggle => if !recording {
            (
                true,
                seq![
                    ClipDaemonAction::ShowListening,
                    ClipDaemonAction::BeepStart,
                    ClipDaemonAction::StartRecording,
                ],
            )
        } else {
            (
                false,
                seq![
                    ClipDaemonAction::ShowProcessing,
                    ClipDaemonAction::StopRecording,
                    ClipDaemonAction::BeepStop,
                    ClipDaemonAction::TranscribeClip,
                ],
            )
        },
        ClipDaemonEvent::Shutdown => (
            false,
            if recording {
                seq![ClipDaemonAction::StopRecording, ClipDaemonAction::ClearBuffer, ClipDaemonAction::Exit]
            } else {
                seq![ClipDaemonAction::ClearBuffer, ClipDaemonAction::Exit]
            },
        ),
        ClipDaemonEvent::RecordingFailed => (false, Seq::<ClipDaemonAction>::empty()),
        ClipDaemonEvent::Tick => if recording && overlay {
            (recording, seq![ClipDaemonAction::PollAudio, ClipDaemonAction::ShowLevel])
        } else if recording {
            (recording, seq![ClipDaemonAction::PollAudio])
        } else {
            (recording, Seq::<ClipDaemonAction>::empty())
        },
    }
}

/// The clip daemon's state: whether it is recording.
pub struct ClipDaemon {
    pub recording: bool,
}

impl ClipDaemon {
    pub fn new() -> (d: Self)
        ensures
            !d.recording,
    {
        ClipDaemon { recording: false }
    }

    /// Takes one event; the actions to carry out come back in order.
    pub fn step(&mut self, overlay: bool, event: ClipDaemonEvent) -> (actions: Vec<ClipDaemonAction>)
        ensures
            (final(self).recording, actions@) == spec_clip_daemon_step(old(self).recording, overlay, event),
    {
        match event {
            ClipDaemonEvent::Toggle => {
                if !self.recording {
                    self.recording = true;
                    let v = vec![
                        ClipDaemonAction::ShowListening,
                        ClipDaemonAction::BeepStart,
                        ClipDaemonAction::StartRecording,
                    ];
                    proof {
                        assert(v@ =~= seq![
                            ClipDaemonAction::ShowListening,
                            ClipDaemonAction::BeepStart,
                            ClipDaemonAction::StartRecording,
                        ]);
                    }
                    v
                } else {
                    self.recording = false;
                    let v = vec![
                        ClipDaemonAction::ShowProcessing,
                        ClipDaemonAction::StopRecording,
                        ClipDaemonAction::BeepStop,
                        ClipDaemonAction::TranscribeClip,
                    ];
                    proof {
                        assert(v@ =~= seq![
                            ClipDaemonAction::ShowProcessing,
                            ClipDaemonAction::StopRecording,
                            ClipDaemonAction::BeepStop,
                            ClipDaemonAction::TranscribeClip,
                        ]);
                    }
                    v
                }
            },
            ClipDaemonEvent::Shutdown => {
                let was = self.recording;
                self.recording = false;
                if was {
                    let v = vec![
                        ClipDaemonAction::StopRecording,
                        ClipDaemonAction::ClearBuffer,
                        ClipDaemonAction::Exit,
                    ];
                    proof {
                        assert(v@ =~= seq![
                            ClipDaemonAction::StopRecording,
                            ClipDaemonAction::ClearBuffer,
                            ClipDaemonAction::Exit,
                        ]);
                    }
                    v
                } else {
                    let v = vec![ClipDaemonAction::ClearBuffer, ClipDaemonAction::Exit];
                    proof {
                        assert(v@ =~= seq![ClipDaemonAction::ClearBuffer, ClipDaemonAction::Exit]);
                    }
                    v
                }
            },
            ClipDaemonEvent::RecordingFailed => {
                self.recording = false;
                Vec::new()
            },
            ClipDaemonEvent::Tick => {
                if self.recording && overlay {
                    let v = vec![ClipDaemonAction::PollAudio, ClipDaemonAction::ShowLevel];
                    proof {
                        assert(v@ =~= seq![ClipDaemonAction::PollAudio, ClipDaemonAction::ShowLevel]);
                    }
                    v
                } else if self.recording {
                    let v = vec![ClipDaemonAction::PollAudio];
                    proof {
                        assert(v@ =~= seq![ClipDaemonAction::PollAudio]);
                    }
                    v
                } else {
                    Vec::new()
                }
            },
        }
    }
}

/// Two start/stop signals bring the clip daemon back to the state it was in,
/// and exactly one of the two steps transcribes a clip; the terminate signal
/// always ends in leaving, with nothing recording.
pub proof fn lemma_clip_daemon_toggles(recording: bool, overlay: bool)
    ensures
        ({
            let (r1, a1) = spec_clip_daemon_step(recording, overlay, ClipDaemonEvent::Toggle);
            let (r2, a2) = spec_clip_daemon_step(r1, overlay, ClipDaemonEvent::Toggle);
            &&& r2 == recording
            &&& r1 != recording
            &&& a1.contains(ClipDaemonAction::TranscribeClip) == recording
            &&& a2.contains(ClipDaemonAction::TranscribeClip) == !recording
        }),
        ({
            let (r, a) = spec_clip_daemon_step(recording, overlay, ClipDaemonEvent::Shutdown);
            &&& !r
            &&& a.len() > 0
            &&& a.last() == ClipDaemonAction::Exit
            &&& a.contains(ClipDaemonAction::StopRecording) == recording
        }),
{
    let on = seq![ClipDaemonAction::ShowListening, ClipDaemonAction::BeepStart, ClipDaemonAction::StartRecording];
    let off = seq![
        ClipDaemonAction::ShowProcessing,
        ClipDaemonAction::StopRecording,
        ClipDaemonAction::BeepStop,
        ClipDaemonAction::TranscribeClip,
    ];
    assert(off[3] == ClipDaemonAction::TranscribeClip);
    assert(!on.contains(ClipDaemonAction::TranscribeClip)) by {
        assert forall|i: int| 0 <= i < on.len() implies on[i] != ClipDaemonAction::TranscribeClip by {}
    }
    let stop = seq![ClipDaemonAction::StopRecording, ClipDaemonAction::ClearBuffer, ClipDaemonAction::Exit];
    let quit = seq![ClipDaemonAction::ClearBuffer, ClipDaemonAction::Exit];
    assert(stop[0] == ClipDaemonAction::StopRecording);
    assert(!quit.contains(ClipDaemonAction::StopRecording)) by {
        assert forall|i: int| 0 <= i < quit.len() implies quit[i] != ClipDaemonAction::StopRecording by {}
    }
}

} // verus!
