//! Out-of-band control of a running daemon: start/stop recording, shut down.
//!
//! On Unix this is SIGUSR1/SIGTERM delivered by `pkill -f`; on Windows each
//! daemon serves a named pipe. This module holds the addressing and the
//! message-to-command decisions; delivering them is I/O.
use crate::text::{chars_of, eq_str};
use crate::text::views;
use vstd::prelude::*;

verus! {

/// How the user toggles a running daemon, phrased for Unix.
pub const TOGGLE_HINT: &'static str = "Send SIGUSR1";

/// What a control message asks the daemon to do.
#[derive(Debug, Clone, Copy, PartialEq, Eq, Structural)]
pub enum ControlEvent {
    /// Start recording, or stop and transcribe if already recording.
    Toggle,
    /// Wind down and exit.
    Shutdown,
}

/// Which long-running dictate process a message is addressed to.
#[derive(Debug, Clone, Copy, PartialEq, Eq, Structural)]
pub enum Slot {
    /// `dictate --daemon` with no explicit mode.
    Main,
    /// `dictate --daemon --mode live`
    Live,
    /// `dictate --daemon --mode smart`
    Smart,
    /// The Windows hotkey agent (`dictate hotkeys`).
    Hotkeys,
}

pub open spec fn slot_name(slot: Slot) -> Seq<char> {
    match slot {
        Slot::Main => "main"@,
        Slot::Live => "live"@,
        Slot::Smart => "smart"@,
        Slot::Hotkeys => "hotkeys"@,
    }
}

pub open spec fn slot_pattern(slot: Slot) -> Seq<char> {
    match slot {
        Slot::Main => "[d]ictate --daemon"@,
        Slot::Live => "[d]ictate --daemon --mode live"@,
        Slot::Smart => "[d]ictate --daemon --mode smart"@,
        Slot::Hotkeys => "[d]ictate hotkeys"@,
    }
}

impl Slot {
    /// Names the Windows control pipe.
    pub fn as_str(self) -> (s: &'static str)
        ensures
            s@ == slot_name(self),
    {
        match self {
            Slot::Main => "main",
            Slot::Live => "live",
            Slot::Smart => "smart",
            Slot::Hotkeys => "hotkeys",
        }
    }

    /// Slot a daemon started with `--mode <mode>` listens on.
    pub fn from_mode(mode: Option<&str>) -> (s: Slot)
        ensures
            s == match mode {
                Some(m) => if m@ == "live"@ {
                    Slot::Live
                } else if m@ == "smart"@ {
                    Slot::Smart
                } else {
                    Slot::Main
                },
                None => Slot::Main,
            },
    {
        match mode {
            Some(m) => {
                let v = chars_of(m);
                if eq_str(&v, "live") {
                    Slot::Live
                } else if eq_str(&v, "smart") {
                    Slot::Smart
                } else {
                    Slot::Main
                }
            },
            None => Slot::Main,
        }
    }

    /// `pgrep -f` pattern matching this slot's daemon. The bracket keeps pgrep
    /// from matching its own command line.
    pub fn process_pattern(self) -> (s: String)
        ensures
            s@ == slot_pattern(self),
    {
        match self {
            Slot::Main => String::from_str("[d]ictate --daemon"),
            Slot::Live => String::from_str("[d]ictate --daemon --mode live"),
            Slot::Smart => String::from_str("[d]ictate --daemon --mode smart"),
            Slot::Hotkeys => String::from_str("[d]ictate hotkeys"),
        }
    }
}

/// Name of the Windows control pipe of a slot.
pub fn pipe_name(slot: Slot) -> (s: String)
    ensures
        s@ == "\\\\.\\pipe\\dictate-"@ + slot_name(slot),
{
    let mut s = String::from_str("\\\\.\\pipe\\dictate-");
    s.append(slot.as_str());
    s
}

/// The command that delivers a control message to the daemon on a slot
/// (Unix): `ping` probes with `pgrep`, `toggle` and `shutdown` signal it with
/// `pkill`. An unknown message is refused.
pub open spec fn spec_send_command(slot: Slot, message: Seq<char>) -> Option<Seq<Seq<char>>> {
    if message == "ping"@ {
        Some(seq!["pgrep"@, "-f"@, slot_pattern(slot)])
    } else if message == "toggle"@ {
        Some(seq!["pkill"@, "-f"@, "--signal"@, "SIGUSR1"@, slot_pattern(slot)])
    } else if message == "shutdown"@ {
        Some(seq!["pkill"@, "-f"@, "--signal"@, "SIGTERM"@, slot_pattern(slot)])
    } else {
        None
    }
}

/// Argv delivering `message` to `slot`; `Err` names an unknown message.
pub fn send_command(slot: Slot, message: &str) -> (r: Result<Vec<String>, String>)
    ensures
        match r {
            Ok(v) => spec_send_command(slot, message@) == Some(views(v@)),
            Err(m) => spec_send_command(slot, message@) is None && m@
                == "unknown control message '"@ + message@ + "'"@,
        },
{
    let m = chars_of(message);
    let pattern = slot.process_pattern();
    let mut v: Vec<String> = Vec::new();
    if eq_str(&m, "ping") {
        v.push(String::from_str("pgrep"));
        v.push(String::from_str("-f"));
        v.push(pattern);
        proof {
            assert(views(v@) =~= seq!["pgrep"@, "-f"@, slot_pattern(slot)]);
        }
        return Ok(v);
    }
    let signal = if eq_str(&m, "toggle") {
        "SIGUSR1"
    } else if eq_str(&m, "shutdown") {
        "SIGTERM"
    } else {
        let mut e = String::from_str("unknown control message '");
        e.append(message);
        e.append("'");
        return Err(e);
    };
    v.push(String::from_str("pkill"));
    v.push(String::from_str("-f"));
    v.push(String::from_str("--signal"));
    v.push(String::from_str(signal));
    v.push(pattern);
    proof {
        assert(views(v@) =~= seq!["pkill"@, "-f"@, "--signal"@, signal@, slot_pattern(slot)]);
    }
    Ok(v)
}

} // verus!
