//! What the recording pill is told: its state names and the caption shown.
//! The socket and the JSON datagrams are handled by the program around the
//! library.
use crate::text::chars_of;
use vstd::prelude::*;

verus! {

/// What the pill shows.
#[derive(Debug, Clone, Copy, PartialEq, Eq, Structural)]
pub enum OverlayState {
    Idle,
    Listening,
    Processing,
}

pub open spec fn state_name(s: OverlayState) -> Seq<char> {
    match s {
        OverlayState::Idle => "idle"@,
        OverlayState::Listening => "listening"@,
        OverlayState::Processing => "processing"@,
    }
}

impl OverlayState {
    /// The state's name on the wire (lowercase).
    pub fn as_str(self) -> (s: &'static str)
        ensures
            s@ == state_name(self),
    {
        match self {
            OverlayState::Idle => "idle",
            OverlayState::Listening => "listening",
            OverlayState::Processing => "processing",
        }
    }
}

/// Characters of an in-progress caption that the pill shows.
pub const PREVIEW_CHARS: usize = 120;

/// The caption for an in-progress transcript: its first 120 characters.
pub fn preview_caption(text: &str) -> (r: String)
    ensures
        r@ == (if text@.len() <= PREVIEW_CHARS {
            text@
        } else {
            text@.take(PREVIEW_CHARS as int)
        }),
{
    let v = chars_of(text);
    if v.len() <= PREVIEW_CHARS {
        return String::from_str(text);
    }
    let head = crate::text::slice_vec(&v, 0, PREVIEW_CHARS);
    crate::text::string_of(&head)
}

} // verus!
