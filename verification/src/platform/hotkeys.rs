//! Shortcut strings such as `SUPER,SHIFT,R`, parsed into Windows hotkey
//! modifiers and virtual-key codes.
use crate::text::{
    all_digits, chars_of, char_ascii_lower, eq_str, is_ascii_alnum, is_ascii_lower, parse_unsigned,
    parse_unsigned_vec, remove_char, remove_char_vec, replace_char, replace_char_vec, split_char,
    split_char_vec, starts_with, string_of, trim, trim_vec, upper, upper_vec, char_is_ascii_alnum,
    char_from_ascii, ascii_lower,
};
use vstd::prelude::*;

verus! {

/// `MOD_ALT` of the Win32 `RegisterHotKey` API.
pub const MOD_ALT: u32 = 0x0001;
/// `MOD_CONTROL` of the Win32 `RegisterHotKey` API.
pub const MOD_CONTROL: u32 = 0x0002;
/// `MOD_SHIFT` of the Win32 `RegisterHotKey` API.
pub const MOD_SHIFT: u32 = 0x0004;
/// `MOD_WIN` of the Win32 `RegisterHotKey` API.
pub const MOD_WIN: u32 = 0x0008;
/// `MOD_NOREPEAT` of the Win32 `RegisterHotKey` API.
pub const MOD_NOREPEAT: u32 = 0x4000;

/// A parsed shortcut such as `SUPER,SHIFT,R`.
#[derive(Debug, Clone, Copy, PartialEq, Eq, Structural)]
pub struct HotkeySpec {
    pub modifiers: u32,
    pub key: u32,
}

/// Why a shortcut string was refused.
#[derive(Debug, PartialEq, Eq)]
pub enum HotkeyError {
    /// The shortcut (given) names only modifiers.
    NoKey(String),
    /// The shortcut (given) names a key without any modifier.
    NoModifier(String),
    /// A key name (uppercased) that has no virtual-key code.
    UnsupportedKey(String),
}

impl HotkeyError {
    pub fn to_string(&self) -> (s: String)
        ensures
            s@ == match *self {
                HotkeyError::NoKey(spec) => "shortcut '"@ + spec@ + "' has no key, only modifiers"@,
                HotkeyError::NoModifier(spec) => "shortcut '"@ + spec@
                    + "' has no modifier — Windows would capture the bare key globally"@,
                HotkeyError::UnsupportedKey(name) => "unsupported key '"@ + name@
                    + "' in shortcut"@,
            },
    {
        match self {
            HotkeyError::NoKey(spec) => {
                let mut s = String::from_str("shortcut '");
                s.append(spec.as_str());
                s.append("' has no key, only modifiers");
                s
            },
            HotkeyError::NoModifier(spec) => {
                let mut s = String::from_str("shortcut '");
                s.append(spec.as_str());
                s.append("' has no modifier — Windows would capture the bare key globally");
                s
            },
            HotkeyError::UnsupportedKey(name) => {
                let mut s = String::from_str("unsupported key '");
                s.append(name.as_str());
                s.append("' in shortcut");
                s
            },
        }
    }
}

/// Virtual-key code of a named (uppercased) key.
pub open spec fn named_key(n: Seq<char>) -> Option<u32> {
    if n == "SPACE"@ {
        Some(0x20)
    } else if n == "ENTER"@ || n == "RETURN"@ {
        Some(0x0D)
    } else if n == "TAB"@ {
        Some(0x09)
    } else if n == "ESC"@ || n == "ESCAPE"@ {
        Some(0x1B)
    } else if n == "BACKSPACE"@ {
        Some(0x08)
    } else if n == "INSERT"@ {
        Some(0x2D)
    } else if n == "DELETE"@ || n == "DEL"@ {
        Some(0x2E)
    } else if n == "HOME"@ {
        Some(0x24)
    } else if n == "END"@ {
        Some(0x23)
    } else if n == "PAGEUP"@ || n == "PRIOR"@ {
        Some(0x21)
    } else if n == "PAGEDOWN"@ || n == "NEXT"@ {
        Some(0x22)
    } else if n == "UP"@ {
        Some(0x26)
    } else if n == "DOWN"@ {
        Some(0x28)
    } else if n == "LEFT"@ {
        Some(0x25)
    } else if n == "RIGHT"@ {
        Some(0x27)
    } else {
        None
    }
}

/// The ASCII uppercase of a character.
pub open spec fn ascii_upper(c: char) -> char {
    if is_ascii_lower(c) {
        ((c as u32) - 32) as char
    } else {
        c
    }
}

/// Virtual-key code of a key name: one ASCII letter or digit, `F1`–`F24`, or
/// one of the named keys.
pub open spec fn spec_virtual_key(n: Seq<char>) -> Option<u32> {
    if n.len() == 1 && (n[0] as u32) < 0x80 && is_ascii_alnum(n[0]) {
        Some(ascii_upper(n[0]) as u32)
    } else if starts_with(n, "F"@) && parse_unsigned(n.drop_first(), u32::MAX as nat) is Some
        && 1 <= parse_unsigned(n.drop_first(), u32::MAX as nat)->0 <= 24 {
        Some((0x70 + parse_unsigned(n.drop_first(), u32::MAX as nat)->0 - 1) as u32)
    } else {
        named_key(n)
    }
}

fn named_key_exec(n: &[char]) -> (r: Option<u32>)
    ensures
        r == named_key(n@),
{
    if eq_str(n, "SPACE") {
        Some(0x20)
    } else if eq_str(n, "ENTER") || eq_str(n, "RETURN") {
        Some(0x0D)
    } else if eq_str(n, "TAB") {
        Some(0x09)
    } else if eq_str(n, "ESC") || eq_str(n, "ESCAPE") {
        Some(0x1B)
    } else if eq_str(n, "BACKSPACE") {
        Some(0x08)
    } else if eq_str(n, "INSERT") {
        Some(0x2D)
    } else if eq_str(n, "DELETE") || eq_str(n, "DEL") {
        Some(0x2E)
    } else if eq_str(n, "HOME") {
        Some(0x24)
    } else if eq_str(n, "END") {
        Some(0x23)
    } else if eq_str(n, "PAGEUP") || eq_str(n, "PRIOR") {
        Some(0x21)
    } else if eq_str(n, "PAGEDOWN") || eq_str(n, "NEXT") {
        Some(0x22)
    } else if eq_str(n, "UP") {
        Some(0x26)
    } else if eq_str(n, "DOWN") {
        Some(0x28)
    } else if eq_str(n, "LEFT") {
        Some(0x25)
    } else if eq_str(n, "RIGHT") {
        Some(0x27)
    } else {
        None
    }
}

/// Virtual-key code of a key name, or `None` when the key is unsupported.
pub fn virtual_key(name: &[char]) -> (r: Option<u32>)
    ensures
        r == spec_virtual_key(name@),
{
    if name.len() == 1 && (name[0] as u32) < 0x80 && char_is_ascii_alnum(name[0]) {
        let c = name[0];
        let u: u32 = if 'a' <= c && c <= 'z' {
            (c as u32) - 32
        } else {
            c as u32
        };
        return Some(u);
    }
    if name.len() > 0 && name[0] == 'F' {
        let digits = crate::text::slice_vec(name, 1, name.len());
        proof {
            assert(digits@ =~= name@.drop_first());
            reveal_strlit("F");
            assert(name@.take(1) =~= "F"@);
        }
        match parse_unsigned_vec(&digits, u32::MAX as u64) {
            Some(f) => {
                if 1 <= f && f <= 24 {
                    return Some((0x70 + f - 1) as u32);
                }
            },
            None => {},
        }
    } else {
        proof {
            reveal_strlit("F");
            if starts_with(name@, "F"@) {
                assert(name@[0] == "F"@[0]);
            }
        }
    }
    named_key_exec(name)
}

/// Pieces of a shortcut string: `<` dropped, `>`, `+` and `,` all separate.
pub open spec fn hotkey_parts(s: Seq<char>) -> Seq<Seq<char>> {
    split_char(replace_char(replace_char(remove_char(s, '<'), '>', '+'), ',', '+'), '+')
}

/// Modifier flags and key read so far, or the first unsupported key name.
pub struct HotkeyScan {
    pub win: bool,
    pub shift: bool,
    pub ctrl: bool,
    pub alt: bool,
    pub key: Option<u32>,
    pub unsupported: Option<Seq<char>>,
}

pub open spec fn is_win_name(u: Seq<char>) -> bool {
    u == "SUPER"@ || u == "META"@ || u == "WIN"@ || u == "MOD"@ || u == "MOD4"@ || u == "CMD"@
}

pub open spec fn hotkey_scan(parts: Seq<Seq<char>>) -> HotkeyScan
    decreases parts.len(),
{
    if parts.len() == 0 {
        HotkeyScan { win: false, shift: false, ctrl: false, alt: false, key: None, unsupported: None }
    } else {
        let st = hotkey_scan(parts.drop_last());
        let p = trim(parts.last());
        let u = upper(p);
        if st.unsupported is Some || p.len() == 0 {
            st
        } else if is_win_name(u) {
            HotkeyScan { win: true, ..st }
        } else if u == "SHIFT"@ {
            HotkeyScan { shift: true, ..st }
        } else if u == "CTRL"@ || u == "CONTROL"@ {
            HotkeyScan { ctrl: true, ..st }
        } else if u == "ALT"@ {
            HotkeyScan { alt: true, ..st }
        } else {
            match spec_virtual_key(u) {
                Some(k) => HotkeyScan { key: Some(k), ..st },
                None => HotkeyScan { unsupported: Some(u), ..st },
            }
        }
    }
}

/// The modifier word: `MOD_NOREPEAT` plus one distinct bit per modifier.
pub open spec fn modifier_bits(st: HotkeyScan) -> u32 {
    (MOD_NOREPEAT + (if st.win {
        MOD_WIN
    } else {
        0
    }) + (if st.shift {
        MOD_SHIFT
    } else {
        0
    }) + (if st.ctrl {
        MOD_CONTROL
    } else {
        0
    }) + (if st.alt {
        MOD_ALT
    } else {
        0
    })) as u32
}

/// Outcome of parsing a shortcut: the spec, or why it was refused (the
/// refused key name, or whether the key or the modifiers were missing).
pub open spec fn spec_parse(s: Seq<char>) -> Result<HotkeySpec, (u8, Seq<char>)> {
    let st = hotkey_scan(hotkey_parts(s));
    if st.unsupported is Some {
        Err((2, st.unsupported->0))
    } else if st.key is None {
        Err((0, s))
    } else if !(st.win || st.shift || st.ctrl || st.alt) {
        Err((1, s))
    } else {
        Ok(HotkeySpec { modifiers: modifier_bits(st), key: st.key->0 })
    }
}

pub open spec fn error_view(e: HotkeyError) -> (u8, Seq<char>) {
    match e {
        HotkeyError::NoKey(s) => (0, s@),
        HotkeyError::NoModifier(s) => (1, s@),
        HotkeyError::UnsupportedKey(s) => (2, s@),
    }
}

/// Parse a shortcut string.
///
/// Accepts the compositor styles used in `.env` — `SUPER,R`, `Meta+Shift+R`
/// and GNOME's `<Super><Shift>r` — so one config value works everywhere.
pub fn parse(spec: &str) -> (r: Result<HotkeySpec, HotkeyError>)
    ensures
        match r {
            Ok(h) => spec_parse(spec@) == Ok::<HotkeySpec, (u8, Seq<char>)>(h),
            Err(e) => spec_parse(spec@) == Err::<HotkeySpec, (u8, Seq<char>)>(error_view(e)),
        },
{
    let v = chars_of(spec);
    let a = remove_char_vec(&v, '<');
    let b = replace_char_vec(&a, '>', '+');
    let c = replace_char_vec(&b, ',', '+');
    let parts = split_char_vec(&c, '+');
    let ghost ps = parts@.map_values(|w: Vec<char>| w@);
    let mut win = false;
    let mut shift = false;
    let mut ctrl = false;
    let mut alt = false;
    let mut key: Option<u32> = None;
    let mut i: usize = 0;
    while i < parts.len()
        invariant
            0 <= i <= parts@.len(),
            ps == parts@.map_values(|w: Vec<char>| w@),
            ps == hotkey_parts(spec@),
            hotkey_scan(ps.take(i as int)) == (HotkeyScan {
                win,
                shift,
                ctrl,
                alt,
                key,
                unsupported: None,
            }),
        decreases parts@.len() - i,
    {
        proof {
            assert(ps.take(i + 1).drop_last() =~= ps.take(i as int));
            assert(ps.take(i + 1).last() == parts@[i as int]@);
        }
        let p = trim_vec(&parts[i]);
        if p.len() > 0 {
            let u = upper_vec(&p);
            if eq_str(&u, "SUPER") || eq_str(&u, "META") || eq_str(&u, "WIN") || eq_str(&u, "MOD")
                || eq_str(&u, "MOD4") || eq_str(&u, "CMD") {
                win = true;
            } else if eq_str(&u, "SHIFT") {
                shift = true;
            } else if eq_str(&u, "CTRL") || eq_str(&u, "CONTROL") {
                ctrl = true;
            } else if eq_str(&u, "ALT") {
                alt = true;
            } else {
                match virtual_key(&u) {
                    Some(k) => {
                        key = Some(k);
                    },
                    None => {
                        proof {
                            lemma_scan_stops(ps, i as int + 1);
                        }
                        return Err(HotkeyError::UnsupportedKey(string_of(&u)));
                    },
                }
            }
        }
        i = i + 1;
    }
    proof {
        assert(ps.take(parts@.len() as int) =~= ps);
    }
    match key {
        None => Err(HotkeyError::NoKey(String::from_str(spec))),
        Some(k) => {
            if !(win || shift || ctrl || alt) {
                Err(HotkeyError::NoModifier(String::from_str(spec)))
            } else {
                let m: u32 = MOD_NOREPEAT + (if win {
                    MOD_WIN
                } else {
                    0
                }) + (if shift {
                    MOD_SHIFT
                } else {
                    0
                }) + (if ctrl {
                    MOD_CONTROL
                } else {
                    0
                }) + (if alt {
                    MOD_ALT
                } else {
                    0
                });
                Ok(HotkeySpec { modifiers: m, key: k })
            }
        },
    }
}

/// Once a key name is refused, later pieces change nothing.
proof fn lemma_scan_stops(ps: Seq<Seq<char>>, i: int)
    requires
        0 <= i <= ps.len(),
        hotkey_scan(ps.take(i)).unsupported is Some,
    ensures
        hotkey_scan(ps) == hotkey_scan(ps.take(i)),
    decreases ps.len() - i,
{
    if i == ps.len() {
        assert(ps.take(i) =~= ps);
    } else {
        assert(ps.take(i + 1).drop_last() =~= ps.take(i));
        lemma_scan_stops(ps, i + 1);
    }
}

} // verus!
