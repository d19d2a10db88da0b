//! Transcription errors and the request parameters sent to STT providers.
use crate::text::{
    views,
    append, chars_of, decimal, decimal_vec, eq_str, eq_vec, hex_digit, hex_digit_exec, is_ascii_lower,
    join, join_vec, lower, lower_vec, split_char, split_char_vec, string_of, trim, trim_vec,
};
use crate::word_store::MAX_WORD_LEN;
use crate::config::Config;
use crate::text_processing::{dictionary_views, preferred_vocabulary, spec_preferred_vocabulary};
use vstd::prelude::*;

pub mod online;

verus! {

/// Detailed error information from API responses.
#[derive(Debug)]
pub struct ApiErrorDetails {
    pub provider: String,
    pub status_code: Option<u16>,
    pub error_code: Option<String>,
    pub error_message: String,
    /// Raw response body, kept for debugging.
    pub raw_response: Option<String>,
}

/// Details about a network-level failure.
#[derive(Debug)]
pub struct NetworkErrorDetails {
    pub provider: String,
    pub error_type: String,
    pub error_message: String,
}

/// Unified error type for all transcription operations.
#[derive(Debug)]
pub enum TranscriptionError {
    AuthenticationFailed { provider: String, details: Option<String> },
    NetworkError(NetworkErrorDetails),
    FileTooLarge(usize),
    ApiError(ApiErrorDetails),
    JsonError(String),
    ConfigurationError(String),
    UnsupportedProvider(String),
}

/// An error taken by its value.
pub enum ErrorView {
    AuthenticationFailed { provider: Seq<char>, details: Option<Seq<char>> },
    NetworkError { provider: Seq<char>, error_type: Seq<char>, error_message: Seq<char> },
    FileTooLarge(nat),
    ApiError {
        provider: Seq<char>,
        status_code: Option<u16>,
        error_code: Option<Seq<char>>,
        error_message: Seq<char>,
        raw_response: Option<Seq<char>>,
    },
    JsonError(Seq<char>),
    ConfigurationError(Seq<char>),
    UnsupportedProvider(Seq<char>),
}

pub open spec fn opt_str_view(o: Option<String>) -> Option<Seq<char>> {
    match o {
        Some(s) => Some(s@),
        None => None,
    }
}

pub open spec fn error_view(e: TranscriptionError) -> ErrorView {
    match e {
        TranscriptionError::AuthenticationFailed { provider, details } => ErrorView::AuthenticationFailed {
            provider: provider@,
            details: opt_str_view(details),
        },
        TranscriptionError::NetworkError(d) => ErrorView::NetworkError {
            provider: d.provider@,
            error_type: d.error_type@,
            error_message: d.error_message@,
        },
        TranscriptionError::FileTooLarge(n) => ErrorView::FileTooLarge(n as nat),
        TranscriptionError::ApiError(d) => ErrorView::ApiError {
            provider: d.provider@,
            status_code: d.status_code,
            error_code: opt_str_view(d.error_code),
            error_message: d.error_message@,
            raw_response: opt_str_view(d.raw_response),
        },
        TranscriptionError::JsonError(m) => ErrorView::JsonError(m@),
        TranscriptionError::ConfigurationError(m) => ErrorView::ConfigurationError(m@),
        TranscriptionError::UnsupportedProvider(p) => ErrorView::UnsupportedProvider(p@),
    }
}

/// The message of an error, as it is displayed.
pub open spec fn error_message(e: TranscriptionError) -> Seq<char> {
    match e {
        TranscriptionError::AuthenticationFailed { provider, details } => match details {
            Some(d) => "Authentication failed with "@ + provider@ + ": "@ + d@,
            None => "Authentication failed with "@ + provider@,
        },
        TranscriptionError::NetworkError(d) => "Network error with "@ + d.provider@ + ": "@
            + d.error_type@ + " - "@ + d.error_message@,
        TranscriptionError::FileTooLarge(size) => "File too large: "@ + decimal(size as nat)
            + " bytes (max 25MB)"@,
        TranscriptionError::ApiError(d) => "API error with "@ + d.provider@ + (match d.status_code {
            Some(s) => " (HTTP "@ + decimal(s as nat) + ")"@,
            None => Seq::<char>::empty(),
        }) + (match d.error_code {
            Some(c) => " ["@ + c@ + "]"@,
            None => Seq::<char>::empty(),
        }) + ": "@ + d.error_message@,
        TranscriptionError::JsonError(m) => "JSON error: "@ + m@,
        TranscriptionError::ConfigurationError(m) => "Configuration error: "@ + m@,
        TranscriptionError::UnsupportedProvider(p) => "Unsupported provider: "@ + p@,
    }
}

impl TranscriptionError {
    /// The displayed message of the error.
    pub fn to_string(&self) -> (s: String)
        ensures
            s@ == error_message(*self),
    {
        match self {
            TranscriptionError::AuthenticationFailed { provider, details } => {
                let mut s = String::from_str("Authentication failed with ");
                s.append(provider.as_str());
                if let Some(d) = details {
                    s.append(": ");
                    s.append(d.as_str());
                }
                s
            },
            TranscriptionError::NetworkError(d) => {
                let mut s = String::from_str("Network error with ");
                s.append(d.provider.as_str());
                s.append(": ");
                s.append(d.error_type.as_str());
                s.append(" - ");
                s.append(d.error_message.as_str());
                s
            },
            TranscriptionError::FileTooLarge(size) => {
                let mut s = String::from_str("File too large: ");
                let digits = string_of(&decimal_vec(*size as u64));
                s.append(digits.as_str());
                s.append(" bytes (max 25MB)");
                s
            },
            TranscriptionError::ApiError(d) => {
                let mut s = String::from_str("API error with ");
                s.append(d.provider.as_str());
                if let Some(status) = d.status_code {
                    s.append(" (HTTP ");
                    let digits = string_of(&decimal_vec(status as u64));
                    s.append(digits.as_str());
                    s.append(")");
                }
                if let Some(code) = &d.error_code {
                    s.append(" [");
                    s.append(code.as_str());
                    s.append("]");
                }
                s.append(": ");
                s.append(d.error_message.as_str());
                s
            },
            TranscriptionError::JsonError(m) => {
                let mut s = String::from_str("JSON error: ");
                s.append(m.as_str());
                s
            },
            TranscriptionError::ConfigurationError(m) => {
                let mut s = String::from_str("Configuration error: ");
                s.append(m.as_str());
                s
            },
            TranscriptionError::UnsupportedProvider(p) => {
                let mut s = String::from_str("Unsupported provider: ");
                s.append(p.as_str());
                s
            },
        }
    }
}

/// Bytes that pass through percent-encoding untouched: `[A-Za-z0-9._~-]`.
pub open spec fn is_unreserved_byte(b: u8) -> bool {
    (48 <= b <= 57) || (65 <= b <= 90) || (97 <= b <= 122) || b == 45 || b == 95 || b == 46
        || b == 126
}

/// Percent-encoding of a byte string with uppercase hex digits.
pub open spec fn percent_encode(bytes: Seq<u8>) -> Seq<char>
    decreases bytes.len(),
{
    if bytes.len() == 0 {
        Seq::<char>::empty()
    } else {
        let b = bytes.last();
        percent_encode(bytes.drop_last()) + if is_unreserved_byte(b) {
            seq![(b as u32) as char]
        } else {
            seq!['%', hex_digit((b / 16) as nat), hex_digit((b % 16) as nat)]
        }
    }
}

/// The characters percent-encoding writes: ASCII letters and digits and
/// `-`, `_`, `.`, `~`, `%`.
pub open spec fn is_url_safe(c: char) -> bool {
    ('0' <= c <= '9') || ('A' <= c <= 'Z') || ('a' <= c <= 'z') || c == '-' || c == '_' || c == '.'
        || c == '~' || c == '%'
}

/// The value of a hexadecimal digit (0 for any other character).
pub open spec fn hex_value(c: char) -> nat {
    if '0' <= c <= '9' {
        (c as u32 - 48) as nat
    } else if 'A' <= c <= 'F' {
        (c as u32 - 55) as nat
    } else if 'a' <= c <= 'f' {
        (c as u32 - 87) as nat
    } else {
        0
    }
}

/// Percent-decoding: `%` and two hex digits give a byte, any other
/// character gives its own code (as a byte).
pub open spec fn percent_decode(s: Seq<char>) -> Seq<u8>
    decreases s.len(),
{
    if s.len() == 0 {
        Seq::<u8>::empty()
    } else if s[0] == '%' && s.len() >= 3 {
        seq![(hex_value(s[1]) * 16 + hex_value(s[2])) as u8] + percent_decode(s.skip(3))
    } else {
        seq![(s[0] as u32) as u8] + percent_decode(s.skip(1))
    }
}

proof fn lemma_decode_piece(b: u8, rest: Seq<char>)
    ensures
        percent_decode(
            (if is_unreserved_byte(b) {
                seq![(b as u32) as char]
            } else {
                seq!['%', hex_digit((b / 16) as nat), hex_digit((b % 16) as nat)]
            }) + rest,
        ) == seq![b] + percent_decode(rest),
{
    if is_unreserved_byte(b) {
        let s = seq![(b as u32) as char] + rest;
        assert(s.skip(1) =~= rest);
        assert(((b as u32) as char) as u32 == b);
    } else {
        let hi = (b / 16) as nat;
        let lo = (b % 16) as nat;
        let s = seq!['%', hex_digit(hi), hex_digit(lo)] + rest;
        assert(s.skip(3) =~= rest);
        assert(s[0] == '%');
        assert(hex_value(hex_digit(hi)) == hi);
        assert(hex_value(hex_digit(lo)) == lo);
        assert(hi * 16 + lo == b);
    }
}

proof fn lemma_decode_encoded(bytes: Seq<u8>, rest: Seq<char>)
    ensures
        percent_decode(percent_encode(bytes) + rest) == bytes + percent_decode(rest),
    decreases bytes.len(),
{
    if bytes.len() > 0 {
        let b = bytes.last();
        let piece = if is_unreserved_byte(b) {
            seq![(b as u32) as char]
        } else {
            seq!['%', hex_digit((b / 16) as nat), hex_digit((b % 16) as nat)]
        };
        assert(percent_encode(bytes) + rest =~= percent_encode(bytes.drop_last()) + (piece + rest));
        lemma_decode_encoded(bytes.drop_last(), piece + rest);
        lemma_decode_piece(b, rest);
        assert(bytes =~= bytes.drop_last() + seq![b]);
        assert(bytes.drop_last() + (seq![b] + percent_decode(rest)) =~= bytes + percent_decode(rest));
    } else {
        assert(percent_encode(bytes) + rest =~= rest);
        assert(bytes + percent_decode(rest) =~= percent_decode(rest));
    }
}

/// Percent-encoding writes only URL-safe characters, decodes back to the
/// bytes it was given, and leaves bytes that need no escaping as they are.
pub proof fn lemma_percent_encode_laws(bytes: Seq<u8>)
    ensures
        forall|i: int| 0 <= i < percent_encode(bytes).len() ==> is_url_safe(#[trigger] percent_encode(bytes)[i]),
        percent_decode(percent_encode(bytes)) == bytes,
        (forall|i: int| 0 <= i < bytes.len() ==> is_unreserved_byte(#[trigger] bytes[i]))
            ==> percent_encode(bytes) == bytes.map_values(|b: u8| (b as u32) as char),
    decreases bytes.len(),
{
    lemma_decode_encoded(bytes, Seq::<char>::empty());
    assert(percent_encode(bytes) + Seq::<char>::empty() =~= percent_encode(bytes));
    assert(bytes + Seq::<u8>::empty() =~= bytes);
    if bytes.len() > 0 {
        let b = bytes.last();
        let d = bytes.drop_last();
        lemma_percent_encode_laws(d);
        assert(is_url_safe(hex_digit((b / 16) as nat)));
        assert(is_url_safe(hex_digit((b % 16) as nat)));
        assert forall|i: int| 0 <= i < percent_encode(bytes).len() implies is_url_safe(
            #[trigger] percent_encode(bytes)[i],
        ) by {
            if i < percent_encode(d).len() {
                assert(percent_encode(bytes)[i] == percent_encode(d)[i]);
            }
        }
        if forall|i: int| 0 <= i < bytes.len() ==> is_unreserved_byte(#[trigger] bytes[i]) {
            assert(is_unreserved_byte(bytes[bytes.len() - 1]));
            assert forall|i: int| 0 <= i < d.len() implies is_unreserved_byte(#[trigger] d[i]) by {
                assert(d[i] == bytes[i]);
            }
            assert(percent_encode(bytes) =~= bytes.map_values(|b: u8| (b as u32) as char));
        }
    }
}

/// Encoding a model name: URL-safe output that decodes to the name's UTF-8
/// bytes.
pub proof fn lemma_encode_model_laws(model: Seq<char>)
    ensures
        ({
            let o = percent_encode(vstd::utf8::encode_utf8(model));
            &&& forall|i: int| 0 <= i < o.len() ==> is_url_safe(#[trigger] o[i])
            &&& percent_decode(o) == vstd::utf8::encode_utf8(model)
        }),
{
    lemma_percent_encode_laws(vstd::utf8::encode_utf8(model));
}

fn percent_encode_bytes(bytes: &[u8]) -> (r: Vec<char>)
    ensures
        r@ == percent_encode(bytes@),
{
    let mut out: Vec<char> = Vec::new();
    let mut i: usize = 0;
    while i < bytes.len()
        invariant
            0 <= i <= bytes@.len(),
            out@ == percent_encode(bytes@.take(i as int)),
        decreases bytes@.len() - i,
    {
        let b = bytes[i];
        proof {
            assert(bytes@.take(i + 1).drop_last() =~= bytes@.take(i as int));
        }
        if (48 <= b && b <= 57) || (65 <= b && b <= 90) || (97 <= b && b <= 122) || b == 45 || b
            == 95 || b == 46 || b == 126 {
            let c = b as char;
            out.push(c);
            proof {
                assert(out@ =~= percent_encode(bytes@.take(i as int)) + seq![(b as u32) as char]);
            }
        } else {
            out.push('%');
            out.push(hex_digit_exec(b / 16));
            out.push(hex_digit_exec(b % 16));
            proof {
                assert(out@ =~= percent_encode(bytes@.take(i as int)) + seq![
                    '%',
                    hex_digit((b / 16) as nat),
                    hex_digit((b % 16) as nat),
                ]);
            }
        }
        i = i + 1;
    }
    proof {
        assert(bytes@.take(bytes@.len() as int) =~= bytes@);
    }
    out
}

/// Percent-encode a model id for use as a realtime query parameter.
///
/// Model ids in practice are `[A-Za-z0-9._~-]`, which pass through untouched;
/// every other byte of the UTF-8 encoding is `%XX`-encoded.
pub fn encode_model(model: &str) -> (r: String)
    ensures
        r@ == percent_encode(vstd::utf8::encode_utf8(model@)),
{
    let bytes = model.as_bytes();
    let v = percent_encode_bytes(bytes);
    string_of(&v)
}

/// `[a-z-]{2,12}` with no empty `-`-separated segment.
pub open spec fn language_code_valid(l: Seq<char>) -> bool {
    &&& 2 <= l.len() <= 12
    &&& forall|i: int| 0 <= i < l.len() ==> is_ascii_lower(#[trigger] l[i]) || l[i] == '-'
    &&& forall|i: int|
        0 <= i < split_char(l, '-').len() ==> (#[trigger] split_char(l, '-')[i]).len() > 0
}

pub open spec fn spec_sanitize_language(raw: Seq<char>) -> Option<Seq<char>> {
    let lang = lower(trim(raw));
    if lang.len() == 0 || lang == "auto"@ {
        None
    } else if language_code_valid(lang) {
        Some(lang)
    } else {
        None
    }
}

/// Normalize a configured transcription language to a realtime query value.
///
/// Returns `None` for dictate's `auto` sentinel (empty or `auto`) and for
/// codes outside the allow-list; otherwise the lowercased code.
pub fn sanitize_language(raw: &str) -> (r: Option<String>)
    ensures
        match r {
            Some(s) => spec_sanitize_language(raw@) == Some(s@),
            None => spec_sanitize_language(raw@) is None,
        },
{
    let raw_chars = chars_of(raw);
    let t = trim_vec(&raw_chars);
    let lang = lower_vec(&t);
    if lang.len() == 0 || eq_str(&lang, "auto") {
        return None;
    }
    if lang.len() < 2 || lang.len() > 12 {
        proof {
            assert(!language_code_valid(lang@));
        }
        return None;
    }
    let mut i: usize = 0;
    while i < lang.len()
        invariant
            0 <= i <= lang@.len(),
            lang@ == lower(trim(raw@)),
            2 <= lang@.len() <= 12,
            lang@ != "auto"@,
            forall|k: int| 0 <= k < i ==> is_ascii_lower(#[trigger] lang@[k]) || lang@[k] == '-',
        decreases lang@.len() - i,
    {
        let c = lang[i];
        if !(('a' <= c && c <= 'z') || c == '-') {
            proof {
                assert(!(is_ascii_lower(lang@[i as int]) || lang@[i as int] == '-'));
                assert(!language_code_valid(lang@));
            }
            return None;
        }
        i = i + 1;
    }
    let parts = split_char_vec(&lang, '-');
    let ghost ps = parts@.map_values(|w: Vec<char>| w@);
    let mut j: usize = 0;
    while j < parts.len()
        invariant
            0 <= j <= parts@.len(),
            ps == parts@.map_values(|w: Vec<char>| w@),
            ps == split_char(lang@, '-'),
            lang@ == lower(trim(raw@)),
            2 <= lang@.len() <= 12,
            lang@ != "auto"@,
            forall|k: int| 0 <= k < lang@.len() ==> is_ascii_lower(#[trigger] lang@[k]) || lang@[k] == '-',
            forall|k: int| 0 <= k < j ==> (#[trigger] ps[k]).len() > 0,
        decreases parts@.len() - j,
    {
        if parts[j].len() == 0 {
            proof {
                assert(ps[j as int].len() == 0);
                assert(!language_code_valid(lang@));
            }
            return None;
        }
        j = j + 1;
    }
    Some(string_of(&lang))
}

/// Most STT hints sent with one request.
pub const MAX_STT_HINTS: usize = 80;

/// A hint term breaks a request query or list when it holds one of these.
pub open spec fn is_hint_breaker(c: char) -> bool {
    c == ',' || c == '&' || c == '=' || c == '%' || c == '?' || (c as u32) < 0x20 || c == '\x7f'
}

pub open spec fn hint_ok(t: Seq<char>) -> bool {
    &&& t.len() > 0
    &&& t.len() <= MAX_WORD_LEN
    &&& forall|i: int| 0 <= i < t.len() ==> !is_hint_breaker(#[trigger] t[i])
}

/// Hints kept from `terms`, with the lowercased forms already seen.
pub open spec fn hint_state(terms: Seq<Seq<char>>) -> (Seq<Seq<char>>, Seq<Seq<char>>)
    decreases terms.len(),
{
    if terms.len() == 0 {
        (seq![], seq![])
    } else {
        let (seen, out) = hint_state(terms.drop_last());
        let t = trim(terms.last());
        if out.len() >= MAX_STT_HINTS || !hint_ok(t) || seen.contains(lower(t)) {
            (seen, out)
        } else {
            (seen.push(lower(t)), out.push(t))
        }
    }
}

pub open spec fn spec_stt_hint_terms(terms: Seq<Seq<char>>) -> Seq<Seq<char>> {
    hint_state(terms).1
}

fn contains_seq(v: &Vec<Vec<char>>, x: &[char]) -> (b: bool)
    ensures
        b == v@.map_values(|w: Vec<char>| w@).contains(x@),
{
    let ghost vs = v@.map_values(|w: Vec<char>| w@);
    let mut i: usize = 0;
    while i < v.len()
        invariant
            0 <= i <= v@.len(),
            vs == v@.map_values(|w: Vec<char>| w@),
            forall|k: int| 0 <= k < i ==> vs[k] != x@,
        decreases v@.len() - i,
    {
        if eq_vec(&v[i], x) {
            proof {
                assert(vs[i as int] == x@);
            }
            return true;
        }
        i = i + 1;
    }
    false
}

fn hint_ok_exec(t: &[char]) -> (b: bool)
    ensures
        b == hint_ok(t@),
{
    if t.len() == 0 || t.len() > MAX_WORD_LEN {
        return false;
    }
    let mut i: usize = 0;
    while i < t.len()
        invariant
            0 <= i <= t@.len(),
            forall|k: int| 0 <= k < i ==> !is_hint_breaker(#[trigger] t@[k]),
        decreases t@.len() - i,
    {
        let c = t[i];
        if c == ',' || c == '&' || c == '=' || c == '%' || c == '?' || (c as u32) < 0x20 || c
            == '\x7f' {
            return false;
        }
        i = i + 1;
    }
    true
}

fn hint_terms_chars(terms: &[String]) -> (r: Vec<Vec<char>>)
    ensures
        r@.map_values(|w: Vec<char>| w@) == spec_stt_hint_terms(views(terms@)),
{
    let ghost ts = views(terms@);
    let mut seen: Vec<Vec<char>> = Vec::new();
    let mut out: Vec<Vec<char>> = Vec::new();
    let mut i: usize = 0;
    while i < terms.len()
        invariant
            0 <= i <= terms@.len(),
            ts == views(terms@),
            (seen@.map_values(|w: Vec<char>| w@), out@.map_values(|w: Vec<char>| w@))
                == hint_state(ts.take(i as int)),
        decreases terms@.len() - i,
    {
        proof {
            assert(ts.take(i + 1).drop_last() =~= ts.take(i as int));
            assert(ts.take(i + 1).last() == terms@[i as int]@);
        }
        let raw = chars_of(terms[i].as_str());
        let t = trim_vec(&raw);
        if out.len() < MAX_STT_HINTS && hint_ok_exec(&t) {
            let key = lower_vec(&t);
            if !contains_seq(&seen, &key) {
                seen.push(key);
                out.push(t);
                proof {
                    let prev = hint_state(ts.take(i as int));
                    assert(seen@.map_values(|w: Vec<char>| w@) =~= prev.0.push(lower(trim(ts[i as int]))));
                    assert(out@.map_values(|w: Vec<char>| w@) =~= prev.1.push(trim(ts[i as int])));
                }
            }
        }
        i = i + 1;
    }
    proof {
        assert(ts.take(terms@.len() as int) =~= ts);
    }
    out
}

/// Dictionary terms safe to send as STT hints: trimmed, non-empty, at most
/// `MAX_WORD_LEN` characters, free of commas and query-breaking characters,
/// first spelling of each lowercase form, at most `MAX_STT_HINTS` of them.
pub fn stt_hint_terms(terms: &[String]) -> (r: Vec<String>)
    ensures
        views(r@) == spec_stt_hint_terms(views(terms@)),
{
    let hints = hint_terms_chars(terms);
    let ghost hs = hints@.map_values(|w: Vec<char>| w@);
    let mut out: Vec<String> = Vec::new();
    let mut i: usize = 0;
    while i < hints.len()
        invariant
            0 <= i <= hints@.len(),
            hs == hints@.map_values(|w: Vec<char>| w@),
            views(out@) == hs.take(i as int),
        decreases hints@.len() - i,
    {
        let s = string_of(&hints[i]);
        let ghost old_out = out@;
        out.push(s);
        proof {
            assert(out@ == old_out.push(s));
            assert(views(out@) =~= views(old_out).push(s@));
            assert(hs.take(i + 1) =~= hs.take(i as int).push(hs[i as int]));
        }
        i = i + 1;
    }
    proof {
        assert(hs.take(hints@.len() as int) =~= hs);
    }
    out
}

pub open spec fn spec_whisper_prompt(terms: Seq<Seq<char>>) -> Option<Seq<char>> {
    let hints = spec_stt_hint_terms(terms);
    if hints.len() == 0 {
        None
    } else {
        Some(join(hints, ", "@))
    }
}

/// The hint terms as one comma-separated prompt, or `None` when there are none.
pub fn whisper_prompt(terms: &[String]) -> (r: Option<String>)
    ensures
        match r {
            Some(s) => spec_whisper_prompt(views(terms@)) == Some(s@),
            None => spec_whisper_prompt(views(terms@)) is None,
        },
{
    let hints = hint_terms_chars(terms);
    if hints.len() == 0 {
        None
    } else {
        let sep = chars_of(", ");
        Some(string_of(&join_vec(&hints, &sep)))
    }
}

/// The `&keyterm=` query parameters for a list of hints.
pub open spec fn keyterm_params(hints: Seq<Seq<char>>) -> Seq<char>
    decreases hints.len(),
{
    if hints.len() == 0 {
        Seq::<char>::empty()
    } else {
        keyterm_params(hints.drop_last()) + "&keyterm="@ + percent_encode(
            vstd::utf8::encode_utf8(hints.last()),
        )
    }
}

/// Appends one `&keyterm=<hint>` per STT hint term to a Deepgram URL.
pub fn append_deepgram_keyterms(url: &mut String, terms: &[String])
    ensures
        final(url)@ == old(url)@ + keyterm_params(spec_stt_hint_terms(views(terms@))),
{
    let hints = stt_hint_terms(terms);
    let ghost hs = views(hints@);
    let mut i: usize = 0;
    proof {
        assert(hs.take(0) =~= Seq::<Seq<char>>::empty());
        assert(url@ =~= old(url)@ + keyterm_params(hs.take(0)));
    }
    while i < hints.len()
        invariant
            0 <= i <= hints@.len(),
            hs == views(hints@),
            url@ == old(url)@ + keyterm_params(hs.take(i as int)),
        decreases hints@.len() - i,
    {
        proof {
            assert(hs.take(i + 1).drop_last() =~= hs.take(i as int));
            assert(hs.take(i + 1).last() == hints@[i as int]@);
        }
        url.append("&keyterm=");
        let enc = encode_model(hints[i].as_str());
        url.append(enc.as_str());
        proof {
            assert(url@ =~= old(url)@ + keyterm_params(hs.take(i + 1)));
        }
        i = i + 1;
    }
    proof {
        assert(hs.take(hints@.len() as int) =~= hs);
    }
}

// ───────────────────────── providers ─────────────────────────

/// Chooses the speech-to-text provider and its options from the configuration.
pub struct TranscriptionFactory;

/// The options of an online provider, taken by value.
pub struct OptionsView {
    pub provider_name: Seq<char>,
    pub api_key: Seq<char>,
    pub timeout_seconds: u64,
    pub max_retries: u32,
    pub model: Seq<char>,
    pub base_url: Seq<char>,
    pub auth_style: online::AuthStyle,
    pub dialect: online::ApiDialect,
    pub vocabulary: Seq<Seq<char>>,
}

pub open spec fn options_view(o: online::OnlineProviderOptions) -> OptionsView {
    OptionsView {
        provider_name: o.provider_name@,
        api_key: o.api_key@,
        timeout_seconds: o.timeout_seconds,
        max_retries: o.max_retries,
        model: o.model@,
        base_url: o.base_url@,
        auth_style: o.auth_style,
        dialect: o.dialect,
        vocabulary: views(o.vocabulary@),
    }
}

pub open spec fn or_default(o: Option<String>, default: Seq<char>) -> Seq<char> {
    match o {
        Some(s) => s@,
        None => default,
    }
}

/// The provider's options, or a configuration error when its key is unset.
pub open spec fn spec_provider_opts(
    name: Seq<char>,
    key: Option<String>,
    model: Seq<char>,
    base_url: Seq<char>,
    auth_style: online::AuthStyle,
    dialect: online::ApiDialect,
    c: Config,
) -> Result<OptionsView, ErrorView> {
    match key {
        None => Err(ErrorView::ConfigurationError(name + " API key not found"@)),
        Some(k) => Ok(
            OptionsView {
                provider_name: name,
                api_key: k@,
                timeout_seconds: c.transcription_timeout_seconds,
                max_retries: c.transcription_max_retries,
                model,
                base_url,
                auth_style,
                dialect,
                vocabulary: spec_preferred_vocabulary(
                    views(c.text_processing.preferred_words@),
                    dictionary_views(c.text_processing.dictionary@),
                ),
            },
        ),
    }
}

/// Mistral and Groq speak the OpenAI-compatible dialect with a bearer key;
/// Deepgram has its own dialect and a token key. Base URLs default to each
/// provider's public endpoint.
pub open spec fn spec_online_options(provider_type: Seq<char>, c: Config) -> Result<
    OptionsView,
    ErrorView,
> {
    let p = lower(provider_type);
    if p == "mistral"@ {
        spec_provider_opts(
            "Mistral"@,
            c.mistral_api_key,
            c.mistral_model@,
            or_default(c.mistral_base_url, "https://api.mistral.ai/v1"@),
            online::AuthStyle::Bearer,
            online::ApiDialect::OpenAiCompatible,
            c,
        )
    } else if p == "groq"@ {
        spec_provider_opts(
            "Groq"@,
            c.groq_api_key,
            c.groq_model@,
            or_default(c.groq_base_url, "https://api.groq.com/openai/v1"@),
            online::AuthStyle::Bearer,
            online::ApiDialect::OpenAiCompatible,
            c,
        )
    } else if p == "deepgram"@ {
        spec_provider_opts(
            "Deepgram"@,
            c.deepgram_api_key,
            c.deepgram_model@,
            or_default(c.deepgram_base_url, "https://api.deepgram.com"@),
            online::AuthStyle::Token,
            online::ApiDialect::Deepgram,
            c,
        )
    } else {
        Err(ErrorView::UnsupportedProvider(provider_type))
    }
}

/// The providers' choice: the online ones get their options; `local` is not
/// built into this program; anything else is unsupported.
pub open spec fn spec_provider_options(provider_type: Seq<char>, c: Config) -> Result<
    OptionsView,
    ErrorView,
> {
    if lower(provider_type) == "local"@ {
        Err(
            ErrorView::ConfigurationError(
                "Local transcription is not compiled in. Rebuild with `cargo build --features local`."@,
            ),
        )
    } else {
        spec_online_options(provider_type, c)
    }
}

pub open spec fn options_result_view(r: Result<online::OnlineProviderOptions, TranscriptionError>) -> Result<
    OptionsView,
    ErrorView,
> {
    match r {
        Ok(o) => Ok(options_view(o)),
        Err(e) => Err(error_view(e)),
    }
}

fn copy_opt(o: &Option<String>) -> (r: Option<String>)
    ensures
        opt_str_view(r) == opt_str_view(*o),
{
    match o {
        Some(s) => Some(String::from_str(s.as_str())),
        None => None,
    }
}

fn str_or(o: &Option<String>, default: &str) -> (r: String)
    ensures
        r@ == or_default(*o, default@),
{
    match o {
        Some(s) => String::from_str(s.as_str()),
        None => String::from_str(default),
    }
}

impl TranscriptionFactory {
    fn provider_opts(
        provider_name: &'static str,
        api_key: Option<String>,
        model: String,
        base_url: String,
        auth_style: online::AuthStyle,
        dialect: online::ApiDialect,
        config: &Config,
    ) -> (r: Result<online::OnlineProviderOptions, TranscriptionError>)
        ensures
            options_result_view(r) == spec_provider_opts(
                provider_name@,
                api_key,
                model@,
                base_url@,
                auth_style,
                dialect,
                *config,
            ),
    {
        let api_key = match api_key {
            Some(k) => k,
            None => {
                let mut m = String::from_str(provider_name);
                m.append(" API key not found");
                return Err(TranscriptionError::ConfigurationError(m));
            },
        };
        Ok(
            online::OnlineProviderOptions {
                provider_name,
                api_key,
                timeout_seconds: config.transcription_timeout_seconds,
                max_retries: config.transcription_max_retries,
                model,
                base_url,
                auth_style,
                dialect,
                vocabulary: preferred_vocabulary(&config.text_processing),
            },
        )
    }

    /// The options of an online provider (`mistral`, `groq` or `deepgram`,
    /// in any case).
    pub fn create_online_options(provider_type: &str, config: &Config) -> (r: Result<
        online::OnlineProviderOptions,
        TranscriptionError,
    >)
        ensures
            options_result_view(r) == spec_online_options(provider_type@, *config),
    {
        let p = lower_vec(&chars_of(provider_type));
        if eq_str(&p, "mistral") {
            Self::provider_opts(
                "Mistral",
                copy_opt(&config.mistral_api_key),
                String::from_str(config.mistral_model.as_str()),
                str_or(&config.mistral_base_url, "https://api.mistral.ai/v1"),
                online::AuthStyle::Bearer,
                online::ApiDialect::OpenAiCompatible,
                config,
            )
        } else if eq_str(&p, "groq") {
            Self::provider_opts(
                "Groq",
                copy_opt(&config.groq_api_key),
                String::from_str(config.groq_model.as_str()),
                str_or(&config.groq_base_url, "https://api.groq.com/openai/v1"),
                online::AuthStyle::Bearer,
                online::ApiDialect::OpenAiCompatible,
                config,
            )
        } else if eq_str(&p, "deepgram") {
            Self::provider_opts(
                "Deepgram",
                copy_opt(&config.deepgram_api_key),
                String::from_str(config.deepgram_model.as_str()),
                str_or(&config.deepgram_base_url, "https://api.deepgram.com"),
                online::AuthStyle::Token,
                online::ApiDialect::Deepgram,
                config,
            )
        } else {
            Err(TranscriptionError::UnsupportedProvider(String::from_str(provider_type)))
        }
    }

    /// The provider a configuration asks for, as the options the caller
    /// builds its HTTP client from.
    pub fn create_provider_options(provider_type: &str, config: &Config) -> (r: Result<
        online::OnlineProviderOptions,
        TranscriptionError,
    >)
        ensures
            options_result_view(r) == spec_provider_options(provider_type@, *config),
    {
        let p = lower_vec(&chars_of(provider_type));
        if eq_str(&p, "local") {
            return Err(
                TranscriptionError::ConfigurationError(
                    String::from_str(
                        "Local transcription is not compiled in. Rebuild with `cargo build --features local`.",
                    ),
                ),
            );
        }
        Self::create_online_options(provider_type, config)
    }
}

} // verus!
