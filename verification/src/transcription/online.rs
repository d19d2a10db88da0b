//! Speech-to-text over a REST API: the request each provider expects, the
//! retry schedule, and what a response means.
use super::{error_view, ApiErrorDetails, ErrorView, TranscriptionError};
use crate::json::{json_array_at, json_at, json_has, json_is_array, json_query, json_str};
use crate::text::{chars_of, eq_ignore_ascii_case, string_of, vec_eq_ignore_ascii_case};
use vstd::prelude::*;

verus! {

/// Authentication style for API requests.
#[derive(Debug, Clone, Copy, PartialEq, Eq, Structural)]
pub enum AuthStyle {
    /// `Authorization: Bearer <key>` (Mistral, Groq).
    Bearer,
    /// `Authorization: Token <key>` (Deepgram).
    Token,
}

/// Request and response shape of the upstream API.
#[derive(Debug, Clone, Copy, PartialEq, Eq, Structural)]
pub enum ApiDialect {
    /// `POST {base}/audio/transcriptions`, multipart form, `{"text": ...}`.
    OpenAiCompatible,
    /// `POST {base}/v1/listen?model=..`, raw audio body, the transcript at
    /// `results.channels[0].alternatives[0].transcript`.
    Deepgram,
}

/// Options of an online transcription provider.
pub struct OnlineProviderOptions {
    pub provider_name: &'static str,
    pub api_key: String,
    pub timeout_seconds: u64,
    pub max_retries: u32,
    pub model: String,
    pub base_url: String,
    pub auth_style: AuthStyle,
    pub dialect: ApiDialect,
    /// Terms the user cares about.
    pub vocabulary: Vec<String>,
}

/// Largest audio upload, in bytes (25 MiB).
pub const MAX_FILE_SIZE: usize = 26214400;

// ───────────────────────── requests ─────────────────────────

/// `trim_end_matches('/')`.
pub open spec fn trim_end_slashes(s: Seq<char>) -> Seq<char>
    decreases s.len(),
{
    if s.len() > 0 && s.last() == '/' {
        trim_end_slashes(s.drop_last())
    } else {
        s
    }
}

pub fn trim_end_slashes_vec(v: &[char]) -> (r: Vec<char>)
    ensures
        r@ == trim_end_slashes(v@),
{
    let mut n = v.len();
    proof {
        assert(v@.take(n as int) =~= v@);
    }
    while n > 0 && v[n - 1] == '/'
        invariant
            0 <= n <= v@.len(),
            trim_end_slashes(v@.take(n as int)) == trim_end_slashes(v@),
        decreases n,
    {
        proof {
            assert(v@.take(n as int).drop_last() =~= v@.take(n - 1));
        }
        n = n - 1;
    }
    crate::text::slice_vec(v, 0, n)
}

/// A language to pass on: anything but absent or `auto` (any case).
pub open spec fn explicit_language(language: Option<Seq<char>>) -> Option<Seq<char>> {
    match language {
        Some(l) => if eq_ignore_ascii_case(l, "auto"@) {
            None
        } else {
            Some(l)
        },
        None => None,
    }
}

pub open spec fn spec_transcription_url(
    base_url: Seq<char>,
    model: Seq<char>,
    dialect: ApiDialect,
    language: Option<Seq<char>>,
) -> Seq<char> {
    let base = trim_end_slashes(base_url);
    match dialect {
        ApiDialect::OpenAiCompatible => base + "/audio/transcriptions"@,
        ApiDialect::Deepgram => base + "/v1/listen?model="@ + model + "&smart_format=true"@ + match explicit_language(
            language,
        ) {
            Some(l) => "&language="@ + l,
            None => Seq::<char>::empty(),
        },
    }
}

/// The endpoint one transcription request goes to. Deepgram reads its
/// options from the query string and has no `auto` language: the language is
/// left out then, and the model's default applies.
pub fn transcription_url(options: &OnlineProviderOptions, language: Option<&str>) -> (r: String)
    ensures
        r@ == spec_transcription_url(
            options.base_url@,
            options.model@,
            options.dialect,
            match language {
                Some(l) => Some(l@),
                None => None,
            },
        ),
{
    let base = trim_end_slashes_vec(&chars_of(options.base_url.as_str()));
    let mut url = string_of(&base);
    match options.dialect {
        ApiDialect::OpenAiCompatible => {
            url.append("/audio/transcriptions");
        },
        ApiDialect::Deepgram => {
            url.append("/v1/listen?model=");
            url.append(options.model.as_str());
            url.append("&smart_format=true");
            match language {
                Some(lang) => {
                    let l = chars_of(lang);
                    if !vec_eq_ignore_ascii_case(&l, &chars_of("auto")) {
                        url.append("&language=");
                        url.append(lang);
                    }
                },
                None => {},
            }
        },
    }
    url
}

/// The value of the `Authorization` header.
pub fn authorization_header(options: &OnlineProviderOptions) -> (r: String)
    ensures
        r@ == match options.auth_style {
            AuthStyle::Bearer => "Bearer "@ + options.api_key@,
            AuthStyle::Token => "Token "@ + options.api_key@,
        },
{
    let mut r = match options.auth_style {
        AuthStyle::Bearer => String::from_str("Bearer "),
        AuthStyle::Token => String::from_str("Token "),
    };
    r.append(options.api_key.as_str());
    r
}

/// Uploads larger than 25 MiB are refused before any request.
pub fn check_audio_size(len: usize) -> (r: Result<(), TranscriptionError>)
    ensures
        match r {
            Ok(_) => len <= MAX_FILE_SIZE,
            Err(e) => len > MAX_FILE_SIZE && error_view(e) == ErrorView::FileTooLarge(len as nat),
        },
{
    if len > MAX_FILE_SIZE {
        Err(TranscriptionError::FileTooLarge(len))
    } else {
        Ok(())
    }
}

// ───────────────────────── retries ─────────────────────────

/// How many attempts are made: one more than the retry setting.
pub fn attempt_count(max_retries: u32) -> (n: u32)
    ensures
        n == (if max_retries == u32::MAX {
            u32::MAX as int
        } else {
            max_retries + 1
        }),
{
    max_retries.saturating_add(1)
}

/// `1000 · min(2^(attempt-1), 8)` milliseconds.
pub open spec fn spec_retry_delay_ms(attempt: nat) -> nat {
    1000 * if attempt >= 4 {
        8nat
    } else if attempt == 3 {
        4nat
    } else if attempt == 2 {
        2nat
    } else {
        1nat
    }
}

/// The pause after failed attempt number `attempt` (from 1), doubling from
/// one second up to eight.
pub fn retry_delay_ms(attempt: u32) -> (ms: u64)
    requires
        1 <= attempt <= 64,
    ensures
        ms == spec_retry_delay_ms(attempt as nat),
{
    let doubling: u64 = if attempt >= 4 {
        8
    } else if attempt == 3 {
        4
    } else if attempt == 2 {
        2
    } else {
        1
    };
    1000 * doubling
}

/// After failed attempt number `attempt`: `None` to give up with this error
/// (authentication failures are never retried, and the last attempt is the
/// last), or the pause before the next attempt.
pub fn retry_after(err: &TranscriptionError, attempt: u32, max_retries: u32) -> (r: Option<u64>)
    requires
        1 <= attempt,
        attempt <= max_retries ==> attempt <= 64,
    ensures
        match r {
            None => error_view(*err) is AuthenticationFailed || attempt > max_retries,
            Some(ms) => !(error_view(*err) is AuthenticationFailed) && attempt <= max_retries && ms
                == spec_retry_delay_ms(attempt as nat),
        },
{
    if let TranscriptionError::AuthenticationFailed { .. } = err {
        return None;
    }
    if attempt <= max_retries {
        Some(retry_delay_ms(attempt))
    } else {
        None
    }
}

// ───────────────────────── responses ─────────────────────────

/// Where the transcript sits in a successful response.
pub open spec fn spec_transcript_pointer(dialect: ApiDialect) -> Seq<char> {
    match dialect {
        ApiDialect::OpenAiCompatible => "/text"@,
        ApiDialect::Deepgram => "/results/channels/0/alternatives/0/transcript"@,
    }
}

pub fn transcript_pointer(dialect: ApiDialect) -> (p: &'static str)
    ensures
        p@ == spec_transcript_pointer(dialect),
{
    match dialect {
        ApiDialect::OpenAiCompatible => "/text",
        ApiDialect::Deepgram => "/results/channels/0/alternatives/0/transcript",
    }
}

/// The transcript field of a successful response. Deepgram's `channels`
/// and `alternatives` are read as arrays: where either is no array there is
/// no transcript.
pub open spec fn spec_transcript_lookup(dialect: ApiDialect, body: Seq<char>) -> Result<
    Option<Option<Seq<char>>>,
    Seq<char>,
> {
    let found = json_query(body, spec_transcript_pointer(dialect));
    match dialect {
        ApiDialect::OpenAiCompatible => found,
        ApiDialect::Deepgram => if json_array_at(body, "/results/channels"@) && json_array_at(
            body,
            "/results/channels/0/alternatives"@,
        ) {
            found
        } else {
            match found {
                Err(m) => Err(m),
                Ok(_) => Ok(None),
            }
        },
    }
}

pub fn transcript_lookup(dialect: ApiDialect, body: &str) -> (r: Result<Option<Option<String>>, String>)
    ensures
        crate::json::json_result_view(r) == spec_transcript_lookup(dialect, body@),
{
    let found = json_at(body, transcript_pointer(dialect));
    match dialect {
        ApiDialect::OpenAiCompatible => found,
        ApiDialect::Deepgram => {
            if json_is_array(body, "/results/channels") && json_is_array(body, "/results/channels/0/alternatives") {
                found
            } else {
                match found {
                    Err(m) => Err(m),
                    Ok(_) => Ok(None),
                }
            }
        },
    }
}

/// The error code of an error body: `error.code`, or `error.type` when
/// there is no code.
pub open spec fn spec_error_code(body: Seq<char>) -> Option<Seq<char>> {
    if json_has(body, "/error/code"@) {
        json_str(body, "/error/code"@)
    } else {
        json_str(body, "/error/type"@)
    }
}

/// The error message of an error body: `error.message`, else the whole body.
pub open spec fn spec_error_message(body: Seq<char>) -> Seq<char> {
    match json_str(body, "/error/message"@) {
        Some(m) => m,
        None => body,
    }
}

fn str_at(body: &str, pointer: &str) -> (r: Option<String>)
    ensures
        opt_view(r) == json_str(body@, pointer@),
{
    match json_at(body, pointer) {
        Ok(Some(Some(s))) => Some(s),
        _ => None,
    }
}

pub open spec fn opt_view(o: Option<String>) -> Option<Seq<char>> {
    match o {
        Some(s) => Some(s@),
        None => None,
    }
}

/// The error code and message of an API error response body.
pub fn parse_error_body(response_text: &str) -> (r: (Option<String>, String))
    ensures
        opt_view(r.0) == spec_error_code(response_text@),
        r.1@ == spec_error_message(response_text@),
{
    let code = match json_at(response_text, "/error/code") {
        Ok(Some(c)) => c,
        _ => str_at(response_text, "/error/type"),
    };
    let message = match str_at(response_text, "/error/message") {
        Some(m) => m,
        None => String::from_str(response_text),
    };
    (code, message)
}

pub open spec fn is_success_status(status: u16) -> bool {
    200 <= status <= 299
}

pub open spec fn spec_error_response(
    provider: Seq<char>,
    status: u16,
    body: Seq<char>,
    code: Option<Seq<char>>,
    message: Seq<char>,
) -> ErrorView {
    if status == 401 || status == 403 {
        ErrorView::AuthenticationFailed { provider, details: Some(message) }
    } else {
        ErrorView::ApiError {
            provider,
            status_code: Some(status),
            error_code: code,
            error_message: message,
            raw_response: Some(body),
        }
    }
}

/// The error a failed response stands for: 401 and 403 are authentication
/// failures, anything else an API error that keeps the whole body.
pub fn error_response(
    provider: &str,
    status: u16,
    body: &str,
    code: Option<String>,
    message: String,
) -> (e: TranscriptionError)
    ensures
        error_view(e) == spec_error_response(provider@, status, body@, opt_view(code), message@),
{
    if status == 401 || status == 403 {
        TranscriptionError::AuthenticationFailed {
            provider: String::from_str(provider),
            details: Some(message),
        }
    } else {
        TranscriptionError::ApiError(
            ApiErrorDetails {
                provider: String::from_str(provider),
                status_code: Some(status),
                error_code: code,
                error_message: message,
                raw_response: Some(String::from_str(body)),
            },
        )
    }
}

pub open spec fn spec_success_response(
    provider: Seq<char>,
    status: u16,
    body: Seq<char>,
    transcript: Result<Option<Option<Seq<char>>>, Seq<char>>,
) -> Result<Seq<char>, ErrorView> {
    match transcript {
        Err(m) => Err(ErrorView::JsonError(m)),
        Ok(Some(Some(t))) => Ok(t),
        Ok(_) => Err(
            ErrorView::ApiError {
                provider,
                status_code: Some(status),
                error_code: None,
                error_message: "No text field in response"@,
                raw_response: Some(body),
            },
        ),
    }
}

pub open spec fn result_view(r: Result<String, TranscriptionError>) -> Result<Seq<char>, ErrorView> {
    match r {
        Ok(t) => Ok(t@),
        Err(e) => Err(error_view(e)),
    }
}

/// The outcome of a successful response, from what the JSON reader found at
/// the transcript's place: a body that is no JSON is a JSON error, a missing
/// or non-string transcript an API error that keeps the body.
pub fn success_response(
    provider: &str,
    status: u16,
    body: &str,
    transcript: Result<Option<Option<String>>, String>,
) -> (r: Result<String, TranscriptionError>)
    ensures
        result_view(r) == spec_success_response(
            provider@,
            status,
            body@,
            crate::json::json_result_view(transcript),
        ),
{
    match transcript {
        Err(m) => Err(TranscriptionError::JsonError(m)),
        Ok(Some(Some(t))) => Ok(t),
        Ok(_) => Err(
            TranscriptionError::ApiError(
                ApiErrorDetails {
                    provider: String::from_str(provider),
                    status_code: Some(status),
                    error_code: None,
                    error_message: String::from_str("No text field in response"),
                    raw_response: Some(String::from_str(body)),
                },
            ),
        ),
    }
}

pub open spec fn spec_transcription_response(
    provider: Seq<char>,
    dialect: ApiDialect,
    status: u16,
    body: Seq<char>,
) -> Result<Seq<char>, ErrorView> {
    if is_success_status(status) {
        spec_success_response(
            provider,
            status,
            body,
            spec_transcript_lookup(dialect, body),
        )
    } else {
        Err(
            spec_error_response(
                provider,
                status,
                body,
                spec_error_code(body),
                spec_error_message(body),
            ),
        )
    }
}

/// What a provider's HTTP response means: the transcript on success, else
/// the error it reports.
pub fn transcription_response(options: &OnlineProviderOptions, status: u16, body: &str) -> (r:
    Result<String, TranscriptionError>)
    ensures
        result_view(r) == spec_transcription_response(
            options.provider_name@,
            options.dialect,
            status,
            body@,
        ),
{
    if 200 <= status && status <= 299 {
        let found = transcript_lookup(options.dialect, body);
        success_response(options.provider_name, status, body, found)
    } else {
        let (code, message) = parse_error_body(body);
        Err(error_response(options.provider_name, status, body, code, message))
    }
}

} // verus!
