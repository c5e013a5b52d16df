//! Failures of a request, the outcome of running an adapter, and the HTTP
//! reply that each of them becomes.

use vstd::prelude::*;
use vstd::utf8::{valid_utf8, decode_utf8};

verus! {

/// Why a request failed.
pub enum BridgeError {
    /// No adapter file matches the request's key.
    NoAdapter,
    /// The request is not a percent-encoded absolute URL with a host.
    UrlDecodeError,
    /// The adapter process could not be started.
    AdapterSpawnError,
    /// The adapter process was started but could not be waited for.
    AdapterExecError,
    /// The adapter's environment file is unreadable or malformed.
    EnvDecodeError,
    /// The adapter reported a failure: a status code and a message.
    AdapterError(u16, String),
}

/// An HTTP reply: a status code and a text body.
pub struct Reply {
    pub status: u16,
    pub body: String,
}

/// How an adapter invocation ended, as the process runner saw it.
pub enum Outcome {
    /// The process could not be created.
    SpawnFailed,
    /// The process was created, but waiting for it or reading its output failed.
    WaitFailed,
    /// The process ended: its exit code (`None` when a signal ended it) and
    /// what it wrote to standard output.
    Finished { code: Option<i32>, stdout: Vec<u8> },
}

/// The status code used where no other applies.
pub const INTERNAL_ERROR: u16 = 500;

pub open spec fn msg_no_adapter() -> Seq<char> {
    "No adapter found for this website\n"@
}

pub open spec fn msg_url_decode() -> Seq<char> {
    "Could not decode URL\n"@
}

pub open spec fn msg_spawn() -> Seq<char> {
    "Could not spawn adapter process\n"@
}

pub open spec fn msg_exec() -> Seq<char> {
    "Could not execute adapter\n"@
}

pub open spec fn msg_env() -> Seq<char> {
    "Could not read .env file\n"@
}

pub open spec fn msg_malformed() -> Seq<char> {
    "Adapter returned malformed UTF-8"@
}

pub open spec fn msg_signal() -> Seq<char> {
    "Adapter terminated through signal"@
}

/// An HTTP status code is one of `100..=999`.
pub open spec fn is_valid_status(code: u16) -> bool {
    100 <= code <= 999
}

/// The status code and body of the reply to `e`.
pub open spec fn error_reply(e: BridgeError) -> (u16, Seq<char>) {
    match e {
        BridgeError::NoAdapter => (404, msg_no_adapter()),
        BridgeError::UrlDecodeError => (422, msg_url_decode()),
        BridgeError::AdapterSpawnError => (500, msg_spawn()),
        BridgeError::AdapterExecError => (500, msg_exec()),
        BridgeError::EnvDecodeError => (500, msg_env()),
        BridgeError::AdapterError(c, m) => (
            if is_valid_status(c) {
                c
            } else {
                500
            },
            m@,
        ),
    }
}

/// The status code and body of the reply to a request's result.
pub open spec fn result_reply(r: Result<String, BridgeError>) -> (u16, Seq<char>) {
    match r {
        Ok(t) => (200, t@),
        Err(e) => error_reply(e),
    }
}

/// The status an adapter's exit code stands for, before it is checked to be
/// a valid HTTP status.
pub open spec fn exit_status(code: i32) -> u16 {
    if 0 <= code <= u16::MAX {
        code as u16
    } else {
        500
    }
}

/// What a finished adapter run amounts to: a signal gives its fixed
/// failure whatever was written; otherwise the output must be UTF-8, and is
/// the result on exit code 0 and the failure's message on any other.
pub open spec fn finished_result(code: Option<i32>, stdout: Seq<u8>) -> Result<
    Seq<char>,
    (u16, Seq<char>),
> {
    match code {
        None => Err((500, msg_signal())),
        Some(c) => if !valid_utf8(stdout) {
            Err((500, msg_malformed()))
        } else if c == 0 {
            Ok(decode_utf8(stdout))
        } else {
            Err((exit_status(c), decode_utf8(stdout)))
        },
    }
}

/// A request that does not decode to a URL with a host is answered with
/// status 422 and a non-empty body.
pub proof fn url_decode_reply_nonempty()
    ensures
        error_reply(BridgeError::UrlDecodeError).0 == 422,
        error_reply(BridgeError::UrlDecodeError).1.len() > 0,
{
    reveal_strlit("Could not decode URL\n");
}

/// Relies on `http::StatusCode::from_u16` (through axum): it accepts exactly
/// the codes `100..=999`.
#[verifier::external_body]
fn status_accepted(code: u16) -> (r: bool)
    ensures
        r == is_valid_status(code),
{
    axum::http::StatusCode::from_u16(code).is_ok()
}

/// Relies on `std::str::from_utf8`: it succeeds exactly on valid UTF-8 and
/// then yields the characters that the bytes encode.
#[verifier::external_body]
fn utf8_text(bytes: &Vec<u8>) -> (r: Option<String>)
    ensures
        r is Some <==> valid_utf8(bytes@),
        r matches Some(s) ==> s@ == decode_utf8(bytes@),
{
    std::str::from_utf8(bytes.as_slice()).ok().map(|s| s.to_owned())
}

impl BridgeError {
    /// The reply this failure becomes.
    pub fn reply(self) -> (r: Reply)
        ensures
            (r.status, r.body@) == error_reply(self),
    {
        match self {
            BridgeError::NoAdapter => Reply {
                status: 404,
                body: String::from_str("No adapter found for this website\n"),
            },
            BridgeError::UrlDecodeError => Reply {
                status: 422,
                body: String::from_str("Could not decode URL\n"),
            },
            BridgeError::AdapterSpawnError => Reply {
                status: INTERNAL_ERROR,
                body: String::from_str("Could not spawn adapter process\n"),
            },
            BridgeError::AdapterExecError => Reply {
                status: INTERNAL_ERROR,
                body: String::from_str("Could not execute adapter\n"),
            },
            BridgeError::EnvDecodeError => Reply {
                status: INTERNAL_ERROR,
                body: String::from_str("Could not read .env file\n"),
            },
            BridgeError::AdapterError(c, m) => {
                let status = if status_accepted(c) {
                    c
                } else {
                    INTERNAL_ERROR
                };
                Reply { status, body: m }
            },
        }
    }
}

/// The reply to a request's result: status 200 with the text on success.
pub fn respond(result: Result<String, BridgeError>) -> (r: Reply)
    ensures
        (r.status, r.body@) == result_reply(result),
{
    match result {
        Ok(text) => Reply { status: 200, body: text },
        Err(e) => e.reply(),
    }
}

/// What an adapter run amounts to: its output, or the failure that it
/// reports or that ended it.
pub fn classify(outcome: Outcome) -> (r: Result<String, BridgeError>)
    ensures
        match outcome {
            Outcome::SpawnFailed => r matches Err(BridgeError::AdapterSpawnError),
            Outcome::WaitFailed => r matches Err(BridgeError::AdapterExecError),
            Outcome::Finished { code, stdout } => match finished_result(code, stdout@) {
                Ok(t) => r matches Ok(s) && s@ == t,
                Err((c, m)) => r matches Err(BridgeError::AdapterError(rc, rm)) && rc == c
                    && rm@ == m,
            },
        },
{
    match outcome {
        Outcome::SpawnFailed => Err(BridgeError::AdapterSpawnError),
        Outcome::WaitFailed => Err(BridgeError::AdapterExecError),
        Outcome::Finished { code, stdout } => {
            let c = match code {
                Some(c) => c,
                None => {
                    return Err(
                        BridgeError::AdapterError(
                            INTERNAL_ERROR,
                            String::from_str("Adapter terminated through signal"),
                        ),
                    );
                },
            };
            let text = match utf8_text(&stdout) {
                Some(t) => t,
                None => {
                    return Err(
                        BridgeError::AdapterError(
                            INTERNAL_ERROR,
                            String::from_str("Adapter returned malformed UTF-8"),
                        ),
                    );
                },
            };
            if c == 0 {
                Ok(text)
            } else {
                let status: u16 = if 0 <= c && c <= 65535 {
                    c as u16
                } else {
                    INTERNAL_ERROR
                };
                Err(BridgeError::AdapterError(status, text))
            }
        },
    }
}

/// The reply to an adapter run.
pub fn outcome_reply(outcome: Outcome) -> (r: Reply)
    ensures
        match outcome {
            Outcome::SpawnFailed => (r.status, r.body@) == (500u16, msg_spawn()),
            Outcome::WaitFailed => (r.status, r.body@) == (500u16, msg_exec()),
            Outcome::Finished { code, stdout } => match finished_result(code, stdout@) {
                Ok(t) => r.status == 200 && r.body@ == t,
                Err((c, m)) => r.status == (if is_valid_status(c) {
                    c
                } else {
                    500
                }) && r.body@ == m,
            },
        },
{
    respond(classify(outcome))
}

} // verus!
