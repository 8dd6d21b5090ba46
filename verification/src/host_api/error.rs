//! Errors as the bindings report them: a code, and a message that starts with the code.

use crate::host_api::wording::{put, words, Binding, Term};
use crate::sandbox::error::{error_text, ErrorContents, HyperlightError};
use crate::text::{joined, with_text};
use vstd::prelude::*;
use vstd::string::*;

verus! {

/// What kind of error a caller has to deal with.
#[derive(Debug, Clone, Copy, PartialEq, Eq, Structural)]
pub enum ErrorCode {
    /// The sandbox is in an inconsistent state: restore or unload it.
    Poisoned,
    /// The host cancelled the execution (a monitor fired, or it was killed).
    Cancelled,
    /// The guest aborted.
    GuestAbort,
    /// An argument is invalid.
    InvalidArg,
    /// The object is used up: each transition happens once.
    Consumed,
    /// Anything unexpected.
    Internal,
}

/// The text of a code.
pub open spec fn code_text(code: ErrorCode) -> Seq<char> {
    match code {
        ErrorCode::Poisoned => "ERR_POISONED"@,
        ErrorCode::Cancelled => "ERR_CANCELLED"@,
        ErrorCode::GuestAbort => "ERR_GUEST_ABORT"@,
        ErrorCode::InvalidArg => "ERR_INVALID_ARG"@,
        ErrorCode::Consumed => "ERR_CONSUMED"@,
        ErrorCode::Internal => "ERR_INTERNAL"@,
    }
}

impl ErrorCode {
    /// The text of the code, such as `"ERR_POISONED"`.
    pub fn as_code(&self) -> (s: &'static str)
        ensures
            s@ == code_text(*self),
    {
        match self {
            ErrorCode::Poisoned => "ERR_POISONED",
            ErrorCode::Cancelled => "ERR_CANCELLED",
            ErrorCode::GuestAbort => "ERR_GUEST_ABORT",
            ErrorCode::InvalidArg => "ERR_INVALID_ARG",
            ErrorCode::Consumed => "ERR_CONSUMED",
            ErrorCode::Internal => "ERR_INTERNAL",
        }
    }
}

/// An error that a binding reports.
#[derive(Debug)]
pub struct ApiError {
    code: ErrorCode,
    message: String,
}

impl View for ApiError {
    type V = (ErrorCode, Seq<char>);

    closed spec fn view(&self) -> (ErrorCode, Seq<char>) {
        (self.code, self.message@)
    }
}

/// The text of an error: its code in brackets, then what it says.
pub open spec fn coded_text(code: ErrorCode, msg: Seq<char>) -> Seq<char> {
    "["@ + code_text(code) + "] "@ + msg
}

/// An error with a code that says `msg`.
pub open spec fn api_error(code: ErrorCode, msg: Seq<char>) -> (ErrorCode, Seq<char>) {
    (code, coded_text(code, msg))
}

impl ApiError {
    /// The code.
    pub fn code(&self) -> (c: ErrorCode)
        ensures
            c == self@.0,
    {
        self.code
    }

    /// The text, which starts with the code in brackets.
    pub fn to_string(&self) -> (s: String)
        ensures
            s@ == self@.1,
    {
        self.message.clone()
    }
}

/// An error with a code that says `msg`.
pub fn hl_error(code: ErrorCode, msg: &str) -> (e: ApiError)
    ensures
        e@ == api_error(code, msg@),
{
    let mut message = with_text("[", code.as_code(), "] ");
    message.append(msg);
    ApiError { code, message }
}

/// What kind of failure a sandbox reports.
#[derive(Debug, Clone, Copy, PartialEq, Eq, Structural)]
pub enum ErrorKind {
    /// An error with a message.
    Error,
    /// The sandbox is poisoned.
    PoisonedSandbox,
    /// The host cancelled the execution.
    ExecutionCanceledByHost,
    /// Text that should be JSON is not.
    JsonConversionFailure,
    /// The guest aborted.
    GuestAborted,
    /// Any other failure.
    Other,
}

/// A failure of a sandbox: its kind and its text.
#[derive(Debug)]
pub struct Failure {
    /// The kind.
    pub kind: ErrorKind,
    /// The text.
    pub text: String,
}

/// The code for a kind of failure.
pub open spec fn code_of_kind(kind: ErrorKind) -> ErrorCode {
    match kind {
        ErrorKind::PoisonedSandbox => ErrorCode::Poisoned,
        ErrorKind::ExecutionCanceledByHost => ErrorCode::Cancelled,
        ErrorKind::JsonConversionFailure => ErrorCode::InvalidArg,
        ErrorKind::GuestAborted => ErrorCode::GuestAbort,
        ErrorKind::Error | ErrorKind::Other => ErrorCode::Internal,
    }
}

/// The code for a kind of failure.
fn kind_code(kind: ErrorKind) -> (c: ErrorCode)
    ensures
        c == code_of_kind(kind),
{
    match kind {
        ErrorKind::PoisonedSandbox => ErrorCode::Poisoned,
        ErrorKind::ExecutionCanceledByHost => ErrorCode::Cancelled,
        ErrorKind::JsonConversionFailure => ErrorCode::InvalidArg,
        ErrorKind::GuestAborted => ErrorCode::GuestAbort,
        ErrorKind::Error | ErrorKind::Other => ErrorCode::Internal,
    }
}

/// The kind of an error of the sandbox.
pub open spec fn kind_of_error(e: ErrorContents) -> ErrorKind {
    match e {
        ErrorContents::Error(_) => ErrorKind::Error,
        ErrorContents::JsonConversionFailure(_) => ErrorKind::JsonConversionFailure,
        ErrorContents::PoisonedSandbox => ErrorKind::PoisonedSandbox,
        ErrorContents::ExecutionCanceledByHost => ErrorKind::ExecutionCanceledByHost,
        ErrorContents::GuestAborted(_, _) => ErrorKind::GuestAborted,
        ErrorContents::Other(_) => ErrorKind::Other,
    }
}

impl Failure {
    /// An error of the sandbox as a failure.
    pub fn from_error(e: &HyperlightError) -> (f: Failure)
        ensures
            f.kind == kind_of_error(e@),
            f.text@ == error_text(e@),
    {
        let kind = match e {
            HyperlightError::Error(_) => ErrorKind::Error,
            HyperlightError::JsonConversionFailure(_) => ErrorKind::JsonConversionFailure,
            HyperlightError::PoisonedSandbox => ErrorKind::PoisonedSandbox,
            HyperlightError::ExecutionCanceledByHost => ErrorKind::ExecutionCanceledByHost,
            HyperlightError::GuestAborted(_, _) => ErrorKind::GuestAborted,
            HyperlightError::Other(_) => ErrorKind::Other,
        };
        Failure { kind, text: e.to_string() }
    }
}

/// The error that reports a failure of the sandbox.
pub fn to_napi_error(failure: &Failure) -> (e: ApiError)
    ensures
        e@ == api_error(code_of_kind(failure.kind), failure.text@),
{
    hl_error(kind_code(failure.kind), failure.text.as_str())
}

/// The message for an object that is used up.
pub open spec fn consumed_text(owner: Seq<char>) -> Seq<char> {
    owner + " has already been consumed — each instance can only be used once"@
}

/// The error for an object that is used up.
pub fn consumed_error(owner: &str) -> (e: ApiError)
    ensures
        e@ == api_error(ErrorCode::Consumed, consumed_text(owner@)),
{
    hl_error(
        ErrorCode::Consumed,
        joined(
            owner,
            " has already been consumed — each instance can only be used once",
        ).as_str(),
    )
}

/// The error for an invalid argument.
pub fn invalid_arg_error(msg: &str) -> (e: ApiError)
    ensures
        e@ == api_error(ErrorCode::InvalidArg, msg@),
{
    hl_error(ErrorCode::InvalidArg, msg)
}

/// The error for a lock whose holder panicked.
pub fn lock_error(binding: Binding) -> (e: ApiError)
    ensures
        e@ == api_error(ErrorCode::Internal, words(binding, Term::LockPoisoned)),
{
    hl_error(ErrorCode::Internal, put(binding, Term::LockPoisoned))
}

/// The error for a background task that did not finish. `reason` says why.
pub fn join_error(reason: &str) -> (e: ApiError)
    ensures
        e@ == api_error(ErrorCode::Internal, "Background task failed: "@ + reason@),
{
    hl_error(ErrorCode::Internal, joined("Background task failed: ", reason).as_str())
}

/// The text of an error determines its code and what it says.
pub proof fn law_error_text_determines_code(
    code_a: ErrorCode,
    msg_a: Seq<char>,
    code_b: ErrorCode,
    msg_b: Seq<char>,
)
    requires
        coded_text(code_a, msg_a) == coded_text(code_b, msg_b),
    ensures
        code_a == code_b,
        msg_a == msg_b,
{
    reveal_strlit("[");
    reveal_strlit("] ");
    reveal_strlit("ERR_POISONED");
    reveal_strlit("ERR_CANCELLED");
    reveal_strlit("ERR_GUEST_ABORT");
    reveal_strlit("ERR_INVALID_ARG");
    reveal_strlit("ERR_CONSUMED");
    reveal_strlit("ERR_INTERNAL");
    let a = coded_text(code_a, msg_a);
    let b = coded_text(code_b, msg_b);
    let i: int = 5;
    let j: int = 6;
    let k: int = 7;
    assert(a[i] == code_text(code_a)[4] && a[j] == code_text(code_a)[5] && a[k] == code_text(
        code_a,
    )[6]);
    assert(b[i] == code_text(code_b)[4] && b[j] == code_text(code_b)[5] && b[k] == code_text(
        code_b,
    )[6]);
    assert(code_a == code_b);
    let n = code_text(code_a).len() + 3;
    assert(msg_a =~= a.skip(n as int));
    assert(msg_b =~= b.skip(n as int));
}

} // verus!
