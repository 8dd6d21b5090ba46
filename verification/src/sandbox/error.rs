//! Errors of the sandbox.

use crate::common::DecodeError;
use crate::text::{decimal, with_number};
use vstd::prelude::*;
use vstd::string::*;

verus! {

/// Why a sandbox refused or failed to do something.
#[derive(Debug)]
pub enum HyperlightError {
    /// An error with a message.
    Error(String),
    /// Text that should be JSON is not.
    JsonConversionFailure(serde_json::Error),
    /// The sandbox is poisoned.
    PoisonedSandbox,
    /// The host cancelled the execution.
    ExecutionCanceledByHost,
    /// The guest aborted, with a code and a message.
    GuestAborted(u8, String),
    /// Any other failure of the virtual machine, with its text.
    Other(String),
}

/// What a [`HyperlightError`] says.
pub enum ErrorContents {
    /// A message.
    Error(Seq<char>),
    /// Why the text is not JSON.
    JsonConversionFailure(serde_json::Error),
    /// The sandbox is poisoned.
    PoisonedSandbox,
    /// The host cancelled the execution.
    ExecutionCanceledByHost,
    /// The guest aborted, with a code and a message.
    GuestAborted(u8, Seq<char>),
    /// Any other failure of the virtual machine.
    Other(Seq<char>),
}

impl View for HyperlightError {
    type V = ErrorContents;

    open spec fn view(&self) -> ErrorContents {
        match self {
            HyperlightError::Error(message) => ErrorContents::Error(message@),
            HyperlightError::JsonConversionFailure(e) => ErrorContents::JsonConversionFailure(*e),
            HyperlightError::PoisonedSandbox => ErrorContents::PoisonedSandbox,
            HyperlightError::ExecutionCanceledByHost => ErrorContents::ExecutionCanceledByHost,
            HyperlightError::GuestAborted(code, message) => ErrorContents::GuestAborted(
                *code,
                message@,
            ),
            HyperlightError::Other(text) => ErrorContents::Other(text@),
        }
    }
}

/// The text of an error.
pub open spec fn error_text(e: ErrorContents) -> Seq<char> {
    match e {
        ErrorContents::Error(message) => message,
        ErrorContents::JsonConversionFailure(_) => "Conversion of str data to json failed"@,
        ErrorContents::PoisonedSandbox => "The sandbox was poisoned"@,
        ErrorContents::ExecutionCanceledByHost => "Execution was cancelled by the host."@,
        ErrorContents::GuestAborted(code, message) => "Guest aborted: "@ + decimal(code as nat)
            + " "@ + message,
        ErrorContents::Other(text) => text,
    }
}

impl HyperlightError {
    /// The text of the error.
    pub fn to_string(&self) -> (s: String)
        ensures
            s@ == error_text(self@),
    {
        match self {
            HyperlightError::Error(message) => message.clone(),
            HyperlightError::JsonConversionFailure(_) => {
                "Conversion of str data to json failed".to_owned()
            },
            HyperlightError::PoisonedSandbox => "The sandbox was poisoned".to_owned(),
            HyperlightError::ExecutionCanceledByHost => {
                "Execution was cancelled by the host.".to_owned()
            },
            HyperlightError::GuestAborted(code, message) => {
                let mut text = with_number("Guest aborted: ", *code as u64, " ");
                text.append(message.as_str());
                text
            },
            HyperlightError::Other(text) => text.clone(),
        }
    }

    /// A framing error as an error of the sandbox, with the same message.
    pub fn from_decode_error(e: DecodeError) -> (r: HyperlightError)
        ensures
            r@ == ErrorContents::Error(e@),
    {
        HyperlightError::Error(e.to_string())
    }
}

/// An error with a message of its own says just that, and what a guest says when it aborts comes at
/// the end, behind its code.
pub proof fn law_errors_say_their_message(text: Seq<char>, code: u8)
    ensures
        error_text(ErrorContents::Error(text)) == text,
        error_text(ErrorContents::Other(text)) == text,
        ({
            let aborted = error_text(ErrorContents::GuestAborted(code, text));
            let before = "Guest aborted: "@ + decimal(code as nat) + " "@;
            &&& before.is_prefix_of(aborted)
            &&& aborted.skip(before.len() as int) == text
        }),
{
    let aborted = error_text(ErrorContents::GuestAborted(code, text));
    let before = "Guest aborted: "@ + decimal(code as nat) + " "@;
    assert(aborted.skip(before.len() as int) =~= text);
}

/// An error says what it was made of.
pub proof fn law_errors_hold_their_parts(text: String, json: serde_json::Error, code: u8)
    ensures
        HyperlightError::Error(text)@ == ErrorContents::Error(text@),
        HyperlightError::Other(text)@ == ErrorContents::Other(text@),
        HyperlightError::GuestAborted(code, text)@ == ErrorContents::GuestAborted(code, text@),
        HyperlightError::JsonConversionFailure(json)@ == ErrorContents::JsonConversionFailure(json),
        HyperlightError::PoisonedSandbox@ == ErrorContents::PoisonedSandbox,
        HyperlightError::ExecutionCanceledByHost@ == ErrorContents::ExecutionCanceledByHost,
{
}

} // verus!
