//! JSON text, read and written by `serde_json`.

use vstd::prelude::*;

verus! {

/// `serde_json::Value`, carried as it is.
#[verifier::external_type_specification]
#[verifier::external_body]
pub struct ExJsonValue(serde_json::Value);

/// `serde_json::Error`, carried as it is.
#[verifier::external_type_specification]
#[verifier::external_body]
pub struct ExJsonError(serde_json::Error);

/// What [`serde_json::from_str`] makes of a text.
pub uninterp spec fn json_parsed(text: Seq<char>) -> Result<serde_json::Value, serde_json::Error>;

/// Parses a text with [`serde_json::from_str`]. What it gives depends on the text alone; which
/// texts are JSON, and what they stand for, is left to the name.
#[verifier::external_body]
pub(crate) fn parse_json(text: &str) -> (r: Result<serde_json::Value, serde_json::Error>)
    ensures
        r == json_parsed(text@),
{
    serde_json::from_str(text)
}

/// What [`serde_json::to_string`] makes of a value.
pub uninterp spec fn json_rendered(value: serde_json::Value) -> Result<Seq<char>, serde_json::Error>;

/// Writes a value as text with [`serde_json::to_string`]. What it gives depends on the value alone;
/// how values are written is left to the name.
#[verifier::external_body]
pub(crate) fn render_json(value: &serde_json::Value) -> (r: Result<String, serde_json::Error>)
    ensures
        match r {
            Ok(s) => json_rendered(*value) matches Ok(t) && t == s@,
            Err(e) => json_rendered(*value) matches Err(f) && f == e,
        },
{
    serde_json::to_string(value)
}

/// The text that an error of parsing or of writing text displays.
pub uninterp spec fn json_error_text(e: serde_json::Error) -> Seq<char>;

/// The error is one of those that parsing a text or writing a value as text gives.
pub open spec fn is_text_error(e: serde_json::Error) -> bool {
    ||| exists|text: Seq<char>| #[trigger] json_parsed(text) == Err::<
        serde_json::Value,
        serde_json::Error,
    >(e)
    ||| exists|value: serde_json::Value| #[trigger] json_rendered(value) == Err::<
        Seq<char>,
        serde_json::Error,
    >(e)
}

/// The `Display` text of a `serde_json::Error` that [`serde_json::from_str`] or
/// [`serde_json::to_string`] gave. What it says is left to the name. Errors of reading or writing a
/// stream are left out: they display what the operating system says. Neither of the two functions
/// gives one.
#[verifier::external_body]
pub(crate) fn json_error_string(e: &serde_json::Error) -> (s: String)
    requires
        is_text_error(*e),
    ensures
        s@ == json_error_text(*e),
{
    e.to_string()
}

} // verus!
