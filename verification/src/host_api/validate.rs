//! What the bindings ask of names, sizes and timeouts before anything else happens.

use crate::host_api::error::{api_error, invalid_arg_error, ApiError, ErrorCode};
use crate::sandbox::js_sandbox::HOST_NAMESPACE;
use crate::text::{contains_char, decimal, joined, push_decimal, same_text, with_number, with_text};
use vstd::prelude::*;
use vstd::string::*;

verus! {

/// The shortest timeout, in milliseconds.
pub const MIN_TIMEOUT_MS: u32 = 1;

/// The longest timeout, in milliseconds: one hour.
pub const MAX_TIMEOUT_MS: u32 = 3_600_000;

/// The longest module or namespace identifier, in characters.
pub const MAX_MODULE_IDENTIFIER_LEN: usize = 256;

/// What stands before the name of a module of host functions: guest code imports it as
/// `"host:<name>"`.
pub const HOST_MODULE_PREFIX: &'static str = "host:";

/// The character has the Unicode property `White_Space`, as `PropList.txt` of the Unicode Character
/// Database lists it.
pub open spec fn white_space(c: char) -> bool {
    let code = c as u32;
    ||| 0x09 <= code <= 0x0d
    ||| code == 0x20
    ||| code == 0x85
    ||| code == 0xa0
    ||| code == 0x1680
    ||| 0x2000 <= code <= 0x200a
    ||| code == 0x2028
    ||| code == 0x2029
    ||| code == 0x202f
    ||| code == 0x205f
    ||| code == 0x3000
}

/// [`char::is_whitespace`]: whether the character has the property `White_Space`.
pub assume_specification[ char::is_whitespace ](c: char) -> (r: bool)
    ensures
        r == white_space(c),
;

/// The character is a control character (the Unicode category `Cc`): U+0000 to U+001F, or U+007F
/// to U+009F.
pub open spec fn control(c: char) -> bool {
    c as u32 <= 0x1f || 0x7f <= c as u32 <= 0x9f
}

/// Whether a text holds nothing but white space.
fn blank(s: &str) -> (r: bool)
    ensures
        r == is_blank(s@),
{
    for c in it: s.chars()
        invariant
            it.seq() == s@,
            forall|j: int| 0 <= j < it.index() ==> white_space(#[trigger] s@[j]),
    {
        if !c.is_whitespace() {
            assert(!white_space(s@[it.index() as int]));
            return false;
        }
    }
    true
}

/// Whether a text holds a control character.
fn has_control(s: &str) -> (r: bool)
    ensures
        r == holds_control(s@),
{
    for c in it: s.chars()
        invariant
            it.seq() == s@,
            forall|j: int| 0 <= j < it.index() ==> !control(#[trigger] s@[j]),
    {
        let code: u32 = c as u32;
        if code <= 0x1f || (0x7f <= code && code <= 0x9f) {
            assert(control(s@[it.index() as int]));
            return true;
        }
    }
    false
}

/// Whether a text has more characters than `limit`.
fn longer_than(s: &str, limit: usize) -> (r: bool)
    ensures
        r == (s@.len() > limit),
{
    let mut count: usize = 0;
    for c in it: s.chars()
        invariant
            it.seq() == s@,
            count == it.index() <= limit,
    {
        if count == limit {
            return true;
        }
        count += 1;
    }
    false
}

/// The text holds nothing but white space.
pub open spec fn is_blank(s: Seq<char>) -> bool {
    forall|i: int| 0 <= i < s.len() ==> white_space(#[trigger] s[i])
}

/// The text holds a control character.
pub open spec fn holds_control(s: Seq<char>) -> bool {
    exists|i: int| 0 <= i < s.len() && control(#[trigger] s[i])
}

/// Why a text cannot be a module name or namespace, if it cannot. `label` is what the text is
/// called.
pub open spec fn identifier_fault(value: Seq<char>, label: Seq<char>) -> Option<Seq<char>> {
    if is_blank(value) {
        Some(label + " must not be empty"@)
    } else if value.contains(':') {
        Some(label + " must not contain ':'"@)
    } else if holds_control(value) {
        Some(label + " must not contain control characters"@)
    } else if value.len() > MAX_MODULE_IDENTIFIER_LEN {
        Some(label + " must not exceed "@ + decimal(MAX_MODULE_IDENTIFIER_LEN as nat)
            + " characters"@)
    } else {
        None
    }
}

/// The result is `Ok` exactly where nothing is wrong with the arguments, and the error says what
/// is.
pub open spec fn rejects<T>(r: Result<T, ApiError>, fault: Option<Seq<char>>) -> bool {
    match r {
        Ok(_) => fault is None,
        Err(e) => fault matches Some(text) && e@ == api_error(ErrorCode::InvalidArg, text),
    }
}

/// Checks a module name or namespace. `label` is what it is called.
pub fn validate_module_identifier(value: &str, label: &str) -> (r: Result<(), ApiError>)
    ensures
        rejects(r, identifier_fault(value@, label@)),
{
    if blank(value) {
        return Err(invalid_arg_error(joined(label, " must not be empty").as_str()));
    }
    if contains_char(value, ':') {
        return Err(invalid_arg_error(joined(label, " must not contain ':'").as_str()));
    }
    if has_control(value) {
        return Err(
            invalid_arg_error(joined(label, " must not contain control characters").as_str()),
        );
    }
    if longer_than(value, MAX_MODULE_IDENTIFIER_LEN) {
        let before = joined(label, " must not exceed ");
        return Err(
            invalid_arg_error(
                with_number(
                    before.as_str(),
                    MAX_MODULE_IDENTIFIER_LEN as u64,
                    " characters",
                ).as_str(),
            ),
        );
    }
    Ok(())
}

/// Why a namespace is not free for user modules, if it is not.
pub open spec fn reserved_fault(namespace: Seq<char>) -> Option<Seq<char>> {
    if namespace == HOST_NAMESPACE@ {
        Some("Module namespace '"@ + namespace + "' is reserved"@)
    } else {
        None
    }
}

/// Checks that a namespace is free for user modules.
pub fn validate_namespace_not_reserved(namespace: &str) -> (r: Result<(), ApiError>)
    ensures
        rejects(r, reserved_fault(namespace@)),
{
    if same_text(namespace, HOST_NAMESPACE) {
        return Err(
            invalid_arg_error(
                with_text("Module namespace '", namespace, "' is reserved").as_str(),
            ),
        );
    }
    Ok(())
}

/// Why a module name and an optional namespace cannot be used, if they cannot. Where `free` is
/// asked for, the namespace must not be reserved.
pub open spec fn module_fault(name: Seq<char>, namespace: Option<Seq<char>>, free: bool) -> Option<
    Seq<char>,
> {
    if identifier_fault(name, "Module name"@) is Some {
        identifier_fault(name, "Module name"@)
    } else {
        match namespace {
            None => None,
            Some(ns) => if identifier_fault(ns, "Module namespace"@) is Some {
                identifier_fault(ns, "Module namespace"@)
            } else if free {
                reserved_fault(ns)
            } else {
                None
            },
        }
    }
}

/// The text of an optional string.
pub open spec fn optional_text(s: Option<String>) -> Option<Seq<char>> {
    match s {
        Some(text) => Some(text@),
        None => None,
    }
}

/// Checks a module name and an optional namespace.
pub fn validate_module(name: &str, namespace: &Option<String>, free: bool) -> (r: Result<
    (),
    ApiError,
>)
    ensures
        rejects(r, module_fault(name@, optional_text(*namespace), free)),
{
    match validate_module_identifier(name, "Module name") {
        Ok(_) => {},
        Err(e) => {
            return Err(e);
        },
    }
    match namespace {
        None => Ok(()),
        Some(ns) => {
            match validate_module_identifier(ns.as_str(), "Module namespace") {
                Ok(_) => {},
                Err(e) => {
                    return Err(e);
                },
            }
            if free {
                validate_namespace_not_reserved(ns.as_str())
            } else {
                Ok(())
            }
        },
    }
}

/// Why a text that must not be empty cannot be used, if it cannot. `label` is what it is called.
pub open spec fn empty_fault(value: Seq<char>, label: Seq<char>) -> Option<Seq<char>> {
    if value.len() == 0 {
        Some(label + " must not be empty"@)
    } else {
        None
    }
}

/// Checks a text that must not be empty. `label` is what it is called.
pub fn validate_not_empty(value: &str, label: &str) -> (r: Result<(), ApiError>)
    ensures
        rejects(r, empty_fault(value@, label@)),
{
    if value.is_empty() {
        return Err(invalid_arg_error(joined(label, " must not be empty").as_str()));
    }
    Ok(())
}

/// Why a size cannot be used, if it cannot. `label` is what it is called.
pub open spec fn size_fault(size: u64, label: Seq<char>) -> Option<Seq<char>> {
    if size == 0 {
        Some(label + " must be greater than 0"@)
    } else {
        None
    }
}

/// Checks a size. `label` is what it is called.
pub fn validate_size(size: u64, label: &str) -> (r: Result<(), ApiError>)
    ensures
        rejects(r, size_fault(size, label@)),
{
    if size == 0 {
        return Err(invalid_arg_error(joined(label, " must be greater than 0").as_str()));
    }
    Ok(())
}

/// Why a timeout cannot be used, if it cannot. `label` is what it is called, and `unit` is written
/// behind each limit.
pub open spec fn timeout_fault(
    timeout_ms: Option<u32>,
    label: Seq<char>,
    unit: Seq<char>,
) -> Option<Seq<char>> {
    match timeout_ms {
        Some(ms) => if MIN_TIMEOUT_MS <= ms <= MAX_TIMEOUT_MS {
            None
        } else {
            Some(
                label + " must be between "@ + decimal(MIN_TIMEOUT_MS as nat) + unit + " and "@
                    + decimal(MAX_TIMEOUT_MS as nat) + unit + ", got "@ + decimal(ms as nat),
            )
        },
        None => None,
    }
}

/// Checks a timeout. `label` is what it is called, and `unit` is written behind each limit.
pub fn validate_timeout(timeout_ms: Option<u32>, label: &str, unit: &str) -> (r: Result<
    (),
    ApiError,
>)
    ensures
        rejects(r, timeout_fault(timeout_ms, label@, unit@)),
{
    match timeout_ms {
        Some(ms) => {
            if ms < MIN_TIMEOUT_MS || ms > MAX_TIMEOUT_MS {
                let mut msg = joined(label, " must be between ");
                push_decimal(&mut msg, MIN_TIMEOUT_MS as u64);
                msg.append(unit);
                msg.append(" and ");
                push_decimal(&mut msg, MAX_TIMEOUT_MS as u64);
                msg.append(unit);
                msg.append(", got ");
                push_decimal(&mut msg, ms as u64);
                return Err(invalid_arg_error(msg.as_str()));
            }
            Ok(())
        },
        None => Ok(()),
    }
}

} // verus!
