//! What the bindings accept, and how they report what they do not.

use crate::host_api::error::{
    api_error, code_of_kind, code_text, coded_text, kind_of_error, ApiError, ErrorCode, ErrorKind,
    Failure,
};
use crate::host_api::lifecycle::{
    call_fault, call_result, function_registered, module_functions, monitors_of,
    namespace_or_default, sandbox_reports, size_set, CallHandlerOptions, Monitors, Registered,
    SandboxConfig,
};
use crate::host_api::one_shot::says_consumed;
use crate::host_api::validate::{
    control, empty_fault, identifier_fault, is_blank, module_fault, optional_text, rejects, size_fault,
    timeout_fault, white_space,
};
use crate::host_api::wording::{words, Binding, Term};
use crate::names::NameMap;
use crate::sandbox::error::ErrorContents;
use crate::sandbox::json_text::json_parsed;
use crate::text::decimal;
use vstd::prelude::*;

verus! {

// ── Errors ───────────────────────────────────────────────────────────

/// The text of an error is its code in brackets, a space, and what it says. Each code has its own
/// name.
pub proof fn law_errors_start_with_their_code(code: ErrorCode, msg: Seq<char>)
    ensures
        api_error(code, msg).0 == code,
        ({
            let text = api_error(code, msg).1;
            let n = code_text(code).len() as int;
            &&& text.len() == n + 3 + msg.len()
            &&& text[0] == '[' && text[n + 1] == ']' && text[n + 2] == ' '
            &&& text.subrange(1, n + 1) == code_text(code)
            &&& text.skip(n + 3) == msg
        }),
        code is Poisoned <==> code_text(code) == "ERR_POISONED"@,
        code is Cancelled <==> code_text(code) == "ERR_CANCELLED"@,
        code is GuestAbort <==> code_text(code) == "ERR_GUEST_ABORT"@,
        code is InvalidArg <==> code_text(code) == "ERR_INVALID_ARG"@,
        code is Consumed <==> code_text(code) == "ERR_CONSUMED"@,
        code is Internal <==> code_text(code) == "ERR_INTERNAL"@,
{
    reveal_strlit("[");
    reveal_strlit("] ");
    reveal_strlit("ERR_POISONED");
    reveal_strlit("ERR_CANCELLED");
    reveal_strlit("ERR_GUEST_ABORT");
    reveal_strlit("ERR_INVALID_ARG");
    reveal_strlit("ERR_CONSUMED");
    reveal_strlit("ERR_INTERNAL");
    let text = coded_text(code, msg);
    let n = code_text(code).len() as int;
    assert(text.subrange(1, n + 1) =~= code_text(code));
    assert(text.skip(n + 3) =~= msg);
    assert("ERR_POISONED"@[4] == 'P' && "ERR_CANCELLED"@[5] == 'A' && "ERR_GUEST_ABORT"@[4] == 'G'
        && "ERR_INVALID_ARG"@[6] == 'V' && "ERR_CONSUMED"@[5] == 'O' && "ERR_INTERNAL"@[6] == 'T');
    assert("ERR_CANCELLED"@[4] == 'C' && "ERR_CONSUMED"@[4] == 'C' && "ERR_INVALID_ARG"@[4] == 'I'
        && "ERR_INTERNAL"@[4] == 'I');
}

/// A poisoned sandbox, a cancelled execution, text that is not JSON and a guest that aborted have a
/// code of their own each, and no other failure has one of these.
pub proof fn law_failures_have_their_code(e: ErrorContents, kind: ErrorKind)
    ensures
        code_of_kind(kind_of_error(e)) == ErrorCode::Poisoned <==> e is PoisonedSandbox,
        code_of_kind(kind_of_error(e)) == ErrorCode::Cancelled <==> e is ExecutionCanceledByHost,
        code_of_kind(kind_of_error(e)) == ErrorCode::InvalidArg <==> e is JsonConversionFailure,
        code_of_kind(kind_of_error(e)) == ErrorCode::GuestAbort <==> e is GuestAborted,
        code_of_kind(kind_of_error(e)) == ErrorCode::Internal <==> e is Error || e is Other,
        code_of_kind(kind) == ErrorCode::Poisoned <==> kind == ErrorKind::PoisonedSandbox,
        code_of_kind(kind) == ErrorCode::Cancelled <==> kind == ErrorKind::ExecutionCanceledByHost,
        code_of_kind(kind) == ErrorCode::InvalidArg <==> kind == ErrorKind::JsonConversionFailure,
        code_of_kind(kind) == ErrorCode::GuestAbort <==> kind == ErrorKind::GuestAborted,
        code_of_kind(kind) == ErrorCode::Internal <==> kind == ErrorKind::Error || kind
            == ErrorKind::Other,
{
}

/// Of an object that is used up, the error has the code for that, and its text names the object.
pub proof fn law_used_up_objects_are_named(e: ApiError, owner: Seq<char>)
    requires
        says_consumed(e, owner),
    ensures
        e@.0 == ErrorCode::Consumed,
        e@.1.len() >= 15 + owner.len(),
        e@.1.subrange(15, 15 + owner.len() as int) == owner,
{
    reveal_strlit("[");
    reveal_strlit("] ");
    reveal_strlit("ERR_CONSUMED");
    assert(e@.1.subrange(15, 15 + owner.len() as int) =~= owner);
}

/// What is refused is refused for an invalid argument, for the reason that is given, and just where
/// there is one.
pub proof fn law_arguments_are_refused<T>(r: Result<T, ApiError>, fault: Option<Seq<char>>)
    requires
        rejects(r, fault),
    ensures
        r is Ok <==> fault is None,
        r matches Err(e) ==> e@.0 == ErrorCode::InvalidArg && (fault matches Some(text) && e@.1
            == "[ERR_INVALID_ARG] "@ + text),
{
    reveal_strlit("[");
    reveal_strlit("] ");
    reveal_strlit("ERR_INVALID_ARG");
    reveal_strlit("[ERR_INVALID_ARG] ");
    assert("[ERR_INVALID_ARG] "@ =~= "["@ + "ERR_INVALID_ARG"@ + "] "@);
}

// ── Arguments ────────────────────────────────────────────────────────

/// A module name or namespace is accepted just where it has a character that is no white space, has
/// neither a colon nor a control character in it (below U+0020, or from U+007F to U+009F), and has
/// at most 256 characters.
pub proof fn law_accepted_identifiers(value: Seq<char>, label: Seq<char>)
    ensures
        identifier_fault(value, label) is None <==> {
            &&& exists|i: int| 0 <= i < value.len() && !white_space(#[trigger] value[i])
            &&& forall|i: int|
                0 <= i < value.len() ==> #[trigger] value[i] != ':' && !((value[i] as u32) < 0x20)
                    && !(0x7f <= value[i] as u32 <= 0x9f)
            &&& value.len() <= 256
        },
{
    if forall|i: int| 0 <= i < value.len() ==> white_space(#[trigger] value[i]) {
        assert(is_blank(value));
    }
    if value.contains(':') {
        let i = choose|i: int| 0 <= i < value.len() && value[i] == ':';
        assert(value[i] == ':');
    }
}

/// A module name is accepted with a namespace just where both are accepted identifiers and the
/// namespace, where it is to be free, is not that of the host. Without a namespace, the name decides.
pub proof fn law_accepted_modules(name: Seq<char>, namespace: Option<Seq<char>>, free: bool)
    ensures
        module_fault(name, namespace, free) is None <==> identifier_fault(name, "Module name"@) is None
            && (namespace matches Some(ns) ==> identifier_fault(ns, "Module namespace"@) is None
            && !(free && ns == "host"@)),
{
}

/// A namespace that is not given is `user`, and one that is given is the one that is meant.
pub proof fn law_namespace_is_meant(namespace: Option<String>)
    ensures
        namespace is None ==> namespace_or_default(optional_text(namespace)) == "user"@,
        namespace matches Some(ns) ==> namespace_or_default(optional_text(namespace)) == ns@,
{
}

/// Texts must not be empty, sizes must not be zero, and timeouts must be from one millisecond to one
/// hour. Nothing else is asked of them, and no timeout is always accepted.
pub proof fn law_accepted_settings(
    text: Seq<char>,
    size: u64,
    timeout_ms: Option<u32>,
    label: Seq<char>,
    unit: Seq<char>,
)
    ensures
        empty_fault(text, label) is None <==> text.len() > 0,
        size_fault(size, label) is None <==> size > 0,
        timeout_fault(timeout_ms, label, unit) is None <==> (timeout_ms matches Some(ms) ==> 1 <= ms
            <= 60 * 60 * 1000),
{
}

/// A size is set on a builder just where it is not zero and the builder is not used up. A size of
/// zero is an invalid argument even where the builder is used up.
pub proof fn law_sizes_are_set(
    r: Result<(), ApiError>,
    binding: Binding,
    term: Term,
    size: u64,
    before: Option<SandboxConfig>,
)
    requires
        size_set(r, binding, term, size, before),
    ensures
        r is Ok <==> size > 0 && before is Some,
        r matches Err(e) ==> e@.0 == (if size == 0 {
            ErrorCode::InvalidArg
        } else {
            ErrorCode::Consumed
        }),
{
}

/// What was asked of a sandbox is done just where the arguments are accepted, the sandbox is not used
/// up, and it has nothing against it. Of several reasons the first of these is reported, and each has
/// its own code.
pub proof fn law_sandboxes_report(
    r: Result<(), ApiError>,
    argument_fault: Option<Seq<char>>,
    before: Option<Registered>,
    sandbox_fault: Option<Seq<char>>,
)
    requires
        sandbox_reports(r, argument_fault, before, sandbox_fault),
    ensures
        r is Ok <==> argument_fault is None && before is Some && sandbox_fault is None,
        r matches Err(e) ==> e@.0 == (if argument_fault is Some {
            ErrorCode::InvalidArg
        } else if before is None {
            ErrorCode::Consumed
        } else {
            ErrorCode::Internal
        }),
{
}

/// A function that was registered is found under its name in its module, and what any other name
/// stands for in any module has not changed.
pub proof fn law_functions_are_registered(
    before: Map<Seq<char>, NameMap<u64>>,
    after: Map<Seq<char>, NameMap<u64>>,
    module: Seq<char>,
    name: Seq<char>,
    func: u64,
    other_module: Seq<char>,
    other_name: Seq<char>,
)
    requires
        function_registered(before, after, module, name, func),
    ensures
        after.contains_key(module),
        after[module]@.contains_key(name),
        after[module]@[name] == func,
        other_module != module ==> (after.contains_key(other_module) <==> before.contains_key(
            other_module,
        )) && (before.contains_key(other_module) ==> after[other_module] == before[other_module]),
        other_name != name ==> (after[module]@.contains_key(other_name) <==> before.contains_key(
            module,
        ) && before[module]@.contains_key(other_name)),
        other_name != name && before.contains_key(module) && before[module]@.contains_key(other_name)
            ==> after[module]@[other_name] == before[module]@[other_name],
{
    if other_module != module {
        assert(after.remove(module).contains_key(other_module) == before.remove(
            module,
        ).contains_key(other_module));
        if before.contains_key(other_module) {
            assert(after.remove(module)[other_module] == before.remove(module)[other_module]);
        }
    }
    assert(module_functions(before, module).contains_key(other_name) <==> before.contains_key(
        module,
    ) && before[module]@.contains_key(other_name));
}

// ── Calls ────────────────────────────────────────────────────────────

/// The limit on elapsed time that monitors keep.
pub open spec fn wall_clock_limit(monitors: Monitors) -> Option<u32> {
    match monitors {
        Monitors::WallClock(ms) => Some(ms),
        Monitors::Both { wall_clock_ms, .. } => Some(wall_clock_ms),
        _ => None,
    }
}

/// The limit on CPU time that monitors keep.
pub open spec fn cpu_limit(monitors: Monitors) -> Option<u32> {
    match monitors {
        Monitors::CpuTime(ms) => Some(ms),
        Monitors::Both { cpu_ms, .. } => Some(cpu_ms),
        _ => None,
    }
}

/// A call is watched for just those limits that were asked for.
pub proof fn law_calls_are_watched(options: CallHandlerOptions)
    ensures
        wall_clock_limit(monitors_of(options)) == options.wall_clock_timeout_ms,
        cpu_limit(monitors_of(options)) == options.cpu_timeout_ms,
{
}

/// A call is accepted just where its text is not empty and each timeout that is given is from one
/// millisecond to one hour. The text is looked at first, then the limit on elapsed time.
pub proof fn law_accepted_calls(
    binding: Binding,
    term: Term,
    text: Seq<char>,
    options: CallHandlerOptions,
)
    ensures
        ({
            let wall = options.wall_clock_timeout_ms matches Some(ms) ==> 1 <= ms <= 60 * 60 * 1000;
            let cpu = options.cpu_timeout_ms matches Some(ms) ==> 1 <= ms <= 60 * 60 * 1000;
            let fault = call_fault(binding, term, text, options);
            &&& fault is None <==> text.len() > 0 && wall && cpu
            &&& text.len() == 0 ==> fault == empty_fault(text, words(binding, term))
            &&& text.len() > 0 && !wall ==> fault == timeout_fault(
                options.wall_clock_timeout_ms,
                words(binding, Term::WallClockTimeout),
                words(binding, Term::TimeoutUnit),
            )
            &&& text.len() > 0 && wall && !cpu ==> fault == timeout_fault(
                options.cpu_timeout_ms,
                words(binding, Term::CpuTimeout),
                words(binding, Term::TimeoutUnit),
            )
        }),
{
}

/// A call gives what its text stands for, as parsed. It fails where the text is not JSON, and where the
/// call itself failed, for that reason.
pub proof fn law_calls_give_their_result(
    r: Result<serde_json::Value, ApiError>,
    binding: Binding,
    term: Term,
    outcome: Result<String, Failure>,
)
    requires
        call_result(r, binding, term, outcome),
    ensures
        match outcome {
            Ok(text) => match json_parsed(text@) {
                Ok(value) => r == Ok::<serde_json::Value, ApiError>(value),
                Err(_) => r matches Err(e) && e@.0 == ErrorCode::Internal,
            },
            Err(f) => r matches Err(e) && e@ == api_error(code_of_kind(f.kind), f.text@),
        },
{
}

// ── Wording ──────────────────────────────────────────────────────────

/// What both bindings name in words they name alike, but for the capital that Node.js starts with.
/// Timeouts are named as the options of the language are, so that a caller knows which one is meant.
pub proof fn law_bindings_name_things_alike(term: Term)
    ensures
        match term {
            Term::HandlerName
            | Term::ModuleName
            | Term::FunctionName
            | Term::OutputBufferSize
            | Term::InputBufferSize
            | Term::ScratchSize
            | Term::HeapSize
            | Term::SerializeEvent
            | Term::ParseResult
            | Term::LockPoisoned => words(Binding::Python, term).skip(1) == words(
                Binding::Node,
                term,
            ).skip(1),
            Term::EvalCode | Term::ParseEvalResult => words(Binding::Python, term) == words(
                Binding::Node,
                term,
            ),
            Term::WallClockTimeout => words(Binding::Node, term) == "wallClockTimeoutMs"@ && words(
                Binding::Python,
                term,
            ) == "wall_clock_timeout_ms"@,
            Term::CpuTimeout => words(Binding::Node, term) == "cpuTimeoutMs"@ && words(
                Binding::Python,
                term,
            ) == "cpu_timeout_ms"@,
            Term::TimeoutUnit => true,
        },
{
    reveal_strlit("Handler name");
    reveal_strlit("handler name");
    reveal_strlit("Module name");
    reveal_strlit("module name");
    reveal_strlit("Function name");
    reveal_strlit("function name");
    reveal_strlit("Output buffer size");
    reveal_strlit("output buffer size");
    reveal_strlit("Input buffer size");
    reveal_strlit("input buffer size");
    reveal_strlit("Scratch size");
    reveal_strlit("scratch size");
    reveal_strlit("Heap size");
    reveal_strlit("heap size");
    reveal_strlit("Failed to serialize event: ");
    reveal_strlit("failed to serialize event: ");
    reveal_strlit("Failed to parse handler result as JSON: ");
    reveal_strlit("failed to parse handler result as JSON: ");
    reveal_strlit("Internal lock poisoned — this is a bug");
    reveal_strlit("internal lock poisoned — this is a bug");
}

/// What is reported of an argument starts with what the argument is called, and of a timeout it ends
/// with the timeout that was given.
pub proof fn law_reports_name_the_argument(
    value: Seq<char>,
    size: u64,
    timeout_ms: Option<u32>,
    label: Seq<char>,
    unit: Seq<char>,
)
    ensures
        identifier_fault(value, label) matches Some(text) ==> label.is_prefix_of(text),
        empty_fault(value, label) matches Some(text) ==> label.is_prefix_of(text),
        size_fault(size, label) matches Some(text) ==> label.is_prefix_of(text),
        timeout_fault(timeout_ms, label, unit) matches Some(text) ==> label.is_prefix_of(text)
            && decimal(timeout_ms->0 as nat).is_suffix_of(text),
{
}

/// What is wrong with a module name or namespace is reported for what it is, and what is looked at
/// first comes first: that there is nothing in it, a colon, a control character, its length.
pub proof fn law_identifier_reports(value: Seq<char>, label: Seq<char>)
    ensures
        identifier_fault(value, label) == Some(label + " must not be empty"@) <== is_blank(value),
        identifier_fault(value, label) == Some(label + " must not contain ':'"@) <== !is_blank(value)
            && value.contains(':'),
        identifier_fault(value, label) == Some(label + " must not contain control characters"@)
            <== !is_blank(value) && !value.contains(':') && exists|i: int|
            0 <= i < value.len() && ((#[trigger] value[i] as u32) < 0x20 || 0x7f <= value[i] as u32
                <= 0x9f),
{
    if exists|i: int|
        0 <= i < value.len() && ((#[trigger] value[i] as u32) < 0x20 || 0x7f <= value[i] as u32
            <= 0x9f) {
        let i = choose|i: int|
            0 <= i < value.len() && ((#[trigger] value[i] as u32) < 0x20 || 0x7f <= value[i] as u32
                <= 0x9f);
        assert(control(value[i]));
    }
}

} // verus!
