//! How the bindings put things.

use vstd::prelude::*;

verus! {

/// The language that a binding is for.
#[derive(Debug, Clone, Copy, PartialEq, Eq, Structural)]
pub enum Binding {
    /// Node.js.
    Node,
    /// Python.
    Python,
}

/// What a message speaks of.
#[derive(Debug, Clone, Copy, PartialEq, Eq, Structural)]
pub enum Term {
    /// The name of a handler.
    HandlerName,
    /// The name of a module of host functions.
    ModuleName,
    /// The name of a host function.
    FunctionName,
    /// Code to evaluate.
    EvalCode,
    /// The guest's output buffer size.
    OutputBufferSize,
    /// The guest's input buffer size.
    InputBufferSize,
    /// The guest's scratch size.
    ScratchSize,
    /// The guest's heap size.
    HeapSize,
    /// The limit on elapsed time.
    WallClockTimeout,
    /// The limit on CPU time.
    CpuTimeout,
    /// The unit behind the limits of a timeout.
    TimeoutUnit,
    /// What comes before the reason why an event could not be written as JSON.
    SerializeEvent,
    /// What comes before the reason why a handler's result is not JSON.
    ParseResult,
    /// What comes before the reason why an evaluation's result is not JSON.
    ParseEvalResult,
    /// A lock whose holder panicked.
    LockPoisoned,
}

/// The words for a term.
pub open spec fn words(binding: Binding, term: Term) -> Seq<char> {
    match (binding, term) {
        (Binding::Node, Term::HandlerName) => "Handler name"@,
        (Binding::Node, Term::ModuleName) => "Module name"@,
        (Binding::Node, Term::FunctionName) => "Function name"@,
        (Binding::Node, Term::OutputBufferSize) => "Output buffer size"@,
        (Binding::Node, Term::InputBufferSize) => "Input buffer size"@,
        (Binding::Node, Term::ScratchSize) => "Scratch size"@,
        (Binding::Node, Term::HeapSize) => "Heap size"@,
        (Binding::Node, Term::WallClockTimeout) => "wallClockTimeoutMs"@,
        (Binding::Node, Term::CpuTimeout) => "cpuTimeoutMs"@,
        (Binding::Node, Term::TimeoutUnit) => "ms"@,
        (Binding::Node, Term::SerializeEvent) => "Failed to serialize event: "@,
        (Binding::Node, Term::ParseResult) => "Failed to parse handler result as JSON: "@,
        (Binding::Node, Term::LockPoisoned) => "Internal lock poisoned — this is a bug"@,
        (Binding::Python, Term::HandlerName) => "handler name"@,
        (Binding::Python, Term::ModuleName) => "module name"@,
        (Binding::Python, Term::FunctionName) => "function name"@,
        (Binding::Python, Term::OutputBufferSize) => "output buffer size"@,
        (Binding::Python, Term::InputBufferSize) => "input buffer size"@,
        (Binding::Python, Term::ScratchSize) => "scratch size"@,
        (Binding::Python, Term::HeapSize) => "heap size"@,
        (Binding::Python, Term::WallClockTimeout) => "wall_clock_timeout_ms"@,
        (Binding::Python, Term::CpuTimeout) => "cpu_timeout_ms"@,
        (Binding::Python, Term::TimeoutUnit) => ""@,
        (Binding::Python, Term::SerializeEvent) => "failed to serialize event: "@,
        (Binding::Python, Term::ParseResult) => "failed to parse handler result as JSON: "@,
        (Binding::Python, Term::LockPoisoned) => "internal lock poisoned — this is a bug"@,
        (_, Term::EvalCode) => "eval code"@,
        (_, Term::ParseEvalResult) => "failed to parse eval result as JSON: "@,
    }
}

/// The words for a term.
pub fn put(binding: Binding, term: Term) -> (s: &'static str)
    ensures
        s@ == words(binding, term),
{
    match (binding, term) {
        (Binding::Node, Term::HandlerName) => "Handler name",
        (Binding::Node, Term::ModuleName) => "Module name",
        (Binding::Node, Term::FunctionName) => "Function name",
        (Binding::Node, Term::OutputBufferSize) => "Output buffer size",
        (Binding::Node, Term::InputBufferSize) => "Input buffer size",
        (Binding::Node, Term::ScratchSize) => "Scratch size",
        (Binding::Node, Term::HeapSize) => "Heap size",
        (Binding::Node, Term::WallClockTimeout) => "wallClockTimeoutMs",
        (Binding::Node, Term::CpuTimeout) => "cpuTimeoutMs",
        (Binding::Node, Term::TimeoutUnit) => "ms",
        (Binding::Node, Term::SerializeEvent) => "Failed to serialize event: ",
        (Binding::Node, Term::ParseResult) => "Failed to parse handler result as JSON: ",
        (Binding::Node, Term::LockPoisoned) => "Internal lock poisoned — this is a bug",
        (Binding::Python, Term::HandlerName) => "handler name",
        (Binding::Python, Term::ModuleName) => "module name",
        (Binding::Python, Term::FunctionName) => "function name",
        (Binding::Python, Term::OutputBufferSize) => "output buffer size",
        (Binding::Python, Term::InputBufferSize) => "input buffer size",
        (Binding::Python, Term::ScratchSize) => "scratch size",
        (Binding::Python, Term::HeapSize) => "heap size",
        (Binding::Python, Term::WallClockTimeout) => "wall_clock_timeout_ms",
        (Binding::Python, Term::CpuTimeout) => "cpu_timeout_ms",
        (Binding::Python, Term::TimeoutUnit) => "",
        (Binding::Python, Term::SerializeEvent) => "failed to serialize event: ",
        (Binding::Python, Term::ParseResult) => "failed to parse handler result as JSON: ",
        (Binding::Python, Term::LockPoisoned) => "internal lock poisoned — this is a bug",
        (_, Term::EvalCode) => "eval code",
        (_, Term::ParseEvalResult) => "failed to parse eval result as JSON: ",
    }
}

} // verus!
