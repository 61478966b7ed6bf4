//! The descriptor of one registered test or benchmark.

use vstd::prelude::*;

verus! {

/// Classification of a registered case.
#[derive(Debug, Clone, Copy, PartialEq, Eq, Structural)]
pub enum TestKind {
    /// Standard unit-style test.
    Unit,
    /// Benchmark case executed by the harness.
    Benchmark,
}

/// Metadata describing an expected panic.
#[derive(Debug, Clone, Copy)]
pub struct ShouldPanic {
    /// Optional substring that must appear in the panic payload.
    pub expected: Option<&'static str>,
}

/// Metadata describing whether a case should be skipped by default.
#[derive(Debug, Clone, Copy)]
pub struct Ignore {
    /// Optional reason string carried alongside the skip flag.
    pub reason: Option<&'static str>,
}

/// Static description of a registered test or benchmark.
///
/// `F` is the type of the entry point; a harness uses a plain function
/// pointer (`fn()`). The library never calls it: the entry point is invoked
/// by the harness when the execution engine asks for an attempt.
#[derive(Debug, Clone, Copy)]
pub struct TestCase<F> {
    /// Name of the function as it appears in the source crate.
    pub name: &'static str,
    /// Fully qualified module path for the test function.
    pub module: &'static str,
    /// Kind of case (unit test or benchmark).
    pub kind: TestKind,
    /// Entry point invoked by the harness.
    pub test_fn: F,
    /// Panic expectation of the case.
    pub should_panic: Option<ShouldPanic>,
    /// Optional ignore marker.
    pub ignore: Option<Ignore>,
    /// Free-form markers attached to the case, in declaration order.
    pub case_attributes: &'static [&'static str],
}

} // verus!
