//! Registration, discovery and execution policy for test and benchmark cases
//! that run under a custom harness.
//!
//! The library holds the logic of the harness: the case descriptor, crate
//! scoped discovery over a registry, naming and listing, the markers visible
//! to a running case, and the execution engine that turns the terminations of
//! a case's entry point into an outcome. Invoking entry points, catching their
//! panics and reading the clock is left to the caller, which drives the engine
//! step by step.

pub mod case;
pub mod context;
pub mod discovery;
pub mod engine;
pub mod listing;
pub mod outcome;
pub mod stats;
pub mod text;

pub use case::{Ignore, ShouldPanic, TestCase, TestKind};
pub use context::CaseContext;
pub use discovery::{extract_crate_name, get_tests_for_crate};
pub use engine::{Action, Attempt, BenchMode, Execution, Plan, Report, RunConfig};
pub use listing::{display_name, list_cases, list_line, listing_order, trial_name, ListMode};
pub use outcome::{unit_outcome, Outcome, Payload, Termination};
pub use stats::{measurement_of, BENCH_ITERATIONS};
