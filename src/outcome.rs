//! Terminations of an entry point, outcomes of a case, and how a unit test's
//! panic expectation turns the one into the other.

use vstd::prelude::*;

use crate::case::ShouldPanic;
use crate::text::{contains, contains_seq};

verus! {

/// Failure message when a case without a panic expectation panics.
pub const UNEXPECTED_PANIC: &'static str = "Unexpected panic: Any { .. }";

/// Failure message when an expected panic did not happen.
pub const NO_PANIC: &'static str = "Expected panic did not occur";

/// Failure message when an expected panic carried no text.
pub const NON_STRING_PANIC: &'static str = "Test panicked with a non-string message";

/// First part of the failure message for a panic text without the expected
/// substring; the expected substring follows.
pub const MISMATCH_HEAD: &'static str = "Panic message did not contain expected string.\nExpected substring: ";

/// Middle part of that message; the panic text follows.
pub const MISMATCH_FOUND: &'static str = "\n      Found string: ";

/// What a panic carried: a text, or a value that is not a string.
#[derive(Debug, PartialEq, Eq)]
pub enum Payload {
    Text(String),
    Opaque,
}

impl View for Payload {
    type V = Option<Seq<char>>;

    open spec fn view(&self) -> Option<Seq<char>> {
        match self {
            Payload::Text(s) => Some(s@),
            Payload::Opaque => None,
        }
    }
}

/// How one invocation of an entry point ended.
#[derive(Debug, PartialEq, Eq)]
pub enum Termination {
    /// It returned.
    Normal,
    /// It panicked; the panic was caught with its payload.
    Abnormal(Payload),
}

/// The mathematical model of a [`Termination`]: the panic text, if any.
pub enum TerminationView {
    Normal,
    Abnormal(Option<Seq<char>>),
}

impl View for Termination {
    type V = TerminationView;

    open spec fn view(&self) -> TerminationView {
        match self {
            Termination::Normal => TerminationView::Normal,
            Termination::Abnormal(p) => TerminationView::Abnormal(p@),
        }
    }
}

/// The outcome of a case.
#[derive(Debug, PartialEq, Eq)]
pub enum Outcome {
    Passed,
    Failed(String),
    Skipped(Option<String>),
}

/// The mathematical model of an [`Outcome`].
pub enum OutcomeView {
    Passed,
    Failed(Seq<char>),
    Skipped(Option<Seq<char>>),
}

impl View for Outcome {
    type V = OutcomeView;

    open spec fn view(&self) -> OutcomeView {
        match self {
            Outcome::Passed => OutcomeView::Passed,
            Outcome::Failed(m) => OutcomeView::Failed(m@),
            Outcome::Skipped(None) => OutcomeView::Skipped(None),
            Outcome::Skipped(Some(r)) => OutcomeView::Skipped(Some(r@)),
        }
    }
}

/// The failure message for a panic text that lacks the expected substring.
pub open spec fn mismatch_message(expected: Seq<char>, found: Seq<char>) -> Seq<char> {
    MISMATCH_HEAD@ + expected + MISMATCH_FOUND@ + found
}

/// The outcome of a unit test whose single attempt ended as `t`.
pub open spec fn unit_verdict(should_panic: Option<ShouldPanic>, t: TerminationView) -> OutcomeView {
    match should_panic {
        None => match t {
            TerminationView::Normal => OutcomeView::Passed,
            TerminationView::Abnormal(_) => OutcomeView::Failed(UNEXPECTED_PANIC@),
        },
        Some(sp) => match t {
            TerminationView::Normal => OutcomeView::Failed(NO_PANIC@),
            TerminationView::Abnormal(None) => OutcomeView::Failed(NON_STRING_PANIC@),
            TerminationView::Abnormal(Some(text)) => match sp.expected {
                None => OutcomeView::Passed,
                Some(e) => if contains_seq(text, e@) {
                    OutcomeView::Passed
                } else {
                    OutcomeView::Failed(mismatch_message(e@, text))
                },
            },
        },
    }
}

/// A fresh string holding `s`.
pub fn owned(s: &str) -> (r: String)
    ensures
        r@ == s@,
{
    String::from_str(s)
}

/// The outcome of a unit test whose attempt ended as `t`, under its panic
/// expectation.
pub fn unit_outcome(should_panic: Option<ShouldPanic>, t: &Termination) -> (r: Outcome)
    ensures
        r@ == unit_verdict(should_panic, t@),
{
    match should_panic {
        None => match t {
            Termination::Normal => Outcome::Passed,
            Termination::Abnormal(_) => Outcome::Failed(owned(UNEXPECTED_PANIC)),
        },
        Some(sp) => match t {
            Termination::Normal => Outcome::Failed(owned(NO_PANIC)),
            Termination::Abnormal(Payload::Opaque) => Outcome::Failed(owned(NON_STRING_PANIC)),
            Termination::Abnormal(Payload::Text(text)) => match sp.expected {
                None => Outcome::Passed,
                Some(e) => {
                    if contains(text.as_str(), e) {
                        Outcome::Passed
                    } else {
                        let mut msg = owned(MISMATCH_HEAD);
                        msg.append(e);
                        msg.append(MISMATCH_FOUND);
                        msg.append(text.as_str());
                        Outcome::Failed(msg)
                    }
                },
            },
        },
    }
}

} // verus!
