//! The markers of the case whose entry point is running, as its entry point
//! sees them.
//!
//! A harness keeps one [`CaseContext`] per worker (the context is never shared
//! between workers), enters a case's markers before invoking its entry point
//! and restores the previous markers when the entry point returns or panics.

use vstd::prelude::*;

verus! {

/// A slot holding the markers of the case currently running.
pub struct CaseContext {
    current: &'static [&'static str],
}

impl CaseContext {
    /// The markers the slot holds.
    pub closed spec fn attributes(&self) -> Seq<&'static str> {
        self.current@
    }

    /// An empty slot: no case is running.
    pub fn new() -> (r: CaseContext)
        ensures
            r.attributes() == Seq::<&'static str>::empty(),
    {
        let none: &'static [&'static str] = &[];
        assert(none@ =~= Seq::<&'static str>::empty());
        CaseContext { current: none }
    }

    /// The markers of the running case; empty when no case runs.
    pub fn current(&self) -> (r: &'static [&'static str])
        ensures
            r@ == self.attributes(),
    {
        self.current
    }

    /// Makes `attributes` the markers of the running case, and returns the
    /// markers it replaces, for [`CaseContext::restore`].
    pub fn enter(&mut self, attributes: &'static [&'static str]) -> (previous: &'static [&'static str])
        ensures
            final(self).attributes() == attributes@,
            previous@ == old(self).attributes(),
    {
        let previous = self.current;
        self.current = attributes;
        previous
    }

    /// Puts back the markers that [`CaseContext::enter`] replaced.
    pub fn restore(&mut self, previous: &'static [&'static str])
        ensures
            final(self).attributes() == previous@,
    {
        self.current = previous;
    }
}

} // verus!
