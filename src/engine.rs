//! The execution engine: a state machine that decides, from the attempts made
//! so far, whether to invoke a case's entry point again or how the case ends.
//!
//! The engine never calls an entry point itself. The harness asks for an
//! [`Action`]: on [`Action::Invoke`] it invokes the entry point once under the
//! case's context, catches any panic, times the call, and hands the
//! [`Attempt`] back through [`Execution::step`]; on [`Action::Finish`] the case
//! is resolved.

use vstd::prelude::*;

use crate::case::{Ignore, ShouldPanic, TestCase, TestKind};
use crate::outcome::{
    owned, unit_outcome, unit_verdict, Outcome, OutcomeView, Termination, TerminationView,
};
use crate::stats::{measurement_of, measurement_spec, BENCH_ITERATIONS};
use crate::text::str_eq;

verus! {

/// The case attribute that asks for a second attempt after a failure.
pub const RETRY_ON_FAILURE: &'static str = "retry_on_failure";

/// Failure message of a benchmark that panicked in validate mode.
pub const BENCH_VALIDATE_PANIC: &'static str = "Bench panicked in test_mode: Any { .. }";

/// Failure message of a benchmark that panicked in measure mode.
pub const BENCH_MEASURE_PANIC: &'static str = "Bench panicked in bench mode: Any { .. }";

/// How a benchmark is run.
#[derive(Debug, Clone, Copy, PartialEq, Eq, Structural)]
pub enum BenchMode {
    /// One invocation, to check that it completes.
    Validate,
    /// `BENCH_ITERATIONS` timed invocations.
    Measure,
}

/// What the caller asks of a run.
#[derive(Debug, Clone, Copy)]
pub struct RunConfig {
    /// Whether cases carrying an ignore marker are run.
    pub include_ignored: bool,
    /// How benchmarks are run.
    pub bench_mode: BenchMode,
}

/// Everything the engine's decisions depend on for one case.
#[derive(Debug, Clone, Copy)]
pub struct Plan {
    pub kind: TestKind,
    pub should_panic: Option<ShouldPanic>,
    pub ignore: Option<Ignore>,
    /// A failed first attempt is followed by a second one.
    pub retry: bool,
    pub config: RunConfig,
}

/// One invocation of an entry point: how it ended and how long it took.
#[derive(Debug, PartialEq, Eq)]
pub struct Attempt {
    pub termination: Termination,
    pub elapsed_nanos: u64,
}

/// The mathematical model of an [`Attempt`].
pub struct AttemptView {
    pub termination: TerminationView,
    pub elapsed_nanos: u64,
}

impl View for Attempt {
    type V = AttemptView;

    open spec fn view(&self) -> AttemptView {
        AttemptView { termination: self.termination@, elapsed_nanos: self.elapsed_nanos }
    }
}

/// A resolved case: its outcome, and the timing of a measured benchmark.
#[derive(Debug, PartialEq, Eq)]
pub struct Report {
    pub outcome: Outcome,
    pub measurement: Option<libtest_mimic::Measurement>,
}

/// What the harness is to do next.
#[derive(Debug, PartialEq, Eq)]
pub enum Action {
    /// Invoke the entry point once more and report the attempt.
    Invoke,
    /// The case is resolved.
    Finish(Report),
}

/// The mathematical model of an [`Action`].
pub enum Step {
    Invoke,
    Finish(OutcomeView, Option<libtest_mimic::Measurement>),
}

impl View for Action {
    type V = Step;

    open spec fn view(&self) -> Step {
        match self {
            Action::Invoke => Step::Invoke,
            Action::Finish(r) => Step::Finish(r.outcome@, r.measurement),
        }
    }
}

/// Whether one of the attributes is exactly `marker`.
pub open spec fn has_marker(attributes: Seq<&str>, marker: Seq<char>) -> bool {
    exists|i: int| 0 <= i < attributes.len() && attributes[i]@ == marker
}

/// The plan of a case under a run configuration. Retrying applies only to a
/// case without a panic expectation that carries the retry marker.
pub open spec fn plan_of<F>(case: TestCase<F>, config: RunConfig) -> Plan {
    Plan {
        kind: case.kind,
        should_panic: case.should_panic,
        ignore: case.ignore,
        retry: case.should_panic is None && has_marker(case.case_attributes@, RETRY_ON_FAILURE@),
        config,
    }
}

/// Whether the plan skips the case without invoking it.
pub open spec fn skips(plan: Plan) -> bool {
    plan.ignore is Some && !plan.config.include_ignored
}

/// The reason carried by an ignore marker.
pub open spec fn skip_reason(ignore: Option<Ignore>) -> Option<Seq<char>> {
    match ignore {
        Some(Ignore { reason: Some(r) }) => Some(r@),
        _ => None,
    }
}

/// The elapsed times of the attempts, in order.
pub open spec fn samples_of(h: Seq<AttemptView>) -> Seq<u64> {
    h.map_values(|a: AttemptView| a.elapsed_nanos)
}

/// What follows the attempts `h` of a unit test.
pub open spec fn unit_step(plan: Plan, h: Seq<AttemptView>) -> Step {
    if h.len() == 0 {
        Step::Invoke
    } else if h.len() == 1 && plan.retry && h[0].termination is Abnormal {
        Step::Invoke
    } else {
        Step::Finish(unit_verdict(plan.should_panic, h.last().termination), None)
    }
}

/// What follows the attempts `h` of a benchmark in validate mode.
pub open spec fn validate_step(h: Seq<AttemptView>) -> Step {
    if h.len() == 0 {
        Step::Invoke
    } else {
        match h[0].termination {
            TerminationView::Normal => Step::Finish(OutcomeView::Passed, None),
            TerminationView::Abnormal(_) => Step::Finish(
                OutcomeView::Failed(BENCH_VALIDATE_PANIC@),
                None,
            ),
        }
    }
}

/// What follows the attempts `h` of a benchmark in measure mode: the first
/// panic ends the run, else `BENCH_ITERATIONS` attempts are timed.
pub open spec fn measure_step(h: Seq<AttemptView>) -> Step {
    if h.len() > 0 && h.last().termination is Abnormal {
        Step::Finish(OutcomeView::Failed(BENCH_MEASURE_PANIC@), None)
    } else if h.len() < BENCH_ITERATIONS {
        Step::Invoke
    } else {
        Step::Finish(OutcomeView::Passed, Some(measurement_spec(samples_of(h))))
    }
}

/// What the engine does after the attempts `h` of a case planned as `plan`.
pub open spec fn decide(plan: Plan, h: Seq<AttemptView>) -> Step {
    if skips(plan) {
        Step::Finish(OutcomeView::Skipped(skip_reason(plan.ignore)), None)
    } else {
        match plan.kind {
            TestKind::Unit => unit_step(plan, h),
            TestKind::Benchmark => match plan.config.bench_mode {
                BenchMode::Validate => validate_step(h),
                BenchMode::Measure => measure_step(h),
            },
        }
    }
}

/// The models of a sequence of attempts.
pub open spec fn attempts_view(s: Seq<Attempt>) -> Seq<AttemptView> {
    s.map_values(|a: Attempt| a@)
}

/// Whether one of `attributes` is exactly `marker`.
pub fn has_case_attribute(attributes: &[&str], marker: &str) -> (r: bool)
    ensures
        r == has_marker(attributes@, marker@),
{
    let mut i: usize = 0;
    while i < attributes.len()
        invariant
            i <= attributes@.len(),
            forall|j: int| 0 <= j < i ==> attributes@[j]@ != marker@,
        decreases attributes@.len() - i,
    {
        if str_eq(attributes[i], marker) {
            return true;
        }
        i += 1;
    }
    false
}

impl Plan {
    /// The plan of `case` under `config`.
    pub fn for_case<F>(case: &TestCase<F>, config: RunConfig) -> (r: Plan)
        ensures
            r == plan_of(*case, config),
    {
        let retry = case.should_panic.is_none() && has_case_attribute(
            case.case_attributes,
            RETRY_ON_FAILURE,
        );
        Plan {
            kind: case.kind,
            should_panic: case.should_panic,
            ignore: case.ignore,
            retry,
            config: config,
        }
    }
}

proof fn lemma_invoke_bounds_attempts(plan: Plan, h: Seq<AttemptView>)
    requires
        decide(plan, h) is Invoke,
    ensures
        h.len() < BENCH_ITERATIONS,
{
}

/// The elapsed times of the attempts.
fn samples_from(history: &Vec<Attempt>) -> (r: Vec<u64>)
    ensures
        r@ == samples_of(attempts_view(history@)),
{
    let mut r: Vec<u64> = Vec::new();
    let mut i: usize = 0;
    while i < history.len()
        invariant
            i <= history@.len(),
            r@ == samples_of(attempts_view(history@.subrange(0, i as int))),
        decreases history@.len() - i,
    {
        r.push(history[i].elapsed_nanos);
        assert(samples_of(attempts_view(history@.subrange(0, i + 1))) =~= samples_of(
            attempts_view(history@.subrange(0, i as int)),
        ).push(history@[i as int].elapsed_nanos));
        i += 1;
    }
    assert(history@.subrange(0, i as int) =~= history@);
    r
}

/// The action that follows the attempts `history` of a case planned as `plan`.
fn next_action(plan: &Plan, history: &Vec<Attempt>) -> (r: Action)
    requires
        history@.len() <= BENCH_ITERATIONS,
    ensures
        r@ == decide(*plan, attempts_view(history@)),
{
    let ghost h = attempts_view(history@);
    if plan.ignore.is_some() && !plan.config.include_ignored {
        let reason = match plan.ignore {
            Some(Ignore { reason: Some(r) }) => Some(owned(r)),
            _ => None,
        };
        return Action::Finish(Report { outcome: Outcome::Skipped(reason), measurement: None });
    }
    let n = history.len();
    match plan.kind {
        TestKind::Unit => {
            if n == 0 {
                Action::Invoke
            } else if n == 1 && plan.retry && matches!(history[0].termination, Termination::Abnormal(_)) {
                Action::Invoke
            } else {
                let outcome = unit_outcome(plan.should_panic, &history[n - 1].termination);
                Action::Finish(Report { outcome, measurement: None })
            }
        },
        TestKind::Benchmark => match plan.config.bench_mode {
            BenchMode::Validate => {
                if n == 0 {
                    Action::Invoke
                } else {
                    match history[0].termination {
                        Termination::Normal => Action::Finish(
                            Report { outcome: Outcome::Passed, measurement: None },
                        ),
                        Termination::Abnormal(_) => Action::Finish(
                            Report {
                                outcome: Outcome::Failed(owned(BENCH_VALIDATE_PANIC)),
                                measurement: None,
                            },
                        ),
                    }
                }
            },
            BenchMode::Measure => {
                if n > 0 && matches!(history[n - 1].termination, Termination::Abnormal(_)) {
                    Action::Finish(
                        Report {
                            outcome: Outcome::Failed(owned(BENCH_MEASURE_PANIC)),
                            measurement: None,
                        },
                    )
                } else if n < BENCH_ITERATIONS {
                    Action::Invoke
                } else {
                    let samples = samples_from(history);
                    let m = measurement_of(samples.as_slice());
                    Action::Finish(Report { outcome: Outcome::Passed, measurement: Some(m) })
                }
            },
        },
    }
}

/// The run of one case: its plan and the attempts made so far.
pub struct Execution {
    plan: Plan,
    history: Vec<Attempt>,
}

impl View for Execution {
    type V = Seq<AttemptView>;

    /// The attempts made so far, in order.
    closed spec fn view(&self) -> Seq<AttemptView> {
        attempts_view(self.history@)
    }
}

impl Execution {
    /// The plan the run follows.
    pub closed spec fn plan(&self) -> Plan {
        self.plan
    }

    #[verifier::type_invariant]
    spec fn inv(&self) -> bool {
        self.history@.len() <= BENCH_ITERATIONS
    }

    /// Starts the run of `case` under `config`, with no attempt made yet, and
    /// says what to do first.
    pub fn start<F>(case: &TestCase<F>, config: RunConfig) -> (r: (Execution, Action))
        ensures
            r.0.plan() == plan_of(*case, config),
            r.0@ == Seq::<AttemptView>::empty(),
            r.1@ == decide(r.0.plan(), r.0@),
    {
        let plan = Plan::for_case(case, config);
        let history: Vec<Attempt> = Vec::new();
        assert(attempts_view(history@) =~= Seq::<AttemptView>::empty());
        let action = next_action(&plan, &history);
        (Execution { plan, history }, action)
    }

    /// Records `attempt` if the run was waiting for one, and says what to do
    /// next. A resolved run stays as it is and repeats its resolution.
    pub fn step(self, attempt: Attempt) -> (r: (Execution, Action))
        ensures
            r.0.plan() == self.plan(),
            decide(self.plan(), self@) is Invoke ==> r.0@ == self@.push(attempt@),
            !(decide(self.plan(), self@) is Invoke) ==> r.0@ == self@,
            r.1@ == decide(r.0.plan(), r.0@),
    {
        proof {
            use_type_invariant(&self);
        }
        let current = next_action(&self.plan, &self.history);
        match current {
            Action::Invoke => {
                proof {
                    lemma_invoke_bounds_attempts(self.plan, attempts_view(self.history@));
                }
                let Execution { plan, mut history } = self;
                let ghost before = history@;
                history.push(attempt);
                assert(attempts_view(history@) =~= attempts_view(before).push(attempt@));
                let action = next_action(&plan, &history);
                (Execution { plan, history }, action)
            },
            finished => (self, finished),
        }
    }
}

/// A unit test without a panic expectation whose entry point returns passes
/// after that one attempt.
pub proof fn normal_completion_passes<F>(case: TestCase<F>, config: RunConfig, a: AttemptView)
    requires
        case.kind == TestKind::Unit,
        case.should_panic is None,
        !skips(plan_of(case, config)),
        a.termination is Normal,
    ensures
        decide(plan_of(case, config), Seq::empty()) is Invoke,
        decide(plan_of(case, config), seq![a]) == Step::Finish(OutcomeView::Passed, None),
{
}

/// A unit test that expects a panic whose text contains `s` is attempted
/// once, whatever its markers, and passes exactly when its entry point
/// panics with a text that contains `s`; otherwise it fails.
pub proof fn expected_substring_decides<F>(
    case: TestCase<F>,
    config: RunConfig,
    s: &str,
    a: AttemptView,
)
    requires
        case.kind == TestKind::Unit,
        case.should_panic == Some(ShouldPanic { expected: Some(s) }),
        !skips(plan_of(case, config)),
    ensures
        decide(plan_of(case, config), Seq::empty()) is Invoke,
        decide(plan_of(case, config), seq![a]) is Finish,
        decide(plan_of(case, config), seq![a]) matches Step::Finish(o, m) && m is None && (
        o == OutcomeView::Passed <==> (a.termination matches TerminationView::Abnormal(Some(t))
            && crate::text::contains_seq(t, s@))) && (o != OutcomeView::Passed ==> o is Failed),
{
}

/// A unit test without a panic expectation that carries the retry marker is
/// attempted again after a panic, and only the second attempt counts: it
/// passes if that attempt returns and fails if it panics too.
pub proof fn retry_on_failure_decides<F>(
    case: TestCase<F>,
    config: RunConfig,
    first: AttemptView,
    second: AttemptView,
)
    requires
        case.kind == TestKind::Unit,
        case.should_panic is None,
        has_marker(case.case_attributes@, RETRY_ON_FAILURE@),
        !skips(plan_of(case, config)),
        first.termination is Abnormal,
    ensures
        decide(plan_of(case, config), seq![first]) is Invoke,
        second.termination is Normal ==> decide(plan_of(case, config), seq![first, second])
            == Step::Finish(OutcomeView::Passed, None),
        second.termination is Abnormal ==> decide(plan_of(case, config), seq![first, second])
            matches Step::Finish(OutcomeView::Failed(_), None),
{
}

/// A case carrying an ignore marker, in a run that does not ask for ignored
/// cases, is skipped with its reason before any attempt.
pub proof fn ignored_case_is_never_invoked<F>(case: TestCase<F>, config: RunConfig, h: Seq<AttemptView>)
    requires
        case.ignore is Some,
        !config.include_ignored,
    ensures
        decide(plan_of(case, config), h) == Step::Finish(
            OutcomeView::Skipped(skip_reason(case.ignore)),
            None,
        ),
{
}

} // verus!
