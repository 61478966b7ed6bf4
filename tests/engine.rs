use satchel::{
    unit_outcome, Action, Attempt, BenchMode, Execution, Ignore, Outcome, Payload, Plan, Report,
    RunConfig, ShouldPanic, TestCase, TestKind, Termination, BENCH_ITERATIONS,
};

fn nothing() {}

fn unit_case(
    name: &'static str,
    should_panic: Option<ShouldPanic>,
    case_attributes: &'static [&'static str],
) -> TestCase<fn()> {
    TestCase {
        name,
        module: "demo::tests",
        kind: TestKind::Unit,
        test_fn: nothing as fn(),
        should_panic,
        ignore: None,
        case_attributes,
    }
}

fn bench_case(name: &'static str) -> TestCase<fn()> {
    TestCase {
        name,
        module: "demo::tests",
        kind: TestKind::Benchmark,
        test_fn: nothing as fn(),
        should_panic: None,
        ignore: None,
        case_attributes: &[],
    }
}

fn tests_mode() -> RunConfig {
    RunConfig { include_ignored: false, bench_mode: BenchMode::Validate }
}

fn bench_mode() -> RunConfig {
    RunConfig { include_ignored: false, bench_mode: BenchMode::Measure }
}

fn normal(elapsed_nanos: u64) -> Attempt {
    Attempt { termination: Termination::Normal, elapsed_nanos }
}

fn panic_with(text: &str) -> Attempt {
    Attempt {
        termination: Termination::Abnormal(Payload::Text(text.to_string())),
        elapsed_nanos: 1,
    }
}

fn opaque_panic() -> Attempt {
    Attempt { termination: Termination::Abnormal(Payload::Opaque), elapsed_nanos: 1 }
}

/// Drives a run to its end; `attempt(k)` is the k-th attempt. Returns the
/// report and the number of attempts made.
fn drive(
    case: &TestCase<fn()>,
    config: RunConfig,
    mut attempt: impl FnMut(usize) -> Attempt,
) -> (Report, usize) {
    let (mut exec, mut action) = Execution::start(case, config);
    let mut made = 0;
    loop {
        match action {
            Action::Invoke => {
                let a = attempt(made);
                made += 1;
                let (next_exec, next_action) = exec.step(a);
                exec = next_exec;
                action = next_action;
            }
            Action::Finish(report) => return (report, made),
        }
    }
}

fn failed(message: &str) -> Outcome {
    Outcome::Failed(message.to_string())
}

#[test]
fn normal_completion_passes() {
    let case = unit_case("test_multiply_positive", None, &[]);
    let (report, made) = drive(&case, tests_mode(), |_| normal(5));
    assert_eq!(report.outcome, Outcome::Passed);
    assert_eq!(report.measurement, None);
    assert_eq!(made, 1);
}

#[test]
fn unexpected_panic_fails() {
    let case = unit_case("it_fails_intentionally", None, &[]);
    let (report, made) = drive(&case, tests_mode(), |_| panic_with("This is an intentional failure!"));
    assert_eq!(report.outcome, failed("Unexpected panic: Any { .. }"));
    assert_eq!(made, 1);
}

#[test]
fn bare_should_panic() {
    let case = unit_case("bare_should_panic", Some(ShouldPanic { expected: None }), &[]);
    let (report, made) = drive(&case, tests_mode(), |_| panic_with("boom"));
    assert_eq!(report.outcome, Outcome::Passed);
    assert_eq!(made, 1);
    let (report, _) = drive(&case, tests_mode(), |_| normal(1));
    assert_eq!(report.outcome, failed("Expected panic did not occur"));
}

#[test]
fn named_expected() {
    let case = unit_case("named_expected", Some(ShouldPanic { expected: Some("partial message") }), &[]);
    let (report, _) = drive(&case, tests_mode(), |_| panic_with("some partial message here"));
    assert_eq!(report.outcome, Outcome::Passed);
}

#[test]
fn eq_shorthand() {
    let case =
        unit_case("eq_shorthand", Some(ShouldPanic { expected: Some("substring shorthand") }), &[]);
    let (report, _) = drive(&case, tests_mode(), |_| panic_with("substring shorthand and more"));
    assert_eq!(report.outcome, Outcome::Passed);
}

#[test]
fn positional_form() {
    let case =
        unit_case("positional_form", Some(ShouldPanic { expected: Some("positional literal") }), &[]);
    let (report, _) = drive(&case, tests_mode(), |_| panic_with("xxx positional literal yyy"));
    assert_eq!(report.outcome, Outcome::Passed);
}

#[test]
fn raw_string_expected() {
    let case = unit_case("raw_string_expected", Some(ShouldPanic { expected: Some(r"raw msg") }), &[]);
    let (report, _) = drive(&case, tests_mode(), |_| panic_with("some prefix raw msg some suffix"));
    assert_eq!(report.outcome, Outcome::Passed);
}

#[test]
fn expected_substring_is_case_sensitive() {
    let case = unit_case("mismatch", Some(ShouldPanic { expected: Some("Multiplier") }), &[]);
    let (report, _) = drive(&case, tests_mode(), |_| {
        panic_with("Error: invalid multiplier in calculation")
    });
    assert_eq!(
        report.outcome,
        failed(
            "Panic message did not contain expected string.\nExpected substring: Multiplier\n      Found string: Error: invalid multiplier in calculation"
        )
    );
}

#[test]
fn expected_panic_without_text_fails() {
    let any = unit_case("any", Some(ShouldPanic { expected: None }), &[]);
    let (report, _) = drive(&any, tests_mode(), |_| opaque_panic());
    assert_eq!(report.outcome, failed("Test panicked with a non-string message"));
    let some = unit_case("some", Some(ShouldPanic { expected: Some("x") }), &[]);
    let (report, _) = drive(&some, tests_mode(), |_| opaque_panic());
    assert_eq!(report.outcome, failed("Test panicked with a non-string message"));
}

#[test]
fn expected_panic_missing_fails() {
    let case = unit_case("missing", Some(ShouldPanic { expected: Some("boom") }), &[]);
    let (report, _) = drive(&case, tests_mode(), |_| normal(1));
    assert_eq!(report.outcome, failed("Expected panic did not occur"));
}

#[test]
fn empty_expected_substring_matches_any_text() {
    let case = unit_case("empty", Some(ShouldPanic { expected: Some("") }), &[]);
    let (report, _) = drive(&case, tests_mode(), |_| panic_with(""));
    assert_eq!(report.outcome, Outcome::Passed);
}

#[test]
fn unit_outcome_table() {
    let none = None;
    let bare = Some(ShouldPanic { expected: None });
    let some = Some(ShouldPanic { expected: Some("needle") });
    let text = |s: &str| Termination::Abnormal(Payload::Text(s.to_string()));
    assert_eq!(unit_outcome(none, &Termination::Normal), Outcome::Passed);
    assert_eq!(unit_outcome(none, &text("x")), failed("Unexpected panic: Any { .. }"));
    assert_eq!(unit_outcome(none, &Termination::Abnormal(Payload::Opaque)), failed("Unexpected panic: Any { .. }"));
    assert_eq!(unit_outcome(bare, &Termination::Normal), failed("Expected panic did not occur"));
    assert_eq!(unit_outcome(bare, &text("x")), Outcome::Passed);
    assert_eq!(unit_outcome(some, &text("a needle b")), Outcome::Passed);
    assert_eq!(unit_outcome(some, &text("needl")), failed("Panic message did not contain expected string.\nExpected substring: needle\n      Found string: needl"));
}

#[test]
fn retry_recovers_on_second_attempt() {
    let case = unit_case("test_retry_on_failure_runs_twice", None, &["retry_on_failure"]);
    let (report, made) = drive(&case, tests_mode(), |k| if k == 0 { panic_with("First try!") } else { normal(1) });
    assert_eq!(report.outcome, Outcome::Passed);
    assert_eq!(made, 2);
}

#[test]
fn retry_fails_when_both_attempts_fail() {
    let case = unit_case("flaky", None, &["other", "retry_on_failure"]);
    let (report, made) = drive(&case, tests_mode(), |_| panic_with("again"));
    assert_eq!(report.outcome, failed("Unexpected panic: Any { .. }"));
    assert_eq!(made, 2);
}

#[test]
fn retry_not_needed_after_success() {
    let case = unit_case("steady", None, &["retry_on_failure"]);
    let (report, made) = drive(&case, tests_mode(), |_| normal(1));
    assert_eq!(report.outcome, Outcome::Passed);
    assert_eq!(made, 1);
}

#[test]
fn retry_suppressed_by_panic_expectation() {
    let case = unit_case("expects", Some(ShouldPanic { expected: None }), &["retry_on_failure"]);
    let (report, made) = drive(&case, tests_mode(), |_| normal(1));
    assert_eq!(report.outcome, failed("Expected panic did not occur"));
    assert_eq!(made, 1);
    let plan = Plan::for_case(&case, tests_mode());
    assert!(!plan.retry);
}

#[test]
fn retry_marker_must_match_exactly() {
    let case = unit_case("near", None, &["retry_on_failure_x", "Retry_on_failure"]);
    let (report, made) = drive(&case, tests_mode(), |k| if k == 0 { panic_with("once") } else { normal(1) });
    assert_eq!(report.outcome, failed("Unexpected panic: Any { .. }"));
    assert_eq!(made, 1);
}

#[test]
fn test_ignored_failing() {
    let mut case = unit_case("test_ignored_failing", None, &[]);
    case.ignore = Some(Ignore { reason: None });
    let (exec, action) = Execution::start(&case, tests_mode());
    assert_eq!(action, Action::Finish(Report { outcome: Outcome::Skipped(None), measurement: None }));
    let (_, again) = exec.step(panic_with("would fail"));
    assert_eq!(again, Action::Finish(Report { outcome: Outcome::Skipped(None), measurement: None }));
}

#[test]
fn ignored_case_keeps_its_reason() {
    let mut case = unit_case("test_ignored_simple", None, &[]);
    case.ignore = Some(Ignore { reason: Some("not yet implemented") });
    let (report, made) = drive(&case, tests_mode(), |_| normal(1));
    assert_eq!(report.outcome, Outcome::Skipped(Some("not yet implemented".to_string())));
    assert_eq!(made, 0);
}

#[test]
fn ignored_case_runs_when_requested() {
    let mut case = unit_case("test_ignored_failing", None, &[]);
    case.ignore = Some(Ignore { reason: None });
    let config = RunConfig { include_ignored: true, bench_mode: BenchMode::Validate };
    let (report, made) = drive(&case, config, |_| panic_with("assertion failed"));
    assert_eq!(report.outcome, failed("Unexpected panic: Any { .. }"));
    assert_eq!(made, 1);
}

#[test]
fn benchmark_validate_mode() {
    let case = bench_case("bench_multiply");
    let (report, made) = drive(&case, tests_mode(), |_| normal(3));
    assert_eq!(report, Report { outcome: Outcome::Passed, measurement: None });
    assert_eq!(made, 1);
    let (report, made) = drive(&case, tests_mode(), |_| panic_with("oops"));
    assert_eq!(report.outcome, failed("Bench panicked in test_mode: Any { .. }"));
    assert_eq!(made, 1);
}

#[test]
fn benchmark_measure_constant_time_has_no_variance() {
    let case = bench_case("bench_multiply");
    let (report, made) = drive(&case, bench_mode(), |_| normal(250));
    assert_eq!(made, BENCH_ITERATIONS);
    assert_eq!(report.outcome, Outcome::Passed);
    assert_eq!(report.measurement, Some(libtest_mimic::Measurement { avg: 250, variance: 0 }));
}

#[test]
fn benchmark_measure_statistics() {
    let case = bench_case("alternating");
    // half the samples take 100 ns, half 300 ns: mean 200, variance 10000
    let (report, made) = drive(&case, bench_mode(), |k| normal(if k % 2 == 0 { 100 } else { 300 }));
    assert_eq!(made, 1000);
    assert_eq!(report.measurement, Some(libtest_mimic::Measurement { avg: 200, variance: 10000 }));
}

#[test]
fn benchmark_measure_stops_at_first_panic() {
    let case = bench_case("breaks");
    let (report, made) = drive(&case, bench_mode(), |k| if k == 499 { panic_with("late") } else { normal(1) });
    assert_eq!(made, 500);
    assert_eq!(report, Report { outcome: failed("Bench panicked in bench mode: Any { .. }"), measurement: None });
}

#[test]
fn resolved_run_ignores_further_attempts() {
    let case = unit_case("done", None, &[]);
    let (exec, action) = Execution::start(&case, tests_mode());
    assert_eq!(action, Action::Invoke);
    let (exec, action) = exec.step(normal(1));
    assert_eq!(action, Action::Finish(Report { outcome: Outcome::Passed, measurement: None }));
    let (_, action) = exec.step(panic_with("late"));
    assert_eq!(action, Action::Finish(Report { outcome: Outcome::Passed, measurement: None }));
}
