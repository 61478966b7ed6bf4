use satchel::{
    display_name, list_cases, list_line, listing_order, trial_name, Ignore, ListMode, TestCase,
    TestKind,
};

fn nothing() {}

fn case(
    module: &'static str,
    name: &'static str,
    kind: TestKind,
    ignore: Option<Ignore>,
) -> TestCase<fn()> {
    TestCase {
        name,
        module,
        kind,
        test_fn: nothing as fn(),
        should_panic: None,
        ignore,
        case_attributes: &[],
    }
}

fn registry() -> Vec<TestCase<fn()>> {
    vec![
        case("demo::tests", "zeta", TestKind::Unit, None),
        case("demo::tests", "bench_multiply", TestKind::Benchmark, None),
        case("demo::a", "first", TestKind::Unit, None),
        case("demo::tests", "test_ignored_failing", TestKind::Unit, Some(Ignore { reason: None })),
        case(
            "demo::tests",
            "test_ignored_simple",
            TestKind::Unit,
            Some(Ignore { reason: Some("not yet implemented") }),
        ),
        case("demo::tests", "alpha", TestKind::Unit, None),
    ]
}

#[test]
fn trial_name_joins_module_and_name() {
    let c = case("demo::tests", "alpha", TestKind::Unit, None);
    assert_eq!(trial_name(&c), "demo::tests::alpha");
}

#[test]
fn display_name_carries_ignore_reason() {
    let c = case(
        "demo::tests",
        "slow",
        TestKind::Unit,
        Some(Ignore { reason: Some("performance test - takes too long") }),
    );
    assert_eq!(display_name(&c), "demo::tests::slow (ignored: performance test - takes too long)");
    assert_eq!(trial_name(&c), "demo::tests::slow");
    let bare = case("demo::tests", "plain", TestKind::Unit, Some(Ignore { reason: None }));
    assert_eq!(display_name(&bare), "demo::tests::plain");
}

#[test]
fn list_line_names_the_kind() {
    let u = case("m", "u", TestKind::Unit, None);
    let b = case("m", "b", TestKind::Benchmark, None);
    assert_eq!(list_line(&u), "m::u: test");
    assert_eq!(list_line(&b), "m::b: benchmark");
}

#[test]
fn default_listing_is_sorted_and_skips_ignored() {
    let lines = list_cases(&registry(), ListMode::Default);
    assert_eq!(
        lines,
        vec![
            "demo::a::first: test",
            "demo::tests::alpha: test",
            "demo::tests::bench_multiply: benchmark",
            "demo::tests::zeta: test",
        ]
    );
}

#[test]
fn ignored_only_listing_shows_only_ignored() {
    let lines = list_cases(&registry(), ListMode::IgnoredOnly);
    assert_eq!(
        lines,
        vec!["demo::tests::test_ignored_failing: test", "demo::tests::test_ignored_simple: test"]
    );
}

#[test]
fn listing_order_gives_indices() {
    assert_eq!(listing_order(&registry(), ListMode::Default), vec![2, 5, 1, 0]);
    assert_eq!(listing_order(&registry(), ListMode::IgnoredOnly), vec![3, 4]);
}

#[test]
fn listing_sorts_by_module_before_name() {
    let cases = vec![
        case("b", "a", TestKind::Unit, None),
        case("a::z", "z", TestKind::Unit, None),
        case("a", "z", TestKind::Unit, None),
        case("a", "y", TestKind::Unit, None),
    ];
    assert_eq!(list_cases(&cases, ListMode::Default), vec!["a::y: test", "a::z: test", "a::z::z: test", "b::a: test"]);
}

#[test]
fn listing_orders_by_code_point() {
    let cases = vec![
        case("m", "b", TestKind::Unit, None),
        case("m", "B", TestKind::Unit, None),
        case("m", "é", TestKind::Unit, None),
        case("m", "ab", TestKind::Unit, None),
        case("m", "a", TestKind::Unit, None),
    ];
    assert_eq!(listing_order(&cases, ListMode::Default), vec![1, 4, 3, 0, 2]);
}

#[test]
fn listing_of_empty_registry() {
    let cases: Vec<TestCase<fn()>> = Vec::new();
    assert!(list_cases(&cases, ListMode::Default).is_empty());
    assert!(list_cases(&cases, ListMode::IgnoredOnly).is_empty());
}
