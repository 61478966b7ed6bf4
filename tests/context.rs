use satchel::CaseContext;

#[test]
fn case_attributes_reset_to_previous() {
    let mut ctx = CaseContext::new();
    assert!(ctx.current().is_empty());
    let previous = ctx.enter(&["one", "--two=2"]);
    assert_eq!(ctx.current(), &["one", "--two=2"]);
    ctx.restore(previous);
    assert!(ctx.current().is_empty());
}

#[test]
fn nested_contexts_restore_in_turn() {
    let mut ctx = CaseContext::new();
    let outer_prev = ctx.enter(&["outer"]);
    let inner_prev = ctx.enter(&["--threads=9"]);
    assert_eq!(ctx.current(), &["--threads=9"]);
    ctx.restore(inner_prev);
    assert_eq!(ctx.current(), &["outer"]);
    ctx.restore(outer_prev);
    assert!(ctx.current().is_empty());
}
