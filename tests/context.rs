use scoped_trace::context::Context;
use scoped_trace::walk::Walk;

#[test]
fn leaf_without_accumulator_changes_nothing() {
    let mut context = Context::new();
    context.leaf(1);
    assert!(context.frames.is_empty());
    assert!(context.collector.is_none());
    let depth = context.enter_root(7);
    context.leaf(1);
    assert!(context.collector.is_none());
    context.exit_root(depth);
    assert!(context.frames.is_empty());
}

#[test]
fn leaf_without_root_records_empty_capture() {
    let mut context = Context::new();
    let previous = context.begin_capture();
    context.leaf(1);
    let set = context.end_capture(previous);
    assert_eq!(set.captures, vec![Vec::<usize>::new()]);
    assert!(context.collector.is_none());
}

/// The (instruction address, function address) of this frame's two callers.
fn callers() -> Vec<(usize, usize)> {
    let mut frames = Vec::new();
    backtrace::trace(|frame| {
        frames.push((frame.ip() as usize, frame.symbol_address() as usize));
        frames.len() < 4
    });
    frames[1..4].to_vec()
}

// Leaves the root entered by its caller's caller and enters one bounded by
// that frame's own function, found on the stack, then records a capture.
fn leaf_point(context: &mut Context, depth: usize) -> Vec<(usize, usize)> {
    let frames = callers();
    context.exit_root(depth);
    context.enter_root(frames[2].1);
    context.leaf(frames[0].1);
    frames
}

fn middle(context: &mut Context, depth: usize) -> Vec<(usize, usize)> {
    leaf_point(context, depth)
}

fn scope(context: &mut Context) -> Vec<Vec<(usize, usize)>> {
    let depth = context.enter_root(0);
    let first = middle(context, depth);
    let second = middle(context, depth);
    context.exit_root(depth);
    vec![first, second]
}

#[test]
fn each_leaf_appends_one_capture_in_order() {
    let mut context = Context::new();
    let previous = context.begin_capture();
    let calls = scope(&mut context);
    let set = context.end_capture(previous);
    // the leaf's own frame is left out; the middle frame is recorded by its
    // instruction address; the boundary frame closes the capture
    let expected: Vec<Vec<usize>> =
        calls.iter().map(|frames| vec![frames[1].0, frames[2].1]).collect();
    assert_eq!(set.captures, expected);
    assert!(context.frames.is_empty());
}

#[test]
fn nested_capture_keeps_leaves_apart() {
    let mut context = Context::new();
    let outer = context.begin_capture();
    context.leaf(1);
    let inner = context.begin_capture();
    context.leaf(1);
    context.leaf(1);
    let inner_set = context.end_capture(inner);
    assert_eq!(inner_set.captures.len(), 2);
    let outer_set = context.end_capture(outer);
    assert_eq!(outer_set.captures.len(), 1);
    assert!(context.collector.is_none());
}

#[test]
fn exit_restores_after_unwound_inner_scopes() {
    let mut context = Context::new();
    let outer = context.enter_root(10);
    assert_eq!(outer, 0);
    let inner = context.enter_root(20);
    assert_eq!(inner, 1);
    context.enter_root(30);
    assert_eq!(context.frames, vec![10, 20, 30]);
    context.exit_root(inner);
    assert_eq!(context.frames, vec![10]);
    context.exit_root(outer);
    assert!(context.frames.is_empty());
    assert_eq!(context.enter_root(40), 0);
}

#[test]
fn capture_end_restores_outer_accumulator() {
    let mut context = Context::new();
    let outer = context.begin_capture();
    let inner = context.begin_capture();
    assert!(inner.as_ref().unwrap().captures.is_empty());
    context.end_capture(inner);
    assert!(context.collector.as_ref().unwrap().captures.is_empty());
    context.end_capture(outer);
    assert!(context.collector.is_none());
}

#[test]
fn walk_records_between_leaf_and_boundary() {
    let mut w = Walk::new(100, 900);
    assert!(w.step(1, 50));
    assert!(w.step(2, 100));
    assert!(w.step(3, 200));
    assert!(w.step(4, 300));
    assert!(!w.step(5, 900));
    assert!(!w.step(6, 950));
    assert_eq!(w.frames, vec![3, 4, 900]);
}

#[test]
fn walk_stops_at_boundary_before_leaf() {
    let mut w = Walk::new(100, 900);
    assert!(w.step(1, 50));
    assert!(!w.step(2, 900));
    assert!(!w.step(3, 100));
    assert!(w.frames.is_empty());
}

#[test]
fn walk_without_boundary_runs_to_stack_end() {
    let mut w = Walk::new(100, 900);
    assert!(w.step(1, 100));
    assert!(w.step(2, 200));
    assert!(w.step(3, 300));
    assert_eq!(w.frames, vec![2, 3]);
}
