//! The bounded stack walk made at a leaf point.

use vstd::prelude::*;

verus! {

/// What a walk has seen so far.
pub struct WalkState {
    pub leaf: usize,
    pub boundary: usize,
    pub above_leaf: bool,
    pub done: bool,
    pub frames: Seq<usize>,
}

/// One step of the walk, on a frame with instruction address `ip` whose
/// function starts at `symbol`. Frames are skipped up to and including the
/// leaf function's own frame; from there each frame's `ip` is recorded, until
/// the frame of the boundary function, whose address closes the capture.
pub open spec fn step_spec(w: WalkState, ip: usize, symbol: usize) -> WalkState {
    if w.done {
        w
    } else if symbol == w.boundary {
        WalkState {
            done: true,
            frames: if w.above_leaf {
                w.frames.push(w.boundary)
            } else {
                w.frames
            },
            ..w
        }
    } else if w.above_leaf {
        WalkState { frames: w.frames.push(ip), ..w }
    } else if symbol == w.leaf {
        WalkState { above_leaf: true, ..w }
    } else {
        w
    }
}

/// The walk over a sequence of (instruction address, function address) pairs,
/// innermost frame first.
pub open spec fn walked(w: WalkState, stack: Seq<(usize, usize)>) -> WalkState
    decreases stack.len(),
{
    if stack.len() == 0 {
        w
    } else {
        walked(step_spec(w, stack[0].0, stack[0].1), stack.drop_first())
    }
}

/// A walk that has seen nothing yet.
pub open spec fn start(leaf: usize, boundary: usize) -> WalkState {
    WalkState { leaf, boundary, above_leaf: false, done: false, frames: Seq::empty() }
}

/// The capture that a walk makes over a whole stack.
pub open spec fn capture_of(leaf: usize, boundary: usize, stack: Seq<(usize, usize)>) -> Seq<usize> {
    walked(start(leaf, boundary), stack).frames
}

/// The instruction addresses of a run of frames.
pub open spec fn ips(frames: Seq<(usize, usize)>) -> Seq<usize> {
    frames.map_values(|f: (usize, usize)| f.0)
}

proof fn lemma_walked_done(w: WalkState, stack: Seq<(usize, usize)>)
    requires
        w.done,
    ensures
        walked(w, stack) == w,
    decreases stack.len(),
{
    if stack.len() > 0 {
        lemma_walked_done(w, stack.drop_first());
    }
}

proof fn lemma_walked_skip(w: WalkState, stack: Seq<(usize, usize)>, i: int)
    requires
        !w.done,
        !w.above_leaf,
        0 <= i <= stack.len(),
        forall|k: int| 0 <= k < i ==> #[trigger] stack[k].1 != w.leaf && stack[k].1 != w.boundary,
    ensures
        walked(w, stack) == walked(w, stack.subrange(i, stack.len() as int)),
    decreases i,
{
    if i > 0 {
        let rest = stack.drop_first();
        assert forall|k: int| 0 <= k < i - 1 implies #[trigger] rest[k].1 != w.leaf && rest[k].1
            != w.boundary by {
            assert(rest[k] == stack[k + 1]);
        }
        lemma_walked_skip(w, rest, i - 1);
        assert(rest.subrange(i - 1, rest.len() as int) =~= stack.subrange(i, stack.len() as int));
    } else {
        assert(stack.subrange(0, stack.len() as int) =~= stack);
    }
}

proof fn lemma_walked_collect(w: WalkState, stack: Seq<(usize, usize)>, m: int)
    requires
        !w.done,
        w.above_leaf,
        0 <= m <= stack.len(),
        forall|k: int| 0 <= k < m ==> #[trigger] stack[k].1 != w.boundary,
    ensures
        walked(w, stack) == walked(
            WalkState { frames: w.frames + ips(stack.take(m)), ..w },
            stack.subrange(m, stack.len() as int),
        ),
    decreases m,
{
    if m > 0 {
        let rest = stack.drop_first();
        let w1 = step_spec(w, stack[0].0, stack[0].1);
        assert(w1 == WalkState { frames: w.frames.push(stack[0].0), ..w });
        assert forall|k: int| 0 <= k < m - 1 implies #[trigger] rest[k].1 != w.boundary by {
            assert(rest[k] == stack[k + 1]);
        }
        lemma_walked_collect(w1, rest, m - 1);
        assert(rest.subrange(m - 1, rest.len() as int) =~= stack.subrange(m, stack.len() as int));
        assert(w1.frames + ips(rest.take(m - 1)) =~= w.frames + ips(stack.take(m)));
    } else {
        assert(stack.subrange(0, stack.len() as int) =~= stack);
        assert(w.frames + ips(stack.take(0)) =~= w.frames);
    }
}

/// What a walk captures from a stack in which the leaf function's frame
/// stands at `i`, the first frame of the leaf or boundary function: the
/// instruction addresses of the frames after it up to `j`, the first frame of
/// the boundary function after it, then the boundary address; where no such
/// frame follows (`j` is the stack's length), all the frames after the leaf's.
pub proof fn lemma_capture_between(
    leaf: usize,
    boundary: usize,
    stack: Seq<(usize, usize)>,
    i: int,
    j: int,
)
    requires
        leaf != boundary,
        0 <= i < j <= stack.len(),
        stack[i].1 == leaf,
        forall|k: int| 0 <= k < i ==> #[trigger] stack[k].1 != leaf && stack[k].1 != boundary,
        forall|k: int| i < k < j ==> #[trigger] stack[k].1 != boundary,
        j < stack.len() ==> stack[j].1 == boundary,
    ensures
        capture_of(leaf, boundary, stack) == if j < stack.len() {
            ips(stack.subrange(i + 1, j)).push(boundary)
        } else {
            ips(stack.subrange(i + 1, j))
        },
{
    let w0 = start(leaf, boundary);
    lemma_walked_skip(w0, stack, i);
    let s1 = stack.subrange(i, stack.len() as int);
    let w1 = step_spec(w0, s1[0].0, s1[0].1);
    assert(w1 == WalkState { above_leaf: true, ..w0 });
    let s2 = s1.drop_first();
    let m = j - i - 1;
    assert forall|k: int| 0 <= k < m implies #[trigger] s2[k].1 != boundary by {
        assert(s2[k] == stack[i + 1 + k]);
    }
    lemma_walked_collect(w1, s2, m);
    assert(s2.take(m) =~= stack.subrange(i + 1, j));
    let w2 = WalkState { frames: w1.frames + ips(s2.take(m)), ..w1 };
    assert(w2.frames =~= ips(stack.subrange(i + 1, j)));
    let s3 = s2.subrange(m, s2.len() as int);
    if j < stack.len() {
        assert(s3[0] == stack[j]);
        let w3 = step_spec(w2, s3[0].0, s3[0].1);
        lemma_walked_done(w3, s3.drop_first());
    } else {
        assert(s3.len() == 0);
    }
}

/// A walk over a stack in which the boundary function's frame comes before
/// any frame of the leaf function captures nothing.
pub proof fn lemma_capture_boundary_first(
    leaf: usize,
    boundary: usize,
    stack: Seq<(usize, usize)>,
    j: int,
)
    requires
        0 <= j < stack.len(),
        stack[j].1 == boundary,
        forall|k: int| 0 <= k < j ==> #[trigger] stack[k].1 != leaf && stack[k].1 != boundary,
    ensures
        capture_of(leaf, boundary, stack) == Seq::<usize>::empty(),
{
    let w0 = start(leaf, boundary);
    lemma_walked_skip(w0, stack, j);
    let s1 = stack.subrange(j, stack.len() as int);
    let w1 = step_spec(w0, s1[0].0, s1[0].1);
    lemma_walked_done(w1, s1.drop_first());
}

/// A walk of the stack from a leaf function up to a boundary function.
pub struct Walk {
    pub leaf: usize,
    pub boundary: usize,
    pub above_leaf: bool,
    pub done: bool,
    pub frames: Vec<usize>,
}

impl View for Walk {
    type V = WalkState;

    open spec fn view(&self) -> WalkState {
        WalkState {
            leaf: self.leaf,
            boundary: self.boundary,
            above_leaf: self.above_leaf,
            done: self.done,
            frames: self.frames@,
        }
    }
}

impl Walk {
    /// A walk between the function at `leaf` and the function at `boundary`.
    pub fn new(leaf: usize, boundary: usize) -> (w: Walk)
        ensures
            w@ == start(leaf, boundary),
    {
        Walk { leaf, boundary, above_leaf: false, done: false, frames: Vec::new() }
    }

    /// Takes one frame; returns whether the walk goes on.
    pub fn step(&mut self, ip: usize, symbol: usize) -> (go_on: bool)
        ensures
            final(self)@ == step_spec(old(self)@, ip, symbol),
            go_on == !final(self)@.done,
    {
        if self.done {
        } else if symbol == self.boundary {
            self.done = true;
            if self.above_leaf {
                self.frames.push(self.boundary);
            }
        } else if self.above_leaf {
            self.frames.push(ip);
        } else if symbol == self.leaf {
            self.above_leaf = true;
        }
        !self.done
    }
}

/// Relies on backtrace::trace: it hands the frames of the current call stack
/// to the callback one at a time, innermost first, and returns once the
/// callback answers `false` or the outermost frame has been handed over.
#[verifier::external_body]
fn trace_stack(w: Walk) -> (r: Walk)
    ensures
        exists|stack: Seq<(usize, usize)>| r@ == walked(w@, stack),
{
    let mut w = w;
    backtrace::trace(|frame| w.step(frame.ip() as usize, frame.symbol_address() as usize));
    w
}

/// Walks the current stack from the function at `leaf` up to the function at
/// `boundary`, and returns the instruction addresses in between, leaf-to-root,
/// closed by `boundary` once its frame is reached. Where the stack ends before
/// that frame, the capture holds what was seen up to the end.
pub fn capture_stack(leaf: usize, boundary: usize) -> (c: Vec<usize>)
    ensures
        exists|stack: Seq<(usize, usize)>| c@ == capture_of(leaf, boundary, stack),
{
    let w = trace_stack(Walk::new(leaf, boundary));
    proof {
        let stack = choose|stack: Seq<(usize, usize)>| w@ == walked(start(leaf, boundary), stack);
        assert(w.frames@ == capture_of(leaf, boundary, stack));
    }
    w.frames
}

} // verus!
