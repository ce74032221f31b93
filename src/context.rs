//! The per-thread scope state: the stack of active root boundaries and the
//! active capture accumulator.

use crate::capture::CaptureSet;
use crate::walk::{capture_of, capture_stack};
use vstd::prelude::*;

verus! {

/// The abstract scope state.
pub struct ScopeState {
    /// Boundary addresses of the active root scopes, outermost first.
    pub frames: Seq<usize>,
    /// The captures gathered so far by the active capture scope, if any.
    pub collector: Option<Seq<Seq<usize>>>,
}

/// The state once a root scope with boundary `boundary` has been entered.
pub open spec fn entered(s: ScopeState, boundary: usize) -> ScopeState {
    ScopeState { frames: s.frames.push(boundary), ..s }
}

/// The state once the root scopes above depth `depth` have been left.
pub open spec fn exited(s: ScopeState, depth: nat) -> ScopeState {
    if depth < s.frames.len() {
        ScopeState { frames: s.frames.take(depth as int), ..s }
    } else {
        s
    }
}

/// The state once a capture scope has been opened.
pub open spec fn capture_begun(s: ScopeState) -> ScopeState {
    ScopeState { collector: Some(Seq::empty()), ..s }
}

/// The state once a capture scope has been closed, the enclosing accumulator
/// `previous` being put back.
pub open spec fn capture_ended(s: ScopeState, previous: Option<Seq<Seq<usize>>>) -> ScopeState {
    ScopeState { collector: previous, ..s }
}

/// The captures that closing a capture scope hands back.
pub open spec fn gathered(s: ScopeState) -> Seq<Seq<usize>> {
    match s.collector {
        Some(c) => c,
        None => Seq::empty(),
    }
}

/// The state once capture `c` has been recorded by a leaf point.
pub open spec fn recorded(s: ScopeState, c: Seq<usize>) -> ScopeState {
    match s.collector {
        Some(cs) => ScopeState { collector: Some(cs.push(c)), ..s },
        None => s,
    }
}

/// Whether `c` is a capture that a leaf point at function address `leaf` may
/// make in state `s`: empty with no active root, else the walk of some stack
/// up to the innermost active boundary.
pub open spec fn leaf_capture(s: ScopeState, leaf: usize, c: Seq<usize>) -> bool {
    if s.frames.len() == 0 {
        c == Seq::<usize>::empty()
    } else {
        exists|stack: Seq<(usize, usize)>| c == capture_of(leaf, s.frames.last(), stack)
    }
}

/// The scope state of one thread.
pub struct Context {
    pub frames: Vec<usize>,
    pub collector: Option<CaptureSet>,
}

impl View for Context {
    type V = ScopeState;

    open spec fn view(&self) -> ScopeState {
        ScopeState {
            frames: self.frames@,
            collector: match self.collector {
                Some(c) => Some(c@),
                None => None,
            },
        }
    }
}

pub open spec fn set_view(c: Option<CaptureSet>) -> Option<Seq<Seq<usize>>> {
    match c {
        Some(c) => Some(c@),
        None => None,
    }
}

impl Context {
    /// No root scope and no capture scope.
    pub fn new() -> (c: Context)
        ensures
            c@.frames == Seq::<usize>::empty(),
            c@.collector.is_none(),
    {
        Context { frames: Vec::new(), collector: None }
    }

    /// Enters a root scope whose boundary is the function at `boundary`.
    /// Returns the depth to hand to `exit_root` when the scope ends.
    pub fn enter_root(&mut self, boundary: usize) -> (depth: usize)
        ensures
            final(self)@ == entered(old(self)@, boundary),
            depth == old(self)@.frames.len(),
    {
        let depth = self.frames.len();
        self.frames.push(boundary);
        depth
    }

    /// Leaves every root scope above `depth`, on any exit path of the scope.
    pub fn exit_root(&mut self, depth: usize)
        ensures
            final(self)@ == exited(old(self)@, depth as nat),
    {
        if depth < self.frames.len() {
            self.frames.truncate(depth);
        }
    }

    /// Opens a capture scope with a fresh, empty accumulator. Returns the
    /// accumulator that it displaces, to hand to `end_capture`.
    pub fn begin_capture(&mut self) -> (previous: Option<CaptureSet>)
        ensures
            final(self)@ == capture_begun(old(self)@),
            set_view(previous) == old(self)@.collector,
    {
        let previous = self.collector.take();
        self.collector = Some(CaptureSet::new());
        previous
    }

    /// Closes a capture scope: puts `previous` back as the accumulator and
    /// returns what the closed scope gathered.
    pub fn end_capture(&mut self, previous: Option<CaptureSet>) -> (set: CaptureSet)
        ensures
            final(self)@ == capture_ended(old(self)@, set_view(previous)),
            set@ == gathered(old(self)@),
    {
        let current = self.collector.take();
        self.collector = previous;
        match current {
            Some(set) => set,
            None => CaptureSet::new(),
        }
    }

    /// A leaf point in the function at address `leaf`: with no accumulator it
    /// does nothing; otherwise it appends exactly one capture, empty when no
    /// root scope is active, else the walk of the stack up to the innermost
    /// root boundary.
    pub fn leaf(&mut self, leaf: usize)
        ensures
            old(self)@.collector.is_none() ==> final(self)@ == old(self)@,
            old(self)@.collector.is_some() ==> exists|c: Seq<usize>|
                leaf_capture(old(self)@, leaf, c) && final(self)@ == recorded(old(self)@, c),
    {
        let ghost pre = self@;
        let current = self.collector.take();
        match current {
            None => {},
            Some(mut set) => {
                let n = self.frames.len();
                let c = if n == 0 {
                    Vec::new()
                } else {
                    assert(self.frames@[n - 1] == pre.frames.last());
                    capture_stack(leaf, self.frames[n - 1])
                };
                assert(leaf_capture(pre, leaf, c@));
                set.push(c);
                self.collector = Some(set);
                assert(self@ == recorded(pre, c@));
            },
        }
    }
}

} // verus!
