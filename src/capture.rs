//! Linear captures and the ordered set of them gathered under one scope.

use vstd::prelude::*;

verus! {

/// The linear captures gathered during one capture scope, in the order of the
/// leaf calls that made them. Each capture lists frame addresses leaf-to-root.
pub struct CaptureSet {
    pub captures: Vec<Vec<usize>>,
}

impl View for CaptureSet {
    type V = Seq<Seq<usize>>;

    open spec fn view(&self) -> Seq<Seq<usize>> {
        self.captures@.map_values(|c: Vec<usize>| c@)
    }
}

impl CaptureSet {
    /// An empty set.
    pub fn new() -> (s: CaptureSet)
        ensures
            s@ == Seq::<Seq<usize>>::empty(),
    {
        let s = CaptureSet { captures: Vec::new() };
        assert(s@ =~= Seq::<Seq<usize>>::empty());
        s
    }

    /// Appends one capture after those already held.
    pub fn push(&mut self, c: Vec<usize>)
        ensures
            final(self)@ == old(self)@.push(c@),
    {
        self.captures.push(c);
        assert(self@ =~= old(self)@.push(c@));
    }
}

} // verus!
