//! Merging linear captures into a call tree by shared prefixes.

use crate::capture::CaptureSet;
use vstd::prelude::*;

verus! {

/// A capture recorded leaf-to-root, read from the root down to the leaf.
pub open spec fn root_to_leaf(c: Seq<usize>) -> Seq<usize> {
    Seq::new(c.len(), |i: int| c[c.len() - 1 - i])
}

/// Adds one call path to a list of distinct paths, unless it is already there.
pub open spec fn add_path(known: Seq<Seq<usize>>, p: Seq<usize>) -> Seq<Seq<usize>> {
    if known.contains(p) {
        known
    } else {
        known.push(p)
    }
}

/// Adds the prefixes of `p` of length 1 to `k`, shortest first.
pub open spec fn add_prefixes(known: Seq<Seq<usize>>, p: Seq<usize>, k: nat) -> Seq<Seq<usize>>
    decreases k,
{
    if k == 0 {
        known
    } else {
        add_path(add_prefixes(known, p, (k - 1) as nat), p.take(k as int))
    }
}

/// The distinct root-to-node call paths of a sequence of captures, in the
/// order in which each is first seen: one tree node per path.
pub open spec fn merged_paths(caps: Seq<Seq<usize>>) -> Seq<Seq<usize>>
    decreases caps.len(),
{
    if caps.len() == 0 {
        seq![]
    } else {
        let c = root_to_leaf(caps.last());
        add_prefixes(merged_paths(caps.drop_last()), c, c.len())
    }
}

pub open spec fn strictly_increasing(s: Seq<usize>) -> bool {
    forall|a: int, b: int| 0 <= a < b < s.len() ==> s[a] < s[b]
}

/// One merged call site.
pub struct TreeNode {
    /// The instruction address that identifies this call site.
    pub addr: usize,
    /// Indices of the child nodes, in the order in which they were first seen.
    pub children: Vec<usize>,
}

/// A forest of merged call sites, held as an arena of nodes.
pub struct CallTree {
    pub nodes: Vec<TreeNode>,
    /// Indices of the top-level nodes, in the order in which they were first seen.
    pub roots: Vec<usize>,
    /// The root-to-node address path of each node.
    pub paths: Ghost<Seq<Seq<usize>>>,
}

impl CallTree {
    pub open spec fn wf(&self) -> bool {
        let p = self.paths@;
        let n = self.nodes@;
        &&& n.len() == p.len()
        &&& forall|i: int| 0 <= i < p.len() ==> p[i].len() >= 1 && p[i].last() == n[i].addr
        &&& forall|i: int, j: int|
            0 <= i < p.len() && 0 <= j < p.len() && i != j ==> p[i] != p[j]
        &&& forall|k: int| 0 <= k < self.roots@.len() ==> self.roots@[k] < p.len()
        &&& strictly_increasing(self.roots@)
        &&& forall|j: int| 0 <= j < p.len() ==> (self.roots@.contains(j as usize) <==> p[j].len() == 1)
        &&& forall|i: int, k: int|
            0 <= i < p.len() && 0 <= k < n[i].children@.len() ==> i < #[trigger] n[i].children@[k] < p.len()
        &&& forall|i: int| 0 <= i < p.len() ==> strictly_increasing(#[trigger] n[i].children@)
        &&& forall|i: int, j: int|
            0 <= i < p.len() && 0 <= j < p.len() ==> (n[i].children@.contains(j as usize) <==> (
            p[j].len() > 1 && p[j].drop_last() == p[i]))
        &&& forall|j: int| 0 <= j < p.len() && p[j].len() > 1 ==> p.contains(#[trigger] p[j].drop_last())
    }

    /// The empty forest.
    pub fn new() -> (t: CallTree)
        ensures
            t.wf(),
            t.paths@ == Seq::<Seq<usize>>::empty(),
    {
        CallTree { nodes: Vec::new(), roots: Vec::new(), paths: Ghost(Seq::empty()) }
    }

    /// Looks for the top-level node at address `a`.
    fn root_at(&self, a: usize) -> (r: Option<usize>)
        requires
            self.wf(),
        ensures
            r.is_some() ==> r.unwrap() < self.nodes@.len() && self.paths@[r.unwrap() as int]
                == seq![a],
            r.is_none() ==> !self.paths@.contains(seq![a]),
    {
        let count = self.nodes.len();
        let mut k: usize = 0;
        while k < self.roots.len()
            invariant
                self.wf(),
                k <= self.roots@.len(),
                forall|m: int| 0 <= m < k ==> self.nodes@[self.roots@[m] as int].addr != a,
            decreases self.roots@.len() - k,
        {
            let j = self.roots[k];
            if self.nodes[j].addr == a {
                assert(self.roots@.contains(j));
                assert(self.paths@[j as int] =~= seq![a]);
                return Some(j);
            }
            k += 1;
        }
        proof {
            if self.paths@.contains(seq![a]) {
                let j = choose|j: int| 0 <= j < self.paths@.len() && self.paths@[j] == seq![a];
                assert(self.roots@.contains(j as usize));
                let m = choose|m: int| 0 <= m < self.roots@.len() && self.roots@[m] == j as usize;
                assert(self.paths@[j].last() == self.nodes@[j].addr);
                assert(seq![a].last() == a);
                assert(self.nodes@[self.roots@[m] as int].addr == a);
            }
        }
        None
    }

    /// Looks for the child of node `p` at address `a`.
    fn child_at(&self, p: usize, a: usize) -> (r: Option<usize>)
        requires
            self.wf(),
            p < self.nodes@.len(),
        ensures
            r.is_some() ==> r.unwrap() < self.nodes@.len() && self.paths@[r.unwrap() as int]
                == self.paths@[p as int].push(a),
            r.is_none() ==> !self.paths@.contains(self.paths@[p as int].push(a)),
    {
        let ghost q = self.paths@[p as int].push(a);
        let count = self.nodes.len();
        let mut k: usize = 0;
        while k < self.nodes[p].children.len()
            invariant
                self.wf(),
                p < self.nodes@.len(),
                k <= self.nodes@[p as int].children@.len(),
                forall|m: int|
                    0 <= m < k ==> self.nodes@[self.nodes@[p as int].children@[m] as int].addr != a,
            decreases self.nodes@[p as int].children@.len() - k,
        {
            let j = self.nodes[p].children[k];
            if self.nodes[j].addr == a {
                assert(self.nodes@[p as int].children@.contains(j));
                let ghost pj = self.paths@[j as int];
                assert(pj =~= pj.drop_last().push(pj.last()));
                return Some(j);
            }
            k += 1;
        }
        proof {
            if self.paths@.contains(q) {
                let j = choose|j: int| 0 <= j < self.paths@.len() && self.paths@[j] == q;
                assert(q.drop_last() =~= self.paths@[p as int]);
                assert(self.nodes@[p as int].children@.contains(j as usize));
                let m = choose|m: int|
                    0 <= m < self.nodes@[p as int].children@.len()
                        && self.nodes@[p as int].children@[m] == j as usize;
                assert(self.paths@[j].last() == self.nodes@[j].addr);
                assert(q.last() == a);
                assert(self.nodes@[self.nodes@[p as int].children@[m] as int].addr == a);
            }
        }
        None
    }

    /// Appends a node at address `a` under `parent` (at the top level for `None`).
    fn add_node(&mut self, parent: Option<usize>, a: usize) -> (r: usize)
        requires
            old(self).wf(),
            parent.is_some() ==> parent.unwrap() < old(self).nodes@.len(),
            !old(self).paths@.contains(Self::path_under(old(self).paths@, parent, a)),
        ensures
            final(self).wf(),
            r == old(self).nodes@.len(),
            final(self).paths@ == old(self).paths@.push(Self::path_under(old(self).paths@, parent, a)),
    {
        let ghost q = Self::path_under(self.paths@, parent, a);
        let ghost old_self = *self;
        let r = self.nodes.len();
        self.nodes.push(TreeNode { addr: a, children: Vec::new() });
        self.paths = Ghost(self.paths@.push(q));
        match parent {
            None => {
                self.roots.push(r);
            },
            Some(p) => {
                self.nodes[p].children.push(r);
                assert(q.drop_last() =~= old_self.paths@[p as int]);
            },
        }
        let ghost ps = self.paths@;
        let ghost ns = self.nodes@;
        assert forall|i: int, j: int| 0 <= i < ps.len() && 0 <= j < ps.len() implies (
        ns[i].children@.contains(j as usize) <==> (ps[j].len() > 1 && ps[j].drop_last()
            == ps[i])) by {
            let is_parent = parent.is_some() && i == parent.unwrap() as int;
            if i < r && !is_parent {
                assert(ns[i] == old_self.nodes@[i]);
            }
            if is_parent {
                assert(ns[i].children@ == old_self.nodes@[i].children@.push(r));
            }
            if j == r as int {
                if is_parent {
                    assert(ns[i].children@.last() == r);
                } else {
                    if ns[i].children@.contains(j as usize) {
                        let m = choose|m: int|
                            0 <= m < ns[i].children@.len() && ns[i].children@[m] == j as usize;
                        assert(ns[i].children@[m] < old_self.paths@.len());
                    }
                    if ps[j].len() > 1 && ps[j].drop_last() == ps[i] {
                        assert(parent.is_some());
                        assert(q.drop_last() =~= old_self.paths@[parent.unwrap() as int]);
                        assert(i != r as int);
                    }
                }
            } else if i == r as int {
                if ps[j].len() > 1 && ps[j].drop_last() == ps[i] {
                    assert(old_self.paths@.contains(old_self.paths@[j].drop_last()));
                }
            } else if is_parent {
                if ns[i].children@.contains(j as usize) {
                    let m = choose|m: int|
                        0 <= m < ns[i].children@.len() && ns[i].children@[m] == j as usize;
                    if m < old_self.nodes@[i].children@.len() {
                        assert(old_self.nodes@[i].children@.contains(j as usize));
                    }
                }
                if ps[j].len() > 1 && ps[j].drop_last() == ps[i] {
                    assert(old_self.nodes@[i].children@.contains(j as usize));
                    let m = choose|m: int|
                        0 <= m < old_self.nodes@[i].children@.len()
                            && old_self.nodes@[i].children@[m] == j as usize;
                    assert(ns[i].children@[m] == j as usize);
                }
            }
        }
        assert forall|j: int| 0 <= j < ps.len() && ps[j].len() > 1 implies ps.contains(
            ps[j].drop_last()) by {
            if j == r as int {
                let pp = parent.unwrap() as int;
                assert(q.drop_last() =~= old_self.paths@[pp]);
                assert(ps[pp] == ps[j].drop_last());
            } else {
                let k = choose|k: int| 0 <= k < old_self.paths@.len() && old_self.paths@[k] == old_self.paths@[j].drop_last();
                assert(ps[k] == ps[j].drop_last());
            }
        }
        assert forall|j: int| 0 <= j < ps.len() implies (self.roots@.contains(j as usize) <==> ps[j].len()
            == 1) by {
            if parent.is_none() {
                if self.roots@.contains(j as usize) {
                    let ghost m = choose|m: int| 0 <= m < self.roots@.len() && self.roots@[m] == j as usize;
                    if m < old_self.roots@.len() {
                        assert(old_self.roots@.contains(j as usize));
                    }
                }
                if ps[j].len() == 1 && j < r {
                    assert(old_self.roots@.contains(j as usize));
                    let ghost m = choose|m: int|
                        0 <= m < old_self.roots@.len() && old_self.roots@[m] == j as usize;
                    assert(self.roots@[m] == j as usize);
                }
                if j == r {
                    assert(self.roots@.last() == r);
                }
            }
        }
        r
    }

    /// Merges one capture (leaf-to-root) into the forest: its shared prefix
    /// follows existing nodes, and the rest is appended as new nodes.
    pub fn insert_capture(&mut self, c: &Vec<usize>)
        requires
            old(self).wf(),
        ensures
            final(self).wf(),
            final(self).paths@ == add_prefixes(old(self).paths@, root_to_leaf(c@), c@.len()),
    {
        let ghost r = root_to_leaf(c@);
        let n = c.len();
        let mut cur: Option<usize> = None;
        let mut d: usize = 0;
        while d < n
            invariant
                self.wf(),
                n == c@.len(),
                r == root_to_leaf(c@),
                d <= n,
                self.paths@ == add_prefixes(old(self).paths@, r, d as nat),
                d == 0 <==> cur.is_none(),
                cur.is_some() ==> cur.unwrap() < self.nodes@.len() && self.paths@[cur.unwrap() as int]
                    == r.take(d as int),
            decreases n - d,
        {
            let a = c[n - 1 - d];
            let ghost q = Self::path_under(self.paths@, cur, a);
            assert(q =~= r.take(d + 1));
            let found = match cur {
                None => self.root_at(a),
                Some(p) => self.child_at(p, a),
            };
            let next = match found {
                Some(j) => j,
                None => self.add_node(cur, a),
            };
            cur = Some(next);
            d += 1;
        }
    }

    /// Builds the merged forest of a capture set: one node per distinct
    /// root-to-node address path, in first-seen order.
    pub fn from_captures(set: &CaptureSet) -> (t: CallTree)
        ensures
            t.wf(),
            t.paths@ == merged_paths(set@),
    {
        let mut t = CallTree::new();
        let mut i: usize = 0;
        while i < set.captures.len()
            invariant
                t.wf(),
                i <= set@.len(),
                t.paths@ == merged_paths(set@.take(i as int)),
            decreases set@.len() - i,
        {
            assert(set@.take(i + 1).drop_last() =~= set@.take(i as int));
            t.insert_capture(&set.captures[i]);
            i += 1;
        }
        assert(set@.take(i as int) =~= set@);
        t
    }

    /// The path of a new node at `a` below `parent`.
    pub open spec fn path_under(paths: Seq<Seq<usize>>, parent: Option<usize>, a: usize) -> Seq<usize> {
        match parent {
            None => seq![a],
            Some(p) => paths[p as int].push(a),
        }
    }
}


} // verus!
