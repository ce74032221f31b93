//! Rendering a call tree as lines of text with box-drawing prefixes.

use crate::tree::CallTree;
use vstd::prelude::*;
use vstd::string::StringExecFns;

verus! {

/// The text of `a` as a hexadecimal number with a `0x` prefix.
pub uninterp spec fn hex_text(a: usize) -> Seq<char>;

/// Relies on std's `{:#x}` formatting of an integer: the text depends on the
/// value alone.
#[verifier::external_body]
fn address_text(a: usize) -> (s: String)
    ensures
        s@ == hex_text(a),
{
    format!("{:#x}", a)
}

pub open spec fn glyph_top() -> Seq<char> {
    seq!['╼', ' ']
}

pub open spec fn glyph_mid() -> Seq<char> {
    seq!['├', '╼', ' ']
}

pub open spec fn glyph_last() -> Seq<char> {
    seq!['└', '╼', ' ']
}

pub open spec fn indent_top() -> Seq<char> {
    seq![' ', ' ']
}

pub open spec fn indent_bar() -> Seq<char> {
    seq!['│', ' ', ' ']
}

pub open spec fn indent_blank() -> Seq<char> {
    seq![' ', ' ', ' ']
}

/// The symbol lines of node `i`, outermost inline frame first; the raw
/// address where no symbol was resolved.
pub open spec fn chain(t: CallTree, labels: Seq<Seq<Seq<char>>>, i: int) -> Seq<Seq<char>> {
    if 0 <= i < labels.len() && labels[i].len() > 0 {
        labels[i]
    } else {
        seq![hex_text(t.nodes@[i].addr)]
    }
}

/// The lines of node `i` from its `k`-th symbol on: each further symbol of
/// the chain nests under the one before, and the children under the last.
pub open spec fn node_lines(
    t: CallTree,
    labels: Seq<Seq<Seq<char>>>,
    i: int,
    k: int,
    lead: Seq<char>,
    indent: Seq<char>,
) -> Seq<Seq<char>>
    decreases t.nodes@.len() - i, 1int, chain(t, labels, i).len() - k,
{
    if 0 <= i < t.nodes@.len() && 0 <= k < chain(t, labels, i).len() {
        let line = lead + chain(t, labels, i)[k];
        if k + 1 < chain(t, labels, i).len() {
            seq![line] + node_lines(
                t,
                labels,
                i,
                k + 1,
                indent + glyph_last(),
                indent + indent_blank(),
            )
        } else {
            seq![line] + children_lines(t, labels, i, 0, indent)
        }
    } else {
        seq![]
    }
}

/// The lines of the children of node `i` from the `m`-th on, each drawn with
/// a branching glyph but the last, which takes the closing corner.
pub open spec fn children_lines(
    t: CallTree,
    labels: Seq<Seq<Seq<char>>>,
    i: int,
    m: int,
    indent: Seq<char>,
) -> Seq<Seq<char>>
    decreases t.nodes@.len() - i, 0int, t.nodes@[i].children@.len() - m,
{
    if 0 <= i < t.nodes@.len() && 0 <= m < t.nodes@[i].children@.len() {
        let j = t.nodes@[i].children@[m] as int;
        let last = m + 1 == t.nodes@[i].children@.len();
        let here = if i < j < t.nodes@.len() {
            node_lines(
                t,
                labels,
                j,
                0,
                indent + if last {
                    glyph_last()
                } else {
                    glyph_mid()
                },
                indent + if last {
                    indent_blank()
                } else {
                    indent_bar()
                },
            )
        } else {
            seq![]
        };
        here + children_lines(t, labels, i, m + 1, indent)
    } else {
        seq![]
    }
}

/// The lines of the top-level nodes from the `m`-th on.
pub open spec fn forest_lines(t: CallTree, labels: Seq<Seq<Seq<char>>>, m: int) -> Seq<Seq<char>>
    decreases t.roots@.len() - m,
{
    if 0 <= m < t.roots@.len() {
        node_lines(t, labels, t.roots@[m] as int, 0, glyph_top(), indent_top()) + forest_lines(
            t,
            labels,
            m + 1,
        )
    } else {
        seq![]
    }
}

pub open spec fn lines_view(lines: Seq<String>) -> Seq<Seq<char>> {
    lines.map_values(|s: String| s@)
}

pub open spec fn labels_view(labels: Seq<Vec<String>>) -> Seq<Seq<Seq<char>>> {
    labels.map_values(|v: Vec<String>| lines_view(v@))
}

fn joined(a: &String, b: &str) -> (r: String)
    ensures
        r@ == a@ + b@,
{
    let mut r = a.clone();
    r.append(b);
    r
}

fn push_line(out: &mut Vec<String>, line: String)
    ensures
        lines_view(final(out)@) == lines_view(old(out)@) + seq![line@],
{
    out.push(line);
    assert(lines_view(out@) =~= lines_view(old(out)@) + seq![line@]);
}

impl CallTree {
    /// Renders the forest depth-first, one line per symbol: `labels[i]` holds
    /// the resolved symbol lines of node `i`.
    pub fn render(&self, labels: &Vec<Vec<String>>) -> (lines: Vec<String>)
        requires
            self.wf(),
        ensures
            lines_view(lines@) == forest_lines(*self, labels_view(labels@), 0),
    {
        let mut out: Vec<String> = Vec::new();
        let mut m: usize = 0;
        while m < self.roots.len()
            invariant
                self.wf(),
                m <= self.roots@.len(),
                lines_view(out@) + forest_lines(*self, labels_view(labels@), m as int) == forest_lines(
                    *self,
                    labels_view(labels@),
                    0,
                ),
            decreases self.roots@.len() - m,
        {
            let ghost before = out@;
            let lead = String::from_str("╼ ");
            let indent = String::from_str("  ");
            proof {
                reveal_strlit("╼ ");
                reveal_strlit("  ");
            }
            assert(lead@ == glyph_top());
            assert(indent@ == indent_top());
            self.render_node(labels, self.roots[m], 0, &lead, &indent, &mut out);
            proof {
                let f = |k: int| forest_lines(*self, labels_view(labels@), k);
                assert(lines_view(out@) + f(m + 1) =~= lines_view(before) + f(m as int));
            }
            m += 1;
        }
        assert(lines_view(out@) + forest_lines(*self, labels_view(labels@), m as int) =~= lines_view(
            out@,
        ));
        out
    }

    fn render_node(
        &self,
        labels: &Vec<Vec<String>>,
        i: usize,
        k: usize,
        lead: &String,
        indent: &String,
        out: &mut Vec<String>,
    )
        requires
            self.wf(),
            i < self.nodes@.len(),
        ensures
            lines_view(final(out)@) == lines_view(old(out)@) + node_lines(
                *self,
                labels_view(labels@),
                i as int,
                k as int,
                lead@,
                indent@,
            ),
        decreases self.nodes@.len() - i, 1int, chain(*self, labels_view(labels@), i as int).len() - k,
    {
        let ghost lv = labels_view(labels@);
        let has_labels = i < labels.len() && labels[i].len() > 0;
        let n: usize = if has_labels {
            labels[i].len()
        } else {
            1
        };
        assert(n == chain(*self, lv, i as int).len());
        if k >= n {
            assert(lines_view(out@) =~= lines_view(old(out)@) + node_lines(
                *self,
                lv,
                i as int,
                k as int,
                lead@,
                indent@,
            ));
            return;
        }
        let label = if has_labels {
            labels[i][k].clone()
        } else {
            address_text(self.nodes[i].addr)
        };
        assert(label@ == chain(*self, lv, i as int)[k as int]);
        let line = joined(lead, label.as_str());
        let ghost line_v = line@;
        push_line(out, line);
        let ghost after_line = out@;
        if k + 1 < n {
            proof {
                reveal_strlit("└╼ ");
                reveal_strlit("   ");
            }
            let next_lead = joined(indent, "└╼ ");
            let next_indent = joined(indent, "   ");
            assert(next_lead@ == indent@ + glyph_last());
            assert(next_indent@ == indent@ + indent_blank());
            self.render_node(labels, i, k + 1, &next_lead, &next_indent, out);
            assert(node_lines(*self, lv, i as int, k as int, lead@, indent@) == seq![line_v]
                + node_lines(*self, lv, i as int, k + 1, next_lead@, next_indent@));
        } else {
            self.render_children(labels, i, 0, indent, out);
            assert(node_lines(*self, lv, i as int, k as int, lead@, indent@) == seq![line_v]
                + children_lines(*self, lv, i as int, 0, indent@));
        }
        assert(lines_view(out@) =~= lines_view(old(out)@) + node_lines(
            *self,
            lv,
            i as int,
            k as int,
            lead@,
            indent@,
        ));
    }

    fn render_children(
        &self,
        labels: &Vec<Vec<String>>,
        i: usize,
        m: usize,
        indent: &String,
        out: &mut Vec<String>,
    )
        requires
            self.wf(),
            i < self.nodes@.len(),
        ensures
            lines_view(final(out)@) == lines_view(old(out)@) + children_lines(
                *self,
                labels_view(labels@),
                i as int,
                m as int,
                indent@,
            ),
        decreases self.nodes@.len() - i, 0int, self.nodes@[i as int].children@.len() - m,
    {
        let ghost lv = labels_view(labels@);
        if m >= self.nodes[i].children.len() {
            assert(lines_view(out@) =~= lines_view(old(out)@) + children_lines(
                *self,
                lv,
                i as int,
                m as int,
                indent@,
            ));
            return;
        }
        let j = self.nodes[i].children[m];
        let last = m + 1 == self.nodes[i].children.len();
        proof {
            reveal_strlit("└╼ ");
            reveal_strlit("├╼ ");
            reveal_strlit("   ");
            reveal_strlit("│  ");
        }
        let lead = if last {
            joined(indent, "└╼ ")
        } else {
            joined(indent, "├╼ ")
        };
        let next_indent = if last {
            joined(indent, "   ")
        } else {
            joined(indent, "│  ")
        };
        assert(lead@ == indent@ + if last {
            glyph_last()
        } else {
            glyph_mid()
        });
        assert(next_indent@ == indent@ + if last {
            indent_blank()
        } else {
            indent_bar()
        });
        self.render_node(labels, j, 0, &lead, &next_indent, out);
        self.render_children(labels, i, m + 1, indent, out);
        assert(children_lines(*self, lv, i as int, m as int, indent@) == node_lines(
            *self,
            lv,
            j as int,
            0,
            lead@,
            next_indent@,
        ) + children_lines(*self, lv, i as int, m + 1, indent@));
        assert(lines_view(out@) =~= lines_view(old(out)@) + children_lines(
            *self,
            lv,
            i as int,
            m as int,
            indent@,
        ));
    }
}

} // verus!
