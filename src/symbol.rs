//! Resolved symbol metadata and its one-line text.

use vstd::prelude::*;
use vstd::string::StringExecFns;

verus! {

/// The decimal text of `n`.
pub uninterp spec fn decimal_text(n: u32) -> Seq<char>;

/// Relies on std's `Display` of `u32`: the text depends on the value alone.
#[verifier::external_body]
fn decimal(n: u32) -> (s: String)
    ensures
        s@ == decimal_text(n),
{
    n.to_string()
}

/// What debug information gives for one logical frame at an address.
pub struct Symbol {
    pub name: Option<String>,
    pub file: Option<String>,
    pub line: Option<u32>,
    pub column: Option<u32>,
}

pub open spec fn unknown_name() -> Seq<char> {
    seq!['<', 'u', 'n', 'k', 'n', 'o', 'w', 'n', '>']
}

pub open spec fn at_text() -> Seq<char> {
    seq![' ', 'a', 't', ' ']
}

/// `name at file:line:column`, each part present only when known (a column
/// only after a line, both only after a file).
pub open spec fn label_spec(s: Symbol) -> Seq<char> {
    let name = match s.name {
        Some(n) => n@,
        None => unknown_name(),
    };
    match s.file {
        None => name,
        Some(f) => {
            let place = name + at_text() + f@;
            match s.line {
                None => place,
                Some(l) => {
                    let with_line = place + seq![':'] + decimal_text(l);
                    match s.column {
                        None => with_line,
                        Some(c) => with_line + seq![':'] + decimal_text(c),
                    }
                },
            }
        },
    }
}

impl Symbol {
    /// The one-line text of this symbol in a rendered tree.
    pub fn label(&self) -> (r: String)
        ensures
            r@ == label_spec(*self),
    {
        proof {
            reveal_strlit("<unknown>");
            reveal_strlit(" at ");
            reveal_strlit(":");
        }
        let mut r = match &self.name {
            Some(n) => n.clone(),
            None => String::from_str("<unknown>"),
        };
        match &self.file {
            None => {},
            Some(f) => {
                r.append(" at ");
                r.append(f.as_str());
                match self.line {
                    None => {},
                    Some(l) => {
                        r.append(":");
                        let t = decimal(l);
                        r.append(t.as_str());
                        match self.column {
                            None => {},
                            Some(c) => {
                                r.append(":");
                                let t = decimal(c);
                                r.append(t.as_str());
                            },
                        }
                    },
                }
            },
        }
        r
    }
}

} // verus!
