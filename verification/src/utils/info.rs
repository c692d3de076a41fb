//! Source positions.

use vstd::prelude::*;

verus! {

/// A position in the source program, attached to syntax nodes for error
/// reporting.
#[derive(Clone, Copy, Debug, PartialEq, Eq)]
pub struct Info {
    pub line: u64,
    pub col: u64,
}

impl Info {
    pub fn new(line: u64, col: u64) -> (r: Info)
        ensures
            r == (Info { line, col }),
    {
        Info { line, col }
    }

    /// The position used for nodes that the compiler creates itself.
    pub open spec fn spec_default() -> Info {
        Info { line: 0, col: 0 }
    }
}

impl Default for Info {
    fn default() -> (r: Info)
        ensures
            r == Info::spec_default(),
    {
        Info { line: 0, col: 0 }
    }
}

} // verus!
