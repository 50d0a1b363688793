//! The palette: a mapping from palette index to a display name. The core
//! never builds or mutates one; it only reads it during CSV export.
use vstd::prelude::*;

verus! {

/// Color names indexed by palette index: entry `i` names the color whose
/// index is `i`. Loading one is left to the surrounding application; the core
/// requires only that every index actually stored in an exported buffer has
/// an entry.
#[derive(Debug)]
pub struct Colors(pub Vec<String>);

impl Colors {
    /// The display names, indexed by palette index.
    pub open spec fn names(self) -> Seq<Seq<char>> {
        self.0.deep_view()
    }
}

} // verus!
