use vstd::prelude::*;

verus! {

/// The size of the terminal, in cells.
pub struct Terminal {
    pub width: u16,
    pub height: u16,
}

} // verus!
