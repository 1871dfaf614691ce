//! Mouse state: the last cursor cell and the left button.
use vstd::prelude::*;

verus! {

pub struct Mouse {
    /// Last known cursor position, in terminal cells.
    pub col: u16,
    pub row: u16,
    pub lmb: bool,
}

impl Default for Mouse {
    fn default() -> (m: Self)
        ensures
            m.col == 0 && m.row == 0 && !m.lmb,
    {
        Mouse { col: 0, row: 0, lmb: false }
    }
}

} // verus!
