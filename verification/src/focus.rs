use vstd::prelude::*;

verus! {

/// Which part of the screen has the keyboard focus.
#[derive(Debug, PartialEq, Eq, Structural, Clone, Copy)]
pub enum Selected {
    Nothing,
    Left,
    Right,
    Popup,
}

impl Default for Selected {
    fn default() -> (r: Self)
        ensures
            r == Selected::Nothing,
    {
        Selected::Nothing
    }
}

} // verus!
