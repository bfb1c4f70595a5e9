use vstd::prelude::*;

verus! {

/// A period of the game; overtime periods are numbered.
#[derive(Debug, Clone, Copy, PartialEq, Eq, Structural)]
pub enum Quarter {
    First,
    Second,
    Third,
    Fourth,
    Overtime(u8),
}

} // verus!
