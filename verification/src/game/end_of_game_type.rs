use vstd::prelude::*;

verus! {

/// How a game ended, as a result token records it.
#[derive(Clone, Copy, Debug, PartialEq, Eq, Structural)]
pub enum EndOfGameType {
    WhiteWin,
    BlackWin,
    Draw,
}

} // verus!
