use vstd::prelude::*;

verus! {

/// Where a game stands. Only `NotStarted` and `Started` admit a further move.
#[derive(Clone, Copy, Debug, PartialEq, Eq, Structural)]
pub enum GameState {
    NotStarted,
    Started,
    Stalemate,
    WhiteResigned,
    BlackResigned,
    WhiteCheckmate,
    BlackCheckmate,
}

impl GameState {
    /// A game that has ended: every state but `NotStarted` and `Started`.
    pub open spec fn spec_is_ended(self) -> bool {
        !(self == GameState::NotStarted || self == GameState::Started)
    }

    /// Whether the game has ended, so that no move may follow.
    #[verifier::when_used_as_spec(spec_is_ended)]
    pub fn is_ended(self) -> (r: bool)
        ensures
            r == self.spec_is_ended(),
    {
        match self {
            GameState::NotStarted | GameState::Started => false,
            _ => true,
        }
    }
}

} // verus!
