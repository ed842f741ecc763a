use vstd::prelude::*;

verus! {

/// Outcome of a fight, told from the side that started it.
#[derive(Clone, Copy, Debug, PartialEq, Eq, Structural)]
pub enum FightResult {
    /// Only the starting side lands a lethal blow.
    Win,
    /// Only the opposing side lands a lethal blow.
    Loss,
    /// Both sides are even: between two cards, each is lethal to the other.
    Tie,
    /// Neither card is lethal to the other.
    Draw,
}

impl FightResult {
    /// The same fight as the opposing side tells it.
    pub open spec fn mirrored(self) -> FightResult {
        match self {
            FightResult::Win => FightResult::Loss,
            FightResult::Loss => FightResult::Win,
            FightResult::Tie => FightResult::Tie,
            FightResult::Draw => FightResult::Draw,
        }
    }
}

} // verus!
