//! Rock-paper-scissors against the pet.

use vstd::prelude::*;

verus! {

#[derive(Debug, Clone, Copy, PartialEq, Eq, Structural)]
pub enum GameOutcome {
    Draw,
    Win,
    Loss,
}

/// Hands are 0 rock, 1 paper, 2 scissors; each beats the one before it.
pub open spec fn outcome_of(player: int, pet_pick: int) -> GameOutcome {
    if player == pet_pick {
        GameOutcome::Draw
    } else if player == (pet_pick + 1) % 3 {
        GameOutcome::Win
    } else {
        GameOutcome::Loss
    }
}

/// The player's result against the pet's pick.
pub fn jokenpo(player: usize, pet_pick: usize) -> (r: GameOutcome)
    requires
        pet_pick < usize::MAX,
    ensures
        r == outcome_of(player as int, pet_pick as int),
{
    if player == pet_pick {
        GameOutcome::Draw
    } else if player == (pet_pick + 1) % 3 {
        GameOutcome::Win
    } else {
        GameOutcome::Loss
    }
}

/// The pet's hand, drawn from the sub-second part of the clock.
pub fn random_pick() -> (r: usize)
    ensures
        r < 3,
{
    (crate::pet::system_clock().1 % 3) as usize
}

/// The game is fair between two valid hands: a draw exactly when both pick
/// the same, and one side wins exactly when the other loses.
pub proof fn law_jokenpo_fair(a: int, b: int)
    requires
        0 <= a < 3,
        0 <= b < 3,
    ensures
        (outcome_of(a, b) == GameOutcome::Draw) <==> a == b,
        (outcome_of(a, b) == GameOutcome::Win) <==> (outcome_of(b, a) == GameOutcome::Loss),
        (outcome_of(a, b) == GameOutcome::Win) <==> a == (b + 1) % 3,
{
}

} // verus!
