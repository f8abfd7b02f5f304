//! One round as the display task plays it: roll while dice are left, and
//! otherwise announce how the game ended and start a new one.
use crate::die::Die;
use crate::number_of_dice::NumberOfDice;
use crate::two_four_eighteen::{fish, score_of, Game};
use vstd::prelude::*;

verus! {

/// How a round turned out, as the display tasks see it.
#[derive(Clone, Copy, Debug, PartialEq, Eq, Structural)]
pub enum GameResult {
    /// Dice were rolled; the game goes on.
    Playing,
    /// The game ended with the top score.
    Won,
    /// The game ended without a Four or without a Two.
    Fish,
    /// The game ended with this score.
    GameOver(i8),
}

/// How a game that kept `picked` ended.
pub open spec fn outcome_of(picked: Seq<Die>) -> GameResult {
    if fish(picked) {
        GameResult::Fish
    } else if score_of(picked) == 18 {
        GameResult::Won
    } else {
        GameResult::GameOver(score_of(picked) as i8)
    }
}

impl GameResult {
    /// Whether the result ends a game.
    pub open spec fn ends_game(self) -> bool {
        !(self is Playing)
    }

    pub fn is_final_state(&self) -> (r: bool)
        ensures
            r == self.ends_game(),
    {
        !matches!(self, GameResult::Playing)
    }
}

/// Plays one round of `game`: rolls while dice are left (the rolled dice are
/// then in `game.rolled`), and otherwise reports how the game ended and resets
/// it for the next one.
pub fn play_round(game: &mut Game) -> (r: GameResult)
    requires
        old(game).well_formed(),
    ensures
        final(game).well_formed(),
        old(game).dice_left != NumberOfDice::Zero ==> {
            &&& r == GameResult::Playing
            &&& old(game).rolls_to(*final(game))
        },
        old(game).dice_left == NumberOfDice::Zero ==> {
            &&& r == outcome_of(old(game).picked@)
            &&& final(game).dice_left == NumberOfDice::Five
            &&& final(game).picked@ == Seq::<Die>::empty()
            &&& final(game).rolled@ == Seq::<Die>::empty()
            &&& final(game).small_rng == old(game).small_rng
        },
{
    if game.dice_left != NumberOfDice::Zero {
        game.roll();
        return GameResult::Playing;
    }
    let result = if game.has_fish() {
        GameResult::Fish
    } else if game.has_won() {
        GameResult::Won
    } else {
        GameResult::GameOver(game.score())
    };
    game.reset();
    result
}

} // verus!
