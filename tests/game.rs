use rand::rngs::SmallRng;
use rand::SeedableRng;
use two_four_eighteen::dice::Dice;
use two_four_eighteen::die::{Die, FaceValue};
use two_four_eighteen::number_of_dice::NumberOfDice;
use two_four_eighteen::two_four_eighteen::{has_fish, has_four, has_six, has_two, Game};

fn dice(pips: &[u8]) -> Dice {
    let mut dice = Dice::empty();
    for &p in pips {
        dice.push(Die::new(FaceValue::from_u8(p).unwrap()));
    }
    dice
}

fn pips(dice: &Dice) -> Vec<u8> {
    dice.dice.iter().map(|d| d.value.as_u8()).collect()
}

fn sorted(mut v: Vec<u8>) -> Vec<u8> {
    v.sort();
    v
}

fn game(seed: u64) -> Game {
    Game::new(SmallRng::seed_from_u64(seed))
}

#[test]
fn explicit_rolls_reach_the_top_score() {
    let mut g = game(1);
    g.keep(dice(&[4, 4, 2, 6, 6]));
    assert_eq!(pips(&g.picked), vec![4, 2, 6, 6]);
    assert!(g.dice_left == NumberOfDice::One);
    assert_eq!(pips(&g.rolled), vec![4, 4, 2, 6, 6]);
    assert!(!g.has_won());
    g.keep(dice(&[6]));
    assert_eq!(sorted(pips(&g.picked)), vec![2, 4, 6, 6, 6]);
    assert!(g.dice_left == NumberOfDice::Zero);
    assert_eq!(g.score(), 18);
    assert!(g.has_won());
    assert!(!g.has_fish());
}

#[test]
fn rolls_without_four_or_two_end_in_fish() {
    let mut g = game(2);
    let rounds: [&[u8]; 5] = [&[1, 3, 5, 6, 1], &[1, 1, 3, 5], &[3, 3, 1], &[1, 5], &[3]];
    let kept = [6u8, 5, 3, 5, 3];
    for (i, roll) in rounds.iter().enumerate() {
        let before = g.picked.len();
        g.keep(dice(roll));
        assert_eq!(g.picked.len(), before + 1);
        assert_eq!(*pips(&g.picked).last().unwrap(), kept[i]);
    }
    assert!(g.dice_left == NumberOfDice::Zero);
    assert!(g.has_fish());
    assert_eq!(g.score(), -1);
    assert!(!g.has_won());
}

#[test]
fn mandatory_pick_then_five_threshold_keeps_nothing_more() {
    let mut g = game(3);
    g.keep(dice(&[4, 2, 5, 1, 1]));
    assert_eq!(pips(&g.picked), vec![4, 2]);
    assert!(g.dice_left == NumberOfDice::Three);
}

#[test]
fn two_high_dice_lower_the_threshold() {
    let mut g = game(4);
    g.keep(dice(&[4, 2, 5, 1, 1]));
    // no Six and no new pick, three dice left, one die above Four: keep Fives and Sixes
    g.keep(dice(&[5, 1, 1]));
    assert_eq!(pips(&g.picked), vec![4, 2, 5]);
    assert!(g.dice_left == NumberOfDice::Two);
    let mut h = game(5);
    h.keep(dice(&[4, 2, 5, 1, 1]));
    // two dice above Four: keep Fours as well
    h.keep(dice(&[5, 5, 4]));
    assert_eq!(pips(&h.picked), vec![4, 2, 5, 5, 4]);
    assert!(h.dice_left == NumberOfDice::Zero);
    assert_eq!(h.score(), 14);
}

#[test]
fn few_dice_left_keep_a_second_four() {
    let mut g = game(6);
    g.keep(dice(&[4, 2, 5, 1, 1]));
    g.keep(dice(&[5, 1, 1]));
    g.keep(dice(&[4, 4]));
    assert_eq!(pips(&g.picked), vec![4, 2, 5, 4, 4]);
    assert!(g.dice_left == NumberOfDice::Zero);
    assert_eq!(g.score(), 13);
}

#[test]
fn forced_pick_keeps_the_highest_die() {
    let mut g = game(7);
    g.keep(dice(&[1, 3, 1, 5, 3]));
    assert_eq!(pips(&g.picked), vec![5]);
    assert!(g.dice_left == NumberOfDice::Four);
    assert!(g.has_fish());
    assert_eq!(g.score(), -1);
}

#[test]
fn a_four_moved_to_the_kept_dice_is_not_kept_twice() {
    let mut g = game(8);
    g.keep(dice(&[2, 5, 1, 1, 1]));
    assert_eq!(pips(&g.picked), vec![2]);
    g.keep(dice(&[5, 5, 1, 1]));
    assert_eq!(pips(&g.picked), vec![2, 5]);
    g.keep(dice(&[4, 5, 6]));
    // the Four is the mandatory pick; the threshold is Three, and the moved
    // Four is not kept a second time
    assert_eq!(pips(&g.picked), vec![2, 5, 4, 5, 6]);
    assert_eq!(g.score(), 16);
}

#[test]
fn score_counts_pips_beyond_four_and_two() {
    let mut g = game(9);
    g.keep(dice(&[4, 2, 3, 3, 3]));
    assert_eq!(pips(&g.picked), vec![4, 2]);
    g.keep(dice(&[3, 3, 1]));
    assert_eq!(pips(&g.picked), vec![4, 2, 3]);
    g.keep(dice(&[3, 1]));
    assert_eq!(pips(&g.picked), vec![4, 2, 3, 3]);
    g.keep(dice(&[1]));
    assert_eq!(pips(&g.picked), vec![4, 2, 3, 3, 1]);
    assert_eq!(g.score(), 7);
}

#[test]
fn roll_does_nothing_once_no_dice_are_left() {
    let mut g = game(10);
    for _ in 0..5 {
        g.roll();
    }
    assert!(g.dice_left == NumberOfDice::Zero);
    let picked = pips(&g.picked);
    let rolled = pips(&g.rolled);
    g.roll();
    assert!(g.dice_left == NumberOfDice::Zero);
    assert_eq!(pips(&g.picked), picked);
    assert_eq!(pips(&g.rolled), rolled);
}

#[test]
fn every_seed_ends_within_five_rolls_with_five_dice_kept() {
    for seed in 0..200u64 {
        let mut g = game(seed);
        let mut rolls = 0;
        while g.dice_left != NumberOfDice::Zero {
            let left = g.dice_left.as_u8();
            g.roll();
            rolls += 1;
            assert_eq!(g.rolled.len(), left as usize);
            assert!(g.dice_left.as_u8() < left);
            assert_eq!(g.dice_left.as_u8() as usize + g.picked.len(), 5);
        }
        assert!(rolls <= 5);
        let score = g.score();
        if g.has_fish() {
            assert_eq!(score, -1);
        } else {
            let sum: i32 = pips(&g.picked).iter().map(|&p| p as i32).sum();
            assert_eq!(score as i32, sum - 6);
        }
        assert_eq!(g.has_won(), sorted(pips(&g.picked)) == vec![2, 4, 6, 6, 6]);
    }
}

#[test]
fn reset_keeps_the_stream_and_clears_the_dice() {
    let mut g = game(11);
    g.roll();
    g.reset();
    assert!(g.dice_left == NumberOfDice::Five);
    assert_eq!(g.picked.len(), 0);
    assert_eq!(g.rolled.len(), 0);
    g.roll();
    let mut first = game(11);
    first.roll();
    let mut continued = Game::new(first.small_rng.clone());
    continued.roll();
    // the new game continues the stream instead of starting it anew
    assert_eq!(pips(&g.rolled), pips(&continued.rolled));
}

#[test]
fn face_queries_on_kept_dice() {
    let d = dice(&[4, 6, 1]);
    assert!(has_four(&d));
    assert!(!has_two(&d));
    assert!(has_six(&d));
    assert!(has_fish(&d));
    let d = dice(&[2, 4]);
    assert!(!has_fish(&d));
    assert!(has_fish(&Dice::empty()));
}

#[test]
fn number_of_dice_arithmetic() {
    assert_eq!(NumberOfDice::Five.as_u8(), 5);
    assert!(NumberOfDice::from_u8(3) == NumberOfDice::Three);
    assert!(NumberOfDice::from_u8(0) == NumberOfDice::Zero);
    assert!(NumberOfDice::from_u8(9) == NumberOfDice::Zero);
    assert!(NumberOfDice::Five - 2 == NumberOfDice::Three);
    assert!(NumberOfDice::Two - 4 == NumberOfDice::Zero);
    assert!(NumberOfDice::Four.saturating_sub(4) == NumberOfDice::Zero);
    assert_eq!(NumberOfDice::Three.name_str(), "Three");
    assert!(NumberOfDice::Two < NumberOfDice::Three);
}

#[test]
fn face_values_and_pips() {
    assert_eq!(FaceValue::Six.as_u8(), 6);
    assert!(FaceValue::from_u8(4) == Some(FaceValue::Four));
    assert!(FaceValue::from_u8(0).is_none());
    assert!(FaceValue::from_u8(7).is_none());
    assert!(FaceValue::Five > FaceValue::Four);
}
