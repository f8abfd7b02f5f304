use rand::rngs::SmallRng;
use rand::SeedableRng;
use two_four_eighteen::dice::{has, Dice};
use two_four_eighteen::die::{Die, FaceValue};

fn dice(pips: &[u8]) -> Dice {
    let mut dice = Dice::empty();
    for &p in pips {
        dice.push(Die::new(FaceValue::from_u8(p).unwrap()));
    }
    dice
}

fn pips_of(dice: &[Die]) -> Vec<u8> {
    dice.iter().map(|d| d.value.as_u8()).collect()
}

#[test]
fn pick_takes_the_first_matching_dice() {
    let d = dice(&[4, 1, 4, 4, 2]);
    assert_eq!(pips_of(&d.pick(FaceValue::Four, Some(1))), vec![4]);
    assert_eq!(pips_of(&d.pick(FaceValue::Four, Some(2))), vec![4, 4]);
    assert_eq!(pips_of(&d.pick(FaceValue::Four, None)), vec![4, 4, 4]);
    assert_eq!(pips_of(&d.pick(FaceValue::Four, Some(0))), Vec::<u8>::new());
    assert_eq!(pips_of(&d.pick(FaceValue::Six, None)), Vec::<u8>::new());
    assert_eq!(d.len(), 5);
}

#[test]
fn pick_above_and_count_above() {
    let d = dice(&[3, 6, 4, 5, 1]);
    assert_eq!(pips_of(&d.pick_above(FaceValue::Three).dice), vec![6, 4, 5]);
    assert_eq!(pips_of(&d.pick_above(FaceValue::Five).dice), vec![6]);
    assert_eq!(d.count_above(FaceValue::Four), 2);
    assert_eq!(d.count_above(FaceValue::Six), 0);
}

#[test]
fn take_first_moves_one_die() {
    let mut d = dice(&[1, 4, 2, 4]);
    let taken = d.take_first(FaceValue::Four);
    assert!(taken == Some(Die::new(FaceValue::Four)));
    assert_eq!(pips_of(&d.dice), vec![1, 2, 4]);
    assert!(d.take_first(FaceValue::Six).is_none());
    assert_eq!(pips_of(&d.dice), vec![1, 2, 4]);
}

#[test]
fn max_and_membership() {
    let d = dice(&[2, 5, 3, 5]);
    assert!(d.max() == Some(Die::new(FaceValue::Five)));
    assert!(Dice::empty().max().is_none());
    assert!(d.has(FaceValue::Three));
    assert!(!d.has(FaceValue::Six));
    assert!(has(&d.dice, FaceValue::Two));
    assert!(!has(&[], FaceValue::Two));
}

#[test]
fn append_and_duplicate() {
    let mut a = dice(&[1, 2]);
    let mut b = dice(&[3]);
    a.append(&mut b);
    assert_eq!(pips_of(&a.dice), vec![1, 2, 3]);
    assert_eq!(b.len(), 0);
    let c = a.duplicate();
    assert_eq!(pips_of(&c.dice), vec![1, 2, 3]);
}

#[test]
fn rolled_dice_cover_every_face() {
    let mut rng = SmallRng::seed_from_u64(42);
    let d = Dice::roll(&mut rng, 300);
    assert_eq!(d.len(), 300);
    for p in 1..=6u8 {
        assert!(d.has(FaceValue::from_u8(p).unwrap()), "face {} never rolled", p);
    }
}

#[test]
fn one_to_five_dice_vary_in_number() {
    let mut rng = SmallRng::seed_from_u64(7);
    let mut seen = [false; 6];
    for _ in 0..200 {
        let d = Dice::roll_one_to_five(&mut rng);
        assert!((1..=5).contains(&d.len()));
        seen[d.len()] = true;
    }
    assert!(seen[1..].iter().all(|&s| s));
}

#[test]
fn same_seed_rolls_the_same_dice() {
    let mut a = SmallRng::seed_from_u64(99);
    let mut b = SmallRng::seed_from_u64(99);
    assert_eq!(pips_of(&Dice::roll(&mut a, 5).dice), pips_of(&Dice::roll(&mut b, 5).dice));
}
