//! The rules of the game: which dice are kept after each roll, and the score.
//!
//! A game starts with five dice to roll. Each round rolls the dice that are
//! left and keeps at least one of them. A Four and a Two must both be kept
//! for the game to score; the score is then the pips of the kept dice beyond
//! those two, so that a Four, a Two and three Sixes make the top score of 18.
use crate::dice::{
    above, count_face, first_index, has, has_face, lemma_above_len, lemma_count_face_above,
    lemma_count_face_concat, lemma_count_face_multiset, lemma_count_face_remove,
    lemma_count_face_take_le, lemma_first_index, lemma_max_die_in, lemma_sum_by_faces,
    lemma_take_next, max_die, remove_first, sum_pips, Dice,
};
use crate::die::{Die, FaceValue};
use crate::number_of_dice::NumberOfDice;
use rand::rngs::SmallRng;
use vstd::multiset::Multiset;
use vstd::prelude::*;

verus! {

/// A pause of a given length, supplied by the platform the game runs on.
pub trait Delay {
    fn delay_ms(&mut self, ms: u32);
}

/// Whether the kept dice `s` lack a Four or a Two, so that they cannot score.
pub open spec fn fish(s: Seq<Die>) -> bool {
    !(has_face(s, FaceValue::Four) && has_face(s, FaceValue::Two))
}

/// Whether the kept dice `s` can still grow into the top score: at most one
/// Four, at most one Two, and Sixes otherwise.
pub open spec fn winnable(s: Seq<Die>) -> bool {
    &&& count_face(s, FaceValue::Four) <= 1
    &&& count_face(s, FaceValue::Two) <= 1
    &&& forall|i: int|
        0 <= i < s.len() ==> (s[i].value == FaceValue::Two || s[i].value == FaceValue::Four
            || s[i].value == FaceValue::Six)
}

/// The kept dice after the mandatory pick of face `f` from `pool`: one die of
/// that face moves over when none is kept yet.
pub open spec fn with_mandatory(picked: Seq<Die>, pool: Seq<Die>, f: FaceValue) -> Seq<Die> {
    if !has_face(picked, f) && has_face(pool, f) {
        picked.push(Die { value: f })
    } else {
        picked
    }
}

/// What is left of `pool` after the mandatory pick of face `f`.
pub open spec fn pool_after(picked: Seq<Die>, pool: Seq<Die>, f: FaceValue) -> Seq<Die> {
    if !has_face(picked, f) {
        remove_first(pool, f)
    } else {
        pool
    }
}

/// The kept dice after the mandatory picks of a Four and then a Two.
pub open spec fn mandatory_kept(picked: Seq<Die>, rolled: Seq<Die>) -> Seq<Die> {
    with_mandatory(
        with_mandatory(picked, rolled, FaceValue::Four),
        pool_after(picked, rolled, FaceValue::Four),
        FaceValue::Two,
    )
}

/// The rolled dice that the mandatory picks left over.
pub open spec fn mandatory_pool(picked: Seq<Die>, rolled: Seq<Die>) -> Seq<Die> {
    pool_after(
        with_mandatory(picked, rolled, FaceValue::Four),
        pool_after(picked, rolled, FaceValue::Four),
        FaceValue::Two,
    )
}

/// The face that a rolled die must beat to be kept as well, once a Four and a
/// Two are kept. `dice_left` is the number of dice rolled this round and
/// `kept` the dice kept after the mandatory picks.
pub open spec fn keep_threshold(dice_left: nat, kept: Seq<Die>, rolled: Seq<Die>) -> FaceValue {
    if winnable(kept) && (has_face(rolled, FaceValue::Six) || dice_left + kept.len() > 5) {
        FaceValue::Five
    } else if kept.len() > 2 {
        FaceValue::Three
    } else if above(rolled, FaceValue::Four).len() > 1 {
        FaceValue::Three
    } else {
        FaceValue::Four
    }
}

/// The kept dice after the mandatory picks and the threshold pick.
pub open spec fn threshold_kept(picked: Seq<Die>, rolled: Seq<Die>) -> Seq<Die> {
    let kept = mandatory_kept(picked, rolled);
    if fish(kept) {
        kept
    } else {
        kept + above(
            mandatory_pool(picked, rolled),
            keep_threshold(rolled.len(), kept, rolled),
        )
    }
}

/// The kept dice at the end of a round that rolled `rolled` while `picked`
/// were kept: when neither pick kept a die, the highest rolled die is kept.
pub open spec fn kept_after_round(picked: Seq<Die>, rolled: Seq<Die>) -> Seq<Die> {
    let kept = threshold_kept(picked, rolled);
    if kept.len() == picked.len() && rolled.len() > 0 {
        kept.push(max_die(rolled))
    } else {
        kept
    }
}

/// The score of the kept dice `s`: -1 when they cannot score, and otherwise
/// their pips beyond the Four and the Two.
pub open spec fn score_of(s: Seq<Die>) -> int {
    if fish(s) {
        -1
    } else {
        sum_pips(s) - 6
    }
}

proof fn lemma_mandatory_sizes(picked: Seq<Die>, pool: Seq<Die>, f: FaceValue)
    ensures
        with_mandatory(picked, pool, f).len() + pool_after(picked, pool, f).len() == picked.len()
            + pool.len(),
        with_mandatory(picked, pool, f).len() >= picked.len(),
{
    if !has_face(picked, f) && has_face(pool, f) {
        lemma_first_index(pool, f);
    }
}

/// A round that rolls the dice that are left keeps at least one die more, and
/// never more than five in all.
pub proof fn lemma_round_sizes(picked: Seq<Die>, rolled: Seq<Die>)
    requires
        picked.len() + rolled.len() == 5,
        rolled.len() > 0,
    ensures
        picked.len() < kept_after_round(picked, rolled).len() <= 5,
        threshold_kept(picked, rolled).len() <= 5,
        mandatory_kept(picked, rolled).len() <= 5,
{
    let p1 = with_mandatory(picked, rolled, FaceValue::Four);
    let pool1 = pool_after(picked, rolled, FaceValue::Four);
    lemma_mandatory_sizes(picked, rolled, FaceValue::Four);
    lemma_mandatory_sizes(p1, pool1, FaceValue::Two);
    let kept = mandatory_kept(picked, rolled);
    lemma_above_len(
        mandatory_pool(picked, rolled),
        keep_threshold(rolled.len(), kept, rolled),
    );
}

/// One game: the dice still to roll, the dice kept so far, the dice of the
/// last roll (for display) and the pseudo-random stream the dice come from.
pub struct Game {
    pub dice_left: NumberOfDice,
    pub small_rng: SmallRng,
    pub picked: Dice,
    pub rolled: Dice,
}

impl Game {
    /// Every die of a game is either kept or still to be rolled.
    pub open spec fn well_formed(&self) -> bool {
        self.dice_left.value() + self.picked@.len() == 5
    }

    /// `next` is what one call of `roll` may make of `self`: nothing changes
    /// once no dice are left; otherwise `next.rolled` holds the dice that are
    /// left, freshly rolled, and `next.picked` the dice kept after that round.
    pub open spec fn rolls_to(self, next: Game) -> bool {
        if self.dice_left == NumberOfDice::Zero {
            &&& next.dice_left == self.dice_left
            &&& next.picked@ == self.picked@
            &&& next.rolled@ == self.rolled@
        } else {
            &&& next.rolled@.len() == self.dice_left.value()
            &&& next.picked@ == kept_after_round(self.picked@, next.rolled@)
            &&& next.well_formed()
        }
    }

    pub fn new(small_rng: SmallRng) -> (r: Game)
        ensures
            r.dice_left == NumberOfDice::Five,
            r.picked@ == Seq::<Die>::empty(),
            r.rolled@ == Seq::<Die>::empty(),
            r.small_rng == small_rng,
            r.well_formed(),
    {
        Game { dice_left: NumberOfDice::Five, small_rng, picked: Dice::empty(), rolled: Dice::empty() }
    }

    /// Starts a new game on the same pseudo-random stream.
    pub fn reset(&mut self)
        ensures
            final(self).dice_left == NumberOfDice::Five,
            final(self).picked@ == Seq::<Die>::empty(),
            final(self).rolled@ == Seq::<Die>::empty(),
            final(self).small_rng == old(self).small_rng,
            final(self).well_formed(),
    {
        self.dice_left = NumberOfDice::Five;
        self.picked = Dice::empty();
        self.rolled = Dice::empty();
    }

    /// Rolls the dice that are left and keeps dice by the rules; does nothing
    /// once no dice are left.
    pub fn roll(&mut self)
        requires
            old(self).well_formed(),
        ensures
            final(self).well_formed(),
            old(self).rolls_to(*final(self)),
    {
        if self.dice_left == NumberOfDice::Zero {
            return;
        }
        let rolled = Dice::roll(&mut self.small_rng, self.dice_left.as_u8() as u32);
        self.keep(rolled);
    }

    /// Plays one round on the dice `rolled`, which must be as many as the dice
    /// that are left: keeps dice by the rules and records `rolled` for
    /// display. Does nothing once no dice are left.
    pub fn keep(&mut self, rolled: Dice)
        requires
            old(self).well_formed(),
            old(self).dice_left != NumberOfDice::Zero ==> rolled@.len() == old(self).dice_left.value(),
        ensures
            final(self).well_formed(),
            final(self).small_rng == old(self).small_rng,
            old(self).rolls_to(*final(self)),
            old(self).dice_left != NumberOfDice::Zero ==> final(self).rolled@ == rolled@,
    {
        if self.dice_left == NumberOfDice::Zero {
            return;
        }
        let ghost before = self.picked@;
        proof {
            lemma_round_sizes(before, rolled@);
        }
        let mut picked = Dice::empty();
        picked.append(&mut self.picked);
        let mut pool = rolled.duplicate();

        if !has_four(&picked) {
            if let Some(die) = pool.take_first(FaceValue::Four) {
                picked.push(die);
            }
        }
        assert(picked@ == with_mandatory(before, rolled@, FaceValue::Four));
        assert(pool@ == pool_after(before, rolled@, FaceValue::Four));
        if !has_two(&picked) {
            if let Some(die) = pool.take_first(FaceValue::Two) {
                picked.push(die);
            }
        }
        assert(picked@ == mandatory_kept(before, rolled@));
        assert(pool@ == mandatory_pool(before, rolled@));
        if !has_fish(&picked) {
            let pick_gt = self.pick_gt_when_no_fish(&rolled, &picked);
            let mut kept = pool.pick_above(pick_gt);
            picked.append(&mut kept);
        }
        assert(picked@ == threshold_kept(before, rolled@));
        // every round keeps at least one die
        if !self.did_new_pick(&picked) {
            if let Some(die) = rolled.max() {
                picked.push(die);
            }
        }
        assert(picked@ == kept_after_round(before, rolled@));

        self.rolled = rolled;
        self.picked = picked;
        self.dice_left = NumberOfDice::Five - self.picked.len() as u8;
    }

    /// The score of the kept dice: -1 when a Four or a Two is missing, and
    /// otherwise the pips beyond the Four and the Two.
    pub fn score(&self) -> (r: i8)
        requires
            self.well_formed(),
        ensures
            r == score_of(self.picked@),
    {
        if has_fish(&self.picked) {
            return -1;
        }
        let ghost s = self.picked@;
        let n = self.picked.dice.len();
        let mut sum: u8 = 0;
        let mut i: usize = 0;
        while i < n
            invariant
                n == s.len(),
                s == self.picked@,
                n <= 5,
                i <= n,
                sum == sum_pips(s.take(i as int)),
                sum <= 6 * i,
            decreases n - i,
        {
            proof {
                lemma_take_next(s, i as int);
            }
            sum = sum + self.picked.dice[i].value.as_u8();
            i = i + 1;
        }
        assert(s.take(n as int) =~= s);
        sum as i8 - NumberOfDice::Four.as_u8() as i8 - NumberOfDice::Two.as_u8() as i8
    }

    pub fn has_fish(&self) -> (r: bool)
        ensures
            r == fish(self.picked@),
    {
        has_fish(&self.picked)
    }

    /// Whether the kept dice make the top score.
    pub fn has_won(&self) -> (r: bool)
        requires
            self.well_formed(),
        ensures
            r == (score_of(self.picked@) == 18),
    {
        self.score() == 18
    }

    /// The face that a rolled die must beat to be kept as well, for the dice
    /// `picked` kept after the mandatory picks of this round.
    fn pick_gt_when_no_fish(&self, rolled: &Dice, picked: &Dice) -> (r: FaceValue)
        requires
            picked@.len() <= 5,
            self.dice_left.value() == rolled@.len(),
        ensures
            r == keep_threshold(rolled@.len(), picked@, rolled@),
    {
        if can_win(picked) && (has_six(rolled) || self.did_new_pick(picked)) {
            FaceValue::Five
        } else {
            let dice_left = self.dice_left(picked);
            if dice_left.as_u8() < NumberOfDice::Three.as_u8() {
                FaceValue::Three
            } else {
                if rolled.count_above(FaceValue::Four) > 1 {
                    FaceValue::Three
                } else {
                    FaceValue::Four
                }
            }
        }
    }

    /// The dice that would be left to roll with `picked` kept.
    fn dice_left(&self, picked: &Dice) -> (r: NumberOfDice)
        requires
            picked@.len() <= 5,
        ensures
            r.value() == 5 - picked@.len(),
    {
        NumberOfDice::Five - picked.len() as u8
    }

    /// Whether `picked` holds more dice than were kept before this round.
    fn did_new_pick(&self, picked: &Dice) -> (r: bool)
        requires
            picked@.len() <= 5,
        ensures
            r == (self.dice_left.value() + picked@.len() > 5),
    {
        self.dice_left.as_u8() > self.dice_left(picked).as_u8()
    }
}

/// The dice of the top score: a Four, a Two and three Sixes.
pub open spec fn top_hand() -> Multiset<Die> {
    Multiset::empty().insert(Die { value: FaceValue::Four }).insert(
        Die { value: FaceValue::Two },
    ).insert(Die { value: FaceValue::Six }).insert(Die { value: FaceValue::Six }).insert(
        Die { value: FaceValue::Six },
    )
}

/// At most five kept dice score 18 exactly when they are a Four, a Two and
/// three Sixes, in any order.
pub proof fn lemma_top_score(picked: Seq<Die>)
    requires
        picked.len() <= 5,
    ensures
        (score_of(picked) == 18) <==> picked.to_multiset() =~= top_hand(),
{
    broadcast use vstd::multiset::group_multiset_axioms;

    lemma_sum_by_faces(picked);
    lemma_count_face_multiset(picked, FaceValue::One);
    lemma_count_face_multiset(picked, FaceValue::Two);
    lemma_count_face_multiset(picked, FaceValue::Three);
    lemma_count_face_multiset(picked, FaceValue::Four);
    lemma_count_face_multiset(picked, FaceValue::Five);
    lemma_count_face_multiset(picked, FaceValue::Six);
    let m = picked.to_multiset();
    let top = top_hand();
    assert(top.count(Die { value: FaceValue::One }) == 0);
    assert(top.count(Die { value: FaceValue::Two }) == 1);
    assert(top.count(Die { value: FaceValue::Three }) == 0);
    assert(top.count(Die { value: FaceValue::Four }) == 1);
    assert(top.count(Die { value: FaceValue::Five }) == 0);
    assert(top.count(Die { value: FaceValue::Six }) == 3);
    if score_of(picked) == 18 {
        assert forall|d: Die| m.count(d) == top.count(d) by {
            assert(d == Die { value: d.value });
        }
    }
    if m =~= top {
        assert(m.count(Die { value: FaceValue::Four }) == 1);
        assert(m.count(Die { value: FaceValue::Two }) == 1);
        assert(m.count(Die { value: FaceValue::Six }) == 3);
        assert(m.count(Die { value: FaceValue::One }) == 0);
        assert(m.count(Die { value: FaceValue::Three }) == 0);
        assert(m.count(Die { value: FaceValue::Five }) == 0);
    }
}

/// In a sequence of games, the game at `i + 1` is the game at `i` rolled once.
pub open spec fn rolled_on(games: Seq<Game>, i: int) -> bool {
    games[i].rolls_to(games[i + 1])
}

proof fn lemma_roll_progress(g: Game, h: Game)
    requires
        g.well_formed(),
        g.rolls_to(h),
    ensures
        h.well_formed(),
        h.dice_left.value() < g.dice_left.value() || h.dice_left == NumberOfDice::Zero,
{
    if g.dice_left != NumberOfDice::Zero {
        lemma_round_sizes(g.picked@, h.rolled@);
    }
}

/// Whatever the dice show, a game has no dice left after five calls of `roll`.
pub proof fn lemma_game_ends_within_five_rolls(games: Seq<Game>)
    requires
        games.len() == 6,
        games[0].well_formed(),
        forall|i: int| 0 <= i < 5 ==> #[trigger] rolled_on(games, i),
    ensures
        games[5].dice_left == NumberOfDice::Zero,
{
    assert(rolled_on(games, 0));
    lemma_roll_progress(games[0], games[1]);
    assert(rolled_on(games, 1));
    lemma_roll_progress(games[1], games[2]);
    assert(rolled_on(games, 2));
    lemma_roll_progress(games[2], games[3]);
    assert(rolled_on(games, 3));
    lemma_roll_progress(games[3], games[4]);
    assert(rolled_on(games, 4));
    lemma_roll_progress(games[4], games[5]);
}

proof fn lemma_count_face_push(s: Seq<Die>, d: Die, f: FaceValue)
    ensures
        count_face(s.push(d), f) == count_face(s, f) + if d.value == f {
            1nat
        } else {
            0nat
        },
{
    assert(s.push(d).drop_last() =~= s);
}

/// The counts of face `g` after the mandatory pick of face `f`.
proof fn lemma_mandatory_counts(picked: Seq<Die>, pool: Seq<Die>, f: FaceValue, g: FaceValue)
    ensures
        count_face(with_mandatory(picked, pool, f), g) == count_face(picked, g) + if g == f
            && !has_face(picked, f) && has_face(pool, f) {
            1nat
        } else {
            0nat
        },
        count_face(pool_after(picked, pool, f), g) == count_face(pool, g) - if g == f
            && !has_face(picked, f) && has_face(pool, f) {
            1int
        } else {
            0int
        },
{
    if !has_face(picked, f) && has_face(pool, f) {
        lemma_count_face_push(picked, Die { value: f }, g);
        lemma_first_index(pool, f);
        lemma_count_face_remove(pool, first_index(pool, f), g);
    }
}

/// One round keeps at most one Four and at most one Two, when the kept dice
/// did and the roll shows no Four (Two) beyond the one that the mandatory
/// pick takes: none at all when one is kept already, and at most one
/// otherwise. (A second Four or Two that a roll shows may be kept by the
/// threshold pick or the forced pick.)
pub proof fn lemma_round_single_four_and_two(picked: Seq<Die>, rolled: Seq<Die>)
    requires
        picked.len() + rolled.len() == 5,
        rolled.len() > 0,
        count_face(picked, FaceValue::Four) <= 1,
        count_face(picked, FaceValue::Two) <= 1,
        count_face(rolled, FaceValue::Four) <= if has_face(picked, FaceValue::Four) {
            0nat
        } else {
            1nat
        },
        count_face(rolled, FaceValue::Two) <= if has_face(picked, FaceValue::Two) {
            0nat
        } else {
            1nat
        },
    ensures
        count_face(kept_after_round(picked, rolled), FaceValue::Four) <= 1,
        count_face(kept_after_round(picked, rolled), FaceValue::Two) <= 1,
{
    let four = FaceValue::Four;
    let two = FaceValue::Two;
    let p1 = with_mandatory(picked, rolled, four);
    let pool1 = pool_after(picked, rolled, four);
    lemma_mandatory_counts(picked, rolled, four, four);
    lemma_mandatory_counts(picked, rolled, four, two);
    lemma_mandatory_counts(p1, pool1, two, four);
    lemma_mandatory_counts(p1, pool1, two, two);
    let kept = mandatory_kept(picked, rolled);
    let pool = mandatory_pool(picked, rolled);
    assert(count_face(pool, four) == 0);
    assert(count_face(pool, two) == 0);
    let t = keep_threshold(rolled.len(), kept, rolled);
    lemma_count_face_above(pool, t, four);
    lemma_count_face_above(pool, t, two);
    lemma_count_face_concat(kept, above(pool, t), four);
    lemma_count_face_concat(kept, above(pool, t), two);
    let wide = threshold_kept(picked, rolled);
    assert(count_face(wide, four) <= 1);
    assert(count_face(wide, two) <= 1);
    lemma_round_sizes(picked, rolled);
    lemma_mandatory_sizes(picked, rolled, four);
    lemma_mandatory_sizes(p1, pool1, two);
    if wide.len() == picked.len() {
        // nothing was kept by the picks, so the roll shows neither face
        assert(kept.len() == picked.len()) by {
            if !fish(kept) {
                lemma_count_face_concat(kept, above(pool, t), four);
            }
        }
        assert(count_face(rolled, four) == 0);
        assert(count_face(rolled, two) == 0);
        lemma_max_die_in(rolled);
        let m = max_die(rolled);
        lemma_count_face_push(wide, m, four);
        lemma_count_face_push(wide, m, two);
    }
}

/// A round that rolls neither a Four nor a Two, while neither is kept, keeps
/// just the highest die rolled, and the kept dice still cannot score.
pub proof fn lemma_round_without_four_or_two(picked: Seq<Die>, rolled: Seq<Die>)
    requires
        rolled.len() > 0,
        !has_face(picked, FaceValue::Four),
        !has_face(picked, FaceValue::Two),
        !has_face(rolled, FaceValue::Four),
        !has_face(rolled, FaceValue::Two),
    ensures
        kept_after_round(picked, rolled) == picked.push(max_die(rolled)),
        !has_face(kept_after_round(picked, rolled), FaceValue::Four),
        !has_face(kept_after_round(picked, rolled), FaceValue::Two),
        fish(kept_after_round(picked, rolled)),
        score_of(kept_after_round(picked, rolled)) == -1,
{
    lemma_max_die_in(rolled);
    let m = max_die(rolled);
    lemma_count_face_push(picked, m, FaceValue::Four);
    lemma_count_face_push(picked, m, FaceValue::Two);
}

/// A game in which no roll shows a Four or a Two keeps one die each round,
/// and ends after five rolls with the score -1.
pub proof fn lemma_game_without_four_or_two(games: Seq<Game>)
    requires
        games.len() == 6,
        games[0].dice_left == NumberOfDice::Five,
        games[0].picked@.len() == 0,
        forall|i: int| 0 <= i < 5 ==> #[trigger] rolled_on(games, i),
        forall|i: int|
            1 <= i < 6 ==> !has_face(#[trigger] games[i].rolled@, FaceValue::Four) && !has_face(
                games[i].rolled@,
                FaceValue::Two,
            ),
    ensures
        forall|i: int| 0 <= i < 6 ==> #[trigger] games[i].picked@.len() == i,
        games[5].dice_left == NumberOfDice::Zero,
        fish(games[5].picked@),
        score_of(games[5].picked@) == -1,
{
    assert forall|i: int| 0 <= i < 6 implies {
        &&& #[trigger] games[i].picked@.len() == i
        &&& games[i].dice_left.value() == 5 - i
        &&& !has_face(games[i].picked@, FaceValue::Four)
        &&& !has_face(games[i].picked@, FaceValue::Two)
    } by {
        lemma_game_without_four_or_two_upto(games, i);
    }
    lemma_game_without_four_or_two_upto(games, 5);
    assert(games[5].dice_left.value() == 0);
}

proof fn lemma_game_without_four_or_two_upto(games: Seq<Game>, k: int)
    requires
        0 <= k < 6,
        games.len() == 6,
        games[0].dice_left == NumberOfDice::Five,
        games[0].picked@.len() == 0,
        forall|i: int| 0 <= i < 5 ==> #[trigger] rolled_on(games, i),
        forall|i: int|
            1 <= i < 6 ==> !has_face(#[trigger] games[i].rolled@, FaceValue::Four) && !has_face(
                games[i].rolled@,
                FaceValue::Two,
            ),
    ensures
        games[k].picked@.len() == k,
        games[k].dice_left.value() == 5 - k,
        !has_face(games[k].picked@, FaceValue::Four),
        !has_face(games[k].picked@, FaceValue::Two),
    decreases k,
{
    if k == 0 {
        assert(games[0].picked@ =~= Seq::<Die>::empty());
    } else {
        lemma_game_without_four_or_two_upto(games, k - 1);
        let g = games[k - 1];
        let h = games[k];
        assert(rolled_on(games, k - 1));
        assert(!has_face(h.rolled@, FaceValue::Four));
        lemma_round_without_four_or_two(g.picked@, h.rolled@);
    }
}

/// Whether the kept dice can still grow into the top score.
fn can_win(picked_dice: &Dice) -> (r: bool)
    ensures
        r == winnable(picked_dice@),
{
    let ghost s = picked_dice@;
    let n = picked_dice.dice.len();
    let mut count_4: usize = 0;
    let mut count_2: usize = 0;
    let mut i: usize = 0;
    while i < n
        invariant
            n == s.len(),
            s == picked_dice@,
            i <= n,
            count_4 == count_face(s.take(i as int), FaceValue::Four),
            count_2 == count_face(s.take(i as int), FaceValue::Two),
            count_4 <= 1,
            count_2 <= 1,
            forall|j: int|
                0 <= j < i ==> (s[j].value == FaceValue::Two || s[j].value == FaceValue::Four
                    || s[j].value == FaceValue::Six),
        decreases n - i,
    {
        proof {
            lemma_take_next(s, i as int);
        }
        match picked_dice.dice[i].value {
            FaceValue::Four => {
                count_4 = count_4 + 1;
                if count_4 > 1 {
                    proof {
                        lemma_count_face_take_le(s, i + 1, FaceValue::Four);
                    }
                    return false;
                }
            },
            FaceValue::Two => {
                count_2 = count_2 + 1;
                if count_2 > 1 {
                    proof {
                        lemma_count_face_take_le(s, i + 1, FaceValue::Two);
                    }
                    return false;
                }
            },
            FaceValue::Six => {},
            _ => {
                return false;
            },
        }
        i = i + 1;
    }
    assert(s.take(n as int) =~= s);
    true
}

/// Whether the kept dice lack a Four or a Two.
pub fn has_fish(dice: &Dice) -> (r: bool)
    ensures
        r == fish(dice@),
{
    !(has_four(dice) && has_two(dice))
}

pub fn has_two(dice: &Dice) -> (r: bool)
    ensures
        r == has_face(dice@, FaceValue::Two),
{
    has(dice.dice.as_slice(), FaceValue::Two)
}

pub fn has_four(dice: &Dice) -> (r: bool)
    ensures
        r == has_face(dice@, FaceValue::Four),
{
    has(dice.dice.as_slice(), FaceValue::Four)
}

pub fn has_six(dice: &Dice) -> (r: bool)
    ensures
        r == has_face(dice@, FaceValue::Six),
{
    has(dice.dice.as_slice(), FaceValue::Six)
}

} // verus!
