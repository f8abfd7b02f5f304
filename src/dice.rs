//! An ordered handful of dice and the queries the rules make of it.
use crate::die::{Die, FaceValue};
use crate::random::random_between;
use rand::rngs::SmallRng;
use vstd::multiset::Multiset;
use vstd::prelude::*;

verus! {

/// How many dice of `s` show face `f`.
pub open spec fn count_face(s: Seq<Die>, f: FaceValue) -> nat
    decreases s.len(),
{
    if s.len() == 0 {
        0
    } else {
        count_face(s.drop_last(), f) + if s.last().value == f {
            1nat
        } else {
            0nat
        }
    }
}

/// Whether some die of `s` shows face `f`.
pub open spec fn has_face(s: Seq<Die>, f: FaceValue) -> bool {
    count_face(s, f) > 0
}

/// The dice of `s` that show face `f`, in their order.
pub open spec fn matching(s: Seq<Die>, f: FaceValue) -> Seq<Die>
    decreases s.len(),
{
    if s.len() == 0 {
        Seq::empty()
    } else if s.last().value == f {
        matching(s.drop_last(), f).push(s.last())
    } else {
        matching(s.drop_last(), f)
    }
}

/// The dice of `s` that show more pips than `t`, in their order.
pub open spec fn above(s: Seq<Die>, t: FaceValue) -> Seq<Die>
    decreases s.len(),
{
    if s.len() == 0 {
        Seq::empty()
    } else if s.last().value.pips() > t.pips() {
        above(s.drop_last(), t).push(s.last())
    } else {
        above(s.drop_last(), t)
    }
}

/// The first `limit` dice of `m`, or all of them when there are fewer.
pub open spec fn capped(m: Seq<Die>, limit: nat) -> Seq<Die> {
    if m.len() <= limit {
        m
    } else {
        m.take(limit as int)
    }
}

/// The total number of pips that the dice of `s` show.
pub open spec fn sum_pips(s: Seq<Die>) -> nat
    decreases s.len(),
{
    if s.len() == 0 {
        0
    } else {
        sum_pips(s.drop_last()) + s.last().value.pips()
    }
}

/// A die of `s` that shows the most pips (dice that show the same face are equal).
pub open spec fn max_die(s: Seq<Die>) -> Die
    decreases s.len(),
{
    if s.len() <= 1 {
        s[0]
    } else if s.last().value.pips() > max_die(s.drop_last()).value.pips() {
        s.last()
    } else {
        max_die(s.drop_last())
    }
}

/// The position of the first die of `s` that shows face `f`.
#[verifier::opaque]
pub open spec fn first_index(s: Seq<Die>, f: FaceValue) -> int {
    choose|i: int|
        0 <= i < s.len() && s[i].value == f && forall|j: int| 0 <= j < i ==> s[j].value != f
}

/// `s` without its first die that shows face `f`; `s` itself when there is none.
pub open spec fn remove_first(s: Seq<Die>, f: FaceValue) -> Seq<Die> {
    if has_face(s, f) {
        s.remove(first_index(s, f))
    } else {
        s
    }
}

/// A prefix holds no more dice of a face than the whole.
pub proof fn lemma_count_face_take_le(s: Seq<Die>, k: int, f: FaceValue)
    requires
        0 <= k <= s.len(),
    ensures
        count_face(s.take(k), f) <= count_face(s, f),
    decreases s.len(),
{
    if k < s.len() {
        let t = s.drop_last();
        assert(t.take(k) =~= s.take(k));
        lemma_count_face_take_le(t, k, f);
    } else {
        assert(s.take(k) =~= s);
    }
}

/// `count_face` counts the copies of a die in the multiset of the dice.
pub proof fn lemma_count_face_multiset(s: Seq<Die>, f: FaceValue)
    ensures
        count_face(s, f) == s.to_multiset().count(Die { value: f }),
    decreases s.len(),
{
    broadcast use vstd::multiset::group_multiset_axioms;

    if s.len() == 0 {
        vstd::seq_lib::to_multiset_contains(s, Die { value: f });
        assert(!s.contains(Die { value: f }));
    } else {
        let t = s.drop_last();
        lemma_count_face_multiset(t, f);
        assert(s =~= t.push(s.last()));
        vstd::seq_lib::to_multiset_build(t, s.last());
    }
}

/// The pips and the number of the dice, face by face.
pub proof fn lemma_sum_by_faces(s: Seq<Die>)
    ensures
        sum_pips(s) == count_face(s, FaceValue::One) + 2 * count_face(s, FaceValue::Two) + 3
            * count_face(s, FaceValue::Three) + 4 * count_face(s, FaceValue::Four) + 5 * count_face(
            s,
            FaceValue::Five,
        ) + 6 * count_face(s, FaceValue::Six),
        s.len() == count_face(s, FaceValue::One) + count_face(s, FaceValue::Two) + count_face(
            s,
            FaceValue::Three,
        ) + count_face(s, FaceValue::Four) + count_face(s, FaceValue::Five) + count_face(
            s,
            FaceValue::Six,
        ),
    decreases s.len(),
{
    if s.len() > 0 {
        lemma_sum_by_faces(s.drop_last());
    }
}

pub proof fn lemma_count_face_concat(a: Seq<Die>, b: Seq<Die>, f: FaceValue)
    ensures
        count_face(a + b, f) == count_face(a, f) + count_face(b, f),
    decreases b.len(),
{
    if b.len() > 0 {
        lemma_count_face_concat(a, b.drop_last(), f);
        assert((a + b).drop_last() =~= a + b.drop_last());
    } else {
        assert(a + b =~= a);
    }
}

pub proof fn lemma_count_face_above(s: Seq<Die>, t: FaceValue, f: FaceValue)
    ensures
        count_face(above(s, t), f) <= count_face(s, f),
    decreases s.len(),
{
    if s.len() > 0 {
        let r = above(s.drop_last(), t);
        lemma_count_face_above(s.drop_last(), t, f);
        assert(r.push(s.last()).drop_last() =~= r);
    }
}

/// Removing a die at `i` takes one from the count of its face.
pub proof fn lemma_count_face_remove(s: Seq<Die>, i: int, f: FaceValue)
    requires
        0 <= i < s.len(),
    ensures
        count_face(s.remove(i), f) == count_face(s, f) - if s[i].value == f {
            1int
        } else {
            0int
        },
{
    broadcast use vstd::multiset::group_multiset_axioms;

    lemma_count_face_multiset(s, f);
    lemma_count_face_multiset(s.remove(i), f);
    vstd::seq_lib::to_multiset_remove(s, i);
    vstd::seq_lib::to_multiset_contains(s, s[i]);
    assert(s.contains(s[i]));
    assert(s[i] == Die { value: s[i].value });
    if s[i].value != f {
        assert(s[i] != Die { value: f });
    }
}

/// The highest die is one of the dice.
pub proof fn lemma_max_die_in(s: Seq<Die>)
    requires
        s.len() > 0,
    ensures
        has_face(s, max_die(s).value),
    decreases s.len(),
{
    lemma_has_face_iff(s, max_die(s).value);
    if s.len() > 1 {
        lemma_max_die_in(s.drop_last());
        lemma_has_face_iff(s.drop_last(), max_die(s.drop_last()).value);
        if max_die(s) != s.last() {
            let k = choose|k: int|
                0 <= k < s.drop_last().len() && s.drop_last()[k].value == max_die(
                    s.drop_last(),
                ).value;
            assert(s[k].value == max_die(s).value);
        }
    } else {
        assert(s[0].value == max_die(s).value);
    }
}

pub proof fn lemma_above_len(s: Seq<Die>, t: FaceValue)
    ensures
        above(s, t).len() <= s.len(),
    decreases s.len(),
{
    if s.len() > 0 {
        lemma_above_len(s.drop_last(), t);
    }
}

spec fn is_first(s: Seq<Die>, f: FaceValue, i: int) -> bool {
    0 <= i < s.len() && s[i].value == f && forall|j: int| 0 <= j < i ==> s[j].value != f
}

proof fn lemma_first_exists(s: Seq<Die>, f: FaceValue) -> (k: int)
    requires
        has_face(s, f),
    ensures
        is_first(s, f, k),
    decreases s.len(),
{
    let t = s.drop_last();
    lemma_has_face_iff(t, f);
    if has_face(t, f) {
        let k = lemma_first_exists(t, f);
        assert forall|j: int| 0 <= j < k implies s[j].value != f by {
            assert(t[j] == s[j]);
        }
        k
    } else {
        let k = s.len() - 1;
        assert forall|j: int| 0 <= j < k implies s[j].value != f by {
            assert(t[j] == s[j]);
        }
        k
    }
}

/// When a face occurs, `first_index` names its first position.
pub proof fn lemma_first_index(s: Seq<Die>, f: FaceValue)
    requires
        has_face(s, f),
    ensures
        0 <= first_index(s, f) < s.len(),
        s[first_index(s, f)].value == f,
        forall|j: int| 0 <= j < first_index(s, f) ==> s[j].value != f,
        remove_first(s, f).len() == s.len() - 1,
{
    let k = lemma_first_exists(s, f);
    assert(is_first(s, f, k));
    reveal(first_index);
    let i = first_index(s, f);
    assert(is_first(s, f, i));
}

/// A face occurs in a sequence exactly when some position shows it.
pub proof fn lemma_has_face_iff(s: Seq<Die>, f: FaceValue)
    ensures
        has_face(s, f) <==> exists|i: int| 0 <= i < s.len() && s[i].value == f,
    decreases s.len(),
{
    if s.len() > 0 {
        let t = s.drop_last();
        lemma_has_face_iff(t, f);
        if has_face(t, f) {
            let i = choose|i: int| 0 <= i < t.len() && t[i].value == f;
            assert(s[i].value == f);
        }
        if exists|i: int| 0 <= i < s.len() && s[i].value == f {
            let i = choose|i: int| 0 <= i < s.len() && s[i].value == f;
            if i < t.len() {
                assert(t[i].value == f);
            }
        }
    }
}

/// Whether some die of `dice` shows `face_value`.
pub fn has(dice: &[Die], face_value: FaceValue) -> (r: bool)
    ensures
        r == has_face(dice@, face_value),
{
    let n = dice.len();
    let mut i: usize = 0;
    while i < n
        invariant
            n == dice@.len(),
            i <= n,
            count_face(dice@.take(i as int), face_value) == 0,
        decreases n - i,
    {
        proof {
            lemma_take_next(dice@, i as int);
        }
        if dice[i].value == face_value {
            proof {
                lemma_has_face_iff(dice@, face_value);
                assert(dice@[i as int].value == face_value);
            }
            return true;
        }
        i = i + 1;
    }
    assert(dice@.take(n as int) =~= dice@);
    false
}

pub(crate) proof fn lemma_take_next(s: Seq<Die>, i: int)
    requires
        0 <= i < s.len(),
    ensures
        s.take(i + 1).drop_last() == s.take(i),
        s.take(i + 1).last() == s[i],
{
    assert(s.take(i + 1).drop_last() =~= s.take(i));
}

proof fn lemma_capped_push(m: Seq<Die>, limit: nat, d: Die)
    ensures
        m.len() < limit ==> capped(m.push(d), limit) == capped(m, limit).push(d),
        m.len() >= limit ==> capped(m.push(d), limit) == capped(m, limit),
{
    if m.len() >= limit {
        assert(m.push(d).take(limit as int) =~= m.take(limit as int));
        if m.len() == limit {
            assert(m.take(limit as int) =~= m);
        }
    }
}

/// The dice rolled in one round, or the dice kept over a game.
pub struct Dice {
    pub dice: Vec<Die>,
}

impl View for Dice {
    type V = Seq<Die>;

    open spec fn view(&self) -> Seq<Die> {
        self.dice@
    }
}

impl Dice {
    pub fn empty() -> (r: Dice)
        ensures
            r@ == Seq::<Die>::empty(),
    {
        Dice { dice: Vec::new() }
    }

    /// Rolls `number_of_dice` dice from the pseudo-random stream `small_rng`.
    pub fn roll(small_rng: &mut SmallRng, number_of_dice: u32) -> (r: Dice)
        ensures
            r@.len() == number_of_dice,
    {
        let mut dice: Vec<Die> = Vec::new();
        let mut n: u32 = 0;
        while n < number_of_dice
            invariant
                n <= number_of_dice,
                dice@.len() == n,
            decreases number_of_dice - n,
        {
            let pips = random_between(small_rng, 1, 6);
            if let Some(face) = FaceValue::from_u8(pips as u8) {
                dice.push(Die::new(face));
            }
            n = n + 1;
        }
        Dice { dice }
    }

    /// Rolls between one and five dice, as many as the stream picks.
    pub fn roll_one_to_five(small_rng: &mut SmallRng) -> (r: Dice)
        ensures
            1 <= r@.len() <= 5,
    {
        let number_of_dice = random_between(small_rng, 1, 5);
        Dice::roll(small_rng, number_of_dice)
    }

    pub fn len(&self) -> (r: usize)
        ensures
            r == self@.len(),
    {
        self.dice.len()
    }

    pub fn push(&mut self, die: Die)
        ensures
            final(self)@ == old(self)@.push(die),
    {
        self.dice.push(die);
    }

    /// Moves every die of `other` to the end of `self`.
    pub fn append(&mut self, other: &mut Dice)
        ensures
            final(self)@ == old(self)@ + old(other)@,
            final(other)@ == Seq::<Die>::empty(),
    {
        self.dice.append(&mut other.dice);
    }

    /// Whether some die shows `face_value`.
    pub fn has(&self, face_value: FaceValue) -> (r: bool)
        ensures
            r == has_face(self@, face_value),
    {
        has(self.dice.as_slice(), face_value)
    }

    /// A copy of these dice, in the same order.
    pub fn duplicate(&self) -> (r: Dice)
        ensures
            r@ == self@,
    {
        let n = self.dice.len();
        let mut dice: Vec<Die> = Vec::new();
        let mut i: usize = 0;
        while i < n
            invariant
                n == self@.len(),
                i <= n,
                dice@ == self@.take(i as int),
            decreases n - i,
        {
            proof {
                lemma_take_next(self@, i as int);
            }
            dice.push(self.dice[i]);
            i = i + 1;
            assert(dice@ =~= self@.take(i as int));
        }
        assert(self@.take(n as int) =~= self@);
        Dice { dice }
    }

    /// How many dice show more pips than `threshold`.
    pub fn count_above(&self, threshold: FaceValue) -> (r: usize)
        ensures
            r == above(self@, threshold).len(),
    {
        let limit = threshold.as_u8();
        let n = self.dice.len();
        let mut count: usize = 0;
        let mut i: usize = 0;
        while i < n
            invariant
                n == self@.len(),
                i <= n,
                limit == threshold.pips(),
                count == above(self@.take(i as int), threshold).len(),
                count <= i,
            decreases n - i,
        {
            proof {
                lemma_take_next(self@, i as int);
            }
            if self.dice[i].value.as_u8() > limit {
                count = count + 1;
            }
            i = i + 1;
        }
        assert(self@.take(n as int) =~= self@);
        count
    }

    /// The first dice that show `face_value`, at most `max_hits` of them
    /// (all of them when `max_hits` is `None`).
    pub fn pick(&self, face_value: FaceValue, max_hits: Option<usize>) -> (r: Vec<Die>)
        ensures
            r@ == capped(
                matching(self@, face_value),
                match max_hits {
                    Some(k) => k as nat,
                    None => self@.len(),
                },
            ),
    {
        let n = self.dice.len();
        let limit = match max_hits {
            Some(k) => k,
            None => n,
        };
        let mut picked: Vec<Die> = Vec::new();
        let mut i: usize = 0;
        while i < n
            invariant
                n == self@.len(),
                i <= n,
                picked@ == capped(matching(self@.take(i as int), face_value), limit as nat),
            decreases n - i,
        {
            proof {
                lemma_take_next(self@, i as int);
                lemma_capped_push(matching(self@.take(i as int), face_value), limit as nat, self@[i as int]);
            }
            if self.dice[i].value == face_value && picked.len() < limit {
                picked.push(self.dice[i]);
            }
            i = i + 1;
        }
        assert(self@.take(n as int) =~= self@);
        picked
    }

    /// The dice that show more pips than `threshold`, in their order.
    pub fn pick_above(&self, threshold: FaceValue) -> (r: Dice)
        ensures
            r@ == above(self@, threshold),
    {
        let limit = threshold.as_u8();
        let n = self.dice.len();
        let mut picked: Vec<Die> = Vec::new();
        let mut i: usize = 0;
        while i < n
            invariant
                n == self@.len(),
                i <= n,
                limit == threshold.pips(),
                picked@ == above(self@.take(i as int), threshold),
            decreases n - i,
        {
            proof {
                lemma_take_next(self@, i as int);
            }
            if self.dice[i].value.as_u8() > limit {
                picked.push(self.dice[i]);
            }
            i = i + 1;
        }
        assert(self@.take(n as int) =~= self@);
        Dice { dice: picked }
    }

    /// Removes the first die that shows `face_value` and hands it back.
    pub fn take_first(&mut self, face_value: FaceValue) -> (r: Option<Die>)
        ensures
            r is Some <==> has_face(old(self)@, face_value),
            r matches Some(d) ==> d.value == face_value,
            final(self)@ == remove_first(old(self)@, face_value),
    {
        let n = self.dice.len();
        let mut i: usize = 0;
        while i < n
            invariant
                n == self@.len(),
                i <= n,
                self@ == old(self)@,
                forall|j: int| 0 <= j < i ==> self@[j].value != face_value,
            decreases n - i,
        {
            if self.dice[i].value == face_value {
                proof {
                    lemma_has_face_iff(self@, face_value);
                    assert(self@[i as int].value == face_value);
                    lemma_first_index(self@, face_value);
                    let k = first_index(self@, face_value);
                    assert(0 <= k < self@.len() && self@[k].value == face_value && forall|j: int|
                        0 <= j < k ==> self@[j].value != face_value);
                    assert(k == i) by {
                        if k < i {
                            assert(self@[k].value != face_value);
                        }
                        if k > i {
                            assert(self@[i as int].value != face_value);
                        }
                    }
                }
                let die = self.dice.remove(i);
                return Some(die);
            }
            i = i + 1;
        }
        proof {
            lemma_has_face_iff(self@, face_value);
            if has_face(self@, face_value) {
                let k = choose|k: int| 0 <= k < self@.len() && self@[k].value == face_value;
                assert(self@[k].value != face_value);
            }
        }
        None
    }

    /// A die that shows the most pips; `None` when there are no dice.
    pub fn max(&self) -> (r: Option<Die>)
        ensures
            r is Some <==> self@.len() > 0,
            r matches Some(d) ==> d == max_die(self@),
    {
        let n = self.dice.len();
        if n == 0 {
            return None;
        }
        let mut best = self.dice[0];
        let mut i: usize = 1;
        assert(self@.take(1) =~= seq![self@[0]]);
        while i < n
            invariant
                n == self@.len(),
                1 <= i <= n,
                best == max_die(self@.take(i as int)),
            decreases n - i,
        {
            proof {
                lemma_take_next(self@, i as int);
            }
            if self.dice[i].value.as_u8() > best.value.as_u8() {
                best = self.dice[i];
            }
            i = i + 1;
        }
        assert(self@.take(n as int) =~= self@);
        Some(best)
    }
}

} // verus!
