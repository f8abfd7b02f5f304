//! A single die and the value on its upper face.
use vstd::prelude::*;

verus! {

/// The value shown on the upper face of a die.
#[derive(Clone, Copy, Debug, PartialEq, Eq, Structural, PartialOrd, Ord, Hash)]
pub enum FaceValue {
    One,
    Two,
    Three,
    Four,
    Five,
    Six,
}

impl FaceValue {
    /// The number of pips on this face.
    pub open spec fn pips(self) -> nat {
        match self {
            FaceValue::One => 1,
            FaceValue::Two => 2,
            FaceValue::Three => 3,
            FaceValue::Four => 4,
            FaceValue::Five => 5,
            FaceValue::Six => 6,
        }
    }

    /// The face that shows `pips` pips, for `pips` in 1..=6.
    pub open spec fn of_pips(pips: nat) -> FaceValue {
        if pips <= 1 {
            FaceValue::One
        } else if pips == 2 {
            FaceValue::Two
        } else if pips == 3 {
            FaceValue::Three
        } else if pips == 4 {
            FaceValue::Four
        } else if pips == 5 {
            FaceValue::Five
        } else {
            FaceValue::Six
        }
    }

    pub fn as_u8(&self) -> (r: u8)
        ensures
            r == self.pips(),
            1 <= r <= 6,
    {
        match self {
            FaceValue::One => 1,
            FaceValue::Two => 2,
            FaceValue::Three => 3,
            FaceValue::Four => 4,
            FaceValue::Five => 5,
            FaceValue::Six => 6,
        }
    }

    /// The face with `pips` pips; `None` when no face of a die shows that many.
    pub fn from_u8(pips: u8) -> (r: Option<FaceValue>)
        ensures
            r is Some <==> 1 <= pips <= 6,
            r matches Some(f) ==> f.pips() == pips && f == FaceValue::of_pips(pips as nat),
    {
        match pips {
            1 => Some(FaceValue::One),
            2 => Some(FaceValue::Two),
            3 => Some(FaceValue::Three),
            4 => Some(FaceValue::Four),
            5 => Some(FaceValue::Five),
            6 => Some(FaceValue::Six),
            _ => None,
        }
    }
}

/// A rolled die. Its face never changes once it has been rolled.
#[derive(Clone, Copy, Debug, PartialEq, Eq, Structural, PartialOrd, Ord, Hash)]
pub struct Die {
    pub value: FaceValue,
}

impl Die {
    pub fn new(value: FaceValue) -> (r: Die)
        ensures
            r.value == value,
    {
        Die { value }
    }
}

} // verus!
