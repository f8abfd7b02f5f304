//! How many dice a player still has to roll.
use vstd::prelude::*;

verus! {

/// A count of dice between zero and five.
#[derive(Clone, Copy, Debug, PartialEq, Eq, Structural, PartialOrd, Ord, Hash)]
pub enum NumberOfDice {
    Zero,
    One,
    Two,
    Three,
    Four,
    Five,
}

impl NumberOfDice {
    pub open spec fn value(self) -> nat {
        match self {
            NumberOfDice::Zero => 0,
            NumberOfDice::One => 1,
            NumberOfDice::Two => 2,
            NumberOfDice::Three => 3,
            NumberOfDice::Four => 4,
            NumberOfDice::Five => 5,
        }
    }

    /// The count `n`, for `n` up to five; `Zero` above that.
    pub open spec fn of_value(n: nat) -> NumberOfDice {
        if n == 1 {
            NumberOfDice::One
        } else if n == 2 {
            NumberOfDice::Two
        } else if n == 3 {
            NumberOfDice::Three
        } else if n == 4 {
            NumberOfDice::Four
        } else if n == 5 {
            NumberOfDice::Five
        } else {
            NumberOfDice::Zero
        }
    }

    /// The count less `number`, stopping at zero.
    pub open spec fn minus(self, number: nat) -> NumberOfDice {
        if self.value() >= number {
            NumberOfDice::of_value((self.value() - number) as nat)
        } else {
            NumberOfDice::Zero
        }
    }

    pub open spec fn name(self) -> Seq<char> {
        match self {
            NumberOfDice::Zero => "Zero"@,
            NumberOfDice::One => "One"@,
            NumberOfDice::Two => "Two"@,
            NumberOfDice::Three => "Three"@,
            NumberOfDice::Four => "Four"@,
            NumberOfDice::Five => "Five"@,
        }
    }

    pub fn as_u8(&self) -> (r: u8)
        ensures
            r == self.value(),
            r <= 5,
    {
        match self {
            NumberOfDice::Zero => 0,
            NumberOfDice::One => 1,
            NumberOfDice::Two => 2,
            NumberOfDice::Three => 3,
            NumberOfDice::Four => 4,
            NumberOfDice::Five => 5,
        }
    }

    /// The count `number`; any number above five reads as `Zero`.
    pub fn from_u8(number: u8) -> (r: NumberOfDice)
        ensures
            r.value() == if number <= 5 {
                number as nat
            } else {
                0nat
            },
    {
        match number {
            1 => NumberOfDice::One,
            2 => NumberOfDice::Two,
            3 => NumberOfDice::Three,
            4 => NumberOfDice::Four,
            5 => NumberOfDice::Five,
            _ => NumberOfDice::Zero,
        }
    }

    /// Subtraction that stops at zero.
    pub fn saturating_sub(self, number: u8) -> (r: NumberOfDice)
        ensures
            r == self.minus(number as nat),
            r.value() == if self.value() >= number {
                (self.value() - number) as nat
            } else {
                0nat
            },
    {
        let n = self.as_u8();
        if n >= number {
            NumberOfDice::from_u8(n - number)
        } else {
            NumberOfDice::Zero
        }
    }

    /// The count spelled out as a word.
    pub fn name_str(&self) -> (r: &'static str)
        ensures
            r@ == self.name(),
    {
        match self {
            NumberOfDice::Zero => "Zero",
            NumberOfDice::One => "One",
            NumberOfDice::Two => "Two",
            NumberOfDice::Three => "Three",
            NumberOfDice::Four => "Four",
            NumberOfDice::Five => "Five",
        }
    }
}

impl core::ops::Sub<u8> for NumberOfDice {
    type Output = Self;

    fn sub(self, number: u8) -> (r: Self::Output) {
        self.saturating_sub(number)
    }
}

impl vstd::std_specs::ops::SubSpecImpl<u8> for NumberOfDice {
    open spec fn obeys_sub_spec() -> bool {
        true
    }

    open spec fn sub_req(self, number: u8) -> bool {
        true
    }

    open spec fn sub_spec(self, number: u8) -> NumberOfDice {
        self.minus(number as nat)
    }
}

} // verus!
