use vstd::prelude::*;
use vstd::std_specs::convert::FromSpecImpl;

verus! {

#[derive(Debug)]
pub struct Fraction {
    numerator: u8,
    denominator: u8,
}

impl View for Fraction {
    /// The numerator and the denominator.
    type V = (u8, u8);

    closed spec fn view(&self) -> (u8, u8) {
        (self.numerator, self.denominator)
    }
}

impl From<u8> for Fraction {
    fn from(value: u8) -> (r: Self) {
        Fraction { numerator: value, denominator: 1 }
    }
}

impl FromSpecImpl<u8> for Fraction {
    open spec fn obeys_from_spec() -> bool {
        true
    }

    open spec fn from_spec(v: u8) -> Self {
        Fraction::whole(v)
    }
}

impl Fraction {
    /// The fraction `value / 1`.
    pub closed spec fn whole(value: u8) -> Fraction {
        Fraction { numerator: value, denominator: 1 }
    }

    /// A whole number as a fraction has that number as numerator and 1 as denominator.
    pub proof fn lemma_whole(value: u8)
        ensures
            Fraction::whole(value)@ == (value, 1u8),
    {
    }
}

} // verus!
