use vstd::prelude::*;

verus! {

/// The player's score: the number of foods eaten in the current run.
#[derive(Debug, Clone, Copy)]
pub struct Score(u64);

impl View for Score {
    type V = nat;

    closed spec fn view(&self) -> nat {
        self.0 as nat
    }
}

/// The decimal digits of `n`, most significant first, with no leading zero.
pub open spec fn decimal(n: nat) -> Seq<char>
    decreases n,
{
    if n < 10 {
        seq![digit_char(n)]
    } else {
        decimal(n / 10).push(digit_char(n % 10))
    }
}

/// The character of the decimal digit `d`.
pub open spec fn digit_char(d: nat) -> char {
    if d == 0 { '0' }
    else if d == 1 { '1' }
    else if d == 2 { '2' }
    else if d == 3 { '3' }
    else if d == 4 { '4' }
    else if d == 5 { '5' }
    else if d == 6 { '6' }
    else if d == 7 { '7' }
    else if d == 8 { '8' }
    else { '9' }
}

/// Relies on `ToString` for `u64` (through `Display`): the number written in
/// decimal, without sign or leading zeros.
#[verifier::external_body]
fn u64_to_decimal(n: u64) -> (r: String)
    ensures
        r@ == decimal(n as nat),
{
    n.to_string()
}

impl Default for Score {
    /// A score of zero.
    fn default() -> (r: Score)
        ensures
            r@ == 0,
    {
        Score(0)
    }
}

impl Score {
    /// The current value.
    pub fn value(&self) -> (r: u64)
        ensures
            r == self@,
    {
        self.0
    }

    /// Adds one point.
    pub fn increment(&mut self)
        requires
            old(self)@ < u64::MAX,
        ensures
            final(self)@ == old(self)@ + 1,
    {
        self.0 = self.0 + 1;
    }

    /// Sets the score back to zero.
    pub fn reset(&mut self)
        ensures
            final(self)@ == 0,
    {
        self.0 = 0;
    }

    /// The text shown on the score board: the value in decimal.
    pub fn text(&self) -> (r: String)
        ensures
            r@ == decimal(self@),
    {
        u64_to_decimal(self.0)
    }
}

} // verus!
