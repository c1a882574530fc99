//! Output scale factors.
//!
//! A scale is held in fixed point, as a whole number of millionths, so that
//! the engine can compare scales exactly and write them out without any
//! rounding of its own: 1 is `1_000_000`, 1.5 is `1_500_000`. A compositor
//! reports -1 for an output that is switched off, so the number is signed.

use vstd::prelude::*;
use vstd::string::*;
use crate::text::{
    decimal, digit, digit_str, fixed_point, is_power_of_ten, push_decimal, push_fixed_point,
};

verus! {

/// Millionths in one whole.
pub const MILLION: u64 = 1_000_000;

/// Millionths in one tenth.
pub const TENTH: u64 = 100_000;

/// A scale factor, in millionths.
#[derive(Clone, Copy, Debug, PartialEq, Eq, Structural)]
pub struct Scale {
    pub millionths: i64,
}

/// The size of `v` without its sign.
pub open spec fn magnitude(v: int) -> nat {
    if v < 0 {
        (-v) as nat
    } else {
        v as nat
    }
}

/// `n / 100_000` rounded to the nearest whole number, a tie going to the
/// even neighbour.
pub open spec fn rounded_tenths(n: nat) -> nat {
    let q = n / 100_000;
    let r = n % 100_000;
    if r > 50_000 || (r == 50_000 && q % 2 == 1) {
        q + 1
    } else {
        q
    }
}

impl Scale {
    /// The scale 1, which an output has unless something else is asked for.
    pub open spec fn one() -> Scale {
        Scale { millionths: 1_000_000 }
    }

    /// The scale as it is written in a command: the shortest decimal that
    /// names it, `1` for `1_000_000`, `1.5` for `1_500_000`, `-1` for
    /// `-1_000_000`.
    pub open spec fn text_spec(self) -> Seq<char> {
        if self.millionths < 0 {
            seq!['-'] + fixed_point(magnitude(self.millionths as int), 1_000_000)
        } else {
            fixed_point(magnitude(self.millionths as int), 1_000_000)
        }
    }

    /// The scale as it is shown in a listing: rounded to one digit behind the
    /// point, which is always written.
    pub open spec fn tenths_spec(self) -> Seq<char> {
        let t = rounded_tenths(magnitude(self.millionths as int));
        let body = decimal(t / 10) + seq!['.'] + seq![digit((t % 10) as int)];
        if self.millionths < 0 {
            seq!['-'] + body
        } else {
            body
        }
    }

    /// A scale of so many millionths.
    pub fn new(millionths: i64) -> (s: Scale)
        ensures
            s.millionths == millionths,
    {
        Scale { millionths }
    }

    /// The scale without its sign, in millionths.
    pub fn magnitude(&self) -> (m: u64)
        ensures
            m == magnitude(self.millionths as int),
    {
        if self.millionths >= 0 {
            self.millionths as u64
        } else {
            ((-(self.millionths + 1)) as u64) + 1
        }
    }

    /// Writes the scale for a command.
    pub fn text(&self) -> (out: String)
        ensures
            out@ == self.text_spec(),
    {
        let mut out = String::new();
        if self.millionths < 0 {
            proof {
                reveal_strlit("-");
            }
            out.append("-");
        }
        proof {
            lemma_million_is_power_of_ten();
        }
        push_fixed_point(&mut out, self.magnitude(), MILLION);
        assert(out@ =~= self.text_spec());
        out
    }

    /// Writes the scale for a listing.
    pub fn text_tenths(&self) -> (out: String)
        ensures
            out@ == self.tenths_spec(),
    {
        let m = self.magnitude();
        let q: u64 = m / TENTH;
        let r: u64 = m % TENTH;
        let t: u64 = if r > 50_000 || (r == 50_000 && q % 2 == 1) {
            q + 1
        } else {
            q
        };
        let mut out = String::new();
        if self.millionths < 0 {
            proof {
                reveal_strlit("-");
            }
            out.append("-");
        }
        push_decimal(&mut out, (t / 10) as u128);
        proof {
            reveal_strlit(".");
        }
        out.append(".");
        out.append(digit_str((t % 10) as u8));
        assert(out@ =~= self.tenths_spec());
        out
    }
}

/// One million is a power of ten.
pub proof fn lemma_million_is_power_of_ten()
    ensures
        is_power_of_ten(1_000_000),
{
    reveal_with_fuel(is_power_of_ten, 8);
}

/// One thousand is a power of ten.
pub proof fn lemma_thousand_is_power_of_ten()
    ensures
        is_power_of_ten(1000),
{
    reveal_with_fuel(is_power_of_ten, 5);
}

impl Default for Scale {
    fn default() -> (s: Scale)
        ensures
            s == Scale::one(),
    {
        Scale { millionths: 1_000_000 }
    }
}

} // verus!
