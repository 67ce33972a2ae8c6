//! Amounts of money. The library never computes with an amount: it picks
//! one and carries it through.

use vstd::prelude::*;

verus! {

/// An amount of money, held as the bit pattern of an IEEE 754 binary64
/// number. Two amounts are equal when their bits are.
#[derive(Clone, Copy, Debug, PartialEq, Eq, Structural)]
pub struct Amount {
    pub bits: u64,
}

/// The bits of sixty-four, the amount of a row that states neither a debit
/// nor a credit.
// Whether a missing amount ought to count as zero instead is an open
// question; sixty-four is the documented behaviour.
pub const FALLBACK_BITS: u64 = 0x4050_0000_0000_0000;

impl Amount {
    /// The amount that stands in for a missing debit and credit.
    pub open spec fn fallback() -> Amount {
        Amount { bits: FALLBACK_BITS }
    }

    /// The amount of a row: its debit if it has one, else its credit, else
    /// the fallback. Neither changes sign.
    pub open spec fn resolved(debit: Option<Amount>, credit: Option<Amount>) -> Amount {
        match (debit, credit) {
            (Some(d), _) => d,
            (None, Some(c)) => c,
            (None, None) => Amount::fallback(),
        }
    }

    /// Picks the amount of a row from its debit and credit.
    pub fn resolve(debit: Option<Amount>, credit: Option<Amount>) -> (amount: Amount)
        ensures
            amount == Amount::resolved(debit, credit),
            debit matches Some(d) ==> amount == d,
            debit is None ==> (credit matches Some(c) ==> amount == c),
            debit is None && credit is None ==> amount.bits == FALLBACK_BITS,
    {
        match debit {
            Some(d) => d,
            None => match credit {
                Some(c) => c,
                None => Amount { bits: FALLBACK_BITS },
            },
        }
    }
}

} // verus!
