//! The amount type used throughout the ledger: a fixed-point decimal with
//! four fractional digits, so one unit of the scaled integer is one
//! ten-thousandth of the currency.

use vstd::prelude::*;

use crate::fp_isize::FpIsize;

verus! {

/// A ledger amount: a fixed-point decimal with four fractional digits.
pub type TxAmount = FpIsize<4>;

/// Whether a mathematical value fits the scaled machine representation
/// of an amount.
pub open spec fn amount_in_range(v: int) -> bool {
    isize::MIN as int <= v <= isize::MAX as int
}

} // verus!
