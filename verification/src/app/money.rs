//! Currencies.
use vstd::prelude::*;

verus! {

/// The currency an account is kept in.
#[derive(Clone, Copy, Debug, PartialEq, Eq, Structural)]
pub enum Currency {
    Usd,
    Eth,
    Gno,
    GoldOz,
}

} // verus!
