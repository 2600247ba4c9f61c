use vstd::prelude::*;

verus! {

/// Balance that a new game starts with.
pub const STARTING_MONEY: i64 = 100;

/// The player's balance, in whole pounds.
#[derive(Clone, Copy, Debug, PartialEq, Eq, Structural)]
pub struct Money(pub i64);

impl Default for Money {
    fn default() -> (r: Self)
        ensures
            r.0 == STARTING_MONEY,
    {
        Money(STARTING_MONEY)
    }
}

} // verus!
