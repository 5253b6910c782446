use vstd::prelude::*;

verus! {

/// An unsigned 128-bit token amount.
#[derive(Clone, Copy, Debug, PartialEq, Eq, Structural)]
pub struct Uint128 {
    value: u128,
}

impl View for Uint128 {
    type V = u128;

    closed spec fn view(&self) -> u128 {
        self.value
    }
}

impl Uint128 {
    /// Wraps a plain `u128`.
    pub fn new(value: u128) -> (r: Uint128)
        ensures
            r@ == value,
    {
        Uint128 { value }
    }

    /// The amount zero.
    pub fn zero() -> (r: Uint128)
        ensures
            r@ == 0,
    {
        Uint128 { value: 0 }
    }

    /// The plain value of the amount.
    pub fn u128(&self) -> (r: u128)
        ensures
            r == self@,
    {
        self.value
    }

    /// Whether the amount is zero.
    pub fn is_zero(&self) -> (r: bool)
        ensures
            r == (self@ == 0),
    {
        self.value == 0
    }
}

/// An amount of one denomination.
#[derive(Clone, Debug, PartialEq, Eq)]
pub struct Coin {
    pub denom: String,
    pub amount: Uint128,
}

impl Coin {
    /// A coin of `amount` in the denomination `denom`.
    pub fn new(amount: u128, denom: &str) -> (r: Coin)
        ensures
            r.denom@ == denom@,
            r.amount@ == amount,
    {
        Coin { denom: denom.to_owned(), amount: Uint128::new(amount) }
    }
}

} // verus!
