use vstd::prelude::*;

verus! {

/// The identifier of a token of the protocol.
#[derive(Clone, Debug, PartialEq, Eq)]
pub struct Token(pub String);

/// Two tokens traded against each other in a pool.
#[derive(Clone, Debug, PartialEq, Eq)]
pub struct Pair {
    pub token_1: Token,
    pub token_2: Token,
}

} // verus!
