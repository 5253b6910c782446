use vstd::prelude::*;

verus! {

/// The identifier of a chain that the protocol spans.
#[derive(Clone, Debug, PartialEq, Eq)]
pub struct ChainUid(pub String);

} // verus!
