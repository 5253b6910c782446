use vstd::prelude::*;

use crate::chain::ChainUid;
use crate::token::{Pair, Token};

verus! {

/// The parameters a factory contract is set up with.
#[derive(Clone, Debug, PartialEq, Eq)]
pub struct InstantiateMsg {
    /// Router contract on the virtual settlement layer.
    pub router_contract: String,
    pub chain_uid: ChainUid,
    pub escrow_code_id: u64,
    pub cw20_code_id: u64,
    pub is_native: bool,
}

/// The address of the virtual liquidity pool of a pair.
#[derive(Clone, Debug, PartialEq, Eq)]
pub struct GetVlpResponse {
    pub vlp_address: String,
}

/// All pools known to the factory.
#[derive(Clone, Debug, PartialEq, Eq)]
pub struct AllPoolsResponse {
    pub pools: Vec<PoolVlpResponse>,
}

/// A pool: its pair and the address of its virtual liquidity pool.
#[derive(Clone, Debug, PartialEq, Eq)]
pub struct PoolVlpResponse {
    pub pair: Pair,
    pub vlp: String,
}

/// The parameters of a migration of the factory contract (none).
#[derive(Clone, Debug, PartialEq, Eq)]
pub struct MigrateMsg {}

/// The answer to the registration of a factory.
#[derive(Clone, Debug, PartialEq, Eq)]
pub struct RegisterFactoryResponse {
    pub factory_address: String,
    pub chain_id: String,
}

/// All tokens known to the factory.
#[derive(Clone, Debug, PartialEq, Eq)]
pub struct AllTokensResponse {
    pub tokens: Vec<Token>,
}

} // verus!
