use euclid::chain::ChainUid;
use euclid::msgs::factory::msg::{
    AllPoolsResponse, AllTokensResponse, GetVlpResponse, InstantiateMsg, MigrateMsg,
    PoolVlpResponse, RegisterFactoryResponse,
};
use euclid::token::{Pair, Token};

#[test]
fn factory_messages_hold_their_fields() {
    let msg = InstantiateMsg {
        router_contract: "router".to_string(),
        chain_uid: ChainUid("nibiru".to_string()),
        escrow_code_id: 2,
        cw20_code_id: 3,
        is_native: true,
    };
    assert_eq!(msg.clone(), msg);
    let pool = PoolVlpResponse {
        pair: Pair { token_1: Token("a".to_string()), token_2: Token("b".to_string()) },
        vlp: "vlp".to_string(),
    };
    let all = AllPoolsResponse { pools: vec![pool.clone()] };
    assert_eq!(all.pools[0], pool);
    let tokens = AllTokensResponse { tokens: vec![Token("a".to_string())] };
    assert_eq!(tokens.tokens.len(), 1);
    assert_eq!(GetVlpResponse { vlp_address: "x".to_string() }.vlp_address, "x");
    assert_eq!(MigrateMsg {}, MigrateMsg {});
    let reg = RegisterFactoryResponse { factory_address: "f".to_string(), chain_id: "c".to_string() };
    assert_ne!(reg.factory_address, reg.chain_id);
}
