//! The balance service of the governance token.

use vstd::prelude::*;

use crate::types::Principal;

verus! {

/// What the token ledger says of itself.
#[derive(Clone, Debug)]
pub struct TokenMetadata {
    pub name: String,
    pub symbol: String,
    pub decimals: u8,
    pub fee: u64,
    pub total_supply: u128,
}

/// An account at the token ledger.
#[derive(Clone, Debug)]
pub struct TokenAccount {
    pub owner: Principal,
    pub subaccount: Option<Vec<u8>>,
}

/// A transfer to ask of the token ledger.
#[derive(Clone, Debug)]
pub struct TokenTransferArgs {
    pub from_subaccount: Option<Vec<u8>>,
    pub to: TokenAccount,
    pub amount: u128,
    pub fee: Option<u128>,
    pub memo: Option<Vec<u8>>,
    pub created_at_time: Option<u64>,
}

/// The way to the balance service.
#[derive(Clone, Copy, Debug)]
pub struct TokenService {
    pub canister_id: Principal,
}

impl TokenService {
    pub fn new(canister_id: Principal) -> (s: TokenService)
        ensures
            s.canister_id == canister_id,
    {
        TokenService { canister_id }
    }
}

} // verus!
