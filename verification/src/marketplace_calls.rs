use vstd::prelude::*;
use crate::contract::Contract;
use crate::types::{ContractError, GAS_FOR_CROSS_CONTRACT_CALL};

verus! {

/// A method of another marketplace's token contract.
#[derive(Debug, PartialEq, Eq)]
pub enum MarketplaceMethod {
    /// `nft_total_supply()`.
    TotalSupply,
    /// `nft_tokens_for_owner(account_id, from_index, limit)`.
    TokensForOwner { account_id: String, from_index: Option<u128>, limit: Option<u64> },
    /// `nft_approve(token_id, account_id, msg)`.
    Approve { token_id: String, account_id: String, msg: Option<String> },
}

/// A callback of this contract that receives a marketplace's answer.
#[derive(Debug, PartialEq, Eq, Clone, Copy, Structural)]
pub enum MarketplaceCallback {
    /// `on_nft_total_supply()`.
    OnTotalSupply,
    /// `on_nft_tokens_for_owner()`.
    OnTokensForOwner,
}

/// A call into another marketplace, and the callback on this contract that
/// follows it, if any.
#[derive(Debug, PartialEq, Eq)]
pub struct MarketplaceCall {
    pub marketplace_contract_id: String,
    pub method: MarketplaceMethod,
    pub attached_deposit: u128,
    pub gas: u64,
    /// Callback, with the account it runs on, its deposit and its gas.
    pub callback: Option<(MarketplaceCallback, String, u128, u64)>,
}

/// The number that JSON bytes give when read as near-sdk's `U128` (a number
/// written as a decimal string), or `None` when they do not read as one.
pub uninterp spec fn json_u128(bytes: Seq<u8>) -> Option<u128>;

/// Reads `bytes` with `near_sdk::serde_json::from_slice` as a
/// `near_sdk::json_types::U128` and gives its number, or `None` when they do
/// not parse. The contract only names the result as a function of the bytes;
/// what JSON text gives which number is left unstated.
#[verifier::external_body]
fn parse_json_u128(bytes: &Vec<u8>) -> (r: Option<u128>)
    ensures
        r == json_u128(bytes@),
{
    near_sdk::serde_json::from_slice::<near_sdk::json_types::U128>(bytes).ok().map(|v| v.0)
}

/// A JSON value, as `near_sdk::serde_json` holds it; the market passes the
/// tokens another marketplace reports on without reading them.
#[verifier::external_type_specification]
#[verifier::external_body]
pub struct ExJsonValue(near_sdk::serde_json::Value);

/// The JSON values the bytes hold when read as a JSON array, in order, or
/// `None` when they do not read as one.
pub uninterp spec fn json_tokens(bytes: Seq<u8>) -> Option<Seq<near_sdk::serde_json::Value>>;

/// Reads `bytes` with `near_sdk::serde_json::from_slice` as a list of JSON
/// values, or `None` when they do not parse. The contract names the list
/// that comes back as a function of the bytes; which bytes parse to which
/// values is left unstated.
#[verifier::external_body]
fn parse_json_tokens(bytes: &Vec<u8>) -> (r: Option<Vec<near_sdk::serde_json::Value>>)
    ensures
        match r {
            Some(v) => json_tokens(bytes@) == Some(v@),
            None => json_tokens(bytes@) is None,
        },
{
    near_sdk::serde_json::from_slice::<Vec<near_sdk::serde_json::Value>>(bytes).ok()
}

/// What the tokens callback answers for a result read as `parsed`: the
/// tokens, or a refusal when the result did not read as a list.
pub fn tokens_outcome(parsed: Option<Vec<near_sdk::serde_json::Value>>) -> (r: Result<
    Vec<near_sdk::serde_json::Value>,
    ContractError,
>)
    ensures
        match parsed {
            Some(v) => r == Ok::<Vec<near_sdk::serde_json::Value>, ContractError>(v),
            None => r == Err::<Vec<near_sdk::serde_json::Value>, ContractError>(
                ContractError::InvalidPromiseResult,
            ),
        },
{
    match parsed {
        Some(v) => Ok(v),
        None => Err(ContractError::InvalidPromiseResult),
    }
}

/// What the total-supply callback answers for a result read as `parsed`:
/// the number, or a refusal when the result did not read as one.
pub fn total_supply_outcome(parsed: Option<u128>) -> (r: Result<u128, ContractError>)
    ensures
        match parsed {
            Some(v) => r == Ok::<u128, ContractError>(v),
            None => r == Err::<u128, ContractError>(ContractError::InvalidPromiseResult),
        },
{
    match parsed {
        Some(v) => Ok(v),
        None => Err(ContractError::InvalidPromiseResult),
    }
}

impl Contract {
    /// Receives the tokens a marketplace reports for an owner: `result` is
    /// what the call returned (`None` when it failed). Only this contract
    /// may call it.
    pub fn on_nft_tokens_for_owner(
        &self,
        result: Option<Vec<u8>>,
        predecessor: String,
        current_account_id: String,
    ) -> (r: Result<Vec<near_sdk::serde_json::Value>, ContractError>)
        ensures
            predecessor@ != current_account_id@ <==> r == Err::<
                Vec<near_sdk::serde_json::Value>,
                ContractError,
            >(ContractError::PrivateMethod),
            predecessor@ == current_account_id@ ==> match result {
                None => r == Err::<Vec<near_sdk::serde_json::Value>, ContractError>(
                    ContractError::MissingPromiseResult,
                ),
                Some(b) => match json_tokens(b@) {
                    Some(ts) => r is Ok && r->Ok_0@ == ts,
                    None => r == Err::<Vec<near_sdk::serde_json::Value>, ContractError>(
                        ContractError::InvalidPromiseResult,
                    ),
                },
            },
    {
        if predecessor != current_account_id {
            return Err(ContractError::PrivateMethod);
        }
        match result {
            None => Err(ContractError::MissingPromiseResult),
            Some(bytes) => tokens_outcome(parse_json_tokens(&bytes)),
        }
    }

    /// Receives a marketplace's total supply: `result` is what the call
    /// returned (`None` when it failed). Only this contract may call it.
    pub fn on_nft_total_supply(&self, result: Option<Vec<u8>>, predecessor: String, current_account_id: String) -> (r: Result<u128, ContractError>)
        ensures
            predecessor@ != current_account_id@ <==> r == Err::<u128, ContractError>(
                ContractError::PrivateMethod,
            ),
            predecessor@ == current_account_id@ ==> match result {
                None => r == Err::<u128, ContractError>(ContractError::MissingPromiseResult),
                Some(b) => match json_u128(b@) {
                    Some(v) => r == Ok::<u128, ContractError>(v),
                    None => r == Err::<u128, ContractError>(ContractError::InvalidPromiseResult),
                },
            },
    {
        if predecessor != current_account_id {
            return Err(ContractError::PrivateMethod);
        }
        match result {
            None => Err(ContractError::MissingPromiseResult),
            Some(bytes) => total_supply_outcome(parse_json_u128(&bytes)),
        }
    }

    /// Asks the marketplace `marketplace_contract_id` how many tokens it has
    /// minted; the answer comes back to `on_nft_total_supply` on this
    /// contract.
    pub fn nft_total_supply_marketplace(&self, marketplace_contract_id: String, current_account_id: String) -> (r: MarketplaceCall)
        ensures
            r == (MarketplaceCall {
                marketplace_contract_id: marketplace_contract_id,
                method: MarketplaceMethod::TotalSupply,
                attached_deposit: 0,
                gas: GAS_FOR_CROSS_CONTRACT_CALL,
                callback: Some(
                    (
                        MarketplaceCallback::OnTotalSupply,
                        current_account_id,
                        0u128,
                        GAS_FOR_CROSS_CONTRACT_CALL,
                    ),
                ),
            }),
    {
        MarketplaceCall {
            marketplace_contract_id,
            method: MarketplaceMethod::TotalSupply,
            attached_deposit: 0,
            gas: GAS_FOR_CROSS_CONTRACT_CALL,
            callback: Some(
                (MarketplaceCallback::OnTotalSupply, current_account_id, 0, GAS_FOR_CROSS_CONTRACT_CALL),
            ),
        }
    }

    /// Asks the marketplace `marketplace_contract_id` for a page of the
    /// tokens of `account_id`; the answer comes back to
    /// `on_nft_tokens_for_owner` on this contract.
    pub fn nft_tokens_for_owner(
        &self,
        account_id: String,
        from_index: Option<u128>,
        limit: Option<u64>,
        marketplace_contract_id: String,
        current_account_id: String,
    ) -> (r: MarketplaceCall)
        ensures
            r == (MarketplaceCall {
                marketplace_contract_id: marketplace_contract_id,
                method: MarketplaceMethod::TokensForOwner {
                    account_id: account_id,
                    from_index: from_index,
                    limit: limit,
                },
                attached_deposit: 0,
                gas: GAS_FOR_CROSS_CONTRACT_CALL,
                callback: Some(
                    (
                        MarketplaceCallback::OnTokensForOwner,
                        current_account_id,
                        0u128,
                        GAS_FOR_CROSS_CONTRACT_CALL,
                    ),
                ),
            }),
    {
        MarketplaceCall {
            marketplace_contract_id,
            method: MarketplaceMethod::TokensForOwner { account_id, from_index, limit },
            attached_deposit: 0,
            gas: GAS_FOR_CROSS_CONTRACT_CALL,
            callback: Some(
                (
                    MarketplaceCallback::OnTokensForOwner,
                    current_account_id,
                    0,
                    GAS_FOR_CROSS_CONTRACT_CALL,
                ),
            ),
        }
    }

    /// Asks the marketplace `marketplace_contract_id` to approve this
    /// contract for `token_id`, with one yoctoNEAR attached.
    pub fn nft_approve(&self, token_id: String, msg: Option<String>, marketplace_contract_id: String, current_account_id: String) -> (r: MarketplaceCall)
        ensures
            r == (MarketplaceCall {
                marketplace_contract_id: marketplace_contract_id,
                method: MarketplaceMethod::Approve {
                    token_id: token_id,
                    account_id: current_account_id,
                    msg: msg,
                },
                attached_deposit: 1,
                gas: GAS_FOR_CROSS_CONTRACT_CALL,
                callback: None,
            }),
    {
        MarketplaceCall {
            marketplace_contract_id,
            method: MarketplaceMethod::Approve { token_id, account_id: current_account_id, msg },
            attached_deposit: 1,
            gas: GAS_FOR_CROSS_CONTRACT_CALL,
            callback: None,
        }
    }
}

} // verus!
