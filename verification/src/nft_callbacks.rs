use vstd::prelude::*;
use crate::invariants::law_listing_keeps_invariant;
use crate::contract::{Contract, index_view, index_wf, index_add, index_set};
use crate::internal::{sale_id, sale_key, removal_error};
use crate::keyed_map::KeyedMap;
use crate::string_set::{StringSet, lemma_set_ops};
use crate::types::{Sale, SaleArgs, ContractError, STORAGE_PER_SALE};

verus! {

/// Why an approval is refused, if it is: it did not come through another
/// contract, its signer does not own the token, the signer's storage does
/// not cover one more sale, or its terms could not be read.
pub open spec fn approval_error(
    c: &Contract,
    owner_id: Seq<char>,
    sale_args: Option<SaleArgs>,
    predecessor: Seq<char>,
    signer: Seq<char>,
) -> Option<ContractError> {
    let required = (c.supply_of(signer) + 1) * STORAGE_PER_SALE;
    if predecessor == signer {
        Some(ContractError::NotCrossContractCall)
    } else if owner_id != signer {
        Some(ContractError::SignerNotTokenOwner)
    } else if required > u128::MAX {
        Some(ContractError::ArithmeticOverflow)
    } else if c.deposit_of(signer) < required {
        Some(
            ContractError::InsufficientStorage {
                paid: c.deposit_of(signer),
                required: required as u128,
            },
        )
    } else if sale_args is None {
        Some(ContractError::InvalidSaleArgs)
    } else {
        None
    }
}

/// `after` is `before` with token `token_id` of contract `predecessor`
/// listed by `owner_id` at `price`: the sale is stored under its key, the key
/// is added to the owner's set, and the token to the token contract's set.
pub open spec fn listed(
    before: &Contract,
    after: &Contract,
    token_id: String,
    owner_id: String,
    approval_id: u64,
    price: u128,
    predecessor: String,
) -> bool {
    let id = sale_key(predecessor@, token_id@);
    let sale = Sale {
        owner_id: owner_id,
        approval_id: approval_id,
        nft_contract_id: predecessor,
        token_id: token_id,
        sale_conditions: price,
    };
    &&& after.sales@ == before.sales@.insert(id, sale)
    &&& after.sales@.get(id) == Some(sale)
    &&& after.contract_index().contains_key(predecessor@)
    &&& after.contract_index()[predecessor@].contains(token_id@)
    &&& after.owner_index().contains_key(owner_id@)
    &&& after.owner_index()[owner_id@].contains(id)
    &&& after.owner_index() == index_add(before.owner_index(), owner_id@, id)
    &&& after.contract_index() == index_add(before.contract_index(), predecessor@, token_id@)
    &&& after.same_but_sales(before)
}

/// A sale just listed can always be taken off the market again (by
/// `remove_sale` or a purchase): it is present, its owner's set and its
/// contract's set are recorded, and its owner is the listing's owner.
pub proof fn law_listed_then_removable(
    before: &Contract,
    after: &Contract,
    token_id: String,
    owner_id: String,
    approval_id: u64,
    price: u128,
    predecessor: String,
)
    requires
        listed(before, after, token_id, owner_id, approval_id, price, predecessor),
    ensures
        after.sales@[sale_key(predecessor@, token_id@)].owner_id == owner_id,
        removal_error(after, predecessor@, token_id@) is None,
{
    let id = sale_key(predecessor@, token_id@);
    assert(after.sales@.contains_key(id));
}

/// Adds `x` to the set under `k`, creating the set when absent.
fn index_add_in(m: &mut KeyedMap<String, StringSet>, k: String, x: String)
    requires
        index_wf(*old(m)),
    ensures
        index_wf(*final(m)),
        index_view(final(m)@) == index_add(index_view(old(m)@), k@, x@),
{
    let ghost before = index_view(m@);
    let mut set = match m.get(&k) {
        Some(s) => s.duplicate(),
        None => StringSet::new(),
    };
    assert(set@ == index_set(before, k@));
    proof {
        lemma_set_ops(set@, x@);
    }
    set.insert(x);
    let ghost k_view = k@;
    m.insert(k, set);
    assert(index_view(m@) =~= before.insert(k_view, set@));
}

impl Contract {
    /// Lists a token for sale when its contract reports that the owner
    /// approved this market. The call must come from the token contract on
    /// behalf of the token's owner, whose storage must cover one more sale.
    /// The sale is stored under `predecessor + "." + token_id`; its key is
    /// added to the owner's set, and the token to the token contract's set.
    pub fn nft_on_approve(
        &mut self,
        token_id: String,
        owner_id: String,
        approval_id: u64,
        sale_args: Option<SaleArgs>,
        predecessor: String,
        signer: String,
    ) -> (r: Result<(), ContractError>)
        requires
            old(self).wf(),
        ensures
            final(self).wf(),
            old(self).market_inv() ==> final(self).market_inv(),
            match approval_error(old(self), owner_id@, sale_args, predecessor@, signer@) {
                Some(e) => r == Err::<(), ContractError>(e) && *final(self) == *old(self),
                None => r is Ok && listed(
                    old(self),
                    final(self),
                    token_id,
                    owner_id,
                    approval_id,
                    sale_args->Some_0.sale_conditions,
                    predecessor,
                ),
            },
    {
        if predecessor == signer {
            return Err(ContractError::NotCrossContractCall);
        }
        if owner_id != signer {
            return Err(ContractError::SignerNotTokenOwner);
        }
        let storage_amount = self.storage_minimum_balance();
        let owner_paid_storage = self.storage_balance_of(&signer);
        let supply = self.get_supply_by_owner_id(&signer);
        let count = match supply.checked_add(1) {
            Some(n) => n,
            None => return Err(ContractError::ArithmeticOverflow),
        };
        let required = match (count as u128).checked_mul(storage_amount) {
            Some(x) => x,
            None => return Err(ContractError::ArithmeticOverflow),
        };
        if owner_paid_storage < required {
            return Err(
                ContractError::InsufficientStorage { paid: owner_paid_storage, required },
            );
        }
        let sale_conditions = match sale_args {
            Some(args) => args.sale_conditions,
            None => return Err(ContractError::InvalidSaleArgs),
        };
        let ghost start = *self;
        let ghost g_token = token_id;
        let ghost g_owner = owner_id;
        let ghost g_pred = predecessor;
        let id = sale_id(&predecessor, &token_id);
        proof {
            lemma_set_ops(index_set(self.contract_index(), predecessor@), token_id@);
            lemma_set_ops(index_set(self.owner_index(), owner_id@), id@);
        }
        let sale = Sale {
            owner_id: owner_id.clone(),
            approval_id,
            nft_contract_id: predecessor.clone(),
            token_id: token_id.clone(),
            sale_conditions,
        };
        self.sales.insert(id.clone(), sale);
        index_add_in(&mut self.by_owner_id, owner_id.clone(), id);
        index_add_in(&mut self.by_nft_contract_id, predecessor.clone(), token_id);
        proof {
            if start.market_inv() {
                law_listing_keeps_invariant(
                    &start,
                    self,
                    g_token,
                    g_owner,
                    approval_id,
                    sale_conditions,
                    g_pred,
                );
            }
        }
        Ok(())
    }
}

} // verus!
