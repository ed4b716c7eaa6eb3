use vstd::prelude::*;
use crate::invariants::law_removal_keeps_invariant;
use crate::contract::{Contract, index_view, index_wf, index_remove, index_set};
use crate::keyed_map::KeyedMap;
use crate::string_set::{StringSet, lemma_set_ops};
use crate::types::{Sale, ContractError};

verus! {

/// Key of the sale of token `token` of contract `contract`:
/// `contract + "." + token`.
pub open spec fn sale_key(contract: Seq<char>, token: Seq<char>) -> Seq<char> {
    contract + seq!['.'] + token
}

/// Builds the key of a sale from its contract and token.
pub fn sale_id(nft_contract_id: &String, token_id: &String) -> (r: String)
    ensures
        r@ == sale_key(nft_contract_id@, token_id@),
{
    let mut id = nft_contract_id.clone();
    id.append(".");
    id.append(token_id.as_str());
    proof {
        reveal_strlit(".");
    }
    id
}

/// Why removing the sale of `token` of `contract` fails, if it does: no such
/// sale, no set for its owner, or no set for its contract.
pub open spec fn removal_error(c: &Contract, contract: Seq<char>, token: Seq<char>) -> Option<
    ContractError,
> {
    let id = sale_key(contract, token);
    if !c.sales@.contains_key(id) {
        Some(ContractError::NoSaleFound)
    } else if !c.owner_index().contains_key(c.sales@[id].owner_id@) {
        Some(ContractError::NoSalesByOwner)
    } else if !c.contract_index().contains_key(contract) {
        Some(ContractError::NoSalesByNftContract)
    } else {
        None
    }
}

/// `after` is `before` with the sale of `token` of `contract` removed: gone
/// from the sales, from its owner's set and from its contract's set, and
/// each set dropped once empty.
pub open spec fn removed_sale(before: &Contract, after: &Contract, contract: Seq<char>, token: Seq<char>) -> bool {
    let id = sale_key(contract, token);
    let owner = before.sales@[id].owner_id@;
    &&& after.sales@ == before.sales@.remove(id)
    &&& !after.sales@.contains_key(id)
    &&& after.owner_index() == index_remove(before.owner_index(), owner, id)
    &&& after.contract_index() == index_remove(before.contract_index(), contract, token)
    &&& after.same_but_sales(before)
}

/// Once a sale is removed it is listed nowhere: not among the sales, not in
/// the set of its owner, and its token not in the set of its contract.
pub proof fn law_removed_sale_is_gone(before: &Contract, after: &Contract, contract: Seq<char>, token: Seq<char>)
    requires
        before.wf(),
        removal_error(before, contract, token) is None,
        removed_sale(before, after, contract, token),
    ensures
        !after.sales@.contains_key(sale_key(contract, token)),
        !index_set(after.owner_index(), before.sales@[sale_key(contract, token)].owner_id@).contains(
            sale_key(contract, token),
        ),
        !index_set(after.contract_index(), contract).contains(token),
{
    let id = sale_key(contract, token);
    let owner = before.sales@[id].owner_id@;
    assert(before.by_owner_id@[owner].wf());
    assert(before.owner_index()[owner] == before.by_owner_id@[owner]@);
    lemma_set_ops(before.owner_index()[owner], id);
    assert(before.by_nft_contract_id@[contract].wf());
    assert(before.contract_index()[contract] == before.by_nft_contract_id@[contract]@);
    lemma_set_ops(before.contract_index()[contract], token);
}

/// Removes `x` from the set stored under `k` in an index map, dropping the
/// set when it becomes empty.
fn index_remove_in(m: &mut KeyedMap<String, StringSet>, k: &String, x: &String)
    requires
        index_wf(*old(m)),
        old(m)@.contains_key(k@),
    ensures
        index_wf(*final(m)),
        index_view(final(m)@) == index_remove(index_view(old(m)@), k@, x@),
{
    let ghost before = index_view(m@);
    let mut set = match m.get(k) {
        Some(s) => s.duplicate(),
        None => StringSet::new(),
    };
    proof {
        lemma_set_ops(set@, x@);
    }
    set.remove(x);
    if set.is_empty() {
        m.remove(k);
        assert(index_view(m@) =~= before.remove(k@));
    } else {
        m.insert(k.clone(), set);
        assert(index_view(m@) =~= before.insert(k@, set@));
    }
}

impl Contract {
    /// Tells whether the sale of `token_id` of `nft_contract_id` can be
    /// removed, and why not.
    pub fn check_removal(&self, nft_contract_id: &String, token_id: &String) -> (r: Result<(), ContractError>)
        requires
            self.wf(),
        ensures
            match removal_error(self, nft_contract_id@, token_id@) {
                Some(e) => r == Err::<(), ContractError>(e),
                None => r is Ok,
            },
    {
        let id = sale_id(nft_contract_id, token_id);
        let sale = match self.sales.get(&id) {
            Some(s) => s,
            None => return Err(ContractError::NoSaleFound),
        };
        if !self.by_owner_id.contains_key(&sale.owner_id) {
            return Err(ContractError::NoSalesByOwner);
        }
        if !self.by_nft_contract_id.contains_key(nft_contract_id) {
            return Err(ContractError::NoSalesByNftContract);
        }
        Ok(())
    }

    /// Removes the sale of `token_id` of `nft_contract_id` from the market
    /// and gives it back.
    pub fn internal_remove_sale(&mut self, nft_contract_id: &String, token_id: &String) -> (r: Result<Sale, ContractError>)
        requires
            old(self).wf(),
        ensures
            final(self).wf(),
            old(self).market_inv() ==> final(self).market_inv(),
            match removal_error(old(self), nft_contract_id@, token_id@) {
                Some(e) => r == Err::<Sale, ContractError>(e) && *final(self) == *old(self),
                None => r == Ok::<Sale, ContractError>(
                    old(self).sales@[sale_key(nft_contract_id@, token_id@)],
                ) && removed_sale(old(self), final(self), nft_contract_id@, token_id@),
            },
    {
        match self.check_removal(nft_contract_id, token_id) {
            Err(e) => return Err(e),
            Ok(()) => {},
        }
        let ghost start = *self;
        let id = sale_id(nft_contract_id, token_id);
        let sale = match self.sales.remove(&id) {
            Some(s) => s,
            None => return Err(ContractError::NoSaleFound),
        };
        index_remove_in(&mut self.by_owner_id, &sale.owner_id, &id);
        index_remove_in(&mut self.by_nft_contract_id, nft_contract_id, token_id);
        proof {
            if start.market_inv() {
                law_removal_keeps_invariant(&start, self, nft_contract_id@, token_id@);
            }
        }
        Ok(sale)
    }
}

} // verus!
