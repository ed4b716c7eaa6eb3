use vstd::prelude::*;
use crate::contract::{Contract, index_set, index_add, index_remove};
use crate::internal::{sale_key, removal_error, removed_sale};
use crate::nft_callbacks::listed;
use crate::string_set::{seq_insert_new, lemma_set_ops};
use crate::types::{Sale, STORAGE_PER_SALE};

verus! {

/// The sale under `k` is filed where it belongs: `k` is the key of its own
/// contract and token, `k` is in its owner's set, and its token is in its
/// contract's set.
pub open spec fn sale_indexed(c: &Contract, k: Seq<char>) -> bool {
    let s = c.sales@[k];
    &&& k == sale_key(s.nft_contract_id@, s.token_id@)
    &&& index_set(c.owner_index(), s.owner_id@).contains(k)
    &&& index_set(c.contract_index(), s.nft_contract_id@).contains(s.token_id@)
}

impl Contract {
    /// Every sale is filed under its owner and its contract.
    pub open spec fn sales_indexed(&self) -> bool {
        forall|k: Seq<char>| #[trigger] self.sales@.contains_key(k) ==> sale_indexed(self, k)
    }

    /// Every account has paid the storage of the sales it has listed.
    pub open spec fn storage_covered(&self) -> bool {
        forall|a: Seq<char>| #[trigger] self.deposit_of(a) >= self.supply_of(a) * STORAGE_PER_SALE
    }

    /// The market's invariant: sales are indexed and their storage is paid.
    /// (That no index set is ever empty is part of `wf`.)
    pub open spec fn market_inv(&self) -> bool {
        self.sales_indexed() && self.storage_covered()
    }

    /// Sales, their indexes and the storage deposits are as in `other`.
    pub open spec fn same_market(&self, other: &Contract) -> bool {
        &&& self.sales@ == other.sales@
        &&& self.owner_index() == other.owner_index()
        &&& self.contract_index() == other.contract_index()
        &&& self.storage_deposits@ == other.storage_deposits@
    }
}

/// A call that leaves sales, indexes and deposits alone keeps the invariant.
pub proof fn law_untouched_market_keeps_invariant(before: &Contract, after: &Contract)
    requires
        after.same_market(before),
        before.market_inv(),
    ensures
        after.market_inv(),
{
    assert forall|k: Seq<char>| #[trigger] after.sales@.contains_key(k) implies sale_indexed(
        after,
        k,
    ) by {
        assert(before.sales@.contains_key(k));
    }
    assert forall|a: Seq<char>| #[trigger] after.deposit_of(a) >= after.supply_of(a)
        * STORAGE_PER_SALE by {
        assert(before.deposit_of(a) >= before.supply_of(a) * STORAGE_PER_SALE);
    }
}

/// A call that changes only storage deposits, and leaves every account
/// with at least what its listed sales use, keeps the invariant.
pub proof fn law_deposit_change_keeps_invariant(before: &Contract, after: &Contract)
    requires
        before.market_inv(),
        after.sales@ == before.sales@,
        after.owner_index() == before.owner_index(),
        after.contract_index() == before.contract_index(),
        forall|a: Seq<char>| #[trigger] after.deposit_of(a) >= before.supply_of(a) * STORAGE_PER_SALE,
    ensures
        after.market_inv(),
{
    assert forall|k: Seq<char>| #[trigger] after.sales@.contains_key(k) implies sale_indexed(
        after,
        k,
    ) by {
        assert(before.sales@.contains_key(k));
    }
    assert forall|a: Seq<char>| #[trigger] after.deposit_of(a) >= after.supply_of(a)
        * STORAGE_PER_SALE by {
        assert(after.deposit_of(a) >= before.supply_of(a) * STORAGE_PER_SALE);
    }
}

/// A new price for a listed sale keeps the invariant: the sale keeps its
/// owner, contract and token.
pub proof fn law_price_change_keeps_invariant(before: &Contract, after: &Contract, id: Seq<char>, price: u128)
    requires
        before.market_inv(),
        before.sales@.contains_key(id),
        after.sales@ == before.sales@.insert(id, Sale { sale_conditions: price, ..before.sales@[id] }),
        after.owner_index() == before.owner_index(),
        after.contract_index() == before.contract_index(),
        after.storage_deposits@ == before.storage_deposits@,
    ensures
        after.market_inv(),
{
    assert forall|k: Seq<char>| #[trigger] after.sales@.contains_key(k) implies sale_indexed(
        after,
        k,
    ) by {
        assert(before.sales@.contains_key(k));
        assert(sale_indexed(before, k));
    }
    assert forall|a: Seq<char>| #[trigger] after.deposit_of(a) >= after.supply_of(a)
        * STORAGE_PER_SALE by {
        assert(before.deposit_of(a) >= before.supply_of(a) * STORAGE_PER_SALE);
    }
}

proof fn lemma_remove_pushed<A>(s: Seq<A>, x: A)
    requires
        !s.contains(x),
    ensures
        crate::string_set::seq_remove_swap(seq_insert_new(s, x), x) == s,
{
    let t = s.push(x);
    assert(t[s.len() as int] == x);
    assert(t.contains(x));
    let i = t.index_of(x);
    if i < s.len() {
        assert(s[i] == x);
    }
    assert(i == s.len());
    assert(crate::string_set::swap_remove_at(t, i) =~= s);
}

/// Listing a token that the market did not hold and then removing it again
/// gives back the market as it was: the removal succeeds and returns the
/// listed sale, and the sales, both indexes and the deposits are as before.
/// (It needs the key and the token to be absent from the owner's and the
/// contract's sets beforehand; a token left in its contract's set without a
/// sale would be taken out by the removal.)
pub proof fn law_removal_undoes_listing(
    s0: &Contract,
    s1: &Contract,
    s2: &Contract,
    token_id: String,
    owner_id: String,
    approval_id: u64,
    price: u128,
    predecessor: String,
)
    requires
        s0.wf(),
        !s0.sales@.contains_key(sale_key(predecessor@, token_id@)),
        !index_set(s0.owner_index(), owner_id@).contains(sale_key(predecessor@, token_id@)),
        !index_set(s0.contract_index(), predecessor@).contains(token_id@),
        listed(s0, s1, token_id, owner_id, approval_id, price, predecessor),
        removed_sale(s1, s2, predecessor@, token_id@),
    ensures
        removal_error(s1, predecessor@, token_id@) is None,
        s1.sales@[sale_key(predecessor@, token_id@)] == (Sale {
            owner_id: owner_id,
            approval_id: approval_id,
            nft_contract_id: predecessor,
            token_id: token_id,
            sale_conditions: price,
        }),
        s2.sales@ == s0.sales@,
        s2.owner_index() == s0.owner_index(),
        s2.contract_index() == s0.contract_index(),
        s2.storage_deposits@ == s0.storage_deposits@,
{
    let id = sale_key(predecessor@, token_id@);
    assert(s1.sales@.contains_key(id));
    assert(s2.sales@ =~= s0.sales@);
    let oi = s0.owner_index();
    let ci = s0.contract_index();
    let so = index_set(oi, owner_id@);
    let sc = index_set(ci, predecessor@);
    lemma_remove_pushed(so, id);
    lemma_remove_pushed(sc, token_id@);
    assert(s1.owner_index()[owner_id@] == seq_insert_new(so, id));
    assert(s1.contract_index()[predecessor@] == seq_insert_new(sc, token_id@));
    assert(s1.sales@[id].owner_id@ == owner_id@);
    if oi.contains_key(owner_id@) {
        assert(oi[owner_id@] == s0.by_owner_id@[owner_id@]@);
        assert(so.len() > 0);
        assert(s2.owner_index() =~= oi);
    } else {
        assert(so.len() == 0);
        assert(s2.owner_index() =~= oi);
    }
    if ci.contains_key(predecessor@) {
        assert(ci[predecessor@] == s0.by_nft_contract_id@[predecessor@]@);
        assert(sc.len() > 0);
        assert(s2.contract_index() =~= ci);
    } else {
        assert(sc.len() == 0);
        assert(s2.contract_index() =~= ci);
    }
}

proof fn lemma_insert_new_keeps<A>(s: Seq<A>, x: A, y: A)
    requires
        s.contains(y) || y == x,
    ensures
        seq_insert_new(s, x).contains(y),
        seq_insert_new(s, x).len() <= s.len() + 1,
{
    if !s.contains(x) {
        let t = s.push(x);
        if y == x {
            assert(t[s.len() as int] == y);
        } else {
            let i = choose|i: int| 0 <= i < s.len() && s[i] == y;
            assert(t[i] == y);
        }
    }
}

/// A listing that the storage rule admits keeps the market's invariant: the
/// new sale is filed under its owner and contract, the sales already listed
/// stay filed, and the owner's deposit covers the one more sale.
pub proof fn law_listing_keeps_invariant(
    before: &Contract,
    after: &Contract,
    token_id: String,
    owner_id: String,
    approval_id: u64,
    price: u128,
    predecessor: String,
)
    requires
        before.wf(),
        before.market_inv(),
        listed(before, after, token_id, owner_id, approval_id, price, predecessor),
        before.deposit_of(owner_id@) >= (before.supply_of(owner_id@) + 1) * STORAGE_PER_SALE,
    ensures
        after.market_inv(),
{
    let id = sale_key(predecessor@, token_id@);
    let oi = before.owner_index();
    let ci = before.contract_index();
    assert(after.owner_index() == index_add(oi, owner_id@, id));
    assert(after.contract_index() == index_add(ci, predecessor@, token_id@));
    assert forall|k: Seq<char>| #[trigger] after.sales@.contains_key(k) implies sale_indexed(
        after,
        k,
    ) by {
        if k != id {
            assert(before.sales@.contains_key(k));
            assert(sale_indexed(before, k));
            let s = before.sales@[k];
            assert(after.sales@[k] == s);
            if s.owner_id@ == owner_id@ {
                lemma_insert_new_keeps(index_set(oi, owner_id@), id, k);
            } else {
                assert(index_set(after.owner_index(), s.owner_id@) == index_set(oi, s.owner_id@));
            }
            if s.nft_contract_id@ == predecessor@ {
                lemma_insert_new_keeps(index_set(ci, predecessor@), token_id@, s.token_id@);
            } else {
                assert(index_set(after.contract_index(), s.nft_contract_id@) == index_set(
                    ci,
                    s.nft_contract_id@,
                ));
            }
        } else {
            lemma_insert_new_keeps(index_set(oi, owner_id@), id, id);
            lemma_insert_new_keeps(index_set(ci, predecessor@), token_id@, token_id@);
        }
    }
    assert forall|a: Seq<char>| #[trigger] after.deposit_of(a) >= after.supply_of(a)
        * STORAGE_PER_SALE by {
        assert(after.deposit_of(a) == before.deposit_of(a));
        assert(before.deposit_of(a) >= before.supply_of(a) * STORAGE_PER_SALE);
        if a == owner_id@ {
            lemma_insert_new_keeps(index_set(oi, owner_id@), id, id);
            assert(after.supply_of(a) <= before.supply_of(a) + 1);
        } else {
            assert(after.supply_of(a) == before.supply_of(a));
        }
    }
}

/// Removing a sale (by `remove_sale`, an offer or a purchase) keeps the
/// market's invariant: the other sales stay filed, since a sale's token
/// leaves its contract's set only along with the sale's own key, and each
/// account lists no more sales than before.
pub proof fn law_removal_keeps_invariant(before: &Contract, after: &Contract, contract: Seq<char>, token: Seq<char>)
    requires
        before.wf(),
        before.market_inv(),
        removal_error(before, contract, token) is None,
        removed_sale(before, after, contract, token),
    ensures
        after.market_inv(),
{
    let id = sale_key(contract, token);
    let owner0 = before.sales@[id].owner_id@;
    let oi = before.owner_index();
    let ci = before.contract_index();
    assert(oi.contains_key(owner0));
    assert(ci.contains_key(contract));
    assert(before.by_owner_id@[owner0].wf());
    assert(oi[owner0] == before.by_owner_id@[owner0]@);
    assert(before.by_nft_contract_id@[contract].wf());
    assert(ci[contract] == before.by_nft_contract_id@[contract]@);
    lemma_set_ops(oi[owner0], id);
    lemma_set_ops(ci[contract], token);
    assert(after.owner_index() == index_remove(oi, owner0, id));
    assert(after.contract_index() == index_remove(ci, contract, token));
    assert forall|k: Seq<char>| #[trigger] after.sales@.contains_key(k) implies sale_indexed(
        after,
        k,
    ) by {
        assert(k != id);
        assert(before.sales@.contains_key(k));
        assert(sale_indexed(before, k));
        let s = before.sales@[k];
        assert(after.sales@[k] == s);
        if s.owner_id@ == owner0 {
            assert(oi[owner0].contains(k));
            assert(index_set(after.owner_index(), owner0).contains(k));
        } else {
            assert(index_set(after.owner_index(), s.owner_id@) == index_set(oi, s.owner_id@));
        }
        if s.nft_contract_id@ == contract {
            assert(s.token_id@ != token);
            assert(ci[contract].contains(s.token_id@));
            assert(index_set(after.contract_index(), contract).contains(s.token_id@));
        } else {
            assert(index_set(after.contract_index(), s.nft_contract_id@) == index_set(
                ci,
                s.nft_contract_id@,
            ));
        }
    }
    assert forall|a: Seq<char>| #[trigger] after.deposit_of(a) >= after.supply_of(a)
        * STORAGE_PER_SALE by {
        assert(after.deposit_of(a) == before.deposit_of(a));
        assert(before.deposit_of(a) >= before.supply_of(a) * STORAGE_PER_SALE);
        if a == owner0 {
            assert(after.supply_of(a) <= before.supply_of(a));
        } else {
            assert(after.supply_of(a) == before.supply_of(a));
        }
    }
}

} // verus!
