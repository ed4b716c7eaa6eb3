use vstd::prelude::*;
use crate::invariants::law_price_change_keeps_invariant;
use crate::contract::Contract;
use crate::internal::{sale_id, sale_key, removal_error, removed_sale};
use crate::types::{
    Sale, Payout, Transfer, PurchaseCall, Settlement, RefundNote, ContractError, purchase_memo,
    GAS_FOR_NFT_TRANSFER, GAS_FOR_ROYALTIES, MAX_ROYALTIES_ACCOUNTS,
};

verus! {

/// Sum of the amounts of a payout.
pub open spec fn payout_total(p: Seq<(String, u128)>) -> int
    decreases p.len(),
{
    if p.len() == 0 {
        0
    } else {
        payout_total(p.drop_last()) + p.last().1
    }
}

/// Sum of the amounts of a list of transfers.
pub open spec fn transfer_total(t: Seq<Transfer>) -> int
    decreases t.len(),
{
    if t.len() == 0 {
        0
    } else {
        transfer_total(t.drop_last()) + t.last().amount
    }
}

/// A payout the market accepts for a purchase at `price`: it names between
/// one and the allowed number of accounts and pays the price, or the price
/// less one yoctoNEAR.
pub open spec fn payout_accepted(price: u128, p: Seq<(String, u128)>) -> bool {
    &&& 1 <= p.len() <= MAX_ROYALTIES_ACCOUNTS
    &&& payout_total(p) <= price
    &&& price - payout_total(p) <= 1
}

/// The transfers that pay out `p`, entry by entry.
pub open spec fn pays_out(t: Seq<Transfer>, p: Seq<(String, u128)>) -> bool {
    &&& t.len() == p.len()
    &&& forall|i: int|
        0 <= i < t.len() ==> (#[trigger] t[i]).receiver_id == p[i].0 && t[i].amount == p[i].1
}

proof fn lemma_payout_total_prefix(p: Seq<(String, u128)>, i: int)
    requires
        0 <= i < p.len(),
    ensures
        payout_total(p.take(i + 1)) == payout_total(p.take(i)) + p[i].1,
{
    assert(p.take(i + 1).drop_last() =~= p.take(i));
}

proof fn lemma_payout_total_monotone(p: Seq<(String, u128)>, i: int)
    requires
        0 <= i <= p.len(),
    ensures
        payout_total(p.take(i)) <= payout_total(p),
    decreases p.len() - i,
{
    if i < p.len() {
        lemma_payout_total_prefix(p, i);
        lemma_payout_total_monotone(p, i + 1);
    } else {
        assert(p.take(i) =~= p);
    }
}

proof fn lemma_pays_out_total(t: Seq<Transfer>, p: Seq<(String, u128)>)
    requires
        pays_out(t, p),
    ensures
        transfer_total(t) == payout_total(p),
    decreases t.len(),
{
    if t.len() > 0 {
        let t2 = t.drop_last();
        let p2 = p.drop_last();
        assert(pays_out(t2, p2)) by {
            assert forall|i: int| 0 <= i < t2.len() implies (#[trigger] t2[i]).receiver_id == p2[i].0
                && t2[i].amount == p2[i].1 by {
                assert(t2[i] == t[i]);
            }
        }
        lemma_pays_out_total(t2, p2);
        assert(t[t.len() - 1].amount == p[p.len() - 1].1);
    }
}

/// Sums a payout, or tells that the sum exceeds `price`.
fn payout_fits(price: u128, p: &Vec<(String, u128)>) -> (r: Option<u128>)
    ensures
        match r {
            Some(rem) => payout_total(p@) <= price && rem == price - payout_total(p@),
            None => payout_total(p@) > price,
        },
{
    let n = p.len();
    let mut remainder = price;
    let mut i: usize = 0;
    while i < n
        invariant
            n == p@.len(),
            i <= n,
            payout_total(p@.take(i as int)) <= price,
            remainder == price - payout_total(p@.take(i as int)),
        decreases n - i,
    {
        proof {
            lemma_payout_total_prefix(p@, i as int);
        }
        match remainder.checked_sub(p[i].1) {
            Some(x) => remainder = x,
            None => {
                proof {
                    lemma_payout_total_monotone(p@, i as int + 1);
                }
                return None;
            },
        }
        i = i + 1;
    }
    assert(p@.take(n as int) =~= p@);
    Some(remainder)
}

impl Contract {
    /// Removes a sale; only its owner may, with exactly one yoctoNEAR
    /// attached. The removed sale is returned.
    pub fn remove_sale(&mut self, nft_contract_id: String, token_id: String, predecessor: String, attached_deposit: u128) -> (r: Result<Sale, ContractError>)
        requires
            old(self).wf(),
        ensures
            final(self).wf(),
            old(self).market_inv() ==> final(self).market_inv(),
            r is Err ==> *final(self) == *old(self),
            attached_deposit != 1 ==> r == Err::<Sale, ContractError>(ContractError::RequiresOneYocto),
            attached_deposit == 1 ==> match removal_error(old(self), nft_contract_id@, token_id@) {
                Some(e) => r == Err::<Sale, ContractError>(e),
                None => {
                    let sale = old(self).sales@[sale_key(nft_contract_id@, token_id@)];
                    if sale.owner_id@ != predecessor@ {
                        r == Err::<Sale, ContractError>(ContractError::OnlyOwnerCanRemoveSale)
                    } else {
                        r == Ok::<Sale, ContractError>(sale) && removed_sale(
                            old(self),
                            final(self),
                            nft_contract_id@,
                            token_id@,
                        )
                    }
                },
            },
    {
        if attached_deposit != 1 {
            return Err(ContractError::RequiresOneYocto);
        }
        match self.check_removal(&nft_contract_id, &token_id) {
            Err(e) => return Err(e),
            Ok(()) => {},
        }
        let id = sale_id(&nft_contract_id, &token_id);
        let is_owner = match self.sales.get(&id) {
            Some(sale) => sale.owner_id == predecessor,
            None => false,
        };
        if !is_owner {
            return Err(ContractError::OnlyOwnerCanRemoveSale);
        }
        self.internal_remove_sale(&nft_contract_id, &token_id)
    }

    /// Sets the price of a sale; only its owner may, with exactly one
    /// yoctoNEAR attached. The sale keeps its place.
    pub fn update_price(&mut self, nft_contract_id: String, token_id: String, price: u128, predecessor: String, attached_deposit: u128) -> (r: Result<(), ContractError>)
        requires
            old(self).wf(),
        ensures
            final(self).wf(),
            old(self).market_inv() ==> final(self).market_inv(),
            r is Err ==> *final(self) == *old(self),
            ({
                let id = sale_key(nft_contract_id@, token_id@);
                let sale = old(self).sales@[id];
                if attached_deposit != 1 {
                    r == Err::<(), ContractError>(ContractError::RequiresOneYocto)
                } else if !old(self).sales@.contains_key(id) {
                    r == Err::<(), ContractError>(ContractError::NoSaleFound)
                } else if sale.owner_id@ != predecessor@ {
                    r == Err::<(), ContractError>(ContractError::OnlyOwnerCanUpdatePrice)
                } else {
                    &&& r is Ok
                    &&& final(self).sales@ == old(self).sales@.insert(
                        id,
                        Sale { sale_conditions: price, ..sale },
                    )
                    &&& final(self).sales@[id].sale_conditions == price
                    &&& final(self).sales.key_seq() == old(self).sales.key_seq()
                    &&& final(self).owner_id == old(self).owner_id
                    &&& final(self).by_owner_id == old(self).by_owner_id
                    &&& final(self).by_nft_contract_id == old(self).by_nft_contract_id
                    &&& final(self).same_but_sales(old(self))
                }
            }),
    {
        if attached_deposit != 1 {
            return Err(ContractError::RequiresOneYocto);
        }
        let id = sale_id(&nft_contract_id, &token_id);
        let mut sale = match self.sales.get(&id) {
            Some(s) => s.duplicate(),
            None => return Err(ContractError::NoSaleFound),
        };
        if predecessor != sale.owner_id {
            return Err(ContractError::OnlyOwnerCanUpdatePrice);
        }
        let ghost start = *self;
        let ghost key = id@;
        sale.sale_conditions = price;
        self.sales.insert(id, sale);
        proof {
            if start.market_inv() {
                law_price_change_keeps_invariant(&start, self, key, price);
            }
        }
        Ok(())
    }

    /// Removes a sale and prepares the calls of its purchase by `buyer_id`
    /// at `price`.
    fn purchase(&mut self, nft_contract_id: String, token_id: String, price: u128, buyer_id: String) -> (r: Result<PurchaseCall, ContractError>)
        requires
            old(self).wf(),
        ensures
            final(self).wf(),
            old(self).market_inv() ==> final(self).market_inv(),
            match removal_error(old(self), nft_contract_id@, token_id@) {
                Some(e) => r == Err::<PurchaseCall, ContractError>(e) && *final(self) == *old(self),
                None => {
                    &&& removed_sale(old(self), final(self), nft_contract_id@, token_id@)
                    &&& r is Ok
                    &&& r->Ok_0.nft_contract_id == nft_contract_id
                    &&& r->Ok_0.receiver_id == buyer_id
                    &&& r->Ok_0.token_id == token_id
                    &&& r->Ok_0.approval_id == old(self).sales@[sale_key(
                        nft_contract_id@,
                        token_id@,
                    )].approval_id
                    &&& r->Ok_0.memo@ == purchase_memo()
                    &&& r->Ok_0.balance == price
                    &&& r->Ok_0.max_len_payout == MAX_ROYALTIES_ACCOUNTS
                    &&& r->Ok_0.attached_deposit == 1
                    &&& r->Ok_0.transfer_gas == GAS_FOR_NFT_TRANSFER
                    &&& r->Ok_0.resolve_gas == GAS_FOR_ROYALTIES
                },
            },
    {
        let sale = match self.internal_remove_sale(&nft_contract_id, &token_id) {
            Ok(s) => s,
            Err(e) => return Err(e),
        };
        let memo = String::from_str("payout from Evie Market");
        proof {
            reveal_strlit("payout from Evie Market");
        }
        Ok(
            PurchaseCall {
                nft_contract_id,
                receiver_id: buyer_id,
                token_id,
                approval_id: sale.approval_id,
                memo,
                balance: price,
                max_len_payout: MAX_ROYALTIES_ACCOUNTS as u32,
                attached_deposit: 1,
                transfer_gas: GAS_FOR_NFT_TRANSFER,
                resolve_gas: GAS_FOR_ROYALTIES,
            },
        )
    }

    /// Buys a sale with the attached deposit, which must be positive and at
    /// least the price; one cannot buy one's own sale. The sale leaves the
    /// market, and the token contract is asked to transfer the token to the
    /// buyer against the whole deposit.
    pub fn offer(&mut self, nft_contract_id: String, token_id: String, predecessor: String, attached_deposit: u128) -> (r: Result<PurchaseCall, ContractError>)
        requires
            old(self).wf(),
        ensures
            final(self).wf(),
            old(self).market_inv() ==> final(self).market_inv(),
            r is Err ==> *final(self) == *old(self),
            ({
                let id = sale_key(nft_contract_id@, token_id@);
                let sale = old(self).sales@[id];
                if attached_deposit == 0 {
                    r == Err::<PurchaseCall, ContractError>(ContractError::ZeroDeposit)
                } else if !old(self).sales@.contains_key(id) {
                    r == Err::<PurchaseCall, ContractError>(ContractError::NoSaleFound)
                } else if sale.owner_id@ == predecessor@ {
                    r == Err::<PurchaseCall, ContractError>(ContractError::OfferOnOwnSale)
                } else if attached_deposit < sale.sale_conditions {
                    r == Err::<PurchaseCall, ContractError>(
                        ContractError::DepositBelowPrice { price: sale.sale_conditions },
                    )
                } else {
                    match removal_error(old(self), nft_contract_id@, token_id@) {
                        Some(e) => r == Err::<PurchaseCall, ContractError>(e),
                        None => {
                            &&& removed_sale(old(self), final(self), nft_contract_id@, token_id@)
                            &&& r is Ok
                            &&& r->Ok_0.nft_contract_id == nft_contract_id
                            &&& r->Ok_0.receiver_id == predecessor
                            &&& r->Ok_0.token_id == token_id
                            &&& r->Ok_0.approval_id == sale.approval_id
                            &&& r->Ok_0.memo@ == purchase_memo()
                            &&& r->Ok_0.balance == attached_deposit
                            &&& r->Ok_0.max_len_payout == MAX_ROYALTIES_ACCOUNTS
                            &&& r->Ok_0.attached_deposit == 1
                            &&& r->Ok_0.transfer_gas == GAS_FOR_NFT_TRANSFER
                            &&& r->Ok_0.resolve_gas == GAS_FOR_ROYALTIES
                        },
                    }
                }
            }),
    {
        if attached_deposit == 0 {
            return Err(ContractError::ZeroDeposit);
        }
        let id = sale_id(&nft_contract_id, &token_id);
        let price = match self.sales.get(&id) {
            Some(sale) => {
                if predecessor == sale.owner_id {
                    return Err(ContractError::OfferOnOwnSale);
                }
                sale.sale_conditions
            },
            None => return Err(ContractError::NoSaleFound),
        };
        if attached_deposit < price {
            return Err(ContractError::DepositBelowPrice { price });
        }
        self.purchase(nft_contract_id, token_id, attached_deposit, predecessor)
    }

    /// Removes a sale and prepares the calls of its purchase by `buyer_id`
    /// at `price`. Only this contract may call it.
    pub fn process_purchase(
        &mut self,
        nft_contract_id: String,
        token_id: String,
        price: u128,
        buyer_id: String,
        predecessor: String,
        current_account_id: String,
    ) -> (r: Result<PurchaseCall, ContractError>)
        requires
            old(self).wf(),
        ensures
            final(self).wf(),
            old(self).market_inv() ==> final(self).market_inv(),
            r is Err ==> *final(self) == *old(self),
            predecessor@ != current_account_id@ ==> r == Err::<PurchaseCall, ContractError>(
                ContractError::PrivateMethod,
            ),
            predecessor@ == current_account_id@ ==> match removal_error(
                old(self),
                nft_contract_id@,
                token_id@,
            ) {
                Some(e) => r == Err::<PurchaseCall, ContractError>(e),
                None => {
                    &&& removed_sale(old(self), final(self), nft_contract_id@, token_id@)
                    &&& r is Ok
                    &&& r->Ok_0.nft_contract_id == nft_contract_id
                    &&& r->Ok_0.receiver_id == buyer_id
                    &&& r->Ok_0.token_id == token_id
                    &&& r->Ok_0.approval_id == old(self).sales@[sale_key(
                        nft_contract_id@,
                        token_id@,
                    )].approval_id
                    &&& r->Ok_0.memo@ == purchase_memo()
                    &&& r->Ok_0.balance == price
                    &&& r->Ok_0.max_len_payout == MAX_ROYALTIES_ACCOUNTS
                    &&& r->Ok_0.attached_deposit == 1
                    &&& r->Ok_0.transfer_gas == GAS_FOR_NFT_TRANSFER
                    &&& r->Ok_0.resolve_gas == GAS_FOR_ROYALTIES
                },
            },
    {
        if predecessor != current_account_id {
            return Err(ContractError::PrivateMethod);
        }
        self.purchase(nft_contract_id, token_id, price, buyer_id)
    }

    /// Settles a purchase at `price` from the payout the token contract
    /// reported (`None` when the transfer failed or its payout could not be
    /// read). An accepted payout is paid out entry by entry; otherwise the
    /// buyer gets `price` back. Either way the call returns `price`. Only
    /// this contract may call it.
    pub fn resolve_purchase(
        &self,
        buyer_id: String,
        price: u128,
        payout: Option<Payout>,
        predecessor: String,
        current_account_id: String,
    ) -> (r: Result<Settlement, ContractError>)
        ensures
            predecessor@ != current_account_id@ <==> r == Err::<Settlement, ContractError>(
                ContractError::PrivateMethod,
            ),
            predecessor@ == current_account_id@ <==> r is Ok,
            r is Ok ==> {
                let s = r->Ok_0;
                let refund = seq![Transfer { receiver_id: buyer_id, amount: price }];
                &&& s.returned == price
                &&& match payout {
                    None => s.transfers@ == refund && s.note == None::<RefundNote>,
                    Some(p) => {
                        let entries = p.payout@;
                        if entries.len() > MAX_ROYALTIES_ACCOUNTS || entries.len() == 0 {
                            s.transfers@ == refund && s.note == Some(RefundNote::PayoutSize)
                        } else if payout_total(entries) > price {
                            s.transfers@ == refund && s.note == None::<RefundNote>
                        } else if price - payout_total(entries) > 1 {
                            s.transfers@ == refund && s.note == Some(RefundNote::PayoutRemainder)
                        } else {
                            pays_out(s.transfers@, entries) && s.note == None::<RefundNote>
                        }
                    },
                }
                &&& price - 1 <= transfer_total(s.transfers@) <= price
                &&& match payout {
                    Some(p) => if payout_accepted(price, p.payout@) {
                        pays_out(s.transfers@, p.payout@)
                    } else {
                        s.transfers@ == refund
                    },
                    None => s.transfers@ == refund,
                }
            },
    {
        if predecessor != current_account_id {
            return Err(ContractError::PrivateMethod);
        }
        let mut note: Option<RefundNote> = None;
        let accepted: Option<Vec<(String, u128)>> = match payout {
            None => None,
            Some(p) => {
                let entries = p.payout;
                let n = entries.len();
                if n > MAX_ROYALTIES_ACCOUNTS as usize || n == 0 {
                    note = Some(RefundNote::PayoutSize);
                    None
                } else {
                    match payout_fits(price, &entries) {
                        None => None,
                        Some(rem) => {
                            if rem == 0 || rem == 1 {
                                Some(entries)
                            } else {
                                note = Some(RefundNote::PayoutRemainder);
                                None
                            }
                        },
                    }
                }
            },
        };
        let mut transfers: Vec<Transfer> = Vec::new();
        match accepted {
            None => {
                transfers.push(Transfer { receiver_id: buyer_id, amount: price });
                assert(transfers@ =~= seq![Transfer { receiver_id: buyer_id, amount: price }]);
                assert(transfer_total(transfers@) == price) by {
                    assert(transfers@.drop_last() =~= Seq::<Transfer>::empty());
                    assert(transfer_total(transfers@.drop_last()) == 0);
                }
            },
            Some(entries) => {
                let ghost p = entries@;
                let mut k: usize = 0;
                let n = entries.len();
                while k < n
                    invariant
                        n == p.len(),
                        k <= n,
                        entries@ == p,
                        pays_out(transfers@, p.take(k as int)),
                    decreases n - k,
                {
                    let receiver_id = entries[k].0.clone();
                    let amount = entries[k].1;
                    let ghost before = transfers@;
                    transfers.push(Transfer { receiver_id, amount });
                    proof {
                        assert forall|i: int| 0 <= i < transfers@.len() implies (
                        #[trigger] transfers@[i]).receiver_id == p.take(k as int + 1)[i].0
                            && transfers@[i].amount == p.take(k as int + 1)[i].1 by {
                            if i < k {
                                assert(transfers@[i] == before[i]);
                            }
                        }
                    }
                    k = k + 1;
                }
                assert(p.take(n as int) =~= p);
                proof {
                    lemma_pays_out_total(transfers@, p);
                }
            },
        }
        Ok(Settlement { transfers, note, returned: price })
    }
}

} // verus!
