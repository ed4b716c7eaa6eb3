use vstd::prelude::*;
use crate::cart_functions::{cart_of, items_view};
use crate::contract::Contract;
use crate::types::{NftBuyCall, ContractError, ONE_NEAR, GAS_FOR_NFT_TRANSFER};

verus! {

/// Position `i` holds the first item of `s` with token `t`.
pub open spec fn first_with_token(s: Seq<(Seq<char>, Seq<char>)>, t: Seq<char>, i: int) -> bool {
    &&& 0 <= i < s.len()
    &&& s[i].0 == t
    &&& forall|j: int| 0 <= j < i ==> (#[trigger] s[j]).0 != t
}

/// Among the items of a cart, the first with token `t` is unique: it is the
/// earliest item with that token, counting from the cart's first item.
/// Whenever some item at position `k` has token `t`, there is such a first
/// item at or before `k`, and when the cart's first item has token `t`, it
/// is that one.
pub proof fn law_first_with_token(s: Seq<(Seq<char>, Seq<char>)>, t: Seq<char>, k: int)
    requires
        0 <= k < s.len(),
        s[k].0 == t,
    ensures
        exists|i: int| 0 <= i <= k && #[trigger] first_with_token(s, t, i),
        forall|i: int, j: int|
            first_with_token(s, t, i) && first_with_token(s, t, j) ==> i == j,
        s[0].0 == t ==> first_with_token(s, t, 0),
        forall|i: int| #[trigger] first_with_token(s, t, i) ==> s[i].0 == t && i <= k,
    decreases k,
{
    if exists|j: int| 0 <= j < k && s[j].0 == t {
        let j = choose|j: int| 0 <= j < k && s[j].0 == t;
        law_first_with_token(s, t, j);
    } else {
        assert(first_with_token(s, t, k));
    }
    assert forall|i: int, j: int| first_with_token(s, t, i) && first_with_token(s, t, j) implies i
        == j by {
        if i < j {
            assert(s[i].0 != t);
        } else if j < i {
            assert(s[j].0 != t);
        }
    }
    assert forall|i: int| #[trigger] first_with_token(s, t, i) implies s[i].0 == t && i <= k by {
        if i > k {
            assert(s[k].0 != t);
        }
    }
}

impl Contract {
    /// Buys the token series `item` on the marketplace recorded for it in
    /// the cart of `user`. The attached deposit must cover `price` and one
    /// NEAR, all of which goes with the call. Nothing is bought when the
    /// cart holds no item with that token, or the first such item names no
    /// contract.
    pub fn buy_from_other_marketplaces(&self, user: &String, item: String, price: u128, attached_deposit: u128) -> (r: Result<Option<NftBuyCall>, ContractError>)
        requires
            self.wf(),
        ensures
            ({
                let s = cart_of(self.cart@, user@);
                if price + ONE_NEAR > u128::MAX {
                    r == Err::<Option<NftBuyCall>, ContractError>(ContractError::ArithmeticOverflow)
                } else if attached_deposit < price + ONE_NEAR {
                    r == Err::<Option<NftBuyCall>, ContractError>(
                        ContractError::DepositBelowPricePlusOneNear,
                    )
                } else {
                    &&& r is Ok
                    &&& (r->Ok_0 is None <==> forall|i: int|
                        first_with_token(s, item@, i) ==> s[i].1 == Seq::<char>::empty())
                    &&& r->Ok_0 is Some ==> {
                        let call = r->Ok_0->Some_0;
                        &&& exists|i: int|
                            first_with_token(s, item@, i) && s[i].1 == call.contract_id@
                        &&& call.contract_id@ != Seq::<char>::empty()
                        &&& call.token_series_id == item
                        &&& call.attached_deposit == price + ONE_NEAR
                        &&& call.gas == GAS_FOR_NFT_TRANSFER
                    }
                }
            }),
    {
        let total = match price.checked_add(ONE_NEAR) {
            Some(t) => t,
            None => return Err(ContractError::ArithmeticOverflow),
        };
        if attached_deposit < total {
            return Err(ContractError::DepositBelowPricePlusOneNear);
        }
        let ghost s = cart_of(self.cart@, user@);
        let items = match self.cart.get(user) {
            Some(v) => v,
            None => return Ok(None),
        };
        assert(items_view(items@) == s);
        let n = items.len();
        let mut i: usize = 0;
        while i < n
            invariant
                n == items@.len(),
                s == items_view(items@),
                s == cart_of(self.cart@, user@),
                total == price + ONE_NEAR,
                attached_deposit >= total,
                i <= n,
                forall|j: int| 0 <= j < i ==> (#[trigger] s[j]).0 != item@,
            decreases n - i,
        {
            if items[i].token_id == item {
                assert(first_with_token(s, item@, i as int));
                if items[i].contract_id == String::new() {
                    assert(s[i as int].1 =~= Seq::<char>::empty());
                    return Ok(None);
                }
                let call = NftBuyCall {
                    contract_id: items[i].contract_id.clone(),
                    token_series_id: item,
                    attached_deposit: total,
                    gas: GAS_FOR_NFT_TRANSFER,
                };
                return Ok(Some(call));
            }
            i = i + 1;
        }
        Ok(None)
    }
}

} // verus!
