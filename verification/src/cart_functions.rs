use vstd::prelude::*;
use crate::invariants::law_untouched_market_keeps_invariant;
use crate::contract::Contract;
use crate::types::CartItem;

verus! {

/// Views of the items of a cart.
pub open spec fn items_view(v: Seq<CartItem>) -> Seq<(Seq<char>, Seq<char>)> {
    v.map_values(|c: CartItem| c@)
}

/// The items of every cart.
pub open spec fn carts_view(m: Map<Seq<char>, Vec<CartItem>>) -> Map<
    Seq<char>,
    Seq<(Seq<char>, Seq<char>)>,
> {
    m.map_values(|v: Vec<CartItem>| items_view(v@))
}

/// The items in the cart of `user`; an absent cart is empty.
pub open spec fn cart_of(m: Map<Seq<char>, Vec<CartItem>>, user: Seq<char>) -> Seq<
    (Seq<char>, Seq<char>),
> {
    if m.contains_key(user) {
        items_view(m[user]@)
    } else {
        Seq::empty()
    }
}

/// The items of `s` other than `x`, in order.
pub open spec fn without_item(s: Seq<(Seq<char>, Seq<char>)>, x: (Seq<char>, Seq<char>)) -> Seq<
    (Seq<char>, Seq<char>),
>
    decreases s.len(),
{
    if s.len() == 0 {
        s
    } else if s.last() == x {
        without_item(s.drop_last(), x)
    } else {
        without_item(s.drop_last(), x).push(s.last())
    }
}

/// Once `x` is taken out, it is no longer there.
pub proof fn lemma_without_item(s: Seq<(Seq<char>, Seq<char>)>, x: (Seq<char>, Seq<char>))
    ensures
        !without_item(s, x).contains(x),
        forall|y: (Seq<char>, Seq<char>)| #[trigger]
            without_item(s, x).contains(y) <==> (s.contains(y) && y != x),
    decreases s.len(),
{
    if s.len() > 0 {
        let t = s.drop_last();
        lemma_without_item(t, x);
        let w = without_item(t, x);
        let big = without_item(s, x);
        assert forall|y: (Seq<char>, Seq<char>)| #[trigger] big.contains(y) implies (s.contains(y)
            && y != x) by {
            let i = choose|i: int| 0 <= i < big.len() && big[i] == y;
            if s.last() == x {
                assert(w[i] == y);
                assert(w.contains(y));
                let j = choose|j: int| 0 <= j < t.len() && t[j] == y;
                assert(s[j] == y);
            } else if i < w.len() {
                assert(w[i] == y);
                assert(w.contains(y));
                let j = choose|j: int| 0 <= j < t.len() && t[j] == y;
                assert(s[j] == y);
            } else {
                assert(y == s.last());
                assert(s[s.len() - 1] == y);
            }
        }
        assert forall|y: (Seq<char>, Seq<char>)| s.contains(y) && y != x implies #[trigger] big.contains(
            y,
        ) by {
            let i = choose|i: int| 0 <= i < s.len() && s[i] == y;
            if i < t.len() {
                assert(t[i] == y);
                assert(t.contains(y));
                assert(w.contains(y));
                let j = choose|j: int| 0 <= j < w.len() && w[j] == y;
                assert(big[j] == y);
            } else {
                assert(big[big.len() - 1] == y);
            }
        }
    }
}

/// A copy of a list of items.
fn copy_items(v: &Vec<CartItem>) -> (r: Vec<CartItem>)
    ensures
        r@ == v@,
{
    let mut out: Vec<CartItem> = Vec::new();
    let n = v.len();
    let mut i: usize = 0;
    while i < n
        invariant
            n == v@.len(),
            i <= n,
            out@ == v@.take(i as int),
        decreases n - i,
    {
        out.push(v[i].duplicate());
        assert(v@.take(i as int + 1) =~= v@.take(i as int).push(v@[i as int]));
        i = i + 1;
    }
    assert(v@.take(n as int) =~= v@);
    out
}

impl Contract {
    /// Everything but the carts is as in `other`.
    pub open spec fn same_but_carts(&self, other: &Contract) -> bool {
        &&& self.owner_id == other.owner_id
        &&& self.sales == other.sales
        &&& self.by_owner_id == other.by_owner_id
        &&& self.by_nft_contract_id == other.by_nft_contract_id
        &&& self.storage_deposits == other.storage_deposits
        &&& self.admins == other.admins
        &&& self.edu_forms == other.edu_forms
        &&& self.edu_form_number == other.edu_form_number
    }

    /// The items in the cart of `user`.
    pub fn get_cart_items(&self, user: &String) -> (r: Vec<CartItem>)
        requires
            self.wf(),
        ensures
            items_view(r@) == cart_of(self.cart@, user@),
    {
        match self.cart.get(user) {
            Some(v) => copy_items(v),
            None => {
                assert(items_view(Seq::<CartItem>::empty()) =~= Seq::<(Seq<char>, Seq<char>)>::empty());
                Vec::new()
            },
        }
    }

    /// Puts `item` at the end of the cart of `user`.
    pub fn add_item(&mut self, user: String, item: CartItem)
        requires
            old(self).wf(),
        ensures
            final(self).wf(),
            old(self).market_inv() ==> final(self).market_inv(),
            carts_view(final(self).cart@) == carts_view(old(self).cart@).insert(
                user@,
                cart_of(old(self).cart@, user@).push(item@),
            ),
            cart_of(final(self).cart@, user@).last() == item@,
            final(self).same_but_carts(old(self)),
    {
        let ghost start = *self;
        let ghost before = carts_view(self.cart@);
        let ghost u = user@;
        let ghost it = item@;
        let mut items = match self.cart.get(&user) {
            Some(v) => copy_items(v),
            None => Vec::new(),
        };
        assert(items_view(items@) == cart_of(self.cart@, user@));
        items.push(item);
        assert(items_view(items@) =~= cart_of(old(self).cart@, u).push(it));
        self.cart.insert(user, items);
        proof {
            if start.market_inv() {
                law_untouched_market_keeps_invariant(&start, self);
            }
        }
        assert(carts_view(self.cart@) =~= before.insert(u, cart_of(old(self).cart@, u).push(it)));
    }

    /// Takes every copy of `item` out of the cart of `user`; the cart is
    /// recorded even when it ends up empty.
    pub fn remove_item(&mut self, user: String, item: CartItem)
        requires
            old(self).wf(),
        ensures
            final(self).wf(),
            old(self).market_inv() ==> final(self).market_inv(),
            carts_view(final(self).cart@) == carts_view(old(self).cart@).insert(
                user@,
                without_item(cart_of(old(self).cart@, user@), item@),
            ),
            !cart_of(final(self).cart@, user@).contains(item@),
            final(self).same_but_carts(old(self)),
    {
        let ghost start = *self;
        let ghost before = carts_view(self.cart@);
        let ghost u = user@;
        let ghost src = cart_of(self.cart@, user@);
        let mut kept: Vec<CartItem> = Vec::new();
        match self.cart.get(&user) {
            Some(v) => {
                let n = v.len();
                let mut i: usize = 0;
                while i < n
                    invariant
                        n == v@.len(),
                        i <= n,
                        src == items_view(v@),
                        items_view(kept@) == without_item(src.take(i as int), item@),
                    decreases n - i,
                {
                    assert(src.take(i as int + 1).drop_last() =~= src.take(i as int));
                    assert(src.take(i as int + 1).last() == v@[i as int]@);
                    if !v[i].same_as(&item) {
                        let ghost prev = kept@;
                        kept.push(v[i].duplicate());
                        assert(items_view(kept@) =~= items_view(prev).push(v@[i as int]@));
                    }
                    i = i + 1;
                }
                assert(src.take(n as int) =~= src);
            },
            None => {
                assert(items_view(kept@) =~= without_item(src, item@));
            },
        }
        let ghost kept_view = items_view(kept@);
        proof {
            lemma_without_item(src, item@);
        }
        self.cart.insert(user, kept);
        proof {
            if start.market_inv() {
                law_untouched_market_keeps_invariant(&start, self);
            }
        }
        assert(carts_view(self.cart@) =~= before.insert(u, kept_view));
    }

    /// Empties the cart of `user`.
    pub fn clear_cart(&mut self, user: &String)
        requires
            old(self).wf(),
        ensures
            final(self).wf(),
            old(self).market_inv() ==> final(self).market_inv(),
            final(self).cart@ == old(self).cart@.remove(user@),
            final(self).same_but_carts(old(self)),
    {
        let ghost start = *self;
        self.cart.remove(user);
        proof {
            if start.market_inv() {
                law_untouched_market_keeps_invariant(&start, self);
            }
        }
    }

    /// The total of the cart of `user`, which this market always reports
    /// as zero.
    pub fn get_cart_total(&self, user: &String) -> (r: u128)
        ensures
            r == 0,
    {
        0
    }
}

} // verus!
