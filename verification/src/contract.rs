use vstd::prelude::*;
use crate::keyed_map::{KeyedMap, entry_keys, entry_vals};
use crate::string_set::{StringSet, seq_insert_new, seq_remove_swap};
use crate::invariants::law_deposit_change_keeps_invariant;
use crate::types::{Sale, CartItem, EduForm, ContractError, Transfer, STORAGE_PER_SALE};

verus! {

/// The views of the sets an index map holds.
pub open spec fn index_view(m: Map<Seq<char>, StringSet>) -> Map<Seq<char>, Seq<Seq<char>>> {
    m.map_values(|s: StringSet| s@)
}

/// An index map whose sets hold no element twice and are never empty.
pub open spec fn index_wf(m: KeyedMap<String, StringSet>) -> bool {
    &&& m.wf()
    &&& forall|k: Seq<char>| #[trigger] m@.contains_key(k) ==> m@[k].wf() && m@[k]@.len() > 0
}

/// The set under `k`, or the empty set.
pub open spec fn index_set(m: Map<Seq<char>, Seq<Seq<char>>>, k: Seq<char>) -> Seq<Seq<char>> {
    if m.contains_key(k) {
        m[k]
    } else {
        Seq::empty()
    }
}

/// Adding `x` to the set under `k` (an absent set counts as empty).
pub open spec fn index_add(m: Map<Seq<char>, Seq<Seq<char>>>, k: Seq<char>, x: Seq<char>) -> Map<
    Seq<char>,
    Seq<Seq<char>>,
> {
    m.insert(k, seq_insert_new(index_set(m, k), x))
}

/// Removing `x` from the set under `k` (which is present), and dropping the
/// set when it becomes empty.
pub open spec fn index_remove(m: Map<Seq<char>, Seq<Seq<char>>>, k: Seq<char>, x: Seq<char>) -> Map<
    Seq<char>,
    Seq<Seq<char>>,
> {
    let s = seq_remove_swap(m[k], x);
    if s.len() == 0 {
        m.remove(k)
    } else {
        m.insert(k, s)
    }
}

/// The balance recorded for `a`, or zero.
pub open spec fn balance_in(m: Map<Seq<char>, u128>, a: Seq<char>) -> u128 {
    if m.contains_key(a) {
        m[a]
    } else {
        0
    }
}

/// Views of a list of strings.
pub open spec fn strings(v: Seq<String>) -> Seq<Seq<char>> {
    v.map_values(|x: String| x@)
}

/// A stored index can be rebuilt: no key occurs twice, and every set is
/// non-empty with no element twice.
pub open spec fn index_restorable(v: Seq<(String, Vec<String>)>) -> bool {
    &&& entry_keys(v).no_duplicates()
    &&& forall|i: int|
        0 <= i < v.len() ==> strings(#[trigger] v[i].1@).no_duplicates() && v[i].1@.len() > 0
}

/// `m` holds the sets of `v`, in its order.
pub open spec fn index_restored(m: KeyedMap<String, StringSet>, v: Seq<(String, Vec<String>)>) -> bool {
    &&& m.key_seq() == entry_keys(v)
    &&& m.val_seq().len() == v.len()
    &&& forall|i: int| 0 <= i < v.len() ==> (#[trigger] m.val_seq()[i])@ == strings(v[i].1@)
}

/// Rebuilds an index from its stored entries.
fn index_from(v: Vec<(String, Vec<String>)>) -> (r: Option<KeyedMap<String, StringSet>>)
    ensures
        match r {
            Some(m) => index_wf(m) && index_restored(m, v@),
            None => !index_restorable(v@),
        },
{
    let ghost vs = v@;
    let mut rest = v;
    let mut sets: Vec<(String, StringSet)> = Vec::new();
    let ghost mut i: int = 0;
    while rest.len() > 0
        invariant
            vs == v@,
            0 <= i <= vs.len(),
            rest@ == vs.skip(i),
            sets@.len() == i,
            forall|j: int|
                0 <= j < i ==> (#[trigger] sets@[j]).0@ == vs[j].0@ && sets@[j].1.wf() && sets@[j].1@
                    == strings(vs[j].1@) && sets@[j].1@.len() > 0,
        decreases rest@.len(),
    {
        let (k, items) = rest.remove(0);
        assert(vs[i] == (k, items)) by {
            assert(vs.skip(i)[0] == vs[i]);
        }
        let set = match StringSet::from_vec(items) {
            Some(s) => s,
            None => return None,
        };
        if set.is_empty() {
            return None;
        }
        sets.push((k, set));
        proof {
            i = i + 1;
        }
        assert(rest@ =~= vs.skip(i));
    }
    assert(entry_keys(sets@) =~= entry_keys(vs));
    match KeyedMap::from_entries(sets) {
        None => None,
        Some(m) => {
            assert forall|k: Seq<char>| #[trigger] m@.contains_key(k) implies m@[k].wf()
                && m@[k]@.len() > 0 by {
                let idx = choose|idx: int| 0 <= idx < m.key_seq().len() && m.key_seq()[idx] == k;
                assert(m@[m.key_seq()[idx]] == m.val_seq()[idx]);
            }
            Some(m)
        },
    }
}

/// The state of the marketplace.
pub struct Contract {
    /// Owner of the contract.
    pub owner_id: String,
    /// Every sale, under its key `contract + "." + token`.
    pub sales: KeyedMap<String, Sale>,
    /// Sale keys, per owner account.
    pub by_owner_id: KeyedMap<String, StringSet>,
    /// Token ids for sale, per token contract.
    pub by_nft_contract_id: KeyedMap<String, StringSet>,
    /// Storage paid, per account.
    pub storage_deposits: KeyedMap<String, u128>,
    /// Administrators.
    pub admins: StringSet,
    /// Shopping carts, per user.
    pub cart: KeyedMap<String, Vec<CartItem>>,
    /// Education forms, per number.
    pub edu_forms: KeyedMap<u32, EduForm>,
    /// Number the next added form gets.
    pub edu_form_number: u32,
}

impl Contract {
    /// Every collection is well formed, and the index sets are never empty.
    pub open spec fn wf(&self) -> bool {
        &&& self.sales.wf()
        &&& index_wf(self.by_owner_id)
        &&& index_wf(self.by_nft_contract_id)
        &&& self.storage_deposits.wf()
        &&& self.admins.wf()
        &&& self.cart.wf()
        &&& self.edu_forms.wf()
    }

    /// Sale keys per owner account.
    pub open spec fn owner_index(&self) -> Map<Seq<char>, Seq<Seq<char>>> {
        index_view(self.by_owner_id@)
    }

    /// Token ids per token contract.
    pub open spec fn contract_index(&self) -> Map<Seq<char>, Seq<Seq<char>>> {
        index_view(self.by_nft_contract_id@)
    }

    /// Storage paid by `a`.
    pub open spec fn deposit_of(&self, a: Seq<char>) -> u128 {
        balance_in(self.storage_deposits@, a)
    }

    /// Number of sales `a` has listed.
    pub open spec fn supply_of(&self, a: Seq<char>) -> nat {
        index_set(self.owner_index(), a).len()
    }

    /// Everything but the storage deposits is as in `other`.
    pub open spec fn same_but_deposits(&self, other: &Contract) -> bool {
        &&& self.owner_id == other.owner_id
        &&& self.sales == other.sales
        &&& self.by_owner_id == other.by_owner_id
        &&& self.by_nft_contract_id == other.by_nft_contract_id
        &&& self.admins == other.admins
        &&& self.cart == other.cart
        &&& self.edu_forms == other.edu_forms
        &&& self.edu_form_number == other.edu_form_number
    }

    /// Everything but the sales and their indexes is as in `other`.
    pub open spec fn same_but_sales(&self, other: &Contract) -> bool {
        &&& self.owner_id == other.owner_id
        &&& self.storage_deposits == other.storage_deposits
        &&& self.admins == other.admins
        &&& self.cart == other.cart
        &&& self.edu_forms == other.edu_forms
        &&& self.edu_form_number == other.edu_form_number
    }

    /// A new marketplace owned by `owner_id`, with nothing listed.
    pub fn new(owner_id: String) -> (r: Contract)
        ensures
            r.wf(),
            r.owner_id == owner_id,
            r.sales@ == Map::<Seq<char>, Sale>::empty(),
            r.owner_index() == Map::<Seq<char>, Seq<Seq<char>>>::empty(),
            r.contract_index() == Map::<Seq<char>, Seq<Seq<char>>>::empty(),
            r.storage_deposits@ == Map::<Seq<char>, u128>::empty(),
            r.admins@ == Seq::<Seq<char>>::empty(),
            r.cart@ == Map::<Seq<char>, Vec<CartItem>>::empty(),
            r.edu_forms@ == Map::<u32, EduForm>::empty(),
            r.edu_forms.key_seq() == Seq::<u32>::empty(),
            r.edu_form_number == 0,
    {
        let r = Contract {
            owner_id,
            sales: KeyedMap::new(),
            by_owner_id: KeyedMap::new(),
            by_nft_contract_id: KeyedMap::new(),
            storage_deposits: KeyedMap::new(),
            admins: StringSet::new(),
            cart: KeyedMap::new(),
            edu_forms: KeyedMap::new(),
            edu_form_number: 0,
        };
        assert(r.owner_index() =~= Map::<Seq<char>, Seq<Seq<char>>>::empty());
        assert(r.contract_index() =~= Map::<Seq<char>, Seq<Seq<char>>>::empty());
        r
    }

    /// Rebuilds a market from its stored parts, each a list in the order it
    /// is kept; `None` when a key occurs twice in a map, an element twice in
    /// a set, or an index holds an empty set.
    pub fn restore(
        owner_id: String,
        sales: Vec<(String, Sale)>,
        by_owner_id: Vec<(String, Vec<String>)>,
        by_nft_contract_id: Vec<(String, Vec<String>)>,
        storage_deposits: Vec<(String, u128)>,
        admins: Vec<String>,
        cart: Vec<(String, Vec<CartItem>)>,
        edu_forms: Vec<(u32, EduForm)>,
        edu_form_number: u32,
    ) -> (r: Option<Contract>)
        ensures
            match r {
                Some(c) => {
                    &&& c.wf()
                    &&& c.owner_id == owner_id
                    &&& c.sales.key_seq() == entry_keys(sales@)
                    &&& c.sales.val_seq() == entry_vals(sales@)
                    &&& index_restored(c.by_owner_id, by_owner_id@)
                    &&& index_restored(c.by_nft_contract_id, by_nft_contract_id@)
                    &&& c.storage_deposits.key_seq() == entry_keys(storage_deposits@)
                    &&& c.storage_deposits.val_seq() == entry_vals(storage_deposits@)
                    &&& c.admins@ == strings(admins@)
                    &&& c.cart.key_seq() == entry_keys(cart@)
                    &&& c.cart.val_seq() == entry_vals(cart@)
                    &&& c.edu_forms.key_seq() == entry_keys(edu_forms@)
                    &&& c.edu_forms.val_seq() == entry_vals(edu_forms@)
                    &&& c.edu_form_number == edu_form_number
                },
                None => !{
                    &&& entry_keys(sales@).no_duplicates()
                    &&& index_restorable(by_owner_id@)
                    &&& index_restorable(by_nft_contract_id@)
                    &&& entry_keys(storage_deposits@).no_duplicates()
                    &&& strings(admins@).no_duplicates()
                    &&& entry_keys(cart@).no_duplicates()
                    &&& entry_keys(edu_forms@).no_duplicates()
                },
            },
    {
        let sales = match KeyedMap::from_entries(sales) {
            Some(m) => m,
            None => return None,
        };
        let by_owner_id = match index_from(by_owner_id) {
            Some(m) => m,
            None => return None,
        };
        let by_nft_contract_id = match index_from(by_nft_contract_id) {
            Some(m) => m,
            None => return None,
        };
        let storage_deposits = match KeyedMap::from_entries(storage_deposits) {
            Some(m) => m,
            None => return None,
        };
        let admins = match StringSet::from_vec(admins) {
            Some(s) => s,
            None => return None,
        };
        let cart = match KeyedMap::from_entries(cart) {
            Some(m) => m,
            None => return None,
        };
        let edu_forms = match KeyedMap::from_entries(edu_forms) {
            Some(m) => m,
            None => return None,
        };
        Some(
            Contract {
                owner_id,
                sales,
                by_owner_id,
                by_nft_contract_id,
                storage_deposits,
                admins,
                cart,
                edu_forms,
                edu_form_number,
            },
        )
    }

    /// Storage paid by `account_id`.
    pub fn storage_balance_of(&self, account_id: &String) -> (r: u128)
        requires
            self.wf(),
        ensures
            r == self.deposit_of(account_id@),
    {
        match self.storage_deposits.get(account_id) {
            Some(b) => *b,
            None => 0,
        }
    }

    /// Storage a seller must have paid per listed sale.
    pub fn storage_minimum_balance(&self) -> (r: u128)
        ensures
            r == STORAGE_PER_SALE,
    {
        STORAGE_PER_SALE
    }

    /// Number of sales `account_id` has listed.
    pub fn get_supply_by_owner_id(&self, account_id: &String) -> (r: u64)
        requires
            self.wf(),
        ensures
            r == self.supply_of(account_id@),
    {
        match self.by_owner_id.get(account_id) {
            Some(s) => {
                assert(self.owner_index()[account_id@] == s@);
                s.len() as u64
            },
            None => 0,
        }
    }

    /// Adds the attached `deposit` to the storage paid by `account_id`, or by
    /// the caller when no account is named. The deposit must cover at least
    /// one sale.
    pub fn storage_deposit(&mut self, account_id: Option<String>, predecessor: String, deposit: u128) -> (r: Result<(), ContractError>)
        requires
            old(self).wf(),
        ensures
            final(self).wf(),
            old(self).market_inv() ==> final(self).market_inv(),
            ({
                let who = match account_id {
                    Some(a) => a@,
                    None => predecessor@,
                };
                let before = old(self).deposit_of(who);
                &&& (r == Err::<(), ContractError>(ContractError::DepositBelowStorageMinimum)
                    <==> deposit < STORAGE_PER_SALE)
                &&& (r == Err::<(), ContractError>(ContractError::ArithmeticOverflow) <==> (deposit
                    >= STORAGE_PER_SALE && before + deposit > u128::MAX))
                &&& (r is Ok <==> (deposit >= STORAGE_PER_SALE && before + deposit <= u128::MAX))
                &&& r is Ok ==> final(self).storage_deposits@ == old(self).storage_deposits@.insert(
                    who,
                    (before + deposit) as u128,
                ) && final(self).same_but_deposits(old(self))
                &&& r is Ok ==> final(self).deposit_of(who) == before + deposit
                &&& r is Ok ==> forall|a: Seq<char>|
                    a != who ==> #[trigger] final(self).deposit_of(a) == old(self).deposit_of(a)
            }),
            r is Err ==> *final(self) == *old(self),
    {
        let who = match account_id {
            Some(a) => a,
            None => predecessor,
        };
        if deposit < STORAGE_PER_SALE {
            return Err(ContractError::DepositBelowStorageMinimum);
        }
        let balance = self.storage_balance_of(&who);
        let ghost start = *self;
        match balance.checked_add(deposit) {
            Some(total) => {
                let ghost w = who@;
                self.storage_deposits.insert(who, total);
                proof {
                    if start.market_inv() {
                        assert forall|a: Seq<char>| #[trigger] self.deposit_of(a) >= start.supply_of(
                            a,
                        ) * STORAGE_PER_SALE by {
                            assert(start.deposit_of(a) >= start.supply_of(a) * STORAGE_PER_SALE);
                            if a != w {
                                assert(self.deposit_of(a) == start.deposit_of(a));
                            }
                        }
                        law_deposit_change_keeps_invariant(&start, self);
                    }
                }
                Ok(())
            },
            None => Err(ContractError::ArithmeticOverflow),
        }
    }

    /// Gives the caller back what it paid for storage beyond what its listed
    /// sales use. Exactly one yoctoNEAR must be attached. The account keeps
    /// a balance of what its sales use, or none when they use nothing; the
    /// transfer of the excess, when there is one, is returned.
    pub fn storage_withdraw(&mut self, predecessor: String, attached_deposit: u128) -> (r: Result<Option<Transfer>, ContractError>)
        requires
            old(self).wf(),
        ensures
            final(self).wf(),
            old(self).market_inv() ==> final(self).market_inv(),
            old(self).market_inv() && attached_deposit == 1 ==> r is Ok,
            ({
                let paid = old(self).deposit_of(predecessor@);
                let used = old(self).supply_of(predecessor@) * STORAGE_PER_SALE;
                &&& (r == Err::<Option<Transfer>, ContractError>(ContractError::RequiresOneYocto)
                    <==> attached_deposit != 1)
                &&& (r == Err::<Option<Transfer>, ContractError>(ContractError::ArithmeticOverflow)
                    <==> (attached_deposit == 1 && (used > u128::MAX || paid < used)))
                &&& (r is Ok <==> (attached_deposit == 1 && used <= u128::MAX && paid >= used))
                &&& r is Ok ==> {
                    &&& final(self).same_but_deposits(old(self))
                    &&& final(self).storage_deposits@ == if used > 0 {
                        old(self).storage_deposits@.insert(predecessor@, used as u128)
                    } else {
                        old(self).storage_deposits@.remove(predecessor@)
                    }
                    &&& r->Ok_0 == if paid - used > 0 {
                        Some(Transfer { receiver_id: predecessor, amount: (paid - used) as u128 })
                    } else {
                        None::<Transfer>
                    }
                    &&& final(self).deposit_of(predecessor@) == used
                    &&& final(self).deposit_of(predecessor@) + match r->Ok_0 {
                        Some(t) => t.amount as int,
                        None => 0,
                    } == paid
                }
            }),
            r is Err ==> *final(self) == *old(self),
    {
        if attached_deposit != 1 {
            return Err(ContractError::RequiresOneYocto);
        }
        let paid = self.storage_balance_of(&predecessor);
        let len = self.get_supply_by_owner_id(&predecessor);
        proof {
            if self.market_inv() {
                assert(self.deposit_of(predecessor@) >= self.supply_of(predecessor@) * STORAGE_PER_SALE);
            }
        }
        let used = match (len as u128).checked_mul(STORAGE_PER_SALE) {
            Some(u) => u,
            None => return Err(ContractError::ArithmeticOverflow),
        };
        let excess = match paid.checked_sub(used) {
            Some(e) => e,
            None => return Err(ContractError::ArithmeticOverflow),
        };
        let ghost start = *self;
        let ghost p = predecessor@;
        self.storage_deposits.remove(&predecessor);
        let transfer = if excess > 0 {
            Some(Transfer { receiver_id: predecessor.clone(), amount: excess })
        } else {
            None
        };
        if used > 0 {
            self.storage_deposits.insert(predecessor, used);
        }
        proof {
            if start.market_inv() {
                assert forall|a: Seq<char>| #[trigger] self.deposit_of(a) >= start.supply_of(a)
                    * STORAGE_PER_SALE by {
                    assert(start.deposit_of(a) >= start.supply_of(a) * STORAGE_PER_SALE);
                    if a != p {
                        assert(self.deposit_of(a) == start.deposit_of(a));
                    }
                }
                law_deposit_change_keeps_invariant(&start, self);
            }
        }
        Ok(transfer)
    }
}

} // verus!
