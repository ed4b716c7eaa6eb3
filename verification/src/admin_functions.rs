use vstd::prelude::*;
use crate::invariants::law_untouched_market_keeps_invariant;
use crate::contract::Contract;
use crate::string_set::{StringSet, seq_insert_new, seq_remove_swap, lemma_set_ops};
use crate::types::ContractError;

verus! {

/// Adding the accounts `xs` one after the other to the administrators `s`;
/// `None` when one of them already is one by then.
pub open spec fn add_all(s: Seq<Seq<char>>, xs: Seq<Seq<char>>) -> Option<Seq<Seq<char>>>
    decreases xs.len(),
{
    if xs.len() == 0 {
        Some(s)
    } else {
        match add_all(s, xs.drop_last()) {
            Some(t) => if t.contains(xs.last()) {
                None
            } else {
                Some(t.push(xs.last()))
            },
            None => None,
        }
    }
}

/// Removing the accounts `xs` one after the other from the administrators
/// `s`; `None` when one of them is not one by then.
pub open spec fn remove_all(s: Seq<Seq<char>>, xs: Seq<Seq<char>>) -> Option<Seq<Seq<char>>>
    decreases xs.len(),
{
    if xs.len() == 0 {
        Some(s)
    } else {
        match remove_all(s, xs.drop_last()) {
            Some(t) => if t.contains(xs.last()) {
                Some(seq_remove_swap(t, xs.last()))
            } else {
                None
            },
            None => None,
        }
    }
}

/// Views of a list of accounts.
pub open spec fn accounts(v: Seq<String>) -> Seq<Seq<char>> {
    v.map_values(|a: String| a@)
}

impl Contract {
    /// Everything but the administrators is as in `other`.
    pub open spec fn same_but_admins(&self, other: &Contract) -> bool {
        &&& self.owner_id == other.owner_id
        &&& self.sales == other.sales
        &&& self.by_owner_id == other.by_owner_id
        &&& self.by_nft_contract_id == other.by_nft_contract_id
        &&& self.storage_deposits == other.storage_deposits
        &&& self.cart == other.cart
        &&& self.edu_forms == other.edu_forms
        &&& self.edu_form_number == other.edu_form_number
    }

    /// The owner of the contract.
    pub fn view_owner(&self) -> (r: String)
        ensures
            r == self.owner_id,
    {
        self.owner_id.clone()
    }

    /// The administrators, in order.
    pub fn view_admins(&self) -> (r: Vec<String>)
        ensures
            accounts(r@) == self.admins@,
    {
        self.admins.to_vec()
    }

    /// Whether `admin` is an administrator.
    pub fn is_admin(&self, admin: &String) -> (r: bool)
        ensures
            r == self.admins@.contains(admin@),
    {
        self.admins.contains(admin)
    }

    /// Whether `owner` owns the contract.
    pub fn is_owner(&self, owner: &String) -> (r: bool)
        ensures
            r == (self.owner_id@ == owner@),
    {
        self.owner_id == *owner
    }

    /// Makes `admin` an administrator; only the owner may, and `admin` must
    /// not be one already.
    pub fn add_admin(&mut self, admin: String, signer: String) -> (r: Result<(), ContractError>)
        requires
            old(self).wf(),
        ensures
            final(self).wf(),
            old(self).market_inv() ==> final(self).market_inv(),
            r is Err ==> *final(self) == *old(self),
            if old(self).admins@.contains(admin@) {
                r == Err::<(), ContractError>(ContractError::AlreadyAdmin)
            } else if old(self).owner_id@ != signer@ {
                r == Err::<(), ContractError>(ContractError::OnlyOwnerCanAddAdmins)
            } else {
                &&& r is Ok
                &&& final(self).admins@ == old(self).admins@.push(admin@)
                &&& final(self).admins@.contains(admin@)
                &&& final(self).same_but_admins(old(self))
            },
    {
        let ghost start = *self;
        if self.admins.contains(&admin) {
            return Err(ContractError::AlreadyAdmin);
        }
        if self.owner_id != signer {
            return Err(ContractError::OnlyOwnerCanAddAdmins);
        }
        self.admins.insert(admin);
        proof {
            if start.market_inv() {
                law_untouched_market_keeps_invariant(&start, self);
            }
        }
        Ok(())
    }

    /// Takes `admin` off the administrators; only the owner may, and `admin`
    /// must be one. The last administrator takes its place.
    pub fn remove_admin(&mut self, admin: String, signer: String) -> (r: Result<(), ContractError>)
        requires
            old(self).wf(),
        ensures
            final(self).wf(),
            old(self).market_inv() ==> final(self).market_inv(),
            r is Err ==> *final(self) == *old(self),
            if !old(self).admins@.contains(admin@) {
                r == Err::<(), ContractError>(ContractError::NotAdmin)
            } else if old(self).owner_id@ != signer@ {
                r == Err::<(), ContractError>(ContractError::OnlyOwnerCanRemoveAdmins)
            } else {
                &&& r is Ok
                &&& final(self).admins@ == seq_remove_swap(old(self).admins@, admin@)
                &&& !final(self).admins@.contains(admin@)
                &&& final(self).same_but_admins(old(self))
            },
    {
        let ghost start = *self;
        if !self.admins.contains(&admin) {
            return Err(ContractError::NotAdmin);
        }
        if self.owner_id != signer {
            return Err(ContractError::OnlyOwnerCanRemoveAdmins);
        }
        self.admins.remove(&admin);
        proof {
            if start.market_inv() {
                law_untouched_market_keeps_invariant(&start, self);
            }
        }
        Ok(())
    }

    /// Makes each of `admins` an administrator, in order; only the owner
    /// may. Refused as a whole when one of them already is one by its turn.
    pub fn add_admins(&mut self, admins: Vec<String>, signer: String) -> (r: Result<(), ContractError>)
        requires
            old(self).wf(),
        ensures
            final(self).wf(),
            old(self).market_inv() ==> final(self).market_inv(),
            r is Err ==> *final(self) == *old(self),
            if old(self).owner_id@ != signer@ {
                r == Err::<(), ContractError>(ContractError::OnlyOwnerCanAddAdmins)
            } else {
                match add_all(old(self).admins@, accounts(admins@)) {
                    Some(s) => r is Ok && final(self).admins@ == s && final(self).same_but_admins(
                        old(self),
                    ),
                    None => r == Err::<(), ContractError>(ContractError::AlreadyAdmin),
                }
            },
    {
        let ghost start = *self;
        if self.owner_id != signer {
            return Err(ContractError::OnlyOwnerCanAddAdmins);
        }
        let ghost xs = accounts(admins@);
        let mut next: StringSet = self.admins.duplicate();
        let n = admins.len();
        let mut i: usize = 0;
        while i < n
            invariant
                *self == *old(self),
                self.wf(),
                self.owner_id@ == signer@,
                n == admins@.len(),
                xs == accounts(admins@),
                i <= n,
                next.wf(),
                add_all(self.admins@, xs.take(i as int)) == Some(next@),
            decreases n - i,
        {
            assert(xs.take(i as int + 1).drop_last() =~= xs.take(i as int));
            assert(xs.take(i as int + 1).last() == admins@[i as int]@);
            if next.contains(&admins[i]) {
                proof {
                    lemma_add_all_stuck(self.admins@, xs, i as int + 1);
                }
                return Err(ContractError::AlreadyAdmin);
            }
            proof {
                lemma_set_ops(next@, admins@[i as int]@);
            }
            next.insert(admins[i].clone());
            i = i + 1;
        }
        assert(xs.take(n as int) =~= xs);
        self.admins = next;
        proof {
            if start.market_inv() {
                law_untouched_market_keeps_invariant(&start, self);
            }
        }
        Ok(())
    }

    /// Takes each of `admins` off the administrators, in order; only the
    /// owner may. Refused as a whole when one of them is not one by its turn.
    pub fn remove_admins(&mut self, admins: Vec<String>, signer: String) -> (r: Result<(), ContractError>)
        requires
            old(self).wf(),
        ensures
            final(self).wf(),
            old(self).market_inv() ==> final(self).market_inv(),
            r is Err ==> *final(self) == *old(self),
            if old(self).owner_id@ != signer@ {
                r == Err::<(), ContractError>(ContractError::OnlyOwnerCanRemoveAdmins)
            } else {
                match remove_all(old(self).admins@, accounts(admins@)) {
                    Some(s) => r is Ok && final(self).admins@ == s && final(self).same_but_admins(
                        old(self),
                    ),
                    None => r == Err::<(), ContractError>(ContractError::NotAdmin),
                }
            },
    {
        let ghost start = *self;
        if self.owner_id != signer {
            return Err(ContractError::OnlyOwnerCanRemoveAdmins);
        }
        let ghost xs = accounts(admins@);
        let mut next: StringSet = self.admins.duplicate();
        let n = admins.len();
        let mut i: usize = 0;
        while i < n
            invariant
                *self == *old(self),
                self.wf(),
                self.owner_id@ == signer@,
                n == admins@.len(),
                xs == accounts(admins@),
                i <= n,
                next.wf(),
                remove_all(self.admins@, xs.take(i as int)) == Some(next@),
            decreases n - i,
        {
            assert(xs.take(i as int + 1).drop_last() =~= xs.take(i as int));
            assert(xs.take(i as int + 1).last() == admins@[i as int]@);
            if !next.contains(&admins[i]) {
                proof {
                    lemma_remove_all_stuck(self.admins@, xs, i as int + 1);
                }
                return Err(ContractError::NotAdmin);
            }
            proof {
                lemma_set_ops(next@, admins@[i as int]@);
            }
            next.remove(&admins[i]);
            i = i + 1;
        }
        assert(xs.take(n as int) =~= xs);
        self.admins = next;
        proof {
            if start.market_inv() {
                law_untouched_market_keeps_invariant(&start, self);
            }
        }
        Ok(())
    }

    /// Hands the contract over to `new_owner`; only the owner may.
    pub fn change_owner(&mut self, new_owner: String, signer: String) -> (r: Result<(), ContractError>)
        requires
            old(self).wf(),
        ensures
            final(self).wf(),
            old(self).market_inv() ==> final(self).market_inv(),
            r is Err ==> *final(self) == *old(self),
            if old(self).owner_id@ != signer@ {
                r == Err::<(), ContractError>(ContractError::OnlyOwnerCanChangeOwner)
            } else {
                &&& r is Ok
                &&& final(self).owner_id == new_owner
                &&& final(self).sales == old(self).sales
                &&& final(self).by_owner_id == old(self).by_owner_id
                &&& final(self).by_nft_contract_id == old(self).by_nft_contract_id
                &&& final(self).storage_deposits == old(self).storage_deposits
                &&& final(self).admins == old(self).admins
                &&& final(self).cart == old(self).cart
                &&& final(self).edu_forms == old(self).edu_forms
                &&& final(self).edu_form_number == old(self).edu_form_number
            },
    {
        let ghost start = *self;
        if self.owner_id != signer {
            return Err(ContractError::OnlyOwnerCanChangeOwner);
        }
        self.owner_id = new_owner;
        proof {
            if start.market_inv() {
                law_untouched_market_keeps_invariant(&start, self);
            }
        }
        Ok(())
    }
}

/// Adding a list of administrators keeps the earlier ones, makes each
/// listed account one, and lists no one twice.
pub proof fn law_add_admins_members(s: Seq<Seq<char>>, xs: Seq<Seq<char>>)
    requires
        s.no_duplicates(),
        add_all(s, xs) is Some,
    ensures
        add_all(s, xs)->Some_0.no_duplicates(),
        forall|y: Seq<char>| s.contains(y) ==> #[trigger] add_all(s, xs)->Some_0.contains(y),
        forall|i: int| 0 <= i < xs.len() ==> add_all(s, xs)->Some_0.contains(#[trigger] xs[i]),
    decreases xs.len(),
{
    if xs.len() > 0 {
        let p = xs.drop_last();
        law_add_admins_members(s, p);
        let t = add_all(s, p)->Some_0;
        lemma_set_ops(t, xs.last());
        assert(add_all(s, xs)->Some_0 == seq_insert_new(t, xs.last()));
        assert forall|i: int| 0 <= i < xs.len() implies add_all(s, xs)->Some_0.contains(
            #[trigger] xs[i],
        ) by {
            if i < xs.len() - 1 {
                assert(p[i] == xs[i]);
            }
        }
    }
}

/// Removing a list of administrators leaves none of the listed accounts an
/// administrator, and lists no one twice.
pub proof fn law_remove_admins_gone(s: Seq<Seq<char>>, xs: Seq<Seq<char>>)
    requires
        s.no_duplicates(),
        remove_all(s, xs) is Some,
    ensures
        remove_all(s, xs)->Some_0.no_duplicates(),
        forall|y: Seq<char>| #[trigger] remove_all(s, xs)->Some_0.contains(y) ==> s.contains(y),
        forall|i: int| 0 <= i < xs.len() ==> !remove_all(s, xs)->Some_0.contains(#[trigger] xs[i]),
    decreases xs.len(),
{
    if xs.len() > 0 {
        let p = xs.drop_last();
        law_remove_admins_gone(s, p);
        let t = remove_all(s, p)->Some_0;
        lemma_set_ops(t, xs.last());
        assert(remove_all(s, xs)->Some_0 == seq_remove_swap(t, xs.last()));
        assert forall|i: int| 0 <= i < xs.len() implies !remove_all(s, xs)->Some_0.contains(
            #[trigger] xs[i],
        ) by {
            if i < xs.len() - 1 {
                assert(p[i] == xs[i]);
            }
        }
    }
}

/// Removing a list of accounts succeeds exactly when the list names no
/// account twice and each is an administrator beforehand; then the
/// administrators afterwards are exactly those before that the list does not
/// name, one fewer for each listed account.
pub proof fn law_remove_admins_exact(s: Seq<Seq<char>>, xs: Seq<Seq<char>>)
    requires
        s.no_duplicates(),
    ensures
        (remove_all(s, xs) is Some) <==> (xs.no_duplicates() && forall|i: int|
            0 <= i < xs.len() ==> s.contains(#[trigger] xs[i])),
        remove_all(s, xs) is Some ==> forall|y: Seq<char>| #[trigger]
            remove_all(s, xs)->Some_0.contains(y) <==> (s.contains(y) && !xs.contains(y)),
        remove_all(s, xs) is Some ==> remove_all(s, xs)->Some_0.len() == s.len() - xs.len(),
    decreases xs.len(),
{
    if xs.len() == 0 {
        assert(xs.no_duplicates());
    } else {
        let p = xs.drop_last();
        let x = xs.last();
        law_remove_admins_exact(s, p);
        assert forall|y: Seq<char>| #[trigger] xs.contains(y) <==> (p.contains(y) || y == x) by {
            if xs.contains(y) {
                let a = choose|a: int| 0 <= a < xs.len() && xs[a] == y;
                if a < p.len() {
                    assert(p[a] == y);
                }
            }
            if p.contains(y) {
                let a = choose|a: int| 0 <= a < p.len() && p[a] == y;
                assert(xs[a] == y);
            }
            if y == x {
                assert(xs[xs.len() - 1] == y);
            }
        }
        let all_in = xs.no_duplicates() && forall|i: int| 0 <= i < xs.len() ==> s.contains(#[trigger] xs[i]);
        let p_in = p.no_duplicates() && forall|i: int| 0 <= i < p.len() ==> s.contains(#[trigger] p[i]);
        assert(all_in <==> (p_in && s.contains(x) && !p.contains(x))) by {
            if all_in {
                assert(s.contains(xs[xs.len() - 1]));
                assert forall|i: int| 0 <= i < p.len() implies s.contains(#[trigger] p[i]) by {
                    assert(xs[i] == p[i]);
                }
                assert forall|i: int, j: int| 0 <= i < p.len() && 0 <= j < p.len() && i != j
                    implies p[i] != p[j] by {
                    assert(xs[i] == p[i] && xs[j] == p[j]);
                }
                if p.contains(x) {
                    let a = choose|a: int| 0 <= a < p.len() && p[a] == x;
                    assert(xs[a] == xs[xs.len() - 1]);
                }
            }
            if p_in && s.contains(x) && !p.contains(x) {
                assert forall|i: int| 0 <= i < xs.len() implies s.contains(#[trigger] xs[i]) by {
                    if i < p.len() {
                        assert(xs[i] == p[i]);
                    }
                }
                assert forall|i: int, j: int| 0 <= i < xs.len() && 0 <= j < xs.len() && i != j
                    implies xs[i] != xs[j] by {
                    if i < p.len() && j < p.len() {
                        assert(xs[i] == p[i] && xs[j] == p[j]);
                    } else if i < p.len() {
                        assert(xs[i] == p[i]);
                        assert(p.contains(p[i]));
                    } else if j < p.len() {
                        assert(xs[j] == p[j]);
                        assert(p.contains(p[j]));
                    }
                }
            }
        }
        match remove_all(s, p) {
            Some(t) => {
                law_remove_admins_gone(s, p);
                lemma_set_ops(t, x);
                assert(t.contains(x) <==> (s.contains(x) && !p.contains(x)));
            },
            None => {},
        }
    }
}

/// Adding a list of accounts succeeds exactly when the list names no account
/// twice and none is an administrator beforehand; then the administrators
/// afterwards are exactly those before and those listed, one more for each
/// listed account.
pub proof fn law_add_admins_exact(s: Seq<Seq<char>>, xs: Seq<Seq<char>>)
    requires
        s.no_duplicates(),
    ensures
        (add_all(s, xs) is Some) <==> (xs.no_duplicates() && forall|i: int|
            0 <= i < xs.len() ==> !s.contains(#[trigger] xs[i])),
        add_all(s, xs) is Some ==> forall|y: Seq<char>| #[trigger]
            add_all(s, xs)->Some_0.contains(y) <==> (s.contains(y) || xs.contains(y)),
        add_all(s, xs) is Some ==> add_all(s, xs)->Some_0.len() == s.len() + xs.len(),
    decreases xs.len(),
{
    if xs.len() == 0 {
        assert(xs.no_duplicates());
    } else {
        let p = xs.drop_last();
        let x = xs.last();
        law_add_admins_exact(s, p);
        assert forall|y: Seq<char>| #[trigger] xs.contains(y) <==> (p.contains(y) || y == x) by {
            if xs.contains(y) {
                let a = choose|a: int| 0 <= a < xs.len() && xs[a] == y;
                if a < p.len() {
                    assert(p[a] == y);
                }
            }
            if p.contains(y) {
                let a = choose|a: int| 0 <= a < p.len() && p[a] == y;
                assert(xs[a] == y);
            }
            if y == x {
                assert(xs[xs.len() - 1] == y);
            }
        }
        let all_out = xs.no_duplicates() && forall|i: int| 0 <= i < xs.len() ==> !s.contains(#[trigger] xs[i]);
        let p_out = p.no_duplicates() && forall|i: int| 0 <= i < p.len() ==> !s.contains(#[trigger] p[i]);
        assert(all_out <==> (p_out && !s.contains(x) && !p.contains(x))) by {
            if all_out {
                assert(!s.contains(xs[xs.len() - 1]));
                assert forall|i: int| 0 <= i < p.len() implies !s.contains(#[trigger] p[i]) by {
                    assert(xs[i] == p[i]);
                }
                assert forall|i: int, j: int| 0 <= i < p.len() && 0 <= j < p.len() && i != j
                    implies p[i] != p[j] by {
                    assert(xs[i] == p[i] && xs[j] == p[j]);
                }
                if p.contains(x) {
                    let a = choose|a: int| 0 <= a < p.len() && p[a] == x;
                    assert(xs[a] == xs[xs.len() - 1]);
                }
            }
            if p_out && !s.contains(x) && !p.contains(x) {
                assert forall|i: int| 0 <= i < xs.len() implies !s.contains(#[trigger] xs[i]) by {
                    if i < p.len() {
                        assert(xs[i] == p[i]);
                    }
                }
                assert forall|i: int, j: int| 0 <= i < xs.len() && 0 <= j < xs.len() && i != j
                    implies xs[i] != xs[j] by {
                    if i < p.len() && j < p.len() {
                        assert(xs[i] == p[i] && xs[j] == p[j]);
                    } else if i < p.len() {
                        assert(xs[i] == p[i]);
                        assert(p.contains(p[i]));
                    } else if j < p.len() {
                        assert(xs[j] == p[j]);
                        assert(p.contains(p[j]));
                    }
                }
            }
        }
        match add_all(s, p) {
            Some(t) => {
                law_add_admins_members(s, p);
                lemma_set_ops(t, x);
                assert(t.contains(x) <==> (s.contains(x) || p.contains(x)));
            },
            None => {},
        }
    }
}

/// Once adding a prefix of the accounts fails, adding more of them fails too.
proof fn lemma_add_all_stuck(s: Seq<Seq<char>>, xs: Seq<Seq<char>>, k: int)
    requires
        0 <= k <= xs.len(),
        add_all(s, xs.take(k)) is None,
    ensures
        add_all(s, xs) is None,
    decreases xs.len() - k,
{
    if k < xs.len() {
        assert(xs.take(k + 1).drop_last() =~= xs.take(k));
        lemma_add_all_stuck(s, xs, k + 1);
    } else {
        assert(xs.take(k) =~= xs);
    }
}

/// Once removing a prefix of the accounts fails, removing more of them fails
/// too.
proof fn lemma_remove_all_stuck(s: Seq<Seq<char>>, xs: Seq<Seq<char>>, k: int)
    requires
        0 <= k <= xs.len(),
        remove_all(s, xs.take(k)) is None,
    ensures
        remove_all(s, xs) is None,
    decreases xs.len() - k,
{
    if k < xs.len() {
        assert(xs.take(k + 1).drop_last() =~= xs.take(k));
        lemma_remove_all_stuck(s, xs, k + 1);
    } else {
        assert(xs.take(k) =~= xs);
    }
}

} // verus!
