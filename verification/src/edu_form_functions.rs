use vstd::prelude::*;
use crate::invariants::law_untouched_market_keeps_invariant;
use crate::contract::Contract;
use crate::sale_views::{page, page_bounds, start_index, limit_count};
use crate::types::{EduForm, EduFormWithId, ContractError};

verus! {

/// Forms may be edited by the owner and by every administrator, wherever
/// it stands in the list of administrators, and by no one else.
pub proof fn law_form_editors(c: &Contract, signer: Seq<char>)
    ensures
        c.may_edit_forms(signer) <==> (c.owner_id@ == signer || exists|i: int|
            0 <= i < c.admins@.len() && c.admins@[i] == signer),
        forall|i: int| 0 <= i < c.admins@.len() ==> c.may_edit_forms(#[trigger] c.admins@[i]),
        c.may_edit_forms(c.owner_id@),
{
    assert forall|i: int| 0 <= i < c.admins@.len() implies c.may_edit_forms(
        #[trigger] c.admins@[i],
    ) by {
        assert(c.admins@.contains(c.admins@[i]));
    }
}

impl Contract {
    /// Everything but the forms is as in `other`.
    pub open spec fn same_but_forms(&self, other: &Contract) -> bool {
        &&& self.owner_id == other.owner_id
        &&& self.sales == other.sales
        &&& self.by_owner_id == other.by_owner_id
        &&& self.by_nft_contract_id == other.by_nft_contract_id
        &&& self.storage_deposits == other.storage_deposits
        &&& self.admins == other.admins
        &&& self.cart == other.cart
    }

    /// `signer` is an administrator or the owner.
    pub open spec fn may_edit_forms(&self, signer: Seq<char>) -> bool {
        self.admins@.contains(signer) || self.owner_id@ == signer
    }

    fn can_edit_forms(&self, signer: &String) -> (r: bool)
        ensures
            r == self.may_edit_forms(signer@),
    {
        self.admins.contains(signer) || self.owner_id == *signer
    }

    /// Stores `form` under the next form number, which then grows by one;
    /// only administrators or the owner may.
    pub fn add_form(&mut self, form: EduForm, signer: String) -> (r: Result<(), ContractError>)
        requires
            old(self).wf(),
        ensures
            final(self).wf(),
            old(self).market_inv() ==> final(self).market_inv(),
            r is Err ==> *final(self) == *old(self),
            if !old(self).may_edit_forms(signer@) {
                r == Err::<(), ContractError>(ContractError::OnlyAdminsOrOwnerCanAddForms)
            } else if old(self).edu_form_number == u32::MAX {
                r == Err::<(), ContractError>(ContractError::ArithmeticOverflow)
            } else {
                &&& r is Ok
                &&& final(self).edu_forms@ == old(self).edu_forms@.insert(
                    old(self).edu_form_number,
                    form,
                )
                &&& final(self).edu_forms.key_seq() == crate::string_set::seq_insert_new(
                    old(self).edu_forms.key_seq(),
                    old(self).edu_form_number,
                )
                &&& final(self).edu_form_number == old(self).edu_form_number + 1
                &&& final(self).same_but_forms(old(self))
            },
    {
        let ghost start = *self;
        if !self.can_edit_forms(&signer) {
            return Err(ContractError::OnlyAdminsOrOwnerCanAddForms);
        }
        let form_id = self.edu_form_number;
        if form_id == u32::MAX {
            return Err(ContractError::ArithmeticOverflow);
        }
        self.edu_forms.insert(form_id, form);
        self.edu_form_number = form_id + 1;
        proof {
            if start.market_inv() {
                law_untouched_market_keeps_invariant(&start, self);
            }
        }
        Ok(())
    }

    /// Removes the form numbered `form_id`, if any; only administrators or
    /// the owner may.
    pub fn remove_form(&mut self, form_id: u32, signer: String) -> (r: Result<(), ContractError>)
        requires
            old(self).wf(),
        ensures
            final(self).wf(),
            old(self).market_inv() ==> final(self).market_inv(),
            r is Err ==> *final(self) == *old(self),
            if !old(self).may_edit_forms(signer@) {
                r == Err::<(), ContractError>(ContractError::OnlyAdminsOrOwnerCanRemoveForms)
            } else {
                &&& r is Ok
                &&& final(self).edu_forms@ == old(self).edu_forms@.remove(form_id)
                &&& final(self).edu_forms.key_seq() == crate::string_set::seq_remove_swap(
                    old(self).edu_forms.key_seq(),
                    form_id,
                )
                &&& final(self).edu_form_number == old(self).edu_form_number
                &&& final(self).same_but_forms(old(self))
            },
    {
        let ghost start = *self;
        if !self.can_edit_forms(&signer) {
            return Err(ContractError::OnlyAdminsOrOwnerCanRemoveForms);
        }
        self.edu_forms.remove(&form_id);
        proof {
            if start.market_inv() {
                law_untouched_market_keeps_invariant(&start, self);
            }
        }
        Ok(())
    }

    /// Stores `form` under `form_id`, replacing any form there; only
    /// administrators or the owner may.
    pub fn update_form(&mut self, form_id: u32, form: EduForm, signer: String) -> (r: Result<(), ContractError>)
        requires
            old(self).wf(),
        ensures
            final(self).wf(),
            old(self).market_inv() ==> final(self).market_inv(),
            r is Err ==> *final(self) == *old(self),
            if !old(self).may_edit_forms(signer@) {
                r == Err::<(), ContractError>(ContractError::OnlyAdminsOrOwnerCanUpdateForms)
            } else {
                &&& r is Ok
                &&& final(self).edu_forms@ == old(self).edu_forms@.insert(form_id, form)
                &&& final(self).edu_forms.key_seq() == crate::string_set::seq_insert_new(
                    old(self).edu_forms.key_seq(),
                    form_id,
                )
                &&& final(self).edu_form_number == old(self).edu_form_number
                &&& final(self).same_but_forms(old(self))
            },
    {
        let ghost start = *self;
        if !self.can_edit_forms(&signer) {
            return Err(ContractError::OnlyAdminsOrOwnerCanUpdateForms);
        }
        self.edu_forms.insert(form_id, form);
        proof {
            if start.market_inv() {
                law_untouched_market_keeps_invariant(&start, self);
            }
        }
        Ok(())
    }

    /// Removes every form; only the owner may. The form number stays.
    pub fn remove_all_forms(&mut self, signer: String) -> (r: Result<(), ContractError>)
        requires
            old(self).wf(),
        ensures
            final(self).wf(),
            old(self).market_inv() ==> final(self).market_inv(),
            r is Err ==> *final(self) == *old(self),
            if old(self).owner_id@ != signer@ {
                r == Err::<(), ContractError>(ContractError::OnlyOwnerCanClearForms)
            } else {
                &&& r is Ok
                &&& final(self).edu_forms@ == Map::<u32, EduForm>::empty()
                &&& final(self).edu_forms.key_seq() == Seq::<u32>::empty()
                &&& final(self).edu_form_number == old(self).edu_form_number
                &&& final(self).same_but_forms(old(self))
            },
    {
        let ghost start = *self;
        if self.owner_id != signer {
            return Err(ContractError::OnlyOwnerCanClearForms);
        }
        self.edu_forms.clear();
        proof {
            if start.market_inv() {
                law_untouched_market_keeps_invariant(&start, self);
            }
        }
        Ok(())
    }

    /// Number of forms.
    pub fn get_forms_count(&self) -> (r: u64)
        requires
            self.wf(),
        ensures
            r == self.edu_forms.key_seq().len(),
    {
        self.edu_forms.len() as u64
    }

    /// The form numbered `form_id`.
    pub fn get_form_by_id(&self, form_id: u32) -> (r: Result<EduFormWithId, ContractError>)
        requires
            self.wf(),
        ensures
            match self.edu_forms@.get(form_id) {
                Some(f) => r == Ok::<EduFormWithId, ContractError>(EduFormWithId { id: form_id, form: f }),
                None => r == Err::<EduFormWithId, ContractError>(ContractError::FormNotFound),
            },
    {
        match self.edu_forms.get(&form_id) {
            Some(f) => Ok(EduFormWithId { id: form_id, form: f.duplicate() }),
            None => Err(ContractError::FormNotFound),
        }
    }

    /// A page of the forms in the order they are kept: it skips
    /// `from_index` (or 0) forms and takes at most `limit` (or 50).
    pub fn get_forms(&self, from_index: Option<u128>, limit: Option<u64>) -> (r: Vec<EduFormWithId>)
        requires
            self.wf(),
        ensures
            ({
                let ids = page(self.edu_forms.key_seq(), start_index(from_index), limit_count(limit, 50));
                &&& r@.len() == ids.len()
                &&& forall|i: int|
                    0 <= i < ids.len() ==> (#[trigger] r@[i]).id == ids[i] && r@[i].form
                        == self.edu_forms@[ids[i]]
            }),
    {
        let start = #[verifier::truncate] (from_index.unwrap_or(0) as usize);
        let take = #[verifier::truncate] (limit.unwrap_or(50) as usize);
        let (lo, hi) = page_bounds(self.edu_forms.len(), start, take);
        let ghost ids = self.edu_forms.key_seq().subrange(lo as int, hi as int);
        let mut out: Vec<EduFormWithId> = Vec::new();
        let mut i = lo;
        while i < hi
            invariant
                self.wf(),
                lo <= i <= hi <= self.edu_forms.key_seq().len(),
                ids == self.edu_forms.key_seq().subrange(lo as int, hi as int),
                out@.len() == i - lo,
                forall|j: int|
                    0 <= j < i - lo ==> (#[trigger] out@[j]).id == ids[j] && out@[j].form
                        == self.edu_forms@[ids[j]],
            decreases hi - i,
        {
            let id = *self.edu_forms.key_at(i);
            let form = self.edu_forms.val_at(i).duplicate();
            assert(self.edu_forms@[self.edu_forms.key_seq()[i as int]] == self.edu_forms.val_seq()[i as int]);
            out.push(EduFormWithId { id, form });
            i = i + 1;
        }
        out
    }
}

} // verus!
