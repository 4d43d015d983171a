use vstd::prelude::*;

use crate::error::OtoError;
use crate::ledger::{
    key_eq, lemma_find_idx_pointwise, lemma_find_idx_props, user_pred, Ledger, LedgerView,
};
use crate::states::{User, USER_ID_MAX_LEN};

verus! {

impl LedgerView {
    /// Outcome of creating a user record: the ledger must be bootstrapped,
    /// and derived addressing admits one record per identifier.
    pub open spec fn initialize_user_outcome(self, user_id: Vec<u8>) -> Result<(), OtoError> {
        if self.config is None {
            Err(OtoError::RecordNotFound)
        } else if self.user_index(user_id@) >= 0 {
            Err(OtoError::StructuralDuplicate)
        } else {
            Ok(())
        }
    }

    pub open spec fn initialize_user_next(self, user_id: Vec<u8>, owner: [u8; 32]) -> LedgerView {
        if self.initialize_user_outcome(user_id) is Ok {
            LedgerView {
                users: self.users.push(User { user_id, claimable_amount: 0, owner }),
                ..self
            }
        } else {
            self
        }
    }

    /// Outcome of an administrator crediting `delta` points to a user.
    pub open spec fn update_point_outcome(self, admin: [u8; 32], user_id: Vec<u8>, delta: u64) -> Result<
        (),
        OtoError,
    > {
        let i = self.user_index(user_id@);
        if self.config is None {
            Err(OtoError::RecordNotFound)
        } else if self.config->Some_0.admin@ != admin@ {
            Err(OtoError::AuthorizationMismatch)
        } else if i < 0 {
            Err(OtoError::RecordNotFound)
        } else if self.users[i].claimable_amount + delta > u64::MAX {
            Err(OtoError::ArithmeticOverflow)
        } else {
            Ok(())
        }
    }

    pub open spec fn update_point_next(self, admin: [u8; 32], user_id: Vec<u8>, delta: u64) -> LedgerView {
        if self.update_point_outcome(admin, user_id, delta) is Ok {
            let i = self.user_index(user_id@);
            let u = self.users[i];
            LedgerView {
                users: self.users.update(
                    i,
                    User { claimable_amount: (u.claimable_amount + delta) as u64, ..u },
                ),
                ..self
            }
        } else {
            self
        }
    }

    /// Outcome of a user's owner converting accrued points into minted
    /// token units.
    pub open spec fn claim_outcome(
        self,
        beneficiary: [u8; 32],
        user_id: Vec<u8>,
        claim_amount: u64,
    ) -> Result<(), OtoError> {
        let i = self.user_index(user_id@);
        if self.config is None {
            Err(OtoError::RecordNotFound)
        } else if i < 0 {
            Err(OtoError::RecordNotFound)
        } else if self.users[i].owner@ != beneficiary@ {
            Err(OtoError::AuthorizationMismatch)
        } else if claim_amount == 0 || claim_amount > self.users[i].claimable_amount {
            Err(OtoError::InsufficientClaimable)
        } else if self.wallet_credit_outcome(beneficiary, claim_amount) is Err {
            Err(OtoError::ArithmeticOverflow)
        } else {
            Ok(())
        }
    }

    pub open spec fn claim_next(
        self,
        beneficiary: [u8; 32],
        user_id: Vec<u8>,
        claim_amount: u64,
    ) -> LedgerView {
        if self.claim_outcome(beneficiary, user_id, claim_amount) is Ok {
            let i = self.user_index(user_id@);
            let u = self.users[i];
            let credited = self.wallet_credit_next(beneficiary, claim_amount);
            LedgerView {
                users: credited.users.update(
                    i,
                    User { claimable_amount: (u.claimable_amount - claim_amount) as u64, ..u },
                ),
                ..credited
            }
        } else {
            self
        }
    }

    /// Outcome of the administrator minting `amount` units directly to a
    /// beneficiary, outside the points flow.
    pub open spec fn mint_oto_outcome(self, payer: [u8; 32], beneficiary: [u8; 32], amount: u64) -> Result<
        (),
        OtoError,
    > {
        if self.config is None {
            Err(OtoError::RecordNotFound)
        } else if self.config->Some_0.admin@ != payer@ {
            Err(OtoError::AuthorizationMismatch)
        } else if amount == 0 {
            Err(OtoError::InsufficientClaimable)
        } else if self.wallet_credit_outcome(beneficiary, amount) is Err {
            Err(OtoError::ArithmeticOverflow)
        } else {
            Ok(())
        }
    }

    pub open spec fn mint_oto_next(self, payer: [u8; 32], beneficiary: [u8; 32], amount: u64) -> LedgerView {
        if self.mint_oto_outcome(payer, beneficiary, amount) is Ok {
            self.wallet_credit_next(beneficiary, amount)
        } else {
            self
        }
    }
}

impl Ledger {
    /// Create the points account for `user_id`, owned by `owner`, with no
    /// points accrued yet.
    pub fn initialize_user(&mut self, user_id: Vec<u8>, owner: &[u8; 32]) -> (r: Result<
        (),
        OtoError,
    >)
        requires
            old(self).wf(),
            user_id@.len() <= USER_ID_MAX_LEN,
        ensures
            final(self).wf(),
            r == old(self)@.initialize_user_outcome(user_id),
            final(self)@ == old(self)@.initialize_user_next(user_id, *owner),
            r is Err ==> final(self)@ == old(self)@,
    {
        let ghost pre = self@;
        if self.config.is_none() {
            return Err(OtoError::RecordNotFound);
        }
        if self.lookup_user(&user_id).is_some() {
            return Err(OtoError::StructuralDuplicate);
        }
        let u = User { user_id, claimable_amount: 0, owner: *owner };
        proof {
            lemma_find_idx_props(pre.users, user_pred(u.user_id@));
            assert(forall|j: int|
                0 <= j < pre.users.len() ==> !user_pred(u.user_id@)(#[trigger] pre.users[j]));
        }
        self.users.push(u);
        Ok(())
    }

    /// Administrator-only: add `delta` to a user's claimable points with
    /// checked arithmetic.
    pub fn update_point(&mut self, admin: &[u8; 32], user_id: &Vec<u8>, delta: u64) -> (r: Result<
        (),
        OtoError,
    >)
        requires
            old(self).wf(),
        ensures
            final(self).wf(),
            r == old(self)@.update_point_outcome(*admin, *user_id, delta),
            final(self)@ == old(self)@.update_point_next(*admin, *user_id, delta),
            r is Err ==> final(self)@ == old(self)@,
            r is Ok ==> {
                let i = old(self)@.user_index(user_id@);
                final(self)@.users[i].claimable_amount == old(self)@.users[i].claimable_amount
                    + delta
            },
    {
        let ghost pre = self@;
        let cfg_admin: [u8; 32] = match &self.config {
            Option::Some(c) => c.admin,
            Option::None => {
                return Err(OtoError::RecordNotFound);
            },
        };
        if !key_eq(&cfg_admin, admin) {
            return Err(OtoError::AuthorizationMismatch);
        }
        let i = match self.lookup_user(user_id) {
            Option::Some(i) => i,
            Option::None => {
                return Err(OtoError::RecordNotFound);
            },
        };
        let current = self.users[i].claimable_amount;
        if delta > u64::MAX - current {
            return Err(OtoError::ArithmeticOverflow);
        }
        self.users[i].claimable_amount = current + delta;
        proof {
            assert(self@.users[i as int].user_id@ == pre.users[i as int].user_id@);
            lemma_find_idx_pointwise(
                pre.users,
                user_pred(user_id@),
                self@.users,
                user_pred(user_id@),
            );
        }
        Ok(())
    }

    /// Convert `claim_amount` accrued points into minted token units paid
    /// to the user's owner; only that owner may claim.
    pub fn claim(&mut self, beneficiary: &[u8; 32], user_id: &Vec<u8>, claim_amount: u64) -> (r:
        Result<(), OtoError>)
        requires
            old(self).wf(),
        ensures
            final(self).wf(),
            r == old(self)@.claim_outcome(*beneficiary, *user_id, claim_amount),
            final(self)@ == old(self)@.claim_next(*beneficiary, *user_id, claim_amount),
            r is Err ==> final(self)@ == old(self)@,
            r is Ok ==> {
                let i = old(self)@.user_index(user_id@);
                &&& final(self)@.users[i].claimable_amount + claim_amount
                    == old(self)@.users[i].claimable_amount
                &&& final(self)@.balance_of(beneficiary@) == old(self)@.balance_of(beneficiary@)
                    + claim_amount
            },
    {
        let ghost pre = self@;
        if self.config.is_none() {
            return Err(OtoError::RecordNotFound);
        }
        let i = match self.lookup_user(user_id) {
            Option::Some(i) => i,
            Option::None => {
                return Err(OtoError::RecordNotFound);
            },
        };
        if !key_eq(&self.users[i].owner, beneficiary) {
            return Err(OtoError::AuthorizationMismatch);
        }
        let claimable = self.users[i].claimable_amount;
        if claim_amount == 0 || claim_amount > claimable {
            return Err(OtoError::InsufficientClaimable);
        }
        match self.credit_wallet(beneficiary, claim_amount) {
            Result::Err(e) => {
                return Err(e);
            },
            Result::Ok(()) => {},
        }
        let ghost credited = self@;
        self.users[i].claimable_amount = claimable - claim_amount;
        proof {
            assert(self@.users[i as int].user_id@ == pre.users[i as int].user_id@);
            lemma_find_idx_pointwise(
                pre.users,
                user_pred(user_id@),
                self@.users,
                user_pred(user_id@),
            );
            assert(credited.users == pre.users);
        }
        Ok(())
    }

    /// Administrator-only: mint `amount` units straight to `beneficiary`.
    pub fn mint_oto(&mut self, payer: &[u8; 32], beneficiary: &[u8; 32], amount: u64) -> (r: Result<
        (),
        OtoError,
    >)
        requires
            old(self).wf(),
        ensures
            final(self).wf(),
            r == old(self)@.mint_oto_outcome(*payer, *beneficiary, amount),
            final(self)@ == old(self)@.mint_oto_next(*payer, *beneficiary, amount),
            r is Err ==> final(self)@ == old(self)@,
    {
        let cfg_admin: [u8; 32] = match &self.config {
            Option::Some(c) => c.admin,
            Option::None => {
                return Err(OtoError::RecordNotFound);
            },
        };
        if !key_eq(&cfg_admin, payer) {
            return Err(OtoError::AuthorizationMismatch);
        }
        if amount == 0 {
            return Err(OtoError::InsufficientClaimable);
        }
        self.credit_wallet(beneficiary, amount)
    }
}

} // verus!
