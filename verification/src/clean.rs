//! Removing accounts and sweeping what they held into the aggregate that
//! awaits burning.

use vstd::prelude::*;
use crate::common::{AccountId, TokensAmount};
use crate::id_map::{erase, lemma_erase, lookup};
use crate::state::{BatchFault, Contract, ContractError, LedgerState};

verus! {

/// The balance that `id` holds in the current encoding, nothing where it is
/// not held there.
pub open spec fn residual_balance(s: LedgerState, id: Seq<char>) -> TokensAmount {
    match lookup(s.accounts, id) {
        Some(record) => record.balance,
        None => 0,
    }
}

/// The aggregate can take in what `id` holds.
pub open spec fn clean_fits(s: LedgerState, id: Seq<char>) -> bool {
    s.balance_to_burn + residual_balance(s, id) <= TokensAmount::MAX
}

/// The state after `id` was removed: its record in the old encoding is
/// dropped as it is, its current balance joins the aggregate that awaits
/// burning, and its current record is dropped.
///
/// What a record in the old encoding still stands for is not swept into the
/// aggregate. Whether such accounts are always drained by then, or whether
/// this loses tokens from the books, is an open question.
pub open spec fn clean_account(s: LedgerState, id: Seq<char>) -> LedgerState {
    LedgerState {
        accounts_legacy: erase(s.accounts_legacy, id),
        accounts: erase(s.accounts, id),
        balance_to_burn: (s.balance_to_burn + residual_balance(s, id)) as TokensAmount,
        ..s
    }
}

/// The aggregate can take in what the accounts of `ids` hold, one after
/// the other.
pub open spec fn clean_all_fits(s: LedgerState, ids: Seq<AccountId>) -> bool
    decreases ids.len(),
{
    ids.len() == 0 || (clean_fits(s, ids[0]@) && clean_all_fits(clean_account(s, ids[0]@), ids.drop_first()))
}

/// The state after the accounts of `ids` were removed in order.
pub open spec fn clean_all(s: LedgerState, ids: Seq<AccountId>) -> LedgerState
    decreases ids.len(),
{
    if ids.len() == 0 {
        s
    } else {
        clean_all(clean_account(s, ids[0]@), ids.drop_first())
    }
}

/// Removing `n + 1` accounts is removing the first `n` and then the one
/// at place `n`.
pub proof fn lemma_clean_all_step(s: LedgerState, ids: Seq<AccountId>, n: int)
    requires
        0 <= n < ids.len(),
    ensures
        clean_all(s, ids.take(n + 1)) == clean_account(clean_all(s, ids.take(n)), ids[n]@),
        clean_all_fits(s, ids.take(n + 1)) == (clean_all_fits(s, ids.take(n)) && clean_fits(
            clean_all(s, ids.take(n)),
            ids[n]@,
        )),
    decreases n,
{
    let whole = ids.take(n + 1);
    let next = clean_account(s, ids[0]@);
    assert(whole[0] == ids[0]);
    if n == 0 {
        assert(whole.drop_first() =~= ids.take(0));
        assert(ids.take(0).len() == 0);
        assert(clean_all(next, whole.drop_first()) == next);
        assert(clean_all_fits(next, whole.drop_first()));
        assert(clean_all(s, ids.take(0)) == s);
    } else {
        let rest = ids.drop_first();
        assert(whole.drop_first() =~= rest.take(n));
        assert(ids.take(n).drop_first() =~= rest.take(n - 1));
        lemma_clean_all_step(next, rest, n - 1);
    }
}

/// Where all accounts of a list can be removed, so can each of its
/// beginnings.
pub proof fn lemma_clean_all_prefix(s: LedgerState, ids: Seq<AccountId>, n: int)
    requires
        0 <= n <= ids.len(),
        clean_all_fits(s, ids),
    ensures
        clean_all_fits(s, ids.take(n)),
    decreases n,
{
    if n > 0 {
        assert(ids.take(n).drop_first() =~= ids.drop_first().take(n - 1));
        lemma_clean_all_prefix(clean_account(s, ids[0]@), ids.drop_first(), n - 1);
    }
}

impl Contract {
    /// Tells whether the aggregate can take in what `account_id` holds, so
    /// that `clean_one` may be called.
    pub fn can_clean(&self, account_id: &AccountId) -> (fits: bool)
        ensures
            fits == clean_fits(self@, account_id@),
    {
        match self.accounts.get(account_id) {
            Some(account) => self.balance_to_burn.checked_add(account.balance).is_some(),
            None => true,
        }
    }

    /// Removes the accounts of `account_ids`, in order, as far as the
    /// aggregate can take in what they hold.
    ///
    /// For a caller that is no oracle nothing changes. At the first account
    /// whose balance the aggregate cannot take in, the removal stops and
    /// names its place; the accounts before it stay removed.
    pub fn try_clean(&mut self, caller: &AccountId, account_ids: Vec<AccountId>) -> (result: Result<(), BatchFault>)
        ensures
            match result {
                Ok(_) => {
                    &&& old(self)@.is_oracle(caller@)
                    &&& clean_all_fits(old(self)@, account_ids@)
                    &&& final(self)@ == clean_all(old(self)@, account_ids@)
                },
                Err(BatchFault::Unauthorized) => {
                    &&& !old(self)@.is_oracle(caller@)
                    &&& final(self)@ == old(self)@
                },
                Err(BatchFault::Inadmissible(index)) => {
                    &&& old(self)@.is_oracle(caller@)
                    &&& index < account_ids@.len()
                    &&& clean_all_fits(old(self)@, account_ids@.take(index as int))
                    &&& final(self)@ == clean_all(old(self)@, account_ids@.take(index as int))
                    &&& !clean_fits(final(self)@, account_ids@[index as int]@)
                    &&& !clean_all_fits(old(self)@, account_ids@)
                },
            },
    {
        if !self.is_oracle(caller) {
            return Err(BatchFault::Unauthorized);
        }
        let mut i: usize = 0;
        while i < account_ids.len()
            invariant
                i <= account_ids.len(),
                old(self)@.is_oracle(caller@),
                clean_all_fits(old(self)@, account_ids@.take(i as int)),
                self@ == clean_all(old(self)@, account_ids@.take(i as int)),
            decreases account_ids.len() - i,
        {
            proof {
                lemma_clean_all_step(old(self)@, account_ids@, i as int);
            }
            if !self.can_clean(&account_ids[i]) {
                proof {
                    if clean_all_fits(old(self)@, account_ids@) {
                        lemma_clean_all_prefix(old(self)@, account_ids@, i + 1);
                    }
                }
                return Err(BatchFault::Inadmissible(i));
            }
            self.clean_one(&account_ids[i]);
            i += 1;
        }
        assert(account_ids@.take(i as int) =~= account_ids@);
        Ok(())
    }

    /// Removes one account.
    pub fn clean_one(&mut self, account_id: &AccountId)
        requires
            clean_fits(old(self)@, account_id@),
        ensures
            final(self)@ == clean_account(old(self)@, account_id@),
    {
        proof {
            use_type_invariant(&self.accounts);
            use_type_invariant(&self.accounts_legacy);
            lemma_erase(self@.accounts_legacy, account_id@);
            lemma_erase(self@.accounts, account_id@);
        }
        self.accounts_legacy.remove(account_id);
        if let Some(account) = self.accounts.remove(account_id) {
            self.balance_to_burn = self.balance_to_burn + account.balance;
        }
    }

    /// Removes the accounts of `account_ids`, in order. Only an oracle may
    /// clean; for another caller nothing changes.
    pub fn clean(&mut self, caller: &AccountId, account_ids: Vec<AccountId>) -> (result: Result<(), ContractError>)
        requires
            old(self)@.is_oracle(caller@) ==> clean_all_fits(old(self)@, account_ids@),
        ensures
            old(self)@.is_oracle(caller@) ==> result.is_ok() && final(self)@ == clean_all(
                old(self)@,
                account_ids@,
            ),
            !old(self)@.is_oracle(caller@) ==> result == Err::<(), ContractError>(
                ContractError::Unauthorized,
            ) && final(self)@ == old(self)@,
    {
        if !self.is_oracle(caller) {
            return Err(ContractError::Unauthorized);
        }
        assert(account_ids@.skip(0) =~= account_ids@);
        let mut i: usize = 0;
        while i < account_ids.len()
            invariant
                i <= account_ids.len(),
                clean_all_fits(self@, account_ids@.skip(i as int)),
                clean_all(self@, account_ids@.skip(i as int)) == clean_all(old(self)@, account_ids@),
            decreases account_ids.len() - i,
        {
            assert(account_ids@.skip(i as int).drop_first() =~= account_ids@.skip(i + 1));
            self.clean_one(&account_ids[i]);
            i += 1;
        }
        Ok(())
    }
}

} // verus!
