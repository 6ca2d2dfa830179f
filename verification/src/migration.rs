//! Bringing accounts and the whole state over from the old encoding.

use std::collections::HashMap;
use vstd::prelude::*;
use crate::account_record::AccountRecord;
use crate::common::{AccountId, Duration, TokensAmount, UnixTimestamp};
use crate::id_map::{erase, lemma_erase, lemma_upsert, lookup, upsert, IdMap};
use crate::state::{
    AccountRecordLegacy, AccrualBucket, BatchFault, Contract, ContractError, LedgerState,
};

verus! {

broadcast use vstd::std_specs::hash::group_hash_axioms;

/// The amount that the table of accruals holds at place `index` of the
/// batch of `datetime`; nothing where the batch or the place is gone.
pub open spec fn spec_accrued_amount(
    table: Map<UnixTimestamp, AccrualBucket>,
    datetime: UnixTimestamp,
    index: u32,
) -> TokensAmount {
    if table.contains_key(datetime) && index < table[datetime].amounts@.len() {
        table[datetime].amounts@[index as int]
    } else {
        0
    }
}

/// The sum of the amounts that the pointers `accruals` refer to.
pub open spec fn legacy_balance(
    table: Map<UnixTimestamp, AccrualBucket>,
    accruals: Seq<(UnixTimestamp, u32)>,
) -> nat
    decreases accruals.len(),
{
    if accruals.len() == 0 {
        0
    } else {
        legacy_balance(table, accruals.drop_last()) + spec_accrued_amount(
            table,
            accruals.last().0,
            accruals.last().1,
        ) as nat
    }
}

/// The latest time among the pointers `accruals`, zero where there is none.
pub open spec fn latest_accrual(accruals: Seq<(UnixTimestamp, u32)>) -> UnixTimestamp
    decreases accruals.len(),
{
    if accruals.len() == 0 {
        0
    } else {
        let before = latest_accrual(accruals.drop_last());
        if accruals.last().0 > before {
            accruals.last().0
        } else {
            before
        }
    }
}

/// The record in the current encoding that stands for `legacy`: its balance
/// is what its pointers refer to, it was last credited at its latest pointer,
/// and all decay up to then counts as taken, at a burn rate of zero. The
/// start of its claim period and its lock carry over.
pub open spec fn spec_migrated_record(
    table: Map<UnixTimestamp, AccrualBucket>,
    legacy: AccountRecordLegacy,
) -> AccountRecord {
    AccountRecord {
        balance: legacy_balance(table, legacy.accruals@) as TokensAmount,
        claim_period_refreshed_at: legacy.claim_period_refreshed_at,
        last_top_up_at: latest_accrual(legacy.accruals@),
        last_burn_at: latest_accrual(legacy.accruals@),
        burn_rate: 0,
        is_locked: legacy.is_locked,
    }
}

/// The balance of the old record of `id`, if there is one, fits an amount.
pub open spec fn migration_fits(s: LedgerState, id: Seq<char>) -> bool {
    match lookup(s.accounts_legacy, id) {
        Some(legacy) => legacy_balance(s.accruals, legacy.accruals@) <= TokensAmount::MAX,
        None => true,
    }
}

/// The state after the account `id` was brought over: its old record is
/// gone and the record that stands for it takes the place of any current
/// one. An account without an old record changes nothing.
pub open spec fn migrate_account(s: LedgerState, id: Seq<char>) -> LedgerState {
    match lookup(s.accounts_legacy, id) {
        Some(legacy) => LedgerState {
            accounts_legacy: erase(s.accounts_legacy, id),
            accounts: upsert(s.accounts, id, spec_migrated_record(s.accruals, legacy)),
            ..s
        },
        None => s,
    }
}

/// Every account of `ids` can be brought over, one after the other.
pub open spec fn migrate_all_fits(s: LedgerState, ids: Seq<AccountId>) -> bool
    decreases ids.len(),
{
    ids.len() == 0 || (migration_fits(s, ids[0]@) && migrate_all_fits(
        migrate_account(s, ids[0]@),
        ids.drop_first(),
    ))
}

/// The state after the accounts of `ids` were brought over in order.
pub open spec fn migrate_all(s: LedgerState, ids: Seq<AccountId>) -> LedgerState
    decreases ids.len(),
{
    if ids.len() == 0 {
        s
    } else {
        migrate_all(migrate_account(s, ids[0]@), ids.drop_first())
    }
}

/// The pointers seen so far never refer to more than all of them do.
pub proof fn lemma_legacy_balance_prefix(
    table: Map<UnixTimestamp, AccrualBucket>,
    accruals: Seq<(UnixTimestamp, u32)>,
    n: int,
)
    requires
        0 <= n <= accruals.len(),
    ensures
        legacy_balance(table, accruals.take(n)) <= legacy_balance(table, accruals),
    decreases accruals.len(),
{
    if n == accruals.len() {
        assert(accruals.take(n) =~= accruals);
    } else {
        assert(accruals.take(n) =~= accruals.drop_last().take(n));
        lemma_legacy_balance_prefix(table, accruals.drop_last(), n);
    }
}

/// Bringing an account over keeps the state well formed, and a second time
/// changes nothing more.
pub proof fn lemma_migrate_account(s: LedgerState, id: Seq<char>)
    requires
        s.wf(),
    ensures
        migrate_account(s, id).wf(),
        lookup(migrate_account(s, id).accounts_legacy, id).is_none(),
        migrate_account(migrate_account(s, id), id) == migrate_account(s, id),
{
    lemma_erase(s.accounts_legacy, id);
    match lookup(s.accounts_legacy, id) {
        Some(legacy) => {
            lemma_upsert(s.accounts, id, spec_migrated_record(s.accruals, legacy));
        },
        None => {},
    }
}

/// Bringing `n + 1` accounts over is bringing over the first `n` and then
/// the one at place `n`.
pub proof fn lemma_migrate_all_step(s: LedgerState, ids: Seq<AccountId>, n: int)
    requires
        0 <= n < ids.len(),
    ensures
        migrate_all(s, ids.take(n + 1)) == migrate_account(migrate_all(s, ids.take(n)), ids[n]@),
        migrate_all_fits(s, ids.take(n + 1)) == (migrate_all_fits(s, ids.take(n)) && migration_fits(
            migrate_all(s, ids.take(n)),
            ids[n]@,
        )),
    decreases n,
{
    let whole = ids.take(n + 1);
    let next = migrate_account(s, ids[0]@);
    assert(whole[0] == ids[0]);
    if n == 0 {
        assert(whole.drop_first() =~= ids.take(0));
        assert(ids.take(0).len() == 0);
        assert(migrate_all(next, whole.drop_first()) == next);
        assert(migrate_all_fits(next, whole.drop_first()));
        assert(migrate_all(s, ids.take(0)) == s);
    } else {
        let rest = ids.drop_first();
        assert(whole.drop_first() =~= rest.take(n));
        assert(ids.take(n).drop_first() =~= rest.take(n - 1));
        lemma_migrate_all_step(next, rest, n - 1);
    }
}

/// Where all accounts of a list can be brought over, so can each of its
/// beginnings.
pub proof fn lemma_migrate_all_prefix(s: LedgerState, ids: Seq<AccountId>, n: int)
    requires
        0 <= n <= ids.len(),
        migrate_all_fits(s, ids),
    ensures
        migrate_all_fits(s, ids.take(n)),
    decreases n,
{
    if n > 0 {
        assert(ids.take(n).drop_first() =~= ids.drop_first().take(n - 1));
        lemma_migrate_all_prefix(migrate_account(s, ids[0]@), ids.drop_first(), n - 1);
    }
}

/// The state under the schema that came before: the same settings and the
/// accounts in the old encoding only.
pub struct OldState {
    pub token_account_id: AccountId,
    pub oracles: Vec<AccountId>,
    pub claim_period: Duration,
    pub burn_period: Duration,
    pub accruals: HashMap<UnixTimestamp, AccrualBucket>,
    pub accounts: IdMap<AccountRecordLegacy>,
    pub is_service_call_running: bool,
}

impl Contract {
    /// Rebuilds the state from the one of the schema before: every field is
    /// taken over, the accounts stay in the old encoding, the map of current
    /// accounts starts empty and nothing awaits burning.
    pub fn migrate(old_state: OldState) -> (contract: Contract)
        ensures
            contract.token_account_id == old_state.token_account_id,
            contract.oracles == old_state.oracles,
            contract.claim_period == old_state.claim_period,
            contract.burn_period == old_state.burn_period,
            contract.accruals == old_state.accruals,
            contract.accounts_legacy == old_state.accounts,
            contract@.accounts.len() == 0,
            contract.is_service_call_running == old_state.is_service_call_running,
            contract.balance_to_burn == 0,
    {
        Contract {
            token_account_id: old_state.token_account_id,
            oracles: old_state.oracles,
            claim_period: old_state.claim_period,
            burn_period: old_state.burn_period,
            accruals: old_state.accruals,
            accounts_legacy: old_state.accounts,
            accounts: IdMap::new(),
            is_service_call_running: old_state.is_service_call_running,
            balance_to_burn: 0,
        }
    }

    /// The amount that the table of accruals holds at place `index` of the
    /// batch of `datetime`.
    pub fn accrued_amount(&self, datetime: UnixTimestamp, index: u32) -> (amount: TokensAmount)
        ensures
            amount == spec_accrued_amount(self@.accruals, datetime, index),
    {
        match self.accruals.get(&datetime) {
            Some(bucket) => {
                if (index as usize) < bucket.amounts.len() {
                    bucket.amounts[index as usize]
                } else {
                    0
                }
            },
            None => 0,
        }
    }

    /// The sum of the amounts that the pointers of `legacy` refer to, or
    /// none where it does not fit an amount.
    pub fn checked_legacy_balance(&self, legacy: &AccountRecordLegacy) -> (balance: Option<TokensAmount>)
        ensures
            match balance {
                Some(sum) => sum == legacy_balance(self@.accruals, legacy.accruals@),
                None => legacy_balance(self@.accruals, legacy.accruals@) > TokensAmount::MAX,
            },
    {
        let ghost table = self@.accruals;
        let ghost pointers = legacy.accruals@;
        let mut balance: TokensAmount = 0;
        let mut i: usize = 0;
        while i < legacy.accruals.len()
            invariant
                i <= legacy.accruals.len(),
                table == self@.accruals,
                pointers == legacy.accruals@,
                balance == legacy_balance(table, pointers.take(i as int)),
            decreases legacy.accruals.len() - i,
        {
            let (datetime, index) = legacy.accruals[i];
            let amount = self.accrued_amount(datetime, index);
            proof {
                assert(pointers.take(i + 1).drop_last() =~= pointers.take(i as int));
                lemma_legacy_balance_prefix(table, pointers, i + 1);
            }
            match balance.checked_add(amount) {
                Some(sum) => {
                    balance = sum;
                },
                None => {
                    return None;
                },
            }
            i += 1;
        }
        assert(pointers.take(i as int) =~= pointers);
        Some(balance)
    }

    /// Tells whether `account_id` can be brought over: whether the balance
    /// of its old record, if it has one, fits an amount.
    pub fn can_migrate(&self, account_id: &AccountId) -> (fits: bool)
        ensures
            fits == migration_fits(self@, account_id@),
    {
        match self.accounts_legacy.get(account_id) {
            Some(legacy) => self.checked_legacy_balance(legacy).is_some(),
            None => true,
        }
    }

    /// The record that `account_id` has once it is brought over from the old
    /// encoding, if it is known in either.
    pub fn peek_account(&self, account_id: &AccountId) -> (record: Option<AccountRecord>)
        requires
            migration_fits(self@, account_id@),
        ensures
            record == lookup(migrate_account(self@, account_id@).accounts, account_id@),
    {
        proof {
            use_type_invariant(&self.accounts);
        }
        match self.accounts_legacy.get(account_id) {
            Some(legacy) => {
                proof {
                    lemma_upsert(self@.accounts, account_id@, spec_migrated_record(self@.accruals, *legacy));
                }
                Some(self.migrated_record(legacy))
            },
            None => match self.accounts.get(account_id) {
                Some(record) => Some(*record),
                None => None,
            },
        }
    }

    /// The record in the current encoding that stands for `legacy`.
    pub fn migrated_record(&self, legacy: &AccountRecordLegacy) -> (record: AccountRecord)
        requires
            legacy_balance(self@.accruals, legacy.accruals@) <= TokensAmount::MAX,
        ensures
            record == spec_migrated_record(self@.accruals, *legacy),
    {
        let ghost table = self@.accruals;
        let ghost pointers = legacy.accruals@;
        let mut last_top_up_at: UnixTimestamp = 0;
        let mut balance: TokensAmount = 0;
        let mut i: usize = 0;
        while i < legacy.accruals.len()
            invariant
                i <= legacy.accruals.len(),
                table == self@.accruals,
                pointers == legacy.accruals@,
                legacy_balance(table, pointers) <= TokensAmount::MAX,
                last_top_up_at == latest_accrual(pointers.take(i as int)),
                balance == legacy_balance(table, pointers.take(i as int)),
            decreases legacy.accruals.len() - i,
        {
            let (datetime, index) = legacy.accruals[i];
            let amount = self.accrued_amount(datetime, index);
            proof {
                assert(pointers.take(i + 1).drop_last() =~= pointers.take(i as int));
                lemma_legacy_balance_prefix(table, pointers, i + 1);
            }
            if datetime > last_top_up_at {
                last_top_up_at = datetime;
            }
            balance = balance + amount;
            i += 1;
        }
        assert(pointers.take(i as int) =~= pointers);
        AccountRecord {
            balance,
            claim_period_refreshed_at: legacy.claim_period_refreshed_at,
            last_top_up_at,
            last_burn_at: last_top_up_at,
            burn_rate: 0,
            is_locked: legacy.is_locked,
        }
    }

    /// Brings the account `account_id` over from the old encoding, if it is
    /// still held there. Every operation that touches an account does this
    /// first.
    pub fn migrate_account_if_outdated(&mut self, account_id: &AccountId)
        requires
            migration_fits(old(self)@, account_id@),
        ensures
            final(self)@ == migrate_account(old(self)@, account_id@),
    {
        proof {
            use_type_invariant(&self.accounts);
            use_type_invariant(&self.accounts_legacy);
            lemma_migrate_account(self@, account_id@);
        }
        let Some(legacy) = self.accounts_legacy.remove(account_id) else {
            return ;
        };
        let record = self.migrated_record(&legacy);
        self.accounts.insert(account_id.clone(), record);
    }

    /// Brings the accounts of `accounts` over from the old encoding, in
    /// order. Only an oracle may ask for this.
    pub fn migrate_accounts(&mut self, caller: &AccountId, accounts: Vec<AccountId>) -> (result: Result<(), ContractError>)
        requires
            old(self)@.is_oracle(caller@) ==> migrate_all_fits(old(self)@, accounts@),
        ensures
            old(self)@.is_oracle(caller@) ==> result.is_ok() && final(self)@ == migrate_all(
                old(self)@,
                accounts@,
            ),
            !old(self)@.is_oracle(caller@) ==> result == Err::<(), ContractError>(
                ContractError::Unauthorized,
            ) && final(self)@ == old(self)@,
    {
        if !self.is_oracle(caller) {
            return Err(ContractError::Unauthorized);
        }
        assert(accounts@.skip(0) =~= accounts@);
        let mut i: usize = 0;
        while i < accounts.len()
            invariant
                i <= accounts.len(),
                migrate_all_fits(self@, accounts@.skip(i as int)),
                migrate_all(self@, accounts@.skip(i as int)) == migrate_all(old(self)@, accounts@),
            decreases accounts.len() - i,
        {
            assert(accounts@.skip(i as int).drop_first() =~= accounts@.skip(i + 1));
            self.migrate_account_if_outdated(&accounts[i]);
            i += 1;
        }
        Ok(())
    }

    /// Brings the accounts of `accounts` over from the old encoding, in
    /// order, as far as their balances fit an amount.
    ///
    /// For a caller that is no oracle nothing changes. At the first account
    /// whose balance does not fit, the work stops and names its place; the
    /// accounts before it stay brought over.
    pub fn try_migrate_accounts(&mut self, caller: &AccountId, accounts: Vec<AccountId>) -> (result: Result<(), BatchFault>)
        ensures
            match result {
                Ok(_) => {
                    &&& old(self)@.is_oracle(caller@)
                    &&& migrate_all_fits(old(self)@, accounts@)
                    &&& final(self)@ == migrate_all(old(self)@, accounts@)
                },
                Err(BatchFault::Unauthorized) => {
                    &&& !old(self)@.is_oracle(caller@)
                    &&& final(self)@ == old(self)@
                },
                Err(BatchFault::Inadmissible(index)) => {
                    &&& old(self)@.is_oracle(caller@)
                    &&& index < accounts@.len()
                    &&& migrate_all_fits(old(self)@, accounts@.take(index as int))
                    &&& final(self)@ == migrate_all(old(self)@, accounts@.take(index as int))
                    &&& !migration_fits(final(self)@, accounts@[index as int]@)
                    &&& !migrate_all_fits(old(self)@, accounts@)
                },
            },
    {
        if !self.is_oracle(caller) {
            return Err(BatchFault::Unauthorized);
        }
        let mut i: usize = 0;
        while i < accounts.len()
            invariant
                i <= accounts.len(),
                old(self)@.is_oracle(caller@),
                migrate_all_fits(old(self)@, accounts@.take(i as int)),
                self@ == migrate_all(old(self)@, accounts@.take(i as int)),
            decreases accounts.len() - i,
        {
            proof {
                lemma_migrate_all_step(old(self)@, accounts@, i as int);
            }
            if !self.can_migrate(&accounts[i]) {
                proof {
                    if migrate_all_fits(old(self)@, accounts@) {
                        lemma_migrate_all_prefix(old(self)@, accounts@, i + 1);
                    }
                }
                return Err(BatchFault::Inadmissible(i));
            }
            self.migrate_account_if_outdated(&accounts[i]);
            i += 1;
        }
        assert(accounts@.take(i as int) =~= accounts@);
        Ok(())
    }
}

} // verus!
