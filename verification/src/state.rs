//! The state of the whole ledger and its mathematical model.

use std::collections::HashMap;
use vstd::prelude::*;
use crate::account_record::{spec_new_record, AccountRecord};
use crate::common::{AccountId, Duration, TokensAmount, UnixTimestamp};
use crate::id_map::{all_values, has_key, lemma_upsert, lookup, total, unique_keys, upsert, IdMap, Pairs};

verus! {

/// Why an operation was turned down. Nothing has changed when one comes back.
#[derive(Clone, Copy, Debug, PartialEq, Eq, Structural)]
pub enum ContractError {
    /// The caller is not one of the oracles.
    Unauthorized,
    /// The account is unknown, or its claim period has not passed yet.
    ClaimUnavailable,
    /// A claim of this account still awaits its transfer.
    AccountLocked,
    /// A burn still awaits its settlement.
    ServiceCallRunning,
}

impl ContractError {
    /// The words for this error.
    pub open spec fn spec_message(self) -> Seq<char> {
        match self {
            ContractError::Unauthorized => "Unauthorized access"@,
            ContractError::ClaimUnavailable => "Claim is not available at the moment"@,
            ContractError::AccountLocked => "Another operation is running"@,
            ContractError::ServiceCallRunning => "Another service call is running"@,
        }
    }

    /// The words for this error.
    pub fn message(&self) -> (text: &'static str)
        ensures
            text@ == self.spec_message(),
    {
        match self {
            ContractError::Unauthorized => "Unauthorized access",
            ContractError::ClaimUnavailable => "Claim is not available at the moment",
            ContractError::AccountLocked => "Another operation is running",
            ContractError::ServiceCallRunning => "Another service call is running",
        }
    }
}

/// Why a batch was not carried out to its end.
#[derive(Clone, Copy, Debug, PartialEq, Eq, Structural)]
pub enum BatchFault {
    /// The caller is not one of the oracles. Nothing has changed.
    Unauthorized,
    /// The entry at this place would have put the books out of order. The
    /// entries before it were carried out; this one and those after it were not.
    Inadmissible(usize),
}

/// The record of an account in the old encoding: pointers into the table of
/// accruals in place of a balance.
pub struct AccountRecordLegacy {
    /// For each accrual the time of its batch and its place in that batch.
    pub accruals: Vec<(UnixTimestamp, u32)>,
    /// True while a claim of this account awaits its transfer.
    pub is_locked: bool,
    /// When the account last claimed, or was created.
    pub claim_period_refreshed_at: UnixTimestamp,
}

/// One batch of the table of accruals of the old encoding.
pub struct AccrualBucket {
    /// The amounts credited in this batch, one per account.
    pub amounts: Vec<TokensAmount>,
    /// The sum that the batch was recorded with.
    pub total: TokensAmount,
}

/// The ledger: its settings, the accounts in both encodings, and what
/// awaits burning.
pub struct Contract {
    /// The token contract that transfers and burns are sent to.
    pub token_account_id: AccountId,
    /// The callers that may record, burn, clean and migrate.
    pub oracles: Vec<AccountId>,
    /// The least time between two claims of an account.
    pub claim_period: Duration,
    /// The longest time that an unclaimed balance lasts.
    pub burn_period: Duration,
    /// The table of accruals of the old encoding, by the time of the batch.
    pub accruals: HashMap<UnixTimestamp, AccrualBucket>,
    /// The accounts still held in the old encoding.
    pub accounts_legacy: IdMap<AccountRecordLegacy>,
    /// The accounts in the current encoding.
    pub accounts: IdMap<AccountRecord>,
    /// True while a burn awaits its settlement.
    pub is_service_call_running: bool,
    /// What has decayed and is not burned yet.
    pub balance_to_burn: TokensAmount,
}

/// The model of a `Contract`.
pub struct LedgerState {
    pub token_account_id: Seq<char>,
    pub oracles: Seq<Seq<char>>,
    pub claim_period: Duration,
    pub burn_period: Duration,
    pub accruals: Map<UnixTimestamp, AccrualBucket>,
    pub accounts_legacy: Pairs<AccountRecordLegacy>,
    pub accounts: Pairs<AccountRecord>,
    pub is_service_call_running: bool,
    pub balance_to_burn: TokensAmount,
}

/// The identifiers of `ids` as sequences of characters.
pub open spec fn id_views(ids: Seq<AccountId>) -> Seq<Seq<char>> {
    ids.map_values(|id: AccountId| id@)
}

/// The record of `id` among the current accounts, or the record that a
/// first touch at `now` creates.
pub open spec fn account_at(s: LedgerState, id: Seq<char>, now: UnixTimestamp) -> AccountRecord {
    match lookup(s.accounts, id) {
        Some(record) => record,
        None => spec_new_record(now),
    }
}

/// The weight by which the balances of the accounts are summed.
pub open spec fn balance_weight() -> spec_fn(AccountRecord) -> nat {
    |record: AccountRecord| record.balance as nat
}

/// All the tokens that the ledger answers for: the balances of the current
/// accounts and what awaits burning.
pub open spec fn total_funds(s: LedgerState) -> nat {
    total(s.accounts, balance_weight()) + s.balance_to_burn as nat
}

impl View for Contract {
    type V = LedgerState;

    open spec fn view(&self) -> LedgerState {
        LedgerState {
            token_account_id: self.token_account_id@,
            oracles: id_views(self.oracles@),
            claim_period: self.claim_period,
            burn_period: self.burn_period,
            accruals: self.accruals@,
            accounts_legacy: self.accounts_legacy@,
            accounts: self.accounts@,
            is_service_call_running: self.is_service_call_running,
            balance_to_burn: self.balance_to_burn,
        }
    }
}

/// The property of a record that its burn has not been taken further than
/// its last credit.
pub open spec fn record_in_order() -> spec_fn(AccountRecord) -> bool {
    |record: AccountRecord| record.in_order()
}

impl LedgerState {
    /// In every current account the burn has not been taken further than
    /// the last credit.
    pub open spec fn records_in_order(self) -> bool {
        all_values(self.accounts, record_in_order())
    }

    /// No account is held twice in either encoding.
    pub open spec fn wf(self) -> bool {
        unique_keys(self.accounts) && unique_keys(self.accounts_legacy)
    }

    /// `id` is one of the oracles.
    pub open spec fn is_oracle(self, id: Seq<char>) -> bool {
        self.oracles.contains(id)
    }
}

impl Contract {
    /// A ledger without accounts and with nothing to burn.
    pub fn init(token_account_id: AccountId, claim_period: Duration, burn_period: Duration) -> (contract: Contract)
        ensures
            contract@.token_account_id == token_account_id@,
            contract@.oracles.len() == 0,
            contract@.claim_period == claim_period,
            contract@.burn_period == burn_period,
            contract@.accruals == Map::<UnixTimestamp, AccrualBucket>::empty(),
            contract@.accounts_legacy.len() == 0,
            contract@.accounts.len() == 0,
            !contract@.is_service_call_running,
            contract@.balance_to_burn == 0,
    {
        Contract {
            token_account_id,
            oracles: Vec::new(),
            claim_period,
            burn_period,
            accruals: HashMap::new(),
            accounts_legacy: IdMap::new(),
            accounts: IdMap::new(),
            is_service_call_running: false,
            balance_to_burn: 0,
        }
    }

    /// The record of `account_id` in the current encoding; an account that
    /// is not held yet is created at `now`, with nothing credited.
    pub fn get_or_create_account(&mut self, account_id: &AccountId, now: UnixTimestamp) -> (record: AccountRecord)
        ensures
            record == account_at(old(self)@, account_id@, now),
            final(self)@ == (LedgerState {
                accounts: upsert(old(self)@.accounts, account_id@, record),
                ..old(self)@
            }),
            has_key(old(self)@.accounts, account_id@) ==> final(self)@ == old(self)@,
            lookup(final(self)@.accounts, account_id@) == Some(record),
    {
        proof {
            use_type_invariant(&self.accounts);
        }
        let record = match self.accounts.get(account_id) {
            Some(record) => *record,
            None => AccountRecord::new(now),
        };
        proof {
            lemma_upsert(self@.accounts, account_id@, record);
            if has_key(self@.accounts, account_id@) {
                assert(upsert(self@.accounts, account_id@, record) =~= self@.accounts);
            }
        }
        self.accounts.insert(account_id.clone(), record);
        record
    }

    /// Tells whether `id` is one of the oracles.
    pub fn is_oracle(&self, id: &AccountId) -> (privileged: bool)
        ensures
            privileged == self@.is_oracle(id@),
    {
        let mut i: usize = 0;
        while i < self.oracles.len()
            invariant
                i <= self.oracles.len(),
                forall|j: int| 0 <= j < i ==> #[trigger] id_views(self.oracles@)[j] != id@,
            decreases self.oracles.len() - i,
        {
            if self.oracles[i] == *id {
                assert(id_views(self.oracles@)[i as int] == id@);
                return true;
            }
            i += 1;
        }
        false
    }

    /// Makes `id` an oracle.
    pub fn add_oracle(&mut self, id: AccountId)
        ensures
            final(self)@ == (LedgerState { oracles: old(self)@.oracles.push(id@), ..old(self)@ }),
    {
        self.oracles.push(id);
        assert(id_views(self.oracles@) =~= id_views(old(self).oracles@).push(id@));
    }

    /// Sets the least time between two claims of an account.
    pub fn set_claim_period(&mut self, period: Duration)
        ensures
            final(self)@ == (LedgerState { claim_period: period, ..old(self)@ }),
    {
        self.claim_period = period;
    }

    /// Sets the longest time that an unclaimed balance lasts.
    pub fn set_burn_period(&mut self, period: Duration)
        ensures
            final(self)@ == (LedgerState { burn_period: period, ..old(self)@ }),
    {
        self.burn_period = period;
    }
}

} // verus!
