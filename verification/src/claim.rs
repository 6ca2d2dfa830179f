//! Claims: what an account can claim, whether it may, and the two phases
//! of the settlement around the transfer.

use vstd::prelude::*;
use crate::account_record::{spec_effective_balance, AccountRecord};
use crate::common::{is_within_period, AccountId, Duration, TokensAmount, UnixTimestamp};
use crate::id_map::{lemma_upsert, lookup, upsert};
use crate::migration::{
    lemma_migrate_account, migrate_account, migration_fits, spec_accrued_amount,
};
use crate::state::{account_at, AccrualBucket, Contract, ContractError, LedgerState};

verus! {

/// Whether an account may claim.
#[derive(Clone, Copy, Debug, PartialEq, Eq)]
pub enum ClaimAvailabilityView {
    /// It may. For an account in the old encoding, the number of its accruals
    /// that have not decayed; zero otherwise.
    Available(u16),
    /// Its claim period, of the given length, began at the given time and
    /// has not passed.
    Unavailable((UnixTimestamp, Duration)),
    /// The account is not known.
    Unregistered,
}

/// What a claim came to: the amount handed out, or none where the transfer
/// failed.
#[derive(Clone, Copy, Debug, PartialEq, Eq, Structural)]
pub struct ClaimResultView {
    pub total: Option<TokensAmount>,
}

/// A transfer that a claim waits for.
#[derive(Clone, Copy, Debug, PartialEq, Eq, Structural)]
pub struct TransferRequest {
    /// The time of the claim.
    pub now: UnixTimestamp,
    /// The amount to hand to the account.
    pub amount_to_claim: TokensAmount,
    /// The decayed rest of the balance, to be burned once the transfer went
    /// through.
    pub amount_to_burn: TokensAmount,
}

/// How the first phase of a claim ended.
#[derive(Clone, Copy, Debug, PartialEq, Eq, Structural)]
pub enum ClaimStep {
    /// Nothing was held: the claim is over.
    Settled(ClaimResultView),
    /// The account is reserved and waits for this transfer; its outcome goes
    /// to `on_transfer_internal`.
    Suspended(TransferRequest),
}

/// A call of the token contract that hands `amount` to a claimant.
pub struct TransferCall {
    /// The token contract to call.
    pub token_account_id: AccountId,
    /// The account that receives the tokens.
    pub receiver_id: AccountId,
    /// The amount to hand out.
    pub amount: TokensAmount,
}

/// No pointer of `accruals` lies ahead of the clock.
pub open spec fn accruals_not_ahead(accruals: Seq<(UnixTimestamp, u32)>, now: UnixTimestamp) -> bool {
    forall|i: int| 0 <= i < accruals.len() ==> (#[trigger] accruals[i]).0 <= now
}

/// How many of the pointers `accruals` are younger than the burn period.
pub open spec fn claimable_count(
    accruals: Seq<(UnixTimestamp, u32)>,
    now: UnixTimestamp,
    burn_period: Duration,
) -> nat
    decreases accruals.len(),
{
    if accruals.len() == 0 {
        0
    } else {
        claimable_count(accruals.drop_last(), now, burn_period) + if now - accruals.last().0
            < burn_period {
            1nat
        } else {
            0nat
        }
    }
}

/// The sum of what the pointers of `accruals` that are younger than the
/// burn period refer to.
pub open spec fn claimable_legacy_balance(
    table: Map<UnixTimestamp, AccrualBucket>,
    accruals: Seq<(UnixTimestamp, u32)>,
    now: UnixTimestamp,
    burn_period: Duration,
) -> nat
    decreases accruals.len(),
{
    if accruals.len() == 0 {
        0
    } else {
        claimable_legacy_balance(table, accruals.drop_last(), now, burn_period) + if now
            - accruals.last().0 < burn_period {
            spec_accrued_amount(table, accruals.last().0, accruals.last().1) as nat
        } else {
            0nat
        }
    }
}

/// The question what `id` can claim at `now` has an answer: no timestamp
/// that it reads lies ahead of the clock, and the sum fits an amount.
pub open spec fn claimable_balance_defined(s: LedgerState, id: Seq<char>, now: UnixTimestamp) -> bool {
    match lookup(s.accounts_legacy, id) {
        Some(legacy) => accruals_not_ahead(legacy.accruals@, now) && claimable_legacy_balance(
            s.accruals,
            legacy.accruals@,
            now,
            s.burn_period,
        ) <= TokensAmount::MAX,
        None => match lookup(s.accounts, id) {
            Some(record) => record.claim_period_refreshed_at <= now,
            None => true,
        },
    }
}

/// What `id` can claim at `now`. An account in the old encoding can claim
/// its accruals that are younger than the burn period; one in the current
/// encoding what is left of its balance; an unknown one nothing.
pub open spec fn spec_claimable_balance(s: LedgerState, id: Seq<char>, now: UnixTimestamp) -> int {
    match lookup(s.accounts_legacy, id) {
        Some(legacy) => claimable_legacy_balance(s.accruals, legacy.accruals@, now, s.burn_period) as int,
        None => match lookup(s.accounts, id) {
            Some(record) => spec_effective_balance(record, now, s.burn_period),
            None => 0,
        },
    }
}

/// The question whether `id` may claim at `now` has an answer: no timestamp
/// that it reads lies ahead of the clock, and the count fits its type.
pub open spec fn claim_availability_defined(s: LedgerState, id: Seq<char>, now: UnixTimestamp) -> bool {
    match lookup(s.accounts, id) {
        Some(record) => record.claim_period_refreshed_at <= now,
        None => match lookup(s.accounts_legacy, id) {
            Some(legacy) => {
                &&& legacy.claim_period_refreshed_at <= now
                &&& now - legacy.claim_period_refreshed_at >= s.claim_period ==> {
                    &&& accruals_not_ahead(legacy.accruals@, now)
                    &&& claimable_count(legacy.accruals@, now, s.burn_period) <= u16::MAX
                }
            },
            None => true,
        },
    }
}

/// Whether `id` may claim at `now`: it may once its claim period has passed.
pub open spec fn spec_claim_availability(s: LedgerState, id: Seq<char>, now: UnixTimestamp) -> ClaimAvailabilityView {
    match lookup(s.accounts, id) {
        Some(record) => if now - record.claim_period_refreshed_at < s.claim_period {
            ClaimAvailabilityView::Unavailable((record.claim_period_refreshed_at, s.claim_period))
        } else {
            ClaimAvailabilityView::Available(0)
        },
        None => match lookup(s.accounts_legacy, id) {
            Some(legacy) => if now - legacy.claim_period_refreshed_at < s.claim_period {
                ClaimAvailabilityView::Unavailable((legacy.claim_period_refreshed_at, s.claim_period))
            } else {
                ClaimAvailabilityView::Available(
                    claimable_count(legacy.accruals@, now, s.burn_period) as u16,
                )
            },
            None => ClaimAvailabilityView::Unregistered,
        },
    }
}

/// A claim of `id` at `now` can be decided: the account can be brought
/// over, and the start of its claim period is not ahead of the clock.
pub open spec fn claim_defined(s: LedgerState, id: Seq<char>, now: UnixTimestamp) -> bool {
    migration_fits(s, id) && match lookup(migrate_account(s, id).accounts, id) {
        Some(record) => record.claim_period_refreshed_at <= now,
        None => true,
    }
}

/// How the first phase of a claim of `id` at `now` ends. It is turned down
/// for an unknown account, inside the claim period, and while an earlier
/// claim of the account awaits its transfer. It is over at once where
/// nothing is held. Otherwise it waits for the transfer of what is left of
/// the balance, and the decayed rest is set apart for burning.
pub open spec fn claim_outcome(s: LedgerState, id: Seq<char>, now: UnixTimestamp) -> Result<ClaimStep, ContractError> {
    match lookup(migrate_account(s, id).accounts, id) {
        None => Err(ContractError::ClaimUnavailable),
        Some(record) => if now - record.claim_period_refreshed_at < s.claim_period {
            Err(ContractError::ClaimUnavailable)
        } else if record.is_locked {
            Err(ContractError::AccountLocked)
        } else if record.balance == 0 {
            Ok(ClaimStep::Settled(ClaimResultView { total: Some(0) }))
        } else {
            let effective = spec_effective_balance(record, now, s.burn_period);
            Ok(
                ClaimStep::Suspended(
                    TransferRequest {
                        now,
                        amount_to_claim: effective as TokensAmount,
                        amount_to_burn: (record.balance - effective) as TokensAmount,
                    },
                ),
            )
        },
    }
}

/// The state after the first phase of a claim of `id` at `now`. A claim
/// that is turned down changes nothing. Otherwise the account is brought
/// over, and where it waits for a transfer it is locked and its balance is
/// taken out.
pub open spec fn claim_state(s: LedgerState, id: Seq<char>, now: UnixTimestamp) -> LedgerState {
    let migrated = migrate_account(s, id);
    match claim_outcome(s, id, now) {
        Err(_) => s,
        Ok(ClaimStep::Settled(_)) => migrated,
        Ok(ClaimStep::Suspended(_)) => LedgerState {
            accounts: upsert(
                migrated.accounts,
                id,
                AccountRecord { is_locked: true, balance: 0, ..lookup(migrated.accounts, id).unwrap() },
            ),
            ..migrated
        },
    }
}

/// The outcome of a transfer can be taken in: the sums fit an amount.
pub open spec fn transfer_outcome_fits(
    s: LedgerState,
    amount_to_claim: TokensAmount,
    amount_to_burn: TokensAmount,
    is_success: bool,
) -> bool {
    if is_success {
        s.balance_to_burn + amount_to_burn <= TokensAmount::MAX
    } else {
        amount_to_claim + amount_to_burn <= TokensAmount::MAX
    }
}

/// The state after the transfer of a claim of `id` ended. Either way the
/// account is unlocked; should it be gone, it is created at `current_time`.
/// After a success the decayed rest joins the aggregate that awaits burning
/// and the claim period starts at `now`, the time of the claim. After a
/// failure the account gets back all that the claim took out.
pub open spec fn transfer_settled(
    s: LedgerState,
    now: UnixTimestamp,
    id: Seq<char>,
    amount_to_claim: TokensAmount,
    amount_to_burn: TokensAmount,
    is_success: bool,
    current_time: UnixTimestamp,
) -> LedgerState {
    let record = account_at(s, id, current_time);
    if is_success {
        LedgerState {
            accounts: upsert(
                s.accounts,
                id,
                AccountRecord { is_locked: false, claim_period_refreshed_at: now, ..record },
            ),
            balance_to_burn: (s.balance_to_burn + amount_to_burn) as TokensAmount,
            ..s
        }
    } else {
        LedgerState {
            accounts: upsert(
                s.accounts,
                id,
                AccountRecord {
                    is_locked: false,
                    balance: (amount_to_claim + amount_to_burn) as TokensAmount,
                    ..record
                },
            ),
            ..s
        }
    }
}

/// What the caller of a claim is told once its transfer ended.
pub open spec fn transfer_result(amount_to_claim: TokensAmount, is_success: bool) -> ClaimResultView {
    if is_success {
        ClaimResultView { total: Some(amount_to_claim) }
    } else {
        ClaimResultView { total: None }
    }
}

/// The accruals seen so far never count for more than all of them do.
pub proof fn lemma_claimable_prefix(
    table: Map<UnixTimestamp, AccrualBucket>,
    accruals: Seq<(UnixTimestamp, u32)>,
    now: UnixTimestamp,
    burn_period: Duration,
    n: int,
)
    requires
        0 <= n <= accruals.len(),
    ensures
        claimable_legacy_balance(table, accruals.take(n), now, burn_period) <= claimable_legacy_balance(
            table,
            accruals,
            now,
            burn_period,
        ),
        claimable_count(accruals.take(n), now, burn_period) <= claimable_count(accruals, now, burn_period),
        claimable_count(accruals.take(n), now, burn_period) <= n,
    decreases accruals.len(),
{
    if n == accruals.len() {
        assert(accruals.take(n) =~= accruals);
        if n > 0 {
            lemma_claimable_prefix(table, accruals.drop_last(), now, burn_period, n - 1);
            assert(accruals.drop_last().take(n - 1) =~= accruals.drop_last());
        }
    } else {
        assert(accruals.take(n) =~= accruals.drop_last().take(n));
        lemma_claimable_prefix(table, accruals.drop_last(), now, burn_period, n);
    }
}

impl ClaimResultView {
    /// The result of a claim that handed out `total`, or none where the
    /// transfer failed.
    pub fn new(total: Option<TokensAmount>) -> (view: ClaimResultView)
        ensures
            view.total == total,
    {
        ClaimResultView { total }
    }
}

impl Contract {
    /// What `account_id` can claim at `now`.
    pub fn get_claimable_balance_for_account(&self, account_id: &AccountId, now: UnixTimestamp) -> (amount: TokensAmount)
        requires
            claimable_balance_defined(self@, account_id@, now),
        ensures
            amount == spec_claimable_balance(self@, account_id@, now),
    {
        if let Some(account) = self.accounts_legacy.get(account_id) {
            let ghost table = self@.accruals;
            let ghost pointers = account.accruals@;
            let burn_period = self.burn_period;
            let mut total_accrual: TokensAmount = 0;
            let mut i: usize = 0;
            while i < account.accruals.len()
                invariant
                    i <= account.accruals.len(),
                    table == self@.accruals,
                    pointers == account.accruals@,
                    burn_period == self.burn_period,
                    accruals_not_ahead(pointers, now),
                    claimable_legacy_balance(table, pointers, now, burn_period) <= TokensAmount::MAX,
                    total_accrual == claimable_legacy_balance(table, pointers.take(i as int), now, burn_period),
                decreases account.accruals.len() - i,
            {
                let (datetime, index) = account.accruals[i];
                proof {
                    assert(pointers[i as int].0 <= now);
                    assert(pointers.take(i + 1).drop_last() =~= pointers.take(i as int));
                    lemma_claimable_prefix(table, pointers, now, burn_period, i + 1);
                }
                if is_within_period(datetime, now, burn_period) {
                    let amount = self.accrued_amount(datetime, index);
                    total_accrual = total_accrual + amount;
                }
                i += 1;
            }
            assert(pointers.take(i as int) =~= pointers);
            return total_accrual;
        }
        if let Some(account) = self.accounts.get(account_id) {
            return account.get_effective_balance(now, self.burn_period);
        }
        0
    }

    /// Whether `account_id` may claim at `now`.
    pub fn is_claim_available(&self, account_id: &AccountId, now: UnixTimestamp) -> (availability: ClaimAvailabilityView)
        requires
            claim_availability_defined(self@, account_id@, now),
        ensures
            availability == spec_claim_availability(self@, account_id@, now),
    {
        if let Some(account) = self.accounts.get(account_id) {
            let claim_period_refreshed_at = account.claim_period_refreshed_at;
            return if is_within_period(claim_period_refreshed_at, now, self.claim_period) {
                ClaimAvailabilityView::Unavailable((claim_period_refreshed_at, self.claim_period))
            } else {
                ClaimAvailabilityView::Available(0)
            };
        }
        if let Some(account) = self.accounts_legacy.get(account_id) {
            let claim_period_refreshed_at = account.claim_period_refreshed_at;
            if is_within_period(claim_period_refreshed_at, now, self.claim_period) {
                return ClaimAvailabilityView::Unavailable((claim_period_refreshed_at, self.claim_period));
            }
            let ghost pointers = account.accruals@;
            let burn_period = self.burn_period;
            let mut count: usize = 0;
            let mut i: usize = 0;
            while i < account.accruals.len()
                invariant
                    i <= account.accruals.len(),
                    pointers == account.accruals@,
                    accruals_not_ahead(pointers, now),
                    count == claimable_count(pointers.take(i as int), now, burn_period),
                    count <= i,
                decreases account.accruals.len() - i,
            {
                let datetime = account.accruals[i].0;
                proof {
                    assert(pointers[i as int].0 <= now);
                    assert(pointers.take(i + 1).drop_last() =~= pointers.take(i as int));
                }
                if is_within_period(datetime, now, burn_period) {
                    count += 1;
                }
                i += 1;
            }
            assert(pointers.take(i as int) =~= pointers);
            return ClaimAvailabilityView::Available(count as u16);
        }
        ClaimAvailabilityView::Unregistered
    }

    /// Tells whether a claim of `account_id` at `now` can be decided, so that
    /// `claim` may be called.
    pub fn can_claim(&self, account_id: &AccountId, now: UnixTimestamp) -> (defined: bool)
        ensures
            defined == claim_defined(self@, account_id@, now),
    {
        if !self.can_migrate(account_id) {
            return false;
        }
        match self.peek_account(account_id) {
            Some(record) => record.claim_period_refreshed_at <= now,
            None => true,
        }
    }

    /// Tells whether the outcome of a transfer can be taken in, so that
    /// `on_transfer_internal` may be called.
    pub fn can_settle_transfer(
        &self,
        amount_to_claim: TokensAmount,
        amount_to_burn: TokensAmount,
        is_success: bool,
    ) -> (fits: bool)
        ensures
            fits == transfer_outcome_fits(self@, amount_to_claim, amount_to_burn, is_success),
    {
        if is_success {
            self.balance_to_burn.checked_add(amount_to_burn).is_some()
        } else {
            amount_to_claim.checked_add(amount_to_burn).is_some()
        }
    }

    /// Tells whether the question what `account_id` can claim at `now` has
    /// an answer, so that `get_claimable_balance_for_account` may be called.
    pub fn can_get_claimable_balance(&self, account_id: &AccountId, now: UnixTimestamp) -> (defined: bool)
        ensures
            defined == claimable_balance_defined(self@, account_id@, now),
    {
        if let Some(account) = self.accounts_legacy.get(account_id) {
            let ghost table = self@.accruals;
            let ghost pointers = account.accruals@;
            let burn_period = self.burn_period;
            let mut total_accrual: TokensAmount = 0;
            let mut i: usize = 0;
            while i < account.accruals.len()
                invariant
                    i <= account.accruals.len(),
                    table == self@.accruals,
                    pointers == account.accruals@,
                    burn_period == self.burn_period,
                    lookup(self@.accounts_legacy, account_id@) == Some(*account),
                    accruals_not_ahead(pointers.take(i as int), now),
                    total_accrual == claimable_legacy_balance(table, pointers.take(i as int), now, burn_period),
                decreases account.accruals.len() - i,
            {
                let (datetime, index) = account.accruals[i];
                if datetime > now {
                    assert(pointers[i as int].0 > now);
                    return false;
                }
                proof {
                    assert(pointers.take(i + 1).drop_last() =~= pointers.take(i as int));
                    lemma_claimable_prefix(table, pointers, now, burn_period, i + 1);
                    assert forall|j: int| 0 <= j < i + 1 implies (#[trigger] pointers.take(i + 1)[j]).0 <= now by {
                        if j < i {
                            assert(pointers.take(i as int)[j] == pointers.take(i + 1)[j]);
                        }
                    }
                }
                if is_within_period(datetime, now, burn_period) {
                    let amount = self.accrued_amount(datetime, index);
                    match total_accrual.checked_add(amount) {
                        Some(sum) => {
                            total_accrual = sum;
                        },
                        None => {
                            return false;
                        },
                    }
                }
                i += 1;
            }
            assert(pointers.take(i as int) =~= pointers);
            return true;
        }
        if let Some(account) = self.accounts.get(account_id) {
            return account.claim_period_refreshed_at <= now;
        }
        true
    }

    /// Tells whether the question whether `account_id` may claim at `now`
    /// has an answer, so that `is_claim_available` may be called.
    pub fn can_check_claim_availability(&self, account_id: &AccountId, now: UnixTimestamp) -> (defined: bool)
        ensures
            defined == claim_availability_defined(self@, account_id@, now),
    {
        if let Some(account) = self.accounts.get(account_id) {
            return account.claim_period_refreshed_at <= now;
        }
        if let Some(account) = self.accounts_legacy.get(account_id) {
            if account.claim_period_refreshed_at > now {
                return false;
            }
            if is_within_period(account.claim_period_refreshed_at, now, self.claim_period) {
                return true;
            }
            let ghost pointers = account.accruals@;
            let burn_period = self.burn_period;
            let mut count: usize = 0;
            let mut i: usize = 0;
            while i < account.accruals.len()
                invariant
                    i <= account.accruals.len(),
                    pointers == account.accruals@,
                    burn_period == self.burn_period,
                    lookup(self@.accounts, account_id@).is_none(),
                    lookup(self@.accounts_legacy, account_id@) == Some(*account),
                    account.claim_period_refreshed_at <= now,
                    now - account.claim_period_refreshed_at >= self.claim_period,
                    accruals_not_ahead(pointers.take(i as int), now),
                    count == claimable_count(pointers.take(i as int), now, burn_period),
                    count <= i,
                decreases account.accruals.len() - i,
            {
                let datetime = account.accruals[i].0;
                if datetime > now {
                    assert(pointers[i as int].0 > now);
                    return false;
                }
                proof {
                    assert(pointers.take(i + 1).drop_last() =~= pointers.take(i as int));
                    assert forall|j: int| 0 <= j < i + 1 implies (#[trigger] pointers.take(i + 1)[j]).0 <= now by {
                        if j < i {
                            assert(pointers.take(i as int)[j] == pointers.take(i + 1)[j]);
                        }
                    }
                }
                if is_within_period(datetime, now, burn_period) {
                    count += 1;
                }
                i += 1;
            }
            assert(pointers.take(i as int) =~= pointers);
            return count <= 0xffff;
        }
        true
    }

    /// The first phase of a claim of `account_id` at `now`.
    ///
    /// The claim is turned down, and nothing changes, for an unknown account,
    /// inside the claim period, and while an earlier claim of the account
    /// awaits its transfer. Where nothing is held the claim is over at once.
    /// Otherwise the account is locked, its balance is taken out, and the
    /// caller is told what to transfer; the outcome of that transfer goes to
    /// `on_transfer_internal`.
    pub fn claim(&mut self, account_id: &AccountId, now: UnixTimestamp) -> (result: Result<ClaimStep, ContractError>)
        requires
            claim_defined(old(self)@, account_id@, now),
        ensures
            result == claim_outcome(old(self)@, account_id@, now),
            final(self)@ == claim_state(old(self)@, account_id@, now),
    {
        let Some(account_data) = self.peek_account(account_id) else {
            return Err(ContractError::ClaimUnavailable);
        };
        if is_within_period(account_data.claim_period_refreshed_at, now, self.claim_period) {
            return Err(ContractError::ClaimUnavailable);
        }
        if account_data.is_locked {
            return Err(ContractError::AccountLocked);
        }
        self.migrate_account_if_outdated(account_id);
        proof {
            use_type_invariant(&self.accounts);
        }
        if account_data.balance > 0 {
            let amount_to_claim = account_data.get_effective_balance(now, self.burn_period);
            let amount_to_burn = account_data.balance - amount_to_claim;
            let reserved = AccountRecord { is_locked: true, balance: 0, ..account_data };
            proof {
                lemma_upsert(self@.accounts, account_id@, reserved);
            }
            self.accounts.insert(account_id.clone(), reserved);
            Ok(ClaimStep::Suspended(TransferRequest { now, amount_to_claim, amount_to_burn }))
        } else {
            Ok(ClaimStep::Settled(ClaimResultView::new(Some(0))))
        }
    }

    /// The call of the token contract that a waiting claim of `account_id`
    /// asks for. Where nothing is left to hand out there is none, and the
    /// claim is settled as after a transfer that went through.
    pub fn transfer_external(&self, account_id: &AccountId, request: TransferRequest) -> (call: Option<TransferCall>)
        ensures
            match call {
                Some(transfer) => {
                    &&& request.amount_to_claim > 0
                    &&& transfer.token_account_id@ == self@.token_account_id
                    &&& transfer.receiver_id@ == account_id@
                    &&& transfer.amount == request.amount_to_claim
                },
                None => request.amount_to_claim == 0,
            },
    {
        if request.amount_to_claim > 0 {
            Some(
                TransferCall {
                    token_account_id: self.token_account_id.clone(),
                    receiver_id: account_id.clone(),
                    amount: request.amount_to_claim,
                },
            )
        } else {
            None
        }
    }

    /// The second phase of a claim: takes in how the transfer ended.
    ///
    /// Either way the account is unlocked. After a success the decayed rest
    /// joins the aggregate that awaits burning, the claim period starts at
    /// `now`, the time of the claim, and the claimed amount is reported.
    /// After a failure the account gets its balance back and no amount is
    /// reported. `current_time` is the clock now; it is read only where the
    /// account is gone and is created anew.
    pub fn on_transfer_internal(
        &mut self,
        now: UnixTimestamp,
        account_id: &AccountId,
        amount_to_claim: TokensAmount,
        amount_to_burn: TokensAmount,
        is_success: bool,
        current_time: UnixTimestamp,
    ) -> (view: ClaimResultView)
        requires
            transfer_outcome_fits(old(self)@, amount_to_claim, amount_to_burn, is_success),
        ensures
            final(self)@ == transfer_settled(
                old(self)@,
                now,
                account_id@,
                amount_to_claim,
                amount_to_burn,
                is_success,
                current_time,
            ),
            view == transfer_result(amount_to_claim, is_success),
    {
        proof {
            use_type_invariant(&self.accounts);
        }
        let mut account = match self.accounts.get(account_id) {
            Some(record) => *record,
            None => AccountRecord::new(current_time),
        };
        account.is_locked = false;
        if !is_success {
            account.balance = amount_to_claim + amount_to_burn;
            proof {
                lemma_upsert(self@.accounts, account_id@, account);
            }
            self.accounts.insert(account_id.clone(), account);
            return ClaimResultView::new(None);
        }
        self.balance_to_burn = self.balance_to_burn + amount_to_burn;
        account.claim_period_refreshed_at = now;
        proof {
            lemma_upsert(self@.accounts, account_id@, account);
        }
        self.accounts.insert(account_id.clone(), account);
        ClaimResultView::new(Some(amount_to_claim))
    }
}

/// A failed transfer undoes the claim: the account has the record again
/// that it had when the claim began, the balance to the last token, and the
/// aggregate that awaits burning is untouched.
pub proof fn lemma_failed_transfer_restores(
    s: LedgerState,
    id: Seq<char>,
    now: UnixTimestamp,
    request: TransferRequest,
    current_time: UnixTimestamp,
)
    requires
        s.wf(),
        claim_defined(s, id, now),
        claim_outcome(s, id, now) == Ok::<ClaimStep, ContractError>(ClaimStep::Suspended(request)),
    ensures
        ({
            let undone = transfer_settled(
                claim_state(s, id, now),
                request.now,
                id,
                request.amount_to_claim,
                request.amount_to_burn,
                false,
                current_time,
            );
            &&& lookup(undone.accounts, id) == lookup(migrate_account(s, id).accounts, id)
            &&& undone.balance_to_burn == s.balance_to_burn
            &&& transfer_outcome_fits(
                claim_state(s, id, now),
                request.amount_to_claim,
                request.amount_to_burn,
                false,
            )
        }),
{
    let migrated = migrate_account(s, id);
    lemma_migrate_account(s, id);
    let record = lookup(migrated.accounts, id).unwrap();
    crate::account_record::lemma_kept_bounds(record, now, s.burn_period);
    let reserved = AccountRecord { is_locked: true, balance: 0, ..record };
    lemma_upsert(migrated.accounts, id, reserved);
    let locked = claim_state(s, id, now);
    lemma_upsert(locked.accounts, id, record);
}

/// However the transfer ended, the account is unlocked afterwards: no
/// failure leaves a lock behind.
pub proof fn lemma_settlement_clears_lock(
    s: LedgerState,
    now: UnixTimestamp,
    id: Seq<char>,
    amount_to_claim: TokensAmount,
    amount_to_burn: TokensAmount,
    is_success: bool,
    current_time: UnixTimestamp,
)
    requires
        s.wf(),
    ensures
        ({
            let settled = transfer_settled(s, now, id, amount_to_claim, amount_to_burn, is_success, current_time);
            &&& lookup(settled.accounts, id).is_some()
            &&& !lookup(settled.accounts, id).unwrap().is_locked
            &&& forall|other: Seq<char>| other != id ==> #[trigger] lookup(settled.accounts, other) == lookup(s.accounts, other)
        }),
{
    let record = account_at(s, id, current_time);
    lemma_upsert(
        s.accounts,
        id,
        AccountRecord { is_locked: false, claim_period_refreshed_at: now, ..record },
    );
    lemma_upsert(
        s.accounts,
        id,
        AccountRecord {
            is_locked: false,
            balance: (amount_to_claim + amount_to_burn) as TokensAmount,
            ..record
        },
    );
}

/// While a claim of an account awaits its transfer, another claim of that
/// account is turned down, whenever it comes, and changes nothing.
pub proof fn lemma_locked_account_rejects_claim(
    s: LedgerState,
    id: Seq<char>,
    now: UnixTimestamp,
    request: TransferRequest,
    later: UnixTimestamp,
)
    requires
        s.wf(),
        claim_outcome(s, id, now) == Ok::<ClaimStep, ContractError>(ClaimStep::Suspended(request)),
    ensures
        claim_outcome(claim_state(s, id, now), id, later).is_err(),
        claim_state(claim_state(s, id, now), id, later) == claim_state(s, id, now),
        later >= now ==> claim_outcome(claim_state(s, id, now), id, later) == Err::<
            ClaimStep,
            ContractError,
        >(ContractError::AccountLocked),
{
    let migrated = migrate_account(s, id);
    lemma_migrate_account(s, id);
    let record = lookup(migrated.accounts, id).unwrap();
    let reserved = AccountRecord { is_locked: true, balance: 0, ..record };
    lemma_upsert(migrated.accounts, id, reserved);
    let locked = claim_state(s, id, now);
    assert(lookup(locked.accounts_legacy, id).is_none());
    assert(migrate_account(locked, id) == locked);
}

} // verus!
