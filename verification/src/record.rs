//! Crediting accounts, with the lazy burn of what decayed before the credit.

use vstd::prelude::*;
use crate::account_record::AccountRecord;
use crate::common::{is_within_period, AccountId, Duration, TokensAmount, UnixTimestamp};
use crate::id_map::{lemma_upsert, upsert};
use crate::migration::{migrate_account, migration_fits};
use crate::state::{account_at, BatchFault, Contract, ContractError, LedgerState};

verus! {

/// What one credit did to its account.
#[derive(Clone, Copy, Debug, PartialEq, Eq, Structural)]
pub struct RecordAmountDetailed {
    /// The amount credited.
    pub credited: TokensAmount,
    /// The amount that had decayed and was burned before the credit.
    pub burnt: TokensAmount,
}

/// The report of one batch of credits.
pub struct RecordData {
    /// When the batch was recorded.
    pub timestamp: UnixTimestamp,
    /// For each credit, in order, its account and what it did.
    pub amounts: Vec<(AccountId, RecordAmountDetailed)>,
}

/// The model of the lines of a report.
pub open spec fn report_views(lines: Seq<(AccountId, RecordAmountDetailed)>) -> Seq<(Seq<char>, RecordAmountDetailed)> {
    lines.map_values(|line: (AccountId, RecordAmountDetailed)| (line.0@, line.1))
}

/// The holding window of `record` has run out at `now`.
pub open spec fn window_expired(record: AccountRecord, now: UnixTimestamp, burn_period: Duration) -> bool {
    now - record.claim_period_refreshed_at >= burn_period
}

/// What `record` owes to the burn at `now`: its burn rate for every second
/// between the last burn and the start of the holding window, once the
/// window has run out; nothing before.
pub open spec fn owed_burn(record: AccountRecord, now: UnixTimestamp, burn_period: Duration) -> int {
    if window_expired(record, now, burn_period) {
        record.burn_rate * ((now - burn_period) - record.last_burn_at)
    } else {
        0
    }
}

/// A credit of `amount` at `now` keeps the books of `record` in order: the
/// burn period is not zero, no timestamp lies ahead of the clock, the owed
/// burn is covered by the balance, and the sums fit an amount.
pub open spec fn top_up_admissible(
    record: AccountRecord,
    amount: TokensAmount,
    now: UnixTimestamp,
    burn_period: Duration,
    aggregate: TokensAmount,
) -> bool {
    &&& burn_period > 0
    &&& record.claim_period_refreshed_at <= now
    &&& window_expired(record, now, burn_period) ==> record.last_burn_at <= now - burn_period
    &&& owed_burn(record, now, burn_period) <= record.balance
    &&& aggregate + owed_burn(record, now, burn_period) <= TokensAmount::MAX
    &&& record.balance - owed_burn(record, now, burn_period) + amount <= TokensAmount::MAX
}

/// `record` after a credit of `amount` at `now`: the owed burn leaves the
/// balance and the burn is taken up to the start of the holding window;
/// then the amount comes in, and the burn rate follows the new balance.
pub open spec fn top_up(
    record: AccountRecord,
    amount: TokensAmount,
    now: UnixTimestamp,
    burn_period: Duration,
) -> AccountRecord {
    let balance = record.balance - owed_burn(record, now, burn_period) + amount;
    AccountRecord {
        balance: balance as TokensAmount,
        last_top_up_at: now,
        last_burn_at: if window_expired(record, now, burn_period) {
            (now - burn_period) as UnixTimestamp
        } else {
            record.last_burn_at
        },
        burn_rate: (balance / burn_period as int) as TokensAmount,
        ..record
    }
}

/// The credit of `amount` to `id` at `now` keeps the books in order.
pub open spec fn record_entry_admissible(
    s: LedgerState,
    id: Seq<char>,
    amount: TokensAmount,
    now: UnixTimestamp,
) -> bool {
    migration_fits(s, id) && top_up_admissible(
        account_at(migrate_account(s, id), id, now),
        amount,
        now,
        s.burn_period,
        s.balance_to_burn,
    )
}

/// What the credit of `amount` to `id` at `now` burns.
pub open spec fn record_entry_burnt(s: LedgerState, id: Seq<char>, now: UnixTimestamp) -> TokensAmount {
    owed_burn(account_at(migrate_account(s, id), id, now), now, s.burn_period) as TokensAmount
}

/// The state after the credit of `amount` to `id` at `now`: the account is
/// brought over from the old encoding, created if it is new, and topped up;
/// what it owed goes to the aggregate that awaits burning.
pub open spec fn record_entry(
    s: LedgerState,
    id: Seq<char>,
    amount: TokensAmount,
    now: UnixTimestamp,
) -> LedgerState {
    let migrated = migrate_account(s, id);
    let record = account_at(migrated, id, now);
    LedgerState {
        accounts: upsert(migrated.accounts, id, top_up(record, amount, now, s.burn_period)),
        balance_to_burn: (s.balance_to_burn + owed_burn(record, now, s.burn_period)) as TokensAmount,
        ..migrated
    }
}

/// Every credit of `entries` keeps the books in order, one after the other.
pub open spec fn record_batch_admissible(
    s: LedgerState,
    entries: Seq<(AccountId, TokensAmount)>,
    now: UnixTimestamp,
) -> bool
    decreases entries.len(),
{
    entries.len() == 0 || (record_entry_admissible(s, entries[0].0@, entries[0].1, now)
        && record_batch_admissible(
        record_entry(s, entries[0].0@, entries[0].1, now),
        entries.drop_first(),
        now,
    ))
}

/// The state after the credits of `entries` were made in order.
pub open spec fn record_batch(
    s: LedgerState,
    entries: Seq<(AccountId, TokensAmount)>,
    now: UnixTimestamp,
) -> LedgerState
    decreases entries.len(),
{
    if entries.len() == 0 {
        s
    } else {
        record_batch(record_entry(s, entries[0].0@, entries[0].1, now), entries.drop_first(), now)
    }
}

/// The lines that report the credits of `entries`, in order.
pub open spec fn record_batch_report(
    s: LedgerState,
    entries: Seq<(AccountId, TokensAmount)>,
    now: UnixTimestamp,
) -> Seq<(Seq<char>, RecordAmountDetailed)>
    decreases entries.len(),
{
    if entries.len() == 0 {
        Seq::empty()
    } else {
        seq![
            (
                entries[0].0@,
                RecordAmountDetailed {
                    credited: entries[0].1,
                    burnt: record_entry_burnt(s, entries[0].0@, now),
                },
            ),
        ] + record_batch_report(
            record_entry(s, entries[0].0@, entries[0].1, now),
            entries.drop_first(),
            now,
        )
    }
}

/// The line that reports the credit at place `n` of `entries`.
pub open spec fn report_line(
    s: LedgerState,
    entries: Seq<(AccountId, TokensAmount)>,
    now: UnixTimestamp,
    n: int,
) -> (Seq<char>, RecordAmountDetailed) {
    (
        entries[n].0@,
        RecordAmountDetailed {
            credited: entries[n].1,
            burnt: record_entry_burnt(record_batch(s, entries.take(n), now), entries[n].0@, now),
        },
    )
}

/// A batch of `n + 1` credits is the batch of the first `n` followed by
/// the credit at place `n`.
pub proof fn lemma_record_batch_step(
    s: LedgerState,
    entries: Seq<(AccountId, TokensAmount)>,
    now: UnixTimestamp,
    n: int,
)
    requires
        0 <= n < entries.len(),
    ensures
        record_batch(s, entries.take(n + 1), now) == record_entry(
            record_batch(s, entries.take(n), now),
            entries[n].0@,
            entries[n].1,
            now,
        ),
        record_batch_admissible(s, entries.take(n + 1), now) == (record_batch_admissible(
            s,
            entries.take(n),
            now,
        ) && record_entry_admissible(
            record_batch(s, entries.take(n), now),
            entries[n].0@,
            entries[n].1,
            now,
        )),
        record_batch_report(s, entries.take(n + 1), now) == record_batch_report(
            s,
            entries.take(n),
            now,
        ).push(report_line(s, entries, now, n)),
    decreases n,
{
    let whole = entries.take(n + 1);
    if n == 0 {
        let next = record_entry(s, entries[0].0@, entries[0].1, now);
        assert(whole[0] == entries[0]);
        assert(whole.drop_first() =~= entries.take(0));
        assert(entries.take(0).len() == 0);
        assert(record_batch(next, whole.drop_first(), now) == next);
        assert(record_batch_admissible(next, whole.drop_first(), now));
        assert(record_batch_report(next, whole.drop_first(), now).len() == 0);
        assert(record_batch(s, entries.take(0), now) == s);
        assert(record_batch_report(s, whole, now) =~= record_batch_report(s, entries.take(0), now).push(
            report_line(s, entries, now, n),
        ));
    } else {
        let next = record_entry(s, entries[0].0@, entries[0].1, now);
        let rest = entries.drop_first();
        assert(whole.drop_first() =~= rest.take(n));
        assert(entries.take(n).drop_first() =~= rest.take(n - 1));
        lemma_record_batch_step(next, rest, now, n - 1);
        assert(record_batch_report(s, whole, now) =~= record_batch_report(s, entries.take(n), now).push(
            report_line(s, entries, now, n),
        ));
    }
}

impl Contract {
    /// Tells whether a credit of `amount` to `account_id` at `now` keeps the
    /// books in order, so that `record_for_account` may be called.
    pub fn can_record(&self, account_id: &AccountId, amount: TokensAmount, now: UnixTimestamp) -> (admissible: bool)
        ensures
            admissible == record_entry_admissible(self@, account_id@, amount, now),
    {
        if !self.can_migrate(account_id) {
            return false;
        }
        let record = match self.peek_account(account_id) {
            Some(record) => record,
            None => AccountRecord::new(now),
        };
        let burn_period = self.burn_period;
        if burn_period == 0 || record.claim_period_refreshed_at > now {
            return false;
        }
        let mut owed: TokensAmount = 0;
        if !is_within_period(record.claim_period_refreshed_at, now, burn_period) {
            let window_start = now - burn_period;
            if record.last_burn_at > window_start {
                return false;
            }
            match record.burn_rate.checked_mul((window_start - record.last_burn_at) as TokensAmount) {
                Some(product) => {
                    owed = product;
                },
                None => {
                    return false;
                },
            }
        }
        if owed > record.balance {
            return false;
        }
        if self.balance_to_burn.checked_add(owed).is_none() {
            return false;
        }
        (record.balance - owed).checked_add(amount).is_some()
    }

    /// Credits `amount` to `account_id` at `now` and says what it did.
    pub fn record_for_account(&mut self, account_id: &AccountId, amount: TokensAmount, now: UnixTimestamp) -> (detail: RecordAmountDetailed)
        requires
            record_entry_admissible(old(self)@, account_id@, amount, now),
        ensures
            final(self)@ == record_entry(old(self)@, account_id@, amount, now),
            detail.credited == amount,
            detail.burnt == record_entry_burnt(old(self)@, account_id@, now),
    {
        self.migrate_account_if_outdated(account_id);
        proof {
            use_type_invariant(&self.accounts);
        }
        let burn_period = self.burn_period;
        let mut account = match self.accounts.get(account_id) {
            Some(record) => *record,
            None => AccountRecord::new(now),
        };
        let ghost before = account;
        let mut burnt: TokensAmount = 0;
        if !is_within_period(account.claim_period_refreshed_at, now, burn_period) {
            let window_start = now - burn_period;
            burnt = account.burn_rate * ((window_start - account.last_burn_at) as TokensAmount);
            self.balance_to_burn = self.balance_to_burn + burnt;
            account.balance = account.balance - burnt;
            account.last_burn_at = window_start;
        }
        account.balance = account.balance + amount;
        account.last_top_up_at = now;
        account.burn_rate = account.balance / (burn_period as TokensAmount);
        proof {
            assert(account == top_up(before, amount, now, burn_period));
            lemma_upsert(self@.accounts, account_id@, account);
        }
        self.accounts.insert(account_id.clone(), account);
        RecordAmountDetailed { credited: amount, burnt }
    }

    /// Credits every account of `amounts` at `now`, in order, and reports
    /// what was credited and burned. Only an oracle may record; for another
    /// caller nothing changes.
    pub fn record_batch_for_hold(
        &mut self,
        caller: &AccountId,
        amounts: Vec<(AccountId, TokensAmount)>,
        now: UnixTimestamp,
    ) -> (result: Result<RecordData, ContractError>)
        requires
            old(self)@.is_oracle(caller@) ==> record_batch_admissible(old(self)@, amounts@, now),
        ensures
            match result {
                Ok(data) => {
                    &&& old(self)@.is_oracle(caller@)
                    &&& final(self)@ == record_batch(old(self)@, amounts@, now)
                    &&& data.timestamp == now
                    &&& report_views(data.amounts@) == record_batch_report(old(self)@, amounts@, now)
                },
                Err(error) => {
                    &&& !old(self)@.is_oracle(caller@)
                    &&& error == ContractError::Unauthorized
                    &&& final(self)@ == old(self)@
                },
            },
    {
        if !self.is_oracle(caller) {
            return Err(ContractError::Unauthorized);
        }
        let mut event_data = RecordData { timestamp: now, amounts: Vec::new() };
        assert(amounts@.skip(0) =~= amounts@);
        assert(report_views(event_data.amounts@) =~= Seq::empty());
        let mut i: usize = 0;
        while i < amounts.len()
            invariant
                i <= amounts.len(),
                event_data.timestamp == now,
                record_batch_admissible(self@, amounts@.skip(i as int), now),
                record_batch(self@, amounts@.skip(i as int), now) == record_batch(old(self)@, amounts@, now),
                report_views(event_data.amounts@) + record_batch_report(self@, amounts@.skip(i as int), now)
                    == record_batch_report(old(self)@, amounts@, now),
            decreases amounts.len() - i,
        {
            let ghost rest = amounts@.skip(i as int);
            let ghost lines = report_views(event_data.amounts@);
            let ghost state = self@;
            assert(rest.drop_first() =~= amounts@.skip(i + 1));
            let account_id = &amounts[i].0;
            let amount = amounts[i].1;
            let detail = self.record_for_account(account_id, amount, now);
            event_data.amounts.push((account_id.clone(), detail));
            proof {
                let line = (account_id@, detail);
                assert(report_views(event_data.amounts@) =~= lines.push(line));
                assert(lines.push(line) + record_batch_report(self@, rest.drop_first(), now) =~= lines
                    + record_batch_report(state, rest, now));
            }
            i += 1;
        }
        assert(report_views(event_data.amounts@) + Seq::<(Seq<char>, RecordAmountDetailed)>::empty()
            =~= report_views(event_data.amounts@));
        Ok(event_data)
    }

    /// Credits the accounts of `amounts` at `now`, in order, as far as the
    /// books stay in order, and reports what was credited and burned.
    ///
    /// For a caller that is no oracle nothing changes. At the first credit
    /// that would put the books out of order the batch stops and names its
    /// place; the credits before it stand.
    pub fn try_record_batch_for_hold(
        &mut self,
        caller: &AccountId,
        amounts: Vec<(AccountId, TokensAmount)>,
        now: UnixTimestamp,
    ) -> (result: Result<RecordData, BatchFault>)
        ensures
            match result {
                Ok(data) => {
                    &&& old(self)@.is_oracle(caller@)
                    &&& record_batch_admissible(old(self)@, amounts@, now)
                    &&& final(self)@ == record_batch(old(self)@, amounts@, now)
                    &&& data.timestamp == now
                    &&& report_views(data.amounts@) == record_batch_report(old(self)@, amounts@, now)
                },
                Err(BatchFault::Unauthorized) => {
                    &&& !old(self)@.is_oracle(caller@)
                    &&& final(self)@ == old(self)@
                },
                Err(BatchFault::Inadmissible(index)) => {
                    &&& old(self)@.is_oracle(caller@)
                    &&& index < amounts@.len()
                    &&& record_batch_admissible(old(self)@, amounts@.take(index as int), now)
                    &&& final(self)@ == record_batch(old(self)@, amounts@.take(index as int), now)
                    &&& !record_entry_admissible(
                        final(self)@,
                        amounts@[index as int].0@,
                        amounts@[index as int].1,
                        now,
                    )
                    &&& !record_batch_admissible(old(self)@, amounts@, now)
                },
            },
    {
        if !self.is_oracle(caller) {
            return Err(BatchFault::Unauthorized);
        }
        let mut event_data = RecordData { timestamp: now, amounts: Vec::new() };
        assert(report_views(event_data.amounts@) =~= record_batch_report(old(self)@, amounts@.take(0), now));
        let mut i: usize = 0;
        while i < amounts.len()
            invariant
                i <= amounts.len(),
                event_data.timestamp == now,
                old(self)@.is_oracle(caller@),
                record_batch_admissible(old(self)@, amounts@.take(i as int), now),
                self@ == record_batch(old(self)@, amounts@.take(i as int), now),
                report_views(event_data.amounts@) == record_batch_report(old(self)@, amounts@.take(i as int), now),
            decreases amounts.len() - i,
        {
            let ghost lines = report_views(event_data.amounts@);
            proof {
                lemma_record_batch_step(old(self)@, amounts@, now, i as int);
            }
            let account_id = &amounts[i].0;
            let amount = amounts[i].1;
            if !self.can_record(account_id, amount, now) {
                proof {
                    if record_batch_admissible(old(self)@, amounts@, now) {
                        lemma_record_batch_prefix(old(self)@, amounts@, now, i + 1);
                    }
                }
                return Err(BatchFault::Inadmissible(i));
            }
            let detail = self.record_for_account(account_id, amount, now);
            event_data.amounts.push((account_id.clone(), detail));
            assert(report_views(event_data.amounts@) =~= lines.push((account_id@, detail)));
            i += 1;
        }
        assert(amounts@.take(i as int) =~= amounts@);
        Ok(event_data)
    }
}

/// Where a whole batch keeps the books in order, so does each of its
/// beginnings.
pub proof fn lemma_record_batch_prefix(
    s: LedgerState,
    entries: Seq<(AccountId, TokensAmount)>,
    now: UnixTimestamp,
    n: int,
)
    requires
        0 <= n <= entries.len(),
        record_batch_admissible(s, entries, now),
    ensures
        record_batch_admissible(s, entries.take(n), now),
    decreases n,
{
    if n > 0 {
        let next = record_entry(s, entries[0].0@, entries[0].1, now);
        assert(entries.take(n).drop_first() =~= entries.drop_first().take(n - 1));
        lemma_record_batch_prefix(next, entries.drop_first(), now, n - 1);
    }
}

} // verus!
