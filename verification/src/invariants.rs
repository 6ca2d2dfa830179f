//! What holds of the records in every state of the ledger: in each of
//! them the burn has not been taken further than the last credit. Every
//! operation keeps it so.

use vstd::prelude::*;
use crate::account_record::{spec_new_record, AccountRecord};
use crate::burn::{burn_settled, burn_state};
use crate::claim::{claim_outcome, claim_state, transfer_settled, ClaimStep};
use crate::clean::clean_account;
use crate::common::{TokensAmount, UnixTimestamp};
use crate::id_map::{lemma_all_values_kept, lookup};
use crate::migration::{migrate_account, spec_migrated_record};
use crate::record::{record_entry, top_up};
use crate::state::{account_at, record_in_order, LedgerState};

verus! {

/// A ledger without accounts is in order.
pub proof fn lemma_empty_ledger_in_order(s: LedgerState)
    requires
        s.accounts.len() == 0,
    ensures
        s.records_in_order(),
{
}

/// Bringing an account over keeps the records in order.
pub proof fn lemma_migrate_keeps_order(s: LedgerState, id: Seq<char>)
    requires
        s.records_in_order(),
    ensures
        migrate_account(s, id).records_in_order(),
        account_at(migrate_account(s, id), id, 0).in_order(),
{
    match lookup(s.accounts_legacy, id) {
        Some(legacy) => {
            lemma_all_values_kept(s.accounts, id, spec_migrated_record(s.accruals, legacy), record_in_order());
        },
        None => {},
    }
    let migrated = migrate_account(s, id);
    lemma_all_values_kept(migrated.accounts, id, spec_new_record(0), record_in_order());
}

/// A credit keeps the records in order, where the account was not last
/// credited at a time ahead of the clock.
pub proof fn lemma_record_keeps_order(s: LedgerState, id: Seq<char>, amount: TokensAmount, now: UnixTimestamp)
    requires
        s.records_in_order(),
        account_at(migrate_account(s, id), id, now).last_top_up_at <= now,
    ensures
        record_entry(s, id, amount, now).records_in_order(),
{
    lemma_migrate_keeps_order(s, id);
    let migrated = migrate_account(s, id);
    let record = account_at(migrated, id, now);
    lemma_all_values_kept(migrated.accounts, id, top_up(record, amount, now, s.burn_period), record_in_order());
}

/// Both phases of a claim keep the records in order.
pub proof fn lemma_claim_keeps_order(
    s: LedgerState,
    id: Seq<char>,
    now: UnixTimestamp,
    amount_to_claim: TokensAmount,
    amount_to_burn: TokensAmount,
    is_success: bool,
    current_time: UnixTimestamp,
)
    requires
        s.records_in_order(),
    ensures
        claim_state(s, id, now).records_in_order(),
        transfer_settled(s, now, id, amount_to_claim, amount_to_burn, is_success, current_time).records_in_order(),
{
    lemma_migrate_keeps_order(s, id);
    let migrated = migrate_account(s, id);
    match claim_outcome(s, id, now) {
        Ok(ClaimStep::Suspended(_)) => {
            let record = lookup(migrated.accounts, id).unwrap();
            lemma_all_values_kept(migrated.accounts, id, record, record_in_order());
            lemma_all_values_kept(
                migrated.accounts,
                id,
                AccountRecord { is_locked: true, balance: 0, ..record },
                record_in_order(),
            );
        },
        _ => {},
    }
    let held = account_at(s, id, current_time);
    lemma_all_values_kept(s.accounts, id, held, record_in_order());
    lemma_all_values_kept(
        s.accounts,
        id,
        AccountRecord { is_locked: false, claim_period_refreshed_at: now, ..held },
        record_in_order(),
    );
    lemma_all_values_kept(
        s.accounts,
        id,
        AccountRecord { is_locked: false, balance: (amount_to_claim + amount_to_burn) as TokensAmount, ..held },
        record_in_order(),
    );
}

/// Both phases of a burn, and the removal of an account, keep the records
/// in order.
pub proof fn lemma_burn_and_clean_keep_order(
    s: LedgerState,
    caller: Seq<char>,
    amount: TokensAmount,
    is_success: bool,
    id: Seq<char>,
)
    requires
        s.records_in_order(),
    ensures
        burn_state(s, caller).records_in_order(),
        burn_settled(s, amount, is_success).records_in_order(),
        clean_account(s, id).records_in_order(),
{
    lemma_all_values_kept(s.accounts, id, spec_new_record(0), record_in_order());
}

} // verus!
