//! What every operation does to the sum of the tokens that the ledger
//! answers for: the balances of the current accounts and the aggregate that
//! awaits burning.

use vstd::prelude::*;
use crate::account_record::{lemma_kept_bounds, AccountRecord};
use crate::burn::{burn_outcome, burn_settled, burn_state, BurnStep};
use crate::claim::{
    claim_defined, claim_outcome, claim_state, transfer_outcome_fits, transfer_settled, ClaimStep,
    TransferRequest,
};
use crate::clean::{clean_account, clean_fits, residual_balance};
use crate::common::{AccountId, TokensAmount, UnixTimestamp};
use crate::id_map::{
    has_key, lemma_total_erase, lemma_total_upsert, lemma_upsert, lookup, weight_at, Pairs,
};
use crate::migration::{
    legacy_balance, lemma_migrate_account, migrate_account, migration_fits, spec_migrated_record,
};
use crate::record::{
    owed_burn, record_batch, record_batch_admissible, record_entry, record_entry_admissible,
    record_entry_burnt, top_up,
};
use crate::state::{
    account_at, balance_weight, total_funds, AccountRecordLegacy, ContractError, LedgerState,
};

verus! {

/// The sum of the amounts of `entries`.
pub open spec fn credited_sum(entries: Seq<(AccountId, TokensAmount)>) -> nat
    decreases entries.len(),
{
    if entries.len() == 0 {
        0
    } else {
        entries[0].1 as nat + credited_sum(entries.drop_first())
    }
}

/// A credit raises the funds by the amount credited: what the account owed
/// to the burn only moves from its balance to the aggregate.
pub proof fn lemma_record_adds_credit(s: LedgerState, id: Seq<char>, amount: TokensAmount, now: UnixTimestamp)
    requires
        s.wf(),
        record_entry_admissible(s, id, amount, now),
    ensures
        total_funds(record_entry(s, id, amount, now)) == total_funds(migrate_account(s, id)) + amount,
        record_entry(s, id, amount, now).balance_to_burn == s.balance_to_burn + record_entry_burnt(s, id, now),
{
    let migrated = migrate_account(s, id);
    let record = account_at(migrated, id, now);
    assert(owed_burn(record, now, s.burn_period) >= 0) by (nonlinear_arith)
        requires
            record.burn_rate >= 0,
            owed_burn(record, now, s.burn_period) == 0 || (owed_burn(record, now, s.burn_period)
                == record.burn_rate * ((now - s.burn_period) - record.last_burn_at) && (now
                - s.burn_period) - record.last_burn_at >= 0),
    ;
    lemma_total_upsert(migrated.accounts, id, top_up(record, amount, now, s.burn_period), balance_weight());
}

/// None of the accounts of `entries` is held in the old encoding.
pub open spec fn entries_current(
    legacy: Pairs<AccountRecordLegacy>,
    entries: Seq<(AccountId, TokensAmount)>,
) -> bool {
    forall|i: int| 0 <= i < entries.len() ==> !has_key(legacy, (#[trigger] entries[i]).0@)
}

/// Bringing an account over changes the funds by the balance that its old
/// record stands for, less the balance of the current record that it
/// replaces.
pub proof fn lemma_migration_funds(s: LedgerState, id: Seq<char>)
    requires
        migration_fits(s, id),
    ensures
        match lookup(s.accounts_legacy, id) {
            Some(legacy) => total_funds(migrate_account(s, id)) + weight_at(s.accounts, id, balance_weight())
                == total_funds(s) + legacy_balance(s.accruals, legacy.accruals@),
            None => migrate_account(s, id) == s,
        },
{
    match lookup(s.accounts_legacy, id) {
        Some(legacy) => {
            lemma_total_upsert(s.accounts, id, spec_migrated_record(s.accruals, legacy), balance_weight());
        },
        None => {},
    }
}

/// A batch of credits to accounts of the current encoding raises the funds
/// by the sum of its amounts, and by nothing else.
pub proof fn lemma_record_batch_adds_credits(
    s: LedgerState,
    entries: Seq<(AccountId, TokensAmount)>,
    now: UnixTimestamp,
)
    requires
        s.wf(),
        entries_current(s.accounts_legacy, entries),
        record_batch_admissible(s, entries, now),
    ensures
        total_funds(record_batch(s, entries, now)) == total_funds(s) + credited_sum(entries),
        record_batch(s, entries, now).accounts_legacy == s.accounts_legacy,
        record_batch(s, entries, now).wf(),
    decreases entries.len(),
{
    if entries.len() > 0 {
        let id = entries[0].0@;
        let next = record_entry(s, id, entries[0].1, now);
        let rest = entries.drop_first();
        lemma_record_adds_credit(s, id, entries[0].1, now);
        assert(!has_key(s.accounts_legacy, entries[0].0@));
        assert(migrate_account(s, id) == s);
        lemma_upsert(s.accounts, id, top_up(account_at(s, id, now), entries[0].1, now, s.burn_period));
        assert forall|i: int| 0 <= i < rest.len() implies !has_key(next.accounts_legacy, (#[trigger] rest[i]).0@) by {
            assert(rest[i] == entries[i + 1]);
        }
        lemma_record_batch_adds_credits(next, rest, now);
    }
}

/// A claim that waits for its transfer has taken the balance of the account
/// out of the funds: the part to hand out and the part to burn.
pub proof fn lemma_claim_reserves_balance(s: LedgerState, id: Seq<char>, now: UnixTimestamp, request: TransferRequest)
    requires
        s.wf(),
        claim_defined(s, id, now),
        claim_outcome(s, id, now) == Ok::<ClaimStep, ContractError>(ClaimStep::Suspended(request)),
    ensures
        total_funds(claim_state(s, id, now)) + request.amount_to_claim + request.amount_to_burn
            == total_funds(migrate_account(s, id)),
        lookup(claim_state(s, id, now).accounts, id).is_some(),
        lookup(claim_state(s, id, now).accounts, id).unwrap().balance == 0,
        lookup(claim_state(s, id, now).accounts, id).unwrap().is_locked,
        claim_state(s, id, now).wf(),
{
    let migrated = migrate_account(s, id);
    lemma_migrate_account(s, id);
    let record = lookup(migrated.accounts, id).unwrap();
    lemma_kept_bounds(record, now, s.burn_period);
    let reserved = AccountRecord { is_locked: true, balance: 0, ..record };
    lemma_upsert(migrated.accounts, id, reserved);
    lemma_total_upsert(migrated.accounts, id, reserved, balance_weight());
}

/// Taking in the outcome of a transfer changes the funds by what it gives
/// back: the part to burn after a success, both parts after a failure.
pub proof fn lemma_transfer_outcome_funds(
    s: LedgerState,
    now: UnixTimestamp,
    id: Seq<char>,
    amount_to_claim: TokensAmount,
    amount_to_burn: TokensAmount,
    is_success: bool,
    current_time: UnixTimestamp,
)
    requires
        transfer_outcome_fits(s, amount_to_claim, amount_to_burn, is_success),
    ensures
        ({
            let settled = transfer_settled(s, now, id, amount_to_claim, amount_to_burn, is_success, current_time);
            if is_success {
                total_funds(settled) == total_funds(s) + amount_to_burn
            } else {
                total_funds(settled) + weight_at(s.accounts, id, balance_weight()) == total_funds(s)
                    + amount_to_claim + amount_to_burn
            }
        }),
{
    let record = account_at(s, id, current_time);
    if is_success {
        lemma_total_upsert(
            s.accounts,
            id,
            AccountRecord { is_locked: false, claim_period_refreshed_at: now, ..record },
            balance_weight(),
        );
    } else {
        lemma_total_upsert(
            s.accounts,
            id,
            AccountRecord {
                is_locked: false,
                balance: (amount_to_claim + amount_to_burn) as TokensAmount,
                ..record
            },
            balance_weight(),
        );
    }
}

/// A claim whose transfer went through lowers the funds by the amount
/// handed out, and by nothing else; one whose transfer failed leaves them
/// as they were.
pub proof fn lemma_claim_settlement_funds(
    s: LedgerState,
    id: Seq<char>,
    now: UnixTimestamp,
    request: TransferRequest,
    is_success: bool,
    current_time: UnixTimestamp,
)
    requires
        s.wf(),
        claim_defined(s, id, now),
        claim_outcome(s, id, now) == Ok::<ClaimStep, ContractError>(ClaimStep::Suspended(request)),
        transfer_outcome_fits(claim_state(s, id, now), request.amount_to_claim, request.amount_to_burn, is_success),
    ensures
        ({
            let settled = transfer_settled(
                claim_state(s, id, now),
                request.now,
                id,
                request.amount_to_claim,
                request.amount_to_burn,
                is_success,
                current_time,
            );
            if is_success {
                total_funds(settled) + request.amount_to_claim == total_funds(migrate_account(s, id))
            } else {
                total_funds(settled) == total_funds(migrate_account(s, id))
            }
        }),
{
    lemma_claim_reserves_balance(s, id, now, request);
    lemma_transfer_outcome_funds(
        claim_state(s, id, now),
        request.now,
        id,
        request.amount_to_claim,
        request.amount_to_burn,
        is_success,
        current_time,
    );
}

/// A burn that went through lowers the funds by the amount burned, and by
/// nothing else; one that failed leaves them as they were.
pub proof fn lemma_burn_settlement_funds(s: LedgerState, caller: Seq<char>, amount: TokensAmount, is_success: bool)
    requires
        burn_outcome(s, caller) == Ok::<BurnStep, ContractError>(BurnStep::Suspended(amount)),
    ensures
        total_funds(burn_state(s, caller)) + amount == total_funds(s),
        is_success ==> total_funds(burn_settled(burn_state(s, caller), amount, true)) + amount == total_funds(s),
        !is_success ==> total_funds(burn_settled(burn_state(s, caller), amount, false)) == total_funds(s),
{
}

/// Removing an account leaves the funds as they were: what it held in the
/// current encoding moves to the aggregate that awaits burning.
pub proof fn lemma_clean_keeps_funds(s: LedgerState, id: Seq<char>)
    requires
        clean_fits(s, id),
    ensures
        total_funds(clean_account(s, id)) == total_funds(s),
        clean_account(s, id).balance_to_burn == s.balance_to_burn + residual_balance(s, id),
{
    lemma_total_erase(s.accounts, id, balance_weight());
}

/// No update of the aggregate is lost: where a claim of one account waits
/// for its transfer, a credit to another account burns what that account
/// owed, and the transfer then goes through, the aggregate has grown by
/// both the burn of the credit and the burnt part of the claim.
pub proof fn lemma_interleaved_burns_add_up(
    s: LedgerState,
    claimant: Seq<char>,
    claimed_at: UnixTimestamp,
    request: TransferRequest,
    other: Seq<char>,
    amount: TokensAmount,
    recorded_at: UnixTimestamp,
    current_time: UnixTimestamp,
)
    requires
        s.wf(),
        claim_outcome(s, claimant, claimed_at) == Ok::<ClaimStep, ContractError>(ClaimStep::Suspended(request)),
        record_entry_admissible(claim_state(s, claimant, claimed_at), other, amount, recorded_at),
        transfer_outcome_fits(
            record_entry(claim_state(s, claimant, claimed_at), other, amount, recorded_at),
            request.amount_to_claim,
            request.amount_to_burn,
            true,
        ),
    ensures
        ({
            let reserved = claim_state(s, claimant, claimed_at);
            let credited = record_entry(reserved, other, amount, recorded_at);
            let settled = transfer_settled(
                credited,
                request.now,
                claimant,
                request.amount_to_claim,
                request.amount_to_burn,
                true,
                current_time,
            );
            settled.balance_to_burn == s.balance_to_burn + record_entry_burnt(reserved, other, recorded_at)
                + request.amount_to_burn
        }),
{
    lemma_migrate_account(s, claimant);
    let reserved = claim_state(s, claimant, claimed_at);
    let migrated = migrate_account(s, claimant);
    let record = lookup(migrated.accounts, claimant).unwrap();
    lemma_upsert(migrated.accounts, claimant, AccountRecord { is_locked: true, balance: 0, ..record });
    lemma_record_adds_credit(reserved, other, amount, recorded_at);
}

/// An operation that ran to its end without a failure of the token
/// contract.
pub enum Operation {
    /// A batch of credits, made at `now`.
    Record { entries: Seq<(AccountId, TokensAmount)>, now: UnixTimestamp },
    /// A claim of `id` at `now`; where it waited for a transfer, the
    /// transfer went through and was taken in at `settled_at`.
    Claim { id: Seq<char>, now: UnixTimestamp, settled_at: UnixTimestamp },
    /// A burn asked for by `caller`; where it waited for the token
    /// contract, the burn went through.
    Burn { caller: Seq<char> },
}

/// The state after the operation `op`.
pub open spec fn step(s: LedgerState, op: Operation) -> LedgerState {
    match op {
        Operation::Record { entries, now } => record_batch(s, entries, now),
        Operation::Claim { id, now, settled_at } => match claim_outcome(s, id, now) {
            Ok(ClaimStep::Suspended(request)) => transfer_settled(
                claim_state(s, id, now),
                request.now,
                id,
                request.amount_to_claim,
                request.amount_to_burn,
                true,
                settled_at,
            ),
            _ => claim_state(s, id, now),
        },
        Operation::Burn { caller } => match burn_outcome(s, caller) {
            Ok(BurnStep::Suspended(amount)) => burn_settled(burn_state(s, caller), amount, true),
            _ => s,
        },
    }
}

/// The operation `op` keeps the books in order.
pub open spec fn step_admissible(s: LedgerState, op: Operation) -> bool {
    match op {
        Operation::Record { entries, now } => record_batch_admissible(s, entries, now),
        Operation::Claim { id, now, settled_at } => claim_defined(s, id, now) && match claim_outcome(s, id, now) {
            Ok(ClaimStep::Suspended(request)) => transfer_outcome_fits(
                claim_state(s, id, now),
                request.amount_to_claim,
                request.amount_to_burn,
                true,
            ),
            _ => true,
        },
        Operation::Burn { caller } => true,
    }
}

/// The operation `op` touches no account that is held in the old
/// encoding.
pub open spec fn step_current(legacy: Pairs<AccountRecordLegacy>, op: Operation) -> bool {
    match op {
        Operation::Record { entries, now } => entries_current(legacy, entries),
        Operation::Claim { id, now, settled_at } => !has_key(legacy, id),
        Operation::Burn { caller } => true,
    }
}

/// No operation of `ops` touches an account that is held in the old
/// encoding.
pub open spec fn run_current(legacy: Pairs<AccountRecordLegacy>, ops: Seq<Operation>) -> bool {
    forall|i: int| 0 <= i < ops.len() ==> step_current(legacy, #[trigger] ops[i])
}

/// The amount that the report of `op` names as credited.
pub open spec fn step_credited(s: LedgerState, op: Operation) -> nat {
    match op {
        Operation::Record { entries, now } => credited_sum(entries),
        _ => 0,
    }
}

/// The amount that the report of `op` names as handed out to a claimant.
pub open spec fn step_claimed(s: LedgerState, op: Operation) -> nat {
    match op {
        Operation::Claim { id, now, settled_at } => match claim_outcome(s, id, now) {
            Ok(ClaimStep::Suspended(request)) => request.amount_to_claim as nat,
            _ => 0,
        },
        _ => 0,
    }
}

/// The amount that the report of `op` names as burned by the token
/// contract.
pub open spec fn step_burnt(s: LedgerState, op: Operation) -> nat {
    match op {
        Operation::Burn { caller } => match burn_outcome(s, caller) {
            Ok(BurnStep::Suspended(amount)) => amount as nat,
            _ => 0,
        },
        _ => 0,
    }
}

/// The state after the operations `ops`, in order.
pub open spec fn run(s: LedgerState, ops: Seq<Operation>) -> LedgerState
    decreases ops.len(),
{
    if ops.len() == 0 {
        s
    } else {
        run(step(s, ops[0]), ops.drop_first())
    }
}

/// Every operation of `ops` keeps the books in order, one after the other.
pub open spec fn run_admissible(s: LedgerState, ops: Seq<Operation>) -> bool
    decreases ops.len(),
{
    ops.len() == 0 || (step_admissible(s, ops[0]) && run_admissible(step(s, ops[0]), ops.drop_first()))
}

/// All that the reports of `ops` name as credited.
pub open spec fn run_credited(s: LedgerState, ops: Seq<Operation>) -> nat
    decreases ops.len(),
{
    if ops.len() == 0 {
        0
    } else {
        step_credited(s, ops[0]) + run_credited(step(s, ops[0]), ops.drop_first())
    }
}

/// All that the reports of `ops` name as handed out to claimants.
pub open spec fn run_claimed(s: LedgerState, ops: Seq<Operation>) -> nat
    decreases ops.len(),
{
    if ops.len() == 0 {
        0
    } else {
        step_claimed(s, ops[0]) + run_claimed(step(s, ops[0]), ops.drop_first())
    }
}

/// All that the reports of `ops` name as burned by the token contract.
pub open spec fn run_burnt(s: LedgerState, ops: Seq<Operation>) -> nat
    decreases ops.len(),
{
    if ops.len() == 0 {
        0
    } else {
        step_burnt(s, ops[0]) + run_burnt(step(s, ops[0]), ops.drop_first())
    }
}

/// One operation changes the funds by what its report names, and by
/// nothing else: up by the credits, down by what was handed out and by what
/// was burned.
pub proof fn lemma_step_funds(s: LedgerState, op: Operation)
    requires
        s.wf(),
        step_current(s.accounts_legacy, op),
        step_admissible(s, op),
    ensures
        total_funds(step(s, op)) + step_claimed(s, op) + step_burnt(s, op) == total_funds(s) + step_credited(
            s,
            op,
        ),
        step(s, op).wf(),
        step(s, op).accounts_legacy == s.accounts_legacy,
{
    match op {
        Operation::Record { entries, now } => {
            lemma_record_batch_adds_credits(s, entries, now);
        },
        Operation::Claim { id, now, settled_at } => {
            assert(migrate_account(s, id) == s);
            match claim_outcome(s, id, now) {
                Ok(ClaimStep::Suspended(request)) => {
                    lemma_claim_settlement_funds(s, id, now, request, true, settled_at);
                    lemma_claim_reserves_balance(s, id, now, request);
                    let reserved = claim_state(s, id, now);
                    lemma_upsert(
                        reserved.accounts,
                        id,
                        AccountRecord {
                            is_locked: false,
                            claim_period_refreshed_at: request.now,
                            ..account_at(reserved, id, settled_at)
                        },
                    );
                },
                _ => {},
            }
        },
        Operation::Burn { caller } => {},
    }
}

/// Over any run of records, claims and burns in which the token contract
/// never fails, the funds change by what the reports name, and by nothing
/// else: they grow by the credits, and they shrink by what was handed out
/// to claimants and by what was burned. (An operation that brings an
/// account over from the old encoding changes the funds as
/// `lemma_migration_funds` says; such operations are left out here.)
pub proof fn lemma_funds_follow_reports(s: LedgerState, ops: Seq<Operation>)
    requires
        s.wf(),
        run_current(s.accounts_legacy, ops),
        run_admissible(s, ops),
    ensures
        total_funds(run(s, ops)) + run_claimed(s, ops) + run_burnt(s, ops) == total_funds(s) + run_credited(
            s,
            ops,
        ),
    decreases ops.len(),
{
    if ops.len() > 0 {
        let rest = ops.drop_first();
        lemma_step_funds(s, ops[0]);
        assert forall|i: int| 0 <= i < rest.len() implies step_current(s.accounts_legacy, #[trigger] rest[i]) by {
            assert(rest[i] == ops[i + 1]);
        }
        lemma_funds_follow_reports(step(s, ops[0]), rest);
    }
}

} // verus!
