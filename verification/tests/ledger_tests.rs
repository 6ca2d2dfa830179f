use sweat_claim::account_record::AccountRecord;
use sweat_claim::burn::BurnStep;
use sweat_claim::claim::{ClaimAvailabilityView, ClaimResultView, ClaimStep};
use sweat_claim::common::{fits_seconds, is_within_period, ms_timestamp_to_seconds, AccountId};
use sweat_claim::id_map::IdMap;
use sweat_claim::migration::OldState;
use sweat_claim::record::{RecordAmountDetailed, RecordData};
use sweat_claim::state::{AccountRecordLegacy, AccrualBucket, Contract, ContractError};
use sweat_claim::test_data::{data, get_test_future_success, set_test_future_success, TestDataStorage};

const CLAIM_PERIOD: u32 = 24 * 60 * 60;
const BURN_PERIOD: u32 = 30 * 24 * 60 * 60;
const EXT_TRANSFER_FUTURE: &str = "ext_transfer";
const EXT_BURN_FUTURE: &str = "ext_burn";

struct TestAccounts {
    alice: AccountId,
    bob: AccountId,
    oracle: AccountId,
    token: AccountId,
    owner: AccountId,
}

impl Default for TestAccounts {
    fn default() -> Self {
        Self {
            alice: "alice".to_string(),
            bob: "bob".to_string(),
            oracle: "oracle".to_string(),
            token: "token".to_string(),
            owner: "owner".to_string(),
        }
    }
}

/// The surroundings of a call: who calls, what time it is, and how the
/// calls to the token contract are to end.
struct Context {
    caller: AccountId,
    now: u32,
    futures: TestDataStorage,
}

impl Context {
    fn init_with_oracle() -> (Context, Contract, TestAccounts) {
        let (context, mut contract, accounts) = Self::init();
        contract.add_oracle(accounts.oracle.clone());
        (context, contract, accounts)
    }

    fn init() -> (Context, Contract, TestAccounts) {
        let accounts = TestAccounts::default();
        let contract = Contract::init(accounts.token.clone(), CLAIM_PERIOD, BURN_PERIOD);
        let context = Context { caller: accounts.owner.clone(), now: 0, futures: data() };
        (context, contract, accounts)
    }

    fn switch_account(&mut self, account_id: &AccountId) {
        self.caller = account_id.clone();
    }

    fn set_block_timestamp_in_seconds(&mut self, seconds: u64) {
        let ms = seconds * 1000;
        assert!(fits_seconds(ms));
        self.now = ms_timestamp_to_seconds(ms);
    }

    fn record(&self, contract: &mut Contract, amounts: Vec<(AccountId, u128)>) -> RecordData {
        match contract.record_batch_for_hold(&self.caller, amounts, self.now) {
            Ok(data) => data,
            Err(error) => panic!("{:?}", error),
        }
    }

    fn balance(&self, contract: &Contract, account_id: &AccountId) -> u128 {
        contract.get_claimable_balance_for_account(account_id, self.now)
    }

    /// A claim of the caller, with the transfer ending as scripted.
    fn claim(&self, contract: &mut Contract) -> Result<ClaimResultView, ContractError> {
        match contract.claim(&self.caller, self.now)? {
            ClaimStep::Settled(view) => Ok(view),
            ClaimStep::Suspended(request) => Ok(contract.on_transfer_internal(
                request.now,
                &self.caller,
                request.amount_to_claim,
                request.amount_to_burn,
                get_test_future_success(&self.futures, EXT_TRANSFER_FUTURE),
                self.now,
            )),
        }
    }

    /// A burn asked for by the caller, ending as scripted.
    fn burn(&self, contract: &mut Contract) -> Result<u128, ContractError> {
        match contract.burn(&self.caller)? {
            BurnStep::Settled(amount) => Ok(amount),
            BurnStep::Suspended(amount) => {
                Ok(contract.on_burn_internal(amount, get_test_future_success(&self.futures, EXT_BURN_FUTURE)))
            },
        }
    }
}

fn legacy_contract() -> (Context, Contract, TestAccounts) {
    let (context, mut contract, accounts) = Context::init_with_oracle();
    contract.set_claim_period(100);
    contract.set_burn_period(1_000);
    contract.accruals.insert(10, AccrualBucket { amounts: vec![5, 7], total: 12 });
    contract.accruals.insert(500, AccrualBucket { amounts: vec![11], total: 11 });
    contract.accounts_legacy.insert(
        accounts.alice.clone(),
        AccountRecordLegacy {
            accruals: vec![(10, 1), (500, 0), (10, 9), (77, 0)],
            is_locked: false,
            claim_period_refreshed_at: 3,
        },
    );
    (context, contract, accounts)
}

#[test]
fn convert_milliseconds_to_unix_timestamp_successfully() {
    let millis: u64 = 1_699_038_575_819;
    assert!(fits_seconds(millis));
    let timestamp = ms_timestamp_to_seconds(millis);

    assert_eq!(1_699_038_575, timestamp);
}

#[test]
fn convert_milliseconds_to_unix_timestamp_with_unsuccessfully() {
    let millis: u64 = u64::MAX;
    assert!(!fits_seconds(millis));
    assert!(fits_seconds(4_294_967_295_999));
    assert!(!fits_seconds(4_294_967_296_000));
    assert_eq!(u32::MAX, ms_timestamp_to_seconds(4_294_967_295_999));
}

#[test]
fn within_period_is_strict() {
    assert!(is_within_period(10, 19, 10));
    assert!(!is_within_period(10, 20, 10));
    assert!(!is_within_period(10, 10, 0));
}

#[test]
fn test_data_storage() {
    let mut storage = data();
    let name = "test_future";
    assert!(get_test_future_success(&storage, name));
    set_test_future_success(&mut storage, name, false);
    assert!(!get_test_future_success(&storage, name));
    set_test_future_success(&mut storage, name, true);
    assert!(get_test_future_success(&storage, name));
}

#[test]
fn scripted_outcomes_are_kept_by_name() {
    let mut storage = data();
    set_test_future_success(&mut storage, EXT_BURN_FUTURE, false);
    assert!(get_test_future_success(&storage, EXT_TRANSFER_FUTURE));
    assert!(!get_test_future_success(&storage, EXT_BURN_FUTURE));
}

#[test]
fn test_effective_balance() {
    let (mut context, mut contract, accounts) = Context::init_with_oracle();
    context.switch_account(&accounts.oracle);
    contract.set_claim_period(0);
    contract.set_burn_period(10_000);

    context.set_block_timestamp_in_seconds(0);

    let mut alice_balance = 0;

    let mut alice_top_up = 400_000;
    context.record(&mut contract, vec![(accounts.alice.clone(), alice_top_up)]);
    alice_balance += alice_top_up;

    context.set_block_timestamp_in_seconds(3_000);

    alice_top_up = 100_000;
    context.record(&mut contract, vec![(accounts.alice.clone(), alice_top_up)]);
    alice_balance += alice_top_up;

    context.set_block_timestamp_in_seconds(5_000);

    alice_top_up = 500_000;
    context.record(&mut contract, vec![(accounts.alice.clone(), alice_top_up)]);
    alice_balance += alice_top_up;

    context.set_block_timestamp_in_seconds(6_000);

    let alice_current_balance = context.balance(&contract, &accounts.alice);
    assert_eq!(alice_balance, alice_current_balance);

    context.set_block_timestamp_in_seconds(10_000);

    let alice_current_balance = context.balance(&contract, &accounts.alice);
    assert_eq!(alice_balance, alice_current_balance);

    context.set_block_timestamp_in_seconds(12_000);

    let alice_current_balance = context.balance(&contract, &accounts.alice);
    assert_eq!((alice_balance / 100) * 60, alice_current_balance);

    context.set_block_timestamp_in_seconds(14_000);

    let alice_current_balance = context.balance(&contract, &accounts.alice);
    assert_eq!((alice_balance / 100) * 20, alice_current_balance);

    context.set_block_timestamp_in_seconds(20_000);

    let alice_current_balance = context.balance(&contract, &accounts.alice);
    assert_eq!(0, alice_current_balance);
}

#[test]
fn effective_balance_rounds_against_the_claimant() {
    let record = AccountRecord {
        balance: 1_099,
        claim_period_refreshed_at: 100,
        last_top_up_at: 400,
        last_burn_at: 0,
        burn_rate: 0,
        is_locked: false,
    };
    // Inside the holding window the whole balance is there.
    assert_eq!(1_099, record.get_effective_balance(100, 1_000));
    assert_eq!(1_099, record.get_effective_balance(1_099, 1_000));
    // At the end of the window whole hundredths only.
    assert_eq!(1_000, record.get_effective_balance(1_100, 1_000));
    // One second of 300 is a third of a percent, which counts as one percent.
    assert_eq!(990, record.get_effective_balance(1_101, 1_000));
    assert_eq!(10 * 66, record.get_effective_balance(1_200, 1_000));
    assert_eq!(10, record.get_effective_balance(1_397, 1_000));
    assert_eq!(0, record.get_effective_balance(1_398, 1_000));
    assert_eq!(0, record.get_effective_balance(1_400, 1_000));
    assert_eq!(0, record.get_effective_balance(4_000_000_000, 1_000));
}

#[test]
fn effective_balance_never_grows_with_time() {
    let record = AccountRecord {
        balance: 123_456_789,
        claim_period_refreshed_at: 50,
        last_top_up_at: 947,
        last_burn_at: 0,
        burn_rate: 0,
        is_locked: false,
    };
    let mut previous = record.get_effective_balance(50, 600);
    let mut now = 51;
    while now < 2_000 {
        let current = record.get_effective_balance(now, 600);
        assert!(current <= previous);
        previous = current;
        now += 1;
    }
    assert_eq!(0, previous);
}

#[test]
fn new_record_starts_its_claim_period() {
    let record = AccountRecord::new(77);
    assert_eq!(
        AccountRecord {
            balance: 0,
            claim_period_refreshed_at: 77,
            last_top_up_at: 0,
            last_burn_at: 0,
            burn_rate: 0,
            is_locked: false,
        },
        record
    );
}

#[test]
fn record_burns_lazily_once_the_window_has_run_out() {
    let (mut context, mut contract, accounts) = Context::init_with_oracle();
    context.switch_account(&accounts.oracle);
    contract.set_burn_period(10_000);

    let data = context.record(&mut contract, vec![(accounts.alice.clone(), 1_000_000)]);
    assert_eq!(0, data.timestamp);
    assert_eq!(1, data.amounts.len());
    assert_eq!(accounts.alice, data.amounts[0].0);
    assert_eq!(RecordAmountDetailed { credited: 1_000_000, burnt: 0 }, data.amounts[0].1);
    let record = *contract.accounts.get(&accounts.alice).unwrap();
    assert_eq!(100, record.burn_rate);
    assert_eq!(0, record.last_top_up_at);

    context.set_block_timestamp_in_seconds(12_000);
    let data = context.record(
        &mut contract,
        vec![(accounts.alice.clone(), 50_000), (accounts.alice.clone(), 1)],
    );
    assert_eq!(12_000, data.timestamp);
    assert_eq!(RecordAmountDetailed { credited: 50_000, burnt: 200_000 }, data.amounts[0].1);
    assert_eq!(RecordAmountDetailed { credited: 1, burnt: 0 }, data.amounts[1].1);
    assert_eq!(200_000, contract.balance_to_burn);
    assert_eq!(
        AccountRecord {
            balance: 850_001,
            claim_period_refreshed_at: 0,
            last_top_up_at: 12_000,
            last_burn_at: 2_000,
            burn_rate: 85,
            is_locked: false,
        },
        *contract.accounts.get(&accounts.alice).unwrap()
    );
}

#[test]
fn record_by_not_oracle_changes_nothing() {
    let (context, mut contract, accounts) = Context::init_with_oracle();
    let result = contract.record_batch_for_hold(&accounts.alice, vec![(accounts.alice.clone(), 5)], context.now);
    assert!(matches!(result, Err(ContractError::Unauthorized)));
    assert_eq!(0, contract.accounts.len());
    assert!(contract.is_oracle(&accounts.oracle));
    assert!(!contract.is_oracle(&accounts.alice));
}

#[test]
fn test_clean_single_account_by_oracle() {
    let (mut context, mut contract, accounts) = Context::init_with_oracle();
    context.switch_account(&accounts.oracle);

    context.record(&mut contract, vec![(accounts.alice.clone(), 100_000_000)]);

    let record = *contract.accounts.get(&accounts.alice).unwrap();
    assert_ne!(0, record.balance);

    contract.clean(&context.caller, vec![accounts.alice.clone()]).unwrap();

    let record = contract.accounts.get(&accounts.alice);
    assert!(record.is_none());
    assert_eq!(100_000_000, contract.balance_to_burn);
}

#[test]
fn test_clean_single_account_by_not_oracle() {
    let (mut context, mut contract, accounts) = Context::init_with_oracle();
    context.switch_account(&accounts.oracle);

    context.record(&mut contract, vec![(accounts.alice.clone(), 100_000_000)]);

    let record = *contract.accounts.get(&accounts.alice).unwrap();
    assert_ne!(0, record.balance);

    context.switch_account(&accounts.alice);
    let result = contract.clean(&context.caller, vec![accounts.alice.clone()]);
    assert_eq!(Err(ContractError::Unauthorized), result);
    assert_eq!(100_000_000, contract.accounts.get(&accounts.alice).unwrap().balance);
    assert_eq!(0, contract.balance_to_burn);
}

#[test]
fn test_clean_multiple_accounts_by_oracle() {
    let (mut context, mut contract, accounts) = Context::init_with_oracle();
    context.switch_account(&accounts.oracle);

    context.record(
        &mut contract,
        vec![(accounts.alice.clone(), 100_000_000), (accounts.bob.clone(), 1_000_000_000)],
    );

    let alice_record = *contract.accounts.get(&accounts.alice).unwrap();
    assert_ne!(0, alice_record.balance);

    let bob_record = *contract.accounts.get(&accounts.bob).unwrap();
    assert_ne!(0, bob_record.balance);

    contract.clean(&context.caller, vec![accounts.alice.clone(), accounts.bob.clone()]).unwrap();

    let alice_record = contract.accounts.get(&accounts.alice);
    assert!(alice_record.is_none());

    let bob_record = contract.accounts.get(&accounts.bob);
    assert!(bob_record.is_none());
    assert_eq!(1_100_000_000, contract.balance_to_burn);
}

#[test]
fn clean_drops_a_legacy_record_without_sweeping_it() {
    let (_, mut contract, accounts) = legacy_contract();
    contract.clean(&accounts.oracle, vec![accounts.alice.clone(), accounts.bob.clone()]).unwrap();
    assert!(!contract.accounts_legacy.contains_key(&accounts.alice));
    assert_eq!(0, contract.accounts.len());
    assert_eq!(0, contract.balance_to_burn);
}

#[test]
fn legacy_account_is_read_through_the_table_of_accruals() {
    let (mut context, contract, accounts) = legacy_contract();
    assert_eq!(7, contract.accrued_amount(10, 1));
    assert_eq!(0, contract.accrued_amount(10, 2));
    assert_eq!(0, contract.accrued_amount(11, 0));

    context.set_block_timestamp_in_seconds(600);
    assert_eq!(18, context.balance(&contract, &accounts.alice));
    assert_eq!(ClaimAvailabilityView::Available(4), contract.is_claim_available(&accounts.alice, context.now));

    // The batches of 10 and of 77 are older than the burn period now.
    context.set_block_timestamp_in_seconds(1_100);
    assert_eq!(11, context.balance(&contract, &accounts.alice));
    assert_eq!(ClaimAvailabilityView::Available(1), contract.is_claim_available(&accounts.alice, context.now));

    context.set_block_timestamp_in_seconds(50);
    assert_eq!(
        ClaimAvailabilityView::Unavailable((3, 100)),
        contract.is_claim_available(&accounts.alice, 600 - 550)
    );
    assert_eq!(ClaimAvailabilityView::Unregistered, contract.is_claim_available(&accounts.bob, context.now));
}

#[test]
fn migration_turns_a_legacy_record_into_a_current_one() {
    let (_, mut contract, accounts) = legacy_contract();
    assert_eq!(Err(ContractError::Unauthorized), contract.migrate_accounts(&accounts.bob, vec![accounts.alice.clone()]));
    assert!(contract.accounts_legacy.contains_key(&accounts.alice));

    contract.migrate_accounts(&accounts.oracle, vec![accounts.alice.clone(), accounts.bob.clone()]).unwrap();
    assert!(!contract.accounts_legacy.contains_key(&accounts.alice));
    assert_eq!(1, contract.accounts.len());
    assert_eq!(
        AccountRecord {
            balance: 18,
            claim_period_refreshed_at: 3,
            last_top_up_at: 500,
            last_burn_at: 500,
            burn_rate: 0,
            is_locked: false,
        },
        *contract.accounts.get(&accounts.alice).unwrap()
    );

    // A second time changes nothing.
    contract.migrate_account_if_outdated(&accounts.alice);
    assert_eq!(18, contract.accounts.get(&accounts.alice).unwrap().balance);
}

#[test]
fn record_and_claim_migrate_first() {
    let (mut context, mut contract, accounts) = legacy_contract();
    context.set_block_timestamp_in_seconds(600);
    context.switch_account(&accounts.oracle);
    let data = context.record(&mut contract, vec![(accounts.alice.clone(), 1_000)]);
    assert_eq!(0, data.amounts[0].1.burnt);
    assert!(!contract.accounts_legacy.contains_key(&accounts.alice));
    let record = *contract.accounts.get(&accounts.alice).unwrap();
    assert_eq!(1_018, record.balance);
    assert_eq!(600, record.last_top_up_at);
    assert_eq!(1, record.burn_rate);

    let (mut context, mut contract, accounts) = legacy_contract();
    context.set_block_timestamp_in_seconds(600);
    context.switch_account(&accounts.alice);
    assert_eq!(Some(contract.migrated_record(contract.accounts_legacy.get(&accounts.alice).unwrap())), contract.peek_account(&accounts.alice));
    let claimed = context.claim(&mut contract).unwrap();
    assert_eq!(Some(18), claimed.total);
    assert!(!contract.accounts_legacy.contains_key(&accounts.alice));
    assert_eq!(600, contract.accounts.get(&accounts.alice).unwrap().claim_period_refreshed_at);
}

#[test]
fn state_migration_keeps_the_settings_and_starts_without_current_accounts() {
    let mut accounts = IdMap::new();
    accounts.insert(
        "alice".to_string(),
        AccountRecordLegacy { accruals: vec![(1, 0)], is_locked: false, claim_period_refreshed_at: 1 },
    );
    let mut accruals = std::collections::HashMap::new();
    accruals.insert(1, AccrualBucket { amounts: vec![42], total: 42 });
    let old_state = OldState {
        token_account_id: "token".to_string(),
        oracles: vec!["oracle".to_string()],
        claim_period: 11,
        burn_period: 22,
        accruals,
        accounts,
        is_service_call_running: true,
    };
    let contract = Contract::migrate(old_state);
    assert_eq!("token", contract.token_account_id);
    assert!(contract.is_oracle(&"oracle".to_string()));
    assert_eq!(11, contract.claim_period);
    assert_eq!(22, contract.burn_period);
    assert_eq!(42, contract.accrued_amount(1, 0));
    assert_eq!(1, contract.accounts_legacy.len());
    assert_eq!(0, contract.accounts.len());
    assert!(contract.is_service_call_running);
    assert_eq!(0, contract.balance_to_burn);
}

#[test]
fn funds_change_by_credits_claims_and_burns_only() {
    let (mut context, mut contract, accounts) = Context::init_with_oracle();
    contract.set_claim_period(0);
    contract.set_burn_period(10_000);
    context.switch_account(&accounts.oracle);
    let funds = |contract: &Contract| {
        let alice = contract.accounts.get(&"alice".to_string()).map_or(0, |record| record.balance);
        let bob = contract.accounts.get(&"bob".to_string()).map_or(0, |record| record.balance);
        alice + bob + contract.balance_to_burn
    };

    context.record(&mut contract, vec![(accounts.alice.clone(), 1_000_000), (accounts.bob.clone(), 30)]);
    assert_eq!(1_000_030, funds(&contract));

    context.set_block_timestamp_in_seconds(12_000);
    context.record(&mut contract, vec![(accounts.alice.clone(), 70)]);
    assert_eq!(1_000_100, funds(&contract));
    assert_eq!(200_000, contract.balance_to_burn);

    context.switch_account(&accounts.bob);
    let claimed = context.claim(&mut contract).unwrap();
    assert_eq!(ClaimResultView::new(Some(0)), claimed);
    assert_eq!(1_000_100, funds(&contract));
    assert_eq!(200_030, contract.balance_to_burn);

    context.switch_account(&accounts.oracle);
    assert_eq!(Ok(BurnStep::Suspended(200_030)), contract.burn(&accounts.oracle));
    assert_eq!(200_030, contract.on_burn_internal(200_030, true));
    assert_eq!(1_000_100 - 200_030, funds(&contract));

    contract.clean(&accounts.oracle, vec![accounts.alice.clone()]).unwrap();
    assert_eq!(1_000_100 - 200_030, funds(&contract));
    assert_eq!(Ok(ClaimStep::Settled(ClaimResultView::new(Some(0)))), contract.claim(&accounts.bob, 12_000));
}

#[test]
fn checks_tell_when_the_books_would_go_out_of_order() {
    let (mut context, mut contract, accounts) = Context::init_with_oracle();
    contract.set_burn_period(10_000);
    context.switch_account(&accounts.oracle);
    context.record(&mut contract, vec![(accounts.alice.clone(), 1_000_000)]);

    assert!(contract.can_record(&accounts.alice, u128::MAX - 1_000_000, 0));
    assert!(!contract.can_record(&accounts.alice, u128::MAX - 999_999, 0));
    // A rate of 100 a second for 20,000 seconds is more than the balance holds.
    assert!(contract.can_record(&accounts.alice, 1, 20_000));
    assert!(!contract.can_record(&accounts.alice, 1, 20_001));
    contract.set_burn_period(0);
    assert!(!contract.can_record(&accounts.bob, 1, 0));
    contract.set_burn_period(10_000);

    let result = contract.try_record_batch_for_hold(
        &accounts.oracle,
        vec![(accounts.bob.clone(), 5), (accounts.alice.clone(), 1), (accounts.bob.clone(), 7)],
        20_001,
    );
    assert!(matches!(result, Err(sweat_claim::state::BatchFault::Inadmissible(1))));
    assert_eq!(5, contract.accounts.get(&accounts.bob).unwrap().balance);
    let result = contract.try_record_batch_for_hold(&accounts.alice, vec![(accounts.bob.clone(), 5)], 20_001);
    assert!(matches!(result, Err(sweat_claim::state::BatchFault::Unauthorized)));
    let data = contract
        .try_record_batch_for_hold(&accounts.oracle, vec![(accounts.alice.clone(), 9)], 15_000)
        .unwrap();
    assert_eq!(RecordAmountDetailed { credited: 9, burnt: 500_000 }, data.amounts[0].1);

    // A timestamp ahead of the clock cannot be read.
    assert!(contract.can_claim(&accounts.bob, 20_001));
    assert!(!contract.can_claim(&accounts.bob, 20_000));
    assert!(contract.can_claim(&accounts.owner, 0));
    assert!(!contract.can_get_claimable_balance(&accounts.bob, 20_000));
    assert!(contract.can_get_claimable_balance(&accounts.bob, 20_001));
    assert!(!contract.can_check_claim_availability(&accounts.bob, 20_000));
    assert!(contract.can_check_claim_availability(&accounts.bob, 20_001));

    contract.balance_to_burn = u128::MAX - 4;
    assert!(!contract.can_clean(&accounts.bob));
    assert!(contract.can_clean(&accounts.owner));
    assert_eq!(
        Err(sweat_claim::state::BatchFault::Inadmissible(1)),
        contract.try_clean(&accounts.oracle, vec![accounts.owner.clone(), accounts.bob.clone()])
    );
    assert_eq!(Err(sweat_claim::state::BatchFault::Unauthorized), contract.try_clean(&accounts.bob, vec![]));
    assert!(contract.can_settle_transfer(0, 4, true));
    assert!(!contract.can_settle_transfer(0, 5, true));
    assert!(contract.can_settle_transfer(u128::MAX, 4, true));
    assert!(!contract.can_settle_transfer(u128::MAX, 1, false));
    assert!(contract.can_settle_burn(5, true));
    assert!(!contract.can_settle_burn(5, false));
    assert!(contract.can_settle_burn(4, false));
    contract.balance_to_burn = 0;
    assert_eq!(Ok(()), contract.try_clean(&accounts.oracle, vec![accounts.owner.clone(), accounts.bob.clone()]));
    assert_eq!(5, contract.balance_to_burn);
}

#[test]
fn legacy_checks_follow_the_table_of_accruals() {
    let (_, mut contract, accounts) = legacy_contract();
    assert!(contract.can_migrate(&accounts.alice));
    assert!(contract.can_migrate(&accounts.bob));
    assert_eq!(
        Some(18),
        contract.checked_legacy_balance(contract.accounts_legacy.get(&accounts.alice).unwrap())
    );
    // The latest pointer is of 500: before that the account cannot be read.
    assert!(!contract.can_get_claimable_balance(&accounts.alice, 499));
    assert!(contract.can_get_claimable_balance(&accounts.alice, 500));
    assert!(contract.can_check_claim_availability(&accounts.alice, 50));
    assert!(!contract.can_check_claim_availability(&accounts.alice, 2));
    assert!(!contract.can_check_claim_availability(&accounts.alice, 499));
    assert!(contract.can_claim(&accounts.alice, 3));
    assert!(!contract.can_claim(&accounts.alice, 2));

    contract.accruals.insert(600, AccrualBucket { amounts: vec![u128::MAX], total: u128::MAX });
    contract.accounts_legacy.insert(
        accounts.bob.clone(),
        AccountRecordLegacy { accruals: vec![(600, 0), (10, 0)], is_locked: true, claim_period_refreshed_at: 0 },
    );
    assert!(!contract.can_migrate(&accounts.bob));
    assert_eq!(None, contract.checked_legacy_balance(contract.accounts_legacy.get(&accounts.bob).unwrap()));
    assert!(!contract.can_record(&accounts.bob, 0, 700));
    assert!(!contract.can_get_claimable_balance(&accounts.bob, 700));
    assert!(contract.can_get_claimable_balance(&accounts.bob, 1_700));
    assert_eq!(
        Err(sweat_claim::state::BatchFault::Inadmissible(1)),
        contract.try_migrate_accounts(&accounts.oracle, vec![accounts.alice.clone(), accounts.bob.clone()])
    );
    assert_eq!(Err(sweat_claim::state::BatchFault::Unauthorized), contract.try_migrate_accounts(&accounts.bob, vec![]));
    assert!(contract.accounts.contains_key(&accounts.alice));
    assert!(contract.accounts_legacy.contains_key(&accounts.bob));
    assert_eq!("alice", contract.accounts.key_at(0));
    assert_eq!(18, contract.accounts.value_at(0).balance);
}

#[test]
fn transfer_is_asked_for_only_where_something_is_handed_out() {
    let (_, contract, accounts) = Context::init_with_oracle();
    let request = sweat_claim::claim::TransferRequest { now: 7, amount_to_claim: 12, amount_to_burn: 3 };
    let call = contract.transfer_external(&accounts.alice, request).unwrap();
    assert_eq!("token", call.token_account_id);
    assert_eq!("alice", call.receiver_id);
    assert_eq!(12, call.amount);
    let request = sweat_claim::claim::TransferRequest { now: 7, amount_to_claim: 0, amount_to_burn: 3 };
    assert!(contract.transfer_external(&accounts.alice, request).is_none());
}

#[test]
fn errors_have_their_words() {
    assert_eq!("Unauthorized access", ContractError::Unauthorized.message());
    assert_eq!("Claim is not available at the moment", ContractError::ClaimUnavailable.message());
    assert_eq!("Another operation is running", ContractError::AccountLocked.message());
    assert_eq!("Another service call is running", ContractError::ServiceCallRunning.message());
}

#[test]
fn account_is_created_on_first_touch() {
    let (_, mut contract, accounts) = Context::init_with_oracle();
    assert!(contract.accounts.get(&accounts.alice).is_none());
    let record = contract.get_or_create_account(&accounts.alice, 42);
    assert_eq!(AccountRecord::new(42), record);
    assert_eq!(Some(&record), contract.accounts.get(&accounts.alice));

    // A second touch finds the account and leaves it as it is.
    let again = contract.get_or_create_account(&accounts.alice, 99);
    assert_eq!(42, again.claim_period_refreshed_at);
    assert_eq!(1, contract.accounts.len());
}
