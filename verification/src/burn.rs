//! Burning the aggregate of what decayed, in two phases around the burn
//! that the token contract performs.

use vstd::prelude::*;
use crate::common::{AccountId, TokensAmount};
use crate::state::{Contract, ContractError, LedgerState};

verus! {

/// How the first phase of a burn ended.
#[derive(Clone, Copy, Debug, PartialEq, Eq, Structural)]
pub enum BurnStep {
    /// Nothing awaited burning: the burn is over, with this amount, zero.
    Settled(TokensAmount),
    /// The ledger is reserved and waits for the burn of this amount; its
    /// outcome goes to `on_burn_internal`.
    Suspended(TokensAmount),
}

/// How the first phase of a burn asked for by `caller` ends. It is turned
/// down for a caller that is no oracle, and while another burn awaits its
/// settlement. It is over at once where nothing awaits burning. Otherwise
/// it waits for the burn of the whole aggregate.
pub open spec fn burn_outcome(s: LedgerState, caller: Seq<char>) -> Result<BurnStep, ContractError> {
    if !s.is_oracle(caller) {
        Err(ContractError::Unauthorized)
    } else if s.is_service_call_running {
        Err(ContractError::ServiceCallRunning)
    } else if s.balance_to_burn == 0 {
        Ok(BurnStep::Settled(0))
    } else {
        Ok(BurnStep::Suspended(s.balance_to_burn))
    }
}

/// The state after the first phase of a burn asked for by `caller`. Only
/// where the burn waits for its settlement anything changes: the aggregate
/// is taken out and the ledger is marked as waiting.
pub open spec fn burn_state(s: LedgerState, caller: Seq<char>) -> LedgerState {
    match burn_outcome(s, caller) {
        Ok(BurnStep::Suspended(_)) => LedgerState { is_service_call_running: true, balance_to_burn: 0, ..s },
        _ => s,
    }
}

/// The state after the burn of `amount_to_burn` ended. Either way the
/// ledger waits no longer. After a failure the amount is added back to the
/// aggregate, which may have grown in the meantime.
pub open spec fn burn_settled(s: LedgerState, amount_to_burn: TokensAmount, is_success: bool) -> LedgerState {
    LedgerState {
        is_service_call_running: false,
        balance_to_burn: if is_success {
            s.balance_to_burn
        } else {
            (s.balance_to_burn + amount_to_burn) as TokensAmount
        },
        ..s
    }
}

/// The outcome of a burn can be taken in: after a failure the aggregate
/// can take the amount back.
pub open spec fn burn_outcome_fits(s: LedgerState, amount_to_burn: TokensAmount, is_success: bool) -> bool {
    is_success || s.balance_to_burn + amount_to_burn <= TokensAmount::MAX
}

/// What the caller of a burn is told once it ended: the amount burned,
/// zero after a failure.
pub open spec fn burn_result(amount_to_burn: TokensAmount, is_success: bool) -> TokensAmount {
    if is_success {
        amount_to_burn
    } else {
        0
    }
}

impl Contract {
    /// The first phase of a burn.
    ///
    /// The burn is turned down, and nothing changes, for a caller that is no
    /// oracle and while another burn awaits its settlement. Where nothing
    /// awaits burning it is over at once, with zero. Otherwise the aggregate
    /// is taken out, the ledger is marked as waiting, and the caller is told
    /// what to burn; the outcome goes to `on_burn_internal`.
    pub fn burn(&mut self, caller: &AccountId) -> (result: Result<BurnStep, ContractError>)
        ensures
            result == burn_outcome(old(self)@, caller@),
            final(self)@ == burn_state(old(self)@, caller@),
    {
        if !self.is_oracle(caller) {
            return Err(ContractError::Unauthorized);
        }
        if self.is_service_call_running {
            return Err(ContractError::ServiceCallRunning);
        }
        let amount_to_burn = self.balance_to_burn;
        if amount_to_burn > 0 {
            self.is_service_call_running = true;
            self.balance_to_burn = 0;
            Ok(BurnStep::Suspended(amount_to_burn))
        } else {
            Ok(BurnStep::Settled(0))
        }
    }

    /// Tells whether the outcome of a burn can be taken in, so that
    /// `on_burn_internal` may be called.
    pub fn can_settle_burn(&self, amount_to_burn: TokensAmount, is_success: bool) -> (fits: bool)
        ensures
            fits == burn_outcome_fits(self@, amount_to_burn, is_success),
    {
        is_success || self.balance_to_burn.checked_add(amount_to_burn).is_some()
    }

    /// The second phase of a burn: takes in how the burn of
    /// `amount_to_burn` ended, and reports the amount burned.
    pub fn on_burn_internal(&mut self, amount_to_burn: TokensAmount, is_success: bool) -> (burnt: TokensAmount)
        requires
            burn_outcome_fits(old(self)@, amount_to_burn, is_success),
        ensures
            final(self)@ == burn_settled(old(self)@, amount_to_burn, is_success),
            burnt == burn_result(amount_to_burn, is_success),
    {
        self.is_service_call_running = false;
        if is_success {
            amount_to_burn
        } else {
            self.balance_to_burn = self.balance_to_burn + amount_to_burn;
            0
        }
    }
}

/// While a burn awaits its settlement, another burn is turned down and
/// changes nothing.
pub proof fn lemma_single_burn_in_flight(s: LedgerState, caller: Seq<char>, amount: TokensAmount, other: Seq<char>)
    requires
        burn_outcome(s, caller) == Ok::<BurnStep, ContractError>(BurnStep::Suspended(amount)),
    ensures
        burn_outcome(burn_state(s, caller), other).is_err(),
        burn_state(burn_state(s, caller), other) == burn_state(s, caller),
{
}

/// However the burn ended, the ledger waits no longer afterwards, and what
/// decayed in the meantime is still in the aggregate.
pub proof fn lemma_burn_settlement_clears_flag(s: LedgerState, amount: TokensAmount, is_success: bool)
    requires
        burn_outcome_fits(s, amount, is_success),
    ensures
        !burn_settled(s, amount, is_success).is_service_call_running,
        burn_settled(s, amount, is_success).balance_to_burn >= s.balance_to_burn,
        !is_success ==> burn_settled(s, amount, is_success).balance_to_burn == s.balance_to_burn + amount,
{
}

/// A failed burn that nothing came between leaves the ledger as it was
/// before the burn began.
pub proof fn lemma_failed_burn_restores(s: LedgerState, caller: Seq<char>, amount: TokensAmount)
    requires
        burn_outcome(s, caller) == Ok::<BurnStep, ContractError>(BurnStep::Suspended(amount)),
    ensures
        burn_settled(burn_state(s, caller), amount, false) == s,
{
}

} // verus!
