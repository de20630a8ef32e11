//! The life of one trigger: how it comes to be, and the two ways it ends.
//!
//! The functions here decide; they keep nothing. Whoever holds the store finds
//! the trigger, lets one of them act on it, and carries out what it returns.

use crate::error::Error;
use crate::params::EXPIRY_HORIZON;
use crate::params::MINIMUM_DEPOSIT;
use crate::payout::build_request;
use crate::payout::payout_request_of;
use crate::payout::refund_amount;
use crate::payout::refund_for;
use crate::payout::PayoutRequest;
use crate::payout::PayoutRequestModel;
use crate::payout::RefundInstruction;
use crate::payout::RefundModel;
use crate::text::decimal_digits;
use crate::text::decimal_string;
use crate::text::format_trigger_id;
use crate::text::is_evm_address;
use crate::text::is_valid_address;
use crate::text::trigger_id_text;
use crate::types::Attestation;
use crate::types::AttestationModel;
use crate::types::Balance;
use crate::types::Condition;
use crate::types::ConditionModel;
use crate::types::Payout;
use crate::types::PayoutModel;
use crate::types::Status;
use crate::types::Trigger;
use crate::types::TriggerModel;
use crate::types::TriggerView;
use crate::types::TriggerViewModel;
use vstd::prelude::*;

verus! {

/// Why a trigger with these terms cannot be created, if it cannot. The
/// deposit is looked at first, then the condition, then the amount and its
/// token, then the address.
pub open spec fn creation_fault(
    condition: ConditionModel,
    payout: PayoutModel,
    deposit: nat,
) -> Option<Error> {
    if deposit < MINIMUM_DEPOSIT {
        Some(Error::InsufficientDeposit)
    } else if condition.flight_number.len() == 0 || condition.flight_date.len() == 0 {
        Some(Error::InvalidCondition)
    } else if payout.amount.len() == 0 || payout.token.len() == 0 {
        Some(Error::InvalidPayoutAmount)
    } else if !is_evm_address(payout.address) {
        Some(Error::InvalidPayoutAddress)
    } else {
        None
    }
}

/// The trigger with sequence number `counter` as it is when created: active,
/// and expiring one horizon after `now`.
pub open spec fn opened(
    counter: nat,
    owner: Seq<char>,
    condition: ConditionModel,
    payout: PayoutModel,
    deposit: nat,
    now: nat,
) -> TriggerModel {
    TriggerModel {
        id: trigger_id_text(counter),
        owner,
        condition,
        payout,
        funded_amount: deposit,
        status: Status::Active,
        created_at: now,
        expires_at: now + EXPIRY_HORIZON as nat,
        executed_tx: None,
    }
}

/// What opening a trigger gives: the fault of the terms, or the trigger.
pub open spec fn open_result(
    counter: nat,
    owner: Seq<char>,
    condition: ConditionModel,
    payout: PayoutModel,
    deposit: nat,
    now: nat,
) -> Result<TriggerModel, Error> {
    match creation_fault(condition, payout, deposit) {
        Some(fault) => Err(fault),
        None => Ok(opened(counter, owner, condition, payout, deposit, now)),
    }
}

impl TriggerModel {
    /// What an attestation for this trigger is answered with: an error where
    /// the trigger is no longer active, the payout request where the
    /// attestation confirms the condition, and nothing where it does not.
    pub open spec fn attestation_result(self, attestation: AttestationModel) -> Result<
        Option<PayoutRequestModel>,
        Error,
    > {
        if self.status != Status::Active {
            Err(Error::TriggerNotActive)
        } else if attestation.condition_met {
            Ok(Some(payout_request_of(self)))
        } else {
            Ok(None)
        }
    }

    /// This trigger after an attestation: executed where it was active and
    /// the attestation confirms the condition, else as it was.
    pub open spec fn after_attestation(self, attestation: AttestationModel) -> TriggerModel {
        if self.status == Status::Active && attestation.condition_met {
            TriggerModel { status: Status::Executed, ..self }
        } else {
            self
        }
    }

    /// What a refund claim by `caller` at the time `now` is answered with:
    /// the first of the errors that applies (caller not the owner, trigger
    /// not active, not yet expired), else the instruction to return the
    /// collateral less the retention fee to the owner.
    pub open spec fn refund_result(self, caller: Seq<char>, now: nat) -> Result<
        RefundModel,
        Error,
    > {
        if caller != self.owner {
            Err(Error::NotOwner)
        } else if self.status != Status::Active {
            Err(Error::TriggerNotActive)
        } else if now <= self.expires_at {
            Err(Error::NotYetExpired)
        } else {
            Ok(RefundModel { recipient: self.owner, amount: refund_amount(self.funded_amount) })
        }
    }

    /// This trigger after a refund claim: refunded where the claim is
    /// granted, else as it was.
    pub open spec fn after_refund(self, caller: Seq<char>, now: nat) -> TriggerModel {
        if self.refund_result(caller, now) is Ok {
            TriggerModel { status: Status::Refunded, ..self }
        } else {
            self
        }
    }

    /// Whether this trigger counts as expired at the time `now`: it is still
    /// active and its time has run out.
    pub open spec fn expired_at(self, now: nat) -> bool {
        self.status == Status::Active && now > self.expires_at
    }

    /// This trigger as the query surface shows it beside a log of
    /// `log_len` attestations: its fields, the collateral in decimal, and
    /// the length of the log counted modulo two to the power thirty-two.
    pub open spec fn shown_with(self, log_len: nat) -> TriggerViewModel {
        TriggerViewModel {
            id: self.id,
            owner: self.owner,
            condition: self.condition,
            payout: self.payout,
            funded_amount: decimal_digits(self.funded_amount),
            status: self.status,
            created_at: self.created_at,
            expires_at: self.expires_at,
            executed_tx: self.executed_tx,
            attestation_count: log_len % 0x1_0000_0000,
        }
    }
}

/// What examining the terms of a trigger gives.
pub open spec fn terms_result(condition: ConditionModel, payout: PayoutModel, deposit: nat) -> Result<
    (),
    Error,
> {
    match creation_fault(condition, payout, deposit) {
        Some(fault) => Err(fault),
        None => Ok(()),
    }
}

/// What asking whether `caller` is the contract's `owner` gives.
pub open spec fn owner_result(owner: Seq<char>, caller: Seq<char>) -> Result<(), Error> {
    if caller == owner {
        Ok(())
    } else {
        Err(Error::NotContractOwner)
    }
}

/// Tells whether `caller` is the contract's `owner`, who alone may
/// administer it.
pub fn check_contract_owner(owner: &String, caller: &String) -> (result: Result<(), Error>)
    ensures
        result == owner_result(owner@, caller@),
{
    if *caller == *owner {
        Ok(())
    } else {
        Err(Error::NotContractOwner)
    }
}

/// Examines the terms of a trigger: the deposit first, then the condition,
/// then the amount and its token, then the address. The first fault found
/// is the error.
pub fn check_terms(condition: &Condition, payout: &Payout, deposit: Balance) -> (result: Result<
    (),
    Error,
>)
    ensures
        result == terms_result(condition@, payout@, deposit as nat),
{
    if deposit < MINIMUM_DEPOSIT {
        return Err(Error::InsufficientDeposit);
    }
    if condition.flight_number.as_str().is_empty() || condition.flight_date.as_str().is_empty() {
        return Err(Error::InvalidCondition);
    }
    if payout.amount.as_str().is_empty() || payout.token.as_str().is_empty() {
        return Err(Error::InvalidPayoutAmount);
    }
    if !is_valid_address(payout.address.as_str()) {
        return Err(Error::InvalidPayoutAddress);
    }
    Ok(())
}

/// Examines the terms of a trigger and, where they are in order, makes the
/// trigger with sequence number `counter`. The deposit is examined first,
/// then the condition, then the amount and its token, then the address; the
/// first fault found is the error.
pub fn open_trigger(
    counter: u64,
    owner: String,
    condition: Condition,
    payout: Payout,
    deposit: Balance,
    now: u64,
) -> (result: Result<Trigger, Error>)
    requires
        now + EXPIRY_HORIZON <= u64::MAX,
    ensures
        match result {
            Ok(trigger) => open_result(
                counter as nat,
                owner@,
                condition@,
                payout@,
                deposit as nat,
                now as nat,
            ) == Ok::<TriggerModel, Error>(trigger@),
            Err(fault) => open_result(
                counter as nat,
                owner@,
                condition@,
                payout@,
                deposit as nat,
                now as nat,
            ) == Err::<TriggerModel, Error>(fault),
        },
{
    match check_terms(&condition, &payout, deposit) {
        Err(fault) => {
            return Err(fault);
        },
        Ok(()) => {},
    }
    Ok(
        Trigger {
            id: format_trigger_id(counter),
            owner,
            condition,
            payout,
            funded_amount: deposit,
            status: Status::Active,
            created_at: now,
            expires_at: now + EXPIRY_HORIZON,
            executed_tx: None,
        },
    )
}

/// Lets `attestation` act on the trigger it was found for. An attestation
/// for a trigger that is no longer active is rejected and changes nothing.
/// One that confirms the condition makes the trigger executed, and the
/// request for its payout is returned. One that does not leaves the trigger
/// active, and nothing is returned.
pub fn apply_attestation(trigger: &mut Trigger, attestation: &Attestation) -> (result: Result<
    Option<PayoutRequest>,
    Error,
>)
    ensures
        final(trigger)@ == old(trigger)@.after_attestation(attestation@),
        result is Err ==> *final(trigger) == *old(trigger),
        match result {
            Ok(Some(request)) => old(trigger)@.attestation_result(attestation@) == Ok::<
                Option<PayoutRequestModel>,
                Error,
            >(Some(request@)),
            Ok(None) => old(trigger)@.attestation_result(attestation@) == Ok::<
                Option<PayoutRequestModel>,
                Error,
            >(None),
            Err(refusal) => old(trigger)@.attestation_result(attestation@) == Err::<
                Option<PayoutRequestModel>,
                Error,
            >(refusal),
        },
{
    if trigger.status != Status::Active {
        return Err(Error::TriggerNotActive);
    }
    if attestation.condition_met {
        trigger.status = Status::Executed;
        let request = build_request(trigger);
        Ok(Some(request))
    } else {
        Ok(None)
    }
}

/// Decides a refund claim made by `caller` at the time `now`. The claim is
/// rejected, and the trigger unchanged, where `caller` is not its owner,
/// where it is no longer active, or where `now` is not past its expiry; the
/// first of these that applies is the error. Else the trigger becomes
/// refunded, and the instruction returned transfers the collateral less the
/// retention fee to the owner.
pub fn apply_refund(trigger: &mut Trigger, caller: &String, now: u64) -> (result: Result<
    RefundInstruction,
    Error,
>)
    ensures
        final(trigger)@ == old(trigger)@.after_refund(caller@, now as nat),
        result is Err ==> *final(trigger) == *old(trigger),
        match result {
            Ok(refund) => old(trigger)@.refund_result(caller@, now as nat) == Ok::<
                RefundModel,
                Error,
            >(refund@),
            Err(refusal) => old(trigger)@.refund_result(caller@, now as nat) == Err::<
                RefundModel,
                Error,
            >(refusal),
        },
{
    if *caller != trigger.owner {
        return Err(Error::NotOwner);
    }
    if trigger.status != Status::Active {
        return Err(Error::TriggerNotActive);
    }
    if now <= trigger.expires_at {
        return Err(Error::NotYetExpired);
    }
    trigger.status = Status::Refunded;
    Ok(
        RefundInstruction {
            recipient: trigger.owner.clone(),
            amount: refund_for(trigger.funded_amount),
        },
    )
}

/// `trigger` as the query surface shows it beside a log of `log_len`
/// attestations.
pub fn show(trigger: &Trigger, log_len: u64) -> (shown: TriggerView)
    ensures
        shown@ == trigger@.shown_with(log_len as nat),
{
    TriggerView {
        id: trigger.id.clone(),
        owner: trigger.owner.clone(),
        condition: trigger.condition.clone(),
        payout: trigger.payout.clone(),
        funded_amount: decimal_string(trigger.funded_amount),
        status: trigger.status,
        created_at: trigger.created_at,
        expires_at: trigger.expires_at,
        executed_tx: match &trigger.executed_tx {
            Some(tx) => Some(tx.clone()),
            None => None,
        },
        attestation_count: (log_len % 0x1_0000_0000) as u32,
    }
}

} // verus!
