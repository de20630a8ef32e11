//! The records of the escrow and their mathematical models.

use vstd::prelude::*;

verus! {

/// Identifier of a trigger, assigned at creation.
pub type TriggerId = String;

/// An amount of the collateral asset, in its smallest unit.
pub type Balance = u128;

/// The kinds of real-world condition that can be monitored.
#[derive(Clone, Copy, Debug, PartialEq, Eq, Structural)]
pub enum ConditionType {
    FlightCancellation,
}

/// A monitored condition: its kind and the parameters of that kind.
#[derive(Debug)]
pub struct Condition {
    pub condition_type: ConditionType,
    pub flight_number: String,
    /// Calendar date of the flight, such as `2026-02-15`.
    pub flight_date: String,
}

/// Model of a [`Condition`].
pub struct ConditionModel {
    pub condition_type: ConditionType,
    pub flight_number: Seq<char>,
    pub flight_date: Seq<char>,
}

impl View for Condition {
    type V = ConditionModel;

    open spec fn view(&self) -> ConditionModel {
        ConditionModel {
            condition_type: self.condition_type,
            flight_number: self.flight_number@,
            flight_date: self.flight_date@,
        }
    }
}

impl Clone for Condition {
    fn clone(&self) -> (copy: Self)
        ensures
            copy == *self,
    {
        Condition {
            condition_type: self.condition_type,
            flight_number: self.flight_number.clone(),
            flight_date: self.flight_date.clone(),
        }
    }
}

/// The settlement networks a payout can be made on.
#[derive(Clone, Copy, Debug, PartialEq, Eq, Structural)]
pub enum Chain {
    Ethereum,
    Base,
    Arbitrum,
}

/// What is paid, and where, once the condition is confirmed.
#[derive(Debug)]
pub struct Payout {
    /// Amount in the smallest unit of the token, in decimal.
    pub amount: String,
    /// Symbol of the token, such as `ETH`.
    pub token: String,
    /// Recipient on the destination network.
    pub address: String,
    pub chain: Chain,
}

/// Model of a [`Payout`].
pub struct PayoutModel {
    pub amount: Seq<char>,
    pub token: Seq<char>,
    pub address: Seq<char>,
    pub chain: Chain,
}

impl View for Payout {
    type V = PayoutModel;

    open spec fn view(&self) -> PayoutModel {
        PayoutModel {
            amount: self.amount@,
            token: self.token@,
            address: self.address@,
            chain: self.chain,
        }
    }
}

impl Clone for Payout {
    fn clone(&self) -> (copy: Self)
        ensures
            copy == *self,
    {
        Payout {
            amount: self.amount.clone(),
            token: self.token.clone(),
            address: self.address.clone(),
            chain: self.chain,
        }
    }
}

/// Where a trigger stands in its life. `Expired` describes an active trigger
/// whose time has run out; it is never stored.
#[derive(Clone, Copy, Debug, PartialEq, Eq, Structural)]
pub enum Status {
    Active,
    Executed,
    Refunded,
    Expired,
}

/// An escrowed, conditional payout instruction.
#[derive(Debug)]
pub struct Trigger {
    pub id: TriggerId,
    pub owner: String,
    pub condition: Condition,
    pub payout: Payout,
    pub funded_amount: Balance,
    pub status: Status,
    /// Nanoseconds.
    pub created_at: u64,
    /// Nanoseconds.
    pub expires_at: u64,
    /// Proof of settlement on the destination network, once there is one.
    pub executed_tx: Option<String>,
}

/// Model of a [`Trigger`].
pub struct TriggerModel {
    pub id: Seq<char>,
    pub owner: Seq<char>,
    pub condition: ConditionModel,
    pub payout: PayoutModel,
    pub funded_amount: nat,
    pub status: Status,
    pub created_at: nat,
    pub expires_at: nat,
    pub executed_tx: Option<Seq<char>>,
}

/// Model of an optional text.
pub open spec fn text_model(text: Option<String>) -> Option<Seq<char>> {
    match text {
        Some(s) => Some(s@),
        None => None,
    }
}

impl View for Trigger {
    type V = TriggerModel;

    open spec fn view(&self) -> TriggerModel {
        TriggerModel {
            id: self.id@,
            owner: self.owner@,
            condition: self.condition@,
            payout: self.payout@,
            funded_amount: self.funded_amount as nat,
            status: self.status,
            created_at: self.created_at as nat,
            expires_at: self.expires_at as nat,
            executed_tx: text_model(self.executed_tx),
        }
    }
}

impl Clone for Trigger {
    fn clone(&self) -> (copy: Self)
        ensures
            copy == *self,
    {
        let executed_tx = match &self.executed_tx {
            Some(tx) => Some(tx.clone()),
            None => None,
        };
        Trigger {
            id: self.id.clone(),
            owner: self.owner.clone(),
            condition: self.condition.clone(),
            payout: self.payout.clone(),
            funded_amount: self.funded_amount,
            status: self.status,
            created_at: self.created_at,
            expires_at: self.expires_at,
            executed_tx,
        }
    }
}

/// A report by the attestor on whether the monitored condition holds.
#[derive(Debug)]
pub struct Attestation {
    pub trigger_id: TriggerId,
    pub timestamp: u64,
    /// Digest of the evidence consulted, in hexadecimal.
    pub api_response_hash: String,
    /// The state observed, such as `scheduled` or `cancelled`.
    pub flight_status: String,
    pub condition_met: bool,
    /// The attestor's signature, in hexadecimal.
    pub signature: String,
}

/// Model of an [`Attestation`].
pub struct AttestationModel {
    pub trigger_id: Seq<char>,
    pub timestamp: nat,
    pub api_response_hash: Seq<char>,
    pub flight_status: Seq<char>,
    pub condition_met: bool,
    pub signature: Seq<char>,
}

impl View for Attestation {
    type V = AttestationModel;

    open spec fn view(&self) -> AttestationModel {
        AttestationModel {
            trigger_id: self.trigger_id@,
            timestamp: self.timestamp as nat,
            api_response_hash: self.api_response_hash@,
            flight_status: self.flight_status@,
            condition_met: self.condition_met,
            signature: self.signature@,
        }
    }
}

impl Clone for Attestation {
    fn clone(&self) -> (copy: Self)
        ensures
            copy == *self,
    {
        Attestation {
            trigger_id: self.trigger_id.clone(),
            timestamp: self.timestamp,
            api_response_hash: self.api_response_hash.clone(),
            flight_status: self.flight_status.clone(),
            condition_met: self.condition_met,
            signature: self.signature.clone(),
        }
    }
}

/// A trigger as the query surface shows it, with the length of its
/// attestation log.
#[derive(Debug)]
pub struct TriggerView {
    pub id: TriggerId,
    pub owner: String,
    pub condition: Condition,
    pub payout: Payout,
    /// The collateral, in decimal.
    pub funded_amount: String,
    pub status: Status,
    pub created_at: u64,
    pub expires_at: u64,
    pub executed_tx: Option<String>,
    pub attestation_count: u32,
}

/// Model of a [`TriggerView`].
pub struct TriggerViewModel {
    pub id: Seq<char>,
    pub owner: Seq<char>,
    pub condition: ConditionModel,
    pub payout: PayoutModel,
    pub funded_amount: Seq<char>,
    pub status: Status,
    pub created_at: nat,
    pub expires_at: nat,
    pub executed_tx: Option<Seq<char>>,
    pub attestation_count: nat,
}

impl View for TriggerView {
    type V = TriggerViewModel;

    open spec fn view(&self) -> TriggerViewModel {
        TriggerViewModel {
            id: self.id@,
            owner: self.owner@,
            condition: self.condition@,
            payout: self.payout@,
            funded_amount: self.funded_amount@,
            status: self.status,
            created_at: self.created_at as nat,
            expires_at: self.expires_at as nat,
            executed_tx: text_model(self.executed_tx),
            attestation_count: self.attestation_count as nat,
        }
    }
}

/// The models of a sequence of triggers, in order.
pub open spec fn trigger_models(triggers: Seq<Trigger>) -> Seq<TriggerModel> {
    Seq::new(triggers.len(), |i: int| triggers[i]@)
}

/// The models of a sequence of attestations, in order.
pub open spec fn attestation_models(log: Seq<Attestation>) -> Seq<AttestationModel> {
    Seq::new(log.len(), |i: int| log[i]@)
}

/// The models of a sequence of trigger views, in order.
pub open spec fn view_models(views: Seq<TriggerView>) -> Seq<TriggerViewModel> {
    Seq::new(views.len(), |i: int| views[i]@)
}

} // verus!
