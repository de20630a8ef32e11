//! The escrow as a mathematical object: the state of the store and of the
//! attestation logs, and what each operation makes of it.

use crate::error::Error;
use crate::params::EXPIRY_HORIZON;
use crate::lifecycle::creation_fault;
use crate::lifecycle::opened;
use crate::lifecycle::owner_result;
use crate::payout::PayoutRequestModel;
use crate::payout::RefundModel;
use crate::text::lemma_trigger_id_unique;
use crate::text::trigger_id_text;
use crate::types::AttestationModel;
use crate::types::ConditionModel;
use crate::types::PayoutModel;
use crate::types::Status;
use crate::types::TriggerModel;
use crate::types::TriggerViewModel;
use vstd::prelude::*;

verus! {

/// Selects the triggers shown as active.
pub open spec fn shown_active() -> spec_fn(TriggerViewModel) -> bool {
    |shown: TriggerViewModel| shown.status == Status::Active
}

/// Selects the triggers shown as created by `owner`.
pub open spec fn shown_owned_by(owner: Seq<char>) -> spec_fn(TriggerViewModel) -> bool {
    |shown: TriggerViewModel| shown.owner == owner
}

/// Selects the triggers with the status `status`.
pub open spec fn has_status(status: Status) -> spec_fn(TriggerModel) -> bool {
    |trigger: TriggerModel| trigger.status == status
}

/// Filtering one element more either appends that element or changes nothing.
pub proof fn lemma_filter_step<A>(s: Seq<A>, keep: spec_fn(A) -> bool, i: int)
    requires
        0 <= i < s.len(),
    ensures
        s.take(i + 1).filter(keep) == if keep(s[i]) {
            s.take(i).filter(keep).push(s[i])
        } else {
            s.take(i).filter(keep)
        },
        s.take(i).filter(keep).len() <= i,
{
    reveal(Seq::filter);
    assert(s.take(i + 1).drop_last() =~= s.take(i));
    s.take(i).lemma_filter_len(keep);
}

/// Where the triggers that `owner` created stand among `triggers`, in the
/// order of their creation.
pub open spec fn positions_of(triggers: Seq<TriggerModel>, owner: Seq<char>) -> Seq<int>
    decreases triggers.len(),
{
    if triggers.len() == 0 {
        Seq::empty()
    } else {
        let before = positions_of(triggers.drop_last(), owner);
        if triggers.last().owner == owner {
            before.push(triggers.len() - 1)
        } else {
            before
        }
    }
}

/// Each position given for an owner is the place of a trigger of that
/// owner, and an owner without triggers has no position.
pub proof fn lemma_positions_of(triggers: Seq<TriggerModel>, owner: Seq<char>)
    ensures
        forall|k: int|
            0 <= k < positions_of(triggers, owner).len() ==> 0 <= #[trigger] positions_of(
                triggers,
                owner,
            )[k] < triggers.len() && triggers[positions_of(triggers, owner)[k]].owner == owner,
        (forall|i: int| 0 <= i < triggers.len() ==> (#[trigger] triggers[i]).owner != owner)
            ==> positions_of(triggers, owner).len() == 0,
    decreases triggers.len(),
{
    if triggers.len() > 0 {
        let shorter = triggers.drop_last();
        lemma_positions_of(shorter, owner);
        let before = positions_of(shorter, owner);
        let all = positions_of(triggers, owner);
        assert forall|k: int| 0 <= k < all.len() implies 0 <= #[trigger] all[k] < triggers.len()
            && triggers[all[k]].owner == owner by {
            if k < before.len() {
                assert(all[k] == before[k]);
                assert(shorter[before[k]] == triggers[before[k]]);
            }
        }
        if forall|i: int| 0 <= i < triggers.len() ==> (#[trigger] triggers[i]).owner != owner {
            assert forall|i: int| 0 <= i < shorter.len() implies (#[trigger] shorter[i]).owner
                != owner by {
                assert(shorter[i] == triggers[i]);
            }
            assert(triggers.last() == triggers[triggers.len() - 1]);
        }
    }
}

/// The positions of an owner's triggers depend on who owns each trigger,
/// and on nothing else.
pub proof fn lemma_positions_same_owners(
    a: Seq<TriggerModel>,
    b: Seq<TriggerModel>,
    owner: Seq<char>,
)
    requires
        a.len() == b.len(),
        forall|i: int| 0 <= i < a.len() ==> (#[trigger] a[i]).owner == b[i].owner,
    ensures
        positions_of(a, owner) == positions_of(b, owner),
    decreases a.len(),
{
    if a.len() > 0 {
        assert forall|i: int| 0 <= i < a.drop_last().len() implies (#[trigger] a.drop_last()[i]).owner
            == b.drop_last()[i].owner by {
            assert(a.drop_last()[i] == a[i]);
            assert(b.drop_last()[i] == b[i]);
        }
        lemma_positions_same_owners(a.drop_last(), b.drop_last(), owner);
        assert(a.last() == a[a.len() - 1]);
        assert(b.last() == b[b.len() - 1]);
    }
}

/// The state of the escrow: the contract's owner, the attestor's key, the
/// triggers in the order of their creation, and one attestation log for each.
pub struct Ledger {
    pub owner: Seq<char>,
    pub agent_key: Option<Seq<u8>>,
    pub triggers: Seq<TriggerModel>,
    pub logs: Seq<Seq<AttestationModel>>,
}

/// One call of an operation that can change the state, with its arguments
/// and what the environment supplies: the caller and the time.
pub enum Call {
    Create { caller: Seq<char>, condition: ConditionModel, payout: PayoutModel, deposit: nat, now: nat },
    Submit { attestation: AttestationModel },
    Refund { id: Seq<char>, caller: Seq<char>, now: nat },
    SetKey { caller: Seq<char>, key: Seq<u8> },
}

impl Ledger {
    /// The state of a new escrow owned by `owner`.
    pub open spec fn empty(owner: Seq<char>) -> Ledger {
        Ledger { owner, agent_key: None, triggers: Seq::empty(), logs: Seq::empty() }
    }

    /// What holds of the trigger at `i` and of its log in every state that
    /// the operations reach.
    pub open spec fn trigger_ok(self, i: int) -> bool {
        let trigger = self.triggers[i];
        let log = self.logs[i];
        &&& trigger.id == trigger_id_text((i + 1) as nat)
        &&& creation_fault(trigger.condition, trigger.payout, trigger.funded_amount) is None
        &&& trigger.expires_at == trigger.created_at + EXPIRY_HORIZON
        &&& trigger.status != Status::Expired
        &&& trigger.executed_tx is None
        &&& forall|j: int| 0 <= j < log.len() ==> (#[trigger] log[j]).trigger_id == trigger.id
        &&& forall|j: int|
            0 <= j < log.len() ==> ((#[trigger] log[j]).condition_met <==> trigger.status
                == Status::Executed && j == log.len() - 1)
    }

    /// What holds of every state that the operations reach.
    pub open spec fn well_formed(self) -> bool {
        &&& self.logs.len() == self.triggers.len()
        &&& forall|i: int| 0 <= i < self.triggers.len() ==> self.trigger_ok(i)
    }

    /// Whether the trigger at `i` has the identifier `id`.
    pub open spec fn has_id_at(self, id: Seq<char>, i: int) -> bool {
        0 <= i < self.triggers.len() && self.triggers[i].id == id
    }

    /// Where the trigger with the identifier `id` is stored, if there is one.
    pub open spec fn position(self, id: Seq<char>) -> Option<int> {
        if exists|i: int| self.has_id_at(id, i) {
            Some(choose|i: int| self.has_id_at(id, i))
        } else {
            None
        }
    }

    /// The trigger that a successful creation adds.
    pub open spec fn new_trigger(
        self,
        caller: Seq<char>,
        condition: ConditionModel,
        payout: PayoutModel,
        deposit: nat,
        now: nat,
    ) -> TriggerModel {
        opened(self.triggers.len() + 1, caller, condition, payout, deposit, now)
    }

    /// What a creation returns: the fault of the terms, or the new identifier.
    pub open spec fn create_result(
        self,
        condition: ConditionModel,
        payout: PayoutModel,
        deposit: nat,
    ) -> Result<Seq<char>, Error> {
        match creation_fault(condition, payout, deposit) {
            Some(fault) => Err(fault),
            None => Ok(trigger_id_text(self.triggers.len() + 1)),
        }
    }

    /// The state after a creation: with faulty terms the state as it was,
    /// else with the new trigger and its empty log at the end.
    pub open spec fn after_create(
        self,
        caller: Seq<char>,
        condition: ConditionModel,
        payout: PayoutModel,
        deposit: nat,
        now: nat,
    ) -> Ledger {
        if creation_fault(condition, payout, deposit) is Some {
            self
        } else {
            Ledger {
                triggers: self.triggers.push(
                    self.new_trigger(caller, condition, payout, deposit, now),
                ),
                logs: self.logs.push(Seq::empty()),
                ..self
            }
        }
    }

    /// What a submission returns: an error where no trigger has the
    /// identifier that the attestation names, else what the trigger found
    /// answers.
    pub open spec fn submit_result(self, attestation: AttestationModel) -> Result<
        Option<PayoutRequestModel>,
        Error,
    > {
        match self.position(attestation.trigger_id) {
            None => Err(Error::TriggerNotFound),
            Some(i) => self.triggers[i].attestation_result(attestation),
        }
    }

    /// The state after a submission: where it is rejected the state as it
    /// was, else with the attestation at the end of the trigger's log, and
    /// the trigger executed if the attestation confirms the condition.
    pub open spec fn after_submit(self, attestation: AttestationModel) -> Ledger {
        match self.position(attestation.trigger_id) {
            None => self,
            Some(i) => {
                if self.triggers[i].attestation_result(attestation) is Err {
                    self
                } else {
                    Ledger {
                        triggers: self.triggers.update(
                            i,
                            self.triggers[i].after_attestation(attestation),
                        ),
                        logs: self.logs.update(i, self.logs[i].push(attestation)),
                        ..self
                    }
                }
            },
        }
    }

    /// What a refund claim returns: an error where no trigger has the
    /// identifier, else what the trigger found answers.
    pub open spec fn refund_result(self, id: Seq<char>, caller: Seq<char>, now: nat) -> Result<
        RefundModel,
        Error,
    > {
        match self.position(id) {
            None => Err(Error::TriggerNotFound),
            Some(i) => self.triggers[i].refund_result(caller, now),
        }
    }

    /// The state after a refund claim: where it is rejected the state as it
    /// was, else with the trigger refunded.
    pub open spec fn after_refund(self, id: Seq<char>, caller: Seq<char>, now: nat) -> Ledger {
        match self.position(id) {
            None => self,
            Some(i) => {
                if self.triggers[i].refund_result(caller, now) is Err {
                    self
                } else {
                    Ledger {
                        triggers: self.triggers.update(
                            i,
                            self.triggers[i].after_refund(caller, now),
                        ),
                        ..self
                    }
                }
            },
        }
    }

    /// What setting the attestor's key returns: an error unless the caller
    /// owns the contract.
    pub open spec fn set_key_result(self, caller: Seq<char>) -> Result<(), Error> {
        owner_result(self.owner, caller)
    }

    /// The state after setting the attestor's key.
    pub open spec fn after_set_key(self, caller: Seq<char>, key: Seq<u8>) -> Ledger {
        if caller == self.owner {
            Ledger { agent_key: Some(key), ..self }
        } else {
            self
        }
    }

    /// The attestation log of the trigger with the identifier `id`; empty
    /// where there is no such trigger.
    pub open spec fn log_of(self, id: Seq<char>) -> Seq<AttestationModel> {
        match self.position(id) {
            Some(i) => self.logs[i],
            None => Seq::empty(),
        }
    }

    /// `trigger` as the query surface shows it, beside the log kept under
    /// its identifier.
    pub open spec fn shown(self, trigger: TriggerModel) -> TriggerViewModel {
        trigger.shown_with(self.log_of(trigger.id).len())
    }

    /// All triggers as the query surface shows them, in the order of their
    /// creation.
    pub open spec fn views(self) -> Seq<TriggerViewModel> {
        Seq::new(self.triggers.len(), |i: int| self.shown(self.triggers[i]))
    }

    /// The active triggers, in the order of their creation.
    pub open spec fn active_views(self) -> Seq<TriggerViewModel> {
        self.views().filter(shown_active())
    }

    /// The triggers that `owner` created, in the order of their creation.
    pub open spec fn views_of(self, owner: Seq<char>) -> Seq<TriggerViewModel> {
        self.views().filter(shown_owned_by(owner))
    }

    /// How many triggers have the status `status`.
    pub open spec fn count_with(self, status: Status) -> nat {
        self.triggers.filter(has_status(status)).len()
    }

    /// The trigger with the identifier `id` as the query surface shows it.
    pub open spec fn view_of(self, id: Seq<char>) -> Option<TriggerViewModel> {
        match self.position(id) {
            Some(i) => Some(self.shown(self.triggers[i])),
            None => None,
        }
    }

    /// The triggers of an owner, as shown, are those at the owner's
    /// positions: among the first `n` triggers, and so among all.
    pub proof fn lemma_views_by_position(self, owner: Seq<char>, n: int)
        requires
            0 <= n <= self.triggers.len(),
        ensures
            self.views().take(n).filter(shown_owned_by(owner)) == Seq::new(
                positions_of(self.triggers.take(n), owner).len(),
                |k: int| self.views()[positions_of(self.triggers.take(n), owner)[k]],
            ),
        decreases n,
    {
        let keep = shown_owned_by(owner);
        let places = positions_of(self.triggers.take(n), owner);
        let by_place = Seq::new(places.len(), |k: int| self.views()[places[k]]);
        if n == 0 {
            reveal(Seq::filter);
            assert(self.views().take(0).filter(keep) =~= by_place);
        } else {
            let before = positions_of(self.triggers.take(n - 1), owner);
            self.lemma_views_by_position(owner, n - 1);
            lemma_filter_step(self.views(), keep, n - 1);
            assert(self.triggers.take(n).drop_last() =~= self.triggers.take(n - 1));
            assert(self.triggers.take(n).last() == self.triggers[n - 1]);
            assert(self.views()[n - 1].owner == self.triggers[n - 1].owner);
            assert(self.views().take(n).filter(keep) =~= by_place);
        }
    }

    /// The state after `call`.
    pub open spec fn step(self, call: Call) -> Ledger {
        match call {
            Call::Create { caller, condition, payout, deposit, now } => self.after_create(
                caller,
                condition,
                payout,
                deposit,
                now,
            ),
            Call::Submit { attestation } => self.after_submit(attestation),
            Call::Refund { id, caller, now } => self.after_refund(id, caller, now),
            Call::SetKey { caller, key } => self.after_set_key(caller, key),
        }
    }

    /// The state after `calls`, made one after the other.
    pub open spec fn run(self, calls: Seq<Call>) -> Ledger
        decreases calls.len(),
    {
        if calls.len() == 0 {
            self
        } else {
            self.run(calls.drop_last()).step(calls.last())
        }
    }

    /// In a well-formed state an identifier names at most one trigger, so
    /// the trigger found at `i` is the one that `position` gives.
    pub proof fn lemma_position(self, id: Seq<char>, i: int)
        requires
            self.well_formed(),
            self.has_id_at(id, i),
        ensures
            self.position(id) == Some(i),
    {
        let j = choose|j: int| self.has_id_at(id, j);
        assert(self.trigger_ok(i));
        assert(self.trigger_ok(j));
        lemma_trigger_id_unique((i + 1) as nat, (j + 1) as nat);
    }

    /// An identifier that no trigger has is found nowhere.
    pub proof fn lemma_position_none(self, id: Seq<char>)
        requires
            forall|i: int| 0 <= i < self.triggers.len() ==> (#[trigger] self.triggers[i]).id != id,
        ensures
            self.position(id) is None,
    {
    }
}

} // verus!
