//! The escrow itself: the store of triggers, their attestation logs, and the
//! operations that create, resolve and show them.

use crate::error::Error;
use crate::ledger::Ledger;
use crate::ledger::has_status;
use crate::ledger::lemma_filter_step;
use crate::ledger::lemma_positions_of;
use crate::ledger::lemma_positions_same_owners;
use crate::ledger::positions_of;
use crate::ledger::shown_active;
use crate::lifecycle::apply_attestation;
use crate::lifecycle::apply_refund;
use crate::lifecycle::check_contract_owner;
use crate::lifecycle::open_trigger;
use crate::lifecycle::show;
use crate::params::EXPIRY_HORIZON;
use crate::params::MINIMUM_DEPOSIT;
use crate::payout::PayoutRequest;
use crate::payout::PayoutRequestModel;
use crate::payout::RefundInstruction;
use crate::payout::RefundModel;
use crate::payout::build_payload;
use crate::payout::build_request;
use crate::payout::payload_of;
use crate::payout::payout_request_of;
use crate::text::hex_value;
use crate::text::is_evm_address;
use crate::text::is_trigger_id;
use crate::text::lemma_trigger_id_shape;
use crate::text::parse_trigger_id;
use crate::types::Attestation;
use crate::types::AttestationModel;
use crate::types::Balance;
use crate::types::Condition;
use crate::types::Payout;
use crate::types::Status;
use crate::types::Trigger;
use crate::types::TriggerId;
use crate::types::TriggerView;
use crate::types::attestation_models;
use crate::types::trigger_models;
use crate::types::view_models;
use vstd::prelude::*;

verus! {

/// Model of an optional key.
pub open spec fn key_model(key: Option<Vec<u8>>) -> Option<Seq<u8>> {
    match key {
        Some(bytes) => Some(bytes@),
        None => None,
    }
}

/// The models of a sequence of attestation logs, in order.
pub open spec fn log_models(logs: Seq<Vec<Attestation>>) -> Seq<Seq<AttestationModel>> {
    Seq::new(logs.len(), |i: int| attestation_models(logs[i]@))
}

/// The places that an entry of the owners' index holds.
pub open spec fn places(entry: Seq<usize>) -> Seq<int> {
    Seq::new(entry.len(), |k: int| entry[k] as int)
}

/// Where `name` stands among `users`.
fn find_user(users: &Vec<String>, name: &String) -> (found: Option<usize>)
    ensures
        match found {
            Some(k) => k < users@.len() && users@[k as int]@ == name@,
            None => forall|k: int| 0 <= k < users@.len() ==> (#[trigger] users@[k])@ != name@,
        },
{
    let mut k: usize = 0;
    while k < users.len()
        invariant
            k <= users@.len(),
            forall|j: int| 0 <= j < k ==> (#[trigger] users@[j])@ != name@,
        decreases users@.len() - k,
    {
        if users[k] == *name {
            return Some(k);
        }
        k = k + 1;
    }
    None
}

/// The escrow: every trigger ever created, with its attestation log.
pub struct TriggerPay {
    /// The triggers, in the order of their creation.
    triggers: Vec<Trigger>,
    /// For each trigger, at the same place, its attestations in the order of
    /// their submission.
    attestations: Vec<Vec<Attestation>>,
    /// The owners of triggers, each once, in the order of their first
    /// creation.
    users: Vec<String>,
    /// For each of these owners, at the same place, where the triggers they
    /// created are stored, in the order of their creation.
    user_triggers: Vec<Vec<usize>>,
    /// The key that attestations are meant to be signed with.
    agent_public_key: Option<Vec<u8>>,
    /// The owner of the contract.
    owner: String,
    /// The number of triggers created so far.
    trigger_counter: u64,
}

impl View for TriggerPay {
    type V = Ledger;

    closed spec fn view(&self) -> Ledger {
        Ledger {
            owner: self.owner@,
            agent_key: key_model(self.agent_public_key),
            triggers: trigger_models(self.triggers@),
            logs: log_models(self.attestations@),
        }
    }
}

impl TriggerPay {
    /// What holds of an escrow between operations: its state is one that the
    /// operations reach, and the counter agrees with the store.
    pub closed spec fn well_formed(&self) -> bool {
        &&& self@.well_formed()
        &&& self.trigger_counter as nat == self.triggers@.len()
        &&& self.index_ok()
    }

    /// What holds of the owners' index: no owner stands in it twice, every
    /// owner of a trigger stands in it, and its entry for an owner holds the
    /// places of exactly the triggers of that owner, in the order of their
    /// creation.
    closed spec fn index_ok(&self) -> bool {
        &&& self.users@.len() == self.user_triggers@.len()
        &&& forall|j: int, k: int|
            0 <= j < k < self.users@.len() ==> (#[trigger] self.users@[j])@ != (
            #[trigger] self.users@[k])@
        &&& forall|k: int|
            0 <= k < self.users@.len() ==> places((#[trigger] self.user_triggers@[k])@)
                == positions_of(self@.triggers, self.users@[k]@)
        &&& forall|i: int|
            0 <= i < self@.triggers.len() ==> self.indexed((#[trigger] self@.triggers[i]).owner)
    }

    /// Whether `owner` stands in the owners' index.
    closed spec fn indexed(&self, owner: Seq<char>) -> bool {
        exists|k: int| 0 <= k < self.users@.len() && (#[trigger] self.users@[k])@ == owner
    }

    /// An index stays in order where the triggers keep their owners.
    proof fn lemma_index_kept(before: TriggerPay, after: TriggerPay)
        requires
            before.index_ok(),
            after.users == before.users,
            after.user_triggers == before.user_triggers,
            after@.triggers.len() == before@.triggers.len(),
            forall|i: int|
                0 <= i < before@.triggers.len() ==> (#[trigger] after@.triggers[i]).owner
                    == before@.triggers[i].owner,
        ensures
            after.index_ok(),
    {
        assert forall|k: int| 0 <= k < after.users@.len() implies places(
            (#[trigger] after.user_triggers@[k])@,
        ) == positions_of(after@.triggers, after.users@[k]@) by {
            lemma_positions_same_owners(before@.triggers, after@.triggers, after.users@[k]@);
        }
        assert forall|i: int| 0 <= i < after@.triggers.len() implies after.indexed(
            (#[trigger] after@.triggers[i]).owner,
        ) by {
            assert(before.indexed(before@.triggers[i].owner));
        }
    }

    /// A well-formed escrow has a well-formed state.
    pub proof fn lemma_well_formed(&self)
        requires
            self.well_formed(),
        ensures
            self@.well_formed(),
            self@.triggers.len() <= u64::MAX,
    {
    }

    /// An escrow without triggers, owned by `owner`.
    pub fn new(owner: String) -> (contract: Self)
        ensures
            contract.well_formed(),
            contract@ == Ledger::empty(owner@),
    {
        let contract = TriggerPay {
            triggers: Vec::new(),
            attestations: Vec::new(),
            users: Vec::new(),
            user_triggers: Vec::new(),
            agent_public_key: None,
            owner,
            trigger_counter: 0,
        };
        assert(contract@.triggers =~= Seq::empty());
        assert(contract@.logs =~= Seq::empty());
        contract
    }

    /// Tells whether `caller` owns the contract.
    pub fn assert_owner(&self, caller: &String) -> (result: Result<(), Error>)
        ensures
            result == self@.set_key_result(caller@),
    {
        check_contract_owner(&self.owner, caller)
    }

    /// Sets the key that attestations are meant to be signed with. Only the
    /// owner of the contract may do so.
    pub fn set_agent_key(&mut self, public_key: Vec<u8>, caller: String) -> (result: Result<
        (),
        Error,
    >)
        requires
            old(self).well_formed(),
        ensures
            final(self).well_formed(),
            result == old(self)@.set_key_result(caller@),
            final(self)@ == old(self)@.after_set_key(caller@, public_key@),
    {
        match self.assert_owner(&caller) {
            Ok(()) => {
                self.agent_public_key = Some(public_key);
                proof {
                    let after = self@;
                    assert forall|i: int| 0 <= i < after.triggers.len() implies after.trigger_ok(
                        i,
                    ) by {
                        assert(old(self)@.trigger_ok(i));
                    }
                    Self::lemma_index_kept(*old(self), *self);
                }
                Ok(())
            },
            Err(refusal) => Err(refusal),
        }
    }

    /// The key that attestations are meant to be signed with, if one was set.
    pub fn agent_key(&self) -> (key: Option<Vec<u8>>)
        ensures
            key_model(key) == self@.agent_key,
    {
        match &self.agent_public_key {
            Some(bytes) => Some(bytes.clone()),
            None => None,
        }
    }

    /// Locks `deposit` as collateral of `caller` for a payout under
    /// `condition`. The terms are examined in a fixed order: the deposit,
    /// the condition, the amount and token, the address. Faulty terms change
    /// nothing. Accepted terms give a new active trigger that expires one
    /// horizon after `now`, with an empty attestation log, and its
    /// identifier is returned.
    pub fn create_trigger(
        &mut self,
        condition: Condition,
        payout: Payout,
        deposit: Balance,
        caller: String,
        now: u64,
    ) -> (result: Result<TriggerId, Error>)
        requires
            old(self).well_formed(),
            old(self)@.triggers.len() < u64::MAX,
            now + EXPIRY_HORIZON <= u64::MAX,
        ensures
            final(self).well_formed(),
            final(self)@ == old(self)@.after_create(
                caller@,
                condition@,
                payout@,
                deposit as nat,
                now as nat,
            ),
            result is Err ==> final(self)@ == old(self)@,
            deposit < MINIMUM_DEPOSIT ==> result == Err::<TriggerId, Error>(
                Error::InsufficientDeposit,
            ),
            !is_evm_address(payout@.address) ==> result is Err,
            match result {
                Ok(id) => old(self)@.create_result(condition@, payout@, deposit as nat) == Ok::<
                    Seq<char>,
                    Error,
                >(id@),
                Err(fault) => old(self)@.create_result(condition@, payout@, deposit as nat) == Err::<
                    Seq<char>,
                    Error,
                >(fault),
            },
    {
        let ghost before = self@;
        let ghost created = before.new_trigger(
            caller@,
            condition@,
            payout@,
            deposit as nat,
            now as nat,
        );
        let trigger = match open_trigger(
            self.trigger_counter + 1,
            caller,
            condition,
            payout,
            deposit,
            now,
        ) {
            Ok(trigger) => trigger,
            Err(fault) => {
                return Err(fault);
            },
        };
        assert(trigger@ == created);
        let id = trigger.id.clone();
        let owner = trigger.owner.clone();
        let place = self.triggers.len();
        self.trigger_counter = self.trigger_counter + 1;
        self.triggers.push(trigger);
        self.attestations.push(Vec::new());
        let found = find_user(&self.users, &owner);
        let ghost slot = match found {
            Some(k) => k as int,
            None => self.users@.len() as int,
        };
        match found {
            Some(k) => {
                self.user_triggers[k].push(place);
            },
            None => {
                let mut entry: Vec<usize> = Vec::new();
                entry.push(place);
                self.users.push(owner);
                self.user_triggers.push(entry);
            },
        }
        assert(0 <= slot < self.users@.len() && self.users@[slot]@ == created.owner);
        proof {
            let after = self@;
            assert(after.triggers =~= before.triggers.push(created));
            assert(after.logs =~= before.logs.push(Seq::empty())) by {
                let last = self.attestations@.len() - 1;
                assert(attestation_models(self.attestations@[last]@) =~= Seq::empty());
            }
            assert forall|i: int| 0 <= i < after.triggers.len() implies after.trigger_ok(i) by {
                if i < before.triggers.len() {
                    assert(before.trigger_ok(i));
                }
            }
            assert(after.triggers.drop_last() =~= before.triggers);
            assert(after.triggers.last() == created);
            assert forall|k: int| 0 <= k < self.users@.len() implies places(
                (#[trigger] self.user_triggers@[k])@,
            ) == positions_of(after.triggers, self.users@[k]@) by {
                let name = self.users@[k]@;
                if k < old(self).users@.len() {
                    assert(self.users@[k] == old(self).users@[k]);
                    assert(places(old(self).user_triggers@[k]@) == positions_of(
                        before.triggers,
                        name,
                    ));
                    if name == created.owner {
                        assert(places(self.user_triggers@[k]@) =~= places(
                            old(self).user_triggers@[k]@,
                        ).push(place as int));
                    } else {
                        assert(self.user_triggers@[k] == old(self).user_triggers@[k]);
                    }
                } else {
                    assert(name == created.owner);
                    assert forall|i: int| 0 <= i < before.triggers.len() implies (
                    #[trigger] before.triggers[i]).owner != name by {
                        if before.triggers[i].owner == name {
                            assert(old(self).indexed(before.triggers[i].owner));
                        }
                    }
                    lemma_positions_of(before.triggers, name);
                    assert(positions_of(before.triggers, name) =~= Seq::empty());
                    assert(places(self.user_triggers@[k]@) =~= Seq::<int>::empty().push(
                        place as int,
                    ));
                }
            }
            assert forall|i: int| 0 <= i < after.triggers.len() implies self.indexed(
                (#[trigger] after.triggers[i]).owner,
            ) by {
                if i < before.triggers.len() {
                    assert(old(self).indexed(before.triggers[i].owner));
                    let k = choose|k: int|
                        0 <= k < old(self).users@.len() && (#[trigger] old(self).users@[k])@
                            == before.triggers[i].owner;
                    assert(self.users@[k] == old(self).users@[k]);
                } else {
                    assert(self.users@[slot]@ == after.triggers[i].owner);
                }
            }
        }
        Ok(id)
    }

    /// Records `attestation` in the log of the trigger it names. Where it
    /// confirms the condition, the trigger becomes executed and the request
    /// for its payout is returned; else the trigger stays active and nothing
    /// is returned. An attestation for an unknown trigger, or for one that is
    /// no longer active, is rejected and recorded nowhere.
    pub fn submit_attestation(&mut self, attestation: Attestation) -> (result: Result<
        Option<PayoutRequest>,
        Error,
    >)
        requires
            old(self).well_formed(),
        ensures
            final(self).well_formed(),
            final(self)@ == old(self)@.after_submit(attestation@),
            result is Err ==> final(self)@ == old(self)@,
            match result {
                Ok(Some(request)) => old(self)@.submit_result(attestation@) == Ok::<
                    Option<PayoutRequestModel>,
                    Error,
                >(Some(request@)),
                Ok(None) => old(self)@.submit_result(attestation@) == Ok::<
                    Option<PayoutRequestModel>,
                    Error,
                >(None),
                Err(refusal) => old(self)@.submit_result(attestation@) == Err::<
                    Option<PayoutRequestModel>,
                    Error,
                >(refusal),
            },
    {
        let ghost before = self@;
        let i = match self.find(&attestation.trigger_id) {
            Some(i) => i,
            None => {
                return Err(Error::TriggerNotFound);
            },
        };
        assert(before.has_id_at(attestation@.trigger_id, i as int));
        assert(before.trigger_ok(i as int));
        let ghost report = attestation@;
        let answer = match apply_attestation(&mut self.triggers[i], &attestation) {
            Ok(answer) => answer,
            Err(refusal) => {
                assert(self.triggers@ =~= old(self).triggers@);
                return Err(refusal);
            },
        };
        self.attestations[i].push(attestation);
        proof {
            let after = self@;
            assert(after.triggers =~= before.triggers.update(
                i as int,
                before.triggers[i as int].after_attestation(report),
            ));
            assert(after.logs[i as int] =~= before.logs[i as int].push(report));
            assert(after.logs =~= before.logs.update(
                i as int,
                before.logs[i as int].push(report),
            ));
            assert(after == before.after_submit(report));
            assert forall|k: int| 0 <= k < after.triggers.len() implies after.trigger_ok(k) by {
                assert(before.trigger_ok(k));
            }
            Self::lemma_index_kept(*old(self), *self);
        }
        Ok(answer)
    }

    /// Returns the collateral of an expired trigger to its owner. The claim
    /// is rejected, and nothing changes, where the trigger is unknown, where
    /// `caller` is not its owner, where it is no longer active, or where
    /// `now` is not past its expiry; the first of these that applies is the
    /// error. Else the trigger becomes refunded, and the instruction returned
    /// transfers the collateral less the retention fee to the owner.
    pub fn claim_refund(&mut self, trigger_id: TriggerId, caller: String, now: u64) -> (result:
        Result<RefundInstruction, Error>)
        requires
            old(self).well_formed(),
        ensures
            final(self).well_formed(),
            final(self)@ == old(self)@.after_refund(trigger_id@, caller@, now as nat),
            result is Err ==> final(self)@ == old(self)@,
            match result {
                Ok(refund) => old(self)@.refund_result(trigger_id@, caller@, now as nat) == Ok::<
                    RefundModel,
                    Error,
                >(refund@),
                Err(refusal) => old(self)@.refund_result(trigger_id@, caller@, now as nat) == Err::<
                    RefundModel,
                    Error,
                >(refusal),
            },
    {
        let ghost before = self@;
        let i = match self.find(&trigger_id) {
            Some(i) => i,
            None => {
                return Err(Error::TriggerNotFound);
            },
        };
        assert(before.trigger_ok(i as int));
        let refund = match apply_refund(&mut self.triggers[i], &caller, now) {
            Ok(refund) => refund,
            Err(refusal) => {
                assert(self.triggers@ =~= old(self).triggers@);
                return Err(refusal);
            },
        };
        proof {
            let after = self@;
            assert(after.triggers =~= before.triggers.update(
                i as int,
                before.triggers[i as int].after_refund(caller@, now as nat),
            ));
            assert(after.logs =~= before.logs);
            assert(after == before.after_refund(trigger_id@, caller@, now as nat));
            assert forall|k: int| 0 <= k < after.triggers.len() implies after.trigger_ok(k) by {
                assert(before.trigger_ok(k));
            }
            Self::lemma_index_kept(*old(self), *self);
        }
        Ok(refund)
    }

    /// The digest that stands for the payout of `trigger`: SHA-256 over the
    /// destination address, the amount and the identifier, in this order.
    pub fn build_eth_transaction_payload(&self, trigger: &Trigger) -> (payload: Vec<u8>)
        ensures
            payload@ == payload_of(trigger@),
            payload@.len() == 32,
    {
        build_payload(trigger)
    }

    /// The request that asks the signer to authorise the payout of
    /// `trigger`: the key path of its destination network, and its digest.
    pub fn initiate_payout(&self, trigger: &Trigger) -> (request: PayoutRequest)
        ensures
            request@ == payout_request_of(trigger@),
    {
        build_request(trigger)
    }

    /// The trigger with the identifier `trigger_id`, if there is one.
    pub fn get_trigger(&self, trigger_id: TriggerId) -> (shown: Option<TriggerView>)
        requires
            self.well_formed(),
        ensures
            match shown {
                Some(found) => self@.view_of(trigger_id@) == Some(found@),
                None => self@.view_of(trigger_id@) is None,
            },
    {
        match self.find(&trigger_id) {
            Some(i) => Some(self.view_at(i)),
            None => None,
        }
    }

    /// The triggers that `account_id` created, in the order of their
    /// creation.
    pub fn get_user_triggers(&self, account_id: String) -> (shown: Vec<TriggerView>)
        requires
            self.well_formed(),
        ensures
            view_models(shown@) == self@.views_of(account_id@),
    {
        let ghost all = self@.views();
        let ghost held = positions_of(self@.triggers, account_id@);
        let mut shown: Vec<TriggerView> = Vec::new();
        proof {
            self@.lemma_views_by_position(account_id@, self@.triggers.len() as int);
            assert(self@.triggers.take(self@.triggers.len() as int) =~= self@.triggers);
            assert(all.take(self@.triggers.len() as int) =~= all);
            lemma_positions_of(self@.triggers, account_id@);
        }
        match find_user(&self.users, &account_id) {
            None => {
                proof {
                    assert forall|i: int| 0 <= i < self@.triggers.len() implies (
                    #[trigger] self@.triggers[i]).owner != account_id@ by {
                        if self@.triggers[i].owner == account_id@ {
                            assert(self.indexed(self@.triggers[i].owner));
                        }
                    }
                    assert(view_models(shown@) =~= self@.views_of(account_id@));
                }
            },
            Some(k) => {
                let entry = &self.user_triggers[k];
                assert(places(entry@) == held);
                let mut j: usize = 0;
                while j < entry.len()
                    invariant
                        j <= entry@.len(),
                        self.well_formed(),
                        all == self@.views(),
                        places(entry@) == held,
                        forall|m: int|
                            0 <= m < held.len() ==> 0 <= #[trigger] held[m]
                                < self@.triggers.len(),
                        view_models(shown@) =~= Seq::new(j as nat, |m: int| all[held[m]]),
                    decreases entry@.len() - j,
                {
                    assert(held[j as int] == entry@[j as int]);
                    let ghost up_to = view_models(shown@);
                    let next = self.view_at(entry[j]);
                    shown.push(next);
                    j = j + 1;
                    assert(view_models(shown@) =~= up_to.push(all[held[j - 1]]));
                }
                assert(view_models(shown@) =~= self@.views_of(account_id@));
            },
        }
        shown
    }

    /// The active triggers, in the order of their creation.
    pub fn get_active_triggers(&self) -> (shown: Vec<TriggerView>)
        requires
            self.well_formed(),
        ensures
            view_models(shown@) == self@.active_views(),
    {
        let ghost all = self@.views();
        let ghost keep = shown_active();
        let mut shown: Vec<TriggerView> = Vec::new();
        let mut i: usize = 0;
        assert(all.take(0).filter(keep) =~= Seq::empty()) by {
            reveal(Seq::filter);
        }
        while i < self.triggers.len()
            invariant
                i <= self.triggers@.len(),
                self.well_formed(),
                all == self@.views(),
                keep == shown_active(),
                view_models(shown@) =~= all.take(i as int).filter(keep),
            decreases self.triggers@.len() - i,
        {
            proof {
                lemma_filter_step(all, keep, i as int);
            }
            if self.triggers[i].status == Status::Active {
                let next = self.view_at(i);
                shown.push(next);
            }
            i = i + 1;
        }
        assert(all.take(i as int) =~= all);
        shown
    }

    /// The attestations recorded for the trigger with the identifier
    /// `trigger_id`, in the order of their submission; none where there is
    /// no such trigger.
    pub fn get_attestations(&self, trigger_id: TriggerId) -> (log: Vec<Attestation>)
        requires
            self.well_formed(),
        ensures
            attestation_models(log@) == self@.log_of(trigger_id@),
    {
        let mut log: Vec<Attestation> = Vec::new();
        match self.find(&trigger_id) {
            None => {
                assert(attestation_models(log@) =~= Seq::empty());
            },
            Some(i) => {
                let stored = &self.attestations[i];
                let mut k: usize = 0;
                while k < stored.len()
                    invariant
                        k <= stored@.len(),
                        log@ =~= stored@.take(k as int),
                    decreases stored@.len() - k,
                {
                    log.push(stored[k].clone());
                    k = k + 1;
                }
                assert(stored@.take(k as int) =~= stored@);
                assert(attestation_models(log@) =~= self@.logs[i as int]);
            },
        }
        log
    }

    /// How many triggers there are, how many of them are active, and how
    /// many are executed.
    pub fn get_stats(&self) -> (stats: (u64, u64, u64))
        requires
            self.well_formed(),
        ensures
            stats.0 == self@.triggers.len(),
            stats.1 == self@.count_with(Status::Active),
            stats.2 == self@.count_with(Status::Executed),
    {
        let ghost all = self@.triggers;
        let mut active: u64 = 0;
        let mut executed: u64 = 0;
        let mut i: usize = 0;
        assert(all.take(0).filter(has_status(Status::Active)) =~= Seq::empty()) by {
            reveal(Seq::filter);
        }
        assert(all.take(0).filter(has_status(Status::Executed)) =~= Seq::empty()) by {
            reveal(Seq::filter);
        }
        while i < self.triggers.len()
            invariant
                i <= self.triggers@.len(),
                self.well_formed(),
                all == self@.triggers,
                active == all.take(i as int).filter(has_status(Status::Active)).len(),
                executed == all.take(i as int).filter(has_status(Status::Executed)).len(),
            decreases self.triggers@.len() - i,
        {
            proof {
                lemma_filter_step(all, has_status(Status::Active), i as int);
                lemma_filter_step(all, has_status(Status::Executed), i as int);
            }
            if self.triggers[i].status == Status::Active {
                active = active + 1;
            }
            if self.triggers[i].status == Status::Executed {
                executed = executed + 1;
            }
            i = i + 1;
        }
        assert(all.take(i as int) =~= all);
        (self.trigger_counter, active, executed)
    }

    /// `trigger` as the query surface shows it, with the length of the log
    /// kept under its identifier.
    pub fn trigger_to_view(&self, trigger: &Trigger) -> (shown: TriggerView)
        requires
            self.well_formed(),
        ensures
            shown@ == self@.shown(trigger@),
    {
        let log_len: u64 = match self.find(&trigger.id) {
            Some(i) => self.attestations[i].len() as u64,
            None => 0,
        };
        show(trigger, log_len)
    }

    /// The trigger stored at `i` as the query surface shows it.
    fn view_at(&self, i: usize) -> (shown: TriggerView)
        requires
            self.well_formed(),
            i < self.triggers@.len(),
        ensures
            shown@ == self@.views()[i as int],
    {
        let trigger = &self.triggers[i];
        proof {
            assert(self@.trigger_ok(i as int));
            self@.lemma_position(trigger@.id, i as int);
        }
        show(trigger, self.attestations[i].len() as u64)
    }

    /// Where the trigger with the identifier `id` is stored. The number that
    /// the identifier names tells the only place where it can be.
    fn find(&self, id: &String) -> (found: Option<usize>)
        requires
            self.well_formed(),
        ensures
            match found {
                Some(i) => i < self.triggers@.len() && self@.position(id@) == Some(i as int),
                None => self@.position(id@) is None,
            },
    {
        proof {
            assert forall|j: int| self@.has_id_at(id@, j) implies is_trigger_id(id@) && hex_value(
                id@.skip(5),
            ) == j + 1 by {
                assert(self@.trigger_ok(j));
                lemma_trigger_id_shape((j + 1) as nat);
            }
        }
        let stored = self.triggers.len();
        match parse_trigger_id(id.as_str()) {
            None => None,
            Some(counter) => {
                if counter == 0 || counter > stored as u64 {
                    return None;
                }
                assert(counter - 1 < stored);
                let i = (counter - 1) as usize;
                if self.triggers[i].id == *id {
                    proof {
                        assert(self@.has_id_at(id@, i as int));
                        self@.lemma_position(id@, i as int);
                    }
                    Some(i)
                } else {
                    None
                }
            },
        }
    }
}

} // verus!
