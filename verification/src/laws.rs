//! What holds of the escrow over whole histories of calls.

use crate::digest::sha256;
use crate::error::Error;
use crate::ledger::Call;
use crate::ledger::Ledger;
use crate::params::MINIMUM_DEPOSIT;
use crate::payout::payload_of;
use crate::payout::payload_preimage;
use crate::payout::PayoutRequestModel;
use crate::text::is_digit_char;
use crate::text::is_evm_address;
use crate::text::is_trigger_id;
use crate::types::AttestationModel;
use crate::types::ConditionModel;
use crate::types::PayoutModel;
use crate::types::Status;
use crate::types::TriggerModel;
use vstd::prelude::*;
use vstd::utf8::*;

verus! {

/// Whether a trigger that had the status `earlier` may later have the status
/// `later`: a status stays as it is, or an active trigger is executed or
/// refunded.
pub open spec fn status_follows(earlier: Status, later: Status) -> bool {
    earlier == later || (earlier == Status::Active && (later == Status::Executed || later
        == Status::Refunded))
}

/// Whether `later` is `earlier` but for its status.
pub open spec fn same_terms(earlier: TriggerModel, later: TriggerModel) -> bool {
    later == (TriggerModel { status: later.status, ..earlier })
}

/// Whether `later` is the state `earlier` some calls on: no trigger and no
/// attestation is gone or changed but for a status that moved on, and the
/// owner of the contract is the same.
pub open spec fn extends(earlier: Ledger, later: Ledger) -> bool {
    &&& later.owner == earlier.owner
    &&& earlier.triggers.len() <= later.triggers.len()
    &&& earlier.logs.len() <= later.logs.len()
    &&& forall|i: int|
        0 <= i < earlier.triggers.len() ==> same_terms(
            #[trigger] earlier.triggers[i],
            later.triggers[i],
        ) && status_follows(earlier.triggers[i].status, later.triggers[i].status)
    &&& forall|i: int|
        0 <= i < earlier.logs.len() ==> (#[trigger] earlier.logs[i]).is_prefix_of(later.logs[i])
}

/// A new escrow is well formed.
pub proof fn lemma_empty_well_formed(owner: Seq<char>)
    ensures
        Ledger::empty(owner).well_formed(),
{
}

/// Every call keeps a well-formed state well formed, and extends it.
pub proof fn lemma_step(ledger: Ledger, call: Call)
    requires
        ledger.well_formed(),
    ensures
        ledger.step(call).well_formed(),
        extends(ledger, ledger.step(call)),
{
    let after = ledger.step(call);
    assert forall|i: int| 0 <= i < ledger.triggers.len() implies same_terms(
        #[trigger] ledger.triggers[i],
        after.triggers[i],
    ) && status_follows(ledger.triggers[i].status, after.triggers[i].status) by {}
    assert forall|i: int| 0 <= i < ledger.logs.len() implies (#[trigger] ledger.logs[i]).is_prefix_of(
        after.logs[i],
    ) by {}
    assert forall|i: int| 0 <= i < after.triggers.len() implies after.trigger_ok(i) by {
        if i < ledger.triggers.len() {
            assert(ledger.trigger_ok(i));
        }
    }
}

/// Every history of calls keeps a well-formed state well formed, and
/// extends it.
pub proof fn lemma_run(ledger: Ledger, calls: Seq<Call>)
    requires
        ledger.well_formed(),
    ensures
        ledger.run(calls).well_formed(),
        extends(ledger, ledger.run(calls)),
    decreases calls.len(),
{
    if calls.len() > 0 {
        let middle = ledger.run(calls.drop_last());
        lemma_run(ledger, calls.drop_last());
        lemma_step(middle, calls.last());
        let after = middle.step(calls.last());
        assert forall|i: int| 0 <= i < ledger.triggers.len() implies same_terms(
            #[trigger] ledger.triggers[i],
            after.triggers[i],
        ) && status_follows(ledger.triggers[i].status, after.triggers[i].status) by {
            assert(same_terms(middle.triggers[i], after.triggers[i]));
        }
        assert forall|i: int| 0 <= i < ledger.logs.len() implies (#[trigger] ledger.logs[i]).is_prefix_of(
            after.logs[i],
        ) by {
            assert(ledger.logs[i].is_prefix_of(middle.logs[i]));
            assert(middle.logs[i].is_prefix_of(after.logs[i]));
        }
    }
}

/// A history made in two parts ends where the second part ends when it
/// starts from the end of the first.
pub proof fn lemma_run_in_parts(ledger: Ledger, first: Seq<Call>, second: Seq<Call>)
    ensures
        ledger.run(first + second) == ledger.run(first).run(second),
    decreases second.len(),
{
    if second.len() == 0 {
        assert(first + second =~= first);
    } else {
        assert((first + second).drop_last() =~= first + second.drop_last());
        assert((first + second).last() == second.last());
        lemma_run_in_parts(ledger, first, second.drop_last());
    }
}

/// Every trigger starts its life active, with an empty log: a call adds at
/// most one trigger, and a trigger that a call adds is as creation makes it.
pub proof fn lemma_born_active(ledger: Ledger, call: Call, i: int)
    requires
        ledger.well_formed(),
        ledger.triggers.len() <= i < ledger.step(call).triggers.len(),
    ensures
        i == ledger.triggers.len(),
        call is Create,
        ledger.step(call).triggers[i].status == Status::Active,
        ledger.step(call).logs[i].len() == 0,
{
}

/// The life of a trigger runs one way. Over any history of calls a trigger
/// keeps its status or goes from active to executed or refunded; one that is
/// executed or refunded stays so for ever, and expiry is never stored.
pub proof fn lemma_lifecycle_monotonic(ledger: Ledger, calls: Seq<Call>, i: int)
    requires
        ledger.well_formed(),
        0 <= i < ledger.triggers.len(),
    ensures
        i < ledger.run(calls).triggers.len(),
        status_follows(ledger.triggers[i].status, ledger.run(calls).triggers[i].status),
        ledger.triggers[i].status != Status::Active ==> ledger.run(calls).triggers[i].status
            == ledger.triggers[i].status,
        ledger.run(calls).triggers[i].status != Status::Expired,
        same_terms(ledger.triggers[i], ledger.run(calls).triggers[i]),
{
    lemma_run(ledger, calls);
    assert(ledger.trigger_ok(i));
    assert(ledger.run(calls).trigger_ok(i));
}

/// A payout is requested at most once. A confirming attestation that is
/// accepted executes its trigger and is answered with the payout request.
/// After an attestation that was answered so, and whatever calls follow it,
/// every further attestation for the same trigger is rejected as no longer
/// active: it changes nothing and yields no request. So of two attestations
/// for one trigger at most one is ever answered with a request.
pub proof fn lemma_no_double_payout(
    ledger: Ledger,
    first: AttestationModel,
    calls: Seq<Call>,
    second: AttestationModel,
)
    requires
        ledger.well_formed(),
        second.trigger_id == first.trigger_id,
    ensures
        ledger.submit_result(first) is Ok && first.condition_met ==> ledger.submit_result(
            first,
        )->Ok_0 is Some && ledger.after_submit(first).triggers[ledger.position(
            first.trigger_id,
        )->0].status == Status::Executed,
        ledger.submit_result(first) is Ok && ledger.submit_result(first)->Ok_0 is Some ==> {
            let later = ledger.after_submit(first).run(calls);
            &&& later.submit_result(second) == Err::<Option<PayoutRequestModel>, Error>(
                Error::TriggerNotActive,
            )
            &&& later.after_submit(second) == later
        },
        !({
            &&& ledger.submit_result(first) is Ok
            &&& ledger.submit_result(first)->Ok_0 is Some
            &&& ledger.after_submit(first).run(calls).submit_result(second) is Ok
            &&& ledger.after_submit(first).run(calls).submit_result(second)->Ok_0 is Some
        }),
{
    if ledger.submit_result(first) is Ok {
        let i = ledger.position(first.trigger_id)->0;
        let paid = ledger.after_submit(first);
        let later = paid.run(calls);
        assert(ledger.has_id_at(first.trigger_id, i));
        if ledger.submit_result(first)->Ok_0 is Some {
            lemma_step(ledger, Call::Submit { attestation: first });
            assert(paid == ledger.step(Call::Submit { attestation: first }));
            assert(paid.triggers[i].status == Status::Executed);
            lemma_lifecycle_monotonic(paid, calls, i);
            assert(later.has_id_at(second.trigger_id, i));
            lemma_run(paid, calls);
            later.lemma_position(second.trigger_id, i);
        }
    }
}

/// In a state that the operations reach, the log of a trigger holds at most
/// one attestation that confirms the condition: the last one, and only
/// where the trigger is executed.
pub proof fn lemma_one_confirmation(ledger: Ledger, i: int, j: int)
    requires
        ledger.well_formed(),
        0 <= i < ledger.triggers.len(),
        0 <= j < ledger.logs[i].len(),
        ledger.logs[i][j].condition_met,
    ensures
        ledger.triggers[i].status == Status::Executed,
        j == ledger.logs[i].len() - 1,
{
    assert(ledger.trigger_ok(i));
}

/// A refund is given only for an active trigger, past its expiry, to its
/// owner. Where any of the three fails the claim is rejected and the state
/// stays as it was.
pub proof fn lemma_refund_exclusive(ledger: Ledger, id: Seq<char>, caller: Seq<char>, now: nat)
    requires
        ledger.well_formed(),
    ensures
        ledger.refund_result(id, caller, now) is Ok <==> exists|i: int|
            ledger.has_id_at(id, i) && (#[trigger] ledger.triggers[i]).status == Status::Active
                && now > ledger.triggers[i].expires_at && caller == ledger.triggers[i].owner,
        ledger.refund_result(id, caller, now) is Ok <==> exists|i: int|
            ledger.has_id_at(id, i) && (#[trigger] ledger.triggers[i]).expired_at(now) && caller
                == ledger.triggers[i].owner,
        ledger.refund_result(id, caller, now) is Err ==> ledger.after_refund(id, caller, now)
            == ledger,
        ledger.refund_result(id, caller, now) is Ok ==> ledger.after_refund(
            id,
            caller,
            now,
        ).triggers[ledger.position(id)->0].status == Status::Refunded,
{
    if ledger.refund_result(id, caller, now) is Ok {
        let i = ledger.position(id)->0;
        assert(ledger.has_id_at(id, i));
    }
    if exists|i: int|
        ledger.has_id_at(id, i) && (#[trigger] ledger.triggers[i]).status == Status::Active && now
            > ledger.triggers[i].expires_at && caller == ledger.triggers[i].owner {
        let i = choose|i: int|
            ledger.has_id_at(id, i) && (#[trigger] ledger.triggers[i]).status == Status::Active
                && now > ledger.triggers[i].expires_at && caller == ledger.triggers[i].owner;
        ledger.lemma_position(id, i);
    }
}

/// A deposit below the minimum is always turned down, and leaves no trace:
/// no trigger, no log, nothing an owner could be shown.
pub proof fn lemma_deposit_floor(
    ledger: Ledger,
    caller: Seq<char>,
    condition: ConditionModel,
    payout: PayoutModel,
    deposit: nat,
    now: nat,
)
    requires
        deposit < MINIMUM_DEPOSIT,
    ensures
        ledger.create_result(condition, payout, deposit) == Err::<Seq<char>, Error>(
            Error::InsufficientDeposit,
        ),
        ledger.after_create(caller, condition, payout, deposit, now) == ledger,
{
}

/// A destination that is no address of the target network is always turned
/// down and leaves no trace. The error is the one for the address wherever
/// the deposit, the condition and the amount are in order.
pub proof fn lemma_address_format(
    ledger: Ledger,
    caller: Seq<char>,
    condition: ConditionModel,
    payout: PayoutModel,
    deposit: nat,
    now: nat,
)
    requires
        !is_evm_address(payout.address),
    ensures
        ledger.create_result(condition, payout, deposit) is Err,
        ledger.after_create(caller, condition, payout, deposit, now) == ledger,
        deposit >= MINIMUM_DEPOSIT && condition.flight_number.len() > 0
            && condition.flight_date.len() > 0 && payout.amount.len() > 0 && payout.token.len()
            > 0 ==> ledger.create_result(condition, payout, deposit) == Err::<Seq<char>, Error>(
            Error::InvalidPayoutAddress,
        ),
{
}

/// The log of a trigger only grows. Over any history of calls the log that
/// a trigger had is the beginning of the log it has afterwards, entry for
/// entry, and the log is still found under the trigger's identifier.
pub proof fn lemma_log_append_only(ledger: Ledger, calls: Seq<Call>, i: int)
    requires
        ledger.well_formed(),
        0 <= i < ledger.triggers.len(),
    ensures
        ledger.log_of(ledger.triggers[i].id) == ledger.logs[i],
        ledger.log_of(ledger.triggers[i].id).is_prefix_of(
            ledger.run(calls).log_of(ledger.triggers[i].id),
        ),
        ledger.logs[i].len() <= ledger.run(calls).logs[i].len(),
        forall|j: int|
            0 <= j < ledger.logs[i].len() ==> ledger.run(calls).logs[i][j] == ledger.logs[i][j],
{
    let id = ledger.triggers[i].id;
    let later = ledger.run(calls);
    lemma_run(ledger, calls);
    ledger.lemma_position(id, i);
    assert(same_terms(ledger.triggers[i], later.triggers[i]));
    later.lemma_position(id, i);
    assert(ledger.logs[i].is_prefix_of(later.logs[i]));
}

/// Two texts with the same UTF-8 bytes are the same text.
pub proof fn lemma_text_of_bytes(a: Seq<char>, b: Seq<char>)
    requires
        encode_utf8(a) == encode_utf8(b),
    ensures
        a == b,
{
    encode_utf8_decode_utf8(a);
    encode_utf8_decode_utf8(b);
}

/// The bytes of a trigger identifier: one for each character, the fifth an
/// underscore and none after it.
proof fn lemma_id_bytes(id: Seq<char>)
    requires
        is_trigger_id(id),
    ensures
        encode_utf8(id).len() == id.len(),
        encode_utf8(id)[4] == 95u8,
        forall|k: int| 5 <= k < id.len() ==> #[trigger] encode_utf8(id)[k] != 95u8,
{
    assert forall|k: int| 0 <= k < id.len() implies '\0' <= #[trigger] id[k] <= '\u{7f}' by {
        if k < 5 {
            assert(id[k] == id.subrange(0, 5)[k]);
        } else {
            assert(is_digit_char(id[k]));
        }
    }
    assert(is_ascii_chars(id));
    is_ascii_chars_encode_utf8(id);
    assert(id[4] == id.subrange(0, 5)[4]);
    assert forall|k: int| 5 <= k < id.len() implies #[trigger] encode_utf8(id)[k] != 95u8 by {
        assert(is_digit_char(id[k]));
        assert(encode_utf8(id)[k] == id[k] as u8);
    }
}

/// Of two identifiers that end the same bytes, the first is not the
/// shorter.
proof fn lemma_id_not_shorter(
    head_a: Seq<u8>,
    id_a: Seq<char>,
    head_b: Seq<u8>,
    id_b: Seq<char>,
)
    requires
        is_trigger_id(id_a),
        is_trigger_id(id_b),
        head_a + encode_utf8(id_a) == head_b + encode_utf8(id_b),
    ensures
        id_a.len() >= id_b.len(),
{
    lemma_id_bytes(id_a);
    lemma_id_bytes(id_b);
    let tail_a = encode_utf8(id_a);
    let tail_b = encode_utf8(id_b);
    let all = head_a + tail_a;
    if id_a.len() < id_b.len() {
        let shift = id_b.len() - id_a.len();
        assert(all.len() == head_a.len() + tail_a.len());
        assert((head_b + tail_b).len() == head_b.len() + tail_b.len());
        assert(head_a.len() == head_b.len() + shift);
        assert(all[head_a.len() as int + 4] == tail_a[4]);
        assert((head_b + tail_b)[head_b.len() as int + shift + 4] == tail_b[shift + 4]);
        assert(false);
    }
}

/// The bytes that are digested tell the three fields apart. For
/// destinations that are addresses and identifiers of the shape that
/// creation gives, equal bytes mean the same address, the same amount and
/// the same identifier.
pub proof fn lemma_preimage_injective(
    address_a: Seq<char>,
    amount_a: Seq<char>,
    id_a: Seq<char>,
    address_b: Seq<char>,
    amount_b: Seq<char>,
    id_b: Seq<char>,
)
    requires
        is_evm_address(address_a),
        is_evm_address(address_b),
        is_trigger_id(id_a),
        is_trigger_id(id_b),
        payload_preimage(address_a, amount_a, id_a) == payload_preimage(
            address_b,
            amount_b,
            id_b,
        ),
    ensures
        address_a == address_b,
        amount_a == amount_b,
        id_a == id_b,
{
    let all = payload_preimage(address_a, amount_a, id_a);
    let (to_a, sum_a, tag_a) = (encode_utf8(address_a), encode_utf8(amount_a), encode_utf8(id_a));
    let (to_b, sum_b, tag_b) = (encode_utf8(address_b), encode_utf8(amount_b), encode_utf8(id_b));
    assert(is_ascii_chars(address_a) && is_ascii_chars(address_b)) by {
        assert forall|k: int| 0 <= k < 42 implies '\0' <= #[trigger] address_a[k] <= '\u{7f}' by {
            if k >= 2 {
                assert(crate::text::is_hex_char(address_a[k]));
            }
        }
        assert forall|k: int| 0 <= k < 42 implies '\0' <= #[trigger] address_b[k] <= '\u{7f}' by {
            if k >= 2 {
                assert(crate::text::is_hex_char(address_b[k]));
            }
        }
    }
    is_ascii_chars_encode_utf8(address_a);
    is_ascii_chars_encode_utf8(address_b);
    lemma_id_bytes(id_a);
    lemma_id_bytes(id_b);
    assert(all == (to_a + sum_a) + tag_a);
    assert(all == (to_b + sum_b) + tag_b);
    lemma_id_not_shorter(to_a + sum_a, id_a, to_b + sum_b, id_b);
    lemma_id_not_shorter(to_b + sum_b, id_b, to_a + sum_a, id_a);
    assert(to_a =~= to_b) by {
        assert forall|k: int| 0 <= k < 42 implies to_a[k] == to_b[k] by {
            assert(all[k] == to_a[k]);
            assert(all[k] == to_b[k]);
        }
    }
    assert(((to_a + sum_a) + tag_a).len() == to_a.len() + sum_a.len() + tag_a.len());
    assert(((to_b + sum_b) + tag_b).len() == to_b.len() + sum_b.len() + tag_b.len());
    assert(sum_a.len() == sum_b.len());
    assert(sum_a =~= sum_b) by {
        assert forall|k: int| 0 <= k < sum_a.len() implies sum_a[k] == sum_b[k] by {
            assert(all[42 + k] == sum_a[k]);
            assert(all[42 + k] == sum_b[k]);
        }
    }
    assert(tag_a =~= tag_b) by {
        assert forall|k: int| 0 <= k < tag_a.len() implies tag_a[k] == tag_b[k] by {
            assert(all[42 + sum_a.len() as int + k] == tag_a[k]);
            assert(all[42 + sum_a.len() as int + k] == tag_b[k]);
        }
    }
    lemma_text_of_bytes(address_a, address_b);
    lemma_text_of_bytes(amount_a, amount_b);
    lemma_text_of_bytes(id_a, id_b);
}

/// Whether the digest gives two different inputs the same value.
pub open spec fn digest_collision(a: Seq<u8>, b: Seq<u8>) -> bool {
    a != b && sha256(a) == sha256(b)
}

/// The bytes digested for the payout of `trigger`.
pub open spec fn preimage_of(trigger: TriggerModel) -> Seq<u8> {
    payload_preimage(trigger.payout.address, trigger.payout.amount, trigger.id)
}

/// The payload is a function of the destination address, the amount and
/// the identifier alone: triggers that agree on the three have the same
/// payload, whatever else differs.
pub proof fn lemma_payload_deterministic(a: TriggerModel, b: TriggerModel)
    requires
        a.payout.address == b.payout.address,
        a.payout.amount == b.payout.amount,
        a.id == b.id,
    ensures
        payload_of(a) == payload_of(b),
{
}

/// A change to the destination address, the amount or the identifier
/// changes the bytes that are digested, so that the payloads differ unless
/// the digest collides on the two inputs. This is stated of triggers as
/// creation makes them: the destination an address, the identifier of the
/// generated shape.
pub proof fn lemma_payload_sensitive(a: TriggerModel, b: TriggerModel)
    requires
        is_evm_address(a.payout.address),
        is_evm_address(b.payout.address),
        is_trigger_id(a.id),
        is_trigger_id(b.id),
        a.payout.address != b.payout.address || a.payout.amount != b.payout.amount || a.id
            != b.id,
    ensures
        preimage_of(a) != preimage_of(b),
        payload_of(a) == payload_of(b) ==> digest_collision(preimage_of(a), preimage_of(b)),
{
    if preimage_of(a) == preimage_of(b) {
        lemma_preimage_injective(
            a.payout.address,
            a.payout.amount,
            a.id,
            b.payout.address,
            b.payout.amount,
            b.id,
        );
    }
}

/// The triggers of a well-formed state are as creation makes them: each
/// destination an address, each identifier of the generated shape, and no
/// two identifiers alike.
pub proof fn lemma_stored_terms(ledger: Ledger, i: int, j: int)
    requires
        ledger.well_formed(),
        0 <= i < ledger.triggers.len(),
        0 <= j < ledger.triggers.len(),
    ensures
        is_evm_address(ledger.triggers[i].payout.address),
        is_trigger_id(ledger.triggers[i].id),
        ledger.triggers[i].id == ledger.triggers[j].id ==> i == j,
        ledger.triggers[i].funded_amount >= MINIMUM_DEPOSIT,
{
    assert(ledger.trigger_ok(i));
    assert(ledger.trigger_ok(j));
    crate::text::lemma_trigger_id_shape((i + 1) as nat);
    if ledger.triggers[i].id == ledger.triggers[j].id {
        crate::text::lemma_trigger_id_unique((i + 1) as nat, (j + 1) as nat);
    }
}

} // verus!
