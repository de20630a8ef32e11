use triggerpay::Attestation;
use triggerpay::Chain;
use triggerpay::Condition;
use triggerpay::ConditionType;
use triggerpay::Error;
use triggerpay::ErrorKind;
use triggerpay::Payout;
use triggerpay::Status;
use triggerpay::TriggerPay;
use triggerpay::EXPIRY_HORIZON;
use triggerpay::MINIMUM_DEPOSIT;
use triggerpay::RETENTION_FEE;

const NOW: u64 = 1_000_000_000_000_000_000;

fn sample_condition() -> Condition {
    Condition {
        condition_type: ConditionType::FlightCancellation,
        flight_number: "AA1234".to_string(),
        flight_date: "2026-02-15".to_string(),
    }
}

fn sample_payout() -> Payout {
    Payout {
        amount: "500000000000000000".to_string(),
        token: "ETH".to_string(),
        address: "0x742d35Cc6634C0532925a3b844Bc9e7595f0bEb5".to_string(),
        chain: Chain::Ethereum,
    }
}

fn attestation(trigger_id: &str, timestamp: u64, status: &str, met: bool) -> Attestation {
    Attestation {
        trigger_id: trigger_id.to_string(),
        timestamp,
        api_response_hash: "ab".repeat(32),
        flight_status: status.to_string(),
        condition_met: met,
        signature: "cd".repeat(64),
    }
}

fn new_contract() -> TriggerPay {
    TriggerPay::new("owner.near".to_string())
}

fn create(contract: &mut TriggerPay, user: &str, deposit: u128) -> Result<String, Error> {
    contract.create_trigger(sample_condition(), sample_payout(), deposit, user.to_string(), NOW)
}

#[test]
fn test_create_trigger() {
    let owner = "owner.near".to_string();
    let user = "alice.near".to_string();

    let mut contract = TriggerPay::new(owner);

    let trigger_id = contract
        .create_trigger(sample_condition(), sample_payout(), 10 * MINIMUM_DEPOSIT, user.clone(), NOW)
        .unwrap();

    assert!(trigger_id.starts_with("trig_"));

    let trigger = contract.get_trigger(trigger_id.clone()).unwrap();
    assert_eq!(trigger.owner, user);
    assert_eq!(trigger.condition.flight_number, "AA1234");
    assert_eq!(trigger.status, Status::Active);
}

#[test]
fn test_get_user_triggers() {
    let owner = "owner.near".to_string();
    let user = "alice.near".to_string();

    let mut contract = TriggerPay::new(owner);

    contract
        .create_trigger(sample_condition(), sample_payout(), 10 * MINIMUM_DEPOSIT, user.clone(), NOW)
        .unwrap();
    contract
        .create_trigger(sample_condition(), sample_payout(), 10 * MINIMUM_DEPOSIT, user.clone(), NOW)
        .unwrap();

    let triggers = contract.get_user_triggers(user);
    assert_eq!(triggers.len(), 2);
}

#[test]
fn test_get_active_triggers() {
    let owner = "owner.near".to_string();
    let user = "alice.near".to_string();

    let mut contract = TriggerPay::new(owner);

    contract
        .create_trigger(sample_condition(), sample_payout(), 10 * MINIMUM_DEPOSIT, user, NOW)
        .unwrap();

    let active = contract.get_active_triggers();
    assert_eq!(active.len(), 1);
    assert_eq!(active[0].status, Status::Active);
}

#[test]
#[should_panic(expected = "Minimum deposit is 1 NEAR")]
fn test_create_trigger_insufficient_deposit() {
    let owner = "owner.near".to_string();
    let user = "alice.near".to_string();

    let mut contract = TriggerPay::new(owner);

    let result =
        contract.create_trigger(sample_condition(), sample_payout(), MINIMUM_DEPOSIT / 2, user, NOW);
    if let Err(fault) = result {
        panic!("{}", fault.message());
    }
}

#[test]
#[should_panic(expected = "Invalid Ethereum address format")]
fn test_create_trigger_invalid_address() {
    let owner = "owner.near".to_string();
    let user = "alice.near".to_string();

    let mut contract = TriggerPay::new(owner);

    let mut payout = sample_payout();
    payout.address = "invalid_address".to_string();

    let result = contract.create_trigger(sample_condition(), payout, 10 * MINIMUM_DEPOSIT, user, NOW);
    if let Err(fault) = result {
        panic!("{}", fault.message());
    }
}

#[test]
fn new_contract_is_empty() {
    let contract = new_contract();
    assert_eq!(contract.get_stats(), (0, 0, 0));
    assert!(contract.get_active_triggers().is_empty());
    assert!(contract.get_user_triggers("alice.near".to_string()).is_empty());
    assert!(contract.get_trigger("trig_00000001".to_string()).is_none());
    assert!(contract.get_attestations("trig_00000001".to_string()).is_empty());
    assert_eq!(contract.agent_key(), None);
}

#[test]
fn identifiers_count_up_in_hexadecimal() {
    let mut contract = new_contract();
    let mut last = String::new();
    for _ in 0..17 {
        last = create(&mut contract, "alice.near", MINIMUM_DEPOSIT).unwrap();
    }
    assert_eq!(last, "trig_00000011");
    assert!(contract.get_trigger("trig_00000001".to_string()).is_some());
    assert!(contract.get_trigger("trig_0000000a".to_string()).is_some());
    assert!(contract.get_trigger("trig_00000010".to_string()).is_some());
    assert!(contract.get_trigger("trig_00000012".to_string()).is_none());
    assert!(contract.get_trigger("trig_0000000A".to_string()).is_none());
    assert!(contract.get_trigger("trig_1".to_string()).is_none());
    assert!(contract.get_trigger("trig_000000001".to_string()).is_none());
    assert!(contract.get_trigger("trig_00000000".to_string()).is_none());
    assert!(contract.get_trigger("trig_ffffffffffffffff".to_string()).is_none());
    assert!(contract.get_trigger(String::new()).is_none());
    assert_eq!(contract.get_trigger("trig_00000011".to_string()).unwrap().id, "trig_00000011");
    assert_eq!(contract.get_stats(), (17, 17, 0));
}

#[test]
fn created_trigger_holds_its_terms() {
    let mut contract = new_contract();
    let id = create(&mut contract, "alice.near", 10 * MINIMUM_DEPOSIT).unwrap();
    assert_eq!(id, "trig_00000001");
    let shown = contract.get_trigger(id.clone()).unwrap();
    assert_eq!(shown.id, id);
    assert_eq!(shown.owner, "alice.near");
    assert_eq!(shown.condition.condition_type, ConditionType::FlightCancellation);
    assert_eq!(shown.condition.flight_number, "AA1234");
    assert_eq!(shown.condition.flight_date, "2026-02-15");
    assert_eq!(shown.payout.amount, "500000000000000000");
    assert_eq!(shown.payout.token, "ETH");
    assert_eq!(shown.payout.address, "0x742d35Cc6634C0532925a3b844Bc9e7595f0bEb5");
    assert_eq!(shown.payout.chain, Chain::Ethereum);
    assert_eq!(shown.funded_amount, "10000000000000000000000000");
    assert_eq!(shown.status, Status::Active);
    assert_eq!(shown.created_at, NOW);
    assert_eq!(shown.expires_at, NOW + 2_592_000_000_000_000);
    assert_eq!(shown.expires_at, NOW + EXPIRY_HORIZON);
    assert_eq!(shown.executed_tx, None);
    assert_eq!(shown.attestation_count, 0);
}

#[test]
fn deposit_below_the_floor_leaves_no_trace() {
    let mut contract = new_contract();
    let result = create(&mut contract, "alice.near", MINIMUM_DEPOSIT - 1);
    assert_eq!(result, Err(Error::InsufficientDeposit));
    assert_eq!(Error::InsufficientDeposit.kind(), ErrorKind::Validation);
    assert_eq!(contract.get_stats(), (0, 0, 0));
    assert!(contract.get_user_triggers("alice.near".to_string()).is_empty());
    assert!(contract.get_active_triggers().is_empty());
    assert!(contract.get_trigger("trig_00000001".to_string()).is_none());
    assert!(contract.get_attestations("trig_00000001".to_string()).is_empty());
    assert_eq!(create(&mut contract, "alice.near", 0), Err(Error::InsufficientDeposit));
    assert_eq!(create(&mut contract, "alice.near", MINIMUM_DEPOSIT).unwrap(), "trig_00000001");
}

#[test]
fn malformed_addresses_are_turned_down() {
    let too_short = "0x742d35Cc6634C0532925a3b844Bc9e7595f0bEb".to_string();
    let too_long = "0x742d35Cc6634C0532925a3b844Bc9e7595f0bEb55".to_string();
    let no_prefix = "742d35Cc6634C0532925a3b844Bc9e7595f0bEb5ab".to_string();
    let capital_x = "0X742d35Cc6634C0532925a3b844Bc9e7595f0bEb5".to_string();
    let not_hex = "0x742d35Cc6634C0532925a3b844Bc9e7595f0bEbg".to_string();
    let not_ascii = "0x742d35Cc6634C0532925a3b844Bc9e7595f0bE\u{e9}".to_string();
    let forty_two_chars = "0x742d35Cc6634C0532925a3b844Bc9e7595f0bEb\u{e9}".to_string();
    let cases = vec![
        String::new(),
        "invalid_address".to_string(),
        too_short,
        too_long,
        no_prefix,
        capital_x,
        not_hex,
        not_ascii,
        forty_two_chars,
    ];
    for address in cases {
        let mut contract = new_contract();
        let mut payout = sample_payout();
        payout.address = address;
        let result = contract.create_trigger(
            sample_condition(),
            payout,
            MINIMUM_DEPOSIT,
            "alice.near".to_string(),
            NOW,
        );
        assert_eq!(result, Err(Error::InvalidPayoutAddress));
        assert_eq!(contract.get_stats(), (0, 0, 0));
    }
    assert_eq!(Error::InvalidPayoutAddress.kind(), ErrorKind::Validation);
}

#[test]
fn addresses_in_either_case_are_accepted() {
    for address in [
        "0x0000000000000000000000000000000000000000",
        "0xffffffffffffffffffffffffffffffffffffffff",
        "0xABCDEFABCDEFABCDEFABCDEFABCDEFABCDEFABCD",
        "0x0123456789abcdefABCDEF0123456789abcdefAB",
    ] {
        let mut contract = new_contract();
        let mut payout = sample_payout();
        payout.address = address.to_string();
        let result = contract.create_trigger(
            sample_condition(),
            payout,
            MINIMUM_DEPOSIT,
            "alice.near".to_string(),
            NOW,
        );
        assert_eq!(result, Ok("trig_00000001".to_string()));
    }
}

#[test]
fn missing_terms_are_turned_down() {
    let mut contract = new_contract();

    let mut condition = sample_condition();
    condition.flight_number = String::new();
    let result = contract.create_trigger(
        condition,
        sample_payout(),
        MINIMUM_DEPOSIT,
        "alice.near".to_string(),
        NOW,
    );
    assert_eq!(result, Err(Error::InvalidCondition));

    let mut condition = sample_condition();
    condition.flight_date = String::new();
    let result = contract.create_trigger(
        condition,
        sample_payout(),
        MINIMUM_DEPOSIT,
        "alice.near".to_string(),
        NOW,
    );
    assert_eq!(result, Err(Error::InvalidCondition));

    let mut payout = sample_payout();
    payout.amount = String::new();
    let result = contract.create_trigger(
        sample_condition(),
        payout,
        MINIMUM_DEPOSIT,
        "alice.near".to_string(),
        NOW,
    );
    assert_eq!(result, Err(Error::InvalidPayoutAmount));

    let mut payout = sample_payout();
    payout.token = String::new();
    let result = contract.create_trigger(
        sample_condition(),
        payout,
        MINIMUM_DEPOSIT,
        "alice.near".to_string(),
        NOW,
    );
    assert_eq!(result, Err(Error::InvalidPayoutAmount));

    assert_eq!(contract.get_stats(), (0, 0, 0));
}

#[test]
fn faults_are_reported_in_a_fixed_order() {
    let mut contract = new_contract();
    let bad_condition = || Condition {
        condition_type: ConditionType::FlightCancellation,
        flight_number: String::new(),
        flight_date: String::new(),
    };
    let bad_payout = || Payout {
        amount: String::new(),
        token: String::new(),
        address: "invalid_address".to_string(),
        chain: Chain::Base,
    };
    let user = || "alice.near".to_string();
    let result = contract.create_trigger(bad_condition(), bad_payout(), 0, user(), NOW);
    assert_eq!(result, Err(Error::InsufficientDeposit));
    let result = contract.create_trigger(bad_condition(), bad_payout(), MINIMUM_DEPOSIT, user(), NOW);
    assert_eq!(result, Err(Error::InvalidCondition));
    let result =
        contract.create_trigger(sample_condition(), bad_payout(), MINIMUM_DEPOSIT, user(), NOW);
    assert_eq!(result, Err(Error::InvalidPayoutAmount));
    let mut payout = bad_payout();
    payout.amount = "1".to_string();
    payout.token = "USDC".to_string();
    let result = contract.create_trigger(sample_condition(), payout, MINIMUM_DEPOSIT, user(), NOW);
    assert_eq!(result, Err(Error::InvalidPayoutAddress));
}

#[test]
fn scenario_attested_then_executed() {
    let mut contract = new_contract();
    let id = create(&mut contract, "alice.near", MINIMUM_DEPOSIT).unwrap();
    let shown = contract.get_trigger(id.clone()).unwrap();
    assert_eq!(shown.status, Status::Active);
    assert_eq!(shown.attestation_count, 0);

    let answer = contract.submit_attestation(attestation(&id, NOW + 1, "scheduled", false));
    assert!(matches!(answer, Ok(None)));
    let shown = contract.get_trigger(id.clone()).unwrap();
    assert_eq!(shown.status, Status::Active);
    assert_eq!(shown.attestation_count, 1);

    let answer = contract.submit_attestation(attestation(&id, NOW + 2, "cancelled", true));
    let request = answer.unwrap().unwrap();
    assert_eq!(request.routing_key, "ethereum-1");
    assert_eq!(request.key_version, 0);
    assert_eq!(
        request.payload,
        vec![
            156, 230, 235, 66, 101, 47, 85, 249, 185, 135, 204, 41, 139, 151, 49, 186, 138, 182, 74,
            39, 107, 125, 60, 93, 142, 94, 234, 242, 238, 36, 58, 190
        ]
    );
    let shown = contract.get_trigger(id.clone()).unwrap();
    assert_eq!(shown.status, Status::Executed);
    assert_eq!(shown.attestation_count, 2);
    assert_eq!(contract.get_stats(), (1, 0, 1));
    assert!(contract.get_active_triggers().is_empty());
}

#[test]
fn scenario_expired_then_refunded() {
    let mut contract = new_contract();
    let id = create(&mut contract, "alice.near", 10 * MINIMUM_DEPOSIT).unwrap();
    let expires_at = contract.get_trigger(id.clone()).unwrap().expires_at;

    let refund =
        contract.claim_refund(id.clone(), "alice.near".to_string(), expires_at + 1).unwrap();
    assert_eq!(refund.recipient, "alice.near");
    assert_eq!(refund.amount, 10 * MINIMUM_DEPOSIT - RETENTION_FEE);
    assert_eq!(refund.amount, 9_800_000_000_000_000_000_000_000);
    assert_eq!(contract.get_trigger(id.clone()).unwrap().status, Status::Refunded);

    let again = contract.claim_refund(id.clone(), "alice.near".to_string(), expires_at + 2);
    let refusal = again.unwrap_err();
    assert_eq!(refusal, Error::TriggerNotActive);
    assert_eq!(refusal.kind(), ErrorKind::State);
    assert_eq!(contract.get_trigger(id).unwrap().status, Status::Refunded);
    assert_eq!(contract.get_stats(), (1, 0, 0));
}

#[test]
fn scenario_stranger_claims_refund() {
    let mut contract = new_contract();
    let id = create(&mut contract, "alice.near", MINIMUM_DEPOSIT).unwrap();
    let expires_at = contract.get_trigger(id.clone()).unwrap().expires_at;

    let result = contract.claim_refund(id.clone(), "mallory.near".to_string(), expires_at + 1);
    let refusal = result.unwrap_err();
    assert_eq!(refusal, Error::NotOwner);
    assert_eq!(refusal.kind(), ErrorKind::Authorization);
    assert_eq!(contract.get_trigger(id).unwrap().status, Status::Active);
}

#[test]
fn refund_at_the_minimum_deposit() {
    let mut contract = new_contract();
    let id = create(&mut contract, "alice.near", MINIMUM_DEPOSIT).unwrap();
    let refund = contract
        .claim_refund(id, "alice.near".to_string(), NOW + EXPIRY_HORIZON + 1)
        .unwrap();
    assert_eq!(refund.amount, 800_000_000_000_000_000_000_000);
}

#[test]
fn refund_needs_every_precondition() {
    let mut contract = new_contract();
    let id = create(&mut contract, "alice.near", MINIMUM_DEPOSIT).unwrap();
    let expires_at = NOW + EXPIRY_HORIZON;
    let alice = || "alice.near".to_string();

    let unknown = contract.claim_refund("trig_00000002".to_string(), alice(), expires_at + 1);
    assert_eq!(unknown.unwrap_err(), Error::TriggerNotFound);
    assert_eq!(Error::TriggerNotFound.kind(), ErrorKind::NotFound);

    let early = contract.claim_refund(id.clone(), alice(), NOW);
    assert_eq!(early.unwrap_err(), Error::NotYetExpired);
    assert_eq!(Error::NotYetExpired.kind(), ErrorKind::State);
    let on_the_dot = contract.claim_refund(id.clone(), alice(), expires_at);
    assert_eq!(on_the_dot.unwrap_err(), Error::NotYetExpired);

    let stranger = contract.claim_refund(id.clone(), "bob.near".to_string(), NOW);
    assert_eq!(stranger.unwrap_err(), Error::NotOwner);

    let shown = contract.get_trigger(id.clone()).unwrap();
    assert_eq!(shown.status, Status::Active);
    assert_eq!(contract.get_stats(), (1, 1, 0));

    contract.submit_attestation(attestation(&id, NOW, "cancelled", true)).unwrap();
    let executed = contract.claim_refund(id.clone(), alice(), expires_at + 1);
    assert_eq!(executed.unwrap_err(), Error::TriggerNotActive);
    assert_eq!(contract.get_trigger(id).unwrap().status, Status::Executed);
}

#[test]
fn second_confirmation_pays_nothing() {
    let mut contract = new_contract();
    let id = create(&mut contract, "alice.near", MINIMUM_DEPOSIT).unwrap();

    let first = contract.submit_attestation(attestation(&id, NOW + 1, "cancelled", true));
    assert!(matches!(first, Ok(Some(_))));
    let second = contract.submit_attestation(attestation(&id, NOW + 2, "cancelled", true));
    assert_eq!(second.unwrap_err(), Error::TriggerNotActive);
    assert_eq!(Error::TriggerNotActive.kind(), ErrorKind::State);
    let third = contract.submit_attestation(attestation(&id, NOW + 3, "departed", false));
    assert_eq!(third.unwrap_err(), Error::TriggerNotActive);

    let log = contract.get_attestations(id.clone());
    assert_eq!(log.len(), 1);
    assert_eq!(log[0].timestamp, NOW + 1);
    assert_eq!(contract.get_trigger(id).unwrap().status, Status::Executed);
    assert_eq!(contract.get_stats(), (1, 0, 1));
}

#[test]
fn status_never_turns_back() {
    let mut contract = new_contract();
    let paid = create(&mut contract, "alice.near", MINIMUM_DEPOSIT).unwrap();
    let returned = create(&mut contract, "alice.near", MINIMUM_DEPOSIT).unwrap();
    let late = NOW + EXPIRY_HORIZON + 1;

    contract.submit_attestation(attestation(&paid, NOW, "cancelled", true)).unwrap();
    contract.claim_refund(returned.clone(), "alice.near".to_string(), late).unwrap();

    assert!(contract.claim_refund(paid.clone(), "alice.near".to_string(), late).is_err());
    assert!(contract.submit_attestation(attestation(&returned, late, "cancelled", true)).is_err());
    assert!(contract.submit_attestation(attestation(&paid, late, "scheduled", false)).is_err());
    create(&mut contract, "bob.near", MINIMUM_DEPOSIT).unwrap();

    assert_eq!(contract.get_trigger(paid).unwrap().status, Status::Executed);
    assert_eq!(contract.get_trigger(returned.clone()).unwrap().status, Status::Refunded);
    assert!(contract.get_attestations(returned).is_empty());
    assert_eq!(contract.get_stats(), (3, 1, 1));
}

#[test]
fn attestation_for_unknown_trigger() {
    let mut contract = new_contract();
    create(&mut contract, "alice.near", MINIMUM_DEPOSIT).unwrap();
    let result = contract.submit_attestation(attestation("trig_000000ff", NOW, "cancelled", true));
    assert_eq!(result.unwrap_err(), Error::TriggerNotFound);
    assert_eq!(contract.get_stats(), (1, 1, 0));
    assert!(contract.get_attestations("trig_000000ff".to_string()).is_empty());
    assert!(contract.get_attestations("trig_00000001".to_string()).is_empty());
}

#[test]
fn log_only_grows() {
    let mut contract = new_contract();
    let id = create(&mut contract, "alice.near", MINIMUM_DEPOSIT).unwrap();
    let other = create(&mut contract, "bob.near", MINIMUM_DEPOSIT).unwrap();
    let mut seen: Vec<(u64, String, bool)> = Vec::new();
    for round in 0..5u64 {
        let met = round == 4;
        let status = format!("state-{}", round);
        contract.submit_attestation(attestation(&id, NOW + round, &status, met)).unwrap();
        let log = contract.get_attestations(id.clone());
        assert_eq!(log.len(), seen.len() + 1);
        for (entry, before) in log.iter().zip(seen.iter()) {
            assert_eq!(entry.timestamp, before.0);
            assert_eq!(entry.flight_status, before.1);
            assert_eq!(entry.condition_met, before.2);
            assert_eq!(entry.trigger_id, id);
        }
        let last = &log[log.len() - 1];
        assert_eq!(last.timestamp, NOW + round);
        assert_eq!(last.flight_status, status);
        assert_eq!(last.api_response_hash, "ab".repeat(32));
        assert_eq!(last.signature, "cd".repeat(64));
        seen.push((last.timestamp, last.flight_status.clone(), last.condition_met));
        assert!(contract.get_attestations(other.clone()).is_empty());
    }
    assert_eq!(contract.get_trigger(id).unwrap().attestation_count, 5);
    assert_eq!(contract.get_trigger(other).unwrap().attestation_count, 0);
}

#[test]
fn triggers_are_listed_by_owner_in_order() {
    let mut contract = new_contract();
    let a1 = create(&mut contract, "alice.near", MINIMUM_DEPOSIT).unwrap();
    let b1 = create(&mut contract, "bob.near", 2 * MINIMUM_DEPOSIT).unwrap();
    let a2 = create(&mut contract, "alice.near", 3 * MINIMUM_DEPOSIT).unwrap();

    let of_alice = contract.get_user_triggers("alice.near".to_string());
    assert_eq!(of_alice.len(), 2);
    assert_eq!(of_alice[0].id, a1);
    assert_eq!(of_alice[1].id, a2);
    assert_eq!(of_alice[1].funded_amount, "3000000000000000000000000");
    let of_bob = contract.get_user_triggers("bob.near".to_string());
    assert_eq!(of_bob.len(), 1);
    assert_eq!(of_bob[0].id, b1);
    assert!(contract.get_user_triggers("carol.near".to_string()).is_empty());

    contract.submit_attestation(attestation(&a1, NOW, "cancelled", true)).unwrap();
    let active = contract.get_active_triggers();
    assert_eq!(active.len(), 2);
    assert_eq!(active[0].id, b1);
    assert_eq!(active[1].id, a2);
    let of_alice = contract.get_user_triggers("alice.near".to_string());
    assert_eq!(of_alice.len(), 2);
    assert_eq!(of_alice[0].status, Status::Executed);
    assert_eq!(of_alice[0].attestation_count, 1);
    assert_eq!(of_alice[1].status, Status::Active);
}

#[test]
fn expired_trigger_is_shown_active_until_refunded() {
    let mut contract = new_contract();
    let id = create(&mut contract, "alice.near", MINIMUM_DEPOSIT).unwrap();
    let late = NOW + EXPIRY_HORIZON + 1_000;
    let answer = contract.submit_attestation(attestation(&id, late, "scheduled", false));
    assert!(matches!(answer, Ok(None)));
    assert_eq!(contract.get_trigger(id.clone()).unwrap().status, Status::Active);
    assert_eq!(contract.get_active_triggers().len(), 1);
    contract.claim_refund(id.clone(), "alice.near".to_string(), late).unwrap();
    assert_eq!(contract.get_trigger(id).unwrap().status, Status::Refunded);
}

#[test]
fn only_the_contract_owner_sets_the_key() {
    let mut contract = new_contract();
    let key = vec![0u8, 1, 2, 3, 4, 5, 6, 7];

    let refused = contract.set_agent_key(key.clone(), "alice.near".to_string());
    assert_eq!(refused, Err(Error::NotContractOwner));
    assert_eq!(Error::NotContractOwner.kind(), ErrorKind::Authorization);
    assert_eq!(contract.agent_key(), None);
    assert_eq!(contract.assert_owner(&"alice.near".to_string()), Err(Error::NotContractOwner));
    assert_eq!(contract.assert_owner(&"owner.near".to_string()), Ok(()));

    let granted = contract.set_agent_key(key.clone(), "owner.near".to_string());
    assert_eq!(granted, Ok(()));
    assert_eq!(contract.agent_key(), Some(key));

    let rotated = contract.set_agent_key(vec![9u8; 33], "owner.near".to_string());
    assert_eq!(rotated, Ok(()));
    assert_eq!(contract.agent_key(), Some(vec![9u8; 33]));
}

#[test]
fn view_of_a_foreign_trigger_counts_no_attestations() {
    let mut contract = new_contract();
    let id = create(&mut contract, "alice.near", MINIMUM_DEPOSIT).unwrap();
    contract.submit_attestation(attestation(&id, NOW, "scheduled", false)).unwrap();

    let mut other = new_contract();
    for _ in 0..2 {
        create(&mut other, "bob.near", 5 * MINIMUM_DEPOSIT).unwrap();
    }
    let foreign = other.get_trigger("trig_00000002".to_string()).unwrap();
    assert_eq!(foreign.attestation_count, 0);

    let stored = triggerpay::Trigger {
        id: "trig_00000001".to_string(),
        owner: "bob.near".to_string(),
        condition: sample_condition(),
        payout: sample_payout(),
        funded_amount: 5 * MINIMUM_DEPOSIT,
        status: Status::Active,
        created_at: NOW,
        expires_at: NOW + EXPIRY_HORIZON,
        executed_tx: Some("0xfeed".to_string()),
    };
    let shown = contract.trigger_to_view(&stored);
    assert_eq!(shown.attestation_count, 1);
    assert_eq!(shown.owner, "bob.near");
    assert_eq!(shown.funded_amount, "5000000000000000000000000");
    assert_eq!(shown.executed_tx, Some("0xfeed".to_string()));

    let mut unknown = stored.clone();
    unknown.id = "trig_00000009".to_string();
    assert_eq!(contract.trigger_to_view(&unknown).attestation_count, 0);
}

#[test]
fn payout_request_follows_the_destination_network() {
    let contract = new_contract();
    let mut trigger = triggerpay::Trigger {
        id: "trig_00000001".to_string(),
        owner: "alice.near".to_string(),
        condition: sample_condition(),
        payout: sample_payout(),
        funded_amount: MINIMUM_DEPOSIT,
        status: Status::Executed,
        created_at: NOW,
        expires_at: NOW + EXPIRY_HORIZON,
        executed_tx: None,
    };
    let on_ethereum = contract.initiate_payout(&trigger);
    assert_eq!(on_ethereum.routing_key, "ethereum-1");
    trigger.payout.chain = Chain::Base;
    let on_base = contract.initiate_payout(&trigger);
    assert_eq!(on_base.routing_key, "base-1");
    trigger.payout.chain = Chain::Arbitrum;
    let on_arbitrum = contract.initiate_payout(&trigger);
    assert_eq!(on_arbitrum.routing_key, "arbitrum-1");
    assert_eq!(on_ethereum.payload, on_base.payload);
    assert_eq!(on_base.payload, on_arbitrum.payload);
    assert_eq!(on_arbitrum.payload, contract.build_eth_transaction_payload(&trigger));
    assert_eq!(on_arbitrum.payload.len(), 32);
    assert_eq!(on_arbitrum.key_version, 0);
}

#[test]
fn many_owners_keep_their_own_lists() {
    let mut contract = new_contract();
    let mut expected: Vec<Vec<String>> = vec![Vec::new(); 7];
    for round in 0..60usize {
        let who = (round * round + 3 * round) % 7;
        let user = format!("user-{}.near", who);
        let id = create(&mut contract, &user, MINIMUM_DEPOSIT + round as u128).unwrap();
        assert_eq!(id, format!("trig_{:08x}", round + 1));
        expected[who].push(id);
    }
    for (who, ids) in expected.iter().enumerate() {
        let shown = contract.get_user_triggers(format!("user-{}.near", who));
        let listed: Vec<String> = shown.iter().map(|view| view.id.clone()).collect();
        assert_eq!(&listed, ids);
        for view in shown.iter() {
            assert_eq!(view.owner, format!("user-{}.near", who));
        }
    }
    assert!(contract.get_user_triggers("user-7.near".to_string()).is_empty());
    assert!(contract.get_user_triggers("user-".to_string()).is_empty());
    assert_eq!(contract.get_stats(), (60, 60, 0));
    assert_eq!(contract.get_active_triggers().len(), 60);
    let shown = contract.get_trigger("trig_0000003c".to_string()).unwrap();
    assert_eq!(shown.funded_amount, "1000000000000000000000059");
}
