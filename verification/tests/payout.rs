use triggerpay::payout::build_payload;
use triggerpay::payout::build_request;
use triggerpay::payout::payout_request;
use triggerpay::payout::preimage_bytes;
use triggerpay::payout::refund_for;
use triggerpay::payout::routing_key;
use triggerpay::Chain;
use triggerpay::Condition;
use triggerpay::ConditionType;
use triggerpay::Payout;
use triggerpay::Status;
use triggerpay::Trigger;
use triggerpay::KEY_VERSION;
use triggerpay::MINIMUM_DEPOSIT;
use triggerpay::RETENTION_FEE;

fn hex(bytes: &[u8]) -> String {
    bytes.iter().map(|b| format!("{:02x}", b)).collect()
}

fn trigger(address: &str, amount: &str, id: &str) -> Trigger {
    Trigger {
        id: id.to_string(),
        owner: "alice.near".to_string(),
        condition: Condition {
            condition_type: ConditionType::FlightCancellation,
            flight_number: "AA1234".to_string(),
            flight_date: "2026-02-15".to_string(),
        },
        payout: Payout {
            amount: amount.to_string(),
            token: "ETH".to_string(),
            address: address.to_string(),
            chain: Chain::Ethereum,
        },
        funded_amount: MINIMUM_DEPOSIT,
        status: Status::Active,
        created_at: 0,
        expires_at: 0,
        executed_tx: None,
    }
}

const ADDRESS: &str = "0x742d35Cc6634C0532925a3b844Bc9e7595f0bEb5";

#[test]
fn payload_is_the_digest_of_address_amount_and_id() {
    let payload = build_payload(&trigger(ADDRESS, "500000000000000000", "trig_00000001"));
    assert_eq!(hex(&payload), "9ce6eb42652f55f9b987cc298b9731ba8ab64a276b7d3c5d8e5eeaf2ee243abe");
}

#[test]
fn payload_is_not_its_own_input() {
    let subject = trigger(ADDRESS, "500000000000000000", "trig_00000001");
    let payload = build_payload(&subject);
    let input = preimage_bytes(ADDRESS, "500000000000000000", "trig_00000001");
    assert_eq!(payload.len(), 32);
    assert_eq!(input.len(), 73);
    assert_ne!(payload, input);
}

#[test]
fn payload_of_the_empty_input() {
    let payload = build_payload(&trigger("", "", ""));
    assert_eq!(hex(&payload), "e3b0c44298fc1c149afbf4c8996fb92427ae41e4649b934ca495991b7852b855");
}

#[test]
fn payload_depends_on_each_of_the_three_fields() {
    let base = build_payload(&trigger(ADDRESS, "500000000000000000", "trig_00000001"));
    let other_id = build_payload(&trigger(ADDRESS, "500000000000000000", "trig_00000002"));
    let other_amount = build_payload(&trigger(ADDRESS, "500000000000000001", "trig_00000001"));
    let other_address = build_payload(&trigger(
        "0x742d35Cc6634C0532925a3b844Bc9e7595f0bEb6",
        "500000000000000000",
        "trig_00000001",
    ));
    assert_eq!(hex(&other_id), "7616820c0f5cf39fa46076a20ef5593c4267a7035e13d1f35f3fd439069e87eb");
    assert_eq!(
        hex(&other_amount),
        "0b5d1e7c965faa5865efc0c7795e03fcb06993cf737518d32bcf0084735a6f27"
    );
    assert_eq!(
        hex(&other_address),
        "3a44c1d06ffc31acf95485f7e8ab5e24bb8664d96e9b81223ed5ae017c800142"
    );
    assert_ne!(base, other_id);
    assert_ne!(base, other_amount);
    assert_ne!(base, other_address);
}

#[test]
fn payload_ignores_every_other_field() {
    let first = trigger(ADDRESS, "500000000000000000", "trig_00000001");
    let mut second = trigger(ADDRESS, "500000000000000000", "trig_00000001");
    second.owner = "bob.near".to_string();
    second.condition.flight_number = "BA0001".to_string();
    second.payout.token = "USDC".to_string();
    second.payout.chain = Chain::Arbitrum;
    second.funded_amount = 7 * MINIMUM_DEPOSIT;
    second.status = Status::Executed;
    second.created_at = 17;
    second.expires_at = 23;
    second.executed_tx = Some("0xabc".to_string());
    assert_eq!(build_payload(&first), build_payload(&second));
    assert_eq!(build_payload(&first), build_payload(&first));
}

#[test]
fn amount_is_digested_as_given() {
    let plain = build_payload(&trigger(ADDRESS, "500", "trig_00000001"));
    let padded = build_payload(&trigger(ADDRESS, "0500", "trig_00000001"));
    assert_ne!(plain, padded);
    let odd = build_payload(&trigger(ADDRESS, "1\u{20ac}", "trig_00000001"));
    assert_eq!(hex(&odd), "54077d4fe5486516fa574d972ad53cf5db72c5befb08ae4b289ac38dbedc5fe3");
}

#[test]
fn preimage_lays_the_fields_end_to_end() {
    let bytes = preimage_bytes("0xab", "12", "trig_1");
    assert_eq!(bytes, b"0xab12trig_1".to_vec());
    let bytes = preimage_bytes("", "\u{e9}", "");
    assert_eq!(bytes, vec![0xc3, 0xa9]);
    assert!(preimage_bytes("", "", "").is_empty());
}

#[test]
fn routing_keys() {
    assert_eq!(routing_key(Chain::Ethereum), "ethereum-1");
    assert_eq!(routing_key(Chain::Base), "base-1");
    assert_eq!(routing_key(Chain::Arbitrum), "arbitrum-1");
}

#[test]
fn request_wraps_the_digest() {
    let request = payout_request(Chain::Base, vec![1, 2, 3]);
    assert_eq!(request.routing_key, "base-1");
    assert_eq!(request.payload, vec![1, 2, 3]);
    assert_eq!(request.key_version, 0);
    assert_eq!(KEY_VERSION, 0);

    let mut subject = trigger(ADDRESS, "500000000000000000", "trig_00000001");
    subject.payout.chain = Chain::Arbitrum;
    let request = build_request(&subject);
    assert_eq!(request.routing_key, "arbitrum-1");
    assert_eq!(
        hex(&request.payload),
        "9ce6eb42652f55f9b987cc298b9731ba8ab64a276b7d3c5d8e5eeaf2ee243abe"
    );
}

#[test]
fn refund_withholds_the_fee_and_never_goes_negative() {
    assert_eq!(RETENTION_FEE, 200_000_000_000_000_000_000_000);
    assert_eq!(refund_for(MINIMUM_DEPOSIT), 800_000_000_000_000_000_000_000);
    assert_eq!(refund_for(RETENTION_FEE + 1), 1);
    assert_eq!(refund_for(RETENTION_FEE), 0);
    assert_eq!(refund_for(RETENTION_FEE - 1), 0);
    assert_eq!(refund_for(0), 0);
    assert_eq!(refund_for(u128::MAX), u128::MAX - RETENTION_FEE);
}

#[test]
fn payload_across_block_boundaries() {
    let cases: [(usize, &str); 13] = [
        (1, "ca978112ca1bbdcafac231b39a23dc4da786eff8147c4e72b9807785afee48bb"),
        (55, "9f4390f8d30c2dd92ec9f095b65e2b9ae9b0a925a5258e241c9f1e910f734318"),
        (56, "b35439a4ac6f0948b6d6f9e3c6af0f5f590ce20f1bde7090ef7970686ec6738a"),
        (57, "f13b2d724659eb3bf47f2dd6af1accc87b81f09f59f2b75e5c0bed6589dfe8c6"),
        (63, "7d3e74a05d7db15bce4ad9ec0658ea98e3f06eeecf16b4c6fff2da457ddc2f34"),
        (64, "ffe054fe7ae0cb6dc65c3af9b61d5209f439851db43d0ba5997337df154668eb"),
        (65, "635361c48bb9eab14198e76ea8ab7f1a41685d6ad62aa9146d301d4f17eb0ae0"),
        (119, "31eba51c313a5c08226adf18d4a359cfdfd8d2e816b13f4af952f7ea6584dcfb"),
        (120, "2f3d335432c70b580af0e8e1b3674a7c020d683aa5f73aaaedfdc55af904c21c"),
        (127, "c57e9278af78fa3cab38667bef4ce29d783787a2f731d4e12200270f0c32320a"),
        (128, "6836cf13bac400e9105071cd6af47084dfacad4e5e302c94bfed24e013afb73e"),
        (129, "c12cb024a2e5551cca0e08fce8f1c5e314555cc3fef6329ee994a3db752166ae"),
        (1000, "41edece42d63e8d9bf515a9ba6932e1c20cbc9f5a5d134645adb5db1b9737ea3"),
    ];
    for (length, expected) in cases {
        let amount = "a".repeat(length);
        assert_eq!(hex(&build_payload(&trigger("", &amount, ""))), expected);
        let split = length / 2;
        let parted = trigger(&amount[..split], "", &amount[split..]);
        assert_eq!(hex(&build_payload(&parted)), expected);
    }
}
