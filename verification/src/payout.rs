//! What the escrow hands to its collaborators: a signing request for a payout
//! on the destination network, and an instruction to return collateral.

use crate::digest::sha256;
use crate::digest::sha256_digest;
use crate::params::KEY_VERSION;
use crate::params::RETENTION_FEE;
use crate::types::Balance;
use crate::types::Chain;
use crate::types::Trigger;
use crate::types::TriggerModel;
use vstd::prelude::*;
use vstd::string::*;
use vstd::utf8::*;

verus! {

/// A request to the threshold signer: which derived key signs, and what it
/// signs.
#[derive(Debug)]
pub struct PayoutRequest {
    /// Selects the signer's key for the destination network.
    pub routing_key: String,
    /// The digest to be signed.
    pub payload: Vec<u8>,
    pub key_version: u32,
}

/// Model of a [`PayoutRequest`].
pub struct PayoutRequestModel {
    pub routing_key: Seq<char>,
    pub payload: Seq<u8>,
    pub key_version: nat,
}

impl View for PayoutRequest {
    type V = PayoutRequestModel;

    open spec fn view(&self) -> PayoutRequestModel {
        PayoutRequestModel {
            routing_key: self.routing_key@,
            payload: self.payload@,
            key_version: self.key_version as nat,
        }
    }
}

/// An instruction to the ledger that holds the collateral: transfer `amount`
/// to `recipient`.
#[derive(Debug)]
pub struct RefundInstruction {
    pub recipient: String,
    pub amount: Balance,
}

/// Model of a [`RefundInstruction`].
pub struct RefundModel {
    pub recipient: Seq<char>,
    pub amount: nat,
}

impl View for RefundInstruction {
    type V = RefundModel;

    open spec fn view(&self) -> RefundModel {
        RefundModel { recipient: self.recipient@, amount: self.amount as nat }
    }
}

/// The signer's key path for each destination network.
pub open spec fn routing_key_text(chain: Chain) -> Seq<char> {
    match chain {
        Chain::Ethereum => "ethereum-1"@,
        Chain::Base => "base-1"@,
        Chain::Arbitrum => "arbitrum-1"@,
    }
}

/// The bytes whose digest is signed: the destination address, the amount as
/// it was given, and the trigger's identifier, each in UTF-8, in this order
/// and with nothing between them.
pub open spec fn payload_preimage(address: Seq<char>, amount: Seq<char>, id: Seq<char>) -> Seq<u8> {
    encode_utf8(address) + encode_utf8(amount) + encode_utf8(id)
}

/// The digest that stands for the payout of `trigger`.
pub open spec fn payload_of(trigger: TriggerModel) -> Seq<u8> {
    sha256(payload_preimage(trigger.payout.address, trigger.payout.amount, trigger.id))
}

/// The request that asks for `digest` to be signed for a payout on `chain`.
pub open spec fn request_for(chain: Chain, digest: Seq<u8>) -> PayoutRequestModel {
    PayoutRequestModel {
        routing_key: routing_key_text(chain),
        payload: digest,
        key_version: KEY_VERSION as nat,
    }
}

/// The request that the payout of `trigger` calls for.
pub open spec fn payout_request_of(trigger: TriggerModel) -> PayoutRequestModel {
    request_for(trigger.payout.chain, payload_of(trigger))
}

/// What is returned of a collateral of `funded`: all but the retention fee,
/// and nothing where the fee exceeds it.
pub open spec fn refund_amount(funded: nat) -> nat {
    if funded >= RETENTION_FEE {
        (funded - RETENTION_FEE) as nat
    } else {
        0
    }
}

/// The signer's key path for `chain`.
pub fn routing_key(chain: Chain) -> (key: String)
    ensures
        key@ == routing_key_text(chain),
{
    match chain {
        Chain::Ethereum => String::from_str("ethereum-1"),
        Chain::Base => String::from_str("base-1"),
        Chain::Arbitrum => String::from_str("arbitrum-1"),
    }
}

/// Appends `bytes` to `out`.
fn append_bytes(out: &mut Vec<u8>, bytes: &[u8])
    ensures
        final(out)@ == old(out)@ + bytes@,
{
    let mut i: usize = 0;
    while i < bytes.len()
        invariant
            i <= bytes@.len(),
            out@ == old(out)@ + bytes@.take(i as int),
        decreases bytes@.len() - i,
    {
        out.push(bytes[i]);
        i = i + 1;
        assert(out@ =~= old(out)@ + bytes@.take(i as int));
    }
    assert(bytes@.take(i as int) =~= bytes@);
}

/// Lays out the bytes whose digest is signed.
pub fn preimage_bytes(address: &str, amount: &str, id: &str) -> (bytes: Vec<u8>)
    ensures
        bytes@ == payload_preimage(address@, amount@, id@),
{
    let mut bytes: Vec<u8> = Vec::new();
    append_bytes(&mut bytes, address.as_bytes());
    append_bytes(&mut bytes, amount.as_bytes());
    append_bytes(&mut bytes, id.as_bytes());
    assert(bytes@ =~= payload_preimage(address@, amount@, id@));
    bytes
}

/// Wraps a digest into the request sent to the signer for a payout on `chain`.
pub fn payout_request(chain: Chain, digest: Vec<u8>) -> (request: PayoutRequest)
    ensures
        request@ == request_for(chain, digest@),
{
    PayoutRequest { routing_key: routing_key(chain), payload: digest, key_version: KEY_VERSION }
}

/// The digest that stands for the payout of `trigger`: SHA-256 over the
/// destination address, the amount and the identifier, in this order.
pub fn build_payload(trigger: &Trigger) -> (payload: Vec<u8>)
    ensures
        payload@ == payload_of(trigger@),
        payload@.len() == 32,
{
    let bytes = preimage_bytes(
        trigger.payout.address.as_str(),
        trigger.payout.amount.as_str(),
        trigger.id.as_str(),
    );
    sha256_digest(bytes.as_slice())
}

/// The request that asks the signer to authorise the payout of `trigger`:
/// the key path of its destination network, and its digest.
pub fn build_request(trigger: &Trigger) -> (request: PayoutRequest)
    ensures
        request@ == payout_request_of(trigger@),
        request@.payload.len() == 32,
{
    let payload = build_payload(trigger);
    payout_request(trigger.payout.chain, payload)
}

/// What is returned of a collateral of `funded`.
pub fn refund_for(funded: Balance) -> (amount: Balance)
    ensures
        amount as nat == refund_amount(funded as nat),
{
    funded.saturating_sub(RETENTION_FEE)
}

} // verus!
