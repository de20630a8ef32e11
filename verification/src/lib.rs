//! Escrow with conditional payout: collateral is locked against a monitored
//! real-world condition, an attestor reports whether the condition holds, and a
//! confirmed condition yields a signing request for a payout on another network.

pub mod contract;
pub mod digest;
pub mod error;
pub mod laws;
pub mod ledger;
pub mod lifecycle;
pub mod params;
pub mod payout;
pub mod text;
pub mod types;

pub use contract::TriggerPay;
pub use error::Error;
pub use error::ErrorKind;
pub use params::EXPIRY_HORIZON;
pub use params::KEY_VERSION;
pub use params::MINIMUM_DEPOSIT;
pub use params::RETENTION_FEE;
pub use payout::PayoutRequest;
pub use payout::RefundInstruction;
pub use types::Attestation;
pub use types::Balance;
pub use types::Chain;
pub use types::Condition;
pub use types::ConditionType;
pub use types::Payout;
pub use types::Status;
pub use types::Trigger;
pub use types::TriggerId;
pub use types::TriggerView;
