//! Why an operation of the escrow is turned down.

use vstd::prelude::*;
use vstd::string::*;

verus! {

/// The reason an operation was rejected. A rejected operation changes nothing.
#[derive(Clone, Copy, Debug, PartialEq, Eq, Structural)]
pub enum Error {
    /// The collateral is below the minimum deposit.
    InsufficientDeposit,
    /// A parameter of the condition is missing.
    InvalidCondition,
    /// The payout amount or its token is missing.
    InvalidPayoutAmount,
    /// The destination is no address of the target network.
    InvalidPayoutAddress,
    /// No trigger has the identifier.
    TriggerNotFound,
    /// The trigger was already executed or refunded.
    TriggerNotActive,
    /// The caller does not own the trigger.
    NotOwner,
    /// The trigger has not expired yet.
    NotYetExpired,
    /// The caller does not own the contract.
    NotContractOwner,
}

/// The four classes of rejection.
#[derive(Clone, Copy, Debug, PartialEq, Eq, Structural)]
pub enum ErrorKind {
    /// The input has a wrong shape or value.
    Validation,
    /// The caller lacks the capability.
    Authorization,
    /// The trigger's status does not allow the operation.
    State,
    /// The identifier is unknown.
    NotFound,
}

impl Error {
    /// The class an error belongs to.
    pub open spec fn kind_of(self) -> ErrorKind {
        match self {
            Error::InsufficientDeposit => ErrorKind::Validation,
            Error::InvalidCondition => ErrorKind::Validation,
            Error::InvalidPayoutAmount => ErrorKind::Validation,
            Error::InvalidPayoutAddress => ErrorKind::Validation,
            Error::TriggerNotFound => ErrorKind::NotFound,
            Error::TriggerNotActive => ErrorKind::State,
            Error::NotYetExpired => ErrorKind::State,
            Error::NotOwner => ErrorKind::Authorization,
            Error::NotContractOwner => ErrorKind::Authorization,
        }
    }

    /// The sentence shown to a caller.
    pub open spec fn message_text(self) -> Seq<char> {
        match self {
            Error::InsufficientDeposit => "Minimum deposit is 1 NEAR"@,
            Error::InvalidCondition => "Flight number and flight date are required"@,
            Error::InvalidPayoutAmount => "Payout amount and token are required"@,
            Error::InvalidPayoutAddress => "Invalid Ethereum address format"@,
            Error::TriggerNotFound => "Trigger not found"@,
            Error::TriggerNotActive => "Trigger is not active"@,
            Error::NotYetExpired => "Trigger has not expired yet"@,
            Error::NotOwner => "Only trigger owner can claim refund"@,
            Error::NotContractOwner => "Only owner can call this method"@,
        }
    }

    /// The class this error belongs to.
    pub fn kind(&self) -> (kind: ErrorKind)
        ensures
            kind == self.kind_of(),
    {
        match self {
            Error::InsufficientDeposit => ErrorKind::Validation,
            Error::InvalidCondition => ErrorKind::Validation,
            Error::InvalidPayoutAmount => ErrorKind::Validation,
            Error::InvalidPayoutAddress => ErrorKind::Validation,
            Error::TriggerNotFound => ErrorKind::NotFound,
            Error::TriggerNotActive => ErrorKind::State,
            Error::NotYetExpired => ErrorKind::State,
            Error::NotOwner => ErrorKind::Authorization,
            Error::NotContractOwner => ErrorKind::Authorization,
        }
    }

    /// The sentence shown to a caller.
    pub fn message(&self) -> (text: String)
        ensures
            text@ == self.message_text(),
    {
        match self {
            Error::InsufficientDeposit => String::from_str("Minimum deposit is 1 NEAR"),
            Error::InvalidCondition => String::from_str(
                "Flight number and flight date are required",
            ),
            Error::InvalidPayoutAmount => String::from_str("Payout amount and token are required"),
            Error::InvalidPayoutAddress => String::from_str("Invalid Ethereum address format"),
            Error::TriggerNotFound => String::from_str("Trigger not found"),
            Error::TriggerNotActive => String::from_str("Trigger is not active"),
            Error::NotYetExpired => String::from_str("Trigger has not expired yet"),
            Error::NotOwner => String::from_str("Only trigger owner can claim refund"),
            Error::NotContractOwner => String::from_str("Only owner can call this method"),
        }
    }
}

} // verus!
