//! The fixed quantities of the escrow.

use crate::types::Balance;
use vstd::prelude::*;

verus! {

/// The least collateral a trigger can be created with.
pub const MINIMUM_DEPOSIT: Balance = 1_000_000_000_000_000_000_000_000;

/// What is withheld from a refund to cover the cost of keeping the trigger.
pub const RETENTION_FEE: Balance = 200_000_000_000_000_000_000_000;

/// How long after its creation a trigger expires: thirty days, in nanoseconds.
pub const EXPIRY_HORIZON: u64 = 2_592_000_000_000_000;

/// The version of the signing key that payout requests ask for.
pub const KEY_VERSION: u32 = 0;

} // verus!
