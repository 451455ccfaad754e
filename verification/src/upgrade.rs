//! Restoring canister state after an upgrade, and the small canisters'
//! own state and checks.
use vstd::prelude::*;
use crate::controllers::SNS_GOVERNANCE_CANISTER_ID;
use crate::principal::{Principal, spec_principal_from_text};

verus! {

/// The little-endian value of four bytes.
pub open spec fn le_u32(b: Seq<u8>) -> nat {
    b[0] as nat + 256 * (b[1] as nat) + 65536 * (b[2] as nat) + 16777216 * (b[3] as nat)
}

/// Where the serialized state lies in stable memory: the first four bytes
/// hold its length (little-endian), and it starts right after them.
pub struct HeapDataLocation {
    pub offset: u64,
    pub length: usize,
}

/// The location of the saved state from the length prefix.
pub fn heap_data_location(prefix: [u8; 4]) -> (r: HeapDataLocation)
    requires
        usize::BITS >= 32,
    ensures
        r.offset == 4,
        r.length == le_u32(prefix@),
{
    let v = (prefix[0] as u32) + 256 * (prefix[1] as u32) + 65536 * (prefix[2] as u32) + 16777216 * (prefix[3] as u32);
    HeapDataLocation { offset: 4, length: v as usize }
}

/// The message a failed restore traps with.
pub open spec fn restore_failure_message() -> Seq<char> {
    "Failed to deserialize heap data"@
}

/// The state of an individual user canister that its queries read.
pub struct IndividualUserState {
    pub version_number: u64,
    pub version: String,
    pub utility_token_balance: u64,
}

impl IndividualUserState {
    /// The canister's version number.
    pub fn get_version_number(&self) -> (r: u64)
        ensures
            r == self.version_number,
    {
        self.version_number
    }

    /// The canister's version.
    pub fn get_version(&self) -> (r: String)
        ensures
            r@ == self.version@,
    {
        self.version.clone()
    }

    /// The user's utility token balance.
    pub fn get_utility_token_balance(&self) -> (r: u64)
        ensures
            r == self.utility_token_balance,
    {
        self.utility_token_balance
    }
}

/// The validator of the SNS `install_code` generic function: it accepts any
/// payload, but only from the SNS governance canister.
pub fn validate_install_code(caller: &Principal, _payload: &Vec<u8>) -> (r: Result<String, String>)
    ensures
        spec_principal_from_text(SNS_GOVERNANCE_CANISTER_ID@) matches Ok(g) ==> (g == caller@ ==> (r matches Ok(m) && m@ == "Success"@)),
        spec_principal_from_text(SNS_GOVERNANCE_CANISTER_ID@) matches Ok(g) ==> (g != caller@ ==> (r matches Err(m) && m@ == "Only callable by SNS governance"@)),
        spec_principal_from_text(SNS_GOVERNANCE_CANISTER_ID@) matches Err(e) ==> (r matches Err(m) && m@ == e),
{
    let governance = Principal::from_text(SNS_GOVERNANCE_CANISTER_ID)?;
    if caller.same_as(&governance) {
        Ok("Success".to_string())
    } else {
        Err("Only callable by SNS governance".to_string())
    }
}

} // verus!
