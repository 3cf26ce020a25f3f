use vstd::prelude::*;

pub mod common;
pub mod curve;
pub mod decimal;
pub mod deserialization;
pub mod errors;
pub mod verify;

verus! {

/// Paths of the three documents a verification run reads: the verification
/// key, the proof, and the public inputs.
pub struct ZkSnarksVerifyCmd {
    pub vk_path: String,
    pub proof_path: String,
    pub inputs_path: String,
}

} // verus!
