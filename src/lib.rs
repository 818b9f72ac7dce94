//! Directory-tree integrity checking: a streaming 128-bit XXH3 hasher, the
//! textual digest form, the line-oriented manifest codec, and the decisions
//! of the generate and verify passes, each with a proved contract.
use vstd::prelude::*;

pub mod digest;
pub mod hasher;
pub mod manifest;
pub mod generate;
pub mod verify;
pub mod mode;
pub mod laws;

verus! {

} // verus!
