//! Message type numbers of the Job Declaration sub-protocol.

use vstd::prelude::*;

verus! {

pub const ALLOC_TOKEN: u8 = 0x50;
pub const ALLOC_TOKEN_OK: u8 = 0x51;
pub const DECL_JOB: u8 = 0x52;
pub const DECL_JOB_OK: u8 = 0x53;
pub const DECL_JOB_ERR: u8 = 0x54;
pub const IDENTIFY_TXS: u8 = 0x55;
pub const PROVIDE_TXS: u8 = 0x56;
pub const PROVIDE_TXS_OK: u8 = 0x57;

} // verus!
