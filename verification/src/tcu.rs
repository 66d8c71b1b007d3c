//! Constants of the trusted communication unit (TCU) that the kernel logic depends on.
use vstd::prelude::*;

verus! {

/// Number of physical-memory-protection endpoints at the beginning of each tile's endpoints.
pub const PMEM_PROT_EPS: u16 = 4;
/// Send endpoint to the kernel for the tile multiplexer.
pub const KPEX_SEP: u16 = 4;
/// Receive endpoint for replies from the kernel for the tile multiplexer.
pub const KPEX_REP: u16 = 5;
/// Receive endpoint for sidecalls from the kernel.
pub const TMSIDE_REP: u16 = 6;
/// Reply endpoint for sidecalls.
pub const TMSIDE_RPLEP: u16 = 7;
/// The first endpoint that user activities can use.
pub const FIRST_USER_EP: u16 = 8;
/// The invalid endpoint id.
pub const INVALID_EP: u16 = 0xFFFF;
/// Number of registers per endpoint.
pub const EP_REGS: usize = 4;
/// Size of a TCU register in bytes.
pub const REG_SIZE: usize = 8;

/// Offsets of the standard endpoints of an activity from its first standard endpoint.
pub const SYSC_SEP_OFF: u16 = 0;
pub const SYSC_REP_OFF: u16 = 1;
pub const UPCALL_REP_OFF: u16 = 2;
pub const UPCALL_RPLEP_OFF: u16 = 3;
pub const DEF_REP_OFF: u16 = 4;
pub const PG_SEP_OFF: u16 = 5;
pub const PG_REP_OFF: u16 = 6;
/// Number of standard endpoints of an activity.
pub const STD_EPS_COUNT: usize = 7;

} // verus!
