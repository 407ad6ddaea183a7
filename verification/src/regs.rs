//! Fault information as read from the hardware fault registers.

use vstd::prelude::*;

verus! {

/// Why the GPU MMU rejected an access.
#[derive(Clone, Copy, Debug, PartialEq, Eq, Structural)]
pub enum FaultReason {
    Unmapped,
    AfFault,
    WriteOnly,
    ReadOnly,
    NoAccess,
    Unknown(u8),
}

/// Decoded contents of the fault registers for one GPU MMU fault.
#[derive(Clone, Copy, Debug, PartialEq, Eq, Structural)]
pub struct FaultInfo {
    pub address: u64,
    pub sideband: u8,
    pub vm_slot: u32,
    pub unit_code: u8,
    pub level: u8,
    pub unk_5: u8,
    pub read: bool,
    pub reason: FaultReason,
}

} // verus!
