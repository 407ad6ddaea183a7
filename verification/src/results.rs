//! Mapping per-command work errors to the user-visible result records
//! and to driver error codes.

use vstd::prelude::*;
use crate::regs::FaultReason;
use crate::workqueue::WorkError;
use crate::DriverError;

verus! {

/// User-visible completion status of one command.
#[derive(Clone, Copy, Debug, PartialEq, Eq, Structural)]
pub enum ResultStatus {
    Complete,
    Timeout,
    Fault,
    Killed,
    ChannelError,
    NoDevice,
    UnknownError,
}

/// User-visible fault classification.
#[derive(Clone, Copy, Debug, PartialEq, Eq, Structural)]
pub enum ResultFaultType {
    NoFault,
    Unmapped,
    AfFault,
    WriteOnly,
    ReadOnly,
    NoAccess,
    Unknown,
}

/// The per-command result record handed back to user space.
#[derive(Clone, Copy, Debug, PartialEq, Eq, Structural)]
pub struct ResultInfo {
    pub status: ResultStatus,
    pub fault_type: ResultFaultType,
    pub unit: u32,
    pub sideband: u32,
    pub level: u8,
    pub extra: u32,
    pub is_read: u8,
    pub address: u64,
}

/// The fault classification a fault reason surfaces as.
pub open spec fn spec_fault_type(reason: FaultReason) -> ResultFaultType {
    match reason {
        FaultReason::Unmapped => ResultFaultType::Unmapped,
        FaultReason::AfFault => ResultFaultType::AfFault,
        FaultReason::WriteOnly => ResultFaultType::WriteOnly,
        FaultReason::ReadOnly => ResultFaultType::ReadOnly,
        FaultReason::NoAccess => ResultFaultType::NoAccess,
        FaultReason::Unknown(_) => ResultFaultType::Unknown,
    }
}

/// The result record a work error surfaces as: a fault carries its
/// diagnostic data; every other error only its status.
pub open spec fn spec_result_info(err: WorkError) -> ResultInfo {
    match err {
        WorkError::Fault(info) => ResultInfo {
            status: ResultStatus::Fault,
            fault_type: spec_fault_type(info.reason),
            unit: info.unit_code as u32,
            sideband: info.sideband as u32,
            level: info.level,
            extra: info.unk_5 as u32,
            is_read: if info.read {
                1
            } else {
                0
            },
            address: info.address,
        },
        _ => ResultInfo {
            status: match err {
                WorkError::Timeout => ResultStatus::Timeout,
                WorkError::Killed => ResultStatus::Killed,
                WorkError::ChannelError(_) => ResultStatus::ChannelError,
                WorkError::NoDevice => ResultStatus::NoDevice,
                _ => ResultStatus::UnknownError,
            },
            fault_type: ResultFaultType::NoFault,
            unit: 0,
            sideband: 0,
            level: 0,
            extra: 0,
            is_read: 0,
            address: 0,
        },
    }
}

impl From<WorkError> for ResultInfo {
    fn from(err: WorkError) -> (r: Self) {
        match err {
            WorkError::Fault(info) => ResultInfo {
                status: ResultStatus::Fault,
                fault_type: match info.reason {
                    FaultReason::Unmapped => ResultFaultType::Unmapped,
                    FaultReason::AfFault => ResultFaultType::AfFault,
                    FaultReason::WriteOnly => ResultFaultType::WriteOnly,
                    FaultReason::ReadOnly => ResultFaultType::ReadOnly,
                    FaultReason::NoAccess => ResultFaultType::NoAccess,
                    FaultReason::Unknown(_) => ResultFaultType::Unknown,
                },
                unit: info.unit_code as u32,
                sideband: info.sideband as u32,
                level: info.level,
                extra: info.unk_5 as u32,
                is_read: if info.read {
                    1
                } else {
                    0
                },
                address: info.address,
            },
            a => ResultInfo {
                status: match a {
                    WorkError::Timeout => ResultStatus::Timeout,
                    WorkError::Killed => ResultStatus::Killed,
                    WorkError::ChannelError(_) => ResultStatus::ChannelError,
                    WorkError::NoDevice => ResultStatus::NoDevice,
                    _ => ResultStatus::UnknownError,
                },
                fault_type: ResultFaultType::NoFault,
                unit: 0,
                sideband: 0,
                level: 0,
                extra: 0,
                is_read: 0,
                address: 0,
            },
        }
    }
}

impl vstd::std_specs::convert::FromSpecImpl<WorkError> for ResultInfo {
    open spec fn obeys_from_spec() -> bool {
        true
    }

    open spec fn from_spec(err: WorkError) -> ResultInfo {
        spec_result_info(err)
    }
}

/// The driver error code a work error maps to: timeouts time out,
/// faults and channel errors are I/O errors (not user faults), killed
/// work was cancelled, a crash leaves no device, and empty registers
/// leave no data.
pub open spec fn spec_error_code(err: WorkError) -> DriverError {
    match err {
        WorkError::Timeout => DriverError::TimedOut,
        WorkError::Fault(_) => DriverError::Io,
        WorkError::Unknown => DriverError::NoData,
        WorkError::Killed => DriverError::Canceled,
        WorkError::NoDevice => DriverError::NoDevice,
        WorkError::ChannelError(_) => DriverError::Io,
    }
}

impl From<WorkError> for DriverError {
    fn from(err: WorkError) -> (r: Self) {
        match err {
            WorkError::Timeout => DriverError::TimedOut,
            WorkError::Fault(_) => DriverError::Io,
            WorkError::Unknown => DriverError::NoData,
            WorkError::Killed => DriverError::Canceled,
            WorkError::NoDevice => DriverError::NoDevice,
            WorkError::ChannelError(_) => DriverError::Io,
        }
    }
}

impl vstd::std_specs::convert::FromSpecImpl<WorkError> for DriverError {
    open spec fn obeys_from_spec() -> bool {
        true
    }

    open spec fn from_spec(err: WorkError) -> DriverError {
        spec_error_code(err)
    }
}

} // verus!
