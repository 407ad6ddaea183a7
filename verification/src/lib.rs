//! Verified core of a driver for Apple AGX GPUs.
//!
//! The library models the GPU command execution and firmware-dispatch
//! subsystem: event slots with wrap-safe 32-bit stamps, per-pipe work
//! queues that retire commands in submission order, the transactional
//! job lifecycle (build, commit, submit), and the top-level manager
//! that accounts for in-flight operations, garbage collection and
//! fault, timeout and crash recovery.
//!
//! Everything the firmware or the hardware writes (stamps, status
//! flags, acknowledgements) enters the library as explicit inputs, so
//! every decision the driver takes is a verified function of those
//! inputs.

pub mod afk;
pub mod allocator;
pub mod channel;
pub mod debug;
pub mod event;
pub mod fence;
pub mod gpu;
pub mod hw;
pub mod iomem;
pub mod job;
pub mod module_param;
pub mod of;
pub mod queue;
pub mod regs;
pub mod results;
pub mod workqueue;

use vstd::prelude::*;

verus! {

/// Errors the submission and control paths return to callers.
///
/// Per-command failures travel on the command records themselves (see
/// `workqueue::WorkError`); these are the errors of the driver entry
/// points.
#[derive(Clone, Copy, Debug, PartialEq, Eq, Structural)]
pub enum DriverError {
    /// The ring or the event-slot window is full; retry after a fence.
    Busy,
    /// Protocol misuse: wrong pipe, uncommitted submit, commit out of order.
    Invalid,
    /// The firmware has crashed; the device is gone.
    NoDevice,
    /// Internal fatal inconsistency.
    Io,
    /// No object stands behind the given handle.
    NoEntry,
    /// An offset lies outside the object it points into.
    Range,
    /// A bounded wait for a firmware acknowledgement ran out.
    TimedOut,
    /// The command was cancelled as collateral of another failure.
    Canceled,
    /// Diagnostic registers held no data.
    NoData,
}

} // verus!
