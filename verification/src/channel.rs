//! Ring-buffer message channels between the driver and the firmware,
//! and the bit-exact mailbox doorbell encoding.
//!
//! Each channel is a single-producer/single-consumer ring. The model
//! keeps the full log of records sent on a channel together with a
//! cursor for how far the consumer has progressed; `send` never blocks,
//! by protocol the firmware drains faster than the host produces.

use vstd::prelude::*;
use crate::event::EventValue;

verus! {

/// The three GPU execution engines.
#[derive(Clone, Copy, Debug, PartialEq, Eq, Structural)]
pub enum PipeType {
    Vertex,
    Fragment,
    Compute,
}

impl PipeType {
    /// Numeric encoding used in doorbell messages.
    pub open spec fn spec_index(self) -> u64 {
        match self {
            PipeType::Vertex => 0,
            PipeType::Fragment => 1,
            PipeType::Compute => 2,
        }
    }

    pub fn index(&self) -> (r: u64)
        ensures
            r == self.spec_index(),
    {
        match self {
            PipeType::Vertex => 0,
            PipeType::Fragment => 1,
            PipeType::Compute => 2,
        }
    }
}

/// Kind code of a channel error reported by the firmware.
#[derive(Clone, Copy, Debug, PartialEq, Eq, Structural)]
pub struct ChannelErrorType(pub u32);

/// Firmware endpoint for init and incoming notifications.
pub const EP_FIRMWARE: u8 = 0x20;
/// Doorbell endpoint for work and message submissions.
pub const EP_DOORBELL: u8 = 0x21;

/// Doorbell number for firmware kicks (wakeups).
pub const DOORBELL_KICKFW: u64 = 0x10;
/// Doorbell number for device-control channel kicks.
pub const DOORBELL_DEVCTRL: u64 = 0x11;

/// Mailbox messages are 64-bit: the upper 8 bits carry the opcode and
/// the rest the payload.
pub open spec fn spec_opcode(msg: u64) -> u64 {
    msg / 0x100_0000_0000_0000
}

/// Initialize-firmware message: opcode 0x81 over the low 44 bits of the
/// init-data address.
pub open spec fn spec_init_msg(initdata_iova: u64) -> int {
    0x8100_0000_0000_0000 + (initdata_iova % 0x1000_0000_0000)
}

pub fn init_msg(initdata_iova: u64) -> (r: u64)
    ensures
        r == spec_init_msg(initdata_iova),
        spec_opcode(r) == 0x81,
{
    let payload: u64 = initdata_iova % 0x1000_0000_0000;
    0x8100_0000_0000_0000u64 + payload
}

/// TX doorbell for a submission pipe: opcode 0x83, bits 0..1 the pipe
/// type, bits 2..3 the priority.
pub open spec fn spec_tx_doorbell(pipe: PipeType, priority: u64) -> int {
    0x8300_0000_0000_0000 + pipe.spec_index() + priority * 4
}

pub fn tx_doorbell(pipe: PipeType, priority: u64) -> (r: u64)
    requires
        priority < 4,
    ensures
        r == spec_tx_doorbell(pipe, priority),
        spec_opcode(r) == 0x83,
{
    0x8300_0000_0000_0000u64 + pipe.index() + priority * 4
}

/// TX doorbell carrying a control doorbell number instead of a pipe.
pub open spec fn spec_ctrl_doorbell(number: u64) -> int {
    0x8300_0000_0000_0000 + number
}

pub fn ctrl_doorbell(number: u64) -> (r: u64)
    requires
        number < 0x100,
    ensures
        r == spec_ctrl_doorbell(number),
        spec_opcode(r) == 0x83,
{
    0x8300_0000_0000_0000u64 + number
}

/// Firmware-control channel doorbell: opcode 0x84, empty payload.
pub const MSG_FWCTL: u64 = 0x8400_0000_0000_0000;

/// Receive doorbell sent by the firmware: opcode 0x42, empty payload.
pub const MSG_RX_DOORBELL: u64 = 0x4200_0000_0000_0000;

/// True exactly for the one firmware-to-host message the driver
/// handles: an RX doorbell on the firmware endpoint.
pub fn is_rx_doorbell(ep: u8, msg: u64) -> (r: bool)
    ensures
        r == (ep == EP_FIRMWARE && msg == MSG_RX_DOORBELL),
{
    ep == EP_FIRMWARE && msg == MSG_RX_DOORBELL
}

/// One record on a submission pipe channel: tells the firmware to run a
/// work queue up to `wptr`.
#[derive(Clone, Copy, Debug, PartialEq, Eq, Structural)]
pub struct RunWorkQueueMsg {
    pub pipe_type: PipeType,
    pub work_queue_ptr: u64,
    pub wptr: u32,
    pub event_slot: u32,
    pub is_new: bool,
}

/// A driver-to-firmware submission pipe.
pub struct PipeChannel {
    pub msgs: Vec<RunWorkQueueMsg>,
}

impl PipeChannel {
    pub fn new() -> (r: PipeChannel)
        ensures
            r.msgs@ == Seq::<RunWorkQueueMsg>::empty(),
    {
        PipeChannel { msgs: Vec::new() }
    }

    /// Write one record and advance the producer pointer.
    pub fn send(&mut self, msg: RunWorkQueueMsg)
        ensures
            final(self).msgs@ == old(self).msgs@.push(msg),
    {
        self.msgs.push(msg);
    }
}

/// Records on the device-control channel (spec of the control protocol).
#[derive(Clone, Copy, Debug, PartialEq, Eq, Structural)]
pub enum DeviceControlMsg {
    Initialize,
    /// Invalidates a firmware context; `ctx_0 == 0xff` or `ctx_1 == 0xff`
    /// leaves every context alone but still flushes the firmware cache.
    DestroyContext {
        ctx_0: u8,
        ctx_1: u8,
        ctx_4: u8,
        ctx_23: u8,
        gpu_context_ptr: u64,
    },
    RecoverChannel {
        pipe_type: u32,
        work_queue_ptr: u64,
        event_value: u32,
    },
    GrowTVBAck {
        buffer_slot: u32,
        vm_slot: u32,
        counter: u32,
        subpipe: u32,
        halt_count: u64,
    },
}

/// The device-control channel: sent records plus the count the firmware
/// has acknowledged.
pub struct DeviceControlChannel {
    pub msgs: Vec<DeviceControlMsg>,
    pub completed: usize,
}

impl DeviceControlChannel {
    pub open spec fn inv(self) -> bool {
        self.completed <= self.msgs.len()
    }

    pub fn new() -> (r: DeviceControlChannel)
        ensures
            r.msgs@ == Seq::<DeviceControlMsg>::empty(),
            r.completed == 0,
            r.inv(),
    {
        DeviceControlChannel { msgs: Vec::new(), completed: 0 }
    }

    /// Write one record; the returned token identifies it for `acked`.
    pub fn send(&mut self, msg: DeviceControlMsg) -> (token: usize)
        requires
            old(self).inv(),
        ensures
            final(self).msgs@ == old(self).msgs@.push(msg),
            final(self).completed == old(self).completed,
            token == old(self).msgs.len(),
            final(self).inv(),
    {
        let token = self.msgs.len();
        self.msgs.push(msg);
        token
    }

    /// Poll whether the firmware has processed the record behind `token`.
    pub fn acked(&self, token: usize) -> (r: bool)
        ensures
            r == (token < self.completed),
    {
        token < self.completed
    }

    /// Model of the firmware consuming one record (driven from outside
    /// the library by whatever stands in for the firmware).
    pub fn fw_complete_one(&mut self)
        requires
            old(self).inv(),
            old(self).completed < old(self).msgs.len(),
        ensures
            final(self).msgs@ == old(self).msgs@,
            final(self).completed == old(self).completed + 1,
            final(self).inv(),
    {
        self.completed = self.completed + 1;
    }
}

/// A record on the firmware-control channel (secure cache maintenance).
#[derive(Clone, Copy, Debug, PartialEq, Eq, Structural)]
pub struct FwCtlMsg {
    pub addr: u64,
}

/// The firmware-control channel, same shape as device-control.
pub struct FwCtlChannel {
    pub msgs: Vec<FwCtlMsg>,
    pub completed: usize,
}

impl FwCtlChannel {
    pub open spec fn inv(self) -> bool {
        self.completed <= self.msgs.len()
    }

    pub fn new() -> (r: FwCtlChannel)
        ensures
            r.msgs@ == Seq::<FwCtlMsg>::empty(),
            r.completed == 0,
            r.inv(),
    {
        FwCtlChannel { msgs: Vec::new(), completed: 0 }
    }

    pub fn send(&mut self, msg: FwCtlMsg) -> (token: usize)
        requires
            old(self).inv(),
        ensures
            final(self).msgs@ == old(self).msgs@.push(msg),
            final(self).completed == old(self).completed,
            token == old(self).msgs.len(),
            final(self).inv(),
    {
        let token = self.msgs.len();
        self.msgs.push(msg);
        token
    }

    pub fn acked(&self, token: usize) -> (r: bool)
        ensures
            r == (token < self.completed),
    {
        token < self.completed
    }

    pub fn fw_complete_one(&mut self)
        requires
            old(self).inv(),
            old(self).completed < old(self).msgs.len(),
        ensures
            final(self).msgs@ == old(self).msgs@,
            final(self).completed == old(self).completed + 1,
            final(self).inv(),
    {
        self.completed = self.completed + 1;
    }
}

/// One record read off the event receive channel.
#[derive(Clone, Copy, Debug, PartialEq, Eq, Structural)]
pub enum EventMsg {
    /// A stamp was updated; look at the named slot.
    Flag { slot: u32 },
    /// A command ran too long; a negative culprit slot means unknown.
    Timeout { counter: u32, culprit_slot: i64, unk: u32 },
    /// The GPU MMU faulted; the registers hold the details.
    Fault,
    /// The firmware reports a broken channel.
    ChannelError { error_type: ChannelErrorType, pipe_type: u32, event_slot: u32, event_value: EventValue },
    /// The firmware asks for a tile-vertex-buffer grow acknowledgement.
    GrowTVB { vm_slot: u32, buffer_slot: u32, counter: u32 },
}

/// The firmware-to-driver event channel: records the firmware produced
/// and a consumer pointer.
pub struct EventChannel {
    pub msgs: Vec<EventMsg>,
    pub rptr: usize,
}

impl EventChannel {
    pub open spec fn inv(self) -> bool {
        self.rptr <= self.msgs.len()
    }

    pub fn new() -> (r: EventChannel)
        ensures
            r.msgs@ == Seq::<EventMsg>::empty(),
            r.rptr == 0,
            r.inv(),
    {
        EventChannel { msgs: Vec::new(), rptr: 0 }
    }

    /// Model of the firmware writing one record (driven from outside).
    pub fn fw_push(&mut self, msg: EventMsg)
        requires
            old(self).inv(),
        ensures
            final(self).msgs@ == old(self).msgs@.push(msg),
            final(self).rptr == old(self).rptr,
            final(self).inv(),
    {
        self.msgs.push(msg);
    }

    /// Whether a record is waiting.
    pub fn has_pending(&self) -> (r: bool)
        requires
            self.inv(),
        ensures
            r == (self.rptr < self.msgs.len()),
    {
        self.rptr < self.msgs.len()
    }

    /// Consume the next record.
    pub fn pop(&mut self) -> (r: EventMsg)
        requires
            old(self).inv(),
            old(self).rptr < old(self).msgs.len(),
        ensures
            final(self).msgs@ == old(self).msgs@,
            final(self).rptr == old(self).rptr + 1,
            r == old(self).msgs@[old(self).rptr as int],
            final(self).inv(),
    {
        let msg = self.msgs[self.rptr];
        self.rptr = self.rptr + 1;
        msg
    }
}

} // verus!
