//! The top-level GPU manager: global firmware state, channel
//! endpoints, operation accounting, garbage collection, and fault,
//! timeout and crash recovery.

use vstd::prelude::*;
use crate::allocator::{Allocator, KernelAllocators};
use crate::channel::{ctrl_doorbell, init_msg, tx_doorbell, ChannelErrorType, DeviceControlChannel,
    DeviceControlMsg, EventChannel, FwCtlChannel, FwCtlMsg, PipeChannel, PipeType, DOORBELL_DEVCTRL,
    DOORBELL_KICKFW, EP_DOORBELL, EP_FIRMWARE, MSG_FWCTL};
use crate::debug::{DebugFlags, DebugState};
use crate::event::{EventManager, EventValue};
use crate::hw::{DynConfig, HwConfig};
use crate::job::JobSubmission;
use crate::regs::FaultInfo;
use crate::workqueue::{SubmittedWork, WorkError, WorkQueue};
use crate::DriverError;

verus! {

/// Number of work submission pipes per type, one per priority level.
pub const NUM_PIPES: usize = 4;

/// Garbage bytes allowed in a firmware allocator before collection.
pub const MAX_FW_ALLOC_GARBAGE_BYTES: usize = 16 * 1024 * 1024;

/// Garbage objects allowed in a firmware allocator before collection.
pub const MAX_FW_ALLOC_GARBAGE_OBJECTS: usize = 2048;

/// Page size of the firmware page tables.
pub const UAT_PGSZ: u64 = 0x4000;

/// Private (cached) firmware structure range base.
pub const IOVA_KERN_PRIV_BASE: u64 = 0xffffffa000000000;
pub const IOVA_KERN_PRIV_TOP: u64 = 0xffffffa600000000;
/// GPU-read-only firmware structure range.
pub const IOVA_KERN_GPU_RO_BASE: u64 = 0xffffffa600000000;
pub const IOVA_KERN_GPU_RO_TOP: u64 = 0xffffffa800000000;
/// Shared (uncached) firmware structure range.
pub const IOVA_KERN_SHARED_BASE: u64 = 0xffffffa800000000;
pub const IOVA_KERN_SHARED_TOP: u64 = 0xffffffaa00000000;
/// Shared read-only firmware structure range.
pub const IOVA_KERN_SHARED_RO_BASE: u64 = 0xffffffaa00000000;
pub const IOVA_KERN_SHARED_RO_TOP: u64 = 0xffffffac00000000;
/// GPU/firmware shared structure range.
pub const IOVA_KERN_GPU_BASE: u64 = 0xffffffac00000000;
pub const IOVA_KERN_GPU_TOP: u64 = 0xffffffae00000000;
/// Firmware MMIO mapping range.
pub const IOVA_KERN_MMIO_BASE: u64 = 0xffffffaf00000000;
pub const IOVA_KERN_MMIO_TOP: u64 = 0xffffffb000000000;
/// Buffer-manager control structure, low-half double mapping.
pub const IOVA_KERN_GPU_BUFMGR_LOW: u64 = 0x20_0000_0000;
/// Buffer-manager control structure, high-half mapping.
pub const IOVA_KERN_GPU_BUFMGR_HIGH: u64 = 0xffffffaeffff0000;

/// A monotonically incrementing id counter.
pub struct ID {
    pub value: u64,
}

impl ID {
    pub fn new(val: u64) -> (r: ID)
        ensures
            r.value == val,
    {
        ID { value: val }
    }

    /// Fetch the next unique id. Each draw returns the counter and
    /// leaves it strictly larger, so ids are monotonic and injective
    /// within one driver instance.
    pub fn next(&mut self) -> (r: u64)
        requires
            old(self).value < u64::MAX,
        ensures
            r == old(self).value,
            final(self).value == old(self).value + 1,
    {
        let v = self.value;
        self.value = self.value + 1;
        v
    }
}

impl Default for ID {
    /// Ids start at 2; 0 and 1 are reserved for the system.
    fn default() -> (r: Self)
        ensures
            r.value == 2,
    {
        ID { value: 2 }
    }
}

/// Ids drawn from one counter are strictly monotonic, hence injective:
/// a draw returns the counter's value and leaves the counter strictly
/// larger, so any draw that happens after another returns a strictly
/// larger id and no id is ever returned twice.
pub proof fn lemma_id_draws_distinct(
    first_before: ID,
    first_after: ID,
    first_id: u64,
    second_before: ID,
    second_after: ID,
    second_id: u64,
)
    requires
        first_id == first_before.value,
        first_after.value == first_before.value + 1,
        second_before.value >= first_after.value,
        second_id == second_before.value,
        second_after.value == second_before.value + 1,
    ensures
        second_id > first_id,
        second_id != first_id,
{
}

/// The global id counters of one driver instance.
pub struct SequenceIDs {
    pub file: ID,
    pub vm: ID,
    pub submission: ID,
    pub queue: ID,
}

impl Default for SequenceIDs {
    fn default() -> (r: Self)
        ensures
            r.file.value == 2,
            r.vm.value == 2,
            r.submission.value == 2,
            r.queue.value == 2,
    {
        SequenceIDs {
            file: ID { value: 2 },
            vm: ID { value: 2 },
            submission: ID { value: 2 },
            queue: ID { value: 2 },
        }
    }
}

/// A guard for one in-flight submission; hand it back to `end_op`.
pub struct OpGuard {
    pub token: u64,
}

/// Firmware status flags shared with the firmware.
#[derive(Clone, Copy, Debug, PartialEq, Eq, Structural)]
pub struct FwStatusFlags {
    /// Nonzero once the firmware has halted after a fault or request.
    pub halted: u32,
    /// The driver sets this to resume a halted firmware.
    pub resume: u32,
    /// How many times the firmware has halted.
    pub halt_count: u64,
}

/// One entry of the pending-stamps table in the firmware globals: bit 0
/// flags a waiter, the slot number sits above four flag bits.
#[derive(Clone, Copy, Debug, PartialEq, Eq, Structural)]
pub struct PendingStamp {
    pub info: u32,
    pub wait_value: u32,
}

/// The event slot a pending-stamp entry names.
pub open spec fn spec_stamp_slot(info: u32) -> u32 {
    ((info / 16) % 128) as u32
}

/// The error a culprit rule assigns to a slot: collateral slots see
/// `Killed`, the culprit (or every slot, when no culprit is known) sees
/// the real error.
pub open spec fn spec_culprit_error(culprit_slot: Option<u32>, slot: u32, error: WorkError) -> WorkError {
    match culprit_slot {
        Some(c) => if c != slot {
            WorkError::Killed
        } else {
            error
        },
        None => error,
    }
}

/// One error mark to deliver: the slot, the stamp threshold, and the
/// error for commands at or below it.
#[derive(Clone, Copy, Debug, PartialEq, Eq, Structural)]
pub struct EventMark {
    pub slot: u32,
    pub threshold: EventValue,
    pub error: WorkError,
}

/// The marks a pending-stamps table yields under a culprit rule: one
/// mark per entry whose waiter flag is set, in table order.
pub open spec fn spec_marks(
    stamps: Seq<PendingStamp>,
    culprit_slot: Option<u32>,
    error: WorkError,
) -> Seq<EventMark>
    decreases stamps.len(),
{
    if stamps.len() == 0 {
        Seq::empty()
    } else {
        let rest = spec_marks(stamps.drop_first(), culprit_slot, error);
        if stamps[0].info % 2 == 1 {
            seq![
                EventMark {
                    slot: spec_stamp_slot(stamps[0].info),
                    threshold: EventValue { raw: stamps[0].wait_value },
                    error: spec_culprit_error(culprit_slot, spec_stamp_slot(stamps[0].info), error),
                },
            ] + rest
        } else {
            rest
        }
    }
}

/// Extending the walked prefix of a stamps table by one entry extends
/// its marks by that entry's mark, if flagged.
pub proof fn lemma_marks_take_succ(
    stamps: Seq<PendingStamp>,
    culprit_slot: Option<u32>,
    error: WorkError,
    i: int,
)
    requires
        0 <= i < stamps.len(),
    ensures
        spec_marks(stamps.take(i + 1), culprit_slot, error) == if stamps[i].info % 2 == 1 {
            spec_marks(stamps.take(i), culprit_slot, error).push(
                (EventMark {
                    slot: spec_stamp_slot(stamps[i].info),
                    threshold: EventValue { raw: stamps[i].wait_value },
                    error: spec_culprit_error(culprit_slot, spec_stamp_slot(stamps[i].info), error),
                }),
            )
        } else {
            spec_marks(stamps.take(i), culprit_slot, error)
        },
    decreases i,
{
    if i == 0 {
        assert(stamps.take(1).drop_first() =~= Seq::<PendingStamp>::empty());
        assert(stamps.take(0) =~= Seq::<PendingStamp>::empty());
        if stamps[0].info % 2 == 1 {
            assert(spec_marks(stamps.take(1), culprit_slot, error) =~= spec_marks(
                stamps.take(0),
                culprit_slot,
                error,
            ).push(
                (EventMark {
                    slot: spec_stamp_slot(stamps[0].info),
                    threshold: EventValue { raw: stamps[0].wait_value },
                    error: spec_culprit_error(culprit_slot, spec_stamp_slot(stamps[0].info), error),
                }),
            ));
        }
    } else {
        lemma_marks_take_succ(stamps.drop_first(), culprit_slot, error, i - 1);
        assert(stamps.take(i + 1).drop_first() =~= stamps.drop_first().take(i));
        assert(stamps.take(i).drop_first() =~= stamps.drop_first().take(i - 1));
        if stamps[0].info % 2 == 1 {
            if stamps[i].info % 2 == 1 {
                assert(spec_marks(stamps.take(i + 1), culprit_slot, error) =~= spec_marks(
                    stamps.take(i),
                    culprit_slot,
                    error,
                ).push(
                    (EventMark {
                        slot: spec_stamp_slot(stamps[i].info),
                        threshold: EventValue { raw: stamps[i].wait_value },
                        error: spec_culprit_error(
                            culprit_slot,
                            spec_stamp_slot(stamps[i].info),
                            error,
                        ),
                    }),
                ));
            }
        }
    }
}

/// Firmware globals shared through the init-data structure.
pub struct GpuGlobals {
    /// Delay before the firmware powers the GPU off when idle.
    pub idle_off_delay_ms: u32,
    /// Count of operations the driver currently has in flight.
    pub pending_submissions: u64,
    /// The pending-stamps table the firmware maintains.
    pub pending_stamps: Vec<PendingStamp>,
}

/// One outgoing mailbox message.
#[derive(Clone, Copy, Debug, PartialEq, Eq, Structural)]
pub struct MailboxMsg {
    pub ep: u8,
    pub msg: u64,
}

/// The per-type submission pipes, one per priority.
pub struct PipeChannels {
    pub vtx: Vec<PipeChannel>,
    pub frag: Vec<PipeChannel>,
    pub comp: Vec<PipeChannel>,
}

/// The records so far sent on the submission pipe for one engine type
/// and priority level.
pub open spec fn spec_pipe_msgs(pipes: PipeChannels, t: PipeType, j: int) -> Seq<
    crate::channel::RunWorkQueueMsg,
> {
    match t {
        PipeType::Vertex => pipes.vtx@[j].msgs@,
        PipeType::Fragment => pipes.frag@[j].msgs@,
        PipeType::Compute => pipes.comp@[j].msgs@,
    }
}

/// Description of one hardware MMIO region to map for the firmware.
#[derive(Clone, Copy, Debug, PartialEq, Eq, Structural)]
pub struct IoMappingDesc {
    /// Physical base address; need not be page aligned.
    pub base: u64,
    /// Size of one element in bytes.
    pub size: u64,
    /// Number of array elements.
    pub count: u64,
    /// Physical distance between elements.
    pub stride: u64,
    /// Whether the region repeats once per die.
    pub per_die: bool,
    /// Whether the firmware may write the region.
    pub writable: bool,
}

/// One established kernel mapping of firmware-visible MMIO.
#[derive(Clone, Copy, Debug, PartialEq, Eq, Structural)]
pub struct KernelMapping {
    pub iova: u64,
    pub phys: u64,
    pub size: u64,
    pub writable: bool,
}

/// An entry of the firmware's io-mappings table.
#[derive(Clone, Copy, Debug, PartialEq, Eq, Structural)]
pub struct RawIoMapping {
    pub phys_addr: u64,
    pub virt_addr: u64,
    pub total_size: u64,
    pub element_size: u64,
    pub readwrite: bool,
}

/// A firmware context object parked for destruction.
#[derive(Clone, Copy, Debug, PartialEq, Eq, Structural)]
pub struct GpuContextData {
    /// GPU address of the context structure.
    pub gpu_pointer: u64,
    pub ctx_0: u8,
    pub ctx_1: u8,
    pub ctx_4: u8,
    pub ctx_23: u8,
}

/// The top-level GPU manager.
pub struct GpuManager {
    pub cfg: HwConfig,
    pub dyncfg: DynConfig,
    /// Set once the firmware crashes; terminal.
    pub crashed: bool,
    pub fw_status: FwStatusFlags,
    pub globals: GpuGlobals,
    /// Outgoing mailbox messages, in send order.
    pub mailbox: Vec<MailboxMsg>,
    pub device_control: DeviceControlChannel,
    pub fwctl: FwCtlChannel,
    pub event_channel: EventChannel,
    pub pipes: PipeChannels,
    pub event_manager: EventManager,
    pub kalloc: KernelAllocators,
    pub ids: SequenceIDs,
    /// Contexts whose owners dropped; invalidated on the next
    /// allocation opportunity.
    pub garbage_contexts: Vec<GpuContextData>,
    /// Established firmware MMIO mappings.
    pub io_mappings: Vec<KernelMapping>,
    /// Next free firmware MMIO address.
    pub next_mmio_iova: u64,
    /// GPU address of the init-data structure.
    pub initdata_va: u64,
}

impl GpuManager {
    pub open spec fn inv(self) -> bool {
        &&& self.device_control.inv()
        &&& self.fwctl.inv()
        &&& self.event_channel.inv()
        &&& self.event_manager.inv()
        &&& self.kalloc.inv()
        &&& self.pipes.vtx.len() == NUM_PIPES
        &&& self.pipes.frag.len() == NUM_PIPES
        &&& self.pipes.comp.len() == NUM_PIPES
        &&& IOVA_KERN_MMIO_BASE <= self.next_mmio_iova <= IOVA_KERN_MMIO_TOP
    }

    /// Assemble a manager: the five allocators over their address
    /// ranges, the channel set, the event manager, and the id counters.
    pub fn new(cfg: HwConfig, dyncfg: DynConfig, initdata_va: u64, num_event_slots: usize) -> (r:
        GpuManager)
        requires
            num_event_slots <= u32::MAX,
        ensures
            r.inv(),
            !r.crashed,
            r.cfg == cfg,
            r.dyncfg == dyncfg,
            r.initdata_va == initdata_va,
            r.event_manager.slots.len() == num_event_slots,
            r.globals.pending_submissions == 0,
            r.mailbox@ == Seq::<MailboxMsg>::empty(),
            r.garbage_contexts@ == Seq::<GpuContextData>::empty(),
            r.next_mmio_iova == IOVA_KERN_MMIO_BASE,
    {
        let mut vtx: Vec<PipeChannel> = Vec::new();
        let mut frag: Vec<PipeChannel> = Vec::new();
        let mut comp: Vec<PipeChannel> = Vec::new();
        let mut i: usize = 0;
        while i < NUM_PIPES
            invariant
                i <= NUM_PIPES,
                vtx.len() == i,
                frag.len() == i,
                comp.len() == i,
            decreases NUM_PIPES - i,
        {
            vtx.push(PipeChannel::new());
            frag.push(PipeChannel::new());
            comp.push(PipeChannel::new());
            i = i + 1;
        }
        GpuManager {
            cfg,
            dyncfg,
            crashed: false,
            fw_status: FwStatusFlags { halted: 0, resume: 0, halt_count: 0 },
            globals: GpuGlobals {
                idle_off_delay_ms: 2,
                pending_submissions: 0,
                pending_stamps: Vec::new(),
            },
            mailbox: Vec::new(),
            device_control: DeviceControlChannel::new(),
            fwctl: FwCtlChannel::new(),
            event_channel: EventChannel::new(),
            pipes: PipeChannels { vtx, frag, comp },
            event_manager: EventManager::new(num_event_slots),
            kalloc: KernelAllocators {
                private: Allocator::new(IOVA_KERN_PRIV_BASE, IOVA_KERN_PRIV_TOP),
                shared: Allocator::new(IOVA_KERN_SHARED_BASE, IOVA_KERN_SHARED_TOP),
                shared_ro: Allocator::new(IOVA_KERN_SHARED_RO_BASE, IOVA_KERN_SHARED_RO_TOP),
                gpu: Allocator::new(IOVA_KERN_GPU_BASE, IOVA_KERN_GPU_TOP),
                gpu_ro: Allocator::new(IOVA_KERN_GPU_RO_BASE, IOVA_KERN_GPU_RO_TOP),
            },
            ids: SequenceIDs {
                file: ID { value: 2 },
                vm: ID { value: 2 },
                submission: ID { value: 2 },
                queue: ID { value: 2 },
            },
            garbage_contexts: Vec::new(),
            io_mappings: Vec::new(),
            next_mmio_iova: IOVA_KERN_MMIO_BASE,
            initdata_va,
        }
    }

    pub fn is_crashed(&self) -> (r: bool)
        ensures
            r == self.crashed,
    {
        self.crashed
    }

    /// Record that the firmware crashed; every operation after this
    /// fails with `NoDevice`. Returns every occupied event slot with
    /// its owning queue's id: the caller must fail each of those
    /// queues with `NoDevice` (the queues live with their files, not
    /// with the manager), so that every pending command everywhere
    /// completes with the error.
    pub fn firmware_crashed(&mut self) -> (owners: Vec<crate::event::SlotOwner>)
        requires
            old(self).inv(),
        ensures
            final(self).inv(),
            *final(self) == (GpuManager { crashed: true, ..*old(self) }),
            owners@ == crate::event::spec_owned_slots(old(self).event_manager.slots@),
    {
        self.crashed = true;
        self.event_manager.owned_slots()
    }

    /// Boot the firmware: queue the device-control `Initialize`
    /// command, send the init message carrying the low 44 bits of the
    /// init-data address, kick device-control, and wake the firmware.
    pub fn init(&mut self) -> (r: Result<(), DriverError>)
        requires
            old(self).inv(),
        ensures
            final(self).inv(),
            r is Err <==> old(self).crashed,
            r is Err ==> r == Err::<(), DriverError>(DriverError::NoDevice) && *final(self) == *old(self),
            r is Ok ==> {
                &&& final(self).device_control.msgs@ == old(self).device_control.msgs@.push(
                    DeviceControlMsg::Initialize,
                )
                &&& final(self).mailbox@ == old(self).mailbox@.push(
                    (MailboxMsg { ep: EP_FIRMWARE, msg: (crate::channel::spec_init_msg(old(self).initdata_va) as u64) }),
                ).push(
                    (MailboxMsg { ep: EP_DOORBELL, msg: (crate::channel::spec_ctrl_doorbell(DOORBELL_DEVCTRL) as u64) }),
                ).push(
                    (MailboxMsg { ep: EP_DOORBELL, msg: (crate::channel::spec_ctrl_doorbell(DOORBELL_KICKFW) as u64) }),
                )
                &&& *final(self) == (GpuManager {
                    device_control: final(self).device_control,
                    mailbox: final(self).mailbox,
                    ..*old(self)
                })
            },
    {
        if self.crashed {
            return Err(DriverError::NoDevice);
        }
        let _ = self.device_control.send(DeviceControlMsg::Initialize);
        let msg = init_msg(self.initdata_va);
        self.mailbox.push(MailboxMsg { ep: EP_FIRMWARE, msg });
        self.mailbox.push(MailboxMsg { ep: EP_DOORBELL, msg: ctrl_doorbell(DOORBELL_DEVCTRL) });
        self.mailbox.push(MailboxMsg { ep: EP_DOORBELL, msg: ctrl_doorbell(DOORBELL_KICKFW) });
        Ok(())
    }

    /// Wake the firmware with a kick doorbell.
    pub fn kick_firmware(&mut self) -> (r: Result<(), DriverError>)
        ensures
            r is Err <==> old(self).crashed,
            r is Err ==> r == Err::<(), DriverError>(DriverError::NoDevice) && *final(self) == *old(self),
            r is Ok ==> *final(self) == (GpuManager { mailbox: final(self).mailbox, ..*old(self) })
                && final(self).mailbox@ == old(self).mailbox@.push(
                (MailboxMsg { ep: EP_DOORBELL, msg: (crate::channel::spec_ctrl_doorbell(DOORBELL_KICKFW) as u64) }),
            ),
    {
        if self.crashed {
            return Err(DriverError::NoDevice);
        }
        self.mailbox.push(MailboxMsg { ep: EP_DOORBELL, msg: ctrl_doorbell(DOORBELL_KICKFW) });
        Ok(())
    }

    /// Account one submission going in flight, and wake the firmware.
    /// Returns a guard to hand back to `end_op` when the operation
    /// retires; after a crash this fails with `NoDevice`.
    pub fn start_op(&mut self) -> (r: Result<OpGuard, DriverError>)
        requires
            old(self).globals.pending_submissions < u64::MAX,
        ensures
            r is Err <==> old(self).crashed,
            r is Err ==> r == Err::<OpGuard, DriverError>(DriverError::NoDevice) && *final(self)
                == *old(self),
            r is Ok ==> {
                &&& final(self).globals.pending_submissions == old(self).globals.pending_submissions + 1
                &&& final(self).mailbox@ == old(self).mailbox@.push(
                    (MailboxMsg { ep: EP_DOORBELL, msg: (crate::channel::spec_ctrl_doorbell(DOORBELL_KICKFW) as u64) }),
                )
                &&& *final(self) == (GpuManager {
                    globals: (GpuGlobals {
                        pending_submissions: final(self).globals.pending_submissions,
                        ..old(self).globals
                    }),
                    mailbox: final(self).mailbox,
                    ..*old(self)
                })
            },
    {
        if self.crashed {
            return Err(DriverError::NoDevice);
        }
        self.globals.pending_submissions = self.globals.pending_submissions + 1;
        self.mailbox.push(MailboxMsg { ep: EP_DOORBELL, msg: ctrl_doorbell(DOORBELL_KICKFW) });
        Ok(OpGuard { token: 0 })
    }

    /// Retire one in-flight submission.
    pub fn end_op(&mut self, guard: OpGuard)
        requires
            old(self).globals.pending_submissions > 0,
        ensures
            final(self).globals.pending_submissions == old(self).globals.pending_submissions - 1,
            *final(self) == (GpuManager {
                globals: (GpuGlobals {
                    pending_submissions: final(self).globals.pending_submissions,
                    ..old(self).globals
                }),
                ..*old(self)
            }),
    {
        let _ = guard;
        self.globals.pending_submissions = self.globals.pending_submissions - 1;
    }

    /// Update the firmware idle-power-off delay from the debug flags.
    pub fn update_globals(&mut self, debug: &DebugState)
        ensures
            final(self).globals.idle_off_delay_ms == (if debug.flags & (1u64
                << DebugFlags::WaitForPowerOff.spec_bit()) != 0 {
                0u32
            } else if debug.flags & (1u64 << DebugFlags::KeepGpuPowered.spec_bit()) != 0 {
                5000u32
            } else {
                2u32
            }),
            *final(self) == (GpuManager {
                globals: (GpuGlobals {
                    idle_off_delay_ms: final(self).globals.idle_off_delay_ms,
                    ..old(self).globals
                }),
                ..*old(self)
            }),
    {
        let mut timeout: u32 = 2;
        if debug.debug_enabled(DebugFlags::WaitForPowerOff) {
            timeout = 0;
        } else if debug.debug_enabled(DebugFlags::KeepGpuPowered) {
            timeout = 5000;
        }
        self.globals.idle_off_delay_ms = timeout;
    }

    /// Queue a firmware-control command and ring its doorbell; `fw_ack`
    /// is whether the firmware acknowledged within the bounded wait.
    pub fn fwctl(&mut self, msg: FwCtlMsg, fw_ack: bool) -> (r: Result<(), DriverError>)
        requires
            old(self).inv(),
        ensures
            final(self).inv(),
            old(self).crashed ==> r == Err::<(), DriverError>(DriverError::NoDevice) && *final(self)
                == *old(self),
            !old(self).crashed ==> {
                &&& final(self).fwctl.msgs@ == old(self).fwctl.msgs@.push(msg)
                &&& final(self).mailbox@ == old(self).mailbox@.push(
                    (MailboxMsg { ep: EP_DOORBELL, msg: MSG_FWCTL }),
                )
                &&& *final(self) == (GpuManager {
                    fwctl: final(self).fwctl,
                    mailbox: final(self).mailbox,
                    ..*old(self)
                })
                &&& (r is Ok <==> fw_ack)
                &&& (r is Err ==> r == Err::<(), DriverError>(DriverError::TimedOut))
            },
    {
        if self.crashed {
            return Err(DriverError::NoDevice);
        }
        let _token = self.fwctl.send(msg);
        self.mailbox.push(MailboxMsg { ep: EP_DOORBELL, msg: MSG_FWCTL });
        if fw_ack {
            Ok(())
        } else {
            Err(DriverError::TimedOut)
        }
    }

    /// Flush the whole firmware cache: a `DestroyContext` with the
    /// sentinel context ids 0xff/0xff touches no context but still
    /// performs a full cache flush.
    pub fn flush_fw_cache(&mut self, fw_ack: bool) -> (r: Result<(), DriverError>)
        requires
            old(self).inv(),
        ensures
            final(self).inv(),
            old(self).crashed ==> r == Err::<(), DriverError>(DriverError::NoDevice) && *final(self)
                == *old(self),
            !old(self).crashed ==> {
                &&& final(self).device_control.msgs@ == old(self).device_control.msgs@.push(
                    (DeviceControlMsg::DestroyContext {
                        ctx_0: 0xff,
                        ctx_1: 0xff,
                        ctx_4: 0,
                        ctx_23: 0,
                        gpu_context_ptr: 0,
                    }),
                )
                &&& final(self).mailbox@ == old(self).mailbox@.push(
                    (MailboxMsg { ep: EP_DOORBELL, msg: (crate::channel::spec_ctrl_doorbell(DOORBELL_DEVCTRL) as u64) }),
                )
                &&& *final(self) == (GpuManager {
                    device_control: final(self).device_control,
                    mailbox: final(self).mailbox,
                    ..*old(self)
                })
                &&& (r is Ok <==> fw_ack)
                &&& (r is Err ==> r == Err::<(), DriverError>(DriverError::TimedOut))
            },
    {
        if self.crashed {
            return Err(DriverError::NoDevice);
        }
        let _token = self.device_control.send(
            DeviceControlMsg::DestroyContext {
                ctx_0: 0xff,
                ctx_1: 0xff,
                ctx_4: 0,
                ctx_23: 0,
                gpu_context_ptr: 0,
            },
        );
        self.mailbox.push(MailboxMsg { ep: EP_DOORBELL, msg: ctrl_doorbell(DOORBELL_DEVCTRL) });
        if fw_ack {
            Ok(())
        } else {
            Err(DriverError::TimedOut)
        }
    }

    /// Park a freed context for invalidation at the next allocation
    /// opportunity.
    pub fn free_context(&mut self, ctx: GpuContextData)
        ensures
            final(self).garbage_contexts@ == old(self).garbage_contexts@.push(ctx),
            *final(self) == (GpuManager {
                garbage_contexts: final(self).garbage_contexts,
                ..*old(self)
            }),
    {
        self.garbage_contexts.push(ctx);
    }

    /// Invalidate one firmware context: send `DestroyContext` built
    /// from the context's fields, ring device-control, and once the
    /// firmware acknowledged (which implies a cache flush), collect the
    /// garbage that had accumulated in the affected allocators.
    pub fn invalidate_context(&mut self, ctx: GpuContextData, fw_ack: bool) -> (r: Result<
        (),
        DriverError,
    >)
        requires
            old(self).inv(),
        ensures
            final(self).inv(),
            old(self).crashed ==> r == Err::<(), DriverError>(DriverError::NoDevice) && *final(self)
                == *old(self),
            !old(self).crashed ==> {
                &&& final(self).device_control.msgs@ == old(self).device_control.msgs@.push(
                    (DeviceControlMsg::DestroyContext {
                        ctx_0: ctx.ctx_0,
                        ctx_1: ctx.ctx_1,
                        ctx_4: ctx.ctx_4,
                        ctx_23: ctx.ctx_23,
                        gpu_context_ptr: ctx.gpu_pointer,
                    }),
                )
                &&& final(self).mailbox@ == old(self).mailbox@.push(
                    (MailboxMsg { ep: EP_DOORBELL, msg: (crate::channel::spec_ctrl_doorbell(DOORBELL_DEVCTRL) as u64) }),
                )
                &&& (r is Ok <==> fw_ack)
                &&& (fw_ack ==> final(self).kalloc.private.garbage@ == old(self).kalloc.private.garbage@.skip(old(self).kalloc.private.garbage.len() as int)
                    && final(self).kalloc.gpu_ro.garbage@ == old(self).kalloc.gpu_ro.garbage@.skip(
                    old(self).kalloc.gpu_ro.garbage.len() as int,
                ))
                &&& (!fw_ack ==> r == Err::<(), DriverError>(DriverError::TimedOut) && final(self).kalloc.private.garbage@ == old(self).kalloc.private.garbage@ && final(self).kalloc.gpu_ro.garbage@ == old(self).kalloc.gpu_ro.garbage@)
                // the allocators change in nothing but the collected
                // garbage, and the rest of the manager is untouched
                &&& final(self).kalloc.private == (crate::allocator::Allocator {
                    garbage: final(self).kalloc.private.garbage,
                    ..old(self).kalloc.private
                })
                &&& final(self).kalloc.gpu_ro == (crate::allocator::Allocator {
                    garbage: final(self).kalloc.gpu_ro.garbage,
                    ..old(self).kalloc.gpu_ro
                })
                &&& final(self).kalloc.shared == old(self).kalloc.shared
                &&& final(self).kalloc.shared_ro == old(self).kalloc.shared_ro
                &&& final(self).kalloc.gpu == old(self).kalloc.gpu
                &&& *final(self) == (GpuManager {
                    device_control: final(self).device_control,
                    mailbox: final(self).mailbox,
                    kalloc: final(self).kalloc,
                    ..*old(self)
                })
            },
    {
        if self.crashed {
            return Err(DriverError::NoDevice);
        }
        let (garbage_count, _) = self.kalloc.private.garbage();
        let (garbage_count_gpuro, _) = self.kalloc.gpu_ro.garbage();
        let _token = self.device_control.send(
            DeviceControlMsg::DestroyContext {
                ctx_0: ctx.ctx_0,
                ctx_1: ctx.ctx_1,
                ctx_4: ctx.ctx_4,
                ctx_23: ctx.ctx_23,
                gpu_context_ptr: ctx.gpu_pointer,
            },
        );
        self.mailbox.push(MailboxMsg { ep: EP_DOORBELL, msg: ctrl_doorbell(DOORBELL_DEVCTRL) });
        if !fw_ack {
            return Err(DriverError::TimedOut);
        }
        // The invalidation flushed the firmware cache, so collecting is
        // safe now.
        self.kalloc.private.collect_garbage(garbage_count);
        self.kalloc.gpu_ro.collect_garbage(garbage_count_gpuro);
        Ok(())
    }

    /// Invalidate the oldest parked context, if any; returns whether
    /// one was processed. The `DestroyContext` built from the parked
    /// context's fields goes out on device-control with its doorbell,
    /// and only once the firmware acknowledged it — which implies a
    /// cache flush — is the context unparked and the accumulated
    /// allocator garbage collected, so no memory is reused before the
    /// firmware forgot it.
    pub fn invalidate_next_context(&mut self, fw_ack: bool) -> (r: Result<bool, DriverError>)
        requires
            old(self).inv(),
        ensures
            final(self).inv(),
            old(self).garbage_contexts.len() == 0 ==> r == Ok::<bool, DriverError>(false) && *final(self) == *old(self),
            old(self).garbage_contexts.len() > 0 && old(self).crashed ==> r == Err::<
                bool,
                DriverError,
            >(DriverError::NoDevice) && *final(self) == *old(self),
            old(self).garbage_contexts.len() > 0 && !old(self).crashed ==> ({
                let head = old(self).garbage_contexts@[0];
                &&& final(self).device_control.msgs@ == old(self).device_control.msgs@.push(
                    (DeviceControlMsg::DestroyContext {
                        ctx_0: head.ctx_0,
                        ctx_1: head.ctx_1,
                        ctx_4: head.ctx_4,
                        ctx_23: head.ctx_23,
                        gpu_context_ptr: head.gpu_pointer,
                    }),
                )
                &&& final(self).mailbox@ == old(self).mailbox@.push(
                    (MailboxMsg { ep: EP_DOORBELL, msg: (crate::channel::spec_ctrl_doorbell(DOORBELL_DEVCTRL) as u64) }),
                )
                &&& (r == Ok::<bool, DriverError>(true) <==> fw_ack)
                &&& (fw_ack ==> final(self).garbage_contexts@ == old(self).garbage_contexts@.skip(1)
                    && final(self).kalloc.private.garbage.len() == 0
                    && final(self).kalloc.gpu_ro.garbage.len() == 0)
                &&& (!fw_ack ==> r == Err::<bool, DriverError>(DriverError::TimedOut)
                    && final(self).garbage_contexts@ == old(self).garbage_contexts@
                    && final(self).kalloc.private.garbage@ == old(self).kalloc.private.garbage@
                    && final(self).kalloc.gpu_ro.garbage@ == old(self).kalloc.gpu_ro.garbage@)
                &&& final(self).kalloc.private == (crate::allocator::Allocator {
                    garbage: final(self).kalloc.private.garbage,
                    ..old(self).kalloc.private
                })
                &&& final(self).kalloc.gpu_ro == (crate::allocator::Allocator {
                    garbage: final(self).kalloc.gpu_ro.garbage,
                    ..old(self).kalloc.gpu_ro
                })
                &&& final(self).kalloc.shared == old(self).kalloc.shared
                &&& final(self).kalloc.shared_ro == old(self).kalloc.shared_ro
                &&& final(self).kalloc.gpu == old(self).kalloc.gpu
                &&& *final(self) == (GpuManager {
                    device_control: final(self).device_control,
                    mailbox: final(self).mailbox,
                    kalloc: final(self).kalloc,
                    garbage_contexts: final(self).garbage_contexts,
                    ..*old(self)
                })
            }),
    {
        if self.garbage_contexts.len() == 0 {
            return Ok(false);
        }
        let ctx = self.garbage_contexts[0];
        match self.invalidate_context(ctx, fw_ack) {
            Ok(()) => {
                let mut tail = self.garbage_contexts.split_off(1);
                core::mem::swap(&mut self.garbage_contexts, &mut tail);
                Ok(true)
            },
            Err(e) => Err(e),
        }
    }

    /// The garbage-threshold sweep performed on every allocation: when
    /// either tracked allocator is over the object or byte threshold,
    /// flush the firmware cache and collect.
    pub fn alloc_gc(&mut self, fw_ack: bool)
        requires
            old(self).inv(),
        ensures
            final(self).inv(),
            ({
                let (c1, b1) = (
                    old(self).kalloc.private.garbage.len(),
                    crate::allocator::sum_bytes(old(self).kalloc.private.garbage@),
                );
                let (c2, b2) = (
                    old(self).kalloc.gpu_ro.garbage.len(),
                    crate::allocator::sum_bytes(old(self).kalloc.gpu_ro.garbage@),
                );
                let over = b1 > MAX_FW_ALLOC_GARBAGE_BYTES || b2 > MAX_FW_ALLOC_GARBAGE_BYTES || c1
                    > MAX_FW_ALLOC_GARBAGE_OBJECTS || c2 > MAX_FW_ALLOC_GARBAGE_OBJECTS;
                &&& (!over || old(self).crashed ==> *final(self) == *old(self))
                &&& (over && !old(self).crashed ==> {
                    // the sweep issues the sentinel full-cache-flush
                    // DestroyContext and rings device-control
                    &&& final(self).device_control.msgs@ == old(self).device_control.msgs@.push(
                        (DeviceControlMsg::DestroyContext {
                            ctx_0: 0xff,
                            ctx_1: 0xff,
                            ctx_4: 0,
                            ctx_23: 0,
                            gpu_context_ptr: 0,
                        }),
                    )
                    &&& final(self).mailbox@ == old(self).mailbox@.push(
                        (MailboxMsg { ep: EP_DOORBELL, msg: (crate::channel::spec_ctrl_doorbell(DOORBELL_DEVCTRL) as u64) }),
                    )
                    // collection happens exactly on the acknowledged
                    // flush, and only the garbage lists change
                    &&& (fw_ack ==> final(self).kalloc.private.garbage.len() == 0
                        && final(self).kalloc.gpu_ro.garbage.len() == 0)
                    &&& (!fw_ack ==> final(self).kalloc.private.garbage@
                        == old(self).kalloc.private.garbage@
                        && final(self).kalloc.gpu_ro.garbage@ == old(self).kalloc.gpu_ro.garbage@)
                    &&& final(self).kalloc.private == (crate::allocator::Allocator {
                        garbage: final(self).kalloc.private.garbage,
                        ..old(self).kalloc.private
                    })
                    &&& final(self).kalloc.gpu_ro == (crate::allocator::Allocator {
                        garbage: final(self).kalloc.gpu_ro.garbage,
                        ..old(self).kalloc.gpu_ro
                    })
                    &&& final(self).kalloc.shared == old(self).kalloc.shared
                    &&& final(self).kalloc.shared_ro == old(self).kalloc.shared_ro
                    &&& final(self).kalloc.gpu == old(self).kalloc.gpu
                    &&& *final(self) == (GpuManager {
                        device_control: final(self).device_control,
                        mailbox: final(self).mailbox,
                        kalloc: final(self).kalloc,
                        ..*old(self)
                    })
                })
            }),
    {
        let (garbage_count, garbage_bytes) = self.kalloc.private.garbage();
        let (ro_garbage_count, ro_garbage_bytes) = self.kalloc.gpu_ro.garbage();

        if garbage_bytes > MAX_FW_ALLOC_GARBAGE_BYTES || ro_garbage_bytes
            > MAX_FW_ALLOC_GARBAGE_BYTES || garbage_count > MAX_FW_ALLOC_GARBAGE_OBJECTS
            || ro_garbage_count > MAX_FW_ALLOC_GARBAGE_OBJECTS {
            if self.crashed {
                return ;
            }
            let flushed = self.flush_fw_cache(fw_ack);
            if flushed.is_ok() {
                self.kalloc.private.collect_garbage(garbage_count);
                self.kalloc.gpu_ro.collect_garbage(ro_garbage_count);
                proof {
                    assert(final(self).kalloc.private.garbage@ =~= Seq::<usize>::empty());
                    assert(final(self).kalloc.gpu_ro.garbage@ =~= Seq::<usize>::empty());
                }
            }
        }
    }

    /// Walk the pending-stamps table and compute the error mark for
    /// every waiting entry: the culprit slot (when known) sees the real
    /// error, every other slot sees `Killed`. Waiting entries are
    /// cleared. The caller delivers each mark to the owning queue.
    pub fn mark_pending_events(&mut self, culprit_slot: Option<u32>, error: WorkError) -> (marks:
        Vec<EventMark>)
        requires
            old(self).inv(),
        ensures
            final(self).inv(),
            marks@ == spec_marks(old(self).globals.pending_stamps@, culprit_slot, error),
            final(self).globals.pending_stamps.len() == old(self).globals.pending_stamps.len(),
            forall|i: int|
                0 <= i < old(self).globals.pending_stamps.len() ==> final(self).globals.pending_stamps@[i] == (if old(self).globals.pending_stamps@[i].info % 2
                    == 1 {
                    PendingStamp { info: 0, wait_value: 0 }
                } else {
                    old(self).globals.pending_stamps@[i]
                }),
            *final(self) == (GpuManager {
                globals: (GpuGlobals {
                    pending_stamps: final(self).globals.pending_stamps,
                    ..old(self).globals
                }),
                ..*old(self)
            }),
    {
        let ghost pre = *self;
        let mut marks: Vec<EventMark> = Vec::new();
        let mut i: usize = 0;
        proof {
            assert(pre.globals.pending_stamps@.take(0) =~= Seq::<PendingStamp>::empty());
        }
        while i < self.globals.pending_stamps.len()
            invariant
                i <= self.globals.pending_stamps.len(),
                self.globals.pending_stamps.len() == pre.globals.pending_stamps.len(),
                marks@ == spec_marks(
                    pre.globals.pending_stamps@.take(i as int),
                    culprit_slot,
                    error,
                ),
                forall|j: int|
                    0 <= j < i ==> #[trigger] self.globals.pending_stamps@[j] == (if pre.globals.pending_stamps@[j].info
                        % 2 == 1 {
                        PendingStamp { info: 0, wait_value: 0 }
                    } else {
                        pre.globals.pending_stamps@[j]
                    }),
                forall|j: int|
                    i <= j < self.globals.pending_stamps.len()
                        ==> #[trigger] self.globals.pending_stamps@[j]
                        == pre.globals.pending_stamps@[j],
                *self == (GpuManager {
                    globals: (GpuGlobals {
                        pending_stamps: self.globals.pending_stamps,
                        ..pre.globals
                    }),
                    ..pre
                }),
            decreases self.globals.pending_stamps.len() - i,
        {
            let entry = self.globals.pending_stamps[i];
            proof {
                lemma_marks_take_succ(pre.globals.pending_stamps@, culprit_slot, error, i as int);
            }
            if entry.info % 2 == 1 {
                let slot = (entry.info / 16) % 128;
                let err = match culprit_slot {
                    Some(c) => if c != slot {
                        WorkError::Killed
                    } else {
                        error
                    },
                    None => error,
                };
                marks.push(
                    EventMark { slot, threshold: EventValue { raw: entry.wait_value }, error: err },
                );
                self.globals.pending_stamps.set(i, PendingStamp { info: 0, wait_value: 0 });
            }
            i = i + 1;
        }
        proof {
            assert(pre.globals.pending_stamps@.take(pre.globals.pending_stamps.len() as int)
                =~= pre.globals.pending_stamps@);
        }
        marks
    }

    /// Resume the firmware after it halts: once the halted flag is
    /// observed set, clear it and set the resume flag. With recovery
    /// disabled by a debug flag, or with the firmware never halting
    /// within the bounded wait, nothing is written.
    pub fn recover(&mut self, debug: &DebugState)
        ensures
            ({
                let no_recovery = debug.flags & (1u64 << DebugFlags::NoGpuRecovery.spec_bit()) != 0;
                &&& (no_recovery || old(self).fw_status.halted == 0 ==> *final(self) == *old(self))
                &&& (!no_recovery && old(self).fw_status.halted != 0 ==> *final(self) == (GpuManager {
                    fw_status: (FwStatusFlags { halted: 0, resume: 1, ..old(self).fw_status }),
                    ..*old(self)
                }))
            }),
    {
        let halted = self.fw_status.halted;
        if debug.debug_enabled(DebugFlags::NoGpuRecovery) {
            return ;
        }
        if halted != 0 {
            self.fw_status.halted = 0;
            self.fw_status.resume = 1;
        }
    }

    /// Handle a GPU work timeout: with fault data present the error is
    /// a fault, otherwise a timeout; a non-negative culprit slot pins
    /// the blame. Marks are computed, the stamps cleared, and the
    /// firmware resumed.
    pub fn handle_timeout(
        &mut self,
        counter: u32,
        event_slot: i64,
        fault_info: Option<FaultInfo>,
        debug: &DebugState,
    ) -> (marks: Vec<EventMark>)
        requires
            old(self).inv(),
        ensures
            final(self).inv(),
            ({
                let error = match fault_info {
                    Some(info) => WorkError::Fault(info),
                    None => WorkError::Timeout,
                };
                let culprit = if 0 <= event_slot <= u32::MAX {
                    Some(event_slot as u32)
                } else {
                    None
                };
                marks@ == spec_marks(old(self).globals.pending_stamps@, culprit, error)
            }),
            // waiting stamp entries were cleared
            final(self).globals.pending_stamps.len() == old(self).globals.pending_stamps.len(),
            forall|i: int|
                0 <= i < old(self).globals.pending_stamps.len()
                    ==> final(self).globals.pending_stamps@[i] == (if old(
                    self,
                ).globals.pending_stamps@[i].info % 2 == 1 {
                    PendingStamp { info: 0, wait_value: 0 }
                } else {
                    old(self).globals.pending_stamps@[i]
                }),
            // the firmware was resumed if it had halted and recovery is
            // not disabled
            ({
                let no_recovery = debug.flags & (1u64 << DebugFlags::NoGpuRecovery.spec_bit())
                    != 0;
                &&& (no_recovery || old(self).fw_status.halted == 0 ==> final(self).fw_status
                    == old(self).fw_status)
                &&& (!no_recovery && old(self).fw_status.halted != 0 ==> final(self).fw_status == (
                FwStatusFlags { halted: 0, resume: 1, ..old(self).fw_status }))
            }),
            *final(self) == (GpuManager {
                globals: (GpuGlobals {
                    pending_stamps: final(self).globals.pending_stamps,
                    ..old(self).globals
                }),
                fw_status: final(self).fw_status,
                ..*old(self)
            }),
    {
        let _ = counter;
        let error = match fault_info {
            Some(info) => WorkError::Fault(info),
            None => WorkError::Timeout,
        };
        let culprit = if event_slot >= 0 && event_slot <= u32::MAX as i64 {
            Some(event_slot as u32)
        } else {
            None
        };
        let marks = self.mark_pending_events(culprit, error);
        self.recover(debug);
        marks
    }

    /// Handle a GPU MMU fault: the fault registers name the culprit
    /// binding, but no slot, so every waiting slot sees the error (or
    /// `Unknown` with empty registers). Firmware is then resumed.
    pub fn handle_fault(&mut self, fault_info: Option<FaultInfo>, debug: &DebugState) -> (marks:
        Vec<EventMark>)
        requires
            old(self).inv(),
        ensures
            final(self).inv(),
            ({
                let error = match fault_info {
                    Some(info) => WorkError::Fault(info),
                    None => WorkError::Unknown,
                };
                marks@ == spec_marks(old(self).globals.pending_stamps@, None, error)
            }),
            // waiting stamp entries were cleared
            final(self).globals.pending_stamps.len() == old(self).globals.pending_stamps.len(),
            forall|i: int|
                0 <= i < old(self).globals.pending_stamps.len()
                    ==> final(self).globals.pending_stamps@[i] == (if old(
                    self,
                ).globals.pending_stamps@[i].info % 2 == 1 {
                    PendingStamp { info: 0, wait_value: 0 }
                } else {
                    old(self).globals.pending_stamps@[i]
                }),
            // the firmware was resumed if it had halted and recovery is
            // not disabled
            ({
                let no_recovery = debug.flags & (1u64 << DebugFlags::NoGpuRecovery.spec_bit())
                    != 0;
                &&& (no_recovery || old(self).fw_status.halted == 0 ==> final(self).fw_status
                    == old(self).fw_status)
                &&& (!no_recovery && old(self).fw_status.halted != 0 ==> final(self).fw_status == (
                FwStatusFlags { halted: 0, resume: 1, ..old(self).fw_status }))
            }),
            *final(self) == (GpuManager {
                globals: (GpuGlobals {
                    pending_stamps: final(self).globals.pending_stamps,
                    ..old(self).globals
                }),
                fw_status: final(self).fw_status,
                ..*old(self)
            }),
    {
        let error = match fault_info {
            Some(info) => WorkError::Fault(info),
            None => WorkError::Unknown,
        };
        let marks = self.mark_pending_events(None, error);
        self.recover(debug);
        marks
    }

    /// Handle a channel error the firmware reported for one queue:
    /// retire what its slot's published stamp already covers with its
    /// recorded outcome, tag the threshold-covered remainder with the
    /// channel error, then ask the firmware to recover the channel and
    /// wait for the acknowledgement. Retirement of the tagged commands
    /// still happens through the normal completion path.
    pub fn handle_channel_error(
        &mut self,
        wq: &mut WorkQueue,
        error_type: ChannelErrorType,
        pipe_type: u32,
        event_value: EventValue,
        fw_ack: bool,
    ) -> (r: (Vec<SubmittedWork>, usize, bool))
        requires
            old(self).inv(),
            old(wq).inv(),
            old(wq).owns(old(self).event_manager),
            old(wq).stamp_in_window(old(self).event_manager),
        ensures
            final(self).inv(),
            final(wq).inv(),
            final(wq).owns(final(self).event_manager),
            final(self).device_control.msgs@ == old(self).device_control.msgs@.push(
                (DeviceControlMsg::RecoverChannel {
                    pipe_type,
                    work_queue_ptr: old(wq).info_pointer,
                    event_value: event_value.raw,
                }),
            ),
            final(self).mailbox@ == old(self).mailbox@.push(
                (MailboxMsg { ep: EP_DOORBELL, msg: (crate::channel::spec_ctrl_doorbell(DOORBELL_DEVCTRL) as u64) }),
            ),
            r.2 == fw_ack,
            // r.0 is exactly the stamp-covered prefix of the pending
            // list, each record completed with its recorded outcome
            old(wq).event is None ==> r.0.len() == 0 && final(wq).pending@ == old(wq).pending@,
            old(wq).event is Some ==> ({
                let stamp = old(wq).observed(old(self).event_manager);
                let d = crate::event::circ_diff(stamp.raw, old(wq).lc_val().raw);
                &&& r.0.len() <= old(wq).pending.len()
                &&& (forall|i: int| 0 <= i < r.0.len() ==> #[trigger] old(wq).pdiff(i) <= d)
                &&& (r.0.len() < old(wq).pending.len() ==> old(wq).pdiff(r.0.len() as int) > d)
                &&& (forall|i: int|
                    0 <= i < r.0.len() ==> r.0@[i] == (SubmittedWork {
                        completed: true,
                        ..old(wq).pending@[i]
                    }))
                // what stays pending is the untouched suffix, with the
                // leading threshold-covered run tagged with the error
                &&& final(wq).pending.len() == old(wq).pending.len() - r.0.len()
                &&& (forall|i: int|
                    0 <= i < r.1 ==> #[trigger] final(wq).pending@[i] == (SubmittedWork {
                        error: Some(
                            crate::workqueue::spec_mark(
                                old(wq).pending@[r.0.len() + i].vm_slot,
                                WorkError::ChannelError(error_type),
                            ),
                        ),
                        ..old(wq).pending@[r.0.len() + i]
                    }))
                &&& (forall|i: int|
                    r.1 <= i < final(wq).pending.len() ==> #[trigger] final(wq).pending@[i] == old(
                        wq,
                    ).pending@[r.0.len() + i])
                &&& final(wq).completed_seq == old(wq).completed_seq + r.0.len()
            }),
            final(wq).commit_seq == old(wq).commit_seq,
            final(wq).submit_seq == old(wq).submit_seq,
            final(wq).pending_jobs == old(wq).pending_jobs,
            // the leading run of still-pending commands the threshold
            // covers now carries the channel error
            r.1 <= final(wq).pending.len(),
            forall|i: int|
                0 <= i < r.1 ==> crate::event::value_le(
                    (#[trigger] final(wq).pending@[i]).value,
                    event_value,
                ),
            r.1 < final(wq).pending.len() ==> !crate::event::value_le(
                final(wq).pending@[r.1 as int].value,
                event_value,
            ),
    {
        let ghost pre = *wq;
        let (retired, _empty) = wq.signal(&mut self.event_manager);
        let ghost mid = *wq;
        let n = wq.mark_error(event_value, WorkError::ChannelError(error_type));
        proof {
            if pre.event is Some {
                let n0 = retired.len() as int;
                assert forall|i: int| 0 <= i < n implies #[trigger] wq.pending@[i] == (
                SubmittedWork {
                    error: Some(
                        crate::workqueue::spec_mark(
                            pre.pending@[n0 + i].vm_slot,
                            WorkError::ChannelError(error_type),
                        ),
                    ),
                    ..pre.pending@[n0 + i]
                }) by {
                    assert(mid.pending@[i] == pre.pending@[n0 + i]);
                }
                assert forall|i: int|
                    n <= i < wq.pending.len() implies #[trigger] wq.pending@[i] == pre.pending@[n0
                    + i] by {
                    assert(mid.pending@[i] == pre.pending@[n0 + i]);
                }
            }
        }
        let _token = self.device_control.send(
            DeviceControlMsg::RecoverChannel {
                pipe_type,
                work_queue_ptr: wq.info_pointer(),
                event_value: event_value.raw,
            },
        );
        self.mailbox.push(MailboxMsg { ep: EP_DOORBELL, msg: ctrl_doorbell(DOORBELL_DEVCTRL) });
        (retired, n, fw_ack)
    }

    /// Acknowledge a tile-vertex-buffer grow request, echoing the
    /// firmware's halt count.
    pub fn ack_grow(&mut self, buffer_slot: u32, vm_slot: u32, counter: u32)
        requires
            old(self).inv(),
        ensures
            final(self).inv(),
            final(self).device_control.msgs@ == old(self).device_control.msgs@.push(
                (DeviceControlMsg::GrowTVBAck {
                    buffer_slot,
                    vm_slot,
                    counter,
                    subpipe: 0,
                    halt_count: old(self).fw_status.halt_count,
                }),
            ),
            final(self).mailbox@ == old(self).mailbox@.push(
                (MailboxMsg { ep: EP_DOORBELL, msg: (crate::channel::spec_ctrl_doorbell(DOORBELL_DEVCTRL) as u64) }),
            ),
            *final(self) == (GpuManager {
                device_control: final(self).device_control,
                mailbox: final(self).mailbox,
                ..*old(self)
            }),
    {
        let halt_count = self.fw_status.halt_count;
        let _token = self.device_control.send(
            DeviceControlMsg::GrowTVBAck {
                buffer_slot,
                vm_slot,
                counter,
                subpipe: 0,
                halt_count,
            },
        );
        self.mailbox.push(MailboxMsg { ep: EP_DOORBELL, msg: ctrl_doorbell(DOORBELL_DEVCTRL) });
    }

    /// Publish a staged submission to the firmware: run it on the pipe
    /// matching the queue's type and priority, then ring the pipe's
    /// doorbell (bits 0..1 the pipe, bits 2..3 the priority).
    pub fn run_job(&mut self, wq: &mut WorkQueue, sub: JobSubmission) -> (r: Result<
        (),
        DriverError,
    >)
        requires
            old(self).inv(),
            old(wq).inv_staged(sub.command_count as int),
            old(wq).event is Some,
            sub.wptr < old(wq).size,
            old(wq).submit_seq + sub.command_count <= u64::MAX,
        ensures
            final(self).inv(),
            old(wq).priority >= 4 ==> r == Err::<(), DriverError>(DriverError::Io) && *final(wq)
                == *old(wq) && *final(self) == *old(self),
            old(wq).priority < 4 ==> {
                &&& r is Ok
                &&& final(wq).inv()
                &&& final(wq).submit_seq == old(wq).submit_seq + sub.command_count
                &&& final(wq).wptr == sub.wptr
                &&& !final(wq).new
                &&& final(self).mailbox@ == old(self).mailbox@.push(
                    (MailboxMsg {
                        ep: EP_DOORBELL,
                        msg: (crate::channel::spec_tx_doorbell(
                            old(wq).pipe_type,
                            old(wq).priority as u64,
                        ) as u64),
                    }),
                )
                // the run message landed on the one pipe matching the
                // queue's engine type and priority; every other pipe is
                // untouched
                &&& (forall|t: PipeType, j: int|
                    0 <= j < NUM_PIPES ==> #[trigger] spec_pipe_msgs(final(self).pipes, t, j) == (
                    if t == old(wq).pipe_type && j == old(wq).priority {
                        spec_pipe_msgs(old(self).pipes, t, j).push(
                            (crate::channel::RunWorkQueueMsg {
                                pipe_type: old(wq).pipe_type,
                                work_queue_ptr: old(wq).info_pointer,
                                wptr: sub.wptr,
                                event_slot: old(wq).ev_slot(),
                                is_new: old(wq).new,
                            }),
                        )
                    } else {
                        spec_pipe_msgs(old(self).pipes, t, j)
                    }))
                &&& *final(self) == (GpuManager {
                    pipes: final(self).pipes,
                    mailbox: final(self).mailbox,
                    ..*old(self)
                })
            },
    {
        if wq.priority() >= 4 {
            return Err(DriverError::Io);
        }
        let ghost pre = *self;
        let pipe_type = wq.pipe_type();
        let priority = wq.priority() as usize;
        let mut pipe: PipeChannel = match pipe_type {
            PipeType::Vertex => self.pipes.vtx.remove(priority),
            PipeType::Fragment => self.pipes.frag.remove(priority),
            PipeType::Compute => self.pipes.comp.remove(priority),
        };
        sub.run(wq, &mut pipe);
        match pipe_type {
            PipeType::Vertex => self.pipes.vtx.insert(priority, pipe),
            PipeType::Fragment => self.pipes.frag.insert(priority, pipe),
            PipeType::Compute => self.pipes.comp.insert(priority, pipe),
        };
        proof {
            let p = priority as int;
            match pipe_type {
                PipeType::Vertex => {
                    assert(self.pipes.vtx@ =~= pre.pipes.vtx@.update(
                        p,
                        self.pipes.vtx@[p],
                    ));
                },
                PipeType::Fragment => {
                    assert(self.pipes.frag@ =~= pre.pipes.frag@.update(
                        p,
                        self.pipes.frag@[p],
                    ));
                },
                PipeType::Compute => {
                    assert(self.pipes.comp@ =~= pre.pipes.comp@.update(
                        p,
                        self.pipes.comp@[p],
                    ));
                },
            }
        }
        let db = tx_doorbell(pipe_type, priority as u64);
        self.mailbox.push(MailboxMsg { ep: EP_DOORBELL, msg: db });
        Ok(())
    }

    /// The static per-SoC configuration.
    pub fn get_cfg(&self) -> (r: &HwConfig)
        ensures
            r == self.cfg,
    {
        &self.cfg
    }

    /// The dynamic configuration assembled at probe time.
    pub fn get_dyncfg(&self) -> (r: &DynConfig)
        ensures
            r == self.dyncfg,
    {
        &self.dyncfg
    }

    /// The global id counters.
    pub fn ids(&mut self) -> (r: &mut SequenceIDs)
        ensures
            *r == old(self).ids,
            *final(self) == (GpuManager { ids: *final(r), ..*old(self) }),
    {
        &mut self.ids
    }

    /// Map one hardware MMIO region into the firmware's address space:
    /// page-align the region, allocate firmware addresses for every
    /// element on every die, record the kernel mappings, and return the
    /// entry for the firmware's io-mappings table. The firmware sees
    /// the region at the allocated address plus the in-page offset.
    ///
    /// Unaligned array mappings are rejected, as is a region set that
    /// no longer fits the firmware MMIO address range.
    pub fn iomap(&mut self, map: IoMappingDesc) -> (r: Result<RawIoMapping, DriverError>)
        requires
            old(self).inv(),
            old(self).cfg.num_dies >= 1,
            map.base + map.size + 2 * UAT_PGSZ <= u64::MAX,
            map.size * map.count * old(self).cfg.num_dies <= u64::MAX,
            map.base + old(self).cfg.num_dies * 0x20_0000_0000 + map.count * map.stride
                <= u64::MAX,
        ensures
            final(self).inv(),
            ({
                let dies = if map.per_die {
                    old(self).cfg.num_dies as int
                } else {
                    1int
                };
                let off = (map.base as int) % (UAT_PGSZ as int);
                let base = map.base - off;
                let end = (((map.base + map.size + UAT_PGSZ - 1) as int) / (UAT_PGSZ as int)) * (
                UAT_PGSZ as int);
                let map_size = end - base;
                let aligned_ok = (off == 0 && map_size == map.size) || (map.count == 1
                    && !map.per_die);
                let total = map_size * map.count * dies;
                &&& (r is Err ==> *final(self) == *old(self))
                &&& (map.count == 0 || !aligned_ok ==> r == Err::<RawIoMapping, DriverError>(
                    DriverError::Invalid,
                ))
                &&& (map.count > 0 && aligned_ok && old(self).next_mmio_iova + total + UAT_PGSZ
                    > IOVA_KERN_MMIO_TOP ==> r == Err::<RawIoMapping, DriverError>(DriverError::Io))
                &&& (map.count > 0 && aligned_ok && old(self).next_mmio_iova + total + UAT_PGSZ
                    <= IOVA_KERN_MMIO_TOP ==> ({
                    let iova = old(self).next_mmio_iova;
                    &&& r == Ok::<RawIoMapping, DriverError>(
                        (RawIoMapping {
                            phys_addr: map.base,
                            virt_addr: (iova + off) as u64,
                            total_size: (map.size * map.count * dies) as u64,
                            element_size: map.size,
                            readwrite: map.writable,
                        }),
                    )
                    &&& final(self).next_mmio_iova == iova + total + UAT_PGSZ
                    &&& final(self).io_mappings@.len() == old(self).io_mappings@.len() + map.count
                        * dies
                    &&& (forall|d: int, i: int|
                        0 <= d < dies && 0 <= i < map.count
                            ==> #[trigger] final(self).io_mappings@[old(self).io_mappings@.len() + d
                            * map.count + i] == (KernelMapping {
                            iova: (iova + (d * map.count + i) * map_size) as u64,
                            phys: (base + d * 0x20_0000_0000 + i * map.stride) as u64,
                            size: map_size as u64,
                            writable: map.writable,
                        }))
                    &&& (forall|j: int|
                        0 <= j < old(self).io_mappings@.len() ==> final(self).io_mappings@[j]
                            == old(self).io_mappings@[j])
                    &&& *final(self) == (GpuManager {
                        io_mappings: final(self).io_mappings,
                        next_mmio_iova: final(self).next_mmio_iova,
                        ..*old(self)
                    })
                }))
            }),
    {
        let dies: u64 = if map.per_die {
            self.cfg.num_dies as u64
        } else {
            1
        };
        let off = map.base % UAT_PGSZ;
        let base = map.base - off;
        let end = ((map.base + map.size + UAT_PGSZ - 1) / UAT_PGSZ) * UAT_PGSZ;
        proof {
            vstd::arithmetic::div_mod::lemma_fundamental_div_mod(
                (map.base + map.size + UAT_PGSZ - 1) as int,
                UAT_PGSZ as int,
            );
            vstd::arithmetic::div_mod::lemma_mod_division_less_than_divisor(
                (map.base + map.size + UAT_PGSZ - 1) as int,
                UAT_PGSZ as int,
            );
            let q = ((map.base + map.size + UAT_PGSZ - 1) as int) / (UAT_PGSZ as int);
            let x = (map.base + map.size + UAT_PGSZ - 1) as int;
            assert(q * (UAT_PGSZ as int) == x - x % (UAT_PGSZ as int)) by (nonlinear_arith)
                requires
                    x == (UAT_PGSZ as int) * q + x % (UAT_PGSZ as int),
            ;
            vstd::arithmetic::div_mod::lemma_mod_division_less_than_divisor(
                map.base as int,
                UAT_PGSZ as int,
            );
            // The aligned region covers the raw one and adds less than
            // one page at each end.
            assert(end >= map.base + map.size && end - base <= map.size + 2 * UAT_PGSZ);
        }
        let map_size = end - base;

        // Array mappings must be aligned.
        if map.count == 0 {
            return Err(DriverError::Invalid);
        }
        if !((off == 0 && map_size == map.size) || (map.count == 1 && !map.per_die)) {
            return Err(DriverError::Invalid);
        }

        proof {
            let nd = old(self).cfg.num_dies as int;
            if off == 0 && map_size == map.size {
                assert(map_size * map.count * dies <= map.size * map.count * nd && map_size
                    * map.count <= map.size * map.count * nd) by (nonlinear_arith)
                    requires
                        map_size == map.size,
                        1 <= dies <= nd,
                        map.count >= 1,
                        0 <= map.size,
                ;
            } else {
                assert(map_size * map.count * dies == map_size && map_size * map.count == map_size)
                    by (nonlinear_arith)
                    requires
                        map.count == 1,
                        dies == 1,
                ;
            }
        }
        let total = map_size * (map.count as u64) * dies;
        if self.next_mmio_iova > IOVA_KERN_MMIO_TOP - UAT_PGSZ
            || total > IOVA_KERN_MMIO_TOP - UAT_PGSZ - self.next_mmio_iova {
            return Err(DriverError::Io);
        }
        let iova = self.alloc_mmio_iova(total);
        let ghost pre = *old(self);
        let ghost pre_len = self.io_mappings@.len() as int;
        proof {
            assert(total == (dies * map.count) * map_size) by (nonlinear_arith)
                requires
                    total == map_size * map.count * dies,
            ;
            assert((0int * (map.count as int)) * (map_size as int) == 0 && 0int * (
            map.count as int) == 0) by (nonlinear_arith);
        }

        let mut die: u64 = 0;
        let mut die_base: u64 = base;
        let mut cur_iova: u64 = iova;
        while die < dies
            invariant
                die <= dies,
                dies <= self.cfg.num_dies,
                map.count >= 1,
                0 <= map_size,
                die_base == base + die * 0x20_0000_0000,
                cur_iova == iova + (die * map.count) * map_size,
                iova + (dies * map.count) * map_size <= u64::MAX,
                total == (dies * map.count) * map_size,
                base + dies * 0x20_0000_0000 + map.count * map.stride <= u64::MAX,
                0 <= pre_len,
                self.io_mappings@.len() == pre_len + die * map.count,
                forall|j: int| 0 <= j < pre_len ==> self.io_mappings@[j] == pre.io_mappings@[j],
                forall|d: int, i: int|
                    0 <= d < die && 0 <= i < map.count ==> #[trigger] self.io_mappings@[pre_len + d
                        * map.count + i] == (KernelMapping {
                        iova: (iova + (d * map.count + i) * map_size) as u64,
                        phys: (base + d * 0x20_0000_0000 + i * map.stride) as u64,
                        size: map_size as u64,
                        writable: map.writable,
                    }),
                *self == (GpuManager {
                    io_mappings: self.io_mappings,
                    next_mmio_iova: self.next_mmio_iova,
                    ..pre
                }),
                self.next_mmio_iova == iova + total + UAT_PGSZ,
            decreases dies - die,
        {
            proof {
                assert((die * map.count) * map_size + map.count * map_size <= (dies * map.count)
                    * map_size && (die + 1) * map.count == die * map.count + map.count && die
                    * 0x20_0000_0000 + 0x20_0000_0000 <= dies * 0x20_0000_0000 && (die + 1)
                    * 0x20_0000_0000 == die * 0x20_0000_0000 + 0x20_0000_0000)
                    by (nonlinear_arith)
                    requires
                        0 <= die < dies,
                        map.count >= 1,
                        0 <= map_size,
                ;
            }
            proof {
                assert(((die as int) * (map.count as int) + 0) * (map_size as int) == ((
                die as int) * (map.count as int)) * (map_size as int) && 0int * (
                map.stride as int) == 0) by (nonlinear_arith);
            }
            let mut i: u64 = 0;
            let mut phys = die_base;
            while i < map.count as u64
                invariant
                    i <= map.count,
                    die < dies,
                    map.count >= 1,
                    0 <= map_size,
                    phys == base + die * 0x20_0000_0000 + i * map.stride,
                    base + dies * 0x20_0000_0000 + map.count * map.stride <= u64::MAX,
                    die * 0x20_0000_0000 + 0x20_0000_0000 <= dies * 0x20_0000_0000,
                    dies <= pre.cfg.num_dies,
                    cur_iova == iova + (die * map.count + i) * map_size,
                    (die * map.count) * map_size + map.count * map_size <= (dies * map.count)
                        * map_size,
                    iova + (dies * map.count) * map_size <= u64::MAX,
                    0 <= pre_len,
                    self.io_mappings@.len() == pre_len + die * map.count + i,
                    forall|j: int| 0 <= j < pre_len ==> self.io_mappings@[j] == pre.io_mappings@[j],
                    forall|d: int, k: int|
                        0 <= d < die && 0 <= k < map.count ==> #[trigger] self.io_mappings@[pre_len
                            + d * map.count + k] == (KernelMapping {
                            iova: (iova + (d * map.count + k) * map_size) as u64,
                            phys: (base + d * 0x20_0000_0000 + k * map.stride) as u64,
                            size: map_size as u64,
                            writable: map.writable,
                        }),
                    forall|k: int|
                        0 <= k < i ==> #[trigger] self.io_mappings@[pre_len + die * map.count + k]
                            == (KernelMapping {
                            iova: (iova + (die * map.count + k) * map_size) as u64,
                            phys: (base + die * 0x20_0000_0000 + k * map.stride) as u64,
                            size: map_size as u64,
                            writable: map.writable,
                        }),
                    *self == (GpuManager {
                        io_mappings: self.io_mappings,
                        next_mmio_iova: self.next_mmio_iova,
                        ..pre
                    }),
                    self.next_mmio_iova == iova + total + UAT_PGSZ,
                decreases map.count - i,
            {
                proof {
                    assert((die * map.count + i) * map_size + map_size == (die * map.count + i + 1)
                        * map_size && (die * map.count + i) * map_size + map_size <= (die
                        * map.count) * map_size + map.count * map_size && i * map.stride
                        + map.stride <= map.count * map.stride && (i + 1) * map.stride == i
                        * map.stride + map.stride) by (nonlinear_arith)
                        requires
                            0 <= i < map.count,
                            0 <= die,
                            0 <= map_size,
                            0 <= map.stride,
                    ;
                    assert(dies * 0x20_0000_0000 <= (pre.cfg.num_dies as int) * 0x20_0000_0000)
                        by (nonlinear_arith)
                        requires
                            dies <= pre.cfg.num_dies,
                    ;
                }
                let ghost prev = self.io_mappings@;
                let elem = KernelMapping { iova: cur_iova, phys, size: map_size, writable: map.writable };
                self.io_mappings.push(elem);
                proof {
                    assert(self.io_mappings@ == prev.push(elem));
                    assert(prev.len() == pre_len + die * map.count + i);
                    assert forall|d: int, k: int|
                        0 <= d < die && 0 <= k < map.count implies #[trigger] self.io_mappings@[
                        pre_len + d * map.count + k] == (KernelMapping {
                            iova: (iova + (d * map.count + k) * map_size) as u64,
                            phys: (base + d * 0x20_0000_0000 + k * map.stride) as u64,
                            size: map_size as u64,
                            writable: map.writable,
                        }) by {
                        assert(0 <= d * map.count + k && d * map.count + k < die * map.count)
                            by (nonlinear_arith)
                            requires
                                0 <= d < die,
                                0 <= k < map.count,
                        ;
                        let idx = pre_len + d * map.count + k;
                        assert(0 <= idx);
                        assert(idx < prev.len());
                        vstd::seq::lemma_seq_push_index_different_alt::<KernelMapping>(
                            prev,
                            elem,
                            idx,
                        );
                    }
                    assert forall|k: int|
                        0 <= k < i + 1 implies #[trigger] self.io_mappings@[pre_len + die
                            * map.count + k] == (KernelMapping {
                            iova: (iova + (die * map.count + k) * map_size) as u64,
                            phys: (base + die * 0x20_0000_0000 + k * map.stride) as u64,
                            size: map_size as u64,
                            writable: map.writable,
                        }) by {
                        assert(0 <= die * map.count) by (nonlinear_arith)
                            requires
                                0 <= die,
                                0 <= map.count,
                        ;
                        if k < i {
                            vstd::seq::lemma_seq_push_index_different_alt::<KernelMapping>(
                                prev,
                                elem,
                                pre_len + die * map.count + k,
                            );
                        } else {
                            assert(prev.push(elem)[prev.len() as int] == elem);
                        }
                    }
                }
                cur_iova = cur_iova + map_size;
                phys = phys + map.stride;
                i = i + 1;
            }
            die = die + 1;
            die_base = die_base + 0x20_0000_0000;
        }

        proof {
            assert(map.size * map.count * dies <= (map.size + UAT_PGSZ) * map.count * dies
                && dies * map.count == map.count * dies) by (nonlinear_arith)
                requires
                    map.count >= 1,
                    dies >= 1,
                    0 <= map.size,
                    0 < UAT_PGSZ,
            ;
        }
        Ok(RawIoMapping {
            phys_addr: map.base,
            virt_addr: iova + off,
            total_size: map.size * (map.count as u64) * dies,
            element_size: map.size,
            readwrite: map.writable,
        })
    }

    /// Allocate a firmware MMIO address range of `size` bytes plus one
    /// guard page; addresses never move once handed out.
    pub fn alloc_mmio_iova(&mut self, size: u64) -> (addr: u64)
        requires
            old(self).inv(),
            old(self).next_mmio_iova + size + UAT_PGSZ <= IOVA_KERN_MMIO_TOP,
        ensures
            final(self).inv(),
            addr == old(self).next_mmio_iova,
            final(self).next_mmio_iova == old(self).next_mmio_iova + size + UAT_PGSZ,
            *final(self) == (GpuManager { next_mmio_iova: final(self).next_mmio_iova, ..*old(self) }),
    {
        let addr = self.next_mmio_iova;
        self.next_mmio_iova = self.next_mmio_iova + size + UAT_PGSZ;
        addr
    }
}

} // verus!
