//! Manager-level operations: boot, doorbells, operation accounting,
//! garbage collection and context invalidation.

use asahi::channel::{ctrl_doorbell, init_msg, is_rx_doorbell, tx_doorbell, DeviceControlMsg,
    PipeType, EP_DOORBELL, EP_FIRMWARE, MSG_FWCTL, MSG_RX_DOORBELL};
use asahi::debug::{DebugFlags, DebugState, ModuleParameters};
use asahi::fence::Fence;
use asahi::gpu::{GpuContextData, GpuManager, MAX_FW_ALLOC_GARBAGE_OBJECTS};
use asahi::hw::{make_dyncfg, DynConfig, FwVersionClass, GpuGenClass, GpuIdInfo, HwConfig};
use asahi::workqueue::WorkQueue;
use asahi::DriverError;

fn test_config() -> (HwConfig, DynConfig) {
    let cfg = HwConfig {
        fw_version: FwVersionClass::V13_0B4Plus,
        gen_class: GpuGenClass::PreG14X,
        gpu_gen: 13,
        gpu_variant: 71,
        max_num_clusters: 8,
        max_num_cores: 8,
        max_num_frags: 8,
        max_num_gps: 4,
        num_dies: 1,
    };
    let id = GpuIdInfo {
        gpu_gen: 13,
        gpu_variant: 71,
        num_clusters: 1,
        num_cores: 8,
        num_frags: 8,
        num_gps: 4,
        total_active_cores: 8,
    };
    (cfg, DynConfig { id, uat_ttb_base: 0x8_0000 })
}

fn manager() -> GpuManager {
    let (cfg, dyncfg) = test_config();
    GpuManager::new(cfg, dyncfg, 0xf00d_0000, 64)
}

#[test]
fn mailbox_messages_are_bit_exact() {
    // Opcode in the top byte, payload below.
    assert_eq!(tx_doorbell(PipeType::Vertex, 0), 0x8300_0000_0000_0000);
    assert_eq!(tx_doorbell(PipeType::Fragment, 0), 0x8300_0000_0000_0001);
    assert_eq!(tx_doorbell(PipeType::Compute, 0), 0x8300_0000_0000_0002);
    assert_eq!(tx_doorbell(PipeType::Compute, 3), 0x8300_0000_0000_000e);
    assert_eq!(ctrl_doorbell(0x10), 0x8300_0000_0000_0010);
    assert_eq!(ctrl_doorbell(0x11), 0x8300_0000_0000_0011);
    assert_eq!(MSG_FWCTL, 0x8400_0000_0000_0000);
    assert_eq!(MSG_RX_DOORBELL, 0x4200_0000_0000_0000);
    // The init message carries the low 44 bits of the init-data address.
    assert_eq!(
        init_msg(0x1234_5678_9abc_def0),
        0x8100_0000_0000_0000 | (0x1234_5678_9abc_def0u64 % (1u64 << 44))
    );
    assert!(is_rx_doorbell(EP_FIRMWARE, MSG_RX_DOORBELL));
    assert!(!is_rx_doorbell(EP_DOORBELL, MSG_RX_DOORBELL));
    assert!(!is_rx_doorbell(EP_FIRMWARE, MSG_FWCTL));
}

#[test]
fn init_sends_the_boot_sequence() {
    let mut mgr = manager();
    mgr.init().unwrap();
    assert_eq!(mgr.device_control.msgs.len(), 1);
    assert_eq!(mgr.device_control.msgs[0], DeviceControlMsg::Initialize);
    assert_eq!(mgr.mailbox.len(), 3);
    assert_eq!(mgr.mailbox[0].ep, EP_FIRMWARE);
    assert_eq!(mgr.mailbox[0].msg, init_msg(0xf00d_0000));
    assert_eq!(mgr.mailbox[1].ep, EP_DOORBELL);
    assert_eq!(mgr.mailbox[1].msg, ctrl_doorbell(0x11));
    assert_eq!(mgr.mailbox[2].ep, EP_DOORBELL);
    assert_eq!(mgr.mailbox[2].msg, ctrl_doorbell(0x10));
}

#[test]
fn op_accounting_pairs_start_and_end() {
    let mut mgr = manager();
    let g1 = mgr.start_op().unwrap();
    let g2 = mgr.start_op().unwrap();
    assert_eq!(mgr.globals.pending_submissions, 2);
    mgr.end_op(g1);
    assert_eq!(mgr.globals.pending_submissions, 1);
    mgr.end_op(g2);
    assert_eq!(mgr.globals.pending_submissions, 0);
    // Each start kicked the firmware.
    assert_eq!(mgr.mailbox.len(), 2);
    assert_eq!(mgr.mailbox[0].msg, ctrl_doorbell(0x10));
}

#[test]
fn run_job_rings_the_right_pipe_doorbell() {
    let mut mgr = manager();
    let mut wq = WorkQueue::new(PipeType::Fragment, 9, 2, 8, 0x1000).unwrap();
    let mut job = wq.new_job(&mut mgr.event_manager, Fence::new(9, 0)).unwrap();
    job.add(0x4000, 0).unwrap();
    job.commit(&mut wq).unwrap();
    let sub = job.submit(&mut wq).unwrap();
    mgr.run_job(&mut wq, sub).unwrap();
    assert_eq!(mgr.mailbox.len(), 1);
    assert_eq!(mgr.mailbox[0].msg, tx_doorbell(PipeType::Fragment, 2));
    assert_eq!(wq.submit_seq, 1);

    let slot = job.event_info.slot;
    mgr.event_manager.fw_update_stamp(slot, wq.last_submitted.unwrap());
    wq.signal(&mut mgr.event_manager);
    job.cancel(&mut wq, &mut mgr.event_manager);
}

#[test]
fn garbage_threshold_triggers_a_sentinel_flush() {
    let mut mgr = manager();
    // Exceed the object threshold: 2050 tiny freed objects.
    for _ in 0..(MAX_FW_ALLOC_GARBAGE_OBJECTS + 2) {
        mgr.kalloc.private.add_garbage(8);
    }
    let (count, bytes) = mgr.kalloc.private.garbage();
    assert_eq!(count, 2050);
    assert_eq!(bytes, 2050 * 8);

    mgr.alloc_gc(true);
    // The sentinel DestroyContext performed a full cache flush...
    assert_eq!(
        mgr.device_control.msgs[mgr.device_control.msgs.len() - 1],
        DeviceControlMsg::DestroyContext {
            ctx_0: 0xff,
            ctx_1: 0xff,
            ctx_4: 0,
            ctx_23: 0,
            gpu_context_ptr: 0,
        }
    );
    // ...so the garbage was collected.
    let (count, bytes) = mgr.kalloc.private.garbage();
    assert_eq!(count, 0);
    assert_eq!(bytes, 0);
}

#[test]
fn below_threshold_no_flush_happens() {
    let mut mgr = manager();
    for _ in 0..10 {
        mgr.kalloc.private.add_garbage(64);
    }
    mgr.alloc_gc(true);
    assert_eq!(mgr.device_control.msgs.len(), 0);
    let (count, _) = mgr.kalloc.private.garbage();
    assert_eq!(count, 10);
}

#[test]
fn parked_contexts_are_invalidated_before_reuse() {
    let mut mgr = manager();
    let ctx = GpuContextData { gpu_pointer: 0x9000, ctx_0: 1, ctx_1: 2, ctx_4: 3, ctx_23: 4 };
    mgr.free_context(ctx);
    mgr.kalloc.private.add_garbage(32);
    assert_eq!(mgr.garbage_contexts.len(), 1);

    let did = mgr.invalidate_next_context(true).unwrap();
    assert!(did);
    assert_eq!(mgr.garbage_contexts.len(), 0);
    assert_eq!(
        mgr.device_control.msgs[0],
        DeviceControlMsg::DestroyContext {
            ctx_0: 1,
            ctx_1: 2,
            ctx_4: 3,
            ctx_23: 4,
            gpu_context_ptr: 0x9000,
        }
    );
    // The acknowledged invalidation flushed the cache, so the parked
    // allocator garbage went with it.
    let (count, _) = mgr.kalloc.private.garbage();
    assert_eq!(count, 0);

    // Nothing left to invalidate.
    assert_eq!(mgr.invalidate_next_context(true), Ok(false));
}

#[test]
fn unacknowledged_invalidation_keeps_the_garbage() {
    let mut mgr = manager();
    let ctx = GpuContextData { gpu_pointer: 0x9000, ctx_0: 1, ctx_1: 2, ctx_4: 3, ctx_23: 4 };
    mgr.free_context(ctx);
    mgr.kalloc.private.add_garbage(32);
    assert_eq!(mgr.invalidate_next_context(false), Err(DriverError::TimedOut));
    assert_eq!(mgr.garbage_contexts.len(), 1);
    let (count, _) = mgr.kalloc.private.garbage();
    assert_eq!(count, 1);
}

#[test]
fn fwctl_waits_for_the_acknowledgement() {
    let mut mgr = manager();
    assert_eq!(mgr.fwctl(asahi::channel::FwCtlMsg { addr: 0x2000 }, true), Ok(()));
    assert_eq!(mgr.fwctl.msgs.len(), 1);
    assert_eq!(mgr.mailbox[0].msg, MSG_FWCTL);
    assert_eq!(
        mgr.fwctl(asahi::channel::FwCtlMsg { addr: 0x3000 }, false),
        Err(DriverError::TimedOut)
    );
}

#[test]
fn idle_power_delay_follows_the_debug_flags() {
    let mut mgr = manager();
    let mut debug = DebugState::new();
    mgr.update_globals(&debug);
    assert_eq!(mgr.globals.idle_off_delay_ms, 2);

    let mut params = ModuleParameters::default();
    params.debug_flags = 1u64 << 38;
    debug.update_debug_flags(&params);
    assert!(debug.debug_enabled(DebugFlags::WaitForPowerOff));
    mgr.update_globals(&debug);
    assert_eq!(mgr.globals.idle_off_delay_ms, 0);

    params.debug_flags = 1u64 << 37;
    debug.update_debug_flags(&params);
    mgr.update_globals(&debug);
    assert_eq!(mgr.globals.idle_off_delay_ms, 5000);
}

#[test]
fn dynamic_configuration_is_validated() {
    let (cfg, dyncfg) = test_config();
    assert_eq!(make_dyncfg(&cfg, dyncfg.id, 0x8_0000), Ok(dyncfg));

    let mut wrong_gen = dyncfg.id;
    wrong_gen.gpu_gen = 14;
    assert_eq!(make_dyncfg(&cfg, wrong_gen, 0x8_0000), Err(DriverError::Io));

    let mut too_many = dyncfg.id;
    too_many.num_clusters = 9;
    assert_eq!(make_dyncfg(&cfg, too_many, 0x8_0000), Err(DriverError::Io));
}

#[test]
fn mmio_address_allocation_is_monotonic() {
    let mut mgr = manager();
    let a = mgr.alloc_mmio_iova(0x4000);
    let b = mgr.alloc_mmio_iova(0x8000);
    assert_eq!(a, 0xffffffaf00000000);
    // The second range starts beyond the first plus one guard page.
    assert_eq!(b, a + 0x4000 + 0x4000);
}

#[test]
fn grow_acknowledgement_echoes_the_halt_count() {
    let mut mgr = manager();
    mgr.fw_status.halt_count = 7;
    mgr.ack_grow(3, 5, 9);
    assert_eq!(
        mgr.device_control.msgs[0],
        DeviceControlMsg::GrowTVBAck {
            buffer_slot: 3,
            vm_slot: 5,
            counter: 9,
            subpipe: 0,
            halt_count: 7,
        }
    );
}

#[test]
fn mmio_regions_map_page_aligned_per_die() {
    let (mut cfg, dyncfg) = test_config();
    cfg.num_dies = 2;
    let mut mgr = GpuManager::new(cfg, dyncfg, 0xf00d_0000, 64);
    let base = asahi::gpu::IOVA_KERN_MMIO_BASE;

    // An aligned two-element array, repeated per die.
    let desc = asahi::gpu::IoMappingDesc {
        base: 0x2_0000_4000,
        size: 0x4000,
        count: 2,
        stride: 0x8000,
        per_die: true,
        writable: true,
    };
    let entry = mgr.iomap(desc).unwrap();
    assert_eq!(entry.phys_addr, 0x2_0000_4000);
    assert_eq!(entry.virt_addr, base);
    assert_eq!(entry.total_size, 0x4000 * 2 * 2);
    assert_eq!(entry.element_size, 0x4000);
    assert!(entry.readwrite);
    assert_eq!(mgr.io_mappings.len(), 4);
    for k in 0..4u64 {
        assert_eq!(mgr.io_mappings[k as usize].iova, base + k * 0x4000);
    }
    assert_eq!(mgr.io_mappings[0].phys, 0x2_0000_4000);
    assert_eq!(mgr.io_mappings[1].phys, 0x2_0000_4000 + 0x8000);
    assert_eq!(mgr.io_mappings[2].phys, 0x2_0000_4000 + 0x20_0000_0000);
    assert_eq!(mgr.io_mappings[3].phys, 0x2_0000_4000 + 0x20_0000_0000 + 0x8000);

    // An unaligned single region: page-aligned around, firmware sees
    // the in-page offset.
    let single = asahi::gpu::IoMappingDesc {
        base: 0x3_0000_0100,
        size: 0x80,
        count: 1,
        stride: 0,
        per_die: false,
        writable: false,
    };
    let next_iova = mgr.next_mmio_iova;
    let entry = mgr.iomap(single).unwrap();
    assert_eq!(entry.virt_addr, next_iova + 0x100);
    assert_eq!(entry.total_size, 0x80);
    assert_eq!(mgr.io_mappings[4].size, 0x4000);
    assert_eq!(mgr.io_mappings[4].phys, 0x3_0000_0000);

    // Unaligned arrays are rejected, as are empty ones.
    let bad = asahi::gpu::IoMappingDesc { count: 2, ..single };
    assert_eq!(mgr.iomap(bad), Err(DriverError::Invalid));
    let empty = asahi::gpu::IoMappingDesc { count: 0, ..desc };
    assert_eq!(mgr.iomap(empty), Err(DriverError::Invalid));
}
