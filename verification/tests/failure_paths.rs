//! Faults, timeouts, channel errors, fail-all and firmware crash.

use asahi::channel::{ChannelErrorType, PipeChannel, PipeType};
use asahi::event::{EventManager, EventValue};
use asahi::fence::Fence;
use asahi::gpu::{GpuContextData, GpuManager, PendingStamp};
use asahi::hw::{DynConfig, FwVersionClass, GpuGenClass, GpuIdInfo, HwConfig};
use asahi::job::Job;
use asahi::regs::{FaultInfo, FaultReason};
use asahi::workqueue::{WorkError, WorkQueue};
use asahi::DriverError;

fn test_config() -> (HwConfig, DynConfig) {
    let cfg = HwConfig {
        fw_version: FwVersionClass::V13_0B4Plus,
        gen_class: GpuGenClass::PreG14X,
        gpu_gen: 13,
        gpu_variant: 71,
        max_num_clusters: 8,
        max_num_cores: 8,
        max_num_frags: 8,
        max_num_gps: 4,
        num_dies: 1,
    };
    let id = GpuIdInfo {
        gpu_gen: 13,
        gpu_variant: 71,
        num_clusters: 1,
        num_cores: 8,
        num_frags: 8,
        num_gps: 4,
        total_active_cores: 8,
    };
    (cfg, DynConfig { id, uat_ttb_base: 0x8_0000 })
}

fn manager() -> GpuManager {
    let (cfg, dyncfg) = test_config();
    GpuManager::new(cfg, dyncfg, 0xf00d_0000, 64)
}

fn fault_info(vm_slot: u32) -> FaultInfo {
    FaultInfo {
        address: 0xdead_0000,
        sideband: 3,
        vm_slot,
        unit_code: 9,
        level: 2,
        unk_5: 0,
        read: true,
        reason: FaultReason::Unmapped,
    }
}

/// Build a queue with `n` submitted commands, all on `vm_slot`.
fn submitted_queue(
    mgr: &mut EventManager,
    pipe: PipeType,
    id: u64,
    vm_slot: u32,
    n: u64,
) -> (WorkQueue, Job, PipeChannel) {
    let mut wq = WorkQueue::new(pipe, id, 0, 16, 0x1000 * id).unwrap();
    let mut job = wq.new_job(mgr, Fence::new(id, 0)).unwrap();
    for k in 0..n {
        job.add(0x4000 + id * 0x10000 + k * 0x100, vm_slot).unwrap();
    }
    job.commit(&mut wq).unwrap();
    let mut pipe_ch = PipeChannel::new();
    let sub = job.submit(&mut wq).unwrap();
    sub.run(&mut wq, &mut pipe_ch);
    (wq, job, pipe_ch)
}

#[test]
fn fault_marks_culprit_and_collateral_queues() {
    let mut mgr = manager();

    // Q1 (vertex) owns slot 0, Q2 (fragment) owns slot 1; four
    // submitted commands each. Q1 runs under binding 5, Q2 under 6.
    let (mut q1, j1, _p1) = submitted_queue(&mut mgr.event_manager, PipeType::Vertex, 1, 5, 4);
    let (mut q2, j2, _p2) = submitted_queue(&mut mgr.event_manager, PipeType::Fragment, 2, 6, 4);
    let s1 = j1.event_info.slot;
    let s2 = j2.event_info.slot;
    assert_ne!(s1, s2);

    // The firmware's pending-stamps table holds a waiter per slot, up
    // to each queue's newest submission.
    let w1 = q1.last_submitted.unwrap();
    let w2 = q2.last_submitted.unwrap();
    mgr.globals.pending_stamps = vec![
        PendingStamp { info: (s1 << 4) | 1, wait_value: w1.raw },
        PendingStamp { info: (s2 << 4) | 1, wait_value: w2.raw },
    ];

    // A fault with culprit slot s1; the registers blame binding 5.
    let info = fault_info(5);
    let marks = mgr.mark_pending_events(Some(s1), WorkError::Fault(info));
    assert_eq!(marks.len(), 2);
    assert_eq!(marks[0].slot, s1);
    assert_eq!(marks[0].error, WorkError::Fault(info));
    assert_eq!(marks[1].slot, s2);
    assert_eq!(marks[1].error, WorkError::Killed);
    // The walked entries were cleared.
    assert_eq!(mgr.globals.pending_stamps[0].info, 0);
    assert_eq!(mgr.globals.pending_stamps[1].info, 0);

    // Deliver each mark to its owning queue.
    q1.signal(&mut mgr.event_manager);
    q1.mark_error(marks[0].threshold, marks[0].error);
    q2.signal(&mut mgr.event_manager);
    q2.mark_error(marks[1].threshold, marks[1].error);

    // The firmware halts; the driver resumes it.
    mgr.fw_status.halted = 1;
    let debug = asahi::debug::DebugState::new();
    mgr.recover(&debug);
    assert_eq!(mgr.fw_status.halted, 0);
    assert_eq!(mgr.fw_status.resume, 1);

    // Retirement happens through the normal path once the firmware
    // publishes the stamps it was asked to.
    mgr.event_manager.fw_update_stamp(s1, w1);
    let (retired1, empty1) = q1.signal(&mut mgr.event_manager);
    assert!(empty1);
    assert_eq!(retired1.len(), 4);
    for cmd in &retired1 {
        // Same binding as the culprit: the real fault.
        assert_eq!(cmd.error, Some(WorkError::Fault(info)));
        assert!(cmd.completed);
    }

    mgr.event_manager.fw_update_stamp(s2, w2);
    let (retired2, empty2) = q2.signal(&mut mgr.event_manager);
    assert!(empty2);
    assert_eq!(retired2.len(), 4);
    for cmd in &retired2 {
        assert_eq!(cmd.error, Some(WorkError::Killed));
        assert!(cmd.completed);
    }

    // Both queues return to idle once their jobs drop.
    j1.cancel(&mut q1, &mut mgr.event_manager);
    j2.cancel(&mut q2, &mut mgr.event_manager);
    assert!(q1.event.is_none());
    assert!(q2.event.is_none());
}

#[test]
fn fault_on_another_binding_demotes_to_killed() {
    let mut em = EventManager::new(8);
    // Commands on binding 5; the fault belongs to binding 7.
    let (mut wq, job, _p) = submitted_queue(&mut em, PipeType::Compute, 3, 5, 2);
    let info = fault_info(7);
    let n = wq.mark_error(wq.last_submitted.unwrap(), WorkError::Fault(info));
    assert_eq!(n, 2);
    let slot = job.event_info.slot;
    em.fw_update_stamp(slot, wq.last_submitted.unwrap());
    let (retired, _) = wq.signal(&mut em);
    for cmd in &retired {
        assert_eq!(cmd.error, Some(WorkError::Killed));
    }
    job.cancel(&mut wq, &mut em);
}

#[test]
fn mark_error_covers_only_the_threshold_prefix() {
    let mut em = EventManager::new(8);
    let (mut wq, job, _p) = submitted_queue(&mut em, PipeType::Compute, 4, 5, 3);
    // Threshold at the second command's value.
    let threshold = job.start_value.next().next();
    let n = wq.mark_error(threshold, WorkError::Timeout);
    assert_eq!(n, 2);
    assert_eq!(wq.pending[0].error, Some(WorkError::Timeout));
    assert_eq!(wq.pending[1].error, Some(WorkError::Timeout));
    assert_eq!(wq.pending[2].error, None);
    let slot = job.event_info.slot;
    em.fw_update_stamp(slot, wq.last_submitted.unwrap());
    wq.signal(&mut em);
    job.cancel(&mut wq, &mut em);
}

#[test]
fn fail_all_completes_every_pending_command_with_an_error() {
    let mut em = EventManager::new(8);
    let (mut wq, job, _p) = submitted_queue(&mut em, PipeType::Vertex, 5, 5, 3);
    let slot = job.event_info.slot;

    // Every previously-pending command completes with Some(error)
    // before fail_all returns, exactly once each.
    let failed = wq.fail_all(&mut em, WorkError::NoDevice);
    assert_eq!(failed.len(), 3);
    for cmd in &failed {
        assert_eq!(cmd.error, Some(WorkError::NoDevice));
        assert!(cmd.completed);
    }
    assert_eq!(wq.pending.len(), 0);
    // The job still holds the queue, so the event slot stays until the
    // job drops.
    assert!(wq.event.is_some());
    job.cancel(&mut wq, &mut em);
    assert!(wq.event.is_none());
    assert_eq!(em.get_owner(slot), None);
}

#[test]
fn fail_all_demotes_foreign_faults_to_killed() {
    let mut em = EventManager::new(8);
    // Commands run under binding 5; the fault belongs to binding 9.
    let (mut wq, job, _p) = submitted_queue(&mut em, PipeType::Fragment, 9, 5, 2);
    let failed = wq.fail_all(&mut em, WorkError::Fault(fault_info(9)));
    assert_eq!(failed.len(), 2);
    for cmd in &failed {
        assert_eq!(cmd.error, Some(WorkError::Killed));
    }
    job.cancel(&mut wq, &mut em);
}

#[test]
fn channel_error_recovers_the_channel_and_tags_the_queue() {
    let mut mgr = manager();
    let (mut wq, job, _p) = submitted_queue(&mut mgr.event_manager, PipeType::Compute, 6, 5, 2);
    let threshold = job.start_value.next();

    let before = mgr.device_control.msgs.len();
    let (retired, tagged, acked) =
        mgr.handle_channel_error(&mut wq, ChannelErrorType(3), 2, threshold, true);
    assert!(acked);
    assert_eq!(retired.len(), 0);
    assert_eq!(tagged, 1);
    assert_eq!(
        wq.pending[0].error,
        Some(WorkError::ChannelError(ChannelErrorType(3)))
    );
    assert_eq!(wq.pending[1].error, None);
    assert_eq!(mgr.device_control.msgs.len(), before + 1);

    let slot = job.event_info.slot;
    mgr.event_manager.fw_update_stamp(slot, wq.last_submitted.unwrap());
    wq.signal(&mut mgr.event_manager);
    job.cancel(&mut wq, &mut mgr.event_manager);
}

#[test]
fn timeout_with_unknown_slot_times_out_every_waiter() {
    let mut mgr = manager();
    mgr.globals.pending_stamps = vec![
        PendingStamp { info: (0 << 4) | 1, wait_value: 10 },
        PendingStamp { info: (1 << 4) | 1, wait_value: 20 },
    ];
    let debug = asahi::debug::DebugState::new();
    // A negative culprit slot means the firmware does not know it.
    let marks = mgr.handle_timeout(1, -1, None, &debug);
    assert_eq!(marks.len(), 2);
    assert_eq!(marks[0].error, WorkError::Timeout);
    assert_eq!(marks[1].error, WorkError::Timeout);
}

#[test]
fn timeout_with_fault_registers_becomes_a_fault() {
    let mut mgr = manager();
    mgr.globals.pending_stamps = vec![
        PendingStamp { info: (2 << 4) | 1, wait_value: 10 },
        PendingStamp { info: (3 << 4) | 1, wait_value: 20 },
    ];
    let info = fault_info(5);
    let debug = asahi::debug::DebugState::new();
    let marks = mgr.handle_timeout(1, 2, Some(info), &debug);
    assert_eq!(marks.len(), 2);
    assert_eq!(marks[0].slot, 2);
    assert_eq!(marks[0].error, WorkError::Fault(info));
    assert_eq!(marks[1].slot, 3);
    assert_eq!(marks[1].error, WorkError::Killed);
}

#[test]
fn fault_with_empty_registers_is_unknown() {
    let mut mgr = manager();
    mgr.globals.pending_stamps = vec![PendingStamp { info: 1, wait_value: 10 }];
    let debug = asahi::debug::DebugState::new();
    let marks = mgr.handle_fault(None, &debug);
    assert_eq!(marks.len(), 1);
    assert_eq!(marks[0].slot, 0);
    assert_eq!(marks[0].error, WorkError::Unknown);
}

#[test]
fn crash_fails_every_operation_with_no_device() {
    let mut mgr = manager();
    let (mut wq, job, _p) = submitted_queue(&mut mgr.event_manager, PipeType::Compute, 8, 5, 2);

    // The crash hands back every occupied slot with its owner, so the
    // caller can fail every queue that holds work.
    let owners = mgr.firmware_crashed();
    assert!(mgr.is_crashed());
    assert_eq!(owners.len(), 1);
    assert_eq!(owners[0].slot, job.event_info.slot);
    assert_eq!(owners[0].owner, wq.id);

    // Everything outstanding on the owning queues fails with NoDevice.
    let failed = wq.fail_all(&mut mgr.event_manager, WorkError::NoDevice);
    assert_eq!(failed.len(), 2);
    for cmd in &failed {
        assert_eq!(cmd.error, Some(WorkError::NoDevice));
    }

    // Every new operation is refused.
    assert_eq!(mgr.kick_firmware(), Err(DriverError::NoDevice));
    assert!(matches!(mgr.start_op(), Err(DriverError::NoDevice)));
    assert_eq!(mgr.flush_fw_cache(true), Err(DriverError::NoDevice));
    assert_eq!(
        mgr.fwctl(asahi::channel::FwCtlMsg { addr: 0x1000 }, true),
        Err(DriverError::NoDevice)
    );
    let ctx = GpuContextData { gpu_pointer: 0x9000, ctx_0: 1, ctx_1: 2, ctx_4: 3, ctx_23: 4 };
    assert_eq!(mgr.invalidate_context(ctx, true), Err(DriverError::NoDevice));
    assert_eq!(mgr.init(), Err(DriverError::NoDevice));

    // Job creation is local and still succeeds.
    job.cancel(&mut wq, &mut mgr.event_manager);
    let job2 = wq.new_job(&mut mgr.event_manager, Fence::new(8, 1));
    assert!(job2.is_ok());
    job2.unwrap().cancel(&mut wq, &mut mgr.event_manager);
}

#[test]
fn recovery_is_skipped_when_disabled_or_not_halted() {
    let mut mgr = manager();
    let debug = asahi::debug::DebugState::new();
    // Not halted: nothing to write.
    mgr.recover(&debug);
    assert_eq!(mgr.fw_status.resume, 0);
    // Halted, but recovery disabled by debug flag.
    mgr.fw_status.halted = 1;
    let mut params = asahi::debug::ModuleParameters::default();
    params.debug_flags = 1u64 << 39;
    let mut debug_off = asahi::debug::DebugState::new();
    debug_off.update_debug_flags(&params);
    assert!(debug_off.debug_enabled(asahi::debug::DebugFlags::NoGpuRecovery));
    mgr.recover(&debug_off);
    assert_eq!(mgr.fw_status.halted, 1);
    assert_eq!(mgr.fw_status.resume, 0);
    // Recovery enabled: clear halted, set resume.
    mgr.recover(&debug);
    assert_eq!(mgr.fw_status.halted, 0);
    assert_eq!(mgr.fw_status.resume, 1);
}
