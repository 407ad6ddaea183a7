//! Fences, device-tree properties, parameter parsing, MMIO regions and
//! command validation.

use asahi::fence::{Fence, FenceChain, FenceContexts, FenceOps, RawDmaFence};
use asahi::iomem::{Flags, IoMem, Mem};
use asahi::module_param::{ModuleParam, ModuleParamAccess};
use asahi::of::{Node, Property, PropertyUnit};
use asahi::queue::{build_attachments, get_timestamp_object, submit_compute, AttachmentDesc,
    CmdType, ComputeCmd, TimestampBuffer, UserObject};
use asahi::regs::{FaultInfo, FaultReason};
use asahi::results::{ResultFaultType, ResultInfo, ResultStatus};
use asahi::workqueue::WorkError;
use asahi::DriverError;

struct NopFence;

impl FenceOps for NopFence {
    fn enable_signaling(&mut self) -> bool {
        true
    }

    fn signaled(&self) -> bool {
        false
    }
}

#[test]
fn fence_timelines_hand_out_increasing_seqnos() {
    let mut ctxs = FenceContexts::new(100, 4);
    let f0 = ctxs.new_fence(1, NopFence).unwrap();
    let f1 = ctxs.new_fence(1, NopFence).unwrap();
    let f2 = ctxs.new_fence(2, NopFence).unwrap();
    assert_eq!(f0.0.fence.context, 101);
    assert_eq!(f0.0.fence.seqno, 0);
    assert_eq!(f1.0.fence.seqno, 1);
    assert_eq!(f2.0.fence.context, 102);
    assert_eq!(f2.0.fence.seqno, 0);
    assert!(matches!(ctxs.new_fence(4, NopFence), Err(DriverError::Invalid)));
}

#[test]
fn fences_signal_once_and_carry_errors() {
    let mut f = Fence::new(5, 9);
    assert!(!f.signaled);
    f.set_error(-5);
    f.signal();
    assert!(f.signaled);
    assert_eq!(f.error, -5);

    let mut ctxs = FenceContexts::new(0, 1);
    let unique = ctxs.new_fence(0, NopFence).unwrap();
    let mut user = unique.into_user();
    user.signal();
    assert!(user.0.fence.signaled);
}

#[test]
fn fence_chains_find_the_link_for_a_seqno() {
    let mut chain = FenceChain::new();
    chain.add_link(Fence::new(7, 10));
    chain.add_link(Fence::new(7, 20));
    chain.add_link(Fence::new(7, 30));
    assert_eq!(chain.find_seqno(15).map(|f| f.seqno), Some(20));
    assert_eq!(chain.find_seqno(20).map(|f| f.seqno), Some(20));
    assert_eq!(chain.find_seqno(31), None);
    assert_eq!(chain.find_seqno(0).map(|f| f.seqno), Some(10));
}

#[test]
fn properties_decode_big_endian() {
    let prop = Property { name: b"reg".to_vec(), value: vec![0x12, 0x34, 0x56, 0x78] };
    assert_eq!(prop.len(), 4);
    assert!(!prop.is_empty());
    let v: u32 = prop.decode().unwrap();
    assert_eq!(v, 0x1234_5678);
    // Wrong width is rejected.
    assert!(matches!(prop.decode::<u64>(), Err(DriverError::Invalid)));

    let wide = Property {
        name: b"val".to_vec(),
        value: vec![0, 0, 0, 1, 0x12, 0x34, 0x56, 0x78],
    };
    let v: u64 = wide.decode().unwrap();
    assert_eq!(v, 0x1_1234_5678);
}

#[test]
fn node_lookup_and_phandle() {
    let node = Node {
        name: b"gpu".to_vec(),
        properties: vec![
            Property { name: b"phandle".to_vec(), value: vec![0, 0, 0, 42] },
            Property { name: b"apple,firmware-version".to_vec(), value: vec![0, 0, 0, 13] },
            Property { name: b"marker".to_vec(), value: vec![] },
        ],
    };
    assert_eq!(node.phandle(), Ok(42));
    assert!(node.property_present(b"marker"));
    assert!(!node.property_present(b"missing"));
    let fw: u32 = node.get_property(b"apple,firmware-version").unwrap();
    assert_eq!(fw, 13);
    assert_eq!(
        node.get_property::<u32>(b"missing"),
        Err(DriverError::NoEntry)
    );
    assert_eq!(node.get_opt_property::<u32>(b"missing"), Ok(None));
    assert_eq!(node.get_opt_property::<u32>(b"phandle"), Ok(Some(42)));
}

#[test]
fn copy_to_slice_requires_an_exact_multiple() {
    let prop = Property {
        name: b"table".to_vec(),
        value: vec![0, 0, 0, 1, 0, 0, 0, 2, 0, 0, 0, 3],
    };
    let mut out: Vec<u32> = vec![0; 3];
    prop.copy_to_slice(&mut out).unwrap();
    assert_eq!(out, vec![1, 2, 3]);

    let mut wrong_len: Vec<u32> = vec![0; 2];
    assert!(matches!(
        prop.copy_to_slice(&mut wrong_len),
        Err(DriverError::Invalid)
    ));

    let ragged = Property { name: b"t".to_vec(), value: vec![0, 0, 0] };
    let mut one: Vec<u32> = vec![0; 1];
    assert!(matches!(
        ragged.copy_to_slice(&mut one),
        Err(DriverError::Invalid)
    ));
}

#[test]
fn module_parameters_parse_decimal_numerals() {
    assert_eq!(<u64 as ModuleParam>::try_from_param_arg(b"0"), Ok(0));
    assert_eq!(<u64 as ModuleParam>::try_from_param_arg(b"12345"), Ok(12345));
    assert_eq!(
        <u64 as ModuleParam>::try_from_param_arg(b"18446744073709551615"),
        Ok(u64::MAX)
    );
    // Overflow, junk and emptiness are rejected.
    assert_eq!(
        <u64 as ModuleParam>::try_from_param_arg(b"18446744073709551616"),
        Err(DriverError::Invalid)
    );
    assert_eq!(
        <u64 as ModuleParam>::try_from_param_arg(b"12a"),
        Err(DriverError::Invalid)
    );
    assert_eq!(
        <u64 as ModuleParam>::try_from_param_arg(b""),
        Err(DriverError::Invalid)
    );
    assert_eq!(<u32 as ModuleParam>::try_from_param_arg(b"4294967295"), Ok(u32::MAX));
    assert_eq!(
        <u32 as ModuleParam>::try_from_param_arg(b"4294967296"),
        Err(DriverError::Invalid)
    );

    let access = ModuleParamAccess::new(0x0bu32);
    assert_eq!(access.get(), 0x0b);
}

#[test]
fn mmio_regions_read_back_what_was_written() {
    let mut io = IoMem::new(0x40);
    io.writel_relaxed(0xdead_beef, 0x10);
    assert_eq!(io.readl_relaxed(0x10), 0xdead_beef);
    assert_eq!(io.readl_relaxed(0x14), 0);

    let mem = Mem::try_new(0x1000, 0x2000).unwrap();
    assert_eq!(mem.ptr(), 0x1000);
    assert_eq!(mem.size(), 0x2000);
    assert!(matches!(Mem::try_new(0, 4), Err(DriverError::NoEntry)));

    let flags = Flags(0b1010);
    assert!(flags.contains(Flags(0b1000)));
    assert!(!flags.contains(Flags(0b0100)));
    assert_eq!(flags.union(Flags(0b0101)).0, 0b1111);
}

#[test]
fn attachments_validate_and_convert_to_cache_lines() {
    let descs = vec![
        AttachmentDesc { pointer: 0x1000, size: 0, flags: 0, order: 1 },
        AttachmentDesc { pointer: 0x2000, size: 1, flags: 0, order: 2 },
        AttachmentDesc { pointer: 0x3000, size: 128, flags: 0, order: 6 },
        AttachmentDesc { pointer: 0x4000, size: 129, flags: 0, order: 3 },
    ];
    let list = build_attachments(&descs).unwrap();
    assert_eq!(list.len(), 4);
    assert_eq!(list[0].size, 0);
    assert_eq!(list[1].size, 1);
    assert_eq!(list[2].size, 1);
    assert_eq!(list[3].size, 2);
    assert_eq!(list[0].address, 0x1000);
    assert_eq!(list[0].unk_c, 0x17);
    assert_eq!(list[3].unk_e, 3);

    // Flags, bad orders, and over-long lists are rejected.
    let flagged = vec![AttachmentDesc { pointer: 0, size: 0, flags: 1, order: 1 }];
    assert!(matches!(build_attachments(&flagged), Err(DriverError::Invalid)));
    let bad_order = vec![AttachmentDesc { pointer: 0, size: 0, flags: 0, order: 7 }];
    assert!(matches!(build_attachments(&bad_order), Err(DriverError::Invalid)));
    let too_many = vec![AttachmentDesc { pointer: 0, size: 0, flags: 0, order: 1 }; 17];
    assert!(matches!(build_attachments(&too_many), Err(DriverError::Invalid)));
}

#[test]
fn timestamp_handles_are_resolved_with_bounds_checks() {
    let objects = vec![
        None,
        Some(UserObject::TimestampBuffer(TimestampBuffer { mapping_size: 64 })),
        None,
        Some(UserObject::Other),
    ];
    assert_eq!(get_timestamp_object(&objects, 0, 0), Ok(None));
    // An object of another kind is not a valid timestamp target.
    assert_eq!(
        get_timestamp_object(&objects, 3, 0),
        Err(DriverError::Invalid)
    );
    let ts = get_timestamp_object(&objects, 1, 16).unwrap().unwrap();
    assert_eq!(ts.offset, 16);
    assert_eq!(ts.mapping_size, 64);
    // Exactly eight bytes must fit.
    assert_eq!(get_timestamp_object(&objects, 1, 56).unwrap().unwrap().offset, 56);
    assert_eq!(
        get_timestamp_object(&objects, 1, 57),
        Err(DriverError::Range)
    );
    assert_eq!(
        get_timestamp_object(&objects, 2, 0),
        Err(DriverError::NoEntry)
    );
    assert_eq!(
        get_timestamp_object(&objects, 9, 0),
        Err(DriverError::NoEntry)
    );
    // An offset whose end overflows the 32-bit offset space is a
    // malformed request, distinct from a short buffer.
    let huge = vec![
        None,
        Some(UserObject::TimestampBuffer(TimestampBuffer { mapping_size: usize::MAX })),
    ];
    assert_eq!(
        get_timestamp_object(&huge, 1, u32::MAX - 7),
        Err(DriverError::Invalid)
    );
    assert_eq!(
        get_timestamp_object(&huge, 1, u32::MAX - 8).unwrap().unwrap().offset,
        (u32::MAX - 8) as usize
    );
}

#[test]
fn compute_submission_validates_and_reserves_an_event() {
    let mut wq =
        asahi::workqueue::WorkQueue::new(asahi::channel::PipeType::Compute, 11, 0, 16, 0x1000)
            .unwrap();
    let mut em = asahi::event::EventManager::new(8);
    let mut job = wq.new_job(&mut em, Fence::new(11, 0)).unwrap();

    let cmd = ComputeCmd {
        cmd_type: CmdType::Compute,
        flags: 0,
        encoder_ptr: 0xe000,
        encoder_id: 3,
        cmd_id: 77,
        attachments: vec![AttachmentDesc { pointer: 0x1000, size: 256, flags: 0, order: 2 }],
    };
    let atts = submit_compute(&mut job, &cmd, 0x4000, 5).unwrap();
    assert_eq!(atts.len(), 1);
    assert_eq!(atts[0].size, 2);
    assert_eq!(job.pending.len(), 1);
    assert_eq!(job.event_count, 1);
    assert_eq!(job.pending[0].gpu_va, 0x4000);
    assert_eq!(job.pending[0].vm_slot, 5);

    // A render command on the compute path is invalid.
    let wrong = ComputeCmd { cmd_type: CmdType::Render, ..clone_cmd(&cmd) };
    assert!(matches!(
        submit_compute(&mut job, &wrong, 0x5000, 5),
        Err(DriverError::Invalid)
    ));
    // Unknown flags are invalid.
    let flagged = ComputeCmd { flags: 2, ..clone_cmd(&cmd) };
    assert!(matches!(
        submit_compute(&mut job, &flagged, 0x5000, 5),
        Err(DriverError::Invalid)
    ));

    job.cancel(&mut wq, &mut em);
}

fn clone_cmd(cmd: &ComputeCmd) -> ComputeCmd {
    ComputeCmd {
        cmd_type: cmd.cmd_type,
        flags: cmd.flags,
        encoder_ptr: cmd.encoder_ptr,
        encoder_id: cmd.encoder_id,
        cmd_id: cmd.cmd_id,
        attachments: cmd.attachments.clone(),
    }
}

#[test]
fn work_errors_surface_as_result_records_and_error_codes() {
    let info = FaultInfo {
        address: 0xbad0_0000,
        sideband: 2,
        vm_slot: 4,
        unit_code: 17,
        level: 3,
        unk_5: 1,
        read: false,
        reason: FaultReason::ReadOnly,
    };
    let rec = ResultInfo::from(WorkError::Fault(info));
    assert_eq!(rec.status, ResultStatus::Fault);
    assert_eq!(rec.fault_type, ResultFaultType::ReadOnly);
    assert_eq!(rec.unit, 17);
    assert_eq!(rec.sideband, 2);
    assert_eq!(rec.level, 3);
    assert_eq!(rec.is_read, 0);
    assert_eq!(rec.address, 0xbad0_0000);

    let rec = ResultInfo::from(WorkError::Killed);
    assert_eq!(rec.status, ResultStatus::Killed);
    assert_eq!(rec.fault_type, ResultFaultType::NoFault);
    assert_eq!(rec.address, 0);

    assert_eq!(DriverError::from(WorkError::Timeout), DriverError::TimedOut);
    assert_eq!(DriverError::from(WorkError::Fault(info)), DriverError::Io);
    assert_eq!(DriverError::from(WorkError::Killed), DriverError::Canceled);
    assert_eq!(DriverError::from(WorkError::NoDevice), DriverError::NoDevice);
    assert_eq!(DriverError::from(WorkError::Unknown), DriverError::NoData);
    assert_eq!(
        DriverError::from(WorkError::ChannelError(asahi::channel::ChannelErrorType(1))),
        DriverError::Io
    );
}
