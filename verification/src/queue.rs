//! User command queue submission: validation of compute command
//! buffers and their attachment lists, and handing the built command
//! record to the job lifecycle.

use vstd::prelude::*;
use crate::job::Job;
use crate::DriverError;

verus! {

/// Most attachments one command may carry.
pub const MAX_ATTACHMENTS: usize = 16;

/// Flag accepted on a compute command: disable preemption.
pub const ASAHI_COMPUTE_NO_PREEMPTION: u64 = 1;

/// Kind tag of a user command buffer.
#[derive(Clone, Copy, Debug, PartialEq, Eq, Structural)]
pub enum CmdType {
    Render,
    Compute,
}

/// One attachment as user space describes it.
#[derive(Clone, Copy, Debug, PartialEq, Eq, Structural)]
pub struct AttachmentDesc {
    pub pointer: u64,
    pub size: u32,
    pub flags: u32,
    pub order: u8,
}

/// One attachment as handed to the firmware: the buffer address and
/// its size in 128-byte cache lines.
#[derive(Clone, Copy, Debug, PartialEq, Eq, Structural)]
pub struct Attachment {
    pub address: u64,
    pub size: u16,
    pub unk_c: u16,
    pub unk_e: u16,
}

/// Size of an attachment in 128-byte cache lines.
pub open spec fn spec_cache_lines(size: u32) -> int {
    (size + 127) / 128
}

/// Whether one attachment descriptor passes validation: no flags, an
/// order between one and six, and a cache-line count that fits 16 bits.
pub open spec fn spec_attachment_ok(a: AttachmentDesc) -> bool {
    &&& a.flags == 0
    &&& 1 <= a.order <= 6
    &&& spec_cache_lines(a.size) <= u16::MAX
}

/// The firmware form of a valid attachment descriptor.
pub open spec fn spec_attachment(a: AttachmentDesc) -> Attachment {
    Attachment {
        address: a.pointer,
        size: spec_cache_lines(a.size) as u16,
        unk_c: 0x17,
        unk_e: a.order as u16,
    }
}

/// Validate and convert a command's attachment list. Fails with
/// `Invalid` when the list is over-long or any descriptor carries
/// flags, an out-of-range order, or an over-large size.
pub fn build_attachments(descs: &Vec<AttachmentDesc>) -> (r: Result<Vec<Attachment>, DriverError>)
    ensures
        ({
            let ok = descs.len() <= MAX_ATTACHMENTS && (forall|i: int|
                0 <= i < descs.len() ==> spec_attachment_ok(#[trigger] descs@[i]));
            &&& (r is Ok <==> ok)
            &&& (r is Err ==> r == Err::<Vec<Attachment>, DriverError>(DriverError::Invalid))
            &&& (r matches Ok(list) ==> list.len() == descs.len() && (forall|i: int|
                0 <= i < descs.len() ==> list@[i] == spec_attachment(#[trigger] descs@[i])))
        }),
{
    if descs.len() > MAX_ATTACHMENTS {
        return Err(DriverError::Invalid);
    }
    let mut list: Vec<Attachment> = Vec::new();
    let mut i: usize = 0;
    while i < descs.len()
        invariant
            i <= descs.len(),
            list.len() == i,
            forall|j: int| 0 <= j < i ==> spec_attachment_ok(#[trigger] descs@[j]),
            forall|j: int| 0 <= j < i ==> list@[j] == spec_attachment(#[trigger] descs@[j]),
        decreases descs.len() - i,
    {
        let a = descs[i];
        if a.flags != 0 {
            return Err(DriverError::Invalid);
        }
        if a.order < 1 || a.order > 6 {
            return Err(DriverError::Invalid);
        }
        let cache_lines: u32 = (a.size / 128) + (if a.size % 128 != 0 { 1u32 } else { 0u32 });
        proof {
            assert(cache_lines == spec_cache_lines(a.size)) by (nonlinear_arith)
                requires
                    cache_lines == a.size / 128 + (if a.size % 128 != 0 { 1int } else { 0int }),
            ;
        }
        if cache_lines > u16::MAX as u32 {
            return Err(DriverError::Invalid);
        }
        list.push(
            Attachment { address: a.pointer, size: cache_lines as u16, unk_c: 0x17, unk_e: a.order as u16 },
        );
        i = i + 1;
    }
    Ok(list)
}

/// A user object table entry that can serve as a timestamp buffer.
#[derive(Clone, Copy, Debug, PartialEq, Eq, Structural)]
pub struct TimestampBuffer {
    /// Size of the mapped buffer in bytes.
    pub mapping_size: usize,
}

/// An entry of a file's user object table.
#[derive(Clone, Copy, Debug, PartialEq, Eq, Structural)]
pub enum UserObject {
    /// A buffer mapped for user timestamps.
    TimestampBuffer(TimestampBuffer),
    /// Any other kind of object; not a valid timestamp target.
    Other,
}

/// A resolved user timestamp target: a mapping and a byte offset with
/// room for one 64-bit timestamp.
#[derive(Clone, Copy, Debug, PartialEq, Eq, Structural)]
pub struct UserTimestamp {
    pub mapping_size: usize,
    pub offset: usize,
}

/// Resolve a user timestamp handle against the object table. Handle
/// zero means no timestamp; a missing object is `NoEntry`, an object of
/// another kind or an offset whose end overflows the 32-bit offset
/// space is `Invalid`, and an offset without room for eight bytes in
/// the mapping is `Range`.
pub fn get_timestamp_object(
    objects: &Vec<Option<UserObject>>,
    handle: u32,
    offset: u32,
) -> (r: Result<Option<UserTimestamp>, DriverError>)
    ensures
        handle == 0 ==> r == Ok::<Option<UserTimestamp>, DriverError>(None),
        handle != 0 && (handle >= objects.len() || objects@[handle as int] is None) ==> r == Err::<
            Option<UserTimestamp>,
            DriverError,
        >(DriverError::NoEntry),
        handle != 0 && handle < objects.len() ==> (objects@[handle as int] matches Some(obj)
            ==> match obj {
            UserObject::TimestampBuffer(buf) => {
                &&& (offset + 8 > u32::MAX ==> r == Err::<Option<UserTimestamp>, DriverError>(
                    DriverError::Invalid,
                ))
                &&& (offset + 8 <= u32::MAX && offset + 8 > buf.mapping_size ==> r == Err::<
                    Option<UserTimestamp>,
                    DriverError,
                >(DriverError::Range))
                &&& (offset + 8 <= u32::MAX && offset + 8 <= buf.mapping_size ==> r == Ok::<
                    Option<UserTimestamp>,
                    DriverError,
                >(
                    Some(
                        (UserTimestamp { mapping_size: buf.mapping_size, offset: offset as usize }),
                    ),
                ))
            },
            UserObject::Other => r == Err::<Option<UserTimestamp>, DriverError>(
                DriverError::Invalid,
            ),
        }),
{
    if handle == 0 {
        return Ok(None);
    }
    if handle as usize >= objects.len() {
        return Err(DriverError::NoEntry);
    }
    let entry = &objects[handle as usize];
    match entry {
        Some(UserObject::TimestampBuffer(buf)) => {
            // The offset arithmetic happens in the 32-bit offset space:
            // an end past it is a malformed request, not a short buffer.
            if offset > u32::MAX - 8 {
                return Err(DriverError::Invalid);
            }
            if (offset + 8) as u64 > buf.mapping_size as u64 {
                return Err(DriverError::Range);
            }
            Ok(Some(UserTimestamp { mapping_size: buf.mapping_size, offset: offset as usize }))
        },
        Some(UserObject::Other) => Err(DriverError::Invalid),
        None => Err(DriverError::NoEntry),
    }
}

/// A compute command buffer, as read from user space.
pub struct ComputeCmd {
    pub cmd_type: CmdType,
    pub flags: u64,
    pub encoder_ptr: u64,
    pub encoder_id: u32,
    pub cmd_id: u32,
    pub attachments: Vec<AttachmentDesc>,
}

/// Submit one compute command to a queue's job: validate the command
/// kind, its flags and its attachments, then append the prepared
/// command record (already resident in firmware-visible memory at
/// `gpu_va`) to the job, reserving the event value the firmware will
/// publish on its completion.
///
/// Returns the firmware attachment list on success.
pub fn submit_compute(job: &mut Job, cmd: &ComputeCmd, gpu_va: u64, vm_slot: u32) -> (r: Result<
    Vec<Attachment>,
    DriverError,
>)
    requires
        old(job).wf(),
        old(job).event_count < crate::job::MAX_JOB_EVENTS,
        gpu_va != 0,
    ensures
        final(job).wf(),
        ({
            let bad = cmd.cmd_type != CmdType::Compute || cmd.flags & !ASAHI_COMPUTE_NO_PREEMPTION
                != 0 || old(job).committed || !(cmd.attachments.len() <= MAX_ATTACHMENTS && (forall|
                i: int,
            |
                0 <= i < cmd.attachments.len() ==> spec_attachment_ok(
                    #[trigger] cmd.attachments@[i],
                )));
            &&& (r is Err <==> bad)
            &&& (r is Err ==> r == Err::<Vec<Attachment>, DriverError>(DriverError::Invalid)
                && *final(job) == *old(job))
            &&& (r matches Ok(list) ==> {
                &&& final(job).event_count == old(job).event_count + 1
                &&& final(job).pending@ == old(job).pending@.push(
                    (crate::workqueue::SubmittedWork {
                        gpu_va,
                        value: old(job).event_info.value.spec_next(),
                        error: None,
                        wptr: 0,
                        vm_slot,
                        fence: old(job).fence,
                        completed: false,
                    }),
                )
                // the returned firmware attachment list is exactly the
                // converted descriptor list
                &&& list.len() == cmd.attachments.len()
                &&& (forall|i: int|
                    0 <= i < cmd.attachments.len() ==> list@[i] == spec_attachment(
                        #[trigger] cmd.attachments@[i],
                    ))
            })
        }),
{
    if !matches!(cmd.cmd_type, CmdType::Compute) {
        return Err(DriverError::Invalid);
    }
    if cmd.flags & !ASAHI_COMPUTE_NO_PREEMPTION != 0 {
        return Err(DriverError::Invalid);
    }
    let attachments = match build_attachments(&cmd.attachments) {
        Ok(list) => list,
        Err(e) => {
            return Err(e);
        },
    };
    match job.add(gpu_va, vm_slot) {
        Ok(()) => Ok(attachments),
        Err(e) => Err(e),
    }
}

} // verus!
