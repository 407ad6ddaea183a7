//! Per-pipe work queues: bounded rings of command records, retired in
//! submission order as the firmware advances the queue's event stamp.

use vstd::prelude::*;
use crate::channel::{ChannelErrorType, PipeType};
use crate::event::{circ_diff, value_le, EventManager, EventValue};
use crate::fence::Fence;
use crate::regs::FaultInfo;

verus! {

/// The firmware tracks at most this many in-flight events per queue;
/// one slot is kept in reserve.
pub const MAX_JOB_SLOTS: u32 = 127;

/// Why a piece of submitted work failed.
#[derive(Clone, Copy, Debug, PartialEq, Eq, Structural)]
pub enum WorkError {
    /// Command execution took too long.
    Timeout,
    /// GPU MMU fault (invalid access).
    Fault(FaultInfo),
    /// Collateral damage of an error in other concurrent work.
    Killed,
    /// The firmware reported a channel error.
    ChannelError(ChannelErrorType),
    /// The firmware crashed; terminal.
    NoDevice,
    /// The fault registers held nothing during a fault.
    Unknown,
}

/// The error a command record is tagged with: a fault whose culprit ran
/// under another address-space binding demotes to `Killed` ("not your
/// fault"); every other error sticks as reported.
pub open spec fn spec_mark(vm_slot: u32, error: WorkError) -> WorkError {
    match error {
        WorkError::Fault(info) => if info.vm_slot != vm_slot {
            WorkError::Killed
        } else {
            WorkError::Fault(info)
        },
        e => e,
    }
}

/// One command record written to a queue's ring: an opaque firmware
/// structure identified by its GPU virtual address, plus the stamp
/// value the firmware publishes when the command completes.
#[derive(Clone, Copy, Debug, PartialEq, Eq, Structural)]
pub struct SubmittedWork {
    /// GPU virtual address of the command structure; never zero.
    pub gpu_va: u64,
    /// Stamp value whose publication retires this command.
    pub value: EventValue,
    /// Error to surface on completion, `None` for success.
    pub error: Option<WorkError>,
    /// Ring index the record was placed at; frees ring space on retire.
    pub wptr: u32,
    /// Address-space binding active while the command runs.
    pub vm_slot: u32,
    /// Completion fence of the job this command belongs to.
    pub fence: Fence,
    /// Whether the completion callback has fired. Pending records are
    /// never completed, so the flag's one transition marks the one
    /// delivery.
    pub completed: bool,
}

impl SubmittedWork {
    pub fn gpu_va(&self) -> (r: u64)
        ensures
            r == self.gpu_va,
    {
        self.gpu_va
    }

    pub fn value(&self) -> (r: EventValue)
        ensures
            r == self.value,
    {
        self.value
    }

    pub fn wptr(&self) -> (r: u32)
        ensures
            r == self.wptr,
    {
        self.wptr
    }

    pub fn set_wptr(&mut self, wptr: u32)
        ensures
            *final(self) == (SubmittedWork { wptr, ..*old(self) }),
    {
        self.wptr = wptr;
    }

    pub fn get_fence(&self) -> (r: Fence)
        ensures
            r == self.fence,
    {
        self.fence
    }

    /// Tag this record as failed; see `spec_mark` for the demotion rule.
    pub fn mark_error(&mut self, error: WorkError)
        ensures
            *final(self) == (SubmittedWork {
                error: Some(spec_mark(old(self).vm_slot, error)),
                ..*old(self)
            }),
    {
        self.error = Some(match error {
            WorkError::Fault(info) => if info.vm_slot != self.vm_slot {
                WorkError::Killed
            } else {
                WorkError::Fault(info)
            },
            e => e,
        });
    }

    /// Fire the completion callback. The callback runs at most once: a
    /// record already completed stays completed and nothing else
    /// changes, so a repeated call is a no-op. Records wait in a
    /// queue's pending list uncompleted, so the one transition of this
    /// flag marks the one delivery.
    pub fn complete(&mut self)
        ensures
            *final(self) == (SubmittedWork { completed: true, ..*old(self) }),
    {
        self.completed = true;
    }
}

/// The ring-control words shared with the firmware.
#[derive(Clone, Copy, Debug, PartialEq, Eq, Structural)]
pub struct RingState {
    pub rb_size: u32,
    /// Producer index, written by the CPU with release semantics.
    pub cpu_wptr: u32,
    /// Consumer index, advanced by the GPU as it fetches commands.
    pub gpu_doneptr: u32,
    /// Free index: ring entries before it may be reused.
    pub cpu_freeptr: u32,
}

/// A work queue for one pipe and priority: a bounded ring of command
/// pointers, the pending command records, and the sequence counters of
/// the commit/submit/retire protocol.
pub struct WorkQueue {
    /// Which of the three engines this queue feeds. Immutable.
    pub pipe_type: PipeType,
    /// Submission priority. Immutable.
    pub priority: u32,
    /// Unique queue id; the event manager records it as slot owner.
    pub id: u64,
    /// GPU address of the firmware queue-info structure.
    pub info_pointer: u64,
    /// Ring capacity in entries; one entry stays unused.
    pub size: u32,
    /// True until the first submission is announced to the firmware.
    pub new: bool,
    /// Next ring index to write.
    pub wptr: u32,
    /// The ring: GPU addresses of submitted command structures.
    pub ring: Vec<u64>,
    /// Shared ring-control words.
    pub state: RingState,
    /// Commands written to the ring and not yet retired, in submission
    /// order, stamp values monotonic in wrap-respecting order.
    pub pending: Vec<SubmittedWork>,
    /// Jobs built against this queue and not yet dropped.
    pub pending_jobs: usize,
    /// Slot token of the last held event slot, for re-acquisition.
    pub last_token: Option<u32>,
    /// Stamp value of the newest submitted command.
    pub last_submitted: Option<EventValue>,
    /// Newest stamp observed from the firmware.
    pub last_completed: Option<EventValue>,
    /// The owned event slot and the committed stamp value, while the
    /// queue has outstanding work.
    pub event: Option<(u32, EventValue)>,
    /// Commands committed over the queue's lifetime.
    pub commit_seq: u64,
    /// Commands submitted to the firmware over the queue's lifetime.
    pub submit_seq: u64,
    /// Event values consumed over the queue's lifetime.
    pub event_seq: u64,
    /// Commands retired over the queue's lifetime.
    pub completed_seq: u64,
}

impl WorkQueue {
    /// The committed stamp value; only meaningful while active.
    pub open spec fn ev_slot(self) -> u32 {
        self.event.unwrap().0
    }

    pub open spec fn ev_value(self) -> EventValue {
        self.event.unwrap().1
    }

    pub open spec fn lc_val(self) -> EventValue {
        self.last_completed.unwrap()
    }

    pub open spec fn ls_val(self) -> EventValue {
        self.last_submitted.unwrap()
    }

    /// In-flight window: forward distance from the newest completion to
    /// the newest submission.
    pub open spec fn busy(self) -> int {
        circ_diff(self.ls_val().raw, self.lc_val().raw)
    }

    /// Forward distance of pending command `i`'s stamp value from the
    /// newest completion.
    pub open spec fn pdiff(self, i: int) -> int {
        circ_diff(self.pending@[i].value.raw, self.lc_val().raw)
    }

    /// Well-formedness: the queue's structural invariants.
    ///
    /// Notably: the pending list leaves one ring entry free, its stamp
    /// values are monotonic in wrap-respecting order inside the busy
    /// window, the newest completion never overtakes the newest
    /// submission, an idle queue (no event slot) holds neither pending
    /// commands nor live jobs, and the retire/submit/commit counters
    /// are ordered with their difference mirrored in the pending list.
    pub open spec fn inv(self) -> bool {
        self.inv_staged(0)
    }

    /// Well-formedness while a submission holds the queue: `staged`
    /// commands already stand in the pending list and the ring but are
    /// not yet announced in `submit_seq`. The queue is handed out only
    /// with `staged == 0`.
    pub open spec fn inv_staged(self, staged: int) -> bool {
        &&& 2 <= self.size
        &&& self.ring.len() == self.size
        &&& self.wptr < self.size
        &&& self.pending.len() < self.size
        &&& 0 <= staged
        &&& self.submit_seq + staged <= self.commit_seq
        &&& self.completed_seq <= self.submit_seq
        &&& self.submit_seq - self.completed_seq + staged == self.pending.len()
        &&& (self.event is None ==> self.pending.len() == 0 && self.pending_jobs == 0)
        &&& (self.event is Some ==> self.last_submitted is Some && self.last_completed is Some)
        &&& (self.event is Some ==> self.pending.len() > 0 || self.pending_jobs > 0)
        &&& (self.event is Some ==> self.busy() <= MAX_JOB_SLOTS)
        &&& (forall|i: int|
            0 <= i < self.pending.len() ==> 1 <= #[trigger] self.pdiff(i) <= self.busy())
        &&& (forall|i: int, j: int|
            0 <= i <= j < self.pending.len() ==> #[trigger] self.pdiff(i) <= #[trigger] self.pdiff(
                j,
            ))
        &&& (forall|i: int| 0 <= i < self.pending.len() ==> !(#[trigger] self.pending@[i]).completed)
        &&& (forall|i: int| 0 <= i < self.pending.len() ==> (#[trigger] self.pending@[i]).gpu_va != 0)
        &&& (forall|i: int| 0 <= i < self.pending.len() ==> (#[trigger] self.pending@[i]).wptr < self.size)
    }

    /// The standing guarantees of a well-formed queue, in one place:
    /// the pending list always leaves one ring entry free; an idle
    /// queue (one holding no event slot) has no pending commands and no
    /// live jobs; the newest completion never overtakes the newest
    /// submission in wrap-respecting order; the commit, submit and
    /// retire counters are ordered; commands retire in submission
    /// order, so the pending list is sorted by stamp value; and no
    /// pending command has fired its callback yet, so a callback fires
    /// exactly once, at retirement.
    pub proof fn lemma_queue_invariants(wq: WorkQueue)
        requires
            wq.inv(),
        ensures
            wq.pending.len() <= wq.size - 1,
            wq.event is None ==> wq.pending.len() == 0 && wq.pending_jobs == 0,
            wq.event is Some ==> 0 <= wq.busy() <= MAX_JOB_SLOTS,
            wq.completed_seq <= wq.submit_seq <= wq.commit_seq,
            wq.submit_seq - wq.completed_seq == wq.pending.len(),
            forall|i: int, j: int|
                0 <= i <= j < wq.pending.len() ==> #[trigger] wq.pdiff(i) <= #[trigger] wq.pdiff(j),
            forall|i: int| 0 <= i < wq.pending.len() ==> !(#[trigger] wq.pending@[i]).completed,
    {
        if wq.event is Some {
            crate::event::lemma_circ_diff_closed(wq.ls_val().raw, wq.lc_val().raw);
        }
    }

    /// Queues with the same pending list and completion base agree on
    /// every pending command's window position.
    pub proof fn lemma_pdiff_unchanged(a: WorkQueue, b: WorkQueue)
        requires
            b.pending@ == a.pending@,
            b.last_completed == a.last_completed,
        ensures
            forall|i: int| 0 <= i < a.pending.len() ==> #[trigger] b.pdiff(i) == a.pdiff(i),
    {
    }

    /// The queue's slot bookkeeping agrees with the event manager.
    pub open spec fn owns(self, mgr: EventManager) -> bool {
        self.event matches Some((s, _)) ==> (s as int) < mgr.slots.len() && mgr.slots@[s as int].owner
            == Some(self.id)
    }

    /// The firmware stamp for this queue's slot, as the manager holds it.
    pub open spec fn observed(self, mgr: EventManager) -> EventValue {
        mgr.slots@[self.ev_slot() as int].value
    }

    /// Protocol assumption on the firmware: the published stamp never
    /// rolls back behind the newest completion and never overtakes the
    /// newest submission.
    pub open spec fn stamp_in_window(self, mgr: EventManager) -> bool {
        self.event is Some ==> circ_diff(self.observed(mgr).raw, self.lc_val().raw) <= self.busy()
    }

    /// Create a work queue of a given type, priority and ring size.
    ///
    /// Priorities above the four firmware levels are rejected.
    pub fn new(pipe_type: PipeType, id: u64, priority: u32, size: u32, info_pointer: u64) -> (r:
        Result<WorkQueue, crate::DriverError>)
        requires
            2 <= size,
        ensures
            match r {
                Ok(wq) => {
                    &&& wq.inv()
                    &&& wq.pipe_type == pipe_type
                    &&& wq.priority == priority
                    &&& wq.id == id
                    &&& wq.size == size
                    &&& wq.info_pointer == info_pointer
                    &&& wq.new
                    &&& wq.event is None
                    &&& wq.pending.len() == 0
                    &&& wq.pending_jobs == 0
                    &&& wq.commit_seq == 0
                    &&& wq.submit_seq == 0
                    &&& wq.event_seq == 0
                    &&& wq.completed_seq == 0
                },
                Err(e) => e == crate::DriverError::Invalid && priority >= 4,
            },
    {
        if priority >= 4 {
            return Err(crate::DriverError::Invalid);
        }
        let mut ring: Vec<u64> = Vec::new();
        let mut i: u32 = 0;
        while i < size
            invariant
                i <= size,
                ring.len() == i,
            decreases size - i,
        {
            ring.push(0);
            i = i + 1;
        }
        Ok(WorkQueue {
            pipe_type,
            priority,
            id,
            info_pointer,
            size,
            new: true,
            wptr: 0,
            ring,
            state: RingState { rb_size: size, cpu_wptr: 0, gpu_doneptr: 0, cpu_freeptr: 0 },
            pending: Vec::new(),
            pending_jobs: 0,
            last_token: None,
            last_submitted: None,
            last_completed: None,
            event: None,
            commit_seq: 0,
            submit_seq: 0,
            event_seq: 0,
            completed_seq: 0,
        })
    }

    /// The GPU consumer index: how far the firmware has fetched.
    pub fn doneptr(&self) -> (r: u32)
        ensures
            r == self.state.gpu_doneptr,
    {
        self.state.gpu_doneptr
    }

    /// Free ring entries; one entry always stays reserved so a full
    /// ring is distinguishable from an empty one.
    pub fn free_space(&self) -> (r: usize)
        requires
            self.inv(),
        ensures
            r == self.size - self.pending.len() - 1,
    {
        self.size as usize - self.pending.len() - 1
    }

    /// Free event-slot budget: the job-slot maximum less the in-flight
    /// window.
    pub fn free_slots(&self) -> (r: u64)
        requires
            self.inv(),
        ensures
            self.event is Some ==> r == MAX_JOB_SLOTS - self.busy(),
            self.event is None ==> r == MAX_JOB_SLOTS,
    {
        match &self.event {
            None => MAX_JOB_SLOTS as u64,
            Some(_) => {
                let ls = match &self.last_submitted {
                    Some(v) => *v,
                    None => EventValue { raw: 0 },
                };
                let lc = match &self.last_completed {
                    Some(v) => *v,
                    None => EventValue { raw: 0 },
                };
                let busy = ls.delta_from(&lc);
                (MAX_JOB_SLOTS as u64) - busy
            },
        }
    }

    /// Process a completion notification: read the slot's published
    /// stamp, retire every pending command the stamp covers, strictly
    /// in submission order, fire each retired record's callback once,
    /// free ring entries up to the last retired record, and release the
    /// event slot once the queue has fully drained.
    ///
    /// Returns the retired records, completion recorded and errors
    /// attached, and whether the queue is now empty. A stamp equal to
    /// the newest completion retires nothing: the notification is
    /// idempotent while the stamp does not advance.
    pub fn signal(&mut self, mgr: &mut EventManager) -> (r: (Vec<SubmittedWork>, bool))
        requires
            old(self).inv(),
            old(self).owns(*old(mgr)),
            old(self).stamp_in_window(*old(mgr)),
            old(mgr).inv(),
        ensures
            final(self).inv(),
            final(mgr).inv(),
            final(self).owns(*final(mgr)),
            final(self).pipe_type == old(self).pipe_type,
            final(self).priority == old(self).priority,
            final(self).id == old(self).id,
            final(self).info_pointer == old(self).info_pointer,
            final(self).size == old(self).size,
            final(self).new == old(self).new,
            final(self).wptr == old(self).wptr,
            final(self).ring@ == old(self).ring@,
            final(self).last_token == old(self).last_token,
            final(self).state.rb_size == old(self).state.rb_size,
            final(self).state.cpu_wptr == old(self).state.cpu_wptr,
            final(self).state.gpu_doneptr == old(self).state.gpu_doneptr,
            final(self).pending_jobs == old(self).pending_jobs,
            final(self).commit_seq == old(self).commit_seq,
            final(self).submit_seq == old(self).submit_seq,
            final(self).event_seq == old(self).event_seq,
            r.1 == (final(self).pending.len() == 0),
            old(self).event is None ==> *final(self) == *old(self) && *final(mgr) == *old(mgr)
                && r.0.len() == 0,
            old(self).event is Some ==> ({
                let n = r.0.len() as int;
                let stamp = old(self).observed(*old(mgr));
                let d = circ_diff(stamp.raw, old(self).lc_val().raw);
                &&& n <= old(self).pending.len()
                &&& (forall|i: int| 0 <= i < n ==> #[trigger] old(self).pdiff(i) <= d)
                &&& (n < old(self).pending.len() ==> old(self).pdiff(n) > d)
                &&& (forall|i: int|
                    0 <= i < n ==> r.0@[i] == (SubmittedWork {
                        completed: true,
                        ..old(self).pending@[i]
                    }))
                &&& final(self).pending@ == old(self).pending@.skip(n)
                &&& final(self).completed_seq == old(self).completed_seq + n
                &&& (stamp == old(self).lc_val() ==> n == 0)
                &&& (n > 0 ==> final(self).state.cpu_freeptr == old(self).pending@[n - 1].wptr)
                &&& (n == 0 ==> final(self).state.cpu_freeptr == old(self).state.cpu_freeptr)
                &&& if old(self).pending.len() == n && old(self).pending_jobs == 0 {
                    &&& final(self).event is None
                    &&& final(self).last_submitted is None
                    &&& final(self).last_completed is None
                    &&& final(mgr).slots@ == old(mgr).slots@.update(
                        old(self).ev_slot() as int,
                        (crate::event::SlotState {
                            owner: None,
                            value: old(mgr).slots@[old(self).ev_slot() as int].value,
                        }),
                    )
                } else {
                    &&& final(self).event == old(self).event
                    &&& final(self).last_submitted == old(self).last_submitted
                    &&& final(self).last_completed == Some(stamp)
                    &&& *final(mgr) == *old(mgr)
                }
            }),
    {
        let slot = match &self.event {
            None => {
                return (Vec::new(), true);
            },
            Some((s, _)) => *s,
        };
        let stamp = mgr.current(slot);
        let lc0 = match &self.last_completed {
            Some(v) => *v,
            None => EventValue { raw: 0 },
        };
        let d_stamp = stamp.delta_from(&lc0);

        let ghost pre = *self;

        let mut n: usize = 0;
        while n < self.pending.len() && self.pending[n].value.delta_from(&lc0) <= d_stamp
            invariant
                *self == pre,
                lc0 == pre.lc_val(),
                d_stamp == circ_diff(stamp.raw, pre.lc_val().raw),
                n <= self.pending.len(),
                forall|j: int| 0 <= j < n ==> #[trigger] pre.pdiff(j) <= d_stamp,
            decreases self.pending.len() - n,
        {
            n = n + 1;
        }

        proof {
            // The retired prefix is covered; whatever stays is beyond
            // the stamp, which also rebases the window to the stamp.
            if (n as int) < pre.pending.len() {
                assert forall|i: int| n <= i < pre.pending.len() implies #[trigger] pre.pdiff(i)
                    > d_stamp by {
                    assert(pre.pdiff(n as int) <= pre.pdiff(i));
                }
            }
            assert forall|i: int| n <= i < pre.pending.len() implies circ_diff(
                pre.pending@[i].value.raw,
                stamp.raw,
            ) == pre.pdiff(i) - d_stamp by {
                assert(pre.pdiff(i) > d_stamp);
                crate::event::lemma_circ_rebase(pre.pending@[i].value.raw, stamp.raw, lc0.raw);
            }
            crate::event::lemma_circ_rebase(pre.ls_val().raw, stamp.raw, lc0.raw);
        }

        if n == 0 {
            self.last_completed = Some(stamp);
            proof {
                assert forall|i: int| 0 <= i < self.pending.len() implies 1 <= #[trigger] self.pdiff(
                    i,
                ) <= self.busy() by {
                    assert(pre.pdiff(i) > d_stamp);
                }
                assert forall|i: int, j: int|
                    0 <= i <= j < self.pending.len() implies #[trigger] self.pdiff(i)
                        <= #[trigger] self.pdiff(j) by {
                    assert(pre.pdiff(i) <= pre.pdiff(j));
                    assert(pre.pdiff(i) > d_stamp);
                    assert(pre.pdiff(j) > d_stamp);
                }
            }
            let empty = self.pending.len() == 0;
            return (Vec::new(), empty);
        }

        let last_wptr = self.pending[n - 1].wptr;

        let mut tail = self.pending.split_off(n);
        core::mem::swap(&mut self.pending, &mut tail);
        let mut retired = tail;

        let mut k: usize = 0;
        while k < retired.len()
            invariant
                k <= retired.len(),
                retired.len() == n,
                n <= pre.pending.len(),
                forall|i: int|
                    0 <= i < k ==> retired@[i] == (SubmittedWork {
                        completed: true,
                        ..pre.pending@[i]
                    }),
                forall|i: int| k <= i < n ==> retired@[i] == pre.pending@[i],
                forall|i: int| 0 <= i < pre.pending.len() ==> !(#[trigger] pre.pending@[i]).completed,
            decreases retired.len() - k,
        {
            let mut cmd = retired[k];
            cmd.complete();
            retired.set(k, cmd);
            k = k + 1;
        }

        self.state.cpu_freeptr = last_wptr;
        self.completed_seq = self.completed_seq + (n as u64);
        self.last_completed = Some(stamp);

        proof {
            // A stamp equal to the newest completion covers nothing:
            // the first pending value already lies beyond it.
            crate::event::lemma_circ_diff_self(lc0.raw);
            assert(pre.pdiff(0) <= d_stamp);
            assert(1 <= pre.pdiff(0));
            assert(self.pending@ =~= pre.pending@.skip(n as int));
            assert forall|i: int| 0 <= i < self.pending.len() implies 1 <= #[trigger] self.pdiff(i)
                <= self.busy() by {
                assert(self.pending@[i] == pre.pending@[n + i]);
                assert(pre.pdiff(n + i) > d_stamp);
            }
            assert forall|i: int, j: int|
                0 <= i <= j < self.pending.len() implies #[trigger] self.pdiff(i)
                    <= #[trigger] self.pdiff(j) by {
                assert(self.pending@[i] == pre.pending@[n + i]);
                assert(self.pending@[j] == pre.pending@[n + j]);
                assert(pre.pdiff(n + i) <= pre.pdiff(n + j));
                assert(pre.pdiff(n + i) > d_stamp);
            }
            assert forall|i: int| 0 <= i < self.pending.len() implies !(
            #[trigger] self.pending@[i]).completed && (#[trigger] self.pending@[i]).gpu_va != 0 && (
            #[trigger] self.pending@[i]).wptr < self.size by {
                assert(self.pending@[i] == pre.pending@[n + i]);
            }
        }

        let mut empty = self.pending.len() == 0;
        if empty && self.pending_jobs == 0 {
            self.event = None;
            self.last_submitted = None;
            self.last_completed = None;
            mgr.release(slot);
        }
        (retired, empty)
    }

    /// Tag every pending command whose stamp value the threshold covers
    /// as failed. Tagging does not retire: retirement still happens
    /// through `signal` when the firmware resumes. A fault whose
    /// culprit ran under another address-space binding demotes to
    /// `Killed` on that record.
    pub fn mark_error(&mut self, threshold: EventValue, error: WorkError) -> (n: usize)
        requires
            old(self).inv(),
        ensures
            final(self).inv(),
            n <= old(self).pending.len(),
            forall|i: int|
                0 <= i < n ==> final(self).pending@[i] == (SubmittedWork {
                    error: Some(spec_mark(old(self).pending@[i].vm_slot, error)),
                    ..old(self).pending@[i]
                }),
            forall|i: int|
                n <= i < old(self).pending.len() ==> final(self).pending@[i] == old(
                    self,
                ).pending@[i],
            forall|i: int|
                0 <= i < n ==> value_le(old(self).pending@[i].value, threshold),
            n < old(self).pending.len() ==> !value_le(old(self).pending@[n as int].value, threshold),
            final(self).pending.len() == old(self).pending.len(),
            *final(self) == (WorkQueue { pending: final(self).pending, ..*old(self) }),
    {
        let ghost pre = *self;
        let mut i: usize = 0;
        while i < self.pending.len() && self.pending[i].value.le(&threshold)
            invariant
                pre.inv(),
                i <= self.pending.len(),
                self.pending.len() == pre.pending.len(),
                forall|j: int|
                    0 <= j < i ==> self.pending@[j] == (SubmittedWork {
                        error: Some(spec_mark(pre.pending@[j].vm_slot, error)),
                        ..pre.pending@[j]
                    }),
                forall|j: int| i <= j < self.pending.len() ==> self.pending@[j] == pre.pending@[j],
                forall|j: int| 0 <= j < i ==> value_le(pre.pending@[j].value, threshold),
                *self == (WorkQueue { pending: self.pending, ..pre }),
            decreases self.pending.len() - i,
        {
            let mut cmd = self.pending[i];
            cmd.mark_error(error);
            self.pending.set(i, cmd);
            i = i + 1;
        }
        proof {
            assert forall|k: int| 0 <= k < self.pending.len() implies 1 <= #[trigger] self.pdiff(k)
                <= self.busy() && !(#[trigger] self.pending@[k]).completed && (
            #[trigger] self.pending@[k]).gpu_va != 0 && (#[trigger] self.pending@[k]).wptr
                < self.size by {
                assert(1 <= pre.pdiff(k) <= pre.busy());
                assert(!pre.pending@[k].completed);
            }
            assert forall|k: int, l: int|
                0 <= k <= l < self.pending.len() implies #[trigger] self.pdiff(k)
                    <= #[trigger] self.pdiff(l) by {
                assert(pre.pdiff(k) <= pre.pdiff(l));
            }
        }
        i
    }

    /// Tag every pending command as failed, then retire all of them
    /// synchronously: before this returns, every command that was
    /// pending has completed exactly once with `Some(error)` (demoted
    /// to `Killed` where a fault belongs to another address-space
    /// binding), and the pending list is empty.
    ///
    /// The queue transitions to idle: the event slot drops as soon as
    /// no job holds the queue. While jobs are still live the slot must
    /// stay (an idle queue by definition has no live jobs); the last
    /// job's drop then releases it.
    pub fn fail_all(&mut self, mgr: &mut EventManager, error: WorkError) -> (r: Vec<SubmittedWork>)
        requires
            old(self).inv(),
            old(self).owns(*old(mgr)),
            old(mgr).inv(),
        ensures
            final(self).inv(),
            final(mgr).inv(),
            final(self).owns(*final(mgr)),
            final(self).pending.len() == 0,
            final(self).pending_jobs == old(self).pending_jobs,
            final(self).completed_seq == old(self).completed_seq + old(self).pending.len(),
            final(self).commit_seq == old(self).commit_seq,
            final(self).submit_seq == old(self).submit_seq,
            final(self).event_seq == old(self).event_seq,
            final(self).ring@ == old(self).ring@,
            final(self).wptr == old(self).wptr,
            final(self).state == old(self).state,
            final(self).new == old(self).new,
            final(self).last_token == old(self).last_token,
            // every previously-pending command completed with the error
            r.len() == old(self).pending.len(),
            forall|i: int|
                0 <= i < r.len() ==> r@[i] == (SubmittedWork {
                    completed: true,
                    error: Some(spec_mark(old(self).pending@[i].vm_slot, error)),
                    ..old(self).pending@[i]
                }),
            final(self).event is None <==> old(self).pending_jobs == 0,
            old(self).pending_jobs == 0 && old(self).event is Some ==> final(mgr).slots@ == old(
                mgr,
            ).slots@.update(
                old(self).ev_slot() as int,
                (crate::event::SlotState {
                    owner: None,
                    value: old(mgr).slots@[old(self).ev_slot() as int].value,
                }),
            ) && final(self).last_submitted is None && final(self).last_completed is None,
            old(self).pending_jobs > 0 ==> final(self).event == old(self).event
                && final(self).last_submitted == old(self).last_submitted
                && final(self).last_completed == old(self).last_completed
                && *final(mgr) == *old(mgr),
            old(self).event is None ==> *final(mgr) == *old(mgr),
    {
        let ghost pre = *self;

        let mut tail: Vec<SubmittedWork> = Vec::new();
        core::mem::swap(&mut self.pending, &mut tail);
        let mut failed = tail;

        let mut k: usize = 0;
        while k < failed.len()
            invariant
                k <= failed.len(),
                failed.len() == pre.pending.len(),
                forall|i: int|
                    0 <= i < k ==> failed@[i] == (SubmittedWork {
                        completed: true,
                        error: Some(spec_mark(pre.pending@[i].vm_slot, error)),
                        ..pre.pending@[i]
                    }),
                forall|i: int| k <= i < failed.len() ==> failed@[i] == pre.pending@[i],
            decreases failed.len() - k,
        {
            let mut cmd = failed[k];
            cmd.mark_error(error);
            cmd.complete();
            failed.set(k, cmd);
            k = k + 1;
        }

        self.completed_seq = self.completed_seq + (failed.len() as u64);

        if self.pending_jobs == 0 {
            if let Some((slot, _)) = &self.event {
                let s = *slot;
                self.event = None;
                self.last_submitted = None;
                self.last_completed = None;
                mgr.release(s);
            }
        }
        failed
    }

    pub fn pipe_type(&self) -> (r: PipeType)
        ensures
            r == self.pipe_type,
    {
        self.pipe_type
    }

    pub fn priority(&self) -> (r: u32)
        ensures
            r == self.priority,
    {
        self.priority
    }

    pub fn info_pointer(&self) -> (r: u64)
        ensures
            r == self.info_pointer,
    {
        self.info_pointer
    }
}

} // verus!
