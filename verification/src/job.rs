//! The transactional job lifecycle: build a batch of commands against a
//! queue, commit it atomically, then submit it by writing the ring and
//! announcing the new producer pointer to the firmware.

use vstd::prelude::*;
use crate::channel::{PipeChannel, RunWorkQueueMsg};
use crate::event::{circ_diff, EventManager, EventValue};
use crate::event::{lemma_circ_add, lemma_circ_diff_self, lemma_circ_diff_sub, lemma_circ_sub_back,
    lemma_mod_index_distinct};
use crate::fence::Fence;
use crate::workqueue::{SubmittedWork, WorkQueue};
use crate::DriverError;

verus! {

/// Snapshot of a queue's event bookkeeping handed to command builders.
#[derive(Clone, Copy, Debug, PartialEq, Eq, Structural)]
pub struct QueueEventInfo {
    /// The owned event slot.
    pub slot: u32,
    /// The stamp value the batch has reached.
    pub value: EventValue,
    /// Command count at the snapshot.
    pub cmd_seq: u64,
    /// Event count at the snapshot.
    pub event_seq: u64,
    /// GPU address of the queue-info structure.
    pub info_ptr: u64,
}

/// A batch of commands built against one work queue.
///
/// Phase 1 builds the batch: each `add` reserves the next event value
/// for its command; `next_seq` reserves one more for a sub-stage.
/// Phase 2a (`commit`) advances the queue's committed counters
/// atomically; phase 2b (`submit`) writes the ring. A job dropped
/// before commit leaves the queue untouched; dropped after commit but
/// before submit, it rolls the committed counters back (`cancel`).
pub struct Job {
    /// Id of the queue the job was built against.
    pub wq_id: u64,
    /// Event bookkeeping at creation; `value` advances as the job
    /// reserves events.
    pub event_info: QueueEventInfo,
    /// The queue's committed stamp value when the job was created.
    pub start_value: EventValue,
    /// Commands of the batch, not yet on the queue.
    pub pending: Vec<SubmittedWork>,
    pub committed: bool,
    pub submitted: bool,
    /// Event values this job has reserved.
    pub event_count: usize,
    /// Completion fence of the batch.
    pub fence: Fence,
}

/// Upper bound on events one job may reserve; keeps wrap-respecting
/// stamp comparisons meaningful.
pub const MAX_JOB_EVENTS: usize = 0x7fff_0000;

impl Job {
    /// Forward distance of command `i`'s stamp value from the job's
    /// starting value.
    pub open spec fn jdiff(self, i: int) -> int {
        circ_diff(self.pending@[i].value.raw, self.start_value.raw)
    }

    /// Well-formedness of a batch under construction: every command
    /// sits at a distinct, increasing event value within the span the
    /// job has reserved.
    pub open spec fn wf(self) -> bool {
        &&& self.event_count <= MAX_JOB_EVENTS
        &&& self.pending.len() <= self.event_count
        &&& circ_diff(self.event_info.value.raw, self.start_value.raw) == self.event_count
        &&& (forall|i: int|
            0 <= i < self.pending.len() ==> 1 <= #[trigger] self.jdiff(i) <= self.event_count)
        &&& (forall|i: int, j: int|
            0 <= i < j < self.pending.len() ==> #[trigger] self.jdiff(i) < #[trigger] self.jdiff(j))
        &&& (forall|i: int| 0 <= i < self.pending.len() ==> !(#[trigger] self.pending@[i]).completed)
        &&& (forall|i: int|
            0 <= i < self.pending.len() ==> (#[trigger] self.pending@[i]).error is None)
        &&& (forall|i: int| 0 <= i < self.pending.len() ==> (#[trigger] self.pending@[i]).gpu_va != 0)
    }

    /// Jobs with the same command list and starting value agree on
    /// every command's position within the reserved span.
    pub proof fn lemma_jdiff_unchanged(a: Job, b: Job)
        requires
            b.pending@ == a.pending@,
            b.start_value == a.start_value,
        ensures
            forall|i: int| 0 <= i < a.pending.len() ==> #[trigger] b.jdiff(i) == a.jdiff(i),
    {
    }

    /// The event bookkeeping the batch will have reached once done:
    /// the snapshot advanced by this job's commands and events.
    pub fn event_info(&self) -> (r: QueueEventInfo)
        requires
            self.event_info.cmd_seq + self.pending.len() <= u64::MAX,
            self.event_info.event_seq + self.event_count <= u64::MAX,
        ensures
            r == (QueueEventInfo {
                cmd_seq: (self.event_info.cmd_seq + self.pending.len()) as u64,
                event_seq: (self.event_info.event_seq + self.event_count) as u64,
                ..self.event_info
            }),
    {
        QueueEventInfo {
            slot: self.event_info.slot,
            value: self.event_info.value,
            cmd_seq: self.event_info.cmd_seq + self.pending.len() as u64,
            event_seq: self.event_info.event_seq + self.event_count as u64,
            info_ptr: self.event_info.info_ptr,
        }
    }

    /// Reserve one more event value for the current command (a
    /// sub-stage of its execution).
    pub fn next_seq(&mut self)
        requires
            old(self).wf(),
            old(self).event_count < MAX_JOB_EVENTS,
        ensures
            final(self).wf(),
            *final(self) == (Job {
                event_count: (old(self).event_count + 1) as usize,
                event_info: (QueueEventInfo {
                    value: old(self).event_info.value.spec_next(),
                    ..old(self).event_info
                }),
                ..*old(self)
            }),
    {
        let ghost pre = *self;
        self.event_count = self.event_count + 1;
        let next = self.event_info.value.next();
        proof {
            lemma_circ_add(next.raw, pre.event_info.value.raw, pre.start_value.raw);
        }
        self.event_info.value = next;
        proof {
            Self::lemma_jdiff_unchanged(pre, *self);
        }
    }

    /// Append a command to the batch: the command takes the next event
    /// value, whose publication by the firmware will retire it.
    ///
    /// Fails with `Invalid` on a job already committed.
    pub fn add(&mut self, gpu_va: u64, vm_slot: u32) -> (r: Result<(), DriverError>)
        requires
            old(self).wf(),
            old(self).event_count < MAX_JOB_EVENTS,
            gpu_va != 0,
        ensures
            final(self).wf(),
            old(self).committed ==> r == Err::<(), DriverError>(DriverError::Invalid)
                && *final(self) == *old(self),
            !old(self).committed ==> r is Ok && *final(self) == (Job {
                event_count: (old(self).event_count + 1) as usize,
                event_info: (QueueEventInfo {
                    value: old(self).event_info.value.spec_next(),
                    ..old(self).event_info
                }),
                pending: final(self).pending,
                ..*old(self)
            }) && final(self).pending@ == old(self).pending@.push(
                (SubmittedWork {
                    gpu_va,
                    value: old(self).event_info.value.spec_next(),
                    error: None,
                    wptr: 0,
                    vm_slot,
                    fence: old(self).fence,
                    completed: false,
                }),
            ),
    {
        if self.committed {
            return Err(DriverError::Invalid);
        }
        let ghost pre = *self;
        let value = self.event_info.value.next();
        proof {
            lemma_circ_add(value.raw, pre.event_info.value.raw, pre.start_value.raw);
        }
        self.event_info.value = value;
        self.event_count = self.event_count + 1;
        self.pending.push(
            SubmittedWork {
                gpu_va,
                value,
                error: None,
                wptr: 0,
                vm_slot,
                fence: self.fence,
                completed: false,
            },
        );
        proof {
            assert forall|i: int| 0 <= i < self.pending.len() implies 1 <= #[trigger] self.jdiff(i)
                <= self.event_count by {
                if i < pre.pending.len() {
                    assert(self.pending@[i] == pre.pending@[i]);
                    assert(pre.jdiff(i) <= pre.event_count);
                }
            }
            assert forall|i: int, j: int|
                0 <= i < j < self.pending.len() implies #[trigger] self.jdiff(i)
                    < #[trigger] self.jdiff(j) by {
                if j < pre.pending.len() {
                    assert(pre.jdiff(i) < pre.jdiff(j));
                } else {
                    assert(self.jdiff(i) <= pre.event_count);
                }
            }
        }
        Ok(())
    }

    /// Commit the batch: verify no other job committed in the interval
    /// (the queue's committed value must still be this job's starting
    /// value), then advance the committed stamp value and the commit
    /// and event counters atomically.
    pub fn commit(&mut self, wq: &mut WorkQueue) -> (r: Result<(), DriverError>)
        requires
            old(wq).inv(),
            old(self).wf(),
            old(self).wq_id == old(wq).id,
            old(wq).event is Some,
            old(wq).pending_jobs > 0,
            old(wq).commit_seq + old(self).pending.len() <= u64::MAX,
            old(wq).event_seq + old(self).event_count <= u64::MAX,
        ensures
            final(wq).inv(),
            final(self).wf(),
            r is Err <==> old(self).committed || old(self).pending.len() == 0 || old(
                wq,
            ).ev_value() != old(self).start_value,
            r is Err ==> r == Err::<(), DriverError>(DriverError::Invalid) && *final(self) == *old(
                self,
            ) && *final(wq) == *old(wq),
            r is Ok ==> {
                &&& *final(self) == (Job { committed: true, ..*old(self) })
                &&& *final(wq) == (WorkQueue {
                    event: Some((old(wq).ev_slot(), old(self).event_info.value)),
                    commit_seq: (old(wq).commit_seq + old(self).pending.len()) as u64,
                    event_seq: (old(wq).event_seq + old(self).event_count) as u64,
                    ..*old(wq)
                })
            },
    {
        if self.committed {
            return Err(DriverError::Invalid);
        }
        if self.pending.len() == 0 {
            return Err(DriverError::Invalid);
        }
        let (slot, ev_value) = match &wq.event {
            Some((s, v)) => (*s, *v),
            None => {
                return Err(DriverError::Invalid);
            },
        };
        if ev_value != self.start_value {
            return Err(DriverError::Invalid);
        }
        let ghost pre_wq = *wq;
        let ghost pre = *self;
        wq.event = Some((slot, self.event_info.value));
        wq.commit_seq = wq.commit_seq + self.pending.len() as u64;
        wq.event_seq = wq.event_seq + self.event_count as u64;
        self.committed = true;
        proof {
            Self::lemma_jdiff_unchanged(pre, *self);
            WorkQueue::lemma_pdiff_unchanged(pre_wq, *wq);
        }
        Ok(())
    }

    /// Submit the committed batch: write each command's GPU address
    /// into the ring in order, record the assigned ring index on the
    /// command, and append the commands to the queue's pending list.
    /// The producer pointer is only published by `JobSubmission::run`;
    /// until then (or until `JobSubmission::rollback`) the queue stays
    /// in the staged state.
    ///
    /// Out-of-order or double submission fails with `Invalid`; a batch
    /// that does not fit the ring or the event window fails with `Busy`.
    pub fn submit(&mut self, wq: &mut WorkQueue) -> (r: Result<JobSubmission, DriverError>)
        requires
            old(wq).inv(),
            old(self).wf(),
            old(self).wq_id == old(wq).id,
            old(wq).event is Some,
            old(wq).pending_jobs > 0,
        ensures
            final(self).wf(),
            r is Err ==> *final(self) == *old(self) && *final(wq) == *old(wq) && final(wq).inv(),
            ({
                let invalid = !old(self).committed || old(self).submitted || old(
                    self,
                ).pending.len() == 0 || old(wq).submit_seq != old(self).event_info.cmd_seq || old(
                    wq,
                ).commit_seq < old(self).event_info.cmd_seq + old(self).pending.len() || old(
                    wq,
                ).last_submitted != Some(old(self).start_value);
                let busy_ring = old(wq).size - old(wq).pending.len() - 1 <= old(self).pending.len();
                let busy_slots = crate::workqueue::MAX_JOB_SLOTS - old(wq).busy() <= old(
                    self,
                ).event_count;
                &&& (r == Err::<JobSubmission, DriverError>(DriverError::Invalid) <==> invalid)
                &&& (r == Err::<JobSubmission, DriverError>(DriverError::Busy) <==> !invalid && (
                busy_ring || busy_slots))
                &&& (r is Ok <==> !invalid && !busy_ring && !busy_slots)
            }),
            r matches Ok(sub) ==> {
                let count = old(self).pending.len() as int;
                &&& sub.command_count == count
                &&& sub.event_count == old(self).event_count
                &&& sub.wptr == (old(wq).wptr + count) % (old(wq).size as int)
                &&& final(wq).inv_staged(count)
                &&& *final(self) == (Job {
                    submitted: true,
                    pending: final(self).pending,
                    ..*old(self)
                })
                &&& final(self).pending.len() == 0
                &&& final(wq).pending.len() == old(wq).pending.len() + count
                &&& (forall|i: int|
                    0 <= i < old(wq).pending.len() ==> final(wq).pending@[i] == old(
                        wq,
                    ).pending@[i])
                &&& (forall|k: int|
                    0 <= k < count ==> #[trigger] final(wq).pending@[old(wq).pending.len() + k]
                        == (SubmittedWork {
                        wptr: (((old(wq).wptr + k) % (old(wq).size as int)) as u32),
                        ..old(self).pending@[k]
                    }))
                &&& (forall|k: int|
                    0 <= k < count ==> final(wq).ring@[(old(wq).wptr + k) % (old(wq).size as int)]
                        == (#[trigger] old(self).pending@[k]).gpu_va)
                &&& final(wq).last_submitted == Some(old(self).event_info.value)
                &&& final(wq).busy() == old(wq).busy() + old(self).event_count
                &&& *final(wq) == (WorkQueue {
                    ring: final(wq).ring,
                    pending: final(wq).pending,
                    last_submitted: final(wq).last_submitted,
                    ..*old(wq)
                })
            },
    {
        if !self.committed {
            return Err(DriverError::Invalid);
        }
        if self.submitted {
            return Err(DriverError::Invalid);
        }
        if self.pending.len() == 0 {
            return Err(DriverError::Invalid);
        }
        if wq.submit_seq != self.event_info.cmd_seq {
            return Err(DriverError::Invalid);
        }
        if wq.commit_seq - wq.submit_seq < self.pending.len() as u64 {
            return Err(DriverError::Invalid);
        }
        let ls_ok = match &wq.last_submitted {
            Some(v) => *v == self.start_value,
            None => false,
        };
        if !ls_ok {
            return Err(DriverError::Invalid);
        }
        if wq.free_space() <= self.pending.len() {
            return Err(DriverError::Busy);
        }
        if wq.free_slots() <= self.event_count as u64 {
            return Err(DriverError::Busy);
        }

        let ghost wq0 = *wq;
        let ghost job0 = *self;
        let count = self.pending.len();
        let mut w: u32 = wq.wptr;
        proof {
            vstd::arithmetic::div_mod::lemma_small_mod(wq0.wptr as nat, wq0.size as nat);
        }
        let mut k: usize = 0;
        while k < count
            invariant
                wq0.inv(),
                job0.wf(),
                k <= count,
                count == job0.pending.len(),
                count < wq0.size - wq0.pending.len(),
                *self == job0,
                w == (wq0.wptr + k) % (wq0.size as int),
                wq.pending.len() == wq0.pending.len() + k,
                forall|i: int| 0 <= i < wq0.pending.len() ==> wq.pending@[i] == wq0.pending@[i],
                forall|j: int|
                    0 <= j < k ==> #[trigger] wq.pending@[wq0.pending.len() + j] == (SubmittedWork {
                        wptr: (((wq0.wptr + j) % (wq0.size as int)) as u32),
                        ..job0.pending@[j]
                    }),
                wq.ring.len() == wq0.size,
                forall|j: int|
                    0 <= j < k ==> wq.ring@[(wq0.wptr + j) % (wq0.size as int)]
                        == (#[trigger] job0.pending@[j]).gpu_va,
                *wq == (WorkQueue { ring: wq.ring, pending: wq.pending, ..wq0 }),
            decreases count - k,
        {
            proof {
                vstd::arithmetic::div_mod::lemma_mod_division_less_than_divisor(
                    wq0.wptr + k,
                    wq0.size as int,
                );
            }
            let mut cmd = self.pending[k];
            cmd.set_wptr(w);
            wq.ring.set(w as usize, cmd.gpu_va);
            proof {
                assert forall|j: int|
                    0 <= j < k implies #[trigger] ((wq0.wptr + j) % (wq0.size as int)) != (wq0.wptr
                    + k) % (wq0.size as int) by {
                    lemma_mod_index_distinct(wq0.wptr as int, j, k as int, wq0.size as int);
                }
            }
            w = if w + 1 == wq.size {
                0
            } else {
                w + 1
            };
            proof {
                vstd::arithmetic::div_mod::lemma_mod_division_less_than_divisor(
                    wq0.wptr + k,
                    wq0.size as int,
                );
                vstd::arithmetic::div_mod::lemma_add_mod_noop(
                    wq0.wptr + k,
                    1,
                    wq0.size as int,
                );
                vstd::arithmetic::div_mod::lemma_small_mod(1, wq0.size as nat);
                if ((wq0.wptr + k) % (wq0.size as int)) + 1 == wq0.size {
                    vstd::arithmetic::div_mod::lemma_mod_self_0(wq0.size as int);
                } else {
                    vstd::arithmetic::div_mod::lemma_small_mod(
                        (((wq0.wptr + k) % (wq0.size as int)) + 1) as nat,
                        wq0.size as nat,
                    );
                }
            }
            wq.pending.push(cmd);
            k = k + 1;
        }

        self.pending = Vec::new();
        wq.last_submitted = Some(self.event_info.value);
        self.submitted = true;

        proof {
            let m = wq0.pending.len() as int;
            let lc = wq0.lc_val().raw;
            let start = job0.start_value.raw;
            // Every new command's window position is the old window plus
            // its offset within the batch; the window grows by exactly
            // the batch's reserved events.
            lemma_circ_add(job0.event_info.value.raw, start, lc);
            assert forall|j: int| 0 <= j < count implies #[trigger] wq.pdiff(m + j) == wq0.busy()
                + job0.jdiff(j) by {
                assert(wq.pending@[m + j].value == job0.pending@[j].value);
                assert(1 <= job0.jdiff(j) <= job0.event_count);
                lemma_circ_add(job0.pending@[j].value.raw, start, lc);
            }
            WorkQueue::lemma_pdiff_unchanged(
                wq0,
                WorkQueue { ring: wq.ring, pending: wq0.pending, last_submitted: wq.last_submitted, ..wq0 },
            );
            assert forall|i: int| 0 <= i < m implies #[trigger] wq.pdiff(i) == wq0.pdiff(i) by {
                assert(wq.pending@[i] == wq0.pending@[i]);
            }
            assert forall|i: int, j: int|
                0 <= i <= j < wq.pending.len() implies #[trigger] wq.pdiff(i) <= #[trigger] wq.pdiff(
                j,
            ) by {
                if j < m {
                    assert(wq0.pdiff(i) <= wq0.pdiff(j));
                } else if i >= m {
                    assert(wq.pdiff(m + (i - m)) == wq0.busy() + job0.jdiff(i - m));
                    assert(wq.pdiff(m + (j - m)) == wq0.busy() + job0.jdiff(j - m));
                    if i < j {
                        assert(job0.jdiff(i - m) < job0.jdiff(j - m));
                    }
                } else {
                    assert(wq0.pdiff(i) <= wq0.busy());
                    assert(wq.pdiff(m + (j - m)) == wq0.busy() + job0.jdiff(j - m));
                    assert(1 <= job0.jdiff(j - m));
                }
            }
            assert forall|i: int|
                0 <= i < wq.pending.len() implies 1 <= #[trigger] wq.pdiff(i) <= wq.busy() by {
                if i < m {
                    assert(wq.pending@[i] == wq0.pending@[i]);
                    assert(1 <= wq0.pdiff(i) <= wq0.busy());
                } else {
                    assert(wq.pdiff(m + (i - m)) == wq0.busy() + job0.jdiff(i - m));
                    assert(1 <= job0.jdiff(i - m) <= job0.event_count);
                }
            }
            assert forall|i: int|
                0 <= i < wq.pending.len() implies !(#[trigger] wq.pending@[i]).completed
                && wq.pending@[i].gpu_va != 0 && wq.pending@[i].wptr < wq.size by {
                if i < m {
                    assert(wq.pending@[i] == wq0.pending@[i]);
                    assert(wq0.pdiff(i) >= 1);
                    assert(!wq0.pending@[i].completed);
                    assert(wq0.pending@[i].gpu_va != 0);
                    assert(wq0.pending@[i].wptr < wq0.size);
                } else {
                    assert(wq.pending@[m + (i - m)] == (SubmittedWork {
                        wptr: (((wq0.wptr + (i - m)) % (wq0.size as int)) as u32),
                        ..job0.pending@[i - m]
                    }));
                    assert(wq.pdiff(m + (i - m)) == wq0.busy() + job0.jdiff(i - m));
                    assert(1 <= job0.jdiff(i - m) <= job0.event_count);
                    assert(!job0.pending@[i - m].completed);
                    assert(job0.pending@[i - m].gpu_va != 0);
                    vstd::arithmetic::div_mod::lemma_mod_division_less_than_divisor(
                        wq0.wptr + (i - m),
                        wq0.size as int,
                    );
                }
            }
        }

        Ok(JobSubmission { wptr: w, command_count: count, event_count: self.event_count })
    }

    /// Whether the batch fits the ring and the event window right now:
    /// `None` when it does, otherwise the fence of the oldest pending
    /// command, which the caller should wait on before retrying.
    pub fn can_submit(&self, wq: &WorkQueue) -> (r: Option<Fence>)
        requires
            wq.inv(),
        ensures
            ({
                let fits = (if wq.event is Some {
                    crate::workqueue::MAX_JOB_SLOTS - wq.busy()
                } else {
                    crate::workqueue::MAX_JOB_SLOTS as int
                }) > self.event_count && wq.size - wq.pending.len() - 1 > self.pending.len();
                &&& fits ==> r is None
                &&& !fits && wq.pending.len() > 0 ==> r == Some(wq.pending@[0].fence)
                &&& !fits && wq.pending.len() == 0 ==> r is None
            }),
    {
        let slots = wq.free_slots();
        let space = wq.free_space();
        if slots > self.event_count as u64 && space > self.pending.len() {
            None
        } else if wq.pending.len() > 0 {
            let first = &wq.pending[0];
            Some(first.get_fence())
        } else {
            None
        }
    }

    /// Drop the job: return its hold on the queue. An uncommitted job
    /// leaves the queue untouched; a committed-but-not-submitted job
    /// rolls the committed stamp value and the commit and event
    /// counters back to what they were before the job was created. The
    /// event slot drops once the queue is idle.
    pub fn cancel(self, wq: &mut WorkQueue, mgr: &mut EventManager)
        requires
            old(wq).inv(),
            self.wf(),
            self.wq_id == old(wq).id,
            old(wq).event is Some,
            old(wq).pending_jobs > 0,
            old(wq).owns(*old(mgr)),
            old(mgr).inv(),
            // underflow guards: a committed, unsubmitted batch is still
            // accounted among the queue's committed-not-submitted
            // commands and reserved events
            self.committed && !self.submitted ==> {
                &&& old(wq).submit_seq + self.pending.len() <= old(wq).commit_seq
                &&& old(wq).event_seq >= self.event_count
            },
        ensures
            final(wq).inv(),
            final(mgr).inv(),
            final(wq).owns(*final(mgr)),
            final(wq).pending_jobs == old(wq).pending_jobs - 1,
            final(wq).pending@ == old(wq).pending@,
            final(wq).completed_seq == old(wq).completed_seq,
            final(wq).submit_seq == old(wq).submit_seq,
            // dropping a job never touches the ring or its pointers:
            // nothing of the batch was ever written there
            final(wq).ring@ == old(wq).ring@,
            final(wq).wptr == old(wq).wptr,
            final(wq).state == old(wq).state,
            final(wq).new == old(wq).new,
            final(wq).last_token == old(wq).last_token,
            final(wq).pipe_type == old(wq).pipe_type,
            final(wq).priority == old(wq).priority,
            final(wq).id == old(wq).id,
            final(wq).info_pointer == old(wq).info_pointer,
            final(wq).size == old(wq).size,
            // a committed, never-submitted job rolls the committed
            // counters and the committed stamp value back by exactly
            // what it added; when its commit was the newest, that is
            // their value at the job's creation
            self.committed && !self.submitted ==> {
                &&& final(wq).commit_seq == old(wq).commit_seq - self.pending.len()
                &&& (old(wq).commit_seq == self.event_info.cmd_seq + self.pending.len()
                    ==> final(wq).commit_seq == self.event_info.cmd_seq)
                &&& final(wq).event_seq == old(wq).event_seq - self.event_count
                &&& (final(wq).event is Some ==> final(wq).ev_value()
                    == old(wq).ev_value().spec_sub(self.event_count as u32))
                &&& (final(wq).event is Some && old(wq).ev_value() == self.event_info.value
                    ==> final(wq).ev_value() == self.start_value)
            },
            !(self.committed && !self.submitted) ==> final(wq).commit_seq == old(wq).commit_seq
                && final(wq).event_seq == old(wq).event_seq && (final(wq).event is Some
                ==> final(wq).event == old(wq).event),
            final(wq).event is None <==> (old(wq).pending.len() == 0 && old(wq).pending_jobs == 1),
            final(wq).event is Some ==> final(wq).last_submitted == old(wq).last_submitted
                && final(wq).last_completed == old(wq).last_completed && *final(mgr) == *old(mgr),
            final(wq).event is None ==> final(mgr).slots@ == old(mgr).slots@.update(
                old(wq).ev_slot() as int,
                (crate::event::SlotState {
                    owner: None,
                    value: old(mgr).slots@[old(wq).ev_slot() as int].value,
                }),
            ),
    {
        let ghost wq0 = *wq;
        if self.committed && !self.submitted {
            let (slot, ev_value) = match &wq.event {
                Some((s, v)) => (*s, *v),
                None => (0, EventValue { raw: 0 }),
            };
            let mut rolled = ev_value;
            rolled.sub(self.event_count as u32);
            proof {
                lemma_circ_sub_back(
                    self.event_info.value.raw,
                    self.start_value.raw,
                    self.event_count as u32,
                );
            }
            wq.event = Some((slot, rolled));
            wq.commit_seq = wq.commit_seq - self.pending.len() as u64;
            wq.event_seq = wq.event_seq - self.event_count as u64;
        }
        wq.pending_jobs = wq.pending_jobs - 1;

        if wq.pending.len() == 0 && wq.pending_jobs == 0 {
            if let Some((slot, _)) = &wq.event {
                let s = *slot;
                wq.event = None;
                wq.last_submitted = None;
                wq.last_completed = None;
                mgr.release(s);
            }
        }
        proof {
            if wq.event is Some {
                WorkQueue::lemma_pdiff_unchanged(wq0, *wq);
            } else {
                assert(wq0.pending.len() == 0);
            }
        }
    }
}

/// The queue-locked tail of a submission: the ring is written, and this
/// token either publishes the new producer pointer (`run`) or rolls the
/// staged commands back (`rollback`).
pub struct JobSubmission {
    /// Producer pointer after the staged commands.
    pub wptr: u32,
    /// Number of staged commands.
    pub command_count: usize,
    /// Number of events the staged batch reserved.
    pub event_count: usize,
}

impl JobSubmission {
    /// Publish the staged commands: store the new producer pointer with
    /// release semantics, announce the queue to the firmware through
    /// its submission pipe, and advance the submitted-command counter.
    pub fn run(self, wq: &mut WorkQueue, channel: &mut PipeChannel)
        requires
            old(wq).inv_staged(self.command_count as int),
            old(wq).event is Some,
            self.wptr < old(wq).size,
        ensures
            final(wq).inv(),
            final(wq).submit_seq == old(wq).submit_seq + self.command_count,
            final(wq).wptr == self.wptr,
            final(wq).state.cpu_wptr == self.wptr,
            !final(wq).new,
            final(channel).msgs@ == old(channel).msgs@.push(
                (RunWorkQueueMsg {
                    pipe_type: old(wq).pipe_type,
                    work_queue_ptr: old(wq).info_pointer,
                    wptr: self.wptr,
                    event_slot: old(wq).ev_slot(),
                    is_new: old(wq).new,
                }),
            ),
            *final(wq) == (WorkQueue {
                wptr: self.wptr,
                state: (crate::workqueue::RingState {
                    cpu_wptr: self.wptr,
                    ..old(wq).state
                }),
                new: false,
                submit_seq: (old(wq).submit_seq + self.command_count) as u64,
                ..*old(wq)
            }),
    {
        let ghost wq0 = *wq;
        let slot = match &wq.event {
            Some((s, _)) => *s,
            None => 0,
        };
        wq.state.cpu_wptr = self.wptr;
        wq.wptr = self.wptr;
        channel.send(
            RunWorkQueueMsg {
                pipe_type: wq.pipe_type,
                work_queue_ptr: wq.info_pointer,
                wptr: self.wptr,
                event_slot: slot,
                is_new: wq.new,
            },
        );
        wq.new = false;
        wq.submit_seq = wq.submit_seq + self.command_count as u64;
        proof {
            WorkQueue::lemma_pdiff_unchanged(wq0, *wq);
        }
    }

    /// Abandon the staged submission: truncate the staged commands off
    /// the pending list and roll the committed counters and stamp value
    /// back. The ring entries stay; the producer pointer was never
    /// published.
    pub fn rollback(self, wq: &mut WorkQueue)
        requires
            old(wq).inv_staged(self.command_count as int),
            old(wq).event is Some,
            old(wq).pending_jobs > 0,
            self.command_count <= old(wq).pending.len(),
            self.event_count <= 0x7fff_0000,
            old(wq).last_submitted == Some(old(wq).ev_value()),
            old(wq).event_seq >= self.event_count,
            circ_diff(old(wq).ev_value().raw, old(wq).lc_val().raw) >= self.event_count,
            forall|i: int|
                0 <= i < old(wq).pending.len() - self.command_count ==> #[trigger] old(wq).pdiff(i)
                    + self.event_count <= old(wq).busy(),
        ensures
            final(wq).inv(),
            final(wq).pending@ == old(wq).pending@.take(
                old(wq).pending.len() - self.command_count,
            ),
            final(wq).commit_seq == old(wq).commit_seq - self.command_count,
            final(wq).event_seq == old(wq).event_seq - self.event_count,
            final(wq).submit_seq == old(wq).submit_seq,
            final(wq).completed_seq == old(wq).completed_seq,
            final(wq).pending_jobs == old(wq).pending_jobs,
            final(wq).event == Some(
                (old(wq).ev_slot(), old(wq).ev_value().spec_sub(self.event_count as u32)),
            ),
            final(wq).last_submitted == Some(old(wq).ev_value().spec_sub(self.event_count as u32)),
            final(wq).last_completed == old(wq).last_completed,
    {
        let ghost wq0 = *wq;
        let (slot, ev_value) = match &wq.event {
            Some((s, v)) => (*s, *v),
            None => (0, EventValue { raw: 0 }),
        };
        let new_len = wq.pending.len() - self.command_count;
        let _ = wq.pending.split_off(new_len);

        let mut rolled = ev_value;
        rolled.sub(self.event_count as u32);
        wq.event = Some((slot, rolled));
        wq.commit_seq = wq.commit_seq - self.command_count as u64;
        wq.event_seq = wq.event_seq - self.event_count as u64;
        wq.last_submitted = Some(rolled);

        proof {
            lemma_circ_diff_sub(wq0.ev_value().raw, wq0.lc_val().raw, self.event_count as u32);
            assert(wq.pending@ == wq0.pending@.subrange(0, new_len as int));
            assert(wq.pending@ =~= wq0.pending@.take(new_len as int));
            assert forall|i: int| 0 <= i < new_len implies #[trigger] wq.pdiff(i) == wq0.pdiff(i) by {
                assert(wq.pending@[i] == wq0.pending@[i]);
            }
            assert forall|i: int, j: int|
                0 <= i <= j < wq.pending.len() implies #[trigger] wq.pdiff(i) <= #[trigger] wq.pdiff(
                j,
            ) by {
                assert(wq0.pdiff(i) <= wq0.pdiff(j));
            }
            assert forall|i: int|
                0 <= i < wq.pending.len() implies 1 <= #[trigger] wq.pdiff(i) <= wq.busy() && !(
            #[trigger] wq.pending@[i]).completed && (#[trigger] wq.pending@[i]).gpu_va != 0 && (
            #[trigger] wq.pending@[i]).wptr < wq.size by {
                assert(wq0.pdiff(i) + self.event_count <= wq0.busy());
                assert(1 <= wq0.pdiff(i));
                assert(!wq0.pending@[i].completed);
            }
        }
    }
}

impl WorkQueue {
    /// Create a job against this queue. An idle queue first acquires an
    /// event slot, preferring the one it last held; acquisition fails
    /// with `Busy` when every slot is occupied. The job snapshots the
    /// queue's committed value and counters.
    pub fn new_job(&mut self, mgr: &mut EventManager, fence: Fence) -> (r: Result<
        Job,
        DriverError,
    >)
        requires
            old(self).inv(),
            old(self).owns(*old(mgr)),
            old(mgr).inv(),
            old(self).pending_jobs < usize::MAX,
        ensures
            final(mgr).inv(),
            match r {
                Ok(job) => {
                    &&& final(self).inv()
                    &&& final(self).owns(*final(mgr))
                    &&& job.wf()
                    &&& job.wq_id == old(self).id
                    &&& job.pending.len() == 0
                    &&& job.event_count == 0
                    &&& !job.committed
                    &&& !job.submitted
                    &&& job.fence == fence
                    &&& final(self).event is Some
                    &&& job.start_value == final(self).ev_value()
                    &&& job.event_info == (QueueEventInfo {
                        slot: final(self).ev_slot(),
                        value: final(self).ev_value(),
                        cmd_seq: old(self).commit_seq,
                        event_seq: old(self).event_seq,
                        info_ptr: old(self).info_pointer,
                    })
                    &&& final(self).pending_jobs == old(self).pending_jobs + 1
                    &&& final(self).pending@ == old(self).pending@
                    &&& final(self).commit_seq == old(self).commit_seq
                    &&& final(self).submit_seq == old(self).submit_seq
                    &&& final(self).event_seq == old(self).event_seq
                    &&& final(self).completed_seq == old(self).completed_seq
                    &&& (old(self).event is Some ==> final(self).event == old(self).event
                        && final(self).last_submitted == old(self).last_submitted
                        && final(self).last_completed == old(self).last_completed
                        && final(self).last_token == old(self).last_token
                        && *final(mgr) == *old(mgr))
                    &&& (old(self).event is None ==> final(self).busy() == 0
                        && final(self).last_submitted == Some(final(self).ev_value())
                        && final(self).last_completed == Some(final(self).ev_value())
                        && final(self).last_token == Some(final(self).ev_slot()))
                    // stamp locality: a still-free previous slot is the
                    // one re-acquired
                    &&& (old(self).event is None && (match old(self).last_token {
                        Some(p) => (p as int) < old(mgr).slots.len() && old(mgr).slot_free(
                            p as int,
                        ),
                        None => false,
                    }) ==> Some(final(self).ev_slot()) == old(self).last_token)
                    // every other field of the queue is untouched
                    &&& *final(self) == (WorkQueue {
                        pending_jobs: final(self).pending_jobs,
                        last_token: final(self).last_token,
                        last_submitted: final(self).last_submitted,
                        last_completed: final(self).last_completed,
                        event: final(self).event,
                        ..*old(self)
                    })
                },
                Err(e) => {
                    // acquisition fails exactly when the queue was idle
                    // and every event slot is occupied, so a retry can
                    // only succeed once some queue releases its slot
                    &&& e == DriverError::Busy
                    &&& *final(self) == *old(self)
                    &&& *final(mgr) == *old(mgr)
                    &&& old(self).event is None
                    &&& forall|i: int| 0 <= i < old(mgr).slots.len() ==> !old(mgr).slot_free(i)
                },
            },
    {
        let ghost pre = *self;
        if self.event.is_none() {
            let got = mgr.get(self.last_token, self.id);
            let (slot, cur) = match got {
                Ok(sv) => sv,
                Err(e) => {
                    return Err(DriverError::Busy);
                },
            };
            self.last_token = Some(slot);
            self.event = Some((slot, cur));
            self.last_submitted = Some(cur);
            self.last_completed = Some(cur);
            proof {
                lemma_circ_diff_self(cur.raw);
            }
        }
        self.pending_jobs = self.pending_jobs + 1;
        let (slot, value) = match &self.event {
            Some((s, v)) => (*s, *v),
            None => (0, EventValue { raw: 0 }),
        };
        proof {
            if pre.event is Some {
                WorkQueue::lemma_pdiff_unchanged(pre, *self);
            } else {
                assert(pre.pending.len() == 0);
            }
        }
        Ok(Job {
            wq_id: self.id,
            event_info: QueueEventInfo {
                slot,
                value,
                cmd_seq: self.commit_seq,
                event_seq: self.event_seq,
                info_ptr: self.info_pointer,
            },
            start_value: value,
            pending: Vec::new(),
            committed: false,
            submitted: false,
            event_count: 0,
            fence,
        })
    }
}

} // verus!
