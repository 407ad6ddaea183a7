//! The happy path and the commit/submit ordering rules of a work queue.

use asahi::channel::{PipeChannel, PipeType};
use asahi::event::EventManager;
use asahi::fence::Fence;
use asahi::workqueue::WorkQueue;
use asahi::DriverError;

fn fresh_queue(size: u32) -> (WorkQueue, EventManager) {
    let wq = WorkQueue::new(PipeType::Compute, 7, 0, size, 0x1000).unwrap();
    let mgr = EventManager::new(64);
    (wq, mgr)
}

#[test]
fn happy_path_three_commands_retire_in_order() {
    let (mut wq, mut mgr) = fresh_queue(16);
    let fence = Fence::new(1, 0);

    let mut job = wq.new_job(&mut mgr, fence).unwrap();
    let slot = job.event_info.slot;
    let start = job.start_value;
    job.add(0x4000, 0).unwrap();
    job.add(0x4100, 0).unwrap();
    job.add(0x4200, 0).unwrap();

    job.commit(&mut wq).unwrap();
    assert_eq!(wq.commit_seq, 3);
    assert!(job.can_submit(&wq).is_none());

    let sub = job.submit(&mut wq).unwrap();
    assert_eq!(sub.wptr, 3);
    // The ring holds the three command addresses, in order.
    assert_eq!(wq.ring[0], 0x4000);
    assert_eq!(wq.ring[1], 0x4100);
    assert_eq!(wq.ring[2], 0x4200);

    let mut pipe = PipeChannel::new();
    sub.run(&mut wq, &mut pipe);
    assert_eq!(wq.submit_seq, 3);
    assert_eq!(wq.wptr, 3);
    assert_eq!(wq.state.cpu_wptr, 3);
    assert_eq!(pipe.msgs.len(), 1);
    assert_eq!(pipe.msgs[0].wptr, 3);
    assert!(pipe.msgs[0].is_new);
    assert!(!wq.new);

    // The firmware publishes each command's stamp value in order.
    let mut expected = start;
    for step in 0..3u32 {
        expected = expected.next();
        mgr.fw_update_stamp(slot, expected);
        let (retired, empty) = wq.signal(&mut mgr);
        assert_eq!(retired.len(), 1);
        assert_eq!(retired[0].gpu_va, 0x4000 + (step as u64) * 0x100);
        assert_eq!(retired[0].error, None);
        assert!(retired[0].completed);
        assert_eq!(empty, step == 2);
    }
    assert_eq!(wq.completed_seq, 3);

    // A stamp that has not advanced retires nothing more.
    let (retired, empty) = wq.signal(&mut mgr);
    assert_eq!(retired.len(), 0);
    assert!(empty);

    // Dropping the job returns the queue to idle and releases the slot.
    job.cancel(&mut wq, &mut mgr);
    assert!(wq.event.is_none());
    assert_eq!(wq.pending_jobs, 0);
    assert_eq!(mgr.get_owner(slot), None);
    assert_eq!(wq.free_space(), 15);
}

#[test]
fn commit_out_of_order_is_invalid_and_retry_succeeds() {
    let (mut wq, mut mgr) = fresh_queue(16);

    let mut job_a = wq.new_job(&mut mgr, Fence::new(1, 0)).unwrap();
    let mut job_b = wq.new_job(&mut mgr, Fence::new(1, 1)).unwrap();
    job_a.add(0x4000, 0).unwrap();
    job_b.add(0x5000, 0).unwrap();

    // The first-created job commits first.
    job_a.commit(&mut wq).unwrap();
    // The second job committed out of order: it fails and must retry.
    assert_eq!(job_b.commit(&mut wq), Err(DriverError::Invalid));
    job_b.cancel(&mut wq, &mut mgr);

    // The retried batch commits and both submit in order.
    let mut job_b = wq.new_job(&mut mgr, Fence::new(1, 2)).unwrap();
    job_b.add(0x5000, 0).unwrap();
    job_b.commit(&mut wq).unwrap();

    let mut pipe = PipeChannel::new();
    let sub_a = job_a.submit(&mut wq).unwrap();
    sub_a.run(&mut wq, &mut pipe);
    let sub_b = job_b.submit(&mut wq).unwrap();
    sub_b.run(&mut wq, &mut pipe);

    // Ring entries appear in commit order: first A's command, then B's.
    assert_eq!(wq.ring[0], 0x4000);
    assert_eq!(wq.ring[1], 0x5000);
    assert_eq!(wq.pending.len(), 2);
    assert_eq!(wq.pending[0].gpu_va, 0x4000);
    assert_eq!(wq.pending[1].gpu_va, 0x5000);

    // Drain so both jobs can drop cleanly.
    let slot = job_a.event_info.slot;
    mgr.fw_update_stamp(slot, wq.last_submitted.unwrap());
    let (retired, empty) = wq.signal(&mut mgr);
    assert_eq!(retired.len(), 2);
    assert!(empty);
    job_a.cancel(&mut wq, &mut mgr);
    job_b.cancel(&mut wq, &mut mgr);
    assert!(wq.event.is_none());
}

#[test]
fn double_commit_empty_commit_and_double_submit_are_invalid() {
    let (mut wq, mut mgr) = fresh_queue(8);
    let mut job = wq.new_job(&mut mgr, Fence::new(2, 0)).unwrap();

    // Committing an empty batch is invalid.
    assert_eq!(job.commit(&mut wq), Err(DriverError::Invalid));
    // Submitting an uncommitted batch is invalid.
    assert!(matches!(job.submit(&mut wq), Err(DriverError::Invalid)));

    job.add(0x4000, 0).unwrap();
    job.commit(&mut wq).unwrap();
    // Adding to a committed batch is invalid.
    assert_eq!(job.add(0x5000, 0), Err(DriverError::Invalid));
    // A second commit is invalid.
    assert_eq!(job.commit(&mut wq), Err(DriverError::Invalid));

    let mut pipe = PipeChannel::new();
    let sub = job.submit(&mut wq).unwrap();
    sub.run(&mut wq, &mut pipe);
    // A second submit is invalid.
    assert!(matches!(job.submit(&mut wq), Err(DriverError::Invalid)));

    let slot = job.event_info.slot;
    mgr.fw_update_stamp(slot, wq.last_submitted.unwrap());
    wq.signal(&mut mgr);
    job.cancel(&mut wq, &mut mgr);
}

#[test]
fn ring_full_returns_busy_and_retry_succeeds_after_drain() {
    // Size 5 means 4 usable entries, and admission demands free space
    // strictly beyond the batch.
    let (mut wq, mut mgr) = fresh_queue(5);

    let mut job1 = wq.new_job(&mut mgr, Fence::new(3, 0)).unwrap();
    job1.add(0x4000, 0).unwrap();
    job1.add(0x4100, 0).unwrap();
    job1.add(0x4200, 0).unwrap();
    job1.commit(&mut wq).unwrap();
    let mut pipe = PipeChannel::new();
    let sub1 = job1.submit(&mut wq).unwrap();
    sub1.run(&mut wq, &mut pipe);
    assert_eq!(wq.free_space(), 1);

    // A further batch of two does not fit: admission needs free space
    // strictly beyond the batch, and only one entry is left — and even
    // a batch exactly the size of the free space is refused.
    let mut job2 = wq.new_job(&mut mgr, Fence::new(3, 1)).unwrap();
    job2.add(0x5000, 0).unwrap();
    assert_eq!(wq.free_space(), 1);
    let boundary = job2.can_submit(&wq);
    assert_eq!(boundary, Some(Fence::new(3, 0)));
    job2.add(0x5100, 0).unwrap();
    job2.commit(&mut wq).unwrap();
    // can_submit hands back the fence of the oldest pending command.
    let wait_on = job2.can_submit(&wq);
    assert_eq!(wait_on, Some(Fence::new(3, 0)));
    assert_eq!(
        job2.submit(&mut wq).map(|_| ()).unwrap_err(),
        DriverError::Busy
    );

    // All three complete; the retry succeeds.
    let slot = job1.event_info.slot;
    mgr.fw_update_stamp(slot, wq.last_submitted.unwrap());
    let (retired, empty) = wq.signal(&mut mgr);
    assert_eq!(retired.len(), 3);
    assert!(empty);
    job1.cancel(&mut wq, &mut mgr);

    let sub2 = job2.submit(&mut wq).unwrap();
    sub2.run(&mut wq, &mut pipe);
    assert_eq!(wq.pending.len(), 2);

    mgr.fw_update_stamp(slot, wq.last_submitted.unwrap());
    let (retired, empty) = wq.signal(&mut mgr);
    assert_eq!(retired.len(), 2);
    assert!(empty);
    job2.cancel(&mut wq, &mut mgr);
    assert!(wq.event.is_none());
}

#[test]
fn dropping_a_committed_job_rolls_the_commit_counter_back() {
    let (mut wq, mut mgr) = fresh_queue(8);

    // Advance the queue a little first.
    let mut warmup = wq.new_job(&mut mgr, Fence::new(4, 0)).unwrap();
    warmup.add(0x4000, 0).unwrap();
    warmup.commit(&mut wq).unwrap();
    let mut pipe = PipeChannel::new();
    let sub = warmup.submit(&mut wq).unwrap();
    sub.run(&mut wq, &mut pipe);
    let slot = warmup.event_info.slot;
    mgr.fw_update_stamp(slot, wq.last_submitted.unwrap());
    wq.signal(&mut mgr);

    let commit_seq_before = wq.commit_seq;
    let event_value_before = wq.event.unwrap().1;

    let mut job = wq.new_job(&mut mgr, Fence::new(4, 1)).unwrap();
    job.add(0x5000, 0).unwrap();
    job.add(0x5100, 0).unwrap();
    job.commit(&mut wq).unwrap();
    assert_eq!(wq.commit_seq, commit_seq_before + 2);

    // Dropping the committed-but-not-submitted job restores the commit
    // counter and the committed stamp value.
    job.cancel(&mut wq, &mut mgr);
    assert_eq!(wq.commit_seq, commit_seq_before);
    assert_eq!(wq.event.unwrap().1, event_value_before);

    warmup.cancel(&mut wq, &mut mgr);
    assert!(wq.event.is_none());
}

#[test]
fn dropping_a_submission_before_run_rolls_back_the_staged_commands() {
    let (mut wq, mut mgr) = fresh_queue(8);
    let mut job = wq.new_job(&mut mgr, Fence::new(5, 0)).unwrap();
    let value_before = wq.event.unwrap().1;
    job.add(0x4000, 0).unwrap();
    job.add(0x4100, 0).unwrap();
    job.commit(&mut wq).unwrap();

    let sub = job.submit(&mut wq).unwrap();
    assert_eq!(wq.pending.len(), 2);
    sub.rollback(&mut wq);
    assert_eq!(wq.pending.len(), 0);
    assert_eq!(wq.commit_seq, 0);
    assert_eq!(wq.event.unwrap().1, value_before);
    assert_eq!(wq.last_submitted, Some(value_before));

    job.cancel(&mut wq, &mut mgr);
    assert!(wq.event.is_none());
}

#[test]
fn signal_is_idempotent_while_the_stamp_stands_still() {
    let (mut wq, mut mgr) = fresh_queue(8);
    let mut job = wq.new_job(&mut mgr, Fence::new(6, 0)).unwrap();
    job.add(0x4000, 0).unwrap();
    job.add(0x4100, 0).unwrap();
    job.commit(&mut wq).unwrap();
    let mut pipe = PipeChannel::new();
    let sub = job.submit(&mut wq).unwrap();
    sub.run(&mut wq, &mut pipe);

    let slot = job.event_info.slot;
    // The stamp covers only the first command.
    let first = job.start_value.next();
    mgr.fw_update_stamp(slot, first);
    let (retired, _) = wq.signal(&mut mgr);
    assert_eq!(retired.len(), 1);

    // Signalling again with the unchanged stamp completes nothing.
    let (retired, empty) = wq.signal(&mut mgr);
    assert_eq!(retired.len(), 0);
    assert!(!empty);

    mgr.fw_update_stamp(slot, first.next());
    let (retired, empty) = wq.signal(&mut mgr);
    assert_eq!(retired.len(), 1);
    assert!(empty);
    job.cancel(&mut wq, &mut mgr);
}

#[test]
fn pending_length_respects_the_reserved_entry() {
    let (mut wq, mut mgr) = fresh_queue(4);
    let mut job = wq.new_job(&mut mgr, Fence::new(7, 0)).unwrap();
    job.add(0x4000, 0).unwrap();
    job.add(0x4100, 0).unwrap();
    job.add(0x4200, 0).unwrap();
    job.commit(&mut wq).unwrap();
    // Admission demands free space strictly beyond the batch: three
    // commands do not go into a four-entry ring (one entry reserved,
    // and the batch must leave room).
    assert_eq!(
        job.submit(&mut wq).map(|_| ()).unwrap_err(),
        DriverError::Busy
    );
    assert!(wq.pending.len() <= (wq.size - 1) as usize);
    job.cancel(&mut wq, &mut mgr);
    assert!(wq.event.is_none());
}

#[test]
fn lifecycle_works_across_the_stamp_wrap_boundary() {
    let (mut wq, mut mgr) = fresh_queue(8);
    // The slot's stamp sits just below the 32-bit boundary, as it would
    // after a long-lived queue ran for a while.
    mgr.fw_update_stamp(0, asahi::event::EventValue::new(0xffff_fffe));

    let mut job = wq.new_job(&mut mgr, Fence::new(8, 0)).unwrap();
    assert_eq!(job.start_value.raw, 0xffff_fffe);
    job.add(0x4000, 0).unwrap(); // value 0xffff_ffff
    job.add(0x4100, 0).unwrap(); // value 0, wrapped
    job.add(0x4200, 0).unwrap(); // value 1
    job.commit(&mut wq).unwrap();
    let mut pipe = PipeChannel::new();
    let sub = job.submit(&mut wq).unwrap();
    sub.run(&mut wq, &mut pipe);
    assert_eq!(wq.last_submitted.unwrap().raw, 1);

    // A stamp past the wrap retires the first two commands together.
    let slot = job.event_info.slot;
    mgr.fw_update_stamp(slot, asahi::event::EventValue::new(0));
    let (retired, empty) = wq.signal(&mut mgr);
    assert_eq!(retired.len(), 2);
    assert_eq!(retired[0].gpu_va, 0x4000);
    assert_eq!(retired[1].gpu_va, 0x4100);
    assert!(!empty);

    mgr.fw_update_stamp(slot, asahi::event::EventValue::new(1));
    let (retired, empty) = wq.signal(&mut mgr);
    assert_eq!(retired.len(), 1);
    assert!(empty);
    job.cancel(&mut wq, &mut mgr);
    assert!(wq.event.is_none());
}

#[test]
fn job_creation_fails_only_while_every_slot_is_taken() {
    // Two slots, three queues: the third acquisition must fail, and a
    // release makes the retry succeed.
    let mut mgr = EventManager::new(2);
    let mut wq1 = WorkQueue::new(PipeType::Vertex, 21, 0, 8, 0x1000).unwrap();
    let mut wq2 = WorkQueue::new(PipeType::Fragment, 22, 0, 8, 0x2000).unwrap();
    let mut wq3 = WorkQueue::new(PipeType::Compute, 23, 0, 8, 0x3000).unwrap();

    let job1 = wq1.new_job(&mut mgr, Fence::new(21, 0)).unwrap();
    let job2 = wq2.new_job(&mut mgr, Fence::new(22, 0)).unwrap();
    assert_eq!(mgr.get_owner(0), Some(21));
    assert_eq!(mgr.get_owner(1), Some(22));

    // Every slot is occupied, so acquisition fails with Busy.
    assert!(matches!(wq3.new_job(&mut mgr, Fence::new(23, 0)), Err(DriverError::Busy)));

    // Dropping a job frees its slot; the retry then succeeds.
    job1.cancel(&mut wq1, &mut mgr);
    assert_eq!(mgr.get_owner(0), None);
    let job3 = wq3.new_job(&mut mgr, Fence::new(23, 1)).unwrap();
    assert_eq!(job3.event_info.slot, 0);

    job2.cancel(&mut wq2, &mut mgr);
    job3.cancel(&mut wq3, &mut mgr);
}
