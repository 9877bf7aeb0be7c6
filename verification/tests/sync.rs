use autograph::gl::sync::{
    classify_wait, Fence, GpuSyncError, GpuSyncObject, SyncEnd, SyncStep, Timeline, TimelineError,
    Timeout, WaitOutcome, WaitRequest, ALREADY_SIGNALED, CONDITION_SATISFIED,
    FENCE_CLIENT_WAIT_TIMEOUT, SYNC_FLUSH_COMMANDS_BIT, TIMEOUT_EXPIRED, TIMEOUT_UNLIMITED,
    WAIT_FAILED,
};

#[test]
fn wait_statuses_are_classified() {
    assert_eq!(classify_wait(CONDITION_SATISFIED), Ok(()));
    assert_eq!(classify_wait(ALREADY_SIGNALED), Ok(()));
    assert_eq!(classify_wait(WAIT_FAILED), Err(GpuSyncError::Unspecified));
    assert_eq!(classify_wait(TIMEOUT_EXPIRED), Err(GpuSyncError::Timeout));
    assert_eq!(classify_wait(0), Err(GpuSyncError::Timeout));
    assert_eq!(TIMEOUT_EXPIRED, 0x911B);
    assert_eq!(FENCE_CLIENT_WAIT_TIMEOUT, 1_000_000_000);
}

#[test]
fn try_wait_before_the_signal_times_out_and_keeps_the_fence() {
    let guarded = GpuSyncObject::new(Fence(42), String::from("payload"));
    let pending = guarded.try_wait();
    assert_eq!(
        pending.request,
        WaitRequest { fence: Fence(42), flags: SYNC_FLUSH_COMMANDS_BIT, timeout: 0 }
    );
    assert_eq!(pending.finish(TIMEOUT_EXPIRED), Err(GpuSyncError::Timeout));
    let pending = guarded.try_wait_into_inner();
    assert_eq!(pending.request.timeout, 0);
    assert_eq!(pending.request.fence, Fence(42));
    match pending.finish(TIMEOUT_EXPIRED) {
        Ok(_) => panic!("the wait cannot have succeeded"),
        Err((error, guarded)) => {
            assert_eq!(error, GpuSyncError::Timeout);
            assert_eq!(guarded.sync, Fence(42));
            assert_eq!(guarded.obj, "payload");
        }
    }
}

#[test]
fn wait_allows_a_second_and_releases_on_success() {
    let guarded = GpuSyncObject::new(Fence(7), 99u32);
    let pending = guarded.wait();
    assert_eq!(
        pending.request,
        WaitRequest { fence: Fence(7), flags: 1, timeout: 1_000_000_000 }
    );
    assert_eq!(pending.finish(ALREADY_SIGNALED), Ok(()));
    let pending = guarded.wait_into_inner();
    assert_eq!(pending.request.timeout, FENCE_CLIENT_WAIT_TIMEOUT);
    match pending.finish(CONDITION_SATISFIED) {
        Ok(released) => {
            assert_eq!(released.obj, 99);
            assert_eq!(released.retired, Fence(7));
        }
        Err(_) => panic!("the wait succeeded"),
    }
}

#[test]
fn failed_wait_is_unspecified_and_keeps_the_object() {
    let guarded = GpuSyncObject::new(Fence(1), 5u8);
    match guarded.wait_into_inner().finish(WAIT_FAILED) {
        Ok(_) => panic!("the wait failed"),
        Err((error, guarded)) => {
            assert_eq!(error, GpuSyncError::Unspecified);
            assert_eq!(guarded.obj, 5);
            let released = guarded.into_inner_unsynchronized();
            assert_eq!(released.obj, 5);
            assert_eq!(released.retired, Fence(1));
        }
    }
}

#[test]
fn new_timeline_has_reached_its_initial_value() {
    let timeline = Timeline::new(10);
    assert_eq!(timeline.current_value(), 10);
    assert_eq!(timeline.pending_count(), 0);
    assert!(!timeline.has_failed());
    assert_eq!(timeline.client_sync(10, Timeout::Infinite), SyncStep::Reached);
    assert_eq!(timeline.client_sync(3, Timeout::Nanoseconds(0)), SyncStep::Reached);
}

#[test]
fn sync_on_an_unsignalled_value_is_a_deadlock() {
    let timeline = Timeline::new(10);
    assert_eq!(timeline.client_sync(11, Timeout::Infinite), SyncStep::Deadlocked);
    let mut timeline = Timeline::new(0);
    timeline.signal(Fence(1), 1).unwrap();
    assert_eq!(
        timeline.wait_finished(ALREADY_SIGNALED, Timeout::Infinite),
        WaitOutcome::Retired(Fence(1))
    );
    assert_eq!(timeline.client_sync(1, Timeout::Infinite), SyncStep::Reached);
    assert_eq!(timeline.client_sync(2, Timeout::Infinite), SyncStep::Deadlocked);
}

#[test]
fn signals_must_rise() {
    let mut timeline = Timeline::new(5);
    assert_eq!(timeline.signal(Fence(1), 5), Err(TimelineError::NotIncreasing));
    assert_eq!(timeline.signal(Fence(1), 4), Err(TimelineError::NotIncreasing));
    assert_eq!(timeline.pending_count(), 0);
    assert_eq!(timeline.signal(Fence(1), 6), Ok(()));
    assert_eq!(timeline.signal(Fence(2), 6), Err(TimelineError::NotIncreasing));
    assert_eq!(timeline.signal(Fence(2), 9), Ok(()));
    assert_eq!(timeline.signal(Fence(3), 8), Err(TimelineError::NotIncreasing));
    assert_eq!(timeline.pending_count(), 2);
    assert_eq!(timeline.current_value(), 5);
}

#[test]
fn sync_waits_for_the_head_of_the_queue() {
    let mut timeline = Timeline::new(0);
    timeline.signal(Fence(11), 1).unwrap();
    timeline.signal(Fence(22), 2).unwrap();
    timeline.signal(Fence(33), 3).unwrap();
    assert_eq!(
        timeline.client_sync(2, Timeout::Infinite),
        SyncStep::Wait(WaitRequest { fence: Fence(11), flags: 1, timeout: u64::MAX })
    );
    assert_eq!(
        timeline.client_sync(2, Timeout::Nanoseconds(250)),
        SyncStep::Wait(WaitRequest { fence: Fence(11), flags: 1, timeout: 250 })
    );
    assert_eq!(
        timeline.wait_finished(CONDITION_SATISFIED, Timeout::Nanoseconds(250)),
        WaitOutcome::Retired(Fence(11))
    );
    assert_eq!(timeline.current_value(), 1);
    assert_eq!(timeline.pending_count(), 2);
    assert_eq!(
        timeline.client_sync(2, Timeout::Infinite),
        SyncStep::Wait(WaitRequest { fence: Fence(22), flags: 1, timeout: TIMEOUT_UNLIMITED })
    );
    assert_eq!(
        timeline.wait_finished(ALREADY_SIGNALED, Timeout::Infinite),
        WaitOutcome::Retired(Fence(22))
    );
    assert_eq!(timeline.current_value(), 2);
    assert_eq!(timeline.client_sync(2, Timeout::Infinite), SyncStep::Reached);
    assert_eq!(timeline.pending_count(), 1);
}

#[test]
fn a_wait_with_a_limit_times_out_and_leaves_the_timeline_alone() {
    let mut timeline = Timeline::new(0);
    timeline.signal(Fence(11), 4).unwrap();
    assert_eq!(
        timeline.wait_finished(TIMEOUT_EXPIRED, Timeout::Nanoseconds(1)),
        WaitOutcome::TimedOut
    );
    assert_eq!(
        timeline.wait_finished(TIMEOUT_EXPIRED, Timeout::Nanoseconds(u64::MAX)),
        WaitOutcome::TimedOut
    );
    assert_eq!(timeline.current_value(), 0);
    assert_eq!(timeline.pending_count(), 1);
    assert!(!timeline.has_failed());
    assert_eq!(
        timeline.client_sync(4, Timeout::Nanoseconds(1)),
        SyncStep::Wait(WaitRequest { fence: Fence(11), flags: 1, timeout: 1 })
    );
    assert_eq!(
        timeline.wait_finished(CONDITION_SATISFIED, Timeout::Nanoseconds(1)),
        WaitOutcome::Retired(Fence(11))
    );
    assert_eq!(
        timeline.wait_finished(CONDITION_SATISFIED, Timeout::Nanoseconds(1)),
        WaitOutcome::NothingPending
    );
    assert_eq!(timeline.current_value(), 4);
}

#[test]
fn a_wait_without_limit_does_not_time_out() {
    let mut timeline = Timeline::new(0);
    timeline.signal(Fence(11), 4).unwrap();
    let wait = SyncStep::Wait(WaitRequest { fence: Fence(11), flags: 1, timeout: u64::MAX });
    for _ in 0..5 {
        assert_eq!(timeline.client_sync(4, Timeout::Infinite), wait);
        assert_eq!(
            timeline.wait_finished(TIMEOUT_EXPIRED, Timeout::Infinite),
            WaitOutcome::Unfinished
        );
        assert_eq!(timeline.current_value(), 0);
        assert_eq!(timeline.pending_count(), 1);
    }
    assert_eq!(timeline.client_sync(4, Timeout::Infinite), wait);
    assert_eq!(
        timeline.wait_finished(CONDITION_SATISFIED, Timeout::Infinite),
        WaitOutcome::Retired(Fence(11))
    );
    assert_eq!(timeline.client_sync(4, Timeout::Infinite), SyncStep::Reached);
}

#[test]
fn a_failed_wait_is_final() {
    let mut timeline = Timeline::new(3);
    timeline.signal(Fence(11), 4).unwrap();
    assert_eq!(timeline.wait_finished(WAIT_FAILED, Timeout::Infinite), WaitOutcome::Failed);
    assert!(timeline.has_failed());
    assert_eq!(timeline.current_value(), 3);
    assert_eq!(timeline.pending_count(), 1);
    assert_eq!(timeline.client_sync(4, Timeout::Infinite), SyncStep::Failed);
    assert_eq!(timeline.client_sync(4, Timeout::Nanoseconds(9)), SyncStep::Failed);
    assert_eq!(timeline.client_sync(1, Timeout::Infinite), SyncStep::Failed);
    assert_eq!(
        timeline.wait_finished(CONDITION_SATISFIED, Timeout::Infinite),
        WaitOutcome::Failed
    );
    assert_eq!(timeline.current_value(), 3);
    assert_eq!(timeline.pending_count(), 1);
}

/// Runs a synchronisation as a program does, with the driver's answers taken
/// from `answers`. Returns how it ended and how many answers it took.
fn run_sync(
    timeline: &mut Timeline,
    value: u64,
    timeout: Timeout,
    answers: &[u32],
) -> (Option<SyncEnd>, usize) {
    let mut taken = 0;
    loop {
        match timeline.client_sync(value, timeout) {
            SyncStep::Reached => return (Some(SyncEnd::Reached), taken),
            SyncStep::Deadlocked => return (Some(SyncEnd::Deadlocked), taken),
            SyncStep::Failed => return (Some(SyncEnd::Failed), taken),
            SyncStep::Wait(_) => {
                if taken == answers.len() {
                    return (None, taken);
                }
                let outcome = timeline.wait_finished(answers[taken], timeout);
                taken += 1;
                if outcome == WaitOutcome::TimedOut {
                    return (Some(SyncEnd::TimedOut), taken);
                }
            }
        }
    }
}

#[test]
fn reached_means_at_or_above_the_value() {
    let mut timeline = Timeline::new(0);
    for value in 1..=5u64 {
        timeline.signal(Fence(value * 10), value * 2).unwrap();
    }
    let answers = [CONDITION_SATISFIED; 8];
    assert_eq!(
        run_sync(&mut timeline, 7, Timeout::Infinite, &answers),
        (Some(SyncEnd::Reached), 4)
    );
    assert_eq!(timeline.current_value(), 8);
    assert_eq!(timeline.pending_count(), 1);
}

#[test]
fn a_sync_without_limit_ends_reached_deadlocked_or_failed() {
    let queue = |timeline: &mut Timeline| {
        timeline.signal(Fence(1), 1).unwrap();
        timeline.signal(Fence(2), 2).unwrap();
    };
    let mut timeline = Timeline::new(0);
    queue(&mut timeline);
    let slow = [TIMEOUT_EXPIRED, TIMEOUT_EXPIRED, ALREADY_SIGNALED, TIMEOUT_EXPIRED, 0, ALREADY_SIGNALED];
    assert_eq!(run_sync(&mut timeline, 2, Timeout::Infinite, &slow), (Some(SyncEnd::Reached), 6));
    assert_eq!(timeline.current_value(), 2);

    let mut timeline = Timeline::new(0);
    queue(&mut timeline);
    assert_eq!(run_sync(&mut timeline, 3, Timeout::Infinite, &slow), (Some(SyncEnd::Deadlocked), 6));

    let mut timeline = Timeline::new(0);
    queue(&mut timeline);
    let broken = [TIMEOUT_EXPIRED, ALREADY_SIGNALED, WAIT_FAILED, ALREADY_SIGNALED];
    assert_eq!(run_sync(&mut timeline, 2, Timeout::Infinite, &broken), (Some(SyncEnd::Failed), 3));
    assert_eq!(timeline.current_value(), 1);

    let mut timeline = Timeline::new(0);
    queue(&mut timeline);
    let never = [TIMEOUT_EXPIRED; 20];
    assert_eq!(run_sync(&mut timeline, 2, Timeout::Infinite, &never), (None, 20));
    assert_eq!(timeline.current_value(), 0);

    // With a limit, the same answers end the synchronisation for want of time.
    let mut timeline = Timeline::new(0);
    queue(&mut timeline);
    assert_eq!(
        run_sync(&mut timeline, 2, Timeout::Nanoseconds(1_000_000_000), &slow),
        (Some(SyncEnd::TimedOut), 1)
    );
}
