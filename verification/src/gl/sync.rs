//! Synchronisation between the CPU and the GPU.
//!
//! Nothing here talks to the driver. A wait is a request that names the fence
//! to wait for and the time to allow; whoever owns the GL context performs it
//! and hands the driver's answer back.

use std::collections::VecDeque;
use vstd::prelude::*;

verus! {

/// The driver's answer to a wait for a fence that the GPU had passed before.
pub const ALREADY_SIGNALED: u32 = 0x911A;

/// The driver's answer to a wait that ran out of time.
pub const TIMEOUT_EXPIRED: u32 = 0x911B;

/// The driver's answer to a wait during which the GPU passed the fence.
pub const CONDITION_SATISFIED: u32 = 0x911C;

/// The driver's answer to a wait that it could not perform.
pub const WAIT_FAILED: u32 = 0x911D;

/// The flag that asks the driver to flush its commands before it waits.
pub const SYNC_FLUSH_COMMANDS_BIT: u32 = 0x0000_0001;

/// The time that a wait for a guarded object is allowed, in nanoseconds.
pub const FENCE_CLIENT_WAIT_TIMEOUT: u64 = 1_000_000_000;

/// Names a fence that the driver has placed in the GPU's command stream.
#[derive(Clone, Copy, Debug, PartialEq, Eq, Structural)]
pub struct Fence(pub u64);

/// How a wait can fail.
#[derive(Clone, Copy, Debug, PartialEq, Eq, Structural)]
pub enum GpuSyncError {
    /// The time allowed ran out before the GPU got there.
    Timeout,
    /// The driver could not wait.
    Unspecified,
}

/// A wait to be performed: a client wait for `fence`, with `flags`, for at
/// most `timeout` nanoseconds.
#[derive(Clone, Copy, Debug, PartialEq, Eq, Structural)]
pub struct WaitRequest {
    pub fence: Fence,
    pub flags: u32,
    pub timeout: u64,
}

/// What the driver's answer to a client wait means.
pub open spec fn wait_result(status: u32) -> Result<(), GpuSyncError> {
    if status == CONDITION_SATISFIED || status == ALREADY_SIGNALED {
        Ok(())
    } else if status == WAIT_FAILED {
        Err(GpuSyncError::Unspecified)
    } else {
        Err(GpuSyncError::Timeout)
    }
}

/// What the driver's answer to a client wait means: the GPU has passed the
/// fence, the driver failed, or, with any other answer, the time ran out.
pub fn classify_wait(status: u32) -> (result: Result<(), GpuSyncError>)
    ensures
        result == wait_result(status),
{
    if status == CONDITION_SATISFIED || status == ALREADY_SIGNALED {
        Ok(())
    } else if status == WAIT_FAILED {
        Err(GpuSyncError::Unspecified)
    } else {
        Err(GpuSyncError::Timeout)
    }
}

/// A wait that has been asked for and not yet answered.
#[derive(Clone, Copy, Debug, PartialEq, Eq, Structural)]
pub struct PendingWait {
    pub request: WaitRequest,
}

impl PendingWait {
    /// Ends the wait with the driver's answer to the request.
    pub fn finish(self, status: u32) -> (result: Result<(), GpuSyncError>)
        ensures
            result == wait_result(status),
    {
        classify_wait(status)
    }
}

/// An object that the GPU may still be using, with the fence that tells when
/// it no longer is.
pub struct GpuSyncObject<T> {
    pub sync: Fence,
    pub obj: T,
}

/// An object taken out of its guard, and the fence that guarded it, which is
/// of no further use and is to be deleted.
pub struct Released<T> {
    pub obj: T,
    pub retired: Fence,
}

/// A wait for a guarded object that has been asked for and not yet answered.
pub struct PendingRelease<T> {
    pub request: WaitRequest,
    pub guarded: GpuSyncObject<T>,
}

impl<T> PendingRelease<T> {
    /// Ends the wait with the driver's answer to the request. If the GPU has
    /// passed the fence, the object comes out and the fence is retired. If
    /// not, the guard comes back as it was, fence included.
    pub fn finish(self, status: u32) -> (result: Result<Released<T>, (GpuSyncError, GpuSyncObject<T>)>)
        ensures
            result == match wait_result(status) {
                Ok(()) => Ok::<Released<T>, (GpuSyncError, GpuSyncObject<T>)>(
                    Released { obj: self.guarded.obj, retired: self.guarded.sync },
                ),
                Err(e) => Err((e, self.guarded)),
            },
    {
        match classify_wait(status) {
            Ok(()) => Ok(Released { obj: self.guarded.obj, retired: self.guarded.sync }),
            Err(e) => Err((e, self.guarded)),
        }
    }
}

impl<T> GpuSyncObject<T> {
    /// The request for a client wait for this object's fence, flushing, for
    /// at most `timeout` nanoseconds.
    pub open spec fn request(&self, timeout: u64) -> WaitRequest {
        WaitRequest { fence: self.sync, flags: SYNC_FLUSH_COMMANDS_BIT, timeout }
    }

    /// Guards `obj` with `sync`, a fence placed after the last command that
    /// uses the object.
    pub fn new(sync: Fence, obj: T) -> (guarded: GpuSyncObject<T>)
        ensures
            guarded.sync == sync,
            guarded.obj == obj,
    {
        GpuSyncObject { sync, obj }
    }

    /// Begins a wait of up to one second for the GPU to be done with the
    /// object, after which the object is taken out.
    pub fn wait_into_inner(self) -> (pending: PendingRelease<T>)
        ensures
            pending.request == self.request(FENCE_CLIENT_WAIT_TIMEOUT),
            pending.guarded == self,
    {
        let request = self.wait_timeout(FENCE_CLIENT_WAIT_TIMEOUT);
        PendingRelease { request, guarded: self }
    }

    /// Begins a check, without waiting, of whether the GPU is done with the
    /// object, after which the object is taken out.
    pub fn try_wait_into_inner(self) -> (pending: PendingRelease<T>)
        ensures
            pending.request == self.request(0),
            pending.guarded == self,
    {
        let request = self.wait_timeout(0);
        PendingRelease { request, guarded: self }
    }

    /// Begins a wait of up to one second for the GPU to be done with the
    /// object.
    pub fn wait(&self) -> (pending: PendingWait)
        ensures
            pending.request == self.request(FENCE_CLIENT_WAIT_TIMEOUT),
    {
        PendingWait { request: self.wait_timeout(FENCE_CLIENT_WAIT_TIMEOUT) }
    }

    /// Begins a check, without waiting, of whether the GPU is done with the
    /// object.
    pub fn try_wait(&self) -> (pending: PendingWait)
        ensures
            pending.request == self.request(0),
    {
        PendingWait { request: self.wait_timeout(0) }
    }

    /// Takes the object out without asking whether the GPU is done with it.
    /// The fence is retired.
    pub fn into_inner_unsynchronized(self) -> (released: Released<T>)
        ensures
            released.obj == self.obj,
            released.retired == self.sync,
    {
        Released { obj: self.obj, retired: self.sync }
    }

    fn wait_timeout(&self, timeout: u64) -> (request: WaitRequest)
        ensures
            request == self.request(timeout),
    {
        WaitRequest { fence: self.sync, flags: SYNC_FLUSH_COMMANDS_BIT, timeout }
    }
}

/// A fence in the queue of a timeline, and the value that the timeline takes
/// when the GPU has passed it.
#[derive(Clone, Copy, Debug, PartialEq, Eq, Structural)]
pub struct SyncPoint {
    pub sync: Fence,
    pub value: u64,
}

/// How long a synchronisation may wait for one fence.
#[derive(Clone, Copy, Debug, PartialEq, Eq, Structural)]
pub enum Timeout {
    /// As long as it takes. A wait without limit does not run out of time.
    Infinite,
    /// This many nanoseconds.
    Nanoseconds(u64),
}

/// The time that a wait without limit asks the driver for: the longest that
/// the driver's interface can express.
pub const TIMEOUT_UNLIMITED: u64 = 0xffff_ffff_ffff_ffff;

/// The time to ask the driver for in one wait, in nanoseconds.
pub open spec fn timeout_nanoseconds(timeout: Timeout) -> u64 {
    match timeout {
        Timeout::Infinite => TIMEOUT_UNLIMITED,
        Timeout::Nanoseconds(nanoseconds) => nanoseconds,
    }
}

/// Why a signal was refused.
#[derive(Clone, Copy, Debug, PartialEq, Eq, Structural)]
pub enum TimelineError {
    /// The value is not above every value signalled or reached before.
    NotIncreasing,
}

/// What a synchronisation is to do next.
#[derive(Clone, Copy, Debug, PartialEq, Eq, Structural)]
pub enum SyncStep {
    /// The timeline has reached the value.
    Reached,
    /// The value is out of reach: nothing is queued that could bring the
    /// timeline up to it. A signal is missing.
    Deadlocked,
    /// The driver has failed to wait, now or earlier. The failure is final:
    /// the timeline asks for no further wait.
    Failed,
    /// The timeline is short of the value. Perform this wait, report its
    /// answer with `wait_finished`, and ask again.
    Wait(WaitRequest),
}

/// How a wait on the head of the queue ended.
#[derive(Clone, Copy, Debug, PartialEq, Eq, Structural)]
pub enum WaitOutcome {
    /// The GPU has passed the fence. The timeline has advanced, and the
    /// fence has left the queue and is to be deleted.
    Retired(Fence),
    /// The time allowed ran out. Nothing has changed.
    TimedOut,
    /// The driver gave up on a wait without limit before the GPU passed the
    /// fence. Nothing has changed, and the wait is to be asked for again.
    Unfinished,
    /// The driver could not wait, now or earlier. The timeline has failed for
    /// good.
    Failed,
    /// Nothing was queued, so there was nothing to wait for.
    NothingPending,
}

/// How a synchronisation ends.
#[derive(Clone, Copy, Debug, PartialEq, Eq, Structural)]
pub enum SyncEnd {
    /// The timeline has reached the value.
    Reached,
    /// A wait ran out of the time it was allowed.
    TimedOut,
    /// The driver failed to wait.
    Failed,
    /// The value was never signalled.
    Deadlocked,
}

/// A timeline as a value: the value reached, the fences queued, oldest first,
/// and whether the driver has failed.
pub struct TimelineView {
    pub reached: u64,
    pub pending: Seq<SyncPoint>,
    pub failed: bool,
}

impl TimelineView {
    /// The invariant of a timeline: the queued values rise strictly from the
    /// head of the queue to its tail, and all lie above the value reached.
    pub open spec fn wf(self) -> bool {
        &&& forall|i: int|
            0 <= i < self.pending.len() ==> self.reached < (#[trigger] self.pending[i]).value
        &&& forall|i: int, j: int|
            0 <= i < j < self.pending.len() ==> (#[trigger] self.pending[i]).value < (
            #[trigger] self.pending[j]).value
    }

    /// The highest value signalled or reached so far.
    pub open spec fn latest(self) -> u64 {
        if self.pending.len() == 0 {
            self.reached
        } else {
            self.pending.last().value
        }
    }

    /// What a synchronisation on `value` is to do next.
    ///
    /// After a failure of the driver, nothing. Where the value is reached,
    /// nothing either. Where it is not and nothing is queued, nothing can be
    /// done. Otherwise the wait to perform is one for the fence at the head of
    /// the queue, for the time that `timeout` allows.
    pub open spec fn next_step(self, value: u64, timeout: Timeout) -> SyncStep {
        if self.failed {
            SyncStep::Failed
        } else if self.reached >= value {
            SyncStep::Reached
        } else if self.pending.len() == 0 {
            SyncStep::Deadlocked
        } else {
            SyncStep::Wait(
                WaitRequest {
                    fence: self.pending[0].sync,
                    flags: SYNC_FLUSH_COMMANDS_BIT,
                    timeout: timeout_nanoseconds(timeout),
                },
            )
        }
    }

    /// How a wait on the head of the queue ends that was allowed `timeout`
    /// and that the driver answers with `status`.
    ///
    /// A wait without limit does not time out: where the driver gives up on
    /// one, the wait is unfinished.
    pub open spec fn outcome_of(self, status: u32, timeout: Timeout) -> WaitOutcome {
        if self.failed {
            WaitOutcome::Failed
        } else if self.pending.len() == 0 {
            WaitOutcome::NothingPending
        } else {
            match wait_result(status) {
                Ok(()) => WaitOutcome::Retired(self.pending[0].sync),
                Err(GpuSyncError::Timeout) => if timeout is Infinite {
                    WaitOutcome::Unfinished
                } else {
                    WaitOutcome::TimedOut
                },
                Err(GpuSyncError::Unspecified) => WaitOutcome::Failed,
            }
        }
    }

    /// The timeline after such a wait. Where the GPU has passed the fence,
    /// the timeline takes the fence's value and the fence leaves the queue.
    /// Where the driver failed, the timeline has failed. Otherwise it is as
    /// it was.
    pub open spec fn after_wait(self, status: u32, timeout: Timeout) -> TimelineView {
        match self.outcome_of(status, timeout) {
            WaitOutcome::Retired(_) => TimelineView {
                reached: self.pending[0].value,
                pending: self.pending.subrange(1, self.pending.len() as int),
                failed: false,
            },
            WaitOutcome::Failed => TimelineView { failed: true, ..self },
            _ => self,
        }
    }

    /// How a synchronisation on `value` ends whose waits the driver answers
    /// with `answers`, one after the other: it takes the next step, and where
    /// that is a wait, goes on after the wait unless the wait timed out.
    /// `None` where the answers run out before the synchronisation ends.
    pub open spec fn sync_end(self, value: u64, timeout: Timeout, answers: Seq<u32>) -> Option<
        SyncEnd,
    >
        decreases answers.len(),
    {
        match self.next_step(value, timeout) {
            SyncStep::Reached => Some(SyncEnd::Reached),
            SyncStep::Deadlocked => Some(SyncEnd::Deadlocked),
            SyncStep::Failed => Some(SyncEnd::Failed),
            SyncStep::Wait(_) => if answers.len() == 0 {
                None
            } else if self.outcome_of(answers[0], timeout) is TimedOut {
                Some(SyncEnd::TimedOut)
            } else {
                self.after_wait(answers[0], timeout).sync_end(value, timeout, answers.drop_first())
            },
        }
    }

    /// The timeline at the end of such a synchronisation, or when the answers
    /// have run out.
    pub open spec fn sync_state(self, value: u64, timeout: Timeout, answers: Seq<u32>) -> TimelineView
        decreases answers.len(),
    {
        match self.next_step(value, timeout) {
            SyncStep::Wait(_) => if answers.len() == 0 || self.outcome_of(answers[0], timeout) is TimedOut {
                self
            } else {
                self.after_wait(answers[0], timeout).sync_state(value, timeout, answers.drop_first())
            },
            _ => self,
        }
    }

    /// A wait leaves a timeline well formed, and the value reached where it
    /// was or above.
    pub proof fn lemma_after_wait(self, status: u32, timeout: Timeout)
        requires
            self.wf(),
        ensures
            self.after_wait(status, timeout).wf(),
            self.after_wait(status, timeout).reached >= self.reached,
            self.outcome_of(status, timeout) is Retired ==> self.after_wait(status, timeout).reached
                > self.reached,
    {
        let after = self.after_wait(status, timeout);
        if self.outcome_of(status, timeout) is Retired {
            assert(self.reached < self.pending[0].value);
            assert forall|i: int| 0 <= i < after.pending.len() implies after.reached < (
            #[trigger] after.pending[i]).value by {
                assert(after.pending[i] == self.pending[i + 1]);
            }
            assert forall|i: int, j: int| 0 <= i < j < after.pending.len() implies (
            #[trigger] after.pending[i]).value < (#[trigger] after.pending[j]).value by {
                assert(after.pending[i] == self.pending[i + 1]);
                assert(after.pending[j] == self.pending[j + 1]);
            }
        }
    }

    /// A synchronisation without limit never ends for want of time: it ends
    /// with the value reached, in a deadlock, or with a failure of the
    /// driver, whatever the driver answers.
    pub proof fn lemma_sync_without_limit(self, value: u64, answers: Seq<u32>)
        ensures
            self.sync_end(value, Timeout::Infinite, answers) != Some(SyncEnd::TimedOut),
        decreases answers.len(),
    {
        if self.next_step(value, Timeout::Infinite) is Wait && answers.len() > 0 {
            self.after_wait(answers[0], Timeout::Infinite).lemma_sync_without_limit(
                value,
                answers.drop_first(),
            );
        }
    }

    /// Whether `value` is reached or a fence is queued that brings the
    /// timeline up to it.
    pub open spec fn is_signalled(self, value: u64) -> bool {
        self.reached >= value || exists|i: int|
            0 <= i < self.pending.len() && (#[trigger] self.pending[i]).value >= value
    }

    /// A synchronisation without limit on a value that was signalled, with a
    /// driver that does not fail, ends in no other way than with the value
    /// reached: as long as the GPU has not got there it goes on waiting,
    /// however often the driver gives up on a wait.
    pub proof fn lemma_sync_without_limit_reaches(self, value: u64, answers: Seq<u32>)
        requires
            self.wf(),
            !self.failed,
            self.is_signalled(value),
            forall|k: int| 0 <= k < answers.len() ==> answers[k] != WAIT_FAILED,
        ensures
            self.sync_end(value, Timeout::Infinite, answers) is None || self.sync_end(
                value,
                Timeout::Infinite,
                answers,
            ) == Some(SyncEnd::Reached),
        decreases answers.len(),
    {
        if self.next_step(value, Timeout::Infinite) is Wait && answers.len() > 0 {
            let after = self.after_wait(answers[0], Timeout::Infinite);
            let rest = answers.drop_first();
            self.lemma_after_wait(answers[0], Timeout::Infinite);
            assert forall|k: int| 0 <= k < rest.len() implies rest[k] != WAIT_FAILED by {
                assert(rest[k] == answers[k + 1]);
            }
            if self.outcome_of(answers[0], Timeout::Infinite) is Retired {
                let i = choose|i: int|
                    0 <= i < self.pending.len() && (#[trigger] self.pending[i]).value >= value;
                if i > 0 {
                    assert(after.pending[i - 1] == self.pending[i]);
                }
            }
            after.lemma_sync_without_limit_reaches(value, rest);
        }
    }

    /// How a synchronisation ends says how the timeline stands then: reached
    /// means that the value reached is `value` or above, a deadlock that it is
    /// below with nothing queued, and a failure that the timeline has failed.
    /// Throughout, the timeline stays well formed and the value reached never
    /// falls.
    pub proof fn lemma_sync_end(self, value: u64, timeout: Timeout, answers: Seq<u32>)
        requires
            self.wf(),
        ensures
            self.sync_state(value, timeout, answers).wf(),
            self.sync_state(value, timeout, answers).reached >= self.reached,
            self.sync_end(value, timeout, answers) == Some(SyncEnd::Reached) ==> self.sync_state(
                value,
                timeout,
                answers,
            ).reached >= value && !self.sync_state(value, timeout, answers).failed,
            self.sync_end(value, timeout, answers) == Some(SyncEnd::Deadlocked) ==> self.sync_state(
                value,
                timeout,
                answers,
            ).reached < value && self.sync_state(value, timeout, answers).pending.len() == 0,
            self.sync_end(value, timeout, answers) == Some(SyncEnd::Failed) ==> self.sync_state(
                value,
                timeout,
                answers,
            ).failed,
            self.sync_end(value, timeout, answers) == Some(SyncEnd::TimedOut) ==> self.sync_state(
                value,
                timeout,
                answers,
            ).reached < value,
        decreases answers.len(),
    {
        if self.next_step(value, timeout) is Wait && answers.len() > 0 && !(self.outcome_of(
            answers[0],
            timeout,
        ) is TimedOut) {
            self.lemma_after_wait(answers[0], timeout);
            self.after_wait(answers[0], timeout).lemma_sync_end(value, timeout, answers.drop_first());
        }
    }

    /// While the driver has not failed, a synchronisation answers `Reached`
    /// exactly when the timeline is at `value` or above, and `Deadlocked`
    /// exactly when it is below and nothing is queued.
    pub proof fn lemma_sync_answers(self, value: u64, timeout: Timeout)
        requires
            !self.failed,
        ensures
            self.next_step(value, timeout) is Reached <==> self.reached >= value,
            self.next_step(value, timeout) is Deadlocked <==> self.reached < value
                && self.pending.len() == 0,
            !(self.next_step(value, timeout) is Failed),
    {
    }

    /// Once the driver has failed, every synchronisation answers the failure
    /// and every wait leaves the timeline as it is.
    pub proof fn lemma_failure_is_final(self, value: u64, timeout: Timeout, status: u32)
        requires
            self.failed,
        ensures
            self.next_step(value, timeout) == SyncStep::Failed,
            self.outcome_of(status, timeout) == WaitOutcome::Failed,
            self.after_wait(status, timeout) == self,
    {
    }
}

/// A counter that follows the GPU: the CPU queues a fence for each value it
/// signals, and the counter takes a value once the GPU has passed its fence.
pub struct Timeline {
    sync_points: VecDeque<SyncPoint>,
    current_value: u64,
    failed: bool,
}

impl View for Timeline {
    type V = TimelineView;

    closed spec fn view(&self) -> TimelineView {
        TimelineView {
            reached: self.current_value,
            pending: self.sync_points@,
            failed: self.failed,
        }
    }
}

impl Timeline {
    /// The invariant of a timeline: that of its value.
    pub open spec fn wf(&self) -> bool {
        self@.wf()
    }

    /// A timeline that has reached `init_value`, has nothing queued and has
    /// not failed.
    pub fn new(init_value: u64) -> (timeline: Timeline)
        ensures
            timeline.wf(),
            timeline@ == (TimelineView { reached: init_value, pending: Seq::empty(), failed: false }),
    {
        let timeline = Timeline {
            sync_points: VecDeque::new(),
            current_value: init_value,
            failed: false,
        };
        assert(timeline@.pending =~= Seq::empty());
        timeline
    }

    /// The value that the GPU is known to have reached.
    pub fn current_value(&self) -> (value: u64)
        ensures
            value == self@.reached,
    {
        self.current_value
    }

    /// The number of fences that the GPU has not been seen to pass.
    pub fn pending_count(&self) -> (n: usize)
        ensures
            n == self@.pending.len(),
    {
        self.sync_points.len()
    }

    /// Whether the driver has failed to wait. A failure is final.
    pub fn has_failed(&self) -> (failed: bool)
        ensures
            failed == self@.failed,
    {
        self.failed
    }

    /// Queues `sync`, a fence just placed in the command stream, as the
    /// signal for `value`. A value that is not above every value signalled or
    /// reached before is refused, and nothing changes.
    pub fn signal(&mut self, sync: Fence, value: u64) -> (result: Result<(), TimelineError>)
        requires
            old(self).wf(),
        ensures
            final(self).wf(),
            result == if value > old(self)@.latest() {
                Ok::<(), TimelineError>(())
            } else {
                Err(TimelineError::NotIncreasing)
            },
            result is Ok ==> final(self)@ == (TimelineView {
                pending: old(self)@.pending.push(SyncPoint { sync, value }),
                ..old(self)@
            }),
            result is Err ==> final(self)@ == old(self)@,
    {
        let queued = self.sync_points.len();
        let latest = if queued == 0 {
            self.current_value
        } else {
            self.sync_points[queued - 1].value
        };
        if value <= latest {
            return Err(TimelineError::NotIncreasing);
        }
        self.sync_points.push_back(SyncPoint { sync, value });
        proof {
            let before = old(self)@.pending;
            let after = self@.pending;
            assert forall|i: int| 0 <= i < after.len() implies self@.reached < (
            #[trigger] after[i]).value by {
                if i < before.len() {
                    assert(after[i] == before[i]);
                }
            }
            assert forall|i: int, j: int| 0 <= i < j < after.len() implies (#[trigger] after[i]).value
                < (#[trigger] after[j]).value by {
                assert(after[i] == before[i]);
                if j < before.len() {
                    assert(after[j] == before[j]);
                } else if i < before.len() - 1 {
                    assert(before[i].value < before[before.len() - 1].value);
                }
            }
        }
        Ok(())
    }

    /// What to do next to bring the timeline up to `value`.
    ///
    /// After a failure of the driver, nothing: the failure is final. If the
    /// timeline is there, nothing. If it is not and nothing is queued,
    /// nothing can be done. Otherwise the wait to perform is one for the
    /// fence at the head of the queue, for the time that `timeout` allows;
    /// without limit, that is the longest time that the driver's interface
    /// can express. The timeline itself changes only when the answer to that
    /// wait is reported.
    pub fn client_sync(&self, value: u64, timeout: Timeout) -> (step: SyncStep)
        ensures
            step == self@.next_step(value, timeout),
    {
        if self.failed {
            return SyncStep::Failed;
        }
        if self.current_value >= value {
            return SyncStep::Reached;
        }
        if self.sync_points.len() == 0 {
            return SyncStep::Deadlocked;
        }
        let timeout = match timeout {
            Timeout::Infinite => TIMEOUT_UNLIMITED,
            Timeout::Nanoseconds(nanoseconds) => nanoseconds,
        };
        SyncStep::Wait(
            WaitRequest { fence: self.sync_points[0].sync, flags: SYNC_FLUSH_COMMANDS_BIT, timeout },
        )
    }

    /// Reports the driver's answer to a wait for the fence at the head of the
    /// queue, which was allowed `timeout`.
    ///
    /// If the GPU has passed the fence, the timeline takes the fence's value
    /// and the fence leaves the queue. If the driver could not wait, the
    /// timeline has failed, for good. If the time ran out, nothing changes:
    /// with a limit the wait has timed out, and without one it is unfinished
    /// and to be asked for again. When nothing is queued, nothing changes
    /// either.
    pub fn wait_finished(&mut self, status: u32, timeout: Timeout) -> (outcome: WaitOutcome)
        requires
            old(self).wf(),
        ensures
            final(self).wf(),
            outcome == old(self)@.outcome_of(status, timeout),
            final(self)@ == old(self)@.after_wait(status, timeout),
            final(self)@.reached >= old(self)@.reached,
    {
        proof {
            old(self)@.lemma_after_wait(status, timeout);
        }
        if self.failed {
            return WaitOutcome::Failed;
        }
        if self.sync_points.len() == 0 {
            return WaitOutcome::NothingPending;
        }
        match classify_wait(status) {
            Ok(()) => {},
            Err(GpuSyncError::Timeout) => {
                return match timeout {
                    Timeout::Infinite => WaitOutcome::Unfinished,
                    Timeout::Nanoseconds(_) => WaitOutcome::TimedOut,
                };
            },
            Err(GpuSyncError::Unspecified) => {
                self.failed = true;
                return WaitOutcome::Failed;
            },
        }
        let target = self.sync_points[0];
        self.current_value = target.value;
        let popped = self.sync_points.pop_front();
        assert(self@.pending =~= old(self)@.pending.subrange(1, old(self)@.pending.len() as int));
        WaitOutcome::Retired(target.sync)
    }
}

} // verus!
