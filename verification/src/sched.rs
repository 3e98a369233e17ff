//! The coalescing scheduler: a hybrid throttle and debounce.
//!
//! Broadcasts fire at most once per frame interval, yet every event that
//! arrives before a flush is included in the next one: the first event after
//! a flush either flushes immediately (when the interval has already
//! elapsed) or schedules one deferred flush for the moment the interval
//! completes, and every further event inside the window rides along with
//! it. A deferred flush is never cancelled; it fires and degrades to a
//! no-op when nothing is pending by then. The scheduler decides; the server
//! around it owns the clock and the timer, feeding in milliseconds from a
//! monotonic clock.

use vstd::prelude::*;

verus! {

/// The minimum spacing of broadcasts: the presence feed targets 30 frames
/// per second, and a whole number of milliseconds keeps the timer simple.
pub const BROADCAST_INTERVAL_MS: u64 = 33;

/// The scheduler state: when the last flush happened and whether a deferred
/// flush is already scheduled.
pub struct Scheduler {
    pub last_flush_ms: u64,
    pub armed: bool,
}

/// What `arm` tells the caller to do.
#[derive(Clone, Copy, Debug, PartialEq, Eq, Structural)]
pub enum ArmOutcome {
    /// The interval has already elapsed: flush immediately.
    FlushNow,
    /// Schedule a deferred flush to run at the given time; call `fire` when
    /// it runs.
    ScheduleAt(u64),
    /// A deferred flush is already scheduled; this event rides along.
    Pending,
}

/// The scheduler state after `arm` at time `now`.
pub open spec fn sp_arm_state(s: Scheduler, now: u64) -> Scheduler
    recommends
        s.last_flush_ms <= now,
{
    if now >= s.last_flush_ms + BROADCAST_INTERVAL_MS {
        Scheduler { last_flush_ms: now, armed: s.armed }
    } else if !s.armed {
        Scheduler { last_flush_ms: s.last_flush_ms, armed: true }
    } else {
        s
    }
}

/// What `arm` at time `now` answers.
pub open spec fn sp_arm_outcome(s: Scheduler, now: u64) -> ArmOutcome
    recommends
        s.last_flush_ms <= now,
        s.last_flush_ms + BROADCAST_INTERVAL_MS <= u64::MAX,
{
    if now >= s.last_flush_ms + BROADCAST_INTERVAL_MS {
        ArmOutcome::FlushNow
    } else if !s.armed {
        ArmOutcome::ScheduleAt((s.last_flush_ms + BROADCAST_INTERVAL_MS) as u64)
    } else {
        ArmOutcome::Pending
    }
}

impl Scheduler {
    /// A scheduler that treats `now` as the moment of the last flush.
    pub fn new(now_ms: u64) -> (s: Scheduler)
        ensures
            s.last_flush_ms == now_ms,
            !s.armed,
    {
        Scheduler { last_flush_ms: now_ms, armed: false }
    }

    /// Called whenever the hub queues a new pending update or removal.
    /// Either the frame interval has already elapsed — flush right away and
    /// record the time — or one deferred flush is made (or already) due
    /// exactly when the interval completes.
    pub fn arm(&mut self, now_ms: u64) -> (r: ArmOutcome)
        requires
            old(self).last_flush_ms <= now_ms,
            now_ms + BROADCAST_INTERVAL_MS <= u64::MAX,
        ensures
            *final(self) == sp_arm_state(*old(self), now_ms),
            r == sp_arm_outcome(*old(self), now_ms),
    {
        if now_ms - self.last_flush_ms >= BROADCAST_INTERVAL_MS {
            self.last_flush_ms = now_ms;
            ArmOutcome::FlushNow
        } else if !self.armed {
            self.armed = true;
            ArmOutcome::ScheduleAt(self.last_flush_ms + BROADCAST_INTERVAL_MS)
        } else {
            ArmOutcome::Pending
        }
    }

    /// The deferred flush fires: record the flush time and clear the armed
    /// flag; the caller then invokes the hub's flush, however many events
    /// were coalesced into this firing.
    pub fn fire(&mut self, now_ms: u64)
        ensures
            final(self).last_flush_ms == now_ms,
            !final(self).armed,
    {
        self.last_flush_ms = now_ms;
        self.armed = false;
    }
}

/// Folds a burst of `arm` calls over the scheduler state, oldest first.
pub open spec fn sp_arm_seq(s: Scheduler, times: Seq<u64>) -> Scheduler
    decreases times.len(),
{
    if times.len() == 0 {
        s
    } else {
        sp_arm_seq(sp_arm_state(s, times[0]), times.drop_first())
    }
}

/// An armed scheduler ignores every further event inside the window: the
/// state does not change.
proof fn lemma_armed_burst_inert(s: Scheduler, times: Seq<u64>)
    requires
        s.armed,
        forall|k: int|
            0 <= k < times.len() ==> #[trigger] times[k] < s.last_flush_ms
                + BROADCAST_INTERVAL_MS,
    ensures
        sp_arm_seq(s, times) == s,
    decreases times.len(),
{
    if times.len() > 0 {
        assert(sp_arm_state(s, times[0]) == s);
        assert forall|k: int|
            0 <= k < times.drop_first().len() implies #[trigger] times.drop_first()[k]
            < s.last_flush_ms + BROADCAST_INTERVAL_MS by {
            assert(times.drop_first()[k] == times[k + 1]);
        }
        lemma_armed_burst_inert(s, times.drop_first());
    }
}

/// Rate bound and coalescing: starting right after a flush (not armed),
/// take any burst of events that all arrive before the frame interval has
/// elapsed. The first arm schedules the single deferred flush, exactly one
/// interval after the previous flush — never earlier; every further arm
/// answers `Pending` and changes nothing; no arm of the burst flushes
/// immediately. The burst therefore causes exactly one flush, no sooner
/// than one interval after the previous one.
pub proof fn lemma_rate_bound(s: Scheduler, times: Seq<u64>)
    requires
        !s.armed,
        times.len() >= 1,
        forall|k: int|
            0 <= k < times.len() ==> s.last_flush_ms <= #[trigger] times[k] < s.last_flush_ms
                + BROADCAST_INTERVAL_MS,
    ensures
        sp_arm_outcome(s, times[0]) == ArmOutcome::ScheduleAt(
            (s.last_flush_ms + BROADCAST_INTERVAL_MS) as u64,
        ),
        sp_arm_seq(s, times) == (Scheduler { last_flush_ms: s.last_flush_ms, armed: true }),
        forall|k: int|
            1 <= k < times.len() ==> sp_arm_outcome(
                sp_arm_seq(s, times.subrange(0, k)),
                times[k],
            ) == ArmOutcome::Pending,
        forall|k: int|
            0 <= k < times.len() ==> sp_arm_outcome(sp_arm_seq(s, times.subrange(0, k)), times[k])
                != ArmOutcome::FlushNow,
{
    let s1 = Scheduler { last_flush_ms: s.last_flush_ms, armed: true };
    assert(sp_arm_state(s, times[0]) == s1);
    assert forall|k: int|
        1 <= k <= times.len() implies #[trigger] sp_arm_seq(s, times.subrange(0, k)) == s1 by {
        let pre = times.subrange(0, k);
        assert(pre[0] == times[0]);
        assert(sp_arm_seq(s, pre) == sp_arm_seq(sp_arm_state(s, pre[0]), pre.drop_first()));
        assert(sp_arm_state(s, pre[0]) == s1);
        assert forall|m: int|
            0 <= m < pre.drop_first().len() implies #[trigger] pre.drop_first()[m]
            < s1.last_flush_ms + BROADCAST_INTERVAL_MS by {
            assert(pre.drop_first()[m] == times[m + 1]);
        }
        lemma_armed_burst_inert(s1, pre.drop_first());
    }
    assert(times.subrange(0, times.len() as int) =~= times);
    assert(sp_arm_seq(s, times) == s1);
    assert(times.subrange(0, 0) =~= Seq::<u64>::empty());
    assert(sp_arm_seq(s, times.subrange(0, 0)) == s);
}

} // verus!
