//! The pacing schedule: one deadline on a monotonic clock, advanced by a
//! fixed interval after each send. Instants are nanoseconds since an origin
//! that the caller picks.

use vstd::prelude::*;

verus! {

/// Remaining time above which the wait is a sleep and at or below which it
/// is a busy-wait, in nanoseconds.
pub const SPIN_THRESHOLD_NS: u64 = 200_000;

/// Longest delay between two frames that may be asked for, in nanoseconds.
pub const MAX_DELAY_NS: u64 = 1_000_000_000;

/// Nanoseconds in a second.
pub const NANOS_PER_SEC: u64 = 1_000_000_000;

/// Why a pacing request is refused.
#[derive(Clone, Copy, Debug, PartialEq, Eq, Structural)]
pub enum PacingError {
    /// The delay is longer than a second.
    DelayOutOfRange,
    /// Both a delay and a rate were given.
    DelayAndRate,
}

/// What the sender does before the next frame.
#[derive(Clone, Copy, Debug, PartialEq, Eq, Structural)]
pub enum Wait {
    /// The deadline has come: send.
    Ready,
    /// Sleep for so many nanoseconds, then ask again.
    Sleep(u64),
    /// Poll the clock and ask again.
    Spin,
}

/// The interval between two frames, in nanoseconds: the delay where one is
/// given, a second divided by the rate where a rate is given, zero
/// (unthrottled) otherwise.
pub open spec fn interval_for(delay_ns: Option<u64>, rate: u64) -> Result<u64, PacingError> {
    match delay_ns {
        Some(d) => if d > MAX_DELAY_NS {
            Err(PacingError::DelayOutOfRange)
        } else if rate > 0 {
            Err(PacingError::DelayAndRate)
        } else {
            Ok(d)
        },
        None => if rate > 0 {
            Ok((NANOS_PER_SEC as int / rate as int) as u64)
        } else {
            Ok(0)
        },
    }
}

/// Computes the interval between two frames.
pub fn frame_interval(delay_ns: Option<u64>, rate: u64) -> (r: Result<u64, PacingError>)
    ensures
        r == interval_for(delay_ns, rate),
{
    match delay_ns {
        Some(d) => {
            if d > MAX_DELAY_NS {
                Err(PacingError::DelayOutOfRange)
            } else if rate > 0 {
                Err(PacingError::DelayAndRate)
            } else {
                Ok(d)
            }
        },
        None => {
            if rate > 0 {
                Ok(NANOS_PER_SEC / rate)
            } else {
                Ok(0)
            }
        },
    }
}

/// What to do at `now` when the next frame is due at `deadline`.
pub open spec fn wait_at(now: u64, deadline: u64) -> Wait {
    if now >= deadline {
        Wait::Ready
    } else if deadline - now > SPIN_THRESHOLD_NS {
        Wait::Sleep((deadline - now - SPIN_THRESHOLD_NS) as u64)
    } else {
        Wait::Spin
    }
}

/// Decides how to wait for the deadline: not at all once it has come, by
/// sleeping up to the last 200 microseconds before it, by polling after that.
pub fn plan_wait(now: u64, deadline: u64) -> (w: Wait)
    ensures
        w == wait_at(now, deadline),
{
    if now >= deadline {
        Wait::Ready
    } else if deadline - now > SPIN_THRESHOLD_NS {
        Wait::Sleep(deadline - now - SPIN_THRESHOLD_NS)
    } else {
        Wait::Spin
    }
}

/// The deadline that follows `deadline` when the wait for it began at `now`:
/// one interval after the later of the two.
pub open spec fn next_deadline(interval: u64, deadline: u64, now: u64) -> int {
    if now > deadline {
        now + interval
    } else {
        deadline + interval
    }
}

/// Starts the wait for the frame that is due at `*next_send` and moves the
/// deadline on. With an interval of zero nothing happens. The result tells
/// the caller how to begin the wait; the caller then asks `plan_wait`, with
/// the deadline as it was, until the answer is `Ready`.
pub fn throttle(nanos_per_frame: u64, now: u64, next_send: &mut u64) -> (w: Wait)
    requires
        next_deadline(nanos_per_frame, *old(next_send), now) <= u64::MAX,
    ensures
        nanos_per_frame == 0 ==> w == Wait::Ready && *final(next_send) == *old(next_send),
        nanos_per_frame > 0 ==> w == wait_at(now, *old(next_send)) && *final(next_send)
            == next_deadline(nanos_per_frame, *old(next_send), now),
{
    if nanos_per_frame == 0 {
        return Wait::Ready;
    }
    let w = plan_wait(now, *next_send);
    let base: u64 = if now > *next_send {
        now
    } else {
        *next_send
    };
    *next_send = base + nanos_per_frame;
    w
}

/// The deadline after a run of sends whose waits began at the instants
/// `nows`, in order.
pub open spec fn deadline_after(interval: u64, deadline: int, nows: Seq<u64>) -> int
    decreases nows.len(),
{
    if nows.len() == 0 {
        deadline
    } else {
        let d = deadline_after(interval, deadline, nows.drop_last());
        if nows.last() > d {
            nows.last() + interval
        } else {
            d + interval
        }
    }
}

/// The wait ends when the clock reaches the deadline and not before; a
/// sleep is asked for only while more than 200 microseconds remain, and it
/// ends 200 microseconds before the deadline, from where the clock is
/// polled.
pub proof fn lemma_wait_plan(now: u64, deadline: u64)
    ensures
        wait_at(now, deadline) == Wait::Ready <==> now >= deadline,
        wait_at(now, deadline) == Wait::Spin <==> 0 < deadline - now <= SPIN_THRESHOLD_NS,
        wait_at(now, deadline) is Sleep <==> deadline - now > SPIN_THRESHOLD_NS,
        wait_at(now, deadline) is Sleep ==> wait_at(now, deadline)->Sleep_0 > 0 && now + wait_at(
            now,
            deadline,
        )->Sleep_0 + SPIN_THRESHOLD_NS == deadline,
{
}

/// No burst and no backlog: the new deadline is at least one interval after
/// the old one and after the instant at which the wait began, and it is
/// exactly one interval after the later of the two. A sender that is late
/// does not send the frames it missed in a row, and one that is early keeps
/// its schedule.
pub proof fn lemma_no_burst_no_backlog(interval: u64, deadline: u64, now: u64)
    ensures
        next_deadline(interval, deadline, now) >= deadline + interval,
        next_deadline(interval, deadline, now) >= now + interval,
        now <= deadline ==> next_deadline(interval, deadline, now) == deadline + interval,
        now >= deadline ==> next_deadline(interval, deadline, now) == now + interval,
{
}

/// While each wait begins no later than its deadline the schedule does not
/// drift: after `n` sends the deadline is `n` intervals after the first. In
/// any case it is at least that late: on average frames never leave faster
/// than the interval allows.
pub proof fn lemma_schedule(interval: u64, deadline: int, nows: Seq<u64>)
    ensures
        deadline_after(interval, deadline, nows) >= deadline + nows.len() * interval,
        (forall|i: int|
            0 <= i < nows.len() ==> #[trigger] nows[i] <= deadline + i * interval)
            ==> deadline_after(interval, deadline, nows) == deadline + nows.len() * interval,
    decreases nows.len(),
{
    if nows.len() > 0 {
        let init = nows.drop_last();
        lemma_schedule(interval, deadline, init);
        let n = init.len() as int;
        assert((n + 1) * interval == n * interval + interval) by (nonlinear_arith);
        if forall|i: int| 0 <= i < nows.len() ==> #[trigger] nows[i] <= deadline + i * interval {
            assert forall|i: int| 0 <= i < init.len() implies #[trigger] init[i] <= deadline + i
                * interval by {
                assert(init[i] == nows[i]);
            }
            assert(nows[n] <= deadline + n * interval);
        }
    }
}

/// At a rate of `rate` frames a second, with `rate` between 1 and a
/// thousand million, `rate` intervals take at most a second and fall short
/// of it by less than `rate` nanoseconds.
pub proof fn lemma_rate_fills_second(rate: u64)
    requires
        0 < rate <= NANOS_PER_SEC,
    ensures
        interval_for(None, rate).is_ok(),
        interval_for(None, rate).unwrap() > 0,
        NANOS_PER_SEC - rate < rate * interval_for(None, rate).unwrap() <= NANOS_PER_SEC,
{
    let q = NANOS_PER_SEC as int / rate as int;
    vstd::arithmetic::div_mod::lemma_fundamental_div_mod(NANOS_PER_SEC as int, rate as int);
    vstd::arithmetic::div_mod::lemma_mod_bound(NANOS_PER_SEC as int, rate as int);
    vstd::arithmetic::div_mod::lemma_div_pos_is_pos(NANOS_PER_SEC as int, rate as int);
    assert(q >= 1) by (nonlinear_arith)
        requires
            q >= 0,
            0 < rate <= 1_000_000_000,
            1_000_000_000 == rate * q + (1_000_000_000int % rate as int),
            0 <= (1_000_000_000int % rate as int) < rate,
    ;
}

} // verus!
