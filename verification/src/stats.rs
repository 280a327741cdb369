//! Frame and byte totals, and the figures of each report. Instants are
//! nanoseconds since an origin that the caller picks.

use vstd::prelude::*;
use crate::pacing::NANOS_PER_SEC;

verus! {

/// Running totals of a send or receive loop.
#[derive(Clone, Copy, Debug, PartialEq, Eq, Structural)]
pub struct Stats {
    pub start: u64,
    pub last_report: u64,
    pub last_frames: u64,
    pub last_bytes: u64,
    pub total_frames: u64,
    pub total_bytes: u64,
}

/// The figures of one report: what was counted since the report before it,
/// over how long, and the total of frames.
#[derive(Clone, Copy, Debug, PartialEq, Eq, Structural)]
pub struct Report {
    pub total_frames: u64,
    pub frames: u64,
    pub bytes: u64,
    pub elapsed_ns: u64,
}

/// Time from `earlier` to `later`, zero where `later` is not later.
pub open spec fn elapsed_between(earlier: u64, later: u64) -> u64 {
    if later >= earlier {
        (later - earlier) as u64
    } else {
        0
    }
}

/// Empty totals for a loop that starts at `now`.
pub open spec fn fresh(now: u64) -> Stats {
    Stats {
        start: now,
        last_report: now,
        last_frames: 0,
        last_bytes: 0,
        total_frames: 0,
        total_bytes: 0,
    }
}

impl Stats {
    /// The totals never fall behind what the last report counted.
    pub open spec fn wf(&self) -> bool {
        &&& self.last_frames <= self.total_frames
        &&& self.last_bytes <= self.total_bytes
    }

    /// What a report at `now` says.
    pub open spec fn report_for(&self, now: u64) -> Report {
        Report {
            total_frames: self.total_frames,
            frames: (self.total_frames - self.last_frames) as u64,
            bytes: (self.total_bytes - self.last_bytes) as u64,
            elapsed_ns: elapsed_between(self.last_report, now),
        }
    }

    /// The totals after a report at `now`.
    pub open spec fn rebased(&self, now: u64) -> Stats {
        Stats {
            start: self.start,
            last_report: now,
            last_frames: self.total_frames,
            last_bytes: self.total_bytes,
            total_frames: self.total_frames,
            total_bytes: self.total_bytes,
        }
    }

    /// Whether a report is due at `now`, `interval` nanoseconds after the
    /// last one at the earliest.
    pub open spec fn report_due(&self, interval: u64, now: u64) -> bool {
        elapsed_between(self.last_report, now) >= interval
    }

    /// Empty totals for a loop that starts at `now`.
    pub fn new(now: u64) -> (s: Stats)
        ensures
            s == fresh(now),
            s.wf(),
    {
        Stats {
            start: now,
            last_report: now,
            last_frames: 0,
            last_bytes: 0,
            total_frames: 0,
            total_bytes: 0,
        }
    }

    /// Counts `frames` frames of `bytes` bytes in all.
    pub fn add(&mut self, frames: u64, bytes: u64)
        requires
            old(self).wf(),
            old(self).total_frames + frames <= u64::MAX,
            old(self).total_bytes + bytes <= u64::MAX,
        ensures
            *final(self) == (Stats {
                total_frames: (old(self).total_frames + frames) as u64,
                total_bytes: (old(self).total_bytes + bytes) as u64,
                ..*old(self)
            }),
            final(self).wf(),
    {
        self.total_frames = self.total_frames + frames;
        self.total_bytes = self.total_bytes + bytes;
    }

    /// Time since the loop started.
    pub fn elapsed(&self, now: u64) -> (e: u64)
        ensures
            e == elapsed_between(self.start, now),
    {
        if now >= self.start {
            now - self.start
        } else {
            0
        }
    }

    /// Takes a report at `now` and makes it the baseline of the next.
    pub fn report_at(&mut self, now: u64) -> (r: Report)
        requires
            old(self).wf(),
        ensures
            r == old(self).report_for(now),
            *final(self) == old(self).rebased(now),
            final(self).wf(),
    {
        let elapsed_ns: u64 = if now >= self.last_report {
            now - self.last_report
        } else {
            0
        };
        let r = Report {
            total_frames: self.total_frames,
            frames: self.total_frames - self.last_frames,
            bytes: self.total_bytes - self.last_bytes,
            elapsed_ns,
        };
        self.last_report = now;
        self.last_frames = self.total_frames;
        self.last_bytes = self.total_bytes;
        r
    }

    /// Takes a report at `now`, whenever the last one was.
    pub fn report_now(&mut self, now: u64) -> (r: Report)
        requires
            old(self).wf(),
        ensures
            r == old(self).report_for(now),
            *final(self) == old(self).rebased(now),
            final(self).wf(),
    {
        self.report_at(now)
    }

    /// Takes a report at `now` if `interval` nanoseconds have passed since
    /// the last one; otherwise changes nothing.
    pub fn maybe_report(&mut self, interval: u64, now: u64) -> (r: Option<Report>)
        requires
            old(self).wf(),
        ensures
            old(self).report_due(interval, now) ==> r == Some(old(self).report_for(now))
                && *final(self) == old(self).rebased(now),
            !old(self).report_due(interval, now) ==> r.is_none() && *final(self) == *old(self),
            final(self).wf(),
    {
        let elapsed_ns: u64 = if now >= self.last_report {
            now - self.last_report
        } else {
            0
        };
        if elapsed_ns < interval {
            return None;
        }
        Some(self.report_at(now))
    }
}

/// A time in seconds as nanoseconds, 64 bits of them at most.
pub open spec fn nanos_of_secs(secs: u64) -> u64 {
    if secs * NANOS_PER_SEC > u64::MAX {
        u64::MAX
    } else {
        (secs * NANOS_PER_SEC) as u64
    }
}

/// Converts seconds to nanoseconds, 64 bits of them at most.
pub fn seconds_to_nanos(secs: u64) -> (ns: u64)
    ensures
        ns == nanos_of_secs(secs),
{
    match secs.checked_mul(NANOS_PER_SEC) {
        Some(ns) => ns,
        None => u64::MAX,
    }
}

/// The time between two reports, in nanoseconds: none for a quiet run or
/// an interval of zero seconds.
pub open spec fn report_interval_of(quiet: bool, interval_secs: u64) -> Option<u64> {
    if quiet || interval_secs == 0 {
        None
    } else {
        Some(nanos_of_secs(interval_secs))
    }
}

/// Computes the time between two reports.
pub fn report_interval(quiet: bool, interval_secs: u64) -> (r: Option<u64>)
    ensures
        r == report_interval_of(quiet, interval_secs),
{
    if quiet || interval_secs == 0 {
        None
    } else {
        Some(seconds_to_nanos(interval_secs))
    }
}

/// Reports partition the totals: the frames and bytes of a report, added to
/// what the reports before it counted, are the totals at that moment, and
/// right after a report nothing is left to report.
pub proof fn lemma_reports_partition(s: Stats, now: u64, later: u64)
    requires
        s.wf(),
    ensures
        s.last_frames + s.report_for(now).frames == s.total_frames,
        s.last_bytes + s.report_for(now).bytes == s.total_bytes,
        s.rebased(now).wf(),
        s.rebased(now).report_for(later).frames == 0,
        s.rebased(now).report_for(later).bytes == 0,
{
}

} // verus!
