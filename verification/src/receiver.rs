//! The receiver's decisions: what each frame and each idle tick does to the
//! running figures, and when the loop ends. Instants are nanoseconds since
//! an origin that the caller picks.

use vstd::prelude::*;
use vstd::slice::*;
use crate::frame::{le_value, read_counter, Frame};
use crate::quality::{
    accepts_test_id, decoded, parse_quality_test, test_id_matches, QualityParse,
};
use crate::sequence::{
    classify16, classify32, step_drops, step_ooo, update_counter_stats, update_u16_stats,
};
use crate::stats::{elapsed_between, fresh, Report, Stats};

verus! {

/// Nanoseconds in a millisecond.
pub const NANOS_PER_MILLI: u64 = 1_000_000;

/// How a receiver reads its frames.
#[derive(Clone, Copy, Debug, PartialEq, Eq, Structural)]
pub struct RxMode {
    pub quality_test: bool,
    pub test_id: Option<u8>,
    pub check_counter: bool,
}

/// The running figures of a receiver.
#[derive(Clone, Copy, Debug, PartialEq, Eq, Structural)]
pub struct RxContext {
    pub stats: Stats,
    pub last_counter: Option<u32>,
    pub counter_drops: u64,
    pub counter_ooo: u64,
    pub qt_last_seq: Option<u16>,
    pub qt_drops: u64,
    pub qt_ooo: u64,
    pub qt_invalid: u64,
    pub qt_valid: u64,
    pub qt_last_rx: Option<u64>,
    pub last_rx: Option<u64>,
}

/// What a frame was taken for.
#[derive(Clone, Copy, Debug, PartialEq, Eq, Structural)]
pub enum RxOutcome {
    /// No quality-test payload, or one of another test: not counted at all.
    Ignored,
    /// A quality-test payload with a wrong checksum: counted as invalid.
    Malformed,
    /// A quality-test payload that was counted, with the time since the one
    /// before it where there was one.
    Accepted { interarrival_ns: Option<u64> },
    /// A frame that was counted outside quality-test mode.
    Plain,
}

/// What a receiver's loop is set to do.
#[derive(Clone, Copy, Debug, PartialEq, Eq, Structural)]
pub struct RxLoop {
    pub mode: RxMode,
    /// Frames that were looked at are shown.
    pub dump: bool,
    /// Nothing is reported.
    pub quiet: bool,
    /// Time between two reports, in nanoseconds.
    pub stats_interval: Option<u64>,
    /// Frames to count before the loop ends; zero for no limit.
    pub count: u64,
    /// Time after which the loop ends, in nanoseconds.
    pub duration_ns: Option<u64>,
    /// Idle time after which the loop ends, in milliseconds.
    pub idle_exit_ms: Option<u64>,
}

/// What the loop does after a frame.
#[derive(Clone, Copy, Debug, PartialEq, Eq, Structural)]
pub struct FrameAction {
    pub outcome: RxOutcome,
    /// Show the frame.
    pub dump: bool,
    /// Print this report.
    pub report: Option<Report>,
    /// Leave the loop.
    pub stop: bool,
}

/// What the loop does after an idle tick.
#[derive(Clone, Copy, Debug, PartialEq, Eq, Structural)]
pub struct IdleAction {
    /// Print this report.
    pub report: Option<Report>,
    /// Leave the loop.
    pub stop: bool,
}

/// The time since the last accepted payload.
pub open spec fn interarrival_of(last: Option<u64>, now: u64) -> Option<u64> {
    match last {
        Some(t) => Some(elapsed_between(t, now)),
        None => None,
    }
}

/// What a frame with this payload is taken for.
pub open spec fn outcome_of(c: RxContext, mode: RxMode, payload: Seq<u8>, now: u64) -> RxOutcome {
    if mode.quality_test {
        match decoded(payload) {
            QualityParse::NotQuality => RxOutcome::Ignored,
            QualityParse::Invalid => RxOutcome::Malformed,
            QualityParse::Valid { seq, sender_offset_ms } => if test_id_matches(
                payload,
                mode.test_id,
            ) {
                RxOutcome::Accepted { interarrival_ns: interarrival_of(c.qt_last_rx, now) }
            } else {
                RxOutcome::Ignored
            },
        }
    } else {
        RxOutcome::Plain
    }
}

/// The totals with one more frame of `len` bytes.
pub open spec fn counted(s: Stats, len: nat) -> Stats {
    Stats {
        total_frames: (s.total_frames + 1) as u64,
        total_bytes: (s.total_bytes + len) as u64,
        ..s
    }
}

/// The figures after a frame with this payload.
pub open spec fn context_after(c: RxContext, mode: RxMode, payload: Seq<u8>, now: u64) -> RxContext {
    match outcome_of(c, mode, payload, now) {
        RxOutcome::Ignored => c,
        RxOutcome::Malformed => RxContext { qt_invalid: (c.qt_invalid + 1) as u64, ..c },
        RxOutcome::Accepted { interarrival_ns } => {
            let seq = decoded(payload)->seq;
            RxContext {
                stats: counted(c.stats, payload.len()),
                qt_valid: (c.qt_valid + 1) as u64,
                qt_last_seq: Some(seq),
                qt_drops: (c.qt_drops + step_drops(classify16(c.qt_last_seq, seq))) as u64,
                qt_ooo: (c.qt_ooo + step_ooo(classify16(c.qt_last_seq, seq))) as u64,
                qt_last_rx: Some(now),
                last_rx: Some(now),
                ..c
            }
        },
        RxOutcome::Plain => if mode.check_counter && payload.len() >= 4 {
            let v = le_value(payload);
            RxContext {
                stats: counted(c.stats, payload.len()),
                last_counter: Some(v),
                counter_drops: (c.counter_drops + step_drops(classify32(c.last_counter, v))) as u64,
                counter_ooo: (c.counter_ooo + step_ooo(classify32(c.last_counter, v))) as u64,
                last_rx: Some(now),
                ..c
            }
        } else {
            RxContext { stats: counted(c.stats, payload.len()), last_rx: Some(now), ..c }
        },
    }
}

/// Whether a frame was counted as received.
pub open spec fn is_counted(o: RxOutcome) -> bool {
    o is Accepted || o is Plain
}

/// Whether a report follows a frame: the frame was counted, reports are
/// asked for, and the time since the last one has passed. The report comes
/// after the frame was counted.
pub open spec fn report_follows(c: RxContext, cfg: RxLoop, payload: Seq<u8>, now: u64) -> bool {
    is_counted(outcome_of(c, cfg.mode, payload, now)) && cfg.stats_interval.is_some()
        && context_after(c, cfg.mode, payload, now).stats.report_due(
        cfg.stats_interval.unwrap(),
        now,
    )
}

/// What the loop does after a frame with this payload. A frame that was not
/// counted is shown where it was malformed, and neither reported nor held
/// against the limits.
pub open spec fn frame_action_of(c: RxContext, cfg: RxLoop, payload: Seq<u8>, now: u64) -> FrameAction {
    let outcome = outcome_of(c, cfg.mode, payload, now);
    let after = context_after(c, cfg.mode, payload, now);
    FrameAction {
        outcome,
        dump: cfg.dump && outcome != RxOutcome::Ignored,
        report: if report_follows(c, cfg, payload, now) {
            Some(after.stats.report_for(now))
        } else {
            None
        },
        stop: is_counted(outcome) && finished(after.stats, cfg.count, cfg.duration_ns, now),
    }
}

/// The figures after a frame and the report that may follow it.
pub open spec fn context_after_frame(c: RxContext, cfg: RxLoop, payload: Seq<u8>, now: u64) -> RxContext {
    let after = context_after(c, cfg.mode, payload, now);
    if report_follows(c, cfg, payload, now) {
        RxContext { stats: after.stats.rebased(now), ..after }
    } else {
        after
    }
}

/// What the loop does after an idle tick: it leaves once the idle
/// threshold is reached, with a last report unless the run is quiet.
pub open spec fn idle_action_of(c: RxContext, cfg: RxLoop, now: u64) -> IdleAction {
    let stop = idle_exit_due(c.last_rx, cfg.idle_exit_ms, now);
    IdleAction {
        report: if stop && !cfg.quiet {
            Some(c.stats.report_for(now))
        } else {
            None
        },
        stop,
    }
}

/// The figures after an idle tick.
pub open spec fn context_after_idle(c: RxContext, cfg: RxLoop, now: u64) -> RxContext {
    if idle_action_of(c, cfg, now).report.is_some() {
        RxContext { stats: c.stats.rebased(now), ..c }
    } else {
        c
    }
}

/// Whether the loop ends after a counted frame: the frame count is reached
/// (zero means no limit), or the run has lasted `duration_ns`.
pub open spec fn finished(s: Stats, count: u64, duration_ns: Option<u64>, now: u64) -> bool {
    (count > 0 && s.total_frames >= count) || (duration_ns.is_some() && elapsed_between(
        s.start,
        now,
    ) >= duration_ns.unwrap())
}

/// Whether an idle receiver leaves: a threshold is set, a frame was counted
/// before, and the whole milliseconds since the last one reach the
/// threshold.
pub open spec fn idle_exit_due(last_rx: Option<u64>, idle_exit_ms: Option<u64>, now: u64) -> bool {
    idle_exit_ms.is_some() && last_rx.is_some() && elapsed_between(last_rx.unwrap(), now) as int
        / (NANOS_PER_MILLI as int) >= idle_exit_ms.unwrap()
}

/// The figures of a receiver that starts at `now`.
pub open spec fn started(now: u64) -> RxContext {
    RxContext {
        stats: fresh(now),
        last_counter: None,
        counter_drops: 0,
        counter_ooo: 0,
        qt_last_seq: None,
        qt_drops: 0,
        qt_ooo: 0,
        qt_invalid: 0,
        qt_valid: 0,
        qt_last_rx: None,
        last_rx: None,
    }
}

/// The figures after a run of frames with these payloads, taken at the
/// instants `nows`.
pub open spec fn context_after_run(c: RxContext, mode: RxMode, payloads: Seq<Seq<u8>>, nows: Seq<u64>) -> RxContext
    decreases payloads.len(),
{
    if payloads.len() == 0 || nows.len() != payloads.len() {
        c
    } else {
        context_after(
            context_after_run(c, mode, payloads.drop_last(), nows.drop_last()),
            mode,
            payloads.last(),
            nows.last(),
        )
    }
}

impl RxContext {
    /// The figures are consistent.
    pub open spec fn wf(&self) -> bool {
        self.stats.wf()
    }

    /// Every figure can take one more frame.
    pub open spec fn has_room(&self) -> bool {
        &&& self.stats.total_frames < u64::MAX
        &&& self.stats.total_bytes <= u64::MAX - 64
        &&& self.counter_drops <= u64::MAX - 0x8000_0000
        &&& self.counter_ooo < u64::MAX
        &&& self.qt_drops <= u64::MAX - 0x8000
        &&& self.qt_ooo < u64::MAX
        &&& self.qt_invalid < u64::MAX
        &&& self.qt_valid < u64::MAX
    }

    /// The figures of a receiver that starts at `now`.
    pub fn new(now: u64) -> (c: RxContext)
        ensures
            c == started(now),
            c.wf(),
            c.has_room(),
    {
        RxContext {
            stats: Stats::new(now),
            last_counter: None,
            counter_drops: 0,
            counter_ooo: 0,
            qt_last_seq: None,
            qt_drops: 0,
            qt_ooo: 0,
            qt_invalid: 0,
            qt_valid: 0,
            qt_last_rx: None,
            last_rx: None,
        }
    }

    /// Tells whether every figure can take one more frame.
    pub fn can_take_frame(&self) -> (r: bool)
        ensures
            r == self.has_room(),
    {
        self.stats.total_frames < u64::MAX && self.stats.total_bytes <= u64::MAX - 64
            && self.counter_drops <= u64::MAX - 0x8000_0000 && self.counter_ooo < u64::MAX
            && self.qt_drops <= u64::MAX - 0x8000 && self.qt_ooo < u64::MAX && self.qt_invalid
            < u64::MAX && self.qt_valid < u64::MAX
    }

    /// Takes one received frame at `now`.
    pub fn on_frame(&mut self, mode: RxMode, frame: &Frame, now: u64) -> (outcome: RxOutcome)
        requires
            old(self).wf(),
            old(self).has_room(),
            frame.wf(),
        ensures
            outcome == outcome_of(*old(self), mode, frame@.payload(), now),
            *final(self) == context_after(*old(self), mode, frame@.payload(), now),
            final(self).wf(),
    {
        let len: usize = frame.len as usize;
        let payload = slice_subrange(frame.data.as_slice(), 0, len);
        assert(payload@ =~= frame@.payload());
        if mode.quality_test {
            match parse_quality_test(payload) {
                QualityParse::NotQuality => RxOutcome::Ignored,
                QualityParse::Invalid => {
                    self.qt_invalid = self.qt_invalid + 1;
                    RxOutcome::Malformed
                },
                QualityParse::Valid { seq, sender_offset_ms: _ } => {
                    if !accepts_test_id(payload, mode.test_id) {
                        return RxOutcome::Ignored;
                    }
                    self.stats.add(1, len as u64);
                    self.qt_valid = self.qt_valid + 1;
                    update_u16_stats(seq, &mut self.qt_last_seq, &mut self.qt_drops, &mut self.qt_ooo);
                    let interarrival_ns: Option<u64> = match self.qt_last_rx {
                        Some(t) => Some(
                            if now >= t {
                                now - t
                            } else {
                                0
                            },
                        ),
                        None => None,
                    };
                    self.qt_last_rx = Some(now);
                    self.last_rx = Some(now);
                    RxOutcome::Accepted { interarrival_ns }
                },
            }
        } else {
            self.stats.add(1, len as u64);
            if mode.check_counter {
                match read_counter(payload) {
                    Some(v) => {
                        update_counter_stats(
                            v,
                            &mut self.last_counter,
                            &mut self.counter_drops,
                            &mut self.counter_ooo,
                        );
                    },
                    None => {},
                }
            }
            self.last_rx = Some(now);
            RxOutcome::Plain
        }
    }

    /// Takes one received frame at `now` and says what the loop does next.
    pub fn handle_frame(&mut self, cfg: RxLoop, frame: &Frame, now: u64) -> (action: FrameAction)
        requires
            old(self).wf(),
            old(self).has_room(),
            frame.wf(),
        ensures
            action == frame_action_of(*old(self), cfg, frame@.payload(), now),
            *final(self) == context_after_frame(*old(self), cfg, frame@.payload(), now),
            final(self).wf(),
    {
        let outcome = self.on_frame(cfg.mode, frame, now);
        let counted = match outcome {
            RxOutcome::Accepted { interarrival_ns: _ } => true,
            RxOutcome::Plain => true,
            _ => false,
        };
        let shown = match outcome {
            RxOutcome::Ignored => false,
            _ => cfg.dump,
        };
        if !counted {
            return FrameAction { outcome, dump: shown, report: None, stop: false };
        }
        let report = match cfg.stats_interval {
            Some(interval) => self.stats.maybe_report(interval, now),
            None => None,
        };
        let stop = self.is_finished(cfg.count, cfg.duration_ns, now);
        FrameAction { outcome, dump: shown, report, stop }
    }

    /// Takes an idle tick at `now` and says what the loop does next.
    pub fn handle_idle(&mut self, cfg: RxLoop, now: u64) -> (action: IdleAction)
        requires
            old(self).wf(),
        ensures
            action == idle_action_of(*old(self), cfg, now),
            *final(self) == context_after_idle(*old(self), cfg, now),
            final(self).wf(),
    {
        if !self.on_idle(cfg.idle_exit_ms, now) {
            return IdleAction { report: None, stop: false };
        }
        if cfg.quiet {
            return IdleAction { report: None, stop: true };
        }
        let report = self.stats.report_now(now);
        IdleAction { report: Some(report), stop: true }
    }

    /// Tells after a counted frame whether the loop ends.
    pub fn is_finished(&self, count: u64, duration_ns: Option<u64>, now: u64) -> (r: bool)
        ensures
            r == finished(self.stats, count, duration_ns, now),
    {
        if count > 0 && self.stats.total_frames >= count {
            return true;
        }
        match duration_ns {
            Some(d) => self.stats.elapsed(now) >= d,
            None => false,
        }
    }

    /// Tells on an idle tick whether the receiver leaves.
    pub fn on_idle(&self, idle_exit_ms: Option<u64>, now: u64) -> (leave: bool)
        ensures
            leave == idle_exit_due(self.last_rx, idle_exit_ms, now),
    {
        match (idle_exit_ms, self.last_rx) {
            (Some(idle_ms), Some(last)) => {
                let elapsed: u64 = if now >= last {
                    now - last
                } else {
                    0
                };
                elapsed / NANOS_PER_MILLI >= idle_ms
            },
            _ => false,
        }
    }
}

/// A frame that is ignored leaves every figure as it was: a payload of
/// another test, or data that is no payload, is counted neither as received
/// nor as malformed.
pub proof fn lemma_ignored_changes_nothing(c: RxContext, mode: RxMode, payload: Seq<u8>, now: u64)
    requires
        outcome_of(c, mode, payload, now) == RxOutcome::Ignored,
    ensures
        context_after(c, mode, payload, now) == c,
{
}

/// In quality-test mode a well-formed payload whose test identifier is not
/// the expected one is ignored, and one with the expected identifier is
/// accepted.
pub proof fn lemma_test_id_filter(c: RxContext, mode: RxMode, payload: Seq<u8>, now: u64)
    requires
        mode.quality_test,
        decoded(payload) is Valid,
    ensures
        test_id_matches(payload, mode.test_id) ==> outcome_of(c, mode, payload, now)
            is Accepted,
        !test_id_matches(payload, mode.test_id) ==> outcome_of(c, mode, payload, now)
            == RxOutcome::Ignored,
{
}

/// A receiver that checks the counter and gets, from its start, frames of
/// one length whose counters follow one another, wrapping where the counter
/// wraps, has counted every frame and every byte, and no drop and no
/// out-of-order event.
pub proof fn lemma_counter_run_is_clean(
    start: u64,
    mode: RxMode,
    first: u32,
    len: nat,
    payloads: Seq<Seq<u8>>,
    nows: Seq<u64>,
)
    requires
        !mode.quality_test,
        mode.check_counter,
        payloads.len() == nows.len(),
        payloads.len() < 0x1_0000_0000_0000,
        4 <= len <= 64,
        forall|i: int|
            0 <= i < payloads.len() ==> (#[trigger] payloads[i]).len() == len && le_value(
                payloads[i],
            ) == (first + i) % 0x1_0000_0000,
    ensures
        ({
            let c = context_after_run(started(start), mode, payloads, nows);
            &&& c.stats.total_frames == payloads.len()
            &&& c.stats.total_bytes == payloads.len() * len
            &&& c.stats.last_frames == 0
            &&& c.stats.last_bytes == 0
            &&& c.counter_drops == 0
            &&& c.counter_ooo == 0
            &&& c.last_counter == (if payloads.len() == 0 {
                None
            } else {
                Some(((first + payloads.len() - 1) % 0x1_0000_0000) as u32)
            })
            &&& c.qt_valid == 0
            &&& c.qt_invalid == 0
        }),
    decreases payloads.len(),
{
    let n = payloads.len() as int;
    if n > 0 {
        let init = payloads.drop_last();
        assert forall|i: int| 0 <= i < init.len() implies (#[trigger] init[i]).len() == len
            && le_value(init[i]) == (first + i) % 0x1_0000_0000 by {
            assert(init[i] == payloads[i]);
        }
        lemma_counter_run_is_clean(start, mode, first, len, init, nows.drop_last());
        let prev = context_after_run(started(start), mode, init, nows.drop_last());
        let p = payloads[n - 1];
        assert(p == payloads.last());
        let v = le_value(p);
        assert(v == (first + (n - 1)) % 0x1_0000_0000);
        assert((n - 1) * len + len == n * len) by (nonlinear_arith);
        assert(n * len <= 0x1_0000_0000_0000 * 64) by (nonlinear_arith)
            requires
                0 <= n < 0x1_0000_0000_0000,
                len <= 64,
        ;
        if n > 1 {
            let before = (first + n - 2) % 0x1_0000_0000;
            vstd::arithmetic::div_mod::lemma_mod_bound(first + n - 2, 0x1_0000_0000);
            vstd::arithmetic::div_mod::lemma_add_mod_noop(first + n - 2, 1, 0x1_0000_0000);
            vstd::arithmetic::div_mod::lemma_small_mod(1, 0x1_0000_0000);
            crate::sequence::lemma_successor_in_order(before, 0x1_0000_0000);
            assert(prev.last_counter == Some(before as u32));
            assert(classify32(prev.last_counter, v) == crate::sequence::Step::InOrder);
        }
    }
}

/// Once the time since the last frame has reached a threshold that is set,
/// an idle tick ends the loop; before that, or while no frame has been
/// counted, it does not.
pub proof fn lemma_idle_exit(last: u64, idle_ms: u64, now: u64)
    requires
        now >= last,
    ensures
        now - last >= idle_ms * NANOS_PER_MILLI ==> idle_exit_due(Some(last), Some(idle_ms), now),
        now - last < idle_ms * NANOS_PER_MILLI ==> !idle_exit_due(Some(last), Some(idle_ms), now),
        !idle_exit_due(None, Some(idle_ms), now),
        !idle_exit_due(Some(last), None, now),
{
    let e = (now - last) as int;
    let m = idle_ms as int;
    assert(e >= m * 1_000_000 <==> e / 1_000_000 >= m) by (nonlinear_arith)
        requires
            e >= 0,
            m >= 0,
    ;
}

} // verus!
