//! The sender's decisions: what each frame carries, what is counted after a
//! send, and when the loop ends. Instants are nanoseconds since an origin
//! that the caller picks.

use vstd::prelude::*;
use crate::frame::{le_bytes, le_value, lemma_le_round_trip, put_counter, Frame, FrameView};
use crate::quality::{
    decoded, encoded, fill_quality_test_payload, lemma_round_trip, offset_ms, test_id_matches,
    QualityParse,
};
use crate::pacing::{next_deadline, throttle, wait_at, Wait};
use crate::receiver::{counted, finished};
use crate::stats::{fresh, Stats};

verus! {

/// What a sender writes into each frame.
#[derive(Clone, Copy, Debug, PartialEq, Eq, Structural)]
pub struct TxMode {
    pub quality_test: bool,
    pub test_id: u8,
    pub use_counter: bool,
}

/// The running figures of a sender.
#[derive(Clone, Copy, Debug, PartialEq, Eq, Structural)]
pub struct TxContext {
    pub stats: Stats,
    pub counter: u32,
    pub quality_seq: u16,
    pub tx_drops: u64,
    pub next_send: u64,
}

/// What a sender's loop is set to do.
#[derive(Clone, Copy, Debug, PartialEq, Eq, Structural)]
pub struct TxLoop {
    pub mode: TxMode,
    /// Frames to send before the loop ends; zero for no limit.
    pub limit: u64,
    /// Time after which the loop ends, in nanoseconds.
    pub duration_ns: Option<u64>,
    /// Time between two frames, in nanoseconds; zero for no pacing.
    pub nanos_per_frame: u64,
}

/// What the loop does after a send.
#[derive(Clone, Copy, Debug, PartialEq, Eq, Structural)]
pub enum TxNext {
    /// Leave the loop.
    Stop,
    /// Wait until `deadline`, beginning with `first`, then go on.
    Pace { first: Wait, deadline: u64 },
}

/// What the loop does after the send of a frame of `payload_len` bytes: it
/// ends at the limit or after the duration; else it waits for the deadline
/// of the next frame, or not at all where no pacing is asked for.
pub open spec fn next_of(c: TxContext, cfg: TxLoop, payload_len: u8, now: u64) -> TxNext {
    if finished(counted(c.stats, payload_len as nat), cfg.limit, cfg.duration_ns, now) {
        TxNext::Stop
    } else if cfg.nanos_per_frame == 0 {
        TxNext::Pace { first: Wait::Ready, deadline: c.next_send }
    } else {
        TxNext::Pace { first: wait_at(now, c.next_send), deadline: c.next_send }
    }
}

/// The figures after a send: the frame is counted, and unless the loop ends
/// or runs unpaced the deadline moves on.
pub open spec fn context_sent(c: TxContext, cfg: TxLoop, payload_len: u8, now: u64) -> TxContext {
    let stats = counted(c.stats, payload_len as nat);
    if finished(stats, cfg.limit, cfg.duration_ns, now) || cfg.nanos_per_frame == 0 {
        TxContext { stats, ..c }
    } else {
        TxContext {
            stats,
            next_send: next_deadline(cfg.nanos_per_frame, c.next_send, now) as u64,
            ..c
        }
    }
}

/// The data area of the next frame: a quality-test payload in quality-test
/// mode, else the counter where it is asked for and fits, else the data as
/// it is.
pub open spec fn stamped_data(data: Seq<u8>, mode: TxMode, c: TxContext, elapsed_ms: u64) -> Seq<u8> {
    if mode.quality_test {
        if data.len() >= 8 {
            encoded(c.quality_seq, elapsed_ms, mode.test_id) + data.skip(8)
        } else {
            data
        }
    } else if mode.use_counter {
        if data.len() >= 4 {
            le_bytes(c.counter) + data.skip(4)
        } else {
            data
        }
    } else {
        data
    }
}

/// The figures after a frame was stamped: the number that was written moves
/// on by one and wraps at the end of its range.
pub open spec fn context_stamped(mode: TxMode, c: TxContext) -> TxContext {
    if mode.quality_test {
        TxContext { quality_seq: ((c.quality_seq + 1) % 0x1_0000) as u16, ..c }
    } else if mode.use_counter {
        TxContext { counter: ((c.counter + 1) % 0x1_0000_0000) as u32, ..c }
    } else {
        c
    }
}

impl TxContext {
    /// The figures are consistent.
    pub open spec fn wf(&self) -> bool {
        self.stats.wf()
    }

    /// The totals can take one more frame.
    pub open spec fn has_room(&self) -> bool {
        self.stats.total_frames < u64::MAX && self.stats.total_bytes <= u64::MAX - 255
    }

    /// The figures of a sender that starts at `now`: the first frame is due
    /// at once.
    pub fn new(now: u64) -> (c: TxContext)
        ensures
            c == (TxContext {
                stats: fresh(now),
                counter: 0,
                quality_seq: 0,
                tx_drops: 0,
                next_send: now,
            }),
            c.wf(),
            c.has_room(),
    {
        TxContext { stats: Stats::new(now), counter: 0, quality_seq: 0, tx_drops: 0, next_send: now }
    }

    /// Whether the next deadline fits in 64 bits.
    pub open spec fn can_pace(&self, nanos_per_frame: u64, now: u64) -> bool {
        next_deadline(nanos_per_frame, self.next_send, now) <= u64::MAX
    }

    /// Tells whether the next deadline fits in 64 bits.
    pub fn can_schedule(&self, nanos_per_frame: u64, now: u64) -> (r: bool)
        ensures
            r == self.can_pace(nanos_per_frame, now),
    {
        let base: u64 = if now > self.next_send {
            now
        } else {
            self.next_send
        };
        base <= u64::MAX - nanos_per_frame
    }

    /// Tells whether the totals can take one more frame.
    pub fn can_take_frame(&self) -> (r: bool)
        ensures
            r == self.has_room(),
    {
        self.stats.total_frames < u64::MAX && self.stats.total_bytes <= u64::MAX - 255
    }

    /// Writes into `frame` what the next send carries, `elapsed_ms`
    /// milliseconds after the sender started.
    pub fn stamp_frame(&mut self, mode: TxMode, frame: &mut Frame, elapsed_ms: u64)
        requires
            old(frame).wf(),
        ensures
            final(frame)@ == (FrameView {
                data: stamped_data(old(frame)@.data, mode, *old(self), elapsed_ms),
                ..old(frame)@
            }),
            final(frame).wf(),
            *final(self) == context_stamped(mode, *old(self)),
    {
        if mode.quality_test {
            fill_quality_test_payload(&mut frame.data, self.quality_seq, elapsed_ms, mode.test_id);
            self.quality_seq = self.quality_seq.wrapping_add(1);
        } else if mode.use_counter {
            put_counter(&mut frame.data, self.counter);
            self.counter = self.counter.wrapping_add(1);
        }
    }

    /// Counts a frame of `payload_len` bytes that was handed to the
    /// transport, and tells whether the loop ends: the frame limit is
    /// reached (zero means no limit), or the run has lasted `duration_ns`.
    pub fn after_send(&mut self, payload_len: u8, limit: u64, duration_ns: Option<u64>, now: u64) -> (stop: bool)
        requires
            old(self).wf(),
            old(self).has_room(),
        ensures
            *final(self) == (TxContext {
                stats: counted(old(self).stats, payload_len as nat),
                ..*old(self)
            }),
            stop == finished(final(self).stats, limit, duration_ns, now),
            final(self).wf(),
    {
        self.stats.add(1, payload_len as u64);
        if limit > 0 && self.stats.total_frames >= limit {
            return true;
        }
        match duration_ns {
            Some(d) => self.stats.elapsed(now) >= d,
            None => false,
        }
    }
}

impl TxContext {
    /// Counts a frame that was handed to the transport at `now` and says
    /// what the loop does next.
    pub fn handle_sent(&mut self, cfg: TxLoop, payload_len: u8, now: u64) -> (next: TxNext)
        requires
            old(self).wf(),
            old(self).has_room(),
            old(self).can_pace(cfg.nanos_per_frame, now),
        ensures
            next == next_of(*old(self), cfg, payload_len, now),
            *final(self) == context_sent(*old(self), cfg, payload_len, now),
            final(self).wf(),
    {
        if self.after_send(payload_len, cfg.limit, cfg.duration_ns, now) {
            return TxNext::Stop;
        }
        let deadline = self.next_send;
        let first = throttle(cfg.nanos_per_frame, now, &mut self.next_send);
        TxNext::Pace { first, deadline }
    }
}

/// What a sender stamps, a receiver reads back: in quality-test mode a
/// payload of eight bytes or more decodes to the sequence number and clock
/// offset that were written and carries the sender's test identifier; in
/// counter mode a payload of four bytes or more holds the counter.
pub proof fn lemma_stamped_payload_reads_back(
    data: Seq<u8>,
    len: int,
    mode: TxMode,
    c: TxContext,
    elapsed_ms: u64,
)
    requires
        0 <= len <= data.len(),
    ensures
        mode.quality_test && len >= 8 ==> decoded(
            stamped_data(data, mode, c, elapsed_ms).take(len),
        ) == (QualityParse::Valid { seq: c.quality_seq, sender_offset_ms: offset_ms(elapsed_ms) })
            && test_id_matches(
            stamped_data(data, mode, c, elapsed_ms).take(len),
            Some(mode.test_id),
        ),
        !mode.quality_test && mode.use_counter && len >= 4 ==> le_value(
            stamped_data(data, mode, c, elapsed_ms).take(len),
        ) == c.counter,
        stamped_data(data, mode, c, elapsed_ms).len() == data.len(),
{
    let stamped = stamped_data(data, mode, c, elapsed_ms);
    if mode.quality_test && len >= 8 {
        let tail = data.skip(8).take(len - 8);
        assert(stamped.take(len) =~= encoded(c.quality_seq, elapsed_ms, mode.test_id) + tail);
        lemma_round_trip(c.quality_seq, elapsed_ms, mode.test_id, tail);
    }
    if !mode.quality_test && mode.use_counter && len >= 4 {
        let tail = data.skip(4).take(len - 4);
        assert(stamped.take(len) =~= le_bytes(c.counter) + tail);
        lemma_le_round_trip(c.counter, tail);
    }
}

/// The counters that a sender writes into `n` frames in a row, starting
/// from `first`.
pub open spec fn counters_sent(first: int, n: nat, modulus: int) -> Seq<int> {
    Seq::new(n, |i: int| (first + i) % modulus)
}

/// What a sender writes in a row, a receiver that loses nothing reads as a
/// run without drops and without out-of-order events, however long the run
/// and wherever the counter wraps.
pub proof fn lemma_sent_run_is_clean(first: int, n: nat, modulus: int)
    requires
        modulus > 0,
        0 <= first < modulus,
    ensures
        crate::sequence::drops_over(None, counters_sent(first, n, modulus), modulus) == 0,
        crate::sequence::ooo_over(None, counters_sent(first, n, modulus), modulus) == 0,
{
    let vs = counters_sent(first, n, modulus);
    assert forall|i: int| 0 <= i < vs.len() implies 0 <= #[trigger] vs[i] < modulus by {
        vstd::arithmetic::div_mod::lemma_mod_bound(first + i, modulus);
    }
    assert forall|i: int| 0 <= i < vs.len() - 1 implies #[trigger] vs[i + 1] == (vs[i] + 1)
        % modulus by {
        vstd::arithmetic::div_mod::lemma_add_mod_noop(first + i, 1, modulus);
        vstd::arithmetic::div_mod::lemma_mod_bound(first + i, modulus);
        if modulus == 1 {
            vstd::arithmetic::div_mod::lemma_mod_bound(first + i + 1, modulus);
            vstd::arithmetic::div_mod::lemma_mod_bound(vs[i] + 1, modulus);
        } else {
            vstd::arithmetic::div_mod::lemma_small_mod(1, modulus as nat);
        }
    }
    crate::sequence::lemma_consecutive_run_is_clean(None, vs, modulus);
}

} // verus!
