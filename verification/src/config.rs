//! What a sender or a receiver is asked to do, checked and turned into the
//! values that its loop works with. Every refusal comes before a transport
//! is opened.

use vstd::prelude::*;
use vstd::string::*;
use crate::frame::{
    build_can_id, build_filter, encoded_id, filter_for, max_len_of, max_payload_len, CanFilter,
    CAN_EFF_MASK,
};
use crate::pacing::{frame_interval, interval_for, PacingError};
use crate::parse::{hex_bytes_of, parse_hex_bytes, ParseError};

verus! {

/// Payload length when neither a length nor data is given.
pub const DEFAULT_LEN: usize = 8;

/// Bytes that the counter takes at the start of the payload.
pub const COUNTER_LEN: usize = 4;

/// Longest receive timeout, in milliseconds: the idle check runs at least
/// this often however long the idle threshold is.
pub const MAX_RECV_TIMEOUT_MS: u64 = 200;

/// Why a request is refused.
#[derive(Clone, Copy, Debug, PartialEq, Eq, Structural)]
pub enum ConfigError {
    /// The identifier does not fit in 29 bits.
    IdOutOfRange(u32),
    /// The loop count is zero.
    LoopZero,
    /// The delay is not between 0 and 1000 milliseconds.
    DelayOutOfRange,
    /// Both a delay and a rate were given.
    DelayAndRate,
    /// A length was given in quality-test mode.
    LenWithQuality,
    /// Data was given in quality-test mode.
    DataWithQuality,
    /// The counter was asked for in quality-test mode.
    CounterWithQuality,
    /// The data is no hexadecimal payload.
    BadData(ParseError),
    /// The payload is longer than the frame allows.
    LenExceedsMax { len: usize, max: usize },
    /// The counter needs a payload of four bytes at least.
    CounterNeedsLen,
    /// A loop count above one needs a frame count.
    LoopRequiresCount,
    /// Frame count times loop count does not fit in 64 bits.
    LoopOverflow,
    /// A mask was given without an identifier.
    MaskRequiresId,
    /// The counter check was asked for in quality-test mode.
    CheckCounterWithQuality,
}

/// `bytes` cut or filled up with `fill` to `len` bytes.
pub open spec fn resized(bytes: Seq<u8>, len: int, fill: u8) -> Seq<u8> {
    Seq::new(
        len as nat,
        |i: int|
            if i < bytes.len() {
                bytes[i]
            } else {
                fill
            },
    )
}

/// The length of a payload: the one asked for, else that of the data, else
/// eight.
pub open spec fn payload_len_of(len: Option<usize>, data_len: nat) -> nat {
    match len {
        Some(l) => l as nat,
        None => if data_len > 0 {
            data_len
        } else {
            DEFAULT_LEN as nat
        },
    }
}

/// The payload for a length and data that were asked for.
pub open spec fn payload_of(max_len: usize, len: Option<usize>, data: Option<Seq<char>>, fill: u8) -> Result<
    Seq<u8>,
    ConfigError,
> {
    let parsed = match data {
        Some(d) => hex_bytes_of(d),
        None => Ok(Seq::<u8>::empty()),
    };
    match parsed {
        Err(e) => Err(ConfigError::BadData(e)),
        Ok(bytes) => {
            let n = payload_len_of(len, bytes.len());
            if n > max_len {
                Err(ConfigError::LenExceedsMax { len: n as usize, max: max_len })
            } else {
                Ok(resized(bytes, n as int, fill))
            }
        },
    }
}

/// The characters of an optional text.
pub open spec fn text_of(data: Option<String>) -> Option<Seq<char>> {
    match data {
        Some(d) => Some(d@),
        None => None,
    }
}

/// Builds the payload of the frames to send: the data, cut or filled up
/// with `fill` to the length asked for. The second part of the result is the
/// payload's length.
pub fn build_payload(max_len: usize, len: Option<usize>, data: Option<String>, fill: u8) -> (r: Result<
    (Vec<u8>, usize),
    ConfigError,
>)
    ensures
        match r {
            Ok(p) => payload_of(max_len, len, text_of(data), fill) == Ok::<Seq<u8>, ConfigError>(
                p.0@,
            ) && p.1 == p.0@.len(),
            Err(e) => payload_of(max_len, len, text_of(data), fill) == Err::<
                Seq<u8>,
                ConfigError,
            >(e),
        },
{
    let mut payload: Vec<u8> = match &data {
        Some(d) => match parse_hex_bytes(d.as_str()) {
            Ok(bytes) => bytes,
            Err(e) => {
                return Err(ConfigError::BadData(e));
            },
        },
        None => Vec::new(),
    };
    let ghost bytes = payload@;
    let payload_len: usize = match len {
        Some(l) => l,
        None => if payload.len() > 0 {
            payload.len()
        } else {
            DEFAULT_LEN
        },
    };
    if payload_len > max_len {
        return Err(ConfigError::LenExceedsMax { len: payload_len, max: max_len });
    }
    if payload.len() > payload_len {
        payload.truncate(payload_len);
    }
    while payload.len() < payload_len
        invariant
            payload@.len() <= payload_len,
            payload@.len() >= bytes.len() || payload@.len() >= payload_len,
            forall|i: int| 0 <= i < payload@.len() && i < bytes.len() ==> payload@[i] == bytes[i],
            forall|i: int| 0 <= i < payload@.len() && i >= bytes.len() ==> payload@[i] == fill,
        decreases payload_len - payload@.len(),
    {
        payload.push(fill);
    }
    assert(payload@ =~= resized(bytes, payload_len as int, fill));
    Ok((payload, payload_len))
}

/// The number of frames to send in all.
pub open spec fn total_frames_of(count: u64, loop_count: u64) -> Result<u64, ConfigError> {
    if loop_count <= 1 {
        Ok(count)
    } else if count == 0 {
        Err(ConfigError::LoopRequiresCount)
    } else if count * loop_count > u64::MAX {
        Err(ConfigError::LoopOverflow)
    } else {
        Ok((count * loop_count) as u64)
    }
}

/// Multiplies the frame count by the loop count. A count of zero means no
/// limit, and cannot be looped.
pub fn apply_loop_count(count: u64, loop_count: u64) -> (r: Result<u64, ConfigError>)
    ensures
        r == total_frames_of(count, loop_count),
{
    if loop_count <= 1 {
        return Ok(count);
    }
    if count == 0 {
        return Err(ConfigError::LoopRequiresCount);
    }
    match count.checked_mul(loop_count) {
        Some(total) => Ok(total),
        None => Err(ConfigError::LoopOverflow),
    }
}

/// What a sender is asked to do.
#[derive(Clone, Debug)]
pub struct SenderSettings {
    pub id: u32,
    pub extended: bool,
    pub fd: bool,
    pub quality_test: bool,
    pub test_id: u8,
    pub len: Option<usize>,
    pub data: Option<String>,
    pub fill: u8,
    pub counter: bool,
    pub count: u64,
    pub loop_count: u64,
    pub rate: u64,
    pub delay_ns: Option<u64>,
}

/// What a sender's loop works with.
#[derive(Clone, Debug)]
pub struct SenderPlan {
    pub can_id: u32,
    pub payload: Vec<u8>,
    pub total_limit: u64,
    pub nanos_per_frame: u64,
}

/// A sender's plan as plain values.
pub struct SenderPlanView {
    pub can_id: u32,
    pub payload: Seq<u8>,
    pub total_limit: u64,
    pub nanos_per_frame: u64,
}

impl View for SenderPlan {
    type V = SenderPlanView;

    open spec fn view(&self) -> SenderPlanView {
        SenderPlanView {
            can_id: self.can_id,
            payload: self.payload@,
            total_limit: self.total_limit,
            nanos_per_frame: self.nanos_per_frame,
        }
    }
}

/// The interval between frames, with the refusals of a sender's request.
pub open spec fn sender_interval_of(s: SenderSettings) -> Result<u64, ConfigError> {
    match interval_for(s.delay_ns, s.rate) {
        Err(PacingError::DelayOutOfRange) => Err(ConfigError::DelayOutOfRange),
        Err(PacingError::DelayAndRate) => Err(ConfigError::DelayAndRate),
        Ok(ns) => Ok(ns),
    }
}

/// The payload of a sender's frames, with the refusals of its request. In
/// quality-test mode it is eight zero bytes, which each frame overwrites.
pub open spec fn sender_payload_of(s: SenderSettings) -> Result<Seq<u8>, ConfigError> {
    if s.quality_test {
        if s.len.is_some() {
            Err(ConfigError::LenWithQuality)
        } else if s.data.is_some() {
            Err(ConfigError::DataWithQuality)
        } else if s.counter {
            Err(ConfigError::CounterWithQuality)
        } else {
            Ok(Seq::new(8, |i: int| 0u8))
        }
    } else {
        match payload_of(max_len_of(s.fd), s.len, text_of(s.data), s.fill) {
            Err(e) => Err(e),
            Ok(p) => if s.counter && p.len() < COUNTER_LEN {
                Err(ConfigError::CounterNeedsLen)
            } else {
                Ok(p)
            },
        }
    }
}

/// The plan for a sender's request. The checks are made in this order, and
/// the first that fails gives the error.
pub open spec fn sender_plan_of(s: SenderSettings) -> Result<SenderPlanView, ConfigError> {
    if s.id > CAN_EFF_MASK {
        Err(ConfigError::IdOutOfRange(s.id))
    } else if s.loop_count == 0 {
        Err(ConfigError::LoopZero)
    } else {
        match sender_interval_of(s) {
            Err(e) => Err(e),
            Ok(nanos_per_frame) => match sender_payload_of(s) {
                Err(e) => Err(e),
                Ok(payload) => match total_frames_of(s.count, s.loop_count) {
                    Err(e) => Err(e),
                    Ok(total_limit) => Ok(
                        (SenderPlanView {
                            can_id: encoded_id(s.id, s.extended),
                            payload,
                            total_limit,
                            nanos_per_frame,
                        }),
                    ),
                },
            },
        }
    }
}

/// Checks a sender's request and works out its plan.
pub fn plan_sender(s: SenderSettings) -> (r: Result<SenderPlan, ConfigError>)
    ensures
        match r {
            Ok(p) => sender_plan_of(s) == Ok::<SenderPlanView, ConfigError>(p@),
            Err(e) => sender_plan_of(s) == Err::<SenderPlanView, ConfigError>(e),
        },
{
    if s.id > CAN_EFF_MASK {
        return Err(ConfigError::IdOutOfRange(s.id));
    }
    if s.loop_count == 0 {
        return Err(ConfigError::LoopZero);
    }
    let nanos_per_frame: u64 = match frame_interval(s.delay_ns, s.rate) {
        Err(PacingError::DelayOutOfRange) => {
            return Err(ConfigError::DelayOutOfRange);
        },
        Err(PacingError::DelayAndRate) => {
            return Err(ConfigError::DelayAndRate);
        },
        Ok(ns) => ns,
    };
    let can_id = build_can_id(s.id, s.extended);
    let count = s.count;
    let loop_count = s.loop_count;
    let payload: Vec<u8> = if s.quality_test {
        if s.len.is_some() {
            return Err(ConfigError::LenWithQuality);
        }
        if s.data.is_some() {
            return Err(ConfigError::DataWithQuality);
        }
        if s.counter {
            return Err(ConfigError::CounterWithQuality);
        }
        let mut zeros: Vec<u8> = Vec::new();
        while zeros.len() < 8
            invariant
                zeros@.len() <= 8,
                forall|i: int| 0 <= i < zeros@.len() ==> zeros@[i] == 0u8,
            decreases 8 - zeros@.len(),
        {
            zeros.push(0u8);
        }
        assert(zeros@ =~= Seq::new(8, |i: int| 0u8));
        zeros
    } else {
        let counter = s.counter;
        match build_payload(max_payload_len(s.fd), s.len, s.data, s.fill) {
            Err(e) => {
                return Err(e);
            },
            Ok((payload, payload_len)) => {
                if counter && payload_len < COUNTER_LEN {
                    return Err(ConfigError::CounterNeedsLen);
                }
                payload
            },
        }
    };
    let total_limit: u64 = match apply_loop_count(count, loop_count) {
        Err(e) => {
            return Err(e);
        },
        Ok(t) => t,
    };
    Ok(SenderPlan { can_id, payload, total_limit, nanos_per_frame })
}

/// What a receiver is asked to do.
#[derive(Clone, Copy, Debug, PartialEq, Eq, Structural)]
pub struct ReceiverSettings {
    pub id: Option<u32>,
    pub mask: Option<u32>,
    pub extended: bool,
    pub fd: bool,
    pub quality_test: bool,
    pub check_counter: bool,
    pub idle_exit_ms: u64,
}

/// What a receiver's loop works with.
#[derive(Clone, Copy, Debug, PartialEq, Eq, Structural)]
pub struct ReceiverPlan {
    pub filter: Option<CanFilter>,
    pub idle_exit_ms: Option<u64>,
    pub recv_timeout_ms: Option<u64>,
    pub max_len: usize,
}

/// The idle threshold: zero means that the receiver never leaves for
/// idleness.
pub open spec fn idle_threshold_of(idle_exit_ms: u64) -> Option<u64> {
    if idle_exit_ms == 0 {
        None
    } else {
        Some(idle_exit_ms)
    }
}

/// The receive timeout for an idle threshold: the threshold itself, and 200
/// milliseconds at most.
pub open spec fn recv_timeout_of(idle_exit_ms: Option<u64>) -> Option<u64> {
    match idle_exit_ms {
        None => None,
        Some(ms) => Some(
            if ms < MAX_RECV_TIMEOUT_MS {
                ms
            } else {
                MAX_RECV_TIMEOUT_MS
            },
        ),
    }
}

/// Computes the receive timeout for an idle threshold.
pub fn recv_timeout_ms(idle_exit_ms: Option<u64>) -> (t: Option<u64>)
    ensures
        t == recv_timeout_of(idle_exit_ms),
{
    match idle_exit_ms {
        None => None,
        Some(ms) => Some(
            if ms < MAX_RECV_TIMEOUT_MS {
                ms
            } else {
                MAX_RECV_TIMEOUT_MS
            },
        ),
    }
}

/// The plan for a receiver's request. The checks are made in this order,
/// and the first that fails gives the error.
pub open spec fn receiver_plan_of(s: ReceiverSettings) -> Result<ReceiverPlan, ConfigError> {
    if s.mask.is_some() && s.id.is_none() {
        Err(ConfigError::MaskRequiresId)
    } else if s.quality_test && s.check_counter {
        Err(ConfigError::CheckCounterWithQuality)
    } else if s.id.is_some() && s.id.unwrap() > CAN_EFF_MASK {
        Err(ConfigError::IdOutOfRange(s.id.unwrap()))
    } else {
        Ok(
            (ReceiverPlan {
                filter: filter_for(s.id, s.mask, s.extended),
                idle_exit_ms: idle_threshold_of(s.idle_exit_ms),
                recv_timeout_ms: recv_timeout_of(idle_threshold_of(s.idle_exit_ms)),
                max_len: max_len_of(s.fd),
            }),
        )
    }
}

/// Checks a receiver's request and works out its plan.
pub fn plan_receiver(s: ReceiverSettings) -> (r: Result<ReceiverPlan, ConfigError>)
    ensures
        r == receiver_plan_of(s),
{
    if s.mask.is_some() && s.id.is_none() {
        return Err(ConfigError::MaskRequiresId);
    }
    if s.quality_test && s.check_counter {
        return Err(ConfigError::CheckCounterWithQuality);
    }
    match s.id {
        Some(id) => {
            if id > CAN_EFF_MASK {
                return Err(ConfigError::IdOutOfRange(id));
            }
        },
        None => {},
    }
    let idle_exit_ms: Option<u64> = if s.idle_exit_ms == 0 {
        None
    } else {
        Some(s.idle_exit_ms)
    };
    Ok(
        ReceiverPlan {
            filter: build_filter(s.id, s.mask, s.extended),
            idle_exit_ms,
            recv_timeout_ms: recv_timeout_ms(idle_exit_ms),
            max_len: max_payload_len(s.fd),
        },
    )
}

/// A receive timeout is never longer than the idle threshold it serves, nor
/// than 200 milliseconds, and never zero: an idle receiver is asked whether
/// to leave at least that often.
pub proof fn lemma_recv_timeout_bounded(idle_exit_ms: u64)
    ensures
        idle_exit_ms == 0 ==> recv_timeout_of(idle_threshold_of(idle_exit_ms)).is_none(),
        idle_exit_ms > 0 ==> recv_timeout_of(idle_threshold_of(idle_exit_ms)).is_some() && 0
            < recv_timeout_of(idle_threshold_of(idle_exit_ms)).unwrap() <= idle_exit_ms
            && recv_timeout_of(idle_threshold_of(idle_exit_ms)).unwrap() <= MAX_RECV_TIMEOUT_MS,
{
}

} // verus!
