//! The decisions around the raw bus socket: which options to set and in
//! what order, and what the outcome of a read or a write means for the
//! loop. The calls themselves are the caller's.

use vstd::prelude::*;
use crate::frame::CanFilter;

verus! {

/// The largest value that an integer socket option takes.
pub const MAX_OPTION_VALUE: usize = 0x7FFF_FFFF;

/// An error of the operating system, as far as the loops tell errors apart.
#[derive(Clone, Copy, Debug, PartialEq, Eq, Structural)]
pub enum OsError {
    /// The call was interrupted.
    Interrupted,
    /// The kernel has no buffer space left.
    NoBufferSpace,
    /// Nothing arrived within the receive timeout.
    WouldBlock,
    /// Any other error.
    Other,
}

/// What follows a write.
#[derive(Clone, Copy, Debug, PartialEq, Eq, Structural)]
pub enum SendStep {
    /// The frame is sent, or counted as dropped: go on.
    Done,
    /// Write again.
    Retry,
    /// Give up the run.
    Fatal,
}

/// What follows a read.
#[derive(Clone, Copy, Debug, PartialEq, Eq, Structural)]
pub enum RecvStep {
    /// So many bytes were read; zero where nothing arrived in time.
    Read(usize),
    /// Read again.
    Retry,
    /// Give up the run.
    Fatal,
}

/// One socket option to set.
#[derive(Clone, Copy, Debug, PartialEq, Eq, Structural)]
pub enum SockOpt {
    /// Size of the receive buffer.
    RcvBuf(i32),
    /// Size of the send buffer.
    SndBuf(i32),
    /// Frames of the extended size are accepted.
    FdFrames,
    /// Sent frames are not looped back to other sockets of this host.
    NoLoopback,
    /// The socket receives the frames that it sent.
    RecvOwn,
    /// Receive timeout.
    RcvTimeout { secs: u64, usecs: u64 },
    /// Ingress filter.
    Filter(CanFilter),
}

/// Why the options cannot be set.
#[derive(Clone, Copy, Debug, PartialEq, Eq, Structural)]
pub enum TransportError {
    /// A buffer size does not fit in an integer option.
    ValueTooLarge(usize),
}

/// What a socket is asked to be.
#[derive(Clone, Copy, Debug, PartialEq, Eq, Structural)]
pub struct SocketRequest {
    pub fd_frames: bool,
    pub rx_buf: usize,
    pub tx_buf: usize,
    pub no_loopback: bool,
    pub recv_own: bool,
    pub recv_timeout_ms: Option<u64>,
    pub filter: Option<CanFilter>,
}

/// The error numbers that the loops tell apart, as the platform defines
/// them.
#[derive(Clone, Copy, Debug, PartialEq, Eq, Structural)]
pub struct ErrnoTable {
    pub interrupted: i32,
    pub no_buffer_space: i32,
    pub try_again: i32,
    pub would_block: i32,
}

/// The kind of an error number; `None` stands for an error without one.
pub open spec fn os_error_for(code: Option<i32>, table: ErrnoTable) -> OsError {
    match code {
        None => OsError::Other,
        Some(c) => if c == table.interrupted {
            OsError::Interrupted
        } else if c == table.no_buffer_space {
            OsError::NoBufferSpace
        } else if c == table.try_again || c == table.would_block {
            OsError::WouldBlock
        } else {
            OsError::Other
        },
    }
}

/// Tells the kind of an error number.
pub fn os_error_of(code: Option<i32>, table: ErrnoTable) -> (e: OsError)
    ensures
        e == os_error_for(code, table),
{
    match code {
        None => OsError::Other,
        Some(c) => {
            if c == table.interrupted {
                OsError::Interrupted
            } else if c == table.no_buffer_space {
                OsError::NoBufferSpace
            } else if c == table.try_again || c == table.would_block {
                OsError::WouldBlock
            } else {
                OsError::Other
            }
        },
    }
}

/// What follows a write whose result is `ret`, with `err` the error where
/// `ret` is negative.
pub open spec fn send_step_of(ret: isize, err: OsError) -> SendStep {
    if ret >= 0 {
        SendStep::Done
    } else {
        match err {
            OsError::Interrupted => SendStep::Retry,
            OsError::NoBufferSpace => SendStep::Done,
            _ => SendStep::Fatal,
        }
    }
}

/// Whether a write counts as a dropped frame.
pub open spec fn is_send_drop(ret: isize, err: OsError) -> bool {
    ret < 0 && err == OsError::NoBufferSpace
}

/// Decides what follows a write. An interrupted call is made again; a full
/// kernel buffer drops the frame, which is counted, and the loop goes on;
/// any other error ends the run.
pub fn after_write(ret: isize, err: OsError, drops: &mut u64) -> (step: SendStep)
    requires
        is_send_drop(ret, err) ==> *old(drops) < u64::MAX,
    ensures
        step == send_step_of(ret, err),
        is_send_drop(ret, err) ==> *final(drops) == *old(drops) + 1,
        !is_send_drop(ret, err) ==> *final(drops) == *old(drops),
{
    if ret >= 0 {
        return SendStep::Done;
    }
    match err {
        OsError::Interrupted => SendStep::Retry,
        OsError::NoBufferSpace => {
            *drops = *drops + 1;
            SendStep::Done
        },
        _ => SendStep::Fatal,
    }
}

/// What follows a read whose result is `ret`, with `err` the error where
/// `ret` is negative.
pub open spec fn recv_step_of(ret: isize, err: OsError) -> RecvStep {
    if ret >= 0 {
        RecvStep::Read(ret as usize)
    } else {
        match err {
            OsError::Interrupted => RecvStep::Retry,
            OsError::WouldBlock => RecvStep::Read(0),
            _ => RecvStep::Fatal,
        }
    }
}

/// Decides what follows a read. An interrupted call is made again; a
/// timeout reads as zero bytes and is no error; any other error ends the
/// run.
pub fn after_read(ret: isize, err: OsError) -> (step: RecvStep)
    ensures
        step == recv_step_of(ret, err),
{
    if ret >= 0 {
        return RecvStep::Read(ret as usize);
    }
    match err {
        OsError::Interrupted => RecvStep::Retry,
        OsError::WouldBlock => RecvStep::Read(0),
        _ => RecvStep::Fatal,
    }
}

/// A timeout in milliseconds as whole seconds and microseconds.
pub fn timeval_of(ms: u64) -> (tv: (u64, u64))
    ensures
        tv.0 == ms / 1000,
        tv.1 == (ms % 1000) * 1000,
        tv.1 < 1_000_000,
        tv.0 * 1_000_000 + tv.1 == ms * 1000,
{
    let secs: u64 = ms / 1000;
    let usecs: u64 = (ms % 1000) * 1000;
    assert(secs * 1_000_000 + usecs == ms * 1000) by (nonlinear_arith)
        requires
            secs == ms / 1000,
            usecs == (ms % 1000) * 1000,
    ;
    (secs, usecs)
}

/// The value of a buffer-size option.
pub fn option_value(val: usize) -> (r: Result<i32, TransportError>)
    ensures
        val <= MAX_OPTION_VALUE ==> r == Ok::<i32, TransportError>(val as i32),
        val > MAX_OPTION_VALUE ==> r == Err::<i32, TransportError>(
            TransportError::ValueTooLarge(val),
        ),
{
    if val > MAX_OPTION_VALUE {
        Err(TransportError::ValueTooLarge(val))
    } else {
        Ok(val as i32)
    }
}

/// One option, or none.
pub open spec fn when(cond: bool, opt: SockOpt) -> Seq<SockOpt> {
    if cond {
        seq![opt]
    } else {
        Seq::<SockOpt>::empty()
    }
}

/// The timeout option for a receive timeout in milliseconds.
pub open spec fn timeout_option(recv_timeout_ms: Option<u64>) -> Seq<SockOpt> {
    match recv_timeout_ms {
        Some(ms) => when(
            ms > 0,
            SockOpt::RcvTimeout { secs: (ms / 1000) as u64, usecs: ((ms % 1000) * 1000) as u64 },
        ),
        None => Seq::<SockOpt>::empty(),
    }
}

/// The filter option for an ingress filter.
pub open spec fn filter_option(filter: Option<CanFilter>) -> Seq<SockOpt> {
    match filter {
        Some(f) => seq![SockOpt::Filter(f)],
        None => Seq::<SockOpt>::empty(),
    }
}

/// The options to set on a socket, in order. A buffer size of zero, and a
/// timeout of zero or none, leave the system's default.
pub open spec fn options_of(q: SocketRequest) -> Result<Seq<SockOpt>, TransportError> {
    if q.rx_buf > MAX_OPTION_VALUE {
        Err(TransportError::ValueTooLarge(q.rx_buf))
    } else if q.tx_buf > MAX_OPTION_VALUE {
        Err(TransportError::ValueTooLarge(q.tx_buf))
    } else {
        Ok(
            when(q.rx_buf > 0, SockOpt::RcvBuf(q.rx_buf as i32)) + when(
                q.tx_buf > 0,
                SockOpt::SndBuf(q.tx_buf as i32),
            ) + when(q.fd_frames, SockOpt::FdFrames) + when(q.no_loopback, SockOpt::NoLoopback)
                + when(q.recv_own, SockOpt::RecvOwn) + timeout_option(q.recv_timeout_ms)
                + filter_option(q.filter),
        )
    }
}

/// Appends `opt` where `cond` holds.
fn push_when(opts: &mut Vec<SockOpt>, cond: bool, opt: SockOpt)
    ensures
        final(opts)@ == old(opts)@ + when(cond, opt),
{
    if cond {
        opts.push(opt);
    }
    assert(opts@ =~= old(opts)@ + when(cond, opt));
}

/// Appends the timeout option.
fn push_timeout(opts: &mut Vec<SockOpt>, recv_timeout_ms: Option<u64>)
    ensures
        final(opts)@ == old(opts)@ + timeout_option(recv_timeout_ms),
{
    match recv_timeout_ms {
        Some(ms) => {
            let (secs, usecs) = timeval_of(ms);
            push_when(opts, ms > 0, SockOpt::RcvTimeout { secs, usecs });
        },
        None => {
            assert(opts@ =~= old(opts)@ + Seq::<SockOpt>::empty());
        },
    }
}

/// Appends the filter option.
fn push_filter(opts: &mut Vec<SockOpt>, filter: Option<CanFilter>)
    ensures
        final(opts)@ == old(opts)@ + filter_option(filter),
{
    match filter {
        Some(f) => {
            opts.push(SockOpt::Filter(f));
            assert(opts@ =~= old(opts)@ + seq![SockOpt::Filter(f)]);
        },
        None => {
            assert(opts@ =~= old(opts)@ + Seq::<SockOpt>::empty());
        },
    }
}

/// Lists the options to set on a socket, in order.
pub fn socket_options(q: SocketRequest) -> (r: Result<Vec<SockOpt>, TransportError>)
    ensures
        match r {
            Ok(v) => options_of(q) == Ok::<Seq<SockOpt>, TransportError>(v@),
            Err(e) => options_of(q) == Err::<Seq<SockOpt>, TransportError>(e),
        },
{
    let rx = match option_value(q.rx_buf) {
        Ok(v) => v,
        Err(e) => {
            return Err(e);
        },
    };
    let tx = match option_value(q.tx_buf) {
        Ok(v) => v,
        Err(e) => {
            return Err(e);
        },
    };
    let mut opts: Vec<SockOpt> = Vec::new();
    push_when(&mut opts, q.rx_buf > 0, SockOpt::RcvBuf(rx));
    assert(opts@ =~= when(q.rx_buf > 0, SockOpt::RcvBuf(q.rx_buf as i32)));
    push_when(&mut opts, q.tx_buf > 0, SockOpt::SndBuf(tx));
    push_when(&mut opts, q.fd_frames, SockOpt::FdFrames);
    push_when(&mut opts, q.no_loopback, SockOpt::NoLoopback);
    push_when(&mut opts, q.recv_own, SockOpt::RecvOwn);
    push_timeout(&mut opts, q.recv_timeout_ms);
    push_filter(&mut opts, q.filter);
    Ok(opts)
}

} // verus!
