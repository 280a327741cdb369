//! Identifier flags, ingress filters and the two wire layouts of a frame.

use vstd::prelude::*;

verus! {

/// Identifier bit that marks the 29-bit (extended) format.
pub const CAN_EFF_FLAG: u32 = 0x8000_0000;

/// Identifier bit that marks a remote-request frame.
pub const CAN_RTR_FLAG: u32 = 0x4000_0000;

/// Identifier bit that marks an error frame.
pub const CAN_ERR_FLAG: u32 = 0x2000_0000;

/// The 11 identifier bits of the base format.
pub const CAN_SFF_MASK: u32 = 0x0000_07FF;

/// The 29 identifier bits of the extended format.
pub const CAN_EFF_MASK: u32 = 0x1FFF_FFFF;

/// An identifier/mask pair by which the transport pre-selects frames.
#[derive(Clone, Copy, Debug, PartialEq, Eq, Structural)]
pub struct CanFilter {
    pub can_id: u32,
    pub can_mask: u32,
}

/// Why an identifier or a filter request is refused.
#[derive(Clone, Copy, Debug, PartialEq, Eq, Structural)]
pub enum IdError {
    /// The identifier does not fit in 29 bits.
    IdOutOfRange,
    /// A mask was given without an identifier.
    MaskRequiresId,
}

/// Whether an identifier is sent in the extended format.
pub open spec fn uses_extended(id: u32, extended: bool) -> bool {
    extended || id > CAN_SFF_MASK
}

/// The identifier word of a frame: the raw identifier, with the
/// extended-format flag where that format is used.
pub open spec fn encoded_id(id: u32, extended: bool) -> u32 {
    if uses_extended(id, extended) {
        id | CAN_EFF_FLAG
    } else {
        id
    }
}

/// The mask that a filter gets when the caller names none: all identifier
/// bits of the format in use, and the format flag itself.
pub open spec fn default_mask(id: u32, extended: bool) -> u32 {
    if uses_extended(id, extended) {
        CAN_EFF_MASK | CAN_EFF_FLAG
    } else {
        CAN_SFF_MASK | CAN_EFF_FLAG
    }
}

/// The filter that `build_filter` installs.
pub open spec fn filter_for(id: Option<u32>, mask: Option<u32>, extended: bool) -> Option<CanFilter> {
    match id {
        None => None,
        Some(id) => Some(
            (CanFilter {
                can_id: encoded_id(id, extended),
                can_mask: match mask {
                    Some(m) => m,
                    None => default_mask(id, extended),
                },
            }),
        ),
    }
}

/// Builds the identifier word of a frame.
pub fn build_can_id(id: u32, extended: bool) -> (can_id: u32)
    ensures
        can_id == encoded_id(id, extended),
{
    if extended || id > CAN_SFF_MASK {
        id | CAN_EFF_FLAG
    } else {
        id
    }
}

/// Builds the identifier word of a frame, refusing an identifier that does
/// not fit in 29 bits.
pub fn checked_can_id(id: u32, extended: bool) -> (r: Result<u32, IdError>)
    ensures
        id > CAN_EFF_MASK <==> r.is_err(),
        id > CAN_EFF_MASK ==> r == Err::<u32, IdError>(IdError::IdOutOfRange),
        id <= CAN_EFF_MASK ==> r == Ok::<u32, IdError>(encoded_id(id, extended)),
{
    if id > CAN_EFF_MASK {
        Err(IdError::IdOutOfRange)
    } else {
        Ok(build_can_id(id, extended))
    }
}

/// Builds the ingress filter for an optional identifier and mask.
pub fn build_filter(id: Option<u32>, mask: Option<u32>, extended: bool) -> (filter: Option<CanFilter>)
    ensures
        filter == filter_for(id, mask, extended),
{
    match id {
        None => None,
        Some(raw) => {
            let can_id = build_can_id(raw, extended);
            let can_mask = match mask {
                Some(m) => m,
                None => {
                    if extended || raw > CAN_SFF_MASK {
                        CAN_EFF_MASK | CAN_EFF_FLAG
                    } else {
                        CAN_SFF_MASK | CAN_EFF_FLAG
                    }
                },
            };
            Some(CanFilter { can_id, can_mask })
        },
    }
}

/// Builds the ingress filter, refusing a mask without an identifier and an
/// identifier that does not fit in 29 bits.
pub fn checked_filter(id: Option<u32>, mask: Option<u32>, extended: bool) -> (r: Result<Option<CanFilter>, IdError>)
    ensures
        r == checked_filter_for(id, mask, extended),
{
    if mask.is_some() && id.is_none() {
        return Err(IdError::MaskRequiresId);
    }
    match id {
        Some(raw) => {
            if raw > CAN_EFF_MASK {
                return Err(IdError::IdOutOfRange);
            }
        },
        None => {},
    }
    Ok(build_filter(id, mask, extended))
}

/// What `checked_filter` returns.
pub open spec fn checked_filter_for(id: Option<u32>, mask: Option<u32>, extended: bool) -> Result<Option<CanFilter>, IdError> {
    if mask.is_some() && id.is_none() {
        Err(IdError::MaskRequiresId)
    } else if id.is_some() && id.unwrap() > CAN_EFF_MASK {
        Err(IdError::IdOutOfRange)
    } else {
        Ok(filter_for(id, mask, extended))
    }
}

/// For an identifier of at most 29 bits the identifier word carries the
/// extended-format flag exactly when the identifier exceeds 11 bits or the
/// extended format was asked for; it carries neither of the other two flags,
/// and its low 29 bits are the identifier.
pub proof fn lemma_identifier_flag(id: u32, extended: bool)
    requires
        id <= CAN_EFF_MASK,
    ensures
        (encoded_id(id, extended) & CAN_EFF_FLAG != 0) <==> uses_extended(id, extended),
        encoded_id(id, extended) & CAN_EFF_MASK == id,
        encoded_id(id, extended) & CAN_RTR_FLAG == 0,
        encoded_id(id, extended) & CAN_ERR_FLAG == 0,
{
    assert(id <= 0x1FFF_FFFFu32 ==> ((id | 0x8000_0000u32) & 0x8000_0000u32 != 0) && (id
        & 0x8000_0000u32 == 0) && ((id | 0x8000_0000u32) & 0x1FFF_FFFFu32 == id) && (id
        & 0x1FFF_FFFFu32 == id) && ((id | 0x8000_0000u32) & 0x4000_0000u32 == 0) && (id
        & 0x4000_0000u32 == 0) && ((id | 0x8000_0000u32) & 0x2000_0000u32 == 0) && (id
        & 0x2000_0000u32 == 0)) by (bit_vector);
}

/// A filter built without a mask accepts a received identifier word exactly
/// when it has the same format and the same identifier bits of that format.
pub proof fn lemma_default_filter_discriminates(id: u32, extended: bool, received: u32)
    requires
        id <= CAN_EFF_MASK,
    ensures
        ({
            let f = filter_for(Some(id), None, extended).unwrap();
            let same_format = (received & CAN_EFF_FLAG != 0) == uses_extended(id, extended);
            let same_bits = if uses_extended(id, extended) {
                received & CAN_EFF_MASK == id
            } else {
                received & CAN_SFF_MASK == id
            };
            (received & f.can_mask == f.can_id & f.can_mask) <==> (same_format && same_bits)
        }),
{
    assert(id <= 0x1FFF_FFFFu32 ==> ((received & (0x1FFF_FFFFu32 | 0x8000_0000u32) == (id
        | 0x8000_0000u32) & (0x1FFF_FFFFu32 | 0x8000_0000u32)) <==> ((received & 0x8000_0000u32
        != 0) && received & 0x1FFF_FFFFu32 == id))) by (bit_vector);
    assert(id <= 0x7FFu32 ==> ((received & (0x7FFu32 | 0x8000_0000u32) == id & (0x7FFu32
        | 0x8000_0000u32)) <==> ((received & 0x8000_0000u32 == 0) && received & 0x7FFu32
        == id))) by (bit_vector);
}

/// Longest payload of a short frame.
pub const CLASSIC_MAX_LEN: usize = 8;

/// Longest payload of an extended-size frame.
pub const FD_MAX_LEN: usize = 64;

/// Size of a short frame on the wire.
pub const CLASSIC_FRAME_LEN: usize = 16;

/// Size of an extended-size frame on the wire.
pub const FD_FRAME_LEN: usize = 72;

/// Longest payload of a frame.
pub open spec fn max_len_of(fd: bool) -> usize {
    if fd {
        FD_MAX_LEN
    } else {
        CLASSIC_MAX_LEN
    }
}

/// Size of a frame on the wire: eight bytes of header and the data area.
pub open spec fn wire_len_of(fd: bool) -> usize {
    if fd {
        FD_FRAME_LEN
    } else {
        CLASSIC_FRAME_LEN
    }
}

/// Longest payload of a frame.
pub fn max_payload_len(fd: bool) -> (n: usize)
    ensures
        n == max_len_of(fd),
{
    if fd {
        FD_MAX_LEN
    } else {
        CLASSIC_MAX_LEN
    }
}

/// Size of a frame on the wire.
pub fn wire_len(fd: bool) -> (n: usize)
    ensures
        n == wire_len_of(fd),
{
    if fd {
        FD_FRAME_LEN
    } else {
        CLASSIC_FRAME_LEN
    }
}

/// A declared data length, cut to what the data area holds.
pub open spec fn clamped_len(declared: u8, fd: bool) -> usize {
    if declared as usize > max_len_of(fd) {
        max_len_of(fd)
    } else {
        declared as usize
    }
}

/// Cuts a declared data length to what the data area holds.
pub fn clamp_len(declared: u8, fd: bool) -> (n: usize)
    ensures
        n == clamped_len(declared, fd),
        n <= max_len_of(fd),
        n <= declared,
{
    let max = max_payload_len(fd);
    if declared as usize > max {
        max
    } else {
        declared as usize
    }
}

/// The four bytes of a 32-bit value, least significant first.
pub open spec fn le_bytes(x: u32) -> Seq<u8> {
    seq![
        (x % 256) as u8,
        (x / 256 % 256) as u8,
        (x / 65536 % 256) as u8,
        (x / 16777216) as u8,
    ]
}

/// The 32-bit value of four bytes, least significant first.
pub open spec fn le_value(b: Seq<u8>) -> u32
    recommends
        b.len() >= 4,
{
    (b[0] as int + b[1] as int * 256 + b[2] as int * 65536 + b[3] as int * 16777216) as u32
}

/// A frame of either size: the identifier word, the declared data length,
/// the mode flags of the extended size, and the data area, which is always
/// full length.
#[derive(Clone, Debug)]
pub struct Frame {
    pub can_id: u32,
    pub len: u8,
    pub flags: u8,
    pub fd: bool,
    pub data: Vec<u8>,
}

/// A frame as plain values.
pub struct FrameView {
    pub can_id: u32,
    pub len: u8,
    pub flags: u8,
    pub fd: bool,
    pub data: Seq<u8>,
}

impl View for Frame {
    type V = FrameView;

    open spec fn view(&self) -> FrameView {
        FrameView {
            can_id: self.can_id,
            len: self.len,
            flags: self.flags,
            fd: self.fd,
            data: self.data@,
        }
    }
}

impl FrameView {
    /// The data area has the size of the frame's kind, the declared length
    /// lies within it, and a short frame has no mode flags.
    pub open spec fn wf(self) -> bool {
        &&& self.data.len() == max_len_of(self.fd)
        &&& self.len <= max_len_of(self.fd)
        &&& (!self.fd ==> self.flags == 0)
    }

    /// The payload: the declared part of the data area.
    pub open spec fn payload(self) -> Seq<u8> {
        self.data.take(self.len as int)
    }

    /// The frame on the wire: identifier word, declared length, mode flags,
    /// two reserved bytes, data area.
    pub open spec fn wire(self) -> Seq<u8> {
        le_bytes(self.can_id) + seq![self.len, self.flags, 0u8, 0u8] + self.data
    }
}

/// The frame that `Frame::template` builds.
pub open spec fn template_of(fd: bool, can_id: u32, payload: Seq<u8>, fill: u8) -> FrameView {
    FrameView {
        can_id,
        len: payload.len() as u8,
        flags: 0,
        fd,
        data: Seq::new(
            max_len_of(fd) as nat,
            |i: int|
                if i < payload.len() {
                    payload[i]
                } else {
                    fill
                },
        ),
    }
}

/// The frame that a receiver reads from the wire: the declared length is
/// cut to the data area, and a short frame has no mode flags.
pub open spec fn frame_of_wire(fd: bool, wire: Seq<u8>) -> Option<FrameView> {
    if wire.len() != wire_len_of(fd) {
        None
    } else {
        Some(
            (FrameView {
                can_id: le_value(wire),
                len: clamped_len(wire[4], fd) as u8,
                flags: if fd {
                    wire[5]
                } else {
                    0
                },
                fd,
                data: wire.skip(8),
            }),
        )
    }
}

impl Frame {
    /// Whether the frame is well formed.
    pub open spec fn wf(&self) -> bool {
        self@.wf()
    }

    /// A frame that carries `payload`, its data area filled up with `fill`.
    pub fn template(fd: bool, can_id: u32, payload: &[u8], fill: u8) -> (f: Frame)
        requires
            payload@.len() <= max_len_of(fd),
        ensures
            f@ == template_of(fd, can_id, payload@, fill),
            f.wf(),
            f@.payload() == payload@,
    {
        let cap = max_payload_len(fd);
        let mut data: Vec<u8> = Vec::new();
        let mut i: usize = 0;
        while i < cap
            invariant
                i <= cap,
                cap == max_len_of(fd),
                payload@.len() <= cap,
                data@.len() == i,
                forall|j: int| 0 <= j < i && j < payload@.len() ==> data@[j] == payload@[j],
                forall|j: int| 0 <= j < i && j >= payload@.len() ==> data@[j] == fill,
            decreases cap - i,
        {
            if i < payload.len() {
                data.push(payload[i]);
            } else {
                data.push(fill);
            }
            i = i + 1;
        }
        let f = Frame { can_id, len: payload.len() as u8, flags: 0, fd, data };
        assert(f@.data =~= template_of(fd, can_id, payload@, fill).data);
        assert(f@.payload() =~= payload@);
        f
    }

    /// The frame's bytes on the wire.
    pub fn to_wire(&self) -> (w: Vec<u8>)
        requires
            self.wf(),
        ensures
            w@ == self@.wire(),
            w@.len() == wire_len_of(self.fd),
    {
        let mut w: Vec<u8> = Vec::new();
        w.push((self.can_id % 256) as u8);
        w.push((self.can_id / 256 % 256) as u8);
        w.push((self.can_id / 65536 % 256) as u8);
        w.push((self.can_id / 16777216) as u8);
        w.push(self.len);
        w.push(self.flags);
        w.push(0u8);
        w.push(0u8);
        let ghost head = w@;
        assert(head =~= le_bytes(self.can_id) + seq![self.len, self.flags, 0u8, 0u8]);
        let n = self.data.len();
        let mut i: usize = 0;
        while i < n
            invariant
                i <= n,
                n == self.data@.len(),
                w@ == head + self.data@.take(i as int),
            decreases n - i,
        {
            w.push(self.data[i]);
            i = i + 1;
            assert(w@ =~= head + self.data@.take(i as int));
        }
        assert(self.data@.take(n as int) =~= self.data@);
        w
    }

    /// Reads a frame from its bytes on the wire. `None` where `wire` has
    /// not the size of a frame of that kind.
    pub fn from_wire(fd: bool, wire: &[u8]) -> (r: Option<Frame>)
        ensures
            match r {
                Some(f) => frame_of_wire(fd, wire@) == Some(f@) && f.wf(),
                None => frame_of_wire(fd, wire@).is_none(),
            },
    {
        if wire.len() != wire_len(fd) {
            return None;
        }
        let can_id: u32 = (wire[0] as u32) + (wire[1] as u32) * 256 + (wire[2] as u32) * 65536
            + (wire[3] as u32) * 16777216;
        let len = clamp_len(wire[4], fd) as u8;
        let flags: u8 = if fd {
            wire[5]
        } else {
            0
        };
        let n = wire.len();
        let mut data: Vec<u8> = Vec::new();
        let mut i: usize = 8;
        while i < n
            invariant
                8 <= i <= n,
                n == wire@.len(),
                data@ == wire@.subrange(8, i as int),
            decreases n - i,
        {
            data.push(wire[i]);
            i = i + 1;
            assert(data@ =~= wire@.subrange(8, i as int));
        }
        assert(wire@.subrange(8, n as int) =~= wire@.skip(8));
        Some(Frame { can_id, len, flags, fd, data })
    }

    /// The length of the payload.
    pub fn payload_len(&self) -> (n: usize)
        requires
            self.wf(),
        ensures
            n == self.len,
            n == self@.payload().len(),
    {
        self.len as usize
    }
}

/// Writes `counter` into the first four bytes of `data`, least significant
/// byte first. Data shorter than four bytes is left as it is.
pub fn put_counter(data: &mut Vec<u8>, counter: u32)
    ensures
        old(data)@.len() < 4 ==> final(data)@ == old(data)@,
        old(data)@.len() >= 4 ==> final(data)@ == le_bytes(counter) + old(data)@.skip(4),
{
    if data.len() < 4 {
        return ;
    }
    data[0] = (counter % 256) as u8;
    data[1] = (counter / 256 % 256) as u8;
    data[2] = (counter / 65536 % 256) as u8;
    data[3] = (counter / 16777216) as u8;
    assert(data@ =~= le_bytes(counter) + old(data)@.skip(4));
}

/// Reads the counter at the start of a payload. `None` where the payload is
/// shorter than four bytes.
pub fn read_counter(payload: &[u8]) -> (r: Option<u32>)
    ensures
        payload@.len() < 4 ==> r.is_none(),
        payload@.len() >= 4 ==> r == Some(le_value(payload@)),
{
    if payload.len() < 4 {
        return None;
    }
    Some(
        (payload[0] as u32) + (payload[1] as u32) * 256 + (payload[2] as u32) * 65536 + (
        payload[3] as u32) * 16777216,
    )
}

/// The four bytes of a value give the value back, whatever follows them.
pub proof fn lemma_le_round_trip(x: u32, tail: Seq<u8>)
    ensures
        le_value(le_bytes(x) + tail) == x,
{
    let b = le_bytes(x) + tail;
    assert(b[0] == le_bytes(x)[0] && b[1] == le_bytes(x)[1] && b[2] == le_bytes(x)[2] && b[3]
        == le_bytes(x)[3]);
}

/// A well-formed frame that is written to the wire and read back is the
/// same frame.
pub proof fn lemma_wire_round_trip(f: FrameView)
    requires
        f.wf(),
    ensures
        f.wire().len() == wire_len_of(f.fd),
        frame_of_wire(f.fd, f.wire()) == Some(f),
{
    let w = f.wire();
    let head = le_bytes(f.can_id) + seq![f.len, f.flags, 0u8, 0u8];
    assert(head.len() == 8);
    assert(w.skip(8) =~= f.data);
    assert(w =~= le_bytes(f.can_id) + (seq![f.len, f.flags, 0u8, 0u8] + f.data));
    lemma_le_round_trip(f.can_id, seq![f.len, f.flags, 0u8, 0u8] + f.data);
    assert(w[4] == f.len);
    assert(w[5] == f.flags);
}

/// The character of a hexadecimal digit, in upper case.
pub open spec fn hex_char(n: int) -> u8 {
    if n < 10 {
        (0x30 + n) as u8
    } else {
        (0x41 + n - 10) as u8
    }
}

/// `x` in `width` hexadecimal digits, most significant first.
pub open spec fn hex_digits(x: int, width: nat) -> Seq<u8>
    decreases width,
{
    if width == 0 {
        Seq::<u8>::empty()
    } else {
        hex_digits(x / 16, (width - 1) as nat).push(hex_char(x % 16))
    }
}

/// `n` in decimal digits.
pub open spec fn decimal_digits(n: nat) -> Seq<u8>
    decreases n,
{
    if n < 10 {
        seq![(0x30 + n) as u8]
    } else {
        decimal_digits(n / 10).push((0x30 + n % 10) as u8)
    }
}

/// The data bytes, two hexadecimal digits each, with a space between two.
pub open spec fn hex_bytes(data: Seq<u8>) -> Seq<u8>
    decreases data.len(),
{
    if data.len() == 0 {
        Seq::<u8>::empty()
    } else if data.len() == 1 {
        hex_digits(data[0] as int, 2)
    } else {
        hex_bytes(data.drop_last()).push(0x20u8) + hex_digits(data.last() as int, 2)
    }
}

/// The marker in front of a dumped frame: `ERR ` for an error frame, else
/// `RTR ` for a remote request, else nothing.
pub open spec fn dump_marker(can_id: u32) -> Seq<u8> {
    if can_id & CAN_ERR_FLAG != 0 {
        seq![0x45u8, 0x52u8, 0x52u8, 0x20u8]
    } else if can_id & CAN_RTR_FLAG != 0 {
        seq![0x52u8, 0x54u8, 0x52u8, 0x20u8]
    } else {
        Seq::<u8>::empty()
    }
}

/// The identifier of a dumped frame: eight digits in the extended format,
/// three in the base format.
pub open spec fn dump_id(can_id: u32) -> Seq<u8> {
    if can_id & CAN_EFF_FLAG != 0 {
        hex_digits((can_id & CAN_EFF_MASK) as int, 8)
    } else {
        hex_digits((can_id & CAN_SFF_MASK) as int, 3)
    }
}

/// The line that shows a frame, in ASCII: marker, identifier, the length in
/// square brackets, the data bytes.
pub open spec fn dump_of(can_id: u32, data: Seq<u8>) -> Seq<u8> {
    dump_marker(can_id) + dump_id(can_id) + seq![0x20u8, 0x5Bu8] + decimal_digits(data.len())
        + seq![0x5Du8, 0x20u8] + hex_bytes(data)
}

/// Appends `x` in `width` hexadecimal digits.
pub fn push_hex(out: &mut Vec<u8>, x: u32, width: usize)
    ensures
        final(out)@ == old(out)@ + hex_digits(x as int, width as nat),
    decreases width,
{
    if width > 0 {
        push_hex(out, x / 16, width - 1);
        let d: u32 = x % 16;
        let c: u8 = if d < 10 {
            (0x30 + d) as u8
        } else {
            (0x41 + d - 10) as u8
        };
        out.push(c);
        assert(out@ =~= old(out)@ + hex_digits(x as int, width as nat));
    } else {
        assert(out@ =~= old(out)@ + hex_digits(x as int, width as nat));
    }
}

/// Appends `n` in decimal digits.
pub fn push_decimal(out: &mut Vec<u8>, n: usize)
    ensures
        final(out)@ == old(out)@ + decimal_digits(n as nat),
    decreases n,
{
    if n < 10 {
        out.push((0x30 + n) as u8);
        assert(out@ =~= old(out)@ + decimal_digits(n as nat));
    } else {
        push_decimal(out, n / 10);
        out.push((0x30 + n % 10) as u8);
        assert(out@ =~= old(out)@ + decimal_digits(n as nat));
    }
}

/// Renders the line that shows a frame.
pub fn dump_frame(can_id: u32, data: &[u8]) -> (line: Vec<u8>)
    ensures
        line@ == dump_of(can_id, data@),
{
    let mut out: Vec<u8> = Vec::new();
    if (can_id & CAN_ERR_FLAG) != 0 {
        out.push(0x45u8);
        out.push(0x52u8);
        out.push(0x52u8);
        out.push(0x20u8);
    } else if (can_id & CAN_RTR_FLAG) != 0 {
        out.push(0x52u8);
        out.push(0x54u8);
        out.push(0x52u8);
        out.push(0x20u8);
    }
    assert(out@ =~= dump_marker(can_id));
    if (can_id & CAN_EFF_FLAG) != 0 {
        push_hex(&mut out, can_id & CAN_EFF_MASK, 8);
    } else {
        push_hex(&mut out, can_id & CAN_SFF_MASK, 3);
    }
    out.push(0x20u8);
    out.push(0x5Bu8);
    push_decimal(&mut out, data.len());
    out.push(0x5Du8);
    out.push(0x20u8);
    let ghost head = out@;
    assert(head =~= dump_marker(can_id) + dump_id(can_id) + seq![0x20u8, 0x5Bu8] + decimal_digits(
        data@.len(),
    ) + seq![0x5Du8, 0x20u8]);
    let n = data.len();
    let mut i: usize = 0;
    assert(data@.take(0) =~= Seq::<u8>::empty());
    assert(out@ =~= head + hex_bytes(data@.take(0)));
    while i < n
        invariant
            i <= n,
            n == data@.len(),
            out@ == head + hex_bytes(data@.take(i as int)),
        decreases n - i,
    {
        let ghost before = out@;
        if i > 0 {
            out.push(0x20u8);
        }
        push_hex(&mut out, data[i] as u32, 2);
        proof {
            let cur = data@.take(i as int + 1);
            assert(cur.drop_last() =~= data@.take(i as int));
            assert(cur.last() == data@[i as int]);
            if i == 0 {
                assert(cur.len() == 1);
                assert(hex_bytes(data@.take(0)) =~= Seq::<u8>::empty());
                assert(out@ =~= head + hex_bytes(cur));
            } else {
                assert(out@ =~= head + hex_bytes(cur));
            }
        }
        i = i + 1;
    }
    assert(data@.take(n as int) =~= data@);
    out
}

} // verus!
