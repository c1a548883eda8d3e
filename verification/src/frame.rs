//! Frames: the header fields, the flag bits, and the codec shell.
use vstd::prelude::*;
use crate::{PROTOCOL_VERSION, StreamId};

verus! {

/// `std::io::Error`, carried through the codec errors unread.
#[verifier::external_type_specification]
#[verifier::external_body]
pub struct ExIoError(std::io::Error);

// ---------------------------------------------------------------- Type

/// The type field selects what a frame means.
#[derive(Copy, Clone, Debug, PartialEq, Eq, Structural)]
pub enum Type {
    /// Transmits data; may carry a zero-length payload depending on the flags.
    Data,
    /// Updates the sender's receive window (per-stream flow control).
    WindowUpdate,
    /// Measures RTT; also serves as heart-beat / keep-alive.
    Ping,
    /// Closes a session.
    GoAway,
}

impl Type {
    /// The type's code on the wire.
    pub open spec fn code(self) -> u8 {
        match self {
            Type::Data => 0x0,
            Type::WindowUpdate => 0x1,
            Type::Ping => 0x2,
            Type::GoAway => 0x3,
        }
    }
}

// ---------------------------------------------------------------- Flag

/// A single flag bit of the header.
#[derive(Copy, Clone, Debug, PartialEq, Eq, Structural)]
pub enum Flag {
    /// Signals the start of a new stream (or an outbound ping).
    Syn,
    /// Acknowledges the start of a new stream (or answers a ping).
    Ack,
    /// Half-closes a stream.
    Fin,
    /// Resets a stream immediately.
    Rst,
}

impl Flag {
    /// The flag's bit.
    pub open spec fn bit(self) -> u16 {
        match self {
            Flag::Syn => 0x1,
            Flag::Ack => 0x2,
            Flag::Fin => 0x4,
            Flag::Rst => 0x8,
        }
    }

    /// The flag's bit.
    pub fn value(self) -> (v: u16)
        ensures
            v == self.bit(),
    {
        match self {
            Flag::Syn => 0x1,
            Flag::Ack => 0x2,
            Flag::Fin => 0x4,
            Flag::Rst => 0x8,
        }
    }
}

/// The bit of SYN.
pub open spec fn syn_bit() -> u16 {
    Flag::Syn.bit()
}

/// The bit of ACK.
pub open spec fn ack_bit() -> u16 {
    Flag::Ack.bit()
}

/// The bit of FIN.
pub open spec fn fin_bit() -> u16 {
    Flag::Fin.bit()
}

/// The bit of RST.
pub open spec fn rst_bit() -> u16 {
    Flag::Rst.bit()
}

/// Whether all the bits of `bit` are set in `bits`.
pub open spec fn bits_have(bits: u16, bit: u16) -> bool {
    bits & bit == bit
}

// ---------------------------------------------------------------- Flags

/// A set of flag bits, as carried in the header.
#[derive(Copy, Clone, Debug)]
pub struct Flags(u16);

impl View for Flags {
    type V = u16;

    closed spec fn view(&self) -> u16 {
        self.0
    }
}

impl Flags {
    /// The flags whose bits are `bits`.
    pub closed spec fn from_bits(bits: u16) -> Flags {
        Flags(bits)
    }

    /// `from_bits` gives back the bits it was given.
    pub proof fn lemma_from_bits(bits: u16)
        ensures
            Self::from_bits(bits)@ == bits,
    {
    }

    /// Sets the bit of `flag`.
    pub fn add(&mut self, flag: Flag)
        ensures
            final(self)@ == old(self)@ | flag.bit(),
    {
        self.0 = self.0 | flag.value();
    }

    /// Toggles the bit of `flag`: it clears a set bit, and sets a clear one.
    pub fn remove(&mut self, flag: Flag)
        ensures
            final(self)@ == old(self)@ ^ flag.bit(),
    {
        self.0 = self.0 ^ flag.value();
    }

    /// Whether the bit of `flag` is set.
    pub fn has(&self, flag: Flag) -> (r: bool)
        ensures
            r == bits_have(self@, flag.bit()),
    {
        let flag_value = flag.value();
        (self.0 & flag_value) == flag_value
    }

    /// The raw bits.
    pub fn value(&self) -> (v: u16)
        ensures
            v == self@,
    {
        self.0
    }
}

impl Default for Flags {
    fn default() -> (r: Flags)
        ensures
            r@ == 0,
    {
        Flags(0)
    }
}

impl From<Flag> for Flags {
    fn from(value: Flag) -> (r: Flags)
        ensures
            r@ == value.bit(),
    {
        Flags(value.value())
    }
}

impl vstd::std_specs::convert::FromSpecImpl<Flag> for Flags {
    open spec fn obeys_from_spec() -> bool {
        true
    }

    open spec fn from_spec(v: Flag) -> Flags {
        Flags::from_bits(v.bit())
    }
}


// ---------------------------------------------------------------- GoAwayCode

/// The code a go-away frame carries in its length field.
#[derive(Copy, Clone, Debug, PartialEq, Eq, Structural)]
pub enum GoAwayCode {
    /// Normal termination.
    Normal,
    /// Protocol error.
    ProtocolError,
    /// Internal error.
    InternalError,
}

impl GoAwayCode {
    /// The code's number on the wire.
    pub open spec fn code(self) -> u32 {
        match self {
            GoAwayCode::Normal => 0x0,
            GoAwayCode::ProtocolError => 0x1,
            GoAwayCode::InternalError => 0x2,
        }
    }

    /// The code's number on the wire.
    pub fn value(self) -> (v: u32)
        ensures
            v == self.code(),
    {
        match self {
            GoAwayCode::Normal => 0x0,
            GoAwayCode::ProtocolError => 0x1,
            GoAwayCode::InternalError => 0x2,
        }
    }

    /// The code a number stands for; a number that names no code is a protocol error.
    pub open spec fn from_code(code: u32) -> GoAwayCode {
        if code == 0x0 {
            GoAwayCode::Normal
        } else if code == 0x2 {
            GoAwayCode::InternalError
        } else {
            GoAwayCode::ProtocolError
        }
    }
}

impl From<u32> for GoAwayCode {
    fn from(code: u32) -> (r: GoAwayCode)
        ensures
            r == GoAwayCode::from_code(code),
    {
        if code == 0x0 {
            GoAwayCode::Normal
        } else if code == 0x2 {
            GoAwayCode::InternalError
        } else {
            GoAwayCode::ProtocolError
        }
    }
}

impl vstd::std_specs::convert::FromSpecImpl<u32> for GoAwayCode {
    open spec fn obeys_from_spec() -> bool {
        true
    }

    open spec fn from_spec(v: u32) -> GoAwayCode {
        GoAwayCode::from_code(v)
    }
}

// ---------------------------------------------------------------- Header, Frame

/// The header fields of a frame, as values.
pub struct HeaderView {
    pub version: u8,
    pub ty: Type,
    pub flags: u16,
    pub stream_id: StreamId,
    pub length: u32,
}

/// A frame as values: its header and its body, if it has one.
pub struct FrameView {
    pub header: HeaderView,
    pub body: Option<Seq<u8>>,
}

/// The view of a frame built from header fields, without a body.
pub open spec fn frame_view(ty: Type, flags: u16, stream_id: StreamId, length: u32) -> FrameView {
    FrameView {
        header: HeaderView { version: PROTOCOL_VERSION, ty, flags, stream_id, length },
        body: None,
    }
}

/// The header of a frame.
#[derive(Clone, Debug)]
pub struct Header {
    version: u8,
    ty: Type,
    flags: Flags,
    stream_id: StreamId,
    length: u32,
}

impl View for Header {
    type V = HeaderView;

    closed spec fn view(&self) -> HeaderView {
        HeaderView {
            version: self.version,
            ty: self.ty,
            flags: self.flags@,
            stream_id: self.stream_id,
            length: self.length,
        }
    }
}

/// A frame: a header and, for data, a body.
#[derive(Clone, Debug)]
pub struct Frame {
    header: Header,
    body: Option<Vec<u8>>,
}

impl View for Frame {
    type V = FrameView;

    closed spec fn view(&self) -> FrameView {
        FrameView {
            header: self.header@,
            body: match self.body {
                Some(b) => Some(b@),
                None => None,
            },
        }
    }
}

impl Frame {
    /// A frame of the current protocol version with the given header fields and no body.
    pub fn new(ty: Type, flags: Flags, stream_id: StreamId, length: u32) -> (f: Frame)
        ensures
            f@ == frame_view(ty, flags@, stream_id, length),
    {
        let version = PROTOCOL_VERSION;
        let header = Header { version, ty, flags, stream_id, length };
        Frame { header, body: None }
    }

    /// A window-update frame that grants `delta` more bytes to the stream.
    pub fn new_window_update(flags: Flags, stream_id: StreamId, delta: u32) -> (f: Frame)
        ensures
            f@ == frame_view(Type::WindowUpdate, flags@, stream_id, delta),
    {
        Frame::new(Type::WindowUpdate, flags, stream_id, delta)
    }

    /// A data frame that carries `data`; its length field is the data's length.
    pub fn new_data(flags: Flags, stream_id: StreamId, data: Vec<u8>) -> (f: Frame)
        requires
            data@.len() <= u32::MAX,
        ensures
            f@ == (FrameView {
                header: frame_view(Type::Data, flags@, stream_id, data@.len() as u32).header,
                body: Some(data@),
            }),
    {
        let length = data.len() as u32;
        let mut frame = Frame::new(Type::Data, flags, stream_id, length);
        frame.set_body(Some(data));
        frame
    }

    /// A ping frame on the session (stream 0) whose length field carries the ping id.
    pub fn new_ping(flags: Flags, ping_id: u32) -> (f: Frame)
        ensures
            f@ == frame_view(Type::Ping, flags@, 0, ping_id),
    {
        Frame::new(Type::Ping, flags, 0, ping_id)
    }

    /// A go-away frame on the session (stream 0) whose length field carries the code.
    pub fn new_go_away(code: GoAwayCode) -> (f: Frame)
        ensures
            f@ == frame_view(Type::GoAway, 0, 0, code.code()),
    {
        Frame::new(Type::GoAway, Flags::default(), 0, code.value())
    }

    /// Replaces the body.
    pub fn set_body(&mut self, body: Option<Vec<u8>>)
        ensures
            final(self)@.header == old(self)@.header,
            final(self)@.body == (match body {
                Some(b) => Some(b@),
                None => None::<Seq<u8>>,
            }),
    {
        self.body = body
    }

    /// The frame's type.
    pub fn ty(&self) -> (t: Type)
        ensures
            t == self@.header.ty,
    {
        self.header.ty
    }

    /// The stream the frame belongs to.
    pub fn stream_id(&self) -> (id: StreamId)
        ensures
            id == self@.header.stream_id,
    {
        self.header.stream_id
    }

    /// The frame's flags.
    pub fn flags(&self) -> (f: Flags)
        ensures
            f@ == self@.header.flags,
    {
        self.header.flags
    }

    /// The length field (data length, window delta, ping id or go-away code).
    pub fn length(&self) -> (l: u32)
        ensures
            l == self@.header.length,
    {
        self.header.length
    }

    /// Splits the frame into its header and its body.
    pub fn into_parts(self) -> (parts: (Header, Option<Vec<u8>>))
        ensures
            parts.0@ == self@.header,
            self@.body == (match parts.1 {
                Some(b) => Some(b@),
                None => None::<Seq<u8>>,
            }),
    {
        (self.header, self.body)
    }
}

// ---------------------------------------------------------------- codec

/// The body of a frame as bytes (none for a frame without a body).
pub open spec fn body_bytes(f: FrameView) -> Seq<u8> {
    match f.body {
        Some(b) => b,
        None => Seq::empty(),
    }
}

/// The 12 bytes of a header: version, type, flags (2 bytes), stream id
/// (4 bytes) and length (4 bytes), big-endian.
pub open spec fn header_bytes(h: HeaderView) -> Seq<u8> {
    seq![
        h.version,
        h.ty.code(),
        (h.flags >> 8) as u8,
        (h.flags & 0xff) as u8,
        (h.stream_id >> 24) as u8,
        ((h.stream_id >> 16) & 0xff) as u8,
        ((h.stream_id >> 8) & 0xff) as u8,
        (h.stream_id & 0xff) as u8,
        (h.length >> 24) as u8,
        ((h.length >> 16) & 0xff) as u8,
        ((h.length >> 8) & 0xff) as u8,
        (h.length & 0xff) as u8,
    ]
}

/// The bytes of a frame: its header, then its body.
pub open spec fn frame_bytes(f: FrameView) -> Seq<u8> {
    header_bytes(f.header) + body_bytes(f)
}

/// A big-endian `u16`.
pub open spec fn be_u16(a: u8, b: u8) -> u16 {
    ((a as u16) << 8) | (b as u16)
}

/// A big-endian `u32`.
pub open spec fn be_u32(a: u8, b: u8, c: u8, d: u8) -> u32 {
    ((a as u32) << 24) | ((b as u32) << 16) | ((c as u32) << 8) | (d as u32)
}

/// The type a code on the wire stands for, if any.
pub open spec fn type_of_code(c: u8) -> Option<Type> {
    if c == 0 {
        Some(Type::Data)
    } else if c == 1 {
        Some(Type::WindowUpdate)
    } else if c == 2 {
        Some(Type::Ping)
    } else if c == 3 {
        Some(Type::GoAway)
    } else {
        None
    }
}

/// What reading a frame off the front of some bytes gives.
pub enum DecodeView {
    /// Not all of the frame is there yet.
    Incomplete,
    /// The header carries another protocol version.
    BadVersion(u8),
    /// The header carries no known type.
    BadType(u8),
    /// A frame, and how many bytes it took.
    Complete(FrameView, nat),
}

/// Reads a frame off the front of `b`: a 12-byte header and, for a data
/// frame, a body of as many bytes as its length field says.
pub open spec fn decode_view(b: Seq<u8>) -> DecodeView {
    if b.len() < 12 {
        DecodeView::Incomplete
    } else if b[0] != PROTOCOL_VERSION {
        DecodeView::BadVersion(b[0])
    } else {
        match type_of_code(b[1]) {
            None => DecodeView::BadType(b[1]),
            Some(ty) => {
                let length = be_u32(b[8], b[9], b[10], b[11]);
                let header = HeaderView {
                    version: b[0],
                    ty,
                    flags: be_u16(b[2], b[3]),
                    stream_id: be_u32(b[4], b[5], b[6], b[7]),
                    length,
                };
                if ty == Type::Data {
                    if b.len() < 12 + length {
                        DecodeView::Incomplete
                    } else {
                        DecodeView::Complete(
                            FrameView { header, body: Some(b.subrange(12, 12 + length)) },
                            (12 + length) as nat,
                        )
                    }
                } else {
                    DecodeView::Complete(FrameView { header, body: None }, 12)
                }
            },
        }
    }
}

/// A frame the codec writes as it reads it back: of the current version,
/// with a body exactly when it is a data frame, as long as its length field.
pub open spec fn frame_fits_format(f: FrameView) -> bool {
    &&& f.header.version == PROTOCOL_VERSION
    &&& f.header.ty == Type::Data ==> (f.body matches Some(b) && b.len() == f.header.length)
    &&& f.header.ty != Type::Data ==> f.body is None
}

/// Bytes of a `u16` come back as the `u16`.
pub proof fn lemma_be_u16_round_trip(x: u16)
    ensures
        be_u16((x >> 8) as u8, (x & 0xff) as u8) == x,
{
    assert(((((x >> 8) as u8) as u16) << 8) | (((x & 0xff) as u8) as u16) == x) by (bit_vector);
}

/// Bytes of a `u32` come back as the `u32`.
pub proof fn lemma_be_u32_round_trip(x: u32)
    ensures
        be_u32(
            (x >> 24) as u8,
            ((x >> 16) & 0xff) as u8,
            ((x >> 8) & 0xff) as u8,
            (x & 0xff) as u8,
        ) == x,
{
    assert(((((x >> 24) as u8) as u32) << 24) | (((((x >> 16) & 0xff) as u8) as u32) << 16) | (
    ((((x >> 8) & 0xff) as u8) as u32) << 8) | (((x & 0xff) as u8) as u32) == x) by (bit_vector);
}

/// What the codec writes, it reads back: the frame, having taken exactly
/// its bytes, whatever follows them.
pub proof fn lemma_frame_round_trip(f: FrameView, rest: Seq<u8>)
    requires
        frame_fits_format(f),
    ensures
        decode_view(frame_bytes(f) + rest) == DecodeView::Complete(f, frame_bytes(f).len()),
{
    let b = frame_bytes(f) + rest;
    let h = f.header;
    lemma_be_u16_round_trip(h.flags);
    lemma_be_u32_round_trip(h.stream_id);
    lemma_be_u32_round_trip(h.length);
    assert(b[0] == h.version && b[1] == h.ty.code());
    assert(b[2] == (h.flags >> 8) as u8 && b[3] == (h.flags & 0xff) as u8);
    assert(b[4] == (h.stream_id >> 24) as u8 && b[5] == ((h.stream_id >> 16) & 0xff) as u8);
    assert(b[6] == ((h.stream_id >> 8) & 0xff) as u8 && b[7] == (h.stream_id & 0xff) as u8);
    assert(b[8] == (h.length >> 24) as u8 && b[9] == ((h.length >> 16) & 0xff) as u8);
    assert(b[10] == ((h.length >> 8) & 0xff) as u8 && b[11] == (h.length & 0xff) as u8);
    assert(type_of_code(h.ty.code()) == Some(h.ty));
    match decode_view(b) {
        DecodeView::Complete(g, n) => {
            assert(g.header == h);
            if h.ty == Type::Data {
                assert(b.subrange(12, 12 + h.length) =~= body_bytes(f));
            }
        },
        _ => {},
    }
}

/// Turns bytes into frames and frames into bytes.
pub struct FrameCodec {}

impl FrameCodec {
    /// A new codec.
    pub fn new() -> (c: FrameCodec) {
        FrameCodec {}
    }

    /// Takes the next complete frame off the front of `src` (see
    /// `decode_view`). With the frame not all there yet, gives none and
    /// leaves `src` as it is; a header of another version or of no known type
    /// is refused, and `src` left as it is.
    pub fn decode(&mut self, src: &mut Vec<u8>) -> (r: Result<Option<Frame>, FrameDecodeError>)
        ensures
            match decode_view(old(src)@) {
                DecodeView::Incomplete => (r matches Ok(None)) && final(src)@ == old(src)@,
                DecodeView::BadVersion(v) => (r matches Err(FrameDecodeError::InvalidVersion(w))
                    && w == v) && final(src)@ == old(src)@,
                DecodeView::BadType(t) => (r matches Err(FrameDecodeError::InvalidType(w)) && w
                    == t) && final(src)@ == old(src)@,
                DecodeView::Complete(fv, n) => (r matches Ok(Some(f)) && f@ == fv) && final(src)@
                    == old(src)@.skip(n as int),
            },
    {
        if src.len() < 12 {
            return Ok(None);
        }
        let version = src[0];
        if version != PROTOCOL_VERSION {
            return Err(FrameDecodeError::InvalidVersion(version));
        }
        let code = src[1];
        let ty = if code == 0 {
            Type::Data
        } else if code == 1 {
            Type::WindowUpdate
        } else if code == 2 {
            Type::Ping
        } else if code == 3 {
            Type::GoAway
        } else {
            return Err(FrameDecodeError::InvalidType(code));
        };
        let flags: u16 = ((src[2] as u16) << 8) | (src[3] as u16);
        let stream_id: u32 = ((src[4] as u32) << 24) | ((src[5] as u32) << 16) | ((src[6] as u32)
            << 8) | (src[7] as u32);
        let length: u32 = ((src[8] as u32) << 24) | ((src[9] as u32) << 16) | ((src[10] as u32)
            << 8) | (src[11] as u32);
        let mut frame = Frame::new(ty, Flags(flags), stream_id, length);
        let consumed: usize;
        if code == 0 {
            if (src.len() as u64) < 12 + length as u64 {
                return Ok(None);
            }
            consumed = 12 + length as usize;
            let body = vstd::slice::slice_to_vec(
                vstd::slice::slice_subrange(src.as_slice(), 12, consumed),
            );
            frame.set_body(Some(body));
        } else {
            consumed = 12;
        }
        let rest = src.split_off(consumed);
        *src = rest;
        Ok(Some(frame))
    }

    /// Appends the bytes of `item` to `dst` (see `frame_bytes`).
    pub fn encode(&mut self, item: Frame, dst: &mut Vec<u8>) -> (r: Result<(), FrameEncodeError>)
        ensures
            r is Ok,
            final(dst)@ == old(dst)@ + frame_bytes(item@),
    {
        let ghost fv = item@;
        let Frame { header, body } = item;
        dst.push(header.version);
        dst.push(
            match header.ty {
                Type::Data => 0,
                Type::WindowUpdate => 1,
                Type::Ping => 2,
                Type::GoAway => 3,
            },
        );
        let flags = header.flags.0;
        dst.push((flags >> 8) as u8);
        dst.push((flags & 0xff) as u8);
        let id = header.stream_id;
        dst.push((id >> 24) as u8);
        dst.push(((id >> 16) & 0xff) as u8);
        dst.push(((id >> 8) & 0xff) as u8);
        dst.push((id & 0xff) as u8);
        let length = header.length;
        dst.push((length >> 24) as u8);
        dst.push(((length >> 16) & 0xff) as u8);
        dst.push(((length >> 8) & 0xff) as u8);
        dst.push((length & 0xff) as u8);
        proof {
            assert(dst@ =~= old(dst)@ + header_bytes(fv.header));
        }
        match body {
            Some(b) => {
                let mut b = b;
                dst.append(&mut b);
            },
            None => {},
        }
        proof {
            assert(dst@ =~= old(dst)@ + frame_bytes(fv));
        }
        Ok(())
    }
}

impl Default for FrameCodec {
    fn default() -> (c: FrameCodec) {
        FrameCodec::new()
    }
}

/// Why a frame could not be written.
pub enum FrameEncodeError {
    Io(std::io::Error),
}

/// Why a frame could not be read.
pub enum FrameDecodeError {
    Io(std::io::Error),
    /// The header carries this protocol version, not ours.
    InvalidVersion(u8),
    /// The header carries this type code, which names no type.
    InvalidType(u8),
}

impl From<std::io::Error> for FrameDecodeError {
    fn from(err: std::io::Error) -> (r: FrameDecodeError) {
        FrameDecodeError::Io(err)
    }
}

impl vstd::std_specs::convert::FromSpecImpl<std::io::Error> for FrameDecodeError {
    open spec fn obeys_from_spec() -> bool {
        true
    }

    open spec fn from_spec(v: std::io::Error) -> FrameDecodeError {
        FrameDecodeError::Io(v)
    }
}

impl From<std::io::Error> for FrameEncodeError {
    fn from(err: std::io::Error) -> (r: FrameEncodeError) {
        FrameEncodeError::Io(err)
    }
}

impl vstd::std_specs::convert::FromSpecImpl<std::io::Error> for FrameEncodeError {
    open spec fn obeys_from_spec() -> bool {
        true
    }

    open spec fn from_spec(v: std::io::Error) -> FrameEncodeError {
        FrameEncodeError::Io(v)
    }
}

// ---------------------------------------------------------------- laws

/// The bit of every flag is a single bit, and different flags have
/// different bits.
pub proof fn lemma_flag_bits_distinct(f: Flag, g: Flag)
    ensures
        f.bit() != 0,
        bits_have(f.bit(), g.bit()) <==> f == g,
{
    assert(forall|x: u16, y: u16|
        (x == 1 || x == 2 || x == 4 || x == 8) && (y == 1 || y == 2 || y == 4 || y == 8) ==> ((x
            & y == y) <==> x == y)) by (bit_vector);
}

/// After a flag is added, the flags have it, and they keep every flag they had.
pub proof fn lemma_add_then_has(bits: u16, flag: Flag, other: Flag)
    ensures
        bits_have(bits | flag.bit(), flag.bit()),
        bits_have(bits, other.bit()) ==> bits_have(bits | flag.bit(), other.bit()),
{
    let b = flag.bit();
    let o = other.bit();
    assert((bits | b) & b == b) by (bit_vector);
    assert(bits & o == o ==> (bits | b) & o == o) by (bit_vector);
}

/// Removing a flag that was added clears it; removing the same flag twice
/// gives the flags back as they were. (Removing a flag that is not there sets
/// it: `remove` toggles.)
pub proof fn lemma_remove_after_add(bits: u16, flag: Flag)
    ensures
        !bits_have((bits | flag.bit()) ^ flag.bit(), flag.bit()),
        (bits ^ flag.bit()) ^ flag.bit() == bits,
        !bits_have(bits, flag.bit()) ==> bits_have(bits ^ flag.bit(), flag.bit()),
{
    lemma_flag_bits_distinct(flag, flag);
    let b = flag.bit();
    assert(((bits | b) ^ b) & b == 0) by (bit_vector);
    assert((bits ^ b) ^ b == bits) by (bit_vector);
    assert(b == 1 || b == 2 || b == 4 || b == 8);
    assert((b == 1 || b == 2 || b == 4 || b == 8) && bits & b != b ==> (bits ^ b) & b == b)
        by (bit_vector);
}

/// The flags made from one flag have that flag and no other.
pub proof fn lemma_from_flag_has_only_it(f: Flag, g: Flag)
    ensures
        bits_have(Flags::from_bits(f.bit())@, g.bit()) <==> f == g,
{
    lemma_flag_bits_distinct(f, g);
}

/// Every go-away code comes back from its number.
pub proof fn lemma_go_away_code_round_trip(code: GoAwayCode)
    ensures
        GoAwayCode::from_code(code.code()) == code,
{
}

} // verus!
