//! cannelloni wire format codec and Kvaser <-> SocketCAN id translation.
//!
//! A frame on the wire is `can_id` (4 bytes, big-endian, SocketCAN flag bits on
//! top), `len` (1 byte, high bit set for CAN FD), `flags` (1 byte, CAN FD only),
//! and `len` data bytes (none for a remote frame). A UDP datagram prefixes a
//! 5-byte header and packs several frames; a TCP stream carries frames
//! back-to-back.
//!
//! [`encode`] and [`decode`] are the format as mathematics; every executable
//! function below is stated in terms of them.

use vstd::prelude::*;

verus! {

// ---- cannelloni protocol constants ----

/// Version byte of a data packet.
pub const FRAME_VERSION: u8 = 2;

/// Operation byte of a data packet.
pub const OP_DATA: u8 = 0;

/// Bytes of the UDP packet header: version, op, sequence number, count (2).
pub const DATA_PACKET_BASE_SIZE: usize = 5;

/// Bytes every frame has at least: can_id (4) and len (1).
pub const FRAME_BASE_SIZE: usize = 5;

/// High bit of the length byte: the frame is CAN FD.
pub const CANFD_FRAME: u8 = 0x80;

/// TCP handshake banner, the ASCII text `CANNELLONIv1`.
pub const CONNECT_V1: [u8; 12] = [
    0x43, 0x41, 0x4E, 0x4E, 0x45, 0x4C, 0x4C, 0x4F, 0x4E, 0x49, 0x76, 0x31,
];

/// Most data bytes a frame can hold (a CAN FD payload). The wire length field
/// has 7 bits, so a peer can claim more; both decoders reject that.
pub const MAX_FRAME_LEN: usize = 64;

/// Most data bytes a classic (non-FD) frame can hold.
pub const CLASSIC_FRAME_MAX_LEN: usize = 8;

// ---- SocketCAN can_id flag bits ----

/// Extended (29-bit) identifier.
pub const CAN_EFF_FLAG: u32 = 0x8000_0000;

/// Remote transmission request.
pub const CAN_RTR_FLAG: u32 = 0x4000_0000;

/// Bits of an extended identifier.
pub const CAN_EFF_MASK: u32 = 0x1FFF_FFFF;

/// Bits of a standard identifier.
pub const CAN_SFF_MASK: u32 = 0x0000_07FF;

// ---- Kvaser message flags ----

/// Remote frame.
pub const CAN_MSG_RTR: u32 = 0x0001;

/// Standard identifier.
pub const CAN_MSG_STD: u32 = 0x0002;

/// Extended identifier.
pub const CAN_MSG_EXT: u32 = 0x0004;

/// CAN FD frame.
pub const CAN_MSG_FDF: u32 = 0x0001_0000;

/// CAN FD bit-rate switch.
pub const CAN_MSG_BRS: u32 = 0x0002_0000;

/// CAN FD error state indicator.
pub const CAN_MSG_ESI: u32 = 0x0004_0000;

// ---- SocketCAN canfd_frame.flags bits ----

/// Bit-rate switch in the on-wire flags byte.
pub const CANFD_BRS: u8 = 0x01;

/// Error state indicator in the on-wire flags byte.
pub const CANFD_ESI: u8 = 0x02;

/// A CAN frame in SocketCAN terms (`can_id` carries the flag bits).
#[derive(Clone, Copy, Debug)]
pub struct Frame {
    pub can_id: u32,
    pub len: u8,
    pub fd: bool,
    pub fd_flags: u8,
    pub data: [u8; 64],
    /// Receive timestamp in milliseconds, set when the frame is queued. Not part
    /// of the wire format.
    pub rx_time_ms: u64,
}

/// The mathematical value of a [`Frame`].
#[verifier::ext_equal]
pub struct FrameView {
    pub can_id: u32,
    pub len: u8,
    pub fd: bool,
    pub fd_flags: u8,
    pub data: Seq<u8>,
    pub rx_time_ms: u64,
}

impl View for Frame {
    type V = FrameView;

    open spec fn view(&self) -> FrameView {
        FrameView {
            can_id: self.can_id,
            len: self.len,
            fd: self.fd,
            fd_flags: self.fd_flags,
            data: self.data@,
            rx_time_ms: self.rx_time_ms,
        }
    }
}

/// `n` zero bytes.
pub open spec fn zeros(n: nat) -> Seq<u8> {
    Seq::new(n, |i: int| 0u8)
}

/// The frame of all zeros: what [`Frame::default`] returns.
pub open spec fn blank() -> FrameView {
    FrameView { can_id: 0, len: 0, fd: false, fd_flags: 0, data: zeros(64), rx_time_ms: 0 }
}

/// The values of a sequence of frames.
pub open spec fn views(fs: Seq<Frame>) -> Seq<FrameView> {
    fs.map_values(|f: Frame| f@)
}

/// Whether an identifier has the remote-frame bit.
pub open spec fn rtr(can_id: u32) -> bool {
    can_id & CAN_RTR_FLAG != 0
}

/// Most data bytes a frame of this class can hold.
pub open spec fn class_limit(fd: bool) -> nat {
    if fd {
        MAX_FRAME_LEN as nat
    } else {
        CLASSIC_FRAME_MAX_LEN as nat
    }
}

impl FrameView {
    /// The length is one that the frame's class can hold.
    pub open spec fn in_class(self) -> bool {
        self.len <= class_limit(self.fd)
    }

    /// The number of data bytes that travel with the frame.
    pub open spec fn payload_len(self) -> nat {
        if rtr(self.can_id) {
            0
        } else {
            (self.len % 128) as nat
        }
    }

    /// What the wire keeps of a frame: no flags byte on a classic frame, no data
    /// beyond the payload, no timestamp.
    pub open spec fn on_wire(self) -> FrameView {
        FrameView {
            fd_flags: if self.fd {
                self.fd_flags
            } else {
                0
            },
            data: self.data.take(self.payload_len() as int) + zeros(
                (64 - self.payload_len()) as nat,
            ),
            rx_time_ms: 0,
            ..self
        }
    }
}

// ============================== the format ==============================

/// A 32-bit value as four big-endian bytes.
pub open spec fn be_u32_bytes(x: u32) -> Seq<u8> {
    seq![
        (x / 0x100_0000) as u8,
        (x / 0x1_0000 % 0x100) as u8,
        (x / 0x100 % 0x100) as u8,
        (x % 0x100) as u8,
    ]
}

/// The value of the first four bytes, big-endian.
pub open spec fn be_u32(b: Seq<u8>) -> u32 {
    (b[0] * 0x100_0000 + b[1] * 0x1_0000 + b[2] * 0x100 + b[3]) as u32
}

/// A 16-bit value as two big-endian bytes.
pub open spec fn be_u16_bytes(x: u16) -> Seq<u8> {
    seq![(x / 0x100) as u8, (x % 0x100) as u8]
}

/// The value of the first two bytes, big-endian.
pub open spec fn be_u16(b: Seq<u8>) -> u16 {
    (b[0] * 0x100 + b[1]) as u16
}

/// The length byte: seven bits of length under the FD bit.
pub open spec fn len_byte(f: FrameView) -> u8 {
    (f.len % 128 + if f.fd {
        128int
    } else {
        0
    }) as u8
}

/// The bytes of one frame.
pub open spec fn encode(f: FrameView) -> Seq<u8> {
    be_u32_bytes(f.can_id) + seq![len_byte(f)] + (if f.fd {
        seq![f.fd_flags]
    } else {
        seq![]
    }) + f.data.take(f.payload_len() as int)
}

/// The bytes of a run of frames, back-to-back.
pub open spec fn encode_all(fs: Seq<FrameView>) -> Seq<u8>
    decreases fs.len(),
{
    if fs.len() == 0 {
        seq![]
    } else {
        encode(fs[0]) + encode_all(fs.drop_first())
    }
}

/// The header of a UDP packet that carries `count` frames.
pub open spec fn header(seq_no: u8, count: u16) -> Seq<u8> {
    seq![FRAME_VERSION, OP_DATA, seq_no] + be_u16_bytes(count)
}

/// Bytes in front of the data of a frame.
pub open spec fn head_len(fd: bool) -> nat {
    if fd {
        6
    } else {
        5
    }
}

/// Reads one frame off the front of `buf`: the frame and the number of bytes it
/// took. `None` when the bytes run out or the length exceeds the frame's class.
pub open spec fn decode(buf: Seq<u8>) -> Option<(FrameView, nat)> {
    if buf.len() < 5 {
        None
    } else {
        let can_id = be_u32(buf);
        let fd = buf[4] >= 128;
        let len = buf[4] % 128;
        let head = head_len(fd);
        let n: nat = if rtr(can_id) {
            0
        } else {
            len as nat
        };
        if len > class_limit(fd) || buf.len() < head + n {
            None
        } else {
            Some(
                (
                    FrameView {
                        can_id,
                        len,
                        fd,
                        fd_flags: if fd {
                            buf[5]
                        } else {
                            0
                        },
                        data: buf.subrange(head as int, (head + n) as int) + zeros((64 - n) as nat),
                        rx_time_ms: 0,
                    },
                    head + n,
                ),
            )
        }
    }
}

/// Reads `count` frames off the front of `buf`; `None` when any of them is
/// malformed or missing.
pub open spec fn decode_n(buf: Seq<u8>, count: nat) -> Option<Seq<FrameView>>
    decreases count,
{
    if count == 0 {
        Some(seq![])
    } else {
        match decode(buf) {
            None => None,
            Some((f, n)) => match decode_n(buf.skip(n as int), (count - 1) as nat) {
                None => None,
                Some(rest) => Some(seq![f] + rest),
            },
        }
    }
}

/// The frames of a UDP datagram: a data packet of this version whose header
/// counts exactly the frames read from its body. Bytes after them are ignored.
pub open spec fn parse(buf: Seq<u8>) -> Option<Seq<FrameView>> {
    if buf.len() < 5 || buf[0] != FRAME_VERSION || buf[1] != OP_DATA {
        None
    } else {
        decode_n(buf.skip(5), be_u16(buf.skip(3)) as nat)
    }
}

// =========================== bit-level facts ============================

/// The length byte splits into its FD bit and its seven length bits.
pub proof fn lemma_len_bits(raw: u8)
    ensures
        (raw & CANFD_FRAME != 0) == (raw >= 128),
        raw & !CANFD_FRAME == raw % 128,
        raw & 0x7F == raw % 128,
{
    assert((raw & 0x80u8 != 0) == (raw >= 128)) by (bit_vector);
    assert(raw & !0x80u8 == raw % 128) by (bit_vector);
    assert(raw & 0x7Fu8 == raw % 128) by (bit_vector);
}

/// Setting the FD bit on a seven-bit length adds 128.
proof fn lemma_set_fd_bit(len: u8)
    requires
        len < 128,
    ensures
        len | CANFD_FRAME == len + 128,
{
    assert(len | 0x80u8 == len + 128) by (bit_vector)
        requires
            len < 128,
    ;
}

// ============================ frame basics ==============================

impl Default for Frame {
    fn default() -> (f: Self)
        ensures
            f@ == blank(),
    {
        let f = Frame {
            can_id: 0,
            len: 0,
            fd: false,
            fd_flags: 0,
            data: [0u8; 64],
            rx_time_ms: 0,
        };
        assert(f@ =~= blank());
        f
    }
}

impl Frame {
    /// Whether this is a remote frame, which carries a length but no data.
    pub fn is_rtr(&self) -> (r: bool)
        ensures
            r == rtr(self.can_id),
    {
        self.can_id & CAN_RTR_FLAG != 0
    }
}

// ============================ frame encoder =============================

/// Appends one frame in wire format to `out`.
pub fn encode_frame(out: &mut Vec<u8>, f: &Frame)
    requires
        f@.payload_len() <= MAX_FRAME_LEN,
    ensures
        final(out)@ == old(out)@ + encode(f@),
{
    proof {
        lemma_len_bits(f.len);
    }
    let dlen: u8 = f.len & 0x7F;
    let mut len: u8 = dlen;
    if f.fd {
        proof {
            lemma_set_fd_bit(len);
        }
        len = len | CANFD_FRAME;
    }
    let ghost before = out@;
    put_be_u32(out, f.can_id);
    out.push(len);
    if f.fd {
        out.push(f.fd_flags);
    }
    let ghost head = out@;
    assert(head =~= before + be_u32_bytes(f.can_id) + seq![len_byte(f@)] + (if f.fd {
        seq![f.fd_flags]
    } else {
        seq![]
    }));
    if !f.is_rtr() {
        let n: usize = dlen as usize;
        let mut i: usize = 0;
        while i < n
            invariant
                i <= n <= 64,
                out@ == head + f.data@.take(i as int),
            decreases n - i,
        {
            out.push(f.data[i]);
            i += 1;
        }
    }
    assert(out@ =~= before + encode(f@));
}

/// Appends a 32-bit value, most significant byte first.
fn put_be_u32(out: &mut Vec<u8>, x: u32)
    ensures
        final(out)@ == old(out)@ + be_u32_bytes(x),
{
    let ghost before = out@;
    out.push((x / 0x100_0000) as u8);
    out.push((x / 0x1_0000 % 0x100) as u8);
    out.push((x / 0x100 % 0x100) as u8);
    out.push((x % 0x100) as u8);
    assert(out@ =~= before + be_u32_bytes(x));
}

/// Reads a 32-bit value at `p`, most significant byte first.
fn get_be_u32(buf: &[u8], p: usize) -> (x: u32)
    requires
        p + 4 <= buf@.len(),
    ensures
        x == be_u32(buf@.skip(p as int)),
{
    buf[p] as u32 * 0x100_0000 + buf[p + 1] as u32 * 0x1_0000 + buf[p + 2] as u32 * 0x100
        + buf[p + 3] as u32
}

// ======================= streaming (TCP) decoder ========================

/// Where the streaming decoder stands inside a frame.
#[derive(Clone, Copy, PartialEq, Eq, Structural, Debug)]
pub enum DecodeState {
    Init,
    CanId,
    Len,
    Flags,
    Data,
}

/// Result of feeding the next chunk to the streaming decoder.
pub enum Decoded {
    /// Need this many more bytes before the next call.
    Need(usize),
    /// A frame is complete.
    Complete,
    /// Protocol error.
    Error,
}

/// Where the decoder goes once the head of a frame is known: straight to the end
/// when no data follows, else to the data.
pub open spec fn after_head(f: FrameView) -> (FrameView, DecodeState, Decoded) {
    if rtr(f.can_id) || f.len == 0 {
        (f, DecodeState::Init, Decoded::Complete)
    } else {
        (f, DecodeState::Data, Decoded::Need(f.len as usize))
    }
}

/// One step of the streaming decoder: the frame so far, the next state and the
/// answer, given the bytes asked for. A chunk of any other size is an error and
/// changes nothing.
pub open spec fn stream_step(data: Seq<u8>, f: FrameView, state: DecodeState) -> (
    FrameView,
    DecodeState,
    Decoded,
) {
    match state {
        DecodeState::Init => (blank(), DecodeState::CanId, Decoded::Need(4)),
        DecodeState::CanId => if data.len() != 4 {
            (f, state, Decoded::Error)
        } else {
            (FrameView { can_id: be_u32(data), ..f }, DecodeState::Len, Decoded::Need(1))
        },
        DecodeState::Len => if data.len() != 1 {
            (f, state, Decoded::Error)
        } else {
            let g = FrameView { fd: data[0] >= 128, len: data[0] % 128, ..f };
            if !g.in_class() {
                (g, state, Decoded::Error)
            } else if g.fd {
                (g, DecodeState::Flags, Decoded::Need(1))
            } else {
                after_head(g)
            }
        },
        DecodeState::Flags => if data.len() != 1 {
            (f, state, Decoded::Error)
        } else {
            after_head(FrameView { fd_flags: data[0], ..f })
        },
        DecodeState::Data => if data.len() != f.len || f.len > MAX_FRAME_LEN {
            (f, state, Decoded::Error)
        } else {
            (
                FrameView { data: data + f.data.skip(data.len() as int), ..f },
                DecodeState::Init,
                Decoded::Complete,
            )
        },
    }
}

/// Drives the streaming decoder: start in `Init`, call with an empty slice to
/// learn the first read size, then feed precisely the requested number of bytes
/// each step.
pub fn decode_stream(data: &[u8], f: &mut Frame, state: &mut DecodeState) -> (r: Decoded)
    ensures
        (final(f)@, *final(state), r) == stream_step(data@, old(f)@, *old(state)),
{
    match *state {
        DecodeState::Init => {
            *f = Frame::default();
            *state = DecodeState::CanId;
            Decoded::Need(4)
        },
        DecodeState::CanId => {
            if data.len() != 4 {
                return Decoded::Error;
            }
            assert(data@.skip(0) =~= data@);
            f.can_id = get_be_u32(data, 0);
            *state = DecodeState::Len;
            Decoded::Need(1)
        },
        DecodeState::Len => {
            if data.len() != 1 {
                return Decoded::Error;
            }
            let raw: u8 = data[0];
            proof {
                lemma_len_bits(raw);
            }
            if raw & CANFD_FRAME != 0 {
                f.fd = true;
                f.len = raw & !CANFD_FRAME;
                if f.len as usize > MAX_FRAME_LEN {
                    return Decoded::Error;
                }
                *state = DecodeState::Flags;
                return Decoded::Need(1);
            }
            f.fd = false;
            f.len = raw;
            if f.len as usize > CLASSIC_FRAME_MAX_LEN {
                return Decoded::Error;
            }
            finish_head(f, state)
        },
        DecodeState::Flags => {
            if data.len() != 1 {
                return Decoded::Error;
            }
            f.fd_flags = data[0];
            finish_head(f, state)
        },
        DecodeState::Data => {
            let n: usize = f.len as usize;
            if data.len() != n || n > MAX_FRAME_LEN {
                return Decoded::Error;
            }
            copy_data(f, data, 0, n);
            assert(data@.subrange(0, n as int) =~= data@);
            *state = DecodeState::Init;
            Decoded::Complete
        },
    }
}

/// Ends the head of a frame: asks for its data, if it has any.
fn finish_head(f: &Frame, state: &mut DecodeState) -> (r: Decoded)
    ensures
        (f@, *final(state), r) == after_head(f@),
{
    if f.is_rtr() || f.len == 0 {
        *state = DecodeState::Init;
        return Decoded::Complete;
    }
    *state = DecodeState::Data;
    Decoded::Need(f.len as usize)
}

/// Copies `n` bytes of `buf`, from `p` on, to the front of the frame's data.
fn copy_data(f: &mut Frame, buf: &[u8], p: usize, n: usize)
    requires
        n <= 64,
        p + n <= buf@.len(),
    ensures
        final(f)@ == (FrameView {
            data: buf@.subrange(p as int, p + n) + old(f)@.data.skip(n as int),
            ..old(f)@
        }),
{
    let ghost before = *f;
    let mut i: usize = 0;
    while i < n
        invariant
            i <= n <= 64,
            p + n <= buf.len(),
            f@ == (FrameView {
                data: buf@.subrange(p as int, p + i) + before@.data.skip(i as int),
                ..before@
            }),
        decreases n - i,
    {
        f.data[i] = buf[p + i];
        i += 1;
        assert(f@.data =~= buf@.subrange(p as int, p + i) + before@.data.skip(i as int));
    }
}

// ========================== UDP packet codec ============================

/// Builds a one-frame UDP datagram.
pub fn build_udp(f: &Frame, seq_no: u8) -> (out: Vec<u8>)
    requires
        f@.payload_len() <= MAX_FRAME_LEN,
    ensures
        out@ == header(seq_no, 1) + encode(f@),
{
    let mut out: Vec<u8> = Vec::with_capacity(DATA_PACKET_BASE_SIZE + 16);
    out.push(FRAME_VERSION);
    out.push(OP_DATA);
    out.push(seq_no);
    out.push(0);
    out.push(1);
    assert(out@ =~= header(seq_no, 1));
    encode_frame(&mut out, f);
    out
}

/// How many frames to reserve room for when a datagram of `buf_len` bytes claims
/// `count` frames: never more than the datagram could physically hold.
pub fn udp_prealloc_cap(count: u16, buf_len: usize) -> (r: usize)
    ensures
        r == vstd::math::min(count as int, buf_len as int / FRAME_BASE_SIZE as int + 1),
{
    let room: usize = buf_len / FRAME_BASE_SIZE + 1;
    if (count as usize) < room {
        count as usize
    } else {
        room
    }
}

/// Reads one frame at `p`: the frame and the position after it.
fn parse_frame(buf: &[u8], p: usize) -> (r: Option<(Frame, usize)>)
    requires
        p <= buf@.len(),
    ensures
        match r {
            None => decode(buf@.skip(p as int)) is None,
            Some((f, q)) => p <= q <= buf@.len() && decode(buf@.skip(p as int)) == Some(
                (f@, (q - p) as nat),
            ),
        },
{
    let ghost b = buf@.skip(p as int);
    if buf.len() - p < FRAME_BASE_SIZE {
        return None;
    }
    let mut f = Frame::default();
    f.can_id = get_be_u32(buf, p);
    let raw: u8 = buf[p + 4];
    proof {
        lemma_len_bits(raw);
        assert(b[4] == raw);
    }
    let mut q: usize = p + 5;
    if raw & CANFD_FRAME != 0 {
        f.fd = true;
        f.len = raw & !CANFD_FRAME;
        if q >= buf.len() {
            return None;
        }
        f.fd_flags = buf[q];
        assert(b[5] == f.fd_flags);
        q += 1;
    } else {
        f.len = raw;
    }
    let dlen: usize = f.len as usize;
    let limit: usize = if f.fd {
        MAX_FRAME_LEN
    } else {
        CLASSIC_FRAME_MAX_LEN
    };
    if dlen > limit {
        return None;
    }
    let ghost head = head_len(f.fd);
    assert(q == p + head);
    if !f.is_rtr() {
        if buf.len() - q < dlen {
            return None;
        }
        copy_data(&mut f, buf, q, dlen);
        assert(buf@.subrange(q as int, q + dlen) =~= b.subrange(head as int, head + dlen));
        assert(zeros(64).skip(dlen as int) =~= zeros((64 - dlen) as nat));
        q += dlen;
    } else {
        assert(b.subrange(head as int, head as int) + zeros(64) =~= zeros(64));
    }
    Some((f, q))
}

/// Parses a UDP datagram into the frames it carries; `None` on a malformed or
/// truncated packet.
pub fn parse_udp(buf: &[u8]) -> (r: Option<Vec<Frame>>)
    ensures
        match r {
            None => parse(buf@) is None,
            Some(fs) => parse(buf@) == Some(views(fs@)),
        },
{
    if buf.len() < DATA_PACKET_BASE_SIZE {
        return None;
    }
    if buf[0] != FRAME_VERSION || buf[1] != OP_DATA {
        return None;
    }
    let count: u16 = buf[3] as u16 * 0x100 + buf[4] as u16;
    assert(count == be_u16(buf@.skip(3)));
    let mut frames: Vec<Frame> = Vec::with_capacity(udp_prealloc_cap(count, buf.len()));
    let mut p: usize = DATA_PACKET_BASE_SIZE;
    let mut left: u16 = count;
    while left > 0
        invariant
            p <= buf@.len(),
            parse(buf@) == (match decode_n(buf@.skip(p as int), left as nat) {
                None => None,
                Some(rest) => Some(views(frames@) + rest),
            }),
        decreases left,
    {
        match parse_frame(buf, p) {
            None => {
                return None;
            },
            Some((f, q)) => {
                assert(buf@.skip(p as int).skip(q - p) =~= buf@.skip(q as int));
                let ghost before = views(frames@);
                frames.push(f);
                assert(views(frames@) =~= before.push(f@));
                assert(forall|rest: Seq<FrameView>|
                    before + (seq![f@] + rest) =~= #[trigger] (before.push(f@) + rest));
                p = q;
                left -= 1;
            },
        }
    }
    assert(views(frames@) + Seq::<FrameView>::empty() =~= views(frames@));
    Some(frames)
}

// =================== Kvaser <-> SocketCAN translation ===================

/// Whether `n` is a data length that a CAN FD length code stands for.
pub open spec fn valid_fd_len(n: int) -> bool {
    0 <= n <= 8 || n == 12 || n == 16 || n == 20 || n == 24 || n == 32 || n == 48 || n == 64
}

/// The smallest valid CAN FD length that holds `n` bytes; 64 beyond that.
pub open spec fn fd_len(n: u8) -> u8 {
    if n <= 8 {
        n
    } else if n <= 12 {
        12
    } else if n <= 16 {
        16
    } else if n <= 20 {
        20
    } else if n <= 24 {
        24
    } else if n <= 32 {
        32
    } else if n <= 48 {
        48
    } else {
        64
    }
}

/// Rounds a byte count up to a valid CAN FD data length.
pub fn fd_round_len(n: u8) -> (r: u8)
    ensures
        r == fd_len(n),
        valid_fd_len(r as int),
        n <= 64 ==> n <= r,
        forall|m: int| valid_fd_len(m) && n <= m ==> r <= m,
{
    if n <= 8 {
        n
    } else if n <= 12 {
        12
    } else if n <= 16 {
        16
    } else if n <= 20 {
        20
    } else if n <= 24 {
        24
    } else if n <= 32 {
        32
    } else if n <= 48 {
        48
    } else {
        64
    }
}

/// The on-wire flags byte for Kvaser message flags.
pub open spec fn fd_flags_of(kvaser_flag: u32) -> u8 {
    match (kvaser_flag & CAN_MSG_BRS != 0, kvaser_flag & CAN_MSG_ESI != 0) {
        (false, false) => 0,
        (true, false) => CANFD_BRS,
        (false, true) => CANFD_ESI,
        (true, true) => CANFD_BRS | CANFD_ESI,
    }
}

/// The Kvaser message flags for an on-wire flags byte.
pub open spec fn kvaser_fd_flags(fd_flags: u8) -> u32 {
    match (fd_flags & CANFD_BRS != 0, fd_flags & CANFD_ESI != 0) {
        (false, false) => 0,
        (true, false) => CAN_MSG_BRS,
        (false, true) => CAN_MSG_ESI,
        (true, true) => CAN_MSG_BRS | CAN_MSG_ESI,
    }
}

/// Maps Kvaser message flags to the on-wire `fd_flags` byte.
pub fn kvaser_to_fd_flags(kvaser_flag: u32) -> (f: u8)
    ensures
        f == fd_flags_of(kvaser_flag),
{
    let mut f: u8 = 0;
    if kvaser_flag & CAN_MSG_BRS != 0 {
        f = f | CANFD_BRS;
    }
    if kvaser_flag & CAN_MSG_ESI != 0 {
        f = f | CANFD_ESI;
    }
    assert(0u8 | 1u8 == 1 && 0u8 | 2u8 == 2) by (bit_vector);
    f
}

/// Maps an on-wire `fd_flags` byte to Kvaser message flags.
pub fn fd_flags_to_kvaser(fd_flags: u8) -> (f: u32)
    ensures
        f == kvaser_fd_flags(fd_flags),
{
    let mut f: u32 = 0;
    if fd_flags & CANFD_BRS != 0 {
        f = f | CAN_MSG_BRS;
    }
    if fd_flags & CANFD_ESI != 0 {
        f = f | CAN_MSG_ESI;
    }
    assert(0u32 | 0x2_0000u32 == 0x2_0000 && 0u32 | 0x4_0000u32 == 0x4_0000) by (bit_vector);
    f
}

/// The SocketCAN identifier for a Kvaser identifier and message flags.
pub open spec fn canid_of(id: i32, kvaser_flag: u32) -> u32 {
    (if kvaser_flag & CAN_MSG_EXT != 0 {
        (id as u32 & CAN_EFF_MASK) | CAN_EFF_FLAG
    } else {
        id as u32 & CAN_SFF_MASK
    }) | (if kvaser_flag & CAN_MSG_RTR != 0 {
        CAN_RTR_FLAG
    } else {
        0
    })
}

/// The bare identifier of a SocketCAN identifier.
pub open spec fn bare_id(can_id: u32) -> u32 {
    if can_id & CAN_EFF_FLAG != 0 {
        can_id & CAN_EFF_MASK
    } else {
        can_id & CAN_SFF_MASK
    }
}

/// The Kvaser message flags of a SocketCAN identifier.
pub open spec fn kvaser_flags_of(can_id: u32, fd: bool) -> u32 {
    (if can_id & CAN_EFF_FLAG != 0 {
        CAN_MSG_EXT
    } else {
        CAN_MSG_STD
    }) | (if rtr(can_id) {
        CAN_MSG_RTR
    } else {
        0
    }) | (if fd {
        CAN_MSG_FDF
    } else {
        0
    })
}

/// Builds a SocketCAN identifier from a Kvaser identifier and message flags.
pub fn kvaser_to_canid(id: i32, kvaser_flag: u32) -> (can_id: u32)
    ensures
        can_id == canid_of(id, kvaser_flag),
{
    let mut can_id: u32 = if kvaser_flag & CAN_MSG_EXT != 0 {
        (id as u32 & CAN_EFF_MASK) | CAN_EFF_FLAG
    } else {
        id as u32 & CAN_SFF_MASK
    };
    assert(can_id | 0u32 == can_id) by (bit_vector);
    if kvaser_flag & CAN_MSG_RTR != 0 {
        can_id = can_id | CAN_RTR_FLAG;
    }
    can_id
}

/// Splits a SocketCAN identifier into a Kvaser identifier and message flags.
pub fn canid_to_kvaser(can_id: u32, fd: bool) -> (r: (i32, u32))
    ensures
        r.0 == bare_id(can_id),
        r.1 == kvaser_flags_of(can_id, fd),
{
    assert(can_id & 0x1FFF_FFFFu32 <= 0x1FFF_FFFF) by (bit_vector);
    assert(can_id & 0x7FFu32 <= 0x7FF) by (bit_vector);
    let (id, base): (i32, u32) = if can_id & CAN_EFF_FLAG != 0 {
        ((can_id & CAN_EFF_MASK) as i32, CAN_MSG_EXT)
    } else {
        ((can_id & CAN_SFF_MASK) as i32, CAN_MSG_STD)
    };
    let mut flag: u32 = base;
    assert(flag | 0u32 == flag) by (bit_vector);
    if can_id & CAN_RTR_FLAG != 0 {
        flag = flag | CAN_MSG_RTR;
    }
    assert(flag | 0u32 == flag) by (bit_vector);
    if fd {
        flag = flag | CAN_MSG_FDF;
    }
    (id, flag)
}

} // verus!
