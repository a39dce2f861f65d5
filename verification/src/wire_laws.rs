//! Laws of the wire format: both codecs undo the encoder, agree with each other
//! on every byte string, and let no frame escape its length class.

use crate::wire::{
    decode, decode_n, encode, encode_all, parse, DecodeState, Decoded, Frame, FrameView, CANFD_BRS,
    CANFD_ESI, CAN_EFF_FLAG, CAN_EFF_MASK, CAN_MSG_BRS, CAN_MSG_ESI, CAN_MSG_EXT, CAN_MSG_FDF,
    CAN_MSG_RTR, CAN_MSG_STD, CAN_SFF_MASK, FRAME_BASE_SIZE, FRAME_VERSION, MAX_FRAME_LEN, OP_DATA,
};
use crate::wire::{
    after_head, bare_id, be_u16, be_u32, be_u32_bytes, blank, canid_of, fd_flags_of, fd_len,
    head_len, header, kvaser_fd_flags, kvaser_flags_of, len_byte, rtr, stream_step, views,
    zeros,
};
use vstd::prelude::*;

verus! {

// ============================== single frames ==============================

/// Reading four big-endian bytes undoes writing them.
proof fn lemma_be_u32(x: u32, rest: Seq<u8>)
    ensures
        be_u32(be_u32_bytes(x) + rest) == x,
{
    let b = be_u32_bytes(x) + rest;
    assert(b[0] == x / 0x100_0000 && b[1] == x / 0x1_0000 % 0x100 && b[2] == x / 0x100 % 0x100
        && b[3] == x % 0x100);
}

/// Writing four big-endian bytes undoes reading them.
proof fn lemma_be_u32_back(b: Seq<u8>)
    requires
        b.len() >= 4,
    ensures
        be_u32_bytes(be_u32(b)) == b.take(4),
{
    let x = be_u32(b);
    assert(x / 0x100 == b[0] * 0x1_0000 + b[1] * 0x100 + b[2] && x % 0x100 == b[3]);
    assert(x / 0x1_0000 == b[0] * 0x100 + b[1]);
    assert(x / 0x100_0000 == b[0]);
    assert(be_u32_bytes(x) =~= b.take(4));
}

/// A frame has exactly one reading: decoding what was encoded, whatever bytes
/// follow, gives back what the wire keeps of the frame and takes exactly its
/// bytes.
pub proof fn law_decode_encode(f: FrameView, rest: Seq<u8>)
    requires
        f.in_class(),
        f.data.len() == 64,
    ensures
        decode(encode(f) + rest) == Some((f.on_wire(), encode(f).len())),
{
    let e = encode(f);
    let b = e + rest;
    let n = f.payload_len() as int;
    let head = head_len(f.fd) as int;
    assert(e.len() == head + n);
    lemma_be_u32(f.can_id, e.skip(4) + rest);
    assert(b =~= be_u32_bytes(f.can_id) + (e.skip(4) + rest));
    assert(b[4] == len_byte(f));
    if f.fd {
        assert(b[5] == f.fd_flags);
    }
    assert(b.subrange(head, head + n) =~= f.data.take(n));
}

/// Bytes have exactly one encoding: encoding what was decoded gives back the
/// bytes it was read from.
pub proof fn law_encode_decode(buf: Seq<u8>)
    ensures
        decode(buf) matches Some((f, n)) ==> n <= buf.len() && encode(f) == buf.take(n as int),
{
    if let Some((f, n)) = decode(buf) {
        lemma_be_u32_back(buf);
        assert(encode(f) =~= buf.take(n as int));
    }
}

/// Every frame that the format admits obeys the limit of its class, and takes at
/// least the bytes of a frame head.
pub proof fn law_decode_in_class(buf: Seq<u8>)
    ensures
        decode(buf) matches Some((f, n)) ==> f.in_class() && f.data.len() == 64
            && FRAME_BASE_SIZE <= n <= buf.len() && f.on_wire() == f,
{
    if let Some((f, n)) = decode(buf) {
        assert(f.on_wire() =~= f);
    }
}

/// A frame cut short anywhere is not a frame.
pub proof fn law_truncated_frame(f: FrameView, k: int)
    requires
        f.in_class(),
        f.data.len() == 64,
        0 <= k < encode(f).len(),
    ensures
        decode(encode(f).take(k)) is None,
{
    let e = encode(f);
    let b = e.take(k);
    if b.len() >= 5 {
        lemma_be_u32(f.can_id, e.skip(4).take(k - 4));
        assert(b =~= be_u32_bytes(f.can_id) + e.skip(4).take(k - 4));
        assert(b[4] == len_byte(f));
    }
}

// ================================ datagrams ================================

/// What the wire keeps of each frame.
pub open spec fn all_on_wire(fs: Seq<FrameView>) -> Seq<FrameView> {
    fs.map_values(|f: FrameView| f.on_wire())
}

/// Every frame is one that its class can hold.
pub open spec fn all_in_class(fs: Seq<FrameView>) -> bool {
    forall|i: int| 0 <= i < fs.len() ==> (#[trigger] fs[i]).in_class() && fs[i].data.len() == 64
}

/// What follows the first of such frames is such frames.
proof fn lemma_tail_in_class(fs: Seq<FrameView>)
    requires
        all_in_class(fs),
        fs.len() > 0,
    ensures
        all_in_class(fs.drop_first()),
{
    let tail = fs.drop_first();
    assert forall|i: int| 0 <= i < tail.len() implies (#[trigger] tail[i]).in_class()
        && tail[i].data.len() == 64 by {
        assert(tail[i] == fs[i + 1]);
    }
}

/// A run of encoded frames decodes to those frames, whatever follows.
proof fn lemma_decode_n(fs: Seq<FrameView>, rest: Seq<u8>)
    requires
        all_in_class(fs),
    ensures
        decode_n(encode_all(fs) + rest, fs.len()) == Some(all_on_wire(fs)),
    decreases fs.len(),
{
    if fs.len() == 0 {
        assert(all_on_wire(fs) =~= seq![]);
    } else {
        let tail = fs.drop_first();
        let more = encode_all(tail) + rest;
        assert(encode_all(fs) + rest =~= encode(fs[0]) + more);
        lemma_tail_in_class(fs);
        law_decode_encode(fs[0], more);
        assert((encode(fs[0]) + more).skip(encode(fs[0]).len() as int) =~= more);
        lemma_decode_n(tail, rest);
        assert(seq![fs[0].on_wire()] + all_on_wire(tail) =~= all_on_wire(fs));
    }
}

/// A run of encoded frames holds no frame beyond its last.
proof fn lemma_decode_n_short(fs: Seq<FrameView>, count: nat)
    requires
        all_in_class(fs),
        fs.len() < count,
    ensures
        decode_n(encode_all(fs), count) is None,
    decreases fs.len(),
{
    if fs.len() > 0 {
        let tail = fs.drop_first();
        let more = encode_all(tail);
        lemma_tail_in_class(fs);
        law_decode_encode(fs[0], more);
        assert((encode(fs[0]) + more).skip(encode(fs[0]).len() as int) =~= more);
        lemma_decode_n_short(tail, (count - 1) as nat);
    }
}

/// A datagram with a well-formed header is read from its body alone.
proof fn lemma_parse_header(seq_no: u8, count: u16, body: Seq<u8>)
    ensures
        parse(header(seq_no, count) + body) == decode_n(body, count as nat),
{
    let b = header(seq_no, count) + body;
    assert(b.skip(5) =~= body);
    assert(b.skip(3)[0] == count / 0x100 && b.skip(3)[1] == count % 0x100);
    assert(b[0] == FRAME_VERSION && b[1] == OP_DATA);
}

/// UDP round trip: a datagram built from any frame of its class, under any
/// sequence number, parses to exactly what the wire keeps of that frame.
pub proof fn law_udp_roundtrip(f: FrameView, seq_no: u8)
    requires
        f.in_class(),
        f.data.len() == 64,
    ensures
        parse(header(seq_no, 1) + encode(f)) == Some(seq![f.on_wire()]),
{
    let fs = seq![f];
    law_udp_batch(fs, seq_no, 1, seq![]);
    assert(fs.drop_first() =~= seq![]);
    assert(encode_all(fs) =~= encode(f)) by {
        assert(encode_all(fs.drop_first()) =~= seq![]);
    }
    assert(header(seq_no, 1) + encode_all(fs) + Seq::<u8>::empty() =~= header(seq_no, 1) + encode(
        f,
    ));
    assert(all_on_wire(fs) =~= seq![f.on_wire()]);
}

/// A datagram that batches several frames parses to all of them, in order;
/// bytes after the last counted frame are ignored.
pub proof fn law_udp_batch(fs: Seq<FrameView>, seq_no: u8, count: u16, rest: Seq<u8>)
    requires
        all_in_class(fs),
        fs.len() == count,
    ensures
        parse(header(seq_no, count) + encode_all(fs) + rest) == Some(all_on_wire(fs)),
{
    lemma_parse_header(seq_no, count, encode_all(fs) + rest);
    assert(header(seq_no, count) + encode_all(fs) + rest =~= header(seq_no, count) + (encode_all(fs)
        + rest));
    lemma_decode_n(fs, rest);
}

/// A datagram that claims more frames than it carries is rejected as a whole.
pub proof fn law_udp_overclaimed(fs: Seq<FrameView>, seq_no: u8, count: u16)
    requires
        all_in_class(fs),
        fs.len() < count,
    ensures
        parse(header(seq_no, count) + encode_all(fs)) is None,
{
    lemma_parse_header(seq_no, count, encode_all(fs));
    lemma_decode_n_short(fs, count as nat);
}

/// Frames read in a row all obey the limit of their class.
proof fn lemma_decode_n_in_class(buf: Seq<u8>, count: nat)
    ensures
        decode_n(buf, count) matches Some(fs) ==> fs.len() == count && all_in_class(fs),
    decreases count,
{
    if count > 0 {
        if let Some((f, n)) = decode(buf) {
            law_decode_in_class(buf);
            lemma_decode_n_in_class(buf.skip(n as int), (count - 1) as nat);
            if let Some(rest) = decode_n(buf.skip(n as int), (count - 1) as nat) {
                let fs = seq![f] + rest;
                assert forall|i: int| 0 <= i < fs.len() implies (#[trigger] fs[i]).in_class()
                    && fs[i].data.len() == 64 by {
                    if i > 0 {
                        assert(fs[i] == rest[i - 1]);
                    }
                }
            }
        }
    }
}

/// No over-length frame escapes the UDP parser, whatever the bytes, and a
/// datagram yields exactly as many frames as its header counts.
pub proof fn law_parse_in_class(buf: Seq<u8>)
    ensures
        parse(buf) matches Some(fs) ==> all_in_class(fs) && fs.len() == be_u16(buf.skip(3)),
{
    if parse(buf) is Some {
        lemma_decode_n_in_class(buf.skip(5), be_u16(buf.skip(3)) as nat);
    }
}

// ================================= streams =================================

/// All frames that a byte stream holds, up to the first that is malformed or
/// incomplete.
pub open spec fn decode_all(buf: Seq<u8>) -> Seq<FrameView>
    decreases buf.len(),
{
    match decode(buf) {
        None => seq![],
        Some((f, n)) => if 0 < n <= buf.len() {
            seq![f] + decode_all(buf.skip(n as int))
        } else {
            seq![]
        },
    }
}

/// The frames that come out of the streaming decoder when it is in `state` with
/// frame `f`, waits for `need` bytes, and is fed from `buf` exactly what it asks
/// for until it fails or the bytes run out.
pub open spec fn stream_frames(
    buf: Seq<u8>,
    f: FrameView,
    state: DecodeState,
    need: nat,
) -> Seq<FrameView>
    decreases buf.len(),
{
    if need == 0 || need > buf.len() {
        seq![]
    } else {
        let rest = buf.skip(need as int);
        let (g, next, answer) = stream_step(buf.take(need as int), f, state);
        match answer {
            Decoded::Need(n) => stream_frames(rest, g, next, n as nat),
            Decoded::Complete => seq![g] + stream_frames(rest, blank(), DecodeState::CanId, 4),
            Decoded::Error => seq![],
        }
    }
}

/// The frames that come out of a fresh streaming decoder fed with `buf`.
pub open spec fn stream_decode(buf: Seq<u8>) -> Seq<FrameView> {
    stream_frames(buf, blank(), DecodeState::CanId, 4)
}

/// The data of a frame, read by the streaming decoder.
proof fn lemma_stream_data(buf: Seq<u8>, f: FrameView, skipped: nat)
    requires
        skipped <= buf.len(),
        f.data == zeros(64),
        f.in_class(),
        f.len > 0,
    ensures
        stream_frames(buf.skip(skipped as int), f, DecodeState::Data, f.len as nat) == (if buf.len()
            < skipped + f.len {
            seq![]
        } else {
            seq![
                FrameView {
                    data: buf.subrange(skipped as int, skipped + f.len) + zeros(
                        (64 - f.len) as nat,
                    ),
                    ..f
                },
            ] + stream_decode(buf.skip(skipped + f.len))
        }),
{
    let b = buf.skip(skipped as int);
    if buf.len() >= skipped + f.len {
        assert(b.take(f.len as int) =~= buf.subrange(skipped as int, skipped + f.len));
        assert(b.skip(f.len as int) =~= buf.skip(skipped + f.len));
        assert(zeros(64).skip(f.len as int) =~= zeros((64 - f.len) as nat));
    }
}

/// A frame whose head is complete, finished by the streaming decoder.
proof fn lemma_stream_after_head(buf: Seq<u8>, f: FrameView, skipped: nat)
    requires
        skipped <= buf.len(),
        f.data == zeros(64),
        f.in_class(),
    ensures
        ({
            let (g, next, answer) = after_head(f);
            let n = f.payload_len();
            let rest = buf.skip(skipped as int);
            (match answer {
                Decoded::Need(k) => stream_frames(rest, g, next, k as nat),
                Decoded::Complete => seq![g] + stream_decode(rest),
                Decoded::Error => seq![],
            }) == (if buf.len() < skipped + n {
                seq![]
            } else {
                seq![
                    FrameView {
                        data: buf.subrange(skipped as int, (skipped + n) as int) + zeros(
                            (64 - n) as nat,
                        ),
                        ..f
                    },
                ] + stream_decode(buf.skip((skipped + n) as int))
            })
        }),
{
    if rtr(f.can_id) || f.len == 0 {
        let d = buf.subrange(skipped as int, skipped as int) + zeros(64);
        assert(d =~= f.data);
        assert(f.payload_len() == 0);
        assert(FrameView { data: d, ..f } =~= f);
    } else {
        assert(f.payload_len() == f.len);
        lemma_stream_data(buf, f, skipped);
    }
}

/// The streaming decoder, fed from `buf`, reads exactly the frames of the format.
proof fn lemma_stream_is_decode_all(buf: Seq<u8>)
    ensures
        stream_decode(buf) == decode_all(buf),
    decreases buf.len(),
{
    if buf.len() >= 4 {
        let can_id = be_u32(buf);
        assert(buf.take(4)[0] == buf[0] && buf.take(4)[1] == buf[1] && buf.take(4)[2] == buf[2]
            && buf.take(4)[3] == buf[3]);
        assert(be_u32(buf.take(4)) == can_id);
        let f1 = FrameView { can_id, ..blank() };
        let b1 = buf.skip(4);
        assert(stream_decode(buf) == stream_frames(b1, f1, DecodeState::Len, 1));
        if buf.len() >= 5 {
            let raw = buf[4];
            assert(b1.take(1)[0] == raw);
            assert(b1.skip(1) =~= buf.skip(5));
            let f2 = FrameView { fd: raw >= 128, len: raw % 128, ..f1 };
            if f2.in_class() {
                if f2.fd {
                    assert(stream_decode(buf) == stream_frames(
                        buf.skip(5),
                        f2,
                        DecodeState::Flags,
                        1,
                    ));
                    if buf.len() >= 6 {
                        assert(buf.skip(5).take(1)[0] == buf[5]);
                        assert(buf.skip(5).skip(1) =~= buf.skip(6));
                        let f3 = FrameView { fd_flags: buf[5], ..f2 };
                        lemma_stream_after_head(buf, f3, 6);
                    }
                } else {
                    lemma_stream_after_head(buf, f2, 5);
                }
                if let Some((f, n)) = decode(buf) {
                    lemma_stream_is_decode_all(buf.skip(n as int));
                }
            }
        }
    }
}

/// The streaming decoder reads any byte stream as the format says: fed exactly
/// the bytes it asks for, it yields the frames at the front of the stream, one
/// after the other, and stops at the first malformed or incomplete one.
pub proof fn law_stream_follows_format(buf: Seq<u8>)
    ensures
        stream_decode(buf) == decode_all(buf),
{
    lemma_stream_is_decode_all(buf);
}

/// TCP round trip: a stream of encoded frames comes out of the streaming decoder
/// as what the wire keeps of those frames, in order.
pub proof fn law_stream_roundtrip(fs: Seq<FrameView>)
    requires
        all_in_class(fs),
    ensures
        stream_decode(encode_all(fs)) == all_on_wire(fs),
    decreases fs.len(),
{
    lemma_stream_is_decode_all(encode_all(fs));
    if fs.len() == 0 {
        assert(all_on_wire(fs) =~= seq![]);
    } else {
        let tail = fs.drop_first();
        let more = encode_all(tail);
        lemma_tail_in_class(fs);
        law_decode_encode(fs[0], more);
        law_decode_in_class(encode(fs[0]) + more);
        assert((encode(fs[0]) + more).skip(encode(fs[0]).len() as int) =~= more);
        law_stream_roundtrip(tail);
        lemma_stream_is_decode_all(more);
        assert(seq![fs[0].on_wire()] + all_on_wire(tail) =~= all_on_wire(fs));
    }
}

/// Reading `count` frames and reading all frames see the same frames.
proof fn lemma_decode_n_is_prefix(buf: Seq<u8>, count: nat)
    ensures
        decode_n(buf, count) == (if decode_all(buf).len() < count {
            None
        } else {
            Some(decode_all(buf).take(count as int))
        }),
    decreases count,
{
    let all = decode_all(buf);
    if count == 0 {
        assert(all.take(0) =~= seq![]);
    } else if let Some((f, n)) = decode(buf) {
        law_decode_in_class(buf);
        let rest = decode_all(buf.skip(n as int));
        lemma_decode_n_is_prefix(buf.skip(n as int), (count - 1) as nat);
        assert(all == seq![f] + rest);
        if rest.len() >= count - 1 {
            assert(seq![f] + rest.take(count - 1) =~= all.take(count as int));
        }
    }
}

/// The two transports agree on every byte string: a datagram with these bytes as
/// its body is accepted exactly when the stream decoder finds at least as many
/// frames in them as the header counts, and then both see the same frames. The
/// sequence number plays no part.
pub proof fn law_transports_agree(body: Seq<u8>, seq_no: u8, count: u16)
    ensures
        parse(header(seq_no, count) + body) == (if stream_decode(body).len() < count {
            None
        } else {
            Some(stream_decode(body).take(count as int))
        }),
{
    lemma_parse_header(seq_no, count, body);
    lemma_stream_is_decode_all(body);
    lemma_decode_n_is_prefix(body, count as nat);
}

/// What the streaming decoder knows of the frame it is in the middle of.
pub open spec fn stream_inv(f: FrameView, state: DecodeState) -> bool {
    match state {
        DecodeState::Init => true,
        DecodeState::CanId | DecodeState::Len => f.data.len() == 64,
        DecodeState::Flags => f.in_class() && f.data.len() == 64,
        DecodeState::Data => f.in_class() && f.data.len() == 64 && f.len > 0,
    }
}

/// No over-length frame escapes the streaming decoder, whatever it is fed: every
/// step keeps what is known of the frame, a completed frame obeys the limit of
/// its class and leaves the decoder ready for the next one, and no step asks for
/// nothing or for more than a payload.
pub proof fn law_stream_in_class(data: Seq<u8>, f: FrameView, state: DecodeState)
    requires
        stream_inv(f, state),
    ensures
        ({
            let (g, next, answer) = stream_step(data, f, state);
            &&& answer is Error || stream_inv(g, next)
            &&& answer is Complete ==> g.in_class() && g.data.len() == 64 && next
                == DecodeState::Init
            &&& answer matches Decoded::Need(n) ==> 1 <= n <= MAX_FRAME_LEN && next
                != DecodeState::Init
        }),
{
}

// ============================ id translation ===============================

/// Kvaser ids survive the trip to SocketCAN and back: the id bits of its class
/// come back, and with them exactly the extended/standard and remote flags.
pub proof fn law_kvaser_id_roundtrip(id: i32, flag: u32, fd: bool)
    ensures
        bare_id(canid_of(id, flag)) == (if flag & CAN_MSG_EXT != 0 {
            id as u32 & CAN_EFF_MASK
        } else {
            id as u32 & CAN_SFF_MASK
        }),
        flag & CAN_MSG_EXT != 0 && 0 <= id <= CAN_EFF_MASK ==> bare_id(canid_of(id, flag)) == id,
        flag & CAN_MSG_EXT == 0 && 0 <= id <= CAN_SFF_MASK ==> bare_id(canid_of(id, flag)) == id,
        kvaser_flags_of(canid_of(id, flag), fd) == (if flag & CAN_MSG_EXT != 0 {
            CAN_MSG_EXT
        } else {
            CAN_MSG_STD
        }) | (flag & CAN_MSG_RTR) | (if fd {
            CAN_MSG_FDF
        } else {
            0
        }),
        rtr(canid_of(id, flag)) == (flag & CAN_MSG_RTR != 0),
{
    let u = id as u32;
    let m = u & 0x1FFF_FFFFu32;
    let n = u & 0x7FFu32;
    assert(m & 0x1FFF_FFFFu32 == m && n & 0x7FFu32 == n) by (bit_vector)
        requires
            m == u & 0x1FFF_FFFFu32,
            n == u & 0x7FFu32,
    ;
    let e = m | 0x8000_0000u32;
    assert({
        &&& (e | 0u32) & 0x8000_0000u32 != 0
        &&& (e | 0x4000_0000u32) & 0x8000_0000u32 != 0
        &&& (n | 0u32) & 0x8000_0000u32 == 0
        &&& (n | 0x4000_0000u32) & 0x8000_0000u32 == 0
        &&& (e | 0u32) & 0x4000_0000u32 == 0
        &&& (e | 0x4000_0000u32) & 0x4000_0000u32 != 0
        &&& (n | 0u32) & 0x4000_0000u32 == 0
        &&& (n | 0x4000_0000u32) & 0x4000_0000u32 != 0
        &&& (e | 0u32) & 0x1FFF_FFFFu32 == m
        &&& (e | 0x4000_0000u32) & 0x1FFF_FFFFu32 == m
        &&& (n | 0u32) & 0x7FFu32 == n
        &&& (n | 0x4000_0000u32) & 0x7FFu32 == n
    }) by (bit_vector)
        requires
            m == u & 0x1FFF_FFFFu32,
            n == u & 0x7FFu32,
            e == m | 0x8000_0000u32,
    ;
    assert(u <= 0x1FFF_FFFF ==> u & 0x1FFF_FFFFu32 == u) by (bit_vector);
    assert(u <= 0x7FF ==> u & 0x7FFu32 == u) by (bit_vector);
    assert(flag & 1u32 == 0 || flag & 1u32 == 1) by (bit_vector);
}

/// SocketCAN ids survive the trip to Kvaser and back, unless they carry bits that
/// Kvaser has no room for: the error-frame bit, or identifier bits above the
/// eleventh on a standard id.
pub proof fn law_canid_roundtrip(can_id: u32, fd: bool)
    requires
        can_id & 0x2000_0000 == 0,
        can_id & CAN_EFF_FLAG == 0 ==> can_id & 0x1FFF_F800 == 0,
    ensures
        canid_of(bare_id(can_id) as i32, kvaser_flags_of(can_id, fd)) == can_id,
{
    let c = can_id;
    let m = c & 0x1FFF_FFFFu32;
    let n = c & 0x7FFu32;
    assert(m <= 0x1FFF_FFFF && n <= 0x7FF && m & 0x1FFF_FFFFu32 == m && n & 0x7FFu32 == n) by (
    bit_vector)
        requires
            m == c & 0x1FFF_FFFFu32,
            n == c & 0x7FFu32,
    ;
    let k = kvaser_flags_of(can_id, fd);
    let r: u32 = if rtr(can_id) {
        1
    } else {
        0
    };
    let d: u32 = if fd {
        0x1_0000
    } else {
        0
    };
    let x: u32 = if c & CAN_EFF_FLAG != 0 {
        4
    } else {
        2
    };
    assert(k == x | r | d);
    assert((k & 4 != 0) == (x == 4) && (k & 1 != 0) == (r == 1)) by (bit_vector)
        requires
            k == x | r | d,
            x == 4 || x == 2,
            r == 0 || r == 1,
            d == 0 || d == 0x1_0000u32,
    ;
    assert(c & 0x2000_0000u32 == 0 && c & 0x8000_0000u32 != 0 && c & 0x4000_0000u32 != 0 ==> ((c
        & 0x1FFF_FFFFu32) | 0x8000_0000u32) | 0x4000_0000u32 == c) by (bit_vector);
    assert(c & 0x2000_0000u32 == 0 && c & 0x8000_0000u32 != 0 && c & 0x4000_0000u32 == 0 ==> ((c
        & 0x1FFF_FFFFu32) | 0x8000_0000u32) | 0u32 == c) by (bit_vector);
    assert(c & 0x2000_0000u32 == 0 && c & 0x8000_0000u32 == 0 && c & 0x1FFF_F800u32 == 0 && c
        & 0x4000_0000u32 != 0 ==> (c & 0x7FFu32) | 0x4000_0000u32 == c) by (bit_vector);
    assert(c & 0x2000_0000u32 == 0 && c & 0x8000_0000u32 == 0 && c & 0x1FFF_F800u32 == 0 && c
        & 0x4000_0000u32 == 0 ==> (c & 0x7FFu32) | 0u32 == c) by (bit_vector);
}

/// The CAN FD flags survive translation both ways: each side gets back its own
/// bit-rate-switch and error-state bits, and nothing else.
pub proof fn law_fd_flags_roundtrip(kvaser_flag: u32, fd_flags: u8)
    ensures
        kvaser_fd_flags(fd_flags_of(kvaser_flag)) == kvaser_flag & (CAN_MSG_BRS | CAN_MSG_ESI),
        fd_flags_of(kvaser_fd_flags(fd_flags)) == fd_flags & (CANFD_BRS | CANFD_ESI),
{
    let k = kvaser_flag;
    let b = fd_flags;
    assert({
        &&& 0u8 & 1u8 == 0 && 0u8 & 2u8 == 0
        &&& 1u8 & 1u8 != 0 && 1u8 & 2u8 == 0
        &&& 2u8 & 1u8 == 0 && 2u8 & 2u8 != 0
        &&& (1u8 | 2u8) & 1u8 != 0 && (1u8 | 2u8) & 2u8 != 0
        &&& 0u32 & 0x2_0000u32 == 0 && 0u32 & 0x4_0000u32 == 0
        &&& 0x2_0000u32 & 0x2_0000u32 != 0 && 0x2_0000u32 & 0x4_0000u32 == 0
        &&& 0x4_0000u32 & 0x2_0000u32 == 0 && 0x4_0000u32 & 0x4_0000u32 != 0
        &&& (0x2_0000u32 | 0x4_0000u32) & 0x2_0000u32 != 0
        &&& (0x2_0000u32 | 0x4_0000u32) & 0x4_0000u32 != 0
    }) by (bit_vector);
    assert({
        &&& k & 0x2_0000u32 == 0 && k & 0x4_0000u32 == 0 ==> k & (0x2_0000u32 | 0x4_0000u32) == 0
        &&& k & 0x2_0000u32 != 0 && k & 0x4_0000u32 == 0 ==> k & (0x2_0000u32 | 0x4_0000u32)
            == 0x2_0000
        &&& k & 0x2_0000u32 == 0 && k & 0x4_0000u32 != 0 ==> k & (0x2_0000u32 | 0x4_0000u32)
            == 0x4_0000
        &&& k & 0x2_0000u32 != 0 && k & 0x4_0000u32 != 0 ==> k & (0x2_0000u32 | 0x4_0000u32)
            == 0x2_0000u32 | 0x4_0000u32
    }) by (bit_vector);
    assert({
        &&& b & 1u8 == 0 && b & 2u8 == 0 ==> b & (1u8 | 2u8) == 0
        &&& b & 1u8 != 0 && b & 2u8 == 0 ==> b & (1u8 | 2u8) == 1
        &&& b & 1u8 == 0 && b & 2u8 != 0 ==> b & (1u8 | 2u8) == 2
        &&& b & 1u8 != 0 && b & 2u8 != 0 ==> b & (1u8 | 2u8) == 1u8 | 2u8
    }) by (bit_vector);
}

/// Rounding to a CAN FD length is idempotent and keeps the order of lengths.
pub proof fn law_fd_len(n: u8, m: u8)
    ensures
        fd_len(fd_len(n)) == fd_len(n),
        n <= m ==> fd_len(n) <= fd_len(m),
{
}

/// A CAN FD length is the smallest of the valid ones that holds the bytes; 64 where none
/// does.
pub proof fn law_fd_len_is_smallest(n: u8, m: u8)
    ensures
        ({
            let r = fd_len(n);
            &&& r <= 8 || r == 12 || r == 16 || r == 20 || r == 24 || r == 32 || r == 48 || r == 64
            &&& n <= 64 ==> r >= n
            &&& n > 64 ==> r == 64
            &&& m >= n && (m <= 8 || m == 12 || m == 16 || m == 20 || m == 24 || m == 32 || m == 48
                || m == 64) ==> r <= m
        }),
{
}

// ================================= layout ==================================

/// The bytes of a frame, one by one: the identifier with its flag bits, the highest byte
/// first; the length, with 128 on top for CAN FD; the flags of a CAN FD frame; and as many
/// data bytes as the length says, none for a remote frame.
pub proof fn law_frame_layout(f: FrameView)
    requires
        f.data.len() == 64,
        f.payload_len() <= 64,
    ensures
        ({
            let b = encode(f);
            let head = if f.fd {
                6int
            } else {
                5
            };
            let n = if f.can_id & 0x4000_0000 != 0 {
                0int
            } else {
                (f.len % 128) as int
            };
            &&& b.len() == head + n
            &&& b[0] * 0x100_0000 + b[1] * 0x1_0000 + b[2] * 0x100 + b[3] == f.can_id
            &&& b[4] == f.len % 128 + (if f.fd {
                128int
            } else {
                0
            })
            &&& f.fd ==> b[5] == f.fd_flags
            &&& forall|i: int| 0 <= i < n ==> #[trigger] b[head + i] == f.data[i]
        }),
{
}

/// The header of a packet: version 2, operation 0, the sequence number, and the count with
/// its higher byte first.
pub proof fn law_header_layout(seq_no: u8, count: u16)
    ensures
        header(seq_no, count).len() == 5,
        header(seq_no, count)[0] == 2,
        header(seq_no, count)[1] == 0,
        header(seq_no, count)[2] == seq_no,
        header(seq_no, count)[3] * 0x100 + header(seq_no, count)[4] == count,
{
}

/// Frames stand back to back, in order.
pub proof fn law_frames_back_to_back(fs: Seq<FrameView>, f: FrameView)
    ensures
        encode_all(seq![]) == Seq::<u8>::empty(),
        encode_all(seq![f] + fs) == encode(f) + encode_all(fs),
{
    assert((seq![f] + fs).drop_first() =~= fs);
}

/// What the wire keeps of a frame: the identifier, the length, the class, the flags of a
/// CAN FD frame and the data up to the length. Beyond them all is zero.
pub proof fn law_wire_keeps(f: FrameView)
    requires
        f.data.len() == 64,
        f.payload_len() <= 64,
    ensures
        ({
            let g = f.on_wire();
            let n = if f.can_id & 0x4000_0000 != 0 {
                0int
            } else {
                (f.len % 128) as int
            };
            &&& g.can_id == f.can_id && g.len == f.len && g.fd == f.fd
            &&& g.fd_flags == if f.fd {
                f.fd_flags
            } else {
                0
            }
            &&& g.data.len() == 64
            &&& g.rx_time_ms == 0
            &&& forall|i: int| 0 <= i < 64 ==> #[trigger] g.data[i] == (if i < n {
                f.data[i]
            } else {
                0
            })
        }),
{
}

/// A frame is in its class when it has at most 64 bytes, or at most 8 for a classic one.
pub proof fn law_class_limits(f: FrameView)
    ensures
        f.in_class() <==> f.len <= 64 && (!f.fd ==> f.len <= 8),
{
}

/// A frame is read off the front of some bytes exactly when they hold its head, a length
/// within its class, and as many data bytes as that says, none for a remote frame.
pub proof fn law_when_a_frame_is_read(buf: Seq<u8>)
    ensures
        decode(buf) is Some <==> {
            let fd = buf[4] >= 128;
            let len = buf[4] % 128;
            let remote = buf[0] & 0x40 != 0;
            &&& buf.len() >= 5
            &&& len <= (if fd {
                64int
            } else {
                8
            })
            &&& buf.len() >= (if fd {
                6int
            } else {
                5
            }) + (if remote {
                0int
            } else {
                len as int
            })
        },
{
    if buf.len() >= 5 {
        let id = be_u32(buf);
        let hi = buf[0];
        let mid = buf[1];
        let low = buf[2];
        let end = buf[3];
        assert((id & 0x4000_0000 != 0) == (hi & 0x40 != 0)) by (bit_vector)
            requires
                id == hi * 0x100_0000 + mid * 0x1_0000 + low * 0x100 + end,
        ;
    }
}

/// A blank frame is zero throughout, and has room for 64 bytes.
pub proof fn law_blank(i: int)
    ensures
        blank().can_id == 0 && blank().len == 0 && !blank().fd && blank().fd_flags == 0
            && blank().rx_time_ms == 0,
        blank().data.len() == 64,
        0 <= i < 64 ==> blank().data[i] == 0,
{
}

/// The stream decoder starts by asking for the four bytes of an identifier. From then on a
/// chunk of another size than it asked for is an error, and leaves the frame and the state
/// as they are.
pub proof fn law_wrong_chunk(data: Seq<u8>, f: FrameView, state: DecodeState)
    ensures
        state is Init ==> stream_step(data, f, state) == (
            blank(),
            DecodeState::CanId,
            Decoded::Need(4),
        ),
        (state is CanId && data.len() != 4) || (state is Len && data.len() != 1) || (state is Flags
            && data.len() != 1) || (state is Data && data.len() != f.len) ==> stream_step(
            data,
            f,
            state,
        ) == (f, state, Decoded::Error),
{
}

/// The values of frames are those of each frame, in order.
pub proof fn law_views(fs: Seq<Frame>, i: int)
    ensures
        views(fs).len() == fs.len(),
        0 <= i < fs.len() ==> views(fs)[i] == fs[i]@,
{
}

} // verus!
