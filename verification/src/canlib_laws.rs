//! Laws that span the CANlib functions, the transport and the wire format.

use crate::canlib::{
    after_read, asks_fd, c_text, channel_count, channel_datum, composed, delivery_limit,
    error_text, fits_or_param, flushed, le_u32, le_u64, lemma_composed, outputs, patience,
    reads_next, status_of, text_or_param, user_bytes, written, Datum, ReadOutput,
    CAN_DRIVER_NORMAL, CAN_ERR_INVHANDLE, CAN_ERR_NOMSG, CAN_ERR_NOTFOUND, CAN_ERR_NOT_IMPLEMENTED,
    CAN_ERR_PARAM, CAN_OK, CAN_STAT_BUS_OFF, CAN_STAT_RX_PENDING, CAN_STAT_SW_OVERRUN,
    TIMER_SCALE_US,
};
use crate::shared::{parks, pushed, stamped, CbScope, SharedView, RING_CAP};
use crate::text::decimal_int;
use crate::transport::{
    after_rx, after_send, datagram_frames, law_tcp_loop_delivers_stream, outgoing, received,
    stream_start, ConnView, Sent,
};
use crate::wire::{
    canid_of, encode, encode_all, header, kvaser_fd_flags, rtr, zeros, FrameView, CAN_EFF_FLAG,
    CAN_EFF_MASK, CAN_MSG_BRS, CAN_MSG_ESI, CAN_MSG_EXT, CAN_MSG_FDF, CAN_MSG_RTR, CAN_MSG_STD,
    CAN_SFF_MASK,
};
use crate::wire_laws::{
    all_in_class, all_on_wire, law_fd_flags_roundtrip, law_kvaser_id_roundtrip,
    law_stream_follows_format, law_stream_roundtrip, law_udp_roundtrip,
};
use vstd::prelude::*;
use vstd::utf8::encode_utf8;

verus! {

// ============================ end to end ================================

/// A written frame arrives: what the UDP packet and the TCP bytes of a write carry to
/// the other side is the one frame that was composed.
pub proof fn law_write_reaches_peer(
    id: i32,
    msg: Option<Seq<u8>>,
    dlc: u32,
    flag: u32,
    seq_no: u8,
)
    requires
        msg matches Some(m) ==> m.len() >= user_bytes(dlc, flag),
    ensures
        ({
            let f = composed(id, msg, dlc, flag);
            &&& datagram_frames(outgoing(false, seq_no, f)) == seq![f.on_wire()]
            &&& received(stream_start(), outgoing(true, seq_no, f)) == seq![f.on_wire()]
        }),
{
    let f = composed(id, msg, dlc, flag);
    lemma_composed(id, msg, dlc, flag);
    law_udp_roundtrip(f, seq_no);
    law_tcp_loop_delivers_stream(outgoing(true, seq_no, f));
    law_stream_follows_format(encode(f));
    let fs = seq![f];
    assert(fs.drop_first() =~= seq![]);
    assert(encode_all(fs.drop_first()) =~= seq![]);
    assert(encode_all(fs) =~= encode(f));
    assert(all_in_class(fs));
    law_stream_roundtrip(fs);
    assert(all_on_wire(fs) =~= seq![f.on_wire()]);
}

/// The flags of a write that travel with every frame: its identifier class, whether it
/// is a remote frame, and whether it is CAN FD.
pub open spec fn sent_flags(flag: u32) -> u32 {
    (if flag & CAN_MSG_EXT != 0 {
        CAN_MSG_EXT
    } else {
        CAN_MSG_STD
    }) | (flag & CAN_MSG_RTR) | (if flag & CAN_MSG_FDF != 0 {
        CAN_MSG_FDF
    } else {
        0
    })
}

/// What is written is what is read on an FD channel on the other side: the identifier
/// bits of its class, the class and remote flags, the FD flags of an FD frame, the
/// length, and the caller's bytes, padded with zeros up to a rounded FD length, or zeros
/// alone where the caller gave none. The frame waits behind those that came before it.
pub proof fn law_read_gives_back_write(
    id: i32,
    msg: Option<Seq<u8>>,
    dlc: u32,
    flag: u32,
    s: SharedView,
    now_ms: u64,
)
    requires
        msg matches Some(m) ==> m.len() >= user_bytes(dlc, flag),
        s.q.len() < RING_CAP,
        s.filters.passes(canid_of(id, flag)),
    ensures
        ({
            let f = composed(id, msg, dlc, flag);
            let n = user_bytes(dlc, flag);
            let g = stamped(f.on_wire(), now_ms);
            let out = outputs(g, true);
            &&& pushed(s, f.on_wire(), now_ms).0.q == s.q.push(g)
            &&& out.id == (if flag & CAN_MSG_EXT != 0 {
                id as u32 & CAN_EFF_MASK
            } else {
                id as u32 & CAN_SFF_MASK
            }) as i32
            &&& out.flag == (if flag & CAN_MSG_FDF != 0 {
                sent_flags(flag) | (flag & (CAN_MSG_BRS | CAN_MSG_ESI))
            } else {
                sent_flags(flag)
            })
            &&& out.dlc == f.len
            &&& out.time == now_ms
            &&& flag & CAN_MSG_RTR == 0 ==> out.data == match msg {
                Some(m) => m.take(n as int) + zeros((f.len - n) as nat),
                None => zeros(f.len as nat),
            }
            &&& flag & CAN_MSG_RTR != 0 ==> out.data.len() == 0
        }),
{
    let f = composed(id, msg, dlc, flag);
    let n = user_bytes(dlc, flag);
    let out = outputs(stamped(f.on_wire(), now_ms), true);
    lemma_composed(id, msg, dlc, flag);
    law_kvaser_id_roundtrip(id, flag, f.fd);
    law_fd_flags_roundtrip(flag, f.fd_flags);
    if flag & CAN_MSG_RTR == 0 {
        match msg {
            Some(m) => {
                assert(out.data =~= m.take(n as int) + zeros((f.len - n) as nat));
            },
            None => {
                assert(out.data =~= zeros(f.len as nat));
            },
        }
    }
}

// ============================ bounded delivery ==========================

/// A classic channel never delivers more than 8 bytes, nor any CAN FD flag, whatever
/// frame is on the bus; an FD channel never delivers more than 64 bytes.
pub proof fn law_delivery_is_bounded(f: FrameView, fd_capable: bool)
    ensures
        outputs(f, fd_capable).dlc <= delivery_limit(fd_capable),
        f.data.len() == 64 ==> outputs(f, fd_capable).data.len() <= outputs(f, fd_capable).dlc,
        !fd_capable ==> outputs(f, fd_capable).flag & (CAN_MSG_FDF | CAN_MSG_BRS | CAN_MSG_ESI)
            == 0,
{
    let x: u32 = if f.can_id & CAN_EFF_FLAG != 0 {
        4
    } else {
        2
    };
    let r: u32 = if rtr(f.can_id) {
        1
    } else {
        0
    };
    assert((x | r | 0u32) & (0x1_0000u32 | 0x2_0000u32 | 0x4_0000u32) == 0) by (bit_vector)
        requires
            x == 4 || x == 2,
            r == 0 || r == 1,
    ;
}

/// An FD channel delivers the whole payload of every frame within its class.
pub proof fn law_fd_channel_delivers_all(f: FrameView)
    requires
        f.in_class(),
        f.data.len() == 64,
    ensures
        outputs(f, true).dlc == f.len,
        !rtr(f.can_id) ==> outputs(f, true).data == f.data.take(f.len as int),
{
}

/// A classic frame is read the same on a classic channel and on an FD channel.
pub proof fn law_classic_frame_on_any_channel(f: FrameView)
    requires
        !f.fd,
        f.in_class(),
    ensures
        outputs(f, false) == outputs(f, true),
{
}

// ============================ blocking and status =======================

/// Inside a notify callback no read ever parks: the call is a poll.
pub proof fn law_no_parking_in_callback(
    s: SharedView,
    timeout: u64,
    waited: u128,
    scope: CbScope,
)
    requires
        scope.inside,
    ensures
        !parks(s, patience(timeout, scope), waited),
{
}

/// Outside a callback a read parks exactly while nothing is queued, the connection is
/// open and the timeout has not run out.
pub proof fn law_parking(s: SharedView, timeout: u64, waited: u128, scope: CbScope)
    requires
        !scope.inside,
    ensures
        parks(s, patience(timeout, scope), waited) <==> s.q.len() == 0 && !s.closed && waited
            < timeout * 1_000_000,
{
    assert(timeout * 1_000_000 <= u128::MAX);
}

/// The three status bits speak of three things, and can be told apart.
pub proof fn law_status_bits(c: ConnView)
    ensures
        (status_of(c) & CAN_STAT_RX_PENDING != 0) == (c.shared.q.len() > 0),
        (status_of(c) & CAN_STAT_SW_OVERRUN != 0) == c.shared.overflow,
        (status_of(c) & CAN_STAT_BUS_OFF != 0) == c.link_down,
{
    let p = c.shared.q.len() > 0;
    let o = c.shared.overflow;
    let d = c.link_down;
    let st = status_of(c);
    assert({
        &&& (st & 0x20u32 != 0) == p
        &&& (st & 0x400u32 != 0) == o
        &&& (st & 0x2u32 != 0) == d
    }) by (bit_vector)
        requires
            st == (if p {
                0x20u32
            } else {
                0
            }) + (if o {
                0x400u32
            } else {
                0
            }) + (if d {
                0x2u32
            } else {
                0
            }),
    ;
}

/// A lost TCP link shows as bus off, however it was lost: the receive thread ended on
/// its own, or a send failed.
pub proof fn law_lost_link_is_bus_off(c: ConnView, len: nat)
    requires
        c.tcp,
    ensures
        c.running ==> status_of(after_rx(c)) & CAN_STAT_BUS_OFF != 0,
        status_of(after_send(c, len, Sent::Failed).0) & CAN_STAT_BUS_OFF != 0,
{
    law_status_bits(after_rx(c));
    law_status_bits(after_send(c, len, Sent::Failed).0);
}

/// A flush clears the pending and overrun bits and leaves the link bit.
pub proof fn law_flush_clears_status(c: ConnView)
    ensures
        status_of(flushed(c)) == (if c.link_down {
            CAN_STAT_BUS_OFF
        } else {
            0
        }),
{
}

/// A text in a buffer fits it, ends with a zero byte, and is whole where there is room.
pub proof fn law_text_fits(s: Seq<char>, room: int)
    requires
        room > 0,
    ensures
        0 < c_text(s, room).len() <= room,
        c_text(s, room).last() == 0,
        c_text(s, room).drop_last() == encode_utf8(s).take(c_text(s, room).len() - 1),
        encode_utf8(s).len() < room ==> c_text(s, room) == encode_utf8(s).push(0),
{
    let bytes = encode_utf8(s);
    if bytes.len() < room {
        assert(bytes.take(bytes.len() as int) =~= bytes);
    }
    assert(c_text(s, room).drop_last() =~= bytes.take(c_text(s, room).len() - 1));
}

// ============================= what is written ==========================

/// Whether a number of bytes is one that a CAN FD length code stands for.
pub open spec fn fd_size(n: int) -> bool {
    0 <= n <= 8 || n == 12 || n == 16 || n == 20 || n == 24 || n == 32 || n == 48 || n == 64
}

/// The length of the frame that a write sends. A classic frame is as long as the caller
/// says, up to 8 bytes. A CAN FD frame has the smallest valid length that holds what the
/// caller says, up to 64 bytes.
pub proof fn law_written_length(id: i32, msg: Option<Seq<u8>>, dlc: u32, flag: u32)
    ensures
        ({
            let f = composed(id, msg, dlc, flag);
            let fd = flag & 0x1_0000 != 0;
            &&& f.fd == fd
            &&& !fd ==> f.len == if dlc <= 8 {
                dlc
            } else {
                8
            }
            &&& fd ==> fd_size(f.len as int)
            &&& fd ==> f.len >= dlc || f.len == 64
            &&& fd ==> forall|m: int| #[trigger] fd_size(m) && (m >= dlc || m == 64) ==> f.len <= m
            &&& fd && fd_size(dlc as int) ==> f.len == dlc
            &&& user_bytes(dlc, flag) == (if fd && dlc > 64 {
                64
            } else if !fd && dlc > 8 {
                8
            } else {
                dlc as int
            })
        }),
{
}

/// The frame that a write sends carries the caller's bytes in their order, then zeros; and
/// nothing but zeros for a remote frame, or where the caller gave no buffer.
pub proof fn law_written_data(id: i32, msg: Option<Seq<u8>>, dlc: u32, flag: u32)
    requires
        msg matches Some(m) ==> m.len() >= user_bytes(dlc, flag),
    ensures
        ({
            let f = composed(id, msg, dlc, flag);
            &&& f.data.len() == 64
            &&& f.rx_time_ms == 0
            &&& forall|i: int| 0 <= i < 64 ==> #[trigger] f.data[i] == (match msg {
                Some(m) => if flag & 1 == 0 && i < f.len && i < dlc {
                    m[i]
                } else {
                    0
                },
                None => 0,
            })
        }),
{
    lemma_composed(id, msg, dlc, flag);
    law_written_length(id, msg, dlc, flag);
}

/// The identifier of the frame that a write sends, bit for bit: the identifier bits of the
/// class that the caller chose, the extended bit exactly for an extended one, the remote
/// bit exactly for a remote frame, and no other bit.
pub proof fn law_written_id(id: i32, msg: Option<Seq<u8>>, dlc: u32, flag: u32)
    ensures
        ({
            let c = composed(id, msg, dlc, flag).can_id;
            let ext = flag & 4 != 0;
            &&& (c & 0x8000_0000 != 0) == ext
            &&& (c & 0x4000_0000 != 0) == (flag & 1 != 0)
            &&& c & 0x2000_0000 == 0
            &&& ext ==> c & 0x1FFF_FFFF == id as u32 & 0x1FFF_FFFF
            &&& !ext ==> c & 0x1FFF_FFFF == id as u32 & 0x7FF
        }),
{
    let u = id as u32;
    let ext = flag & 4 != 0;
    let remote = flag & 1 != 0;
    let c = composed(id, msg, dlc, flag).can_id;
    assert({
        &&& (c & 0x8000_0000 != 0) == ext
        &&& (c & 0x4000_0000 != 0) == remote
        &&& c & 0x2000_0000 == 0
        &&& ext ==> c & 0x1FFF_FFFF == u & 0x1FFF_FFFF
        &&& !ext ==> c & 0x1FFF_FFFF == u & 0x7FF
    }) by (bit_vector)
        requires
            c == (if ext {
                (u & 0x1FFF_FFFF) | 0x8000_0000u32
            } else {
                u & 0x7FF
            }) | (if remote {
                0x4000_0000u32
            } else {
                0
            }),
    ;
}

/// The flags byte of the frame that a write sends: bit 0 for a bit-rate switch, bit 1 for
/// an error state, on a CAN FD frame; zero on a classic one.
pub proof fn law_written_fd_flags(id: i32, msg: Option<Seq<u8>>, dlc: u32, flag: u32)
    ensures
        composed(id, msg, dlc, flag).fd_flags == (if flag & 0x1_0000 == 0 {
            0
        } else {
            (if flag & 0x2_0000 != 0 {
                1int
            } else {
                0
            }) + (if flag & 0x4_0000 != 0 {
                2int
            } else {
                0
            })
        }),
{
    assert(1u8 | 2u8 == 3) by (bit_vector);
}

// ============================== what is read ============================

/// What a read hands out: the bare identifier, the flags bit for bit, the length up to the
/// limit of the channel, the receive time, and exactly that many of the frame's bytes in
/// their order; none for a remote frame.
pub proof fn law_read_output(f: FrameView, fd_capable: bool)
    requires
        f.data.len() == 64,
    ensures
        ({
            let out = outputs(f, fd_capable);
            let c = f.can_id;
            let ext = c & 0x8000_0000 != 0;
            let remote = c & 0x4000_0000 != 0;
            let fd = f.fd && fd_capable;
            let limit = if fd_capable {
                64int
            } else {
                8
            };
            &&& out.id == (if ext {
                c & 0x1FFF_FFFF
            } else {
                c & 0x7FF
            }) as i32
            &&& out.time == f.rx_time_ms
            &&& out.dlc == (if f.len <= limit {
                f.len as int
            } else {
                limit
            })
            &&& remote ==> out.data.len() == 0
            &&& !remote ==> out.data.len() == out.dlc && forall|i: int|
                0 <= i < out.dlc ==> #[trigger] out.data[i] == f.data[i]
            &&& (out.flag & 1 != 0) == remote
            &&& (out.flag & 2 != 0) == !ext
            &&& (out.flag & 4 != 0) == ext
            &&& (out.flag & 0x1_0000 != 0) == fd
            &&& (out.flag & 0x2_0000 != 0) == (fd && f.fd_flags & 1 != 0)
            &&& (out.flag & 0x4_0000 != 0) == (fd && f.fd_flags & 2 != 0)
            &&& out.flag & 0xFFF8_FFF8 == 0
        }),
{
    let c = f.can_id;
    let ext = c & 0x8000_0000 != 0;
    let remote = c & 0x4000_0000 != 0;
    let fd = f.fd && fd_capable;
    let brs = f.fd_flags & 1 != 0;
    let esi = f.fd_flags & 2 != 0;
    let g = outputs(f, fd_capable).flag;
    let x: u32 = if ext {
        4
    } else {
        2
    };
    let r: u32 = if remote {
        1
    } else {
        0
    };
    let d: u32 = if fd {
        0x1_0000
    } else {
        0
    };
    let e: u32 = kvaser_fd_flags(f.fd_flags);
    assert(fd ==> g == x | r | d | e);
    assert(!fd ==> g == x | r | d);
    assert({
        &&& (g & 1 != 0) == remote
        &&& (g & 2 != 0) == !ext
        &&& (g & 4 != 0) == ext
        &&& (g & 0x1_0000 != 0) == fd
        &&& (g & 0x2_0000 != 0) == (fd && brs)
        &&& (g & 0x4_0000 != 0) == (fd && esi)
        &&& g & 0xFFF8_FFF8 == 0
    }) by (bit_vector)
        requires
            g == (if fd {
                x | r | d | e
            } else {
                x | r | d
            }),
            x == (if ext {
                4u32
            } else {
                2
            }),
            r == (if remote {
                1u32
            } else {
                0
            }),
            d == (if fd {
                0x1_0000u32
            } else {
                0
            }),
            e == (if brs && esi {
                0x2_0000u32 | 0x4_0000u32
            } else if brs {
                0x2_0000
            } else if esi {
                0x4_0000
            } else {
                0
            }),
    ;
}

/// A channel delivers CAN FD exactly when bit 10 of its open flags is set.
pub proof fn law_open_flag(flags: i32)
    ensures
        asks_fd(flags) == (flags & 0x400 != 0),
{
}

/// A flush throws away what was received, and the overrun with it, and keeps everything
/// else.
pub proof fn law_flushed(c: ConnView)
    ensures
        flushed(c).shared.q.len() == 0,
        !flushed(c).shared.overflow,
        flushed(c) == (ConnView {
            shared: SharedView { q: seq![], overflow: false, ..c.shared },
            ..c
        }),
{
}

// =========================== answers in buffers =========================

/// The four bytes of a number, lowest first, add up to it.
pub proof fn law_little_endian_word(x: u32)
    ensures
        le_u32(x).len() == 4,
        le_u32(x)[0] + le_u32(x)[1] * 0x100 + le_u32(x)[2] * 0x1_0000 + le_u32(x)[3] * 0x100_0000
            == x,
{
    assert(x % 0x100 + (x / 0x100 % 0x100) * 0x100 + (x / 0x1_0000 % 0x100) * 0x1_0000 + (x
        / 0x100_0000) * 0x100_0000 == x) by (bit_vector);
}

/// The eight bytes of a number are those of its lower half and then those of its upper
/// half.
pub proof fn law_little_endian_long(y: u64, lo: u32, hi: u32)
    requires
        y == hi * 0x1_0000_0000 + lo,
    ensures
        le_u64(y).len() == 8,
        le_u64(y).take(4) == le_u32(lo),
        le_u64(y).skip(4) == le_u32(hi),
{
    assert(y % 0x1_0000_0000 == lo && y / 0x1_0000_0000 == hi);
    assert(le_u64(y).take(4) =~= le_u32(lo));
    assert(le_u64(y).skip(4) =~= le_u32(hi));
}

/// The codes that callers see: those of success and of each failure, the timer scale in
/// microseconds, and the driver type that the output control starts with.
pub proof fn law_codes()
    ensures
        CAN_OK == 0,
        CAN_ERR_PARAM == -1,
        CAN_ERR_NOMSG == -2,
        CAN_ERR_NOTFOUND == -3,
        CAN_ERR_INVHANDLE == -10,
        CAN_ERR_NOT_IMPLEMENTED == -32,
        TIMER_SCALE_US == 1000,
        CAN_DRIVER_NORMAL == 4,
{
}

/// What a channel says of itself: its name by its number, what it can do, and a serial
/// number one above its number. Every other item that is known is the same for all
/// channels.
pub proof fn law_channel_data(channel: i32, item: i32)
    ensures
        channel_datum(channel, 13) == Datum::Text("kvasilloni vcan"@ + decimal_int(channel as int)),
        channel_datum(channel, 26) == Datum::Text("kvasilloni virtual CAN"@),
        channel_datum(channel, 24) == Datum::Text("kvasilloni"@),
        channel_datum(channel, 1) == Datum::Word(0x9_0001),
        item == 3 || item == 4 || item == 5 ==> channel_datum(channel, item) == Datum::Word(0),
        channel_datum(channel, 6) matches Datum::Word(x) && x == (if channel >= 0 {
            channel as int
        } else {
            channel + 0x1_0000_0000
        }),
        channel >= 0 ==> (channel_datum(channel, 7) matches Datum::Long(x) && x == channel + 1),
        channel < -1 ==> (channel_datum(channel, 7) matches Datum::Long(x) && x == channel
            + 0x1_0000_0000_0000_0001),
        channel_datum(channel, item) is Unknown ==> item != 1 && !(3 <= item <= 6) && item != 13
            && item != 24 && item != 26 && (item == 7 ==> channel == -1),
        item < 1 || item == 2 || 7 < item < 13 || 13 < item < 24 || item == 25 || item > 26
            ==> channel_datum(channel, item) is Unknown,
{
    assert(channel < 0 ==> channel as u64 == channel + 0x1_0000_0000_0000_0000 && channel as u32
        == channel + 0x1_0000_0000) by (bit_vector);
}

/// The text of each status that the library gives, and one text for all others.
pub proof fn law_error_texts(err: i32)
    ensures
        err == 0 ==> error_text(err) == "OK"@,
        err == -1 ==> error_text(err) == "Error in parameter"@,
        err == -2 ==> error_text(err) == "No messages available"@,
        err == -3 ==> error_text(err) == "Specified device not found"@,
        err > 0 || err < -3 ==> error_text(err) == "Unknown error"@,
{
}

/// The channel count is the configured one, up to the largest that a C `int` holds.
pub proof fn law_channel_count(n: u32)
    ensures
        channel_count(n) >= 0,
        n <= 0x7FFF_FFFF ==> channel_count(n) == n,
        n > 0x7FFF_FFFF ==> channel_count(n) == 0x7FFF_FFFF,
{
}

// ============================== the answers =============================

/// A write is answered with the bytes of its frame exactly when the connection is ready,
/// and only then counts the sequence number up; else it is refused, and nothing changes.
pub proof fn law_write_answer(
    c: ConnView,
    d: ConnView,
    id: i32,
    msg: Option<&[u8]>,
    dlc: u32,
    flag: u32,
    r: Result<Vec<u8>, i32>,
)
    requires
        written(c, d, id, msg, dlc, flag, r),
    ensures
        r is Ok <==> c.negotiated,
        r matches Err(e) ==> e == -1 && d == c,
        r matches Ok(bytes) ==> {
            let f = match msg {
                Some(m) => composed(id, Some(m@), dlc, flag),
                None => composed(id, None, dlc, flag),
            };
            &&& c.tcp ==> bytes@ == encode(f)
            &&& !c.tcp ==> bytes@ == header(c.seq, 1) + encode(f)
            &&& d == (ConnView { seq: d.seq, ..c })
            &&& d.seq == if c.tcp {
                c.seq as int
            } else {
                (c.seq + 1) % 256
            }
        },
{
}

/// A read is answered with the frame that has waited longest, and takes that one alone;
/// where none waits the answer says so, and nothing changes.
pub proof fn law_read_answer(c: ConnView, r: Result<ReadOutput, i32>)
    requires
        reads_next(c, r),
    ensures
        r is Ok <==> c.shared.q.len() > 0,
        r matches Ok(out) ==> out@ == outputs(c.shared.q[0], c.fd_capable) && after_read(c).shared.q
            == c.shared.q.drop_first(),
        r matches Err(e) ==> e == -2 && after_read(c) == c,
        after_read(c) == (ConnView {
            shared: SharedView { q: after_read(c).shared.q, ..c.shared },
            ..c
        }),
{
    if c.shared.q.len() > 0 {
        assert(c.shared.q.skip(1) =~= c.shared.q.drop_first());
    }
}

/// A number is answered exactly when there is a buffer with room for all of it.
pub proof fn law_number_answer(room: Option<usize>, bytes: Seq<u8>, r: Result<Vec<u8>, i32>)
    requires
        fits_or_param(room, bytes, r),
    ensures
        r is Ok <==> (room matches Some(n) && n >= bytes.len()),
        r matches Ok(v) ==> v@ == bytes,
        r matches Err(e) ==> e == -1,
{
}

/// A text is answered exactly when there is a buffer with room for at least one byte: as
/// much of it as fits beside a zero byte, which ends it.
pub proof fn law_text_answer(room: Option<usize>, s: Seq<char>, r: Result<Vec<u8>, i32>)
    requires
        text_or_param(room, s, r),
    ensures
        r is Ok <==> (room matches Some(n) && n > 0),
        r matches Err(e) ==> e == -1,
        r matches Ok(v) ==> {
            let bytes = encode_utf8(s);
            &&& v@.len() == (if bytes.len() < room->0 {
                bytes.len() + 1
            } else {
                room->0 as nat
            })
            &&& v@.last() == 0
            &&& forall|i: int| 0 <= i < v@.len() - 1 ==> #[trigger] v@[i] == bytes[i]
        },
{
}

/// The bits of a status: bit 5 for waiting frames, bit 10 for an overrun, bit 1 for a lost
/// link, and no other.
pub proof fn law_status_value(c: ConnView)
    ensures
        status_of(c) == (if c.shared.q.len() > 0 {
            32int
        } else {
            0
        }) + (if c.shared.overflow {
            1024int
        } else {
            0
        }) + (if c.link_down {
            2int
        } else {
            0
        }),
{
}

} // verus!
