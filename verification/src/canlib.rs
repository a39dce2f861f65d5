//! The CANlib functions, on plain values.
//!
//! Each function takes the connection that its handle was found to name, or `None`
//! where the handle names no open channel. What a C caller passes by pointer comes
//! in as an `Option`, `None` for a null pointer, and what it gets back by pointer
//! is returned; a function that can fail returns its CANlib status as the error.

use crate::handles::{with_channel, HandleTable};
use crate::open::Opening;
use crate::shared::{
    directed, in_notify_callback, parks, popped, CbScope, Notify, PeekWait, PopWait, SharedView,
};
use crate::text::{decimal_int, push_int};
use crate::transport::{
    after_send, after_write, closed, opened, outgoing, Closing, Conn, ConnView, RxEnd, Sent,
};
use crate::wire::{
    bare_id, canid_of, canid_to_kvaser, fd_flags_of, fd_flags_to_kvaser, fd_len, fd_round_len,
    kvaser_fd_flags, kvaser_flags_of, kvaser_to_canid, kvaser_to_fd_flags, rtr, zeros, Frame,
    FrameView, CAN_MSG_FDF, CAN_MSG_RTR, CLASSIC_FRAME_MAX_LEN, MAX_FRAME_LEN,
};
use vstd::prelude::*;
use vstd::utf8::encode_utf8;

verus! {

// ---- CANlib return codes ----

pub const CAN_OK: i32 = 0;

pub const CAN_ERR_PARAM: i32 = -1;

pub const CAN_ERR_NOMSG: i32 = -2;

pub const CAN_ERR_NOTFOUND: i32 = -3;

/// The handle names no open channel.
pub const CAN_ERR_INVHANDLE: i32 = -10;

pub const CAN_ERR_NOT_IMPLEMENTED: i32 = -32;

/// Default output-control driver type.
pub const CAN_DRIVER_NORMAL: u32 = 4;

/// Open flag: the application receives CAN FD payloads, of up to 64 bytes. Without
/// it the channel is classic and `canRead` never returns more than 8 bytes.
pub const CAN_OPEN_CAN_FD: i32 = 0x0400;

// ---- canReadStatus bits ----

/// The link to the peer was lost.
pub const CAN_STAT_BUS_OFF: u32 = 0x0000_0002;

/// At least one frame is queued for reading.
pub const CAN_STAT_RX_PENDING: u32 = 0x0000_0020;

/// Received frames were dropped on a full ring.
pub const CAN_STAT_SW_OVERRUN: u32 = 0x0000_0400;

// ---- canGetChannelData capability bits ----

pub const CAN_CHANNEL_CAP_EXTENDED_CAN: u32 = 0x0000_0001;

pub const CAN_CHANNEL_CAP_VIRTUAL: u32 = 0x0001_0000;

pub const CAN_CHANNEL_CAP_CAN_FD: u32 = 0x0008_0000;

/// What `canGetChannelData` says a channel can do: classic and FD frames, extended
/// identifiers, and that it is virtual.
pub const CHANNEL_CAP: u32 = 0x0009_0001;

/// The timer scale, microseconds per tick.
pub const TIMER_SCALE_US: u32 = 1000;

/// The version that the library reports: 9.0.
pub const VERSION: u16 = 0x0900;

// =============================== writing ================================

/// The smaller of two numbers.
pub open spec fn at_most(n: u32, max: u32) -> u32 {
    if n < max {
        n
    } else {
        max
    }
}

/// How many bytes of the caller's buffer a frame takes.
pub open spec fn user_bytes(dlc: u32, flag: u32) -> nat {
    if flag & CAN_MSG_FDF != 0 {
        at_most(dlc, 64) as nat
    } else {
        at_most(dlc, 8) as nat
    }
}

/// How many bytes of the caller's buffer a frame takes: at most 64 for CAN FD, at most
/// 8 for classic CAN.
pub fn payload_bytes(dlc: u32, flag: u32) -> (r: usize)
    ensures
        r == user_bytes(dlc, flag),
{
    let max: u32 = if flag & CAN_MSG_FDF != 0 {
        64
    } else {
        8
    };
    if dlc < max {
        dlc as usize
    } else {
        max as usize
    }
}

/// The frame that a write sends. Data beyond what the caller gave is zero; a CAN FD
/// length is rounded up to the next valid one; a remote frame carries no data.
pub open spec fn composed(id: i32, msg: Option<Seq<u8>>, dlc: u32, flag: u32) -> FrameView {
    let fd = flag & CAN_MSG_FDF != 0;
    let n = user_bytes(dlc, flag);
    FrameView {
        can_id: canid_of(id, flag),
        len: if fd {
            fd_len(n as u8)
        } else {
            n as u8
        },
        fd,
        fd_flags: if fd {
            fd_flags_of(flag)
        } else {
            0
        },
        data: match msg {
            Some(m) => if flag & CAN_MSG_RTR == 0 {
                m.take(n as int) + zeros((64 - n) as nat)
            } else {
                zeros(64)
            },
            None => zeros(64),
        },
        rx_time_ms: 0,
    }
}

/// A composed frame has a length that its class can hold.
pub proof fn lemma_composed(id: i32, msg: Option<Seq<u8>>, dlc: u32, flag: u32)
    requires
        msg matches Some(m) ==> m.len() >= user_bytes(dlc, flag),
    ensures
        composed(id, msg, dlc, flag).in_class(),
        composed(id, msg, dlc, flag).payload_len() <= MAX_FRAME_LEN,
        composed(id, msg, dlc, flag).data.len() == 64,
        composed(id, msg, dlc, flag).len >= user_bytes(dlc, flag),
{
}

/// Composes the frame of a write.
pub fn compose_frame(id: i32, msg: Option<&[u8]>, dlc: u32, flag: u32) -> (f: Frame)
    requires
        msg matches Some(m) ==> m@.len() >= user_bytes(dlc, flag),
    ensures
        f@ == composed(
            id,
            match msg {
                Some(m) => Some(m@),
                None => None,
            },
            dlc,
            flag,
        ),
{
    let mut f: Frame = Frame::default();
    f.can_id = kvaser_to_canid(id, flag);
    let n: usize = payload_bytes(dlc, flag);
    if flag & CAN_MSG_FDF != 0 {
        f.fd = true;
        f.fd_flags = kvaser_to_fd_flags(flag);
        f.len = fd_round_len(n as u8);
    } else {
        f.len = n as u8;
    }
    match msg {
        Some(src) => {
            if flag & CAN_MSG_RTR == 0 {
                let ghost head = f@;
                let mut i: usize = 0;
                assert(src@.take(0) + zeros(64) =~= zeros(64));
                while i < n
                    invariant
                        i <= n <= 64,
                        n <= src@.len(),
                        f@ == (FrameView {
                            data: src@.take(i as int) + zeros((64 - i) as nat),
                            ..head
                        }),
                    decreases n - i,
                {
                    let ghost before = f@.data;
                    f.data[i] = src[i];
                    assert(f@.data =~= before.update(i as int, src@[i as int]));
                    i += 1;
                    assert(f@.data =~= src@.take(i as int) + zeros((64 - i) as nat));
                }
            }
        },
        None => {},
    }
    assert(f@ =~= composed(
        id,
        match msg {
            Some(m) => Some(m@),
            None => None,
        },
        dlc,
        flag,
    ));
    f
}

/// Whether a write took a connection from `c` to `d` and was answered by `r`: with the
/// bytes to send, or with an error when the connection is not ready.
pub open spec fn written(
    c: ConnView,
    d: ConnView,
    id: i32,
    msg: Option<&[u8]>,
    dlc: u32,
    flag: u32,
    r: Result<Vec<u8>, i32>,
) -> bool {
    if c.negotiated {
        &&& r matches Ok(bytes) && bytes@ == outgoing(
            c.tcp,
            c.seq,
            composed(
                id,
                match msg {
                    Some(m) => Some(m@),
                    None => None,
                },
                dlc,
                flag,
            ),
        )
        &&& d == after_write(c)
    } else {
        &&& r == Err::<Vec<u8>, i32>(CAN_ERR_PARAM)
        &&& d == c
    }
}

/// Composes a frame and says which bytes to send. What becomes of the send is then
/// reported by [`write_done`].
pub fn write_frame(
    conn: Option<&mut Conn>,
    id: i32,
    msg: Option<&[u8]>,
    dlc: u32,
    flag: u32,
) -> (r: Result<Vec<u8>, i32>)
    requires
        msg matches Some(m) ==> m@.len() >= user_bytes(dlc, flag),
    ensures
        conn is None ==> r == Err::<Vec<u8>, i32>(CAN_ERR_INVHANDLE),
        conn matches Some(c) ==> written((*c)@, final(c)@, id, msg, dlc, flag, r),
{
    let f: Frame = compose_frame(id, msg, dlc, flag);
    proof {
        lemma_composed(
            id,
            match msg {
                Some(m) => Some(m@),
                None => None,
            },
            dlc,
            flag,
        );
    }
    match conn {
        Some(c) => match c.write(&f) {
            Ok(bytes) => Ok(bytes),
            Err(_) => Err(CAN_ERR_PARAM),
        },
        None => Err(CAN_ERR_INVHANDLE),
    }
}

/// The status of a write after its send of `len` bytes.
pub fn write_done(conn: &mut Conn, len: usize, sent: Sent) -> (r: i32)
    ensures
        final(conn)@ == after_send(old(conn)@, len as nat, sent).0,
        r == (if after_send(old(conn)@, len as nat, sent).1 is Ok {
            CAN_OK
        } else {
            CAN_ERR_PARAM
        }),
{
    match conn.finish_write(len, sent) {
        Ok(()) => CAN_OK,
        Err(_) => CAN_ERR_PARAM,
    }
}

/// Sends one frame.
pub fn canWrite(conn: Option<&mut Conn>, id: i32, msg: Option<&[u8]>, dlc: u32, flag: u32) -> (r:
    Result<Vec<u8>, i32>)
    requires
        msg matches Some(m) ==> m@.len() >= user_bytes(dlc, flag),
    ensures
        conn is None ==> r == Err::<Vec<u8>, i32>(CAN_ERR_INVHANDLE),
        conn matches Some(c) ==> written((*c)@, final(c)@, id, msg, dlc, flag, r),
{
    write_frame(conn, id, msg, dlc, flag)
}

/// Sends one frame. Sending is synchronous, so the timeout plays no part.
pub fn canWriteWait(
    conn: Option<&mut Conn>,
    id: i32,
    msg: Option<&[u8]>,
    dlc: u32,
    flag: u32,
    _timeout: u64,
) -> (r: Result<Vec<u8>, i32>)
    requires
        msg matches Some(m) ==> m@.len() >= user_bytes(dlc, flag),
    ensures
        conn is None ==> r == Err::<Vec<u8>, i32>(CAN_ERR_INVHANDLE),
        conn matches Some(c) ==> written((*c)@, final(c)@, id, msg, dlc, flag, r),
{
    write_frame(conn, id, msg, dlc, flag)
}

/// Waits until everything is sent: nothing is ever queued.
pub fn canWriteSync() -> (r: i32)
    ensures
        r == CAN_OK,
{
    CAN_OK
}

// =============================== reading ================================

/// What a read hands to its caller.
pub struct ReadOutput {
    pub id: i32,
    pub flag: u32,
    pub dlc: u32,
    pub time: u64,
    /// The bytes for the caller's buffer; none for a remote frame.
    pub data: Vec<u8>,
}

/// The value of a [`ReadOutput`].
#[verifier::ext_equal]
pub struct ReadView {
    pub id: i32,
    pub flag: u32,
    pub dlc: u32,
    pub time: u64,
    pub data: Seq<u8>,
}

impl View for ReadOutput {
    type V = ReadView;

    open spec fn view(&self) -> ReadView {
        ReadView {
            id: self.id,
            flag: self.flag,
            dlc: self.dlc,
            time: self.time,
            data: self.data@,
        }
    }
}

/// Most bytes that a read delivers on a channel.
pub open spec fn delivery_limit(fd_capable: bool) -> u32 {
    if fd_capable {
        64
    } else {
        8
    }
}

/// What a read of a frame hands to its caller. A channel that was not opened for CAN
/// FD delivers classic frames only: no FD flags, and at most 8 bytes.
pub open spec fn outputs(f: FrameView, fd_capable: bool) -> ReadView {
    let fd = f.fd && fd_capable;
    let n = at_most(f.len as u32, delivery_limit(fd_capable));
    ReadView {
        id: bare_id(f.can_id) as i32,
        flag: if fd {
            kvaser_flags_of(f.can_id, true) | kvaser_fd_flags(f.fd_flags)
        } else {
            kvaser_flags_of(f.can_id, false)
        },
        dlc: n,
        time: f.rx_time_ms,
        data: if rtr(f.can_id) {
            seq![]
        } else {
            f.data.take(n as int)
        },
    }
}

/// What a read of `f` hands to its caller.
pub fn write_read_outputs(f: &Frame, fd_capable: bool) -> (r: ReadOutput)
    ensures
        r@ == outputs(f@, fd_capable),
{
    let report_fd: bool = f.fd && fd_capable;
    let (id, base): (i32, u32) = canid_to_kvaser(f.can_id, report_fd);
    let flag: u32 = if report_fd {
        base | fd_flags_to_kvaser(f.fd_flags)
    } else {
        base
    };
    let max: usize = if fd_capable {
        MAX_FRAME_LEN
    } else {
        CLASSIC_FRAME_MAX_LEN
    };
    let n: usize = if (f.len as usize) < max {
        f.len as usize
    } else {
        max
    };
    let mut data: Vec<u8> = Vec::new();
    if !f.is_rtr() {
        let mut i: usize = 0;
        while i < n
            invariant
                i <= n <= 64,
                data@ == f.data@.take(i as int),
            decreases n - i,
        {
            data.push(f.data[i]);
            i += 1;
        }
    }
    let r = ReadOutput { id, flag, dlc: n as u32, time: f.rx_time_ms, data };
    assert(r@ =~= outputs(f@, fd_capable));
    r
}

/// Whether a read's answer hands out the next frame of a connection, or says that
/// there is none.
pub open spec fn reads_next(c: ConnView, r: Result<ReadOutput, i32>) -> bool {
    match popped(c.shared).1 {
        Some(f) => r matches Ok(out) && out@ == outputs(f, c.fd_capable),
        None => r matches Err(e) && e == CAN_ERR_NOMSG,
    }
}

/// A connection after a read.
pub open spec fn after_read(c: ConnView) -> ConnView {
    ConnView { shared: popped(c.shared).0, ..c }
}

/// Reads one frame, without waiting for one.
pub fn canRead(conn: Option<&mut Conn>) -> (r: Result<ReadOutput, i32>)
    ensures
        conn is None ==> r == Err::<ReadOutput, i32>(CAN_ERR_INVHANDLE),
        conn matches Some(c) ==> reads_next((*c)@, r) && final(c)@ == after_read((*c)@),
{
    match conn {
        Some(c) => {
            let fd_capable: bool = c.fd_capable();
            match c.read() {
                Some(f) => Ok(write_read_outputs(&f, fd_capable)),
                None => Err(CAN_ERR_NOMSG),
            }
        },
        None => Err(CAN_ERR_INVHANDLE),
    }
}

/// A CANlib timeout in milliseconds as nanoseconds. The timeout that stands for no
/// limit comes to about 49 days.
pub fn timeout_to_duration(timeout: u64) -> (r: u128)
    ensures
        r == timeout * 1_000_000,
{
    timeout as u128 * 1_000_000
}

/// How long a blocking call may take. Inside a notify callback, that is on the
/// receive thread, it may not take any time: it would wait for itself.
pub open spec fn patience(timeout: u64, scope: CbScope) -> u128 {
    if scope.inside {
        0
    } else {
        (timeout * 1_000_000) as u128
    }
}

/// How long a blocking call may take, nanoseconds.
fn patience_of(timeout: u64, scope: &CbScope) -> (r: u128)
    ensures
        r == patience(timeout, *scope),
{
    if in_notify_callback(scope) {
        0
    } else {
        timeout_to_duration(timeout)
    }
}

/// What a blocking read does next.
pub enum ReadWait {
    /// Return this.
    Done(Result<ReadOutput, i32>),
    /// Park for at most this many nanoseconds, then ask again.
    Park(u128),
}

/// One turn of a read that waits up to `timeout` milliseconds and has waited
/// `waited` nanoseconds.
pub fn canReadWait(conn: Option<&mut Conn>, timeout: u64, waited: u128, scope: &CbScope) -> (r:
    ReadWait)
    ensures
        conn is None ==> r == ReadWait::Done(Err(CAN_ERR_INVHANDLE)),
        conn matches Some(c) ==> if parks((*c)@.shared, patience(timeout, *scope), waited) {
            r == ReadWait::Park((patience(timeout, *scope) - waited) as u128) && final(c)@
                == (*c)@
        } else {
            (r matches ReadWait::Done(out) && reads_next((*c)@, out)) && final(c)@ == after_read(
                (*c)@,
            )
        },
{
    match conn {
        Some(c) => {
            let fd_capable: bool = c.fd_capable();
            match c.rx_shared().pop_wait(patience_of(timeout, scope), waited) {
                PopWait::Done(Some(f)) => ReadWait::Done(Ok(write_read_outputs(&f, fd_capable))),
                PopWait::Done(None) => ReadWait::Done(Err(CAN_ERR_NOMSG)),
                PopWait::Park(left) => ReadWait::Park(left),
            }
        },
        None => ReadWait::Done(Err(CAN_ERR_INVHANDLE)),
    }
}

/// What a wait for a frame does next.
#[derive(Clone, Copy, PartialEq, Eq, Structural, Debug)]
pub enum SyncWait {
    /// Return this status.
    Done(i32),
    /// Park for at most this many nanoseconds, then ask again.
    Park(u128),
}

/// One turn of a wait for a frame of up to `timeout` milliseconds that has taken
/// `waited` nanoseconds. The frame stays queued.
pub fn canReadSync(conn: Option<&Conn>, timeout: u64, waited: u128, scope: &CbScope) -> (r:
    SyncWait)
    ensures
        r == match conn {
            None => SyncWait::Done(CAN_ERR_INVHANDLE),
            Some(c) => if parks(c@.shared, patience(timeout, *scope), waited) {
                SyncWait::Park((patience(timeout, *scope) - waited) as u128)
            } else if c@.shared.q.len() > 0 {
                SyncWait::Done(CAN_OK)
            } else {
                SyncWait::Done(CAN_ERR_NOMSG)
            },
        },
{
    match conn {
        Some(c) => match c.rx().peek_wait(patience_of(timeout, scope), waited) {
            PeekWait::Done(true) => SyncWait::Done(CAN_OK),
            PeekWait::Done(false) => SyncWait::Done(CAN_ERR_NOMSG),
            PeekWait::Park(left) => SyncWait::Park(left),
        },
        None => SyncWait::Done(CAN_ERR_INVHANDLE),
    }
}

// ============================ status and control ========================

/// The status bits of a connection.
pub open spec fn status_of(c: ConnView) -> u32 {
    ((if c.shared.q.len() > 0 {
        CAN_STAT_RX_PENDING as int
    } else {
        0
    }) + (if c.shared.overflow {
        CAN_STAT_SW_OVERRUN as int
    } else {
        0
    }) + (if c.link_down {
        CAN_STAT_BUS_OFF as int
    } else {
        0
    })) as u32
}

/// The status bits of a channel: whether frames are pending, whether some were
/// dropped on a full ring, whether the link was lost. Lenient on an unknown handle,
/// which has none of them.
pub fn canReadStatus(conn: Option<&Conn>) -> (st: u32)
    ensures
        st == match conn {
            Some(c) => status_of(c@),
            None => 0,
        },
{
    let mut st: u32 = 0;
    match conn {
        Some(c) => {
            if c.rx_level() > 0 {
                st = st + CAN_STAT_RX_PENDING;
            }
            if c.rx_overflowed() {
                st = st + CAN_STAT_SW_OVERRUN;
            }
            if c.is_down() {
                st = st + CAN_STAT_BUS_OFF;
            }
        },
        None => {},
    }
    st
}

/// The transmit, receive and overrun error counters: a virtual bus has no errors.
pub fn canReadErrorCounters() -> (r: (u32, u32, u32))
    ensures
        r == (0u32, 0u32, 0u32),
{
    (0, 0, 0)
}

/// How many bytes of the caller's buffer to set to zero for the bus statistics, given
/// the room in it.
pub fn canGetBusStatistics(room: Option<usize>) -> (r: usize)
    ensures
        r == match room {
            Some(n) => n,
            None => 0,
        },
{
    match room {
        Some(n) => n,
        None => 0,
    }
}

/// The version of the library.
pub fn canGetVersion() -> (r: u16)
    ensures
        r == 0x0900,
{
    VERSION
}

/// Sets the bus parameters of a virtual bus, which has none.
pub fn canSetBusParams() -> (r: i32)
    ensures
        r == CAN_OK,
{
    CAN_OK
}

/// Takes the channel on bus, where it always is.
pub fn canBusOn() -> (r: i32)
    ensures
        r == CAN_OK,
{
    CAN_OK
}

/// Takes the channel off bus, which it never leaves.
pub fn canBusOff() -> (r: i32)
    ensures
        r == CAN_OK,
{
    CAN_OK
}

/// Drops what waits to be sent: nothing is ever queued.
pub fn canFlushTransmitQueue() -> (r: i32)
    ensures
        r == CAN_OK,
{
    CAN_OK
}

/// Sets the filter of an object buffer. Object buffers are a separate mechanism, so
/// this does nothing.
pub fn canObjBufSetFilter() -> (r: i32)
    ensures
        r == CAN_OK,
{
    CAN_OK
}

/// A connection with nothing received.
pub open spec fn flushed(c: ConnView) -> ConnView {
    ConnView { shared: SharedView { q: seq![], overflow: false, ..c.shared }, ..c }
}

/// Drops all received frames.
pub fn canFlushReceiveQueue(conn: Option<&mut Conn>) -> (r: i32)
    ensures
        conn is None ==> r == CAN_ERR_INVHANDLE,
        conn matches Some(c) ==> r == CAN_OK && final(c)@ == flushed((*c)@),
{
    match conn {
        Some(c) => {
            c.clear_rx();
            CAN_OK
        },
        None => CAN_ERR_INVHANDLE,
    }
}

/// Sets an acceptance filter.
pub fn canAccept(conn: Option<&mut Conn>, envelope: i32, flag: u32) -> (r: i32)
    ensures
        conn is None ==> r == CAN_ERR_INVHANDLE,
        conn matches Some(c) ==> r == CAN_OK && final(c)@ == (ConnView {
            shared: (SharedView {
                filters: directed((*c)@.shared.filters, flag, envelope as u32),
                ..(*c)@.shared
            }),
            ..(*c)@
        }),
{
    match conn {
        Some(c) => {
            c.set_accept(flag, envelope as u32);
            CAN_OK
        },
        None => CAN_ERR_INVHANDLE,
    }
}

/// Arms, replaces or disarms the notify callback of a channel. Returns whether the
/// caller has to wait for the callback that is running now.
pub fn canSetNotify(
    conn: Option<&mut Conn>,
    callback: usize,
    notify_flags: u32,
    tag: usize,
    scope: &CbScope,
) -> (r: Result<bool, i32>)
    ensures
        conn is None ==> r == Err::<bool, i32>(CAN_ERR_INVHANDLE),
        conn matches Some(c) ==> r == Ok::<bool, i32>(
            !scope.inside && (*c)@.shared.active is Some,
        ) && final(c)@ == (ConnView {
            shared: (SharedView {
                notify: (Notify { cb: callback, flags: notify_flags, tag }),
                ..(*c)@.shared
            }),
            ..(*c)@
        }),
{
    match conn {
        Some(c) => Ok(c.set_notify(callback, notify_flags, tag, scope)),
        None => Err(CAN_ERR_INVHANDLE),
    }
}

/// What the bus output control is set to. All channels share it.
pub struct BusOutput {
    pub driver: u32,
}

impl BusOutput {
    /// The default setting.
    pub fn new() -> (r: BusOutput)
        ensures
            r.driver == CAN_DRIVER_NORMAL,
    {
        BusOutput { driver: CAN_DRIVER_NORMAL }
    }
}

/// Stores the driver type.
pub fn canSetBusOutputControl(out: &mut BusOutput, drivertype: u32) -> (r: i32)
    ensures
        r == CAN_OK,
        final(out).driver == drivertype,
{
    out.driver = drivertype;
    CAN_OK
}

/// The driver type last stored.
pub fn canGetBusOutputControl(out: &BusOutput) -> (r: u32)
    ensures
        r == out.driver,
{
    out.driver
}

// ========================= opening and closing ==========================

/// Whether an open flag asks for CAN FD.
pub open spec fn asks_fd(flags: i32) -> bool {
    flags & CAN_OPEN_CAN_FD != 0
}

/// The connection of a channel whose opening is ready, opened with `flags`, given the
/// port that its socket is bound to, if that is known.
pub fn open_conn(opening: &Opening, bound: Option<u16>, flags: i32) -> (r: Option<Conn>)
    ensures
        match r {
            Some(c) => opening.stage is Ready && c@ == (ConnView {
                fd_capable: asks_fd(flags),
                ..opened(
                    opening.plan.tcp,
                    match bound {
                        Some(port) => port,
                        None => opening.plan.bind.port,
                    },
                )
            }),
            None => !(opening.stage is Ready),
        },
{
    match Conn::open(opening, bound) {
        Some(conn) => {
            let mut c: Conn = conn;
            c.set_fd_capable(flags & CAN_OPEN_CAN_FD != 0);
            Some(c)
        },
        None => None,
    }
}

/// Files a channel that opened under a new handle; a channel that did not open was not
/// found.
pub fn canOpenChannel<T>(table: &mut HandleTable<T>, channel: Option<T>) -> (r: i32)
    ensures
        match channel {
            Some(conn) => r == old(table)@.next && final(table)@ == with_channel(
                old(table)@,
                conn,
            ),
            None => r == CAN_ERR_NOTFOUND && final(table)@ == old(table)@,
        },
{
    match channel {
        Some(conn) => table.insert(conn),
        None => CAN_ERR_NOTFOUND,
    }
}

/// Closes a channel that its handle was found to name and that is out of the table.
/// Closing an unknown handle does nothing. The status is always good.
pub fn canClose(conn: Option<&mut Conn>, on_rx_thread: bool) -> (r: (i32, Option<Closing>))
    ensures
        r.0 == CAN_OK,
        conn is None ==> r.1 is None,
        conn matches Some(c) ==> final(c)@ == closed((*c)@) && r.1 == Some(
            Closing {
                shutdown: (*c)@.tcp,
                rx: if !(*c)@.joinable {
                    RxEnd::Nothing
                } else if on_rx_thread {
                    RxEnd::Detach
                } else {
                    RxEnd::Join
                },
            },
        ),
{
    match conn {
        Some(c) => (CAN_OK, Some(c.close(on_rx_thread))),
        None => (CAN_OK, None),
    }
}

// ============================ answers in buffers ========================

/// A number as four little-endian bytes.
pub open spec fn le_u32(x: u32) -> Seq<u8> {
    seq![
        (x % 0x100) as u8,
        (x / 0x100 % 0x100) as u8,
        (x / 0x1_0000 % 0x100) as u8,
        (x / 0x100_0000) as u8,
    ]
}

/// A number as eight little-endian bytes.
pub open spec fn le_u64(x: u64) -> Seq<u8> {
    le_u32((x % 0x1_0000_0000) as u32) + le_u32((x / 0x1_0000_0000) as u32)
}

/// Whether an answer holds `bytes`, or the buffer that has `room` for it is missing
/// or too small.
pub open spec fn fits_or_param(room: Option<usize>, bytes: Seq<u8>, r: Result<Vec<u8>, i32>) -> bool {
    match room {
        Some(n) => if n >= bytes.len() {
            r matches Ok(v) && v@ == bytes
        } else {
            r matches Err(e) && e == CAN_ERR_PARAM
        },
        None => r matches Err(e) && e == CAN_ERR_PARAM,
    }
}

fn push_le_u32(v: &mut Vec<u8>, x: u32)
    ensures
        final(v)@ == old(v)@ + le_u32(x),
{
    let ghost before = v@;
    v.push((x % 0x100) as u8);
    v.push((x / 0x100 % 0x100) as u8);
    v.push((x / 0x1_0000 % 0x100) as u8);
    v.push((x / 0x100_0000) as u8);
    assert(v@ =~= before + le_u32(x));
}

/// A number for a buffer with this much room, little-endian.
pub fn out_u32(room: Option<usize>, val: u32) -> (r: Result<Vec<u8>, i32>)
    ensures
        fits_or_param(room, le_u32(val), r),
{
    match room {
        Some(n) => {
            if n < 4 {
                return Err(CAN_ERR_PARAM);
            }
            let mut v: Vec<u8> = Vec::new();
            push_le_u32(&mut v, val);
            assert(v@ =~= le_u32(val));
            Ok(v)
        },
        None => Err(CAN_ERR_PARAM),
    }
}

/// A number for a buffer with this much room, little-endian.
pub fn out_u64(room: Option<usize>, val: u64) -> (r: Result<Vec<u8>, i32>)
    ensures
        fits_or_param(room, le_u64(val), r),
{
    match room {
        Some(n) => {
            if n < 8 {
                return Err(CAN_ERR_PARAM);
            }
            let mut v: Vec<u8> = Vec::new();
            push_le_u32(&mut v, (val % 0x1_0000_0000) as u32);
            push_le_u32(&mut v, (val / 0x1_0000_0000) as u32);
            assert(v@ =~= le_u64(val));
            Ok(v)
        },
        None => Err(CAN_ERR_PARAM),
    }
}

/// A text cut to a buffer with this much room, which is not none, and a zero byte.
pub open spec fn c_text(s: Seq<char>, room: int) -> Seq<u8> {
    let bytes = encode_utf8(s);
    bytes.take(if bytes.len() < room - 1 {
        bytes.len() as int
    } else {
        room - 1
    }).push(0)
}

/// Whether an answer holds a text, or there is no room for even the zero byte.
pub open spec fn text_or_param(room: Option<usize>, s: Seq<char>, r: Result<Vec<u8>, i32>) -> bool {
    match room {
        Some(n) => if n > 0 {
            r matches Ok(v) && v@ == c_text(s, n as int)
        } else {
            r matches Err(e) && e == CAN_ERR_PARAM
        },
        None => r matches Err(e) && e == CAN_ERR_PARAM,
    }
}

/// The bytes of a text cut to `room`, and a zero byte.
fn cut_text(s: &str, room: usize) -> (v: Vec<u8>)
    requires
        room > 0,
    ensures
        v@ == c_text(s@, room as int),
{
    let bytes: &[u8] = s.as_bytes();
    let n: usize = if bytes.len() < room - 1 {
        bytes.len()
    } else {
        room - 1
    };
    let mut v: Vec<u8> = Vec::new();
    let mut i: usize = 0;
    while i < n
        invariant
            i <= n <= bytes@.len(),
            v@ == bytes@.take(i as int),
        decreases n - i,
    {
        v.push(bytes[i]);
        i += 1;
    }
    v.push(0);
    v
}

/// A text for a buffer with this much room, cut to it and ended by a zero byte.
pub fn out_cstr(room: Option<usize>, s: &str) -> (r: Result<Vec<u8>, i32>)
    ensures
        text_or_param(room, s@, r),
{
    match room {
        Some(n) => {
            if n == 0 {
                return Err(CAN_ERR_PARAM);
            }
            Ok(cut_text(s, n))
        },
        None => Err(CAN_ERR_PARAM),
    }
}

/// The text of a status.
pub open spec fn error_text(err: i32) -> Seq<char> {
    if err == CAN_OK {
        "OK"@
    } else if err == CAN_ERR_PARAM {
        "Error in parameter"@
    } else if err == CAN_ERR_NOMSG {
        "No messages available"@
    } else if err == CAN_ERR_NOTFOUND {
        "Specified device not found"@
    } else {
        "Unknown error"@
    }
}

/// The text of a status for a buffer with this much room, cut to it and ended by a
/// zero byte. No bytes where there is no room at all; the status is good either way.
pub fn canGetErrorText(err: i32, room: Option<u32>) -> (r: Vec<u8>)
    ensures
        r@ == match room {
            Some(n) => if n > 0 {
                c_text(error_text(err), n as int)
            } else {
                seq![]
            },
            None => seq![],
        },
{
    let text: &str = if err == CAN_OK {
        "OK"
    } else if err == CAN_ERR_PARAM {
        "Error in parameter"
    } else if err == CAN_ERR_NOMSG {
        "No messages available"
    } else if err == CAN_ERR_NOTFOUND {
        "Specified device not found"
    } else {
        "Unknown error"
    };
    match room {
        Some(n) => if n > 0 {
            cut_text(text, n as usize)
        } else {
            Vec::new()
        },
        None => Vec::new(),
    }
}

/// The device-specific functions: flush a queue, set what has no effect here, or ask
/// for the timer scale or the fill of a queue.
pub fn canIoCtl(conn: Option<&mut Conn>, func: u32, room: Option<usize>) -> (r: Result<
    Vec<u8>,
    i32,
>)
    ensures
        conn matches Some(c) ==> final(c)@ == (if func == 10 {
            flushed((*c)@)
        } else {
            (*c)@
        }),
        (func == 8 || func == 10) && conn is None ==> r == Err::<Vec<u8>, i32>(CAN_ERR_INVHANDLE),
        func == 10 && conn is Some ==> (r matches Ok(v) && v@.len() == 0),
        func == 6 || func == 7 || func == 11 || func == 13 ==> (r matches Ok(v) && v@.len() == 0),
        func == 12 ==> fits_or_param(room, le_u32(TIMER_SCALE_US), r),
        conn matches Some(c) ==> (func == 8 ==> fits_or_param(
            room,
            le_u32((*c)@.shared.q.len() as u32),
            r,
        )),
        func == 9 ==> fits_or_param(room, le_u32(0), r),
        !(6 <= func <= 13) ==> r == Err::<Vec<u8>, i32>(CAN_ERR_NOT_IMPLEMENTED),
{
    match func {
        10 => match conn {
            Some(c) => {
                c.clear_rx();
                Ok(Vec::new())
            },
            None => Err(CAN_ERR_INVHANDLE),
        },
        6 | 7 | 11 | 13 => Ok(Vec::new()),
        12 => out_u32(room, TIMER_SCALE_US),
        8 => match conn {
            Some(c) => {
                let level: u32 = c.rx_level() as u32;
                out_u32(room, level)
            },
            None => Err(CAN_ERR_INVHANDLE),
        },
        9 => out_u32(room, 0),
        _ => Err(CAN_ERR_NOT_IMPLEMENTED),
    }
}

// ============================= enumeration ==============================

/// The memoized channel count: `load` answers the first time, and that answer stands
/// from then on.
pub fn channels_memo(cell: &mut Option<u32>, load: impl FnOnce() -> u32) -> (r: u32)
    requires
        *old(cell) is None ==> call_requires(load, ()),
    ensures
        *final(cell) == Some(r),
        *old(cell) matches Some(n) ==> r == n,
        *old(cell) is None ==> call_ensures(load, (), r),
{
    match *cell {
        Some(n) => n,
        None => {
            let n: u32 = load();
            *cell = Some(n);
            n
        },
    }
}

/// The number of channels to report for a configured count: no more than a C `int`
/// holds.
pub open spec fn channel_count(n: u32) -> i32 {
    if n > i32::MAX {
        i32::MAX
    } else {
        n as i32
    }
}

/// The number of channels, read from the configuration once.
pub fn canGetNumberOfChannels(cell: &mut Option<u32>, load: impl FnOnce() -> u32) -> (r: i32)
    requires
        *old(cell) is None ==> call_requires(load, ()),
    ensures
        *final(cell) matches Some(n) && r == channel_count(n),
        *old(cell) is Some ==> *final(cell) == *old(cell),
        *old(cell) is None ==> (*final(cell) matches Some(n) && call_ensures(load, (), n)),
        r >= 0,
{
    let n: u32 = channels_memo(cell, load);
    if n > i32::MAX as u32 {
        i32::MAX
    } else {
        n as i32
    }
}

/// What `canGetChannelData` answers.
pub enum Datum {
    Text(Seq<char>),
    Word(u32),
    Long(u64),
    /// No such item, or none for this channel.
    Unknown,
}

/// The datum of an item of a channel.
pub open spec fn channel_datum(channel: i32, item: i32) -> Datum {
    match item {
        13 => Datum::Text("kvasilloni vcan"@ + decimal_int(channel as int)),
        26 => Datum::Text("kvasilloni virtual CAN"@),
        24 => Datum::Text("kvasilloni"@),
        1 => Datum::Word(CHANNEL_CAP),
        3 | 4 | 5 => Datum::Word(0),
        6 => Datum::Word(channel as u32),
        7 => if channel == -1 {
            Datum::Unknown
        } else {
            Datum::Long((channel as u64 + 1) as u64)
        },
        _ => Datum::Unknown,
    }
}

/// Describes a channel: synthetic but plausible values, for a buffer with this much
/// room.
pub fn canGetChannelData(channel: i32, item: i32, room: Option<usize>) -> (r: Result<
    Vec<u8>,
    i32,
>)
    ensures
        match channel_datum(channel, item) {
            Datum::Text(s) => text_or_param(room, s, r),
            Datum::Word(x) => fits_or_param(room, le_u32(x), r),
            Datum::Long(x) => fits_or_param(room, le_u64(x), r),
            Datum::Unknown => r matches Err(e) && e == CAN_ERR_PARAM,
        },
{
    match item {
        13 => {
            let mut name: String = "kvasilloni vcan".to_owned();
            push_int(&mut name, channel);
            out_cstr(room, name.as_str())
        },
        26 => out_cstr(room, "kvasilloni virtual CAN"),
        24 => out_cstr(room, "kvasilloni"),
        1 => {
            assert(0x1u32 | 0x1_0000u32 | 0x8_0000u32 == 0x9_0001u32) by (bit_vector);
            out_u32(
                room,
                CAN_CHANNEL_CAP_EXTENDED_CAN | CAN_CHANNEL_CAP_VIRTUAL | CAN_CHANNEL_CAP_CAN_FD,
            )
        },
        3 | 4 | 5 => out_u32(room, 0),
        6 => out_u32(room, channel as u32),
        7 => {
            if channel == -1 {
                return Err(CAN_ERR_PARAM);
            }
            assert(channel != -1 ==> channel as u64 != 0xFFFF_FFFF_FFFF_FFFFu64) by (bit_vector);
            out_u64(room, channel as u64 + 1)
        },
        _ => Err(CAN_ERR_PARAM),
    }
}

} // verus!
