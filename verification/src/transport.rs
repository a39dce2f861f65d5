//! One channel's connection to its cannelloni peer, over UDP or TCP.
//!
//! A [`Conn`] decides which bytes a frame is sent as, what a failed send does to
//! the connection, and how a close ends the receive thread. The sockets and the
//! thread themselves belong to the code around the library.

use crate::addr::{ip_of, IpAddr};
use crate::config::Config;
use crate::open::{
    first_stage, let_in, peer_allowed, plan_of, ErrorKind, OpenError, Opening, Stage,
};
use crate::shared::{directed, fresh, popped, CbScope, Notify, Shared, SharedView};
use crate::text::trimmed;
use crate::wire::{
    blank, build_udp, decode_stream, encode, encode_all, encode_frame, header, parse, parse_udp, rtr,
    stream_step, views, DecodeState, Decoded, Frame, FrameView, MAX_FRAME_LEN,
};
use crate::wire_laws::{
    all_in_class, all_on_wire, decode_all, law_parse_in_class, law_stream_follows_format,
    law_stream_in_class, law_stream_roundtrip, law_udp_batch, law_udp_overclaimed, stream_frames,
    stream_inv,
};
use vstd::prelude::*;

verus! {

/// The connection of one open channel.
pub struct Conn {
    tcp: bool,
    seq: u8,
    negotiated: bool,
    running: bool,
    link_down: bool,
    fd_capable: bool,
    local_port: u16,
    joinable: bool,
    shared: Shared,
}

/// What a [`Conn`] holds.
#[verifier::ext_equal]
pub struct ConnView {
    pub tcp: bool,
    /// The sequence number of the next UDP packet.
    pub seq: u8,
    /// Whether frames may be sent.
    pub negotiated: bool,
    /// Whether the receive thread is to go on.
    pub running: bool,
    /// Whether the link to the peer was lost.
    pub link_down: bool,
    /// Whether the channel was opened for CAN FD.
    pub fd_capable: bool,
    pub local_port: u16,
    /// Whether the receive thread is still to be joined.
    pub joinable: bool,
    pub shared: SharedView,
}

impl View for Conn {
    type V = ConnView;

    closed spec fn view(&self) -> ConnView {
        ConnView {
            tcp: self.tcp,
            seq: self.seq,
            negotiated: self.negotiated,
            running: self.running,
            link_down: self.link_down,
            fd_capable: self.fd_capable,
            local_port: self.local_port,
            joinable: self.joinable,
            shared: self.shared@,
        }
    }
}

/// A connection just opened.
pub open spec fn opened(tcp: bool, local_port: u16) -> ConnView {
    ConnView {
        tcp,
        seq: 0,
        negotiated: true,
        running: true,
        link_down: false,
        fd_capable: false,
        local_port,
        joinable: true,
        shared: fresh(),
    }
}

/// Why a frame was not sent.
#[derive(Clone, Copy, PartialEq, Eq, Structural, Debug)]
pub enum WriteError {
    /// The connection is not negotiated, or not any more.
    NotConnected,
    /// UDP: less than the whole packet went out.
    ShortSend,
    /// UDP: the send failed.
    SendFailed,
    /// TCP: the send failed, perhaps in the middle of a frame. The connection is torn
    /// down, and the socket is to be shut down.
    TornDown,
}

impl WriteError {
    /// The kind of this error.
    pub fn kind(&self) -> (r: ErrorKind)
        ensures
            r == (if self is NotConnected {
                ErrorKind::NotConnected
            } else {
                ErrorKind::Outside
            }),
    {
        match self {
            WriteError::NotConnected => ErrorKind::NotConnected,
            WriteError::ShortSend | WriteError::SendFailed | WriteError::TornDown => {
                ErrorKind::Outside
            },
        }
    }
}

/// The bytes that a frame is sent as: a packet of its own over UDP, the bare frame
/// over TCP.
pub open spec fn outgoing(tcp: bool, seq: u8, f: FrameView) -> Seq<u8> {
    if tcp {
        encode(f)
    } else {
        header(seq, 1) + encode(f)
    }
}

/// The connection after a frame was taken in to be sent: a UDP packet takes up a
/// sequence number.
pub open spec fn after_write(c: ConnView) -> ConnView {
    if c.tcp {
        c
    } else {
        ConnView { seq: ((c.seq + 1) % 256) as u8, ..c }
    }
}

/// What became of a send.
#[derive(Clone, Copy, PartialEq, Eq, Structural, Debug)]
pub enum Sent {
    /// So many bytes went out.
    Bytes(usize),
    /// It failed.
    Failed,
}

/// The connection after a send of `len` bytes, and the answer to the writer.
pub open spec fn after_send(c: ConnView, len: nat, sent: Sent) -> (
    ConnView,
    Result<(), WriteError>,
) {
    match sent {
        Sent::Bytes(n) => if c.tcp || n == len {
            (c, Ok(()))
        } else {
            (c, Err(WriteError::ShortSend))
        },
        Sent::Failed => if c.tcp {
            (
                ConnView { negotiated: false, running: false, link_down: true, ..c },
                Err(WriteError::TornDown),
            )
        } else {
            (c, Err(WriteError::SendFailed))
        },
    }
}

/// How the receive thread is brought to its end.
#[derive(Clone, Copy, PartialEq, Eq, Structural, Debug)]
pub enum RxEnd {
    /// Wait for it.
    Join,
    /// Let it run out: this is the receive thread itself.
    Detach,
    /// An earlier close has seen to it.
    Nothing,
}

/// What a close asks for.
#[derive(Clone, Copy, PartialEq, Eq, Structural, Debug)]
pub struct Closing {
    /// Whether the socket is to be shut down; a UDP thread ends by its read timeout.
    pub shutdown: bool,
    pub rx: RxEnd,
}

/// A connection after its receive thread has ended.
pub open spec fn after_rx(c: ConnView) -> ConnView {
    ConnView { link_down: c.link_down || (c.tcp && c.running), ..c }
}

/// A connection after it is closed.
pub open spec fn closed(c: ConnView) -> ConnView {
    ConnView {
        running: false,
        negotiated: false,
        joinable: false,
        shared: SharedView { closed: true, ..c.shared },
        ..c
    }
}

impl Conn {
    /// Starts to open a channel. Fails when the configured host is no IP literal; else
    /// the opening says what to do.
    pub fn connect(cfg: &Config) -> (r: Result<Opening, OpenError>)
        ensures
            match ip_of(trimmed(cfg.host@)) {
                Some(peer) => r matches Ok(o) && o.plan@ == plan_of(cfg@, peer) && o.stage
                    == first_stage(o.plan@),
                None => r matches Err(e) && e == OpenError::BadHost,
            },
    {
        Opening::start(cfg)
    }

    /// The connection of an opening that is ready, given the port that its socket is
    /// bound to, if that is known.
    pub fn open(opening: &Opening, bound: Option<u16>) -> (r: Option<Conn>)
        ensures
            match r {
                Some(c) => opening.stage is Ready && c@ == opened(
                    opening.plan.tcp,
                    match bound {
                        Some(port) => port,
                        None => opening.plan.bind.port,
                    },
                ),
                None => !(opening.stage is Ready),
            },
    {
        match opening.stage {
            Stage::Ready => {
                let local_port: u16 = match bound {
                    Some(port) => port,
                    None => opening.plan.bind.port,
                };
                Some(
                    Conn {
                        tcp: opening.plan.tcp,
                        seq: 0,
                        negotiated: true,
                        running: true,
                        link_down: false,
                        fd_capable: false,
                        local_port,
                        joinable: true,
                        shared: Shared::new(),
                    },
                )
            },
            _ => None,
        }
    }

    /// Records whether the channel was opened for CAN FD.
    pub fn set_fd_capable(&mut self, yes: bool)
        ensures
            final(self)@ == (ConnView { fd_capable: yes, ..old(self)@ }),
    {
        self.fd_capable = yes;
    }

    /// Whether the channel was opened for CAN FD.
    pub fn fd_capable(&self) -> (r: bool)
        ensures
            r == self@.fd_capable,
    {
        self.fd_capable
    }

    /// The port that the socket is bound to.
    pub fn local_port(&self) -> (r: u16)
        ensures
            r == self@.local_port,
    {
        self.local_port
    }

    /// Whether frames may be sent.
    pub fn is_ready(&self) -> (r: bool)
        ensures
            r == self@.negotiated,
    {
        self.negotiated
    }

    /// Whether the receive thread is to go on.
    pub fn is_running(&self) -> (r: bool)
        ensures
            r == self@.running,
    {
        self.running
    }

    /// Whether the link to the peer was lost.
    pub fn is_down(&self) -> (r: bool)
        ensures
            r == self@.link_down,
    {
        self.link_down
    }

    /// The bytes to send a frame as. A UDP packet takes up a sequence number, whether
    /// or not the send succeeds.
    pub fn write(&mut self, f: &Frame) -> (r: Result<Vec<u8>, WriteError>)
        requires
            f@.payload_len() <= MAX_FRAME_LEN,
        ensures
            match r {
                Ok(bytes) => {
                    &&& old(self)@.negotiated
                    &&& bytes@ == outgoing(old(self)@.tcp, old(self)@.seq, f@)
                    &&& final(self)@ == after_write(old(self)@)
                },
                Err(e) => {
                    &&& !old(self)@.negotiated
                    &&& e == WriteError::NotConnected
                    &&& final(self)@ == old(self)@
                },
            },
    {
        if !self.negotiated {
            return Err(WriteError::NotConnected);
        }
        if self.tcp {
            let mut buf: Vec<u8> = Vec::new();
            encode_frame(&mut buf, f);
            assert(buf@ =~= encode(f@));
            Ok(buf)
        } else {
            let pkt: Vec<u8> = build_udp(f, self.seq);
            self.seq = self.seq.wrapping_add(1);
            Ok(pkt)
        }
    }

    /// Takes in what became of a send of `len` bytes. A failed TCP send tears the
    /// connection down, since the stream may have stopped in the middle of a frame.
    pub fn finish_write(&mut self, len: usize, sent: Sent) -> (r: Result<(), WriteError>)
        ensures
            (final(self)@, r) == after_send(old(self)@, len as nat, sent),
    {
        match sent {
            Sent::Bytes(n) => if self.tcp || n == len {
                Ok(())
            } else {
                Err(WriteError::ShortSend)
            },
            Sent::Failed => if self.tcp {
                self.negotiated = false;
                self.running = false;
                self.link_down = true;
                Err(WriteError::TornDown)
            } else {
                Err(WriteError::SendFailed)
            },
        }
    }

    /// Takes the oldest received frame.
    pub fn read(&mut self) -> (r: Option<Frame>)
        ensures
            final(self)@ == (ConnView { shared: popped(old(self)@.shared).0, ..old(self)@ }),
            match r {
                Some(f) => popped(old(self)@.shared).1 == Some(f@),
                None => popped(old(self)@.shared).1 is None,
            },
    {
        self.shared.pop()
    }

    /// Whether received frames were dropped on a full ring.
    pub fn rx_overflowed(&self) -> (r: bool)
        ensures
            r == self@.shared.overflow,
    {
        self.shared.overflowed()
    }

    /// The receive side.
    pub fn rx_shared(&mut self) -> (r: &mut Shared)
        ensures
            r@ == old(self)@.shared,
            final(self)@ == (ConnView { shared: final(r)@, ..old(self)@ }),
    {
        &mut self.shared
    }

    /// The receive side, to look at.
    pub fn rx(&self) -> (r: &Shared)
        ensures
            r@ == self@.shared,
    {
        &self.shared
    }

    /// Drops all received frames.
    pub fn clear_rx(&mut self)
        ensures
            final(self)@ == (ConnView {
                shared: (SharedView { q: seq![], overflow: false, ..old(self)@.shared }),
                ..old(self)@
            }),
    {
        self.shared.clear();
    }

    /// The number of received frames that wait to be read.
    pub fn rx_level(&self) -> (r: usize)
        ensures
            r == self@.shared.q.len(),
    {
        self.shared.level()
    }

    /// Applies one `canAccept` directive.
    pub fn set_accept(&mut self, flag: u32, envelope: u32)
        ensures
            final(self)@ == (ConnView {
                shared: (SharedView {
                    filters: directed(old(self)@.shared.filters, flag, envelope),
                    ..old(self)@.shared
                }),
                ..old(self)@
            }),
    {
        self.shared.set_accept(flag, envelope);
    }

    /// Arms or replaces the notify callback; an address of 0 disarms. Returns whether
    /// the caller has to wait for the running callback.
    pub fn set_notify(&mut self, cb: usize, flags: u32, tag: usize, scope: &CbScope) -> (drain:
        bool)
        ensures
            final(self)@ == (ConnView {
                shared: (SharedView {
                    notify: (Notify { cb, flags, tag }),
                    ..old(self)@.shared
                }),
                ..old(self)@
            }),
            drain == (!scope.inside && old(self)@.shared.active is Some),
    {
        self.shared.set_notify(cb, flags, tag, scope)
    }

    /// Takes in that the receive thread has ended. On a TCP connection that was not
    /// told to stop, the link is lost.
    pub fn rx_ended(&mut self)
        ensures
            final(self)@ == after_rx(old(self)@),
    {
        if self.tcp && self.running {
            self.link_down = true;
        }
    }

    /// Closes the connection. `on_rx_thread` tells whether this runs on the receive
    /// thread, which cannot wait for itself. Blocked readers are then to be woken.
    pub fn close(&mut self, on_rx_thread: bool) -> (r: Closing)
        ensures
            final(self)@ == closed(old(self)@),
            r.shutdown == old(self)@.tcp,
            r.rx == (if !old(self)@.joinable {
                RxEnd::Nothing
            } else if on_rx_thread {
                RxEnd::Detach
            } else {
                RxEnd::Join
            }),
    {
        self.running = false;
        self.negotiated = false;
        self.shared.mark_closed();
        let rx: RxEnd = if !self.joinable {
            RxEnd::Nothing
        } else if on_rx_thread {
            RxEnd::Detach
        } else {
            RxEnd::Join
        };
        self.joinable = false;
        Closing { shutdown: self.tcp, rx }
    }
}

// ============================ the receive loops =========================

/// What a UDP receive call came back with.
#[derive(Clone, Copy, PartialEq, Eq, Structural, Debug)]
pub enum Recv {
    /// A datagram from this address.
    Datagram(IpAddr),
    /// Nothing in time.
    Nothing,
    /// An error.
    Failed,
}

/// What the UDP receive loop does next.
#[derive(Clone, Copy, PartialEq, Eq, Structural, Debug)]
pub enum UdpRx {
    /// Take the datagram in.
    Ingest,
    /// Receive again.
    Again,
    /// End.
    Stop,
}

/// One turn of the UDP receive loop: a datagram from an allowed source is taken in,
/// any other is passed over, and only an error ends the loop.
pub fn udp_rx_loop(recv: Recv, allow: &[IpAddr], peer_check: bool) -> (r: UdpRx)
    ensures
        r == match recv {
            Recv::Datagram(from) => if let_in(from, allow@, peer_check) {
                UdpRx::Ingest
            } else {
                UdpRx::Again
            },
            Recv::Nothing => UdpRx::Again,
            Recv::Failed => UdpRx::Stop,
        },
{
    match recv {
        Recv::Datagram(from) => if peer_allowed(from, allow, peer_check) {
            UdpRx::Ingest
        } else {
            UdpRx::Again
        },
        Recv::Nothing => UdpRx::Again,
        Recv::Failed => UdpRx::Stop,
    }
}

/// The frames of a datagram: those it holds, or none when it is malformed.
pub open spec fn datagram_frames(buf: Seq<u8>) -> Seq<FrameView> {
    match parse(buf) {
        Some(fs) => fs,
        None => seq![],
    }
}

/// The frames to push for a datagram, in order.
pub fn udp_ingest(buf: &[u8]) -> (r: Vec<Frame>)
    ensures
        views(r@) == datagram_frames(buf@),
{
    match parse_udp(buf) {
        Some(fs) => fs,
        None => {
            let none: Vec<Frame> = Vec::new();
            assert(views(none@) =~= seq![]);
            none
        },
    }
}

/// The state of the TCP receive loop: the frame under way and how many bytes it
/// needs next.
pub struct StreamRx {
    f: Frame,
    state: DecodeState,
    need: usize,
}

/// The value of a [`StreamRx`].
#[verifier::ext_equal]
pub struct StreamView {
    pub f: FrameView,
    pub state: DecodeState,
    /// How many bytes to read next; 0 when the stream cannot go on.
    pub need: nat,
}

impl View for StreamRx {
    type V = StreamView;

    closed spec fn view(&self) -> StreamView {
        StreamView { f: self.f@, state: self.state, need: self.need as nat }
    }
}

impl StreamView {
    /// The loop is between two reads of a size that a frame can call for, or over.
    pub open spec fn wf(self) -> bool {
        self.need == 0 || (self.need <= MAX_FRAME_LEN && stream_inv(self.f, self.state)
            && self.state != DecodeState::Init)
    }
}

/// The loop at the start of a stream, or of a frame.
pub open spec fn stream_start() -> StreamView {
    StreamView { f: blank(), state: DecodeState::CanId, need: 4 }
}

/// What came of a chunk.
#[derive(Clone, Copy)]
pub enum Fed {
    /// More bytes are needed.
    More,
    /// A frame to push.
    Frame(Frame),
    /// The stream is malformed. It cannot be picked up again, so the loop ends.
    Stop,
}

/// The loop after a chunk, and the frame that it completed. A loop that is over
/// stays as it is.
pub open spec fn fed(s: StreamView, chunk: Seq<u8>) -> (StreamView, Option<FrameView>) {
    let (g, next, answer) = stream_step(chunk, s.f, s.state);
    if s.need == 0 {
        (s, None)
    } else {
        match answer {
            Decoded::Need(n) => (StreamView { f: g, state: next, need: n as nat }, None),
            Decoded::Complete => (stream_start(), Some(g)),
            Decoded::Error => (StreamView { f: g, state: next, need: 0 }, None),
        }
    }
}

impl StreamRx {
    /// The start of a stream.
    pub fn new() -> (r: StreamRx)
        ensures
            r@ == stream_start(),
            r@.wf(),
    {
        let mut f: Frame = Frame::default();
        let mut state: DecodeState = DecodeState::Init;
        let none: [u8; 0] = [];
        let need: usize = match decode_stream(&none, &mut f, &mut state) {
            Decoded::Need(n) => n,
            _ => 0,
        };
        StreamRx { f, state, need }
    }

    /// How many bytes to read next; 0 when the stream cannot go on.
    pub fn need(&self) -> (r: usize)
        ensures
            r == self@.need,
    {
        self.need
    }

    /// Takes in the bytes asked for.
    pub fn feed(&mut self, chunk: &[u8]) -> (r: Fed)
        ensures
            final(self)@ == fed(old(self)@, chunk@).0,
            old(self)@.wf() ==> final(self)@.wf(),
            match r {
                Fed::Frame(f) => fed(old(self)@, chunk@).1 == Some(f@),
                Fed::More => fed(old(self)@, chunk@).1 is None && final(self)@.need > 0,
                Fed::Stop => fed(old(self)@, chunk@).1 is None && final(self)@.need == 0,
            },
    {
        if self.need == 0 {
            return Fed::Stop;
        }
        proof {
            if self@.wf() {
                law_stream_in_class(chunk@, self@.f, self@.state);
            }
        }
        match decode_stream(chunk, &mut self.f, &mut self.state) {
            Decoded::Need(n) => {
                self.need = n;
                Fed::More
            },
            Decoded::Complete => {
                let f: Frame = self.f;
                *self = StreamRx::new();
                Fed::Frame(f)
            },
            Decoded::Error => {
                self.need = 0;
                Fed::Stop
            },
        }
    }
}

// ================================= laws =================================

/// The frames that the TCP receive loop pushes when it is fed from `buf` what it
/// asks for, until it ends or the bytes run out.
pub open spec fn received(s: StreamView, buf: Seq<u8>) -> Seq<FrameView>
    decreases buf.len(),
{
    if s.need == 0 || s.need > buf.len() {
        seq![]
    } else {
        let (t, out) = fed(s, buf.take(s.need as int));
        let rest = received(t, buf.skip(s.need as int));
        match out {
            Some(f) => seq![f] + rest,
            None => rest,
        }
    }
}

proof fn lemma_received(s: StreamView, buf: Seq<u8>)
    ensures
        received(s, buf) == stream_frames(buf, s.f, s.state, s.need),
    decreases buf.len(),
{
    if s.need > 0 && s.need <= buf.len() {
        let (t, out) = fed(s, buf.take(s.need as int));
        lemma_received(t, buf.skip(s.need as int));
    }
}

/// However a TCP stream is cut up on its way, the receive loop pushes exactly the
/// frames at the front of the stream, in order, up to the first malformed one.
pub proof fn law_tcp_loop_delivers_stream(buf: Seq<u8>)
    ensures
        received(stream_start(), buf) == decode_all(buf),
{
    lemma_received(stream_start(), buf);
    law_stream_follows_format(buf);
}

/// The receive loop never asks for nothing, or for more than a payload, before it
/// is over, and every frame that it pushes is within the limit of its class.
pub proof fn law_tcp_loop_is_bounded(s: StreamView, chunk: Seq<u8>)
    requires
        s.wf(),
    ensures
        fed(s, chunk).0.wf(),
        fed(s, chunk).0.need <= MAX_FRAME_LEN,
        fed(s, chunk).1 matches Some(f) ==> f.in_class() && f.data.len() == 64,
{
    if s.need > 0 {
        law_stream_in_class(chunk, s.f, s.state);
    }
}

/// What the receive side queues for a datagram is all of its frames, in order: any number
/// of frames that a peer packs into one datagram, under any sequence number, and whatever
/// bytes follow them.
pub proof fn law_datagram_delivers_all(
    fs: Seq<FrameView>,
    seq_no: u8,
    count: u16,
    rest: Seq<u8>,
)
    requires
        all_in_class(fs),
        fs.len() == count,
    ensures
        datagram_frames(header(seq_no, count) + encode_all(fs) + rest) == all_on_wire(fs),
        datagram_frames(header(seq_no, count) + encode_all(fs) + rest).len() == fs.len(),
        forall|i: int| 0 <= i < fs.len() ==> {
            let g = #[trigger] datagram_frames(header(seq_no, count) + encode_all(fs) + rest)[i];
            &&& g.can_id == fs[i].can_id
            &&& g.len == fs[i].len
            &&& g.fd == fs[i].fd
            &&& g.fd ==> g.fd_flags == fs[i].fd_flags
            &&& !rtr(g.can_id) ==> g.data.take(g.len as int) == fs[i].data.take(g.len as int)
        },
{
    law_udp_batch(fs, seq_no, count, rest);
    assert forall|i: int| 0 <= i < fs.len() implies {
        let g = #[trigger] datagram_frames(header(seq_no, count) + encode_all(fs) + rest)[i];
        &&& g.can_id == fs[i].can_id
        &&& g.len == fs[i].len
        &&& g.fd == fs[i].fd
        &&& g.fd ==> g.fd_flags == fs[i].fd_flags
        &&& !rtr(g.can_id) ==> g.data.take(g.len as int) == fs[i].data.take(g.len as int)
    } by {
        let g = fs[i].on_wire();
        assert(fs[i].in_class());
        if !rtr(g.can_id) {
            assert(g.data.take(g.len as int) =~= fs[i].data.take(g.len as int));
        }
    }
}

/// A datagram that is too short, of another version or operation, or that claims more
/// frames than it carries queues nothing at all.
pub proof fn law_bad_datagram_delivers_none(
    buf: Seq<u8>,
    fs: Seq<FrameView>,
    seq_no: u8,
    count: u16,
)
    ensures
        buf.len() < 5 || buf[0] != 2 || buf[1] != 0 ==> datagram_frames(buf).len() == 0,
        all_in_class(fs) && fs.len() < count ==> datagram_frames(
            header(seq_no, count) + encode_all(fs),
        ).len() == 0,
{
    if all_in_class(fs) && fs.len() < count {
        law_udp_overclaimed(fs, seq_no, count);
    }
}

/// No more and no fewer frames than a datagram counts in its fourth and fifth byte are
/// queued for it, or none.
pub proof fn law_datagram_delivers_its_count(buf: Seq<u8>)
    ensures
        datagram_frames(buf).len() == 0 || datagram_frames(buf).len() == buf[3] * 256 + buf[4],
        all_in_class(datagram_frames(buf)),
{
    law_parse_in_class(buf);
    if parse(buf) is Some {
        assert(buf.skip(3)[0] == buf[3] && buf.skip(3)[1] == buf[4]);
    }
}

/// A TCP stream of frames is delivered whole and in order, however it is cut up.
pub proof fn law_tcp_loop_delivers_all(fs: Seq<FrameView>)
    requires
        all_in_class(fs),
    ensures
        received(stream_start(), encode_all(fs)) == all_on_wire(fs),
{
    lemma_received(stream_start(), encode_all(fs));
    law_stream_roundtrip(fs);
}

/// A new connection may send and receive, has lost no link, and is classic.
pub proof fn law_opened(tcp: bool, local_port: u16)
    ensures
        ({
            let c = opened(tcp, local_port);
            &&& c.tcp == tcp && c.local_port == local_port && c.seq == 0
            &&& c.negotiated && c.running && c.joinable
            &&& !c.link_down && !c.fd_capable
            &&& c.shared == fresh()
        }),
{
}

/// A close ends sending and receiving for good, lets every blocked reader go, and keeps
/// what was received.
pub proof fn law_close(c: ConnView)
    ensures
        ({
            let d = closed(c);
            &&& !d.negotiated && !d.running && !d.joinable && d.shared.closed
            &&& d.tcp == c.tcp && d.seq == c.seq && d.link_down == c.link_down && d.fd_capable
                == c.fd_capable && d.local_port == c.local_port
            &&& d.shared.q == c.shared.q && d.shared.overflow == c.shared.overflow
                && d.shared.notify == c.shared.notify && d.shared.filters == c.shared.filters
                && d.shared.active == c.shared.active
        }),
{
}

/// A TCP send that went out changes nothing and succeeds; one that failed leaves the
/// connection unable to send or receive, and the link lost.
pub proof fn law_tcp_send(c: ConnView, len: nat, n: usize)
    requires
        c.tcp,
    ensures
        after_send(c, len, Sent::Bytes(n)) == (c, Ok::<(), WriteError>(())),
        ({
            let d = after_send(c, len, Sent::Failed).0;
            &&& !d.negotiated && !d.running && d.link_down
            &&& d.shared == c.shared && d.tcp && d.seq == c.seq && d.joinable == c.joinable
                && d.local_port == c.local_port && d.fd_capable == c.fd_capable
        }),
{
}

/// The end of the receive thread is a lost link on a TCP connection that was not told to
/// stop, and on no other; nothing else changes.
pub proof fn law_rx_end(c: ConnView)
    ensures
        after_rx(c).link_down <==> c.link_down || (c.tcp && c.running),
        after_rx(c).negotiated == c.negotiated && after_rx(c).running == c.running
            && after_rx(c).shared == c.shared && after_rx(c).joinable == c.joinable
            && after_rx(c).tcp == c.tcp && after_rx(c).seq == c.seq,
{
}

/// A frame goes out over TCP as its bytes alone, and over UDP behind a header that counts
/// one frame and carries the sequence number, which is then used up.
pub proof fn law_outgoing(c: ConnView, f: FrameView)
    ensures
        outgoing(true, c.seq, f) == encode(f),
        outgoing(false, c.seq, f).len() == 5 + encode(f).len(),
        outgoing(false, c.seq, f).take(5) == seq![2u8, 0, c.seq, 0, 1],
        outgoing(false, c.seq, f).skip(5) == encode(f),
        after_write(c) == (ConnView { seq: after_write(c).seq, ..c }),
        c.tcp ==> after_write(c).seq == c.seq,
        !c.tcp ==> after_write(c).seq == (c.seq + 1) % 256,
{
    assert(outgoing(false, c.seq, f).take(5) =~= seq![2u8, 0, c.seq, 0, 1]);
    assert(outgoing(false, c.seq, f).skip(5) =~= encode(f));
}

/// What can happen to a connection, apart from its receive side.
pub enum ConnStep {
    Write,
    Sent(nat, Sent),
    Receive(SharedView),
    SetFd(bool),
    RxEnded,
    Close,
}

/// The connection after a step.
pub open spec fn conn_after(c: ConnView, step: ConnStep) -> ConnView {
    match step {
        ConnStep::Write => if c.negotiated {
            after_write(c)
        } else {
            c
        },
        ConnStep::Sent(len, sent) => after_send(c, len, sent).0,
        ConnStep::Receive(shared) => ConnView { shared, ..c },
        ConnStep::SetFd(yes) => ConnView { fd_capable: yes, ..c },
        ConnStep::RxEnded => after_rx(c),
        ConnStep::Close => closed(c),
    }
}

/// The connection after a sequence of steps.
pub open spec fn conn_run(c: ConnView, steps: Seq<ConnStep>) -> ConnView
    decreases steps.len(),
{
    if steps.len() == 0 {
        c
    } else {
        conn_after(conn_run(c, steps.drop_last()), steps.last())
    }
}

/// A connection that is not ready never becomes ready again, and one that was told
/// to stop never starts again: a torn-down stream is never written to.
pub proof fn law_teardown_is_final(c: ConnView, steps: Seq<ConnStep>)
    ensures
        !c.negotiated ==> !conn_run(c, steps).negotiated,
        !c.running ==> !conn_run(c, steps).running,
        c.link_down ==> conn_run(c, steps).link_down,
        !c.joinable ==> !conn_run(c, steps).joinable,
        conn_run(c, steps).tcp == c.tcp,
        conn_run(c, steps).local_port == c.local_port,
    decreases steps.len(),
{
    if steps.len() > 0 {
        law_teardown_is_final(c, steps.drop_last());
    }
}

/// A failed TCP send refuses every later write, and is seen as a lost link.
pub proof fn law_failed_tcp_send(c: ConnView, len: nat, steps: Seq<ConnStep>)
    requires
        c.tcp,
    ensures
        after_send(c, len, Sent::Failed).1 == Err::<(), WriteError>(WriteError::TornDown),
        !conn_run(after_send(c, len, Sent::Failed).0, steps).negotiated,
        conn_run(after_send(c, len, Sent::Failed).0, steps).link_down,
{
    law_teardown_is_final(after_send(c, len, Sent::Failed).0, steps);
}

/// A failed or short UDP send leaves the connection as it is.
pub proof fn law_failed_udp_send(c: ConnView, len: nat, sent: Sent)
    requires
        !c.tcp,
    ensures
        after_send(c, len, sent).0 == c,
        after_send(c, len, sent).1 is Ok <==> (sent matches Sent::Bytes(n) && n == len),
{
}

/// How many frames a sequence of steps takes in to be sent.
pub open spec fn writes(steps: Seq<ConnStep>) -> nat
    decreases steps.len(),
{
    if steps.len() == 0 {
        0
    } else {
        writes(steps.drop_last()) + (if steps.last() is Write {
            1nat
        } else {
            0
        })
    }
}

/// The UDP packets of an open connection carry consecutive sequence numbers, which wrap at
/// 256, whatever becomes of their sends and whatever is received between them.
pub proof fn law_udp_sequence(c: ConnView, steps: Seq<ConnStep>)
    requires
        !c.tcp,
        c.negotiated,
        forall|i: int| 0 <= i < steps.len() ==> !(#[trigger] steps[i] is Close),
    ensures
        conn_run(c, steps).seq == (c.seq + writes(steps)) % 256,
        conn_run(c, steps).negotiated,
        !conn_run(c, steps).tcp,
    decreases steps.len(),
{
    if steps.len() > 0 {
        let before = steps.drop_last();
        assert forall|i: int| 0 <= i < before.len() implies !(#[trigger] before[i] is Close) by {
            assert(before[i] == steps[i]);
        }
        law_udp_sequence(c, before);
        assert(!(steps[steps.len() - 1] is Close));
    }
}

/// One close is enough: it leaves no receive thread to wait for and lets no reader park,
/// and a second one changes nothing.
pub proof fn law_close_once(c: ConnView)
    ensures
        !closed(c).joinable,
        closed(closed(c)) == closed(c),
        closed(c).shared.closed,
{
}

} // verus!
