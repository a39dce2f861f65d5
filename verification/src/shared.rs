//! What the receive thread (producer) and the API (consumer) share: the bounded
//! ring of received frames, the acceptance filters, the notify callback, and
//! when a blocked reader parks or returns.
//!
//! Every operation is one step on a [`Shared`] that its caller holds alone, so
//! the code around the library keeps it under one lock. A reader that has to
//! wait is told how long, and asks again when it is woken; a producer that has a
//! callback to make is told which, and reports back when it has returned.

use crate::wire::{
    bare_id, canid_to_kvaser, views, Frame, FrameView, CAN_EFF_FLAG, CAN_EFF_MASK, CAN_SFF_MASK,
};
use std::collections::VecDeque;
use vstd::prelude::*;

verus! {

/// Most frames the ring holds.
pub const RING_CAP: usize = 8192;

/// `canSetNotify` flag: notify on receive.
pub const NOTIFY_RX: u32 = 0x0001;

/// Event code passed to the notify callback for a received frame.
pub const EVENT_RX: i32 = 32000;

// =============================== filters ================================

/// Acceptance filter state. A frame passes when `id & mask` equals
/// `code & mask` for its id class; a zero mask accepts all, which is the default.
#[derive(Clone, Copy, PartialEq, Eq, Structural, Debug)]
pub struct Accept {
    pub code_std: u32,
    pub mask_std: u32,
    pub code_ext: u32,
    pub mask_ext: u32,
}

impl Accept {
    /// Whether a frame with this identifier passes.
    pub open spec fn passes(self, can_id: u32) -> bool {
        if can_id & CAN_EFF_FLAG != 0 {
            bare_id(can_id) & self.mask_ext == self.code_ext & self.mask_ext
        } else {
            bare_id(can_id) & self.mask_std == self.code_std & self.mask_std
        }
    }

    /// Whether a frame passes.
    pub fn accepts(&self, f: &Frame) -> (r: bool)
        ensures
            r == self.passes(f.can_id),
    {
        let ext: bool = f.can_id & CAN_EFF_FLAG != 0;
        let (id, code, mask): (u32, u32, u32) = if ext {
            (f.can_id & CAN_EFF_MASK, self.code_ext, self.mask_ext)
        } else {
            (f.can_id & CAN_SFF_MASK, self.code_std, self.mask_std)
        };
        (id & mask) == (code & mask)
    }
}

/// The filters that pass every frame.
pub open spec fn open_filters() -> Accept {
    Accept { code_std: 0, mask_std: 0, code_ext: 0, mask_ext: 0 }
}

/// The filters after one `canAccept` directive; an unknown directive changes
/// nothing.
pub open spec fn directed(a: Accept, flag: u32, envelope: u32) -> Accept {
    match flag {
        3 => Accept { code_std: envelope, ..a },
        4 => Accept { mask_std: envelope, ..a },
        5 => Accept { code_ext: envelope, ..a },
        6 => Accept { mask_ext: envelope, ..a },
        _ => a,
    }
}

// ============================= notifications ============================

/// A registered notify callback: its address (0 for none), the events it is
/// armed for, and the tag handed back to it.
#[derive(Clone, Copy, PartialEq, Eq, Structural, Debug)]
pub struct Notify {
    pub cb: usize,
    pub flags: u32,
    pub tag: usize,
}

impl Notify {
    /// Whether a received frame calls it.
    pub open spec fn armed(self) -> bool {
        self.cb != 0 && self.flags & NOTIFY_RX != 0
    }
}

/// No callback.
pub open spec fn unarmed() -> Notify {
    Notify { cb: 0, flags: 0, tag: 0 }
}

/// What a notify callback is told of a received frame.
#[derive(Clone, Copy, PartialEq, Eq, Structural, Debug)]
pub struct NotifyData {
    pub tag: usize,
    pub event_type: i32,
    pub id: i32,
    pub time: u64,
}

/// The receive event of a queued frame.
#[derive(Clone, Copy, PartialEq, Eq, Structural, Debug)]
pub struct RxEvent {
    pub id: i32,
    pub time: u64,
}

/// Whether a thread is inside a notify callback. One per thread.
#[derive(Clone, Copy, PartialEq, Eq, Structural, Debug)]
pub struct CbScope {
    pub inside: bool,
}

impl CbScope {
    /// The mark of a thread outside any callback.
    pub fn new() -> (r: CbScope)
        ensures
            !r.inside,
    {
        CbScope { inside: false }
    }

    /// Marks the start of a callback on this thread.
    pub fn enter(&mut self)
        ensures
            final(self).inside,
    {
        self.inside = true;
    }

    /// Marks the end of the callback on this thread.
    pub fn leave(&mut self)
        ensures
            !final(self).inside,
    {
        self.inside = false;
    }
}

/// Whether the thread that owns `scope` is inside a notify callback, that is, on
/// the receive thread. A blocking read from there would park the only producer.
pub fn in_notify_callback(scope: &CbScope) -> (r: bool)
    ensures
        r == scope.inside,
{
    scope.inside
}

// ============================== the state ===============================

/// The receive side of one connection.
pub struct Shared {
    q: VecDeque<Frame>,
    closed: bool,
    overflow: bool,
    filters: Accept,
    notify: Notify,
    active: Option<Notify>,
}

/// What a [`Shared`] holds.
#[verifier::ext_equal]
pub struct SharedView {
    /// The queued frames, oldest first.
    pub q: Seq<FrameView>,
    /// Whether the connection was closed, so that no reader parks any more.
    pub closed: bool,
    /// Whether a frame was dropped on a full ring since the last flush.
    pub overflow: bool,
    pub filters: Accept,
    /// The callback that the next event goes to.
    pub notify: Notify,
    /// The callback that is running now.
    pub active: Option<Notify>,
}

impl SharedView {
    /// The ring is within its bound.
    pub open spec fn wf(self) -> bool {
        self.q.len() <= RING_CAP
    }
}

impl View for Shared {
    type V = SharedView;

    closed spec fn view(&self) -> SharedView {
        SharedView {
            q: views(self.q@),
            closed: self.closed,
            overflow: self.overflow,
            filters: self.filters,
            notify: self.notify,
            active: self.active,
        }
    }
}

/// A new connection: nothing queued, nothing filtered, no callback.
pub open spec fn fresh() -> SharedView {
    SharedView {
        q: seq![],
        closed: false,
        overflow: false,
        filters: open_filters(),
        notify: unarmed(),
        active: None,
    }
}

/// What became of a pushed frame.
#[derive(Clone, Copy, PartialEq, Eq, Structural, Debug)]
pub enum Pushed {
    /// The filters dropped it.
    Filtered,
    /// It was dropped on a full ring.
    Overrun,
    /// It is queued: a blocked reader is to be woken, and the event told to the
    /// notify callback.
    Queued(RxEvent),
}

/// A frame with its receive timestamp.
pub open spec fn stamped(f: FrameView, now_ms: u64) -> FrameView {
    FrameView { rx_time_ms: now_ms, ..f }
}

/// The receive event of a frame.
pub open spec fn event_of(f: FrameView, now_ms: u64) -> RxEvent {
    RxEvent { id: bare_id(f.can_id) as i32, time: now_ms }
}

/// Pushing a frame: filtered out, dropped on a full ring with the overrun latched,
/// or stamped and queued behind the others.
pub open spec fn pushed(s: SharedView, f: FrameView, now_ms: u64) -> (SharedView, Pushed) {
    if !s.filters.passes(f.can_id) {
        (s, Pushed::Filtered)
    } else if s.q.len() >= RING_CAP {
        (SharedView { overflow: true, ..s }, Pushed::Overrun)
    } else {
        (
            SharedView { q: s.q.push(stamped(f, now_ms)), ..s },
            Pushed::Queued(event_of(f, now_ms)),
        )
    }
}

/// Taking the oldest frame.
pub open spec fn popped(s: SharedView) -> (SharedView, Option<FrameView>) {
    if s.q.len() == 0 {
        (s, None)
    } else {
        (SharedView { q: s.q.skip(1), ..s }, Some(s.q[0]))
    }
}

/// Whether a reader that has waited `waited` of `timeout` still has to park.
pub open spec fn parks(s: SharedView, timeout: u128, waited: u128) -> bool {
    s.q.len() == 0 && !s.closed && waited < timeout
}

/// What a blocking read does next.
#[derive(Clone, Copy)]
pub enum PopWait {
    /// Return this.
    Done(Option<Frame>),
    /// Park for at most this many nanoseconds, then ask again.
    Park(u128),
}

/// What a wait for a frame does next.
#[derive(Clone, Copy, PartialEq, Eq, Structural, Debug)]
pub enum PeekWait {
    /// Return whether a frame is available.
    Done(bool),
    /// Park for at most this many nanoseconds, then ask again.
    Park(u128),
}

/// What the producer of an event does next.
#[derive(Clone, Copy, PartialEq, Eq, Structural, Debug)]
pub enum Start {
    /// Another callback of this connection is running: wait for its end, ask again.
    Wait,
    /// Nobody is armed for the event.
    Skip,
    /// Call the callback at this address with this data, then report its end.
    Call(usize, NotifyData),
}

/// Starting on an event: the callback registered at that moment is the one called.
pub open spec fn begun(s: SharedView, ev: RxEvent) -> (SharedView, Start) {
    if s.active is Some {
        (s, Start::Wait)
    } else if s.notify.armed() {
        (
            SharedView { active: Some(s.notify), ..s },
            Start::Call(
                s.notify.cb,
                NotifyData {
                    tag: s.notify.tag,
                    event_type: EVENT_RX,
                    id: ev.id,
                    time: ev.time,
                },
            ),
        )
    } else {
        (s, Start::Skip)
    }
}

impl Shared {
    /// The receive side of a new connection.
    pub fn new() -> (r: Shared)
        ensures
            r@ == fresh(),
            r@.wf(),
    {
        let r = Shared {
            q: VecDeque::new(),
            closed: false,
            overflow: false,
            filters: Accept { code_std: 0, mask_std: 0, code_ext: 0, mask_ext: 0 },
            notify: Notify { cb: 0, flags: 0, tag: 0 },
            active: None,
        };
        assert(r@ =~= fresh());
        r
    }

    /// Producer side: applies acceptance filtering, stamps the frame with the
    /// receive time and queues it, or drops it when the ring is full.
    pub fn push(&mut self, f: Frame, now_ms: u64) -> (r: Pushed)
        ensures
            (final(self)@, r) == pushed(old(self)@, f@, now_ms),
            old(self)@.wf() ==> final(self)@.wf(),
    {
        if !self.filters.accepts(&f) {
            return Pushed::Filtered;
        }
        let id: i32 = canid_to_kvaser(f.can_id, f.fd).0;
        if self.q.len() >= RING_CAP {
            self.overflow = true;
            return Pushed::Overrun;
        }
        let mut g: Frame = f;
        g.rx_time_ms = now_ms;
        self.q.push_back(g);
        assert(self@.q =~= old(self)@.q.push(stamped(f@, now_ms)));
        Pushed::Queued(RxEvent { id, time: now_ms })
    }

    /// Takes the oldest frame, without waiting for one.
    pub fn pop(&mut self) -> (r: Option<Frame>)
        ensures
            final(self)@ == popped(old(self)@).0,
            match r {
                Some(f) => popped(old(self)@).1 == Some(f@),
                None => popped(old(self)@).1 is None,
            },
            old(self)@.wf() ==> final(self)@.wf(),
    {
        let r: Option<Frame> = self.q.pop_front();
        assert(self@.q =~= popped(old(self)@).0.q);
        r
    }

    /// One turn of a blocking read that may take `timeout` nanoseconds and has
    /// taken `waited`: the oldest frame as soon as there is one, nothing once the
    /// time is up or the connection is closed, else how long to park.
    pub fn pop_wait(&mut self, timeout: u128, waited: u128) -> (r: PopWait)
        ensures
            parks(old(self)@, timeout, waited) ==> *final(self) == *old(self) && r
                == PopWait::Park((timeout - waited) as u128),
            !parks(old(self)@, timeout, waited) ==> final(self)@ == popped(old(self)@).0 && (
            match r {
                PopWait::Done(Some(f)) => popped(old(self)@).1 == Some(f@),
                PopWait::Done(None) => popped(old(self)@).1 is None,
                PopWait::Park(_) => false,
            }),
            old(self)@.wf() ==> final(self)@.wf(),
    {
        if self.q.len() == 0 && !self.closed && waited < timeout {
            PopWait::Park(timeout - waited)
        } else {
            PopWait::Done(self.pop())
        }
    }

    /// One turn of a wait for a frame, as [`Shared::pop_wait`], that leaves the
    /// frame queued.
    pub fn peek_wait(&self, timeout: u128, waited: u128) -> (r: PeekWait)
        ensures
            r == (if parks(self@, timeout, waited) {
                PeekWait::Park((timeout - waited) as u128)
            } else {
                PeekWait::Done(self@.q.len() > 0)
            }),
    {
        if self.q.len() == 0 && !self.closed && waited < timeout {
            PeekWait::Park(timeout - waited)
        } else {
            PeekWait::Done(self.q.len() > 0)
        }
    }

    /// Marks the connection closed; every blocked reader is then to be woken.
    pub fn mark_closed(&mut self)
        ensures
            final(self)@ == (SharedView { closed: true, ..old(self)@ }),
            old(self)@.wf() ==> final(self)@.wf(),
    {
        self.closed = true;
    }

    /// Drops all queued frames and clears the overrun latch.
    pub fn clear(&mut self)
        ensures
            final(self)@ == (SharedView { q: seq![], overflow: false, ..old(self)@ }),
            final(self)@.wf(),
    {
        self.q.clear();
        self.overflow = false;
        assert(self@.q =~= seq![]);
    }

    /// The number of queued frames.
    pub fn level(&self) -> (r: usize)
        ensures
            r == self@.q.len(),
    {
        self.q.len()
    }

    /// Whether a frame was dropped on a full ring since the last flush.
    pub fn overflowed(&self) -> (r: bool)
        ensures
            r == self@.overflow,
    {
        self.overflow
    }

    /// Applies one `canAccept` directive: set the code or the mask of standard or
    /// extended identifiers.
    pub fn set_accept(&mut self, flag: u32, envelope: u32)
        ensures
            final(self)@ == (SharedView {
                filters: directed(old(self)@.filters, flag, envelope),
                ..old(self)@
            }),
            old(self)@.wf() ==> final(self)@.wf(),
    {
        match flag {
            3 => {
                self.filters.code_std = envelope;
            },
            4 => {
                self.filters.mask_std = envelope;
            },
            5 => {
                self.filters.code_ext = envelope;
            },
            6 => {
                self.filters.mask_ext = envelope;
            },
            _ => {},
        }
    }

    /// Arms or replaces the notify callback; an address of 0 disarms.
    ///
    /// Returns whether the caller has to wait until the callback that is running
    /// now has returned: not when none is running, and not from inside a callback,
    /// which would wait for itself.
    pub fn set_notify(&mut self, cb: usize, flags: u32, tag: usize, scope: &CbScope) -> (drain:
        bool)
        ensures
            final(self)@ == (SharedView {
                notify: (Notify { cb, flags, tag }),
                ..old(self)@
            }),
            drain == (!scope.inside && old(self)@.active is Some),
            old(self)@.wf() ==> final(self)@.wf(),
    {
        self.notify = Notify { cb, flags, tag };
        !in_notify_callback(scope) && self.active.is_some()
    }

    /// Whether no callback is running.
    pub fn drained(&self) -> (r: bool)
        ensures
            r == (self@.active is None),
    {
        self.active.is_none()
    }

    /// The callback that the next event goes to.
    pub fn notify(&self) -> (r: Notify)
        ensures
            r == self@.notify,
    {
        self.notify
    }

    /// Starts on the event of a queued frame: which callback to make, if any.
    pub fn begin_notify(&mut self, ev: RxEvent) -> (r: Start)
        ensures
            (final(self)@, r) == begun(old(self)@, ev),
            old(self)@.wf() ==> final(self)@.wf(),
    {
        if self.active.is_some() {
            return Start::Wait;
        }
        let n: Notify = self.notify;
        if n.cb != 0 && n.flags & NOTIFY_RX != 0 {
            self.active = Some(n);
            Start::Call(
                n.cb,
                NotifyData { tag: n.tag, event_type: EVENT_RX, id: ev.id, time: ev.time },
            )
        } else {
            Start::Skip
        }
    }

    /// Reports that the running callback has returned.
    pub fn end_notify(&mut self)
        ensures
            final(self)@ == (SharedView { active: None, ..old(self)@ }),
            old(self)@.wf() ==> final(self)@.wf(),
    {
        self.active = None;
    }
}

} // verus!
