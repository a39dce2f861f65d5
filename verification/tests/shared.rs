//! The receive side: ring, filters, blocking reads and notifications.

use kvasilloni::shared::{
    in_notify_callback, Accept, CbScope, NotifyData, PeekWait, PopWait, Pushed, RxEvent, Shared,
    Start, EVENT_RX, NOTIFY_RX, RING_CAP,
};
use kvasilloni::wire::{Frame, CAN_EFF_FLAG, CAN_EFF_MASK, CAN_SFF_MASK};

const MS: u128 = 1_000_000;

fn frame(can_id: u32) -> Frame {
    Frame { can_id, len: 1, fd: false, fd_flags: 0, data: [0u8; 64], rx_time_ms: 0 }
}

fn outside() -> CbScope {
    CbScope::new()
}

/// Pushes a frame and makes the callback that it calls for; returns what it was told.
fn push_and_notify(s: &mut Shared, f: Frame) -> Option<(usize, NotifyData)> {
    match s.push(f, 5) {
        Pushed::Queued(ev) => match s.begin_notify(ev) {
            Start::Call(cb, d) => {
                s.end_notify();
                Some((cb, d))
            }
            Start::Skip => None,
            Start::Wait => panic!("another callback is running"),
        },
        _ => None,
    }
}

#[test]
fn push_pop_and_clear() {
    let mut s = Shared::new();
    s.push(frame(0x100), 0);
    s.push(frame(0x200), 0);
    assert_eq!(s.level(), 2);
    assert_eq!(s.pop().map(|f| f.can_id), Some(0x100));
    s.clear();
    assert_eq!(s.level(), 0);
    assert!(s.pop().is_none());
}

#[test]
fn overflow_latches_on_full_ring_and_clears_on_flush() {
    let mut s = Shared::new();
    assert!(!s.overflowed());
    for i in 0..(RING_CAP + 10) {
        s.push(frame(0x100 + i as u32), 0);
    }
    assert!(s.overflowed(), "full ring did not latch overrun");
    assert_eq!(s.level(), RING_CAP, "ring grew past its cap");
    s.clear();
    assert!(!s.overflowed(), "flush did not clear the overrun latch");
}

#[test]
fn a_full_ring_keeps_the_oldest_frames() {
    let mut s = Shared::new();
    for _ in 0..RING_CAP {
        assert!(matches!(s.push(frame(1), 0), Pushed::Queued(_)));
    }
    assert!(!s.overflowed());
    assert_eq!(s.push(frame(2), 0), Pushed::Overrun);
    assert_eq!(s.pop().unwrap().can_id, 1);
    assert!(s.overflowed(), "reading does not clear the latch");
    assert!(matches!(s.push(frame(2), 0), Pushed::Queued(_)));
}

#[test]
fn push_stamps_receive_timestamp() {
    let mut s = Shared::new();
    let (t0, t1) = (17u64, 19u64);
    s.push(frame(0x7FF), 18);
    let f = s.pop().expect("frame");
    assert!(t0 <= f.rx_time_ms && f.rx_time_ms <= t1);
    assert_eq!(f.rx_time_ms, 18);
}

#[test]
fn accept_filter_drops_nonmatching() {
    let mut s = Shared::new();
    s.set_accept(3, 0x123);
    s.set_accept(4, CAN_SFF_MASK);
    s.push(frame(0x123), 0);
    s.push(frame(0x124), 0);
    assert_eq!(s.level(), 1);
    assert_eq!(s.pop().map(|f| f.can_id), Some(0x123));
}

#[test]
fn ext_filter_independent_of_std() {
    let mut s = Shared::new();
    s.set_accept(5, 0x18EE_FF00);
    s.set_accept(6, CAN_EFF_MASK);
    s.push(frame(0x123), 0);
    s.push(frame(0x18EE_FF00 | CAN_EFF_FLAG), 0);
    s.push(frame(0x18EE_FF01 | CAN_EFF_FLAG), 0);
    assert_eq!(s.level(), 2);
}

#[test]
fn zero_masks_accept_everything() {
    let a = Accept { code_std: 0x7FF, mask_std: 0, code_ext: 0x1234, mask_ext: 0 };
    assert!(a.accepts(&frame(0)) && a.accepts(&frame(0x123 | CAN_EFF_FLAG)));
    let b = Accept { code_std: 0x7F0, mask_std: 0x7F0, code_ext: 0, mask_ext: 0 };
    assert!(b.accepts(&frame(0x7F5)) && !b.accepts(&frame(0x6F5)));
}

#[test]
fn unknown_filter_directives_are_ignored() {
    let mut s = Shared::new();
    s.set_accept(0, 0xFFFF_FFFF);
    s.set_accept(7, 0xFFFF_FFFF);
    assert!(matches!(s.push(frame(0x1), 0), Pushed::Queued(_)));
}

#[test]
fn pop_wait_times_out_when_empty() {
    let mut s = Shared::new();
    assert!(matches!(s.pop_wait(20 * MS, 0), PopWait::Park(20_000_000)));
    assert!(matches!(s.pop_wait(20 * MS, 15 * MS), PopWait::Park(5_000_000)));
    assert!(matches!(s.pop_wait(20 * MS, 20 * MS), PopWait::Done(None)));
    assert!(matches!(s.pop_wait(20 * MS, 21 * MS), PopWait::Done(None)));
}

#[test]
fn pop_wait_returns_pushed_frame() {
    let mut s = Shared::new();
    assert!(matches!(s.pop_wait(2000 * MS, 0), PopWait::Park(_)));
    s.push(frame(0x321), 0);
    match s.pop_wait(2000 * MS, 20 * MS) {
        PopWait::Done(got) => assert_eq!(got.map(|f| f.can_id), Some(0x321)),
        PopWait::Park(_) => panic!("parked with a frame queued"),
    }
    assert_eq!(s.level(), 0);
}

#[test]
fn peek_wait_leaves_frame_queued() {
    let mut s = Shared::new();
    s.push(frame(0x55), 0);
    assert_eq!(s.peek_wait(10 * MS, 0), PeekWait::Done(true));
    assert_eq!(s.level(), 1);
}

#[test]
fn peek_wait_times_out_when_empty() {
    let s = Shared::new();
    assert_eq!(s.peek_wait(10 * MS, 0), PeekWait::Park(10 * MS));
    assert_eq!(s.peek_wait(10 * MS, 10 * MS), PeekWait::Done(false));
}

#[test]
fn mark_closed_wakes_blocked_pop_wait() {
    let mut s = Shared::new();
    assert!(matches!(s.pop_wait(30_000 * MS, 0), PopWait::Park(_)));
    s.mark_closed();
    assert!(matches!(s.pop_wait(30_000 * MS, 20 * MS), PopWait::Done(None)));
}

#[test]
fn mark_closed_wakes_blocked_peek_wait() {
    let mut s = Shared::new();
    assert!(matches!(s.peek_wait(30_000 * MS, 0), PeekWait::Park(_)));
    s.mark_closed();
    assert_eq!(s.peek_wait(30_000 * MS, 20 * MS), PeekWait::Done(false));
}

#[test]
fn a_closed_connection_still_hands_out_its_frames() {
    let mut s = Shared::new();
    s.push(frame(0x9), 0);
    s.mark_closed();
    assert!(matches!(s.pop_wait(30_000 * MS, 0), PopWait::Done(Some(_))));
    assert!(matches!(s.pop_wait(30_000 * MS, 0), PopWait::Done(None)));
}

#[test]
fn notify_fires_for_each_rx_when_armed() {
    let mut s = Shared::new();
    assert!(!s.set_notify(0x1000, NOTIFY_RX, 7, &outside()));
    let mut fires = Vec::new();
    fires.extend(push_and_notify(&mut s, frame(0x111)));
    fires.extend(push_and_notify(&mut s, frame(0x222)));
    assert_eq!(fires.len(), 2);
    assert_eq!(fires[1].0, 0x1000);
    assert_eq!(fires[1].1, NotifyData { tag: 7, event_type: EVENT_RX, id: 0x222, time: 5 });
    s.set_notify(0, 0, 0, &outside());
    assert!(push_and_notify(&mut s, frame(0x333)).is_none());
    assert_eq!(EVENT_RX, 32000);
}

#[test]
fn notify_silent_when_flag_not_set() {
    let mut s = Shared::new();
    s.set_notify(0x1000, 0, 0, &outside());
    assert!(push_and_notify(&mut s, frame(0x111)).is_none());
    assert_eq!(s.level(), 1);
}

#[test]
fn notify_silent_for_dropped_frames() {
    let mut s = Shared::new();
    s.set_notify(0x1000, NOTIFY_RX, 0, &outside());
    s.set_accept(4, CAN_SFF_MASK);
    assert_eq!(s.push(frame(0x111), 0), Pushed::Filtered);
    assert!(push_and_notify(&mut s, frame(0x111)).is_none());
    assert!(push_and_notify(&mut s, frame(0)).is_some());
}

#[test]
fn set_notify_reentrant_does_not_deadlock() {
    let mut s = Shared::new();
    s.set_notify(0x1000, NOTIFY_RX, 0, &outside());
    let ev = match s.push(frame(0x123), 0) {
        Pushed::Queued(ev) => ev,
        _ => panic!("not queued"),
    };
    assert!(matches!(s.begin_notify(ev), Start::Call(0x1000, _)));
    let mut here = CbScope::new();
    here.enter();
    assert!(in_notify_callback(&here));
    assert!(!s.set_notify(0, 0, 0, &here), "a callback must not wait for itself");
    here.leave();
    assert!(!in_notify_callback(&here));
    s.end_notify();
    assert_eq!(s.notify().cb, 0, "the callback's self-disarm did not take effect");
    assert!(push_and_notify(&mut s, frame(0x124)).is_none());
}

#[test]
fn set_notify_disarm_drains_inflight_callback() {
    let mut s = Shared::new();
    s.set_notify(0x1000, NOTIFY_RX, 0, &outside());
    let ev = RxEvent { id: 0x123, time: 0 };
    assert!(matches!(s.begin_notify(ev), Start::Call(_, _)));
    assert!(s.set_notify(0, 0, 0, &outside()), "the disarm has to wait");
    assert!(!s.drained());
    assert_eq!(s.begin_notify(ev), Start::Wait);
    s.end_notify();
    assert!(s.drained());
    assert_eq!(s.begin_notify(ev), Start::Skip);
    assert!(!s.set_notify(0, 0, 0, &outside()));
}

#[test]
fn a_replaced_callback_is_waited_out() {
    let mut s = Shared::new();
    s.set_notify(0x1000, NOTIFY_RX, 0, &outside());
    let ev = RxEvent { id: 1, time: 2 };
    assert!(matches!(s.begin_notify(ev), Start::Call(0x1000, _)));
    assert!(s.set_notify(0x2000, NOTIFY_RX, 9, &outside()));
    s.end_notify();
    match s.begin_notify(ev) {
        Start::Call(cb, d) => {
            assert_eq!(cb, 0x2000);
            assert_eq!(d, NotifyData { tag: 9, event_type: 32000, id: 1, time: 2 });
        }
        _ => panic!("the new callback was not called"),
    }
}

#[test]
fn frames_come_out_in_order_with_their_times() {
    let mut s = Shared::new();
    for i in 0..100u32 {
        s.push(frame(i), 1000 + i as u64);
    }
    for i in 0..100u32 {
        let f = s.pop().unwrap();
        assert_eq!((f.can_id, f.rx_time_ms), (i, 1000 + i as u64));
    }
    assert!(s.pop().is_none());
}

#[test]
fn interleaved_reads_keep_the_order() {
    let mut s = Shared::new();
    let mut got = Vec::new();
    let mut next = 0u32;
    for burst in [3usize, 0, 5, 1, 2] {
        for _ in 0..burst {
            s.push(frame(next), 0);
            next += 1;
        }
        for _ in 0..2 {
            got.extend(s.pop().map(|f| f.can_id));
        }
    }
    while let Some(f) = s.pop() {
        got.push(f.can_id);
    }
    assert_eq!(got, (0..next).collect::<Vec<u32>>());
}
