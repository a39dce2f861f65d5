//! Laws of the receive side, over every sequence of its operations.

use crate::shared::{
    begun, directed, fresh, parks, popped, pushed, stamped, Accept, Notify, Pushed, RxEvent,
    SharedView, Start, RING_CAP,
};
use crate::wire::{bare_id, FrameView, CAN_EFF_FLAG};
use vstd::prelude::*;

verus! {

/// One operation on the receive side.
pub enum Step {
    Push(FrameView, u64),
    Pop,
    Close,
    Clear,
    SetAccept(u32, u32),
    SetNotify(Notify),
    Begin(RxEvent),
    End,
}

/// The state after one operation.
pub open spec fn after(s: SharedView, step: Step) -> SharedView {
    match step {
        Step::Push(f, now_ms) => pushed(s, f, now_ms).0,
        Step::Pop => popped(s).0,
        Step::Close => SharedView { closed: true, ..s },
        Step::Clear => SharedView { q: seq![], overflow: false, ..s },
        Step::SetAccept(flag, envelope) => SharedView {
            filters: directed(s.filters, flag, envelope),
            ..s
        },
        Step::SetNotify(n) => SharedView { notify: n, ..s },
        Step::Begin(ev) => begun(s, ev).0,
        Step::End => SharedView { active: None, ..s },
    }
}

/// The state after a sequence of operations.
pub open spec fn run(s: SharedView, steps: Seq<Step>) -> SharedView
    decreases steps.len(),
{
    if steps.len() == 0 {
        s
    } else {
        after(run(s, steps.drop_last()), steps.last())
    }
}

/// However a connection is used, its ring never holds more than it may.
pub proof fn law_ring_bounded(steps: Seq<Step>)
    ensures
        run(fresh(), steps).wf(),
    decreases steps.len(),
{
    if steps.len() > 0 {
        law_ring_bounded(steps.drop_last());
    }
}

/// A closed connection stays closed, and no reader of it ever parks.
pub proof fn law_closed_never_parks(
    s: SharedView,
    steps: Seq<Step>,
    timeout: u128,
    waited: u128,
)
    requires
        s.closed,
    ensures
        run(s, steps).closed,
        !parks(run(s, steps), timeout, waited),
    decreases steps.len(),
{
    if steps.len() > 0 {
        law_closed_never_parks(s, steps.drop_last(), timeout, waited);
    }
}

/// A queued frame keeps any reader from parking, and a reader whose time is up
/// does not park either.
pub proof fn law_ready_never_parks(s: SharedView, timeout: u128, waited: u128)
    ensures
        s.q.len() > 0 ==> !parks(s, timeout, waited),
        waited >= timeout ==> !parks(s, timeout, waited),
{
}

// ============================ order of frames ===========================

/// The frames that a sequence of operations queued, with their receive times, in the
/// order in which they were received.
pub open spec fn queued(s: SharedView, steps: Seq<Step>) -> Seq<FrameView>
    decreases steps.len(),
{
    if steps.len() == 0 {
        seq![]
    } else {
        let before = steps.drop_last();
        queued(s, before) + match steps.last() {
            Step::Push(f, now_ms) => if pushed(run(s, before), f, now_ms).1 is Queued {
                seq![stamped(f, now_ms)]
            } else {
                seq![]
            },
            _ => seq![],
        }
    }
}

/// The frames that a sequence of operations read, in the order in which they were read.
pub open spec fn taken(s: SharedView, steps: Seq<Step>) -> Seq<FrameView>
    decreases steps.len(),
{
    if steps.len() == 0 {
        seq![]
    } else {
        let before = steps.drop_last();
        taken(s, before) + match (steps.last(), popped(run(s, before)).1) {
            (Step::Pop, Some(f)) => seq![f],
            _ => seq![],
        }
    }
}

/// Frames are read in the order in which they were received, each once, none lost and
/// none made up: however reads and receives interleave, what was read and what is still
/// queued together are what was queued at first and what was received since. (A flush
/// throws the queue away, so there is none among the operations.)
pub proof fn law_fifo(s: SharedView, steps: Seq<Step>)
    requires
        forall|i: int| 0 <= i < steps.len() ==> !(#[trigger] steps[i] is Clear),
    ensures
        taken(s, steps) + run(s, steps).q == s.q + queued(s, steps),
    decreases steps.len(),
{
    if steps.len() == 0 {
        assert(taken(s, steps) + run(s, steps).q =~= s.q + queued(s, steps));
    } else {
        let before = steps.drop_last();
        assert forall|i: int| 0 <= i < before.len() implies !(#[trigger] before[i] is Clear) by {
            assert(before[i] == steps[i]);
        }
        law_fifo(s, before);
        let t = run(s, before);
        let last = steps[steps.len() - 1];
        assert(!(last is Clear));
        match last {
            Step::Push(f, now_ms) => {
                if pushed(t, f, now_ms).1 is Queued {
                    let g = seq![stamped(f, now_ms)];
                    assert(run(s, steps).q =~= t.q + g);
                    assert(taken(s, steps) =~= taken(s, before));
                    assert(taken(s, before) + (t.q + g) =~= (taken(s, before) + t.q) + g);
                    assert((s.q + queued(s, before)) + g =~= s.q + (queued(s, before) + g));
                } else {
                    assert(taken(s, steps) =~= taken(s, before));
                    assert(queued(s, steps) =~= queued(s, before));
                }
            },
            Step::Pop => {
                assert(queued(s, steps) =~= queued(s, before));
                if t.q.len() > 0 {
                    assert(t.q =~= seq![t.q[0]] + t.q.skip(1));
                    assert((taken(s, before) + seq![t.q[0]]) + t.q.skip(1) =~= taken(s, before)
                        + t.q);
                } else {
                    assert(taken(s, steps) =~= taken(s, before));
                }
            },
            _ => {
                assert(taken(s, steps) =~= taken(s, before));
                assert(queued(s, steps) =~= queued(s, before));
            },
        }
    }
}

/// A frame that the filters pass is queued whenever the ring has room, and one that they
/// do not pass leaves no trace.
pub proof fn law_filters_decide(s: SharedView, f: FrameView, now_ms: u64)
    ensures
        s.filters.passes(f.can_id) && s.q.len() < RING_CAP ==> pushed(s, f, now_ms).0.q == s.q.push(
            stamped(f, now_ms),
        ),
        !s.filters.passes(f.can_id) ==> pushed(s, f, now_ms).0 == s,
{
}

// ============================= overrun latch ============================

/// Whether an operation drops a frame on a full ring.
pub open spec fn overruns(s: SharedView, step: Step) -> bool {
    step matches Step::Push(f, now_ms) && pushed(s, f, now_ms).1 is Overrun
}

/// The overrun latch tells whether any frame was dropped on a full ring: until the
/// next flush it is set exactly when it was set before or some operation overran.
pub proof fn law_overrun_latch(s: SharedView, steps: Seq<Step>)
    requires
        forall|i: int| 0 <= i < steps.len() ==> !(#[trigger] steps[i] is Clear),
    ensures
        run(s, steps).overflow <==> (s.overflow || exists|i: int|
            0 <= i < steps.len() && #[trigger] overruns(run(s, steps.take(i)), steps[i])),
    decreases steps.len(),
{
    if steps.len() > 0 {
        let head = steps.drop_last();
        let n = steps.len() - 1;
        assert forall|i: int| 0 <= i < head.len() implies !(#[trigger] head[i] is Clear) by {
            assert(head[i] == steps[i]);
        }
        law_overrun_latch(s, head);
        assert(head =~= steps.take(n));
        assert forall|i: int| 0 <= i < n implies head.take(i) == #[trigger] steps.take(i)
            && head[i] == steps[i] by {
            assert(head.take(i) =~= steps.take(i));
        }
        assert(!(steps[n] is Clear));
        if exists|i: int| 0 <= i < n && #[trigger] overruns(run(s, head.take(i)), head[i]) {
            let i = choose|i: int| 0 <= i < n && #[trigger] overruns(run(s, head.take(i)), head[i]);
            assert(head.take(i) == steps.take(i));
            assert(overruns(run(s, steps.take(i)), steps[i]));
        }
        if exists|i: int|
            0 <= i < steps.len() && #[trigger] overruns(run(s, steps.take(i)), steps[i]) {
            let i = choose|i: int|
                0 <= i < steps.len() && #[trigger] overruns(run(s, steps.take(i)), steps[i]);
            if i < n {
                assert(head.take(i) == steps.take(i));
                assert(overruns(run(s, head.take(i)), head[i]));
            }
        }
        if overruns(run(s, head), steps[n]) {
            assert(overruns(run(s, steps.take(n)), steps[n]));
        }
    } else {
        assert(run(s, steps).overflow == s.overflow);
    }
}

/// A flush leaves an empty ring and no overrun, and touches nothing else.
pub proof fn law_flush(s: SharedView)
    ensures
        after(s, Step::Clear).q.len() == 0,
        !after(s, Step::Clear).overflow,
        after(s, Step::Clear) == (SharedView { q: seq![], overflow: false, ..s }),
{
}

// =============================== filters ================================

/// A zero mask accepts every frame of its class.
pub proof fn law_zero_mask_accepts_all(a: Accept, can_id: u32)
    ensures
        a.mask_std == 0 && can_id & CAN_EFF_FLAG == 0 ==> a.passes(can_id),
        a.mask_ext == 0 && can_id & CAN_EFF_FLAG != 0 ==> a.passes(can_id),
{
    assert(forall|x: u32| #[trigger] (x & 0u32) == 0) by (bit_vector);
}

/// Whether a bit of a number is set.
pub open spec fn bit(x: u32, i: u32) -> bool {
    (x >> i) & 1 == 1
}

/// Whether two numbers agree in every bit that is set in a mask.
pub open spec fn agree(x: u32, y: u32, mask: u32) -> bool {
    forall|i: u32| i < 32 && #[trigger] bit(mask, i) ==> bit(x, i) == bit(y, i)
}

/// A number without a set bit is zero.
proof fn lemma_no_bits(d: u32)
    requires
        forall|i: u32| i < 32 ==> !(#[trigger] bit(d, i)),
    ensures
        d == 0,
    decreases d,
{
    if d != 0 {
        let half = d >> 1;
        assert(!bit(d, 0));
        assert(half < d && (half == 0 && (d >> 0u32) & 1 != 1 ==> d == 0)) by (bit_vector)
            requires
                half == d >> 1u32,
                d != 0,
        ;
        assert forall|i: u32| i < 32 implies !(#[trigger] bit(half, i)) by {
            let j: u32 = if i < 31 {
                (i + 1) as u32
            } else {
                0
            };
            assert(!bit(d, j));
            assert((half >> i) & 1 == (if i < 31 {
                (d >> j) & 1
            } else {
                0
            })) by (bit_vector)
                requires
                    half == d >> 1u32,
                    i < 32,
                    j == (if i < 31 {
                        (i + 1) as u32
                    } else {
                        0
                    }),
            ;
        }
        lemma_no_bits(half);
    }
}

/// Comparing under a mask compares the bits that are set in it.
proof fn lemma_masked(x: u32, y: u32, mask: u32)
    ensures
        (x & mask == y & mask) == agree(x, y, mask),
{
    let d = (x ^ y) & mask;
    assert((x & mask == y & mask) == (d == 0)) by (bit_vector)
        requires
            d == (x ^ y) & mask,
    ;
    assert forall|i: u32| i < 32 implies #[trigger] bit(d, i) == (bit(mask, i) && bit(x, i) != bit(
        y,
        i,
    )) by {
        assert(((d >> i) & 1 == 1) == ((mask >> i) & 1 == 1 && ((x >> i) & 1 == 1) != ((y >> i) & 1
            == 1))) by (bit_vector)
            requires
                d == (x ^ y) & mask,
                i < 32,
        ;
    }
    if agree(x, y, mask) {
        assert forall|i: u32| i < 32 implies !(#[trigger] bit(d, i)) by {
            if bit(mask, i) {
                assert(bit(x, i) == bit(y, i));
            }
        }
        lemma_no_bits(d);
    }
    if d == 0 {
        assert forall|i: u32| i < 32 && #[trigger] bit(mask, i) implies bit(x, i) == bit(y, i) by {
            assert((d >> i) & 1 != 1) by (bit_vector)
                requires
                    d == 0,
                    i < 32,
            ;
            assert(!bit(d, i));
        }
    }
}

/// What a filter is for: after the code and the mask of an identifier class are set, a
/// frame of that class passes exactly when its identifier, all 29 bits of an extended one
/// and all 11 of a standard one, agrees with the code in every bit that is set in the
/// mask. The order of the two directives plays no part.
pub proof fn law_filter_compares_masked_bits(a: Accept, code: u32, mask: u32, can_id: u32)
    ensures
        can_id & 0x8000_0000 != 0 ==> directed(directed(a, 5, code), 6, mask).passes(can_id)
            == agree(can_id & 0x1FFF_FFFF, code, mask),
        can_id & 0x8000_0000 != 0 ==> directed(directed(a, 6, mask), 5, code).passes(can_id)
            == agree(can_id & 0x1FFF_FFFF, code, mask),
        can_id & 0x8000_0000 == 0 ==> directed(directed(a, 3, code), 4, mask).passes(can_id)
            == agree(can_id & 0x7FF, code, mask),
        can_id & 0x8000_0000 == 0 ==> directed(directed(a, 4, mask), 3, code).passes(can_id)
            == agree(can_id & 0x7FF, code, mask),
{
    lemma_masked(can_id & 0x1FFF_FFFF, code, mask);
    lemma_masked(can_id & 0x7FF, code, mask);
}

/// Any filter state passes a frame exactly when the identifier agrees with the code of its
/// class in every bit that is set in the mask of its class.
pub proof fn law_filter_state_compares_masked_bits(a: Accept, can_id: u32)
    ensures
        a.passes(can_id) == (if can_id & 0x8000_0000 != 0 {
            agree(can_id & 0x1FFF_FFFF, a.code_ext, a.mask_ext)
        } else {
            agree(can_id & 0x7FF, a.code_std, a.mask_std)
        }),
{
    lemma_masked(can_id & 0x1FFF_FFFF, a.code_ext, a.mask_ext);
    lemma_masked(can_id & 0x7FF, a.code_std, a.mask_std);
}

/// With the full mask of its class a filter passes the one identifier that is the code.
pub proof fn law_full_mask_passes_one_identifier(a: Accept, code: u32, can_id: u32)
    ensures
        can_id & 0x8000_0000 != 0 && code <= 0x1FFF_FFFF ==> directed(
            directed(a, 5, code),
            6,
            0x1FFF_FFFF,
        ).passes(can_id) == (can_id & 0x1FFF_FFFF == code),
        can_id & 0x8000_0000 == 0 && code <= 0x7FF ==> directed(
            directed(a, 3, code),
            4,
            0x7FF,
        ).passes(can_id) == (can_id & 0x7FF == code),
{
    assert({
        &&& (can_id & 0x1FFF_FFFF) & 0x1FFF_FFFF == can_id & 0x1FFF_FFFF
        &&& (can_id & 0x7FF) & 0x7FF == can_id & 0x7FF
        &&& code <= 0x1FFF_FFFF ==> code & 0x1FFF_FFFF == code
        &&& code <= 0x7FF ==> code & 0x7FF == code
    }) by (bit_vector);
}

/// A directive sets its own part of the filters and keeps the other three, and an unknown
/// one keeps all four.
pub proof fn law_directives(a: Accept, flag: u32, envelope: u32)
    ensures
        ({
            let b = directed(a, flag, envelope);
            &&& b.code_std == if flag == 3 { envelope } else { a.code_std }
            &&& b.mask_std == if flag == 4 { envelope } else { a.mask_std }
            &&& b.code_ext == if flag == 5 { envelope } else { a.code_ext }
            &&& b.mask_ext == if flag == 6 { envelope } else { a.mask_ext }
        }),
{
}

/// A new connection passes every frame, has nothing queued, and calls nobody.
pub proof fn law_fresh_is_open(can_id: u32, ev: RxEvent)
    ensures
        fresh().filters.passes(can_id),
        fresh().q.len() == 0,
        !fresh().closed,
        !fresh().overflow,
        begun(fresh(), ev).1 == Start::Skip,
{
    law_zero_mask_accepts_all(fresh().filters, can_id);
}

/// A received frame is queued unchanged but for its receive time, behind all others, exactly
/// when its identifier passes and fewer than 8192 frames wait. Else the queue keeps
/// what it has; and the overrun shows exactly when the frame passed and found no room.
pub proof fn law_push(s: SharedView, f: FrameView, now_ms: u64)
    ensures
        ({
            let (t, r) = pushed(s, f, now_ms);
            let room = s.q.len() < 8192;
            let passes = s.filters.passes(f.can_id);
            &&& passes && room ==> {
                &&& t.q.len() == s.q.len() + 1
                &&& t.q.drop_last() == s.q
                &&& t.q.last().can_id == f.can_id
                &&& t.q.last().len == f.len
                &&& t.q.last().fd == f.fd
                &&& t.q.last().fd_flags == f.fd_flags
                &&& t.q.last().data == f.data
                &&& t.q.last().rx_time_ms == now_ms
                &&& t.overflow == s.overflow
                &&& r matches Pushed::Queued(ev) && ev.time == now_ms && ev.id == (if f.can_id
                    & 0x8000_0000 != 0 {
                    f.can_id & 0x1FFF_FFFF
                } else {
                    f.can_id & 0x7FF
                }) as i32
            }
            &&& passes && !room ==> t.q == s.q && t.overflow && r == Pushed::Overrun
            &&& !passes ==> t.q == s.q && t.overflow == s.overflow && r == Pushed::Filtered
            &&& t.closed == s.closed && t.filters == s.filters && t.notify == s.notify && t.active
                == s.active
        }),
{
    let t = pushed(s, f, now_ms).0;
    if s.filters.passes(f.can_id) && s.q.len() < 8192 {
        assert(t.q.drop_last() =~= s.q);
    }
}

/// A read takes the frame that has waited longest and keeps the others in their order.
pub proof fn law_pop(s: SharedView)
    ensures
        s.q.len() == 0 ==> popped(s).1 is None && popped(s).0 == s,
        s.q.len() > 0 ==> {
            &&& popped(s).1 matches Some(f) && seq![f] + popped(s).0.q == s.q
            &&& popped(s).0 == (SharedView { q: popped(s).0.q, ..s })
        },
{
    if s.q.len() > 0 {
        assert(seq![s.q[0]] + s.q.skip(1) =~= s.q);
    }
}

/// A reader parks exactly while nothing waits for it, the connection is open and its time
/// has not run out.
pub proof fn law_when_a_reader_parks(s: SharedView, timeout: u128, waited: u128)
    ensures
        s.q.len() > 0 ==> !parks(s, timeout, waited),
        s.closed ==> !parks(s, timeout, waited),
        waited >= timeout ==> !parks(s, timeout, waited),
        s.q.len() == 0 && !s.closed && waited < timeout ==> parks(s, timeout, waited),
{
}

/// A callback is made exactly when none is running, one is registered, and it asked for
/// received frames; it is told its tag, the receive event, and the identifier and time.
pub proof fn law_notify(s: SharedView, ev: RxEvent)
    ensures
        ({
            let wanted = s.notify.cb != 0 && s.notify.flags & 1 == 1;
            let (t, r) = begun(s, ev);
            &&& r is Wait <==> s.active is Some
            &&& r is Call <==> s.active is None && wanted
            &&& r matches Start::Call(cb, d) ==> cb == s.notify.cb && d.tag == s.notify.tag
                && d.event_type == 32000 && d.id == ev.id && d.time == ev.time && t.active == Some(
                s.notify,
            )
            &&& !(r is Call) ==> t == s
            &&& t.q == s.q && t.closed == s.closed && t.notify == s.notify
        }),
{
    let flags = s.notify.flags;
    assert((flags & 1 == 1) == (flags & 1 != 0)) by (bit_vector);
}

/// The directives for standard identifiers leave the extended ones alone, and the
/// other way round.
pub proof fn law_filter_classes_independent(a: Accept, flag: u32, envelope: u32, can_id: u32)
    ensures
        (flag == 3 || flag == 4) && can_id & CAN_EFF_FLAG != 0 ==> directed(
            a,
            flag,
            envelope,
        ).passes(can_id) == a.passes(can_id),
        (flag == 5 || flag == 6) && can_id & CAN_EFF_FLAG == 0 ==> directed(
            a,
            flag,
            envelope,
        ).passes(can_id) == a.passes(can_id),
{
}

// ============================= notifications ============================

/// Once no callback is armed and none is running, none is called, whatever happens,
/// until one is registered again. So after a disarm that has waited out the running
/// callback, what the callback used may be freed.
pub proof fn law_disarmed_stays_silent(s: SharedView, steps: Seq<Step>, ev: RxEvent)
    requires
        !s.notify.armed(),
        s.active is None,
        forall|i: int| 0 <= i < steps.len() ==> !(#[trigger] steps[i] is SetNotify),
    ensures
        run(s, steps).active is None,
        run(s, steps).notify == s.notify,
        begun(run(s, steps), ev).1 == Start::Skip,
    decreases steps.len(),
{
    if steps.len() > 0 {
        let head = steps.drop_last();
        assert forall|i: int| 0 <= i < head.len() implies !(#[trigger] head[i] is SetNotify) by {
            assert(head[i] == steps[i]);
        }
        law_disarmed_stays_silent(s, head, ev);
        assert(!(steps[steps.len() - 1] is SetNotify));
    }
}

/// After a callback is registered, any callback that starts before the next
/// registration is that one.
pub proof fn law_calls_the_registered_one(
    s: SharedView,
    n: Notify,
    steps: Seq<Step>,
    ev: RxEvent,
)
    requires
        forall|i: int| 0 <= i < steps.len() ==> !(#[trigger] steps[i] is SetNotify),
    ensures
        run(after(s, Step::SetNotify(n)), steps).notify == n,
        begun(run(after(s, Step::SetNotify(n)), steps), ev).1 matches Start::Call(cb, d) ==> cb
            == n.cb && d.tag == n.tag && d.id == ev.id && d.time == ev.time,
    decreases steps.len(),
{
    if steps.len() > 0 {
        let head = steps.drop_last();
        assert forall|i: int| 0 <= i < head.len() implies !(#[trigger] head[i] is SetNotify) by {
            assert(head[i] == steps[i]);
        }
        law_calls_the_registered_one(s, n, head, ev);
        assert(!(steps[steps.len() - 1] is SetNotify));
    }
}

/// While a callback runs, no other one of the same connection starts.
pub proof fn law_one_callback_at_a_time(s: SharedView, steps: Seq<Step>, ev: RxEvent)
    requires
        s.active is Some,
        forall|i: int| 0 <= i < steps.len() ==> !(#[trigger] steps[i] is End),
    ensures
        run(s, steps).active == s.active,
        begun(run(s, steps), ev).1 == Start::Wait,
    decreases steps.len(),
{
    if steps.len() > 0 {
        let head = steps.drop_last();
        assert forall|i: int| 0 <= i < head.len() implies !(#[trigger] head[i] is End) by {
            assert(head[i] == steps[i]);
        }
        law_one_callback_at_a_time(s, head, ev);
        assert(!(steps[steps.len() - 1] is End));
    }
}

/// A received frame reaches an armed callback, with its identifier and its time,
/// exactly when it was queued.
pub proof fn law_queued_frame_notifies(s: SharedView, f: FrameView, now_ms: u64)
    requires
        s.notify.armed(),
        s.active is None,
    ensures
        pushed(s, f, now_ms).1 matches Pushed::Queued(ev) ==> (begun(
            pushed(s, f, now_ms).0,
            ev,
        ).1 matches Start::Call(cb, d) && cb == s.notify.cb && d.tag == s.notify.tag && d.id
            == bare_id(f.can_id) as i32 && d.time == now_ms),
        !(pushed(s, f, now_ms).1 is Queued) <==> pushed(s, f, now_ms).0.q == s.q,
{
    let t = pushed(s, f, now_ms);
    if t.1 is Queued {
        assert(t.0.q.len() == s.q.len() + 1);
    }
}

} // verus!
