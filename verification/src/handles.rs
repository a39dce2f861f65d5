//! The table of open channels, keyed by the handles that the application holds.

use std::collections::BTreeMap;
use vstd::prelude::*;

verus! {

/// Open channels by their handles. Handles start at 1 and count up, so that a stale
/// handle of a closed channel is found nowhere.
pub struct HandleTable<T> {
    conns: BTreeMap<i32, T>,
    next: i32,
}

/// What a [`HandleTable`] holds.
#[verifier::ext_equal]
pub struct TableView<T> {
    pub conns: Map<i32, T>,
    /// The handle that the next channel gets.
    pub next: i32,
}

impl<T> View for HandleTable<T> {
    type V = TableView<T>;

    closed spec fn view(&self) -> TableView<T> {
        TableView { conns: self.conns@, next: self.next }
    }
}

impl<T> TableView<T> {
    /// Every handle was given out: they lie between 1 and the next one. Holds until the
    /// handles have wrapped around.
    pub open spec fn wf(self) -> bool {
        self.next >= 1 && forall|h: i32| #[trigger]
            self.conns.contains_key(h) ==> 1 <= h < self.next
    }
}

/// The handle after `h`, wrapping around like the machine's integers.
pub open spec fn handle_after(h: i32) -> i32 {
    if h == i32::MAX {
        i32::MIN
    } else {
        (h + 1) as i32
    }
}

/// The table with one more channel.
pub open spec fn with_channel<T>(t: TableView<T>, conn: T) -> TableView<T> {
    TableView { conns: t.conns.insert(t.next, conn), next: handle_after(t.next) }
}

/// The table without a channel.
pub open spec fn without_channel<T>(t: TableView<T>, h: i32) -> TableView<T> {
    TableView { conns: t.conns.remove(h), ..t }
}

impl<T> HandleTable<T> {
    /// No open channels.
    pub fn new() -> (r: HandleTable<T>)
        ensures
            r@ == (TableView { conns: Map::<i32, T>::empty(), next: 1 }),
            r@.wf(),
    {
        HandleTable { conns: BTreeMap::new(), next: 1 }
    }

    /// Takes in an open channel and gives out its handle.
    pub fn insert(&mut self, conn: T) -> (h: i32)
        ensures
            h == old(self)@.next,
            final(self)@ == with_channel(old(self)@, conn),
    {
        let h: i32 = self.next;
        self.next = if h == i32::MAX {
            i32::MIN
        } else {
            h + 1
        };
        self.conns.insert(h, conn);
        h
    }

    /// The channel of a handle.
    pub fn get(&self, h: i32) -> (r: Option<&T>)
        ensures
            match r {
                Some(conn) => self@.conns.contains_key(h) && *conn == self@.conns[h],
                None => !self@.conns.contains_key(h),
            },
    {
        self.conns.get(&h)
    }

    /// Takes a channel out of the table.
    pub fn remove(&mut self, h: i32) -> (r: Option<T>)
        ensures
            final(self)@ == without_channel(old(self)@, h),
            match r {
                Some(conn) => old(self)@.conns.contains_key(h) && conn == old(self)@.conns[h],
                None => !old(self)@.conns.contains_key(h),
            },
    {
        let r: Option<T> = self.conns.remove(&h);
        assert(self@ =~= without_channel(old(self)@, h));
        r
    }

    /// Whether no channel is open.
    pub fn is_empty(&self) -> (r: bool)
        ensures
            r == (self@.conns.dom() =~= Set::<i32>::empty()),
    {
        let n: usize = self.conns.len();
        proof {
            if self.conns@.dom().len() == 0 {
                self.conns@.dom().lemma_len0_is_empty();
            }
        }
        n == 0
    }
}

// ================================= laws =================================

/// One operation on the table.
pub enum TableStep<T> {
    Insert(T),
    Remove(i32),
}

/// The table after one operation.
pub open spec fn table_after<T>(t: TableView<T>, step: TableStep<T>) -> TableView<T> {
    match step {
        TableStep::Insert(conn) => with_channel(t, conn),
        TableStep::Remove(h) => without_channel(t, h),
    }
}

/// The table after a sequence of operations.
pub open spec fn table_run<T>(t: TableView<T>, steps: Seq<TableStep<T>>) -> TableView<T>
    decreases steps.len(),
{
    if steps.len() == 0 {
        t
    } else {
        table_after(table_run(t, steps.drop_last()), steps.last())
    }
}

/// How many channels a sequence of operations opens.
pub open spec fn inserts<T>(steps: Seq<TableStep<T>>) -> nat
    decreases steps.len(),
{
    if steps.len() == 0 {
        0
    } else {
        inserts(steps.drop_last()) + (if steps.last() is Insert {
            1nat
        } else {
            0
        })
    }
}

/// How many handles are given out before `h` is, when `next` is given out first: the
/// handles count up, and wrap around at the end of their range.
pub open spec fn handles_before(next: i32, h: i32) -> nat {
    if h >= next {
        (h - next) as nat
    } else {
        (h - next + 0x1_0000_0000) as nat
    }
}

/// As long as the handles have not wrapped around, each new channel gets a positive
/// handle that no open channel has, and reaches no other channel.
pub proof fn law_fresh_handle<T>(t: TableView<T>, conn: T)
    requires
        t.wf(),
    ensures
        t.next > 0,
        !t.conns.contains_key(t.next),
        t.next < i32::MAX ==> with_channel(t, conn).wf(),
        with_channel(t, conn).conns[t.next] == conn,
        forall|h: i32| #[trigger]
            t.conns.contains_key(h) ==> with_channel(t, conn).conns.contains_key(h) && with_channel(
                t,
                conn,
            ).conns[h] == t.conns[h],
{
}

/// A channel comes under the handle that was next; every other handle names what it named,
/// and the next handle is one more, or the lowest of all after the highest.
pub proof fn law_insert_is_local<T>(t: TableView<T>, conn: T, h: i32)
    ensures
        ({
            let u = with_channel(t, conn);
            &&& u.conns.contains_key(h) <==> h == t.next || t.conns.contains_key(h)
            &&& h == t.next ==> u.conns[h] == conn
            &&& h != t.next && t.conns.contains_key(h) ==> u.conns[h] == t.conns[h]
            &&& t.next < 0x7FFF_FFFF ==> u.next == t.next + 1
            &&& t.next == 0x7FFF_FFFF ==> u.next == -0x8000_0000
        }),
{
}

/// The handles have not wrapped around as long as no more channels were opened than the
/// range of positive handles has left, however many were closed.
pub proof fn law_handles_count_up<T>(t: TableView<T>, steps: Seq<TableStep<T>>)
    requires
        t.wf(),
        t.next + inserts(steps) <= i32::MAX,
    ensures
        table_run(t, steps).wf(),
        table_run(t, steps).next == t.next + inserts(steps),
    decreases steps.len(),
{
    if steps.len() > 0 {
        law_handles_count_up(t, steps.drop_last());
    }
}

/// A handle that was given out and closed is not given out again until the handles have
/// gone through their whole range and come back to it: until then a stale handle is found
/// nowhere, however many channels are opened and closed.
pub proof fn law_stale_handle_stays_dead<T>(t: TableView<T>, steps: Seq<TableStep<T>>, h: i32)
    requires
        !t.conns.contains_key(h),
        inserts(steps) <= handles_before(t.next, h),
    ensures
        !table_run(t, steps).conns.contains_key(h),
        handles_before(table_run(t, steps).next, h) == handles_before(t.next, h) - inserts(steps),
    decreases steps.len(),
{
    if steps.len() > 0 {
        law_stale_handle_stays_dead(t, steps.drop_last(), h);
    }
}

/// Closing a channel leaves the others alone, and the handle that is next.
pub proof fn law_close_is_local<T>(t: TableView<T>, h: i32, other: i32)
    requires
        other != h,
    ensures
        !without_channel(t, h).conns.contains_key(h),
        without_channel(t, h).conns.contains_key(other) == t.conns.contains_key(other),
        t.conns.contains_key(other) ==> without_channel(t, h).conns[other] == t.conns[other],
        without_channel(t, h).next == t.next,
{
}

} // verus!
