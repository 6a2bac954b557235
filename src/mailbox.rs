//! A bounded FIFO mailbox: many producers, one consumer (the owning agent).
use std::collections::VecDeque;
use vstd::prelude::*;

verus! {

/// Why a send into a mailbox was refused; the refused item is handed back.
pub enum SendError<T> {
    /// The mailbox holds as many items as its capacity allows.
    Full(T),
    /// The mailbox was closed by its owner.
    Closed(T),
}

/// The abstract state of a mailbox.
pub struct MailboxView<T> {
    pub items: Seq<T>,
    pub capacity: nat,
    pub closed: bool,
}

/// What a send does to a mailbox: the new state, and whether the item went in.
pub open spec fn send_spec<T>(v: MailboxView<T>, item: T) -> (MailboxView<T>, bool) {
    if v.closed || v.items.len() >= v.capacity {
        (v, false)
    } else {
        (MailboxView { items: v.items.push(item), ..v }, true)
    }
}

/// What a receive does to a mailbox: the oldest item leaves first.
pub open spec fn recv_spec<T>(v: MailboxView<T>) -> (MailboxView<T>, Option<T>) {
    if v.items.len() == 0 {
        (v, None)
    } else {
        (MailboxView { items: v.items.drop_first(), ..v }, Some(v.items[0]))
    }
}

/// Sends each item in turn; the result lists whether each one went in.
pub open spec fn send_all<T>(v: MailboxView<T>, items: Seq<T>) -> (MailboxView<T>, Seq<bool>)
    decreases items.len(),
{
    if items.len() == 0 {
        (v, Seq::empty())
    } else {
        let (v1, ok) = send_spec(v, items[0]);
        let (vn, oks) = send_all(v1, items.drop_first());
        (vn, seq![ok] + oks)
    }
}

/// Receives `n` times and lists what came out, oldest first.
pub open spec fn recv_n<T>(v: MailboxView<T>, n: nat) -> (MailboxView<T>, Seq<Option<T>>)
    decreases n,
{
    if n == 0 {
        (v, Seq::empty())
    } else {
        let (v1, r) = recv_spec(v);
        let (vn, rs) = recv_n(v1, (n - 1) as nat);
        (vn, seq![r] + rs)
    }
}

/// Sending into an open mailbox with room for every item accepts them all, in order.
pub proof fn lemma_send_all_with_room<T>(v: MailboxView<T>, items: Seq<T>)
    requires
        !v.closed,
        v.items.len() + items.len() <= v.capacity,
    ensures
        send_all(v, items).0 == (MailboxView { items: v.items + items, ..v }),
        send_all(v, items).1.len() == items.len(),
        forall|i: int| 0 <= i < items.len() ==> #[trigger] send_all(v, items).1[i],
    decreases items.len(),
{
    if items.len() > 0 {
        let v1 = send_spec(v, items[0]).0;
        lemma_send_all_with_room(v1, items.drop_first());
        assert(v.items.push(items[0]) + items.drop_first() =~= v.items + items);
        let oks = send_all(v1, items.drop_first()).1;
        assert forall|i: int| 0 <= i < items.len() implies #[trigger] send_all(v, items).1[i] by {
            if i > 0 {
                assert(send_all(v, items).1[i] == oks[i - 1]);
            }
        }
    }
}

/// Receiving as many times as there are items yields every item, oldest first.
pub proof fn lemma_recv_everything<T>(v: MailboxView<T>)
    ensures
        recv_n(v, v.items.len()).1 == v.items.map_values(|x: T| Some(x)),
        recv_n(v, v.items.len()).0.items.len() == 0,
    decreases v.items.len(),
{
    if v.items.len() > 0 {
        let v1 = recv_spec(v).0;
        lemma_recv_everything(v1);
        assert(recv_n(v, v.items.len()).1 =~= v.items.map_values(|x: T| Some(x)));
    }
}

/// First in, first out: when `a` and then `b` are sent into an open mailbox with
/// room for both, the consumer takes what was already queued, then `a`, then `b`.
pub proof fn lemma_fifo<T>(v: MailboxView<T>, a: T, b: T)
    requires
        !v.closed,
        v.items.len() + 2 <= v.capacity,
    ensures
        send_all(v, seq![a, b]).1 == seq![true, true],
        recv_n(send_all(v, seq![a, b]).0, v.items.len() + 2).1
            == v.items.map_values(|x: T| Some(x)) + seq![Some(a), Some(b)],
{
    lemma_send_all_with_room(v, seq![a, b]);
    let w = send_all(v, seq![a, b]).0;
    assert(send_all(v, seq![a, b]).1 =~= seq![true, true]);
    lemma_recv_everything(w);
    assert(w.items.len() == v.items.len() + 2);
    assert(w.items.map_values(|x: T| Some(x)) =~= v.items.map_values(|x: T| Some(x)) + seq![
        Some(a),
        Some(b),
    ]);
}

/// Bounded back-pressure: an empty open mailbox of capacity N accepts N items;
/// one more is refused while it is full, and accepted once an item was taken.
pub proof fn lemma_back_pressure<T>(v: MailboxView<T>, items: Seq<T>, extra: T)
    requires
        !v.closed,
        v.items.len() == 0,
        items.len() == v.capacity,
    ensures
        forall|i: int| 0 <= i < items.len() ==> #[trigger] send_all(v, items).1[i],
        send_all(v, items).0.items == items,
        !send_spec(send_all(v, items).0, extra).1,
        v.capacity > 0 ==> send_spec(recv_spec(send_all(v, items).0).0, extra).1,
{
    lemma_send_all_with_room(v, items);
    assert(v.items + items =~= items);
}

pub struct Mailbox<T> {
    queue: VecDeque<T>,
    capacity: usize,
    closed: bool,
}

impl<T> View for Mailbox<T> {
    type V = MailboxView<T>;

    closed spec fn view(&self) -> MailboxView<T> {
        MailboxView { items: self.queue@, capacity: self.capacity as nat, closed: self.closed }
    }
}

impl<T> Mailbox<T> {
    /// The queue never holds more than the capacity, which is positive.
    pub open spec fn wf(&self) -> bool {
        &&& self@.capacity > 0
        &&& self@.items.len() <= self@.capacity
    }

    /// An open, empty mailbox that holds at most `capacity` items.
    pub fn new(capacity: usize) -> (r: Mailbox<T>)
        requires
            capacity > 0,
        ensures
            r.wf(),
            r@.items == Seq::<T>::empty(),
            r@.capacity == capacity,
            !r@.closed,
    {
        Mailbox { queue: VecDeque::new(), capacity, closed: false }
    }

    /// Appends `item` unless the mailbox is closed or full.
    pub fn try_send(&mut self, item: T) -> (r: Result<(), SendError<T>>)
        requires
            old(self).wf(),
        ensures
            final(self).wf(),
            final(self)@ == send_spec(old(self)@, item).0,
            r is Ok <==> send_spec(old(self)@, item).1,
            r matches Err(SendError::Closed(x)) ==> old(self)@.closed && x == item,
            r matches Err(SendError::Full(x)) ==> !old(self)@.closed && x == item
                && old(self)@.items.len() == old(self)@.capacity,
            old(self)@.closed ==> r is Err && r->Err_0 is Closed,
    {
        if self.closed {
            Err(SendError::Closed(item))
        } else if self.queue.len() >= self.capacity {
            Err(SendError::Full(item))
        } else {
            self.queue.push_back(item);
            Ok(())
        }
    }

    /// Takes the oldest item, if there is one. Items sent before the mailbox
    /// closed can still be taken after it closed.
    pub fn recv(&mut self) -> (r: Option<T>)
        requires
            old(self).wf(),
        ensures
            final(self).wf(),
            (final(self)@, r) == recv_spec(old(self)@),
    {
        self.queue.pop_front()
    }

    /// Refuses every later send. Closing twice is the same as closing once.
    pub fn close(&mut self)
        requires
            old(self).wf(),
        ensures
            final(self).wf(),
            final(self)@ == (MailboxView { closed: true, ..old(self)@ }),
    {
        self.closed = true;
    }

    pub fn len(&self) -> (r: usize)
        ensures
            r == self@.items.len(),
    {
        self.queue.len()
    }

    pub fn is_empty(&self) -> (r: bool)
        ensures
            r == (self@.items.len() == 0),
    {
        self.queue.len() == 0
    }

    pub fn is_closed(&self) -> (r: bool)
        ensures
            r == self@.closed,
    {
        self.closed
    }

    pub fn capacity(&self) -> (r: usize)
        ensures
            r == self@.capacity,
    {
        self.capacity
    }
}

} // verus!
