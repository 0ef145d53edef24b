use vstd::prelude::*;
use std::collections::VecDeque;

verus! {

/// What a receive observes.
#[derive(Debug, PartialEq, Eq, Structural)]
pub enum Received<T> {
    /// The oldest item not yet received.
    Item(T),
    /// Nothing is queued, but the producer may still send.
    Empty,
    /// Nothing is queued and the producer has closed its end.
    Closed,
}

/// An ordered, unbounded, single-producer single-consumer queue that the
/// producer can close. Viewed as the queued items, oldest first, and whether
/// the producer has closed it.
pub struct Channel<T> {
    queue: VecDeque<T>,
    closed: bool,
}

/// The channel state after sending `v`: appended while open, ignored once closed.
pub open spec fn after_send<T>(s: (Seq<T>, bool), v: T) -> (Seq<T>, bool) {
    if s.1 {
        s
    } else {
        (s.0.push(v), s.1)
    }
}

/// The channel state after the producer closes it.
pub open spec fn after_close<T>(s: (Seq<T>, bool)) -> (Seq<T>, bool) {
    (s.0, true)
}

/// What a receive on state `s` observes.
pub open spec fn recv_result<T>(s: (Seq<T>, bool)) -> Received<T> {
    if s.0.len() > 0 {
        Received::Item(s.0[0])
    } else if s.1 {
        Received::Closed
    } else {
        Received::Empty
    }
}

/// The channel state after a receive on state `s`.
pub open spec fn after_recv<T>(s: (Seq<T>, bool)) -> (Seq<T>, bool) {
    if s.0.len() > 0 {
        (s.0.drop_first(), s.1)
    } else {
        s
    }
}

/// The state after sending each of `items` in order, starting from `s`.
pub open spec fn after_sends<T>(s: (Seq<T>, bool), items: Seq<T>) -> (Seq<T>, bool)
    decreases items.len(),
{
    if items.len() == 0 {
        s
    } else {
        after_send(after_sends(s, items.drop_last()), items.last())
    }
}

/// What `k` receives in a row observe, starting from state `s`.
pub open spec fn receives<T>(s: (Seq<T>, bool), k: nat) -> Seq<Received<T>>
    decreases k,
{
    if k == 0 {
        Seq::empty()
    } else {
        seq![recv_result(s)] + receives(after_recv(s), (k - 1) as nat)
    }
}

impl<T> View for Channel<T> {
    type V = (Seq<T>, bool);

    closed spec fn view(&self) -> (Seq<T>, bool) {
        (self.queue@, self.closed)
    }
}

impl<T> Channel<T> {
    /// An open channel with nothing queued.
    pub fn new() -> (c: Self)
        ensures
            c@ == (Seq::<T>::empty(), false),
    {
        Channel { queue: VecDeque::new(), closed: false }
    }

    /// Queues `v` behind everything sent before. Never blocks. Once the
    /// channel is closed this does nothing and returns false.
    pub fn send(&mut self, v: T) -> (sent: bool)
        ensures
            sent == !old(self)@.1,
            final(self)@ == after_send(old(self)@, v),
    {
        if self.closed {
            false
        } else {
            self.queue.push_back(v);
            true
        }
    }

    /// Closes the producer's end; what is queued stays to be received.
    pub fn close(&mut self)
        ensures
            final(self)@ == after_close(old(self)@),
    {
        self.closed = true;
    }

    /// Takes the oldest queued item, or reports that none is queued and
    /// whether more may come.
    pub fn recv(&mut self) -> (r: Received<T>)
        ensures
            r == recv_result(old(self)@),
            final(self)@ == after_recv(old(self)@),
    {
        match self.queue.pop_front() {
            Some(v) => Received::Item(v),
            None => {
                if self.closed {
                    Received::Closed
                } else {
                    Received::Empty
                }
            },
        }
    }
}

/// Sending on an open channel appends to what is queued.
proof fn lemma_sends_append<T>(p: Seq<T>, items: Seq<T>)
    ensures
        after_sends((p, false), items) == (p + items, false),
    decreases items.len(),
{
    if items.len() > 0 {
        lemma_sends_append(p, items.drop_last());
        assert(p + items.drop_last().push(items.last()) =~= p + items);
        assert(items.drop_last().push(items.last()) =~= items);
    } else {
        assert(p + items =~= p);
    }
}

/// A closed channel hands out what it holds, oldest first, then reports closure.
proof fn lemma_drain_closed<T>(q: Seq<T>)
    ensures
        receives((q, true), q.len() + 1) == q.map_values(|v: T| Received::Item(v)).push(Received::<T>::Closed),
    decreases q.len(),
{
    if q.len() == 0 {
        assert(receives((q, true), 0) =~= Seq::<Received<T>>::empty());
        assert(receives((q, true), 1) =~= seq![Received::<T>::Closed]);
        assert(q.map_values(|v: T| Received::Item(v)).push(Received::<T>::Closed) =~= seq![Received::<T>::Closed]);
    } else {
        let rest = q.drop_first();
        lemma_drain_closed(rest);
        assert(after_recv((q, true)) == (rest, true));
        assert((q.len() + 1 - 1) as nat == rest.len() + 1);
        assert(receives((q, true), q.len() + 1) == seq![Received::Item(q[0])] + receives((rest, true), rest.len() + 1));
        assert(q.map_values(|v: T| Received::Item(v)).push(Received::<T>::Closed) =~=
            seq![Received::Item(q[0])] + rest.map_values(|v: T| Received::Item(v)).push(Received::<T>::Closed));
    }
}

/// Frames sent on a fresh channel and followed by a close are received
/// exactly once each, in the order they were sent, and then closure is
/// observed.
pub proof fn lemma_fifo_then_closed<T>(items: Seq<T>)
    ensures
        receives(after_close(after_sends((Seq::<T>::empty(), false), items)), items.len() + 1)
            == items.map_values(|v: T| Received::Item(v)).push(Received::<T>::Closed),
{
    lemma_sends_append(Seq::<T>::empty(), items);
    assert(Seq::<T>::empty() + items =~= items);
    lemma_drain_closed(items);
}

} // verus!
