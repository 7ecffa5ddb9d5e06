//! Bounded, cancellable producer/consumer channel.
//!
//! The coordination primitive between the directory scanner and the
//! upload workers: a FIFO queue with a fixed capacity bound, a one-time
//! producer "finish" mark that lets the consumer drain and stop cleanly,
//! and a terminal cancellation flag settable from anywhere. Capacity
//! gives backpressure; the queue length gives a progress count.
//!
//! Each operation is a single guarded step on the shared state; a caller
//! that would block (a full queue on send, an empty unfinished queue on
//! receive) is told so and retries, which keeps every step verified.

use vstd::prelude::*;
use vstd::rwlock::{RwLock, RwLockPredicate};

use std::sync::Arc;

verus! {

/// The queue with its bound and flags, as guarded by the lock.
pub struct ChannelState<T> {
    pub queue: Vec<T>,
    pub bound: usize,
    pub finished: bool,
    pub cancelled: bool,
    pub disconnected: bool,
}

/// The channel state as mathematics.
#[verifier::ext_equal]
pub struct ChannelModel<T> {
    pub queue: Seq<T>,
    pub bound: int,
    pub finished: bool,
    pub cancelled: bool,
    pub disconnected: bool,
}

impl<T> View for ChannelState<T> {
    type V = ChannelModel<T>;

    open spec fn view(&self) -> ChannelModel<T> {
        ChannelModel {
            queue: self.queue@,
            bound: self.bound as int,
            finished: self.finished,
            cancelled: self.cancelled,
            disconnected: self.disconnected,
        }
    }
}

/// What one send step does and reports.
#[derive(Debug, PartialEq, Eq)]
pub enum SendOutcome<T> {
    /// The item was enqueued.
    Sent,
    /// The queue is at capacity; the item comes back to be retried.
    Full(T),
    /// The channel was cancelled; the item comes back.
    Cancelled(T),
    /// The peer end is gone; the item comes back.
    Disconnected(T),
}

/// What one receive step does and reports.
#[derive(Debug, PartialEq, Eq)]
pub enum RecvOutcome<T> {
    /// The oldest queued item.
    Received(T),
    /// Nothing queued yet and the producer is still at work.
    Empty,
    /// Nothing queued and the producer has finished: no more items.
    Finished,
    /// The channel was cancelled.
    Cancelled,
    /// Nothing queued and the peer end is gone without finishing.
    Disconnected,
}

/// One send step: refused after cancellation or once the peer end is
/// gone, refused at capacity, otherwise the item joins the end of the
/// queue.
pub open spec fn send_model<T>(m: ChannelModel<T>, t: T) -> (ChannelModel<T>, SendOutcome<T>) {
    if m.cancelled {
        (m, SendOutcome::Cancelled(t))
    } else if m.disconnected {
        (m, SendOutcome::Disconnected(t))
    } else if m.queue.len() >= m.bound {
        (m, SendOutcome::Full(t))
    } else {
        (ChannelModel { queue: m.queue.push(t), ..m }, SendOutcome::Sent)
    }
}

/// One receive step: fails after cancellation, yields the oldest item
/// if any, reports completion once the producer finished, fails once
/// the peer end is gone with nothing left to drain, else asks the
/// caller to wait.
pub open spec fn recv_model<T>(m: ChannelModel<T>) -> (ChannelModel<T>, RecvOutcome<T>) {
    if m.cancelled {
        (m, RecvOutcome::Cancelled)
    } else if m.queue.len() > 0 {
        (
            ChannelModel { queue: m.queue.subrange(1, m.queue.len() as int), ..m },
            RecvOutcome::Received(m.queue[0]),
        )
    } else if m.finished {
        (m, RecvOutcome::Finished)
    } else if m.disconnected {
        (m, RecvOutcome::Disconnected)
    } else {
        (m, RecvOutcome::Empty)
    }
}

/// Marking the producer finished changes nothing else.
pub open spec fn finish_model<T>(m: ChannelModel<T>) -> ChannelModel<T> {
    ChannelModel { finished: true, ..m }
}

/// Cancelling changes nothing else; it is idempotent.
pub open spec fn cancel_model<T>(m: ChannelModel<T>) -> ChannelModel<T> {
    ChannelModel { cancelled: true, ..m }
}

/// A handle abandoning the channel without finishing marks the peer
/// end gone and changes nothing else.
pub open spec fn abandon_model<T>(m: ChannelModel<T>) -> ChannelModel<T> {
    ChannelModel { disconnected: true, ..m }
}

impl<T> ChannelState<T> {
    /// One send step on the state itself.
    pub fn try_send(&mut self, t: T) -> (r: SendOutcome<T>)
        ensures
            final(self)@ == send_model(old(self)@, t).0,
            r == send_model(old(self)@, t).1,
    {
        if self.cancelled {
            SendOutcome::Cancelled(t)
        } else if self.disconnected {
            SendOutcome::Disconnected(t)
        } else if self.queue.len() >= self.bound {
            SendOutcome::Full(t)
        } else {
            self.queue.push(t);
            proof {
                assert(final(self)@ =~= send_model(old(self)@, t).0);
            }
            SendOutcome::Sent
        }
    }

    /// One receive step on the state itself.
    pub fn try_recv(&mut self) -> (r: RecvOutcome<T>)
        ensures
            final(self)@ == recv_model(old(self)@).0,
            r == recv_model(old(self)@).1,
    {
        if self.cancelled {
            RecvOutcome::Cancelled
        } else if self.queue.len() > 0 {
            let t = self.queue.remove(0);
            proof {
                assert(final(self)@.queue =~= recv_model(old(self)@).0.queue);
                assert(final(self)@ =~= recv_model(old(self)@).0);
            }
            RecvOutcome::Received(t)
        } else if self.finished {
            RecvOutcome::Finished
        } else if self.disconnected {
            RecvOutcome::Disconnected
        } else {
            RecvOutcome::Empty
        }
    }
}

/// The lock invariant: the bound is fixed and positive, and the queue
/// never outgrows it.
pub struct BoundPred {
    pub bound: int,
}

impl<T> RwLockPredicate<ChannelState<T>> for BoundPred {
    open spec fn inv(self, s: ChannelState<T>) -> bool {
        s@.bound == self.bound && s@.queue.len() <= s@.bound && s@.bound >= 1
    }
}

/// The producer's handle.
pub struct Sender<T> {
    chan: Arc<RwLock<ChannelState<T>, BoundPred>>,
}

/// The consumer's handle.
pub struct Receiver<T> {
    chan: Arc<RwLock<ChannelState<T>, BoundPred>>,
}

/// A handle that can only cancel; for wiring to an interrupt signal.
pub struct Canceller<T> {
    chan: Arc<RwLock<ChannelState<T>, BoundPred>>,
}

/// Shorthand for "the state a handle could observe under the lock".
pub open spec fn observable<T>(pred: BoundPred, m: ChannelModel<T>) -> bool {
    m.bound == pred.bound && m.queue.len() <= m.bound && m.bound >= 1
}

impl<T> Sender<T> {
    pub closed spec fn pred(&self) -> BoundPred {
        self.chan.pred()
    }

    /// One send step: enqueue the item, or report the channel full
    /// (retry later) or cancelled. What came back is one step of
    /// `send_model` on the state this call observed.
    pub fn send(&self, t: T) -> (r: SendOutcome<T>)
        ensures
            exists|m: ChannelModel<T>|
                observable(self.pred(), m) && r == send_model(m, t).1,
    {
        let (mut state, handle) = self.chan.acquire_write();
        let ghost m0 = state@;
        let r = state.try_send(t);
        handle.release_write(state);
        proof {
            assert(observable(self.pred(), m0) && r == send_model(m0, t).1);
        }
        r
    }

    /// Mark that no further items will be sent, letting the consumer
    /// drain and then stop instead of waiting forever.
    pub fn finish(self) {
        let (mut state, handle) = self.chan.acquire_write();
        state.finished = true;
        handle.release_write(state);
    }

    /// Give the channel up without finishing: the producer's error
    /// path. The consumer drains what is queued and then learns the
    /// peer is gone instead of waiting forever.
    pub fn abandon(self) {
        let (mut state, handle) = self.chan.acquire_write();
        state.disconnected = true;
        handle.release_write(state);
    }

    /// Whether cancellation had been requested when this call looked.
    pub fn cancelled(&self) -> (c: bool)
        ensures
            exists|m: ChannelModel<T>| observable(self.pred(), m) && c == m.cancelled,
    {
        let handle = self.chan.acquire_read();
        let st = handle.borrow();
        let ghost m0 = st@;
        let c = st.cancelled;
        handle.release_read();
        proof {
            assert(observable(self.pred(), m0) && c == m0.cancelled);
        }
        c
    }
}

impl<T> Receiver<T> {
    pub closed spec fn pred(&self) -> BoundPred {
        self.chan.pred()
    }

    /// One receive step: the oldest queued item, or the reason there is
    /// none. What came back is one step of `recv_model` on the state
    /// this call observed.
    pub fn recv(&self) -> (r: RecvOutcome<T>)
        ensures
            exists|m: ChannelModel<T>|
                observable(self.pred(), m) && r == recv_model(m).1,
    {
        let (mut state, handle) = self.chan.acquire_write();
        let ghost m0 = state@;
        let r = state.try_recv();
        handle.release_write(state);
        proof {
            assert(observable(self.pred(), m0) && r == recv_model(m0).1);
        }
        r
    }

    /// The number of items queued when this call looked; observability
    /// only, the count can change at once.
    pub fn len(&self) -> (n: usize)
        ensures
            exists|m: ChannelModel<T>|
                observable(self.pred(), m) && n == m.queue.len(),
    {
        let handle = self.chan.acquire_read();
        let st = handle.borrow();
        let ghost m0 = st@;
        let n = st.queue.len();
        handle.release_read();
        proof {
            assert(observable(self.pred(), m0) && n == m0.queue.len());
        }
        n
    }

    /// Give the channel up: the consumer's error path. Later sends are
    /// refused rather than filling a queue nobody reads.
    pub fn abandon(self) {
        let (mut state, handle) = self.chan.acquire_write();
        state.disconnected = true;
        handle.release_write(state);
    }

    /// Whether cancellation had been requested when this call looked.
    pub fn cancelled(&self) -> (c: bool)
        ensures
            exists|m: ChannelModel<T>| observable(self.pred(), m) && c == m.cancelled,
    {
        let handle = self.chan.acquire_read();
        let st = handle.borrow();
        let ghost m0 = st@;
        let c = st.cancelled;
        handle.release_read();
        proof {
            assert(observable(self.pred(), m0) && c == m0.cancelled);
        }
        c
    }
}

impl<T> Canceller<T> {
    pub closed spec fn pred(&self) -> BoundPred {
        self.chan.pred()
    }

    /// Request cancellation: terminal and idempotent; later sends and
    /// receives are refused.
    pub fn cancel(&self) {
        let (mut state, handle) = self.chan.acquire_write();
        state.cancelled = true;
        handle.release_write(state);
    }
}

/// Build a channel of the given capacity; the three handles share one
/// queue.
pub fn channel<T>(bound: usize) -> (r: (Sender<T>, Receiver<T>, Canceller<T>))
    requires
        bound >= 1,
    ensures
        r.0.pred() == (BoundPred { bound: bound as int }),
        r.1.pred() == r.0.pred(),
        r.2.pred() == r.0.pred(),
{
    let state = ChannelState {
        queue: Vec::new(),
        bound,
        finished: false,
        cancelled: false,
        disconnected: false,
    };
    let lock = RwLock::new(state, Ghost(BoundPred { bound: bound as int }));
    let chan = Arc::new(lock);
    let chan2 = chan.clone();
    let chan3 = chan.clone();
    (Sender { chan }, Receiver { chan: chan2 }, Canceller { chan: chan3 })
}

/// The state after `k` receive steps.
pub open spec fn recv_steps<T>(m: ChannelModel<T>, k: int) -> ChannelModel<T>
    decreases k,
{
    if k <= 0 {
        m
    } else {
        recv_model(recv_steps(m, k - 1)).0
    }
}

/// Receiving never errs and keeps order on an uncancelled channel: the
/// k-th receive step yields exactly the k-th queued item, and once the
/// queue is drained a finished channel reports completion, never an
/// error.
pub proof fn lemma_recv_in_order<T>(m: ChannelModel<T>, k: int)
    requires
        !m.cancelled,
        0 <= k <= m.queue.len(),
    ensures
        recv_steps(m, k).queue =~= m.queue.subrange(k, m.queue.len() as int),
        recv_steps(m, k).cancelled == m.cancelled,
        recv_steps(m, k).finished == m.finished,
        recv_steps(m, k).disconnected == m.disconnected,
        k < m.queue.len() ==> recv_model(recv_steps(m, k)).1 == RecvOutcome::Received(
            m.queue[k],
        ),
        k == m.queue.len() && m.finished ==> recv_model(recv_steps(m, k)).1
            == RecvOutcome::<T>::Finished,
        k == m.queue.len() && !m.finished && m.disconnected ==> recv_model(recv_steps(m, k)).1
            == RecvOutcome::<T>::Disconnected,
    decreases k,
{
    if k > 0 {
        lemma_recv_in_order(m, k - 1);
        assert(recv_steps(m, k).queue =~= m.queue.subrange(k, m.queue.len() as int));
    }
}

/// A cancelled channel refuses both ends: send hands the item back and
/// receive fails, with the state unchanged.
pub proof fn lemma_cancelled_rejects<T>(m: ChannelModel<T>, t: T)
    requires
        m.cancelled,
    ensures
        send_model(m, t) == (m, SendOutcome::Cancelled(t)),
        recv_model(m) == (m, RecvOutcome::<T>::Cancelled),
{
}

/// Cancellation is terminal: no later step withdraws it.
pub proof fn lemma_cancel_terminal<T>(m: ChannelModel<T>, t: T)
    ensures
        cancel_model(m).cancelled,
        cancel_model(cancel_model(m)) == cancel_model(m),
        send_model(cancel_model(m), t).0.cancelled,
        recv_model(cancel_model(m)).0.cancelled,
        finish_model(cancel_model(m)).cancelled,
{
    assert(cancel_model(cancel_model(m)) =~= cancel_model(m));
}

/// A channel whose peer end is gone refuses new work but lets queued
/// items drain: send hands the item back, and receive fails only once
/// the queue is empty.
pub proof fn lemma_abandoned_detected<T>(m: ChannelModel<T>, t: T)
    requires
        !m.cancelled,
    ensures
        abandon_model(m).disconnected,
        send_model(abandon_model(m), t).1 == SendOutcome::Disconnected(t),
        m.queue.len() > 0 ==> recv_model(abandon_model(m)).1 == RecvOutcome::Received(m.queue[0]),
        m.queue.len() == 0 && !m.finished ==> recv_model(abandon_model(m)).1
            == RecvOutcome::<T>::Disconnected,
{
}

/// Sending keeps every queued item and appends the new one at the end:
/// nothing is lost or reordered on the way in.
pub proof fn lemma_send_appends<T>(m: ChannelModel<T>, t: T)
    requires
        !m.cancelled,
        !m.disconnected,
        m.queue.len() < m.bound,
    ensures
        send_model(m, t).1 == SendOutcome::<T>::Sent,
        send_model(m, t).0.queue == m.queue.push(t),
        send_model(m, t).0.queue.len() <= m.bound,
{
}

} // verus!
