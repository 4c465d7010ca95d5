//! The rendezvous between visitors and data channels.
//!
//! A pool holds two bounded first-in-first-out queues: visitors that reached
//! the service's public address, and data channels that the client dialled
//! back. Pairing takes the head of each queue, so the visitor that arrived
//! `i`-th is forwarded over the data channel that arrived `i`-th. A full queue
//! refuses the newcomer, which is how backpressure reaches the listener.

use vstd::prelude::*;
use std::collections::VecDeque;

verus! {

/// Capacity of the visitor queue; the data-channel queue holds twice as many.
pub const CHAN_SIZE: usize = 2048;

/// Number of data channels a client is asked to open ahead of any visitor.
pub const POOL_SIZE: usize = 64;

/// Why a queue did not take an item. The item is handed back.
#[derive(Debug, PartialEq, Eq)]
pub enum PushError<T> {
    /// The queue is at capacity: try again after a pairing.
    Full(T),
    /// The pool was closed: its control channel is gone.
    Closed(T),
}

/// The two queues of one control channel.
pub struct ConnectionPool<V, D> {
    visitors: VecDeque<V>,
    data_chs: VecDeque<D>,
    closed: bool,
    arrived_visitors: Ghost<Seq<V>>,
    arrived_data_chs: Ghost<Seq<D>>,
    paired: Ghost<nat>,
}

/// What a pool holds, and what it has seen.
pub struct PoolView<V, D> {
    /// Visitors waiting, oldest first.
    pub visitors: Seq<V>,
    /// Data channels waiting, oldest first.
    pub data_chs: Seq<D>,
    /// Whether the pool was closed.
    pub closed: bool,
    /// Every visitor the pool ever took, in arrival order.
    pub arrived_visitors: Seq<V>,
    /// Every data channel the pool ever took, in arrival order.
    pub arrived_data_chs: Seq<D>,
    /// How many pairs the pool has handed out.
    pub paired: nat,
}

/// The first `min(|visitors|, |data_chs|)` visitors, each with the data
/// channel at the same position.
pub open spec fn paired_in_order<V, D>(visitors: Seq<V>, data_chs: Seq<D>) -> Seq<(V, D)> {
    Seq::new(
        if visitors.len() <= data_chs.len() {
            visitors.len()
        } else {
            data_chs.len()
        },
        |i: int| (visitors[i], data_chs[i]),
    )
}

impl<V, D> PoolView<V, D> {
    /// The invariant of a pool: the queues respect their capacities; an open
    /// pool's queues hold exactly the arrivals that have not been paired yet,
    /// in arrival order; a closed pool holds nothing.
    pub open spec fn wf(self) -> bool {
        &&& self.visitors.len() <= CHAN_SIZE
        &&& self.data_chs.len() <= 2 * CHAN_SIZE
        &&& self.paired <= self.arrived_visitors.len()
        &&& self.paired <= self.arrived_data_chs.len()
        &&& !self.closed ==> self.visitors == self.arrived_visitors.skip(self.paired as int)
        &&& !self.closed ==> self.data_chs == self.arrived_data_chs.skip(self.paired as int)
        &&& self.closed ==> self.visitors.len() == 0 && self.data_chs.len() == 0
    }

    /// An open pool that has seen nothing yet.
    pub open spec fn fresh() -> PoolView<V, D> {
        PoolView {
            visitors: Seq::empty(),
            data_chs: Seq::empty(),
            closed: false,
            arrived_visitors: Seq::empty(),
            arrived_data_chs: Seq::empty(),
            paired: 0,
        }
    }

    /// This pool with `visitor` queued.
    pub open spec fn with_visitor(self, visitor: V) -> PoolView<V, D> {
        PoolView {
            visitors: self.visitors.push(visitor),
            arrived_visitors: self.arrived_visitors.push(visitor),
            ..self
        }
    }

    /// This pool with `data_ch` queued.
    pub open spec fn with_data_channel(self, data_ch: D) -> PoolView<V, D> {
        PoolView {
            data_chs: self.data_chs.push(data_ch),
            arrived_data_chs: self.arrived_data_chs.push(data_ch),
            ..self
        }
    }

    /// This pool with the visitors `visitors` queued one after the other.
    pub open spec fn with_visitors(self, visitors: Seq<V>) -> PoolView<V, D>
        decreases visitors.len(),
    {
        if visitors.len() == 0 {
            self
        } else {
            self.with_visitors(visitors.drop_last()).with_visitor(visitors.last())
        }
    }

    /// This pool with the data channels `data_chs` queued one after the other.
    pub open spec fn with_data_channels(self, data_chs: Seq<D>) -> PoolView<V, D>
        decreases data_chs.len(),
    {
        if data_chs.len() == 0 {
            self
        } else {
            self.with_data_channels(data_chs.drop_last()).with_data_channel(data_chs.last())
        }
    }

    /// This pool after `n` pairs were taken from the heads of its queues.
    pub open spec fn without_pairs(self, n: nat) -> PoolView<V, D> {
        PoolView {
            visitors: self.visitors.skip(n as int),
            data_chs: self.data_chs.skip(n as int),
            paired: self.paired + n,
            ..self
        }
    }

    /// This pool closed and emptied.
    pub open spec fn shut(self) -> PoolView<V, D> {
        PoolView { visitors: Seq::empty(), data_chs: Seq::empty(), closed: true, ..self }
    }
}

proof fn lemma_with_visitors<V, D>(pool: PoolView<V, D>, visitors: Seq<V>)
    ensures
        pool.with_visitors(visitors) == (PoolView {
            visitors: pool.visitors + visitors,
            arrived_visitors: pool.arrived_visitors + visitors,
            ..pool
        }),
    decreases visitors.len(),
{
    if visitors.len() == 0 {
        assert(pool.visitors + visitors =~= pool.visitors);
        assert(pool.arrived_visitors + visitors =~= pool.arrived_visitors);
    } else {
        lemma_with_visitors(pool, visitors.drop_last());
        assert((pool.visitors + visitors.drop_last()).push(visitors.last()) =~= pool.visitors
            + visitors);
        assert((pool.arrived_visitors + visitors.drop_last()).push(visitors.last())
            =~= pool.arrived_visitors + visitors);
    }
}

proof fn lemma_with_data_channels<V, D>(pool: PoolView<V, D>, data_chs: Seq<D>)
    ensures
        pool.with_data_channels(data_chs) == (PoolView {
            data_chs: pool.data_chs + data_chs,
            arrived_data_chs: pool.arrived_data_chs + data_chs,
            ..pool
        }),
    decreases data_chs.len(),
{
    if data_chs.len() == 0 {
        assert(pool.data_chs + data_chs =~= pool.data_chs);
        assert(pool.arrived_data_chs + data_chs =~= pool.arrived_data_chs);
    } else {
        lemma_with_data_channels(pool, data_chs.drop_last());
        assert((pool.data_chs + data_chs.drop_last()).push(data_chs.last()) =~= pool.data_chs
            + data_chs);
        assert((pool.arrived_data_chs + data_chs.drop_last()).push(data_chs.last())
            =~= pool.arrived_data_chs + data_chs);
    }
}

/// When `n` visitors have been taken in by a fresh pool, none refused, and
/// then `n` data channels, the pool is well formed and its pairing loop hands
/// out `n` pairs: the `i`-th visitor with the `i`-th data channel. Nothing is
/// left waiting.
pub proof fn pairs_follow_arrival_order<V, D>(visitors: Seq<V>, data_chs: Seq<D>)
    requires
        visitors.len() == data_chs.len(),
        visitors.len() <= CHAN_SIZE,
    ensures
        ({
            let pool = PoolView::<V, D>::fresh().with_visitors(visitors).with_data_channels(
                data_chs,
            );
            let pairs = paired_in_order(pool.visitors, pool.data_chs);
            &&& pool.wf()
            &&& pairs.len() == visitors.len()
            &&& forall|i: int| 0 <= i < pairs.len() ==> #[trigger] pairs[i] == (visitors[i], data_chs[i])
            &&& pool.without_pairs(pairs.len()).visitors.len() == 0
            &&& pool.without_pairs(pairs.len()).data_chs.len() == 0
            &&& pool.without_pairs(pairs.len()).wf()
        }),
{
    let fresh = PoolView::<V, D>::fresh();
    lemma_with_visitors(fresh, visitors);
    lemma_with_data_channels(fresh.with_visitors(visitors), data_chs);
    let pool = fresh.with_visitors(visitors).with_data_channels(data_chs);
    assert(pool.visitors =~= visitors);
    assert(pool.data_chs =~= data_chs);
    assert(pool.arrived_visitors =~= visitors);
    assert(pool.arrived_data_chs =~= data_chs);
    assert(pool.arrived_visitors.skip(0) =~= visitors);
    assert(pool.arrived_data_chs.skip(0) =~= data_chs);
    let n = visitors.len();
    let rest = pool.without_pairs(n);
    assert(rest.visitors =~= rest.arrived_visitors.skip(rest.paired as int));
    assert(rest.data_chs =~= rest.arrived_data_chs.skip(rest.paired as int));
}

impl<V, D> View for ConnectionPool<V, D> {
    type V = PoolView<V, D>;

    closed spec fn view(&self) -> PoolView<V, D> {
        PoolView {
            visitors: self.visitors@,
            data_chs: self.data_chs@,
            closed: self.closed,
            arrived_visitors: self.arrived_visitors@,
            arrived_data_chs: self.arrived_data_chs@,
            paired: self.paired@,
        }
    }
}

impl<V, D> ConnectionPool<V, D> {
    /// The pool's invariant: see [`PoolView::wf`].
    pub open spec fn wf(&self) -> bool {
        self@.wf()
    }

    /// An open pool with both queues empty.
    pub fn new() -> (pool: ConnectionPool<V, D>)
        ensures
            pool.wf(),
            pool@ == PoolView::<V, D>::fresh(),
    {
        let pool = ConnectionPool {
            visitors: VecDeque::new(),
            data_chs: VecDeque::new(),
            closed: false,
            arrived_visitors: Ghost(Seq::empty()),
            arrived_data_chs: Ghost(Seq::empty()),
            paired: Ghost(0),
        };
        assert(pool@.arrived_visitors.skip(0) =~= pool@.visitors);
        assert(pool@.arrived_data_chs.skip(0) =~= pool@.data_chs);
        pool
    }

    /// Whether the pool was closed.
    pub fn is_closed(&self) -> (closed: bool)
        ensures
            closed == self@.closed,
    {
        self.closed
    }

    /// Number of visitors waiting for a data channel.
    pub fn visitors_waiting(&self) -> (n: usize)
        ensures
            n == self@.visitors.len(),
    {
        self.visitors.len()
    }

    /// Number of data channels waiting for a visitor.
    pub fn data_channels_waiting(&self) -> (n: usize)
        ensures
            n == self@.data_chs.len(),
    {
        self.data_chs.len()
    }

    /// Queues a visitor behind those already waiting.
    ///
    /// A closed pool and a pool with [`CHAN_SIZE`] visitors waiting hand the
    /// visitor back and stay as they are.
    pub fn push_visitor(&mut self, visitor: V) -> (r: Result<(), PushError<V>>)
        requires
            old(self).wf(),
        ensures
            final(self).wf(),
            old(self)@.closed ==> r == Err::<(), PushError<V>>(PushError::Closed(visitor))
                && final(self)@ == old(self)@,
            !old(self)@.closed && old(self)@.visitors.len() == CHAN_SIZE ==> r == Err::<
                (),
                PushError<V>,
            >(PushError::Full(visitor)) && final(self)@ == old(self)@,
            !old(self)@.closed && old(self)@.visitors.len() < CHAN_SIZE ==> r.is_ok()
                && final(self)@ == old(self)@.with_visitor(visitor),
    {
        if self.closed {
            return Err(PushError::Closed(visitor));
        }
        if self.visitors.len() >= CHAN_SIZE {
            return Err(PushError::Full(visitor));
        }
        proof {
            assert(self.arrived_visitors@.push(visitor).skip(self.paired@ as int)
                =~= self.visitors@.push(visitor));
            self.arrived_visitors@ = self.arrived_visitors@.push(visitor);
        }
        self.visitors.push_back(visitor);
        Ok(())
    }

    /// Queues a data channel behind those already waiting.
    ///
    /// A closed pool and a pool with twice [`CHAN_SIZE`] data channels
    /// waiting hand the data channel back and stay as they are.
    pub fn push_data_channel(&mut self, data_ch: D) -> (r: Result<(), PushError<D>>)
        requires
            old(self).wf(),
        ensures
            final(self).wf(),
            old(self)@.closed ==> r == Err::<(), PushError<D>>(PushError::Closed(data_ch))
                && final(self)@ == old(self)@,
            !old(self)@.closed && old(self)@.data_chs.len() == 2 * CHAN_SIZE ==> r == Err::<
                (),
                PushError<D>,
            >(PushError::Full(data_ch)) && final(self)@ == old(self)@,
            !old(self)@.closed && old(self)@.data_chs.len() < 2 * CHAN_SIZE ==> r.is_ok()
                && final(self)@ == old(self)@.with_data_channel(data_ch),
    {
        if self.closed {
            return Err(PushError::Closed(data_ch));
        }
        if self.data_chs.len() >= 2 * CHAN_SIZE {
            return Err(PushError::Full(data_ch));
        }
        proof {
            assert(self.arrived_data_chs@.push(data_ch).skip(self.paired@ as int)
                =~= self.data_chs@.push(data_ch));
            self.arrived_data_chs@ = self.arrived_data_chs@.push(data_ch);
        }
        self.data_chs.push_back(data_ch);
        Ok(())
    }

    /// Takes the oldest waiting visitor together with the oldest waiting data
    /// channel, when both queues hold one.
    ///
    /// The pair handed out as the `k`-th is the visitor that arrived `k`-th
    /// with the data channel that arrived `k`-th. With either queue empty, and
    /// so on every closed pool, nothing is taken.
    pub fn next_pair(&mut self) -> (r: Option<(V, D)>)
        requires
            old(self).wf(),
        ensures
            final(self).wf(),
            old(self)@.visitors.len() > 0 && old(self)@.data_chs.len() > 0 ==> r == Some(
                (old(self)@.visitors[0], old(self)@.data_chs[0]),
            ) && r == Some(
                (
                    old(self)@.arrived_visitors[old(self)@.paired as int],
                    old(self)@.arrived_data_chs[old(self)@.paired as int],
                ),
            ) && final(self)@ == old(self)@.without_pairs(1),
            old(self)@.visitors.len() == 0 || old(self)@.data_chs.len() == 0 ==> r.is_none()
                && final(self)@ == old(self)@,
            old(self)@.closed ==> r.is_none() && final(self)@ == old(self)@,
    {
        if self.visitors.len() == 0 || self.data_chs.len() == 0 {
            return None;
        }
        let v = self.visitors.pop_front();
        let d = self.data_chs.pop_front();
        proof {
            let k = self.paired@ as int;
            assert(self.arrived_visitors@.skip(k)[0] == self.arrived_visitors@[k]);
            assert(self.arrived_data_chs@.skip(k)[0] == self.arrived_data_chs@[k]);
            assert(self.arrived_visitors@.skip(k + 1) =~= self.arrived_visitors@.skip(
                k,
            ).drop_first());
            assert(self.arrived_data_chs@.skip(k + 1) =~= self.arrived_data_chs@.skip(
                k,
            ).drop_first());
            assert(self.visitors@ =~= old(self).visitors@.skip(1));
            assert(self.data_chs@ =~= old(self).data_chs@.skip(1));
            self.paired@ = self.paired@ + 1;
        }
        match (v, d) {
            (Some(v), Some(d)) => Some((v, d)),
            _ => None,
        }
    }

    /// Runs the pairing loop for as long as both queues hold an item, and
    /// returns the pairs in the order in which they were made: each is ready
    /// for a forwarder of its own.
    pub fn run(&mut self) -> (pairs: Vec<(V, D)>)
        requires
            old(self).wf(),
        ensures
            final(self).wf(),
            pairs@ == paired_in_order(old(self)@.visitors, old(self)@.data_chs),
            forall|i: int|
                0 <= i < pairs@.len() ==> #[trigger] pairs@[i] == (
                    old(self)@.arrived_visitors[old(self)@.paired + i],
                    old(self)@.arrived_data_chs[old(self)@.paired + i],
                ),
            final(self)@ == old(self)@.without_pairs(pairs@.len()),
            old(self)@.closed ==> pairs@.len() == 0 && final(self)@ == old(self)@,
    {
        let mut pairs: Vec<(V, D)> = Vec::new();
        assert(self@.visitors.skip(0) =~= self@.visitors);
        assert(self@.data_chs.skip(0) =~= self@.data_chs);
        while self.visitors.len() > 0 && self.data_chs.len() > 0
            invariant
                self.wf(),
                old(self).wf(),
                pairs@.len() <= old(self)@.visitors.len(),
                pairs@.len() <= old(self)@.data_chs.len(),
                forall|i: int|
                    0 <= i < pairs@.len() ==> #[trigger] pairs@[i] == (
                        old(self)@.visitors[i],
                        old(self)@.data_chs[i],
                    ),
                forall|i: int|
                    0 <= i < pairs@.len() ==> #[trigger] pairs@[i] == (
                        old(self)@.arrived_visitors[old(self)@.paired + i],
                        old(self)@.arrived_data_chs[old(self)@.paired + i],
                    ),
                self@ == old(self)@.without_pairs(pairs@.len()),
            decreases self@.visitors.len(),
        {
            let ghost n = pairs@.len() as int;
            let ghost before = self@;
            match self.next_pair() {
                Some(pair) => {
                    proof {
                        assert(old(self)@.visitors.skip(n)[0] == old(self)@.visitors[n]);
                        assert(old(self)@.data_chs.skip(n)[0] == old(self)@.data_chs[n]);
                        assert(old(self)@.visitors.skip(n).skip(1) =~= old(self)@.visitors.skip(
                            n + 1,
                        ));
                        assert(old(self)@.data_chs.skip(n).skip(1) =~= old(self)@.data_chs.skip(
                            n + 1,
                        ));
                    }
                    pairs.push(pair);
                },
                None => {},
            }
        }
        assert(pairs@ =~= paired_in_order(old(self)@.visitors, old(self)@.data_chs));
        assert(old(self)@.visitors.skip(0) =~= old(self)@.visitors);
        assert(old(self)@.data_chs.skip(0) =~= old(self)@.data_chs);
        pairs
    }

    /// Closes the pool: whatever still waits is dropped, and from now on
    /// nothing is taken in and no pair is handed out.
    pub fn close(&mut self)
        requires
            old(self).wf(),
        ensures
            final(self).wf(),
            final(self)@ == old(self)@.shut(),
    {
        self.visitors.clear();
        self.data_chs.clear();
        self.closed = true;
    }
}

} // verus!
