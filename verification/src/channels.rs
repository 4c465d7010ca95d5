//! The control channels of a server, reachable by service digest and by nonce.
//!
//! At most one control channel is installed per service digest and per nonce.
//! Installing a channel for a digest that already has one evicts the old one:
//! its pool is closed and dropped, so nothing can be queued into it or paired
//! from it again.

use vstd::prelude::*;
use crate::config::ServerServiceConfig;
use crate::control_channel::{
    bind_step, visitor_step, BindAction, ControlChannel, ControlChannelHandle, ControlPhase,
    ControlView, VisitorAction,
};
use crate::multi_map::MultiMap;
use crate::pool::{PoolView, PushError, CHAN_SIZE};
use crate::protocol::Digest;

verus! {

/// The control channels of a server.
pub struct ControlChannelMap<V, D> {
    map: MultiMap<ControlChannelHandle<V, D>>,
}

/// What came of installing a control channel.
pub enum Installed {
    /// The channel is installed. `control` is the state for the task that
    /// runs it; `evicted` says whether an older channel of the same service
    /// had to go.
    Ready { control: ControlChannel, evicted: bool },
    /// The nonce already names the channel of another service, so nothing was
    /// installed. An older channel of the same service was evicted all the
    /// same.
    NonceInUse { evicted: bool },
}

/// What came of handing a connection to the pool of a control channel. Where
/// the pool did not take it, the connection is handed back.
#[derive(Debug, PartialEq, Eq)]
pub enum Routed<T> {
    /// The connection waits in the pool.
    Queued,
    /// No control channel is installed under the nonce.
    UnknownNonce(T),
    /// The pool's queue is full: try again after a pairing.
    Busy(T),
    /// The pool was closed.
    Closed(T),
}

/// What came of a visitor that a control channel accepted. Where the visitor
/// was not queued, it is handed back.
#[derive(Debug, PartialEq, Eq)]
pub enum Admission<V> {
    /// The visitor waits in the pool: ask the client for one data channel.
    Admitted,
    /// The pool's visitor queue is full: ask the client for one data channel,
    /// wait for a pairing and queue the visitor then.
    Backpressure(V),
    /// The control channel has ended: drop the visitor and leave the accept
    /// loop.
    Exit(V),
}

/// Whether some control channel of `channels` is stored under `nonce`.
pub open spec fn nonce_in_use<V, D>(
    channels: Map<Seq<u8>, (Seq<u8>, PoolView<V, D>)>,
    nonce: Seq<u8>,
) -> bool {
    exists|k1: Seq<u8>| #[trigger] channels.contains_key(k1) && channels[k1].0 == nonce
}

/// The invariant of a server's control channels, as far as it shows in their
/// view: no nonce names two channels, and every pool is well formed.
pub open spec fn channels_valid<V, D>(channels: Map<Seq<u8>, (Seq<u8>, PoolView<V, D>)>) -> bool {
    &&& forall|a: Seq<u8>, b: Seq<u8>|
        #![trigger channels.contains_key(a), channels.contains_key(b)]
        channels.contains_key(a) && channels.contains_key(b) && channels[a].0 == channels[b].0
            ==> a == b
    &&& forall|k1: Seq<u8>| #[trigger] channels.contains_key(k1) ==> channels[k1].1.wf()
}

/// The control channels after a client was authenticated for the service
/// `service_digest` under `nonce`: the service's older channel, if any, is
/// gone, and a channel with a fresh pool stands in its place unless the nonce
/// names the channel of another service.
pub open spec fn after_install<V, D>(
    channels: Map<Seq<u8>, (Seq<u8>, PoolView<V, D>)>,
    service_digest: Seq<u8>,
    nonce: Seq<u8>,
) -> Map<Seq<u8>, (Seq<u8>, PoolView<V, D>)> {
    let evicted = channels.remove(service_digest);
    if nonce_in_use(evicted, nonce) {
        evicted
    } else {
        evicted.insert(service_digest, (nonce, PoolView::fresh()))
    }
}

/// Two handshakes in a row for one service, both accepted, leave that service
/// with exactly one control channel, the second: it is stored under the second
/// nonce with a fresh pool, the first nonce names no channel any more, and the
/// channels of other services are as they were.
pub proof fn second_install_replaces_first<V, D>(
    channels: Map<Seq<u8>, (Seq<u8>, PoolView<V, D>)>,
    service_digest: Seq<u8>,
    first: Seq<u8>,
    second: Seq<u8>,
)
    requires
        channels_valid(channels),
        !nonce_in_use(channels.remove(service_digest), first),
        !nonce_in_use(after_install(channels, service_digest, first).remove(service_digest), second),
    ensures
        ({
            let end = after_install(
                after_install(channels, service_digest, first),
                service_digest,
                second,
            );
            &&& channels_valid(end)
            &&& end.contains_key(service_digest)
            &&& end[service_digest] == (second, PoolView::<V, D>::fresh())
            &&& end.remove(service_digest) == channels.remove(service_digest)
            &&& first != second ==> !nonce_in_use(end, first)
        }),
{
    let others = channels.remove(service_digest);
    let mid = after_install(channels, service_digest, first);
    assert(mid == others.insert(service_digest, (first, PoolView::<V, D>::fresh())));
    assert(mid.remove(service_digest) =~= others);
    let end = after_install(mid, service_digest, second);
    assert(end == others.insert(service_digest, (second, PoolView::<V, D>::fresh())));
    assert(end.remove(service_digest) =~= others);
    assert forall|a: Seq<u8>, b: Seq<u8>|
        #![trigger end.contains_key(a), end.contains_key(b)]
        end.contains_key(a) && end.contains_key(b) && end[a].0 == end[b].0 implies a == b by {
        if a == service_digest && b != service_digest {
            assert(others.contains_key(b) && others[b].0 == second);
        } else if a != service_digest && b == service_digest {
            assert(others.contains_key(a) && others[a].0 == second);
        } else if a != service_digest && b != service_digest {
            assert(channels.contains_key(a) && channels.contains_key(b));
        }
    }
    assert forall|k1: Seq<u8>| #[trigger] end.contains_key(k1) implies end[k1].1.wf() by {
        if k1 != service_digest {
            assert(channels.contains_key(k1));
        } else {
            assert(PoolView::<V, D>::fresh().arrived_visitors.skip(0) =~= Seq::<V>::empty());
            assert(PoolView::<V, D>::fresh().arrived_data_chs.skip(0) =~= Seq::<D>::empty());
        }
    }
    if first != second && nonce_in_use(end, first) {
        let k1 = choose|k1: Seq<u8>| #[trigger] end.contains_key(k1) && end[k1].0 == first;
        assert(others.contains_key(k1) && others[k1].0 == first);
    }
}

/// Once a control channel is installed for a service, the nonce of the
/// channel that the service had before names no control channel: nothing can
/// be queued into the evicted channel's pool or paired from it again.
pub proof fn evicted_nonce_is_gone<V, D>(
    channels: Map<Seq<u8>, (Seq<u8>, PoolView<V, D>)>,
    service_digest: Seq<u8>,
    nonce: Seq<u8>,
)
    requires
        channels_valid(channels),
        channels.contains_key(service_digest),
        channels[service_digest].0 != nonce,
    ensures
        !nonce_in_use(after_install(channels, service_digest, nonce), channels[service_digest].0),
{
    let old_nonce = channels[service_digest].0;
    let end = after_install(channels, service_digest, nonce);
    if nonce_in_use(end, old_nonce) {
        let k1 = choose|k1: Seq<u8>| #[trigger] end.contains_key(k1) && end[k1].0 == old_nonce;
        assert(channels.contains_key(k1) && channels.contains_key(service_digest));
    }
}

spec fn pools_of<V, D>(raw: Map<Seq<u8>, (Seq<u8>, ControlChannelHandle<V, D>)>) -> Map<
    Seq<u8>,
    (Seq<u8>, PoolView<V, D>),
> {
    Map::new(|k: Seq<u8>| raw.contains_key(k), |k: Seq<u8>| (raw[k].0, raw[k].1@))
}

impl<V, D> View for ControlChannelMap<V, D> {
    type V = Map<Seq<u8>, (Seq<u8>, PoolView<V, D>)>;

    /// Each service digest that has a control channel, with the channel's
    /// nonce and pool.
    closed spec fn view(&self) -> Map<Seq<u8>, (Seq<u8>, PoolView<V, D>)> {
        pools_of(self.map@)
    }
}

impl<V, D> ControlChannelMap<V, D> {
    /// The part of the invariant that the view does not show: the index by
    /// service digest and the index by nonce hold the same entries.
    pub closed spec fn index_wf(&self) -> bool {
        self.map.wf()
    }

    /// The invariant: the two indexes agree, and [`channels_valid`] holds.
    pub open spec fn wf(&self) -> bool {
        self.index_wf() && channels_valid(self@)
    }

    proof fn lemma_nonce_in_use(&self, nonce: Seq<u8>)
        ensures
            nonce_in_use(self@, nonce) == self.map.contains_k2(nonce),
    {
        if nonce_in_use(self@, nonce) {
            let k1 = choose|k1: Seq<u8>| #[trigger] self@.contains_key(k1) && self@[k1].0 == nonce;
            assert(self.map@.contains_key(k1) && self.map@[k1].0 == nonce);
        }
        if self.map.contains_k2(nonce) {
            let k1 = self.map.k1_of(nonce);
            assert(self@.contains_key(k1) && self@[k1].0 == nonce);
        }
    }

    proof fn lemma_valid(&self)
        requires
            self.map.wf(),
            forall|k1: Seq<u8>| #[trigger] self.map@.contains_key(k1) ==> self.map@[k1].1.wf(),
        ensures
            self.wf(),
    {
        self.map.both_keys_reach_one_entry();
        assert forall|a: Seq<u8>, b: Seq<u8>|
            #![trigger self@.contains_key(a), self@.contains_key(b)]
            self@.contains_key(a) && self@.contains_key(b) && self@[a].0 == self@[b].0 implies a
            == b by {
            assert(self.map.contains_k1(a) && self.map.contains_k1(b));
        }
        assert forall|k1: Seq<u8>| #[trigger] self@.contains_key(k1) implies self@[k1].1.wf() by {
            assert(self.map@.contains_key(k1));
        }
    }

    proof fn lemma_handles_wf(&self)
        requires
            self.wf(),
        ensures
            forall|k1: Seq<u8>| #[trigger] self.map@.contains_key(k1) ==> self.map@[k1].1.wf(),
    {
        assert forall|k1: Seq<u8>| #[trigger] self.map@.contains_key(k1) implies self.map@[k1].1.wf() by {
            assert(self@.contains_key(k1));
        }
    }

    /// What holds of the table once the handle stored under `nonce`, if
    /// there is one, was changed in place and is still well formed: the table
    /// is well formed, that one entry of its view stands for the changed
    /// handle, and all the others are as they were.
    proof fn lemma_one_handle_changed(before: Self, after: Self, nonce: Seq<u8>)
        requires
            before.wf(),
            after.map.wf(),
            before.map.contains_k2(nonce) ==> {
                let k = before.map.k1_of(nonce);
                &&& after.map@ == before.map@.insert(k, (nonce, after.map@[k].1))
                &&& after.map@[k].1.wf()
            },
            !before.map.contains_k2(nonce) ==> after.map@ == before.map@,
        ensures
            after.wf(),
            !nonce_in_use(before@, nonce) ==> after@ == before@,
            nonce_in_use(before@, nonce) ==> {
                let k = before.map.k1_of(nonce);
                &&& before@.contains_key(k)
                &&& before@[k] == (nonce, before.map@[k].1@)
                &&& after@ == before@.insert(k, (nonce, after.map@[k].1@))
                &&& after.map@[k].1@ == before.map@[k].1@ ==> after@ == before@
                &&& forall|k1: Seq<u8>| #[trigger]
                    before@.contains_key(k1) && before@[k1].0 == nonce ==> k1 == k
            },
    {
        before.lemma_handles_wf();
        before.lemma_nonce_in_use(nonce);
        before.map.both_keys_reach_one_entry();
        let k = before.map.k1_of(nonce);
        if nonce_in_use(before@, nonce) {
            assert(before.map.contains_k1(k));
            assert(after@ =~= before@.insert(k, (nonce, after.map@[k].1@)));
            assert forall|k1: Seq<u8>|
                before@.contains_key(k1) && before@[k1].0 == nonce implies k1 == k by {
                assert(before.map.contains_k1(k1));
            }
            if after.map@[k].1@ == before.map@[k].1@ {
                assert(after@ =~= before@);
            }
            assert forall|k1: Seq<u8>| #[trigger] after.map@.contains_key(k1) implies after.map@[k1].1.wf() by {
                if k1 != k {
                    assert(before.map@.contains_key(k1));
                }
            }
        } else {
            assert(after@ =~= before@);
        }
        after.lemma_valid();
    }

    /// No control channels.
    pub fn new() -> (channels: ControlChannelMap<V, D>)
        ensures
            channels.wf(),
            channels@ == Map::<Seq<u8>, (Seq<u8>, PoolView<V, D>)>::empty(),
    {
        let channels = ControlChannelMap { map: MultiMap::new() };
        assert(channels@ =~= Map::<Seq<u8>, (Seq<u8>, PoolView<V, D>)>::empty());
        channels
    }

    /// Whether the service `service_digest` has a control channel.
    pub fn contains_service(&self, service_digest: &Digest) -> (found: bool)
        requires
            self.wf(),
        ensures
            found == self@.contains_key(service_digest@),
    {
        self.map.get1(service_digest).is_some()
    }

    /// Whether a control channel is stored under `nonce`.
    pub fn contains_nonce(&self, nonce: &Digest) -> (found: bool)
        requires
            self.wf(),
        ensures
            found == nonce_in_use(self@, nonce@),
    {
        proof {
            self.lemma_nonce_in_use(nonce@);
        }
        self.map.get2(nonce).is_some()
    }

    /// The handle of the service `service_digest`.
    pub fn get_by_service(&self, service_digest: &Digest) -> (r: Option<
        &ControlChannelHandle<V, D>,
    >)
        requires
            self.wf(),
        ensures
            match r {
                Some(handle) => self@.contains_key(service_digest@) && self@[service_digest@].1
                    == handle@,
                None => !self@.contains_key(service_digest@),
            },
    {
        self.map.get1(service_digest)
    }

    /// The handle stored under `nonce`.
    pub fn get_by_nonce(&self, nonce: &Digest) -> (r: Option<&ControlChannelHandle<V, D>>)
        requires
            self.wf(),
        ensures
            match r {
                Some(handle) => exists|k1: Seq<u8>| #[trigger]
                    self@.contains_key(k1) && self@[k1] == (nonce@, handle@),
                None => !nonce_in_use(self@, nonce@),
            },
    {
        proof {
            self.lemma_nonce_in_use(nonce@);
            self.map.both_keys_reach_one_entry();
        }
        let r = self.map.get2(nonce);
        proof {
            if r.is_some() {
                let k1 = self.map.k1_of(nonce@);
                assert(self@.contains_key(k1) && self@[k1] == (nonce@, r.unwrap()@));
            }
        }
        r
    }

    /// Installs a control channel for the service `service_digest` under
    /// `nonce`, in place of the one the service may already have. The evicted
    /// channel's pool is closed and dropped.
    pub fn install(&mut self, service_digest: Digest, nonce: Digest, service: ServerServiceConfig) -> (r:
        Installed)
        requires
            old(self).wf(),
        ensures
            final(self).wf(),
            final(self)@ == after_install(old(self)@, service_digest@, nonce@),
            match r {
                Installed::Ready { control, evicted } => {
                    &&& !nonce_in_use(old(self)@.remove(service_digest@), nonce@)
                    &&& evicted == old(self)@.contains_key(service_digest@)
                    &&& control@ == ControlView::fresh(service, nonce@)
                },
                Installed::NonceInUse { evicted } => {
                    &&& nonce_in_use(old(self)@.remove(service_digest@), nonce@)
                    &&& evicted == old(self)@.contains_key(service_digest@)
                },
            },
    {
        proof {
            self.lemma_handles_wf();
        }
        let evicted = match self.map.remove1(&service_digest) {
            Some(mut handle) => {
                handle.close();
                true
            },
            None => false,
        };
        proof {
            assert(self@ =~= old(self)@.remove(service_digest@));
            self.lemma_nonce_in_use(nonce@);
        }
        let ghost middle = self.map@;
        let (handle, control) = ControlChannelHandle::new(service, nonce);
        match self.map.insert(service_digest, nonce, handle) {
            Ok(()) => {
                proof {
                    assert(self@ =~= old(self)@.remove(service_digest@).insert(
                        service_digest@,
                        (nonce@, PoolView::fresh()),
                    ));
                    self.lemma_valid();
                }
                Installed::Ready { control, evicted }
            },
            Err(_) => {
                proof {
                    self.lemma_valid();
                }
                Installed::NonceInUse { evicted }
            },
        }
    }

    /// Takes the control channel stored under `nonce` out of the table and
    /// closes its pool. Says whether there was one.
    pub fn remove(&mut self, nonce: &Digest) -> (removed: bool)
        requires
            old(self).wf(),
        ensures
            final(self).wf(),
            removed == nonce_in_use(old(self)@, nonce@),
            !nonce_in_use(final(self)@, nonce@),
            forall|k1: Seq<u8>|
                old(self)@.contains_key(k1) && old(self)@[k1].0 == nonce@ ==> final(self)@ == old(self)@.remove(k1),
            !removed ==> final(self)@ == old(self)@,
    {
        proof {
            self.lemma_handles_wf();
            self.lemma_nonce_in_use(nonce@);
            self.map.both_keys_reach_one_entry();
        }
        let removed = match self.map.remove2(nonce) {
            Some(mut handle) => {
                handle.close();
                true
            },
            None => false,
        };
        proof {
            self.lemma_nonce_in_use(nonce@);
            if removed {
                let k1 = old(self).map.k1_of(nonce@);
                assert(self@ =~= old(self)@.remove(k1));
                assert forall|k: Seq<u8>|
                    old(self)@.contains_key(k) && old(self)@[k].0 == nonce@ implies k == k1 by {
                    assert(old(self).map.contains_k1(k));
                }
            } else {
                assert(self@ =~= old(self)@);
            }
            self.lemma_valid();
        }
        removed
    }

    /// Hands a data channel that announced `nonce` to the pool of the control
    /// channel stored under that nonce. A nonce that names no control channel
    /// changes nothing in any pool.
    pub fn route_data_channel(&mut self, nonce: &Digest, conn: D) -> (r: Routed<D>)
        requires
            old(self).wf(),
        ensures
            final(self).wf(),
            !nonce_in_use(old(self)@, nonce@) ==> r == Routed::UnknownNonce(conn) && final(self)@
                == old(self)@,
            forall|k1: Seq<u8>|
                old(self)@.contains_key(k1) && old(self)@[k1].0 == nonce@ ==> {
                    let pool = old(self)@[k1].1;
                    if pool.closed {
                        r == Routed::Closed(conn) && final(self)@ == old(self)@
                    } else if pool.data_chs.len() == 2 * CHAN_SIZE {
                        r == Routed::Busy(conn) && final(self)@ == old(self)@
                    } else {
                        r == Routed::<D>::Queued && final(self)@ == old(self)@.insert(
                            k1,
                            (nonce@, pool.with_data_channel(conn)),
                        )
                    }
                },
    {
        proof {
            self.lemma_handles_wf();
            self.lemma_nonce_in_use(nonce@);
        }
        let r = match self.map.get2_mut(nonce) {
            Some(handle) => {
                match handle.pool_mut().push_data_channel(conn) {
                    Ok(()) => Routed::Queued,
                    Err(PushError::Full(conn)) => Routed::Busy(conn),
                    Err(PushError::Closed(conn)) => Routed::Closed(conn),
                }
            },
            None => Routed::UnknownNonce(conn),
        };
        proof {
            Self::lemma_one_handle_changed(*old(self), *self, nonce@);
        }
        r
    }

    /// Queues a visitor of the control channel stored under `nonce` in that
    /// channel's pool.
    pub fn enqueue_visitor(&mut self, nonce: &Digest, visitor: V) -> (r: Routed<V>)
        requires
            old(self).wf(),
        ensures
            final(self).wf(),
            !nonce_in_use(old(self)@, nonce@) ==> r == Routed::UnknownNonce(visitor) && final(self)@ == old(self)@,
            forall|k1: Seq<u8>|
                old(self)@.contains_key(k1) && old(self)@[k1].0 == nonce@ ==> {
                    let pool = old(self)@[k1].1;
                    if pool.closed {
                        r == Routed::Closed(visitor) && final(self)@ == old(self)@
                    } else if pool.visitors.len() == CHAN_SIZE {
                        r == Routed::Busy(visitor) && final(self)@ == old(self)@
                    } else {
                        r == Routed::<V>::Queued && final(self)@ == old(self)@.insert(
                            k1,
                            (nonce@, pool.with_visitor(visitor)),
                        )
                    }
                },
    {
        proof {
            self.lemma_handles_wf();
            self.lemma_nonce_in_use(nonce@);
        }
        let r = match self.map.get2_mut(nonce) {
            Some(handle) => {
                match handle.pool_mut().push_visitor(visitor) {
                    Ok(()) => Routed::Queued,
                    Err(PushError::Full(visitor)) => Routed::Busy(visitor),
                    Err(PushError::Closed(visitor)) => Routed::Closed(visitor),
                }
            },
            None => Routed::UnknownNonce(visitor),
        };
        proof {
            Self::lemma_one_handle_changed(*old(self), *self, nonce@);
        }
        r
    }

    /// Runs the pairing loop of the control channel stored under `nonce` for
    /// as long as both of its queues hold an item. `None` says that no such
    /// channel is installed any more: its pool loop has ended.
    pub fn take_pairs(&mut self, nonce: &Digest) -> (r: Option<Vec<(V, D)>>)
        requires
            old(self).wf(),
        ensures
            final(self).wf(),
            r.is_some() == nonce_in_use(old(self)@, nonce@),
            r.is_none() ==> final(self)@ == old(self)@,
            forall|k1: Seq<u8>|
                old(self)@.contains_key(k1) && old(self)@[k1].0 == nonce@ ==> {
                    let pool = old(self)@[k1].1;
                    &&& r.is_some()
                    &&& r.unwrap()@ == crate::pool::paired_in_order(pool.visitors, pool.data_chs)
                    &&& forall|i: int|
                        0 <= i < r.unwrap()@.len() ==> #[trigger] r.unwrap()@[i] == (
                            pool.arrived_visitors[pool.paired + i],
                            pool.arrived_data_chs[pool.paired + i],
                        )
                    &&& final(self)@ == old(self)@.insert(
                        k1,
                        (nonce@, pool.without_pairs(r.unwrap()@.len())),
                    )
                },
    {
        proof {
            self.lemma_handles_wf();
            self.lemma_nonce_in_use(nonce@);
        }
        let r = match self.map.get2_mut(nonce) {
            Some(handle) => Some(handle.pool_mut().run()),
            None => None,
        };
        proof {
            Self::lemma_one_handle_changed(*old(self), *self, nonce@);
        }
        r
    }

    /// Takes note of a bind attempt of the control channel `control`. When the
    /// channel gives up, its handle is taken out of the table, so that no
    /// channel stays installed without a public listener.
    pub fn bind_result(&mut self, control: &mut ControlChannel, bound: bool) -> (action: BindAction)
        requires
            old(self).wf(),
        ensures
            final(self).wf(),
            (final(control)@.phase, action) == bind_step(old(control)@.phase, bound),
            final(control)@ == (ControlView { phase: final(control)@.phase, ..old(control)@ }),
            action != BindAction::GiveUp ==> final(self)@ == old(self)@,
            action == BindAction::GiveUp ==> !nonce_in_use(final(self)@, old(control)@.nonce),
            action == BindAction::GiveUp ==> forall|k1: Seq<u8>|
                old(self)@.contains_key(k1) && old(self)@[k1].0 == old(control)@.nonce ==> final(self)@ == old(self)@.remove(k1),
            action == BindAction::GiveUp && !nonce_in_use(old(self)@, old(control)@.nonce)
                ==> final(self)@ == old(self)@,
    {
        let action = control.on_bind(bound);
        match action {
            BindAction::GiveUp => {
                let nonce = control.nonce();
                self.remove(&nonce);
            },
            _ => {},
        }
        action
    }

    /// Takes in a visitor that the control channel `control` accepted. A
    /// channel that no longer serves, whose pump has stopped or whose handle
    /// is gone from the table ends here and hands the visitor back.
    pub fn admit_visitor(&mut self, control: &mut ControlChannel, visitor: V) -> (r: Admission<V>)
        requires
            old(self).wf(),
        ensures
            final(self).wf(),
            final(control)@ == (ControlView {
                phase: final(control)@.phase,
                backoff: if visitor_step(old(control)@.phase, old(control)@.pump_alive).1
                    == VisitorAction::Admit {
                    old(control)@.backoff.restarted()
                } else {
                    old(control)@.backoff
                },
                ..old(control)@
            }),
            visitor_step(old(control)@.phase, old(control)@.pump_alive).1 == VisitorAction::Exit
                || !nonce_in_use(old(self)@, old(control)@.nonce) ==> {
                &&& r == Admission::Exit(visitor)
                &&& final(control)@.phase == ControlPhase::Closed
                &&& final(self)@ == old(self)@
            },
            visitor_step(old(control)@.phase, old(control)@.pump_alive).1 == VisitorAction::Admit
                ==> forall|k1: Seq<u8>|
                old(self)@.contains_key(k1) && old(self)@[k1].0 == old(control)@.nonce ==> {
                    let pool = old(self)@[k1].1;
                    if pool.closed {
                        &&& r == Admission::Exit(visitor)
                        &&& final(control)@.phase == ControlPhase::Closed
                        &&& final(self)@ == old(self)@
                    } else if pool.visitors.len() == CHAN_SIZE {
                        &&& r == Admission::Backpressure(visitor)
                        &&& final(control)@.phase == ControlPhase::Serving
                        &&& final(self)@ == old(self)@
                    } else {
                        &&& r == Admission::<V>::Admitted
                        &&& final(control)@.phase == ControlPhase::Serving
                        &&& final(self)@ == old(self)@.insert(
                            k1,
                            (old(control)@.nonce, pool.with_visitor(visitor)),
                        )
                    }
                },
    {
        match control.on_visitor() {
            VisitorAction::Exit => Admission::Exit(visitor),
            VisitorAction::Admit => {
                let nonce = control.nonce();
                match self.enqueue_visitor(&nonce, visitor) {
                    Routed::Queued => Admission::Admitted,
                    Routed::Busy(visitor) => Admission::Backpressure(visitor),
                    Routed::UnknownNonce(visitor) => {
                        control.on_shutdown();
                        Admission::Exit(visitor)
                    },
                    Routed::Closed(visitor) => {
                        control.on_shutdown();
                        Admission::Exit(visitor)
                    },
                }
            },
        }
    }
}

} // verus!
