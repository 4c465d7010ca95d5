//! One control channel: the decisions of the task that serves a client's
//! service, and the handle by which the rest of the server reaches its pool.
//!
//! The task binds the service's public address, asks the client for data
//! channels ahead of time, admits visitors, and leaves when the client is gone
//! or the handle is dropped. Binding, accepting, sleeping and writing are the
//! caller's; what to do after each of them is decided here.

use vstd::prelude::*;
use crate::config::ServerServiceConfig;
use crate::pool::{ConnectionPool, PoolView, POOL_SIZE};
use crate::protocol::Digest;
use crate::retry::{duration_nanos, AcceptBackoff, BackoffView, Retry};

verus! {

/// How long to wait before the one retry of a failed bind, in milliseconds.
pub const BIND_RETRY_MS: u64 = 1000;

/// Cap on the wait between failed accepts of visitors, and on the interval
/// the waits are drawn around, in milliseconds.
pub const ACCEPT_BACKOFF_CAP_MS: u64 = 1000;

/// Where a control channel stands.
#[derive(Clone, Copy, Debug, PartialEq, Eq, Structural)]
pub enum ControlPhase {
    /// The first bind of the public address is under way.
    Binding,
    /// The first bind failed; the second and last is under way.
    Rebinding,
    /// The public listener is up and visitors are admitted.
    Serving,
    /// The channel has ended: nothing is admitted any more.
    Closed,
}

/// What to do after a bind attempt.
#[derive(Clone, Copy, Debug, PartialEq, Eq, Structural)]
pub enum BindAction {
    /// Start accepting visitors, after asking the client for `warm_up` data
    /// channels.
    Serve { warm_up: usize },
    /// Sleep for `millis` milliseconds, then bind again.
    RetryIn { millis: u64 },
    /// Report the bind error, take the handle out of the server's table and
    /// end the channel.
    GiveUp,
}

/// What to do with a visitor that was accepted.
#[derive(Clone, Copy, Debug, PartialEq, Eq, Structural)]
pub enum VisitorAction {
    /// Ask the client for one data channel and queue the visitor in the pool.
    Admit,
    /// Drop the visitor and leave the accept loop.
    Exit,
}

/// What the request pump does after writing a command.
#[derive(Clone, Copy, Debug, PartialEq, Eq, Structural)]
pub enum PumpAction {
    /// Go on with the next request.
    Continue,
    /// The client is gone: stop writing.
    Exit,
}

/// The state of a control channel after a bind attempt that succeeded
/// (`bound`) or failed, and what to do next. A failed first bind is retried
/// once; a failed second bind ends the channel.
pub open spec fn bind_step(phase: ControlPhase, bound: bool) -> (ControlPhase, BindAction) {
    match phase {
        ControlPhase::Binding => if bound {
            (ControlPhase::Serving, BindAction::Serve { warm_up: POOL_SIZE })
        } else {
            (ControlPhase::Rebinding, BindAction::RetryIn { millis: BIND_RETRY_MS })
        },
        ControlPhase::Rebinding => if bound {
            (ControlPhase::Serving, BindAction::Serve { warm_up: POOL_SIZE })
        } else {
            (ControlPhase::Closed, BindAction::GiveUp)
        },
        ControlPhase::Serving => (ControlPhase::Serving, BindAction::Serve { warm_up: 0 }),
        ControlPhase::Closed => (ControlPhase::Closed, BindAction::GiveUp),
    }
}

/// The state of a control channel after a visitor was accepted, and what to
/// do with the visitor. Visitors are admitted only while the channel serves
/// and its request pump still writes; otherwise the channel ends.
pub open spec fn visitor_step(phase: ControlPhase, pump_alive: bool) -> (
    ControlPhase,
    VisitorAction,
) {
    if phase == ControlPhase::Serving && pump_alive {
        (ControlPhase::Serving, VisitorAction::Admit)
    } else {
        (ControlPhase::Closed, VisitorAction::Exit)
    }
}

/// The state of a control channel after a failed accept to which the backoff
/// policy answered `drawn`, and what to do next. A channel that serves sleeps
/// through the wait and accepts again; without a wait, or when it does not
/// serve, the channel ends.
pub open spec fn accept_error_step(phase: ControlPhase, drawn: Retry) -> (ControlPhase, Retry) {
    match (phase, drawn) {
        (ControlPhase::Serving, Retry::After(d)) => (ControlPhase::Serving, Retry::After(d)),
        _ => (ControlPhase::Closed, Retry::GiveUp),
    }
}

/// What a control channel is made of.
pub struct ControlView {
    /// The service it exposes.
    pub service: ServerServiceConfig,
    /// The nonce its handle is stored under.
    pub nonce: Seq<u8>,
    /// Where it stands.
    pub phase: ControlPhase,
    /// Whether its request pump still writes to the client.
    pub pump_alive: bool,
    /// The waits between failed accepts of visitors.
    pub backoff: BackoffView,
}

impl ControlView {
    /// A control channel for `service`, stored under `nonce`, that has yet to
    /// bind: its pump runs, and its waits are capped at
    /// [`ACCEPT_BACKOFF_CAP_MS`] and have not begun.
    pub open spec fn fresh(service: ServerServiceConfig, nonce: Seq<u8>) -> ControlView {
        ControlView {
            service,
            nonce,
            phase: ControlPhase::Binding,
            pump_alive: true,
            backoff: BackoffView::fresh(ACCEPT_BACKOFF_CAP_MS),
        }
    }
}

/// The task-side state of one control channel.
pub struct ControlChannel {
    service: ServerServiceConfig,
    nonce: Digest,
    phase: ControlPhase,
    pump_alive: bool,
    backoff: AcceptBackoff,
}

impl View for ControlChannel {
    type V = ControlView;

    closed spec fn view(&self) -> ControlView {
        ControlView {
            service: self.service,
            nonce: self.nonce@,
            phase: self.phase,
            pump_alive: self.pump_alive,
            backoff: self.backoff@,
        }
    }
}

impl ControlChannel {
    /// A control channel for `service` that has yet to bind, with its pump
    /// running.
    pub fn new(service: ServerServiceConfig, nonce: Digest) -> (ch: ControlChannel)
        ensures
            ch@ == ControlView::fresh(service, nonce@),
    {
        ControlChannel {
            service,
            nonce,
            phase: ControlPhase::Binding,
            pump_alive: true,
            backoff: AcceptBackoff::new(ACCEPT_BACKOFF_CAP_MS),
        }
    }

    /// The service this channel exposes.
    pub fn service(&self) -> (service: &ServerServiceConfig)
        ensures
            *service == self@.service,
    {
        &self.service
    }

    /// The nonce this channel's handle is stored under.
    pub fn nonce(&self) -> (nonce: Digest)
        ensures
            nonce@ == self@.nonce,
    {
        self.nonce
    }

    /// Where the channel stands.
    pub fn phase(&self) -> (phase: ControlPhase)
        ensures
            phase == self@.phase,
    {
        self.phase
    }

    /// Whether the request pump still writes to the client.
    pub fn pump_alive(&self) -> (alive: bool)
        ensures
            alive == self@.pump_alive,
    {
        self.pump_alive
    }

    /// Takes note of a bind attempt and says what to do next.
    pub fn on_bind(&mut self, bound: bool) -> (action: BindAction)
        ensures
            (final(self)@.phase, action) == bind_step(old(self)@.phase, bound),
            final(self)@ == (ControlView { phase: final(self)@.phase, ..old(self)@ }),
    {
        let (phase, action) = match self.phase {
            ControlPhase::Binding => if bound {
                (ControlPhase::Serving, BindAction::Serve { warm_up: POOL_SIZE })
            } else {
                (ControlPhase::Rebinding, BindAction::RetryIn { millis: BIND_RETRY_MS })
            },
            ControlPhase::Rebinding => if bound {
                (ControlPhase::Serving, BindAction::Serve { warm_up: POOL_SIZE })
            } else {
                (ControlPhase::Closed, BindAction::GiveUp)
            },
            ControlPhase::Serving => (ControlPhase::Serving, BindAction::Serve { warm_up: 0 }),
            ControlPhase::Closed => (ControlPhase::Closed, BindAction::GiveUp),
        };
        self.phase = phase;
        action
    }

    /// Takes note of an accepted visitor and says what to do with it. After a
    /// visitor is admitted the waits between failed accepts start over.
    pub fn on_visitor(&mut self) -> (action: VisitorAction)
        ensures
            (final(self)@.phase, action) == visitor_step(old(self)@.phase, old(self)@.pump_alive),
            final(self)@ == (ControlView {
                phase: final(self)@.phase,
                backoff: if action == VisitorAction::Admit {
                    old(self)@.backoff.restarted()
                } else {
                    old(self)@.backoff
                },
                ..old(self)@
            }),
    {
        if self.phase == ControlPhase::Serving && self.pump_alive {
            self.backoff.reset();
            VisitorAction::Admit
        } else {
            self.phase = ControlPhase::Closed;
            VisitorAction::Exit
        }
    }

    /// What follows a failed accept once the backoff policy has answered
    /// `drawn`: the new phase and what the accept loop does.
    pub fn after_accept_error(phase: ControlPhase, drawn: Retry) -> (r: (ControlPhase, Retry))
        ensures
            r == accept_error_step(phase, drawn),
    {
        match (phase, drawn) {
            (ControlPhase::Serving, Retry::After(d)) => (ControlPhase::Serving, Retry::After(d)),
            _ => (ControlPhase::Closed, Retry::GiveUp),
        }
    }

    /// Takes note of a failed accept and says how long to sleep before the
    /// next one, or to leave. A channel that serves always retries, after a
    /// wait that the backoff policy draws and that is no longer than the cap;
    /// the policy's interval then moves on. A channel that does not serve
    /// leaves at once.
    pub fn on_accept_error(&mut self) -> (retry: Retry)
        ensures
            old(self)@.phase == ControlPhase::Serving ==> {
                &&& retry matches Retry::After(wait)
                &&& old(self)@.backoff.allows_wait(duration_nanos(wait))
                &&& (final(self)@.phase, retry) == accept_error_step(old(self)@.phase, retry)
                &&& final(self)@ == (ControlView {
                    backoff: old(self)@.backoff.after_failure(),
                    ..old(self)@
                })
            },
            old(self)@.phase != ControlPhase::Serving ==> {
                &&& (final(self)@.phase, retry) == accept_error_step(
                    old(self)@.phase,
                    Retry::GiveUp,
                )
                &&& final(self)@ == (ControlView { phase: ControlPhase::Closed, ..old(self)@ })
            },
    {
        let drawn = match self.phase {
            ControlPhase::Serving => self.backoff.next(),
            _ => Retry::GiveUp,
        };
        let (phase, retry) = Self::after_accept_error(self.phase, drawn);
        self.phase = phase;
        retry
    }

    /// Takes note of the outcome of writing one command to the client. The
    /// first failed write stops the pump for good.
    pub fn on_command_written(&mut self, written: bool) -> (action: PumpAction)
        ensures
            final(self)@ == (ControlView {
                pump_alive: old(self)@.pump_alive && written,
                ..old(self)@
            }),
            action == if old(self)@.pump_alive && written {
                PumpAction::Continue
            } else {
                PumpAction::Exit
            },
    {
        if self.pump_alive && written {
            PumpAction::Continue
        } else {
            self.pump_alive = false;
            PumpAction::Exit
        }
    }

    /// Ends the channel: its handle was dropped or the server shuts down.
    pub fn on_shutdown(&mut self)
        ensures
            final(self)@ == (ControlView { phase: ControlPhase::Closed, ..old(self)@ }),
    {
        self.phase = ControlPhase::Closed;
    }
}

/// The server's side of one control channel: the pool in which its visitors
/// and data channels meet. Dropping the handle ends the channel.
pub struct ControlChannelHandle<V, D> {
    conn_pool: ConnectionPool<V, D>,
}

impl<V, D> View for ControlChannelHandle<V, D> {
    type V = PoolView<V, D>;

    /// The handle's pool.
    closed spec fn view(&self) -> PoolView<V, D> {
        self.conn_pool@
    }
}

impl<V, D> ControlChannelHandle<V, D> {
    /// The handle's invariant: that of its pool.
    pub open spec fn wf(&self) -> bool {
        self@.wf()
    }

    /// A handle with a fresh, empty pool for a control channel of `service`
    /// that is stored under `nonce`, together with the state of the task that
    /// will run the channel.
    pub fn new(service: ServerServiceConfig, nonce: Digest) -> (r: (
        ControlChannelHandle<V, D>,
        ControlChannel,
    ))
        ensures
            r.0.wf(),
            r.0@ == PoolView::<V, D>::fresh(),
            r.1@ == ControlView::fresh(service, nonce@),
    {
        let handle = ControlChannelHandle { conn_pool: ConnectionPool::new() };
        (handle, ControlChannel::new(service, nonce))
    }

    /// The pool, to look at.
    pub fn pool(&self) -> (pool: &ConnectionPool<V, D>)
        ensures
            pool@ == self@,
    {
        &self.conn_pool
    }

    /// The pool, to queue into and to pair from.
    pub fn pool_mut(&mut self) -> (pool: &mut ConnectionPool<V, D>)
        ensures
            pool@ == old(self)@,
            final(self)@ == final(pool)@,
    {
        &mut self.conn_pool
    }

    /// Ends the channel from the server's side: the pool is closed and
    /// whatever waited in it is dropped.
    pub fn close(&mut self)
        requires
            old(self).wf(),
        ensures
            final(self).wf(),
            final(self)@ == old(self)@.shut(),
    {
        self.conn_pool.close();
    }
}

} // verus!
