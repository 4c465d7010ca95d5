//! The server: its services, its control channels, and the decisions of the
//! loop that accepts connections from clients.
//!
//! Binding, accepting and sleeping are the caller's. The loop reports what
//! happened and is told what to do next.

use vstd::prelude::*;
use core::time::Duration;
use crate::channels::ControlChannelMap;
use crate::config::{
    generate_service_hashmap, spec_service_map, Config, ServerConfig, ServerServiceConfig,
    ServiceTable, TransportType,
};
use crate::pool::PoolView;
use crate::retry::{duration_nanos, AcceptBackoff, BackoffView, Retry};

verus! {

/// Cap on the wait between failed accepts of clients, and on the interval
/// the waits are drawn around, in milliseconds.
pub const SERVER_BACKOFF_CAP_MS: u64 = 100;

/// Why a configuration cannot start a server.
#[derive(Clone, Copy, Debug, PartialEq, Eq, Structural)]
pub enum ConfigError {
    /// The configuration has no server section.
    MissingServerBlock,
}

impl ConfigError {
    /// The text of the error.
    pub fn message(&self) -> (text: &'static str)
        ensures
            text@
                == "Try to run as a server, but the configuration is missing. Please add the `[server]` block"@,
    {
        "Try to run as a server, but the configuration is missing. Please add the `[server]` block"
    }
}

/// The server section of a configuration; a configuration without one cannot
/// start a server.
pub fn server_config(config: &Config) -> (r: Result<&ServerConfig, ConfigError>)
    ensures
        match r {
            Ok(server) => config.server == Some(*server),
            Err(e) => config.server.is_none() && e == ConfigError::MissingServerBlock,
        },
{
    match &config.server {
        Some(server) => Ok(server),
        None => Err(ConfigError::MissingServerBlock),
    }
}

/// Where a failed accept went wrong.
#[derive(Clone, Copy, Debug, PartialEq, Eq, Structural)]
pub enum AcceptFailure {
    /// In the operating system's socket layer, as when descriptors run out.
    Io,
    /// In the transport above it, as in a TLS handshake.
    Transport,
}

/// What the accept loop does next.
#[derive(Clone, Copy, Debug, PartialEq, Eq)]
pub enum LoopAction {
    /// Accept again at once.
    Continue,
    /// Sleep for the given time, then accept again.
    RetryAfter(Duration),
    /// Leave the loop.
    Exit,
}

/// Whether the loop still runs after a failed accept, and what it does next,
/// when the backoff policy answered `drawn`. A failure of the socket layer is
/// waited out; a failure of the transport concerns one connection only and is
/// passed over; a loop that has ended stays ended.
pub open spec fn accept_failure_step(running: bool, failure: AcceptFailure, drawn: Retry) -> (
    bool,
    LoopAction,
) {
    if !running {
        (false, LoopAction::Exit)
    } else {
        match failure {
            AcceptFailure::Transport => (true, LoopAction::Continue),
            AcceptFailure::Io => match drawn {
                Retry::After(d) => (true, LoopAction::RetryAfter(d)),
                Retry::GiveUp => (false, LoopAction::Exit),
            },
        }
    }
}

/// What a server holds.
pub struct ServerView<V, D> {
    /// Where clients reach the server.
    pub bind_addr: Seq<char>,
    /// The transport that carries control and data channels.
    pub transport: TransportType,
    /// The services by digest.
    pub services: Map<Seq<u8>, ServerServiceConfig>,
    /// The control channels by service digest, each with its nonce and pool.
    pub control_channels: Map<Seq<u8>, (Seq<u8>, PoolView<V, D>)>,
    /// Whether the accept loop runs.
    pub running: bool,
    /// The waits between failed accepts of clients.
    pub backoff: BackoffView,
}

/// All the state of a running server. `V` is a visitor's connection and `D` a
/// client's data connection.
pub struct Server<V, D> {
    bind_addr: String,
    transport: TransportType,
    services: ServiceTable,
    control_channels: ControlChannelMap<V, D>,
    backoff: AcceptBackoff,
    running: bool,
}

impl<V, D> View for Server<V, D> {
    type V = ServerView<V, D>;

    closed spec fn view(&self) -> ServerView<V, D> {
        ServerView {
            bind_addr: self.bind_addr@,
            transport: self.transport,
            services: self.services@,
            control_channels: self.control_channels@,
            running: self.running,
            backoff: self.backoff@,
        }
    }
}

impl<V, D> Server<V, D> {
    /// The server's invariant: that of its control channels.
    pub closed spec fn wf(&self) -> bool {
        self.control_channels.wf()
    }

    /// A server for the server section `config`: its services by digest, no
    /// control channel yet, its accept loop running, and the waits of that loop
    /// capped at [`SERVER_BACKOFF_CAP_MS`] and not begun.
    pub fn from(config: &ServerConfig) -> (server: Server<V, D>)
        ensures
            server.wf(),
            server@ == (ServerView {
                bind_addr: config.bind_addr@,
                transport: config.transport.transport_type,
                services: spec_service_map(config.services@),
                control_channels: Map::<Seq<u8>, (Seq<u8>, PoolView<V, D>)>::empty(),
                running: true,
                backoff: BackoffView::fresh(SERVER_BACKOFF_CAP_MS),
            }),
    {
        Server {
            bind_addr: config.bind_addr.clone(),
            transport: config.transport.transport_type,
            services: generate_service_hashmap(config),
            control_channels: ControlChannelMap::new(),
            backoff: AcceptBackoff::new(SERVER_BACKOFF_CAP_MS),
            running: true,
        }
    }

    /// Where clients reach the server.
    pub fn bind_addr(&self) -> (addr: &str)
        ensures
            addr@ == self@.bind_addr,
    {
        self.bind_addr.as_str()
    }

    /// The transport that carries control and data channels.
    pub fn transport_type(&self) -> (transport: TransportType)
        ensures
            transport == self@.transport,
    {
        self.transport
    }

    /// Whether the accept loop runs.
    pub fn is_running(&self) -> (running: bool)
        ensures
            running == self@.running,
    {
        self.running
    }

    /// The services.
    pub fn services(&self) -> (services: &ServiceTable)
        ensures
            services@ == self@.services,
    {
        &self.services
    }

    /// The control channels, to look at.
    pub fn control_channels(&self) -> (channels: &ControlChannelMap<V, D>)
        ensures
            channels@ == self@.control_channels,
            channels.wf() == self.wf(),
    {
        &self.control_channels
    }

    /// The services, and the control channels to install into, route to and
    /// pair from.
    pub fn parts_mut(&mut self) -> (parts: (&ServiceTable, &mut ControlChannelMap<V, D>))
        ensures
            parts.0@ == old(self)@.services,
            parts.1@ == old(self)@.control_channels,
            parts.1.wf() == old(self).wf(),
            final(self)@ == (ServerView { control_channels: final(parts.1)@, ..old(self)@ }),
            final(self).wf() == final(parts.1).wf(),
    {
        (&self.services, &mut self.control_channels)
    }

    /// What follows a failed accept once the backoff policy has answered
    /// `drawn`.
    pub fn after_accept_failure(running: bool, failure: AcceptFailure, drawn: Retry) -> (r: (
        bool,
        LoopAction,
    ))
        ensures
            r == accept_failure_step(running, failure, drawn),
    {
        if !running {
            return (false, LoopAction::Exit);
        }
        match failure {
            AcceptFailure::Transport => (true, LoopAction::Continue),
            AcceptFailure::Io => match drawn {
                Retry::After(d) => (true, LoopAction::RetryAfter(d)),
                Retry::GiveUp => (false, LoopAction::Exit),
            },
        }
    }

    /// Takes note of a failed accept and says what the loop does next. A
    /// running loop always retries after a failure of the socket layer, after
    /// a wait that the backoff policy draws and that is no longer than the
    /// cap; the policy's interval then moves on. Nothing else changes the
    /// policy.
    pub fn on_accept_error(&mut self, failure: AcceptFailure) -> (action: LoopAction)
        ensures
            final(self).wf() == old(self).wf(),
            old(self)@.running && failure == AcceptFailure::Io ==> {
                &&& action matches LoopAction::RetryAfter(wait)
                &&& old(self)@.backoff.allows_wait(duration_nanos(wait))
                &&& (final(self)@.running, action) == accept_failure_step(
                    true,
                    failure,
                    Retry::After(wait),
                )
                &&& final(self)@ == (ServerView {
                    backoff: old(self)@.backoff.after_failure(),
                    ..old(self)@
                })
            },
            !(old(self)@.running && failure == AcceptFailure::Io) ==> {
                &&& (final(self)@.running, action) == accept_failure_step(
                    old(self)@.running,
                    failure,
                    Retry::GiveUp,
                )
                &&& final(self)@ == old(self)@
            },
    {
        let drawn = if self.running && failure == AcceptFailure::Io {
            self.backoff.next()
        } else {
            Retry::GiveUp
        };
        let (running, action) = Self::after_accept_failure(self.running, failure, drawn);
        self.running = running;
        action
    }

    /// Takes note of an accepted connection: the waits between failed accepts
    /// start over. Says whether the connection is to be served, which it is
    /// while the loop runs.
    pub fn on_accepted(&mut self) -> (serve: bool)
        ensures
            final(self).wf() == old(self).wf(),
            serve == old(self)@.running,
            final(self)@ == (ServerView {
                backoff: if serve {
                    old(self)@.backoff.restarted()
                } else {
                    old(self)@.backoff
                },
                ..old(self)@
            }),
    {
        if self.running {
            self.backoff.reset();
        }
        self.running
    }

    /// Takes note of the shutdown signal: the loop ends. Handshakes and
    /// forwarders in flight are left to end with their connections.
    pub fn on_shutdown(&mut self)
        ensures
            final(self).wf() == old(self).wf(),
            final(self)@ == (ServerView { running: false, ..old(self)@ }),
    {
        self.running = false;
    }
}

} // verus!
