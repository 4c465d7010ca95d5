//! The handshake on a connection from a client.
//!
//! A client opens with a hello. A control-channel hello names a service by its
//! digest: the server answers with a hello that carries a fresh nonce, the
//! client proves that it knows the service's token by sending
//! `SHA-256(token ‖ nonce)`, and the server installs a control channel under
//! the service digest and the nonce. A data-channel hello names a control
//! channel by its nonce and is handed to that channel's pool.
//!
//! Reading and writing frames is the caller's. Each function here takes what
//! was read and returns what to write and what came of it.

use vstd::prelude::*;
use vstd::string::StringExecFns;
use rand::RngCore;
use crate::channels::{after_install, nonce_in_use, ControlChannelMap, Installed};
use crate::config::{ServerServiceConfig, ServiceTable};
use crate::control_channel::{ControlChannel, ControlView};
use crate::protocol::{
    append_bytes, decode_auth, decode_hello, digest_eq, encode_ack, encode_hello, session_key,
    sha256, spec_decode_auth, spec_decode_hello, spec_encode_ack, spec_encode_hello, Ack,
    DecodeError, Digest, Hello, HelloView, CURRENT_PROTO_VERSION,
};

verus! {

/// Fills a zeroed 32-octet buffer through `RngCore::fill_bytes` of
/// `rand::thread_rng()`. The octets are random: nothing is claimed of them.
#[verifier::external_body]
fn random_digest() -> (nonce: Digest) {
    let mut nonce = [0u8; 32];
    rand::thread_rng().fill_bytes(&mut nonce);
    nonce
}

/// The lower-case hexadecimal digit for `n < 16`.
pub open spec fn hex_digit(n: u8) -> char {
    if n < 10 {
        ((48 + n) as u8) as char
    } else {
        ((87 + n) as u8) as char
    }
}

/// The lower-case hexadecimal form of `data`: two digits per octet, the high
/// four bits first.
pub open spec fn spec_hex(data: Seq<u8>) -> Seq<char> {
    Seq::new(
        2 * data.len(),
        |i: int|
            if i % 2 == 0 {
                hex_digit(data[i / 2] / 16)
            } else {
                hex_digit(data[i / 2] % 16)
            },
    )
}

/// Calls `hex::encode`, which maps every octet to two characters of
/// `0123456789abcdef`, the high four bits first.
#[verifier::external_body]
fn hex_encode(data: &[u8]) -> (s: String)
    ensures
        s@ == spec_hex(data@),
{
    hex::encode(data)
}

/// Why a handshake ended without a control channel.
#[derive(Debug, PartialEq, Eq)]
pub enum HandshakeError {
    /// The hello frame could not be decoded.
    Hello(DecodeError),
    /// No service has the digest that the hello named.
    ServiceNotExist(Digest),
    /// The auth frame could not be decoded.
    Auth(DecodeError),
    /// The client of the named service presented a wrong session key.
    AuthFailed(String),
    /// The nonce already names the control channel of another service: the
    /// client is acknowledged, but no control channel is installed for it.
    NonceInUse,
}

/// The text of a handshake error.
pub open spec fn spec_message(e: HandshakeError) -> Seq<char> {
    match e {
        HandshakeError::Hello(_) => "Failed to read hello"@,
        HandshakeError::ServiceNotExist(d) => "No such a service "@ + spec_hex(d@),
        HandshakeError::Auth(_) => "Failed to read auth"@,
        HandshakeError::AuthFailed(name) => "Service "@ + name@ + " failed the authentication"@,
        HandshakeError::NonceInUse => "The nonce is already in use"@,
    }
}

impl HandshakeError {
    /// The text of the error, with a digest in lower-case hexadecimal.
    pub fn message(&self) -> (text: String)
        ensures
            text@ == spec_message(*self),
    {
        match self {
            HandshakeError::Hello(_) => "Failed to read hello".to_owned(),
            HandshakeError::ServiceNotExist(d) => {
                let hex = hex_encode(d.as_slice());
                "No such a service ".to_owned().concat(hex.as_str())
            },
            HandshakeError::Auth(_) => "Failed to read auth".to_owned(),
            HandshakeError::AuthFailed(name) => {
                "Service ".to_owned().concat(name.as_str()).concat(" failed the authentication")
            },
            HandshakeError::NonceInUse => "The nonce is already in use".to_owned(),
        }
    }
}

/// A control-channel handshake that waits for the client's auth frame.
#[derive(Debug)]
pub struct PendingAuth {
    /// The digest the client named its service by.
    pub service_digest: Digest,
    /// The nonce the client was challenged with.
    pub nonce: Digest,
    /// The service that has that digest.
    pub service: ServerServiceConfig,
}

/// What a hello leads to.
#[derive(Debug)]
pub enum HelloOutcome {
    /// A control channel for a known service: send `reply`, then read the
    /// auth frame.
    Challenge { reply: Vec<u8>, pending: PendingAuth },
    /// A data channel for the control channel stored under `nonce`.
    DataChannel { nonce: Digest },
    /// Send `reply` and close the connection.
    Failed { reply: Vec<u8>, error: HandshakeError },
}

/// What an auth frame leads to.
#[derive(Debug)]
pub enum AuthOutcome {
    /// The session key is the expected one: `reply` is the ack to send.
    Accepted { reply: Vec<u8> },
    /// Send `reply` and close the connection.
    Failed { reply: Vec<u8>, error: HandshakeError },
}

/// How a control-channel handshake ended.
pub enum ControlHandshake {
    /// The control channel is installed: send `reply` and run `control`.
    Established { reply: Vec<u8>, control: ControlChannel, evicted: bool },
    /// Send `reply` and close the connection.
    Failed { reply: Vec<u8>, error: HandshakeError },
}

/// Whether `outcome` is the answer to a control-channel hello that names
/// `service_digest`, when the server challenges with `nonce`: the reply opens
/// with the server's hello, and an unknown service is told so.
pub open spec fn control_hello_answered(
    services: Map<Seq<u8>, ServerServiceConfig>,
    service_digest: Seq<u8>,
    nonce: Seq<u8>,
    outcome: HelloOutcome,
) -> bool {
    let hello = spec_encode_hello(HelloView::ControlChannelHello(CURRENT_PROTO_VERSION, nonce));
    if services.contains_key(service_digest) {
        &&& outcome matches HelloOutcome::Challenge { reply, pending }
        &&& reply@ == hello
        &&& pending.service_digest@ == service_digest
        &&& pending.nonce@ == nonce
        &&& pending.service == services[service_digest]
    } else {
        &&& outcome matches HelloOutcome::Failed { reply, error }
        &&& reply@ == hello + spec_encode_ack(Ack::ServiceNotExist)
        &&& error matches HandshakeError::ServiceNotExist(d)
        &&& d@ == service_digest
    }
}

/// Whether `outcome` is the answer to the hello in `frame`, when the server
/// challenges with `nonce`. The two hellos are told apart by their variant
/// alone; the version a client sends is not looked at.
pub open spec fn hello_answered(
    frame: Seq<u8>,
    services: Map<Seq<u8>, ServerServiceConfig>,
    nonce: Seq<u8>,
    outcome: HelloOutcome,
) -> bool {
    match spec_decode_hello(frame) {
        Err(e) => {
            &&& outcome matches HelloOutcome::Failed { reply, error }
            &&& reply@ == Seq::<u8>::empty()
            &&& error == HandshakeError::Hello(e)
        },
        Ok(HelloView::DataChannelHello(_, n)) => {
            &&& outcome matches HelloOutcome::DataChannel { nonce: d }
            &&& d@ == n
        },
        Ok(HelloView::ControlChannelHello(_, service_digest)) => control_hello_answered(
            services,
            service_digest,
            nonce,
            outcome,
        ),
    }
}

/// Whether `outcome` is the verdict on the auth frame `frame` of a client of
/// the service `service_name`, when `expected` is the session key it has to
/// present. Only that key is accepted.
pub open spec fn auth_judged(
    expected: Seq<u8>,
    service_name: Seq<char>,
    frame: Seq<u8>,
    outcome: AuthOutcome,
) -> bool {
    match spec_decode_auth(frame) {
        Err(e) => {
            &&& outcome matches AuthOutcome::Failed { reply, error }
            &&& reply@ == Seq::<u8>::empty()
            &&& error == HandshakeError::Auth(e)
        },
        Ok(key) => if key == expected {
            &&& outcome matches AuthOutcome::Accepted { reply }
            &&& reply@ == spec_encode_ack(Ack::Okay)
        } else {
            &&& outcome matches AuthOutcome::Failed { reply, error }
            &&& reply@ == spec_encode_ack(Ack::AuthFailed)
            &&& error matches HandshakeError::AuthFailed(name)
            &&& name@ == service_name
        },
    }
}

/// Whether the auth frame `frame` holds exactly the session key `expected`.
pub open spec fn auth_accepts(expected: Seq<u8>, frame: Seq<u8>) -> bool {
    spec_decode_auth(frame) == Ok::<Seq<u8>, DecodeError>(expected)
}

/// The session key that completes the handshake `pending`.
pub open spec fn expected_session_key(pending: PendingAuth) -> Seq<u8> {
    sha256(vstd::utf8::encode_utf8(pending.service.token@) + pending.nonce@)
}

/// Answers a control-channel hello that names `service_digest`, challenging
/// the client with `nonce`.
pub fn answer_control_hello(services: &ServiceTable, service_digest: Digest, nonce: Digest) -> (outcome:
    HelloOutcome)
    ensures
        control_hello_answered(services@, service_digest@, nonce@, outcome),
{
    let mut reply = encode_hello(&Hello::ControlChannelHello(CURRENT_PROTO_VERSION, nonce));
    match services.get(&service_digest) {
        Some(service) => HelloOutcome::Challenge {
            reply,
            pending: PendingAuth { service_digest, nonce, service: service.clone() },
        },
        None => {
            let ack = encode_ack(&Ack::ServiceNotExist);
            append_bytes(&mut reply, ack.as_slice());
            HelloOutcome::Failed { reply, error: HandshakeError::ServiceNotExist(service_digest) }
        },
    }
}

/// Answers the hello frame of a new connection. A control-channel hello is
/// challenged with a nonce drawn at random.
pub fn handle_connection(hello_frame: &[u8], services: &ServiceTable) -> (outcome: HelloOutcome)
    ensures
        exists|nonce: Seq<u8>|
            nonce.len() == 32 && hello_answered(hello_frame@, services@, nonce, outcome),
{
    match decode_hello(hello_frame) {
        Err(e) => {
            let outcome = HelloOutcome::Failed {
                reply: Vec::new(),
                error: HandshakeError::Hello(e),
            };
            let ghost any = Seq::new(32, |i: int| 0u8);
            assert(any.len() == 32 && hello_answered(hello_frame@, services@, any, outcome));
            outcome
        },
        Ok(Hello::DataChannelHello(_, nonce)) => {
            let outcome = HelloOutcome::DataChannel { nonce };
            let ghost any = Seq::new(32, |i: int| 0u8);
            assert(any.len() == 32 && hello_answered(hello_frame@, services@, any, outcome));
            outcome
        },
        Ok(Hello::ControlChannelHello(_, service_digest)) => {
            let nonce = random_digest();
            let outcome = answer_control_hello(services, service_digest, nonce);
            assert(nonce@.len() == 32 && hello_answered(hello_frame@, services@, nonce@, outcome));
            outcome
        },
    }
}

/// Judges an auth frame against the session key that the client has to
/// present.
pub fn judge_auth(expected: &Digest, service_name: &str, auth_frame: &[u8]) -> (outcome:
    AuthOutcome)
    ensures
        auth_judged(expected@, service_name@, auth_frame@, outcome),
        outcome is Accepted <==> auth_accepts(expected@, auth_frame@),
{
    match decode_auth(auth_frame) {
        Err(e) => AuthOutcome::Failed { reply: Vec::new(), error: HandshakeError::Auth(e) },
        Ok(auth) => {
            if digest_eq(&auth.0, expected) {
                AuthOutcome::Accepted { reply: encode_ack(&Ack::Okay) }
            } else {
                AuthOutcome::Failed {
                    reply: encode_ack(&Ack::AuthFailed),
                    error: HandshakeError::AuthFailed(service_name.to_owned()),
                }
            }
        },
    }
}

/// Judges the auth frame that answers the challenge `pending`: the client is
/// accepted exactly when the frame holds `SHA-256(token ‖ nonce)`.
pub fn check_auth(pending: &PendingAuth, auth_frame: &[u8]) -> (outcome: AuthOutcome)
    ensures
        auth_judged(expected_session_key(*pending), pending.service.name@, auth_frame@, outcome),
        outcome is Accepted <==> auth_accepts(expected_session_key(*pending), auth_frame@),
{
    let expected = session_key(pending.service.token.as_str(), &pending.nonce);
    judge_auth(&expected, pending.service.name.as_str(), auth_frame)
}

/// Ends the handshake `pending` on the verdict of its auth frame. An accepted
/// client's control channel is installed, in place of the service's older
/// one; a rejected client changes nothing. Should the nonce already name the
/// channel of another service, the accepted client is still sent its ack, the
/// service's older channel is gone, and nothing is installed.
pub fn complete_handshake<V, D>(
    control_channels: &mut ControlChannelMap<V, D>,
    pending: PendingAuth,
    verdict: AuthOutcome,
) -> (r: ControlHandshake)
    requires
        old(control_channels).wf(),
    ensures
        final(control_channels).wf(),
        match verdict {
            AuthOutcome::Failed { reply, error } => {
                &&& final(control_channels)@ == old(control_channels)@
                &&& r == (ControlHandshake::Failed { reply, error })
            },
            AuthOutcome::Accepted { reply } => {
                &&& final(control_channels)@ == after_install(
                    old(control_channels)@,
                    pending.service_digest@,
                    pending.nonce@,
                )
                &&& if nonce_in_use(
                    old(control_channels)@.remove(pending.service_digest@),
                    pending.nonce@,
                ) {
                    &&& r matches ControlHandshake::Failed { reply: ack, error }
                    &&& ack == reply
                    &&& error == HandshakeError::NonceInUse
                } else {
                    &&& r matches ControlHandshake::Established { reply: ack, control, evicted }
                    &&& ack == reply
                    &&& evicted == old(control_channels)@.contains_key(pending.service_digest@)
                    &&& control@ == ControlView::fresh(pending.service, pending.nonce@)
                }
            },
        },
{
    match verdict {
        AuthOutcome::Failed { reply, error } => ControlHandshake::Failed { reply, error },
        AuthOutcome::Accepted { reply } => {
            match control_channels.install(pending.service_digest, pending.nonce, pending.service) {
                Installed::Ready { control, evicted } => ControlHandshake::Established {
                    reply,
                    control,
                    evicted,
                },
                Installed::NonceInUse { evicted: _ } => ControlHandshake::Failed {
                    reply,
                    error: HandshakeError::NonceInUse,
                },
            }
        },
    }
}

/// Ends the handshake `pending` on the client's auth frame. A control channel
/// is installed exactly when the frame holds `SHA-256(token ‖ nonce)`; any
/// other frame is answered with `AuthFailed`, or with nothing if it cannot be
/// decoded, and leaves the control channels as they are.
pub fn do_control_channel_handshake<V, D>(
    control_channels: &mut ControlChannelMap<V, D>,
    pending: PendingAuth,
    auth_frame: &[u8],
) -> (r: ControlHandshake)
    requires
        old(control_channels).wf(),
    ensures
        final(control_channels).wf(),
        !auth_accepts(expected_session_key(pending), auth_frame@) ==> {
            &&& final(control_channels)@ == old(control_channels)@
            &&& r matches ControlHandshake::Failed { reply, error }
            &&& auth_judged(
                expected_session_key(pending),
                pending.service.name@,
                auth_frame@,
                AuthOutcome::Failed { reply, error },
            )
        },
        auth_accepts(expected_session_key(pending), auth_frame@) ==> {
            &&& final(control_channels)@ == after_install(
                old(control_channels)@,
                pending.service_digest@,
                pending.nonce@,
            )
            &&& if nonce_in_use(
                old(control_channels)@.remove(pending.service_digest@),
                pending.nonce@,
            ) {
                &&& r matches ControlHandshake::Failed { reply, error }
                &&& reply@ == spec_encode_ack(Ack::Okay)
                &&& error == HandshakeError::NonceInUse
            } else {
                &&& r matches ControlHandshake::Established { reply, control, evicted }
                &&& reply@ == spec_encode_ack(Ack::Okay)
                &&& evicted == old(control_channels)@.contains_key(pending.service_digest@)
                &&& control@ == ControlView::fresh(pending.service, pending.nonce@)
            }
        },
{
    let verdict = check_auth(&pending, auth_frame);
    complete_handshake(control_channels, pending, verdict)
}

} // verus!
