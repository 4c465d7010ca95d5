use sha2::{Digest, Sha256};
use tunnel_server::channels::{Admission, ControlChannelMap, Routed};
use tunnel_server::config::{
    generate_service_hashmap, ServerConfig, ServerServiceConfig, ServiceTable, TransportConfig,
    TransportType,
};
use tunnel_server::control_channel::{BindAction, ControlChannel, ControlPhase};
use tunnel_server::handshake::{
    answer_control_hello, check_auth, complete_handshake, do_control_channel_handshake,
    handle_connection, judge_auth, AuthOutcome, ControlHandshake, HandshakeError, HelloOutcome,
    PendingAuth,
};
use tunnel_server::protocol::{
    decode_hello, encode_auth, encode_hello, Auth, DecodeError, Hello, HELLO_LEN,
};

fn sha256(parts: &[&[u8]]) -> [u8; 32] {
    let mut hasher = Sha256::new();
    for part in parts {
        hasher.update(part);
    }
    hasher.finalize().into()
}

fn web() -> ServerServiceConfig {
    ServerServiceConfig {
        name: "web".to_string(),
        token: "t0k".to_string(),
        bind_addr: "127.0.0.1:18080".to_string(),
    }
}

fn services() -> ServiceTable {
    generate_service_hashmap(&ServerConfig {
        bind_addr: "0.0.0.0:2333".to_string(),
        transport: TransportConfig { transport_type: TransportType::Tcp },
        services: vec![("web".to_string(), web())],
    })
}

/// Runs a control-channel handshake for "web" with the right token and
/// returns the nonce and the task state of the installed channel.
fn connect(
    services: &ServiceTable,
    channels: &mut ControlChannelMap<u32, u64>,
) -> ([u8; 32], ControlChannel, bool) {
    let hello = encode_hello(&Hello::ControlChannelHello(1, sha256(&[b"web"])));
    let pending = match handle_connection(&hello, services) {
        HelloOutcome::Challenge { pending, .. } => pending,
        other => panic!("expected a challenge, got {:?}", other),
    };
    let nonce = pending.nonce;
    let auth = encode_auth(&Auth(sha256(&[b"t0k", &nonce])));
    match do_control_channel_handshake(channels, pending, &auth) {
        ControlHandshake::Established { reply, control, evicted } => {
            assert_eq!(reply, vec![0u8, 0, 0, 0]);
            (nonce, control, evicted)
        }
        ControlHandshake::Failed { error, .. } => panic!("handshake failed: {:?}", error),
    }
}

#[test]
fn happy_path() {
    let services = services();
    let mut channels: ControlChannelMap<u32, u64> = ControlChannelMap::new();

    let hello = encode_hello(&Hello::ControlChannelHello(1, sha256(&[b"web"])));
    let (reply, pending) = match handle_connection(&hello, &services) {
        HelloOutcome::Challenge { reply, pending } => (reply, pending),
        other => panic!("expected a challenge, got {:?}", other),
    };
    assert_eq!(reply.len(), HELLO_LEN);
    assert_eq!(decode_hello(&reply), Ok(Hello::ControlChannelHello(1, pending.nonce)));
    assert_eq!(pending.service_digest, sha256(&[b"web"]));
    assert_eq!(pending.service, web());
    let nonce = pending.nonce;

    let auth = encode_auth(&Auth(sha256(&[b"t0k", &nonce])));
    let mut control = match do_control_channel_handshake(&mut channels, pending, &auth) {
        ControlHandshake::Established { reply, control, evicted } => {
            assert_eq!(reply, vec![0u8, 0, 0, 0]);
            assert!(!evicted);
            control
        }
        ControlHandshake::Failed { error, .. } => panic!("handshake failed: {:?}", error),
    };
    assert!(channels.contains_service(&sha256(&[b"web"])));
    assert!(channels.contains_nonce(&nonce));
    assert_eq!(control.nonce(), nonce);
    assert_eq!(control.service(), &web());
    assert_eq!(control.phase(), ControlPhase::Binding);

    assert_eq!(channels.bind_result(&mut control, true), BindAction::Serve { warm_up: 64 });

    for i in 0..64u64 {
        let hello = encode_hello(&Hello::DataChannelHello(1, nonce));
        let n = match handle_connection(&hello, &services) {
            HelloOutcome::DataChannel { nonce } => nonce,
            other => panic!("expected a data channel, got {:?}", other),
        };
        assert_eq!(n, nonce);
        assert_eq!(channels.route_data_channel(&n, i), Routed::Queued);
    }
    assert_eq!(channels.take_pairs(&nonce), Some(vec![]));

    assert_eq!(channels.admit_visitor(&mut control, 500), Admission::Admitted);
    assert_eq!(channels.take_pairs(&nonce), Some(vec![(500, 0)]));
    assert_eq!(channels.admit_visitor(&mut control, 501), Admission::Admitted);
    assert_eq!(channels.admit_visitor(&mut control, 502), Admission::Admitted);
    assert_eq!(channels.take_pairs(&nonce), Some(vec![(501, 1), (502, 2)]));
    let pool = channels.get_by_nonce(&nonce).unwrap().pool();
    assert_eq!(pool.visitors_waiting(), 0);
    assert_eq!(pool.data_channels_waiting(), 61);
}

#[test]
fn auth_failure() {
    let services = services();
    let mut channels: ControlChannelMap<u32, u64> = ControlChannelMap::new();
    let hello = encode_hello(&Hello::ControlChannelHello(1, sha256(&[b"web"])));
    let pending = match handle_connection(&hello, &services) {
        HelloOutcome::Challenge { pending, .. } => pending,
        other => panic!("expected a challenge, got {:?}", other),
    };
    let nonce = pending.nonce;
    let auth = encode_auth(&Auth(sha256(&[b"wrong", &nonce])));
    match do_control_channel_handshake(&mut channels, pending, &auth) {
        ControlHandshake::Failed { reply, error } => {
            assert_eq!(reply, vec![1u8, 0, 0, 0]);
            assert_eq!(error, HandshakeError::AuthFailed("web".to_string()));
            assert_eq!(error.message(), "Service web failed the authentication");
        }
        ControlHandshake::Established { .. } => panic!("a wrong key was accepted"),
    }
    assert!(!channels.contains_service(&sha256(&[b"web"])));
    assert!(!channels.contains_nonce(&nonce));
}

#[test]
fn unknown_service() {
    let services = services();
    let nope = sha256(&[b"nope"]);
    let hello = encode_hello(&Hello::ControlChannelHello(1, nope));
    match handle_connection(&hello, &services) {
        HelloOutcome::Failed { reply, error } => {
            assert_eq!(reply.len(), 41);
            assert!(matches!(decode_hello(&reply[..37]), Ok(Hello::ControlChannelHello(1, _))));
            assert_eq!(&reply[37..], &[2u8, 0, 0, 0]);
            assert_eq!(error, HandshakeError::ServiceNotExist(nope));
            let hex: String = nope.iter().map(|b| format!("{:02x}", b)).collect();
            assert_eq!(error.message(), format!("No such a service {}", hex));
        }
        other => panic!("expected a refusal, got {:?}", other),
    }
}

#[test]
fn reconnect_evicts() {
    let services = services();
    let mut channels: ControlChannelMap<u32, u64> = ControlChannelMap::new();
    let (first, mut first_control, evicted) = connect(&services, &mut channels);
    assert!(!evicted);
    assert_eq!(channels.bind_result(&mut first_control, true), BindAction::Serve { warm_up: 64 });
    assert_eq!(channels.route_data_channel(&first, 1), Routed::Queued);
    assert_eq!(channels.admit_visitor(&mut first_control, 7), Admission::Admitted);

    let (second, mut second_control, evicted) = connect(&services, &mut channels);
    assert!(evicted);
    assert_ne!(first, second);
    assert!(channels.contains_service(&sha256(&[b"web"])));
    assert!(channels.contains_nonce(&second));
    assert!(!channels.contains_nonce(&first));

    assert_eq!(channels.take_pairs(&first), None);
    assert_eq!(channels.route_data_channel(&first, 2), Routed::UnknownNonce(2));
    assert_eq!(channels.admit_visitor(&mut first_control, 8), Admission::Exit(8));
    assert_eq!(first_control.phase(), ControlPhase::Closed);

    assert_eq!(channels.bind_result(&mut second_control, true), BindAction::Serve { warm_up: 64 });
    assert_eq!(channels.take_pairs(&second), Some(vec![]));
    assert_eq!(channels.route_data_channel(&second, 3), Routed::Queued);
    assert_eq!(channels.admit_visitor(&mut second_control, 9), Admission::Admitted);
    assert_eq!(channels.take_pairs(&second), Some(vec![(9, 3)]));
}

#[test]
fn data_hello_routing() {
    let services = services();
    let mut channels: ControlChannelMap<u32, u64> = ControlChannelMap::new();
    let (nonce, _control, _) = connect(&services, &mut channels);
    let mut wrong = nonce;
    wrong[0] ^= 1;
    let hello = encode_hello(&Hello::DataChannelHello(1, wrong));
    let n = match handle_connection(&hello, &services) {
        HelloOutcome::DataChannel { nonce } => nonce,
        other => panic!("expected a data channel, got {:?}", other),
    };
    assert_eq!(n, wrong);
    assert_eq!(channels.route_data_channel(&n, 5), Routed::UnknownNonce(5));
    assert_eq!(channels.get_by_nonce(&nonce).unwrap().pool().data_channels_waiting(), 0);
    assert!(channels.get_by_nonce(&wrong).is_none());
}

#[test]
fn visitor_backpressure() {
    let services = services();
    let mut channels: ControlChannelMap<u32, u64> = ControlChannelMap::new();
    let (nonce, mut control, _) = connect(&services, &mut channels);
    assert_eq!(channels.bind_result(&mut control, true), BindAction::Serve { warm_up: 64 });
    for i in 0..2048u32 {
        assert_eq!(channels.admit_visitor(&mut control, i), Admission::Admitted);
    }
    assert_eq!(channels.admit_visitor(&mut control, 2048), Admission::Backpressure(2048));
    assert_eq!(channels.enqueue_visitor(&nonce, 2048), Routed::Busy(2048));
    assert_eq!(channels.get_by_nonce(&nonce).unwrap().pool().visitors_waiting(), 2048);
    assert_eq!(channels.route_data_channel(&nonce, 1), Routed::Queued);
    assert_eq!(channels.take_pairs(&nonce), Some(vec![(0, 1)]));
    assert_eq!(channels.enqueue_visitor(&nonce, 2048), Routed::Queued);
    assert_eq!(control.phase(), ControlPhase::Serving);
}

#[test]
fn a_hello_that_cannot_be_decoded_ends_the_connection() {
    let services = services();
    match handle_connection(&[0u8; 10], &services) {
        HelloOutcome::Failed { reply, error } => {
            assert!(reply.is_empty());
            assert_eq!(error, HandshakeError::Hello(DecodeError::WrongLength));
            assert_eq!(error.message(), "Failed to read hello");
        }
        other => panic!("expected a refusal, got {:?}", other),
    }
    let mut frame = [0u8; 37];
    frame[0] = 7;
    match handle_connection(&frame, &services) {
        HelloOutcome::Failed { reply, error } => {
            assert!(reply.is_empty());
            assert_eq!(error, HandshakeError::Hello(DecodeError::UnknownVariant));
        }
        other => panic!("expected a refusal, got {:?}", other),
    }
}

#[test]
fn the_challenge_carries_the_given_nonce() {
    let services = services();
    let nonce = [42u8; 32];
    match answer_control_hello(&services, sha256(&[b"web"]), nonce) {
        HelloOutcome::Challenge { reply, pending } => {
            let mut expected = vec![0u8, 0, 0, 0, 1];
            expected.extend_from_slice(&nonce);
            assert_eq!(reply, expected);
            assert_eq!(pending.nonce, nonce);
            assert_eq!(pending.service, web());
        }
        other => panic!("expected a challenge, got {:?}", other),
    }
    match answer_control_hello(&services, [0u8; 32], nonce) {
        HelloOutcome::Failed { reply, error } => {
            let mut expected = vec![0u8, 0, 0, 0, 1];
            expected.extend_from_slice(&nonce);
            expected.extend_from_slice(&[2, 0, 0, 0]);
            assert_eq!(reply, expected);
            assert_eq!(error, HandshakeError::ServiceNotExist([0u8; 32]));
            assert_eq!(
                error.message(),
                "No such a service 0000000000000000000000000000000000000000000000000000000000000000"
            );
        }
        other => panic!("expected a refusal, got {:?}", other),
    }
}

#[test]
fn nonces_differ_from_one_challenge_to_the_next() {
    let services = services();
    let hello = encode_hello(&Hello::ControlChannelHello(1, sha256(&[b"web"])));
    let mut seen: Vec<[u8; 32]> = Vec::new();
    for _ in 0..16 {
        match handle_connection(&hello, &services) {
            HelloOutcome::Challenge { pending, .. } => {
                assert!(!seen.contains(&pending.nonce));
                assert_ne!(pending.nonce, [0u8; 32]);
                seen.push(pending.nonce);
            }
            other => panic!("expected a challenge, got {:?}", other),
        }
    }
}

#[test]
fn only_the_session_key_is_accepted() {
    let expected = [3u8; 32];
    match judge_auth(&expected, "web", &expected) {
        AuthOutcome::Accepted { reply } => assert_eq!(reply, vec![0u8, 0, 0, 0]),
        other => panic!("the key was refused: {:?}", other),
    }
    for i in 0..32 {
        let mut key = expected;
        key[i] ^= 0x80;
        match judge_auth(&expected, "web", &key) {
            AuthOutcome::Failed { reply, error } => {
                assert_eq!(reply, vec![1u8, 0, 0, 0]);
                assert_eq!(error, HandshakeError::AuthFailed("web".to_string()));
            }
            other => panic!("a wrong key was accepted: {:?}", other),
        }
    }
    match judge_auth(&expected, "web", &[3u8; 31]) {
        AuthOutcome::Failed { reply, error } => {
            assert!(reply.is_empty());
            assert_eq!(error, HandshakeError::Auth(DecodeError::WrongLength));
            assert_eq!(error.message(), "Failed to read auth");
        }
        other => panic!("a short frame was accepted: {:?}", other),
    }
}

#[test]
fn check_auth_expects_the_hash_of_token_and_nonce() {
    let pending =
        PendingAuth { service_digest: sha256(&[b"web"]), nonce: [9u8; 32], service: web() };
    let key = sha256(&[b"t0k", &[9u8; 32]]);
    assert!(matches!(check_auth(&pending, &key), AuthOutcome::Accepted { .. }));
    let swapped = sha256(&[&[9u8; 32], b"t0k"]);
    assert!(matches!(check_auth(&pending, &swapped), AuthOutcome::Failed { .. }));
    assert!(matches!(check_auth(&pending, &[9u8; 32]), AuthOutcome::Failed { .. }));
    assert!(matches!(check_auth(&pending, &sha256(&[b"t0k"])), AuthOutcome::Failed { .. }));
}

#[test]
fn a_nonce_of_another_service_is_not_installed_twice() {
    let mut channels: ControlChannelMap<u32, u64> = ControlChannelMap::new();
    let a = PendingAuth { service_digest: [1u8; 32], nonce: [7u8; 32], service: web() };
    let b = PendingAuth { service_digest: [2u8; 32], nonce: [7u8; 32], service: web() };
    let ok = AuthOutcome::Accepted { reply: vec![0, 0, 0, 0] };
    assert!(matches!(
        complete_handshake(&mut channels, a, ok),
        ControlHandshake::Established { evicted: false, .. }
    ));
    let ok = AuthOutcome::Accepted { reply: vec![0, 0, 0, 0] };
    match complete_handshake(&mut channels, b, ok) {
        ControlHandshake::Failed { reply, error } => {
            assert_eq!(reply, vec![0u8, 0, 0, 0]);
            assert_eq!(error, HandshakeError::NonceInUse);
            assert_eq!(error.message(), "The nonce is already in use");
        }
        ControlHandshake::Established { .. } => panic!("one nonce names two channels"),
    }
    assert!(channels.contains_service(&[1u8; 32]));
    assert!(!channels.contains_service(&[2u8; 32]));
    assert!(channels.contains_nonce(&[7u8; 32]));
}

#[test]
fn a_failed_verdict_installs_nothing() {
    let mut channels: ControlChannelMap<u32, u64> = ControlChannelMap::new();
    let pending = PendingAuth { service_digest: [1u8; 32], nonce: [7u8; 32], service: web() };
    let verdict = AuthOutcome::Failed {
        reply: vec![1, 0, 0, 0],
        error: HandshakeError::AuthFailed("web".to_string()),
    };
    match complete_handshake(&mut channels, pending, verdict) {
        ControlHandshake::Failed { reply, error } => {
            assert_eq!(reply, vec![1u8, 0, 0, 0]);
            assert_eq!(error, HandshakeError::AuthFailed("web".to_string()));
        }
        ControlHandshake::Established { .. } => panic!("a rejected client was installed"),
    }
    assert!(!channels.contains_service(&[1u8; 32]));
    assert!(!channels.contains_nonce(&[7u8; 32]));
}

#[test]
fn a_digest_is_shown_in_lower_case_hexadecimal() {
    let digest = sha256(&[b"abc"]);
    assert_eq!(
        HandshakeError::ServiceNotExist(digest).message(),
        "No such a service ba7816bf8f01cfea414140de5dae2223b00361a396177a9cb410ff61f20015ad"
    );
    let mut mixed = [0u8; 32];
    mixed[0] = 0x0f;
    mixed[1] = 0xf0;
    mixed[2] = 0x9a;
    mixed[31] = 0x01;
    assert_eq!(
        HandshakeError::ServiceNotExist(mixed).message(),
        "No such a service 0ff09a0000000000000000000000000000000000000000000000000000000001"
    );
}
