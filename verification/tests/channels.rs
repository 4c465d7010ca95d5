use tunnel_server::channels::{Admission, ControlChannelMap, Installed, Routed};
use tunnel_server::config::ServerServiceConfig;
use tunnel_server::control_channel::{BindAction, ControlChannel, ControlPhase};

fn service(name: &str) -> ServerServiceConfig {
    ServerServiceConfig {
        name: name.to_string(),
        token: "t0k".to_string(),
        bind_addr: "127.0.0.1:18080".to_string(),
    }
}

fn install(
    channels: &mut ControlChannelMap<u32, u64>,
    digest: [u8; 32],
    nonce: [u8; 32],
) -> (ControlChannel, bool) {
    match channels.install(digest, nonce, service("web")) {
        Installed::Ready { control, evicted } => (control, evicted),
        Installed::NonceInUse { .. } => panic!("the nonce is free"),
    }
}

#[test]
fn an_installed_channel_is_found_by_digest_and_by_nonce() {
    let mut channels: ControlChannelMap<u32, u64> = ControlChannelMap::new();
    assert!(!channels.contains_service(&[1u8; 32]));
    assert!(!channels.contains_nonce(&[11u8; 32]));
    let (control, evicted) = install(&mut channels, [1u8; 32], [11u8; 32]);
    assert!(!evicted);
    assert_eq!(control.nonce(), [11u8; 32]);
    assert_eq!(control.service(), &service("web"));
    assert!(channels.contains_service(&[1u8; 32]));
    assert!(channels.contains_nonce(&[11u8; 32]));
    assert!(!channels.contains_service(&[11u8; 32]));
    assert!(!channels.contains_nonce(&[1u8; 32]));
    assert!(channels.get_by_service(&[1u8; 32]).is_some());
    assert!(channels.get_by_nonce(&[11u8; 32]).is_some());
    assert!(channels.get_by_service(&[2u8; 32]).is_none());

    assert_eq!(channels.route_data_channel(&[11u8; 32], 5), Routed::Queued);
    assert_eq!(channels.get_by_service(&[1u8; 32]).unwrap().pool().data_channels_waiting(), 1);
    assert_eq!(channels.get_by_nonce(&[11u8; 32]).unwrap().pool().data_channels_waiting(), 1);
}

#[test]
fn two_handshakes_for_one_service_leave_the_second() {
    let mut channels: ControlChannelMap<u32, u64> = ControlChannelMap::new();
    let (_, evicted) = install(&mut channels, [2u8; 32], [22u8; 32]);
    assert!(!evicted);
    let (mut first, evicted) = install(&mut channels, [1u8; 32], [11u8; 32]);
    assert!(!evicted);
    assert_eq!(channels.bind_result(&mut first, true), BindAction::Serve { warm_up: 64 });
    assert_eq!(channels.route_data_channel(&[11u8; 32], 5), Routed::Queued);

    let (_, evicted) = install(&mut channels, [1u8; 32], [12u8; 32]);
    assert!(evicted);
    assert!(channels.contains_service(&[1u8; 32]));
    assert!(channels.contains_nonce(&[12u8; 32]));
    assert!(!channels.contains_nonce(&[11u8; 32]));
    assert!(channels.contains_service(&[2u8; 32]));
    assert!(channels.contains_nonce(&[22u8; 32]));
    assert_eq!(channels.get_by_service(&[1u8; 32]).unwrap().pool().data_channels_waiting(), 0);
    assert_eq!(channels.take_pairs(&[11u8; 32]), None);
    assert_eq!(channels.admit_visitor(&mut first, 1), Admission::Exit(1));
    assert_eq!(first.phase(), ControlPhase::Closed);
}

#[test]
fn installing_again_under_the_same_nonce_gives_a_fresh_pool() {
    let mut channels: ControlChannelMap<u32, u64> = ControlChannelMap::new();
    install(&mut channels, [1u8; 32], [11u8; 32]);
    assert_eq!(channels.route_data_channel(&[11u8; 32], 5), Routed::Queued);
    let (_, evicted) = install(&mut channels, [1u8; 32], [11u8; 32]);
    assert!(evicted);
    assert!(channels.contains_nonce(&[11u8; 32]));
    assert_eq!(channels.get_by_nonce(&[11u8; 32]).unwrap().pool().data_channels_waiting(), 0);
}

#[test]
fn a_nonce_in_use_elsewhere_installs_nothing_but_still_evicts() {
    let mut channels: ControlChannelMap<u32, u64> = ControlChannelMap::new();
    install(&mut channels, [1u8; 32], [11u8; 32]);
    install(&mut channels, [2u8; 32], [22u8; 32]);
    match channels.install([2u8; 32], [11u8; 32], service("ssh")) {
        Installed::NonceInUse { evicted } => assert!(evicted),
        Installed::Ready { .. } => panic!("one nonce names two channels"),
    }
    assert!(channels.contains_service(&[1u8; 32]));
    assert!(!channels.contains_service(&[2u8; 32]));
    assert!(!channels.contains_nonce(&[22u8; 32]));
    match channels.install([3u8; 32], [11u8; 32], service("ssh")) {
        Installed::NonceInUse { evicted } => assert!(!evicted),
        Installed::Ready { .. } => panic!("one nonce names two channels"),
    }
    assert!(!channels.contains_service(&[3u8; 32]));
}

#[test]
fn a_channel_that_cannot_bind_is_taken_out_of_the_table() {
    let mut channels: ControlChannelMap<u32, u64> = ControlChannelMap::new();
    let (mut control, _) = install(&mut channels, [1u8; 32], [11u8; 32]);
    install(&mut channels, [2u8; 32], [22u8; 32]);
    assert_eq!(channels.bind_result(&mut control, false), BindAction::RetryIn { millis: 1000 });
    assert!(channels.contains_service(&[1u8; 32]));
    assert_eq!(channels.bind_result(&mut control, false), BindAction::GiveUp);
    assert_eq!(control.phase(), ControlPhase::Closed);
    assert!(!channels.contains_service(&[1u8; 32]));
    assert!(!channels.contains_nonce(&[11u8; 32]));
    assert!(channels.contains_service(&[2u8; 32]));
    assert_eq!(channels.route_data_channel(&[11u8; 32], 1), Routed::UnknownNonce(1));
}

#[test]
fn removing_by_nonce_removes_the_service_entry() {
    let mut channels: ControlChannelMap<u32, u64> = ControlChannelMap::new();
    install(&mut channels, [1u8; 32], [11u8; 32]);
    install(&mut channels, [2u8; 32], [22u8; 32]);
    assert!(channels.remove(&[11u8; 32]));
    assert!(!channels.remove(&[11u8; 32]));
    assert!(!channels.remove(&[1u8; 32]));
    assert!(!channels.contains_service(&[1u8; 32]));
    assert!(channels.contains_service(&[2u8; 32]));
    assert!(channels.contains_nonce(&[22u8; 32]));
}

#[test]
fn a_full_data_channel_queue_hands_the_connection_back() {
    let mut channels: ControlChannelMap<u32, u64> = ControlChannelMap::new();
    install(&mut channels, [1u8; 32], [11u8; 32]);
    for i in 0..4096u64 {
        assert_eq!(channels.route_data_channel(&[11u8; 32], i), Routed::Queued);
    }
    assert_eq!(channels.route_data_channel(&[11u8; 32], 4096), Routed::Busy(4096));
    assert_eq!(channels.get_by_nonce(&[11u8; 32]).unwrap().pool().data_channels_waiting(), 4096);
}

#[test]
fn visitors_of_one_service_never_meet_data_channels_of_another() {
    let mut channels: ControlChannelMap<u32, u64> = ControlChannelMap::new();
    install(&mut channels, [1u8; 32], [11u8; 32]);
    install(&mut channels, [2u8; 32], [22u8; 32]);
    assert_eq!(channels.enqueue_visitor(&[11u8; 32], 1), Routed::Queued);
    assert_eq!(channels.route_data_channel(&[22u8; 32], 20), Routed::Queued);
    assert_eq!(channels.take_pairs(&[11u8; 32]), Some(vec![]));
    assert_eq!(channels.take_pairs(&[22u8; 32]), Some(vec![]));
    assert_eq!(channels.route_data_channel(&[11u8; 32], 10), Routed::Queued);
    assert_eq!(channels.enqueue_visitor(&[22u8; 32], 2), Routed::Queued);
    assert_eq!(channels.take_pairs(&[11u8; 32]), Some(vec![(1, 10)]));
    assert_eq!(channels.take_pairs(&[22u8; 32]), Some(vec![(2, 20)]));
    assert_eq!(channels.enqueue_visitor(&[33u8; 32], 3), Routed::UnknownNonce(3));
}
