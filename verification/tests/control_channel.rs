use std::time::Duration;
use tunnel_server::config::ServerServiceConfig;
use tunnel_server::control_channel::{
    BindAction, ControlChannel, ControlChannelHandle, ControlPhase, PumpAction, VisitorAction,
    ACCEPT_BACKOFF_CAP_MS, BIND_RETRY_MS,
};
use tunnel_server::pool::PushError;
use tunnel_server::retry::{clamp_wait, retry_for, AcceptBackoff, Retry};

fn web() -> ServerServiceConfig {
    ServerServiceConfig {
        name: "web".to_string(),
        token: "t0k".to_string(),
        bind_addr: "127.0.0.1:18080".to_string(),
    }
}

fn serving() -> ControlChannel {
    let mut ch = ControlChannel::new(web(), [1u8; 32]);
    assert_eq!(ch.on_bind(true), BindAction::Serve { warm_up: 64 });
    ch
}

#[test]
fn a_new_channel_has_yet_to_bind() {
    let ch = ControlChannel::new(web(), [1u8; 32]);
    assert_eq!(ch.phase(), ControlPhase::Binding);
    assert!(ch.pump_alive());
    assert_eq!(ch.nonce(), [1u8; 32]);
    assert_eq!(ch.service(), &web());
    assert_eq!(BIND_RETRY_MS, 1000);
    assert_eq!(ACCEPT_BACKOFF_CAP_MS, 1000);
}

#[test]
fn a_first_bind_that_succeeds_warms_the_pool_up() {
    let mut ch = ControlChannel::new(web(), [1u8; 32]);
    assert_eq!(ch.on_bind(true), BindAction::Serve { warm_up: 64 });
    assert_eq!(ch.phase(), ControlPhase::Serving);
    assert_eq!(ch.on_bind(true), BindAction::Serve { warm_up: 0 });
    assert_eq!(ch.phase(), ControlPhase::Serving);
}

#[test]
fn a_failed_bind_is_retried_once_after_a_second() {
    let mut ch = ControlChannel::new(web(), [1u8; 32]);
    assert_eq!(ch.on_bind(false), BindAction::RetryIn { millis: 1000 });
    assert_eq!(ch.phase(), ControlPhase::Rebinding);
    assert_eq!(ch.on_bind(true), BindAction::Serve { warm_up: 64 });
    assert_eq!(ch.phase(), ControlPhase::Serving);

    let mut ch = ControlChannel::new(web(), [1u8; 32]);
    assert_eq!(ch.on_bind(false), BindAction::RetryIn { millis: 1000 });
    assert_eq!(ch.on_bind(false), BindAction::GiveUp);
    assert_eq!(ch.phase(), ControlPhase::Closed);
    assert_eq!(ch.on_bind(true), BindAction::GiveUp);
    assert_eq!(ch.phase(), ControlPhase::Closed);
}

#[test]
fn visitors_are_admitted_while_the_channel_serves() {
    let mut ch = serving();
    assert_eq!(ch.on_visitor(), VisitorAction::Admit);
    assert_eq!(ch.on_visitor(), VisitorAction::Admit);
    assert_eq!(ch.phase(), ControlPhase::Serving);

    let mut ch = ControlChannel::new(web(), [1u8; 32]);
    assert_eq!(ch.on_visitor(), VisitorAction::Exit);
    assert_eq!(ch.phase(), ControlPhase::Closed);
}

#[test]
fn a_failed_write_stops_the_pump_and_the_next_visitor_ends_the_channel() {
    let mut ch = serving();
    assert_eq!(ch.on_command_written(true), PumpAction::Continue);
    assert!(ch.pump_alive());
    assert_eq!(ch.on_command_written(false), PumpAction::Exit);
    assert!(!ch.pump_alive());
    assert_eq!(ch.on_command_written(true), PumpAction::Exit);
    assert_eq!(ch.phase(), ControlPhase::Serving);
    assert_eq!(ch.on_visitor(), VisitorAction::Exit);
    assert_eq!(ch.phase(), ControlPhase::Closed);
}

#[test]
fn shutdown_ends_the_channel_for_good() {
    let mut ch = serving();
    ch.on_shutdown();
    assert_eq!(ch.phase(), ControlPhase::Closed);
    assert_eq!(ch.on_visitor(), VisitorAction::Exit);
    assert_eq!(ch.on_accept_error(), Retry::GiveUp);
    assert_eq!(ch.on_bind(true), BindAction::GiveUp);
    assert_eq!(ch.phase(), ControlPhase::Closed);
}

#[test]
fn a_failed_accept_is_waited_out_while_serving() {
    let mut ch = serving();
    for _ in 0..200 {
        match ch.on_accept_error() {
            Retry::After(d) => {
                assert!(d >= Duration::from_millis(250) && d <= Duration::from_millis(1000))
            }
            Retry::GiveUp => panic!("the policy never runs out of retries"),
        }
        assert_eq!(ch.phase(), ControlPhase::Serving);
    }
    assert_eq!(ch.on_visitor(), VisitorAction::Admit);
    assert!(matches!(ch.on_accept_error(), Retry::After(_)));

    let mut ch = ControlChannel::new(web(), [1u8; 32]);
    assert_eq!(ch.on_accept_error(), Retry::GiveUp);
    assert_eq!(ch.phase(), ControlPhase::Closed);
}

#[test]
fn what_follows_a_failed_accept_depends_on_the_wait() {
    let d = Duration::from_millis(250);
    assert_eq!(
        ControlChannel::after_accept_error(ControlPhase::Serving, Retry::After(d)),
        (ControlPhase::Serving, Retry::After(d))
    );
    assert_eq!(
        ControlChannel::after_accept_error(ControlPhase::Serving, Retry::GiveUp),
        (ControlPhase::Closed, Retry::GiveUp)
    );
    for phase in [ControlPhase::Binding, ControlPhase::Rebinding, ControlPhase::Closed] {
        assert_eq!(
            ControlChannel::after_accept_error(phase, Retry::After(d)),
            (ControlPhase::Closed, Retry::GiveUp)
        );
    }
    assert_eq!(retry_for(Some(d)), Retry::After(d));
    assert_eq!(retry_for(None), Retry::GiveUp);
}

#[test]
fn no_wait_is_longer_than_the_cap() {
    let mut backoff = AcceptBackoff::new(100);
    assert_eq!(backoff.cap_ms(), 100);
    // The first wait is drawn around half a second and cut down to the cap.
    assert_eq!(backoff.next(), Retry::After(Duration::from_millis(100)));
    for _ in 0..200 {
        match backoff.next() {
            Retry::After(d) => {
                assert!(d >= Duration::from_millis(50) && d <= Duration::from_millis(100))
            }
            Retry::GiveUp => panic!("the policy never runs out of retries"),
        }
    }
    backoff.reset();
    assert_eq!(backoff.cap_ms(), 100);
    assert_eq!(backoff.next(), Retry::After(Duration::from_millis(100)));

    let mut backoff = AcceptBackoff::new(1000);
    for _ in 0..200 {
        match backoff.next() {
            Retry::After(d) => {
                assert!(d >= Duration::from_millis(250) && d <= Duration::from_millis(1000))
            }
            Retry::GiveUp => panic!("the policy never runs out of retries"),
        }
    }

    let mut backoff = AcceptBackoff::new(0);
    assert_eq!(backoff.next(), Retry::After(Duration::from_millis(0)));
    assert_eq!(backoff.interval(), Duration::from_millis(0));
    assert_eq!(backoff.next(), Retry::After(Duration::from_millis(0)));
}

#[test]
fn a_wait_below_the_cap_is_the_one_drawn() {
    let mut backoff = AcceptBackoff::new(60_000);
    let mut below_the_interval = false;
    let mut above_the_interval = false;
    for _ in 0..200 {
        assert_eq!(backoff.interval(), Duration::from_millis(500));
        match backoff.next() {
            Retry::After(d) => {
                assert!(d >= Duration::from_millis(250) && d <= Duration::from_millis(751));
                below_the_interval |= d < Duration::from_millis(500);
                above_the_interval |= d > Duration::from_millis(500);
            }
            Retry::GiveUp => panic!("the policy never runs out of retries"),
        }
        backoff.reset();
    }
    assert!(below_the_interval && above_the_interval);
}

#[test]
fn a_drawn_wait_is_cut_down_to_the_cap() {
    let cap = Duration::from_millis(100);
    assert_eq!(clamp_wait(Duration::from_millis(99), cap), Duration::from_millis(99));
    assert_eq!(clamp_wait(Duration::from_millis(100), cap), cap);
    assert_eq!(clamp_wait(Duration::from_nanos(100_000_001), cap), cap);
    assert_eq!(clamp_wait(Duration::from_secs(3600), cap), cap);
    assert_eq!(clamp_wait(Duration::from_nanos(0), cap), Duration::from_nanos(0));
    assert_eq!(clamp_wait(Duration::from_nanos(1), Duration::from_nanos(0)), Duration::from_nanos(0));
    assert_eq!(Retry::After(Duration::from_millis(750)).clamped(cap), Retry::After(cap));
    assert_eq!(
        Retry::After(Duration::from_millis(75)).clamped(cap),
        Retry::After(Duration::from_millis(75))
    );
    assert_eq!(Retry::GiveUp.clamped(cap), Retry::GiveUp);
}

#[test]
fn a_handle_comes_with_an_empty_pool_and_a_binding_channel() {
    let (mut handle, control): (ControlChannelHandle<u32, u64>, ControlChannel) =
        ControlChannelHandle::new(web(), [2u8; 32]);
    assert_eq!(control.phase(), ControlPhase::Binding);
    assert_eq!(control.nonce(), [2u8; 32]);
    assert!(!handle.pool().is_closed());
    assert_eq!(handle.pool().visitors_waiting(), 0);
    assert_eq!(handle.pool().data_channels_waiting(), 0);
    assert_eq!(handle.pool_mut().push_visitor(1), Ok(()));
    assert_eq!(handle.pool_mut().push_data_channel(10), Ok(()));
    assert_eq!(handle.pool().visitors_waiting(), 1);
    handle.close();
    assert!(handle.pool().is_closed());
    assert_eq!(handle.pool().visitors_waiting(), 0);
    assert_eq!(handle.pool_mut().push_visitor(2), Err(PushError::Closed(2)));
    assert!(handle.pool_mut().next_pair().is_none());
}

#[test]
fn the_interval_starts_at_half_a_second_and_moves_to_the_cap() {
    let mut backoff = AcceptBackoff::new(100);
    assert_eq!(backoff.interval(), Duration::from_millis(500));
    assert!(matches!(backoff.next(), Retry::After(_)));
    assert_eq!(backoff.interval(), Duration::from_millis(100));
    assert!(matches!(backoff.next(), Retry::After(_)));
    assert_eq!(backoff.interval(), Duration::from_millis(100));
    assert_eq!(backoff.cap_ms(), 100);
}

#[test]
fn the_interval_grows_by_half_up_to_the_cap() {
    let mut backoff = AcceptBackoff::new(1000);
    assert_eq!(backoff.interval(), Duration::from_millis(500));
    assert!(matches!(backoff.next(), Retry::After(_)));
    assert_eq!(backoff.interval(), Duration::from_millis(750));
    assert!(matches!(backoff.next(), Retry::After(_)));
    assert_eq!(backoff.interval(), Duration::from_millis(1000));
    assert!(matches!(backoff.next(), Retry::After(_)));
    assert_eq!(backoff.interval(), Duration::from_millis(1000));
}

#[test]
fn a_reset_puts_the_interval_back_where_it_started() {
    let mut backoff = AcceptBackoff::new(100);
    backoff.reset();
    assert_eq!(backoff.interval(), Duration::from_millis(500));
    assert!(matches!(backoff.next(), Retry::After(_)));
    assert_eq!(backoff.interval(), Duration::from_millis(100));
    backoff.reset();
    assert_eq!(backoff.interval(), Duration::from_millis(500));
    assert_eq!(backoff.cap_ms(), 100);

    let mut backoff = AcceptBackoff::new(1000);
    assert!(matches!(backoff.next(), Retry::After(_)));
    assert!(matches!(backoff.next(), Retry::After(_)));
    assert_eq!(backoff.interval(), Duration::from_millis(1000));
    backoff.reset();
    assert_eq!(backoff.interval(), Duration::from_millis(500));
}

#[test]
fn the_policy_never_runs_out_of_retries() {
    let mut backoff = AcceptBackoff::new(100);
    for _ in 0..2000 {
        assert!(matches!(backoff.next(), Retry::After(_)));
    }
    let mut ch = serving();
    for _ in 0..2000 {
        assert!(matches!(ch.on_accept_error(), Retry::After(_)));
        assert_eq!(ch.phase(), ControlPhase::Serving);
    }
}
