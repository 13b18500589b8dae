use aethertune::connect::{join_step, Attempt, ConnectStep, Connector, JoinStep};
use aethertune::frame::{feeds_real_audio, feeds_simulation, poll_timeout_ns, tick_budget_us, tick_due};

#[test]
fn waiting_ends_with_the_tick() {
    assert_eq!(poll_timeout_ns(50, 0), 50_000_000);
    assert_eq!(poll_timeout_ns(50, 20_000_000), 30_000_000);
    assert_eq!(poll_timeout_ns(50, 50_000_000), 0);
    assert_eq!(poll_timeout_ns(50, u128::MAX), 0);
    assert_eq!(poll_timeout_ns(u64::MAX, 1), 18446744073709551614999999);
    for elapsed in [0u128, 1, 49_999_999, 50_000_000, 80_000_000] {
        assert!(tick_due(50, elapsed + poll_timeout_ns(50, elapsed)));
    }
}

#[test]
fn ticks_are_due_after_a_tick() {
    assert!(!tick_due(50, 49_999_999));
    assert!(tick_due(50, 50_000_000));
    assert!(tick_due(0, 0));
    assert_eq!(tick_budget_us(200), 200_000);
}

#[test]
fn the_visualizer_falls_back_on_simulation() {
    assert!(feeds_real_audio(true, true));
    assert!(!feeds_real_audio(true, false));
    assert!(!feeds_real_audio(false, true));
    assert!(!feeds_simulation(true, true, true));
    assert!(feeds_simulation(true, true, false));
    assert!(feeds_simulation(true, false, false));
    assert!(!feeds_simulation(false, false, false));
}

#[test]
fn connecting_gives_up_after_five_seconds() {
    let mut connector = Connector::new(7);
    let mut waited = 0;
    let mut attempts = 0;
    loop {
        attempts += 1;
        match connector.attempted(Attempt::Failed) {
            ConnectStep::Retry { pause_ms } => waited += pause_ms,
            ConnectStep::GiveUp { pause_ms } => {
                waited += pause_ms;
                break;
            }
            _ => panic!("no connection was made"),
        }
    }
    assert_eq!(attempts, 100);
    assert_eq!(waited, 5000);
}

#[test]
fn a_connection_is_handed_over_with_its_generation() {
    let mut connector = Connector::new(7);
    assert_eq!(connector.attempted(Attempt::Failed), ConnectStep::Retry { pause_ms: 50 });
    assert_eq!(connector.attempted(Attempt::Connected), ConnectStep::HandOver { generation: 7 });
    assert_eq!(Connector::new(3).attempted(Attempt::NoReader), ConnectStep::Abandon);
}

#[test]
fn threads_are_waited_for_within_limits() {
    assert_eq!(join_step(true, 0, 200), JoinStep::Join);
    assert_eq!(join_step(true, 900_000_000, 200), JoinStep::Join);
    assert_eq!(join_step(false, 200_000_000, 200), JoinStep::Wait { pause_ms: 10 });
    assert_eq!(join_step(false, 200_000_001, 200), JoinStep::GiveUp);
    assert_eq!(join_step(false, u128::MAX, u64::MAX), JoinStep::GiveUp);
}
