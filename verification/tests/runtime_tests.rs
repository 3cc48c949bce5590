use mlc_core::adapt::{first_resolving, wait_resolves, AdaptScopes};
use mlc_core::bounded::BoundedValue;
use mlc_core::drivers::{driver_for, planned_configs, DriverKind, SacnWorkerState};
use mlc_core::endpoints::{EndpointConfig, EndpointMapping, EndpointSpeed};
use mlc_core::runtime::{RuntimeCommand, UniverseRuntime, UniverseUpdate};
use mlc_core::shutdown::{ShutdownHandler, ShutdownPhase, ShutdownWaiterTracker};
use mlc_core::subscriber::{client_update_command, decompose_update, UniverseUpdateSubscriber};
use mlc_core::universe::{FixtureAddress, UniverseAddress, UNIVERSE_SIZE};

fn addr(universe: u16, address: usize) -> FixtureAddress {
    FixtureAddress::new(universe, UniverseAddress::create(address))
}

#[test]
fn fixture_address_display() {
    let a = FixtureAddress::from_text("0.126").unwrap();
    assert_eq!(a.to_display_string(), "0.126");

    let _b = FixtureAddress::from_text("12.512").unwrap();
}

#[test]
fn fixture_address_display_pads_right() {
    assert_eq!(addr(3, 5).to_display_string(), "3.500");
    assert_eq!(addr(1, 42).to_display_string(), "1.420");
}

#[test]
fn fixture_address_parse_errors() {
    assert!(FixtureAddress::from_text("1").is_err());
    assert!(FixtureAddress::from_text("1.2.3").is_err());
    assert!(FixtureAddress::from_text("x.5").is_err());
    assert!(FixtureAddress::from_text("70000.5").is_err());
    assert!(FixtureAddress::from_text("1.x").is_err());
}

#[test]
fn fixture_address_parse_clamps_address() {
    let a = FixtureAddress::from_text("1.700").unwrap();
    assert_eq!(a.universe(), 1);
    assert_eq!(a.address().take(), UNIVERSE_SIZE);
    let b = FixtureAddress::from_text("2.0").unwrap();
    assert_eq!(b.address().take(), 1);
}

#[test]
fn adapt_resets_and_publishes_per_universe() {
    let mut rt = UniverseRuntime::create();
    let outs = rt.adapt(2);
    assert_eq!(outs.len(), 2);
    for (i, out) in outs.iter().enumerate() {
        match out {
            UniverseUpdate::Entire { universe, values } => {
                assert_eq!(*universe as usize, i + 1);
                assert_eq!(values.len(), UNIVERSE_SIZE);
                assert!(values.iter().all(|v| *v == 0));
            },
            other => panic!("expected an Entire snapshot, got {other:?}"),
        }
    }
}

#[test]
fn update_then_resend_shows_the_write() {
    let mut rt = UniverseRuntime::create();
    rt.adapt(1);
    let echoed = rt.handle_cmd(RuntimeCommand::UpdateData(UniverseUpdate::Single {
        update: (addr(1, 5), 200),
    }));
    assert_eq!(echoed.len(), 1);
    let outs = rt.handle_cmd(RuntimeCommand::ResendUniverse(1));
    assert_eq!(outs.len(), 1);
    match &outs[0] {
        UniverseUpdate::Entire { universe, values } => {
            assert_eq!(*universe, 1);
            assert_eq!(values[4], 200);
            assert_eq!(values[0], 0);
        },
        other => panic!("expected an Entire snapshot, got {other:?}"),
    }
}

#[test]
fn resend_of_unknown_universe_publishes_nothing() {
    let mut rt = UniverseRuntime::create();
    rt.adapt(1);
    let outs = rt.handle_cmd(RuntimeCommand::ResendUniverse(9));
    assert_eq!(outs.len(), 0);
}

#[test]
fn writes_to_unknown_universes_are_dropped() {
    let mut rt = UniverseRuntime::create();
    rt.adapt(1);
    rt.handle_cmd(RuntimeCommand::UpdateData(UniverseUpdate::Single {
        update: (addr(7, 1), 9),
    }));
    let outs = rt.handle_cmd(RuntimeCommand::ResendUniverse(1));
    match &outs[0] {
        UniverseUpdate::Entire { values, .. } => assert!(values.iter().all(|v| *v == 0)),
        other => panic!("expected an Entire snapshot, got {other:?}"),
    }
}

#[test]
fn subscriber_first_message_is_its_snapshot() {
    let mut rt = UniverseRuntime::create();
    rt.adapt(2);
    rt.handle_cmd(RuntimeCommand::UpdateData(UniverseUpdate::Single {
        update: (addr(2, 1), 77),
    }));
    // A new subscription posts ResendUniverses; its filter drops the
    // snapshots of other universes, so the first accepted message is
    // the snapshot of its own universe as held at dequeue time.
    let sub = UniverseUpdateSubscriber::new(2);
    let outs = rt.handle_cmd(RuntimeCommand::ResendUniverses);
    assert_eq!(outs.len(), 2);
    let mut first = None;
    for out in outs {
        if let Some(msg) = sub.accept(out) {
            first = Some(msg);
            break;
        }
    }
    match first {
        Some(UniverseUpdate::Entire { universe, values }) => {
            assert_eq!(universe, 2);
            assert_eq!(values[0], 77);
        },
        other => panic!("expected the universe-2 snapshot, got {other:?}"),
    }
}

#[test]
fn subscriber_filters_by_universe() {
    let sub = UniverseUpdateSubscriber::new(1);
    assert_eq!(sub.universe(), 1);
    assert!(sub.accept(UniverseUpdate::Single { update: (addr(2, 1), 5) }).is_none());
    assert!(sub.accept(UniverseUpdate::Single { update: (addr(1, 1), 5) }).is_some());
    match sub.accept(UniverseUpdate::Many {
        updates: vec![(addr(1, 1), 5), (addr(2, 2), 6), (addr(1, 3), 7)],
    }) {
        Some(UniverseUpdate::Many { updates }) => {
            assert_eq!(updates.len(), 2);
            assert_eq!(updates[0].1, 5);
            assert_eq!(updates[1].1, 7);
        },
        other => panic!("expected a narrowed Many, got {other:?}"),
    }
    assert!(sub.accept(UniverseUpdate::Many { updates: vec![(addr(2, 1), 5)] }).is_none());
}

#[test]
fn entire_decomposes_into_slot_pairs() {
    let mut values = vec![0u8; UNIVERSE_SIZE];
    values[4] = 200;
    let pairs = decompose_update(&UniverseUpdate::Entire { universe: 1, values });
    assert_eq!(pairs.len(), UNIVERSE_SIZE);
    assert_eq!(pairs[0].0.take(), 1);
    assert_eq!(pairs[0].1, 0);
    assert_eq!(pairs[4].0.take(), 5);
    assert_eq!(pairs[4].1, 200);
}

#[test]
fn client_write_becomes_a_single_update() {
    let cmd = client_update_command(1, UniverseAddress::create(5), 200);
    match cmd {
        RuntimeCommand::UpdateData(UniverseUpdate::Single { update }) => {
            assert_eq!(update.0.universe(), 1);
            assert_eq!(update.0.address().take(), 5);
            assert_eq!(update.1, 200);
        },
        other => panic!("expected a Single update command, got {other:?}"),
    }
}

#[test]
fn shutdown_phases_are_ordered() {
    assert!(ShutdownPhase::Idle < ShutdownPhase::Phase1);
    assert!(ShutdownPhase::Phase1 < ShutdownPhase::Phase2);
    assert!(ShutdownPhase::Phase2 < ShutdownPhase::Done);
    assert!(ShutdownPhase::Phase1.le(&ShutdownPhase::Phase1));
}

#[test]
fn shutdown_waiters_block_try_advance() {
    let mut h = ShutdownHandler::create();
    assert_eq!(h.current(), ShutdownPhase::Idle);
    h.shutdown();
    assert_eq!(h.current(), ShutdownPhase::Phase1);
    h.shutdown();
    assert_eq!(h.current(), ShutdownPhase::Phase1);

    let w1 = ShutdownWaiterTracker::new(ShutdownPhase::Phase1, &mut h);
    let w2 = ShutdownWaiterTracker::new(ShutdownPhase::Phase1, &mut h);
    assert!(!h.try_advance());
    w1.release(&mut h);
    assert!(!h.try_advance());
    w2.release(&mut h);
    assert!(h.try_advance());
    assert_eq!(h.current(), ShutdownPhase::Phase2);
    h.advance();
    assert_eq!(h.current(), ShutdownPhase::Done);
    h.advance();
    assert_eq!(h.current(), ShutdownPhase::Done);
}

#[test]
fn wait_readiness_follows_the_phase() {
    let mut h = ShutdownHandler::create();
    assert!(!h.wait_ready(ShutdownPhase::Phase1));
    h.shutdown();
    assert!(h.wait_ready(ShutdownPhase::Phase1));
    assert!(!h.wait_ready(ShutdownPhase::Phase2));
}

#[test]
fn adapt_waits_resolve_on_intersection() {
    assert!(wait_resolves(AdaptScopes::universes(), AdaptScopes::all()));
    assert!(!wait_resolves(AdaptScopes::universes(), AdaptScopes::settings()));
    assert!(!wait_resolves(AdaptScopes::universes(), AdaptScopes::none()));
    assert!(wait_resolves(AdaptScopes::all(), AdaptScopes::endpoints()));
}

#[test]
fn non_matching_publications_are_skipped() {
    let publications = vec![AdaptScopes::endpoints(), AdaptScopes::universes(), AdaptScopes::all()];
    assert_eq!(first_resolving(&publications, AdaptScopes::universes()), Some(1));
    assert_eq!(first_resolving(&publications, AdaptScopes::settings()), Some(2));
    let quiet = vec![AdaptScopes::endpoints()];
    assert_eq!(first_resolving(&quiet, AdaptScopes::settings()), None);
}

#[test]
fn configs_go_to_their_drivers() {
    assert_eq!(driver_for(&EndpointConfig::Logger), DriverKind::Log);
    assert_eq!(driver_for(&EndpointConfig::ArtNet), DriverKind::ArtNet);
    assert_eq!(
        driver_for(&EndpointConfig::Sacn { universe: 10, speed: EndpointSpeed::Fast }),
        DriverKind::Sacn
    );
    assert_eq!(
        driver_for(&EndpointConfig::Usb { port: String::from("p1"), speed: EndpointSpeed::Slow }),
        DriverKind::Usb
    );
}

#[test]
fn endpoint_mapping_flattens_in_order() {
    let mapping = EndpointMapping {
        endpoints: vec![
            (1, vec![EndpointConfig::Logger, EndpointConfig::ArtNet]),
            (2, vec![EndpointConfig::Sacn { universe: 10, speed: EndpointSpeed::Fast }]),
        ],
    };
    let pairs = planned_configs(&mapping);
    assert_eq!(pairs.len(), 3);
    assert_eq!(pairs[0].0, 1);
    assert_eq!(pairs[1].0, 1);
    assert_eq!(pairs[2].0, 2);
    assert_eq!(driver_for(&pairs[2].1), DriverKind::Sacn);
}

#[test]
fn endpoint_speeds_in_milliseconds() {
    assert_eq!(EndpointSpeed::Slow.ms(), 200);
    assert_eq!(EndpointSpeed::Medium.ms(), 100);
    assert_eq!(EndpointSpeed::Fast.ms(), 30);
    assert_eq!(EndpointSpeed::Ultra.ms(), 5);
    assert_eq!(EndpointSpeed::Custom(42).ms(), 42);
    assert_eq!(EndpointSpeed::Fast.duration(), std::time::Duration::from_millis(30));
}

#[test]
fn sacn_tick_emits_the_cache_regardless_of_updates() {
    let mut w = SacnWorkerState::create();
    w.add_binding(1, EndpointSpeed::Fast, 10);
    // No updates yet: the tick already carries the zero frame.
    let frames = w.on_tick(EndpointSpeed::Fast);
    assert_eq!(frames.len(), 1);
    assert_eq!(frames[0].0, 10);
    assert_eq!(frames[0].1.len(), UNIVERSE_SIZE + 1);
    assert!(frames[0].1.iter().all(|v| *v == 0));

    w.on_update(&UniverseUpdate::Single { update: (addr(1, 5), 200) });
    let frames = w.on_tick(EndpointSpeed::Fast);
    assert_eq!(frames[0].1[5], 200);
    // A tick on a rate with no bindings emits nothing.
    assert_eq!(w.on_tick(EndpointSpeed::Slow).len(), 0);
}

#[test]
fn sacn_cache_takes_entire_snapshots() {
    let mut w = SacnWorkerState::create();
    w.add_binding(3, EndpointSpeed::Medium, 20);
    let mut values = vec![0u8; UNIVERSE_SIZE];
    values[0] = 11;
    values[511] = 22;
    w.on_update(&UniverseUpdate::Entire { universe: 3, values });
    let frames = w.on_tick(EndpointSpeed::Medium);
    assert_eq!(frames[0].1[0], 0);
    assert_eq!(frames[0].1[1], 11);
    assert_eq!(frames[0].1[512], 22);
    // Updates for unbound universes are dropped.
    w.on_update(&UniverseUpdate::Single { update: (addr(9, 1), 5) });
    let frames = w.on_tick(EndpointSpeed::Medium);
    assert_eq!(frames[0].1[1], 11);
}

#[test]
fn universe_address_is_one_based() {
    let a = UniverseAddress::create(0);
    assert_eq!(a.take(), 1);
    let b = UniverseAddress::create(UNIVERSE_SIZE + 10);
    assert_eq!(b.take(), UNIVERSE_SIZE);
    let c: usize = BoundedValue::take(UniverseAddress::create(5));
    assert_eq!(c, 5);
}
