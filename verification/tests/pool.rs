use vmix_plugin::cache::VmixState;
use vmix_plugin::config::VmixInstanceConfig;
use vmix_plugin::pool::{
    address_text, after_session, gate, instance_status, next_backoff, plan_reconcile,
    raw_payloads, send_check, should_poll, startup_commands, status_after_snapshot,
    status_after_version, AfterSession, CallError, Gate, PoolOptions, StartupCommand,
};
use vmix_plugin::status::ConnectionStatus;

fn config(id: &str, port: u16) -> VmixInstanceConfig {
    VmixInstanceConfig {
        id: id.into(),
        name: id.into(),
        host: " 127.0.0.1 ".into(),
        port,
        color: "#4c8dff".into(),
        enabled: true,
        xml_interval_ms: 0,
    }
}

#[test]
fn pool_options_defaults_and_test_timings() {
    let d = PoolOptions::default();
    assert_eq!((d.connect_timeout_ms, d.initial_backoff_ms, d.max_backoff_ms), (5000, 500, 30000));
    let t = PoolOptions::for_tests();
    assert_eq!((t.connect_timeout_ms, t.initial_backoff_ms, t.max_backoff_ms), (2000, 40, 200));
}

#[test]
fn raw_commands_send_each_non_blank_line_with_crlf() {
    assert_eq!(
        raw_payloads("FUNCTION Cut\r\n\n  XML  \n"),
        vec!["FUNCTION Cut\r\n".to_string(), "XML\r\n".to_string()]
    );
    assert!(raw_payloads("   \n\t").is_empty());
}

#[test]
fn startup_subscribes_then_asks_every_watched_activator() {
    let commands = startup_commands();
    assert_eq!(commands.len(), 20);
    assert_eq!(commands[0], StartupCommand::SubscribeActs);
    assert_eq!(commands[1], StartupCommand::Version);
    assert_eq!(commands[2], StartupCommand::Function { name: "ActivatorRefresh".into() });
    assert_eq!(commands[3], StartupCommand::Xml);
    assert_eq!(commands[4], StartupCommand::Acts { name: "Recording".into() });
    assert_eq!(commands[11], StartupCommand::Acts { name: "InputPreview".into() });
    assert_eq!(commands[12], StartupCommand::Acts { name: "Overlay1".into() });
    assert_eq!(commands[19], StartupCommand::Acts { name: "Overlay8".into() });
}

#[test]
fn reconcile_restarts_only_changed_endpoints_and_stops_removed_ones() {
    let a = config("a", 8099);
    let b = config("b", 8100);
    let slots = vec![
        ("a".to_string(), a.endpoint_key()),
        ("b".to_string(), "old|1|true|0".to_string()),
        ("gone".to_string(), "x".to_string()),
    ];
    let mut renamed = a.clone();
    renamed.name = "Renamed".into();
    renamed.color = "#000000".into();
    let plan = plan_reconcile(&slots, &[renamed, b.clone(), config("c", 8101)]);
    assert_eq!(plan.stop, vec!["gone".to_string()]);
    assert_eq!(
        plan.start,
        vec![("b".to_string(), b.endpoint_key()), ("c".to_string(), config("c", 8101).endpoint_key())]
    );
    assert_eq!(b.endpoint_key(), "127.0.0.1|8100|true|0");
}

#[test]
fn a_repeated_id_is_started_once() {
    let plan = plan_reconcile(&vec![], &[config("a", 1), config("a", 2)]);
    assert_eq!(plan.start, vec![("a".to_string(), config("a", 1).endpoint_key())]);
}

#[test]
fn backoff_doubles_up_to_the_cap() {
    assert_eq!(next_backoff(500, 30000), 1000);
    assert_eq!(next_backoff(20000, 30000), 30000);
    assert_eq!(next_backoff(u64::MAX, u64::MAX), u64::MAX);
    let options = PoolOptions::for_tests();
    assert!(matches!(after_session(true, true, 80, &options), AfterSession::Stop));
    assert!(matches!(after_session(false, true, 80, &options), AfterSession::Reconnect { backoff_ms: 40 }));
    assert!(matches!(
        after_session(false, false, 160, &options),
        AfterSession::Retry { wait_ms: 160, backoff_ms: 200 }
    ));
}

#[test]
fn the_gate_checks_presence_and_the_enabled_flag() {
    assert!(matches!(gate(None), Gate::Stop));
    let mut off = config("a", 8099);
    off.enabled = false;
    assert!(matches!(gate(Some(&off)), Gate::Disabled));
    match gate(Some(&config("a", 8099))) {
        Gate::Connect { address } => assert_eq!(address, "127.0.0.1:8099"),
        _ => panic!("connect expected"),
    }
    assert_eq!(address_text(&config("a", 1)), "127.0.0.1:1");
    assert!(should_poll(2000, 0, true));
    assert!(!should_poll(0, 0, true));
    assert!(!should_poll(2000, 3, true));
}

#[test]
fn sending_needs_a_configured_live_instance() {
    let configs = vec![config("a", 8099)];
    assert_eq!(send_check(&configs, "a", true), Ok(()));
    assert_eq!(send_check(&configs, "a", false), Err(CallError::Unavailable("a".into())));
    assert_eq!(send_check(&configs, "z", true), Err(CallError::Unknown("z".into())));
}

#[test]
fn status_rows_default_to_connecting() {
    let configs = vec![config("a", 8099)];
    let row = instance_status(&configs, "a", None).expect("configured");
    assert_eq!(row.status, ConnectionStatus::Connecting);
    assert_eq!(row.port, 8099);
    assert!(instance_status(&configs, "b", None).is_none());
    let row = instance_status(&configs, "a", Some(ConnectionStatus::Disabled)).unwrap();
    assert_eq!(row.status, ConnectionStatus::Disabled);
}

#[test]
fn version_and_snapshot_mark_the_instance_connected() {
    let mut state = VmixState::default();
    state.edition = "4K".into();
    assert_eq!(
        status_after_version(Some("29".into()), Some(&state)),
        ConnectionStatus::Connected { vmix_version: "29".into(), edition: "4K".into() }
    );
    assert_eq!(
        status_after_version(None, None),
        ConnectionStatus::Connected { vmix_version: String::new(), edition: String::new() }
    );
    assert_eq!(status_after_snapshot(&state), None);
    state.version = "29".into();
    assert!(status_after_snapshot(&state).is_some_and(|s| s.is_connected()));
}
