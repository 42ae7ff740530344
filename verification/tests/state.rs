use vmix_plugin::cache::VmixState;
use vmix_plugin::config::{TargetGroup as PoolGroup, VmixInstanceConfig};
use vmix_plugin::contracts::{
    ActionParams, ActionSettings, GlobalSettings, InstanceConfig, TargetGroup, TargetSelector,
};
use vmix_plugin::kind::ActionKind;
use vmix_plugin::pool::Command;
use vmix_plugin::render::SegmentState;
use vmix_plugin::state::{
    connect_plan, dial_commands, function_feedback, inspector_request, is_loopback_host,
    join_titles, key_face, loopback_fallback, press_alert, press_plan, provisional_configs,
    provisional_ids, provisional_in_place, put_segment, put_title, seed, shows_title,
    targets_for, toggle_state, visual_segments, InspectorRequest, TargetView,
};

fn config(id: &str, host: &str, enabled: bool) -> VmixInstanceConfig {
    VmixInstanceConfig {
        id: id.into(),
        name: id.to_uppercase(),
        host: host.into(),
        port: 8099,
        color: "#00ff00".into(),
        enabled,
        xml_interval_ms: 2000,
    }
}

#[test]
fn missing_instance_target_falls_back_to_loopback() {
    let configs = vec![VmixInstanceConfig {
        id: "localhost".into(),
        name: "Localhost".into(),
        host: "127.0.0.1".into(),
        port: 8099,
        color: "#4c8dff".into(),
        enabled: true,
        xml_interval_ms: 2000,
    }];
    let missing = TargetSelector::Instances {
        ids: vec!["36f8850b-70af-425f-8d79-8cf6b009a301".into()],
    };
    assert_eq!(loopback_fallback(&missing, &configs), Some(vec!["localhost".into()]));
    let present = TargetSelector::Instances { ids: vec!["localhost".into()] };
    assert_eq!(loopback_fallback(&present, &configs), None);
}

#[test]
fn provisional_targets_include_the_saved_instance_id() {
    let ids = provisional_ids(&[TargetSelector::Instances {
        ids: vec!["36f8850b-70af-425f-8d79-8cf6b009a301".into()],
    }]);
    assert_eq!(ids, vec!["36f8850b-70af-425f-8d79-8cf6b009a301".to_string()]);
    assert_eq!(provisional_ids(&[]), vec!["localhost".to_string()]);
}

#[test]
fn provisional_ids_skip_repeats_and_blanks() {
    let ids = provisional_ids(&[
        TargetSelector::All,
        TargetSelector::Instances { ids: vec!["a".into(), "".into(), "b".into()] },
        TargetSelector::Instances { ids: vec!["b".into(), "a".into(), "c".into()] },
    ]);
    assert_eq!(ids, vec!["a".to_string(), "b".to_string(), "c".to_string()]);
}

#[test]
fn fallback_ignores_remote_and_disabled_instances() {
    let configs = vec![
        config("remote", "192.168.1.20", true),
        config("off", "localhost", false),
        config("v6", " [::1] ", true),
    ];
    let missing = TargetSelector::Instances { ids: vec!["gone".into()] };
    assert_eq!(loopback_fallback(&missing, &configs), Some(vec!["v6".to_string()]));
    assert_eq!(loopback_fallback(&TargetSelector::All, &configs), None);
    assert_eq!(loopback_fallback(&TargetSelector::Instances { ids: vec![] }, &configs), None);
    assert!(is_loopback_host("LocalHost"));
    assert!(!is_loopback_host("127.0.0.2"));
}

#[test]
fn targets_resolve_first_and_fall_back_second() {
    let configs = vec![config("a", "10.0.0.1", true), config("local", "127.0.0.1", true)];
    let groups = vec![PoolGroup { id: "g".into(), name: "G".into(), members: vec!["a".into()] }];
    assert_eq!(targets_for(&TargetSelector::All, &configs, &groups), vec!["a", "local"]);
    assert_eq!(targets_for(&TargetSelector::Group { id: "g".into() }, &configs, &groups), vec!["a"]);
    let stale = TargetSelector::Instances { ids: vec!["old".into()] };
    assert_eq!(targets_for(&stale, &configs, &groups), vec!["local"]);
    assert!(targets_for(&TargetSelector::Group { id: "none".into() }, &configs, &groups).is_empty());
}

#[test]
fn titles_are_joined_once_each_in_target_order() {
    let targets = vec!["a".to_string(), "b".to_string(), "c".to_string(), "d".to_string()];
    let titles = vec![
        ("c".to_string(), "Cam".to_string()),
        ("a".to_string(), "Cam".to_string()),
        ("b".to_string(), "Guest".to_string()),
        ("d".to_string(), String::new()),
    ];
    assert_eq!(join_titles(&targets, &titles), "Cam\nGuest");
    assert_eq!(join_titles(&[], &titles), "");
}

#[test]
fn first_launch_registers_localhost_once() {
    let mut settings = GlobalSettings::default();
    assert!(seed(&mut settings));
    assert!(settings.seeded);
    assert_eq!(settings.instances.len(), 1);
    assert_eq!(settings.instances[0].id, "localhost");
    assert_eq!(settings.instances[0].host, "127.0.0.1");
    assert!(!seed(&mut settings));
    assert_eq!(settings.instances.len(), 1);
}

#[test]
fn an_emptied_list_after_seeding_stays_empty_but_still_connects_localhost() {
    let mut settings = GlobalSettings { seeded: true, ..GlobalSettings::default() };
    assert!(!seed(&mut settings));
    assert!(settings.instances.is_empty());
    let (instances, groups) = connect_plan(&settings);
    assert_eq!(instances.len(), 1);
    assert_eq!(instances[0].id, "localhost");
    assert_eq!(instances[0].port, 8099);
    assert!(groups.is_empty());
}

#[test]
fn saved_instances_and_groups_are_handed_over_as_they_are() {
    let settings = GlobalSettings {
        instances: vec![InstanceConfig {
            id: "x".into(),
            name: "X".into(),
            host: "10.1.1.1".into(),
            port: 9000,
            color: "#ff0000".into(),
            enabled: false,
            xml_interval_ms: 0,
        }],
        groups: vec![TargetGroup { id: "g".into(), name: "G".into(), members: vec!["x".into()] }],
        seeded: true,
        ..GlobalSettings::default()
    };
    let (instances, groups) = connect_plan(&settings);
    assert_eq!(instances.len(), 1);
    assert_eq!(instances[0].host, "10.1.1.1");
    assert_eq!(instances[0].port, 9000);
    assert!(!instances[0].enabled);
    assert_eq!(groups[0].members, vec!["x".to_string()]);
}

#[test]
fn provisional_connection_is_recognised_when_in_place() {
    let ids = vec!["a".to_string(), "b".to_string()];
    let configs = provisional_configs(&ids);
    assert_eq!(configs.len(), 2);
    assert_eq!(configs[1].id, "b");
    assert_eq!(configs[1].host, "127.0.0.1");
    assert!(provisional_in_place(&configs, &ids));
    assert!(!provisional_in_place(&configs, &vec!["a".to_string()]));
    assert!(!provisional_in_place(&[config("a", "10.0.0.1", true), config("b", "localhost", true)], &ids));
}

fn program_settings(input: &str) -> ActionSettings {
    ActionSettings {
        shared: ActionParams { input: input.into(), ..ActionParams::default() },
        ..ActionSettings::default()
    }
}

#[test]
fn a_key_face_has_one_segment_per_target() {
    let mut live = VmixState::default();
    live.program.insert(0, 1);
    let views = vec![
        TargetView { id: "a".into(), connected: true, state: live },
        TargetView { id: "b".into(), connected: false, state: VmixState::default() },
    ];
    let face = key_face(ActionKind::Program, &program_settings("1"), &views);
    assert_eq!(
        face.segments,
        vec![("a".to_string(), SegmentState::Active), ("b".to_string(), SegmentState::Unavailable)]
    );
    assert_eq!(face.titles.len(), 2);
    assert_eq!(face.title, "1");
}

#[test]
fn segments_are_drawn_with_the_instance_colour_or_defaults() {
    let configs = vec![config("a", "10.0.0.1", true)];
    let segments = vec![("a".to_string(), SegmentState::Active)];
    let visual = visual_segments(&vec!["a".to_string(), "zz".to_string()], &configs, &segments);
    assert_eq!(visual[0].label, "A");
    assert_eq!(visual[0].color, "#00ff00");
    assert_eq!(visual[0].state, SegmentState::Active);
    assert_eq!(visual[1].label, "zz");
    assert_eq!(visual[1].color, "#4c8dff");
    assert_eq!(visual[1].state, SegmentState::Unavailable);
    assert_eq!(toggle_state(ActionKind::Program, &visual), Some(1));
    assert_eq!(toggle_state(ActionKind::Program, &visual[..1].to_vec()), Some(0));
    assert_eq!(toggle_state(ActionKind::Shortcut, &visual), None);
    assert!(shows_title(false, "Cam"));
    assert!(!shows_title(true, "Cam"));
    assert!(!shows_title(false, ""));
}

#[test]
fn a_press_sends_one_command_per_target_and_alerts_on_failure() {
    let targets = vec!["a".to_string(), "b".to_string()];
    let plan = press_plan(ActionKind::Program, &program_settings("3"), &targets);
    assert!(!plan.failed);
    assert_eq!(plan.sends.len(), 2);
    assert_eq!(
        plan.sends[1],
        ("b".to_string(), Command::Function { name: "ActiveInput".into(), query: Some("Input=3".into()) })
    );
    let raw = ActionSettings {
        shared: ActionParams { raw: " ".into(), ..ActionParams::default() },
        ..ActionSettings::default()
    };
    let plan = press_plan(ActionKind::Raw, &raw, &targets);
    assert!(plan.failed);
    assert!(plan.sends.is_empty());
    assert!(press_alert(ActionKind::Raw, plan.failed, false));
    assert!(press_alert(ActionKind::Shortcut, false, true));
    assert!(!press_alert(ActionKind::Program, true, true));
    assert_eq!(function_feedback(Some(ActionKind::Transition), false), Some(true));
    assert_eq!(function_feedback(Some(ActionKind::Transition), true), Some(false));
    assert_eq!(function_feedback(Some(ActionKind::Recording), false), None);
    assert_eq!(function_feedback(None, true), None);
}

#[test]
fn a_dial_press_toggles_audio_on_every_target() {
    let settings = ActionSettings {
        shared: ActionParams { audio_target: "master".into(), ..ActionParams::default() },
        ..ActionSettings::default()
    };
    let commands = dial_commands(&settings, &vec!["a".to_string(), "b".to_string()]);
    assert_eq!(commands.len(), 2);
    assert!(matches!(&commands[0].1, Command::Function { name, .. } if name == "MasterAudio"));
}

#[test]
fn titles_and_segments_are_replaced_per_target() {
    let mut titles = vec![("a".to_string(), "Old".to_string()), ("b".to_string(), "B".to_string())];
    put_title(&mut titles, "a", "New".to_string());
    assert!(titles.contains(&("a".to_string(), "New".to_string())));
    assert!(titles.contains(&("b".to_string(), "B".to_string())));
    assert!(!titles.iter().any(|(_, t)| t == "Old"));
    put_title(&mut titles, "b", String::new());
    assert!(!titles.iter().any(|(id, _)| id == "b"));

    let mut segments = vec![("a".to_string(), SegmentState::Active)];
    put_segment(&mut segments, "a", SegmentState::Unavailable);
    put_segment(&mut segments, "c", SegmentState::Inactive);
    assert!(segments.contains(&("a".to_string(), SegmentState::Unavailable)));
    assert!(segments.contains(&("c".to_string(), SegmentState::Inactive)));
    assert_eq!(segments.len(), 2);
}

#[test]
fn inspector_messages_are_told_apart_by_type() {
    assert_eq!(inspector_request(Some("reconnect")), InspectorRequest::Reconnect);
    assert_eq!(inspector_request(Some("globalSettings")), InspectorRequest::GlobalSettings);
    assert_eq!(inspector_request(Some("ready")), InspectorRequest::Ready);
    assert_eq!(inspector_request(Some("Ready")), InspectorRequest::Other);
    assert_eq!(inspector_request(None), InspectorRequest::Other);
}
