use vmix_plugin::config::{resolve_targets, TargetGroup, TargetSelector, VmixInstanceConfig};

fn config(id: &str, enabled: bool) -> VmixInstanceConfig {
    VmixInstanceConfig {
        id: id.into(),
        name: id.into(),
        host: "10.0.0.1".into(),
        port: 8099,
        color: "#4c8dff".into(),
        enabled,
        xml_interval_ms: 2000,
    }
}

#[test]
fn all_targets_only_enabled_instances_in_order() {
    let cs = vec![config("a", true), config("b", false), config("c", true)];
    assert_eq!(resolve_targets(&TargetSelector::All, &cs, &[]), vec!["a", "c"]);
}

#[test]
fn explicit_ids_and_groups_keep_disabled_instances() {
    let cs = vec![config("a", true), config("b", false), config("c", true)];
    let ids = TargetSelector::Instances { ids: vec!["c".into(), "b".into(), "zz".into()] };
    assert_eq!(resolve_targets(&ids, &cs, &[]), vec!["b", "c"]);
    let groups = vec![TargetGroup { id: "g".into(), name: "G".into(), members: vec!["b".into()] }];
    assert_eq!(resolve_targets(&TargetSelector::Group { id: "g".into() }, &cs, &groups), vec!["b"]);
    assert!(resolve_targets(&TargetSelector::Group { id: "h".into() }, &cs, &groups).is_empty());
}

#[test]
fn endpoint_ignores_name_and_colour() {
    let a = config("a", true);
    let mut b = a.clone();
    b.name = "Other".into();
    b.color = "#ffffff".into();
    assert_eq!(a.endpoint_key(), b.endpoint_key());
    assert_eq!(a.endpoint_key(), "10.0.0.1|8099|true|2000");
    b.port = 1;
    assert_ne!(a.endpoint_key(), b.endpoint_key());
}
