use vmix_plugin::cache::{
    activator_from_parts, apply_acts, merge_xml, Activator, CachedInput, VmixState, XmlInput, XmlMix, XmlOverlay,
    XmlSnapshot,
};

fn sample() -> XmlSnapshot {
    XmlSnapshot {
        version: "29.0.0.0".into(),
        edition: "4K".into(),
        fade_to_black: false,
        recording: false,
        streaming: false,
        external: false,
        fullscreen: false,
        multi_corder: false,
        active: "1".into(),
        preview: "2".into(),
        mixes: vec![XmlMix { number: "2".into(), active: "2".into(), preview: "1".into() }],
        inputs: vec![
            XmlInput {
                number: "1".into(),
                key: "cam-key".into(),
                title: "Cam".into(),
                short_title: "Cam".into(),
                selected_index: None,
                muted: Some(false),
                volume: Some(80),
                solo: None,
            },
            XmlInput {
                number: "2".into(),
                key: "guest-key".into(),
                title: "Guest".into(),
                short_title: "Guest".into(),
                selected_index: Some("3".into()),
                muted: Some(true),
                volume: Some(100),
                solo: None,
            },
        ],
        master_volume: 100,
        master_muted: false,
        bus_a: None,
        bus_b: None,
        bus_c: None,
        bus_d: None,
        bus_e: None,
        bus_f: None,
        bus_g: None,
        overlays: vec![XmlOverlay { number: "1".into(), input: None }],
    }
}

#[test]
fn xml_snapshot_keeps_main_and_numbered_mixes() {
    let mut state = VmixState::default();
    merge_xml(&mut state, &sample());
    assert_eq!(state.program.get(&0), Some(&1));
    assert_eq!(state.preview.get(&0), Some(&2));
    assert!(state.mixes_present.contains(&2));
    assert_eq!(state.program.get(&2), Some(&2));
    assert_eq!(state.resolve_input("Guest"), Some(2));
    assert!(!state.multi_corder);
    assert_eq!(state.input_volume.get(&1).copied(), Some(80));
}

#[test]
fn snapshot_records_version_audio_and_input_rows() {
    let mut state = VmixState::default();
    merge_xml(&mut state, &sample());
    assert_eq!(state.version, "29.0.0.0");
    assert_eq!(state.edition, "4K");
    assert_eq!(state.input_audio.get(&1), Some(&true));
    assert_eq!(state.input_audio.get(&2), Some(&false));
    assert!(state.master_audio);
    assert_eq!(state.master_volume, 100);
    assert_eq!(state.inputs.len(), 2);
    assert_eq!(state.inputs[1].selected_index.as_deref(), Some("3"));
    assert_eq!(state.sorted_mixes(), vec![0, 2]);
}

#[test]
fn an_empty_version_keeps_the_known_one() {
    let mut state = VmixState::default();
    merge_xml(&mut state, &sample());
    let mut later = sample();
    later.version = String::new();
    later.mixes.clear();
    merge_xml(&mut state, &later);
    assert_eq!(state.version, "29.0.0.0");
    assert_eq!(state.sorted_mixes(), vec![0]);
}

#[test]
fn program_activator_of_one_mix_leaves_the_others() {
    let mut state = VmixState::default();
    state.program.insert(2, 1);
    let name = apply_acts(&mut state, Activator::Program { mix: 0, input: 1, on: true });
    assert_eq!(name, "Input");
    assert_eq!(state.program.get(&0), Some(&1));
    let name = apply_acts(&mut state, Activator::Program { mix: 0, input: 1, on: false });
    assert_eq!(name, "Input");
    assert_eq!(state.program.get(&0), None);
    assert_eq!(state.program.get(&2), Some(&1));
}

#[test]
fn switching_off_another_input_keeps_the_slot() {
    let mut state = VmixState::default();
    apply_acts(&mut state, Activator::Program { mix: 2, input: 2, on: true });
    apply_acts(&mut state, Activator::Program { mix: 2, input: 1, on: false });
    assert_eq!(state.program.get(&2), Some(&2));
}

#[test]
fn overlay_and_bus_activators_report_their_names() {
    let mut state = VmixState::default();
    assert_eq!(
        apply_acts(&mut state, Activator::Overlay { channel: 8, input: 4, on: true }),
        "Overlay8"
    );
    assert_eq!(state.overlays.get(&8), Some(&4));
    assert_eq!(apply_acts(&mut state, Activator::BusAudio { bus: 'C', on: true }), "BusCAudio");
    assert_eq!(
        apply_acts(&mut state, Activator::InputBusAudio { input: 3, bus: 'B', on: true }),
        "InputBusBAudio"
    );
    assert_eq!(apply_acts(&mut state, Activator::MasterVolume { percent: 70 }), "MasterVolume");
    assert_eq!(state.master_volume, 70);
    assert_eq!(
        apply_acts(&mut state, Activator::Unknown { parts: vec!["Custom".into(), "1".into()] }),
        "Custom"
    );
    assert_eq!(apply_acts(&mut state, Activator::Unknown { parts: vec![] }), "Unknown");
}

#[test]
fn inputs_resolve_by_number_key_or_title() {
    let mut state = VmixState::default();
    state.inputs.push(CachedInput {
        number: 5,
        key: "k5".into(),
        title: "Studio".into(),
        short_title: "St".into(),
        selected_index: None,
    });
    assert_eq!(state.resolve_input("7"), Some(7));
    assert_eq!(state.resolve_input("Studio"), Some(5));
    assert_eq!(state.resolve_input("nothing"), None);
    assert!(state.mix_available(0));
    assert!(!state.mix_available(3));
}

#[test]
fn a_cloned_state_keeps_the_mixes() {
    let mut state = VmixState::default();
    state.mixes_present.insert(4);
    let copy = state.clone();
    assert!(copy.mixes_present.contains(&4));
    assert_eq!(copy.sorted_mixes(), vec![4]);
}

#[test]
fn overlay_channels_the_tcp_crate_lacks_are_read_from_their_parts() {
    let parts = vec!["Overlay8".to_string(), "4".to_string(), "1".to_string()];
    assert!(matches!(
        activator_from_parts(parts),
        Activator::Overlay { channel: 8, input: 4, on: true }
    ));
    let off = vec!["Overlay5".to_string(), "x".to_string(), "0".to_string()];
    assert!(matches!(
        activator_from_parts(off),
        Activator::Overlay { channel: 5, input: 0, on: false }
    ));
    let other = vec!["Overlay9".to_string(), "1".to_string(), "1".to_string()];
    assert!(matches!(activator_from_parts(other), Activator::Unknown { .. }));
    let short = vec!["Overlay6".to_string()];
    assert!(matches!(activator_from_parts(short), Activator::Unknown { .. }));
}
