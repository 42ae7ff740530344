use vmix_plugin::cache::{apply_acts, Activator, VmixState};
use vmix_plugin::contracts::ActionParams;
use vmix_plugin::kind::ActionKind;
use vmix_plugin::ops::{
    command_for, event_affects, mute_command, segment_for, shortcut_name, shortcut_panics,
    title_for, volume_command, volume_level, watched_preview_activator, watched_program_activator,
};
use vmix_plugin::pool::Command;
use vmix_plugin::render::SegmentState;

fn loaded() -> VmixState {
    let mut state = VmixState::default();
    state.program.insert(0, 1);
    state.preview.insert(0, 2);
    state.program.insert(2, 2);
    state.mixes_present.insert(0);
    state.mixes_present.insert(2);
    state.input_audio.insert(1, true);
    state
}

fn function(command: Option<Command>) -> (String, Option<String>) {
    match command {
        Some(Command::Function { name, query }) => (name, query),
        other => panic!("function expected, got {other:?}"),
    }
}

#[test]
fn mix_two_sends_mix_equals_one_and_watches_input_mix_two() {
    let params = ActionParams {
        input: "1".into(),
        mix: 2,
        ..ActionParams::default()
    };
    let (name, query) = function(command_for(ActionKind::Program, &params));
    assert_eq!(name, "ActiveInput");
    assert_eq!(query.as_deref(), Some("Input=1&Mix=1"));
    assert_eq!(watched_program_activator(2), "InputMix2");
    assert_eq!(watched_program_activator(0), "Input");
    assert_eq!(watched_program_activator(16), "InputMix16");
    let mix16 = ActionParams {
        input: "1".into(),
        mix: 16,
        ..ActionParams::default()
    };
    let (_, query) = function(command_for(ActionKind::Program, &mix16));
    assert_eq!(query.as_deref(), Some("Input=1&Mix=15"));
}

#[test]
fn overlay_eight_lights_only_for_the_matching_input() {
    let mut state = loaded();
    state.overlays.insert(8, 4);
    let matched = ActionParams {
        overlay: 8,
        input: "4".into(),
        ..ActionParams::default()
    };
    let other = ActionParams {
        overlay: 8,
        input: "1".into(),
        ..ActionParams::default()
    };
    assert_eq!(segment_for(ActionKind::Overlay, &matched, &state, true), SegmentState::Active);
    assert_eq!(segment_for(ActionKind::Overlay, &other, &state, true), SegmentState::Inactive);
    assert_eq!(
        segment_for(ActionKind::Overlay, &matched, &state, false),
        SegmentState::Unavailable
    );
}

#[test]
fn mute_is_the_inverse_of_input_audio() {
    let mut state = loaded();
    let params = ActionParams {
        input: "1".into(),
        audio_target: "input".into(),
        ..ActionParams::default()
    };
    state.input_audio.insert(1, true);
    assert_eq!(segment_for(ActionKind::Mute, &params, &state, true), SegmentState::Inactive);
    state.input_audio.insert(1, false);
    assert_eq!(segment_for(ActionKind::Mute, &params, &state, true), SegmentState::Active);
}

#[test]
fn shortcut_encodes_spaces_and_keeps_the_function_name() {
    let params = ActionParams {
        function_name: "SetText".into(),
        input: "1".into(),
        value: "hello world".into(),
        ..ActionParams::default()
    };
    let (name, query) = function(command_for(ActionKind::Shortcut, &params));
    assert_eq!(name, "SetText");
    assert_eq!(query.as_deref(), Some("Input=1&Value=hello%20world"));
    let pasted = ActionParams {
        function_name:
            "http://127.0.0.1:8088/api/?Function=SetText&Input=1&Value=hello%20world&Mix=1".into(),
        input: "9".into(),
        ..ActionParams::default()
    };
    let (name, query) = function(command_for(ActionKind::Shortcut, &pasted));
    assert_eq!(name, "SetText");
    assert_eq!(query.as_deref(), Some("Input=1&Value=hello%20world&Mix=1"));
    assert_eq!(shortcut_name(&pasted), "SetText");
}

#[test]
fn volume_round_trips_between_acts_fraction_and_percent() {
    let params = ActionParams {
        input: "1".into(),
        audio_target: "input".into(),
        ..ActionParams::default()
    };
    let Command::Function { name, query } = volume_command(&params, 50) else {
        panic!("function");
    };
    assert_eq!(name, "SetVolume");
    assert_eq!(query.as_deref(), Some("Value=50&Input=1"));
}

#[test]
fn missing_aux_mix_is_unavailable() {
    let state = loaded();
    let params = ActionParams {
        input: "1".into(),
        mix: 3,
        ..ActionParams::default()
    };
    assert_eq!(segment_for(ActionKind::Program, &params, &state, true), SegmentState::Unavailable);
}

#[test]
fn program_key_lights_for_its_input_by_number_or_title() {
    let mut state = loaded();
    state.inputs.push(vmix_plugin::cache::CachedInput {
        number: 1,
        key: "cam-key".into(),
        title: "Cam".into(),
        short_title: "Cam".into(),
        selected_index: None,
    });
    let by_number = ActionParams { input: "1".into(), ..ActionParams::default() };
    let by_title = ActionParams { input: "Cam".into(), ..ActionParams::default() };
    let other = ActionParams { input: "3".into(), ..ActionParams::default() };
    assert_eq!(segment_for(ActionKind::Program, &by_number, &state, true), SegmentState::Active);
    assert_eq!(segment_for(ActionKind::Program, &by_title, &state, true), SegmentState::Active);
    assert_eq!(segment_for(ActionKind::Program, &other, &state, true), SegmentState::Inactive);
}

#[test]
fn one_shot_kinds_show_a_neutral_segment() {
    let state = loaded();
    let params = ActionParams::default();
    assert_eq!(segment_for(ActionKind::Transition, &params, &state, true), SegmentState::Neutral);
    assert_eq!(segment_for(ActionKind::Raw, &params, &state, true), SegmentState::Neutral);
    assert_eq!(segment_for(ActionKind::Recording, &params, &state, true), SegmentState::Inactive);
}

#[test]
fn preview_key_watches_the_preview_activator_of_its_mix() {
    assert_eq!(watched_preview_activator(0), "InputPreview");
    assert_eq!(watched_preview_activator(3), "InputPreviewMix3");
    assert!(event_affects(ActionKind::Preview, "InputPreviewMix3"));
    assert!(!event_affects(ActionKind::Preview, "InputMix3"));
}

#[test]
fn events_reach_only_the_kinds_that_show_them() {
    assert!(event_affects(ActionKind::Program, "Input"));
    assert!(event_affects(ActionKind::Program, "InputMix7"));
    assert!(!event_affects(ActionKind::Program, "InputPreview"));
    assert!(event_affects(ActionKind::Mute, "BusAAudio"));
    assert!(!event_affects(ActionKind::Mute, "InputBusAAudio"));
    assert!(event_affects(ActionKind::BusSend, "InputBusAAudio"));
    assert!(event_affects(ActionKind::Volume, "MasterVolume"));
    assert!(!event_affects(ActionKind::Shortcut, "Input"));
}

#[test]
fn raw_command_is_sent_only_when_not_blank() {
    let blank = ActionParams { raw: "   ".into(), ..ActionParams::default() };
    assert_eq!(command_for(ActionKind::Raw, &blank), None);
    let raw = ActionParams { raw: "FUNCTION Cut".into(), ..ActionParams::default() };
    assert_eq!(command_for(ActionKind::Raw, &raw), Some(Command::Raw("FUNCTION Cut".into())));
    assert_eq!(command_for(ActionKind::Volume, &raw), None);
}

#[test]
fn fixed_functions_carry_their_names() {
    let params = ActionParams::default();
    assert_eq!(function(command_for(ActionKind::Recording, &params)).0, "StartStopRecording");
    assert_eq!(function(command_for(ActionKind::FadeToBlack, &params)).0, "FadeToBlack");
    let stinger = ActionParams { stinger: 12, ..ActionParams::default() };
    assert_eq!(function(command_for(ActionKind::Stinger, &stinger)).0, "Stinger8");
}

#[test]
fn master_and_bus_volume_commands() {
    let master = ActionParams { audio_target: "master".into(), ..ActionParams::default() };
    assert_eq!(
        volume_command(&master, 0),
        Command::Function { name: "SetMasterVolume".into(), query: Some("Value=0".into()) }
    );
    let bus = ActionParams { audio_target: "bus".into(), bus: "B".into(), ..ActionParams::default() };
    assert_eq!(
        volume_command(&bus, 100),
        Command::Function { name: "SetBusBVolume".into(), query: Some("Value=100".into()) }
    );
}

#[test]
fn mute_command_names_the_audio_function() {
    let params = ActionParams {
        input: "2".into(),
        audio_target: "input".into(),
        ..ActionParams::default()
    };
    let Command::Function { name, query } = mute_command(&params) else {
        panic!("function");
    };
    assert_eq!(name, "Audio");
    assert_eq!(query.as_deref(), Some("Input=2"));
}

#[test]
fn titles_follow_the_kind() {
    let mut state = loaded();
    state.input_volume.insert(1, 42);
    let params = ActionParams {
        input: "1".into(),
        audio_target: "input".into(),
        overlay: 3,
        ..ActionParams::default()
    };
    assert_eq!(volume_level(&state, &params), 42);
    assert_eq!(title_for(ActionKind::Volume, &params, &state), "42");
    assert_eq!(title_for(ActionKind::Program, &params, &state), "1");
    assert_eq!(title_for(ActionKind::Overlay, &params, &state), "OL3");
    assert_eq!(title_for(ActionKind::Recording, &params, &state), "");
}

#[test]
fn a_readable_shortcut_line_does_not_panic() {
    let params = ActionParams { function_name: "Cut".into(), ..ActionParams::default() };
    assert!(!shortcut_panics(&params));
    assert_eq!(shortcut_name(&params), "Cut");
}

#[test]
fn a_program_key_follows_activators_of_its_own_mix() {
    let mut state = loaded();
    let key = ActionParams { input: "3".into(), mix: 2, ..ActionParams::default() };
    assert_eq!(segment_for(ActionKind::Program, &key, &state, true), SegmentState::Inactive);
    apply_acts(&mut state, Activator::Program { mix: 2, input: 3, on: true });
    assert_eq!(segment_for(ActionKind::Program, &key, &state, true), SegmentState::Active);
    apply_acts(&mut state, Activator::Program { mix: 0, input: 1, on: false });
    assert_eq!(segment_for(ActionKind::Program, &key, &state, true), SegmentState::Active);
    apply_acts(&mut state, Activator::Program { mix: 2, input: 3, on: false });
    assert_eq!(segment_for(ActionKind::Program, &key, &state, true), SegmentState::Inactive);
    assert!(event_affects(ActionKind::Overlay, "Overlay8"));
}
