use vmix_plugin::kind::ActionKind;
use vmix_plugin::render::{
    escape, fill_for, hardware_state, icon_path, initial, svg_data_uri, Segment, SegmentState,
};

#[test]
fn hardware_state_is_on_only_when_every_segment_is_active() {
    assert_eq!(hardware_state(&[SegmentState::Active, SegmentState::Active]), 0);
    assert_eq!(hardware_state(&[SegmentState::Active, SegmentState::Inactive]), 1);
    assert_eq!(hardware_state(&[SegmentState::Neutral]), 1);
}

#[test]
fn a_key_without_segments_is_off() {
    assert_eq!(hardware_state(&[]), 1);
}

#[test]
fn data_uri_carries_the_standard_base64_of_the_svg() {
    assert_eq!(svg_data_uri("<svg/>"), "data:image/svg+xml;base64,PHN2Zy8+");
    assert_eq!(svg_data_uri("ab"), "data:image/svg+xml;base64,YWI=");
    assert_eq!(svg_data_uri(""), "data:image/svg+xml;base64,");
}

#[test]
fn initial_is_the_upper_cased_first_letter() {
    assert_eq!(initial("studio"), "S");
    assert_eq!(initial("  élan"), "É");
    assert_eq!(initial("   "), "?");
}

#[test]
fn escape_covers_markup_characters() {
    assert_eq!(escape("a<b>&\"c'"), "a&lt;b&gt;&amp;\"c'");
    assert_eq!(escape("plain"), "plain");
}

#[test]
fn fill_follows_the_segment_state() {
    let seg = |state| Segment { label: "A".into(), color: "#123456".into(), state };
    assert_eq!(fill_for(&seg(SegmentState::Active)), "#123456");
    assert_ne!(fill_for(&seg(SegmentState::Inactive)), "#123456");
}

#[test]
fn every_kind_has_an_icon() {
    assert!(!icon_path(ActionKind::Program).is_empty());
    assert!(icon_path(ActionKind::Volume).starts_with("<path"));
}
