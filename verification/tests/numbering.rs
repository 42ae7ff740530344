use vmix_plugin::numbering::{
    acts_preview_name, acts_program_name, tcp_mix_value, xml_mix_index, xml_mix_path,
};

#[test]
fn main_mix_omits_the_tcp_parameter_and_uses_plain_acts_names() {
    assert_eq!(tcp_mix_value(0), None);
    assert_eq!(acts_program_name(0), "Input");
    assert_eq!(acts_preview_name(0), "InputPreview");
    assert_eq!(xml_mix_path(0), "vmix/mix[0]");
}

#[test]
fn mix_two_and_sixteen_shift_only_the_tcp_and_xpath_numbers() {
    assert_eq!(tcp_mix_value(2), Some(1));
    assert_eq!(acts_program_name(2), "InputMix2");
    assert_eq!(acts_preview_name(2), "InputPreviewMix2");
    assert_eq!(xml_mix_index(2), 1);
    assert_eq!(xml_mix_path(2), "vmix/mix[1]");

    assert_eq!(tcp_mix_value(16), Some(15));
    assert_eq!(acts_program_name(16), "InputMix16");
    assert_eq!(xml_mix_path(16), "vmix/mix[15]");
}

#[test]
fn every_numbering_of_mix_nine_agrees() {
    assert_eq!(tcp_mix_value(9), Some(8));
    assert_eq!(xml_mix_index(9), 8);
    assert_eq!(acts_program_name(9), "InputMix9");
    assert_eq!(acts_preview_name(9), "InputPreviewMix9");
    assert_eq!(xml_mix_path(9), "vmix/mix[8]");
}
