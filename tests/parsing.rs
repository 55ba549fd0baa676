use input_devices::path::parse_value_from_path;

const SAMPLE: &str = "\\\\?\\HID#VID_046D&PID_C31C&MI_00#7&...";

#[test]
fn vendor_id_from_sample_path() {
    assert_eq!(parse_value_from_path(SAMPLE, "VID_"), 0x046D);
}

#[test]
fn product_id_from_sample_path() {
    assert_eq!(parse_value_from_path(SAMPLE, "PID_"), 0xC31C);
}

#[test]
fn missing_key_gives_zero() {
    assert_eq!(parse_value_from_path("no markers here", "VID_"), 0);
}

#[test]
fn non_hex_payload_gives_zero() {
    assert_eq!(parse_value_from_path("VID_ZZZZ", "VID_"), 0);
}

#[test]
fn short_payload_gives_zero() {
    assert_eq!(parse_value_from_path("VID_12", "VID_"), 0);
}

#[test]
fn empty_inputs_give_zero() {
    assert_eq!(parse_value_from_path("", ""), 0);
    assert_eq!(parse_value_from_path("", "VID_"), 0);
}

#[test]
fn empty_key_reads_the_start() {
    assert_eq!(parse_value_from_path("BEEF tail", ""), 0xBEEF);
}

#[test]
fn largest_value_is_read() {
    assert_eq!(parse_value_from_path("VID_FFFF", "VID_"), 0xFFFF);
}

#[test]
fn lower_case_digits_are_read() {
    assert_eq!(parse_value_from_path("x VID_abcd", "VID_"), 0xABCD);
}

#[test]
fn only_first_occurrence_counts() {
    assert_eq!(parse_value_from_path("VID_XY12 VID_1234", "VID_"), 0);
    assert_eq!(parse_value_from_path("VID_0001 VID_1234", "VID_"), 1);
}

#[test]
fn exactly_four_digits_are_read() {
    assert_eq!(parse_value_from_path("VID_123456", "VID_"), 0x1234);
}

#[test]
fn sign_is_not_a_digit() {
    assert_eq!(parse_value_from_path("VID_+123", "VID_"), 0);
}

#[test]
fn non_ascii_text_is_handled() {
    assert_eq!(parse_value_from_path("é VID_00é1", "VID_"), 0);
    assert_eq!(parse_value_from_path("ééé VID_0A0B", "VID_"), 0x0A0B);
    assert_eq!(parse_value_from_path("VID_ab", "VID_"), 0);
}

#[test]
fn missing_vendor_does_not_hide_product() {
    let p = "HID#VID_ZZZZ&PID_0042";
    assert_eq!(parse_value_from_path(p, "VID_"), 0);
    assert_eq!(parse_value_from_path(p, "PID_"), 0x0042);
}
