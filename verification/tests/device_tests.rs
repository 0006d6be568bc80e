use multi_mouse_tool::device::{
    describe_mouse, extract_vid_pid, mouse_from_decoded_path, raw_input_mouse_handle, trim_end_nuls, vid_pid_from_upper,
    DeviceName, RIM_TYPEMOUSE,
};

const PATH: &str = r"\\?\HID#VID_046D&PID_C077&MI_00#7&2a8e8a3&0&0000#{378de44c-56ef-11d1-bc8c-00a0c91405dd}";

#[test]
fn label_of_a_typical_path() {
    assert_eq!(extract_vid_pid(PATH), "VID_046D PID_C077");
}

#[test]
fn label_of_a_lowercase_path_is_uppercase() {
    let path = r"\\?\hid#vid_046d&pid_c077#7&1b2c&0&0000#{378de44c-56ef-11d1-bc8c-00a0c91405dd}";
    assert_eq!(extract_vid_pid(path), "VID_046D PID_C077");
}

#[test]
fn label_fields_end_at_any_separator_or_the_end() {
    assert_eq!(extract_vid_pid(r"pid_9\x#vid_12"), "VID_12 PID_9");
    assert_eq!(extract_vid_pid("VID_AB#PID_CD"), "VID_AB PID_CD");
    assert_eq!(extract_vid_pid("VID_&PID_"), "VID_ PID_");
}

#[test]
fn label_uses_the_first_occurrence() {
    assert_eq!(extract_vid_pid("VID_1&PID_2#VID_3&PID_4"), "VID_1 PID_2");
}

#[test]
fn path_without_both_ids_is_its_own_label() {
    assert_eq!(extract_vid_pid(r"\\?\ACPI#PNP0F13#4&2f94427b&0"), r"\\?\ACPI#PNP0F13#4&2f94427b&0");
    assert_eq!(extract_vid_pid("hid#vid_046d#x"), "hid#vid_046d#x");
    assert_eq!(extract_vid_pid("pid_1"), "pid_1");
    assert_eq!(extract_vid_pid(""), "");
}

#[test]
fn label_from_a_given_uppercase_form() {
    assert_eq!(vid_pid_from_upper("orig", "X#VID_1&PID_2"), "VID_1 PID_2");
    assert_eq!(vid_pid_from_upper("orig", "X#VID_1"), "orig");
}

#[test]
fn trailing_nuls_are_removed() {
    assert_eq!(trim_end_nuls("abc\0\0\0"), "abc");
    assert_eq!(trim_end_nuls("a\0b\0"), "a\0b");
    assert_eq!(trim_end_nuls("\0\0"), "");
    assert_eq!(trim_end_nuls("abc"), "abc");
}

#[test]
fn device_whose_path_size_is_unavailable() {
    let d = describe_mouse(DeviceName::Unavailable, 42);
    assert_eq!(d.display_name, "(名前取得不可)");
    assert_eq!(d.instance_id, "");
    assert_eq!(d.handle, 42);
}

#[test]
fn device_whose_path_is_unreadable() {
    let d = describe_mouse(DeviceName::Unreadable, -7);
    assert_eq!(d.display_name, "(名前取得失敗)");
    assert_eq!(d.instance_id, "");
    assert_eq!(d.handle, -7);
}

#[test]
fn device_with_a_utf16_path() {
    let mut units: Vec<u16> = r"\\?\hid#vid_1532&pid_0084&mi_00#8&abc".encode_utf16().collect();
    units.push(0);
    units.push(0);
    let d = describe_mouse(DeviceName::Utf16(units), 1234);
    assert_eq!(d.instance_id, r"\\?\hid#vid_1532&pid_0084&mi_00#8&abc");
    assert_eq!(d.display_name, "VID_1532 PID_0084");
    assert_eq!(d.handle, 1234);
}

#[test]
fn device_with_invalid_utf16_keeps_a_replacement_character() {
    let units: Vec<u16> = vec![0x0041, 0xD800, 0x0042, 0];
    let d = describe_mouse(DeviceName::Utf16(units), 1);
    assert_eq!(d.instance_id, "A\u{FFFD}B");
    assert_eq!(d.display_name, "A\u{FFFD}B");
}

#[test]
fn raw_input_from_a_mouse_gives_its_handle() {
    assert_eq!(raw_input_mouse_handle(RIM_TYPEMOUSE, 99), Some(99));
    assert_eq!(raw_input_mouse_handle(1, 99), None);
    assert_eq!(raw_input_mouse_handle(2, 99), None);
}

#[test]
fn device_from_decoded_path_text() {
    let d = mouse_from_decoded_path("\\\\?\\HID#VID_045E&PID_07A5#x\0", 5);
    assert_eq!(d.instance_id, "\\\\?\\HID#VID_045E&PID_07A5#x");
    assert_eq!(d.display_name, "VID_045E PID_07A5");
    assert_eq!(d.handle, 5);
}

#[test]
fn device_with_a_surrogate_pair_and_a_lone_trailing_surrogate() {
    // U+1F5B1 (a surrogate pair), then a lone trailing surrogate, then "x".
    let units: Vec<u16> = vec![0xD83D, 0xDDB1, 0xDC00, 0x0078, 0, 0];
    let d = describe_mouse(DeviceName::Utf16(units), 8);
    assert_eq!(d.instance_id, "\u{1F5B1}\u{FFFD}x");
}
