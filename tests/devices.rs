use input_devices::devices::{
    device_record, identify, keyboard_devices, list_probe_count, path_buffer_len,
    path_from_units, trim_nul_chars, RawDevice, CALL_FAILED, KEYBOARD_KIND,
};
use input_devices::name::simple_name_from_ids;

fn units(s: &str) -> Vec<u16> {
    s.encode_utf16().collect()
}

#[test]
fn name_shows_both_ids() {
    assert_eq!(simple_name_from_ids(0x046D, 0xC31C), "Unknown Device (046D:C31C)");
    assert_eq!(simple_name_from_ids(0, 0), "Unknown Device (0000:0000)");
    assert_eq!(simple_name_from_ids(0xFFFF, 0x00AB), "Unknown Device (FFFF:00AB)");
}

#[test]
fn probe_failure_gives_no_list() {
    assert_eq!(list_probe_count(1, 5), None);
    assert_eq!(list_probe_count(CALL_FAILED, 5), None);
    assert_eq!(list_probe_count(0, 5), Some(5));
    assert_eq!(list_probe_count(0, 0), Some(0));
}

#[test]
fn fill_failure_gives_no_devices() {
    let list = vec![RawDevice { handle: 1, kind: KEYBOARD_KIND }];
    assert!(keyboard_devices(CALL_FAILED, &list).is_empty());
}

#[test]
fn only_keyboards_are_kept_in_order() {
    let list = vec![
        RawDevice { handle: 1, kind: 0 },
        RawDevice { handle: 2, kind: KEYBOARD_KIND },
        RawDevice { handle: 3, kind: 2 },
        RawDevice { handle: 4, kind: KEYBOARD_KIND },
    ];
    let kept = keyboard_devices(4, &list);
    assert_eq!(kept, vec![list[1], list[3]]);
}

#[test]
fn entries_past_the_written_count_are_not_read() {
    let list = vec![
        RawDevice { handle: 1, kind: KEYBOARD_KIND },
        RawDevice { handle: 2, kind: KEYBOARD_KIND },
        RawDevice { handle: 3, kind: KEYBOARD_KIND },
    ];
    assert_eq!(keyboard_devices(2, &list), vec![list[0], list[1]]);
    assert_eq!(keyboard_devices(0, &list), vec![]);
    assert_eq!(keyboard_devices(9, &list), list);
}

#[test]
fn zero_path_length_skips_device() {
    assert_eq!(path_buffer_len(0), None);
    assert_eq!(path_buffer_len(42), Some(42));
}

#[test]
fn nul_padding_is_trimmed() {
    let s: Vec<char> = "\0\0ab\0c\0\0".chars().collect();
    assert_eq!(trim_nul_chars(&s), vec!['a', 'b', '\0', 'c']);
    let all: Vec<char> = vec!['\0', '\0'];
    assert!(trim_nul_chars(&all).is_empty());
    assert!(trim_nul_chars(&Vec::new()).is_empty());
}

#[test]
fn path_buffer_is_decoded() {
    let mut buf = units("\\\\?\\HID#VID_046D");
    buf.push(0);
    buf.push(0);
    let path: String = path_from_units(&buf).into_iter().collect();
    assert_eq!(path, "\\\\?\\HID#VID_046D");
    let lone = vec![0x0041, 0xD800, 0x0042];
    let path: String = path_from_units(&lone).into_iter().collect();
    assert_eq!(path, "A\u{FFFD}B");
}

#[test]
fn record_from_sample_path() {
    let path: Vec<char> = "\\\\?\\HID#VID_046D&PID_C31C&MI_00#7&...".chars().collect();
    let r = device_record("HANDLE(0x1)".to_string(), &path);
    assert_eq!(r.id, "HANDLE(0x1)");
    assert_eq!(r.vendor_id, 0x046D);
    assert_eq!(r.product_id, 0xC31C);
    assert_eq!(r.name, "Unknown Device (046D:C31C)");
}

#[test]
fn identify_fill_failure_gives_nothing() {
    let buf = units("HID#VID_046D&PID_C31C");
    assert!(identify("h".to_string(), CALL_FAILED, &buf).is_none());
}

#[test]
fn identify_builds_record_even_without_ids() {
    let mut buf = units("no ids at all");
    buf.push(0);
    let r = identify("h".to_string(), 14, &buf).unwrap();
    assert_eq!(r.vendor_id, 0);
    assert_eq!(r.product_id, 0);
    assert_eq!(r.name, "Unknown Device (0000:0000)");
}

#[test]
fn identify_reads_ids_from_buffer() {
    let mut buf = units("\\\\?\\HID#VID_046D&PID_C31C&MI_00#7&...");
    buf.push(0);
    let r = identify("HANDLE(0x2)".to_string(), 40, &buf).unwrap();
    assert_eq!(r.vendor_id, 0x046D);
    assert_eq!(r.product_id, 0xC31C);
    assert!(r.name.contains("046D") && r.name.contains("C31C"));
}

#[test]
fn same_answers_give_same_records() {
    let buf = units("HID#VID_1234&PID_ABCD");
    let a = identify("HANDLE(0x1)".to_string(), 21, &buf).unwrap();
    let b = identify("HANDLE(0x9)".to_string(), 21, &buf).unwrap();
    assert_eq!(a.name, b.name);
    assert_eq!(a.vendor_id, b.vendor_id);
    assert_eq!(a.product_id, b.product_id);
}
