use wifi_proxy::terse::{
    contains_text, parse_byte, same_text, split_lines, split_once_at, split_record3,
};

#[test]
fn split_lines_strips_crlf_and_final_newline() {
    assert_eq!(split_lines("a\r\nb\n"), vec!["a".to_string(), "b".to_string()]);
    assert_eq!(split_lines("one\ntwo"), vec!["one".to_string(), "two".to_string()]);
}

#[test]
fn split_lines_edge_cases() {
    assert!(split_lines("").is_empty());
    assert_eq!(split_lines("\n"), vec!["".to_string()]);
    assert_eq!(split_lines("a\n\nb"), vec!["a".to_string(), "".to_string(), "b".to_string()]);
    assert_eq!(split_lines("a\r"), vec!["a\r".to_string()]);
}

#[test]
fn record_keeps_later_colons_in_last_field() {
    assert_eq!(
        split_record3("Lab:70:WPA1 WPA2:802.1X"),
        Some(("Lab".to_string(), "70".to_string(), "WPA1 WPA2:802.1X".to_string()))
    );
    assert_eq!(
        split_record3("Open:55:"),
        Some(("Open".to_string(), "55".to_string(), "".to_string()))
    );
}

#[test]
fn record_with_too_few_fields_is_skipped() {
    assert_eq!(split_record3("a:b"), None);
    assert_eq!(split_record3("plain"), None);
}

#[test]
fn key_value_splits_at_first_colon() {
    assert_eq!(
        split_once_at("IP4.ROUTE[1]:dst = 0.0.0.0/0, nh = 192.168.4.1", ':'),
        Some(("IP4.ROUTE[1]".to_string(), "dst = 0.0.0.0/0, nh = 192.168.4.1".to_string()))
    );
    assert_eq!(
        split_once_at("KEY:a:b", ':'),
        Some(("KEY".to_string(), "a:b".to_string()))
    );
    assert_eq!(split_once_at("nocolon", ':'), None);
}

#[test]
fn byte_values_read_like_std() {
    assert_eq!(parse_byte("+7"), Some(7));
    assert_eq!(parse_byte("255"), Some(255));
    assert_eq!(parse_byte("007"), Some(7));
    assert_eq!(parse_byte("0"), Some(0));
    assert_eq!(parse_byte("256"), None);
    assert_eq!(parse_byte("1000"), None);
    assert_eq!(parse_byte(""), None);
    assert_eq!(parse_byte("+"), None);
    assert_eq!(parse_byte("-1"), None);
    assert_eq!(parse_byte("9x"), None);
    assert_eq!(parse_byte(" 9"), None);
}

#[test]
fn substring_search() {
    assert!(contains_text("/sys/devices/usb1/1-2", "usb"));
    assert!(contains_text("usb", "usb"));
    assert!(!contains_text("us", "usb"));
    assert!(!contains_text("/sys/devices/pci0000:00", "usb"));
    assert!(contains_text("anything", ""));
}

#[test]
fn text_equality() {
    assert!(same_text("wifi", "wifi"));
    assert!(!same_text("wifi", "wifi-p2p"));
    assert!(!same_text("Wifi", "wifi"));
    assert!(same_text("", ""));
}
