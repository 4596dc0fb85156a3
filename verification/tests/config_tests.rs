use mdns_scanner::config_edit::{
    handle_confirm_action, parse_u16, parse_u32, split_commas_trimmed, trim_ascii, ConfigValue,
    IoThreads,
};

/// Opens the editor on an item, types `typed` into it and confirms.
fn edit_item(item: &mut ConfigValue, typed: &str) -> Result<(), String> {
    let mut editor: Option<String> = None;
    handle_confirm_action(&mut editor, item, "current").map_err(|e| e.msg.clone())?;
    assert_eq!(editor.as_deref(), Some("current"));
    editor = Some(typed.to_string());
    handle_confirm_action(&mut editor, item, "current").map_err(|e| e.msg.clone())
}

fn io_threads(min: u16) -> ConfigValue {
    ConfigValue::ScanIoThreads { val: IoThreads::Dynamic, min_threads: min }
}

fn threads_of(item: &ConfigValue) -> IoThreads {
    match item {
        ConfigValue::ScanIoThreads { val, .. } => *val,
        _ => panic!("not a thread count"),
    }
}

#[test]
fn editing_port_scan_threads_changes_only_that_field() {
    let mut io = io_threads(16);
    let mut port_scan = io_threads(1);
    edit_item(&mut port_scan, "40").unwrap();
    assert_eq!(threads_of(&port_scan), IoThreads::Fixed(40));
    assert_eq!(threads_of(&io), IoThreads::Dynamic);
    edit_item(&mut io, "dynamic").unwrap();
    assert_eq!(threads_of(&io), IoThreads::Dynamic);
}

#[test]
fn editing_io_threads_changes_only_that_field() {
    let mut io = io_threads(16);
    let port_scan = io_threads(1);
    edit_item(&mut io, "40").unwrap();
    assert_eq!(threads_of(&io), IoThreads::Fixed(40));
    assert_eq!(threads_of(&port_scan), IoThreads::Dynamic);
}

#[test]
fn port_scan_threads_edit_accepts_the_full_range() {
    let mut port_scan = io_threads(1);
    edit_item(&mut port_scan, "1").unwrap();
    assert_eq!(threads_of(&port_scan), IoThreads::Fixed(1));
    edit_item(&mut port_scan, "8192").unwrap();
    assert_eq!(threads_of(&port_scan), IoThreads::Fixed(8192));
    assert!(edit_item(&mut port_scan, "8193").is_err());
}

#[test]
fn io_threads_edit_rejects_a_count_below_the_subnet_floor() {
    let mut io = io_threads(16);
    let err = edit_item(&mut io, "1").unwrap_err();
    assert_eq!(err, "Valid values are 16-8192 or 'dynamic'");
    assert_eq!(threads_of(&io), IoThreads::Dynamic);
}

#[test]
fn dynamic_is_case_insensitive() {
    let mut io = ConfigValue::ScanIoThreads { val: IoThreads::Fixed(50), min_threads: 16 };
    edit_item(&mut io, "  DyNaMiC ").unwrap();
    assert_eq!(threads_of(&io), IoThreads::Dynamic);
}

#[test]
fn parse_numbers_like_std() {
    for s in ["0", "+7", "65535", "65536", "", "+", "-1", " 1", "1a", "007"] {
        assert_eq!(parse_u16(s), s.parse::<u16>().ok(), "{s:?}");
    }
    for s in ["4294967295", "4294967296", "12"] {
        assert_eq!(parse_u32(s), s.parse::<u32>().ok(), "{s:?}");
    }
}

#[test]
fn trim_and_split_commas() {
    assert_eq!(trim_ascii(" \t x y \r\n"), "x y");
    assert_eq!(split_commas_trimmed(" 80, 443 ,,22"), vec!["80", "443", "", "22"]);
}

#[test]
fn number_lists_skip_junk_and_repeats() {
    let mut item = ConfigValue::NumberList(None);
    edit_item(&mut item, "80, 443, x, 80, 22").unwrap();
    match &item {
        ConfigValue::NumberList(Some(v)) => assert_eq!(v, &vec![80u16, 443, 22]),
        _ => panic!("expected a list"),
    }
}

#[test]
fn nonzero_and_u32_errors() {
    let mut n = ConfigValue::NumberNonZeroU16(5);
    assert_eq!(edit_item(&mut n, "0").unwrap_err(), "Expected Non-zero u16, got '0'");
    assert_eq!(edit_item(&mut n, "abc").unwrap_err(), "Could not parse as u16");
    edit_item(&mut n, "9").unwrap();
    assert!(matches!(n, ConfigValue::NumberNonZeroU16(9)));
    let mut big = ConfigValue::Numberu32(1);
    assert_eq!(edit_item(&mut big, "x1").unwrap_err(), "Could not parse 'x1' as u32");
    edit_item(&mut big, "4000000000").unwrap();
    assert!(matches!(big, ConfigValue::Numberu32(4_000_000_000)));
}

#[test]
fn regex_lists_are_checked() {
    let mut item = ConfigValue::RegexStringList(vec![]);
    edit_item(&mut item, "^eth, wl.*, ^eth").unwrap();
    match &item {
        ConfigValue::RegexStringList(v) => assert_eq!(v, &vec!["^eth".to_string(), "wl.*".to_string()]),
        _ => panic!("expected patterns"),
    }
    let err = edit_item(&mut item, "ok, (broken").unwrap_err();
    assert!(err.starts_with("Invalid Regex pattern '(broken'\n"));
    match &item {
        ConfigValue::RegexStringList(v) => assert_eq!(v.len(), 2),
        _ => panic!("expected patterns"),
    }
}

#[test]
fn toggles_flip_without_editor() {
    let mut t = ConfigValue::Toggle(false);
    let mut editor = None;
    handle_confirm_action(&mut editor, &mut t, "false").unwrap();
    assert!(matches!(t, ConfigValue::Toggle(true)));
    assert!(editor.is_none());
}
