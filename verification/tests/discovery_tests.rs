use mdns_scanner::discovery::{
    extract_hostnames_from_mdns, listener_due, packet_report, reverse_lookup_names, threads_per_scan,
    HostnameMap, ListenerDue, MdnsRecord,
};
use mdns_scanner::ip_address::IpAddress;
use mdns_scanner::ip_info::LastKnownStatus;
use mdns_scanner::keybindings::{adaptive_width_constraint, sort_keys, FormattedBindings, WidthConstraint};
use mdns_scanner::port_scan::{truncate_with_ellipsis, PortOutcome, PortTally};

fn v4(a: u8, b: u8, c: u8, d: u8) -> IpAddress {
    IpAddress::V4(u32::from_be_bytes([a, b, c, d]))
}

fn a_record(name: &str, ip: IpAddress) -> MdnsRecord {
    match ip {
        IpAddress::V4(bits) => MdnsRecord::A { name: name.to_string(), ip: bits },
        IpAddress::V6(_) => MdnsRecord::Other,
    }
}

fn ptr(target: &str) -> MdnsRecord {
    MdnsRecord::Ptr { target: target.to_string() }
}

#[test]
fn hostname_map_keeps_each_name_once() {
    let mut map = HostnameMap::new();
    let ip = v4(10, 0, 0, 7);
    map.insert_ip_hostname_if_new(ip, "nas.local".to_string());
    map.insert_ip_hostname_if_new(ip, "nas.local".to_string());
    map.insert_ip_hostname_if_new(ip, "files.local".to_string());
    assert_eq!(map.len(), 1);
    assert_eq!(map.names_for(ip), vec!["nas.local".to_string(), "files.local".to_string()]);
    assert!(map.names_for(v4(10, 0, 0, 8)).is_empty());
}

#[test]
fn hostnames_from_answers_and_additional_records() {
    let mut map = HostnameMap::new();
    let source = v4(192, 168, 1, 20);
    let answers = vec![
        ptr("printer.local"),
        ptr(""),
        ptr("localhost"),
        a_record("tv.local", v4(192, 168, 1, 30)),
        MdnsRecord::Other,
    ];
    let additional = vec![
        ptr("ignored.local"),
        a_record("printer-a.local", source),
        a_record("localhost", source),
    ];
    extract_hostnames_from_mdns(&answers, &additional, source, &mut map);
    assert_eq!(map.len(), 2);
    assert_eq!(
        map.names_for(source),
        vec!["printer.local".to_string(), "printer-a.local".to_string()]
    );
    assert_eq!(map.names_for(v4(192, 168, 1, 30)), vec!["tv.local".to_string()]);
    let reports = map.reports();
    assert_eq!(reports.len(), 2);
    assert_eq!(reports[0].ip, source);
    assert_eq!(reports[1].names, vec!["tv.local".to_string()]);
    assert_eq!(reports[1].last_known_status, LastKnownStatus::Online);
}

#[test]
fn packet_report_lists_known_then_packet_names() {
    let mut map = HostnameMap::new();
    let source = v4(172, 16, 0, 2);
    map.insert_ip_hostname_if_new(source, "known.local".to_string());
    let report = packet_report(
        source,
        &map,
        &vec!["a.local".to_string()],
        &vec!["b.local".to_string()],
        &vec!["c.local".to_string()],
    );
    assert_eq!(report.ip, source);
    assert_eq!(report.seen_count(), 1);
    assert_eq!(
        report.names,
        vec!["known.local", "a.local", "b.local", "c.local"]
            .into_iter()
            .map(String::from)
            .collect::<Vec<_>>()
    );
}

#[test]
fn reverse_lookup_keeps_dns_before_mdns() {
    assert_eq!(reverse_lookup_names(None, None), None);
    assert_eq!(
        reverse_lookup_names(Some("host.lan".to_string()), None),
        Some(vec!["host.lan".to_string()])
    );
    assert_eq!(
        reverse_lookup_names(None, Some("host.local".to_string())),
        Some(vec!["host.local".to_string()])
    );
    assert_eq!(
        reverse_lookup_names(Some("host.lan".to_string()), Some("host.local".to_string())),
        Some(vec!["host.lan".to_string(), "host.local".to_string()])
    );
}

#[test]
fn scan_threads_are_shared_with_a_floor() {
    assert_eq!(threads_per_scan(1), 100);
    assert_eq!(threads_per_scan(3), 33);
    assert_eq!(threads_per_scan(10), 10);
    assert_eq!(threads_per_scan(11), 10);
    assert_eq!(threads_per_scan(500), 10);
}

#[test]
fn listener_tasks_fall_due_on_their_intervals() {
    assert_eq!(
        listener_due(None, None, 0),
        ListenerDue { send_queries: true, scan_networks: true, report_hostnames: false }
    );
    assert_eq!(
        listener_due(Some(1999), Some(29_999), 3999),
        ListenerDue { send_queries: false, scan_networks: false, report_hostnames: false }
    );
    assert_eq!(
        listener_due(Some(2000), Some(30_000), 4000),
        ListenerDue { send_queries: true, scan_networks: true, report_hostnames: true }
    );
}

#[test]
fn keys_sort_shortest_first_then_alphabetically() {
    let mut keys = vec!["ctrl+c".to_string(), "q".to_string(), "Esc".to_string(), "a".to_string()];
    sort_keys(&mut keys);
    assert_eq!(keys, vec!["a", "q", "Esc", "ctrl+c"]);
}

#[test]
fn formatted_bindings_group_keys_by_action() {
    let pairs: Vec<(String, String)> = vec![
        ("Quit", "q"),
        ("Quit", "ctrl+c"),
        ("Down", "j"),
        ("Down", "down"),
        ("Up", "k"),
    ]
    .into_iter()
    .map(|(a, k)| (a.to_string(), k.to_string()))
    .collect();
    let table = FormattedBindings::from_keybindings(&pairs);
    let actions: Vec<&str> = table.data.iter().map(|(a, _)| a.as_str()).collect();
    assert_eq!(actions, vec!["Down", "Quit", "Up"]);
    assert_eq!(table.data[0].1, vec!["j".to_string(), "down".to_string()]);
    assert_eq!(table.data[1].1, vec!["q".to_string(), "ctrl+c".to_string()]);
    assert_eq!(table.max_action_width, 10);
    assert_eq!(table.max_keys_width, 10);

    let long: Vec<(String, String)> = vec![
        ("ToggleSelectedPaneLayout".to_string(), "ctrl+shift+l".to_string()),
        ("ToggleSelectedPaneLayout".to_string(), "alt+l".to_string()),
    ];
    let table = FormattedBindings::from_keybindings(&long);
    assert_eq!(table.max_action_width, 24);
    // "ctrl+shift+l, alt+l"
    assert_eq!(table.max_keys_width, 19);
    assert_eq!(table.data[0].1, vec!["alt+l".to_string(), "ctrl+shift+l".to_string()]);
}

#[test]
fn keybindings_width_adapts_to_the_screen() {
    assert_eq!(adaptive_width_constraint(200, 50), WidthConstraint::Length(50));
    assert_eq!(adaptive_width_constraint(200, 150), WidthConstraint::Length(120));
    assert_eq!(adaptive_width_constraint(121, 500), WidthConstraint::Length(72));
    assert_eq!(adaptive_width_constraint(120, 50), WidthConstraint::Percentage(60));
    assert_eq!(adaptive_width_constraint(100, 50), WidthConstraint::Percentage(70));
    assert_eq!(adaptive_width_constraint(81, 50), WidthConstraint::Percentage(79));
    assert_eq!(adaptive_width_constraint(80, 50), WidthConstraint::Percentage(90));
}

#[test]
fn port_tally_orders_open_ports() {
    let mut tally = PortTally::new();
    tally.record(443, PortOutcome::Open);
    tally.record(22, PortOutcome::Open);
    tally.record(25, PortOutcome::Closed);
    tally.record(80, PortOutcome::Open);
    tally.record(8080, PortOutcome::Filtered);
    tally.record(80, PortOutcome::Open);
    assert_eq!(tally.scanned, 6);
    assert_eq!(tally.open_ports, vec![22, 80, 80, 443]);
    assert_eq!(tally.closed, 1);
    assert_eq!(tally.filtered, 1);
}

#[test]
fn truncation_marks_the_cut() {
    assert_eq!(truncate_with_ellipsis("1-1024", 10), "1-1024");
    assert_eq!(truncate_with_ellipsis("1-1024", 6), "1-1024");
    assert_eq!(truncate_with_ellipsis("1-1024", 5), "1-10…");
    assert_eq!(truncate_with_ellipsis("äöü", 2), "ä…");
    assert_eq!(truncate_with_ellipsis("abc", 0), "…");
}

use mdns_scanner::port_scan::{
    compute_selected_ports, dialog_size, frozen_interior_width, open_summary, results_list_height,
    results_list_top, results_placeholder_line_count, results_visible_rows, scanning_content_line_count,
    scanning_list_rows, settings_header_texts, setup_body_line_count, two_column_port_rows, DialogStage,
    HeaderSettings, PortScanDialog, SelectEffect,
};

#[test]
fn dialog_setup_rows_and_toggles() {
    let mut d = PortScanDialog::new(3);
    assert!(!d.is_open());
    d.open(false, 8, 500);
    assert!(d.is_open());
    assert_eq!(d.stage, DialogStage::Setup);
    d.navigate_up();
    assert_eq!(d.focus, 0);
    assert_eq!(d.select(Some(0)), SelectEffect::SelectionChanged);
    assert_eq!(d.ranges_checked, vec![true, false, false]);
    assert_eq!(d.select(Some(0)), SelectEffect::SelectionChanged);
    assert_eq!(d.ranges_checked, vec![false, false, false]);
    for _ in 0..3 {
        d.navigate_down();
    }
    assert!(d.is_custom_ports_focused());
    assert_eq!(d.select(Some(0)), SelectEffect::SelectionChanged);
    assert!(d.custom_checked);
    d.navigate_down();
    assert_eq!(d.select(Some(0)), SelectEffect::Nothing);
    assert!(d.mdns_checked);
    d.navigate_down();
    d.navigate_down();
    d.navigate_down();
    assert_eq!(d.focus, 5);
}

#[test]
fn dialog_scan_lifecycle() {
    let mut d = PortScanDialog::new(2);
    d.open(false, 8, 500);
    for _ in 0..4 {
        d.navigate_down();
    }
    // Nothing selected and no mDNS probe: the start button does nothing.
    assert_eq!(d.select(Some(0)), SelectEffect::Nothing);
    assert_eq!(d.select(None), SelectEffect::Nothing);
    assert!(!d.can_start(None));
    assert!(d.can_start(Some(3)));
    assert_eq!(d.select(Some(3)), SelectEffect::ScanStarted);
    assert!(d.is_scanning());
    d.navigate_down();
    assert_eq!(d.select(Some(3)), SelectEffect::Nothing);
    assert!(d.is_scanning());
    assert!(d.finish_scan());
    assert_eq!(d.stage, DialogStage::Results);
    d.navigate_down();
    d.navigate_down();
    assert_eq!(d.results_selected, 2);
    d.navigate_up();
    assert_eq!(d.results_selected, 1);
    assert!(d.rescan(Some(3)));
    assert!(d.is_scanning());
    assert!(d.finish_scan());
    assert!(!d.finish_scan());
    assert_eq!(d.select(Some(3)), SelectEffect::Nothing);
    assert_eq!(d.stage, DialogStage::Setup);
    d.close();
    assert!(!d.is_open());
    assert!(!d.start_scan(Some(3)));
    d.open(true, 8, 500);
    assert_eq!(d.stage, DialogStage::Results);
    assert_eq!(d.results_selected, 0);
}

#[test]
fn selected_ports_are_a_sorted_union() {
    let ranges = vec![(0u16, 3u16), (65534u16, 65535u16), (10u16, 12u16)];
    let checked = vec![true, true, false];
    let custom = vec![80u16, 2, 80, 443];
    assert_eq!(
        compute_selected_ports(&ranges, &checked, &custom),
        vec![0, 1, 2, 3, 80, 443, 65534, 65535]
    );
    assert_eq!(compute_selected_ports(&ranges, &vec![false, false, false], &vec![]), Vec::<u16>::new());
    assert_eq!(compute_selected_ports(&vec![(5, 4)], &vec![true], &vec![]), Vec::<u16>::new());
}

#[test]
fn dialog_geometry() {
    assert_eq!(setup_body_line_count(4), 13);
    assert_eq!(scanning_content_line_count(13), 7);
    assert_eq!(scanning_content_line_count(4), 0);
    assert_eq!(scanning_list_rows(13, 10), 4);
    assert_eq!(scanning_list_rows(13, 2), 2);
    assert_eq!(scanning_list_rows(8, 5), 0);
    assert_eq!(results_visible_rows(false, 50), 8);
    assert_eq!(results_visible_rows(false, 18), 5);
    assert_eq!(results_visible_rows(true, 18), 4);
    assert_eq!(results_visible_rows(true, 5), 1);
    assert_eq!(results_list_top(false), 8);
    assert_eq!(results_list_top(true), 9);
    assert_eq!(results_list_height(0, 8), 1);
    assert_eq!(results_list_height(20, 8), 8);
    assert_eq!(results_list_height(3, 8), 3);
    assert_eq!(results_placeholder_line_count(true, 3, 8), 8);
    assert_eq!(results_placeholder_line_count(false, 0, 8), 5);
    assert_eq!(frozen_interior_width(30, 20, 40), 46);
    assert_eq!(frozen_interior_width(60, 20, 40), 60);
    assert_eq!(dialog_size(50, 13, 200, 60), (54, 17));
    assert_eq!(dialog_size(50, 13, 40, 10), (40, 10));
}

#[test]
fn open_count_summary() {
    assert_eq!(open_summary(1, 0), " open port");
    assert_eq!(open_summary(0, 0), " open ports");
    assert_eq!(open_summary(3, 12), " open ports (12 filtered)");
}

#[test]
fn ports_fill_the_left_column_first() {
    let ports = vec![22u16, 80, 443, 8080, 9];
    let labels: Vec<String> = vec!["ssh", "http", "https", "http-alt", "-"]
        .into_iter()
        .map(String::from)
        .collect();
    let rows = two_column_port_rows(&ports, &labels);
    assert_eq!(
        rows,
        vec![
            "  22    ssh    8080  http-alt".to_string(),
            "  80    http   9     -".to_string(),
            "  443   https".to_string(),
        ]
    );
    assert!(two_column_port_rows(&vec![], &vec![]).is_empty());
}

#[test]
fn settings_header_lines() {
    let h = HeaderSettings {
        port_count: 1024,
        ranges_text: "0-1023".to_string(),
        worker_count: 64,
        connect_timeout: (0, 250_000_000),
        all_filtered_duration: (125, 0),
        mdns_probe_timeout: None,
    };
    let (ranges, metrics) = settings_header_texts(&h, 40);
    assert_eq!(ranges, "0-1023");
    assert_eq!(metrics, "64 workers   250ms   max 2m 5s");
    let (ranges, _) = settings_header_texts(&h, 4);
    assert_eq!(ranges, "0-1…");
    let none = HeaderSettings { port_count: 0, mdns_probe_timeout: None, ..h };
    assert_eq!(settings_header_texts(&none, 40).1, "64 workers   250ms   max —");
    let mdns_only = HeaderSettings {
        port_count: 0,
        ranges_text: String::new(),
        worker_count: 64,
        connect_timeout: (1, 0),
        all_filtered_duration: (0, 0),
        mdns_probe_timeout: Some((0, 500_000_000)),
    };
    assert_eq!(
        settings_header_texts(&mdns_only, 40),
        ("mDNS probe only".to_string(), "5353/udp   max 500ms".to_string())
    );
}

#[test]
fn setup_screen_lines() {
    let mut d = PortScanDialog::new(2);
    d.open(false, 8, 500);
    d.select(Some(0));
    let labels = vec!["Well-known".to_string(), "Registered".to_string()];
    let ranges = vec![(0u16, 1023u16), (1024u16, 49151u16)];
    assert_eq!(
        d.setup_content_lines(&labels, &ranges, ""),
        vec![
            "▶ [*] Well-known       0-1023",
            "  [ ] Registered       1024-49151",
            "  [ ] Custom           22,80,443,8000-8100",
            "",
            "  [ ] probe mDNS       (5353/udp)",
            "",
            "  [ Start scan ]",
        ]
    );
    for _ in 0..4 {
        d.navigate_down();
    }
    let lines = d.setup_content_lines(&labels, &ranges, "22,443");
    assert_eq!(lines[2], "  [ ] Custom           22,443");
    assert_eq!(lines[6], "▶ [ Start scan ]");
}

use mdns_scanner::port_scan::{scan_title, ticker_text};

#[test]
fn dialog_title_and_ticker() {
    assert_eq!(scan_title(v4(192, 168, 1, 5), Some("nas.local")), "Port scan 192.168.1.5 (nas.local)");
    assert_eq!(scan_title(IpAddress::V6(1), None), "Port scan ::1");
    assert_eq!(ticker_text(0, 420_000_000, false), "420ms");
    assert_eq!(ticker_text(125, 0, true), "2m 5s  cancelled");
}

#[test]
fn dialog_width_is_frozen_and_scan_recorded() {
    let mut d = PortScanDialog::new(2);
    assert_eq!(d.last_body_lines, 11);
    d.open(false, 8, 500);
    assert_eq!(d.freeze_interior_width(30, 60, 40), 60);
    d.navigate_down();
    assert_eq!(d.freeze_interior_width(80, 90, 100), 60);
    d.record_body_lines(0);
    assert_eq!(d.last_body_lines, 11);
    d.refresh_live_settings(16, 750);
    d.mdns_checked = true;
    assert!(d.start_scan(Some(1024)));
    assert_eq!(d.running.port_count, 1024);
    assert!(d.running.mdns_probe);
    assert_eq!(d.running.body_height, 11);
    assert_eq!(d.running.worker_count, 16);
    assert_eq!(d.running.connect_timeout_ms, 750);
    d.refresh_live_settings(4, 100);
    assert_eq!(d.running.worker_count, 16);
    d.record_body_lines(30);
    assert_eq!(d.last_body_lines, 11);
    assert_eq!(d.running.tally.scanned, 0);
    assert!(d.running.tally.open_ports.is_empty());
    d.running.tally.record(22, PortOutcome::Open);
    assert!(d.finish_scan());
    assert_eq!(d.running.tally.open_ports, vec![22]);
    d.record_body_lines(7);
    assert_eq!(d.last_body_lines, 13);
    d.close();
    assert_eq!(d.target, None);
    d.refresh_live_settings(2, 2);
    assert_eq!(d.target, None);
    d.open(true, 8, 500);
    assert_eq!(d.frozen_width, None);
    assert_eq!(d.freeze_interior_width(10, 10, 10), 46);
}

use mdns_scanner::port_scan::selected_ports;

#[test]
fn custom_text_counts_only_when_checked_and_not_blank() {
    let ranges = vec![(20u16, 22u16)];
    let checked = vec![true];
    assert_eq!(
        selected_ports(&ranges, &checked, true, " 80,21 ", Ok(vec![80, 21])),
        Ok(vec![20, 21, 22, 80])
    );
    assert_eq!(
        selected_ports(&ranges, &checked, true, "8x", Err("bad port".to_string())),
        Err("bad port".to_string())
    );
    assert_eq!(
        selected_ports(&ranges, &checked, true, "   ", Err("empty".to_string())),
        Ok(vec![20, 21, 22])
    );
    assert_eq!(
        selected_ports(&ranges, &checked, false, "8x", Err("bad port".to_string())),
        Ok(vec![20, 21, 22])
    );
}
