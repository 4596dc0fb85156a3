use mdns_scanner::collector::{CollectorUpdate, IpInfoCollector};
use mdns_scanner::dns_sd::{handle_answer, DnsAnswer, FollowUp, ServiceInfo, ServiceRegistry};
use mdns_scanner::ip_address::IpAddress;
use mdns_scanner::ip_db::IpDb;
use mdns_scanner::ip_info::{IpInfo, LastKnownStatus, ServiceInstance};
use mdns_scanner::lexical::{append_missing_texts, dedup_texts, sort_texts, str_le};
use mdns_scanner::mdns_info::{AccumulatedMdnsInfo, MdnsInfo};

fn v4(a: u8, b: u8, c: u8, d: u8) -> IpAddress {
    IpAddress::V4(u32::from_be_bytes([a, b, c, d]))
}

fn strings(v: &[&str]) -> Vec<String> {
    v.iter().map(|s| s.to_string()).collect()
}

#[test]
fn ipv4_text_is_dotted_quad() {
    assert_eq!(v4(192, 168, 1, 1).text(), "192.168.1.1");
    assert_eq!(v4(0, 0, 0, 0).text(), "0.0.0.0");
}

#[test]
fn ipv6_text_matches_rfc_5952() {
    let cases: Vec<(u128, &str)> = vec![
        (0, "::"),
        (1, "::1"),
        (0xfe80_0000_0000_0000_0000_0000_0000_0001, "fe80::1"),
        (0x2001_0db8_0000_0000_0008_0800_200c_417a, "2001:db8::8:800:200c:417a"),
        (0x2001_0db8_0000_0001_0000_0000_0000_0001, "2001:db8:0:1::1"),
        (0x0000_0000_0000_0000_0000_ffff_c0a8_0001, "::ffff:192.168.0.1"),
        (0x2001_0db8_85a3_0000_0000_8a2e_0370_7334, "2001:db8:85a3::8a2e:370:7334"),
        (0x0001_0000_0000_0002_0000_0000_0000_0003, "1:0:0:2::3"),
        (0x0001_0000_0000_0002_0000_0000_0003_0004, "1::2:0:0:3:4"),
        (0x0001_0000_0002_0000_0003_0000_0004_0000, "1:0:2:0:3:0:4:0"),
        (0xffff_ffff_ffff_ffff_ffff_ffff_ffff_ffff, "ffff:ffff:ffff:ffff:ffff:ffff:ffff:ffff"),
    ];
    for (v, expected) in cases {
        assert_eq!(IpAddress::V6(v).text(), expected);
    }
}

#[test]
fn texts_sort_like_strings() {
    let mut v = strings(&["b.local", "a.local", "B.local", "a", ""]);
    sort_texts(&mut v);
    let mut expected = strings(&["b.local", "a.local", "B.local", "a", ""]);
    expected.sort();
    assert_eq!(v, expected);
    assert!(str_le("abc", "abd"));
    assert!(str_le("ab", "abc"));
    assert!(!str_le("b", "abc"));
}

#[test]
fn dedup_removes_adjacent_repeats_only() {
    let mut v = strings(&["a", "a", "b", "a", "a"]);
    dedup_texts(&mut v);
    assert_eq!(v, strings(&["a", "b", "a"]));
}

#[test]
fn append_missing_adds_new_texts_once() {
    let mut v = strings(&["x", "y"]);
    append_missing_texts(&mut v, &strings(&["y", "z", "z", "w"]));
    assert_eq!(v, strings(&["x", "y", "z", "w"]));
}

#[test]
fn ip_info_from_ip_starts_seen_once() {
    let info = IpInfo::from_ip(v4(10, 0, 0, 1));
    assert_eq!(info.ip(), v4(10, 0, 0, 1));
    assert!(info.names().is_empty());
    assert_eq!(info.seen_count(), 1);
    assert!(!info.is_offline());
}

#[test]
fn ip_info_contains_searches_address_and_names() {
    let mut info = IpInfo::from_ip(v4(192, 168, 1, 20));
    info.names.push("printer.local".to_string());
    assert!(info.contains("168.1"));
    assert!(info.contains("print"));
    assert!(!info.contains("scanner"));
}

#[test]
fn ip_info_multiline_and_row() {
    let mut info = IpInfo::from_ip(v4(192, 168, 1, 20));
    info.names.push("a.local".to_string());
    info.names.push("b.local".to_string());
    let row = info.ref_array();
    assert_eq!(row[0], "192.168.1.20");
    assert_eq!(row[1], "a.local\nb.local\n");
    assert_eq!(row[2], "1");
    assert_eq!(row[3], "");
}

#[test]
fn service_instance_text() {
    let s = ServiceInstance::new(
        "Web".to_string(),
        "_http._tcp.local".to_string(),
        Some("box.local".to_string()),
        8080,
        Some(strings(&["path=/", "v=1"])),
    );
    assert_eq!(s.text(), "Web @ box.local:8080\npath=/, v=1");
    let plain = ServiceInstance::new("Ssh".to_string(), "_ssh._tcp.local".to_string(), None, 22, None);
    assert_eq!(plain.text(), "Ssh:22\n");
}

#[test]
fn service_update_merges_txt_of_same_name() {
    let mut info = IpInfo::from_ip(v4(10, 0, 0, 2));
    let first = ServiceInstance::new("Web".to_string(), "_http._tcp".to_string(), None, 80, Some(strings(&["a=1"])));
    assert!(info.update_with_service_instance(first));
    let same = ServiceInstance::new("Web".to_string(), "_http._tcp".to_string(), None, 80, Some(strings(&["a=1"])));
    assert!(!info.update_with_service_instance(same));
    let more = ServiceInstance::new("Web".to_string(), "_http._tcp".to_string(), None, 80, Some(strings(&["b=2", "a=1"])));
    assert!(info.update_with_service_instance(more));
    let services = info.service_instances.as_ref().unwrap();
    assert_eq!(services.len(), 1);
    assert_eq!(services[0].txt, Some(strings(&["a=1", "b=2"])));
    let other = ServiceInstance::new("Ssh".to_string(), "_ssh._tcp".to_string(), None, 22, None);
    assert!(info.update_with_service_instance(other));
    assert_eq!(info.service_instances.as_ref().unwrap().len(), 2);
}

#[test]
fn packets_seen_counts_up() {
    let mut info = IpInfo::from_ip(v4(10, 0, 0, 3));
    info.update_packets_seen();
    info.update_packets_seen();
    assert_eq!(info.seen_count(), 3);
    info.seen_count = u64::MAX;
    info.update_packets_seen();
    assert_eq!(info.seen_count(), 0);
}

#[test]
fn status_change_marks_offline() {
    let mut info = IpInfo::from_ip(v4(10, 0, 0, 4));
    info.set_last_known_status(LastKnownStatus::Offline);
    assert!(info.is_offline());
}

fn collected_names(update: &CollectorUpdate) -> Vec<String> {
    match update {
        CollectorUpdate::IpInfo(i) => i.names.clone(),
        _ => panic!("expected a full record"),
    }
}

#[test]
fn info_collector_test_ip_info_collector_send_ip_info() {
    let mut collector = IpInfoCollector::new();
    let mut ip_info_1 = IpInfo::from_ip(v4(192, 168, 1, 1));
    ip_info_1.names.push("test1.local".to_string());
    collector.insert_or_update(ip_info_1.clone());
    let updates = collector.take_updates();
    assert_eq!(updates.len(), 1);
    match &updates[0] {
        CollectorUpdate::IpInfo(ip_info) => assert!(ip_info.same_as(&ip_info_1)),
        _ => panic!("Unexpected message received"),
    }
}

#[test]
fn info_collecter_test_ip_info_collector_send_ip_info() {
    let mut collector = IpInfoCollector::new();
    let mut ip_info_1 = IpInfo::from_ip(v4(192, 168, 1, 1));
    ip_info_1.names.push("test1.local".to_string());
    collector.insert_or_update(ip_info_1.clone());
    match collector.take_updates().pop() {
        Some(CollectorUpdate::IpInfo(ip_info)) => {
            assert_eq!(ip_info.ip, ip_info_1.ip);
            assert_eq!(ip_info.names, ip_info_1.names);
        }
        _ => panic!("Unexpected message received"),
    }
}

#[test]
fn collector_new_record_names_are_deduped_and_sorted() {
    let mut collector = IpInfoCollector::new();
    let mut info = IpInfo::from_ip(v4(10, 1, 1, 1));
    info.names = strings(&["b.local", "b.local", "a.local"]);
    collector.insert_or_update(info);
    let updates = collector.take_updates();
    assert_eq!(collected_names(&updates[0]), strings(&["a.local", "b.local"]));
    assert_eq!(collector.known_ips(), vec![v4(10, 1, 1, 1)]);
}

#[test]
fn collector_merges_reports_about_a_known_host() {
    let mut collector = IpInfoCollector::new();
    let mut first = IpInfo::from_ip(v4(10, 1, 1, 2));
    first.names.push("z.local".to_string());
    collector.insert_or_update(first);
    collector.take_updates();

    let mut second = IpInfo::from_ip(v4(10, 1, 1, 2));
    second.names.push("a.local".to_string());
    collector.insert_or_update(second);
    let updates = collector.take_updates();
    assert_eq!(updates.len(), 1);
    assert_eq!(collected_names(&updates[0]), strings(&["a.local", "z.local"]));

    // A report with nothing new only counts as a packet seen.
    let mut third = IpInfo::from_ip(v4(10, 1, 1, 2));
    third.names.push("z.local".to_string());
    collector.insert_or_update(third);
    let updates = collector.take_updates();
    assert_eq!(updates.len(), 1);
    assert!(matches!(updates[0], CollectorUpdate::PacketSeen(ip) if ip == v4(10, 1, 1, 2)));
    assert_eq!(collector.len(), 1);
}

#[test]
fn collector_status_updates_only_changes() {
    let mut collector = IpInfoCollector::new();
    collector.insert_or_update(IpInfo::from_ip(v4(10, 1, 1, 3)));
    collector.take_updates();
    let counts = collector.update_last_known_status(vec![
        (v4(10, 1, 1, 3), LastKnownStatus::Online),
        (v4(10, 1, 1, 3), LastKnownStatus::Offline),
        (v4(10, 9, 9, 9), LastKnownStatus::Offline),
    ]);
    assert_eq!(counts, (1, 2));
    let updates = collector.take_updates();
    assert_eq!(updates.len(), 1);
    assert!(matches!(updates[0], CollectorUpdate::Status((ip, LastKnownStatus::Offline)) if ip == v4(10, 1, 1, 3)));
}

#[test]
fn collector_takes_in_found_services() {
    let mut collector = IpInfoCollector::new();
    let service = ServiceInfo {
        name: "Printer".to_string(),
        _type: "_ipp._tcp.local".to_string(),
        txt: None,
        host: "printer.local".to_string(),
        ip: v4(10, 2, 2, 2),
        port: 631,
    };
    assert!(collector.update_service_instances(Ok(vec![service])));
    assert!(!collector.update_service_instances(Err("timed out".to_string())));
    let updates = collector.take_updates();
    assert_eq!(updates.len(), 1);
    match &updates[0] {
        CollectorUpdate::IpInfo(i) => {
            let services = i.service_instances.as_ref().unwrap();
            assert_eq!(services[0].text(), "Printer @ printer.local:631\n");
        }
        _ => panic!("expected a full record"),
    }
}

#[test]
fn ip_db_merges_and_orders_by_address() {
    let mut db = IpDb::new();
    let mut a = IpInfo::from_ip(v4(10, 0, 0, 9));
    a.names.push("nine.local".to_string());
    db.insert(a);
    db.insert(IpInfo::from_ip(v4(10, 0, 0, 2)));
    let mut again = IpInfo::from_ip(v4(10, 0, 0, 9));
    again.names.push("nine.local".to_string());
    again.names.push("nueve.local".to_string());
    db.insert(again);
    assert_eq!(db.len(), 2);
    let all = db.get_ip_info(None);
    assert_eq!(all[0].ip, v4(10, 0, 0, 2));
    assert_eq!(all[1].ip, v4(10, 0, 0, 9));
    assert_eq!(all[1].seen_count, 2);
    assert_eq!(all[1].names, strings(&["nine.local", "nueve.local"]));
    let filtered = db.get_ip_info(Some("nueve"));
    assert_eq!(filtered.len(), 1);
    assert_eq!(filtered[0].ip, v4(10, 0, 0, 9));
}

#[test]
fn mdns_info_accumulates() {
    let mut acc = AccumulatedMdnsInfo::new();
    let mut m = MdnsInfo::from_ip(v4(10, 3, 3, 3));
    m.names.push("tv.local".to_string());
    acc.insert(m);
    let mut again = MdnsInfo::from_ip(v4(10, 3, 3, 3));
    again.names.push("tv.local".to_string());
    acc.insert(again);
    assert_eq!(acc.len(), 1);
    assert_eq!(acc.get_as_str_vec(), vec!["10.3.3.3: tv.local\n (seen 2 times)".to_string()]);
}

#[test]
fn registry_assembles_a_service_from_answers() {
    let mut reg = ServiceRegistry::new();
    let f = handle_answer(
        &mut reg,
        DnsAnswer::Ptr {
            name: "_services._dns-sd._udp.local".to_string(),
            target: "_http._tcp.local".to_string(),
        },
    );
    assert!(matches!(f, FollowUp::QueryPtr(ref t) if t == "_http._tcp.local"));
    let f = handle_answer(
        &mut reg,
        DnsAnswer::Ptr {
            name: "_http._tcp.local".to_string(),
            target: "Web._http._tcp.local".to_string(),
        },
    );
    assert!(matches!(f, FollowUp::QuerySrvAndTxt(ref t) if t == "Web._http._tcp.local"));
    let f = handle_answer(
        &mut reg,
        DnsAnswer::Srv { name: "Web._http._tcp.local".to_string(), target: "box.local".to_string(), port: 80 },
    );
    assert!(matches!(f, FollowUp::QueryAAndAaaa(ref t) if t == "box.local"));
    assert_eq!(reg.finalize().len(), 0);
    handle_answer(&mut reg, DnsAnswer::Txt { name: "Web._http._tcp.local".to_string(), strings: strings(&["path=/"]) });
    handle_answer(&mut reg, DnsAnswer::A { name: "box.local".to_string(), ip: u32::from_be_bytes([10, 4, 4, 4]) });
    let found = reg.finalize();
    assert_eq!(found.len(), 1);
    assert_eq!(found[0].name, "Web");
    assert_eq!(found[0]._type, "_http._tcp.local");
    assert_eq!(found[0].host, "box.local");
    assert_eq!(found[0].ip, v4(10, 4, 4, 4));
    assert_eq!(found[0].port, 80);
    assert_eq!(found[0].txt, Some(strings(&["path=/"])));
}

#[test]
fn registry_ignores_unknown_instances() {
    let mut reg = ServiceRegistry::new();
    reg.set_txt("nobody", strings(&["x"]));
    reg.set_srv("nobody", "h".to_string(), 1);
    assert_eq!(reg.finalize().len(), 0);
    reg.insert_or_update_instance("Inst".to_string(), "_t._tcp".to_string());
    reg.insert_or_update_instance("Inst".to_string(), "_other._tcp".to_string());
    reg.set_srv("Inst", "h.local".to_string(), 9);
    reg.set_ip_for_host("h.local", IpAddress::V6(1));
    let found = reg.finalize();
    assert_eq!(found.len(), 1);
    assert_eq!(found[0].name, "Inst");
    assert_eq!(found[0]._type, "_t._tcp");
}

#[test]
fn bare_addresses_can_be_hidden() {
    let mut db = IpDb::new();
    let mut named = IpInfo::from_ip(v4(10, 0, 0, 9));
    named.names.push("nine.local".to_string());
    db.insert(named);
    db.insert(IpInfo::from_ip(v4(10, 0, 0, 2)));
    let mut served = IpInfo::from_ip(v4(10, 0, 0, 5));
    served.service_instances = Some(vec![]);
    db.insert(served);
    let shown: Vec<IpAddress> = db.filtered_ip_info(None, true).iter().map(|i| i.ip).collect();
    assert_eq!(shown, vec![v4(10, 0, 0, 5), v4(10, 0, 0, 9)]);
    assert_eq!(db.filtered_ip_info(None, false).len(), 3);
    assert_eq!(db.filtered_ip_info(Some("10.0.0.2"), true).len(), 0);
    assert_eq!(db.filtered_ip_info(Some("10.0.0.2"), false).len(), 1);
}
