use mdns_scanner::discovery::{scan_rerun_pause_secs, should_ignore_interface, HostnameMap};
use mdns_scanner::dns_sd::{DnsAnswer, FollowUp};
use mdns_scanner::dns_wire::{
    build_mdns_queries, build_query, build_reverse_dns_query, follow_up_queries, name_fits_query,
    report_from_packet, reverse_lookup_reply, QueryKind,
};
use mdns_scanner::ip_address::IpAddress;
use mdns_scanner::ip_info::LastKnownStatus;

fn v4(a: u8, b: u8, c: u8, d: u8) -> IpAddress {
    IpAddress::V4(u32::from_be_bytes([a, b, c, d]))
}

fn encoded_name(name: &str) -> Vec<u8> {
    let mut out = Vec::new();
    for part in name.split('.') {
        out.push(part.len() as u8);
        out.extend(part.as_bytes());
    }
    out.push(0);
    out
}

fn query_bytes(name: &str, qtype: u16) -> Vec<u8> {
    let mut out = vec![0, 0, 0, 0, 0, 1, 0, 0, 0, 0, 0, 0];
    out.extend(encoded_name(name));
    out.extend(qtype.to_be_bytes());
    out.extend([0, 1]);
    out
}

/// A response with the given answers, each (owner, type, rdata).
fn response(answers: &[(&str, u16, Vec<u8>)]) -> Vec<u8> {
    let mut out = vec![0, 0, 0x84, 0, 0, 0, 0, answers.len() as u8, 0, 0, 0, 0];
    for (name, rtype, data) in answers {
        out.extend(encoded_name(name));
        out.extend(rtype.to_be_bytes());
        out.extend([0, 1, 0, 0, 0, 120]);
        out.extend((data.len() as u16).to_be_bytes());
        out.extend(data);
    }
    out
}

#[test]
fn a_query_has_the_builder_layout() {
    assert_eq!(build_query("example.com", QueryKind::A), Some(query_bytes("example.com", 1)));
    assert_eq!(build_query("host.local", QueryKind::Aaaa), Some(query_bytes("host.local", 28)));
}

#[test]
fn label_of_sixty_three_bytes_is_refused() {
    let long = "a".repeat(63);
    assert!(name_fits_query(&"a".repeat(62)));
    assert!(!name_fits_query(&long));
    assert_eq!(build_query(&format!("{long}.local"), QueryKind::Ptr), None);
    assert!(name_fits_query(&"é".repeat(31)));
    assert!(!name_fits_query(&"é".repeat(32)));
    assert!(name_fits_query(""));
}

#[test]
fn periodic_queries_ask_for_three_pointer_lists() {
    assert_eq!(
        build_mdns_queries(),
        vec![
            query_bytes("_services._dns-sd._udp.local", 12),
            query_bytes("_device-info._tcp.local", 12),
            query_bytes("_workstation._tcp.local", 12),
        ]
    );
}

#[test]
fn reverse_query_names_the_arpa_pointer() {
    assert_eq!(
        build_reverse_dns_query(u32::from_be_bytes([192, 168, 0, 1])),
        Some(query_bytes("1.0.168.192.in-addr.arpa", 12))
    );
}

#[test]
fn follow_up_queries_by_answer() {
    let inst = "web._http._tcp.local";
    assert_eq!(
        follow_up_queries(&FollowUp::QuerySrvAndTxt(inst.to_string())),
        vec![query_bytes(inst, 33), query_bytes(inst, 16)]
    );
    assert_eq!(
        follow_up_queries(&FollowUp::QueryAAndAaaa("nas.local".to_string())),
        vec![query_bytes("nas.local", 1), query_bytes("nas.local", 28)]
    );
    assert_eq!(
        follow_up_queries(&FollowUp::QueryPtr("_http._tcp.local".to_string())),
        vec![query_bytes("_http._tcp.local", 12)]
    );
    assert!(follow_up_queries(&FollowUp::Nothing).is_empty());
}

#[test]
fn packet_report_learns_names_and_lists_answers() {
    let packet = response(&[
        ("nas.local", 1, vec![192, 168, 1, 5]),
        ("_http._tcp.local", 12, encoded_name("web._http._tcp.local")),
    ]);
    let mut map = HostnameMap::new();
    let source = v4(192, 168, 1, 9);
    let (info, answers) = report_from_packet(source, &packet, &mut map).unwrap();
    assert_eq!(info.ip, source);
    assert_eq!(
        info.names,
        vec![
            "web._http._tcp.local".to_string(),
            "nas.local".to_string(),
            "_http._tcp.local".to_string()
        ]
    );
    assert_eq!(info.last_known_status, LastKnownStatus::Online);
    assert_eq!(info.seen_count, 1);
    assert_eq!(map.names_for(v4(192, 168, 1, 5)), vec!["nas.local".to_string()]);
    assert_eq!(map.names_for(source), vec!["web._http._tcp.local".to_string()]);
    assert_eq!(answers.len(), 2);
    assert!(matches!(&answers[0], DnsAnswer::A { name, ip } if name == "nas.local" && *ip == 0xC0A8_0105));
    assert!(matches!(&answers[1], DnsAnswer::Ptr { name, target }
        if name == "_http._tcp.local" && target == "web._http._tcp.local"));
}

#[test]
fn garbage_is_no_packet_and_teaches_nothing() {
    let mut map = HostnameMap::new();
    assert!(report_from_packet(v4(10, 0, 0, 1), &[1, 2, 3], &mut map).is_none());
    assert_eq!(map.len(), 0);
    assert_eq!(reverse_lookup_reply(&[0xff; 5]), None);
}

#[test]
fn reverse_reply_gives_first_pointer_target() {
    let packet = response(&[
        ("nas.local", 1, vec![10, 0, 0, 2]),
        ("2.0.0.10.in-addr.arpa", 12, encoded_name("nas.local")),
        ("2.0.0.10.in-addr.arpa", 12, encoded_name("other.local")),
    ]);
    assert_eq!(reverse_lookup_reply(&packet), Some("nas.local".to_string()));
    assert_eq!(reverse_lookup_reply(&response(&[("nas.local", 1, vec![10, 0, 0, 2])])), None);
}

#[test]
fn ignore_patterns_match_interface_names() {
    let patterns = vec!["^docker".to_string(), "^veth".to_string()];
    assert!(should_ignore_interface(&patterns, "docker0"));
    assert!(should_ignore_interface(&patterns, "veth12ab"));
    assert!(!should_ignore_interface(&patterns, "eth0"));
    assert!(!should_ignore_interface(&vec!["(".to_string()], "("));
    assert!(!should_ignore_interface(&Vec::new(), "eth0"));
}

#[test]
fn short_scan_runs_are_followed_by_a_pause() {
    assert_eq!(scan_rerun_pause_secs(9, 999_999_999), 5);
    assert_eq!(scan_rerun_pause_secs(0, 0), 5);
    assert_eq!(scan_rerun_pause_secs(10, 0), 0);
    assert_eq!(scan_rerun_pause_secs(42, 1), 0);
}
