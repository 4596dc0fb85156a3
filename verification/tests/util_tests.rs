use mdns_scanner::emojis::{Switch, Switched};
use mdns_scanner::hostname::{strip_trailing_dot, DnsName};
use mdns_scanner::net::{
    calc_network_host_range, get_network_address_from_prefix, is_docker_interface,
    prefix_to_netmask, reverse_dns_ptr_record, select_network_interfaces, InterfaceCandidate,
    IpNetwork, NetworkInterface,
};
use mdns_scanner::resource_scaling::{HostResources, PerformanceTier};
use std::sync::atomic::{AtomicBool, Ordering};

static ON: AtomicBool = AtomicBool::new(true);

struct TestSwitch;

impl Switch for TestSwitch {
    fn is_on() -> bool {
        ON.load(Ordering::Relaxed)
    }
}

#[test]
fn switched_follows_its_switch() {
    let prefix: Switched<TestSwitch> = Switched::new("✅ ", "");

    ON.store(true, Ordering::Relaxed);
    assert_eq!(format!("{}done", prefix.text()), "✅ done");

    ON.store(false, Ordering::Relaxed);
    assert_eq!(format!("{}done", prefix.text()), "done");
}

#[test]
fn strip_trailing_dot_removes_single_dot() {
    assert_eq!(strip_trailing_dot("myhost.local."), "myhost.local");
    assert_eq!(strip_trailing_dot("myhost.local"), "myhost.local");
}

#[test]
fn strip_trailing_dot_preserves_case() {
    assert_eq!(strip_trailing_dot("MyHost.Local."), "MyHost.Local");
}

#[test]
fn matches_is_case_insensitive_and_ignores_trailing_dot() {
    let a = DnsName::new("MyHost.Local.");
    let b = DnsName::new("myhost.local");
    assert!(a.matches(&b));
    assert!(b.matches(&a));
    assert!(a.matches_str("MYHOST.LOCAL."));
}

#[test]
fn matches_distinguishes_different_names() {
    let a = DnsName::new("myhost.local");
    let b = DnsName::new("otherhost.local");
    assert!(!a.matches(&b));
    assert!(!a.matches_str("otherhost.local"));
}

#[test]
fn matches_does_not_fold_non_ascii() {
    assert!(!DnsName::new("café.local").matches(&DnsName::new("CAFÉ.local")));
    assert!(DnsName::new("CAFé.local").matches(&DnsName::new("café.LOCAL")));
}

#[test]
fn canonical_strips_and_lowercases() {
    assert_eq!(DnsName::new("MyHost.Local.").canonical(), "myhost.local");
    assert_eq!(DnsName::new("myhost.local.").canonical(), "myhost.local");
}

#[test]
fn display_name_preserves_case_and_strips_dot() {
    let name = DnsName::new("MyHost.Local.");
    assert_eq!(name.display_name(), "MyHost.Local");
    assert_eq!(name.as_advertised(), "MyHost.Local.");
}

#[test]
fn test_full_resource_management_workflow() {
    for parallelism in [1usize, 4, 8, 10, 32, 64] {
        let detect = move || parallelism;
        let mut resources = HostResources::new(&detect);

        println!("System detected {} CPU cores(-esque)", resources.parallelism());

        let max_threads = resources.max_threads(&detect);
        let max_fds = resources.max_file_descriptors(&detect);
        let refresh_interval = resources.passive_refresh_interval(&detect);

        println!("Configured for {max_threads} threads, {max_fds} FDs, {}ms refresh", refresh_interval);

        assert!(max_threads > 0);
        assert!(max_fds >= max_threads as u64 * 3);
        assert!(refresh_interval >= 50);
        assert!(refresh_interval <= 300);
    }
}

#[test]
fn lib_test_get_network_address_from_prefix() {
    let ip: u32 = u32::from_be_bytes([192, 168, 1, 100]);
    let network = get_network_address_from_prefix(ip, 24);
    assert_eq!(network, u32::from_be_bytes([192, 168, 1, 0]));
}

#[test]
fn util_test_get_network_address_from_prefix() {
    let ip: u32 = u32::from_be_bytes([192, 168, 1, 100]);
    let network = get_network_address_from_prefix(ip, 24);
    assert_eq!(network, u32::from_be_bytes([192, 168, 1, 0]));
}

#[test]
fn test_reverse_dns_ptr_record() {
    let ip: u32 = u32::from_be_bytes([192, 168, 0, 1]);
    assert_eq!(reverse_dns_ptr_record(ip), "1.0.168.192.in-addr.arpa");
}

#[test]
fn netmask_of_common_prefixes() {
    assert_eq!(prefix_to_netmask(0), 0);
    assert_eq!(prefix_to_netmask(8), 0xFF00_0000);
    assert_eq!(prefix_to_netmask(24), 0xFFFF_FF00);
    assert_eq!(prefix_to_netmask(32), 0xFFFF_FFFF);
}

#[test]
fn host_range_skips_network_and_broadcast() {
    let r = calc_network_host_range(24);
    assert_eq!(r.start, 1);
    assert_eq!(r.end, 255);
    let r = calc_network_host_range(30);
    assert_eq!(r.start, 1);
    assert_eq!(r.end, 3);
}

#[test]
fn network_interface_accessors() {
    let iface = NetworkInterface::new("eth0".to_string(), u32::from_be_bytes([10, 0, 0, 5]), 24);
    assert_eq!(iface.name(), "eth0");
    assert_eq!(iface.ip(), u32::from_be_bytes([10, 0, 0, 5]));
    assert_eq!(iface.prefix(), 24);
    assert_eq!(iface.host_count(), 253);
}

#[test]
fn docker_interfaces_are_recognised() {
    assert!(is_docker_interface("docker0"));
    assert!(is_docker_interface("veth12ab"));
    assert!(is_docker_interface("br-1234"));
    assert!(is_docker_interface("podman1"));
    assert!(!is_docker_interface("eth0"));
    assert!(!is_docker_interface("wlan0"));
}

#[test]
fn interface_selection_keeps_up_running_non_loopback() {
    let candidates = vec![
        InterfaceCandidate {
            name: "lo".to_string(),
            is_loopback: true,
            is_up: true,
            is_running: true,
            ips: vec![IpNetwork::V4 { ip: 0x7F00_0001, prefix: 8 }],
        },
        InterfaceCandidate {
            name: "docker0".to_string(),
            is_loopback: false,
            is_up: true,
            is_running: true,
            ips: vec![IpNetwork::V4 { ip: 0xAC11_0001, prefix: 16 }],
        },
        InterfaceCandidate {
            name: "eth0".to_string(),
            is_loopback: false,
            is_up: true,
            is_running: true,
            ips: vec![IpNetwork::V6, IpNetwork::V4 { ip: 0xC0A8_0105, prefix: 24 }],
        },
    ];
    let picked = select_network_interfaces(&candidates, false);
    assert_eq!(picked.len(), 1);
    assert_eq!(picked[0].name(), "eth0");
    assert_eq!(picked[0].ip(), 0xC0A8_0105);
    let with_docker = select_network_interfaces(&candidates, true);
    assert_eq!(with_docker.len(), 2);
}

#[test]
fn performance_tiers_by_parallelism() {
    let low = PerformanceTier::from(2);
    let high = PerformanceTier::from(64);
    assert!(low.max_threads() <= high.max_threads());
    assert!(low.passive_refresh_interval() >= high.passive_refresh_interval());
}


