//! IPv4 address arithmetic and network interface selection.
//!
//! An IPv4 address is held as its 32-bit big-endian value, the value that
//! `u32::from(Ipv4Addr)` gives.
use vstd::prelude::*;
use vstd::arithmetic::power2::{pow2, lemma2_to64, lemma2_to64_rest};
use vstd::bits::{lemma_u32_shl_is_mul, lemma_u32_low_bits_mask_is_mod, low_bits_mask, lemma_low_bits_mask_values};
use std::ops::Range;
use crate::strings::{dec, push_decimal, push_str, starts_with, str_starts_with};

verus! {

/// UDP port of multicast DNS.
pub const MULTICAST_PORT: u16 = 5353;

/// 224.0.0.251, the multicast DNS group.
pub const MULTICAST_ADDR: u32 = 0xE000_00FB;

/// In multicast query messages the query identifier should be zero (RFC 6762).
pub const MDNS_QUERY_ID: u16 = 0;

/// DNS-SD meta query that enumerates all service types.
pub const DNS_SD_QUERY_ALL: &'static str = "_services._dns-sd._udp.local";

/// The same meta query as an absolute name.
pub const DNS_SD_QUERY_ALL_NEW: &'static str = "_services._dns-sd._udp.local.";

/// 192.0.2.1, from the TEST-NET-1 range reserved for documentation (RFC 5737).
pub const IP_TEST_NET_1_UNREACHABLE: u32 = 0xC000_0201;

/// Number of addresses in a network with the given prefix length.
pub open spec fn block_size(prefix: nat) -> nat {
    pow2((32 - prefix) as nat)
}

/// The netmask of a prefix length, as a 32-bit value.
pub open spec fn netmask_value(prefix: nat) -> int {
    0x1_0000_0000 - block_size(prefix)
}

/// The network address: the address with its host bits cleared.
pub open spec fn network_of(ip: u32, prefix: nat) -> int {
    ip - (ip as int) % (block_size(prefix) as int)
}

proof fn lemma_shifted_mask(s: u32)
    requires
        s < 32,
    ensures
        (!0u32 << s) == 0xffff_ffffu32 - (pow2(s as nat) - 1),
        (1u32 << s) == pow2(s as nat),
        pow2(s as nat) <= 0x8000_0000,
{
    lemma2_to64();
    lemma2_to64_rest();
    vstd::arithmetic::power2::lemma_pow2_strictly_increases(s as nat, 32);
    assert(pow2(32) == 0x1_0000_0000);
    lemma_u32_shl_is_mul(1, s);
    assert((!0u32 << s) == 0xffff_ffffu32 - ((1u32 << s) - 1)) by (bit_vector)
        requires
            s < 32,
    ;
    if s < 31 {
        vstd::arithmetic::power2::lemma_pow2_strictly_increases(s as nat, 31);
    }
}

/// The netmask of a prefix length (0 gives an all-zero mask).
pub fn prefix_to_netmask(prefix_len: u8) -> (r: u32)
    requires
        prefix_len <= 32,
    ensures
        r == netmask_value(prefix_len as nat),
{
    proof {
        lemma2_to64();
        lemma2_to64_rest();
    }
    if prefix_len == 0 {
        assert(pow2(32) == 0x1_0000_0000);
        0
    } else {
        let s: u32 = 32 - prefix_len as u32;
        proof {
            lemma_shifted_mask(s);
        }
        (!0u32) << s
    }
}

/// The network address of `ip` in a network of the given prefix length.
pub fn get_network_address_from_prefix(ip: u32, prefix_len: u8) -> (r: u32)
    requires
        1 <= prefix_len <= 32,
    ensures
        r == network_of(ip, prefix_len as nat),
        r == ip & (netmask_value(prefix_len as nat) as u32),
{
    let s: u32 = 32 - prefix_len as u32;
    let mask = !0u32 << s;
    proof {
        lemma_shifted_mask(s);
        assert(mask == netmask_value(prefix_len as nat) as u32);
        lemma_low_bits_mask_values();
        lemma_u32_low_bits_mask_is_mod(ip, s as nat);
        assert(low_bits_mask(s as nat) == pow2(s as nat) - 1);
        let lm: u32 = (pow2(s as nat) - 1) as u32;
        assert(mask == 0xffff_ffffu32 - lm);
        assert(ip & mask == ip - (ip & lm)) by (bit_vector)
            requires
                mask == 0xffff_ffffu32 - lm,
                lm == (1u32 << s) - 1,
                s < 32,
        ;
    }
    ip & mask
}

/// The host part of a network: every address but the network address (0)
/// and the broadcast address (the last one).
pub fn calc_network_host_range(prefix_len: u8) -> (r: Range<u32>)
    requires
        1 <= prefix_len <= 32,
    ensures
        r.start == 1,
        r.end == block_size(prefix_len as nat) - 1,
{
    let host_bits: u32 = 32 - prefix_len as u32;
    proof {
        lemma_shifted_mask(host_bits);
    }
    let host_count: u32 = 1u32 << host_bits;
    Range { start: 1, end: host_count - 1 }
}

/// Appends the dotted-quad text of an address.
pub open spec fn ipv4_text(ip: u32) -> Seq<char> {
    dec((ip / 0x100_0000) as nat) + seq!['.'] + dec(((ip / 0x1_0000) % 0x100) as nat) + seq!['.']
        + dec(((ip / 0x100) % 0x100) as nat) + seq!['.'] + dec((ip % 0x100) as nat)
}

/// Appends the dotted-quad text of an IPv4 address, as `Ipv4Addr`'s `Display` writes it.
pub fn push_ipv4(s: &mut String, ip: u32)
    ensures
        final(s)@ == old(s)@ + ipv4_text(ip),
{
    let a: u32 = ip >> 24;
    let b: u32 = (ip >> 16) & 0xff;
    let c: u32 = (ip >> 8) & 0xff;
    let d: u32 = ip & 0xff;
    assert(a == ip / 0x100_0000) by (bit_vector)
        requires
            a == ip >> 24,
    ;
    assert(b == (ip / 0x1_0000) % 0x100) by (bit_vector)
        requires
            b == (ip >> 16) & 0xff,
    ;
    assert(c == (ip / 0x100) % 0x100) by (bit_vector)
        requires
            c == (ip >> 8) & 0xff,
    ;
    assert(d == ip % 0x100) by (bit_vector)
        requires
            d == ip & 0xff,
    ;
    let ghost start = s@;
    push_decimal(s, a as u64);
    s.push('.');
    push_decimal(s, b as u64);
    s.push('.');
    push_decimal(s, c as u64);
    s.push('.');
    push_decimal(s, d as u64);
    assert(s@ =~= start + ipv4_text(ip));
}

/// The name queried to reverse-resolve an address: its octets in reverse order
/// under `in-addr.arpa`.
pub open spec fn reverse_ptr_text(ip: u32) -> Seq<char> {
    dec((ip % 0x100) as nat) + seq!['.'] + dec(((ip / 0x100) % 0x100) as nat) + seq!['.']
        + dec(((ip / 0x1_0000) % 0x100) as nat) + seq!['.'] + dec((ip / 0x100_0000) as nat)
        + ".in-addr.arpa"@
}

/// The reverse-lookup name of an address, e.g. `1.0.168.192.in-addr.arpa` for 192.168.0.1.
pub fn reverse_dns_ptr_record(ip: u32) -> (r: String)
    ensures
        r@ == reverse_ptr_text(ip),
{
    let a: u32 = ip >> 24;
    let b: u32 = (ip >> 16) & 0xff;
    let c: u32 = (ip >> 8) & 0xff;
    let d: u32 = ip & 0xff;
    assert(a == ip / 0x100_0000) by (bit_vector)
        requires
            a == ip >> 24,
    ;
    assert(b == (ip / 0x1_0000) % 0x100) by (bit_vector)
        requires
            b == (ip >> 16) & 0xff,
    ;
    assert(c == (ip / 0x100) % 0x100) by (bit_vector)
        requires
            c == (ip >> 8) & 0xff,
    ;
    assert(d == ip % 0x100) by (bit_vector)
        requires
            d == ip & 0xff,
    ;
    let mut s = String::new();
    push_decimal(&mut s, d as u64);
    s.push('.');
    push_decimal(&mut s, c as u64);
    s.push('.');
    push_decimal(&mut s, b as u64);
    s.push('.');
    push_decimal(&mut s, a as u64);
    push_str(&mut s, ".in-addr.arpa");
    assert(s@ =~= reverse_ptr_text(ip));
    s
}

/// The interface name patterns that Docker and Podman use.
pub open spec fn is_docker_name(name: Seq<char>) -> bool {
    starts_with(name, "docker"@) || starts_with(name, "podman"@) || starts_with(name, "veth"@)
        || starts_with(name, "br-"@)
}

/// Whether an interface is likely a Docker related one (bridges and container links).
pub fn is_docker_interface(name: &str) -> (r: bool)
    ensures
        r == is_docker_name(name@),
{
    str_starts_with(name, "docker") || str_starts_with(name, "podman") || str_starts_with(
        name,
        "veth",
    ) || str_starts_with(name, "br-")
}

/// An IPv4 network that an interface is attached to.
#[derive(Debug)]
pub struct NetworkInterface {
    name: String,
    ip: u32,
    prefix: u8,
}

impl NetworkInterface {
    /// The interface's name.
    pub closed spec fn name_view(&self) -> Seq<char> {
        self.name@
    }

    /// The interface's address.
    pub closed spec fn ip_view(&self) -> u32 {
        self.ip
    }

    /// The interface's prefix length.
    pub closed spec fn prefix_view(&self) -> u8 {
        self.prefix
    }

    /// An interface with the given name, address and prefix length.
    pub fn new(name: String, ip: u32, prefix: u8) -> (r: Self)
        ensures
            r.name_view() == name@,
            r.ip_view() == ip,
            r.prefix_view() == prefix,
    {
        NetworkInterface { name, ip, prefix }
    }

    /// The interface's name.
    pub fn name(&self) -> (r: &str)
        ensures
            r@ == self.name_view(),
    {
        self.name.as_str()
    }

    /// The interface's address.
    pub fn ip(&self) -> (r: u32)
        ensures
            r == self.ip_view(),
    {
        self.ip
    }

    /// The interface's prefix length.
    pub fn prefix(&self) -> (r: u8)
        ensures
            r == self.prefix_view(),
    {
        self.prefix
    }

    /// The host offsets of the interface's network.
    pub fn host_range(&self) -> (r: Range<u32>)
        requires
            1 <= self.prefix_view() <= 32,
        ensures
            r.start == 1,
            r.end == block_size(self.prefix_view() as nat) - 1,
    {
        calc_network_host_range(self.prefix)
    }

    /// One less than the length of [`Self::host_range`], never below zero.
    pub fn host_count(&self) -> (r: u32)
        requires
            1 <= self.prefix_view() <= 31,
        ensures
            r == if block_size(self.prefix_view() as nat) >= 3 {
                block_size(self.prefix_view() as nat) - 3
            } else {
                0
            },
    {
        let range = self.host_range();
        proof {
            lemma2_to64();
            vstd::arithmetic::power2::lemma_pow2_strictly_increases(
                (32 - self.prefix) as nat,
                32,
            );
            vstd::arithmetic::power2::lemma_pow2_pos((32 - self.prefix) as nat);
            if self.prefix < 31 {
                vstd::arithmetic::power2::lemma_pow2_strictly_increases(1, (32 - self.prefix) as nat);
            }
        }
        (range.end - range.start).saturating_sub(1)
    }
}


/// An address block that an interface carries.
#[derive(Debug, Clone, Copy)]
pub enum IpNetwork {
    /// An IPv4 address with its prefix length.
    V4 { ip: u32, prefix: u8 },
    /// An IPv6 block; the scanner does not use these.
    V6,
}

/// What the system reports of one network interface.
#[derive(Debug)]
pub struct InterfaceCandidate {
    pub name: String,
    pub is_loopback: bool,
    pub is_up: bool,
    pub is_running: bool,
    pub ips: Vec<IpNetwork>,
}

/// The first IPv4 block of a list, with its prefix length.
pub open spec fn first_v4(ips: Seq<IpNetwork>) -> Option<(u32, u8)>
    decreases ips.len(),
{
    if ips.len() == 0 {
        None
    } else {
        match ips[0] {
            IpNetwork::V4 { ip, prefix } => Some((ip, prefix)),
            IpNetwork::V6 => first_v4(ips.drop_first()),
        }
    }
}

/// An interface that is scanned: up, running, not loopback, with an address,
/// and not a Docker interface unless those are included.
pub open spec fn is_kept(c: InterfaceCandidate, include_docker: bool) -> bool {
    &&& !c.is_loopback
    &&& c.is_up
    &&& c.ips@.len() > 0
    &&& c.is_running
    &&& (include_docker || !is_docker_name(c.name@))
}

/// Name, address and prefix of every kept interface that has an IPv4 address,
/// in the order the system reported them.
pub open spec fn selected_interfaces(cs: Seq<InterfaceCandidate>, include_docker: bool) -> Seq<
    (Seq<char>, u32, u8),
>
    decreases cs.len(),
{
    if cs.len() == 0 {
        seq![]
    } else {
        let rest = selected_interfaces(cs.drop_last(), include_docker);
        let c = cs.last();
        if is_kept(c, include_docker) {
            match first_v4(c.ips@) {
                Some((ip, prefix)) => rest.push((c.name@, ip, prefix)),
                None => rest,
            }
        } else {
            rest
        }
    }
}

impl NetworkInterface {
    /// Name, address and prefix length.
    pub open spec fn view_triple(&self) -> (Seq<char>, u32, u8) {
        (self.name_view(), self.ip_view(), self.prefix_view())
    }
}

proof fn lemma_first_v4_skip(ips: Seq<IpNetwork>, j: int)
    requires
        0 <= j < ips.len(),
        ips[j] is V6,
    ensures
        first_v4(ips.skip(j)) == first_v4(ips.skip(j + 1)),
{
    assert(ips.skip(j).drop_first() =~= ips.skip(j + 1));
    assert(ips.skip(j)[0] == ips[j]);
}

fn find_first_v4(ips: &Vec<IpNetwork>) -> (r: Option<(u32, u8)>)
    ensures
        r == first_v4(ips@),
{
    let mut j: usize = 0;
    assert(ips@.skip(0) =~= ips@);
    while j < ips.len()
        invariant
            j <= ips@.len(),
            first_v4(ips@) == first_v4(ips@.skip(j as int)),
        decreases ips@.len() - j,
    {
        match ips[j] {
            IpNetwork::V4 { ip, prefix } => {
                assert(ips@.skip(j as int)[0] == ips@[j as int]);
                return Some((ip, prefix));
            },
            IpNetwork::V6 => {
                proof {
                    lemma_first_v4_skip(ips@, j as int);
                }
            },
        }
        j = j + 1;
    }
    assert(ips@.skip(j as int).len() == 0);
    None
}

/// Keeps the interfaces that are worth scanning and takes the first IPv4
/// address of each.
pub fn select_network_interfaces(candidates: &Vec<InterfaceCandidate>, include_docker: bool) -> (r:
    Vec<NetworkInterface>)
    ensures
        r@.map_values(|n: NetworkInterface| n.view_triple()) == selected_interfaces(
            candidates@,
            include_docker,
        ),
{
    let mut out: Vec<NetworkInterface> = Vec::new();
    let mut i: usize = 0;
    while i < candidates.len()
        invariant
            i <= candidates@.len(),
            out@.map_values(|n: NetworkInterface| n.view_triple()) == selected_interfaces(
                candidates@.take(i as int),
                include_docker,
            ),
        decreases candidates@.len() - i,
    {
        let c = &candidates[i];
        let ghost prev = out@;
        assert(candidates@.take(i + 1).drop_last() =~= candidates@.take(i as int));
        assert(candidates@.take(i + 1).last() == candidates@[i as int]);
        let keep = !c.is_loopback && c.is_up && c.ips.len() > 0 && c.is_running && (include_docker
            || !is_docker_interface(c.name.as_str()));
        if keep {
            match find_first_v4(&c.ips) {
                Some((ip, prefix)) => {
                    out.push(NetworkInterface::new(c.name.clone(), ip, prefix));
                    assert(out@.map_values(|n: NetworkInterface| n.view_triple()) =~= prev.map_values(
                        |n: NetworkInterface| n.view_triple(),
                    ).push((c.name@, ip, prefix)));
                },
                None => {},
            }
        }
        i = i + 1;
    }
    assert(candidates@.take(candidates@.len() as int) =~= candidates@);
    out
}

/// Asks the system for its network interfaces.
///
/// Calls `pnet::datalink::interfaces` and keeps, of each interface, its name,
/// its loopback/up/running flags and its address blocks (IPv4 ones with
/// address and prefix). What the system reports is not stated.
#[verifier::external_body]
fn system_interfaces() -> Vec<InterfaceCandidate> {
    pnet::datalink::interfaces().into_iter().map(|i| InterfaceCandidate {
        is_loopback: i.is_loopback(),
        is_up: i.is_up(),
        is_running: i.is_running(),
        ips: i.ips.iter().map(|n| match n {
            pnet::ipnetwork::IpNetwork::V4(v4) => IpNetwork::V4 { ip: u32::from(v4.ip()), prefix: v4.prefix() },
            pnet::ipnetwork::IpNetwork::V6(_) => IpNetwork::V6,
        }).collect(),
        name: i.name,
    }).collect()
}

/// The interfaces to scan, each with its first IPv4 address; Docker
/// interfaces are left out unless `include_docker`.
pub fn get_network_interfaces(include_docker: bool) -> (r: Vec<NetworkInterface>)
    ensures
        exists|cs: Seq<InterfaceCandidate>|
            r@.map_values(|n: NetworkInterface| n.view_triple()) == selected_interfaces(
                cs,
                include_docker,
            ),
{
    let cs = system_interfaces();
    let r = select_network_interfaces(&cs, include_docker);
    r
}

/// The network address of an address is in its own network: clearing the
/// host bits twice is clearing them once, and the address lies within the
/// block that starts at its network address.
pub proof fn lemma_network_address_stable(ip: u32, prefix: nat)
    requires
        1 <= prefix <= 32,
    ensures
        0 <= ip - network_of(ip, prefix) < block_size(prefix),
        network_of(ip, prefix) % (block_size(prefix) as int) == 0,
        0 <= network_of(ip, prefix) <= ip,
        network_of(network_of(ip, prefix) as u32, prefix) == network_of(ip, prefix),
{
    let b = block_size(prefix) as int;
    vstd::arithmetic::power2::lemma_pow2_pos((32 - prefix) as nat);
    vstd::arithmetic::div_mod::lemma_fundamental_div_mod(ip as int, b);
    vstd::arithmetic::div_mod::lemma_mod_pos_bound(ip as int, b);
    let q = (ip as int) / b;
    assert(network_of(ip, prefix) == b * q);
    vstd::arithmetic::div_mod::lemma_mod_multiples_basic(q, b);
    assert((q * b) % b == 0);
    vstd::arithmetic::mul::lemma_mul_is_commutative(q, b);
}

/// A chosen interface `e` comes from candidate `c`: one that is up, running,
/// not loopback, and not a Docker interface unless those are included, with
/// `e`'s name and, as its first IPv4 block, `e`'s address and prefix.
pub open spec fn chosen_from_live(c: InterfaceCandidate, e: (Seq<char>, u32, u8), include_docker: bool) -> bool {
    &&& c.is_running
    &&& c.is_up
    &&& !c.is_loopback
    &&& (include_docker || !is_docker_name(c.name@))
    &&& c.name@ == e.0
    &&& first_v4(c.ips@) == Some((e.1, e.2))
}

/// Every interface chosen for scanning comes from a live candidate (see
/// `chosen_from_live`): up, running and not loopback; and a candidate that
/// is not running, down, or loopback adds nothing to the choice.
pub proof fn lemma_selected_interfaces_are_live(cs: Seq<InterfaceCandidate>, include_docker: bool)
    ensures
        forall|k: int|
            0 <= k < selected_interfaces(cs, include_docker).len() ==> exists|j: int|
                0 <= j < cs.len() && chosen_from_live(
                    #[trigger] cs[j],
                    #[trigger] selected_interfaces(cs, include_docker)[k],
                    include_docker,
                ),
        forall|c: InterfaceCandidate|
            !c.is_running || !c.is_up || c.is_loopback ==> #[trigger] selected_interfaces(cs.push(c), include_docker)
                == selected_interfaces(cs, include_docker),
    decreases cs.len(),
{
    assert forall|c: InterfaceCandidate|
        !c.is_running || !c.is_up || c.is_loopback implies #[trigger] selected_interfaces(cs.push(c), include_docker)
            == selected_interfaces(cs, include_docker) by {
        assert(cs.push(c).drop_last() =~= cs);
    }
    if cs.len() > 0 {
        let d = cs.drop_last();
        lemma_selected_interfaces_are_live(d, include_docker);
        let sel = selected_interfaces(cs, include_docker);
        let rest = selected_interfaces(d, include_docker);
        assert forall|k: int| 0 <= k < sel.len() implies exists|j: int|
            0 <= j < cs.len() && chosen_from_live(#[trigger] cs[j], #[trigger] sel[k], include_docker) by {
            if k < rest.len() {
                assert(sel[k] == rest[k]);
                let j = choose|j: int| 0 <= j < d.len() && chosen_from_live(#[trigger] d[j], rest[k], include_docker);
                assert(cs[j] == d[j]);
            } else {
                let j = cs.len() - 1;
                assert(cs[j] == cs.last());
                assert(chosen_from_live(cs[j], sel[k], include_docker));
            }
        }
    }
}

} // verus!
