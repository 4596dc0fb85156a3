//! IP addresses as plain numbers, their order and their text.
use vstd::prelude::*;
use crate::net::{ipv4_text, push_ipv4};

verus! {

/// An IP address: version 4 by its 32-bit value, version 6 by its 128-bit value.
#[derive(Clone, Copy, Debug, PartialEq, Eq, Structural, Hash)]
pub enum IpAddress {
    V4(u32),
    V6(u128),
}

/// `a` sorts before `b`: every version 4 address before every version 6
/// address, and by value within a version.
pub open spec fn ip_lt(a: IpAddress, b: IpAddress) -> bool {
    match (a, b) {
        (IpAddress::V4(x), IpAddress::V4(y)) => x < y,
        (IpAddress::V4(_), IpAddress::V6(_)) => true,
        (IpAddress::V6(_), IpAddress::V4(_)) => false,
        (IpAddress::V6(x), IpAddress::V6(y)) => x < y,
    }
}

/// The order of addresses is the numeric order of their values: a version 4
/// address (its 32-bit big-endian value) sorts before another exactly when
/// its value is smaller, likewise for version 6, and every version 4 address
/// sorts before every version 6 address.
pub proof fn lemma_ip_order_is_numeric(x: u32, y: u32, a: u128, b: u128)
    ensures
        ip_lt(IpAddress::V4(x), IpAddress::V4(y)) <==> x < y,
        ip_lt(IpAddress::V6(a), IpAddress::V6(b)) <==> a < b,
        ip_lt(IpAddress::V4(x), IpAddress::V6(a)),
        !ip_lt(IpAddress::V6(a), IpAddress::V4(x)),
{
}

/// Returns whether `a` sorts before `b`.
pub fn ip_before(a: IpAddress, b: IpAddress) -> (r: bool)
    ensures
        r == ip_lt(a, b),
{
    match (a, b) {
        (IpAddress::V4(x), IpAddress::V4(y)) => x < y,
        (IpAddress::V4(_), IpAddress::V6(_)) => true,
        (IpAddress::V6(_), IpAddress::V4(_)) => false,
        (IpAddress::V6(x), IpAddress::V6(y)) => x < y,
    }
}

/// The lowercase hexadecimal digit of a value below sixteen.
pub open spec fn hex_digit(d: nat) -> char {
    if d < 10 {
        ('0' as u32 + d) as char
    } else {
        ('a' as u32 + (d - 10)) as char
    }
}

/// The lowercase hexadecimal text of a number, without leading zeros.
pub open spec fn hex(n: nat) -> Seq<char>
    decreases n,
{
    if n < 16 {
        seq![hex_digit(n)]
    } else {
        hex(n / 16).push(hex_digit(n % 16))
    }
}

/// Appends the lowercase hexadecimal text of `n`.
pub fn push_hex(s: &mut String, n: u16)
    ensures
        final(s)@ == old(s)@ + hex(n as nat),
    decreases n,
{
    if n >= 16 {
        push_hex(s, n / 16);
    }
    let d: u16 = n % 16;
    let c: char = if d < 10 {
        ((48 + d) as u8) as char
    } else {
        ((97 + (d - 10)) as u8) as char
    };
    s.push(c);
    proof {
        if n >= 16 {
            assert(hex(n as nat) == hex((n / 16) as nat).push(hex_digit((n % 16) as nat)));
        } else {
            assert(hex(n as nat) == seq![hex_digit(n as nat)]);
        }
    }
}

/// The `i`-th 16-bit group of a version 6 address, most significant first.
pub open spec fn segment(v: u128, i: int) -> u16 {
    ((v >> ((112 - 16 * i) as u32)) & 0xffff) as u16
}

/// The eight 16-bit groups of a version 6 address.
pub open spec fn segments(v: u128) -> Seq<u16> {
    Seq::new(8, |i: int| segment(v, i))
}

/// A version 6 address that embeds a version 4 address as `::ffff:a.b.c.d`.
pub open spec fn is_v4_mapped(v: u128) -> bool {
    &&& segment(v, 0) == 0
    &&& segment(v, 1) == 0
    &&& segment(v, 2) == 0
    &&& segment(v, 3) == 0
    &&& segment(v, 4) == 0
    &&& segment(v, 5) == 0xffff
}

/// Scanning the first `n` groups for runs of zeros: the longest run so far
/// (start, length; the first of equally long runs) and the current run
/// (start, length).
pub open spec fn zero_scan(s: Seq<u16>, n: int) -> (int, int, int, int)
    decreases n,
{
    if n <= 0 {
        (0, 0, 0, 0)
    } else {
        let (bs, bl, cs, cl) = zero_scan(s, n - 1);
        if s[n - 1] == 0 {
            let cs2 = if cl == 0 {
                n - 1
            } else {
                cs
            };
            let cl2 = cl + 1;
            if cl2 > bl {
                (cs2, cl2, cs2, cl2)
            } else {
                (bs, bl, cs2, cl2)
            }
        } else {
            (bs, bl, 0, 0)
        }
    }
}

/// Groups in hexadecimal, separated by colons.
pub open spec fn hex_groups(s: Seq<u16>) -> Seq<char>
    decreases s.len(),
{
    if s.len() == 0 {
        Seq::empty()
    } else if s.len() == 1 {
        hex(s[0] as nat)
    } else {
        hex_groups(s.drop_last()) + seq![':'] + hex(s.last() as nat)
    }
}

/// The text of a version 6 address as `Ipv6Addr`'s `Display` writes it: an
/// embedded version 4 address as `::ffff:a.b.c.d`; otherwise the groups in
/// lowercase hexadecimal, with the first longest run of two or more zero
/// groups written as `::`.
pub open spec fn ipv6_text(v: u128) -> Seq<char> {
    let s = segments(v);
    if is_v4_mapped(v) {
        seq![':', ':', 'f', 'f', 'f', 'f', ':'] + ipv4_text((v & 0xffff_ffff) as u32)
    } else {
        let (start, len, _cs, _cl) = zero_scan(s, 8);
        if len > 1 {
            hex_groups(s.take(start)) + seq![':', ':'] + hex_groups(s.skip(start + len))
        } else {
            hex_groups(s)
        }
    }
}

/// The text of an address, as `IpAddr`'s `Display` writes it.
pub open spec fn ip_text(a: IpAddress) -> Seq<char> {
    match a {
        IpAddress::V4(x) => ipv4_text(x),
        IpAddress::V6(x) => ipv6_text(x),
    }
}

fn segment_of(v: u128, i: usize) -> (r: u16)
    requires
        i < 8,
    ensures
        r == segment(v, i as int),
{
    let sh: u32 = 112 - 16 * (i as u32);
    ((v >> sh) & 0xffff) as u16
}

/// Appends the groups `from..to` of `segs`, separated by colons.
fn push_hex_groups(s: &mut String, segs: &Vec<u16>, from: usize, to: usize)
    requires
        from <= to <= segs.len(),
    ensures
        final(s)@ == old(s)@ + hex_groups(segs@.subrange(from as int, to as int)),
{
    let ghost start = s@;
    let mut i: usize = from;
    while i < to
        invariant
            from <= i <= to,
            to <= segs.len(),
            s@ == start + hex_groups(segs@.subrange(from as int, i as int)),
        decreases to - i,
    {
        let ghost sub = segs@.subrange(from as int, i + 1);
        assert(sub.drop_last() =~= segs@.subrange(from as int, i as int));
        if i > from {
            s.push(':');
        }
        push_hex(s, segs[i]);
        proof {
            if i == from {
                assert(segs@.subrange(from as int, i as int).len() == 0);
                assert(s@ =~= start + hex_groups(sub));
            } else {
                assert(s@ =~= start + hex_groups(sub));
            }
        }
        i = i + 1;
    }
}

/// Appends the text of a version 6 address.
pub fn push_ipv6(s: &mut String, v: u128)
    ensures
        final(s)@ == old(s)@ + ipv6_text(v),
{
    let ghost start = s@;
    let mut segs: Vec<u16> = Vec::new();
    let mut i: usize = 0;
    while i < 8
        invariant
            i <= 8,
            segs@ == segments(v).take(i as int),
        decreases 8 - i,
    {
        let g = segment_of(v, i);
        segs.push(g);
        assert(segs@ =~= segments(v).take(i + 1));
        i = i + 1;
    }
    assert(segs@ =~= segments(v));
    if segs[0] == 0 && segs[1] == 0 && segs[2] == 0 && segs[3] == 0 && segs[4] == 0 && segs[5]
        == 0xffff {
        s.push(':');
        s.push(':');
        s.push('f');
        s.push('f');
        s.push('f');
        s.push('f');
        s.push(':');
        push_ipv4(s, (v & 0xffff_ffff) as u32);
        assert(s@ =~= start + ipv6_text(v));
        return;
    }
    let mut best_start: usize = 0;
    let mut best_len: usize = 0;
    let mut cur_start: usize = 0;
    let mut cur_len: usize = 0;
    let mut k: usize = 0;
    while k < 8
        invariant
            k <= 8,
            segs@ == segments(v),
            zero_scan(segs@, k as int) == (
            best_start as int,
            best_len as int,
            cur_start as int,
            cur_len as int,
            ),
            best_start + best_len <= k,
            cur_start + cur_len <= k,
        decreases 8 - k,
    {
        if segs[k] == 0 {
            if cur_len == 0 {
                cur_start = k;
            }
            cur_len = cur_len + 1;
            if cur_len > best_len {
                best_start = cur_start;
                best_len = cur_len;
            }
        } else {
            cur_start = 0;
            cur_len = 0;
        }
        k = k + 1;
    }
    if best_len > 1 {
        push_hex_groups(s, &segs, 0, best_start);
        s.push(':');
        s.push(':');
        push_hex_groups(s, &segs, best_start + best_len, 8);
        assert(segs@.take(best_start as int) =~= segs@.subrange(0, best_start as int));
        assert(segs@.skip(best_start + best_len) =~= segs@.subrange(
            best_start + best_len,
            8,
        ));
    } else {
        push_hex_groups(s, &segs, 0, 8);
        assert(segs@ =~= segs@.subrange(0, 8));
    }
    assert(s@ =~= start + ipv6_text(v));
}

impl IpAddress {
    /// The text of the address, as `IpAddr`'s `Display` writes it.
    pub fn text(&self) -> (r: String)
        ensures
            r@ == ip_text(*self),
    {
        let mut s = String::new();
        match *self {
            IpAddress::V4(x) => push_ipv4(&mut s, x),
            IpAddress::V6(x) => push_ipv6(&mut s, x),
        }
        assert(s@ =~= ip_text(*self));
        s
    }
}

} // verus!
