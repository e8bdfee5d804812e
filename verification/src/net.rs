//! IP addresses as the probes report them, and their textual form.

use vstd::prelude::*;
use crate::text::{dec, hex, push_char, push_dec, push_hex, push_str};

verus! {

/// An IPv4 or IPv6 address; the integer is the address read big-endian, as
/// `std::net::Ipv4Addr::from(u32)` and `Ipv6Addr::from(u128)` read it.
#[derive(Clone, Copy, Debug, PartialEq, Eq, Structural)]
pub enum IpAddr {
    V4(u32),
    V6(u128),
}

/// Big-endian value of the four bytes at `at`.
pub open spec fn be32(s: Seq<u8>, at: int) -> int {
    16777216 * s[at] + 65536 * s[at + 1] + 256 * s[at + 2] + s[at + 3]
}

/// Big-endian value of the eight bytes at `at`.
pub open spec fn be64(s: Seq<u8>, at: int) -> int {
    4294967296 * be32(s, at) + be32(s, at + 4)
}

/// Big-endian value of the sixteen bytes at `at`.
pub open spec fn be128(s: Seq<u8>, at: int) -> int {
    18446744073709551616 * be64(s, at) + be64(s, at + 8)
}

pub fn read_be32(s: &[u8], at: usize) -> (r: u32)
    requires
        at + 4 <= s.len(),
    ensures
        r == be32(s@, at as int),
{
    (s[at] as u32) * 16777216 + (s[at + 1] as u32) * 65536 + (s[at + 2] as u32) * 256 + (
    s[at + 3] as u32)
}

pub fn read_be64(s: &[u8], at: usize) -> (r: u64)
    requires
        at + 8 <= s.len(),
    ensures
        r == be64(s@, at as int),
{
    let hi = read_be32(s, at) as u64;
    let lo = read_be32(s, at + 4) as u64;
    assert(hi * 4294967296 <= 0xffff_ffff_0000_0000) by (nonlinear_arith)
        requires
            hi <= 0xffff_ffff,
    ;
    hi * 4294967296 + lo
}

pub fn read_be128(s: &[u8], at: usize) -> (r: u128)
    requires
        at + 16 <= s.len(),
    ensures
        r == be128(s@, at as int),
{
    let hi = read_be64(s, at) as u128;
    let lo = read_be64(s, at + 8) as u128;
    assert(hi * 18446744073709551616 <= 0xffff_ffff_ffff_ffff_0000_0000_0000_0000) by (
    nonlinear_arith)
        requires
            hi <= 0xffff_ffff_ffff_ffff,
    ;
    hi * 18446744073709551616 + lo
}

/// The IPv4 address embedded in an IPv4-mapped IPv6 address (`::ffff:a.b.c.d`).
pub open spec fn spec_ipv4_mapped(x: u128) -> Option<u32> {
    if x / 0x1_0000_0000 == 0xffff {
        Some((x % 0x1_0000_0000) as u32)
    } else {
        None
    }
}

pub fn ipv4_mapped(x: u128) -> (r: Option<u32>)
    ensures
        r == spec_ipv4_mapped(x),
{
    if x / 0x1_0000_0000 == 0xffff {
        Some((x % 0x1_0000_0000) as u32)
    } else {
        None
    }
}

/// An IPv6 address, given as an IPv4 address when it is IPv4-mapped.
pub open spec fn spec_v6_or_mapped(x: u128) -> IpAddr {
    match spec_ipv4_mapped(x) {
        Some(v4) => IpAddr::V4(v4),
        None => IpAddr::V6(x),
    }
}

pub fn v6_or_mapped(x: u128) -> (r: IpAddr)
    ensures
        r == spec_v6_or_mapped(x),
{
    match ipv4_mapped(x) {
        Some(v4) => IpAddr::V4(v4),
        None => IpAddr::V6(x),
    }
}

/// The address in a 16-byte buffer for an address family tag (4 or 6):
/// IPv4 in the first four bytes, IPv6 in all sixteen (IPv4-mapped ones as
/// IPv4), and the unspecified IPv4 address for any other tag.
pub open spec fn spec_fmt_ip(ip: Seq<u8>, family: u8) -> IpAddr {
    if family == 4 {
        IpAddr::V4(be32(ip, 0) as u32)
    } else if family == 6 {
        spec_v6_or_mapped(be128(ip, 0) as u128)
    } else {
        IpAddr::V4(0)
    }
}

pub fn fmt_ip(ip: [u8; 16], family: u8) -> (r: IpAddr)
    ensures
        r == spec_fmt_ip(ip@, family),
{
    if family == 4 {
        IpAddr::V4(read_be32(ip.as_slice(), 0))
    } else if family == 6 {
        v6_or_mapped(read_be128(ip.as_slice(), 0))
    } else {
        IpAddr::V4(0)
    }
}

/// Integer key identifying an address (family tag and value), used where an
/// address indexes a cache.
pub open spec fn spec_ip_key(ip: IpAddr) -> (u8, u128) {
    match ip {
        IpAddr::V4(a) => (4u8, a as u128),
        IpAddr::V6(b) => (6u8, b),
    }
}

pub fn ip_key(ip: &IpAddr) -> (k: (u8, u128))
    ensures
        k == spec_ip_key(*ip),
{
    match ip {
        IpAddr::V4(a) => (4u8, *a as u128),
        IpAddr::V6(b) => (6u8, *b),
    }
}

/// Law: two addresses share a cache key only when they are the same address
/// (an IPv4 address and the IPv6 address with the same value do not).
pub proof fn law_ip_key_injective(a: IpAddr, b: IpAddr)
    ensures
        spec_ip_key(a) == spec_ip_key(b) <==> a == b,
{
}

// ── text ─────────────────────────────────────────────────────────────────────

/// Dotted-quad text of an IPv4 address.
pub open spec fn v4_text(a: u32) -> Seq<char> {
    dec((a / 16777216) as nat) + seq!['.'] + dec(((a / 65536) % 256) as nat) + seq!['.'] + dec(
        ((a / 256) % 256) as nat,
    ) + seq!['.'] + dec((a % 256) as nat)
}

/// Divisor that brings 16-bit group `k` (0 = most significant) of an IPv6
/// address to the low bits.
pub open spec fn group_divisor(k: int) -> int {
    if k == 0 {
        0x1_0000_0000_0000_0000_0000_0000_0000
    } else if k == 1 {
        0x1_0000_0000_0000_0000_0000_0000
    } else if k == 2 {
        0x1_0000_0000_0000_0000_0000
    } else if k == 3 {
        0x1_0000_0000_0000_0000
    } else if k == 4 {
        0x1_0000_0000_0000
    } else if k == 5 {
        0x1_0000_0000
    } else if k == 6 {
        0x1_0000
    } else {
        1
    }
}

/// The eight 16-bit groups of an IPv6 address, most significant first.
pub open spec fn groups(x: u128) -> Seq<u16> {
    Seq::new(8, |k: int| (((x as int) / group_divisor(k)) % 65536) as u16)
}

/// First longest run of zero groups, scanning from `i`: `(cs, cl)` is the run
/// in progress and `(bs, bl)` the longest found so far; a run replaces the
/// longest one only when it is strictly longer.
pub open spec fn zero_run_from(g: Seq<u16>, i: int, cs: int, cl: int, bs: int, bl: int) -> (
    int,
    int,
)
    decreases g.len() - i,
{
    if i < 0 || i >= g.len() {
        (bs, bl)
    } else if g[i] == 0 {
        let ncs = if cl == 0 {
            i
        } else {
            cs
        };
        let ncl = cl + 1;
        if ncl > bl {
            zero_run_from(g, i + 1, ncs, ncl, ncs, ncl)
        } else {
            zero_run_from(g, i + 1, ncs, ncl, bs, bl)
        }
    } else {
        zero_run_from(g, i + 1, 0, 0, bs, bl)
    }
}

/// Start and length of the first longest run of zero groups.
pub open spec fn zero_run(g: Seq<u16>) -> (int, int) {
    zero_run_from(g, 0, 0, 0, 0, 0)
}

/// Hexadecimal groups joined by `:`.
pub open spec fn join_hex(g: Seq<u16>) -> Seq<char>
    decreases g.len(),
{
    if g.len() == 0 {
        Seq::<char>::empty()
    } else if g.len() == 1 {
        hex(g[0] as nat)
    } else {
        join_hex(g.drop_last()) + seq![':'] + hex(g.last() as nat)
    }
}

/// Text of an IPv6 address as std's `Display` gives it: IPv4-mapped ones as
/// `::ffff:a.b.c.d`; otherwise lowercase hex groups with the first longest
/// run of two or more zero groups written as `::`.
pub open spec fn v6_text(x: u128) -> Seq<char> {
    match spec_ipv4_mapped(x) {
        Some(v4) => seq![':', ':', 'f', 'f', 'f', 'f', ':'] + v4_text(v4),
        None => {
            let g = groups(x);
            let (st, len) = zero_run(g);
            if len > 1 {
                join_hex(g.subrange(0, st)) + seq![':', ':'] + join_hex(g.subrange(st + len, 8))
            } else {
                join_hex(g)
            }
        },
    }
}

/// Text of an address.
pub open spec fn ip_text(ip: IpAddr) -> Seq<char> {
    match ip {
        IpAddr::V4(a) => v4_text(a),
        IpAddr::V6(x) => v6_text(x),
    }
}

fn push_v4(out: &mut String, a: u32)
    ensures
        final(out)@ == old(out)@ + v4_text(a),
{
    push_dec(out, (a / 16777216) as u64);
    push_char(out, '.');
    push_dec(out, ((a / 65536) % 256) as u64);
    push_char(out, '.');
    push_dec(out, ((a / 256) % 256) as u64);
    push_char(out, '.');
    push_dec(out, (a % 256) as u64);
}

fn group_at(x: u128, k: usize) -> (r: u16)
    requires
        k < 8,
    ensures
        r == groups(x)[k as int],
{
    let d: u128 = if k == 0 {
        0x1_0000_0000_0000_0000_0000_0000_0000
    } else if k == 1 {
        0x1_0000_0000_0000_0000_0000_0000
    } else if k == 2 {
        0x1_0000_0000_0000_0000_0000
    } else if k == 3 {
        0x1_0000_0000_0000_0000
    } else if k == 4 {
        0x1_0000_0000_0000
    } else if k == 5 {
        0x1_0000_0000
    } else if k == 6 {
        0x1_0000
    } else {
        1
    };
    ((x / d) % 65536) as u16
}

fn push_join_hex(out: &mut String, g: &Vec<u16>, from: usize, to: usize)
    requires
        from <= to <= g@.len(),
    ensures
        final(out)@ == old(out)@ + join_hex(g@.subrange(from as int, to as int)),
{
    let mut i = from;
    while i < to
        invariant
            from <= i <= to <= g@.len(),
            out@ == old(out)@ + join_hex(g@.subrange(from as int, i as int)),
        decreases to - i,
    {
        let ghost before = out@;
        if i > from {
            push_char(out, ':');
        }
        push_hex(out, g[i] as u64);
        proof {
            let prev = g@.subrange(from as int, i as int);
            let next = g@.subrange(from as int, i + 1);
            assert(next.drop_last() == prev);
            assert(next.last() == g@[i as int]);
            if i == from {
                assert(next.len() == 1);
            }
        }
        i += 1;
    }
}

fn push_v6(out: &mut String, x: u128)
    ensures
        final(out)@ == old(out)@ + v6_text(x),
{
    match ipv4_mapped(x) {
        Some(v4) => {
            push_str(out, "::ffff:");
            proof {
                reveal_strlit("::ffff:");
            }
            push_v4(out, v4);
            assert(final(out)@ == old(out)@ + v6_text(x));
        },
        None => {
            let mut g: Vec<u16> = Vec::new();
            let mut k: usize = 0;
            while k < 8
                invariant
                    k <= 8,
                    g@ == groups(x).subrange(0, k as int),
                decreases 8 - k,
            {
                g.push(group_at(x, k));
                k += 1;
            }
            assert(g@ == groups(x));
            let mut cs: usize = 0;
            let mut cl: usize = 0;
            let mut bs: usize = 0;
            let mut bl: usize = 0;
            let mut i: usize = 0;
            while i < 8
                invariant
                    g@ == groups(x),
                    i <= 8,
                    cs <= i,
                    cl <= i,
                    bs <= i,
                    bl <= i,
                    bs + bl <= i,
                    cl > 0 ==> cs + cl == i,
                    cs + cl <= i,
                    zero_run_from(g@, i as int, cs as int, cl as int, bs as int, bl as int)
                        == zero_run(g@),
                decreases 8 - i,
            {
                if g[i] == 0 {
                    if cl == 0 {
                        cs = i;
                    }
                    cl += 1;
                    if cl > bl {
                        bs = cs;
                        bl = cl;
                    }
                } else {
                    cs = 0;
                    cl = 0;
                }
                i += 1;
            }
            if bl > 1 {
                push_join_hex(out, &g, 0, bs);
                push_char(out, ':');
                push_char(out, ':');
                push_join_hex(out, &g, bs + bl, 8);
            } else {
                push_join_hex(out, &g, 0, 8);
                assert(g@.subrange(0, 8) == g@);
            }
        },
    }
}

/// Appends the text of an address.
pub fn push_ip(out: &mut String, ip: &IpAddr)
    ensures
        final(out)@ == old(out)@ + ip_text(*ip),
{
    match ip {
        IpAddr::V4(a) => push_v4(out, *a),
        IpAddr::V6(x) => push_v6(out, *x),
    }
}

/// The text of an address as a new `String`.
pub fn ip_to_string(ip: &IpAddr) -> (s: String)
    ensures
        s@ == ip_text(*ip),
{
    let mut s = String::new();
    push_ip(&mut s, ip);
    s
}

} // verus!
