//! Socket addresses as plain integers, and their text form.

use vstd::prelude::*;
use crate::text::{decimal_text, hex_text, push_char, push_decimal, push_hex};

verus! {

/// A remote endpoint: an IP address and a port.
///
/// The IP address is held as its big-endian integer value, so that two
/// addresses are equal exactly when their fields are.
#[allow(inconsistent_fields)]
#[derive(Clone, Copy, Debug, PartialEq, Eq, Hash, Structural)]
pub enum PeerAddr {
    V4 { ip: u32, port: u16 },
    V6 { ip: u128, port: u16, flowinfo: u32, scope_id: u32 },
}

/// The value of the lowest bit of byte `k` of an IPv4 address, its bytes
/// counted from the left.
pub open spec fn octet_unit(k: int) -> int {
    if k == 0 {
        0x100_0000
    } else if k == 1 {
        0x1_0000
    } else if k == 2 {
        0x100
    } else {
        1
    }
}

/// Byte `k` of the IPv4 address `ip`, counted from the left.
pub open spec fn octet(ip: u32, k: int) -> nat {
    ((ip as int / octet_unit(k)) % 0x100) as nat
}

/// The value of the lowest bit of the 16-bit group `k` of an IPv6 address,
/// its groups counted from the left.
pub open spec fn segment_unit(k: int) -> int {
    if k == 0 {
        0x1_0000_0000_0000_0000_0000_0000_0000
    } else if k == 1 {
        0x1_0000_0000_0000_0000_0000_0000
    } else if k == 2 {
        0x1_0000_0000_0000_0000_0000
    } else if k == 3 {
        0x1_0000_0000_0000_0000
    } else if k == 4 {
        0x1_0000_0000_0000
    } else if k == 5 {
        0x1_0000_0000
    } else if k == 6 {
        0x1_0000
    } else {
        1
    }
}

/// The 16-bit group `k` of the IPv6 address `ip`, counted from the left.
pub open spec fn segment(ip: u128, k: int) -> nat {
    ((ip as int / segment_unit(k)) % 0x1_0000) as nat
}

/// The dotted form of an IPv4 address: its four bytes in base ten.
pub open spec fn ipv4_text(ip: u32) -> Seq<char> {
    decimal_text(octet(ip, 0)) + seq!['.'] + decimal_text(octet(ip, 1)) + seq!['.']
        + decimal_text(octet(ip, 2)) + seq!['.'] + decimal_text(octet(ip, 3))
}

/// How many groups from group `k` on are zero without a break.
pub open spec fn zero_run(ip: u128, k: int) -> nat
    decreases 8 - k,
{
    if 0 <= k < 8 && segment(ip, k) == 0 {
        1 + zero_run(ip, k + 1)
    } else {
        0
    }
}

/// The longest run of zero groups that starts before group `n`, as its
/// first group and its length; of two runs of the same length, the one
/// further left.
pub open spec fn longest_zero_run(ip: u128, n: int) -> (int, nat)
    decreases n,
{
    if n <= 0 {
        (0, 0)
    } else {
        let before = longest_zero_run(ip, n - 1);
        if zero_run(ip, n - 1) > before.1 {
            (n - 1, zero_run(ip, n - 1))
        } else {
            before
        }
    }
}

/// The groups from `from` up to, not including, `to`, in base sixteen with
/// a colon between each two.
pub open spec fn groups_text(ip: u128, from: int, to: int) -> Seq<char>
    decreases to - from,
{
    if from >= to {
        Seq::empty()
    } else if from + 1 == to {
        hex_text(segment(ip, from))
    } else {
        hex_text(segment(ip, from)) + seq![':'] + groups_text(ip, from + 1, to)
    }
}

/// Whether `ip` is an IPv4 address mapped into IPv6 (`::ffff:a.b.c.d`).
pub open spec fn is_ipv4_mapped(ip: u128) -> bool {
    ip / 0x1_0000_0000 == 0xffff
}

/// The text of an IPv6 address. An IPv4-mapped address shows the IPv4
/// address in dotted form; in any other, the longest run of two or more
/// zero groups is written `::`.
pub open spec fn ipv6_text(ip: u128) -> Seq<char> {
    if is_ipv4_mapped(ip) {
        seq![':', ':', 'f', 'f', 'f', 'f', ':'] + ipv4_text((ip % 0x1_0000_0000) as u32)
    } else {
        let run = longest_zero_run(ip, 8);
        if run.1 > 1 {
            groups_text(ip, 0, run.0) + seq![':', ':'] + groups_text(ip, run.0 + run.1, 8)
        } else {
            groups_text(ip, 0, 8)
        }
    }
}

/// The text of an endpoint: `a.b.c.d:port` for IPv4; for IPv6 the address
/// in square brackets, with `%` and the scope after it where the scope is
/// not zero, then `:port`.
pub open spec fn addr_text(addr: PeerAddr) -> Seq<char> {
    match addr {
        PeerAddr::V4 { ip, port } => ipv4_text(ip) + seq![':'] + decimal_text(port as nat),
        PeerAddr::V6 { ip, port, flowinfo, scope_id } => seq!['['] + ipv6_text(ip) + (if scope_id
            != 0 {
            seq!['%'] + decimal_text(scope_id as nat)
        } else {
            Seq::empty()
        }) + seq![']', ':'] + decimal_text(port as nat),
    }
}

/// Byte `k` of `ip`, counted from the left.
fn octet_of(ip: u32, k: usize) -> (b: u32)
    requires
        k < 4,
    ensures
        b == octet(ip, k as int),
{
    if k == 0 {
        (ip / 0x100_0000) % 0x100
    } else if k == 1 {
        (ip / 0x1_0000) % 0x100
    } else if k == 2 {
        (ip / 0x100) % 0x100
    } else {
        ip % 0x100
    }
}

/// Group `k` of `ip`, counted from the left.
fn segment_of(ip: u128, k: usize) -> (g: u32)
    requires
        k < 8,
    ensures
        g == segment(ip, k as int),
{
    let g: u128 = if k == 0 {
        (ip / 0x1_0000_0000_0000_0000_0000_0000_0000) % 0x1_0000
    } else if k == 1 {
        (ip / 0x1_0000_0000_0000_0000_0000_0000) % 0x1_0000
    } else if k == 2 {
        (ip / 0x1_0000_0000_0000_0000_0000) % 0x1_0000
    } else if k == 3 {
        (ip / 0x1_0000_0000_0000_0000) % 0x1_0000
    } else if k == 4 {
        (ip / 0x1_0000_0000_0000) % 0x1_0000
    } else if k == 5 {
        (ip / 0x1_0000_0000) % 0x1_0000
    } else if k == 6 {
        (ip / 0x1_0000) % 0x1_0000
    } else {
        ip % 0x1_0000
    };
    g as u32
}

/// Appends the dotted form of `ip` to `out`.
fn push_ipv4(out: &mut String, ip: u32)
    ensures
        final(out)@ == old(out)@ + ipv4_text(ip),
{
    push_decimal(out, octet_of(ip, 0));
    push_char(out, '.');
    push_decimal(out, octet_of(ip, 1));
    push_char(out, '.');
    push_decimal(out, octet_of(ip, 2));
    push_char(out, '.');
    push_decimal(out, octet_of(ip, 3));
    assert(out@ =~= old(out)@ + ipv4_text(ip));
}

/// How many groups from group `k` on are zero without a break.
fn zero_run_of(ip: u128, k: usize) -> (len: usize)
    requires
        k <= 8,
    ensures
        len == zero_run(ip, k as int),
        k + len <= 8,
    decreases 8 - k,
{
    if k < 8 && segment_of(ip, k) == 0 {
        1 + zero_run_of(ip, k + 1)
    } else {
        0
    }
}

/// Appends the groups from `from` up to `to` to `out`.
fn push_groups(out: &mut String, ip: u128, from: usize, to: usize)
    requires
        from <= to <= 8,
    ensures
        final(out)@ == old(out)@ + groups_text(ip, from as int, to as int),
    decreases to - from,
{
    if from >= to {
        assert(out@ =~= old(out)@ + groups_text(ip, from as int, to as int));
    } else if from + 1 == to {
        push_hex(out, segment_of(ip, from));
    } else {
        push_hex(out, segment_of(ip, from));
        push_char(out, ':');
        push_groups(out, ip, from + 1, to);
        assert(out@ =~= old(out)@ + groups_text(ip, from as int, to as int));
    }
}

/// Appends the text of the IPv6 address `ip` to `out`.
fn push_ipv6(out: &mut String, ip: u128)
    ensures
        final(out)@ == old(out)@ + ipv6_text(ip),
{
    if ip / 0x1_0000_0000 == 0xffff {
        push_char(out, ':');
        push_char(out, ':');
        push_char(out, 'f');
        push_char(out, 'f');
        push_char(out, 'f');
        push_char(out, 'f');
        push_char(out, ':');
        push_ipv4(out, (ip % 0x1_0000_0000) as u32);
        assert(out@ =~= old(out)@ + ipv6_text(ip));
    } else {
        let mut start: usize = 0;
        let mut len: usize = 0;
        let mut k: usize = 0;
        while k < 8
            invariant
                k <= 8,
                (start as int, len as nat) == longest_zero_run(ip, k as int),
                start + len <= 8,
            decreases 8 - k,
        {
            let here = zero_run_of(ip, k);
            if here > len {
                start = k;
                len = here;
            }
            k += 1;
        }
        if len > 1 {
            push_groups(out, ip, 0, start);
            push_char(out, ':');
            push_char(out, ':');
            push_groups(out, ip, start + len, 8);
        } else {
            push_groups(out, ip, 0, 8);
        }
        assert(out@ =~= old(out)@ + ipv6_text(ip));
    }
}

impl PeerAddr {
    /// The port of the endpoint.
    pub open spec fn spec_port(self) -> u16 {
        match self {
            PeerAddr::V4 { port, .. } => port,
            PeerAddr::V6 { port, .. } => port,
        }
    }

    /// The port of the endpoint.
    pub fn port(&self) -> (p: u16)
        ensures
            p == self.spec_port(),
    {
        match self {
            PeerAddr::V4 { port, .. } => *port,
            PeerAddr::V6 { port, .. } => *port,
        }
    }

    /// The IPv4 endpoint with the address bytes `a.b.c.d`.
    pub fn v4(a: u8, b: u8, c: u8, d: u8, port: u16) -> (addr: PeerAddr)
        ensures
            addr == (PeerAddr::V4 {
                ip: (a as int * 0x100_0000 + b as int * 0x1_0000 + c as int * 0x100 + d as int) as u32,
                port,
            }),
    {
        let ip: u32 = (a as u32) * 0x100_0000 + (b as u32) * 0x1_0000 + (c as u32) * 0x100 + (
        d as u32);
        PeerAddr::V4 { ip, port }
    }

    /// The IPv4 endpoint that stands for every local address, `0.0.0.0`.
    pub fn unspecified(port: u16) -> (addr: PeerAddr)
        ensures
            addr == (PeerAddr::V4 { ip: 0, port }),
    {
        PeerAddr::V4 { ip: 0, port }
    }

    /// The text of the endpoint.
    pub fn to_text(&self) -> (text: String)
        ensures
            text@ == addr_text(*self),
    {
        let mut text = String::new();
        match self {
            PeerAddr::V4 { ip, port } => {
                push_ipv4(&mut text, *ip);
                push_char(&mut text, ':');
                push_decimal(&mut text, *port as u32);
            },
            PeerAddr::V6 { ip, port, flowinfo, scope_id } => {
                push_char(&mut text, '[');
                push_ipv6(&mut text, *ip);
                if *scope_id != 0 {
                    push_char(&mut text, '%');
                    push_decimal(&mut text, *scope_id);
                }
                push_char(&mut text, ']');
                push_char(&mut text, ':');
                push_decimal(&mut text, *port as u32);
            },
        }
        assert(text@ =~= addr_text(*self));
        text
    }
}

} // verus!
