//! Socket addresses as plain values.

use crate::utils::{dec_text, hex_text, push_dec, push_hex};
use vstd::prelude::*;

verus! {

/// An IP address: four bytes for IPv4, sixteen for IPv6, each held as one big-endian integer.
#[derive(Clone, Copy, Debug, PartialEq, Eq, Hash, Structural)]
pub enum IpAddr {
    /// An IPv4 address.
    V4(u32),
    /// An IPv6 address.
    V6(u128),
}

/// A socket address: an IP address and a port; for IPv6, also the flow information and the
/// scope id (both zero for IPv4).
#[derive(Clone, Copy, Debug, PartialEq, Eq, Hash, Structural)]
pub struct SocketAddr {
    /// The IP address.
    pub ip: IpAddr,
    /// The port.
    pub port: u16,
    /// The IPv6 flow information.
    pub flowinfo: u32,
    /// The IPv6 scope id.
    pub scope_id: u32,
}

impl SocketAddr {
    /// A socket address from its IP address and port.
    pub fn new(ip: IpAddr, port: u16) -> (r: SocketAddr)
        ensures
            r.ip == ip,
            r.port == port,
            r.flowinfo == 0,
            r.scope_id == 0,
    {
        SocketAddr { ip, port, flowinfo: 0, scope_id: 0 }
    }

    /// An IPv6 socket address with its flow information and scope id.
    pub fn new_v6(ip: u128, port: u16, flowinfo: u32, scope_id: u32) -> (r: SocketAddr)
        ensures
            r == (SocketAddr { ip: IpAddr::V6(ip), port, flowinfo, scope_id }),
    {
        SocketAddr { ip: IpAddr::V6(ip), port, flowinfo, scope_id }
    }

    /// The IP address.
    pub fn ip(&self) -> (r: IpAddr)
        ensures
            r == self.ip,
    {
        self.ip
    }

    /// The port.
    pub fn port(&self) -> (r: u16)
        ensures
            r == self.port,
    {
        self.port
    }
}

/// Whether two addresses are the same.
pub fn addr_eq(a: &SocketAddr, b: &SocketAddr) -> (r: bool)
    ensures
        r == (*a == *b),
{
    *a == *b
}

/// An IPv4 address in dotted decimal.
pub open spec fn ipv4_text(x: u32) -> Seq<char> {
    dec_text((x / 0x100_0000) as nat) + "."@ + dec_text(((x / 0x1_0000) % 0x100) as nat) + "."@
        + dec_text(((x / 0x100) % 0x100) as nat) + "."@ + dec_text((x % 0x100) as nat)
}

/// The eight 16-bit segments of an IPv6 address, most significant first.
pub open spec fn segments(v: u128) -> Seq<u64> {
    seq![
        ((v / 0x1_0000_0000_0000_0000_0000_0000_0000) % 0x1_0000) as u64,
        ((v / 0x1_0000_0000_0000_0000_0000_0000) % 0x1_0000) as u64,
        ((v / 0x1_0000_0000_0000_0000_0000) % 0x1_0000) as u64,
        ((v / 0x1_0000_0000_0000_0000) % 0x1_0000) as u64,
        ((v / 0x1_0000_0000_0000) % 0x1_0000) as u64,
        ((v / 0x1_0000_0000) % 0x1_0000) as u64,
        ((v / 0x1_0000) % 0x1_0000) as u64,
        (v % 0x1_0000) as u64,
    ]
}

/// How many zero segments follow from position `i` on.
pub open spec fn zeros_from(s: Seq<u64>, i: int) -> nat
    decreases s.len() - i,
{
    if 0 <= i < s.len() && s[i] == 0 {
        1 + zeros_from(s, i + 1)
    } else {
        0
    }
}

/// The first position from `i` on whose run of zero segments is the longest, and that length
/// (the length of `s` and no zeros when there is no position left).
pub open spec fn longest_zeros(s: Seq<u64>, i: int) -> (int, nat)
    decreases s.len() - i,
{
    if i < 0 || i >= s.len() {
        (s.len() as int, 0)
    } else {
        let b = longest_zeros(s, i + 1);
        if zeros_from(s, i) >= b.1 {
            (i, zeros_from(s, i))
        } else {
            b
        }
    }
}

/// Segments in hexadecimal, separated by colons.
pub open spec fn hex_list(s: Seq<u64>) -> Seq<char>
    decreases s.len(),
{
    if s.len() == 0 {
        Seq::empty()
    } else if s.len() == 1 {
        hex_text(s[0] as nat)
    } else {
        hex_list(s.drop_last()) + ":"@ + hex_text(s.last() as nat)
    }
}

/// An IPv6 address as text: an IPv4-mapped address as `::ffff:` and the IPv4 address;
/// otherwise its segments in hexadecimal, with the first longest run of two or more zero
/// segments written as `::`.
pub open spec fn ipv6_text(v: u128) -> Seq<char> {
    let s = segments(v);
    if s[0] == 0 && s[1] == 0 && s[2] == 0 && s[3] == 0 && s[4] == 0 && s[5] == 0xffff {
        "::ffff:"@ + ipv4_text((v % 0x1_0000_0000) as u32)
    } else {
        let b = longest_zeros(s, 0);
        if b.1 > 1 {
            hex_list(s.subrange(0, b.0)) + "::"@ + hex_list(s.subrange(b.0 + b.1, 8))
        } else {
            hex_list(s)
        }
    }
}

/// A socket address as text: `a.b.c.d:port`, or `[ipv6]:port`, with `%scope` after the IPv6
/// address when its scope id is not zero. The flow information is not written.
pub open spec fn addr_text(a: SocketAddr) -> Seq<char> {
    match a.ip {
        IpAddr::V4(x) => ipv4_text(x) + ":"@ + dec_text(a.port as nat),
        IpAddr::V6(v) => "["@ + ipv6_text(v) + (if a.scope_id == 0 {
            Seq::empty()
        } else {
            "%"@ + dec_text(a.scope_id as nat)
        }) + "]:"@ + dec_text(a.port as nat),
    }
}

/// Appends an IPv4 address in dotted decimal.
fn push_ipv4(out: &mut String, x: u32)
    ensures
        final(out)@ == old(out)@ + ipv4_text(x),
{
    let ghost start = out@;
    proof {
        reveal_strlit(".");
    }
    push_dec(out, (x / 0x100_0000) as u64);
    out.append(".");
    push_dec(out, ((x / 0x1_0000) % 0x100) as u64);
    out.append(".");
    push_dec(out, ((x / 0x100) % 0x100) as u64);
    out.append(".");
    push_dec(out, (x % 0x100) as u64);
    assert(out@ =~= start + ipv4_text(x));
}

/// The segments of an IPv6 address.
fn segments_of(v: u128) -> (r: Vec<u64>)
    ensures
        r@ == segments(v),
{
    let mut r: Vec<u64> = Vec::new();
    r.push(((v / 0x1_0000_0000_0000_0000_0000_0000_0000) % 0x1_0000) as u64);
    r.push(((v / 0x1_0000_0000_0000_0000_0000_0000) % 0x1_0000) as u64);
    r.push(((v / 0x1_0000_0000_0000_0000_0000) % 0x1_0000) as u64);
    r.push(((v / 0x1_0000_0000_0000_0000) % 0x1_0000) as u64);
    r.push(((v / 0x1_0000_0000_0000) % 0x1_0000) as u64);
    r.push(((v / 0x1_0000_0000) % 0x1_0000) as u64);
    r.push(((v / 0x1_0000) % 0x1_0000) as u64);
    r.push((v % 0x1_0000) as u64);
    assert(r@ =~= segments(v));
    r
}

/// Appends the segments `lo..hi` in hexadecimal, separated by colons.
fn push_hex_list(out: &mut String, s: &Vec<u64>, lo: usize, hi: usize)
    requires
        lo <= hi <= s@.len(),
    ensures
        final(out)@ == old(out)@ + hex_list(s@.subrange(lo as int, hi as int)),
{
    let ghost start = out@;
    proof {
        reveal_strlit(":");
        assert(s@.subrange(lo as int, lo as int) =~= Seq::<u64>::empty());
    }
    let mut j: usize = lo;
    while j < hi
        invariant
            lo <= j <= hi <= s@.len(),
            out@ == start + hex_list(s@.subrange(lo as int, j as int)),
        decreases hi - j,
    {
        let ghost before = out@;
        if j > lo {
            out.append(":");
        }
        push_hex(out, s[j]);
        proof {
            let t = s@.subrange(lo as int, j + 1);
            assert(t.drop_last() =~= s@.subrange(lo as int, j as int));
            assert(t.last() == s@[j as int]);
            if j == lo {
                assert(t.len() == 1);
                assert(out@ =~= start + hex_list(t));
            } else {
                assert(out@ =~= start + hex_list(t));
            }
        }
        j = j + 1;
    }
}

/// Appends an IPv6 address as text.
fn push_ipv6(out: &mut String, v: u128)
    ensures
        final(out)@ == old(out)@ + ipv6_text(v),
{
    let ghost start = out@;
    let s = segments_of(v);
    proof {
        reveal_strlit("::ffff:");
        reveal_strlit("::");
    }
    if s[0] == 0 && s[1] == 0 && s[2] == 0 && s[3] == 0 && s[4] == 0 && s[5] == 0xffff {
        out.append("::ffff:");
        push_ipv4(out, (v % 0x1_0000_0000) as u32);
        assert(out@ =~= start + ipv6_text(v));
        return;
    }
    let mut i: usize = 8;
    let mut z: u64 = 0;
    let mut bs: usize = 8;
    let mut bl: u64 = 0;
    while i > 0
        invariant
            0 <= i <= 8,
            s@.len() == 8,
            z as nat == zeros_from(s@, i as int),
            z <= 8 - i,
            bl <= 8 - i,
            bs <= 8,
            (bs as int, bl as nat) == longest_zeros(s@, i as int),
        decreases i,
    {
        i = i - 1;
        if s[i] == 0 {
            z = z + 1;
        } else {
            z = 0;
        }
        if z >= bl {
            bs = i;
            bl = z;
        }
    }
    let ghost b = longest_zeros(s@, 0);
    if bl > 1 {
        proof {
            assert(b.0 + b.1 <= 8) by {
                lemma_longest_zeros_fits(s@, 0);
            }
        }
        push_hex_list(out, &s, 0, bs);
        out.append("::");
        push_hex_list(out, &s, bs + bl as usize, 8);
        assert(out@ =~= start + ipv6_text(v));
    } else {
        push_hex_list(out, &s, 0, 8);
        assert(s@.subrange(0, 8) =~= s@);
        assert(out@ =~= start + ipv6_text(v));
    }
}

/// A run of zeros stays within the segments.
proof fn lemma_zeros_from_fits(s: Seq<u64>, i: int)
    requires
        0 <= i <= s.len(),
    ensures
        i + zeros_from(s, i) <= s.len(),
    decreases s.len() - i,
{
    if i < s.len() && s[i] == 0 {
        lemma_zeros_from_fits(s, i + 1);
    }
}

/// The longest run of zeros stays within the segments.
proof fn lemma_longest_zeros_fits(s: Seq<u64>, i: int)
    requires
        0 <= i <= s.len(),
    ensures
        0 <= longest_zeros(s, i).0 <= s.len(),
        longest_zeros(s, i).0 + longest_zeros(s, i).1 <= s.len(),
    decreases s.len() - i,
{
    if i < s.len() {
        lemma_longest_zeros_fits(s, i + 1);
        lemma_zeros_from_fits(s, i);
    }
}

impl SocketAddr {
    /// The address as text: `a.b.c.d:port` for IPv4, `[ipv6]:port` for IPv6.
    pub fn to_display_string(&self) -> (r: String)
        ensures
            r@ == addr_text(*self),
    {
        let mut out = String::new();
        proof {
            reveal_strlit(":");
            reveal_strlit("[");
            reveal_strlit("]:");
            reveal_strlit("%");
        }
        match self.ip {
            IpAddr::V4(x) => {
                push_ipv4(&mut out, x);
                out.append(":");
            },
            IpAddr::V6(v) => {
                out.append("[");
                push_ipv6(&mut out, v);
                if self.scope_id != 0 {
                    out.append("%");
                    push_dec(&mut out, self.scope_id as u64);
                }
                out.append("]:");
            },
        }
        push_dec(&mut out, self.port as u64);
        assert(out@ =~= addr_text(*self));
        out
    }
}

} // verus!
