//! Network addresses as plain values: an IP address and a socket address
//! (IP and port). The program's I/O layer converts them to and from the
//! platform's socket types, and their text forms.
use vstd::prelude::*;
use crate::text::{decimal_spec, hex_spec, push_char, push_decimal, push_hex};

verus! {

/// An IPv4 or IPv6 address.
#[derive(Clone, Copy, Debug, PartialEq, Eq, Hash, Structural)]
pub enum IpAddress {
    /// The 32 bits of the address, first octet most significant.
    V4(u32),
    /// The 128 bits of the address, first group most significant.
    V6(u128),
}

/// An IP address and a port.
#[derive(Clone, Copy, Debug, PartialEq, Eq, Hash, Structural)]
pub struct SocketAddress {
    pub ip: IpAddress,
    pub port: u16,
}

impl SocketAddress {
    /// The address `ip:port`.
    pub fn new(ip: IpAddress, port: u16) -> (r: SocketAddress)
        ensures
            r.ip == ip,
            r.port == port,
    {
        SocketAddress { ip, port }
    }
}


// ---------------------------------------------------------------------------
// Text forms
// ---------------------------------------------------------------------------

/// `a.b.c.d`: the four octets of an IPv4 address in decimal.
pub open spec fn ipv4_text(a: u32) -> Seq<char> {
    decimal_spec((a / 0x100_0000) as nat) + seq!['.'] + decimal_spec((a / 0x1_0000 % 256) as nat) + seq!['.']
        + decimal_spec((a / 0x100 % 256) as nat) + seq!['.'] + decimal_spec((a % 256) as nat)
}

/// The eight 16-bit groups of an IPv6 address, first group first.
pub open spec fn v6_groups(a: u128) -> Seq<nat> {
    seq![
        (a / 0x1_0000_0000_0000_0000_0000_0000_0000 % 0x1_0000) as nat,
        (a / 0x1_0000_0000_0000_0000_0000_0000 % 0x1_0000) as nat,
        (a / 0x1_0000_0000_0000_0000_0000 % 0x1_0000) as nat,
        (a / 0x1_0000_0000_0000_0000 % 0x1_0000) as nat,
        (a / 0x1_0000_0000_0000 % 0x1_0000) as nat,
        (a / 0x1_0000_0000 % 0x1_0000) as nat,
        (a / 0x1_0000 % 0x1_0000) as nat,
        (a % 0x1_0000) as nat,
    ]
}

/// The number of zero groups starting at position `s`.
pub open spec fn zero_run(g: Seq<nat>, s: int) -> nat
    decreases g.len() - s,
{
    if 0 <= s < g.len() && g[s] == 0 {
        1 + zero_run(g, s + 1)
    } else {
        0
    }
}

/// The earliest start among the first `n` positions whose run of zero groups
/// is longest, with that run's length (`(0, 0)` when there is no zero).
pub open spec fn longest_zero_run(g: Seq<nat>, n: int) -> (int, nat)
    decreases n,
{
    if n <= 0 {
        (0, 0)
    } else {
        let b = longest_zero_run(g, n - 1);
        if zero_run(g, n - 1) > b.1 {
            (n - 1, zero_run(g, n - 1))
        } else {
            b
        }
    }
}

/// Groups in lower-case hex separated by `:`.
pub open spec fn join_groups(g: Seq<nat>) -> Seq<char>
    decreases g.len(),
{
    if g.len() == 0 {
        Seq::empty()
    } else if g.len() == 1 {
        hex_spec(g[0])
    } else {
        join_groups(g.drop_last()) + seq![':'] + hex_spec(g.last())
    }
}

/// Is this an IPv4-mapped address (`::ffff:a.b.c.d`)?
pub open spec fn v4_mapped(a: u128) -> bool {
    a / 0x1_0000_0000 == 0xffff
}

/// The text form of an IPv6 address: an IPv4-mapped address as
/// `::ffff:a.b.c.d`; otherwise the groups in lower-case hex, with the first
/// longest run of two or more zero groups written as `::`.
pub open spec fn ipv6_text(a: u128) -> Seq<char> {
    let g = v6_groups(a);
    let b = longest_zero_run(g, 8);
    if v4_mapped(a) {
        seq![':', ':', 'f', 'f', 'f', 'f', ':'] + ipv4_text((a % 0x1_0000_0000) as u32)
    } else if b.1 > 1 {
        join_groups(g.take(b.0)) + seq![':', ':'] + join_groups(g.skip(b.0 + b.1))
    } else {
        join_groups(g)
    }
}

/// The text form of a socket address: `a.b.c.d:port` or `[v6]:port`.
pub open spec fn socket_text(s: SocketAddress) -> Seq<char> {
    match s.ip {
        IpAddress::V4(a) => ipv4_text(a) + seq![':'] + decimal_spec(s.port as nat),
        IpAddress::V6(a) => seq!['['] + ipv6_text(a) + seq![']', ':'] + decimal_spec(s.port as nat),
    }
}

/// Appends `a.b.c.d`.
pub fn push_ipv4(out: &mut String, a: u32)
    ensures
        final(out)@ == old(out)@ + ipv4_text(a),
{
    push_decimal(out, (a / 0x100_0000) as u64);
    push_char(out, '.');
    push_decimal(out, (a / 0x1_0000 % 256) as u64);
    push_char(out, '.');
    push_decimal(out, (a / 0x100 % 256) as u64);
    push_char(out, '.');
    push_decimal(out, (a % 256) as u64);
    assert(out@ =~= old(out)@ + ipv4_text(a));
}

/// The groups of an IPv6 address.
fn v6_group_vec(a: u128) -> (r: Vec<u64>)
    ensures
        r@.len() == 8,
        forall|i: int| 0 <= i < 8 ==> r@[i] as nat == #[trigger] v6_groups(a)[i],
        forall|i: int| 0 <= i < 8 ==> r@[i] < 0x1_0000,
{
    let r = vec![
        (a / 0x1_0000_0000_0000_0000_0000_0000_0000 % 0x1_0000) as u64,
        (a / 0x1_0000_0000_0000_0000_0000_0000 % 0x1_0000) as u64,
        (a / 0x1_0000_0000_0000_0000_0000 % 0x1_0000) as u64,
        (a / 0x1_0000_0000_0000_0000 % 0x1_0000) as u64,
        (a / 0x1_0000_0000_0000 % 0x1_0000) as u64,
        (a / 0x1_0000_0000 % 0x1_0000) as u64,
        (a / 0x1_0000 % 0x1_0000) as u64,
        (a % 0x1_0000) as u64,
    ];
    r
}

/// The groups as naturals.
pub open spec fn nat_groups(v: Seq<u64>) -> Seq<nat> {
    Seq::new(v.len(), |i: int| v[i] as nat)
}

/// The length of the run of zero groups starting at `s`.
fn zero_run_at(g: &Vec<u64>, s: usize) -> (r: usize)
    requires
        s <= g@.len() <= 8,
    ensures
        r == zero_run(nat_groups(g@), s as int),
        s + r <= g@.len(),
{
    let ghost ng = nat_groups(g@);
    let mut k: usize = s;
    while k < g.len() && g[k] == 0
        invariant
            s <= k <= g@.len() <= 8,
            ng == nat_groups(g@),
            zero_run(ng, s as int) == (k - s) + zero_run(ng, k as int),
        decreases g@.len() - k,
    {
        k = k + 1;
    }
    k - s
}

/// Appends the groups `g[from..to]` in hex, separated by `:`.
fn push_groups(out: &mut String, g: &Vec<u64>, from: usize, to: usize)
    requires
        from <= to <= g@.len(),
        forall|i: int| 0 <= i < g@.len() ==> g@[i] < 0x1_0000,
    ensures
        final(out)@ == old(out)@ + join_groups(nat_groups(g@).subrange(from as int, to as int)),
{
    let ghost ng = nat_groups(g@);
    let mut i: usize = from;
    while i < to
        invariant
            from <= i <= to <= g@.len(),
            ng == nat_groups(g@),
            out@ == old(out)@ + join_groups(ng.subrange(from as int, i as int)),
        decreases to - i,
    {
        let ghost before = out@;
        if i > from {
            push_char(out, ':');
        }
        push_hex(out, g[i]);
        proof {
            let prev = ng.subrange(from as int, i as int);
            let next = ng.subrange(from as int, i + 1);
            assert(next.drop_last() =~= prev);
            assert(next.last() == g@[i as int] as nat);
            if i == from {
                assert(prev =~= Seq::<nat>::empty());
                assert(next.len() == 1);
                assert(out@ =~= old(out)@ + join_groups(next));
            } else {
                assert(out@ =~= old(out)@ + join_groups(next));
            }
        }
        i = i + 1;
    }
}

/// Appends the text form of an IPv6 address.
pub fn push_ipv6(out: &mut String, a: u128)
    ensures
        final(out)@ == old(out)@ + ipv6_text(a),
{
    let g = v6_group_vec(a);
    let ghost ng = nat_groups(g@);
    assert(ng =~= v6_groups(a));
    if a / 0x1_0000_0000 == 0xffff {
        push_char(out, ':');
        push_char(out, ':');
        push_char(out, 'f');
        push_char(out, 'f');
        push_char(out, 'f');
        push_char(out, 'f');
        push_char(out, ':');
        let ghost mid = out@;
        push_ipv4(out, (a % 0x1_0000_0000) as u32);
        assert(out@ =~= old(out)@ + ipv6_text(a));
        return;
    }
    let mut best_start: usize = 0;
    let mut best_len: usize = 0;
    let mut s: usize = 0;
    while s < 8
        invariant
            s <= 8,
            g@.len() == 8,
            ng == nat_groups(g@),
            longest_zero_run(ng, s as int) == (best_start as int, best_len as nat),
            best_start + best_len <= 8,
        decreases 8 - s,
    {
        let r = zero_run_at(&g, s);
        if r > best_len {
            best_start = s;
            best_len = r;
        }
        s = s + 1;
    }
    if best_len > 1 {
        push_groups(out, &g, 0, best_start);
        push_char(out, ':');
        push_char(out, ':');
        let ghost mid = out@;
        push_groups(out, &g, best_start + best_len, 8);
        proof {
            assert(ng.subrange(0, best_start as int) =~= ng.take(best_start as int));
            assert(ng.subrange((best_start + best_len) as int, 8) =~= ng.skip((best_start + best_len) as int));
        }
        assert(out@ =~= old(out)@ + ipv6_text(a));
    } else {
        push_groups(out, &g, 0, 8);
        assert(ng.subrange(0, 8) =~= ng);
    }
}

/// Appends the text form of a socket address.
pub fn push_socket_addr(out: &mut String, s: &SocketAddress)
    ensures
        final(out)@ == old(out)@ + socket_text(*s),
{
    match s.ip {
        IpAddress::V4(a) => {
            push_ipv4(out, a);
            push_char(out, ':');
            push_decimal(out, s.port as u64);
        },
        IpAddress::V6(a) => {
            push_char(out, '[');
            push_ipv6(out, a);
            push_char(out, ']');
            push_char(out, ':');
            push_decimal(out, s.port as u64);
        },
    }
    assert(out@ =~= old(out)@ + socket_text(*s));
}

impl SocketAddress {
    /// The text form (see `socket_text`): `a.b.c.d:port` or `[v6]:port`.
    pub fn to_text(&self) -> (r: String)
        ensures
            r@ == socket_text(*self),
    {
        let mut out = String::new();
        push_socket_addr(&mut out, self);
        assert(out@ =~= socket_text(*self));
        out
    }
}

} // verus!
