//! Reading a typed socket address: `a.b.c.d:port`, or `[v6]:port` with an
//! optional `%scope` inside the brackets, in the forms the platform's socket
//! address syntax accepts (IPv6 groups of one to four hex digits, one `::`
//! for a run of zero groups, an IPv4 address in place of the last two groups).
use vstd::prelude::*;
use crate::addr::{IpAddress, SocketAddress};

verus! {

// ---------------------------------------------------------------------------
// Digits and numbers
// ---------------------------------------------------------------------------

/// A decimal digit.
pub open spec fn is_dec(c: char) -> bool {
    '0' <= c && c <= '9'
}

/// The value of a decimal digit.
pub open spec fn dec_digit(c: char) -> nat {
    ((c as u32) - ('0' as u32)) as nat
}

/// A hexadecimal digit, in either case.
pub open spec fn is_hex(c: char) -> bool {
    is_dec(c) || ('a' <= c && c <= 'f') || ('A' <= c && c <= 'F')
}

/// The value of a hexadecimal digit.
pub open spec fn hex_digit(c: char) -> nat {
    if is_dec(c) {
        dec_digit(c)
    } else if 'a' <= c && c <= 'f' {
        ((c as u32) - ('a' as u32) + 10) as nat
    } else {
        ((c as u32) - ('A' as u32) + 10) as nat
    }
}

/// Every char of `s` is a decimal digit.
pub open spec fn all_dec(s: Seq<char>) -> bool {
    forall|i: int| 0 <= i < s.len() ==> is_dec(#[trigger] s[i])
}

/// Every char of `s` is a hexadecimal digit.
pub open spec fn all_hex(s: Seq<char>) -> bool {
    forall|i: int| 0 <= i < s.len() ==> is_hex(#[trigger] s[i])
}

/// The value of a run of decimal digits.
pub open spec fn dec_value(s: Seq<char>) -> nat
    decreases s.len(),
{
    if s.len() == 0 {
        0
    } else {
        dec_value(s.drop_last()) * 10 + dec_digit(s.last())
    }
}

/// The value of a run of hexadecimal digits.
pub open spec fn hex_value(s: Seq<char>) -> nat
    decreases s.len(),
{
    if s.len() == 0 {
        0
    } else {
        hex_value(s.drop_last()) * 16 + hex_digit(s.last())
    }
}

/// A decimal number of at most `limit`: one or more digits (leading zeros
/// allowed).
pub open spec fn dec_number(s: Seq<char>, limit: nat) -> Option<nat> {
    if s.len() > 0 && all_dec(s) && dec_value(s) <= limit {
        Some(dec_value(s))
    } else {
        None
    }
}

/// An IPv4 octet: one to three digits, no leading zero, at most 255.
pub open spec fn octet(s: Seq<char>) -> Option<nat> {
    if s.len() <= 3 && !(s.len() > 1 && s[0] == '0') {
        dec_number(s, 255)
    } else {
        None
    }
}

/// An IPv6 group: one to four hexadecimal digits.
pub open spec fn hex_group(s: Seq<char>) -> Option<nat> {
    if 0 < s.len() <= 4 && all_hex(s) {
        Some(hex_value(s))
    } else {
        None
    }
}

// ---------------------------------------------------------------------------
// Fields
// ---------------------------------------------------------------------------

/// `s` cut at every `sep`: the pieces between separators, in order (one more
/// piece than there are separators).
pub open spec fn split_at(s: Seq<char>, sep: char) -> Seq<Seq<char>>
    decreases s.len(),
{
    if s.len() == 0 {
        seq![Seq::empty()]
    } else {
        let p = split_at(s.drop_last(), sep);
        if s.last() == sep {
            p.push(Seq::empty())
        } else {
            p.update(p.len() - 1, p.last().push(s.last()))
        }
    }
}

/// The value of an IPv4 address `a.b.c.d`.
pub open spec fn ipv4_value(s: Seq<char>) -> Option<u32> {
    let f = split_at(s, '.');
    if f.len() == 4 && octet(f[0]) is Some && octet(f[1]) is Some && octet(f[2]) is Some && octet(f[3]) is Some {
        Some(
            ((((octet(f[0])->Some_0 * 256 + octet(f[1])->Some_0) * 256 + octet(f[2])->Some_0) * 256 + octet(
                f[3],
            )->Some_0)) as u32,
        )
    } else {
        None
    }
}

/// The 16-bit groups that `:`-separated fields stand for: each field an IPv6
/// group, except that the last one may be an IPv4 address (two groups) when
/// `v4_last`; `None` if a field is neither.
pub open spec fn field_groups(f: Seq<Seq<char>>, v4_last: bool) -> Option<Seq<nat>>
    decreases f.len(),
{
    if f.len() == 0 {
        Some(Seq::empty())
    } else {
        let last: Option<Seq<nat>> = if v4_last && ipv4_value(f.last()) is Some {
            let v = ipv4_value(f.last())->Some_0;
            Some(seq![(v / 0x1_0000) as nat, (v % 0x1_0000) as nat])
        } else {
            match hex_group(f.last()) {
                Some(g) => Some(seq![g]),
                None => None,
            }
        };
        match (field_groups(f.drop_last(), false), last) {
            (Some(a), Some(b)) => Some(a + b),
            _ => None,
        }
    }
}

/// Index of the first `::` in `s`; `s.len()` when there is none.
pub open spec fn first_double_colon(s: Seq<char>) -> int
    decreases s.len(),
{
    if s.len() < 2 {
        s.len() as int
    } else if s[0] == ':' && s[1] == ':' {
        0
    } else {
        1 + first_double_colon(s.drop_first())
    }
}

/// The groups of the `:`-separated fields of `s` (none for an empty `s`).
pub open spec fn text_groups(s: Seq<char>, v4_last: bool) -> Option<Seq<nat>> {
    if s.len() == 0 {
        Some(Seq::empty())
    } else {
        field_groups(split_at(s, ':'), v4_last)
    }
}

/// The eight groups of an IPv6 address text: eight fields (the last two may
/// be an IPv4 address), or fields before and after one `::` that stands for
/// at least one zero group.
pub open spec fn ipv6_groups(s: Seq<char>) -> Option<Seq<nat>> {
    let k = first_double_colon(s);
    if k < s.len() {
        match (text_groups(s.take(k), false), text_groups(s.skip(k + 2), true)) {
            (Some(a), Some(b)) => if a.len() + b.len() <= 7 {
                Some(a + Seq::new((8 - a.len() - b.len()) as nat, |i: int| 0nat) + b)
            } else {
                None
            },
            _ => None,
        }
    } else {
        match field_groups(split_at(s, ':'), true) {
            Some(g) => if g.len() == 8 {
                Some(g)
            } else {
                None
            },
            None => None,
        }
    }
}

/// The 128-bit value of groups, first group most significant.
pub open spec fn groups_value(g: Seq<nat>) -> nat
    decreases g.len(),
{
    if g.len() == 0 {
        0
    } else {
        groups_value(g.drop_last()) * 0x1_0000 + g.last()
    }
}

/// Index of the first `c` in `s`; `s.len()` when there is none.
pub open spec fn first_index(s: Seq<char>, c: char) -> int
    decreases s.len(),
{
    if s.len() == 0 {
        0
    } else if s[0] == c {
        0
    } else {
        1 + first_index(s.drop_first(), c)
    }
}

/// What a typed address reads as: the socket address and the IPv6 scope id
/// (0 for IPv4 and when none is given). `a.b.c.d:port`, or `[v6]:port` with
/// `v6` optionally followed by `%scope`; ports up to 65535, scope ids up to
/// `u32::MAX`.
pub open spec fn socket_addr_parse(s: Seq<char>) -> Option<(SocketAddress, u32)> {
    let f = split_at(s, ':');
    if f.len() == 2 && ipv4_value(f[0]) is Some && dec_number(f[1], 65535) is Some {
        Some(
            (
                SocketAddress { ip: IpAddress::V4(ipv4_value(f[0])->Some_0), port: dec_number(f[1], 65535)->Some_0 as u16 },
                0u32,
            ),
        )
    } else if s.len() > 0 && s[0] == '[' && first_index(s, ']') < s.len() {
        let j = first_index(s, ']');
        let parts = split_at(s.subrange(1, j), '%');
        let rest = s.skip(j + 1);
        let port = if rest.len() > 0 && rest[0] == ':' {
            dec_number(rest.skip(1), 65535)
        } else {
            None
        };
        let scope = if parts.len() == 1 {
            Some(0nat)
        } else if parts.len() == 2 {
            dec_number(parts[1], 0xffff_ffff)
        } else {
            None
        };
        match (ipv6_groups(parts[0]), scope, port) {
            (Some(g), Some(sc), Some(p)) => Some(
                (SocketAddress { ip: IpAddress::V6(groups_value(g) as u128), port: p as u16 }, sc as u32),
            ),
            _ => None,
        }
    } else {
        None
    }
}

// ---------------------------------------------------------------------------
// Lemmas
// ---------------------------------------------------------------------------

/// Cutting always gives at least one piece.
proof fn lemma_split_nonempty(s: Seq<char>, sep: char)
    ensures
        split_at(s, sep).len() >= 1,
    decreases s.len(),
{
    if s.len() > 0 {
        lemma_split_nonempty(s.drop_last(), sep);
    }
}

/// A prefix of digits is worth no more than the whole run.
proof fn lemma_dec_prefix(s: Seq<char>, k: int)
    requires
        0 <= k <= s.len(),
    ensures
        dec_value(s.take(k)) <= dec_value(s),
    decreases s.len(),
{
    if k < s.len() {
        lemma_dec_prefix(s.drop_last(), k);
        assert(s.drop_last().take(k) =~= s.take(k));
    } else {
        assert(s.take(k) =~= s);
    }
}

// ---------------------------------------------------------------------------
// Readers
// ---------------------------------------------------------------------------

/// The views of a list of char vectors.
pub open spec fn char_views(v: Seq<Vec<char>>) -> Seq<Seq<char>> {
    v.map_values(|x: Vec<char>| x@)
}

/// Cuts `v` at every `sep` (see `split_at`).
fn split_chars(v: &[char], sep: char) -> (r: Vec<Vec<char>>)
    ensures
        char_views(r@) == split_at(v@, sep),
{
    let n = v.len();
    let mut done: Vec<Vec<char>> = Vec::new();
    let mut cur: Vec<char> = Vec::new();
    let mut i: usize = 0;
    proof {
        assert(v@.take(0) =~= Seq::<char>::empty());
        assert(char_views(done@) + seq![cur@] =~= split_at(v@.take(0), sep));
    }
    while i < n
        invariant
            n == v@.len(),
            i <= n,
            char_views(done@) + seq![cur@] == split_at(v@.take(i as int), sep),
        decreases n - i,
    {
        let c = v[i];
        let ghost before = split_at(v@.take(i as int), sep);
        proof {
            assert(v@.take(i + 1).drop_last() =~= v@.take(i as int));
            assert(v@.take(i + 1).last() == c);
            lemma_split_nonempty(v@.take(i as int), sep);
        }
        if c == sep {
            let finished = cur;
            done.push(finished);
            cur = Vec::new();
            proof {
                assert(char_views(done@) + seq![cur@] =~= before.push(Seq::empty()));
            }
        } else {
            cur.push(c);
            proof {
                assert(char_views(done@) + seq![cur@] =~= before.update(before.len() - 1, before.last().push(c)));
            }
        }
        i = i + 1;
    }
    proof {
        assert(v@.take(n as int) =~= v@);
    }
    done.push(cur);
    proof {
        assert(char_views(done@) =~= split_at(v@, sep));
    }
    done
}

/// Reads a decimal number of at most `limit` (see `dec_number`).
fn read_dec(v: &[char], limit: u32) -> (r: Option<u32>)
    ensures
        match r {
            Some(x) => dec_number(v@, limit as nat) == Some(x as nat),
            None => dec_number(v@, limit as nat) is None,
        },
{
    let n = v.len();
    if n == 0 {
        return None;
    }
    let mut val: u64 = 0;
    let mut i: usize = 0;
    proof {
        assert(v@.take(0) =~= Seq::<char>::empty());
    }
    while i < n
        invariant
            n == v@.len(),
            i <= n,
            all_dec(v@.take(i as int)),
            val == dec_value(v@.take(i as int)),
            val <= limit,
        decreases n - i,
    {
        let c = v[i];
        proof {
            assert(v@.take(i + 1).drop_last() =~= v@.take(i as int));
            assert(v@.take(i + 1).last() == c);
        }
        if !('0' <= c && c <= '9') {
            assert(!is_dec(v@[i as int]));
            return None;
        }
        let d = (c as u32 - '0' as u32) as u64;
        let next = val * 10 + d;
        proof {
            assert(all_dec(v@.take(i + 1))) by {
                assert forall|j: int| 0 <= j < i + 1 implies is_dec(#[trigger] v@.take(i + 1)[j]) by {
                    if j < i {
                        assert(v@.take(i + 1)[j] == v@.take(i as int)[j]);
                    }
                }
            }
        }
        if next > limit as u64 {
            proof {
                lemma_dec_prefix(v@, i + 1);
            }
            return None;
        }
        val = next;
        i = i + 1;
    }
    proof {
        assert(v@.take(n as int) =~= v@);
    }
    Some(val as u32)
}

/// Reads an IPv6 group (see `hex_group`).
fn read_hex_group(v: &[char]) -> (r: Option<u32>)
    ensures
        match r {
            Some(x) => hex_group(v@) == Some(x as nat) && x < 0x1_0000,
            None => hex_group(v@) is None,
        },
{
    let n = v.len();
    if n == 0 || n > 4 {
        return None;
    }
    let mut val: u32 = 0;
    let mut i: usize = 0;
    proof {
        assert(v@.take(0) =~= Seq::<char>::empty());
    }
    while i < n
        invariant
            n == v@.len(),
            n <= 4,
            i <= n,
            all_hex(v@.take(i as int)),
            val == hex_value(v@.take(i as int)),
            i == 0 ==> val < 1,
            i == 1 ==> val < 16,
            i == 2 ==> val < 256,
            i == 3 ==> val < 4096,
            i == 4 ==> val < 0x1_0000,
        decreases n - i,
    {
        let c = v[i];
        proof {
            assert(v@.take(i + 1).drop_last() =~= v@.take(i as int));
            assert(v@.take(i + 1).last() == c);
        }
        let d: u32 = if '0' <= c && c <= '9' {
            c as u32 - '0' as u32
        } else if 'a' <= c && c <= 'f' {
            c as u32 - 'a' as u32 + 10
        } else if 'A' <= c && c <= 'F' {
            c as u32 - 'A' as u32 + 10
        } else {
            assert(!is_hex(v@[i as int]));
            return None;
        };
        val = val * 16 + d;
        proof {
            assert(all_hex(v@.take(i + 1))) by {
                assert forall|j: int| 0 <= j < i + 1 implies is_hex(#[trigger] v@.take(i + 1)[j]) by {
                    if j < i {
                        assert(v@.take(i + 1)[j] == v@.take(i as int)[j]);
                    }
                }
            }
        }
        i = i + 1;
    }
    proof {
        assert(v@.take(n as int) =~= v@);
    }
    Some(val)
}

/// Reads an IPv4 octet (see `octet`).
fn read_octet(v: &[char]) -> (r: Option<u32>)
    ensures
        match r {
            Some(x) => octet(v@) == Some(x as nat) && x <= 255,
            None => octet(v@) is None,
        },
{
    if v.len() > 3 || (v.len() > 1 && v[0] == '0') {
        return None;
    }
    read_dec(v, 255)
}

/// Reads an IPv4 address (see `ipv4_value`).
fn read_ipv4(v: &[char]) -> (r: Option<u32>)
    ensures
        r == ipv4_value(v@),
{
    let f = split_chars(v, '.');
    proof {
        assert(char_views(f@).len() == f@.len());
    }
    if f.len() != 4 {
        return None;
    }
    proof {
        assert(f@[0]@ == split_at(v@, '.')[0]);
        assert(f@[1]@ == split_at(v@, '.')[1]);
        assert(f@[2]@ == split_at(v@, '.')[2]);
        assert(f@[3]@ == split_at(v@, '.')[3]);
    }
    let a = match read_octet(f[0].as_slice()) {
        Some(x) => x,
        None => return None,
    };
    let b = match read_octet(f[1].as_slice()) {
        Some(x) => x,
        None => return None,
    };
    let c = match read_octet(f[2].as_slice()) {
        Some(x) => x,
        None => return None,
    };
    let d = match read_octet(f[3].as_slice()) {
        Some(x) => x,
        None => return None,
    };
    assert(((a * 256 + b) * 256 + c) * 256 + d <= 0xffff_ffff) by (nonlinear_arith)
        requires
            a <= 255,
            b <= 255,
            c <= 255,
            d <= 255,
    ;
    Some(((a * 256 + b) * 256 + c) * 256 + d)
}

/// Groups as numbers.
pub open spec fn group_nats(g: Seq<u32>) -> Seq<nat> {
    g.map_values(|x: u32| x as nat)
}

/// Every group fits in 16 bits.
pub open spec fn groups_fit(g: Seq<u32>) -> bool {
    forall|i: int| 0 <= i < g.len() ==> #[trigger] g[i] < 0x1_0000
}

/// Reads the groups of `:`-separated fields (see `field_groups`).
fn read_field_groups(f: &[Vec<char>], v4_last: bool) -> (r: Option<Vec<u32>>)
    ensures
        match r {
            Some(g) => field_groups(char_views(f@), v4_last) == Some(group_nats(g@)) && groups_fit(g@),
            None => field_groups(char_views(f@), v4_last) is None,
        },
{
    let n = f.len();
    let ghost fv = char_views(f@);
    let mut out: Vec<u32> = Vec::new();
    if n == 0 {
        proof {
            assert(group_nats(out@) =~= Seq::<nat>::empty());
        }
        return Some(out);
    }
    let mut j: usize = 0;
    proof {
        assert(fv.take(0) =~= Seq::<Seq<char>>::empty());
        assert(group_nats(out@) =~= Seq::<nat>::empty());
    }
    while j + 1 < n
        invariant
            n == f@.len(),
            n >= 1,
            j + 1 <= n,
            fv == char_views(f@),
            field_groups(fv.take(j as int), false) == Some(group_nats(out@)),
            groups_fit(out@),
        decreases n - j,
    {
        proof {
            assert(fv.take(j + 1).drop_last() =~= fv.take(j as int));
            assert(fv.take(j + 1).last() == f@[j as int]@);
        }
        match read_hex_group(f[j].as_slice()) {
            Some(x) => {
                let ghost o = out@;
                out.push(x);
                proof {
                    assert(group_nats(out@) =~= group_nats(o) + seq![x as nat]);
                }
            },
            None => {
                proof {
                    lemma_field_groups_prefix(fv, j + 1);
                }
                return None;
            },
        }
        j = j + 1;
    }
    proof {
        assert(fv.drop_last() =~= fv.take(j as int));
        assert(fv.last() == f@[j as int]@);
    }
    let last = f[j].as_slice();
    if v4_last {
        match read_ipv4(last) {
            Some(v) => {
                let ghost o = out@;
                out.push(v / 0x1_0000);
                out.push(v % 0x1_0000);
                proof {
                    assert(group_nats(out@) =~= group_nats(o) + seq![(v / 0x1_0000) as nat, (v % 0x1_0000) as nat]);
                }
                return Some(out);
            },
            None => {},
        }
    }
    match read_hex_group(last) {
        Some(x) => {
            let ghost o = out@;
            out.push(x);
            proof {
                assert(group_nats(out@) =~= group_nats(o) + seq![x as nat]);
            }
            Some(out)
        },
        None => None,
    }
}

/// A field that is no group makes every longer list of fields fail.
proof fn lemma_field_groups_prefix(f: Seq<Seq<char>>, k: int)
    requires
        0 < k <= f.len(),
        field_groups(f.take(k), false) is None,
    ensures
        field_groups(f, false) is None,
        forall|b: bool| f.len() > k ==> (#[trigger] field_groups(f, b)) is None,
    decreases f.len(),
{
    if k < f.len() {
        assert(f.drop_last().take(k) =~= f.take(k));
        lemma_field_groups_prefix(f.drop_last(), k);
    } else {
        assert(f.take(k) =~= f);
    }
}

/// The chars of `v` from `lo` up to `hi`.
fn sub_chars(v: &[char], lo: usize, hi: usize) -> (r: Vec<char>)
    requires
        lo <= hi <= v@.len(),
    ensures
        r@ == v@.subrange(lo as int, hi as int),
{
    let mut out: Vec<char> = Vec::new();
    let mut i: usize = lo;
    while i < hi
        invariant
            lo <= i <= hi,
            hi <= v@.len(),
            out@ == v@.subrange(lo as int, i as int),
        decreases hi - i,
    {
        out.push(v[i]);
        i = i + 1;
        assert(out@ =~= v@.subrange(lo as int, i as int));
    }
    out
}

/// `k` is the first `::` in `s` when none comes before it and one starts
/// there (or `k` is the end).
proof fn lemma_first_double_colon(s: Seq<char>, k: int)
    requires
        0 <= k <= s.len(),
        forall|j: int| 0 <= j < k && j + 1 < s.len() ==> !(#[trigger] s[j] == ':' && s[j + 1] == ':'),
        k == s.len() || (k + 1 < s.len() && s[k] == ':' && s[k + 1] == ':'),
    ensures
        first_double_colon(s) == k,
    decreases k,
{
    if k > 0 && s.len() >= 2 {
        assert(!(s[0] == ':' && s[1] == ':'));
        let t = s.drop_first();
        assert forall|j: int| 0 <= j < k - 1 && j + 1 < t.len() implies !(#[trigger] t[j] == ':' && t[j + 1] == ':') by {
            assert(t[j] == s[j + 1] && t[j + 1] == s[j + 2]);
        }
        lemma_first_double_colon(t, k - 1);
    }
}

/// `k` is the first `c` in `s` when none comes before it and `s[k]` is `c`
/// (or `k` is the end).
proof fn lemma_first_index(s: Seq<char>, c: char, k: int)
    requires
        0 <= k <= s.len(),
        forall|j: int| 0 <= j < k ==> #[trigger] s[j] != c,
        k == s.len() || s[k] == c,
    ensures
        first_index(s, c) == k,
    decreases k,
{
    if k > 0 {
        let t = s.drop_first();
        assert forall|j: int| 0 <= j < k - 1 implies #[trigger] t[j] != c by {
            assert(t[j] == s[j + 1]);
        }
        lemma_first_index(t, c, k - 1);
    }
}

/// Reads the groups of the `:`-separated fields of `v` (see `text_groups`).
fn read_text_groups(v: &[char], v4_last: bool) -> (r: Option<Vec<u32>>)
    ensures
        match r {
            Some(g) => text_groups(v@, v4_last) == Some(group_nats(g@)) && groups_fit(g@),
            None => text_groups(v@, v4_last) is None,
        },
{
    if v.len() == 0 {
        let out: Vec<u32> = Vec::new();
        assert(group_nats(out@) =~= Seq::<nat>::empty());
        return Some(out);
    }
    let f = split_chars(v, ':');
    read_field_groups(f.as_slice(), v4_last)
}

/// Reads the eight groups of an IPv6 address (see `ipv6_groups`).
fn read_ipv6(v: &[char]) -> (r: Option<Vec<u32>>)
    ensures
        match r {
            Some(g) => ipv6_groups(v@) == Some(group_nats(g@)) && groups_fit(g@) && g@.len() == 8,
            None => ipv6_groups(v@) is None,
        },
{
    let n = v.len();
    let mut k: usize = 0;
    let mut found = false;
    while n >= 2 && k < n - 1
        invariant_except_break
            n == v@.len(),
            k <= n,
            !found,
            forall|j: int| 0 <= j < k && j + 1 < n ==> !(#[trigger] v@[j] == ':' && v@[j + 1] == ':'),
        ensures
            n == v@.len(),
            k <= n,
            forall|j: int| 0 <= j < k && j + 1 < n ==> !(#[trigger] v@[j] == ':' && v@[j + 1] == ':'),
            found ==> k + 1 < n && v@[k as int] == ':' && v@[k + 1] == ':',
            !found ==> k + 1 >= n,
        decreases n - k,
    {
        if v[k] == ':' && v[k + 1] == ':' {
            found = true;
            break;
        }
        k = k + 1;
    }
    if found {
        proof {
            lemma_first_double_colon(v@, k as int);
        }
        let head = sub_chars(v, 0, k);
        let tail = sub_chars(v, k + 2, n);
        proof {
            assert(head@ =~= v@.take(k as int));
            assert(tail@ =~= v@.skip(k + 2));
        }
        let a = match read_text_groups(head.as_slice(), false) {
            Some(g) => g,
            None => return None,
        };
        let b = match read_text_groups(tail.as_slice(), true) {
            Some(g) => g,
            None => return None,
        };
        proof {
            assert(group_nats(a@).len() == a@.len());
            assert(group_nats(b@).len() == b@.len());
        }
        if a.len() > 7 || b.len() > 7 - a.len() {
            return None;
        }
        let zeros = 8 - a.len() - b.len();
        let mut out: Vec<u32> = a;
        let mut z: usize = 0;
        let ghost an = group_nats(out@);
        while z < zeros
            invariant
                z <= zeros,
                an == group_nats(a@),
                group_nats(out@) == an + Seq::new(z as nat, |i: int| 0nat),
                groups_fit(out@),
                out@.len() == a@.len() + z,
            decreases zeros - z,
        {
            let ghost o = out@;
            out.push(0);
            proof {
                assert(out@ == o.push(0u32));
                assert forall|i: int| 0 <= i < out@.len() implies #[trigger] group_nats(out@)[i] == (an + Seq::new(
                    (z + 1) as nat,
                    |i: int| 0nat,
                ))[i] by {
                    if i < o.len() {
                        assert(out@[i] == o[i]);
                        assert(group_nats(o)[i] == (an + Seq::new(z as nat, |i: int| 0nat))[i]);
                    }
                }
                assert(group_nats(out@) =~= an + Seq::new((z + 1) as nat, |i: int| 0nat));
            }
            z = z + 1;
        }
        let mut t: usize = 0;
        let ghost mid = group_nats(out@);
        let bl = b.len();
        while t < bl
            invariant
                t <= bl,
                bl == b@.len(),
                groups_fit(b@),
                groups_fit(out@),
                group_nats(out@) == mid + group_nats(b@).take(t as int),
                out@.len() == mid.len() + t,
            decreases bl - t,
        {
            let ghost o = out@;
            out.push(b[t]);
            proof {
                assert(out@ == o.push(b@[t as int]));
                assert forall|i: int| 0 <= i < out@.len() implies #[trigger] group_nats(out@)[i] == (mid + group_nats(
                    b@,
                ).take(t + 1))[i] by {
                    if i < o.len() {
                        assert(out@[i] == o[i]);
                        assert(group_nats(o)[i] == (mid + group_nats(b@).take(t as int))[i]);
                    }
                }
                assert(group_nats(out@) =~= mid + group_nats(b@).take(t + 1));
            }
            t = t + 1;
        }
        proof {
            assert(group_nats(b@).take(bl as int) =~= group_nats(b@));
        }
        Some(out)
    } else {
        proof {
            lemma_first_double_colon(v@, n as int);
        }
        let f = split_chars(v, ':');
        match read_field_groups(f.as_slice(), true) {
            Some(g) => {
                proof {
                    assert(group_nats(g@).len() == g@.len());
                }
                if g.len() == 8 {
                    Some(g)
                } else {
                    None
                }
            },
            None => None,
        }
    }
}

/// `65536^i`.
pub open spec fn group_bound(i: nat) -> nat
    decreases i,
{
    if i == 0 {
        1
    } else {
        group_bound((i - 1) as nat) * 0x1_0000
    }
}

/// `group_bound` grows.
proof fn lemma_group_bound_mono(i: nat, j: nat)
    requires
        i <= j,
    ensures
        group_bound(i) <= group_bound(j),
    decreases j,
{
    if i < j {
        lemma_group_bound_mono(i, (j - 1) as nat);
    }
}

/// The 128-bit value of eight groups.
fn groups_to_u128(g: &Vec<u32>) -> (r: u128)
    requires
        g@.len() == 8,
        groups_fit(g@),
    ensures
        r as nat == groups_value(group_nats(g@)),
{
    let mut acc: u128 = 0;
    let mut i: usize = 0;
    proof {
        assert(group_nats(g@).take(0) =~= Seq::<nat>::empty());
        assert(group_bound(8) == 0x1_0000_0000_0000_0000_0000_0000_0000_0000) by {
            reveal_with_fuel(group_bound, 9);
        }
    }
    while i < 8
        invariant
            i <= 8,
            g@.len() == 8,
            groups_fit(g@),
            acc as nat == groups_value(group_nats(g@).take(i as int)),
            acc < group_bound(i as nat),
            group_bound(8) == 0x1_0000_0000_0000_0000_0000_0000_0000_0000,
        decreases 8 - i,
    {
        let x = g[i];
        proof {
            assert(group_nats(g@).take(i + 1).drop_last() =~= group_nats(g@).take(i as int));
            assert(group_nats(g@).take(i + 1).last() == x as nat);
            lemma_group_bound_mono((i + 1) as nat, 8);
            let b = group_bound(i as nat);
            assert(acc * 0x1_0000 + x < b * 0x1_0000) by (nonlinear_arith)
                requires
                    acc < b,
                    x < 0x1_0000,
            ;
        }
        acc = acc * 0x1_0000 + x as u128;
        i = i + 1;
    }
    proof {
        assert(group_nats(g@).take(8) =~= group_nats(g@));
    }
    acc
}

/// Reads a typed socket address (see `socket_addr_parse`): the address and
/// the IPv6 scope id (0 when there is none).
pub fn parse_socket_addr(s: &str) -> (r: Option<(SocketAddress, u32)>)
    ensures
        r == socket_addr_parse(s@),
{
    let v = crate::text::str_chars(s);
    let n = v.len();
    let f = split_chars(v.as_slice(), ':');
    proof {
        assert(char_views(f@).len() == f@.len());
    }
    if f.len() == 2 {
        proof {
            assert(f@[0]@ == split_at(v@, ':')[0]);
            assert(f@[1]@ == split_at(v@, ':')[1]);
        }
        match read_ipv4(f[0].as_slice()) {
            Some(ip) => match read_dec(f[1].as_slice(), 65535) {
                Some(port) => {
                    return Some((SocketAddress::new(IpAddress::V4(ip), port as u16), 0));
                },
                None => {},
            },
            None => {},
        }
    }
    if n == 0 || v[0] != '[' {
        return None;
    }
    let mut j: usize = 0;
    while j < n && v[j] != ']'
        invariant
            n == v@.len(),
            j <= n,
            forall|i: int| 0 <= i < j ==> #[trigger] v@[i] != ']',
        decreases n - j,
    {
        j = j + 1;
    }
    proof {
        lemma_first_index(v@, ']', j as int);
    }
    if j == n {
        return None;
    }
    let inner = sub_chars(v.as_slice(), 1, j);
    let rest = sub_chars(v.as_slice(), j + 1, n);
    proof {
        assert(rest@ =~= v@.skip(j + 1));
    }
    let parts = split_chars(inner.as_slice(), '%');
    proof {
        assert(char_views(parts@).len() == parts@.len());
        lemma_split_nonempty(inner@, '%');
        assert(parts@[0]@ == split_at(inner@, '%')[0]);
    }
    let port = if rest.len() > 0 && rest[0] == ':' {
        let p = sub_chars(rest.as_slice(), 1, rest.len());
        proof {
            assert(p@ =~= rest@.skip(1));
        }
        read_dec(p.as_slice(), 65535)
    } else {
        None
    };
    let scope: Option<u32> = if parts.len() == 1 {
        Some(0)
    } else if parts.len() == 2 {
        proof {
            assert(parts@[1]@ == split_at(inner@, '%')[1]);
        }
        read_dec(parts[1].as_slice(), 0xffff_ffff)
    } else {
        None
    };
    let groups = read_ipv6(parts[0].as_slice());
    match (groups, scope, port) {
        (Some(g), Some(sc), Some(p)) => {
            let value = groups_to_u128(&g);
            Some((SocketAddress::new(IpAddress::V6(value), p as u16), sc))
        },
        _ => None,
    }
}

} // verus!
