//! IP addresses as plain integers, their canonical text forms, and their
//! total order.
//!
//! A v4 address is its 32-bit big-endian value; a v6 address its 128-bit
//! value. The v6 text form follows the canonical convention: lower-case
//! hexadecimal groups without leading zeros, the left-most longest run of two
//! or more zero groups compressed to `::`, and v4-mapped addresses rendered
//! with a trailing dotted quad.

use vstd::prelude::*;

use crate::text::{dec_u64, dec_str_of, hex_str_of, hex_u16, push_char};

verus! {

/// One IP address, v4 or v6.
#[derive(Clone, Copy, PartialEq, Eq, Structural, Debug, Hash)]
pub enum IpAddress {
    V4(u32),
    V6(u128),
}

impl IpAddress {
    /// Builds a v4 address from its four dotted-quad octets.
    pub fn v4(a: u8, b: u8, c: u8, d: u8) -> (r: IpAddress)
        ensures
            r == IpAddress::V4(
                ((a as u32) << 24u32) | ((b as u32) << 16u32) | ((c as u32) << 8u32) | (d as u32),
            ),
    {
        IpAddress::V4(
            ((a as u32) << 24u32) | ((b as u32) << 16u32) | ((c as u32) << 8u32) | (d as u32),
        )
    }

    /// Builds a v6 address from its eight 16-bit groups.
    pub fn v6(g: [u16; 8]) -> (r: IpAddress)
        ensures
            r == IpAddress::V6(v6_of_groups(g@)),
    {
        let mut v: u128 = 0;
        let mut i: usize = 0;
        proof {
            assert(g@.take(0) =~= Seq::<u16>::empty());
        }
        while i < 8
            invariant
                i <= 8,
                v == v6_of_groups(g@.take(i as int)),
            decreases 8 - i,
        {
            v = (v << 16u32) | (g[i] as u128);
            proof {
                assert(g@.take(i as int + 1).drop_last() =~= g@.take(i as int));
                assert(g@.take(i as int + 1).last() == g@[i as int]);
            }
            i = i + 1;
        }
        proof {
            assert(g@.take(8) =~= g@);
        }
        IpAddress::V6(v)
    }
}

/// The 128-bit value whose 16-bit big-endian groups are `groups`.
pub open spec fn v6_of_groups(groups: Seq<u16>) -> u128
    decreases groups.len(),
{
    if groups.len() == 0 {
        0
    } else {
        (v6_of_groups(groups.drop_last()) << 16u32) | (groups.last() as u128)
    }
}

/// Octet `i` (0 is the most significant) of a v4 address.
pub open spec fn v4_octet(v: u32, i: int) -> u8 {
    ((v >> (((3 - i) * 8) as u32)) & 0xff) as u8
}

/// Group `i` (0 is the most significant) of a v6 address.
pub open spec fn v6_seg(v: u128, i: int) -> u16 {
    ((v >> (((7 - i) * 16) as u128)) & 0xffff) as u16
}

/// The dotted-quad text of a v4 address.
pub open spec fn v4_str_of(v: u32) -> Seq<char> {
    dec_str_of(v4_octet(v, 0) as nat) + seq!['.'] + dec_str_of(v4_octet(v, 1) as nat) + seq!['.']
        + dec_str_of(v4_octet(v, 2) as nat) + seq!['.'] + dec_str_of(v4_octet(v, 3) as nat)
}

/// Renders a v4 address as a dotted quad.
pub fn v4_string(v: u32) -> (r: String)
    ensures
        r@ == v4_str_of(v),
{
    let mut s = dec_u64(((v >> 24u32) & 0xff) as u64);
    push_char(&mut s, '.');
    s.append(dec_u64(((v >> 16u32) & 0xff) as u64).as_str());
    push_char(&mut s, '.');
    s.append(dec_u64(((v >> 8u32) & 0xff) as u64).as_str());
    push_char(&mut s, '.');
    s.append(dec_u64((v & 0xff) as u64).as_str());
    proof {
        assert(((v >> 24u32) & 0xff) == v4_octet(v, 0) && ((v >> 16u32) & 0xff) == v4_octet(v, 1)
            && ((v >> 8u32) & 0xff) == v4_octet(v, 2) && ((v >> 0u32) & 0xff) == v4_octet(v, 3)
            && (v & 0xff) == (v >> 0u32) & 0xff) by (bit_vector);
        assert(s@ =~= v4_str_of(v));
    }
    s
}

/// The length of the run of zero groups starting at group `i`.
pub open spec fn zero_run_len(v: u128, i: int) -> int
    decreases 8 - i when i <= 8
{
    if i >= 8 {
        0
    } else if v6_seg(v, i) != 0 {
        0
    } else {
        1 + zero_run_len(v, i + 1)
    }
}

/// Scans groups `i..8`, carrying the best (start, length) seen so far; a
/// longer run wins, the earlier one on ties.
pub open spec fn best_zero_run_from(v: u128, i: int, best_i: int, best_l: int) -> (int, int)
    decreases 8 - i when i <= 8
{
    if i >= 8 {
        (best_i, best_l)
    } else {
        if zero_run_len(v, i) > best_l {
            best_zero_run_from(v, i + 1, i, zero_run_len(v, i))
        } else {
            best_zero_run_from(v, i + 1, best_i, best_l)
        }
    }
}

/// The left-most longest run of zero groups of a v6 address.
pub open spec fn best_zero_run(v: u128) -> (int, int) {
    best_zero_run_from(v, 0, 0, 0)
}

proof fn lemma_low16_cast(x: u128)
    ensures
        ((x & 0xffff) as u16) as u128 == x & 0xffff,
{
    assert(((x & 0xffff) as u16) as u128 == x & 0xffff) by (bit_vector);
}

proof fn lemma_zero_run_len_bound(v: u128, i: int)
    requires
        0 <= i <= 8,
    ensures
        0 <= zero_run_len(v, i) <= 8 - i,
    decreases 8 - i,
{
    if i < 8 {
        lemma_zero_run_len_bound(v, i + 1);
    }
}

proof fn lemma_best_zero_run_bounds(v: u128, i: int, best_i: int, best_l: int)
    requires
        0 <= i <= 8,
        0 <= best_i,
        0 <= best_l <= 8 - best_i,
    ensures
        ({
            let (bi, bl) = best_zero_run_from(v, i, best_i, best_l);
            0 <= bi && 0 <= bl <= 8 - bi
        }),
    decreases 8 - i,
{
    if i < 8 {
        lemma_zero_run_len_bound(v, i);
        if zero_run_len(v, i) > best_l {
            lemma_best_zero_run_bounds(v, i + 1, i, zero_run_len(v, i));
        } else {
            lemma_best_zero_run_bounds(v, i + 1, best_i, best_l);
        }
    }
}

/// Computes the length of the run of zero groups starting at `i`.
fn zero_run_len_at(v: u128, i: usize) -> (r: usize)
    requires
        i <= 8,
    ensures
        r as int == zero_run_len(v, i as int),
        i + r <= 8,
{
    let mut j: usize = i;
    while j < 8 && ((v >> (((7 - j) * 16) as u128)) & 0xffff) == 0
        invariant
            i <= j <= 8,
            zero_run_len(v, i as int) == (j - i) + zero_run_len(v, j as int),
        decreases 8 - j,
    {
        j = j + 1;
    }
    proof {
        lemma_zero_run_len_bound(v, i as int);
        if j < 8 {
            lemma_low16_cast(v >> (((7 - j as int) * 16) as u128));
            assert(v6_seg(v, j as int) != 0);
        }
    }
    j - i
}

/// Finds the left-most longest run of zero groups.
fn find_best_zero_run(v: u128) -> (r: (usize, usize))
    ensures
        (r.0 as int, r.1 as int) == best_zero_run(v),
        r.0 + r.1 <= 8,
{
    let mut best_i: usize = 0;
    let mut best_l: usize = 0;
    let mut i: usize = 0;
    while i < 8
        invariant
            i <= 8,
            best_i + best_l <= 8,
            best_zero_run_from(v, i as int, best_i as int, best_l as int) == best_zero_run(v),
        decreases 8 - i,
    {
        let l = zero_run_len_at(v, i);
        if l > best_l {
            best_i = i;
            best_l = l;
        }
        i = i + 1;
    }
    (best_i, best_l)
}

/// Groups `from..to` of a v6 address in hexadecimal, joined by `:`.
pub open spec fn v6_groups_str(v: u128, from: int, to: int) -> Seq<char>
    decreases to - from when from <= to
{
    if from >= to {
        Seq::empty()
    } else if from + 1 == to {
        hex_str_of(v6_seg(v, from) as nat)
    } else {
        hex_str_of(v6_seg(v, from) as nat) + seq![':'] + v6_groups_str(v, from + 1, to)
    }
}

/// Renders groups `from..to` of a v6 address, joined by `:`.
fn v6_groups(v: u128, from: usize, to: usize) -> (r: String)
    requires
        from <= to <= 8,
    ensures
        r@ == v6_groups_str(v, from as int, to as int),
    decreases to - from,
{
    if from >= to {
        let s = String::new();
        proof {
            assert(s@ =~= v6_groups_str(v, from as int, to as int));
        }
        s
    } else {
        let g = ((v >> (((7 - from) * 16) as u128)) & 0xffff) as u16;
        let mut s = hex_u16(g);
        if from + 1 < to {
            push_char(&mut s, ':');
            let rest = v6_groups(v, from + 1, to);
            s.append(rest.as_str());
            proof {
                assert(s@ =~= v6_groups_str(v, from as int, to as int));
            }
        }
        s
    }
}

/// Whether a v6 address is a v4-mapped address (`::ffff:a.b.c.d`).
pub open spec fn is_v4_mapped(v: u128) -> bool {
    v >> 32u32 == 0xffff
}

/// The canonical text of a v6 address.
pub open spec fn v6_str_of(v: u128) -> Seq<char> {
    if is_v4_mapped(v) {
        "::ffff:"@ + v4_str_of((v & 0xffff_ffff) as u32)
    } else {
        let (bi, bl) = best_zero_run(v);
        if bl >= 2 {
            v6_groups_str(v, 0, bi) + "::"@ + v6_groups_str(v, bi + bl, 8)
        } else {
            v6_groups_str(v, 0, 8)
        }
    }
}

/// Renders a v6 address canonically.
pub fn v6_string(v: u128) -> (r: String)
    ensures
        r@ == v6_str_of(v),
{
    if (v >> 32u32) == 0xffff {
        let mut s = String::from_str("::ffff:");
        let low = (v & 0xffff_ffff) as u32;
        s.append(v4_string(low).as_str());
        proof {
            assert(s@ =~= v6_str_of(v));
        }
        s
    } else {
        let (bi, bl) = find_best_zero_run(v);
        proof {
            lemma_best_zero_run_bounds(v, 0, 0, 0);
        }
        if bl >= 2 {
            let mut s = v6_groups(v, 0, bi);
            s.append("::");
            s.append(v6_groups(v, bi + bl, 8).as_str());
            proof {
                assert(s@ =~= v6_str_of(v));
            }
            s
        } else {
            v6_groups(v, 0, 8)
        }
    }
}

/// The canonical text of an address.
pub open spec fn ip_str_of(ip: IpAddress) -> Seq<char> {
    match ip {
        IpAddress::V4(v) => v4_str_of(v),
        IpAddress::V6(v) => v6_str_of(v),
    }
}

/// Renders an address canonically.
pub fn ip_string(ip: &IpAddress) -> (r: String)
    ensures
        r@ == ip_str_of(*ip),
{
    match ip {
        IpAddress::V4(v) => v4_string(*v),
        IpAddress::V6(v) => v6_string(*v),
    }
}

/// The text of a socket address: `a.b.c.d:port` for v4, `[v6]:port` for v6.
pub open spec fn socket_addr_str_of(ip: IpAddress, port: u16) -> Seq<char> {
    match ip {
        IpAddress::V4(v) => v4_str_of(v) + seq![':'] + dec_str_of(port as nat),
        IpAddress::V6(v) => seq!['['] + v6_str_of(v) + seq![']'] + seq![':'] + dec_str_of(
            port as nat,
        ),
    }
}

/// Renders a socket address.
pub fn socket_addr_string(ip: &IpAddress, port: u16) -> (r: String)
    ensures
        r@ == socket_addr_str_of(*ip, port),
{
    match ip {
        IpAddress::V4(v) => {
            let mut s = v4_string(*v);
            push_char(&mut s, ':');
            s.append(dec_u64(port as u64).as_str());
            proof {
                assert(s@ =~= socket_addr_str_of(*ip, port));
            }
            s
        },
        IpAddress::V6(v) => {
            let mut s = String::from_str("[");
            s.append(v6_string(*v).as_str());
            push_char(&mut s, ']');
            push_char(&mut s, ':');
            s.append(dec_u64(port as u64).as_str());
            proof {
                reveal_strlit("[");
                assert(s@ =~= socket_addr_str_of(*ip, port));
            }
            s
        },
    }
}

/// An address range: a base address and a prefix length.
#[derive(Clone, Copy, PartialEq, Eq, Structural, Debug)]
pub struct IpNetwork {
    pub address: IpAddress,
    pub prefix: u8,
}

/// The text of an address range: the address, `/`, and the prefix length.
pub open spec fn network_str_of(n: IpNetwork) -> Seq<char> {
    ip_str_of(n.address) + seq!['/'] + dec_str_of(n.prefix as nat)
}

/// Renders an address range.
pub fn network_string(n: &IpNetwork) -> (r: String)
    ensures
        r@ == network_str_of(*n),
{
    let mut s = ip_string(&n.address);
    push_char(&mut s, '/');
    s.append(dec_u64(n.prefix as u64).as_str());
    proof {
        assert(s@ =~= network_str_of(*n));
    }
    s
}

/// The numeric value used to order addresses: every v4 address sorts before
/// every v6 address, and within one family addresses sort numerically.
pub open spec fn ip_rank(ip: IpAddress) -> (int, int) {
    match ip {
        IpAddress::V4(v) => (0, v as int),
        IpAddress::V6(v) => (1, v as int),
    }
}

/// The order on addresses: v4 before v6, then numeric.
pub open spec fn ip_le(a: IpAddress, b: IpAddress) -> bool {
    ip_rank(a).0 < ip_rank(b).0 || (ip_rank(a).0 == ip_rank(b).0 && ip_rank(a).1 <= ip_rank(b).1)
}

/// Decides `ip_le`.
pub fn ip_le_exec(a: &IpAddress, b: &IpAddress) -> (r: bool)
    ensures
        r == ip_le(*a, *b),
{
    match (a, b) {
        (IpAddress::V4(x), IpAddress::V4(y)) => *x <= *y,
        (IpAddress::V4(_), IpAddress::V6(_)) => true,
        (IpAddress::V6(_), IpAddress::V4(_)) => false,
        (IpAddress::V6(x), IpAddress::V6(y)) => *x <= *y,
    }
}

} // verus!
