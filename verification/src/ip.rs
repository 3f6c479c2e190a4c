//! Choosing this machine's LAN address, and IPv4 addresses as text.
//!
//! An IPv4 address is held as a `u32` in network order.

use vstd::prelude::*;

use crate::dns::{ipv4_text, octet_text};
use crate::text::{
    all_digits, decimal, decimal_u64, digit_char, digits_value, push_all, split, split_state,
    string_from_chars,
};

verus! {

/// Octet `i` (0 is the first) of an address.
pub open spec fn octet_of(ip: u32, i: int) -> int {
    if i == 0 {
        ip as int / 16777216
    } else if i == 1 {
        (ip as int / 65536) % 256
    } else if i == 2 {
        (ip as int / 256) % 256
    } else {
        ip as int % 256
    }
}

/// `Ipv4Addr::is_loopback`: 127.0.0.0/8.
pub open spec fn is_loopback(ip: u32) -> bool {
    octet_of(ip, 0) == 127
}

/// `Ipv4Addr::is_private`: 10.0.0.0/8, 172.16.0.0/12 and 192.168.0.0/16.
pub open spec fn is_private(ip: u32) -> bool {
    octet_of(ip, 0) == 10 || (octet_of(ip, 0) == 172 && 16 <= octet_of(ip, 1) <= 31) || (octet_of(ip, 0)
        == 192 && octet_of(ip, 1) == 168)
}

/// `Ipv4Addr::is_link_local`: 169.254.0.0/16.
pub open spec fn is_link_local(ip: u32) -> bool {
    octet_of(ip, 0) == 169 && octet_of(ip, 1) == 254
}

/// `Ipv4Addr::is_multicast`: 224.0.0.0/4.
pub open spec fn is_multicast(ip: u32) -> bool {
    224 <= octet_of(ip, 0) <= 239
}

/// The rank of an address as this machine's LAN address, lower is better:
/// 192.168.x.x, then 10.x.x.x, then public addresses (not private, link
/// local, multicast, broadcast, unspecified, nor in the benchmarking range
/// 198.18.0.0/15), then anything else.
pub open spec fn address_rank(ip: u32) -> int {
    if octet_of(ip, 0) == 192 && octet_of(ip, 1) == 168 {
        0
    } else if octet_of(ip, 0) == 10 {
        1
    } else if !is_private(ip) && !is_link_local(ip) && !is_multicast(ip) && ip != 0xFFFF_FFFFu32
        && ip != 0 && !(octet_of(ip, 0) == 198 && 18 <= octet_of(ip, 1) <= 19) {
        2
    } else {
        3
    }
}

/// The first non-loopback address of rank `rank`, in order.
pub open spec fn first_of_rank(addrs: Seq<u32>, rank: int) -> Option<u32>
    decreases addrs.len(),
{
    if addrs.len() == 0 {
        None
    } else if !is_loopback(addrs[0]) && address_rank(addrs[0]) == rank {
        Some(addrs[0])
    } else {
        first_of_rank(addrs.drop_first(), rank)
    }
}

/// The chosen address: the first of the best rank present, else 127.0.0.1.
pub open spec fn chosen_address(addrs: Seq<u32>) -> u32 {
    if first_of_rank(addrs, 0) is Some {
        first_of_rank(addrs, 0)->0
    } else if first_of_rank(addrs, 1) is Some {
        first_of_rank(addrs, 1)->0
    } else if first_of_rank(addrs, 2) is Some {
        first_of_rank(addrs, 2)->0
    } else if first_of_rank(addrs, 3) is Some {
        first_of_rank(addrs, 3)->0
    } else {
        0x7F00_0001u32
    }
}

fn octets(ip: u32) -> (r: (u32, u32, u32, u32))
    ensures
        r.0 == octet_of(ip, 0) && r.1 == octet_of(ip, 1) && r.2 == octet_of(ip, 2) && r.3
            == octet_of(ip, 3),
        r.0 < 256 && r.1 < 256 && r.2 < 256 && r.3 < 256,
{
    (ip / 16777216, (ip / 65536) % 256, (ip / 256) % 256, ip % 256)
}

fn rank_of(ip: u32) -> (r: usize)
    ensures
        r == address_rank(ip),
{
    let (a, b, _c, _d) = octets(ip);
    if a == 192 && b == 168 {
        0
    } else if a == 10 {
        1
    } else {
        let private = a == 10 || (a == 172 && 16 <= b && b <= 31) || (a == 192 && b == 168);
        let link_local = a == 169 && b == 254;
        let multicast = 224 <= a && a <= 239;
        if !private && !link_local && !multicast && ip != 0xFFFF_FFFF && ip != 0 && !(a == 198 && 18
            <= b && b <= 19) {
            2
        } else {
            3
        }
    }
}

/// This machine's LAN address among the addresses of its interfaces (in
/// interface order; see `chosen_address`), as dotted text.
pub fn local_ip(addrs: &[u32]) -> (r: String)
    ensures
        r@ == ipv4_string(chosen_address(addrs@)),
{
    let mut pick: [Option<u32>; 4] = [None, None, None, None];
    let ghost s = addrs@;
    assert(s.skip(0) == s);
    for i in 0..addrs.len()
        invariant
            s == addrs@,
            forall|k: int|
                0 <= k < 4 ==> #[trigger] first_of_rank(s, k) == match pick@[k] {
                    Some(a) => Some(a),
                    None => first_of_rank(s.skip(i as int), k),
                },
    {
        let ip = addrs[i];
        assert(s.skip(i as int).drop_first() == s.skip(i + 1));
        assert(s.skip(i as int)[0] == ip);
        if !(ip / 16777216 == 127) {
            let rank = rank_of(ip);
            if pick[rank].is_none() {
                pick[rank] = Some(ip);
            }
        }
    }
    assert(s.skip(s.len() as int).len() == 0);
    let chosen = if let Some(a) = pick[0] {
        a
    } else if let Some(a) = pick[1] {
        a
    } else if let Some(a) = pick[2] {
        a
    } else if let Some(a) = pick[3] {
        a
    } else {
        0x7F00_0001
    };
    assert(first_of_rank(s, 0) == pick@[0]);
    assert(first_of_rank(s, 1) == pick@[1]);
    assert(first_of_rank(s, 2) == pick@[2]);
    assert(first_of_rank(s, 3) == pick@[3]);
    format_ipv4(chosen)
}

proof fn lemma_rank_bounds(ip: u32)
    ensures
        0 <= address_rank(ip) <= 3,
{
}

proof fn lemma_first_of_rank(addrs: Seq<u32>, k: int)
    ensures
        first_of_rank(addrs, k) matches Some(a) ==> exists|i: int|
            0 <= i < addrs.len() && addrs[i] == a && octet_of(a, 0) != 127 && address_rank(a) == k
                && forall|j: int|
                0 <= j < i ==> !(octet_of(#[trigger] addrs[j], 0) != 127 && address_rank(addrs[j])
                    == k),
        first_of_rank(addrs, k) is None ==> forall|j: int|
            0 <= j < addrs.len() ==> !(octet_of(#[trigger] addrs[j], 0) != 127 && address_rank(
                addrs[j],
            ) == k),
    decreases addrs.len(),
{
    if addrs.len() > 0 {
        let t = addrs.drop_first();
        lemma_first_of_rank(t, k);
        if !is_loopback(addrs[0]) && address_rank(addrs[0]) == k {
        } else {
            if let Some(a) = first_of_rank(t, k) {
                let i = choose|i: int|
                    0 <= i < t.len() && t[i] == a && octet_of(a, 0) != 127 && address_rank(a) == k
                        && forall|j: int|
                        0 <= j < i ==> !(octet_of(#[trigger] t[j], 0) != 127 && address_rank(t[j])
                            == k);
                assert(addrs[i + 1] == a);
                assert forall|j: int| 0 <= j < i + 1 implies !(octet_of(#[trigger] addrs[j], 0) != 127
                    && address_rank(addrs[j]) == k) by {
                    if j > 0 {
                        assert(addrs[j] == t[j - 1]);
                    }
                }
            } else {
                assert forall|j: int| 0 <= j < addrs.len() implies !(octet_of(#[trigger] addrs[j], 0)
                    != 127 && address_rank(addrs[j]) == k) by {
                    if j > 0 {
                        assert(addrs[j] == t[j - 1]);
                    }
                }
            }
        }
    }
}

/// Law: the address handed to the console is never a loopback address
/// (127.0.0.0/8) while the machine has any other: it is then one of the
/// machine's own non-loopback addresses, of the best rank among them
/// (`address_rank`), and the first of that rank in interface order. With
/// only loopback addresses (or none) it is 127.0.0.1.
pub proof fn law_local_ip_choice(addrs: Seq<u32>)
    ensures
        (exists|i: int| 0 <= i < addrs.len() && octet_of(#[trigger] addrs[i], 0) != 127) ==> exists|i: int|
            0 <= i < addrs.len() && addrs[i] == chosen_address(addrs) && octet_of(
                chosen_address(addrs),
                0,
            ) != 127 && (forall|j: int|
                0 <= j < addrs.len() && octet_of(#[trigger] addrs[j], 0) != 127 ==> address_rank(
                    chosen_address(addrs),
                ) <= address_rank(addrs[j])) && (forall|j: int|
                0 <= j < i && octet_of(#[trigger] addrs[j], 0) != 127 ==> address_rank(addrs[j])
                    != address_rank(chosen_address(addrs))),
        (forall|i: int| 0 <= i < addrs.len() ==> octet_of(#[trigger] addrs[i], 0) == 127)
            ==> chosen_address(addrs) == 0x7F00_0001u32,
        (exists|i: int| 0 <= i < addrs.len() && octet_of(#[trigger] addrs[i], 0) == 192 && octet_of(addrs[i], 1) == 168)
            ==> octet_of(chosen_address(addrs), 0) == 192 && octet_of(chosen_address(addrs), 1) == 168,
        (exists|i: int| 0 <= i < addrs.len() && octet_of(#[trigger] addrs[i], 0) == 10) && !(exists|i: int|
            0 <= i < addrs.len() && octet_of(#[trigger] addrs[i], 0) == 192 && octet_of(addrs[i], 1) == 168)
            ==> octet_of(chosen_address(addrs), 0) == 10,
{
    lemma_first_of_rank(addrs, 0);
    lemma_first_of_rank(addrs, 1);
    lemma_first_of_rank(addrs, 2);
    lemma_first_of_rank(addrs, 3);
    assert forall|j: int| 0 <= j < addrs.len() implies 0 <= address_rank(#[trigger] addrs[j]) <= 3 by {
        lemma_rank_bounds(addrs[j]);
    }
    if exists|i: int| 0 <= i < addrs.len() && octet_of(#[trigger] addrs[i], 0) != 127 {
        let w = choose|i: int| 0 <= i < addrs.len() && octet_of(#[trigger] addrs[i], 0) != 127;
        lemma_rank_bounds(addrs[w]);
        assert(first_of_rank(addrs, address_rank(addrs[w])) is Some);
    }
}

// ---------------------------------------------------------------------------
// Text
// ---------------------------------------------------------------------------

/// An address in dotted-decimal text.
pub open spec fn ipv4_string(ip: u32) -> Seq<char> {
    decimal(octet_of(ip, 0) as nat) + seq!['.'] + decimal(octet_of(ip, 1) as nat) + seq!['.']
        + decimal(octet_of(ip, 2) as nat) + seq!['.'] + decimal(octet_of(ip, 3) as nat)
}

/// An address in dotted-decimal text (`Ipv4Addr::to_string`).
pub fn format_ipv4(ip: u32) -> (r: String)
    ensures
        r@ == ipv4_string(ip),
{
    let (a, b, c, d) = octets(ip);
    let mut out: Vec<char> = Vec::new();
    let da = decimal_u64(a as u64);
    push_all(&mut out, da.as_slice());
    out.push('.');
    let db = decimal_u64(b as u64);
    push_all(&mut out, db.as_slice());
    out.push('.');
    let dc = decimal_u64(c as u64);
    push_all(&mut out, dc.as_slice());
    out.push('.');
    let dd = decimal_u64(d as u64);
    push_all(&mut out, dd.as_slice());
    assert(out@ =~= ipv4_string(ip));
    string_from_chars(out.as_slice())
}

proof fn lemma_digit_char(d: nat)
    requires
        d < 10,
    ensures
        (digit_char(d) as u32) - 48 == d,
        '0' <= digit_char(d) <= '9',
        digit_char(d) != '.',
        d != 0 ==> digit_char(d) != '0',
{
    assert(((d + 48) as char) as u32 == d + 48);
}

proof fn lemma_decimal(n: nat)
    ensures
        digits_value(decimal(n)) == n,
        all_digits(decimal(n)),
        decimal(n).len() >= 1,
        n < 10 ==> decimal(n).len() == 1,
        n >= 10 ==> decimal(n)[0] != '0',
        n >= 10 && n < 100 ==> decimal(n).len() == 2,
        n >= 100 && n < 1000 ==> decimal(n).len() == 3,
        !decimal(n).contains('.'),
    decreases n,
{
    lemma_digit_char(n % 10);
    assert((n / 10) * 10 + n % 10 == n);
    if n < 10 {
        assert(decimal(n).drop_last().len() == 0);
        assert(digits_value(decimal(n).drop_last()) == 0);
    }
    if n >= 10 {
        lemma_decimal(n / 10);
        let p = decimal(n / 10);
        assert(decimal(n).drop_last() == p);
        assert(digits_value(decimal(n)) == digits_value(p) * 10 + ((decimal(n).last() as u32) - 48) as nat);
        assert(decimal(n)[0] == p[0]);
        if n / 10 < 10 {
            lemma_digit_char(n / 10);
        }
        assert forall|i: int| 0 <= i < decimal(n).len() implies crate::text::is_digit(
            #[trigger] decimal(n)[i],
        ) by {
            if i < p.len() {
                assert(decimal(n)[i] == p[i]);
            }
        }
        assert forall|i: int| 0 <= i < decimal(n).len() implies #[trigger] decimal(n)[i] != '.' by {
            if i < p.len() {
                assert(decimal(n)[i] == p[i]);
            }
        }
    }
}

/// Reading an address back from its text gives the address.
pub proof fn law_ipv4_text_round_trip(ip: u32)
    ensures
        ipv4_text(ipv4_string(ip)) == Some(ip),
{
    let o0 = octet_of(ip, 0) as nat;
    let o1 = octet_of(ip, 1) as nat;
    let o2 = octet_of(ip, 2) as nat;
    let o3 = octet_of(ip, 3) as nat;
    assert(ip / 16777216 < 256 && ip == (ip / 16777216) * 16777216 + ((ip / 65536) % 256) * 65536 + ((
    ip / 256) % 256) * 256 + ip % 256) by (bit_vector);
    lemma_decimal(o0);
    lemma_decimal(o1);
    lemma_decimal(o2);
    lemma_decimal(o3);
    let d0 = decimal(o0);
    let d1 = decimal(o1);
    let d2 = decimal(o2);
    let d3 = decimal(o3);
    crate::text::lemma_split_pieces(Seq::empty(), d0, '.');
    crate::text::lemma_split_pieces(d0, d1, '.');
    crate::text::lemma_split_pieces(d0.push('.') + d1, d2, '.');
    crate::text::lemma_split_pieces(d0.push('.') + d1.push('.') + d2, d3, '.');
    assert(d0.push('.') + d1 == d0 + seq!['.'] + d1);
    assert((d0.push('.') + d1).push('.') + d2 == d0 + seq!['.'] + d1 + seq!['.'] + d2);
    assert((d0.push('.') + d1.push('.') + d2).push('.') + d3 == ipv4_string(ip));
    assert(d0.push('.') + d1.push('.') + d2 == (d0.push('.') + d1).push('.') + d2);
    let parts = split(ipv4_string(ip), '.');
    assert(parts == seq![d0, d1, d2, d3]);
    assert(octet_text(d0) && octet_text(d1) && octet_text(d2) && octet_text(d3));
}

} // verus!
