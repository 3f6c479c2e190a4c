//! Port redirection of IPv4/TCP packets: reading and rewriting the addresses
//! and ports of a raw packet, and the per-packet decision that sends a
//! console's connections on one port to this machine and restores the
//! original address on the replies.
//!
//! An IPv4 address is held as a `u32` in network order (the value of
//! `u32::from(Ipv4Addr)`).

use vstd::prelude::*;
use std::collections::HashMap;

verus! {

broadcast use vstd::std_specs::hash::group_hash_axioms;

/// Big-endian 32-bit number at `p[i..i + 4]`.
pub open spec fn be32(p: Seq<u8>, i: int) -> int {
    p[i] as int * 16777216 + p[i + 1] as int * 65536 + p[i + 2] as int * 256 + p[i + 3] as int
}

/// Big-endian 16-bit number at `p[i..i + 2]`.
pub open spec fn be16(p: Seq<u8>, i: int) -> int {
    p[i] as int * 256 + p[i + 1] as int
}

/// `p` with the four bytes at `i` replaced by `v` in big-endian order.
pub open spec fn put_be32(p: Seq<u8>, i: int, v: u32) -> Seq<u8> {
    p.update(i, (v / 16777216) as u8).update(i + 1, ((v / 65536) % 256) as u8).update(
        i + 2,
        ((v / 256) % 256) as u8,
    ).update(i + 3, (v % 256) as u8)
}

/// Source address of an IPv4 packet (header bytes 12..16).
pub open spec fn ipv4_src(p: Seq<u8>) -> Option<u32> {
    if p.len() < 20 {
        None
    } else {
        Some(be32(p, 12) as u32)
    }
}

/// Destination address of an IPv4 packet (header bytes 16..20).
pub open spec fn ipv4_dst(p: Seq<u8>) -> Option<u32> {
    if p.len() < 20 {
        None
    } else {
        Some(be32(p, 16) as u32)
    }
}

/// Length in bytes of the IPv4 header: its IHL field times four.
pub open spec fn header_len(p: Seq<u8>) -> int {
    (p[0] % 16) as int * 4
}

/// TCP source port: the first two bytes after the IPv4 header.
pub open spec fn tcp_src_port(p: Seq<u8>) -> Option<u16> {
    if p.len() == 0 || p.len() < header_len(p) + 4 {
        None
    } else {
        Some(be16(p, header_len(p)) as u16)
    }
}

/// TCP destination port: bytes 2..4 after the IPv4 header.
pub open spec fn tcp_dst_port(p: Seq<u8>) -> Option<u16> {
    if p.len() == 0 || p.len() < header_len(p) + 4 {
        None
    } else {
        Some(be16(p, header_len(p) + 2) as u16)
    }
}

proof fn lemma_put_be32(p: Seq<u8>, i: int, v: u32)
    requires
        0 <= i,
        i + 4 <= p.len(),
    ensures
        be32(put_be32(p, i, v), i) == v,
        put_be32(p, i, v).len() == p.len(),
        forall|j: int| 0 <= j < p.len() && (j < i || j >= i + 4) ==> #[trigger] put_be32(p, i, v)[j] == p[j],
{
    let q = put_be32(p, i, v);
    let a = v / 16777216;
    let b = (v / 65536) % 256;
    let c = (v / 256) % 256;
    let d = v % 256;
    assert(v / 16777216 < 256 && v == (v / 16777216) * 16777216 + ((v / 65536) % 256) * 65536 + ((
    v / 256) % 256) * 256 + v % 256) by (bit_vector);
    assert(q[i] == a as u8);
    assert(q[i + 1] == b as u8);
    assert(q[i + 2] == c as u8);
    assert(q[i + 3] == d as u8);
}

fn read_be32(p: &Vec<u8>, i: usize) -> (r: u32)
    requires
        i + 4 <= p@.len(),
    ensures
        r == be32(p@, i as int),
{
    assert(p@.len() == p.len());
    let x: u64 = (p[i] as u64) * 16777216 + (p[i + 1] as u64) * 65536 + (p[i + 2] as u64) * 256
        + (p[i + 3] as u64);
    x as u32
}

fn read_be16(p: &Vec<u8>, i: usize) -> (r: u16)
    requires
        i + 2 <= p@.len(),
    ensures
        r == be16(p@, i as int),
{
    assert(p@.len() == p.len());
    let x: u32 = (p[i] as u32) * 256 + (p[i + 1] as u32);
    x as u16
}

fn write_be32(p: &mut Vec<u8>, i: usize, v: u32)
    requires
        i + 4 <= old(p)@.len(),
    ensures
        final(p)@ == put_be32(old(p)@, i as int, v),
{
    assert(old(p)@.len() == p.len());
    p.set(i, (v / 16777216) as u8);
    p.set(i + 1, ((v / 65536) % 256) as u8);
    p.set(i + 2, ((v / 256) % 256) as u8);
    p.set(i + 3, (v % 256) as u8);
}

/// The source address of an IPv4 packet; `None` when it is shorter than an
/// IPv4 header.
pub fn read_ipv4_src(packet: &Vec<u8>) -> (r: Option<u32>)
    ensures
        r == ipv4_src(packet@),
{
    if packet.len() < 20 {
        return None;
    }
    Some(read_be32(packet, 12))
}

/// The destination address of an IPv4 packet; `None` when it is shorter
/// than an IPv4 header.
pub fn read_ipv4_dst(packet: &Vec<u8>) -> (r: Option<u32>)
    ensures
        r == ipv4_dst(packet@),
{
    if packet.len() < 20 {
        return None;
    }
    Some(read_be32(packet, 16))
}

/// Replaces the source address of an IPv4 packet; `false`, and the packet
/// unchanged, when it is shorter than an IPv4 header.
pub fn rewrite_ipv4_src(packet: &mut Vec<u8>, new_ip: u32) -> (r: bool)
    ensures
        r == (old(packet)@.len() >= 20),
        r ==> final(packet)@ == put_be32(old(packet)@, 12, new_ip),
        !r ==> final(packet)@ == old(packet)@,
{
    if packet.len() < 20 {
        return false;
    }
    write_be32(packet, 12, new_ip);
    true
}

/// Replaces the destination address of an IPv4 packet; `false`, and the
/// packet unchanged, when it is shorter than an IPv4 header.
pub fn rewrite_ipv4_dst(packet: &mut Vec<u8>, new_ip: u32) -> (r: bool)
    ensures
        r == (old(packet)@.len() >= 20),
        r ==> final(packet)@ == put_be32(old(packet)@, 16, new_ip),
        !r ==> final(packet)@ == old(packet)@,
{
    if packet.len() < 20 {
        return false;
    }
    write_be32(packet, 16, new_ip);
    true
}

fn ihl_bytes(packet: &Vec<u8>) -> (r: usize)
    requires
        packet@.len() > 0,
    ensures
        r == header_len(packet@),
        r <= 60,
{
    let b = packet[0];
    let low = b & 0x0F;
    assert(b & 0x0F == b % 16) by (bit_vector);
    (low as usize) * 4
}

/// The TCP source port of an IPv4 packet; `None` when the packet ends before
/// it.
pub fn read_tcp_src_port(packet: &Vec<u8>) -> (r: Option<u16>)
    ensures
        r == tcp_src_port(packet@),
{
    if packet.len() == 0 {
        return None;
    }
    let ihl = ihl_bytes(packet);
    if packet.len() < ihl + 4 {
        return None;
    }
    Some(read_be16(packet, ihl))
}

/// The TCP destination port of an IPv4 packet; `None` when the packet ends
/// before it.
pub fn read_tcp_dst_port(packet: &Vec<u8>) -> (r: Option<u16>)
    ensures
        r == tcp_dst_port(packet@),
{
    if packet.len() == 0 {
        return None;
    }
    let ihl = ihl_bytes(packet);
    if packet.len() < ihl + 4 {
        return None;
    }
    Some(read_be16(packet, ihl + 2))
}

// ---------------------------------------------------------------------------
// Port redirection
// ---------------------------------------------------------------------------

/// The model of a port redirector: this machine's address, the redirected
/// port, the remote address learned from the console's first connection, and
/// the console's source ports with the remote address each one was sent to.
pub struct RedirectState {
    pub local_ip: u32,
    pub port: u16,
    pub learned: Option<u32>,
    pub origins: Map<u16, u32>,
}

/// One packet through the redirector: the next state, the packet as it
/// leaves, and whether it was rewritten (and its checksums must be
/// recomputed).
///
/// When `idle` (no packet for a minute) the learned address is forgotten
/// first. A packet to the port, at the learned address or while none is
/// learned, is sent to this machine instead, its source port remembered with
/// its original destination. A packet from this machine's port to a
/// remembered source port gets that original destination as its source.
pub open spec fn redirect_step(st: RedirectState, p: Seq<u8>, idle: bool) -> (
    RedirectState,
    Seq<u8>,
    bool,
) {
    let learned0 = if idle {
        None
    } else {
        st.learned
    };
    let sp = tcp_src_port(p);
    let dp = tcp_dst_port(p);
    let sip = ipv4_src(p);
    let dip = ipv4_dst(p);
    let inbound = dp == Some(st.port) && dip is Some && (learned0 is None || learned0 == dip);
    let learned1 = if inbound {
        dip
    } else {
        learned0
    };
    let origins1 = if inbound && sp is Some {
        st.origins.insert(sp->0, dip->0)
    } else {
        st.origins
    };
    let p1 = if inbound {
        put_be32(p, 16, st.local_ip)
    } else {
        p
    };
    let outbound = sp == Some(st.port) && sip == Some(st.local_ip) && dp is Some
        && origins1.contains_key(dp->0);
    let p2 = if outbound {
        put_be32(p1, 12, origins1[dp->0])
    } else {
        p1
    };
    (RedirectState { learned: learned1, origins: origins1, ..st }, p2, inbound || outbound)
}

/// Redirects one TCP port of the traffic that passes through this machine.
pub struct PortRedirect {
    local_ip: u32,
    port: u16,
    learned: Option<u32>,
    origins: HashMap<u16, u32>,
}

impl View for PortRedirect {
    type V = RedirectState;

    closed spec fn view(&self) -> RedirectState {
        RedirectState {
            local_ip: self.local_ip,
            port: self.port,
            learned: self.learned,
            origins: self.origins@,
        }
    }
}

impl PortRedirect {
    /// A redirector for `port` towards `local_ip`, with nothing learned.
    pub fn new(local_ip: u32, port: u16) -> (r: Self)
        ensures
            r@ == (RedirectState { local_ip, port, learned: None, origins: Map::empty() }),
    {
        PortRedirect { local_ip, port, learned: None, origins: HashMap::new() }
    }

    /// The remote address learned from the console, if any.
    pub fn learned(&self) -> (r: Option<u32>)
        ensures
            r == self@.learned,
    {
        self.learned
    }

    /// Passes one packet through the redirector (see `redirect_step`);
    /// `true` when the packet was rewritten and its checksums must be
    /// recomputed before it is sent on.
    pub fn process(&mut self, packet: &mut Vec<u8>, idle: bool) -> (rewritten: bool)
        ensures
            (final(self)@, final(packet)@, rewritten) == redirect_step(old(self)@, old(packet)@, idle),
    {
        if idle {
            self.learned = None;
        }
        let sp = read_tcp_src_port(packet);
        let dp = read_tcp_dst_port(packet);
        let sip = read_ipv4_src(packet);
        let dip = read_ipv4_dst(packet);
        let mut rewritten = false;
        if let (Some(d), Some(dip_v)) = (dp, dip) {
            if d == self.port {
                let compatible = match self.learned {
                    None => true,
                    Some(l) => l == dip_v,
                };
                if compatible {
                    self.learned = Some(dip_v);
                    if let Some(s) = sp {
                        self.origins.insert(s, dip_v);
                    }
                    rewrite_ipv4_dst(packet, self.local_ip);
                    rewritten = true;
                }
            }
        }
        if let (Some(s), Some(sip_v)) = (sp, sip) {
            if s == self.port && sip_v == self.local_ip {
                if let Some(d) = dp {
                    match self.origins.get(&d) {
                        Some(orig) => {
                            let o = *orig;
                            rewrite_ipv4_src(packet, o);
                            rewritten = true;
                        },
                        None => {},
                    }
                }
            }
        }
        rewritten
    }
}

/// Reading an address back after rewriting it gives the new address, and
/// rewriting one of the two addresses leaves the other as it was.
pub proof fn law_rewrite_then_read(p: Seq<u8>, v: u32)
    requires
        p.len() >= 20,
    ensures
        ipv4_dst(put_be32(p, 16, v)) == Some(v),
        ipv4_src(put_be32(p, 16, v)) == ipv4_src(p),
        ipv4_src(put_be32(p, 12, v)) == Some(v),
        ipv4_dst(put_be32(p, 12, v)) == ipv4_dst(p),
{
    lemma_put_be32(p, 16, v);
    lemma_put_be32(p, 12, v);
    let q = put_be32(p, 16, v);
    assert(q[12] == p[12] && q[13] == p[13] && q[14] == p[14] && q[15] == p[15]);
    let r = put_be32(p, 12, v);
    assert(r[16] == p[16] && r[17] == p[17] && r[18] == p[18] && r[19] == p[19]);
}

/// Round trip: once a console packet from source port `c` to the redirected
/// port at address `d` has been sent to this machine, this machine's reply
/// from that port to `c` leaves with `d` as its source address, so the
/// console sees the answer come from where it sent the request.
pub proof fn law_reply_restores_origin(
    st: RedirectState,
    request: Seq<u8>,
    reply: Seq<u8>,
    idle: bool,
)
    requires
        tcp_dst_port(request) == Some(st.port),
        ipv4_dst(request) is Some,
        tcp_src_port(request) is Some,
        tcp_src_port(request) != Some(st.port),
        idle || st.learned is None || st.learned == ipv4_dst(request),
        tcp_src_port(reply) == Some(st.port),
        ipv4_src(reply) == Some(st.local_ip),
        tcp_dst_port(reply) == tcp_src_port(request),
    ensures
        ({
            let (st1, sent, rewritten) = redirect_step(st, request, idle);
            let (st2, answered, rewritten2) = redirect_step(st1, reply, false);
            &&& rewritten
            &&& ipv4_dst(sent) == Some(st.local_ip)
            &&& rewritten2
            &&& ipv4_src(answered) == ipv4_dst(request)
            &&& st2.learned == ipv4_dst(request)
        }),
{
    let (st1, sent, rewritten) = redirect_step(st, request, idle);
    let c = tcp_src_port(request)->0;
    let d = ipv4_dst(request)->0;
    assert(request.len() >= 20);
    assert(st1.origins.contains_key(c) && st1.origins[c] == d);
    law_rewrite_then_read(request, st.local_ip);
    assert(reply.len() >= 20);
    law_rewrite_then_read(reply, d);
}

/// Once an address is learned, a packet to the redirected port at another
/// address passes through untouched by the inbound rule and leaves the
/// learned address in place, until the redirector has been idle.
pub proof fn law_learned_address_sticks(st: RedirectState, p: Seq<u8>)
    requires
        st.learned is Some,
        tcp_dst_port(p) == Some(st.port),
        ipv4_dst(p) is Some,
        ipv4_dst(p) != st.learned,
        tcp_src_port(p) != Some(st.port),
    ensures
        ({
            let (st1, out, rewritten) = redirect_step(st, p, false);
            &&& st1.learned == st.learned
            &&& st1.origins == st.origins
            &&& out == p
            &&& !rewritten
        }),
{
}

} // verus!
