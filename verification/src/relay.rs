//! The relay's own logic: reading the server name out of a TLS Client Hello,
//! the HTTP `CONNECT` exchange with the upstream proxy, and the target host.

use vstd::prelude::*;
use vstd::utf8::{valid_utf8, decode_utf8};

use crate::text::{chars_of, push_str, starts_with_str, slice_chars, string_from_chars};

verus! {

broadcast use vstd::string::group_string_axioms;

/// Port that the relay connects to through the proxy.
pub const TARGET_PORT: u16 = 443;

/// Host used when a Client Hello names no server.
pub const FALLBACK_HOST: &'static str = "api.twitch.tv";

/// Big-endian 16-bit number at `b[i]`, `b[i + 1]`.
pub open spec fn be16(b: Seq<u8>, i: int) -> nat {
    (b[i] as nat) * 256 + (b[i + 1] as nat)
}

/// Start and end of the extensions block of a TLS record that holds a
/// Client Hello: after the record header (5 bytes), the handshake header
/// (4 bytes), the version (2), the random (32), the session id, the cipher
/// suites and the compression methods, each prefixed by its length.
/// `None` where the record is no handshake, the message no Client Hello, or
/// the buffer ends before the block does.
pub open spec fn client_hello_extensions(b: Seq<u8>) -> Option<(int, int)> {
    if b.len() < 5 || b[0] != 0x16 {
        None
    } else if b.len() < 9 || b[5] != 0x01 {
        None
    } else if b.len() < 44 {
        None
    } else {
        let p1 = 44 + b[43] as int;
        if b.len() < p1 + 2 {
            None
        } else {
            let p2 = p1 + 2 + be16(b, p1);
            if b.len() < p2 + 1 {
                None
            } else {
                let p3 = p2 + 1 + b[p2] as int;
                if b.len() < p3 + 2 {
                    None
                } else {
                    let start = p3 + 2;
                    let end = start + be16(b, p3);
                    if b.len() < end {
                        None
                    } else {
                        Some((start, end))
                    }
                }
            }
        }
    }
}

/// How far `pos` still is from `end`.
pub open spec fn gap(pos: int, end: int) -> nat {
    if pos <= end {
        (end - pos) as nat
    } else {
        0
    }
}

/// The first entry of type 0 (host name) whose bytes are UTF-8, in the
/// server name list `b[pos..end]`.
pub open spec fn host_name_in_list(b: Seq<u8>, pos: int, end: int) -> Option<Seq<u8>>
    decreases gap(pos, end),
{
    if pos + 3 > end {
        None
    } else {
        let name_len = be16(b, pos + 1);
        let start = pos + 3;
        if b[pos] == 0 && start + name_len <= end && valid_utf8(
            b.subrange(start, start + name_len),
        ) {
            Some(b.subrange(start, start + name_len))
        } else {
            host_name_in_list(b, start + name_len, end)
        }
    }
}

/// The host name of the first server name extension (type 0) that holds
/// one, scanning the extensions `b[pos..end]`; `None` also where a server
/// name extension runs past the buffer or is too short for its list length.
pub open spec fn sni_in_extensions(b: Seq<u8>, pos: int, end: int) -> Option<Seq<u8>>
    decreases gap(pos, end),
{
    if pos + 4 > end {
        None
    } else {
        let ext_type = be16(b, pos);
        let data_len = be16(b, pos + 2);
        let data = pos + 4;
        if ext_type == 0 {
            let sni_end = data + data_len;
            if b.len() < sni_end || data + 2 > sni_end {
                None
            } else {
                match host_name_in_list(b, data + 2, sni_end) {
                    Some(name) => Some(name),
                    None => sni_in_extensions(b, data + data_len, end),
                }
            }
        } else {
            sni_in_extensions(b, data + data_len, end)
        }
    }
}

/// The server name (SNI) that a TLS Client Hello record asks for, as bytes.
pub open spec fn sni(b: Seq<u8>) -> Option<Seq<u8>> {
    match client_hello_extensions(b) {
        Some((start, end)) => sni_in_extensions(b, start, end),
        None => None,
    }
}

proof fn lemma_host_list_prefix(b: Seq<u8>, e: Seq<u8>, pos: int, end: int)
    requires
        0 <= pos,
        end <= b.len(),
    ensures
        host_name_in_list(b + e, pos, end) == host_name_in_list(b, pos, end),
    decreases gap(pos, end),
{
    let be = b + e;
    if pos + 3 <= end {
        assert(be[pos] == b[pos] && be[pos + 1] == b[pos + 1] && be[pos + 2] == b[pos + 2]);
        let name_len = be16(b, pos + 1);
        let start = pos + 3;
        if start + name_len <= end {
            assert(be.subrange(start, start + name_len) =~= b.subrange(start, start + name_len));
        }
        lemma_host_list_prefix(b, e, start + name_len, end);
    }
}

proof fn lemma_sni_ext_prefix(b: Seq<u8>, e: Seq<u8>, pos: int, end: int)
    requires
        0 <= pos,
        end <= b.len(),
        sni_in_extensions(b, pos, end) is Some,
    ensures
        sni_in_extensions(b + e, pos, end) == sni_in_extensions(b, pos, end),
    decreases gap(pos, end),
{
    let be = b + e;
    assert(pos + 4 <= end);
    assert(be[pos] == b[pos] && be[pos + 1] == b[pos + 1] && be[pos + 2] == b[pos + 2] && be[pos + 3]
        == b[pos + 3]);
    let data_len = be16(b, pos + 2);
    let data = pos + 4;
    if be16(b, pos) == 0 {
        let sni_end = data + data_len;
        lemma_host_list_prefix(b, e, data + 2, sni_end);
        if host_name_in_list(b, data + 2, sni_end) is None {
            lemma_sni_ext_prefix(b, e, data + data_len, end);
        }
    } else {
        lemma_sni_ext_prefix(b, e, data + data_len, end);
    }
}

/// Law: bytes after a Client Hello never change the server name found in
/// it: where `b` names a server, `b` followed by anything names the same.
pub proof fn law_sni_ignores_trailing_bytes(b: Seq<u8>, extra: Seq<u8>)
    requires
        sni(b) is Some,
    ensures
        sni(b + extra) == sni(b),
{
    let be = b + extra;
    let (start, end) = client_hello_extensions(b)->0;
    assert(be[0] == b[0] && be[5] == b[5] && be[43] == b[43]);
    let p1 = 44 + b[43] as int;
    assert(be[p1] == b[p1] && be[p1 + 1] == b[p1 + 1]);
    let p2 = p1 + 2 + be16(b, p1);
    assert(be[p2] == b[p2]);
    let p3 = p2 + 1 + b[p2] as int;
    assert(be[p3] == b[p3] && be[p3 + 1] == b[p3 + 1]);
    assert(client_hello_extensions(be) == client_hello_extensions(b));
    lemma_sni_ext_prefix(b, extra, start, end);
}

/// `b` with its Client Hello session id replaced by `sid`: the length byte
/// at offset 43 and the bytes it counts.
pub open spec fn with_session_id(b: Seq<u8>, sid: Seq<u8>) -> Seq<u8> {
    b.take(43) + seq![sid.len() as u8] + sid + b.skip(44 + b[43] as int)
}

proof fn lemma_host_list_shift(b: Seq<u8>, b2: Seq<u8>, d: int, lo: int, pos: int, end: int)
    requires
        0 <= lo <= pos,
        end <= b.len(),
        lo + d >= 0,
        b2.len() == b.len() + d,
        forall|i: int| lo <= i < b.len() ==> b2[i + d] == #[trigger] b[i],
    ensures
        host_name_in_list(b2, pos + d, end + d) == host_name_in_list(b, pos, end),
    decreases gap(pos, end),
{
    if pos + 3 <= end {
        assert(b2[pos + d] == b[pos] && b2[pos + 1 + d] == b[pos + 1] && b2[pos + 2 + d] == b[pos + 2]);
        let name_len = be16(b, pos + 1);
        let start = pos + 3;
        assert(be16(b2, pos + d + 1) == name_len);
        if start + name_len <= end {
            assert(b2.subrange(start + d, start + d + name_len) =~= b.subrange(start, start + name_len)) by {
                assert forall|k: int| 0 <= k < name_len implies #[trigger] b2.subrange(start + d, start + d
                    + name_len)[k] == b.subrange(start, start + name_len)[k] by {
                    assert(b2[start + k + d] == b[start + k]);
                }
            }
        }
        lemma_host_list_shift(b, b2, d, lo, start + name_len, end);
        assert(start + d + name_len == start + name_len + d);
    }
}

proof fn lemma_sni_ext_shift(b: Seq<u8>, b2: Seq<u8>, d: int, lo: int, pos: int, end: int)
    requires
        0 <= lo <= pos,
        end <= b.len(),
        lo + d >= 0,
        b2.len() == b.len() + d,
        forall|i: int| lo <= i < b.len() ==> b2[i + d] == #[trigger] b[i],
    ensures
        sni_in_extensions(b2, pos + d, end + d) == sni_in_extensions(b, pos, end),
    decreases gap(pos, end),
{
    if pos + 4 <= end {
        assert(b2[pos + d] == b[pos] && b2[pos + 1 + d] == b[pos + 1] && b2[pos + 2 + d] == b[pos + 2]
            && b2[pos + 3 + d] == b[pos + 3]);
        let data_len = be16(b, pos + 2);
        let data = pos + 4;
        assert(be16(b2, pos + d) == be16(b, pos));
        assert(be16(b2, pos + d + 2) == data_len);
        if be16(b, pos) == 0 {
            let sni_end = data + data_len;
            if !(b.len() < sni_end || data + 2 > sni_end) {
                lemma_host_list_shift(b, b2, d, lo, data + 2, sni_end);
                assert(data + 2 + d == pos + d + 4 + 2);
            }
        }
        lemma_sni_ext_shift(b, b2, d, lo, data + data_len, end);
        assert(pos + d + 4 + data_len == data + data_len + d);
    }
}

/// Law: the server name does not depend on the Client Hello's session id.
/// Giving a hello any other session id `sid` (of any length up to 255,
/// with its length byte) leaves the server name read from it unchanged;
/// the cipher suites, compression methods and extensions that follow are
/// read where they now stand.
pub proof fn law_sni_ignores_session_id(b: Seq<u8>, sid: Seq<u8>)
    requires
        44 <= b.len(),
        44 + b[43] as int <= b.len(),
        sid.len() < 256,
    ensures
        sni(with_session_id(b, sid)) == sni(b),
{
    let b2 = with_session_id(b, sid);
    let p1 = 44 + b[43] as int;
    let q1 = 44 + sid.len();
    let d = q1 - p1;
    assert(b2.len() == b.len() + d);
    assert(b2[0] == b[0] && b2[5] == b[5]);
    assert((sid.len() as u8) as int == sid.len());
    assert(b2[43] as int == sid.len());
    assert forall|i: int| p1 <= i < b.len() implies b2[i + d] == #[trigger] b[i] by {
        assert(b2[i + d] == b.skip(p1)[i - p1]);
    }
    if b[0] != 0x16 || b[5] != 0x01 {
        assert(client_hello_extensions(b) is None && client_hello_extensions(b2) is None);
    } else if b.len() >= p1 + 2 {
        assert(b2[p1 + d] == b[p1] && b2[p1 + 1 + d] == b[p1 + 1]);
        let p2 = p1 + 2 + be16(b, p1);
        if b.len() >= p2 + 1 {
            assert(b2[p2 + d] == b[p2]);
            let p3 = p2 + 1 + b[p2] as int;
            if b.len() >= p3 + 2 {
                assert(b2[p3 + d] == b[p3] && b2[p3 + 1 + d] == b[p3 + 1]);
                let start = p3 + 2;
                let end = start + be16(b, p3);
                if b.len() >= end {
                    assert(client_hello_extensions(b) == Some((start, end)));
                    assert(client_hello_extensions(b2) == Some((start + d, end + d)));
                    lemma_sni_ext_shift(b, b2, d, p1, start, end);
                } else {
                    assert(client_hello_extensions(b2) is None);
                }
            } else {
                assert(client_hello_extensions(b2) is None);
            }
        } else {
            assert(client_hello_extensions(b2) is None);
        }
    } else {
        assert(client_hello_extensions(b2) is None);
    }
}

/// A 16-bit number as two big-endian bytes.
pub open spec fn be16_bytes(n: nat) -> Seq<u8> {
    seq![(n / 256) as u8, (n % 256) as u8]
}

/// A server name extension (type 0) naming the host `name`: the extension
/// header, the list length, and one host name entry (type 0) with its
/// length.
pub open spec fn sni_extension(name: Seq<u8>) -> Seq<u8> {
    seq![0u8, 0u8] + be16_bytes(name.len() + 5) + be16_bytes(name.len() + 3) + seq![0u8] + be16_bytes(
        name.len(),
    ) + name
}

/// A Client Hello record: `head` (the record header, the handshake header,
/// the version and the random: 43 bytes), then the session id, the cipher
/// suites, the compression methods and the extensions, each after its
/// length.
pub open spec fn client_hello_record(
    head: Seq<u8>,
    sid: Seq<u8>,
    ciphers: Seq<u8>,
    comps: Seq<u8>,
    exts: Seq<u8>,
) -> Seq<u8> {
    head + seq![sid.len() as u8] + sid + be16_bytes(ciphers.len()) + ciphers + seq![comps.len() as u8]
        + comps + be16_bytes(exts.len()) + exts
}

proof fn lemma_be16_bytes(n: nat)
    requires
        n < 65536,
    ensures
        be16(be16_bytes(n), 0) == n,
{
    assert(((n / 256) as u8) as nat == n / 256);
    assert(((n % 256) as u8) as nat == n % 256);
}

/// Law: a Client Hello whose first extension names the host `name` (UTF-8)
/// is read as naming `name`, whatever its session id, cipher suites,
/// compression methods and later extensions are.
pub proof fn law_sni_of_client_hello(
    head: Seq<u8>,
    sid: Seq<u8>,
    ciphers: Seq<u8>,
    comps: Seq<u8>,
    name: Seq<u8>,
    rest: Seq<u8>,
)
    requires
        head.len() == 43,
        head[0] == 0x16,
        head[5] == 0x01,
        sid.len() < 256,
        ciphers.len() < 65536,
        comps.len() < 256,
        sni_extension(name).len() + rest.len() < 65536,
        valid_utf8(name),
    ensures
        sni(client_hello_record(head, sid, ciphers, comps, sni_extension(name) + rest)) == Some(name),
{
    let n: int = name.len() as int;
    let ext = sni_extension(name);
    let exts = ext + rest;
    let b = client_hello_record(head, sid, ciphers, comps, exts);
    let x1 = head + seq![sid.len() as u8] + sid;
    let x2 = x1 + be16_bytes(ciphers.len()) + ciphers;
    let x3 = x2 + seq![comps.len() as u8] + comps;
    let x4 = x3 + be16_bytes(exts.len());
    assert(b == x4 + exts);
    let p1: int = 44 + sid.len() as int;
    let p2: int = p1 + 2 + ciphers.len();
    let p3: int = p2 + 1 + comps.len();
    let start: int = p3 + 2;
    assert(x1.len() == p1 && x2.len() == p2 && x3.len() == p3 && x4.len() == start);
    assert(b.len() == start + exts.len());
    assert(b[0] == head[0] && b[5] == head[5]);
    assert(b[43] == sid.len() as u8);
    assert((sid.len() as u8) as int == sid.len());
    lemma_be16_bytes(ciphers.len());
    assert(b[p1] == x2[p1] && x2[p1] == be16_bytes(ciphers.len())[0]);
    assert(b[p1 + 1] == x2[p1 + 1] && x2[p1 + 1] == be16_bytes(ciphers.len())[1]);
    assert(be16(b, p1) == ciphers.len());
    assert(b[p2] == x3[p2] && x3[p2] == comps.len() as u8);
    assert((comps.len() as u8) as int == comps.len());
    lemma_be16_bytes(exts.len());
    assert(b[p3] == x4[p3] && x4[p3] == be16_bytes(exts.len())[0]);
    assert(b[p3 + 1] == x4[p3 + 1] && x4[p3 + 1] == be16_bytes(exts.len())[1]);
    assert(be16(b, p3) == exts.len());
    assert(client_hello_extensions(b) == Some((start, start + exts.len())));
    // the extension itself
    assert forall|i: int| 0 <= i < ext.len() implies #[trigger] b[start + i] == ext[i] by {
        assert(b[start + i] == exts[i]);
    }
    lemma_be16_bytes(name.len() + 5);
    lemma_be16_bytes(name.len() + 3);
    lemma_be16_bytes(name.len());
    let e1 = seq![0u8, 0u8] + be16_bytes(name.len() + 5);
    let e2 = e1 + be16_bytes(name.len() + 3) + seq![0u8];
    let e3 = e2 + be16_bytes(name.len());
    assert(ext == e3 + name);
    assert(b[start] == ext[0] && ext[0] == 0u8);
    assert(b[start + 1] == ext[1] && ext[1] == 0u8);
    assert(b[start + 2] == ext[2] && ext[2] == be16_bytes(name.len() + 5)[0]);
    assert(b[start + 3] == ext[3] && ext[3] == be16_bytes(name.len() + 5)[1]);
    assert(be16(b, start) == 0);
    assert(be16(b, start + 2) == n + 5);
    let data: int = start + 4;
    let sni_end: int = data + n + 5;
    assert(b[data + 2] == ext[6] && ext[6] == 0u8);
    assert(b[data + 3] == ext[7] && ext[7] == be16_bytes(name.len())[0]);
    assert(b[data + 4] == ext[8] && ext[8] == be16_bytes(name.len())[1]);
    assert(be16(b, data + 3) == n);
    assert(b.subrange(data + 5, data + 5 + n) =~= name) by {
        assert forall|k: int| 0 <= k < n implies #[trigger] b.subrange(data + 5, data + 5 + n)[k]
            == name[k] by {
            assert(b[start + 9 + k] == ext[9 + k]);
            assert(ext[9 + k] == name[k]);
        }
    }
    assert(host_name_in_list(b, data + 2, sni_end) == Some(name));
}

/// `std::str::from_utf8`, made an owned string: `Some` exactly when the
/// bytes are UTF-8, holding the characters they encode.
#[verifier::external_body]
fn utf8_string(bytes: &[u8]) -> (r: Option<String>)
    ensures
        r is Some <==> valid_utf8(bytes@),
        r matches Some(s) ==> s@ == decode_utf8(bytes@),
{
    match std::str::from_utf8(bytes) {
        Ok(s) => Some(s.to_string()),
        Err(_) => None,
    }
}

fn be16_at(buf: &[u8], i: usize) -> (r: usize)
    requires
        i + 1 < buf@.len(),
    ensures
        r == be16(buf@, i as int),
        r < 65536,
{
    (buf[i] as usize) * 256 + (buf[i + 1] as usize)
}

fn host_name_in_list_exec(buf: &[u8], pos: usize, end: usize) -> (r: Option<String>)
    requires
        pos <= end <= buf@.len() <= isize::MAX,
    ensures
        r is Some <==> host_name_in_list(buf@, pos as int, end as int) is Some,
        r matches Some(s) ==> s@ == decode_utf8(host_name_in_list(buf@, pos as int, end as int)->0),
{
    let mut sp = pos;
    while sp <= end && end - sp >= 3
        invariant
            end <= buf@.len() <= isize::MAX,
            sp <= end + 65538,
            host_name_in_list(buf@, pos as int, end as int) == host_name_in_list(
                buf@,
                sp as int,
                end as int,
            ),
        decreases end + 65538 - sp,
    {
        let name_type = buf[sp];
        let name_len = be16_at(buf, sp + 1);
        let start = sp + 3;
        if name_type == 0 && start + name_len <= end {
            let name = slice_bytes(buf, start, start + name_len);
            match utf8_string(name.as_slice()) {
                Some(s) => {
                    return Some(s);
                },
                None => {},
            }
        }
        sp = start + name_len;
    }
    None
}

fn slice_bytes(s: &[u8], lo: usize, hi: usize) -> (r: Vec<u8>)
    requires
        lo <= hi <= s@.len(),
    ensures
        r@ == s@.subrange(lo as int, hi as int),
{
    let mut r: Vec<u8> = Vec::new();
    let mut k = lo;
    while k < hi
        invariant
            lo <= k <= hi <= s@.len(),
            r@ == s@.subrange(lo as int, k as int),
        decreases hi - k,
    {
        r.push(s[k]);
        assert(s@.subrange(lo as int, k + 1) == s@.subrange(lo as int, k as int).push(s@[k as int]));
        k = k + 1;
    }
    r
}

/// Reads the server name (SNI) out of a TLS Client Hello.
///
/// `None` where `buf` is no Client Hello record, where it is cut short before
/// its extensions end, or where no server name extension holds a UTF-8 host
/// name entry.
pub fn parse_sni(buf: &[u8]) -> (r: Option<String>)
    requires
        buf@.len() <= isize::MAX,
    ensures
        r is Some <==> sni(buf@) is Some,
        r matches Some(s) ==> s@ == decode_utf8(sni(buf@)->0),
{
    let n = buf.len();
    if n < 5 || buf[0] != 0x16 {
        return None;
    }
    if n < 9 || buf[5] != 0x01 {
        return None;
    }
    if n < 44 {
        return None;
    }
    let p1 = 44 + buf[43] as usize;
    if n < p1 + 2 {
        return None;
    }
    let p2 = p1 + 2 + be16_at(buf, p1);
    if n < p2 + 1 {
        return None;
    }
    let p3 = p2 + 1 + buf[p2] as usize;
    if n < p3 + 2 {
        return None;
    }
    let ext_end = p3 + 2 + be16_at(buf, p3);
    let mut pos = p3 + 2;
    if n < ext_end {
        return None;
    }
    assert(client_hello_extensions(buf@) == Some((pos as int, ext_end as int)));
    while pos <= ext_end && ext_end - pos >= 4
        invariant
            ext_end <= n == buf@.len() <= isize::MAX,
            pos <= ext_end + 65539,
            sni(buf@) == sni_in_extensions(buf@, pos as int, ext_end as int),
        decreases ext_end + 65539 - pos,
    {
        let ext_type = be16_at(buf, pos);
        let data_len = be16_at(buf, pos + 2);
        let data = pos + 4;
        if ext_type == 0 {
            let sni_end = data + data_len;
            if n < sni_end || data + 2 > sni_end {
                return None;
            }
            match host_name_in_list_exec(buf, data + 2, sni_end) {
                Some(s) => {
                    return Some(s);
                },
                None => {},
            }
        }
        pos = data + data_len;
    }
    None
}

/// The host that a relayed connection goes to: the server name of its Client
/// Hello, or `FALLBACK_HOST` where none can be read.
pub fn target_host(hello: &[u8]) -> (r: String)
    requires
        hello@.len() <= isize::MAX,
    ensures
        sni(hello@) matches Some(name) ==> r@ == decode_utf8(name),
        sni(hello@) is None ==> r@ == FALLBACK_HOST@,
{
    match parse_sni(hello) {
        Some(s) => s,
        None => FALLBACK_HOST.to_string(),
    }
}

/// The HTTP `CONNECT` request that opens a tunnel to `host` on port 443.
pub fn connect_request(host: &str) -> (r: String)
    ensures
        r@ == "CONNECT "@ + host@ + ":443 HTTP/1.1\r\nHost: "@ + host@ + ":443\r\n\r\n"@,
{
    let mut v: Vec<char> = Vec::new();
    push_str(&mut v, "CONNECT ");
    push_str(&mut v, host);
    push_str(&mut v, ":443 HTTP/1.1\r\nHost: ");
    push_str(&mut v, host);
    push_str(&mut v, ":443\r\n\r\n");
    string_from_chars(v.as_slice())
}

/// Whether `b` holds an empty line, `\r\n\r\n`, that ends the response head.
pub open spec fn has_head_end(b: Seq<u8>) -> bool {
    exists|i: int|
        0 <= i && i + 4 <= b.len() && #[trigger] b[i] == 13 && b[i + 1] == 10 && b[i + 2] == 13
            && b[i + 3] == 10
}

/// Whether the bytes read so far hold the end of the proxy's response head.
pub fn head_complete(buf: &[u8]) -> (r: bool)
    ensures
        r == has_head_end(buf@),
{
    let n = buf.len();
    let mut i: usize = 0;
    while i < n && n - i >= 4
        invariant
            n == buf@.len(),
            i <= n,
            forall|j: int|
                0 <= j < i && j + 4 <= n ==> !(#[trigger] buf@[j] == 13 && buf@[j + 1] == 10
                    && buf@[j + 2] == 13 && buf@[j + 3] == 10),
        decreases n - i,
    {
        if buf[i] == 13 && buf[i + 1] == 10 && buf[i + 2] == 13 && buf[i + 3] == 10 {
            return true;
        }
        i = i + 1;
    }
    false
}

/// How many bytes of the proxy's response head are read at most.
pub const PROXY_REPLY_LIMIT: usize = 1024;

/// Where reading the proxy's response stands after a read.
#[derive(PartialEq, Eq, Structural, Clone, Copy, Debug)]
pub enum ReplyProgress {
    /// The head is complete: check the status.
    Complete,
    /// Read on.
    More,
    /// The proxy closed the connection before the head ended.
    ClosedEarly,
    /// The head does not fit in `PROXY_REPLY_LIMIT` bytes.
    TooLong,
}

/// Where reading the proxy's response stands: `received` holds all bytes
/// read so far, `last_read` how many the last read returned.
pub fn reply_progress(received: &[u8], last_read: usize) -> (r: ReplyProgress)
    ensures
        last_read == 0 ==> r == ReplyProgress::ClosedEarly,
        last_read > 0 && has_head_end(received@) ==> r == ReplyProgress::Complete,
        last_read > 0 && !has_head_end(received@) && received@.len() >= PROXY_REPLY_LIMIT ==> r
            == ReplyProgress::TooLong,
        last_read > 0 && !has_head_end(received@) && received@.len() < PROXY_REPLY_LIMIT ==> r
            == ReplyProgress::More,
{
    if last_read == 0 {
        ReplyProgress::ClosedEarly
    } else if head_complete(received) {
        ReplyProgress::Complete
    } else if received.len() >= PROXY_REPLY_LIMIT {
        ReplyProgress::TooLong
    } else {
        ReplyProgress::More
    }
}

/// Whether `b` starts with the bytes of the ASCII text `p`.
pub open spec fn bytes_start_with(b: Seq<u8>, p: Seq<char>) -> bool {
    p.len() <= b.len() && forall|i: int| 0 <= i < p.len() ==> b[i] as u32 == #[trigger] p[i] as u32
}

fn bytes_start_with_exec(b: &[u8], p: &str) -> (r: bool)
    ensures
        r == bytes_start_with(b@, p@),
{
    let pc = chars_of(p);
    if pc.len() > b.len() {
        return false;
    }
    let mut i: usize = 0;
    while i < pc.len()
        invariant
            i <= pc@.len() <= b@.len(),
            pc@ == p@,
            forall|j: int| 0 <= j < i ==> b@[j] as u32 == #[trigger] pc@[j] as u32,
        decreases pc.len() - i,
    {
        if b[i] as u32 != pc[i] as u32 {
            return false;
        }
        i = i + 1;
    }
    true
}

/// Whether the proxy accepted the tunnel: its response starts with
/// `HTTP/1.1 200` or `HTTP/1.0 200`. (Tested on the raw bytes; on these ASCII
/// prefixes this agrees with testing the response decoded lossily.)
pub fn proxy_accepted(resp: &[u8]) -> (r: bool)
    ensures
        r == (bytes_start_with(resp@, "HTTP/1.1 200"@) || bytes_start_with(resp@, "HTTP/1.0 200"@)),
{
    bytes_start_with_exec(resp, "HTTP/1.1 200") || bytes_start_with_exec(resp, "HTTP/1.0 200")
}

/// The `host:port` part of an HTTP proxy URL, which must start with
/// `http://`.
pub fn proxy_address(url: &str) -> (r: Result<String, String>)
    ensures
        r is Ok <==> crate::text::has_prefix(url@, "http://"@),
        r matches Ok(a) ==> a@ == url@.skip(7),
        r matches Err(e) ==> e@ == "proxy_url 必须 http:// 开头"@,
{
    proof {
        reveal_strlit("http://");
    }
    let cs = chars_of(url);
    if starts_with_str(cs.as_slice(), "http://") {
        let rest = slice_chars(cs.as_slice(), 7, cs.len());
        Ok(string_from_chars(rest.as_slice()))
    } else {
        Err("proxy_url 必须 http:// 开头".to_string())
    }
}

} // verus!
