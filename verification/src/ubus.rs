//! The ubus wire format used to publish the bridge's status on OpenWrt:
//! message headers, blob attributes, the object registration and the status
//! reply.

use vstd::prelude::*;
use vstd::string::StringSliceAdditionalSpecFns;

verus! {

broadcast use vstd::string::group_string_axioms;

/// Message type: greeting.
pub const UBUS_MSG_HELLO: u8 = 0;

/// Message type: data reply.
pub const UBUS_MSG_DATA: u8 = 2;

/// Message type: method call.
pub const UBUS_MSG_INVOKE: u8 = 5;

/// Message type: object registration.
pub const UBUS_MSG_ADD_OBJECT: u8 = 6;

/// Big-endian bytes of a 16-bit number.
pub open spec fn be16_bytes(v: u16) -> Seq<u8> {
    seq![(v / 256) as u8, (v % 256) as u8]
}

/// Big-endian bytes of a 32-bit number.
pub open spec fn be32_bytes(v: u32) -> Seq<u8> {
    seq![(v / 16777216) as u8, ((v / 65536) % 256) as u8, ((v / 256) % 256) as u8, (v % 256) as u8]
}

fn push_be16(out: &mut Vec<u8>, v: u16)
    ensures
        final(out)@ == old(out)@ + be16_bytes(v),
{
    out.push((v / 256) as u8);
    out.push((v % 256) as u8);
    assert(final(out)@ =~= old(out)@ + be16_bytes(v));
}

fn push_be32(out: &mut Vec<u8>, v: u32)
    ensures
        final(out)@ == old(out)@ + be32_bytes(v),
{
    out.push((v / 16777216) as u8);
    out.push(((v / 65536) % 256) as u8);
    out.push(((v / 256) % 256) as u8);
    out.push((v % 256) as u8);
    assert(final(out)@ =~= old(out)@ + be32_bytes(v));
}

fn push_bytes(out: &mut Vec<u8>, data: &[u8])
    ensures
        final(out)@ == old(out)@ + data@,
{
    let ghost start = out@;
    for i in 0..data.len()
        invariant
            out@ == start + data@.take(i as int),
    {
        out.push(data[i]);
        assert(data@.take(i + 1) == data@.take(i as int).push(data@[i as int]));
    }
    assert(data@.take(data@.len() as int) == data@);
}

/// The 8-byte message header: a zero byte, the type, the sequence number
/// and the peer id, both big-endian.
pub open spec fn header_bytes(msg_type: u8, seq: u16, peer: u32) -> Seq<u8> {
    seq![0u8, msg_type] + be16_bytes(seq) + be32_bytes(peer)
}

/// The message header.
pub fn hdr(msg_type: u8, seq: u16, peer: u32) -> (r: Vec<u8>)
    ensures
        r@ == header_bytes(msg_type, seq, peer),
{
    let mut b: Vec<u8> = Vec::new();
    b.push(0);
    b.push(msg_type);
    push_be16(&mut b, seq);
    push_be32(&mut b, peer);
    assert(b@ =~= header_bytes(msg_type, seq, peer));
    b
}

/// The id-and-length word of a blob attribute: the id in the top byte and
/// the total length (4 + the data's, taken modulo 2^32) below, combined bit
/// by bit.
pub open spec fn blob_word(id: u32, data_len: nat) -> u32 {
    (id << 24u32) | (((4 + data_len) % 0x1_0000_0000) as u32)
}

/// A blob attribute: its id-and-length word, big-endian, then the data.
pub open spec fn blob_bytes(id: u32, data: Seq<u8>) -> Seq<u8> {
    be32_bytes(blob_word(id, data.len())) + data
}

/// Encodes a blob attribute.
pub fn blob_attr(id: u32, data: &[u8]) -> (r: Vec<u8>)
    ensures
        r@ == blob_bytes(id, data@),
{
    let low: u64 = (data.len() as u64) % 0x1_0000_0000;
    let total: u32 = ((low + 4) % 0x1_0000_0000) as u32;
    proof {
        let n = data@.len() as int;
        assert(((n % 0x1_0000_0000) + 4) % 0x1_0000_0000 == (4 + n) % 0x1_0000_0000) by (nonlinear_arith)
            requires
                n >= 0,
        ;
    }
    let word = (id << 24u32) | total;
    let mut v: Vec<u8> = Vec::new();
    push_be32(&mut v, word);
    push_bytes(&mut v, data);
    v
}

/// The method table entry for the `status` method, with no arguments.
pub open spec fn status_method_bytes() -> Seq<u8> {
    let inner = seq![0x00u8, 0x06u8] + "status"@.map_values(|c: char| c as u8) + seq![0u8, 0u8, 0u8, 0u8];
    be32_bytes((0x8000_0000u32 | (2u32 << 24u32) | (4 + inner.len()) as u32) as u32) + inner
}

/// The body of the object registration: the object path `pslinkb` (with its
/// terminating zero byte) and the signature with the `status` method, in one
/// blob attribute.
pub open spec fn add_object_bytes() -> Seq<u8> {
    let objpath = blob_bytes(2, "pslinkb"@.map_values(|c: char| c as u8) + seq![0u8]);
    let sig = blob_bytes(6, status_method_bytes());
    blob_bytes(0, objpath + sig)
}

fn ascii_bytes(s: &str) -> (r: Vec<u8>)
    requires
        s.is_ascii(),
    ensures
        r@ == s@.map_values(|c: char| c as u8),
{
    broadcast use vstd::string::is_ascii_spec_bytes;

    let b = s.as_bytes();
    let mut v: Vec<u8> = Vec::new();
    push_bytes(&mut v, b);
    assert(v@ =~= s@.map_values(|c: char| c as u8));
    v
}

/// The body that registers the `pslinkb` object.
pub fn add_object_body() -> (r: Vec<u8>)
    ensures
        r@ == add_object_bytes(),
{
    proof {
        reveal_strlit("status");
        reveal_strlit("pslinkb");
    }
    let mut inner: Vec<u8> = Vec::new();
    inner.push(0x00);
    inner.push(0x06);
    let name = ascii_bytes("status");
    push_bytes(&mut inner, name.as_slice());
    inner.push(0);
    inner.push(0);
    inner.push(0);
    inner.push(0);
    assert(inner@ =~= seq![0x00u8, 0x06u8] + "status"@.map_values(|c: char| c as u8) + seq![0u8, 0u8, 0u8, 0u8]);
    assert(inner@.len() == 12);
    let tag: u32 = 0x8000_0000u32 | (2u32 << 24u32) | (4 + 12);
    let mut method: Vec<u8> = Vec::new();
    push_be32(&mut method, tag);
    push_bytes(&mut method, inner.as_slice());
    let mut path = ascii_bytes("pslinkb");
    path.push(0);
    let objpath = blob_attr(2, path.as_slice());
    let sig = blob_attr(6, method.as_slice());
    let mut data: Vec<u8> = Vec::new();
    push_bytes(&mut data, objpath.as_slice());
    push_bytes(&mut data, sig.as_slice());
    blob_attr(0, data.as_slice())
}

// ---------------------------------------------------------------------------
// Reading frames
// ---------------------------------------------------------------------------

/// Big-endian 32-bit number at `b[i..i + 4]`.
pub open spec fn be32_at(b: Seq<u8>, i: int) -> u32 {
    (b[i] as int * 16777216 + b[i + 1] as int * 65536 + b[i + 2] as int * 256 + b[i + 3] as int) as u32
}

fn read_be32(b: &[u8], i: usize) -> (r: u32)
    requires
        i + 4 <= b@.len(),
    ensures
        r == be32_at(b@, i as int),
{
    assert(b@.len() == b.len());
    let x: u64 = (b[i] as u64) * 16777216 + (b[i + 1] as u64) * 65536 + (b[i + 2] as u64) * 256
        + (b[i + 3] as u64);
    x as u32
}

/// The type, sequence number and peer of an 8-byte message header.
pub fn frame_header(h: &[u8]) -> (r: (u8, u16, u32))
    requires
        h@.len() == 8,
    ensures
        r.0 == h@[1],
        r.1 == h@[2] as int * 256 + h@[3] as int,
        r.2 == be32_at(h@, 4),
{
    let seq: u32 = (h[2] as u32) * 256 + (h[3] as u32);
    (h[1], seq as u16, read_be32(h, 4))
}

/// The length of a frame's body after its first attribute word: the word's
/// low 24 bits, less the word itself (none when shorter).
pub fn frame_body_len(tag: &[u8]) -> (r: usize)
    requires
        tag@.len() == 4,
    ensures
        r == (if be32_at(tag@, 0) % 0x100_0000 >= 4 { be32_at(tag@, 0) % 0x100_0000 - 4 } else { 0 }),
{
    let t = read_be32(tag, 0);
    let dlen = t & 0x00FF_FFFF;
    assert(t & 0x00FF_FFFF == t % 0x100_0000) by (bit_vector);
    if dlen >= 4 {
        (dlen - 4) as usize
    } else {
        0
    }
}

/// The object id that a method call's body names: scanning its attributes,
/// the 4-byte value of the first one with id 3 and length 8; 0 where the
/// scan leaves the body without one. `None` where the scan would never end
/// (an attribute of length 0 before one is found).
pub open spec fn objid_scan(b: Seq<u8>, pos: int) -> Option<u32>
    decreases (if pos <= b.len() { b.len() - pos } else { 0 }),
{
    if pos < 0 || pos + 8 > b.len() {
        Some(0)
    } else {
        let tag = be32_at(b, pos);
        let aid = (tag / 0x100_0000) % 128;
        let alen = tag % 0x100_0000;
        if aid == 3 && alen == 8 {
            Some(be32_at(b, pos + 4))
        } else if alen == 0 {
            None
        } else if pos + alen > b.len() {
            Some(0)
        } else {
            objid_scan(b, pos + alen)
        }
    }
}

/// Whether scanning a method call's body for its object id ends.
pub fn objid_scan_ends(body: &[u8]) -> (r: bool)
    ensures
        r == objid_scan(body@, 0) is Some,
{
    let mut pos: usize = 0;
    while pos < body.len() && body.len() - pos >= 8
        invariant
            pos <= body@.len(),
            objid_scan(body@, 0) == objid_scan(body@, pos as int),
        decreases body.len() - pos,
    {
        let tag = read_be32(body, pos);
        let aid = (tag >> 24u32) & 0x7F;
        let alen = tag & 0x00FF_FFFF;
        assert(tag & 0x00FF_FFFF == tag % 0x100_0000) by (bit_vector);
        assert((tag >> 24u32) & 0x7F == (tag / 0x100_0000) % 128) by (bit_vector);
        if aid == 3 && alen == 8 {
            return true;
        }
        if alen == 0 {
            return false;
        }
        if alen as usize > body.len() - pos {
            return true;
        }
        pos = pos + alen as usize;
    }
    true
}

/// The object id that a method call's body names (see `objid_scan`).
pub fn find_objid(body: &[u8]) -> (r: u32)
    requires
        objid_scan(body@, 0) is Some,
    ensures
        r == objid_scan(body@, 0)->0,
{
    let mut pos: usize = 0;
    while pos < body.len() && body.len() - pos >= 8
        invariant
            pos <= body@.len(),
            objid_scan(body@, 0) == objid_scan(body@, pos as int),
            objid_scan(body@, 0) is Some,
        decreases body.len() - pos,
    {
        let tag = read_be32(body, pos);
        let aid = (tag >> 24u32) & 0x7F;
        let alen = tag & 0x00FF_FFFF;
        assert(tag & 0x00FF_FFFF == tag % 0x100_0000) by (bit_vector);
        assert((tag >> 24u32) & 0x7F == (tag / 0x100_0000) % 128) by (bit_vector);
        if aid == 3 && alen == 8 {
            return read_be32(body, pos + 4);
        }
        if alen as usize > body.len() - pos {
            return 0;
        }
        pos = pos + alen as usize;
    }
    0
}

// ---------------------------------------------------------------------------
// The status reply
// ---------------------------------------------------------------------------

/// `n` rounded up to a multiple of four.
pub open spec fn pad4(n: int) -> int {
    ((n + 3) / 4) * 4
}

/// `n` zero bytes.
pub open spec fn zeros(n: int) -> Seq<u8> {
    Seq::new(n as nat, |i: int| 0u8)
}

/// A blobmsg string field: its tag word (extended, type 3, total length),
/// the name's length, the name padded to four bytes, then the value with a
/// terminating zero padded to four bytes.
pub open spec fn field_bytes(name: Seq<u8>, val: Seq<u8>) -> Seq<u8> {
    let np = pad4(name.len() as int);
    let vp = pad4(val.len() as int + 1);
    let total = 6 + np + vp;
    be32_bytes((0x8000_0000u32 | (3u32 << 24u32) | ((total % 0x1_0000_0000) as u32)) as u32)
        + be16_bytes((name.len() % 65536) as u16) + name + zeros(np - name.len()) + val + seq![0u8]
        + zeros(vp - val.len() - 1)
}

fn push_zeros(out: &mut Vec<u8>, n: usize)
    ensures
        final(out)@ == old(out)@ + zeros(n as int),
{
    let ghost start = out@;
    for i in 0..n
        invariant
            out@ == start + zeros(i as int),
    {
        out.push(0);
        assert(zeros(i + 1) == zeros(i as int).push(0u8));
    }
}

/// Encodes one string field of the status table.
pub fn field(name: &str, val: &str) -> (r: Vec<u8>)
    ensures
        r@ == field_bytes(name.spec_bytes(), val.spec_bytes()),
{
    let nb = name.as_bytes();
    let vb = val.as_bytes();
    let nl = nb.len() as u128;
    let vl = vb.len() as u128;
    let np = ((nl + 3) / 4) * 4;
    let vp = ((vl + 1 + 3) / 4) * 4;
    let total = 4 + 2 + np + vp;
    let tag: u32 = 0x8000_0000u32 | (3u32 << 24u32) | ((total % 0x1_0000_0000) as u32);
    let mut v: Vec<u8> = Vec::new();
    push_be32(&mut v, tag);
    push_be16(&mut v, (nb.len() % 65536) as u16);
    push_bytes(&mut v, nb);
    push_zeros(&mut v, (np - nl) as usize);
    push_bytes(&mut v, vb);
    v.push(0);
    push_zeros(&mut v, (vp - vl - 1) as usize);
    assert(v@ =~= field_bytes(name.spec_bytes(), val.spec_bytes()));
    v
}

/// The reply to a `status` call: the object id and the status table with
/// the fields `state`, `user`, `rtmp`, `error` and `qr_url`, wrapped in one
/// attribute.
pub open spec fn status_reply_bytes(oid: u32, state: Seq<u8>, user: Seq<u8>, rtmp: Seq<u8>, error: Seq<u8>, qr_url: Seq<u8>) -> Seq<u8> {
    let tbl = field_bytes("state".spec_bytes(), state) + field_bytes(
        "user".spec_bytes(),
        user,
    ) + field_bytes("rtmp".spec_bytes(), rtmp) + field_bytes(
        "error".spec_bytes(),
        error,
    ) + field_bytes("qr_url".spec_bytes(), qr_url);
    blob_bytes(0, blob_bytes(3, be32_bytes(oid)) + blob_bytes(7, tbl))
}

/// The reply to a `status` call (see `status_reply_bytes`).
pub fn status_reply(oid: u32, state: &str, user: &str, rtmp: &str, error: &str, qr_url: &str) -> (r: Vec<u8>)
    ensures
        r@ == status_reply_bytes(oid, state.spec_bytes(), user.spec_bytes(), rtmp.spec_bytes(), error.spec_bytes(), qr_url.spec_bytes()),
{
    let mut tbl: Vec<u8> = Vec::new();
    let f = field("state", state);
    push_bytes(&mut tbl, f.as_slice());
    let f = field("user", user);
    push_bytes(&mut tbl, f.as_slice());
    let f = field("rtmp", rtmp);
    push_bytes(&mut tbl, f.as_slice());
    let f = field("error", error);
    push_bytes(&mut tbl, f.as_slice());
    let f = field("qr_url", qr_url);
    push_bytes(&mut tbl, f.as_slice());
    let mut oid_bytes: Vec<u8> = Vec::new();
    push_be32(&mut oid_bytes, oid);
    let a = blob_attr(3, oid_bytes.as_slice());
    let b = blob_attr(7, tbl.as_slice());
    let mut content: Vec<u8> = Vec::new();
    push_bytes(&mut content, a.as_slice());
    push_bytes(&mut content, b.as_slice());
    blob_attr(0, content.as_slice())
}

} // verus!
