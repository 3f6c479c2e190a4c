//! The DNS side: reading IPv4 addresses, the upstream resolver from
//! `resolv.conf`, which names are redirected to this machine, and what the
//! DNS proxy answers to each query.
//!
//! An IPv4 address is held as a `u32` in network order.

use vstd::prelude::*;
use hickory_proto::op::{Message, MessageType, OpCode, Query, ResponseCode};
use hickory_proto::rr::{DNSClass, Name, RData, Record, RecordType};
use hickory_proto::rr::rdata::A;
use hickory_proto::serialize::binary::{BinDecodable, BinEncodable};

use crate::text::{
    all_digits, chars_of, digits_value, has_prefix, has_suffix, is_digit, parse_digits, split,
    split_chars, split_once, split_once_chars, split_whitespace_chars, starts_with_str, ends_with,
    chars_eq, words, trim_end_char, string_from_chars,
};

verus! {

broadcast use vstd::string::group_string_axioms;

/// One part of a dotted IPv4 address as `Ipv4Addr::from_str` reads it: one
/// to three decimal digits, no leading zero unless the part is `0`, at most
/// 255.
pub open spec fn octet_text(p: Seq<char>) -> bool {
    1 <= p.len() <= 3 && all_digits(p) && !(p.len() > 1 && p[0] == '0') && digits_value(p) <= 255
}

/// The address that dotted-decimal text denotes (`Ipv4Addr::from_str`):
/// exactly four parts separated by dots.
pub open spec fn ipv4_text(s: Seq<char>) -> Option<u32> {
    let parts = split(s, '.');
    if parts.len() == 4 && octet_text(parts[0]) && octet_text(parts[1]) && octet_text(parts[2])
        && octet_text(parts[3]) {
        Some(
            (digits_value(parts[0]) * 16777216 + digits_value(parts[1]) * 65536 + digits_value(
                parts[2],
            ) * 256 + digits_value(parts[3])) as u32,
        )
    } else {
        None
    }
}

fn octet(p: &[char]) -> (r: Option<u64>)
    ensures
        r is Some <==> octet_text(p@),
        r matches Some(v) ==> v == digits_value(p@) && v <= 255,
{
    if p.len() < 1 || p.len() > 3 {
        return None;
    }
    if p.len() > 1 && p[0] == '0' {
        return None;
    }
    parse_digits(p, 255)
}

/// Reads a dotted-decimal IPv4 address.
pub fn parse_ipv4(s: &[char]) -> (r: Option<u32>)
    ensures
        r == ipv4_text(s@),
{
    let parts = split_chars(s, '.');
    if parts.len() != 4 {
        return None;
    }
    let a = octet(parts[0].as_slice());
    let b = octet(parts[1].as_slice());
    let c = octet(parts[2].as_slice());
    let d = octet(parts[3].as_slice());
    match (a, b, c, d) {
        (Some(a), Some(b), Some(c), Some(d)) => {
            Some((a * 16777216 + b * 65536 + c * 256 + d) as u32)
        },
        _ => None,
    }
}

/// `u16::from_str`: an optional `+`, then decimal digits, at most 65535.
pub open spec fn u16_text(s: Seq<char>) -> Option<u16> {
    let t = if s.len() > 0 && s[0] == '+' {
        s.drop_first()
    } else {
        s
    };
    if t.len() > 0 && all_digits(t) && digits_value(t) <= 65535 {
        Some(digits_value(t) as u16)
    } else {
        None
    }
}

/// Reads a port number (`u16::from_str`).
pub fn parse_u16(s: &[char]) -> (r: Option<u16>)
    ensures
        r == u16_text(s@),
{
    let t = if s.len() > 0 && s[0] == '+' {
        crate::text::slice_chars(s, 1, s.len())
    } else {
        crate::text::slice_chars(s, 0, s.len())
    };
    assert(t@ == (if s@.len() > 0 && s@[0] == '+' { s@.drop_first() } else { s@ }));
    match parse_digits(t.as_slice(), 65535) {
        Some(v) => Some(v as u16),
        None => None,
    }
}

/// The DNS server that `--dns` names: `ip:port`, or an IP alone meaning
/// port 53; `None` where it does not read as such.
pub open spec fn dns_override_text(s: Seq<char>) -> Option<(u32, u16)> {
    match split_once(s, ':') {
        Some((ip, port)) => match (ipv4_text(ip), u16_text(port)) {
            (Some(a), Some(p)) => Some((a, p)),
            _ => None,
        },
        None => match ipv4_text(s) {
            Some(a) => Some((a, 53u16)),
            None => None,
        },
    }
}

/// Reads the DNS server given on the command line, if one is.
pub fn parse_dns_override(dns: Option<&str>) -> (r: Option<(u32, u16)>)
    ensures
        dns is None ==> r is None,
        dns matches Some(s) ==> r == dns_override_text(s@),
{
    let input = match dns {
        Some(s) => s,
        None => {
            return None;
        },
    };
    let cs = chars_of(input);
    match split_once_chars(cs.as_slice(), ':') {
        Some((ip, port)) => {
            match (parse_ipv4(ip.as_slice()), parse_u16(port.as_slice())) {
                (Some(a), Some(p)) => Some((a, p)),
                _ => None,
            }
        },
        None => match parse_ipv4(cs.as_slice()) {
            Some(a) => Some((a, 53)),
            None => None,
        },
    }
}

// ---------------------------------------------------------------------------
// The upstream resolver
// ---------------------------------------------------------------------------

/// The first `nameserver` line whose second word is an IPv4 address, over
/// the lines of `resolv.conf`.
pub open spec fn resolv_nameserver(lines: Seq<Seq<char>>) -> Option<u32>
    decreases lines.len(),
{
    if lines.len() == 0 {
        None
    } else {
        let l = lines[0];
        let ws = words(l);
        if has_prefix(l, "nameserver"@) && ws.len() > 1 && ipv4_text(ws[1]) is Some {
            ipv4_text(ws[1])
        } else {
            resolv_nameserver(lines.drop_first())
        }
    }
}

/// The resolver that `resolv.conf` names first (its lines split at `\n`;
/// a `\r` ending one is whitespace to the words of the line).
pub fn nameserver_from_resolv_conf(content: &str) -> (r: Option<u32>)
    ensures
        r == resolv_nameserver(split(content@, '\n')),
{
    let cs = chars_of(content);
    let lines = split_chars(cs.as_slice(), '\n');
    let ghost ls = split(content@, '\n');
    assert(ls.skip(0) == ls);
    for i in 0..lines.len()
        invariant
            ls == split(content@, '\n'),
            lines@.len() == ls.len(),
            forall|k: int| 0 <= k < lines@.len() ==> #[trigger] lines@[k]@ == ls[k],
            resolv_nameserver(ls) == resolv_nameserver(ls.skip(i as int)),
    {
        assert(ls.skip(i as int).drop_first() == ls.skip(i + 1));
        assert(ls.skip(i as int)[0] == lines@[i as int]@);
        let line = &lines[i];
        if starts_with_str(line.as_slice(), "nameserver") {
            let ws = split_whitespace_chars(line.as_slice());
            if ws.len() > 1 {
                let ip = parse_ipv4(ws[1].as_slice());
                if ip.is_some() {
                    return ip;
                }
            }
        }
    }
    assert(ls.skip(lines@.len() as int).len() == 0);
    None
}

/// The resolver used when none can be found: 114.114.114.114.
pub const FALLBACK_RESOLVER: u32 = 0x7272_7272;

// ---------------------------------------------------------------------------
// Redirected names
// ---------------------------------------------------------------------------

/// Whether `name` is `domain` or one of its subdomains.
pub open spec fn in_domain(name: Seq<char>, domain: Seq<char>) -> bool {
    name == domain || has_suffix(name, seq!['.'] + domain)
}

fn in_domain_exec(name: &[char], domain: &[char]) -> (r: bool)
    ensures
        r == in_domain(name@, domain@),
{
    if chars_eq(name, domain) {
        return true;
    }
    let mut dotted: Vec<char> = Vec::new();
    dotted.push('.');
    crate::text::push_all(&mut dotted, domain);
    assert(dotted@ =~= seq!['.'] + domain@);
    ends_with(name, dotted.as_slice())
}

/// Whether `name` lies in one of the domains.
pub open spec fn in_any_domain(name: Seq<char>, domains: Seq<Seq<char>>) -> bool {
    exists|i: int| 0 <= i < domains.len() && in_domain(name, #[trigger] domains[i])
}

/// Whether `name` lies in one of the domains.
pub fn should_redirect(name: &[char], domains: &Vec<Vec<char>>) -> (r: bool)
    ensures
        r == in_any_domain(name@, domains@.map_values(|d: Vec<char>| d@)),
{
    let ghost ds = domains@.map_values(|d: Vec<char>| d@);
    for i in 0..domains.len()
        invariant
            ds == domains@.map_values(|d: Vec<char>| d@),
            forall|j: int| 0 <= j < i ==> !in_domain(name@, #[trigger] ds[j]),
    {
        if in_domain_exec(name, domains[i].as_slice()) {
            assert(in_domain(name@, ds[i as int]));
            return true;
        }
    }
    false
}

/// Whether the name belongs to the console's network, which tells where
/// the console is: `playstation.net` or `playstation.com`, or a subdomain.
pub open spec fn is_console_name(name: Seq<char>) -> bool {
    in_domain(name, "playstation.net"@) || in_domain(name, "playstation.com"@)
}

/// A queried name without its trailing dots.
pub open spec fn bare_name(name: Seq<char>) -> Seq<char> {
    trim_end_char(name, '.')
}

// ---------------------------------------------------------------------------
// DNS messages
// ---------------------------------------------------------------------------

/// Record type code of an IPv4 address record.
pub const RECORD_A: u16 = 1;

/// Record class code of the Internet class.
pub const CLASS_IN: u16 = 1;

/// Operation code of a standard query.
pub const OP_QUERY: u8 = 0;

/// Response code of an answer without error.
pub const RCODE_NO_ERROR: u16 = 0;

/// The id of a DNS message and its first question — the question's name as
/// text, its record type and its class — as `hickory_proto` decodes the
/// message (`None` where the bytes do not decode or hold no question).
pub uninterp spec fn dns_first_question(msg: Seq<u8>) -> Option<(u16, Seq<char>, u16, u16)>;

/// The bytes `hickory_proto` encodes for a response to the message `request`:
/// message id `id`, operation code `op_code`, the given authoritative and
/// recursion-available flags and response code, the request's first
/// question as it was decoded, and one address record for that question's
/// name with time to live `ttl` and address `ip`; `None` where the request
/// does not decode, holds no question, or encoding fails.
pub uninterp spec fn dns_echo_encoding(
    request: Seq<u8>,
    id: u16,
    op_code: u8,
    authoritative: bool,
    recursion_available: bool,
    response_code: u16,
    ttl: u32,
    ip: u32,
) -> Option<Seq<u8>>;

/// The bytes `hickory_proto` encodes for a query with message id `id`,
/// operation code `op_code` and one question (`name`, `record_type`,
/// `query_class`); `None` where `name` is no valid domain name or encoding
/// fails.
pub uninterp spec fn dns_query_encoding(
    id: u16,
    op_code: u8,
    name: Seq<char>,
    record_type: u16,
    query_class: u16,
) -> Option<Seq<u8>>;

/// A decoded question.
pub struct DnsQuestion {
    pub id: u16,
    pub name: String,
    pub record_type: u16,
    pub query_class: u16,
}

/// `Message::from_bytes`, then the message's id and its first question's
/// name (`Name::to_utf8`), type and class.
#[verifier::external_body]
fn decode_first_question(msg: &[u8]) -> (r: Option<DnsQuestion>)
    ensures
        r is Some <==> dns_first_question(msg@) is Some,
        r matches Some(q) ==> dns_first_question(msg@) == Some((q.id, q.name@, q.record_type, q.query_class)),
{
    let m = Message::from_bytes(msg).ok()?;
    let q = m.queries.first()?;
    Some(DnsQuestion {
        id: m.metadata.id,
        name: q.name().to_utf8(),
        record_type: u16::from(q.query_type()),
        query_class: u16::from(q.query_class()),
    })
}

/// `Message::from_bytes` on `request` and a clone of its first question;
/// `Message::response` with `id` and `OpCode::from_u8(op_code)`, the flags
/// and `ResponseCode::from(response_code)` (from `u16`) set in its
/// metadata; that question and one record `Record::from_rdata(its name,
/// ttl, RData::A(ip))` added; then `Message::to_bytes`.
#[verifier::external_body]
fn encode_echo_response(
    request: &[u8],
    id: u16,
    op_code: u8,
    authoritative: bool,
    recursion_available: bool,
    response_code: u16,
    ttl: u32,
    ip: u32,
) -> (r: Option<Vec<u8>>)
    ensures
        r is Some <==> dns_echo_encoding(
            request@, id, op_code, authoritative, recursion_available, response_code, ttl, ip,
        ) is Some,
        r matches Some(b) ==> dns_echo_encoding(
            request@, id, op_code, authoritative, recursion_available, response_code, ttl, ip,
        ) == Some(b@),
{
    let query = Message::from_bytes(request).ok()?.queries.first()?.clone();
    let mut resp = Message::response(id, OpCode::from_u8(op_code));
    resp.metadata.authoritative = authoritative;
    resp.metadata.recursion_available = recursion_available;
    resp.metadata.response_code = <ResponseCode as From<u16>>::from(response_code);
    let name = query.name().clone();
    resp.queries.push(query);
    resp.answers.push(Record::from_rdata(name, ttl, RData::A(A(ip.into()))));
    resp.to_bytes().ok()
}

/// `Message::new` for a query (`MessageType::Query`) with `id` and
/// `OpCode::from_u8(op_code)`, one question (`Name::from_utf8`,
/// `RecordType::from`, `DNSClass::from`) added, then `Message::to_bytes`.
#[verifier::external_body]
fn encode_query(id: u16, op_code: u8, name: &str, record_type: u16, query_class: u16) -> (r: Option<Vec<u8>>)
    ensures
        r is Some <==> dns_query_encoding(id, op_code, name@, record_type, query_class) is Some,
        r matches Some(b) ==> dns_query_encoding(id, op_code, name@, record_type, query_class) == Some(b@),
{
    let name = Name::from_utf8(name).ok()?;
    let mut query = Message::new(id, MessageType::Query, OpCode::from_u8(op_code));
    let mut q = Query::query(name, RecordType::from(record_type));
    q.set_query_class(DNSClass::from(query_class));
    query.add_query(q);
    query.to_bytes().ok()
}

/// The query that tests whether the upstream resolver answers: id 0x1234,
/// a standard query for the address of `jd.com` in the Internet class.
pub fn probe_query() -> (r: Option<Vec<u8>>)
    ensures
        r is Some <==> dns_query_encoding(0x1234, OP_QUERY, "jd.com"@, RECORD_A, CLASS_IN) is Some,
        r matches Some(b) ==> dns_query_encoding(0x1234, OP_QUERY, "jd.com"@, RECORD_A, CLASS_IN) == Some(b@),
{
    encode_query(0x1234, OP_QUERY, "jd.com", RECORD_A, CLASS_IN)
}

/// What the proxy does with a query.
pub enum DnsAction {
    /// Nothing: the query does not decode, has no question, or its answer
    /// could not be encoded.
    Ignore,
    /// Send these bytes back.
    Answer(Vec<u8>),
    /// Pass the query to the upstream resolver and its answer back.
    Forward,
}

/// What the proxy does with one query, and the console's address where the
/// query shows it.
pub struct DnsDecision {
    pub console: Option<u32>,
    pub action: DnsAction,
}

/// The proxy's handling of a query from `source` (an IPv4 address, where it
/// is one): a query for an address in a redirected domain is answered with
/// a response that keeps the request's id, is a standard query operation,
/// authoritative, recursion available and without error (`NOERROR`),
/// repeats the request's first question as it was decoded (name with its
/// letters' case, type and class) and holds one address record for that
/// name with `target_ip` and time to live 0; any other is
/// forwarded. A query for the console's network names its sender as the
/// console, where the caller watches for it.
pub open spec fn dns_decision(
    request: Seq<u8>,
    source: Option<u32>,
    domains: Seq<Seq<char>>,
    target_ip: u32,
    watch_console: bool,
) -> (Option<u32>, Option<Option<Seq<u8>>>) {
    match dns_first_question(request) {
        None => (None, None),
        Some((id, raw_name, record_type, _)) => {
            let name = bare_name(raw_name);
            let console = if watch_console && is_console_name(name) {
                source
            } else {
                None
            };
            if in_any_domain(name, domains) && record_type == RECORD_A {
                (
                    console,
                    Some(
                        dns_echo_encoding(request, id, OP_QUERY, true, true, RCODE_NO_ERROR, 0, target_ip),
                    ),
                )
            } else {
                (console, None)
            }
        },
    }
}

/// Law: a decodable query for a name in `playstation.com` or
/// `playstation.net` (the name itself or any name below it, trailing dots
/// ignored) reveals its sender as the console whenever the proxy watches
/// for it, whether the name is redirected or not; a query for any other name
/// reveals nothing, and nothing is revealed while the proxy does not watch.
pub proof fn law_console_is_noticed(
    request: Seq<u8>,
    source: Option<u32>,
    domains: Seq<Seq<char>>,
    target_ip: u32,
    watch_console: bool,
)
    requires
        dns_first_question(request) is Some,
    ensures
        ({
            let name = trim_end_char((dns_first_question(request)->0).1, '.');
            let console_net = name == "playstation.net"@ || has_suffix(name, seq!['.'] + "playstation.net"@)
                || name == "playstation.com"@ || has_suffix(name, seq!['.'] + "playstation.com"@);
            &&& watch_console && console_net ==> dns_decision(request, source, domains, target_ip, watch_console).0
                == source
            &&& !(watch_console && console_net) ==> dns_decision(
                request,
                source,
                domains,
                target_ip,
                watch_console,
            ).0 is None
        }),
{
}

/// Law: a decodable query is answered here (not forwarded) exactly when it
/// asks for an IPv4 address (type A) of a redirected domain or a name below
/// one (trailing dots ignored; a name that only ends in the domain's text,
/// without the dot before it, is not below it), and the answer is the
/// encoded response to that very request.
pub proof fn law_redirected_queries_are_answered(
    request: Seq<u8>,
    source: Option<u32>,
    domains: Seq<Seq<char>>,
    target_ip: u32,
    watch_console: bool,
)
    requires
        dns_first_question(request) is Some,
    ensures
        ({
            let q = dns_first_question(request)->0;
            let name = trim_end_char(q.1, '.');
            let redirected = q.2 == 1 && exists|i: int|
                0 <= i < domains.len() && (name == #[trigger] domains[i] || has_suffix(
                    name,
                    seq!['.'] + domains[i],
                ));
            &&& redirected ==> dns_decision(request, source, domains, target_ip, watch_console).1
                == Some(dns_echo_encoding(request, q.0, 0, true, true, 0, 0, target_ip))
            &&& !redirected ==> dns_decision(request, source, domains, target_ip, watch_console).1 is None
        }),
{
}

fn bare_name_exec(name: &[char]) -> (r: Vec<char>)
    ensures
        r@ == bare_name(name@),
{
    let mut hi = name.len();
    assert(name@.take(name@.len() as int) == name@);
    while hi > 0 && name[hi - 1] == '.'
        invariant
            hi <= name@.len(),
            trim_end_char(name@, '.') == trim_end_char(name@.take(hi as int), '.'),
        decreases hi,
    {
        assert(name@.take(hi as int).drop_last() == name@.take(hi - 1));
        hi = hi - 1;
    }
    assert(trim_end_char(name@.take(hi as int), '.') == name@.take(hi as int));
    crate::text::slice_chars(name, 0, hi)
}

/// Decides what the proxy does with one query (see `dns_decision`).
pub fn handle_query(
    request: &[u8],
    source: Option<u32>,
    domains: &Vec<Vec<char>>,
    target_ip: u32,
    watch_console: bool,
) -> (r: DnsDecision)
    ensures
        ({
            let (console, action) = dns_decision(
                request@,
                source,
                domains@.map_values(|d: Vec<char>| d@),
                target_ip,
                watch_console,
            );
            &&& r.console == console
            &&& match action {
                None => if dns_first_question(request@) is None {
                    r.action is Ignore
                } else {
                    r.action is Forward
                },
                Some(None) => r.action is Ignore,
                Some(Some(bytes)) => r.action matches DnsAction::Answer(b) && b@ == bytes,
            }
        }),
{
    proof {
        reveal_strlit("playstation.net");
        reveal_strlit("playstation.com");
    }
    let q = match decode_first_question(request) {
        Some(q) => q,
        None => {
            return DnsDecision { console: None, action: DnsAction::Ignore };
        },
    };
    let raw = chars_of(q.name.as_str());
    let name = bare_name_exec(raw.as_slice());
    let net = chars_of("playstation.net");
    let com = chars_of("playstation.com");
    let console = if watch_console && (in_domain_exec(name.as_slice(), net.as_slice()) || in_domain_exec(
        name.as_slice(),
        com.as_slice(),
    )) {
        source
    } else {
        None
    };
    if should_redirect(name.as_slice(), domains) && q.record_type == RECORD_A {
        match encode_echo_response(request, q.id, OP_QUERY, true, true, RCODE_NO_ERROR, 0, target_ip) {
            Some(b) => DnsDecision { console, action: DnsAction::Answer(b) },
            None => DnsDecision { console, action: DnsAction::Ignore },
        }
    } else {
        DnsDecision { console, action: DnsAction::Forward }
    }
}

// ---------------------------------------------------------------------------
// Start-up of the redirection
// ---------------------------------------------------------------------------

/// The public resolver used when the detected one does not answer: 223.5.5.5.
pub const SILENT_UPSTREAM_FALLBACK: u32 = 0xDF05_0505;

/// How the redirection is set up at start-up.
#[derive(PartialEq, Eq, Structural, Clone, Copy, Debug)]
pub struct StartupPlan {
    /// Neither the built-in DNS nor a proxy: only check, through the system
    /// resolver, that the console's domains already lead to this machine.
    pub check_only: bool,
    /// The built-in DNS server runs without a proxy: it is announced, its
    /// upstream is probed first, and the redirection is checked through it.
    pub builtin_dns: bool,
    /// The proxied domains are redirected too.
    pub proxy_domains: bool,
}

/// The start-up plan for the `dns` switch and a proxy address, if any.
pub fn startup_plan(dns: bool, has_proxy: bool) -> (r: StartupPlan)
    ensures
        r.check_only == (!dns && !has_proxy),
        r.builtin_dns == (dns && !has_proxy),
        r.proxy_domains == has_proxy,
{
    StartupPlan { check_only: !dns && !has_proxy, builtin_dns: dns && !has_proxy, proxy_domains: has_proxy }
}

/// The domains the DNS server redirects: the redirected ones, then, with a
/// proxy, the proxied ones.
pub fn served_domains(redirect: &Vec<String>, proxy: &Vec<String>, with_proxy: bool) -> (r: Vec<String>)
    ensures
        r@ == redirect@ + if with_proxy {
            proxy@
        } else {
            Seq::<String>::empty()
        },
{
    let mut out: Vec<String> = Vec::new();
    for i in 0..redirect.len()
        invariant
            out@ == redirect@.take(i as int),
    {
        out.push(redirect[i].clone());
        assert(redirect@.take(i + 1) == redirect@.take(i as int).push(redirect@[i as int]));
    }
    assert(redirect@.take(redirect@.len() as int) == redirect@);
    if with_proxy {
        for i in 0..proxy.len()
            invariant
                out@ == redirect@ + proxy@.take(i as int),
        {
            out.push(proxy[i].clone());
            assert(proxy@.take(i + 1) == proxy@.take(i as int).push(proxy@[i as int]));
        }
        assert(proxy@.take(proxy@.len() as int) == proxy@);
    } else {
        assert(redirect@ + Seq::<String>::empty() == redirect@);
    }
    out
}

/// The upstream resolver the DNS server forwards to: the detected one,
/// unless the built-in server probed it and it did not answer.
pub fn startup_upstream(detected: u32, builtin_dns: bool, answered: bool) -> (r: u32)
    ensures
        r == if builtin_dns && !answered {
            SILENT_UPSTREAM_FALLBACK
        } else {
            detected
        },
{
    if builtin_dns && !answered {
        SILENT_UPSTREAM_FALLBACK
    } else {
        detected
    }
}

/// Whether the "ready" message waits: in check-only mode it waits exactly
/// when the check failed; otherwise it always waits (for the console to
/// show up, or because the check through the built-in server failed).
pub fn startup_deferred(plan: StartupPlan, checks_passed: bool) -> (r: bool)
    ensures
        plan.check_only ==> r == !checks_passed,
        !plan.check_only ==> r,
{
    if plan.check_only {
        !checks_passed
    } else {
        true
    }
}

} // verus!
