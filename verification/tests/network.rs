use pslinkb::dns::{
    handle_query, nameserver_from_resolv_conf, parse_dns_override, parse_ipv4, parse_u16, probe_query,
    served_domains, should_redirect, startup_deferred, startup_plan, startup_upstream, DnsAction,
    FALLBACK_RESOLVER, SILENT_UPSTREAM_FALLBACK,
};
use pslinkb::helper::{helper_launch, retry_pipe_open, HelperLaunch, PipeLine, PipeReader};
use pslinkb::ip::{format_ipv4, local_ip};
use pslinkb::packet::{
    read_ipv4_dst, read_ipv4_src, read_tcp_dst_port, read_tcp_src_port, rewrite_ipv4_dst,
    rewrite_ipv4_src, PortRedirect,
};
use pslinkb::relay::{
    connect_request, head_complete, parse_sni, proxy_accepted, proxy_address, reply_progress,
    target_host, ReplyProgress,
};

fn cs(s: &str) -> Vec<char> {
    s.chars().collect()
}

fn ip(a: u32, b: u32, c: u32, d: u32) -> u32 {
    (a << 24) | (b << 16) | (c << 8) | d
}

// ---------------------------------------------------------------------------
// Addresses
// ---------------------------------------------------------------------------

#[test]
fn parse_ipv4_reads_dotted_decimal() {
    assert_eq!(parse_ipv4(&cs("192.168.1.20")), Some(ip(192, 168, 1, 20)));
    assert_eq!(parse_ipv4(&cs("0.0.0.0")), Some(0));
    assert_eq!(parse_ipv4(&cs("255.255.255.255")), Some(u32::MAX));
}

#[test]
fn parse_ipv4_rejects_malformed_text() {
    assert_eq!(parse_ipv4(&cs("256.1.1.1")), None);
    assert_eq!(parse_ipv4(&cs("1.2.3")), None);
    assert_eq!(parse_ipv4(&cs("1.2.3.4.5")), None);
    assert_eq!(parse_ipv4(&cs("01.2.3.4")), None);
    assert_eq!(parse_ipv4(&cs("a.b.c.d")), None);
    assert_eq!(parse_ipv4(&cs("")), None);
}

#[test]
fn parse_u16_reads_ports() {
    assert_eq!(parse_u16(&cs("53")), Some(53));
    assert_eq!(parse_u16(&cs("65535")), Some(65535));
    assert_eq!(parse_u16(&cs("65536")), None);
    assert_eq!(parse_u16(&cs("")), None);
}

#[test]
fn format_ipv4_round_trips_with_parse() {
    for a in [0u32, ip(10, 0, 0, 1), ip(192, 168, 31, 7), u32::MAX] {
        let text = format_ipv4(a);
        assert_eq!(parse_ipv4(&cs(&text)), Some(a));
    }
    assert_eq!(format_ipv4(ip(172, 16, 0, 254)), "172.16.0.254");
}

#[test]
fn local_ip_prefers_home_networks() {
    let addrs = [ip(127, 0, 0, 1), ip(8, 8, 8, 8), ip(10, 1, 2, 3), ip(192, 168, 0, 9)];
    assert_eq!(local_ip(&addrs), "192.168.0.9");
    let addrs = [ip(172, 17, 0, 1), ip(10, 1, 2, 3), ip(8, 8, 8, 8)];
    assert_eq!(local_ip(&addrs), "10.1.2.3");
    let addrs = [ip(172, 17, 0, 1), ip(8, 8, 4, 4)];
    assert_eq!(local_ip(&addrs), "8.8.4.4");
    let addrs = [ip(172, 17, 0, 1), ip(198, 18, 0, 1)];
    assert_eq!(local_ip(&addrs), "172.17.0.1");
}

#[test]
fn local_ip_falls_back_to_loopback() {
    assert_eq!(local_ip(&[]), "127.0.0.1");
    assert_eq!(local_ip(&[ip(127, 0, 0, 1)]), "127.0.0.1");
}

#[test]
fn dns_override_with_and_without_port() {
    assert_eq!(parse_dns_override(Some("1.1.1.1:5353")), Some((ip(1, 1, 1, 1), 5353)));
    assert_eq!(parse_dns_override(Some("223.5.5.5")), Some((ip(223, 5, 5, 5), 53)));
    assert_eq!(parse_dns_override(Some("1.1.1.1:x")), None);
    assert_eq!(parse_dns_override(Some("nonsense")), None);
    assert_eq!(parse_dns_override(None), None);
}

#[test]
fn nameserver_is_the_first_ipv4_one() {
    let conf = "# generated\nsearch lan\nnameserver fe80::1\nnameserver 192.168.1.1\nnameserver 8.8.8.8\n";
    assert_eq!(nameserver_from_resolv_conf(conf), Some(ip(192, 168, 1, 1)));
    assert_eq!(nameserver_from_resolv_conf("search lan\n"), None);
    assert_eq!(FALLBACK_RESOLVER, ip(114, 114, 114, 114));
}

// ---------------------------------------------------------------------------
// Redirected names and DNS answers
// ---------------------------------------------------------------------------

fn domains(list: &[&str]) -> Vec<Vec<char>> {
    list.iter().map(|d| cs(d)).collect()
}

#[test]
fn wildcard_domain_covers_subdomains() {
    let ds = domains(&["global-contribute.live-video.net", "irc.twitch.tv"]);
    assert!(should_redirect(&cs("ingest.global-contribute.live-video.net"), &ds));
    assert!(should_redirect(&cs("global-contribute.live-video.net"), &ds));
    assert!(should_redirect(&cs("irc.twitch.tv"), &ds));
    assert!(!should_redirect(&cs("xirc.twitch.tv"), &ds));
    assert!(!should_redirect(&cs("twitch.tv"), &ds));
    assert!(!should_redirect(&cs("example.com"), &ds));
}

fn dns_query(id: u16, name: &str, qtype: u16) -> Vec<u8> {
    let mut m = vec![(id >> 8) as u8, id as u8, 0x01, 0x00, 0, 1, 0, 0, 0, 0, 0, 0];
    for label in name.split('.') {
        m.push(label.len() as u8);
        m.extend_from_slice(label.as_bytes());
    }
    m.push(0);
    m.extend_from_slice(&[(qtype >> 8) as u8, qtype as u8, 0, 1]);
    m
}

#[test]
fn redirected_a_query_is_answered_with_this_machine() {
    let ds = domains(&["irc.twitch.tv"]);
    let target = ip(192, 168, 1, 5);
    let q = dns_query(0x4242, "irc.twitch.tv", 1);
    let d = handle_query(&q, Some(ip(192, 168, 1, 30)), &ds, target, true);
    assert!(d.console.is_none());
    match d.action {
        DnsAction::Answer(resp) => {
            assert_eq!(&resp[0..2], &[0x42, 0x42]);
            assert!(resp[2] & 0x80 != 0, "a response");
            assert_eq!(&resp[resp.len() - 4..], &[192, 168, 1, 5]);
        }
        _ => panic!("expected an answer"),
    }
}

#[test]
fn other_queries_are_forwarded_and_console_is_noticed() {
    let ds = domains(&["irc.twitch.tv"]);
    let q = dns_query(7, "np.playstation.net", 1);
    let d = handle_query(&q, Some(ip(192, 168, 1, 30)), &ds, ip(192, 168, 1, 5), true);
    assert_eq!(d.console, Some(ip(192, 168, 1, 30)));
    assert!(matches!(d.action, DnsAction::Forward));
    let q = dns_query(8, "irc.twitch.tv", 28);
    let d = handle_query(&q, Some(ip(192, 168, 1, 30)), &ds, ip(192, 168, 1, 5), false);
    assert!(d.console.is_none());
    assert!(matches!(d.action, DnsAction::Forward));
}

#[test]
fn garbage_request_is_dropped() {
    let ds = domains(&["irc.twitch.tv"]);
    let d = handle_query(&[1, 2, 3], Some(1), &ds, 2, true);
    assert!(matches!(d.action, DnsAction::Ignore));
}

#[test]
fn startup_plan_for_each_mode() {
    let p = startup_plan(false, false);
    assert!(p.check_only && !p.builtin_dns && !p.proxy_domains);
    let p = startup_plan(true, false);
    assert!(!p.check_only && p.builtin_dns && !p.proxy_domains);
    let p = startup_plan(true, true);
    assert!(!p.check_only && !p.builtin_dns && p.proxy_domains);
    let p = startup_plan(false, true);
    assert!(!p.check_only && !p.builtin_dns && p.proxy_domains);
}

#[test]
fn served_domains_add_proxied_ones_only_with_a_proxy() {
    let r = vec!["a.net".to_string(), "b.tv".to_string()];
    let p = vec!["api.twitch.tv".to_string()];
    assert_eq!(served_domains(&r, &p, false), r);
    assert_eq!(served_domains(&r, &p, true), vec!["a.net", "b.tv", "api.twitch.tv"]);
}

#[test]
fn unanswered_upstream_falls_back() {
    let detected = ip(192, 168, 1, 1);
    assert_eq!(startup_upstream(detected, true, false), SILENT_UPSTREAM_FALLBACK);
    assert_eq!(SILENT_UPSTREAM_FALLBACK, ip(223, 5, 5, 5));
    assert_eq!(startup_upstream(detected, true, true), detected);
    assert_eq!(startup_upstream(detected, false, false), detected);
}

#[test]
fn ready_message_waits_unless_the_check_passed() {
    let check = startup_plan(false, false);
    assert!(!startup_deferred(check, true));
    assert!(startup_deferred(check, false));
    let dns = startup_plan(true, false);
    assert!(startup_deferred(dns, true));
}

// ---------------------------------------------------------------------------
// TLS relay through an HTTP proxy
// ---------------------------------------------------------------------------

fn client_hello(host: &str) -> Vec<u8> {
    let name = host.as_bytes();
    let mut sni = vec![];
    sni.extend_from_slice(&((name.len() + 3) as u16).to_be_bytes());
    sni.push(0);
    sni.extend_from_slice(&(name.len() as u16).to_be_bytes());
    sni.extend_from_slice(name);
    let mut exts = vec![0x00, 0x0b, 0x00, 0x02, 0x01, 0x00];
    exts.extend_from_slice(&[0x00, 0x00]);
    exts.extend_from_slice(&(sni.len() as u16).to_be_bytes());
    exts.extend_from_slice(&sni);
    let mut body = vec![0x03, 0x03];
    body.extend_from_slice(&[7u8; 32]);
    body.push(0);
    body.extend_from_slice(&[0x00, 0x02, 0x13, 0x01]);
    body.extend_from_slice(&[0x01, 0x00]);
    body.extend_from_slice(&(exts.len() as u16).to_be_bytes());
    body.extend_from_slice(&exts);
    let mut hs = vec![0x01, 0, (body.len() >> 8) as u8, body.len() as u8];
    hs.extend_from_slice(&body);
    let mut rec = vec![0x16, 0x03, 0x01];
    rec.extend_from_slice(&(hs.len() as u16).to_be_bytes());
    rec.extend_from_slice(&hs);
    rec
}

#[test]
fn sni_is_read_from_a_client_hello() {
    let hello = client_hello("ingest.global-contribute.live-video.net");
    assert_eq!(parse_sni(&hello).as_deref(), Some("ingest.global-contribute.live-video.net"));
    assert_eq!(target_host(&hello), "ingest.global-contribute.live-video.net");
}

#[test]
fn no_sni_means_the_fallback_host() {
    let mut hello = client_hello("x.example");
    hello[0] = 0x17;
    assert_eq!(parse_sni(&hello), None);
    assert_eq!(target_host(&hello), "api.twitch.tv");
    assert_eq!(parse_sni(&[0x16, 3, 1]), None);
    assert_eq!(target_host(&[]), "api.twitch.tv");
}

#[test]
fn connect_request_text() {
    assert_eq!(
        connect_request("irc.twitch.tv"),
        "CONNECT irc.twitch.tv:443 HTTP/1.1\r\nHost: irc.twitch.tv:443\r\n\r\n"
    );
}

#[test]
fn proxy_response_head_and_status() {
    assert!(head_complete(b"HTTP/1.1 200 OK\r\n\r\n"));
    assert!(!head_complete(b"HTTP/1.1 200 OK\r\n"));
    assert!(proxy_accepted(b"HTTP/1.1 200 Connection established\r\n\r\n"));
    assert!(proxy_accepted(b"HTTP/1.0 200 OK\r\n\r\n"));
    assert!(!proxy_accepted(b"HTTP/1.1 407 Proxy Authentication Required\r\n\r\n"));
    assert!(!proxy_accepted(b"HTTP/1.1 20"));
}

#[test]
fn reading_the_proxy_response() {
    assert_eq!(reply_progress(b"HTTP/1.1 200", 0), ReplyProgress::ClosedEarly);
    assert_eq!(reply_progress(b"HTTP/1.1 200 OK\r\n\r\n", 19), ReplyProgress::Complete);
    assert_eq!(reply_progress(b"HTTP/1.1 200 OK\r\n", 17), ReplyProgress::More);
    let long = vec![b'a'; 1024];
    assert_eq!(reply_progress(&long, 24), ReplyProgress::TooLong);
}

#[test]
fn proxy_url_must_be_http() {
    assert_eq!(proxy_address("http://127.0.0.1:7890"), Ok("127.0.0.1:7890".to_string()));
    assert_eq!(
        proxy_address("socks5://127.0.0.1:1080"),
        Err("proxy_url 必须 http:// 开头".to_string())
    );
}

// ---------------------------------------------------------------------------
// Port redirection
// ---------------------------------------------------------------------------

fn tcp_packet(src: u32, dst: u32, sport: u16, dport: u16) -> Vec<u8> {
    let mut p = vec![0u8; 40];
    p[0] = 0x45;
    p[9] = 6;
    p[12..16].copy_from_slice(&src.to_be_bytes());
    p[16..20].copy_from_slice(&dst.to_be_bytes());
    p[20..22].copy_from_slice(&sport.to_be_bytes());
    p[22..24].copy_from_slice(&dport.to_be_bytes());
    p
}

#[test]
fn packet_fields_are_read_and_rewritten() {
    let mut p = tcp_packet(ip(192, 168, 1, 30), ip(1, 2, 3, 4), 50000, 1935);
    assert_eq!(read_ipv4_src(&p), Some(ip(192, 168, 1, 30)));
    assert_eq!(read_ipv4_dst(&p), Some(ip(1, 2, 3, 4)));
    assert_eq!(read_tcp_src_port(&p), Some(50000));
    assert_eq!(read_tcp_dst_port(&p), Some(1935));
    assert!(rewrite_ipv4_dst(&mut p, ip(192, 168, 1, 5)));
    assert_eq!(read_ipv4_dst(&p), Some(ip(192, 168, 1, 5)));
    assert!(rewrite_ipv4_src(&mut p, ip(9, 9, 9, 9)));
    assert_eq!(read_ipv4_src(&p), Some(ip(9, 9, 9, 9)));
    let mut short = vec![0u8; 10];
    assert!(!rewrite_ipv4_src(&mut short, 1));
    assert_eq!(short, vec![0u8; 10]);
    assert_eq!(read_ipv4_src(&short), None);
}

#[test]
fn console_stream_is_redirected_and_replies_restored() {
    let local = ip(192, 168, 1, 5);
    let console = ip(192, 168, 1, 30);
    let ingest = ip(52, 1, 2, 3);
    let mut r = PortRedirect::new(local, 1935);
    assert_eq!(r.learned(), None);

    let mut out = tcp_packet(console, ingest, 50000, 1935);
    assert!(r.process(&mut out, false));
    assert_eq!(read_ipv4_dst(&out), Some(local));
    assert_eq!(r.learned(), Some(ingest));

    let mut reply = tcp_packet(local, console, 1935, 50000);
    assert!(r.process(&mut reply, false));
    assert_eq!(read_ipv4_src(&reply), Some(ingest));

    let mut other = tcp_packet(console, ip(52, 9, 9, 9), 50001, 1935);
    assert!(!r.process(&mut other, false));
    assert_eq!(read_ipv4_dst(&other), Some(ip(52, 9, 9, 9)));

    let mut after_idle = tcp_packet(console, ip(52, 9, 9, 9), 50002, 1935);
    assert!(r.process(&mut after_idle, true));
    assert_eq!(r.learned(), Some(ip(52, 9, 9, 9)));
    assert_eq!(read_ipv4_dst(&after_idle), Some(local));
}

#[test]
fn unrelated_traffic_passes_untouched() {
    let mut r = PortRedirect::new(ip(192, 168, 1, 5), 6667);
    let mut p = tcp_packet(ip(192, 168, 1, 30), ip(1, 1, 1, 1), 40000, 443);
    let before = p.clone();
    assert!(!r.process(&mut p, false));
    assert_eq!(p, before);
    assert_eq!(r.learned(), None);
}

// ---------------------------------------------------------------------------
// The redirect helper's command line and pipe
// ---------------------------------------------------------------------------

fn args(list: &[&str]) -> Vec<String> {
    list.iter().map(|s| s.to_string()).collect()
}

#[test]
fn helper_reads_its_command_line() {
    assert_eq!(helper_launch(&args(&["helper", "192.168.1.5"])), HelperLaunch::Run(ip(192, 168, 1, 5)));
    assert_eq!(helper_launch(&args(&["helper", "192.168.1.5", "-v"])), HelperLaunch::Version);
    assert_eq!(helper_launch(&args(&["helper", "--version"])), HelperLaunch::Version);
    assert_eq!(helper_launch(&args(&["helper"])), HelperLaunch::MissingAddress);
    assert_eq!(helper_launch(&args(&["helper", "localhost"])), HelperLaunch::MissingAddress);
}

#[test]
fn pipe_open_is_retried_while_the_helper_starts() {
    assert!(retry_pipe_open(0, Some(2)));
    assert!(retry_pipe_open(19, Some(2)));
    assert!(!retry_pipe_open(20, Some(2)));
    assert!(!retry_pipe_open(0, Some(5)));
    assert!(!retry_pipe_open(0, None));
}

#[test]
fn readiness_is_signalled_once() {
    let mut r = PipeReader::new();
    assert_eq!(r.on_line("[INFO] Named pipe connected\n"), PipeLine::Echo);
    assert_eq!(r.on_line("[[INIT_DONE]]\r\n"), PipeLine::Ready);
    assert_eq!(r.on_line("[[INIT_DONE]]\n"), PipeLine::Ignore);
    assert_eq!(r.on_line(" [[INIT_DONE]]"), PipeLine::Echo);
}

#[test]
fn upstream_probe_asks_for_an_address() {
    let q = probe_query().expect("encodes");
    assert_eq!(&q[0..2], &[0x12, 0x34]);
    assert_eq!(&q[4..6], &[0, 1], "one question");
    let name = [2u8, b'j', b'd', 3, b'c', b'o', b'm', 0];
    assert!(q.windows(name.len()).any(|w| w == name));
    assert_eq!(&q[q.len() - 4..], &[0, 1, 0, 1], "type A, class IN");
}

#[test]
fn dns_answer_echoes_the_question_without_error() {
    let ds = domains(&["irc.twitch.tv"]);
    let q = dns_query(0xbeef, "irc.twitch.tv", 1);
    let d = handle_query(&q, None, &ds, ip(10, 0, 0, 9), true);
    match d.action {
        DnsAction::Answer(resp) => {
            assert_eq!(&resp[0..2], &[0xbe, 0xef], "same id");
            assert_eq!(resp[2] & 0x78, 0, "standard query");
            assert!(resp[2] & 0x04 != 0, "authoritative");
            assert!(resp[3] & 0x80 != 0, "recursion available");
            assert_eq!(resp[3] & 0x0f, 0, "no error");
            assert_eq!(&resp[4..8], &[0, 1, 0, 1], "one question, one answer");
            let question = &q[12..];
            assert_eq!(&resp[12..12 + question.len()], question, "question echoed");
            let n = resp.len();
            assert_eq!(&resp[n - 14..n - 10], &[0, 1, 0, 1], "an A record of class IN");
            assert_eq!(&resp[n - 10..n - 6], &[0, 0, 0, 0], "TTL 0");
            assert_eq!(&resp[n - 6..], &[0, 4, 10, 0, 0, 9]);
        }
        _ => panic!("expected an answer"),
    }
}

#[test]
fn sni_ignores_bytes_after_the_hello() {
    let mut hello = client_hello("live.example.net");
    assert_eq!(parse_sni(&hello).as_deref(), Some("live.example.net"));
    hello.extend_from_slice(&[0x17, 0x03, 0x03, 0x00, 0x05, 1, 2, 3, 4, 5]);
    assert_eq!(parse_sni(&hello).as_deref(), Some("live.example.net"));
}

#[test]
fn dns_answer_keeps_the_question_as_sent() {
    let ds = domains(&["irc.twitch.tv"]);
    for name in ["Foo.irc.twitch.tv", "a_.irc.twitch.tv"] {
        let q = dns_query(0x0102, name, 1);
        let d = handle_query(&q, None, &ds, ip(10, 0, 0, 9), true);
        match d.action {
            DnsAction::Answer(resp) => {
                let question = &q[12..];
                assert_eq!(&resp[12..12 + question.len()], question, "question echoed for {}", name);
                assert_eq!(&resp[resp.len() - 4..], &[10, 0, 0, 9]);
            }
            _ => panic!("expected an answer for {}", name),
        }
    }
}
