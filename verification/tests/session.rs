use pslinkb::biliapi::UserInfo;
use pslinkb::cookie::{
    cookie_string, extract_cookie_header, extract_cookies_from_url, get_uid, has_login_cookies,
    merge_cookies, parse_cookie_argument, parse_cookies, parse_uci_cookie, raw_url_cookies,
    stored_cookie, uci_loaded_cookie, CookieEntry, CookieManager,
};
use pslinkb::error::AppError;
use pslinkb::live::LiveMode;
use pslinkb::login::{
    after_verify, auth_start, classify_qr, confirm_login, face_auth_qr, is_expiry_message,
    jar_cookies, login_qr, needs_room_lookup, qr_state_json, settle_router_login, user_label,
    verdict_of, auth_needed, scan_attempt, scan_confirmed, scan_poll_answer, scan_verified,
    AuthNext, AuthStart, ConfirmError, CookieVerdict, PollReaction, QrPoller, QrStatus,
    QR_MAX_ATTEMPTS, ROUTER_EXPIRED_TEXT, ROUTER_NO_COOKIES_TEXT, SCAN_EXPIRED_TEXT,
    SCAN_NOT_VERIFIED_TEXT, SCAN_NO_COOKIES_TEXT, SCAN_TIMEOUT_TEXT,
};

fn entry(name: &str, value: &str) -> CookieEntry {
    CookieEntry { name: name.to_string(), value: value.to_string() }
}

fn pairs(v: &[CookieEntry]) -> Vec<(String, String)> {
    v.iter().map(|c| (c.name.clone(), c.value.clone())).collect()
}

fn owned(list: &[(&str, &str)]) -> Vec<(String, String)> {
    list.iter().map(|(a, b)| (a.to_string(), b.to_string())).collect()
}

// ---------------------------------------------------------------------------
// Cookies
// ---------------------------------------------------------------------------

#[test]
fn cookie_header_keeps_only_login_cookies() {
    let v = extract_cookie_header(" SESSDATA=abc%2C1 ; theme=dark; bili_jct=ff00 ;buvid3=x=y; junk");
    assert_eq!(
        pairs(&v),
        owned(&[("SESSDATA", "abc%2C1"), ("bili_jct", "ff00"), ("buvid3", "x=y")])
    );
    assert!(extract_cookie_header("").is_empty());
}

#[test]
fn merging_replaces_values_and_appends_new_names() {
    let mut base = vec![entry("SESSDATA", "old"), entry("buvid3", "b")];
    merge_cookies(&mut base, vec![entry("bili_jct", "j"), entry("SESSDATA", "new")]);
    assert_eq!(pairs(&base), owned(&[("SESSDATA", "new"), ("buvid3", "b"), ("bili_jct", "j")]));
}

#[test]
fn login_needs_both_session_cookies() {
    assert!(has_login_cookies(&[entry("bili_jct", "j"), entry("SESSDATA", "s")]));
    assert!(!has_login_cookies(&[entry("SESSDATA", "s")]));
    assert!(!has_login_cookies(&[]));
}

#[test]
fn cookie_string_joins_with_semicolons() {
    assert_eq!(cookie_string(&[entry("a", "1"), entry("b", "2")]), "a=1; b=2");
    assert_eq!(cookie_string(&[entry("a", "1")]), "a=1");
    assert_eq!(cookie_string(&[]), "");
}

#[test]
fn cookie_argument_keeps_every_named_pair() {
    let v = parse_cookie_argument(" SESSDATA = s1 ;theme=dark;=nameless; novalue ; bili_jct=j=k");
    assert_eq!(
        pairs(&v),
        owned(&[("SESSDATA", "s1"), ("theme", "dark"), ("bili_jct", "j=k")])
    );
}

#[test]
fn uid_and_session_are_read_from_a_cookie() {
    let c = "SESSDATA=s; DedeUserID= 4242 ; bili_jct=j";
    assert_eq!(get_uid(c).as_deref(), Some("4242"));
    assert_eq!(get_uid("SESSDATA=s"), None);
    assert_eq!(parse_cookies(c), Ok(("s".to_string(), "j".to_string())));
    assert_eq!(parse_cookies("SESSDATA=s"), Err("Missing SESSDATA or bili_jct".to_string()));
    assert_eq!(parse_cookies("SESSDATA=; bili_jct=j"), Err("Missing SESSDATA or bili_jct".to_string()));
}

#[test]
fn uci_configuration_cookie() {
    let conf = "config auth\n\toption cookie ''\n\toption cookie 'SESSDATA=s; bili_jct=j'\n";
    assert_eq!(parse_uci_cookie(conf).as_deref(), Some("SESSDATA=s; bili_jct=j"));
    assert_eq!(parse_uci_cookie("config auth\n"), None);
    assert_eq!(parse_uci_cookie("option cookie \"x=1\"\r\n").as_deref(), Some("x=1"));
}

#[test]
fn redirect_address_cookies() {
    let url = "https://passport.biligame.com/crossDomain?DedeUserID=1&DedeUserID__ckMd5=c&Expires=1&SESSDATA=a%2Cb&bili_jct=j&gourl=x";
    assert_eq!(
        pairs(&raw_url_cookies(url)),
        owned(&[("DedeUserID", "1"), ("DedeUserID__ckMd5", "c"), ("SESSDATA", "a%2Cb"), ("bili_jct", "j")])
    );
    assert_eq!(
        pairs(&extract_cookies_from_url(url)),
        owned(&[("DedeUserID", "1"), ("DedeUserID__ckMd5", "c"), ("SESSDATA", "a,b"), ("bili_jct", "j")])
    );
    assert!(extract_cookies_from_url("not a url").is_empty());
    assert!(raw_url_cookies("https://example.com/").is_empty());
}

#[test]
fn cookie_manager_caches_what_it_loads() {
    let mut m = CookieManager::new(None, "/home/u/.config/pslinkb.toml".to_string());
    assert_eq!(m.config_path(), "/home/u/.config/pslinkb.toml");
    assert!(m.needs_load());
    assert!(!m.has_cookie(Err(AppError::General("missing".to_string()))));
    assert!(m.needs_load());
    assert!(m.has_cookie(Ok("a=1".to_string())));
    assert!(!m.needs_load());
    let again = m.get_cookie_string(Ok("ignored".to_string()));
    assert!(matches!(again, Ok(ref s) if s == "a=1"));
    m.set_cookie("b=2".to_string());
    assert!(matches!(m.get_cookie_string(Ok("x".to_string())), Ok(ref s) if s == "b=2"));
    m.clear_cache();
    assert!(m.needs_load());
    assert!(matches!(m.reload_cookie(Ok("c=3".to_string())), Ok(ref s) if s == "c=3"));
    let saved = m.save_cookies(&[entry("SESSDATA", "s"), entry("bili_jct", "j")]);
    assert_eq!(saved, "SESSDATA=s; bili_jct=j");
    assert!(matches!(m.get_cookie_string(Ok("x".to_string())), Ok(ref s) if s == "SESSDATA=s; bili_jct=j"));
    let m2 = CookieManager::new(Some("/etc/p.toml".to_string()), "/d".to_string());
    assert_eq!(m2.config_path(), "/etc/p.toml");
}

// ---------------------------------------------------------------------------
// QR login
// ---------------------------------------------------------------------------

#[test]
fn poll_codes_are_read() {
    assert_eq!(classify_qr(0), QrStatus::Confirmed);
    assert_eq!(classify_qr(86038), QrStatus::Expired);
    assert_eq!(classify_qr(86090), QrStatus::Scanned);
    assert_eq!(classify_qr(86101), QrStatus::Waiting);
    assert_eq!(classify_qr(12345), QrStatus::Waiting);
}

#[test]
fn login_gives_up_after_the_last_attempt() {
    let mut p = QrPoller::new();
    let mut granted = 0u32;
    for _ in 0..(QR_MAX_ATTEMPTS + 50) {
        if p.begin_attempt() {
            granted += 1;
        }
    }
    assert_eq!(granted, 300);
    assert_eq!(p.attempts, 300);
    assert!(!p.begin_attempt());
}

#[test]
fn poll_reactions() {
    let mut p = QrPoller::new();
    assert!(p.begin_attempt());
    assert_eq!(p.react(86101), PollReaction::Quiet);
    assert_eq!(p.react(86090), PollReaction::ShowScanned);
    assert_eq!(p.react(86090), PollReaction::Quiet);
    assert!(p.scanned);
    for _ in 1..30 {
        assert!(p.begin_attempt());
    }
    assert_eq!(p.react(86101), PollReaction::Progress { seconds: 30, code: 86101 });
    assert_eq!(p.react(777), PollReaction::Progress { seconds: 30, code: 777 });
    assert_eq!(p.react(86038), PollReaction::Expired);
    assert_eq!(p.react(0), PollReaction::Confirmed);
}

#[test]
fn confirmed_login_collects_the_session() {
    let from_url = vec![entry("SESSDATA", "s"), entry("DedeUserID", "1")];
    let jar = vec![entry("bili_jct", "j"), entry("SESSDATA", "s2")];
    let r = confirm_login(from_url.clone(), Some(jar)).expect("logged in");
    assert_eq!(pairs(&r), owned(&[("SESSDATA", "s2"), ("DedeUserID", "1"), ("bili_jct", "j")]));
    assert_eq!(
        confirm_login(from_url.clone(), Some(vec![])).err(),
        Some(ConfirmError::MissingCookies)
    );
    assert_eq!(confirm_login(from_url, None).err(), Some(ConfirmError::FetchFailed));
    let full = vec![entry("SESSDATA", "s"), entry("bili_jct", "j")];
    assert_eq!(pairs(&confirm_login(full, None).expect("ok")), owned(&[("SESSDATA", "s"), ("bili_jct", "j")]));
}

#[test]
fn cookie_store_headers_are_merged_in_order() {
    let headers = vec![
        Some("SESSDATA=a; theme=x".to_string()),
        None,
        Some("bili_jct=b; SESSDATA=c".to_string()),
    ];
    assert_eq!(pairs(&jar_cookies(&headers)), owned(&[("SESSDATA", "c"), ("bili_jct", "b")]));
    assert!(jar_cookies(&vec![]).is_empty());
}

#[test]
fn router_login_state_text() {
    assert_eq!(qr_state_json("", "generating"), r#"{"url":"","status":"generating"}"#);
    assert_eq!(
        qr_state_json("https://x/y?k=1", "waiting"),
        r#"{"url":"https://x/y?k=1","status":"waiting"}"#
    );
}

#[test]
fn router_login_outcomes() {
    assert!(is_expiry_message("二维码登录超时 (5分钟)"));
    assert!(is_expiry_message("二维码已过期"));
    assert!(!is_expiry_message("network down"));

    let (r, report) = settle_router_login(Ok(vec![entry("SESSDATA", "s")]), "");
    assert_eq!(r.map(|v| v.len()).ok(), Some(1));
    assert_eq!(report.as_deref(), Some(r#"{"url":"","status":"done"}"#));

    let (r, report) = settle_router_login(Err(AppError::General("二维码已过期".to_string())), "二维码已过期");
    assert!(r.is_err());
    assert_eq!(report.as_deref(), Some(r#"{"url":"","status":"expired"}"#));

    let (r, report) = settle_router_login(Err(AppError::General("boom".to_string())), "boom");
    assert_eq!(r.map(|v| v.len()).ok(), Some(0));
    assert!(report.is_none());
}

#[test]
fn qr_pictures_hold_a_code() {
    let t = login_qr("https://passport.bilibili.com/h5-app/passport/login/scan?navhide=1&qrcode_key=abc").expect("fits");
    assert!(t.starts_with("请使用 B站客户端扫描下方二维码:\n"));
    let art = &t["请使用 B站客户端扫描下方二维码:\n".len()..];
    assert!(art.contains('█') || art.contains('▀') || art.contains('▄'));
    assert!(!art.contains("passport"));
    let f = face_auth_qr("https://www.bilibili.com/blackboard/live/face-auth-middle.html?source_event=400&mid=1").expect("fits");
    assert!(f.starts_with("\n人脸验证二维码:\n"));
    assert!(f.lines().count() > 10);
    let huge = "x".repeat(8000);
    assert!(login_qr(&huge).is_none());
}

// ---------------------------------------------------------------------------
// Start-up login check
// ---------------------------------------------------------------------------

#[test]
fn start_up_login_steps() {
    assert_eq!(auth_start(LiveMode::Manual, "a=1"), AuthStart::Skip);
    assert_eq!(auth_start(LiveMode::Auto, ""), AuthStart::Login);
    assert_eq!(auth_start(LiveMode::Auto, "a=1"), AuthStart::Verify);
    assert_eq!(after_verify(CookieVerdict::Valid(7), 0), AuthNext::UseCookie { find_room: true });
    assert_eq!(after_verify(CookieVerdict::Valid(7), 99), AuthNext::UseCookie { find_room: false });
    assert_eq!(after_verify(CookieVerdict::Unreachable, 0), AuthNext::UseCookie { find_room: false });
    assert_eq!(after_verify(CookieVerdict::Expired, 0), AuthNext::Login);
    assert!(needs_room_lookup(CookieVerdict::Valid(1), 0));
    assert!(!needs_room_lookup(CookieVerdict::Expired, 0));
}

#[test]
fn verdicts_and_labels() {
    let who = Some(UserInfo { uname: "alice".to_string(), uid: 9 });
    assert_eq!(verdict_of(&Ok(who.clone())), CookieVerdict::Valid(9));
    assert_eq!(verdict_of(&Ok(None)), CookieVerdict::Expired);
    assert_eq!(verdict_of(&Err(AppError::General("net".to_string()))), CookieVerdict::Unreachable);
    assert_eq!(user_label(&who), "alice");
    assert_eq!(user_label(&None), "");
}

#[test]
fn written_cookie_header_reads_back() {
    let cs = vec![entry("SESSDATA", "a%2Cb=c"), entry("bili_jct", "j"), entry("DedeUserID", " 7")];
    let text = cookie_string(&cs);
    assert_eq!(text, "SESSDATA=a%2Cb=c; bili_jct=j; DedeUserID= 7");
    assert_eq!(pairs(&extract_cookie_header(&text)), pairs(&cs));
    assert!(extract_cookie_header(&cookie_string(&[])).is_empty());
}

fn general(r: &Result<String, AppError>) -> Option<String> {
    match r {
        Err(AppError::General(m)) => Some(m.clone()),
        _ => None,
    }
}

#[test]
fn cookie_errors_are_the_loaded_ones() {
    let mut m = CookieManager::new(None, "/d/p.toml".to_string());
    let r = m.get_cookie_string(Err(AppError::General("No cookie stored".to_string())));
    assert_eq!(general(&r).as_deref(), Some("No cookie stored"));
    assert!(m.needs_load());
    let r = m.reload_cookie(Err(AppError::General("No cookie found in UCI".to_string())));
    assert_eq!(general(&r).as_deref(), Some("No cookie found in UCI"));
    assert!(m.needs_load());
    m.set_cookie("a=1".to_string());
    m.clear_cache();
    let r = m.get_cookie_string(Err(AppError::General("gone".to_string())));
    assert_eq!(general(&r).as_deref(), Some("gone"));
}

#[test]
fn stored_and_router_cookies_are_loaded() {
    let r = uci_loaded_cookie(Some("config auth\n\toption cookie 'SESSDATA=a; bili_jct=b'\n"));
    assert!(matches!(r, Ok(ref s) if s == "SESSDATA=a; bili_jct=b"));
    let r = uci_loaded_cookie(Some("config auth\n\toption cookie ''\n"));
    assert_eq!(general(&r).as_deref(), Some("No cookie found in UCI"));
    assert_eq!(general(&uci_loaded_cookie(None)).as_deref(), Some("No cookie found in UCI"));
    let r = stored_cookie(Some("  SESSDATA=s; bili_jct=j \n"));
    assert!(matches!(r, Ok(ref s) if s == "SESSDATA=s; bili_jct=j"));
    assert_eq!(general(&stored_cookie(Some(" \n "))).as_deref(), Some("No cookie stored"));
    assert_eq!(general(&stored_cookie(None)).as_deref(), Some("No cookie stored"));
}

#[test]
fn scan_login_times_out_after_the_last_poll() {
    let mut p = QrPoller::new();
    for _ in 0..QR_MAX_ATTEMPTS {
        assert!(scan_attempt(&mut p).is_ok());
    }
    let r = scan_attempt(&mut p);
    assert!(matches!(r, Err(AppError::General(ref m)) if m == SCAN_TIMEOUT_TEXT));
    assert_eq!(SCAN_TIMEOUT_TEXT, "QR code login timeout (5 minutes)");
}

#[test]
fn scan_login_poll_answers() {
    let mut p = QrPoller::new();
    assert!(scan_attempt(&mut p).is_ok());
    assert!(matches!(scan_poll_answer(&mut p, -412, 0, false), Ok(None)));
    assert!(matches!(scan_poll_answer(&mut p, 0, 86090, false), Ok(Some(PollReaction::ShowScanned))));
    assert!(matches!(scan_poll_answer(&mut p, 0, 0, false), Ok(Some(PollReaction::Confirmed))));
    let r = scan_poll_answer(&mut p, 0, 86038, false);
    assert!(matches!(r, Err(AppError::General(ref m)) if m == SCAN_EXPIRED_TEXT));
    assert_eq!(SCAN_EXPIRED_TEXT, "二维码已过期，请重试");
    let r = scan_poll_answer(&mut p, 0, 86038, true);
    assert!(matches!(r, Err(AppError::General(ref m)) if m == ROUTER_EXPIRED_TEXT));
}

#[test]
fn scan_login_saves_the_confirmed_cookies() {
    let mut m = CookieManager::new(None, "/d/p.toml".to_string());
    let r = scan_confirmed(&mut m, "https://passport.biligame.com/crossDomain?gourl=x", false);
    assert!(matches!(r, Err(AppError::General(ref s)) if s == SCAN_NO_COOKIES_TEXT));
    assert!(m.needs_load(), "nothing saved");
    let r = scan_confirmed(&mut m, "not a url", false);
    assert!(matches!(r, Err(AppError::General(ref s)) if s == SCAN_NO_COOKIES_TEXT));
    let r = scan_confirmed(&mut m, "https://x.example/?a=1", true);
    assert!(matches!(r, Err(AppError::General(ref s)) if s == ROUTER_NO_COOKIES_TEXT));
    assert!(m.needs_load());
    let url = "https://passport.biligame.com/crossDomain?DedeUserID=7&SESSDATA=s%2Cx&bili_jct=j&gourl=x";
    let r = scan_confirmed(&mut m, url, false);
    assert!(matches!(r, Ok(ref t) if t == "DedeUserID=7; SESSDATA=s,x; bili_jct=j"));
    assert!(!m.needs_load());
    let cached = m.get_cookie_string(Ok("other".to_string()));
    assert!(matches!(cached, Ok(ref t) if t == "DedeUserID=7; SESSDATA=s,x; bili_jct=j"));
    let mut r2 = CookieManager::new(None, "/d/p.toml".to_string());
    let r = scan_confirmed(&mut r2, url, true);
    assert!(matches!(r, Ok(ref t) if t == "DedeUserID=7; SESSDATA=s%2Cx; bili_jct=j"));
}

#[test]
fn scan_login_ends_with_the_verified_user() {
    let user = UserInfo { uname: "u".to_string(), uid: 7 };
    assert!(matches!(scan_verified(Ok(Some(user))), Ok(ref u) if u.uid == 7 && u.uname == "u"));
    let r = scan_verified(Ok(None));
    assert!(matches!(r, Err(AppError::General(ref m)) if m == SCAN_NOT_VERIFIED_TEXT));
    let r = scan_verified(Err(AppError::General("net".to_string())));
    assert!(matches!(r, Err(AppError::General(ref m)) if m == "net"));
    assert!(auth_needed(LiveMode::Auto));
    assert!(!auth_needed(LiveMode::Manual));
}
