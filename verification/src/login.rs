//! QR-code login: how a poll answer is read, when polling gives up, which
//! cookies make the login, and what the router's web page is told.
//!
//! The waiting, the HTTP requests and the printing stay with the caller; the
//! poller here is handed each answer and says what to do with it.

use vstd::prelude::*;

use crate::cookie::{
    auth_pairs, cookie_text, CookieManager, CookieManagerView, entries_view, extract_cookie_header,
    extract_cookies_from_url, has_login, has_login_cookies, header_cookies, merge_cookies, merged,
    raw_query, raw_query_cookies, raw_url_cookies, url_query_pairs, CookieEntry,
};
use crate::biliapi::UserInfo;
use crate::error::AppError;
use crate::live::LiveMode;
use crate::text::{chars_of, find_chars, find_seq, push_str, split, string_from_chars};

verus! {

broadcast use vstd::string::group_string_axioms;

/// Polls before the login gives up (one poll a second: five minutes).
pub const QR_MAX_ATTEMPTS: u32 = 300;

/// Every this many polls a still-waiting login reports its progress.
pub const QR_PROGRESS_EVERY: u32 = 30;

/// Poll answer: the login was confirmed on the phone.
pub const QR_CONFIRMED: i64 = 0;

/// Poll answer: the code expired.
pub const QR_EXPIRED: i64 = 86038;

/// Poll answer: scanned, waiting for the confirmation on the phone.
pub const QR_SCANNED: i64 = 86090;

/// Poll answer: not scanned yet.
pub const QR_NOT_SCANNED: i64 = 86101;

/// What a poll answer says of the login.
#[derive(PartialEq, Eq, Structural, Clone, Copy, Debug)]
pub enum QrStatus {
    Confirmed,
    Scanned,
    Expired,
    Waiting,
}

/// The status a poll answer code stands for; every unknown code is waiting.
pub open spec fn status_of(code: i64) -> QrStatus {
    if code == QR_CONFIRMED {
        QrStatus::Confirmed
    } else if code == QR_EXPIRED {
        QrStatus::Expired
    } else if code == QR_SCANNED {
        QrStatus::Scanned
    } else {
        QrStatus::Waiting
    }
}

/// Reads a poll answer code.
pub fn classify_qr(code: i64) -> (s: QrStatus)
    ensures
        s == status_of(code),
{
    if code == QR_CONFIRMED {
        QrStatus::Confirmed
    } else if code == QR_EXPIRED {
        QrStatus::Expired
    } else if code == QR_SCANNED {
        QrStatus::Scanned
    } else {
        QrStatus::Waiting
    }
}

/// What the caller does with one poll answer.
#[derive(PartialEq, Eq, Structural, Clone, Copy, Debug)]
pub enum PollReaction {
    /// Confirmed: collect the cookies of the redirect address.
    Confirmed,
    /// The code expired: the login fails.
    Expired,
    /// Scanned for the first time: ask the user to confirm on the phone.
    ShowScanned,
    /// Still waiting: report the seconds waited so far and the answer code.
    Progress { seconds: u32, code: i64 },
    /// Nothing to report; poll again.
    Quiet,
}

/// The state of one QR login: polls made so far and whether the scan was
/// already reported.
pub struct QrPoller {
    pub attempts: u32,
    pub scanned: bool,
}

/// One attempt asked for: refused once the attempts are used up, otherwise
/// counted.
pub open spec fn attempt_step(p: QrPoller) -> (QrPoller, bool) {
    if p.attempts < QR_MAX_ATTEMPTS {
        (QrPoller { attempts: (p.attempts + 1) as u32, scanned: p.scanned }, true)
    } else {
        (p, false)
    }
}

/// The reaction to a poll answer `code` in state `p`.
pub open spec fn reaction(p: QrPoller, code: i64) -> PollReaction {
    match status_of(code) {
        QrStatus::Confirmed => PollReaction::Confirmed,
        QrStatus::Expired => PollReaction::Expired,
        QrStatus::Scanned => if p.scanned {
            PollReaction::Quiet
        } else {
            PollReaction::ShowScanned
        },
        QrStatus::Waiting => if p.attempts % QR_PROGRESS_EVERY == 0 {
            PollReaction::Progress { seconds: p.attempts, code }
        } else {
            PollReaction::Quiet
        },
    }
}

/// The state after a poll answer `code`: the scan is remembered once seen.
pub open spec fn after_answer(p: QrPoller, code: i64) -> QrPoller {
    QrPoller { attempts: p.attempts, scanned: p.scanned || status_of(code) == QrStatus::Scanned }
}

impl QrPoller {
    /// A login that has not polled yet.
    pub fn new() -> (r: Self)
        ensures
            r.attempts == 0,
            !r.scanned,
    {
        QrPoller { attempts: 0, scanned: false }
    }

    /// Asked before each poll: `false` once `QR_MAX_ATTEMPTS` polls were made
    /// (the login times out), otherwise the poll is counted and `true`.
    pub fn begin_attempt(&mut self) -> (r: bool)
        ensures
            (*final(self), r) == attempt_step(*old(self)),
    {
        if self.attempts < QR_MAX_ATTEMPTS {
            self.attempts = self.attempts + 1;
            true
        } else {
            false
        }
    }

    /// Takes the answer `code` of the current poll.
    pub fn react(&mut self, code: i64) -> (r: PollReaction)
        ensures
            r == reaction(*old(self), code),
            *final(self) == after_answer(*old(self), code),
    {
        let status = classify_qr(code);
        let r = match status {
            QrStatus::Confirmed => PollReaction::Confirmed,
            QrStatus::Expired => PollReaction::Expired,
            QrStatus::Scanned => if self.scanned {
                PollReaction::Quiet
            } else {
                PollReaction::ShowScanned
            },
            QrStatus::Waiting => if self.attempts % QR_PROGRESS_EVERY == 0 {
                PollReaction::Progress { seconds: self.attempts, code }
            } else {
                PollReaction::Quiet
            },
        };
        if status == QrStatus::Scanned {
            self.scanned = true;
        }
        r
    }
}

/// `k` attempts asked for in a row, from `p`: the state after them and how
/// many were granted.
pub open spec fn run_attempts(p: QrPoller, k: nat) -> (QrPoller, nat)
    decreases k,
{
    if k == 0 {
        (p, 0)
    } else {
        let (q, n) = run_attempts(p, (k - 1) as nat);
        let (q2, granted) = attempt_step(q);
        (q2, if granted { n + 1 } else { n })
    }
}

proof fn lemma_run_attempts(p: QrPoller, k: nat)
    requires
        p.attempts <= QR_MAX_ATTEMPTS,
    ensures
        run_attempts(p, k).1 == if p.attempts + k <= QR_MAX_ATTEMPTS {
            k as int
        } else {
            QR_MAX_ATTEMPTS - p.attempts
        },
        run_attempts(p, k).0.attempts == if p.attempts + k <= QR_MAX_ATTEMPTS {
            p.attempts + k
        } else {
            QR_MAX_ATTEMPTS as int
        },
        run_attempts(p, k).0.scanned == p.scanned,
    decreases k,
{
    if k > 0 {
        lemma_run_attempts(p, (k - 1) as nat);
    }
}

/// Law: however long a fresh login keeps asking, it is granted exactly
/// `min(k, QR_MAX_ATTEMPTS)` polls of `k` asked for; after that every attempt
/// is refused and the login times out.
pub proof fn law_polls_are_bounded(k: nat)
    ensures
        run_attempts(QrPoller { attempts: 0, scanned: false }, k).1 == if k <= QR_MAX_ATTEMPTS {
            k as int
        } else {
            QR_MAX_ATTEMPTS as int
        },
        k >= QR_MAX_ATTEMPTS ==> !attempt_step(run_attempts(QrPoller { attempts: 0, scanned: false }, k).0).1,
{
    lemma_run_attempts(QrPoller { attempts: 0, scanned: false }, k);
}

/// One thing that happens to a login: an attempt asked for, or a poll answer.
pub enum PollEvent {
    Attempt,
    Answer(i64),
}

/// The state after one event.
pub open spec fn event_step(p: QrPoller, e: PollEvent) -> QrPoller {
    match e {
        PollEvent::Attempt => attempt_step(p).0,
        PollEvent::Answer(code) => after_answer(p, code),
    }
}

/// The state after the events `evs`, in order.
pub open spec fn events_after(p: QrPoller, evs: Seq<PollEvent>) -> QrPoller
    decreases evs.len(),
{
    if evs.len() == 0 {
        p
    } else {
        event_step(events_after(p, evs.drop_last()), evs.last())
    }
}

proof fn lemma_events_keep_scan(p: QrPoller, evs: Seq<PollEvent>)
    requires
        p.scanned,
    ensures
        events_after(p, evs).scanned,
    decreases evs.len(),
{
    if evs.len() > 0 {
        lemma_events_keep_scan(p, evs.drop_last());
    }
}

/// Law: the scan is reported once. After a "scanned" answer, no answer of
/// the same login, whatever attempts and answers come between, asks to
/// report the scan again.
pub proof fn law_scan_reported_once(p: QrPoller, first: i64, later: Seq<PollEvent>)
    requires
        status_of(first) == QrStatus::Scanned,
    ensures
        forall|i: int|
            #![trigger later[i]]
            0 <= i < later.len() ==> (later[i] matches PollEvent::Answer(code) ==> reaction(
                events_after(after_answer(p, first), later.take(i)),
                code,
            ) != PollReaction::ShowScanned),
{
    assert forall|i: int| #![trigger later[i]] 0 <= i < later.len() implies (later[i] matches PollEvent::Answer(
        code,
    ) ==> reaction(events_after(after_answer(p, first), later.take(i)), code)
        != PollReaction::ShowScanned) by {
        lemma_events_keep_scan(after_answer(p, first), later.take(i));
    }
}

// ---------------------------------------------------------------------------
// The cookies of a confirmed login
// ---------------------------------------------------------------------------

/// The login cookies of the `Cookie` headers a cookie store gave for each
/// address, merged in order; an address it had nothing for is skipped.
pub open spec fn jar_view(headers: Seq<Option<String>>) -> Seq<(Seq<char>, Seq<char>)>
    decreases headers.len(),
{
    if headers.len() == 0 {
        Seq::empty()
    } else {
        let rest = jar_view(headers.drop_last());
        match headers.last() {
            Some(h) => merged(rest, header_cookies(split(h@, ';'))),
            None => rest,
        }
    }
}

/// The login cookies of the headers a cookie store gave for the addresses
/// of the login, merged in order.
pub fn jar_cookies(headers: &Vec<Option<String>>) -> (r: Vec<CookieEntry>)
    ensures
        entries_view(r@) == jar_view(headers@),
{
    let mut out: Vec<CookieEntry> = Vec::new();
    for i in 0..headers.len()
        invariant
            entries_view(out@) == jar_view(headers@.take(i as int)),
    {
        assert(headers@.take(i + 1).drop_last() == headers@.take(i as int));
        assert(headers@.take(i + 1).last() == headers@[i as int]);
        match &headers[i] {
            Some(h) => {
                let inc = extract_cookie_header(h.as_str());
                merge_cookies(&mut out, inc);
            },
            None => {},
        }
    }
    assert(headers@.take(headers@.len() as int) == headers@);
    out
}

/// Why a confirmed login yielded no session.
#[derive(PartialEq, Eq, Structural, Clone, Copy, Debug)]
pub enum ConfirmError {
    /// The redirect could not be fetched and its address holds no session.
    FetchFailed,
    /// The cookies gathered hold no session (`SESSDATA` and `bili_jct`).
    MissingCookies,
}

/// The session of a confirmed login, from the cookies in the redirect
/// address and, where the redirect was fetched (`jar` is `Some`), the
/// cookies the cookie store gathered on the way, merged over them.
pub fn confirm_login(url_cookies: Vec<CookieEntry>, jar: Option<Vec<CookieEntry>>) -> (r: Result<
    Vec<CookieEntry>,
    ConfirmError,
>)
    ensures
        match jar {
            Some(j) => {
                let m = merged(entries_view(url_cookies@), entries_view(j@));
                if has_login(m) {
                    r matches Ok(c) && entries_view(c@) == m
                } else {
                    r == Err::<Vec<CookieEntry>, ConfirmError>(ConfirmError::MissingCookies)
                }
            },
            None => if has_login(entries_view(url_cookies@)) {
                r matches Ok(c) && entries_view(c@) == entries_view(url_cookies@)
            } else {
                r == Err::<Vec<CookieEntry>, ConfirmError>(ConfirmError::FetchFailed)
            },
        },
{
    let mut cookies = url_cookies;
    match jar {
        Some(j) => {
            merge_cookies(&mut cookies, j);
            if has_login_cookies(cookies.as_slice()) {
                Ok(cookies)
            } else {
                Err(ConfirmError::MissingCookies)
            }
        },
        None => {
            if has_login_cookies(cookies.as_slice()) {
                Ok(cookies)
            } else {
                Err(ConfirmError::FetchFailed)
            }
        },
    }
}

// ---------------------------------------------------------------------------
// What the router's web page is told
// ---------------------------------------------------------------------------

/// The login state the web page reads: `{"url":"<url>","status":"<status>"}`,
/// the address written as it is.
pub open spec fn qr_state_text(url: Seq<char>, status: Seq<char>) -> Seq<char> {
    "{\"url\":\""@ + url + "\",\"status\":\""@ + status + "\"}"@
}

/// The login state for the web page.
pub fn qr_state_json(url: &str, status: &str) -> (r: String)
    ensures
        r@ == qr_state_text(url@, status@),
{
    let mut out: Vec<char> = Vec::new();
    push_str(&mut out, "{\"url\":\"");
    push_str(&mut out, url);
    push_str(&mut out, "\",\"status\":\"");
    push_str(&mut out, status);
    push_str(&mut out, "\"}");
    string_from_chars(out.as_slice())
}

/// Whether a failure message tells of a timeout or an expired code.
pub open spec fn tells_expiry(message: Seq<char>) -> bool {
    find_seq(message, "超时"@) is Some || find_seq(message, "过期"@) is Some
}

/// Whether a failure message tells of a timeout or an expired code.
pub fn is_expiry_message(message: &str) -> (r: bool)
    ensures
        r == tells_expiry(message@),
{
    let m = chars_of(message);
    let a = chars_of("超时");
    let b = chars_of("过期");
    find_chars(m.as_slice(), a.as_slice()).is_some() || find_chars(m.as_slice(), b.as_slice()).is_some()
}

/// How a login on the router ends: what it returns and the state the web
/// page is left with. A success reports `done`; a timeout or expired code
/// reports `expired` and keeps the error; any other failure is dropped
/// without a report and the login ends with no cookies. `message` is the
/// text of the error.
pub fn settle_router_login(result: Result<Vec<CookieEntry>, AppError>, message: &str) -> (r: (
    Result<Vec<CookieEntry>, AppError>,
    Option<String>,
))
    ensures
        result is Ok ==> r.0 == result && (r.1 matches Some(j) && j@ == qr_state_text(""@, "done"@)),
        result is Err && tells_expiry(message@) ==> r.0 == result && (r.1 matches Some(j) && j@
            == qr_state_text(""@, "expired"@)),
        result is Err && !tells_expiry(message@) ==> (r.0 matches Ok(v) && v@.len() == 0) && r.1 is None,
{
    match result {
        Ok(c) => (Ok(c), Some(qr_state_json("", "done"))),
        Err(e) => {
            if is_expiry_message(message) {
                (Err(e), Some(qr_state_json("", "expired")))
            } else {
                (Ok(Vec::new()), None)
            }
        },
    }
}

// ---------------------------------------------------------------------------
// The QR code on the terminal
// ---------------------------------------------------------------------------

/// The terminal picture `qrcode` draws of `data`: the code of its bytes at
/// the medium error-correction level, drawn with `Dense1x2` half blocks, dark
/// and light swapped so it reads on a dark terminal; `None` where no QR code
/// holds that much data.
pub uninterp spec fn qr_terminal_art(data: Seq<char>) -> Option<Seq<char>>;

/// `qrcode::QrCode::new` on the bytes of `data`, then `render::<Dense1x2>()`
/// with dark and light swapped and `build()`: the picture, or `None` where
/// `QrCode::new` returns an error.
#[verifier::external_body]
fn render_qr(data: &str) -> (r: Option<String>)
    ensures
        match r {
            Some(a) => qr_terminal_art(data@) == Some(a@),
            None => qr_terminal_art(data@) is None,
        },
{
    match qrcode::QrCode::new(data) {
        Ok(code) => Some(
            code.render::<qrcode::render::unicode::Dense1x2>().dark_color(
                qrcode::render::unicode::Dense1x2::Light,
            ).light_color(qrcode::render::unicode::Dense1x2::Dark).build(),
        ),
        Err(_) => None,
    }
}

/// The text shown for a login QR code: the request to scan it, a line
/// break, then the picture of the address.
pub open spec fn login_qr_text(art: Seq<char>) -> Seq<char> {
    "请使用 B站客户端扫描下方二维码:\n"@ + art
}

/// The text shown for a login QR code; `None` where the address does not fit
/// in a QR code.
pub fn login_qr(url: &str) -> (r: Option<String>)
    ensures
        match qr_terminal_art(url@) {
            Some(a) => r matches Some(t) && t@ == login_qr_text(a),
            None => r is None,
        },
{
    match render_qr(url) {
        Some(art) => {
            let mut out: Vec<char> = Vec::new();
            push_str(&mut out, "请使用 B站客户端扫描下方二维码:\n");
            push_str(&mut out, art.as_str());
            Some(string_from_chars(out.as_slice()))
        },
        None => None,
    }
}

/// The text shown for a face-verification QR code: an empty line, the
/// title, a line break, then the picture of the address.
pub open spec fn face_qr_text(art: Seq<char>) -> Seq<char> {
    "\n人脸验证二维码:\n"@ + art
}

/// The text shown for a face-verification QR code; `None` where the address
/// does not fit in a QR code.
pub fn face_auth_qr(url: &str) -> (r: Option<String>)
    ensures
        match qr_terminal_art(url@) {
            Some(a) => r matches Some(t) && t@ == face_qr_text(a),
            None => r is None,
        },
{
    match render_qr(url) {
        Some(art) => {
            let mut out: Vec<char> = Vec::new();
            push_str(&mut out, "\n人脸验证二维码:\n");
            push_str(&mut out, art.as_str());
            Some(string_from_chars(out.as_slice()))
        },
        None => None,
    }
}

// ---------------------------------------------------------------------------
// The scan login with a cookie manager
// ---------------------------------------------------------------------------

/// The failure of a scan login whose code expired (terminal).
pub const SCAN_EXPIRED_TEXT: &'static str = "二维码已过期，请重试";

/// The failure of a scan login whose code expired (router).
pub const ROUTER_EXPIRED_TEXT: &'static str = "QR code expired";

/// The failure of a scan login that used up its polls.
pub const SCAN_TIMEOUT_TEXT: &'static str = "QR code login timeout (5 minutes)";

/// The failure of a confirmed scan login whose address held no login
/// cookie (terminal).
pub const SCAN_NO_COOKIES_TEXT: &'static str = "Failed to extract cookies from response";

/// The failure of a confirmed scan login whose address held no login
/// cookie (router).
pub const ROUTER_NO_COOKIES_TEXT: &'static str = "Failed to extract cookies";

/// The failure of a scan login whose saved cookie the API does not know.
pub const SCAN_NOT_VERIFIED_TEXT: &'static str = "Cookie验证失败";

/// Whether `e` is a failure described by the text `t`.
pub open spec fn fails_with_text(e: AppError, t: Seq<char>) -> bool {
    e matches AppError::General(m) && m@ == t
}

/// Asked before each poll of a scan login: a timeout failure once
/// `QR_MAX_ATTEMPTS` polls were made, otherwise the poll is counted.
pub fn scan_attempt(poller: &mut QrPoller) -> (r: Result<(), AppError>)
    ensures
        (*final(poller), r is Ok) == attempt_step(*old(poller)),
        r matches Err(e) ==> fails_with_text(e, SCAN_TIMEOUT_TEXT@),
{
    if poller.begin_attempt() {
        Ok(())
    } else {
        Err(AppError::General(SCAN_TIMEOUT_TEXT.to_string()))
    }
}

/// Takes one poll answer of a scan login: `outer_code` is the answer's own
/// code, `status_code` the login status it carries. An answer whose own
/// code is not 0 is skipped (`Ok(None)`); an expired code fails with the
/// terminal's or the router's text; any other status gives the poller's
/// reaction.
pub fn scan_poll_answer(poller: &mut QrPoller, outer_code: i64, status_code: i64, router: bool) -> (r:
    Result<Option<PollReaction>, AppError>)
    ensures
        outer_code != 0 ==> (r matches Ok(None)) && *final(poller) == *old(poller),
        outer_code == 0 && status_of(status_code) == QrStatus::Expired ==> (r matches Err(e)
            && fails_with_text(e, if router { ROUTER_EXPIRED_TEXT@ } else { SCAN_EXPIRED_TEXT@ })),
        outer_code == 0 && status_of(status_code) != QrStatus::Expired ==> r == Ok::<
            Option<PollReaction>,
            AppError,
        >(Some(reaction(*old(poller), status_code))) && *final(poller) == after_answer(
            *old(poller),
            status_code,
        ),
{
    if outer_code != 0 {
        return Ok(None);
    }
    let reaction = poller.react(status_code);
    match reaction {
        PollReaction::Expired => {
            if router {
                Err(AppError::General(ROUTER_EXPIRED_TEXT.to_string()))
            } else {
                Err(AppError::General(SCAN_EXPIRED_TEXT.to_string()))
            }
        },
        _ => Ok(Some(reaction)),
    }
}

/// The login cookies that a confirmed scan login takes from its redirect
/// address: on the router as they are written in the query, on the terminal
/// from the parsed query (none where the address does not parse).
pub open spec fn confirmed_cookies(url: Seq<char>, router: bool) -> Seq<(Seq<char>, Seq<char>)> {
    if router {
        raw_query_cookies(split(raw_query(url), '&'))
    } else {
        match url_query_pairs(url) {
            Some(pairs) => auth_pairs(pairs),
            None => Seq::empty(),
        }
    }
}

/// A confirmed scan login with its redirect address `url`: where the address
/// holds no login cookie, a failure with the terminal's or the router's text
/// and nothing saved; otherwise the cookies are saved in the manager (see
/// `CookieManager::save_cookies`) and their `Cookie` text is returned, for
/// the caller to store and verify.
pub fn scan_confirmed(manager: &mut CookieManager, url: &str, router: bool) -> (r: Result<
    String,
    AppError,
>)
    ensures
        confirmed_cookies(url@, router).len() == 0 ==> (r matches Err(e) && fails_with_text(
            e,
            if router { ROUTER_NO_COOKIES_TEXT@ } else { SCAN_NO_COOKIES_TEXT@ },
        )),
        confirmed_cookies(url@, router).len() == 0 ==> final(manager)@ == old(manager)@,
        confirmed_cookies(url@, router).len() > 0 ==> (r matches Ok(t) && t@ == cookie_text(
            confirmed_cookies(url@, router),
        )),
        confirmed_cookies(url@, router).len() > 0 ==> final(manager)@ == (CookieManagerView {
            cached: Some(cookie_text(confirmed_cookies(url@, router))),
            ..old(manager)@
        }),
{
    let cookies = if router {
        raw_url_cookies(url)
    } else {
        extract_cookies_from_url(url)
    };
    assert(entries_view(cookies@) == confirmed_cookies(url@, router));
    if cookies.len() == 0 {
        if router {
            Err(AppError::General(ROUTER_NO_COOKIES_TEXT.to_string()))
        } else {
            Err(AppError::General(SCAN_NO_COOKIES_TEXT.to_string()))
        }
    } else {
        Ok(manager.save_cookies(cookies.as_slice()))
    }
}

/// The end of a scan login from the answer to the user-info request for the
/// saved cookie: the user where the cookie is logged in; a failure with
/// `SCAN_NOT_VERIFIED_TEXT` where it is not; the request's error as it is.
pub fn scan_verified(answer: Result<Option<UserInfo>, AppError>) -> (r: Result<UserInfo, AppError>)
    ensures
        answer matches Ok(Some(u)) ==> r == Ok::<UserInfo, AppError>(u),
        answer matches Ok(None) ==> (r matches Err(e) && fails_with_text(e, SCAN_NOT_VERIFIED_TEXT@)),
        answer matches Err(e) ==> r == Err::<UserInfo, AppError>(e),
{
    match answer {
        Ok(Some(u)) => Ok(u),
        Ok(None) => Err(AppError::General(SCAN_NOT_VERIFIED_TEXT.to_string())),
        Err(e) => Err(e),
    }
}

// ---------------------------------------------------------------------------
// Making sure of a login at start-up
// ---------------------------------------------------------------------------

/// Whether the run mode needs a login at all: only the automatic mode does,
/// and only then is the stored cookie looked at.
pub fn auth_needed(mode: LiveMode) -> (r: bool)
    ensures
        r == (mode == LiveMode::Auto),
{
    mode == LiveMode::Auto
}

/// The first step of the start-up login check.
#[derive(PartialEq, Eq, Structural, Clone, Copy, Debug)]
pub enum AuthStart {
    /// Manual mode: no login is needed, the cookie is empty.
    Skip,
    /// A cookie is stored: ask the API who it belongs to.
    Verify,
    /// No cookie is stored: log in with a QR code.
    Login,
}

/// The first step of the start-up login check: only the automatic mode needs
/// a login, and a stored cookie is verified before a QR login is started.
pub fn auth_start(mode: LiveMode, cookie: &str) -> (r: AuthStart)
    ensures
        mode != LiveMode::Auto ==> r == AuthStart::Skip,
        mode == LiveMode::Auto && cookie@.len() == 0 ==> r == AuthStart::Login,
        mode == LiveMode::Auto && cookie@.len() > 0 ==> r == AuthStart::Verify,
{
    if mode != LiveMode::Auto {
        AuthStart::Skip
    } else if cookie.unicode_len() == 0 {
        AuthStart::Login
    } else {
        AuthStart::Verify
    }
}

/// What the API said of a cookie.
#[derive(PartialEq, Eq, Structural, Clone, Copy, Debug)]
pub enum CookieVerdict {
    /// It is logged in, as the user with this id.
    Valid(i64),
    /// It is no longer logged in.
    Expired,
    /// The API could not be asked.
    Unreachable,
}

/// The verdict on a cookie from the answer to the user-info request.
pub fn verdict_of(answer: &Result<Option<UserInfo>, AppError>) -> (r: CookieVerdict)
    ensures
        answer matches Ok(Some(info)) ==> r == CookieVerdict::Valid(info.uid),
        answer matches Ok(None) ==> r == CookieVerdict::Expired,
        answer is Err ==> r == CookieVerdict::Unreachable,
{
    match answer {
        Ok(Some(info)) => CookieVerdict::Valid(info.uid),
        Ok(None) => CookieVerdict::Expired,
        Err(_) => CookieVerdict::Unreachable,
    }
}

/// The user name shown for the answer to the user-info request: the name
/// of the logged-in user, or empty.
pub fn user_label(info: &Option<UserInfo>) -> (r: String)
    ensures
        info matches Some(i) ==> r@ == i.uname@,
        info is None ==> r@.len() == 0,
{
    match info {
        Some(i) => i.uname.clone(),
        None => String::new(),
    }
}

/// Whether the room id is looked up from the user: only for a valid cookie,
/// and only while no room id is configured.
pub open spec fn room_lookup(verdict: CookieVerdict, room_id: u64) -> bool {
    verdict is Valid && room_id == 0
}

/// Whether the room id is looked up after a verification.
pub fn needs_room_lookup(verdict: CookieVerdict, room_id: u64) -> (r: bool)
    ensures
        r == room_lookup(verdict, room_id),
{
    match verdict {
        CookieVerdict::Valid(_) => room_id == 0,
        _ => false,
    }
}

/// The step after a stored cookie was verified.
#[derive(PartialEq, Eq, Structural, Clone, Copy, Debug)]
pub enum AuthNext {
    /// Keep the stored cookie, after looking up the room id if `find_room`.
    UseCookie { find_room: bool },
    /// The cookie expired: log in with a QR code.
    Login,
}

/// The step after a stored cookie was verified: a valid cookie is kept; one
/// the API could not be asked about is kept too (a network hiccup is no
/// reason to log in again); an expired one leads to a QR login.
pub fn after_verify(verdict: CookieVerdict, room_id: u64) -> (r: AuthNext)
    ensures
        verdict is Valid ==> r == (AuthNext::UseCookie { find_room: room_id == 0 }),
        verdict is Unreachable ==> r == (AuthNext::UseCookie { find_room: false }),
        verdict is Expired ==> r == AuthNext::Login,
{
    match verdict {
        CookieVerdict::Valid(_) => AuthNext::UseCookie { find_room: needs_room_lookup(verdict, room_id) },
        CookieVerdict::Unreachable => AuthNext::UseCookie { find_room: false },
        CookieVerdict::Expired => AuthNext::Login,
    }
}

} // verus!
