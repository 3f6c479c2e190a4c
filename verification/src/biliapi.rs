//! The Bilibili live API: how requests are built and signed, and what each
//! answer means. Sending the requests and decoding their JSON is done by the
//! caller, which hands the decoded fields to the functions here.

use vstd::prelude::*;
use vstd::string::StringSliceAdditionalSpecFns;

use crate::error::AppError;
use crate::params::{Params, query_text, insert_sorted};
use crate::text::{
    chars_of, decimal, decimal_i64, decimal_u64, hex_lower_bytes, hex_upper, hex_upper_char,
    push_all, push_str, signed_decimal, string_from_chars, to_hex_lower,
};

verus! {

broadcast use vstd::string::group_string_axioms;

/// Application key sent with signed requests.
pub const APP_KEY: &'static str = "aae92bc66f3edfab";

/// Application secret appended to the text that is signed.
pub const APP_SEC: &'static str = "af125a0d5279fd576c1b4418a3e8276d";

// ---------------------------------------------------------------------------
// URL encoding
// ---------------------------------------------------------------------------

/// Bytes that `url_encode` keeps as they are: ASCII letters and digits and
/// `-`, `_`, `.`, `~`.
pub open spec fn unreserved(b: u8) -> bool {
    (48 <= b <= 57) || (65 <= b <= 90) || (97 <= b <= 122) || b == 45 || b == 95 || b == 46
        || b == 126
}

/// One byte, URL-encoded: itself if unreserved, else `%` and two uppercase
/// hex digits.
pub open spec fn encode_byte(b: u8) -> Seq<char> {
    if unreserved(b) {
        seq![b as char]
    } else {
        seq!['%', hex_upper((b / 16) as int), hex_upper((b % 16) as int)]
    }
}

/// The URL encoding of a byte string, byte by byte.
pub open spec fn url_encoded(b: Seq<u8>) -> Seq<char>
    decreases b.len(),
{
    if b.len() == 0 {
        Seq::empty()
    } else {
        url_encoded(b.drop_last()) + encode_byte(b.last())
    }
}

/// A character URL encoding may produce: an unreserved ASCII character
/// (letter, digit, `-`, `_`, `.`, `~`) or `%`.
pub open spec fn url_safe_char(c: char) -> bool {
    let u = c as u32;
    (48 <= u <= 57) || (65 <= u <= 90) || (97 <= u <= 122) || u == 45 || u == 95 || u == 46 || u == 126
        || u == 37
}

/// Law: URL-encoded text holds only unreserved characters and `%`, so no
/// `&`, `=`, space or `+` in a value can break the form it is put in.
pub proof fn law_url_encoding_is_safe(b: Seq<u8>)
    ensures
        forall|i: int| 0 <= i < url_encoded(b).len() ==> url_safe_char(#[trigger] url_encoded(b)[i]),
    decreases b.len(),
{
    if b.len() > 0 {
        law_url_encoding_is_safe(b.drop_last());
        let pre = url_encoded(b.drop_last());
        let last = b.last();
        let e = encode_byte(last);
        assert forall|i: int| 0 <= i < e.len() implies url_safe_char(#[trigger] e[i]) by {
            if unreserved(last) {
                assert(e[i] == last as char);
            } else {
                let hi = (last / 16) as int;
                let lo = (last % 16) as int;
                assert(0 <= hi < 16 && 0 <= lo < 16);
                if i == 1 {
                    assert(e[i] == hex_upper(hi));
                } else if i == 2 {
                    assert(e[i] == hex_upper(lo));
                }
            }
        }
        assert(url_encoded(b) == pre + e);
        assert forall|i: int| 0 <= i < url_encoded(b).len() implies url_safe_char(#[trigger] url_encoded(b)[i]) by {
            if i < pre.len() {
                assert(url_encoded(b)[i] == pre[i]);
            } else {
                assert(url_encoded(b)[i] == e[i - pre.len()]);
            }
        }
    }
}

/// URL-encodes the UTF-8 bytes of `s`.
pub fn url_encode(s: &str) -> (r: String)
    ensures
        r@ == url_encoded(s.spec_bytes()),
{
    let bytes = s.as_bytes();
    let mut out: Vec<char> = Vec::new();
    for i in 0..bytes.len()
        invariant
            bytes@ == s.spec_bytes(),
            out@ == url_encoded(bytes@.take(i as int)),
    {
        let b = bytes[i];
        assert(bytes@.take(i + 1).drop_last() == bytes@.take(i as int));
        let is_unreserved = (48 <= b && b <= 57) || (65 <= b && b <= 90) || (97 <= b && b <= 122)
            || b == 45 || b == 95 || b == 46 || b == 126;
        if is_unreserved {
            out.push(b as char);
        } else {
            out.push('%');
            out.push(hex_upper_char(b / 16));
            out.push(hex_upper_char(b % 16));
        }
        assert(out@ =~= url_encoded(bytes@.take(i as int)) + encode_byte(b));
    }
    assert(bytes@.take(bytes@.len() as int) == bytes@);
    string_from_chars(out.as_slice())
}

// ---------------------------------------------------------------------------
// Signing
// ---------------------------------------------------------------------------

/// The MD5 digest of a byte string.
pub uninterp spec fn md5_digest(data: Seq<u8>) -> Seq<u8>;

/// `md5::compute`: the 16-byte MD5 digest of `data`.
#[verifier::external_body]
fn md5_compute(data: &[u8]) -> (r: Vec<u8>)
    ensures
        r@ == md5_digest(data@),
        r@.len() == 16,
{
    md5::compute(data).0.to_vec()
}

/// The signature of a parameter listing: the lowercase hex MD5 of its query
/// text followed by the application secret.
pub open spec fn sign_of(s: Seq<(Seq<char>, Seq<char>)>) -> Seq<char> {
    hex_lower_bytes(
        md5_digest(vstd::utf8::encode_utf8(query_text(s) + APP_SEC@)),
    )
}

/// Signs a parameter listing (see `sign_of`).
pub fn calculate_sign(params: &Params) -> (r: String)
    ensures
        r@ == sign_of(params@),
        r@.len() == 32,
{
    let query = params.to_query();
    let mut text: Vec<char> = chars_of(query.as_str());
    push_str(&mut text, APP_SEC);
    let signed = string_from_chars(text.as_slice());
    let digest = md5_compute(signed.as_str().as_bytes());
    let hex = to_hex_lower(digest.as_slice());
    proof {
        crate::text::lemma_hex_lower_bytes_len(digest@);
    }
    string_from_chars(hex.as_slice())
}

/// The listing with the application key added.
pub open spec fn with_app_key(s: Seq<(Seq<char>, Seq<char>)>) -> Seq<(Seq<char>, Seq<char>)> {
    insert_sorted(s, "appkey"@, APP_KEY@)
}

/// The signed query text of a listing: the application key added, then the
/// signature of that listing added as `sign`, all in key order.
pub open spec fn signed_query(s: Seq<(Seq<char>, Seq<char>)>) -> Seq<char> {
    query_text(insert_sorted(with_app_key(s), "sign"@, sign_of(with_app_key(s))))
}

/// Adds the application key and the signature to the parameters and returns
/// them as query text.
pub fn build_signed_params(params: Params) -> (r: String)
    ensures
        r@ == signed_query(params@),
        sign_of(with_app_key(params@)).len() == 32,
{
    let mut params = params;
    params.insert("appkey".to_string(), APP_KEY.to_string());
    let sign = calculate_sign(&params);
    params.insert("sign".to_string(), sign);
    params.to_query()
}

// ---------------------------------------------------------------------------
// Requests
// ---------------------------------------------------------------------------

/// Operation names used in errors.
pub const OP_USER_INFO: &'static str = "GetUserInfo";

pub const OP_GET_ROOM_ID: &'static str = "GetRoomId";

pub const OP_GET_STREAM_INFO: &'static str = "GetStreamInfo";

pub const OP_UPDATE_ROOM: &'static str = "UpdateRoom";

pub const OP_GET_LIVE_VERSION: &'static str = "GetLiveVersion";

pub const OP_START_LIVE: &'static str = "StartLive";

pub const OP_STOP_LIVE: &'static str = "StopLive";

/// Which `startLive` request to send: the signed one of the live streaming
/// client, or the plain one of the web page.
pub enum StartLiveMode {
    Full,
    Simple,
}

/// The parameters of `startLive`, before any signing: room, area, platform,
/// no backup stream, the CSRF token twice, and the title when one is given
/// and not empty.
pub open spec fn start_live_listing(
    room_id: u64,
    area_v2: Seq<char>,
    csrf: Seq<char>,
    title: Option<Seq<char>>,
) -> Seq<(Seq<char>, Seq<char>)> {
    let s0 = Seq::<(Seq<char>, Seq<char>)>::empty();
    let s1 = insert_sorted(s0, "room_id"@, decimal(room_id as nat));
    let s2 = insert_sorted(s1, "area_v2"@, area_v2);
    let s3 = insert_sorted(s2, "platform"@, "pc_link"@);
    let s4 = insert_sorted(s3, "backup_stream"@, "0"@);
    let s5 = insert_sorted(s4, "csrf"@, csrf);
    let s6 = insert_sorted(s5, "csrf_token"@, csrf);
    match title {
        Some(t) => if t.len() > 0 {
            insert_sorted(s6, "title"@, t)
        } else {
            s6
        },
        None => s6,
    }
}

/// The parameters of `startLive` (see `start_live_listing`).
pub fn start_live_params(room_id: u64, area_v2: &str, csrf: &str, title: Option<&str>) -> (r:
    Params)
    ensures
        r@ == start_live_listing(
            room_id,
            area_v2@,
            csrf@,
            match title {
                Some(t) => Some(t@),
                None => None,
            },
        ),
{
    let mut p = Params::new();
    let room = decimal_u64(room_id);
    p.insert("room_id".to_string(), string_from_chars(room.as_slice()));
    p.insert("area_v2".to_string(), area_v2.to_string());
    p.insert("platform".to_string(), "pc_link".to_string());
    p.insert("backup_stream".to_string(), "0".to_string());
    p.insert("csrf".to_string(), csrf.to_string());
    p.insert("csrf_token".to_string(), csrf.to_string());
    if let Some(t) = title {
        if !t.is_empty() {
            p.insert("title".to_string(), t.to_string());
        }
    }
    p
}

/// The body of the signed `startLive` request: the parameters with the
/// client's version and build and the time, signed.
pub fn start_live_full_body(params: Params, version: String, build: i64, ts: u64) -> (r: String)
    ensures
        r@ == signed_query(
            insert_sorted(
                insert_sorted(insert_sorted(params@, "version"@, version@), "build"@, signed_decimal(build as int)),
                "ts"@,
                decimal(ts as nat),
            ),
        ),
{
    let mut params = params;
    params.insert("version".to_string(), version);
    let b = decimal_i64(build);
    params.insert("build".to_string(), string_from_chars(b.as_slice()));
    let t = decimal_u64(ts);
    params.insert("ts".to_string(), string_from_chars(t.as_slice()));
    build_signed_params(params)
}

/// The body of the plain `startLive` request: the parameters as query text.
pub fn start_live_simple_body(params: &Params) -> (r: String)
    ensures
        r@ == query_text(params@),
{
    params.to_query()
}

/// Address of the request for the live streaming client's current version.
pub open spec fn live_version_url_text(ts: u64) -> Seq<char> {
    "https://api.live.bilibili.com/xlive/app-blink/v1/liveVersionInfo/getHomePageLiveVersion?"@
        + signed_query(
        insert_sorted(
            insert_sorted(Seq::empty(), "system_version"@, "2"@),
            "ts"@,
            decimal(ts as nat),
        ),
    )
}

/// The signed address that asks for the live streaming client's version.
pub fn live_version_url(ts: u64) -> (r: String)
    ensures
        r@ == live_version_url_text(ts),
{
    let mut p = Params::new();
    p.insert("system_version".to_string(), "2".to_string());
    let t = decimal_u64(ts);
    p.insert("ts".to_string(), string_from_chars(t.as_slice()));
    let signed = build_signed_params(p);
    let mut out: Vec<char> = Vec::new();
    push_str(
        &mut out,
        "https://api.live.bilibili.com/xlive/app-blink/v1/liveVersionInfo/getHomePageLiveVersion?",
    );
    let sc = chars_of(signed.as_str());
    push_all(&mut out, sc.as_slice());
    string_from_chars(out.as_slice())
}

/// The signed body of `stopLive`.
pub fn stop_live_body(csrf: &str, room_id: u64) -> (r: String)
    ensures
        r@ == signed_query(
            insert_sorted(
                insert_sorted(
                    insert_sorted(insert_sorted(Seq::empty(), "csrf"@, csrf@), "csrf_token"@, csrf@),
                    "platform"@,
                    "pc_link"@,
                ),
                "room_id"@,
                decimal(room_id as nat),
            ),
        ),
{
    let mut p = Params::new();
    p.insert("csrf".to_string(), csrf.to_string());
    p.insert("csrf_token".to_string(), csrf.to_string());
    p.insert("platform".to_string(), "pc_link".to_string());
    let r = decimal_u64(room_id);
    p.insert("room_id".to_string(), string_from_chars(r.as_slice()));
    build_signed_params(p)
}

/// The form body of the room update: room, CSRF token twice, then the
/// URL-encoded title and area when given.
pub open spec fn update_room_text(
    room_id: u64,
    csrf: Seq<char>,
    title: Option<Seq<u8>>,
    area_id: Option<Seq<u8>>,
) -> Seq<char> {
    let base = "room_id="@ + decimal(room_id as nat) + "&csrf="@ + csrf + "&csrf_token="@ + csrf;
    let with_title = match title {
        Some(t) => base + "&title="@ + url_encoded(t),
        None => base,
    };
    match area_id {
        Some(a) => with_title + "&area_id="@ + url_encoded(a),
        None => with_title,
    }
}

/// The form body of the room update (see `update_room_text`).
pub fn update_room_body(room_id: u64, csrf: &str, title: Option<&str>, area_id: Option<&str>) -> (r:
    String)
    ensures
        r@ == update_room_text(
            room_id,
            csrf@,
            match title {
                Some(t) => Some(t.spec_bytes()),
                None => None,
            },
            match area_id {
                Some(a) => Some(a.spec_bytes()),
                None => None,
            },
        ),
{
    let mut out: Vec<char> = Vec::new();
    push_str(&mut out, "room_id=");
    let r = decimal_u64(room_id);
    push_all(&mut out, r.as_slice());
    push_str(&mut out, "&csrf=");
    push_str(&mut out, csrf);
    push_str(&mut out, "&csrf_token=");
    push_str(&mut out, csrf);
    if let Some(t) = title {
        push_str(&mut out, "&title=");
        let e = url_encode(t);
        push_str(&mut out, e.as_str());
    }
    if let Some(a) = area_id {
        push_str(&mut out, "&area_id=");
        let e = url_encode(a);
        push_str(&mut out, e.as_str());
    }
    string_from_chars(out.as_slice())
}

/// The face verification page for the user `uid`.
pub fn face_auth_url(uid: &str) -> (r: String)
    ensures
        r@ == "https://www.bilibili.com/blackboard/live/face-auth-middle.html?source_event=400&mid="@
            + uid@,
{
    let mut out: Vec<char> = Vec::new();
    push_str(
        &mut out,
        "https://www.bilibili.com/blackboard/live/face-auth-middle.html?source_event=400&mid=",
    );
    push_str(&mut out, uid);
    string_from_chars(out.as_slice())
}

// ---------------------------------------------------------------------------
// Answers
// ---------------------------------------------------------------------------

/// A logged-in user.
#[derive(Clone, Debug)]
pub struct UserInfo {
    pub uname: String,
    pub uid: i64,
}

/// What the room's play information says of its stream.
#[derive(PartialEq, Eq, Structural)]
pub enum StreamInfo {
    /// No play information: the room is not live.
    Offline,
    /// Live, but fewer than three stream formats are offered yet.
    FakeLive,
    /// Live with at least three stream formats: the video arrives.
    Live,
}

/// The outcome of a `startLive` request that the API answered.
pub enum StartLiveResult {
    Success { rtmp_url: String, stream_key: String },
    Failed { code: i32, message: String, face_auth_url: Option<String> },
}

/// The fields every JSON answer of the web API may carry.
pub struct ApiReply {
    /// `code`, where it is an integer.
    pub code: Option<i64>,
    /// `msg`, where it is a string.
    pub msg: Option<String>,
    /// `message`, where it is a string.
    pub message: Option<String>,
}

/// The error text of an answer: `msg`, else `message`, else empty.
pub open spec fn reply_message(r: ApiReply) -> Seq<char> {
    match r.msg {
        Some(m) => m@,
        None => match r.message {
            Some(m) => m@,
            None => Seq::empty(),
        },
    }
}

/// The code of an answer, -1 where it has none.
pub open spec fn reply_code(r: ApiReply) -> i64 {
    match r.code {
        Some(c) => c,
        None => -1i64,
    }
}

/// Whether `r` failed with the error of operation `op` with `code` and
/// `message`.
pub open spec fn fails_with<T>(r: Result<T, AppError>, op: Seq<char>, code: i64, message: Seq<char>) -> bool {
    r matches Err(e) && is_api_error(e, op, code, message)
}

/// Whether `e` is the error of operation `op` with `code` and `message`.
pub open spec fn is_api_error(e: AppError, op: Seq<char>, code: i64, message: Seq<char>) -> bool {
    e matches AppError::BiliApi { operation, code: c, message: m } && operation@ == op && c == code
        && m@ == message
}

fn reply_message_exec(r: &ApiReply) -> (m: String)
    ensures
        m@ == reply_message(*r),
{
    match &r.msg {
        Some(m) => m.clone(),
        None => match &r.message {
            Some(m) => m.clone(),
            None => String::new(),
        },
    }
}

fn reply_code_exec(r: &ApiReply) -> (c: i64)
    ensures
        c == reply_code(*r),
{
    match r.code {
        Some(c) => c,
        None => -1,
    }
}

/// The answer of the navigation endpoint, which tells whether the cookie is
/// logged in: code -101 means not logged in (`None`); another non-zero code
/// is an error; otherwise the user's name (`?` when missing) and id, where a
/// missing or zero id is an error.
pub fn interpret_user_info(reply: &ApiReply, uname: Option<String>, mid: Option<i64>) -> (r:
    Result<Option<UserInfo>, AppError>)
    ensures
        reply_code(*reply) == -101 ==> r matches Ok(None),
        reply_code(*reply) != 0 && reply_code(*reply) != -101 ==> fails_with(r, OP_USER_INFO@, reply_code(*reply), reply_message(*reply)),
        reply_code(*reply) == 0 && (mid is None || mid == Some(0i64)) ==> fails_with(r, OP_USER_INFO@, 0, "响应结构异常: mid=0"@),
        mid matches Some(m) ==> (reply_code(*reply) == 0 && m != 0 ==> (r matches Ok(Some(info))
            && info.uid == m && info.uname@ == (match uname {
            Some(n) => n@,
            None => "?"@,
        }))),
{
    let code = reply_code_exec(reply);
    if code != 0 {
        if code == -101 {
            return Ok(None);
        }
        return Err(AppError::bili_api(OP_USER_INFO, code, reply_message_exec(reply)));
    }
    let uname = match uname {
        Some(n) => n,
        None => "?".to_string(),
    };
    let uid = match mid {
        Some(m) => m,
        None => 0,
    };
    if uid == 0 {
        return Err(AppError::bili_api(OP_USER_INFO, 0, "响应结构异常: mid=0".to_string()));
    }
    Ok(Some(UserInfo { uname, uid }))
}

/// The answer of the room status endpoint: a non-zero code is an error; the
/// user's `room_id` when it is a positive number; otherwise the account has
/// no live room.
pub fn interpret_room_id(reply: &ApiReply, room_id: Option<u64>) -> (r: Result<u64, AppError>)
    ensures
        reply_code(*reply) != 0 ==> fails_with(r, OP_GET_ROOM_ID@, reply_code(*reply), reply_message(*reply)),
        reply_code(*reply) == 0 && room_id is Some && room_id->0 > 0 ==> r == Ok::<u64, AppError>(
            room_id->0,
        ),
        reply_code(*reply) == 0 && !(room_id matches Some(id) && id > 0) ==> fails_with(r, OP_GET_ROOM_ID@, 0, "该账号未开通直播间"@),
{
    let code = reply_code_exec(reply);
    if code != 0 {
        return Err(AppError::bili_api(OP_GET_ROOM_ID, code, reply_message_exec(reply)));
    }
    if let Some(id) = room_id {
        if id > 0 {
            return Ok(id);
        }
    }
    Err(AppError::bili_api(OP_GET_ROOM_ID, 0, "该账号未开通直播间".to_string()))
}

/// Total number of formats over the streams that list formats.
pub open spec fn format_total(counts: Seq<Option<usize>>) -> int
    decreases counts.len(),
{
    if counts.len() == 0 {
        0
    } else {
        format_total(counts.drop_last()) + match counts.last() {
            Some(n) => n as int,
            None => 0,
        }
    }
}

proof fn lemma_format_total_nonneg(counts: Seq<Option<usize>>)
    ensures
        format_total(counts) >= 0,
    decreases counts.len(),
{
    if counts.len() > 0 {
        lemma_format_total_nonneg(counts.drop_last());
    }
}

/// The answer of the play information endpoint: a non-zero code is an
/// error; no play information means `Offline`; at least three formats over
/// the listed streams means `Live`; anything else `FakeLive`.
///
/// `streams` holds, for each stream, the number of its formats (`None` where
/// the stream lists none); it is `None` where the answer has no stream list.
pub fn interpret_stream_info(
    reply: &ApiReply,
    has_playurl_info: bool,
    streams: Option<Vec<Option<usize>>>,
) -> (r: Result<StreamInfo, AppError>)
    ensures
        reply_code(*reply) != 0 ==> fails_with(r, OP_GET_STREAM_INFO@, reply_code(*reply), reply_message(*reply)),
        reply_code(*reply) == 0 && !has_playurl_info ==> r == Ok::<StreamInfo, AppError>(
            StreamInfo::Offline,
        ),
        reply_code(*reply) == 0 && has_playurl_info ==> r == Ok::<StreamInfo, AppError>(
            if streams matches Some(v) && format_total(v@) >= 3 {
                StreamInfo::Live
            } else {
                StreamInfo::FakeLive
            },
        ),
{
    let code = reply_code_exec(reply);
    if code != 0 {
        return Err(AppError::bili_api(OP_GET_STREAM_INFO, code, reply_message_exec(reply)));
    }
    if !has_playurl_info {
        return Ok(StreamInfo::Offline);
    }
    if let Some(v) = streams {
        let mut total: usize = 0;
        let mut i: usize = 0;
        assert(v@.take(v@.len() as int) == v@);
        while i < v.len()
            invariant_except_break
                i <= v@.len(),
                total < 3,
                total == format_total(v@.take(i as int)),
                v@.take(v@.len() as int) == v@,
            ensures
                (total >= 3) == (format_total(v@) >= 3),
            decreases v.len() - i,
        {
            assert(v@.take(i + 1).drop_last() == v@.take(i as int));
            let add: usize = match v[i] {
                Some(n) => n,
                None => 0,
            };
            assert(v@.take(i + 1).last() == v@[i as int]);
            if add >= 3 - total {
                proof {
                    lemma_format_total_at_least(v@, i as int + 1);
                }
                total = 3;
                break;
            }
            total = total + add;
            i = i + 1;
        }
        if total >= 3 {
            return Ok(StreamInfo::Live);
        }
    }
    Ok(StreamInfo::FakeLive)
}

proof fn lemma_format_total_at_least(counts: Seq<Option<usize>>, k: int)
    requires
        0 <= k <= counts.len(),
    ensures
        format_total(counts) >= format_total(counts.take(k)),
    decreases counts.len() - k,
{
    if k < counts.len() {
        assert(counts.take(counts.len() as int) == counts);
        lemma_format_total_at_least(counts.drop_last(), if k <= counts.len() - 1 {
            k
        } else {
            counts.len() - 1
        });
        assert(counts.drop_last().take(k) == counts.take(k));
    } else {
        assert(counts.take(k) == counts);
    }
}

/// The version of the live streaming client, from its JSON answer: a
/// non-zero code is an error; the answer must hold data.
pub fn interpret_live_version(code: i32, message: String, data: Option<(String, i64)>) -> (r:
    Result<(String, i64), AppError>)
    ensures
        code != 0 ==> fails_with(r, OP_GET_LIVE_VERSION@, code as i64, message@),
        code == 0 && data is None ==> fails_with(r, OP_GET_LIVE_VERSION@, 0, "响应结构异常: data=null"@),
        data matches Some((v, b)) ==> (code == 0 ==> (r matches Ok((v2, b2)) && v2@ == v@ && b2 == b)),
{
    if code != 0 {
        return Err(AppError::bili_api(OP_GET_LIVE_VERSION, code as i64, message));
    }
    match data {
        Some(d) => Ok(d),
        None => Err(AppError::bili_api(OP_GET_LIVE_VERSION, 0, "响应结构异常: data=null".to_string())),
    }
}

/// The `data` of a `startLive` answer.
pub struct StartLiveData {
    /// `rtmp.addr`: the ingest address.
    pub rtmp_addr: String,
    /// `rtmp.code`: the stream key.
    pub rtmp_code: String,
    /// `qr`: the face verification page, when the API sends one.
    pub qr: Option<String>,
}

/// What a `startLive` answer means: code 0 is success with the ingest
/// address and key (an error where the data is missing); 60024 asks for
/// face verification at the page the answer gives; 60043 asks for it at the
/// user's verification page (when the user id is known); any other code is a
/// failure with the answer's message.
pub fn interpret_start_live(
    code: i32,
    message: String,
    data: Option<StartLiveData>,
    uid: Option<&str>,
) -> (r: Result<StartLiveResult, AppError>)
    ensures
        code == 0 && data is None ==> fails_with(r, OP_START_LIVE@, 0, "响应结构异常: data=null"@),
        data matches Some(d) ==> (code == 0 ==> (r matches Ok(
            StartLiveResult::Success { rtmp_url, stream_key },
        ) && rtmp_url@ == d.rtmp_addr@ && stream_key@ == d.rtmp_code@)),
        code == 60024 ==> (r matches Ok(StartLiveResult::Failed { code: c, message: m, face_auth_url })
            && c == 60024 && m@ == message@ && face_auth_url == (match data {
            Some(d) => d.qr,
            None => None,
        })),
        code == 60043 ==> (r matches Ok(StartLiveResult::Failed { code: c, message: m, face_auth_url })
            && c == 60043 && m@ == message@ && (uid is None <==> face_auth_url is None) && (
        uid is Some ==> face_auth_url->0@
            == "https://www.bilibili.com/blackboard/live/face-auth-middle.html?source_event=400&mid="@
            + uid->0@)),
        code != 0 && code != 60024 && code != 60043 ==> (r matches Ok(
            StartLiveResult::Failed { code: c, message: m, face_auth_url: None },
        ) && c == code && m@ == message@),
{
    if code == 0 {
        match data {
            Some(d) => Ok(StartLiveResult::Success { rtmp_url: d.rtmp_addr, stream_key: d.rtmp_code }),
            None => Err(AppError::bili_api(OP_START_LIVE, 0, "响应结构异常: data=null".to_string())),
        }
    } else if code == 60024 {
        let qr = match data {
            Some(d) => d.qr,
            None => None,
        };
        Ok(StartLiveResult::Failed { code: 60024, message, face_auth_url: qr })
    } else if code == 60043 {
        let url = match uid {
            Some(u) => Some(face_auth_url(u)),
            None => None,
        };
        Ok(StartLiveResult::Failed { code: 60043, message, face_auth_url: url })
    } else {
        Ok(StartLiveResult::Failed { code, message, face_auth_url: None })
    }
}

/// What a `stopLive` answer means: code 0 is success, anything else an error
/// with the answer's message.
pub fn interpret_stop_live(code: i32, message: String) -> (r: Result<(), AppError>)
    ensures
        code == 0 ==> r is Ok,
        code != 0 ==> fails_with(r, OP_STOP_LIVE@, code as i64, message@),
{
    if code == 0 {
        Ok(())
    } else {
        Err(AppError::bili_api(OP_STOP_LIVE, code as i64, message))
    }
}

/// What the room update's answer means: code 0 is success, anything else
/// (a missing code counting as -1) an error.
pub fn interpret_update_room(reply: &ApiReply) -> (r: Result<(), AppError>)
    ensures
        reply_code(*reply) == 0 ==> r is Ok,
        reply_code(*reply) != 0 ==> fails_with(r, OP_UPDATE_ROOM@, reply_code(*reply), reply_message(*reply)),
{
    let code = reply_code_exec(reply);
    if code != 0 {
        return Err(AppError::bili_api(OP_UPDATE_ROOM, code, reply_message_exec(reply)));
    }
    Ok(())
}

} // verus!
