use pslinkb::biliapi::{
    build_signed_params, calculate_sign, face_auth_url, interpret_live_version, interpret_room_id,
    interpret_start_live, interpret_stop_live, interpret_stream_info, interpret_update_room,
    interpret_user_info, live_version_url, start_live_full_body, start_live_params,
    start_live_simple_body, stop_live_body, update_room_body, url_encode, ApiReply, StartLiveData,
    StartLiveResult, StreamInfo, APP_KEY, APP_SEC,
};
use pslinkb::error::AppError;
use pslinkb::params::Params;

fn reply(code: Option<i64>, msg: Option<&str>, message: Option<&str>) -> ApiReply {
    ApiReply { code, msg: msg.map(|s| s.to_string()), message: message.map(|s| s.to_string()) }
}

fn api_error<T>(r: Result<T, AppError>) -> (String, i64, String) {
    match r {
        Err(AppError::BiliApi { operation, code, message }) => (operation, code, message),
        Err(AppError::General(m)) => panic!("general error {}", m),
        Ok(_) => panic!("expected an error"),
    }
}

// ---------------------------------------------------------------------------
// Encoding and signing
// ---------------------------------------------------------------------------

#[test]
fn url_encode_keeps_unreserved_and_escapes_the_rest() {
    assert_eq!(url_encode("Abc-_.~09"), "Abc-_.~09");
    assert_eq!(url_encode("a b&c=d"), "a%20b%26c%3Dd");
    assert_eq!(url_encode("我的 直播!"), "%E6%88%91%E7%9A%84%20%E7%9B%B4%E6%92%AD%21");
    assert_eq!(url_encode(""), "");
}

#[test]
fn params_are_listed_in_key_order() {
    let mut p = Params::new();
    p.insert("room_id".to_string(), "123".to_string());
    p.insert("platform".to_string(), "pc_link".to_string());
    p.insert("appkey".to_string(), APP_KEY.to_string());
    assert_eq!(p.to_query(), "appkey=aae92bc66f3edfab&platform=pc_link&room_id=123");
    p.insert("platform".to_string(), "android".to_string());
    assert_eq!(p.to_query(), "appkey=aae92bc66f3edfab&platform=android&room_id=123");
}

#[test]
fn sign_is_md5_of_query_and_secret() {
    let mut p = Params::new();
    p.insert("room_id".to_string(), "123".to_string());
    p.insert("platform".to_string(), "pc_link".to_string());
    p.insert("appkey".to_string(), APP_KEY.to_string());
    assert_eq!(calculate_sign(&p), "d2cecd8f1551bc277830999bd859eb56");
    assert_eq!(APP_SEC.len(), 32);
}

#[test]
fn signed_params_carry_appkey_and_sign() {
    let mut p = Params::new();
    p.insert("room_id".to_string(), "123".to_string());
    p.insert("platform".to_string(), "pc_link".to_string());
    assert_eq!(
        build_signed_params(p),
        "appkey=aae92bc66f3edfab&platform=pc_link&room_id=123&sign=d2cecd8f1551bc277830999bd859eb56"
    );
}

#[test]
fn stop_live_body_is_signed() {
    assert_eq!(
        stop_live_body("tok", 42),
        "appkey=aae92bc66f3edfab&csrf=tok&csrf_token=tok&platform=pc_link&room_id=42&sign=e11806ae27695d2f61b97788edaff567"
    );
}

#[test]
fn live_version_url_is_signed() {
    assert_eq!(
        live_version_url(1700000000),
        "https://api.live.bilibili.com/xlive/app-blink/v1/liveVersionInfo/getHomePageLiveVersion?appkey=aae92bc66f3edfab&sign=a98e8814240417bed555873f3892c131&system_version=2&ts=1700000000"
    );
}

#[test]
fn start_live_bodies() {
    let p = start_live_params(42, "236", "tok", Some("T"));
    assert_eq!(
        start_live_simple_body(&p),
        "area_v2=236&backup_stream=0&csrf=tok&csrf_token=tok&platform=pc_link&room_id=42&title=T"
    );
    assert_eq!(
        start_live_full_body(p, "7.1.0".to_string(), 9000, 1700000000),
        "appkey=aae92bc66f3edfab&area_v2=236&backup_stream=0&build=9000&csrf=tok&csrf_token=tok&platform=pc_link&room_id=42&sign=b2e478ee26d99226159dd0359e1370af&title=T&ts=1700000000&version=7.1.0"
    );
}

#[test]
fn empty_or_missing_title_is_left_out() {
    let p = start_live_params(42, "236", "tok", Some(""));
    assert_eq!(
        start_live_simple_body(&p),
        "area_v2=236&backup_stream=0&csrf=tok&csrf_token=tok&platform=pc_link&room_id=42"
    );
    let p = start_live_params(42, "236", "tok", None);
    assert_eq!(
        start_live_simple_body(&p),
        "area_v2=236&backup_stream=0&csrf=tok&csrf_token=tok&platform=pc_link&room_id=42"
    );
}

#[test]
fn update_room_body_encodes_title_and_area() {
    assert_eq!(
        update_room_body(42, "tok", Some("我的 直播!"), Some("236")),
        "room_id=42&csrf=tok&csrf_token=tok&title=%E6%88%91%E7%9A%84%20%E7%9B%B4%E6%92%AD%21&area_id=236"
    );
    assert_eq!(update_room_body(42, "tok", None, None), "room_id=42&csrf=tok&csrf_token=tok");
}

#[test]
fn face_auth_page_for_a_user() {
    assert_eq!(
        face_auth_url("12345"),
        "https://www.bilibili.com/blackboard/live/face-auth-middle.html?source_event=400&mid=12345"
    );
}

// ---------------------------------------------------------------------------
// Reading answers
// ---------------------------------------------------------------------------

#[test]
fn user_info_answers() {
    let ok = interpret_user_info(&reply(Some(0), None, Some("0")), Some("alice".to_string()), Some(77));
    match ok {
        Ok(Some(info)) => {
            assert_eq!(info.uname, "alice");
            assert_eq!(info.uid, 77);
        }
        _ => panic!("expected a user"),
    }
    let unnamed = interpret_user_info(&reply(Some(0), None, None), None, Some(5));
    assert!(matches!(unnamed, Ok(Some(ref i)) if i.uname == "?"));
    assert!(matches!(interpret_user_info(&reply(Some(-101), None, Some("账号未登录")), None, None), Ok(None)));
    let (op, code, msg) = api_error(interpret_user_info(&reply(Some(-412), Some("风控"), Some("x")), None, None));
    assert_eq!((op.as_str(), code, msg.as_str()), ("GetUserInfo", -412, "风控"));
    let (op, code, msg) = api_error(interpret_user_info(&reply(None, None, None), None, None));
    assert_eq!((op.as_str(), code, msg.as_str()), ("GetUserInfo", -1, ""));
    let (_, code, msg) = api_error(interpret_user_info(&reply(Some(0), None, None), None, Some(0)));
    assert_eq!((code, msg.as_str()), (0, "响应结构异常: mid=0"));
}

#[test]
fn room_id_answers() {
    assert!(matches!(interpret_room_id(&reply(Some(0), None, None), Some(99)), Ok(99)));
    let (op, code, msg) = api_error(interpret_room_id(&reply(Some(0), None, None), Some(0)));
    assert_eq!((op.as_str(), code, msg.as_str()), ("GetRoomId", 0, "该账号未开通直播间"));
    let (_, code, msg) = api_error(interpret_room_id(&reply(Some(0), None, None), None));
    assert_eq!((code, msg.as_str()), (0, "该账号未开通直播间"));
    let (_, code, msg) = api_error(interpret_room_id(&reply(Some(1), None, Some("bad")), Some(9)));
    assert_eq!((code, msg.as_str()), (1, "bad"));
}

#[test]
fn stream_info_answers() {
    let r0 = reply(Some(0), None, None);
    assert!(interpret_stream_info(&r0, false, None).ok() == Some(StreamInfo::Offline));
    assert!(interpret_stream_info(&r0, true, None).ok() == Some(StreamInfo::FakeLive));
    assert!(interpret_stream_info(&r0, true, Some(vec![Some(1), None, Some(1)])).ok() == Some(StreamInfo::FakeLive));
    assert!(interpret_stream_info(&r0, true, Some(vec![Some(2), Some(1)])).ok() == Some(StreamInfo::Live));
    let (op, code, _) = api_error(interpret_stream_info(&reply(Some(19002), None, None), true, None));
    assert_eq!((op.as_str(), code), ("GetStreamInfo", 19002));
}

#[test]
fn live_version_answers() {
    assert!(matches!(
        interpret_live_version(0, "0".to_string(), Some(("7.1.0".to_string(), 9000))),
        Ok((ref v, 9000)) if v == "7.1.0"
    ));
    let (op, code, msg) = api_error(interpret_live_version(0, "0".to_string(), None));
    assert_eq!((op.as_str(), code, msg.as_str()), ("GetLiveVersion", 0, "响应结构异常: data=null"));
    let (_, code, msg) = api_error(interpret_live_version(-400, "bad".to_string(), None));
    assert_eq!((code, msg.as_str()), (-400, "bad"));
}

fn data(qr: Option<&str>) -> StartLiveData {
    StartLiveData {
        rtmp_addr: "rtmp://live-push.bilivideo.com/live-bvc/".to_string(),
        rtmp_code: "?streamname=live_1".to_string(),
        qr: qr.map(|s| s.to_string()),
    }
}

#[test]
fn start_live_success_and_missing_data() {
    match interpret_start_live(0, "0".to_string(), Some(data(None)), None) {
        Ok(StartLiveResult::Success { rtmp_url, stream_key }) => {
            assert_eq!(rtmp_url, "rtmp://live-push.bilivideo.com/live-bvc/");
            assert_eq!(stream_key, "?streamname=live_1");
        }
        _ => panic!("expected success"),
    }
    let (op, code, msg) = api_error(interpret_start_live(0, "0".to_string(), None, None));
    assert_eq!((op.as_str(), code, msg.as_str()), ("StartLive", 0, "响应结构异常: data=null"));
}

#[test]
fn start_live_face_verification_answers() {
    match interpret_start_live(60024, "需要人脸".to_string(), Some(data(Some("https://qr"))), Some("1")) {
        Ok(StartLiveResult::Failed { code, message, face_auth_url }) => {
            assert_eq!(code, 60024);
            assert_eq!(message, "需要人脸");
            assert_eq!(face_auth_url.as_deref(), Some("https://qr"));
        }
        _ => panic!("expected a face verification request"),
    }
    match interpret_start_live(60043, "实名".to_string(), None, Some("12345")) {
        Ok(StartLiveResult::Failed { code, face_auth_url, .. }) => {
            assert_eq!(code, 60043);
            assert_eq!(
                face_auth_url.as_deref(),
                Some("https://www.bilibili.com/blackboard/live/face-auth-middle.html?source_event=400&mid=12345")
            );
        }
        _ => panic!("expected a face verification request"),
    }
    assert!(matches!(
        interpret_start_live(60043, "实名".to_string(), None, None),
        Ok(StartLiveResult::Failed { face_auth_url: None, .. })
    ));
}

#[test]
fn start_live_other_failures() {
    match interpret_start_live(-400, "参数错误".to_string(), None, None) {
        Ok(StartLiveResult::Failed { code, message, face_auth_url }) => {
            assert_eq!(code, -400);
            assert_eq!(message, "参数错误");
            assert!(face_auth_url.is_none());
        }
        _ => panic!("expected a failure"),
    }
}

#[test]
fn stop_live_and_update_room_answers() {
    assert!(interpret_stop_live(0, "0".to_string()).is_ok());
    let (op, code, msg) = api_error(interpret_stop_live(160000, "未开播".to_string()));
    assert_eq!((op.as_str(), code, msg.as_str()), ("StopLive", 160000, "未开播"));
    assert!(interpret_update_room(&reply(Some(0), None, None)).is_ok());
    let (op, code, msg) = api_error(interpret_update_room(&reply(Some(1), Some("m1"), Some("m2"))));
    assert_eq!((op.as_str(), code, msg.as_str()), ("UpdateRoom", 1, "m1"));
}

#[test]
fn encoded_values_cannot_break_a_form() {
    let e = url_encode("a=1&b=2 + c;d");
    assert_eq!(e, "a%3D1%26b%3D2%20%2B%20c%3Bd");
    assert!(e.chars().all(|c| c.is_ascii_alphanumeric() || "-_.~%".contains(c)));
}

#[test]
fn sign_has_thirty_two_hex_digits() {
    let mut p = Params::new();
    p.insert("a".to_string(), "b".to_string());
    let s = calculate_sign(&p);
    assert_eq!(s.len(), 32);
    assert!(s.chars().all(|c| c.is_ascii_hexdigit() && !c.is_ascii_uppercase()));
    let q = build_signed_params(p);
    assert_eq!(q.len(), "a=b&appkey=aae92bc66f3edfab&sign=".len() + 32);
}
