use pslinkb::biliapi::{StartLiveMode, StartLiveResult, StreamInfo};
use pslinkb::cli::{confirm_answer, mode_choice, parse_args_string, proxy_choice, LaunchArgs, ModeChoice};
use pslinkb::error::AppError;
use pslinkb::live::{
    after_electron, parse_api_error, start_outcome, stop_outcome, LiveClient, LiveCommand, LiveEvent,
    LiveManager, LiveMode, LiveState, ManagerAction, ManagerInput, Phase, StartOutcome, StartStep,
};
use pslinkb::log::{console_tag_of, marks_router_error, sink_line, Level, LogSettings};
use pslinkb::helper::{set_logger, set_pipe_tx};
use pslinkb::luci::{
    bool_value, clear, default_value, event_payload, init, str_value, value_to_json, LuciState,
};
use pslinkb::monitor::{flv_target, stream_state_of, MonitorAction, MonitorStage, StreamMonitor};
use pslinkb::restart::{ExponentialBackoff, RestartPolicy};
use pslinkb::ubus::{
    add_object_body, blob_attr, field, find_objid, frame_body_len, frame_header, hdr, objid_scan_ends,
    status_reply,
};

// ---------------------------------------------------------------------------
// The live manager
// ---------------------------------------------------------------------------

fn start_cmd() -> ManagerInput {
    ManagerInput::Command(LiveCommand::Start { room_id: 42, area_v2: "236".to_string(), title: None })
}

fn success() -> Result<StartLiveResult, String> {
    Ok(StartLiveResult::Success { rtmp_url: "rtmp://a/".to_string(), stream_key: "k".to_string() })
}

fn failure(code: i32, msg: &str, url: Option<&str>) -> Result<StartLiveResult, String> {
    Ok(StartLiveResult::Failed { code, message: msg.to_string(), face_auth_url: url.map(|s| s.to_string()) })
}

#[test]
fn start_succeeds_with_the_signed_request() {
    let mut m = LiveManager::new();
    let a = m.step(start_cmd());
    assert!(matches!(a.as_slice(), [ManagerAction::StartLive(StartLiveMode::Full)]));
    let a = m.step(ManagerInput::StartAnswer(success()));
    assert!(matches!(
        a.as_slice(),
        [ManagerAction::Emit(LiveEvent::Started { rtmp_url, stream_key })] if rtmp_url == "rtmp://a/" && stream_key == "k"
    ));
    assert!(matches!(m.state, LiveState::Streaming { .. }));
    assert!(m.phase == Phase::Ready);
}

#[test]
fn signed_failure_falls_back_to_the_plain_request() {
    let mut m = LiveManager::new();
    m.step(start_cmd());
    let a = m.step(ManagerInput::StartAnswer(failure(-400, "签名错误", None)));
    assert!(matches!(
        a.as_slice(),
        [ManagerAction::FallBack { reason }, ManagerAction::StartLive(StartLiveMode::Simple)] if reason == "签名错误"
    ));
    let a = m.step(ManagerInput::StartAnswer(failure(-400, "again", None)));
    assert!(matches!(
        a.as_slice(),
        [ManagerAction::Emit(LiveEvent::StartFailed { error_code: -400, message })] if message == "again"
    ));
    assert!(matches!(m.state, LiveState::Idle));
}

#[test]
fn face_verification_is_waited_for() {
    let mut m = LiveManager::new();
    m.step(start_cmd());
    let a = m.step(ManagerInput::StartAnswer(failure(60024, "人脸", Some("https://qr"))));
    assert!(matches!(
        a.as_slice(),
        [ManagerAction::ShowFaceAuth { code: 60024, url: Some(u) },
         ManagerAction::Emit(LiveEvent::AuthRequired { face_auth_url: Some(u2) }),
         ManagerAction::Wait] if u == "https://qr" && u2 == "https://qr"
    ));
    let a = m.step(ManagerInput::Tick { cancelled: false, timed_out: false });
    assert!(matches!(a.as_slice(), [ManagerAction::StartLive(StartLiveMode::Full)]));
    let a = m.step(ManagerInput::StartAnswer(failure(60024, "x", None)));
    assert!(matches!(a.as_slice(), [ManagerAction::StartLive(StartLiveMode::Simple)]));
    let a = m.step(ManagerInput::StartAnswer(failure(60024, "x", None)));
    assert!(matches!(a.as_slice(), [ManagerAction::Wait]));
    m.step(ManagerInput::Tick { cancelled: false, timed_out: false });
    let a = m.step(ManagerInput::StartAnswer(success()));
    assert!(matches!(
        a.as_slice(),
        [ManagerAction::ClearFaceAuth, ManagerAction::Emit(LiveEvent::Started { .. })]
    ));
    assert!(matches!(m.state, LiveState::Streaming { .. }));
}

#[test]
fn face_verification_wait_ends() {
    let mut m = LiveManager::new();
    m.step(start_cmd());
    m.step(ManagerInput::StartAnswer(failure(60043, "实名", None)));
    let a = m.step(ManagerInput::Tick { cancelled: false, timed_out: true });
    assert!(matches!(
        a.as_slice(),
        [ManagerAction::ClearFaceAuth, ManagerAction::Emit(LiveEvent::StartFailed { error_code: 60043, message })] if message == "验证超时"
    ));
    assert!(m.phase == Phase::Ready);

    let mut m = LiveManager::new();
    m.step(start_cmd());
    m.step(ManagerInput::StartAnswer(failure(60043, "实名", None)));
    let a = m.step(ManagerInput::Tick { cancelled: true, timed_out: false });
    assert!(a.is_empty());
    assert!(m.phase == Phase::Ready);
}

#[test]
fn stop_reports_the_outcome() {
    let mut m = LiveManager::new();
    m.step(start_cmd());
    m.step(ManagerInput::StartAnswer(success()));
    let a = m.step(ManagerInput::Command(LiveCommand::Stop { room_id: 42 }));
    assert!(matches!(a.as_slice(), [ManagerAction::StopLive]));
    let a = m.step(ManagerInput::StopAnswer(Err("BiliAPI(StopLive, 1): x".to_string())));
    assert!(matches!(
        a.as_slice(),
        [ManagerAction::Emit(LiveEvent::StopFailed { error_code: -1, message })] if message == "BiliAPI(StopLive, 1): x"
    ));
    assert!(matches!(m.state, LiveState::Streaming { .. }));
    m.step(ManagerInput::Command(LiveCommand::Stop { room_id: 42 }));
    let a = m.step(ManagerInput::StopAnswer(Ok(())));
    assert!(matches!(a.as_slice(), [ManagerAction::Emit(LiveEvent::Stopped)]));
    assert!(matches!(m.state, LiveState::Idle));
}

#[test]
fn inputs_out_of_turn_are_ignored() {
    let mut m = LiveManager::new();
    assert!(m.step(ManagerInput::StartAnswer(success())).is_empty());
    assert!(m.step(ManagerInput::Tick { cancelled: false, timed_out: true }).is_empty());
    assert!(m.step(ManagerInput::StopAnswer(Ok(()))).is_empty());
    m.step(start_cmd());
    assert!(m.step(ManagerInput::Command(LiveCommand::Stop { room_id: 1 })).is_empty());
    assert!(matches!(m.state, LiveState::Idle));
}

#[test]
fn api_error_text_reads_as_minus_one() {
    assert_eq!(parse_api_error("BiliAPI(StartLive, 60024): 需要验证"), (-1, "BiliAPI(StartLive, 60024): 需要验证".to_string()));
    assert_eq!(parse_api_error(""), (-1, String::new()));
}

#[test]
fn start_outcomes() {
    let r: Result<StartLiveResult, AppError> = Ok(StartLiveResult::Success { rtmp_url: "u".to_string(), stream_key: "k".to_string() });
    assert!(matches!(start_outcome(r, LiveClient::Livehime), StartOutcome::Started { client: LiveClient::Livehime, .. }));
    let r: Result<StartLiveResult, AppError> = Ok(StartLiveResult::Failed { code: 60024, message: "m".to_string(), face_auth_url: None });
    assert!(matches!(start_outcome(r, LiveClient::Electron), StartOutcome::AuthRequired { face_auth_url: None }));
    let r: Result<StartLiveResult, AppError> = Ok(StartLiveResult::Failed { code: 7, message: "m".to_string(), face_auth_url: None });
    assert!(matches!(start_outcome(r, LiveClient::Electron), StartOutcome::Failed { code: 7, ref message } if message == "m"));
    let r: Result<StartLiveResult, AppError> = Err(AppError::bili_api("StartLive", 65530, "token".to_string()));
    assert!(matches!(start_outcome(r, LiveClient::Electron), StartOutcome::Failed { code: 65530, ref message } if message == "token"));
}

#[test]
fn electron_answer_decides_the_livehime_fallback() {
    assert!(matches!(after_electron(failure(-1, "x", None)), StartStep::TryLivehime { code: -1, ref message } if message == "x"));
    assert!(matches!(after_electron(failure(60024, "x", None)), StartStep::Done(StartOutcome::AuthRequired { .. })));
    assert!(matches!(
        after_electron(success()),
        StartStep::Done(StartOutcome::Started { client: LiveClient::Electron, .. })
    ));
    assert!(matches!(
        after_electron(Err("net".to_string())),
        StartStep::Done(StartOutcome::Failed { code: -1, ref message }) if message == "net"
    ));
}

#[test]
fn stop_outcomes() {
    assert!(stop_outcome(Ok(())).is_ok());
    assert_eq!(stop_outcome(Err(AppError::bili_api("StopLive", 160000, "x".to_string()))), Err((160000, "x".to_string())));
    assert_eq!(stop_outcome(Err(AppError::General("net".to_string()))), Err((-1, "net".to_string())));
}

#[test]
fn live_mode_parses_case_insensitively() {
    assert!(matches!(LiveMode::from_str("Auto"), Ok(LiveMode::Auto)));
    assert!(matches!(LiveMode::from_str("MANUAL"), Ok(LiveMode::Manual)));
    assert!(matches!(LiveMode::from_str("sometimes"), Err(ref e) if e == "Invalid live_mode: 'sometimes'"));
    assert_eq!(LiveMode::default(), LiveMode::Auto);
    let parsed: LiveMode = "manual".parse().unwrap();
    assert_eq!(parsed, LiveMode::Manual);
}

// ---------------------------------------------------------------------------
// Backoff
// ---------------------------------------------------------------------------

#[test]
fn backoff_doubles_up_to_the_maximum() {
    let b = ExponentialBackoff::default();
    assert_eq!((b.max_retries, b.initial_delay_ms, b.max_delay_ms), (10, 1000, 30000));
    let delays: Vec<u64> = (0..8).map(|a| b.next_delay(a)).collect();
    assert_eq!(delays, vec![1000, 2000, 4000, 8000, 16000, 30000, 30000, 30000]);
    assert!(b.should_restart(9));
    assert!(!b.should_restart(10));
    let big = ExponentialBackoff { max_retries: 3, initial_delay_ms: 1, max_delay_ms: u64::MAX };
    assert_eq!(big.next_delay(10), 1024);
    assert_eq!(big.next_delay(40), 1024);
}

// ---------------------------------------------------------------------------
// Command line and interactive answers
// ---------------------------------------------------------------------------

#[test]
fn launch_options_from_the_config_string() {
    let a = parse_args_string("  --dns --proxy=http://127.0.0.1:7890 --bogus");
    assert_eq!(a.proxy.as_deref(), Some("http://127.0.0.1:7890"));
    assert!(a.dns && !a.windivert);
    let a = parse_args_string("--proxy=a --proxy=b --windivert");
    assert_eq!(a.proxy.as_deref(), Some("b"));
    assert!(a.windivert);
    let a = parse_args_string("");
    assert!(a.proxy.is_none() && !a.dns && !a.windivert);
}

#[test]
fn command_line_options_are_merged_in() {
    let mut a = LaunchArgs { proxy: Some("http://x:1".to_string()), windivert: false, dns: true };
    a.merge_cli(None, true, false);
    assert_eq!(a.proxy.as_deref(), Some("http://x:1"));
    assert!(a.windivert && a.dns);
    a.merge_cli(Some("http://y:2".to_string()), false, false);
    assert_eq!(a.proxy.as_deref(), Some("http://y:2"));
}

#[test]
fn run_mode_answers() {
    assert!(matches!(mode_choice(" 1\n", false), ModeChoice::Args(ref s) if s == "--default"));
    assert!(matches!(mode_choice("2", false), ModeChoice::Args(ref s) if s == "--dns"));
    assert!(matches!(mode_choice("3", true), ModeChoice::AskProxy));
    assert!(matches!(mode_choice("4", true), ModeChoice::Args(ref s) if s == "--windivert"));
    assert!(matches!(mode_choice("4", false), ModeChoice::Invalid));
    assert!(matches!(mode_choice("5", true), ModeChoice::Invalid));
    assert_eq!(proxy_choice(" http://127.0.0.1:7890\n").as_deref(), Some("--proxy=http://127.0.0.1:7890"));
    assert_eq!(proxy_choice("127.0.0.1:7890"), None);
    assert_eq!(confirm_answer("\n"), Some(true));
    assert_eq!(confirm_answer("YES"), Some(true));
    assert_eq!(confirm_answer(" n "), Some(false));
    assert_eq!(confirm_answer("maybe"), None);
}

// ---------------------------------------------------------------------------
// Router status
// ---------------------------------------------------------------------------

#[test]
fn fresh_status_object() {
    let s = init();
    assert_eq!(
        s.to_json(),
        r#"{"dns":{"actual":"","checking":false,"enabled":false,"ok":false,"target":""},"error":"","live":{"status":""},"qr":{"status":"","url":""},"running":true,"user":""}"#
    );
}

#[test]
fn setting_and_clearing_fields() {
    let mut s = init();
    pslinkb::luci::set(&mut s, "user", str_value("alice \"A\""));
    pslinkb::luci::set(&mut s, "qr", str_value(r#"{"url":"https://q","status":"waiting"}"#));
    pslinkb::luci::set(&mut s, "running", bool_value(false));
    pslinkb::luci::set(&mut s, "stream", str_value("live"));
    assert_eq!(
        s.to_json(),
        r#"{"dns":{"actual":"","checking":false,"enabled":false,"ok":false,"target":""},"error":"","live":{"status":""},"qr":{"status":"waiting","url":"https://q"},"running":false,"stream":"live","user":"alice \"A\""}"#
    );
    clear(&mut s, "qr");
    clear(&mut s, "user");
    clear(&mut s, "running");
    assert_eq!(
        s.to_json(),
        r#"{"dns":{"actual":"","checking":false,"enabled":false,"ok":false,"target":""},"error":"","live":{"status":""},"qr":{"status":"","url":""},"running":false,"stream":"live","user":""}"#
    );
}

#[test]
fn field_values_as_json() {
    assert_eq!(value_to_json(&str_value("{not json")), r#""{not json""#);
    assert_eq!(value_to_json(&str_value("{ \"b\": 1, \"a\": [true] }")), r#"{"a":[true],"b":1}"#);
    assert_eq!(value_to_json(&str_value("line\nbreak\t\u{1}")), r#""line\nbreak\t\u0001""#);
    assert_eq!(value_to_json(&bool_value(true)), "true");
    assert_eq!(value_to_json(&default_value("live")), r#"{"status":""}"#);
    assert_eq!(value_to_json(&default_value("anything")), r#""""#);
}

#[test]
fn change_event_payload() {
    assert_eq!(
        event_payload("error", &str_value("bad \\ thing")),
        r#"{"data":{"key":"error","value":"bad \\ thing"},"type":"pslinkb"}"#
    );
    assert_eq!(
        event_payload("running", &bool_value(true)),
        r#"{"data":{"key":"running","value":true},"type":"pslinkb"}"#
    );
}

// ---------------------------------------------------------------------------
// ubus frames
// ---------------------------------------------------------------------------

#[test]
fn ubus_header_and_attributes() {
    assert_eq!(hdr(5, 0x0102, 0xAABBCCDD), vec![0, 5, 1, 2, 0xAA, 0xBB, 0xCC, 0xDD]);
    assert_eq!(blob_attr(3, &[0, 0, 0, 1]), vec![3, 0, 0, 8, 0, 0, 0, 1]);
    assert_eq!(blob_attr(0, &[]), vec![0, 0, 0, 4]);
    assert_eq!(frame_header(&[0, 2, 0, 7, 0, 0, 1, 0]), (2, 7, 256));
    assert_eq!(frame_body_len(&[0, 0, 0, 20]), 16);
    assert_eq!(frame_body_len(&[0x80, 0, 0, 2]), 0);
}

#[test]
fn ubus_object_registration_body() {
    assert_eq!(
        add_object_body(),
        vec![0, 0, 0, 36, 2, 0, 0, 12, 112, 115, 108, 105, 110, 107, 98, 0, 6, 0, 0, 20, 130, 0, 0, 16, 0, 6, 115, 116, 97, 116, 117, 115, 0, 0, 0, 0]
    );
}

#[test]
fn ubus_status_fields() {
    assert_eq!(
        field("state", "idle"),
        vec![131, 0, 0, 22, 0, 5, 115, 116, 97, 116, 101, 0, 0, 0, 105, 100, 108, 101, 0, 0, 0, 0]
    );
    let r = status_reply(0x1234, "live", "u", "", "", "");
    assert_eq!(r.len(), 102);
    assert_eq!(&r[..16], &[0, 0, 0, 102, 3, 0, 0, 8, 0, 0, 0x12, 0x34, 7, 0, 0, 90]);
}

#[test]
fn ubus_object_id_of_a_call() {
    let mut body = blob_attr(1, &[9, 9, 9, 9]);
    body.extend(blob_attr(3, &[0, 0, 0x56, 0x78]));
    assert!(objid_scan_ends(&body));
    assert_eq!(find_objid(&body), 0x5678);
    let none = blob_attr(1, &[1, 2, 3, 4]);
    assert!(objid_scan_ends(&none));
    assert_eq!(find_objid(&none), 0);
    assert!(!objid_scan_ends(&[0, 0, 0, 0, 1, 2, 3, 4]));
}

// ---------------------------------------------------------------------------
// Logging
// ---------------------------------------------------------------------------

#[test]
fn sink_lines_carry_the_level_tag() {
    assert_eq!(sink_line(Level::Info, "hello"), "hello");
    assert_eq!(sink_line(Level::Success, "ok"), "ok");
    assert_eq!(sink_line(Level::Warn, "w"), "[WARN] w");
    assert_eq!(sink_line(Level::Error, "e"), "[ERROR] e");
    assert_eq!(sink_line(Level::Alert, "a"), "[ERROR] a");
    assert_eq!(sink_line(Level::Debug, "d"), "[DEBUG] d");
    assert_eq!(console_tag_of(Level::Warn), Some("[WARN]"));
    assert_eq!(console_tag_of(Level::Alert), None);
    assert!(marks_router_error(Level::Warn) && marks_router_error(Level::Error));
    assert!(!marks_router_error(Level::Alert));
}

#[test]
fn logger_settings() {
    let mut s: LogSettings<&'static str> = LogSettings::new();
    assert!(!s.is_debug_enabled());
    assert!(!s.shows_debug(false));
    assert!(s.shows_debug(true));
    s.set_debug_enabled(true);
    assert!(s.is_debug_enabled() && s.shows_debug(false));
    assert_eq!(s.sink(), None);
    s.set_override("file");
    s.set_override("other");
    assert_eq!(s.sink(), Some(&"file"));
    s.set_debug_enabled(false);
    assert!(!s.is_debug_enabled());
    assert_eq!(s.sink(), Some(&"file"));
}

// ---------------------------------------------------------------------------
// Stream confirmation
// ---------------------------------------------------------------------------

#[test]
fn stream_confirmed_while_polling() {
    let mut m = StreamMonitor::new();
    assert_eq!(m.on_info(Some(StreamInfo::FakeLive)), MonitorAction::Poll);
    assert_eq!(m.on_info(None), MonitorAction::Poll);
    assert_eq!(m.on_info(Some(StreamInfo::Live)), MonitorAction::Confirmed);
    assert_eq!(m.stage, MonitorStage::Finished);
    assert_eq!(stream_state_of(MonitorAction::Confirmed), Some("live"));
}

#[test]
fn offline_room_stops_the_monitor() {
    let mut m = StreamMonitor::new();
    assert_eq!(m.on_info(Some(StreamInfo::Offline)), MonitorAction::Offline);
    assert_eq!(stream_state_of(MonitorAction::Offline), Some("offline"));
}

#[test]
fn monitor_probes_after_eight_polls() {
    let mut m = StreamMonitor::new();
    for _ in 0..7 {
        assert_eq!(m.on_info(Some(StreamInfo::FakeLive)), MonitorAction::Poll);
    }
    assert_eq!(m.on_info(Some(StreamInfo::FakeLive)), MonitorAction::Recheck);
    assert_eq!(m.on_info(None), MonitorAction::Probe);
    assert_eq!(stream_state_of(MonitorAction::Probe), Some("probing"));
    assert_eq!(m.on_probe(Some(200)), MonitorAction::Confirmed);

    let mut m = StreamMonitor::new();
    for _ in 0..8 {
        m.on_info(None);
    }
    assert_eq!(m.on_info(Some(StreamInfo::Offline)), MonitorAction::Offline);

    let mut m = StreamMonitor::new();
    for _ in 0..9 {
        m.on_info(Some(StreamInfo::FakeLive));
    }
    assert_eq!(m.on_probe(Some(404)), MonitorAction::TimedOut);
    assert_eq!(stream_state_of(MonitorAction::TimedOut), Some("timeout"));
    assert_eq!(stream_state_of(MonitorAction::Poll), None);
}

#[test]
fn flv_probe_target() {
    assert_eq!(flv_target(Some(0), Some("https://flv".to_string())).as_deref(), Some("https://flv"));
    assert_eq!(flv_target(Some(1), Some("https://flv".to_string())), None);
    assert_eq!(flv_target(None, Some("https://flv".to_string())), None);
    assert_eq!(flv_target(Some(0), None), None);
}

#[test]
fn status_fields_read_back_as_text() {
    let mut s = init();
    pslinkb::luci::set(&mut s, "user", str_value("alice"));
    assert_eq!(s.read("user").as_deref(), Some("alice"));
    assert_eq!(s.read("running").as_deref(), Some("true"));
    assert_eq!(s.read("live").as_deref(), Some(r#"{"status":""}"#));
    assert_eq!(s.read("missing"), None);
}

#[test]
fn empty_status_and_quoted_text() {
    let mut s = LuciState::empty();
    assert_eq!(s.to_json(), "{}");
    assert_eq!(s.read("user"), None);
    s.insert("user".to_string(), str_value("say \"hi\" \\ ok"));
    assert_eq!(s.to_json(), r#"{"user":"say \"hi\" \\ ok"}"#);
    assert_eq!(s.read("user").as_deref(), Some("say \"hi\" \\ ok"));
}

#[test]
fn first_helper_logger_and_pipe_stay() {
    let mut slot: Option<u32> = None;
    set_logger(&mut slot, 1);
    set_logger(&mut slot, 2);
    assert_eq!(slot, Some(1));
    let mut pipe: Option<&str> = None;
    set_pipe_tx(&mut pipe, "first");
    set_pipe_tx(&mut pipe, "second");
    assert_eq!(pipe, Some("first"));
}
