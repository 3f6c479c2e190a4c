//! The live session: the run mode, the commands and events of the live
//! manager, and the manager's decisions — when to fall back to the plain
//! `startLive` request, when to wait for face verification, what to report.
//!
//! The manager is a state machine: it is handed each command, each API
//! answer and each tick of the verification wait, and answers with the
//! actions the caller performs (send a request, wait, show the verification
//! link, emit an event).

use vstd::prelude::*;

use crate::biliapi::{StartLiveMode, StartLiveResult};
use crate::error::AppError;
use crate::text::{chars_of, find_chars, find_seq, parse_i64, parse_i64_spec, push_all, push_str, slice_chars, string_from_chars};

verus! {

broadcast use vstd::string::group_string_axioms;

// ---------------------------------------------------------------------------
// Run mode
// ---------------------------------------------------------------------------

/// Whether the bridge starts the broadcast itself or leaves it to the user.
#[derive(PartialEq, Eq, Structural, Clone, Copy, Debug)]
pub enum LiveMode {
    Auto,
    Manual,
}

impl Default for LiveMode {
    fn default() -> (r: Self)
        ensures
            r == LiveMode::Auto,
    {
        LiveMode::Auto
    }
}

/// ASCII lowercase of one character.
pub open spec fn ascii_lower(c: char) -> char {
    if 'A' <= c <= 'Z' {
        ((c as u32) + 32) as char
    } else {
        c
    }
}

/// Whether `s` equals the lowercase ASCII word `w` up to letter case.
pub open spec fn eq_ignore_case(s: Seq<char>, w: Seq<char>) -> bool {
    s.len() == w.len() && forall|i: int| 0 <= i < s.len() ==> ascii_lower(#[trigger] s[i]) == w[i]
}

pub fn eq_ignore_case_exec(s: &[char], w: &str) -> (r: bool)
    ensures
        r == eq_ignore_case(s@, w@),
{
    let wc = chars_of(w);
    if s.len() != wc.len() {
        return false;
    }
    let mut i: usize = 0;
    while i < s.len()
        invariant
            i <= s@.len(),
            s@.len() == wc@.len(),
            wc@ == w@,
            forall|j: int| 0 <= j < i ==> ascii_lower(#[trigger] s@[j]) == wc@[j],
        decreases s.len() - i,
    {
        let c = s[i];
        let lc = if 'A' <= c && c <= 'Z' {
            ((c as u32) + 32) as u8 as char
        } else {
            c
        };
        assert(lc == ascii_lower(c)) by {
            if 'A' <= c && c <= 'Z' {
                assert(((c as u32) + 32) as u8 as char == ((c as u32) + 32) as char);
            }
        };
        if lc != wc[i] {
            return false;
        }
        i = i + 1;
    }
    true
}

impl LiveMode {
    /// Reads a run mode, `auto` or `manual` in any letter case. (Full
    /// Unicode lowercasing, which the mode's reader applies, maps no
    /// character but the ASCII capitals onto these letters.)
    pub fn from_str(s: &str) -> (r: Result<LiveMode, String>)
        ensures
            eq_ignore_case(s@, "auto"@) ==> r == Ok::<LiveMode, String>(LiveMode::Auto),
            eq_ignore_case(s@, "manual"@) ==> r == Ok::<LiveMode, String>(LiveMode::Manual),
            !eq_ignore_case(s@, "auto"@) && !eq_ignore_case(s@, "manual"@) ==> (r matches Err(e)
                && e@ == "Invalid live_mode: '"@ + s@ + "'"@),
    {
        proof {
            reveal_strlit("auto");
            reveal_strlit("manual");
        }
        let cs = chars_of(s);
        if eq_ignore_case_exec(cs.as_slice(), "auto") {
            Ok(LiveMode::Auto)
        } else if eq_ignore_case_exec(cs.as_slice(), "manual") {
            Ok(LiveMode::Manual)
        } else {
            let mut out: Vec<char> = Vec::new();
            push_str(&mut out, "Invalid live_mode: '");
            push_str(&mut out, s);
            push_str(&mut out, "'");
            Err(string_from_chars(out.as_slice()))
        }
    }
}

impl std::str::FromStr for LiveMode {
    type Err = String;

    fn from_str(s: &str) -> (r: Result<LiveMode, String>)
        ensures
            eq_ignore_case(s@, "auto"@) ==> r == Ok::<LiveMode, String>(LiveMode::Auto),
            eq_ignore_case(s@, "manual"@) ==> r == Ok::<LiveMode, String>(LiveMode::Manual),
            !eq_ignore_case(s@, "auto"@) && !eq_ignore_case(s@, "manual"@) ==> (r matches Err(e)
                && e@ == "Invalid live_mode: '"@ + s@ + "'"@),
    {
        LiveMode::from_str(s)
    }
}

// ---------------------------------------------------------------------------
// Commands, events, state
// ---------------------------------------------------------------------------

/// Whether the room is broadcasting, and where to.
pub enum LiveState {
    Idle,
    Streaming { rtmp_url: String, stream_key: String },
}

/// What the live manager is asked to do.
pub enum LiveCommand {
    Start { room_id: u64, area_v2: String, title: Option<String> },
    Stop { room_id: u64 },
}

/// What the live manager reports.
pub enum LiveEvent {
    Started { rtmp_url: String, stream_key: String },
    Stopped,
    AuthRequired { face_auth_url: Option<String> },
    StartFailed { error_code: i64, message: String },
    StopFailed { error_code: i64, message: String },
}

/// Which client's API started the broadcast.
#[derive(PartialEq, Eq, Structural, Clone, Copy, Debug)]
pub enum LiveClient {
    Electron,
    Livehime,
}

/// The outcome of a start attempt.
pub enum StartOutcome {
    Started { rtmp_url: String, stream_key: String, client: LiveClient },
    AuthRequired { face_auth_url: Option<String> },
    Failed { code: i64, message: String },
}

/// What the bridge's state machine asks its workers to do.
pub enum Effect {
    /// Start pushing the console's stream to Bilibili.
    StartFfmpeg {
        ps5_app: String,
        ps5_stream_key: String,
        bilibili_rtmp_url: String,
        bilibili_stream_key: String,
    },
    /// Stop pushing the stream.
    StopFfmpeg,
    /// Ask Bilibili to start the broadcast.
    BilibiliStartLive { room_id: u64, area_v2: String, title: Option<String> },
    /// Ask Bilibili to stop the broadcast, through the client that started it.
    BilibiliStopLive { room_id: u64, client: LiveClient },
    /// Start watching for the face verification to finish.
    StartFaceWatch { room_id: u64 },
    /// Stop watching for the face verification.
    StopFaceWatch,
    /// Copy the console's stream title to the room.
    SyncTwitchTitle { room_id: u64, broadcaster_id: String },
    /// Start relaying the room's chat.
    StartDanmaku { room_id: u64 },
    /// Stop relaying the chat.
    StopDanmaku,
    /// Tell the console something.
    NotifyPs5(String),
    /// Write a line to the terminal.
    Log(String),
    /// Restart the program (the login cookie no longer works).
    Restart,
}

// ---------------------------------------------------------------------------
// Reading an API error back out of its text
// ---------------------------------------------------------------------------

/// The error code and message of an error's text. The code is read from
/// the text after `BiliAPI ` — which starts at the `(` — so it never reads
/// as a number, and the result is always -1 and the whole text.
pub fn parse_api_error(err: &str) -> (r: (i64, String))
    ensures
        r.0 == -1,
        r.1@ == err@,
{
    proof {
        reveal_strlit("BiliAPI (");
    }
    let cs = chars_of(err);
    let pat = chars_of("BiliAPI (");
    if let Some(pos) = find_chars(cs.as_slice(), pat.as_slice()) {
        proof {
            crate::text::lemma_find_seq(cs@, pat@);
            assert(pat@.len() == 9);
            assert(pat@[8] == '(');
            assert(cs@.skip(pos as int).take(9)[8] == '(');
            assert(cs@.len() == cs.len());
        }
        let rest = slice_chars(cs.as_slice(), pos + 8, cs.len());
        assert(rest@[0] == cs@[pos + 8]);
        assert(rest@[0] == '(');
        if let Some(comma) = crate::text::find_char(rest.as_slice(), ',') {
            proof {
                crate::text::lemma_first_index_of(rest@, ',');
            }
            let num = slice_chars(rest.as_slice(), 0, comma);
            if comma > 0 {
                assert(num@[0] == '(');
            }
            if let Some(code) = parse_i64(num.as_slice()) {
                assert(false);
                return (code, string_from_chars(rest.as_slice()));
            }
        }
    }
    (-1, err.to_string())
}

// ---------------------------------------------------------------------------
// The live manager
// ---------------------------------------------------------------------------

/// Whether a `startLive` answer asks for face verification (codes 60024
/// and 60043).
pub open spec fn needs_face_auth(r: Result<StartLiveResult, String>) -> bool {
    r matches Ok(StartLiveResult::Failed { code, .. }) && (code == 60024 || code == 60043)
}

/// Where the verification wait is.
#[derive(PartialEq, Eq, Structural, Clone, Copy)]
pub enum WatchStage {
    /// Waiting for the next tick.
    Waiting,
    /// The signed request was sent again.
    FullSent,
    /// The plain request was sent again.
    SimpleSent,
}

/// What the manager is doing.
#[derive(PartialEq, Eq, Structural, Clone, Copy)]
pub enum Phase {
    /// Waiting for a command.
    Ready,
    /// A `startLive` request was sent; `simple` once the plain one was.
    Starting { simple: bool },
    /// Waiting for the user to pass face verification, asked for with `code`.
    FaceWatch { code: i32, stage: WatchStage },
    /// A `stopLive` request was sent.
    Stopping,
}

/// What the manager is handed.
pub enum ManagerInput {
    Command(LiveCommand),
    /// The answer to a `startLive` request; an error by its text.
    StartAnswer(Result<StartLiveResult, String>),
    /// A tick of the verification wait: whether the start was cancelled and
    /// whether the wait has lasted a minute.
    Tick { cancelled: bool, timed_out: bool },
    /// The answer to a `stopLive` request; an error by its text.
    StopAnswer(Result<(), String>),
}

/// What the manager asks its caller to do.
pub enum ManagerAction {
    /// Send `startLive` for the current command's room, area and title.
    StartLive(StartLiveMode),
    /// The signed request failed: say why before the plain one is sent.
    FallBack { reason: String },
    /// Send `stopLive` for the current command's room.
    StopLive,
    /// Show the face verification link.
    ShowFaceAuth { code: i32, url: Option<String> },
    /// Take the face verification link down.
    ClearFaceAuth,
    /// Wait before the next tick.
    Wait,
    /// Report an event.
    Emit(LiveEvent),
}

/// The rtmp address and key of a successful answer.
pub open spec fn success_parts(a: Result<StartLiveResult, String>) -> Option<(Seq<char>, Seq<char>)> {
    match a {
        Ok(StartLiveResult::Success { rtmp_url, stream_key }) => Some((rtmp_url@, stream_key@)),
        _ => None,
    }
}

/// The code and message of a failed answer.
pub open spec fn failure_parts(a: Result<StartLiveResult, String>) -> Option<(i32, Seq<char>)> {
    match a {
        Ok(StartLiveResult::Failed { code, message, .. }) => Some((code, message@)),
        _ => None,
    }
}

/// The verification link of a failed answer.
pub open spec fn failure_link(a: Result<StartLiveResult, String>) -> Option<Seq<char>> {
    match a {
        Ok(StartLiveResult::Failed { face_auth_url: Some(u), .. }) => Some(u@),
        _ => None,
    }
}

/// The text of an error answer.
pub open spec fn error_text<T>(a: Result<T, String>) -> Option<Seq<char>> {
    match a {
        Err(t) => Some(t@),
        _ => None,
    }
}

/// The state streams to `parts`.
pub open spec fn streams_to(s: LiveState, parts: (Seq<char>, Seq<char>)) -> bool {
    s matches LiveState::Streaming { rtmp_url, stream_key } && rtmp_url@ == parts.0 && stream_key@
        == parts.1
}

/// The action reports `Started` with `parts`.
pub open spec fn emits_started(act: ManagerAction, parts: (Seq<char>, Seq<char>)) -> bool {
    act matches ManagerAction::Emit(LiveEvent::Started { rtmp_url, stream_key }) && rtmp_url@
        == parts.0 && stream_key@ == parts.1
}

/// The action reports `StartFailed` with `code` and `message`.
pub open spec fn emits_start_failed(act: ManagerAction, code: i64, message: Seq<char>) -> bool {
    act matches ManagerAction::Emit(LiveEvent::StartFailed { error_code, message: m })
        && error_code == code && m@ == message
}

/// The action reports `StopFailed` with `code` and `message`.
pub open spec fn emits_stop_failed(act: ManagerAction, code: i64, message: Seq<char>) -> bool {
    act matches ManagerAction::Emit(LiveEvent::StopFailed { error_code, message: m })
        && error_code == code && m@ == message
}

/// The action reports `AuthRequired` with the link `link`.
pub open spec fn emits_auth_required(act: ManagerAction, link: Option<Seq<char>>) -> bool {
    act matches ManagerAction::Emit(LiveEvent::AuthRequired { face_auth_url }) && match face_auth_url {
        Some(u) => link == Some(u@),
        None => link is None,
    }
}

/// The action shows the verification link `link` asked for with `code`.
pub open spec fn shows_face_auth(act: ManagerAction, code: i32, link: Option<Seq<char>>) -> bool {
    act matches ManagerAction::ShowFaceAuth { code: c, url } && c == code && match url {
        Some(u) => link == Some(u@),
        None => link is None,
    }
}

/// How a final start answer is handled (`clear`: the verification link is
/// up and is taken down on success): success streams and reports
/// `Started`; a request for verification shows the link, reports
/// `AuthRequired` and waits; another failure reports `StartFailed` with its
/// code and message; an error reports `StartFailed` with -1 and its text.
pub open spec fn finishes(
    m: LiveManager,
    a: Result<StartLiveResult, String>,
    m2: LiveManager,
    r: Seq<ManagerAction>,
    clear: bool,
) -> bool {
    match success_parts(a) {
        Some(parts) => {
            &&& streams_to(m2.state, parts)
            &&& m2.phase == Phase::Ready
            &&& if clear {
                r.len() == 2 && r[0] == ManagerAction::ClearFaceAuth && emits_started(r[1], parts)
            } else {
                r.len() == 1 && emits_started(r[0], parts)
            }
        },
        None => {
            &&& m2.state == m.state
            &&& match failure_parts(a) {
                Some((code, message)) => if code == 60024 || code == 60043 {
                    &&& m2.phase == (Phase::FaceWatch { code, stage: WatchStage::Waiting })
                    &&& r.len() == 3
                    &&& shows_face_auth(r[0], code, failure_link(a))
                    &&& emits_auth_required(r[1], failure_link(a))
                    &&& r[2] == ManagerAction::Wait
                } else {
                    &&& m2.phase == Phase::Ready
                    &&& r.len() == 1
                    &&& emits_start_failed(r[0], code as i64, message)
                },
                None => {
                    &&& m2.phase == Phase::Ready
                    &&& r.len() == 1
                    &&& emits_start_failed(r[0], -1i64, error_text(a)->0)
                },
            }
        },
    }
}

/// Why the signed request is given up for the plain one: the error's text,
/// or the failure's message.
pub open spec fn fallback_reason(a: Result<StartLiveResult, String>) -> String {
    match a {
        Err(t) => t,
        Ok(StartLiveResult::Failed { message, .. }) => message,
        Ok(StartLiveResult::Success { rtmp_url, .. }) => rtmp_url,
    }
}

/// One input to the manager (see `LiveManager::step`).
pub open spec fn steps(m: LiveManager, input: ManagerInput, m2: LiveManager, r: Seq<ManagerAction>) -> bool {
    match input {
        ManagerInput::Command(cmd) => if m.phase == Phase::Ready {
            &&& m2.state == m.state
            &&& match cmd {
                LiveCommand::Start { .. } => m2.phase == (Phase::Starting { simple: false }) && r
                    == seq![ManagerAction::StartLive(StartLiveMode::Full)],
                LiveCommand::Stop { .. } => m2.phase == Phase::Stopping && r == seq![
                    ManagerAction::StopLive,
                ],
            }
        } else {
            m2 == m && r.len() == 0
        },
        ManagerInput::StartAnswer(a) => match m.phase {
            Phase::Starting { simple } => if simple || success_parts(a) is Some || needs_face_auth(a) {
                finishes(m, a, m2, r, false)
            } else {
                &&& m2.state == m.state
                &&& m2.phase == (Phase::Starting { simple: true })
                &&& r.len() == 2
                &&& r[0] == ManagerAction::FallBack { reason: fallback_reason(a) }
                &&& r[1] == ManagerAction::StartLive(StartLiveMode::Simple)
            },
            Phase::FaceWatch { code, stage } => if stage == WatchStage::Waiting {
                m2 == m && r.len() == 0
            } else if success_parts(a) is Some {
                finishes(m, a, m2, r, true)
            } else if stage == WatchStage::FullSent && failure_parts(a) is Some {
                m2.state == m.state && m2.phase == (Phase::FaceWatch {
                    code,
                    stage: WatchStage::SimpleSent,
                }) && r == seq![ManagerAction::StartLive(StartLiveMode::Simple)]
            } else {
                m2.state == m.state && m2.phase == (Phase::FaceWatch {
                    code,
                    stage: WatchStage::Waiting,
                }) && r == seq![ManagerAction::Wait]
            },
            _ => m2 == m && r.len() == 0,
        },
        ManagerInput::Tick { cancelled, timed_out } => match m.phase {
            Phase::FaceWatch { code, stage } => if stage != WatchStage::Waiting {
                m2 == m && r.len() == 0
            } else if cancelled {
                m2.state == m.state && m2.phase == Phase::Ready && r.len() == 0
            } else if timed_out {
                &&& m2.state == m.state
                &&& m2.phase == Phase::Ready
                &&& r.len() == 2
                &&& r[0] == ManagerAction::ClearFaceAuth
                &&& emits_start_failed(r[1], code as i64, "验证超时"@)
            } else {
                m2.state == m.state && m2.phase == (Phase::FaceWatch {
                    code,
                    stage: WatchStage::FullSent,
                }) && r == seq![ManagerAction::StartLive(StartLiveMode::Full)]
            },
            _ => m2 == m && r.len() == 0,
        },
        ManagerInput::StopAnswer(a) => if m.phase == Phase::Stopping {
            &&& m2.phase == Phase::Ready
            &&& match a {
                Ok(_) => m2.state is Idle && r == seq![ManagerAction::Emit(LiveEvent::Stopped)],
                Err(t) => m2.state == m.state && r.len() == 1 && emits_stop_failed(r[0], -1i64, t@),
            }
        } else {
            m2 == m && r.len() == 0
        },
    }
}

/// The live manager's state and what it is doing.
pub struct LiveManager {
    pub state: LiveState,
    pub phase: Phase,
}

impl LiveManager {
    /// An idle manager waiting for a command.
    pub fn new() -> (r: Self)
        ensures
            r.state is Idle,
            r.phase == Phase::Ready,
    {
        LiveManager { state: LiveState::Idle, phase: Phase::Ready }
    }

    /// Handles the final answer of a start attempt.
    fn finish_start(&mut self, answer: Result<StartLiveResult, String>) -> (r: Vec<ManagerAction>)
        ensures
            finishes(*old(self), answer, *final(self), r@, false),
    {
        let mut out: Vec<ManagerAction> = Vec::new();
        match answer {
            Ok(StartLiveResult::Success { rtmp_url, stream_key }) => {
                self.state = LiveState::Streaming { rtmp_url: rtmp_url.clone(), stream_key: stream_key.clone() };
                self.phase = Phase::Ready;
                out.push(ManagerAction::Emit(LiveEvent::Started { rtmp_url, stream_key }));
            },
            Ok(StartLiveResult::Failed { code, message, face_auth_url }) => {
                if code == 60043 || code == 60024 {
                    let copy = match &face_auth_url {
                        Some(u) => Some(u.clone()),
                        None => None,
                    };
                    self.phase = Phase::FaceWatch { code, stage: WatchStage::Waiting };
                    out.push(ManagerAction::ShowFaceAuth { code, url: face_auth_url });
                    out.push(ManagerAction::Emit(LiveEvent::AuthRequired { face_auth_url: copy }));
                    out.push(ManagerAction::Wait);
                } else {
                    self.phase = Phase::Ready;
                    out.push(ManagerAction::Emit(LiveEvent::StartFailed { error_code: code as i64, message }));
                }
            },
            Err(text) => {
                let (error_code, message) = parse_api_error(text.as_str());
                self.phase = Phase::Ready;
                out.push(ManagerAction::Emit(LiveEvent::StartFailed { error_code, message }));
            },
        }
        out
    }

    /// Handles one input and returns what the caller must do, in order.
    ///
    /// A start command sends the signed request. Its answer is final when it
    /// succeeds or asks for face verification; otherwise the plain request is
    /// sent, and its answer is final. A final success streams and reports
    /// `Started`; a request for verification shows the link, reports
    /// `AuthRequired` and waits; any other failure reports `StartFailed`.
    /// While waiting, a tick ends the wait when the start was cancelled, or
    /// (with the link taken down and `StartFailed` "验证超时") after a minute;
    /// else the signed request is sent again, and where it fails the plain
    /// one; a success takes the link down and reports `Started`, anything
    /// else waits again. A stop command sends `stopLive`; its success goes
    /// idle and reports `Stopped`, its failure reports `StopFailed`. An input
    /// that does not fit what the manager is doing is ignored.
    pub fn step(&mut self, input: ManagerInput) -> (r: Vec<ManagerAction>)
        ensures
            steps(*old(self), input, *final(self), r@),
    {
        let phase = self.phase;
        match input {
            ManagerInput::Command(cmd) => {
                let mut out: Vec<ManagerAction> = Vec::new();
                if phase == Phase::Ready {
                    match cmd {
                        LiveCommand::Start { .. } => {
                            self.phase = Phase::Starting { simple: false };
                            out.push(ManagerAction::StartLive(StartLiveMode::Full));
                        },
                        LiveCommand::Stop { .. } => {
                            self.phase = Phase::Stopping;
                            out.push(ManagerAction::StopLive);
                        },
                    }
                }
                out
            },
            ManagerInput::StartAnswer(answer) => {
                match phase {
                    Phase::Starting { simple } => {
                        let final_answer = match &answer {
                            Ok(StartLiveResult::Success { .. }) => true,
                            Ok(StartLiveResult::Failed { code, .. }) => *code == 60024 || *code == 60043,
                            Err(_) => false,
                        };
                        if simple || final_answer {
                            self.finish_start(answer)
                        } else {
                            let reason = match answer {
                                Ok(StartLiveResult::Failed { message, .. }) => message,
                                Ok(StartLiveResult::Success { rtmp_url, .. }) => rtmp_url,
                                Err(text) => text,
                            };
                            self.phase = Phase::Starting { simple: true };
                            let mut out: Vec<ManagerAction> = Vec::new();
                            out.push(ManagerAction::FallBack { reason });
                            out.push(ManagerAction::StartLive(StartLiveMode::Simple));
                            out
                        }
                    },
                    Phase::FaceWatch { code, stage } => {
                        let mut out: Vec<ManagerAction> = Vec::new();
                        if stage == WatchStage::Waiting {
                            return out;
                        }
                        match answer {
                            Ok(StartLiveResult::Success { rtmp_url, stream_key }) => {
                                self.state = LiveState::Streaming { rtmp_url: rtmp_url.clone(), stream_key: stream_key.clone() };
                                self.phase = Phase::Ready;
                                out.push(ManagerAction::ClearFaceAuth);
                                out.push(ManagerAction::Emit(LiveEvent::Started { rtmp_url, stream_key }));
                            },
                            Ok(StartLiveResult::Failed { .. }) => {
                                if stage == WatchStage::FullSent {
                                    self.phase = Phase::FaceWatch { code, stage: WatchStage::SimpleSent };
                                    out.push(ManagerAction::StartLive(StartLiveMode::Simple));
                                } else {
                                    self.phase = Phase::FaceWatch { code, stage: WatchStage::Waiting };
                                    out.push(ManagerAction::Wait);
                                }
                            },
                            Err(_) => {
                                self.phase = Phase::FaceWatch { code, stage: WatchStage::Waiting };
                                out.push(ManagerAction::Wait);
                            },
                        }
                        out
                    },
                    _ => Vec::new(),
                }
            },
            ManagerInput::Tick { cancelled, timed_out } => {
                let mut out: Vec<ManagerAction> = Vec::new();
                if let Phase::FaceWatch { code, stage } = phase {
                    if stage == WatchStage::Waiting {
                        if cancelled {
                            self.phase = Phase::Ready;
                        } else if timed_out {
                            self.phase = Phase::Ready;
                            out.push(ManagerAction::ClearFaceAuth);
                            out.push(ManagerAction::Emit(LiveEvent::StartFailed { error_code: code as i64, message: "验证超时".to_string() }));
                        } else {
                            self.phase = Phase::FaceWatch { code, stage: WatchStage::FullSent };
                            out.push(ManagerAction::StartLive(StartLiveMode::Full));
                        }
                    }
                }
                out
            },
            ManagerInput::StopAnswer(answer) => {
                let mut out: Vec<ManagerAction> = Vec::new();
                if phase == Phase::Stopping {
                    self.phase = Phase::Ready;
                    match answer {
                        Ok(()) => {
                            self.state = LiveState::Idle;
                            out.push(ManagerAction::Emit(LiveEvent::Stopped));
                        },
                        Err(text) => {
                            let (error_code, message) = parse_api_error(text.as_str());
                            out.push(ManagerAction::Emit(LiveEvent::StopFailed { error_code, message }));
                        },
                    }
                }
                out
            },
        }
    }
}

/// Whether the action reports the state `s`: `Stopped` for idle, `Started`
/// with its address and key for streaming.
pub open spec fn announces(s: LiveState, act: ManagerAction) -> bool {
    match s {
        LiveState::Idle => act == ManagerAction::Emit(LiveEvent::Stopped),
        LiveState::Streaming { rtmp_url, stream_key } => emits_started(act, (rtmp_url@, stream_key@)),
    }
}

/// The manager never changes whether or where it streams without reporting
/// it: a step that changes the state ends with the event that announces the
/// new state.
pub proof fn law_state_changes_are_reported(
    m: LiveManager,
    input: ManagerInput,
    m2: LiveManager,
    r: Seq<ManagerAction>,
)
    requires
        steps(m, input, m2, r),
        m2.state != m.state,
    ensures
        r.len() > 0,
        announces(m2.state, r.last()),
{
}

/// Law: the signed `startLive` request is final only when it succeeds or
/// asks for face verification (codes 60024, 60043). Any other answer to it,
/// a failure or an error alike, keeps the start going: the reason is
/// reported, the plain request is sent next, and nothing is reported as
/// started or failed yet.
pub proof fn law_signed_start_falls_back(
    m: LiveManager,
    a: Result<StartLiveResult, String>,
    m2: LiveManager,
    r: Seq<ManagerAction>,
)
    requires
        m.phase == (Phase::Starting { simple: false }),
        !(a matches Ok(StartLiveResult::Success { .. })),
        !(a matches Ok(StartLiveResult::Failed { code, .. }) && (code == 60024 || code == 60043)),
        steps(m, ManagerInput::StartAnswer(a), m2, r),
    ensures
        m2.phase == (Phase::Starting { simple: true }),
        m2.state == m.state,
        r.len() == 2,
        r[1] == ManagerAction::StartLive(StartLiveMode::Simple),
        match a {
            Err(t) => r[0] == ManagerAction::FallBack { reason: t },
            Ok(StartLiveResult::Failed { message, .. }) => r[0] == ManagerAction::FallBack { reason: message },
            _ => false,
        },
{
}

/// Law: the answer to the plain request (sent after the signed one was
/// given up) always ends the start attempt: the manager is ready again, or
/// waits for face verification, and never sends a third request.
pub proof fn law_plain_start_is_final(
    m: LiveManager,
    a: Result<StartLiveResult, String>,
    m2: LiveManager,
    r: Seq<ManagerAction>,
)
    requires
        m.phase == (Phase::Starting { simple: true }),
        steps(m, ManagerInput::StartAnswer(a), m2, r),
    ensures
        m2.phase == Phase::Ready || m2.phase matches Phase::FaceWatch { .. },
        forall|i: int| 0 <= i < r.len() ==> !(#[trigger] r[i] is StartLive),
        a matches Err(t) ==> r.len() == 1,
{
}

/// A start that is cancelled or times out during the verification wait
/// leaves the manager ready for the next command, and never streaming
/// anew.
pub proof fn law_wait_ends(m: LiveManager, cancelled: bool, timed_out: bool, m2: LiveManager, r: Seq<ManagerAction>)
    requires
        m.phase matches Phase::FaceWatch { stage, .. } && stage == WatchStage::Waiting,
        cancelled || timed_out,
        steps(m, ManagerInput::Tick { cancelled, timed_out }, m2, r),
    ensures
        m2.phase == Phase::Ready,
        m2.state == m.state,
{
}

// ---------------------------------------------------------------------------
// Starting with the client APIs
// ---------------------------------------------------------------------------

/// The outcome of the answer of `client`'s `startLive`: success starts with
/// that client; a request for face verification asks for it with the link;
/// another failure fails with its code and message; an error with its code
/// and message.
pub fn start_outcome(result: Result<StartLiveResult, AppError>, client: LiveClient) -> (r: StartOutcome)
    ensures
        result matches Ok(StartLiveResult::Success { rtmp_url, stream_key }) ==> (r matches StartOutcome::Started {
            rtmp_url: u,
            stream_key: k,
            client: c,
        } && u == rtmp_url && k == stream_key && c == client),
        result matches Ok(StartLiveResult::Failed { code, message, face_auth_url }) ==> ((code == 60024 || code
            == 60043) ==> r == StartOutcome::AuthRequired { face_auth_url }),
        result matches Ok(StartLiveResult::Failed { code, message, face_auth_url }) ==> (!(code == 60024
            || code == 60043) ==> r == StartOutcome::Failed { code: code as i64, message }),
        result matches Err(e) ==> (r matches StartOutcome::Failed { code, message } && (e matches AppError::BiliApi {
            code: c,
            message: m,
            ..
        } ==> code == c && message@ == m@) && (e matches AppError::General(m) ==> code == -1
            && message@ == m@)),
{
    match result {
        Ok(StartLiveResult::Success { rtmp_url, stream_key }) => StartOutcome::Started { rtmp_url, stream_key, client },
        Ok(StartLiveResult::Failed { code, message, face_auth_url }) => {
            if code == 60043 || code == 60024 {
                StartOutcome::AuthRequired { face_auth_url }
            } else {
                StartOutcome::Failed { code: code as i64, message }
            }
        },
        Err(e) => {
            let (code, message) = e.code_and_message();
            StartOutcome::Failed { code, message }
        },
    }
}

/// What to do after the Electron client's `startLive`.
pub enum StartStep {
    /// The attempt is over.
    Done(StartOutcome),
    /// Try the Livehime client; the Electron client failed with `code`.
    TryLivehime { code: i32, message: String },
}

/// After the Electron client's answer (an error by its text): an error
/// fails at once with -1; a failure other than a request for face
/// verification falls back to the Livehime client; anything else is the
/// outcome with the Electron client.
pub fn after_electron(result: Result<StartLiveResult, String>) -> (r: StartStep)
    ensures
        result matches Err(text) ==> (r matches StartStep::Done(StartOutcome::Failed { code, message })
            && code == -1 && message == text),
        result matches Ok(StartLiveResult::Failed { code, message, .. }) ==> (!(code == 60024 || code
            == 60043) ==> r == StartStep::TryLivehime { code, message }),
        result matches Ok(StartLiveResult::Failed { code, face_auth_url, .. }) ==> ((code == 60024 || code
            == 60043) ==> r == StartStep::Done(StartOutcome::AuthRequired { face_auth_url })),
        result matches Ok(StartLiveResult::Success { rtmp_url, stream_key }) ==> r == StartStep::Done(
            StartOutcome::Started { rtmp_url, stream_key, client: LiveClient::Electron },
        ),
{
    match result {
        Err(text) => StartStep::Done(StartOutcome::Failed { code: -1, message: text }),
        Ok(StartLiveResult::Failed { code, message, face_auth_url }) => {
            if code == 60024 || code == 60043 {
                StartStep::Done(StartOutcome::AuthRequired { face_auth_url })
            } else {
                StartStep::TryLivehime { code, message }
            }
        },
        Ok(res) => StartStep::Done(start_outcome(Ok(res), LiveClient::Electron)),
    }
}

/// The outcome of `stopLive`: success, or the error's code and message.
pub fn stop_outcome(result: Result<(), AppError>) -> (r: Result<(), (i64, String)>)
    ensures
        result is Ok ==> r is Ok,
        result matches Err(e) ==> (r matches Err((code, message)) && (e matches AppError::BiliApi {
            code: c,
            message: m,
            ..
        } ==> code == c && message@ == m@) && (e matches AppError::General(m) ==> code == -1
            && message@ == m@)),
{
    match result {
        Ok(()) => Ok(()),
        Err(e) => Err(e.code_and_message()),
    }
}

} // verus!
