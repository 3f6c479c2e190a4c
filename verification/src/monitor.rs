//! Confirming that the video reaches Bilibili after the broadcast started:
//! the room's play information is polled a few times; if it never shows the
//! stream, one more look rules out a room gone offline, and the FLV address
//! is probed as a last resort.
//!
//! The monitor is a state machine: the caller waits, makes the requests it
//! asks for and hands back the answers.

use vstd::prelude::*;

use crate::biliapi::StreamInfo;

verus! {

/// How many times the play information is polled (half a second apart).
pub const STREAM_POLLS: u32 = 8;

/// What the caller does next.
#[derive(PartialEq, Eq, Structural, Clone, Copy, Debug)]
pub enum MonitorAction {
    /// Wait half a second, then ask for the play information.
    Poll,
    /// Ask for the play information once more before probing.
    Recheck,
    /// Report "probing" and probe the FLV address of the room.
    Probe,
    /// The stream is live: report "live" and that the stream is confirmed.
    Confirmed,
    /// The room went offline: report "offline" and stop.
    Offline,
    /// No stream showed up: report "timeout" and that the wait timed out.
    TimedOut,
}

/// Where the monitor stands.
#[derive(PartialEq, Eq, Structural, Clone, Copy, Debug)]
pub enum MonitorStage {
    Polling,
    Rechecking,
    Probing,
    Finished,
}

/// The monitor: polls answered so far and the stage.
pub struct StreamMonitor {
    pub polls: u32,
    pub stage: MonitorStage,
}

/// Whether the monitor's state is one it can reach.
pub open spec fn monitor_wf(m: StreamMonitor) -> bool {
    m.polls <= STREAM_POLLS && (m.stage == MonitorStage::Polling ==> m.polls < STREAM_POLLS)
}

/// The answer to a play-information request (`None`: the request failed),
/// taken in state `m`: the next state and action.
pub open spec fn info_step(m: StreamMonitor, info: Option<StreamInfo>) -> (StreamMonitor, MonitorAction) {
    match m.stage {
        MonitorStage::Polling => if info == Some(StreamInfo::Live) {
            (StreamMonitor { polls: (m.polls + 1) as u32, stage: MonitorStage::Finished }, MonitorAction::Confirmed)
        } else if info == Some(StreamInfo::Offline) {
            (StreamMonitor { polls: (m.polls + 1) as u32, stage: MonitorStage::Finished }, MonitorAction::Offline)
        } else if m.polls + 1 < STREAM_POLLS {
            (StreamMonitor { polls: (m.polls + 1) as u32, stage: MonitorStage::Polling }, MonitorAction::Poll)
        } else {
            (StreamMonitor { polls: (m.polls + 1) as u32, stage: MonitorStage::Rechecking }, MonitorAction::Recheck)
        },
        MonitorStage::Rechecking => if info == Some(StreamInfo::Offline) {
            (StreamMonitor { polls: m.polls, stage: MonitorStage::Finished }, MonitorAction::Offline)
        } else {
            (StreamMonitor { polls: m.polls, stage: MonitorStage::Probing }, MonitorAction::Probe)
        },
        _ => (m, MonitorAction::Poll),
    }
}

/// Law: a verdict while polling ends the monitor at once, on any poll: an
/// offline room reports `Offline`, a live one `Confirmed`, and the poll is
/// counted. While rechecking, an offline room also reports `Offline`.
pub proof fn law_verdict_ends_polling(m: StreamMonitor)
    requires
        monitor_wf(m),
    ensures
        m.stage == MonitorStage::Polling ==> info_step(m, Some(StreamInfo::Offline)) == (StreamMonitor {
            polls: (m.polls + 1) as u32,
            stage: MonitorStage::Finished,
        }, MonitorAction::Offline),
        m.stage == MonitorStage::Polling ==> info_step(m, Some(StreamInfo::Live)) == (StreamMonitor {
            polls: (m.polls + 1) as u32,
            stage: MonitorStage::Finished,
        }, MonitorAction::Confirmed),
        m.stage == MonitorStage::Rechecking ==> info_step(m, Some(StreamInfo::Offline)).1
            == MonitorAction::Offline && info_step(m, Some(StreamInfo::Offline)).0.stage
            == MonitorStage::Finished,
{
}

/// The HTTP status of the FLV probe (`None`: no answer), taken in state `m`.
pub open spec fn probe_step(m: StreamMonitor, status: Option<u16>) -> (StreamMonitor, MonitorAction) {
    let done = StreamMonitor { polls: m.polls, stage: MonitorStage::Finished };
    if status == Some(200u16) {
        (done, MonitorAction::Confirmed)
    } else {
        (done, MonitorAction::TimedOut)
    }
}

impl StreamMonitor {
    /// A monitor that is about to poll for the first time.
    pub fn new() -> (r: Self)
        ensures
            r.polls == 0,
            r.stage == MonitorStage::Polling,
            monitor_wf(r),
    {
        StreamMonitor { polls: 0, stage: MonitorStage::Polling }
    }

    /// Takes the answer to a play-information request.
    pub fn on_info(&mut self, info: Option<StreamInfo>) -> (r: MonitorAction)
        requires
            monitor_wf(*old(self)),
            old(self).stage == MonitorStage::Polling || old(self).stage == MonitorStage::Rechecking,
        ensures
            (*final(self), r) == info_step(*old(self), info),
            monitor_wf(*final(self)),
    {
        match self.stage {
            MonitorStage::Polling => {
                self.polls = self.polls + 1;
                let live = match info {
                    Some(StreamInfo::Live) => 1u8,
                    Some(StreamInfo::Offline) => 2u8,
                    _ => 0u8,
                };
                if live == 1 {
                    self.stage = MonitorStage::Finished;
                    MonitorAction::Confirmed
                } else if live == 2 {
                    self.stage = MonitorStage::Finished;
                    MonitorAction::Offline
                } else if self.polls < STREAM_POLLS {
                    MonitorAction::Poll
                } else {
                    self.stage = MonitorStage::Rechecking;
                    MonitorAction::Recheck
                }
            },
            _ => {
                let offline = match info {
                    Some(StreamInfo::Offline) => true,
                    _ => false,
                };
                if offline {
                    self.stage = MonitorStage::Finished;
                    MonitorAction::Offline
                } else {
                    self.stage = MonitorStage::Probing;
                    MonitorAction::Probe
                }
            },
        }
    }

    /// Takes the HTTP status of the FLV probe.
    pub fn on_probe(&mut self, status: Option<u16>) -> (r: MonitorAction)
        requires
            old(self).stage == MonitorStage::Probing,
        ensures
            (*final(self), r) == probe_step(*old(self), status),
    {
        self.stage = MonitorStage::Finished;
        match status {
            Some(code) => if code == 200 {
                MonitorAction::Confirmed
            } else {
                MonitorAction::TimedOut
            },
            None => MonitorAction::TimedOut,
        }
    }
}

/// The stream state the router's web page shows for an action, if any.
pub open spec fn router_stream_state(a: MonitorAction) -> Option<Seq<char>> {
    match a {
        MonitorAction::Probe => Some("probing"@),
        MonitorAction::Confirmed => Some("live"@),
        MonitorAction::Offline => Some("offline"@),
        MonitorAction::TimedOut => Some("timeout"@),
        _ => None,
    }
}

/// The stream state the router's web page shows for an action, if any.
pub fn stream_state_of(a: MonitorAction) -> (r: Option<&'static str>)
    ensures
        r matches Some(t) ==> router_stream_state(a) == Some(t@),
        r is None ==> router_stream_state(a) is None,
{
    match a {
        MonitorAction::Probe => Some("probing"),
        MonitorAction::Confirmed => Some("live"),
        MonitorAction::Offline => Some("offline"),
        MonitorAction::TimedOut => Some("timeout"),
        _ => None,
    }
}

/// The address probed: the first FLV address of the play answer, where its
/// `code` is 0.
pub fn flv_target(code: Option<i64>, first_url: Option<String>) -> (r: Option<String>)
    ensures
        r == if code == Some(0i64) {
            first_url
        } else {
            None
        },
{
    match code {
        Some(c) => if c == 0 {
            first_url
        } else {
            None
        },
        None => None,
    }
}

/// The monitor after the play-information answers `infos`, from a fresh
/// one, while it is still polling or rechecking.
pub open spec fn answers(infos: Seq<Option<StreamInfo>>) -> (StreamMonitor, Seq<MonitorAction>)
    decreases infos.len(),
{
    if infos.len() == 0 {
        (StreamMonitor { polls: 0, stage: MonitorStage::Polling }, Seq::empty())
    } else {
        let (m, acts) = answers(infos.drop_last());
        let (m2, a) = info_step(m, infos.last());
        (m2, acts.push(a))
    }
}

/// Law: over any run of answers from a fresh monitor, the first answer that
/// says the room is offline, among the first `STREAM_POLLS` answers, ends
/// the run with `Offline`, however many polls came before it.
pub proof fn law_first_offline_ends(infos: Seq<Option<StreamInfo>>)
    requires
        1 <= infos.len() <= STREAM_POLLS,
        infos.last() == Some(StreamInfo::Offline),
        forall|i: int| 0 <= i < infos.len() - 1 ==> #[trigger] infos[i] != Some(StreamInfo::Live) && infos[i]
            != Some(StreamInfo::Offline),
    ensures
        answers(infos).1.last() == MonitorAction::Offline,
        answers(infos).0.stage == MonitorStage::Finished,
{
    let k = infos.len() - 1;
    let before = infos.drop_last();
    assert forall|i: int| 0 <= i < before.len() implies #[trigger] before[i] != Some(StreamInfo::Live)
        && before[i] != Some(StreamInfo::Offline) by {
        assert(before[i] == infos[i]);
    }
    lemma_no_verdict(before, k);
    assert(before.take(k) == before);
}

/// Law: however the room answers, the monitor makes at most
/// `STREAM_POLLS` polls and one recheck before it stops or probes. After
/// `STREAM_POLLS + 1` answers with no verdict (neither live nor offline) it
/// has asked for the probe.
pub proof fn law_monitor_gives_up(infos: Seq<Option<StreamInfo>>)
    requires
        infos.len() == STREAM_POLLS + 1,
        forall|i: int| 0 <= i < infos.len() ==> #[trigger] infos[i] != Some(StreamInfo::Live) && infos[i]
            != Some(StreamInfo::Offline),
    ensures
        answers(infos).0.stage == MonitorStage::Probing,
        answers(infos).1.last() == MonitorAction::Probe,
{
    lemma_no_verdict(infos, STREAM_POLLS as int);
    assert(infos.drop_last() == infos.take(STREAM_POLLS as int));
}

proof fn lemma_no_verdict(infos: Seq<Option<StreamInfo>>, k: int)
    requires
        0 <= k <= STREAM_POLLS,
        k <= infos.len(),
        forall|i: int| 0 <= i < infos.len() ==> #[trigger] infos[i] != Some(StreamInfo::Live) && infos[i]
            != Some(StreamInfo::Offline),
    ensures
        answers(infos.take(k)).0.polls == k,
        k < STREAM_POLLS ==> answers(infos.take(k)).0.stage == MonitorStage::Polling,
        k == STREAM_POLLS ==> answers(infos.take(k)).0.stage == MonitorStage::Rechecking,
    decreases k,
{
    if k > 0 {
        lemma_no_verdict(infos, k - 1);
        assert(infos.take(k).drop_last() == infos.take(k - 1));
        assert(infos.take(k).last() == infos[k - 1]);
    }
}

} // verus!
