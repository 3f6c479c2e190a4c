//! The port-redirect helper process on Windows and its named pipe: how the
//! helper reads its arguments, when the main program retries opening the
//! pipe, and how the lines that come through it are read.

use vstd::prelude::*;

use crate::dns::{ipv4_text, parse_ipv4};
use crate::log::set_once;
use crate::text::{chars_eq_str, chars_of, trim_end, trim_end_chars};

verus! {

broadcast use vstd::string::group_string_axioms;

/// The line the helper sends once both redirects are running.
pub const INIT_DONE_LINE: &'static str = "[[INIT_DONE]]";

/// How often the main program tries to open the helper's pipe.
pub const PIPE_OPEN_TRIES: u32 = 20;

/// The system error of a pipe that does not exist yet (the helper is still
/// starting): `ERROR_FILE_NOT_FOUND`.
pub const PIPE_NOT_YET_CREATED: i32 = 2;

/// Sets where the helper's log lines go: only the first logger set is kept,
/// later ones are ignored (see `law_first_sink_stays` in `log`).
pub fn set_logger<S>(slot: &mut Option<S>, f: S)
    ensures
        *final(slot) == set_once(*old(slot), f),
{
    if slot.is_none() {
        *slot = Some(f);
    }
}

/// Sets the pipe's sending side: only the first one set is kept.
pub fn set_pipe_tx<S>(slot: &mut Option<S>, tx: S)
    ensures
        *final(slot) == set_once(*old(slot), tx),
{
    if slot.is_none() {
        *slot = Some(tx);
    }
}

/// What the helper was started to do.
#[derive(PartialEq, Eq, Structural, Clone, Copy, Debug)]
pub enum HelperLaunch {
    /// `-v` or `--version`: only check that the driver library loads.
    Version,
    /// Redirect the console's traffic to this machine's address.
    Run(u32),
    /// No valid address was given: the helper fails.
    MissingAddress,
}

/// Whether an argument asks for the version check.
pub open spec fn is_version_flag(a: Seq<char>) -> bool {
    a == "-v"@ || a == "--version"@
}

/// What the helper does for its command line (`args[0]` is the program).
pub open spec fn launch_of(args: Seq<Seq<char>>) -> HelperLaunch {
    if exists|i: int| 0 <= i < args.len() && is_version_flag(#[trigger] args[i]) {
        HelperLaunch::Version
    } else if args.len() > 1 && ipv4_text(args[1]) is Some {
        HelperLaunch::Run(ipv4_text(args[1])->0)
    } else {
        HelperLaunch::MissingAddress
    }
}

/// Reads the helper's command line: a version flag anywhere wins; otherwise
/// the first argument is this machine's IPv4 address.
pub fn helper_launch(args: &Vec<String>) -> (r: HelperLaunch)
    ensures
        r == launch_of(args@.map_values(|a: String| a@)),
{
    let ghost v = args@.map_values(|a: String| a@);
    for i in 0..args.len()
        invariant
            v == args@.map_values(|a: String| a@),
            forall|j: int| 0 <= j < i ==> !is_version_flag(#[trigger] v[j]),
    {
        let a = chars_of(args[i].as_str());
        if chars_eq_str(a.as_slice(), "-v") || chars_eq_str(a.as_slice(), "--version") {
            assert(is_version_flag(v[i as int]));
            return HelperLaunch::Version;
        }
    }
    if args.len() > 1 {
        let a = chars_of(args[1].as_str());
        match parse_ipv4(a.as_slice()) {
            Some(ip) => HelperLaunch::Run(ip),
            None => HelperLaunch::MissingAddress,
        }
    } else {
        HelperLaunch::MissingAddress
    }
}

/// Whether opening the pipe is tried again after a failed try: only while
/// the pipe does not exist yet, and at most `PIPE_OPEN_TRIES` tries in all.
pub fn retry_pipe_open(tries_done: u32, os_error: Option<i32>) -> (r: bool)
    ensures
        r == (os_error == Some(PIPE_NOT_YET_CREATED) && tries_done < PIPE_OPEN_TRIES),
{
    match os_error {
        Some(code) => code == PIPE_NOT_YET_CREATED && tries_done < PIPE_OPEN_TRIES,
        None => false,
    }
}

/// What the main program does with a line from the helper's pipe.
#[derive(PartialEq, Eq, Structural, Clone, Copy, Debug)]
pub enum PipeLine {
    /// The helper is ready: signal it (the first time).
    Ready,
    /// Already signalled: nothing more to do.
    Ignore,
    /// A log line of the helper: show it as it came.
    Echo,
}

/// The reader of the helper's pipe: whether readiness was signalled yet.
pub struct PipeReader {
    pub ready_sent: bool,
}

/// Whether a line announces readiness (trailing whitespace aside).
pub open spec fn is_ready_line(line: Seq<char>) -> bool {
    trim_end(line) == INIT_DONE_LINE@
}

/// The reaction to a line and the state after it.
pub open spec fn pipe_step(r: PipeReader, line: Seq<char>) -> (PipeReader, PipeLine) {
    if is_ready_line(line) {
        if r.ready_sent {
            (r, PipeLine::Ignore)
        } else {
            (PipeReader { ready_sent: true }, PipeLine::Ready)
        }
    } else {
        (r, PipeLine::Echo)
    }
}

impl PipeReader {
    /// A reader that has not signalled readiness.
    pub fn new() -> (r: Self)
        ensures
            !r.ready_sent,
    {
        PipeReader { ready_sent: false }
    }

    /// Takes one line of the pipe.
    pub fn on_line(&mut self, line: &str) -> (r: PipeLine)
        ensures
            (*final(self), r) == pipe_step(*old(self), line@),
    {
        let cs = chars_of(line);
        let t = trim_end_chars(cs.as_slice());
        if chars_eq_str(t.as_slice(), INIT_DONE_LINE) {
            if self.ready_sent {
                PipeLine::Ignore
            } else {
                self.ready_sent = true;
                PipeLine::Ready
            }
        } else {
            PipeLine::Echo
        }
    }
}

/// The reader after the lines `lines`, and how many times it signalled.
pub open spec fn read_lines(r: PipeReader, lines: Seq<Seq<char>>) -> (PipeReader, nat)
    decreases lines.len(),
{
    if lines.len() == 0 {
        (r, 0)
    } else {
        let (q, n) = read_lines(r, lines.drop_last());
        let (q2, act) = pipe_step(q, lines.last());
        (q2, if act == PipeLine::Ready { n + 1 } else { n })
    }
}

/// Law: readiness is signalled at most once, whatever the helper sends,
/// and exactly once if it sends the ready line at all.
pub proof fn law_ready_signalled_once(lines: Seq<Seq<char>>)
    ensures
        read_lines(PipeReader { ready_sent: false }, lines).1 <= 1,
        read_lines(PipeReader { ready_sent: false }, lines).1 == 1 <==> exists|i: int|
            0 <= i < lines.len() && is_ready_line(#[trigger] lines[i]),
    decreases lines.len(),
{
    if lines.len() > 0 {
        law_ready_signalled_once(lines.drop_last());
        lemma_read_lines_sent(lines.drop_last());
        let init = PipeReader { ready_sent: false };
        if exists|i: int| 0 <= i < lines.drop_last().len() && is_ready_line(#[trigger] lines.drop_last()[i]) {
            let i = choose|i: int| 0 <= i < lines.drop_last().len() && is_ready_line(#[trigger] lines.drop_last()[i]);
            assert(lines[i] == lines.drop_last()[i]);
        }
        if exists|i: int| 0 <= i < lines.len() && is_ready_line(#[trigger] lines[i]) {
            let i = choose|i: int| 0 <= i < lines.len() && is_ready_line(#[trigger] lines[i]);
            if i < lines.len() - 1 {
                assert(lines.drop_last()[i] == lines[i]);
            }
        }
    }
}

proof fn lemma_read_lines_sent(lines: Seq<Seq<char>>)
    ensures
        read_lines(PipeReader { ready_sent: false }, lines).0.ready_sent == (read_lines(
            PipeReader { ready_sent: false },
            lines,
        ).1 > 0),
    decreases lines.len(),
{
    if lines.len() > 0 {
        lemma_read_lines_sent(lines.drop_last());
    }
}

} // verus!
