//! Log lines: the tag each level carries, the line handed to a replacement
//! sink, when debug lines are shown, and the logger's settings (the debug
//! switch and the sink that replaces the console, which is set once).

use vstd::prelude::*;

use crate::text::{push_str, string_from_chars};

verus! {

broadcast use vstd::string::group_string_axioms;

/// The level of a log line.
#[derive(PartialEq, Eq, Structural, Clone, Copy, Debug)]
pub enum Level {
    /// Plain information, no tag.
    Info,
    /// Success, the whole line green.
    Success,
    /// A warning, tagged `[WARN]`.
    Warn,
    /// An error, tagged `[ERROR]`.
    Error,
    /// An alert, the whole line bold red; tagged `[ERROR]` in a replacement sink.
    Alert,
    /// A debug line, tagged `[DEBUG]`.
    Debug,
}

/// The tag a level carries in a replacement sink.
pub open spec fn sink_tag(level: Level) -> Seq<char> {
    match level {
        Level::Info => Seq::empty(),
        Level::Success => Seq::empty(),
        Level::Warn => "[WARN] "@,
        Level::Error => "[ERROR] "@,
        Level::Alert => "[ERROR] "@,
        Level::Debug => "[DEBUG] "@,
    }
}

/// The line a replacement sink receives: the level's tag, then the message.
pub fn sink_line(level: Level, msg: &str) -> (r: String)
    ensures
        r@ == sink_tag(level) + msg@,
{
    let mut out: Vec<char> = Vec::new();
    match level {
        Level::Info | Level::Success => {},
        Level::Warn => push_str(&mut out, "[WARN] "),
        Level::Error | Level::Alert => push_str(&mut out, "[ERROR] "),
        Level::Debug => push_str(&mut out, "[DEBUG] "),
    }
    push_str(&mut out, msg);
    string_from_chars(out.as_slice())
}

/// The tag a level carries on the console, before the message and a space;
/// the other levels color the whole line or print it plain.
pub open spec fn console_tag(level: Level) -> Option<Seq<char>> {
    match level {
        Level::Warn => Some("[WARN]"@),
        Level::Error => Some("[ERROR]"@),
        Level::Debug => Some("[DEBUG]"@),
        _ => None,
    }
}

/// The tag a level carries on the console.
pub fn console_tag_of(level: Level) -> (r: Option<&'static str>)
    ensures
        r matches Some(t) ==> console_tag(level) == Some(t@),
        r is None ==> console_tag(level) is None,
{
    match level {
        Level::Warn => Some("[WARN]"),
        Level::Error => Some("[ERROR]"),
        Level::Debug => Some("[DEBUG]"),
        _ => None,
    }
}

/// Whether a line of this level is also the router's last error: warnings
/// and errors are.
pub fn marks_router_error(level: Level) -> (r: bool)
    ensures
        r == (level == Level::Warn || level == Level::Error),
{
    match level {
        Level::Warn | Level::Error => true,
        _ => false,
    }
}

/// A slot set once: `v` goes in only while it is empty.
pub open spec fn set_once<S>(slot: Option<S>, v: S) -> Option<S> {
    if slot is None {
        Some(v)
    } else {
        slot
    }
}

/// The logger's settings: the debug switch, and the sink that replaces the
/// console once one is set (the first one set stays).
pub struct LogSettings<S> {
    debug: bool,
    sink: Option<S>,
}

impl<S> LogSettings<S> {
    /// Whether debug lines are enabled at run time.
    pub closed spec fn debug_on(&self) -> bool {
        self.debug
    }

    /// The sink that replaces the console, if one was set.
    pub closed spec fn sink_set(&self) -> Option<S> {
        self.sink
    }

    /// Debug off, the console in use.
    pub fn new() -> (r: Self)
        ensures
            !r.debug_on(),
            r.sink_set() is None,
    {
        LogSettings { debug: false, sink: None }
    }

    /// Switches debug lines on or off at run time.
    pub fn set_debug_enabled(&mut self, enabled: bool)
        ensures
            final(self).debug_on() == enabled,
            final(self).sink_set() == old(self).sink_set(),
    {
        self.debug = enabled;
    }

    /// Whether debug lines are enabled at run time.
    pub fn is_debug_enabled(&self) -> (r: bool)
        ensures
            r == self.debug_on(),
    {
        self.debug
    }

    /// Sends every line to `sink` in place of the console; only the first
    /// sink set is kept, later ones are ignored.
    pub fn set_override(&mut self, sink: S)
        ensures
            final(self).sink_set() == set_once(old(self).sink_set(), sink),
            final(self).debug_on() == old(self).debug_on(),
    {
        if self.sink.is_none() {
            self.sink = Some(sink);
        }
    }

    /// The sink that replaces the console, if one was set.
    pub fn sink(&self) -> (r: Option<&S>)
        ensures
            r matches Some(s) ==> self.sink_set() == Some(*s),
            r is None ==> self.sink_set() is None,
    {
        match &self.sink {
            Some(s) => Some(s),
            None => None,
        }
    }

    /// Whether a debug line is shown: always in a debug build, otherwise
    /// when switched on at run time.
    pub fn shows_debug(&self, debug_build: bool) -> (r: bool)
        ensures
            r == (debug_build || self.debug_on()),
    {
        debug_build || self.debug
    }
}

/// Law: the first replacement sink stays; setting another one later changes
/// nothing.
pub proof fn law_first_sink_stays<S>(first: S, later: Seq<S>)
    ensures
        sinks_after(Some(first), later) == Some(first),
    decreases later.len(),
{
    if later.len() > 0 {
        law_first_sink_stays(first, later.drop_last());
    }
}

/// The sink after the sinks `later` were set in order (`set_override`),
/// starting from `s`.
pub open spec fn sinks_after<S>(s: Option<S>, later: Seq<S>) -> Option<S>
    decreases later.len(),
{
    if later.len() == 0 {
        s
    } else {
        set_once(sinks_after(s, later.drop_last()), later.last())
    }
}

} // verus!
