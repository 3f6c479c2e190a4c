//! Command-line options of the desktop program and the launch options that
//! the configuration file may hold, and the answers of the interactive
//! questions.

use vstd::prelude::*;

use crate::live::eq_ignore_case;
use crate::text::{
    chars_of, has_prefix, push_all, push_str, slice_chars, split_whitespace_chars, starts_with_str,
    string_from_chars, trim, trim_chars, words, find_char, first_index_of, chars_eq_str,
};

verus! {

broadcast use vstd::string::group_string_axioms;

/// The command-line options of the desktop program.
pub struct Args {
    /// Configuration file.
    pub config: Option<String>,
    /// Cookie string.
    pub cookie: Option<String>,
    /// Live room id.
    pub room_id: Option<u64>,
    /// Broadcast title.
    pub title: Option<String>,
    /// Broadcast area id.
    pub area: Option<String>,
    /// Run mode: `auto` (the default) or `manual`.
    pub live_mode: Option<String>,
    /// Path of a system FFmpeg to use.
    pub ffmpeg: Option<String>,
    /// HTTP proxy (`http://host:port`).
    pub proxy: Option<String>,
    /// Accelerator compatibility mode.
    pub windivert: bool,
    /// DNS hijack mode.
    pub dns: bool,
    /// Debug log output.
    pub debug: bool,
}

/// Extra launch options kept in the configuration file.
pub struct LaunchArgs {
    pub proxy: Option<String>,
    pub windivert: bool,
    pub dns: bool,
}

/// The launch options by plain values.
pub struct LaunchView {
    pub proxy: Option<Seq<char>>,
    pub windivert: bool,
    pub dns: bool,
}

impl LaunchArgs {
    /// The options by plain values.
    pub open spec fn view_of(self) -> LaunchView {
        LaunchView {
            proxy: match self.proxy {
                Some(p) => Some(p@),
                None => None,
            },
            windivert: self.windivert,
            dns: self.dns,
        }
    }
}

impl Default for LaunchArgs {
    fn default() -> (r: Self)
        ensures
            r.proxy is None,
            !r.windivert,
            !r.dns,
    {
        LaunchArgs { proxy: None, windivert: false, dns: false }
    }
}

/// The options that the words of a launch line set: `--proxy=URL`,
/// `--windivert` and `--dns`; a later `--proxy=` replaces an earlier one and
/// other words are ignored.
pub open spec fn launch_words(ws: Seq<Seq<char>>) -> LaunchView
    decreases ws.len(),
{
    if ws.len() == 0 {
        LaunchView { proxy: None, windivert: false, dns: false }
    } else {
        let before = launch_words(ws.drop_last());
        let w = ws.last();
        if has_prefix(w, "--proxy="@) {
            LaunchView { proxy: Some(w.skip(8)), ..before }
        } else if w == "--windivert"@ {
            LaunchView { windivert: true, ..before }
        } else if w == "--dns"@ {
            LaunchView { dns: true, ..before }
        } else {
            before
        }
    }
}

/// Reads the launch options of a whitespace-separated launch line.
pub fn parse_args_string(s: &str) -> (r: LaunchArgs)
    ensures
        r.view_of() == launch_words(words(s@)),
{
    proof {
        reveal_strlit("--proxy=");
    }
    let cs = chars_of(s);
    let toks = split_whitespace_chars(cs.as_slice());
    let ghost ws = words(s@);
    let mut args = LaunchArgs::default();
    for i in 0..toks.len()
        invariant
            toks@.len() == ws.len(),
            ws == words(s@),
            forall|k: int| 0 <= k < toks@.len() ==> #[trigger] toks@[k]@ == ws[k],
            args.view_of() == launch_words(ws.take(i as int)),
            "--proxy="@.len() == 8,
    {
        assert(ws.take(i + 1).drop_last() == ws.take(i as int));
        assert(ws.take(i + 1).last() == ws[i as int]);
        let tok = &toks[i];
        if starts_with_str(tok.as_slice(), "--proxy=") {
            let v = slice_chars(tok.as_slice(), 8, tok.len());
            assert(v@ == ws[i as int].skip(8));
            args.proxy = Some(string_from_chars(v.as_slice()));
        } else if chars_eq_str(tok.as_slice(), "--windivert") {
            args.windivert = true;
        } else if chars_eq_str(tok.as_slice(), "--dns") {
            args.dns = true;
        }
    }
    assert(ws.take(toks@.len() as int) == ws);
    args
}

impl LaunchArgs {
    /// Adds the command line's options: its proxy replaces the configured
    /// one, and its switches turn the configured ones on.
    pub fn merge_cli(&mut self, proxy: Option<String>, windivert: bool, dns: bool)
        ensures
            final(self).view_of() == (LaunchView {
                proxy: match proxy {
                    Some(p) => Some(p@),
                    None => old(self).view_of().proxy,
                },
                windivert: old(self).windivert || windivert,
                dns: old(self).dns || dns,
            }),
    {
        if proxy.is_some() {
            self.proxy = proxy;
        }
        if windivert {
            self.windivert = true;
        }
        if dns {
            self.dns = true;
        }
    }
}

// ---------------------------------------------------------------------------
// Interactive answers
// ---------------------------------------------------------------------------

/// What an answer to the run mode question asks for.
pub enum ModeChoice {
    /// Run with these launch options.
    Args(String),
    /// Ask for the HTTP proxy's address.
    AskProxy,
    /// Not an answer; ask again.
    Invalid,
}

/// The answer to the run mode question, trimmed: `1` runs as is, `2` with
/// the DNS proxy, `3` asks for an HTTP proxy, and `4` (on Windows) runs in
/// accelerator compatibility mode.
pub fn mode_choice(input: &str, windows: bool) -> (r: ModeChoice)
    ensures
        trim(input@) == "1"@ ==> (r matches ModeChoice::Args(a) && a@ == "--default"@),
        trim(input@) == "2"@ ==> (r matches ModeChoice::Args(a) && a@ == "--dns"@),
        trim(input@) == "3"@ ==> r is AskProxy,
        trim(input@) == "4"@ ==> (windows ==> (r matches ModeChoice::Args(a) && a@ == "--windivert"@))
            && (!windows ==> r is Invalid),
        !(trim(input@) == "1"@ || trim(input@) == "2"@ || trim(input@) == "3"@ || trim(input@)
            == "4"@) ==> r is Invalid,
{
    proof {
        reveal_strlit("1");
        reveal_strlit("2");
        reveal_strlit("3");
        reveal_strlit("4");
        assert("1"@[0] == '1' && "2"@[0] == '2' && "3"@[0] == '3' && "4"@[0] == '4');
        assert("1"@.len() == 1 && "2"@.len() == 1 && "3"@.len() == 1 && "4"@.len() == 1);
    }
    let cs = chars_of(input);
    let t = trim_chars(cs.as_slice());
    if chars_eq_str(t.as_slice(), "1") {
        ModeChoice::Args("--default".to_string())
    } else if chars_eq_str(t.as_slice(), "2") {
        ModeChoice::Args("--dns".to_string())
    } else if chars_eq_str(t.as_slice(), "3") {
        ModeChoice::AskProxy
    } else if windows && chars_eq_str(t.as_slice(), "4") {
        ModeChoice::Args("--windivert".to_string())
    } else {
        ModeChoice::Invalid
    }
}

/// Whether the trimmed answer is an HTTP proxy address: `http://` followed
/// by text that holds a `:`.
pub open spec fn is_proxy_address(u: Seq<char>) -> bool {
    has_prefix(u, "http://"@) && u.skip(7).contains(':')
}

/// The launch option for an HTTP proxy answer, `--proxy=` and the trimmed
/// address; `None` where the answer is no such address.
pub fn proxy_choice(input: &str) -> (r: Option<String>)
    ensures
        r is Some <==> is_proxy_address(trim(input@)),
        r matches Some(a) ==> a@ == "--proxy="@ + trim(input@),
{
    proof {
        reveal_strlit("http://");
    }
    let cs = chars_of(input);
    let t = trim_chars(cs.as_slice());
    if starts_with_str(t.as_slice(), "http://") {
        let rest = slice_chars(t.as_slice(), 7, t.len());
        assert(rest@ == t@.skip(7));
        match find_char(rest.as_slice(), ':') {
            Some(_) => {
                proof {
                    crate::text::lemma_first_index_of(rest@, ':');
                    let i = first_index_of(rest@, ':')->0;
                    assert(rest@[i] == ':');
                }
                let mut out: Vec<char> = Vec::new();
                push_str(&mut out, "--proxy=");
                push_all(&mut out, t.as_slice());
                Some(string_from_chars(out.as_slice()))
            },
            None => {
                proof {
                    crate::text::lemma_first_index_of(rest@, ':');
                }
                None
            },
        }
    } else {
        None
    }
}

/// The answer to "save this mode?", trimmed and in any letter case: empty,
/// `y` or `yes` is yes; `n` or `no` is no; anything else asks again.
pub fn confirm_answer(input: &str) -> (r: Option<bool>)
    ensures
        (trim(input@).len() == 0 || eq_ignore_case(trim(input@), "y"@) || eq_ignore_case(
            trim(input@),
            "yes"@,
        )) ==> r == Some(true),
        (eq_ignore_case(trim(input@), "n"@) || eq_ignore_case(trim(input@), "no"@)) ==> r == Some(
            false,
        ),
        r is None <==> !(trim(input@).len() == 0 || eq_ignore_case(trim(input@), "y"@)
            || eq_ignore_case(trim(input@), "yes"@) || eq_ignore_case(trim(input@), "n"@)
            || eq_ignore_case(trim(input@), "no"@)),
{
    proof {
        reveal_strlit("y");
        reveal_strlit("yes");
        reveal_strlit("n");
        reveal_strlit("no");
        assert("y"@[0] == 'y' && "yes"@[0] == 'y' && "n"@[0] == 'n' && "no"@[0] == 'n');
        assert("y"@.len() == 1 && "yes"@.len() == 3 && "n"@.len() == 1 && "no"@.len() == 2);
    }
    let cs = chars_of(input);
    let t = trim_chars(cs.as_slice());
    proof {
        if t@.len() > 0 {
            let c = crate::live::ascii_lower(t@[0]);
            assert(eq_ignore_case(t@, "n"@) ==> c == 'n');
            assert(eq_ignore_case(t@, "y"@) ==> c == 'y');
        }
    }
    if t.len() == 0 || crate::live::eq_ignore_case_exec(t.as_slice(), "y")
        || crate::live::eq_ignore_case_exec(t.as_slice(), "yes") {
        Some(true)
    } else if crate::live::eq_ignore_case_exec(t.as_slice(), "n")
        || crate::live::eq_ignore_case_exec(t.as_slice(), "no") {
        Some(false)
    } else {
        None
    }
}

} // verus!
