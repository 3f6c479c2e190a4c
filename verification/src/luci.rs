//! The status that the OpenWrt web interface reads: a JSON object of
//! top-level fields, each set or cleared as the bridge runs, and the event
//! that announces each change.
//!
//! The fields are kept in key order, as `serde_json` keeps an object's keys,
//! so that the text written here is the text `serde_json` writes.

use vstd::prelude::*;

use crate::params::{compare_keys, insert_sorted, keys_sorted, lookup, KeyOrder, key_lt, lemma_key_lt_total};
use crate::text::{chars_of, push_str, string_from_chars};

verus! {

broadcast use vstd::string::group_string_axioms;

/// A field's value.
pub enum StateValue {
    Bool(bool),
    Text(String),
    /// A JSON value, held as the compact text `serde_json` writes for it.
    Json(String),
}

/// A field's value by plain values.
pub enum ValueView {
    Bool(bool),
    Text(Seq<char>),
    Json(Seq<char>),
}

/// The plain value of a field's value.
pub open spec fn value_view(v: StateValue) -> ValueView {
    match v {
        StateValue::Bool(b) => ValueView::Bool(b),
        StateValue::Text(t) => ValueView::Text(t@),
        StateValue::Json(j) => ValueView::Json(j@),
    }
}

/// The text `serde_json` writes for the JSON value that `s` denotes, where
/// `s` parses as JSON.
pub uninterp spec fn json_canonical(s: Seq<char>) -> Option<Seq<char>>;

/// `serde_json::from_str::<Value>`, then `Value::to_string`: the compact
/// text of the JSON value that `s` denotes; `None` where it does not parse.
#[verifier::external_body]
fn canonical_json(s: &str) -> (r: Option<String>)
    ensures
        r is Some <==> json_canonical(s@) is Some,
        r matches Some(t) ==> json_canonical(s@) == Some(t@),
{
    serde_json::from_str::<serde_json::Value>(s).ok().map(|v| v.to_string())
}

/// The value a text becomes: where it starts with `{` and parses as JSON,
/// that JSON value; otherwise the text itself.
pub open spec fn text_value(s: Seq<char>) -> ValueView {
    if s.len() > 0 && s[0] == '{' && json_canonical(s) is Some {
        ValueView::Json(json_canonical(s)->0)
    } else {
        ValueView::Text(s)
    }
}

/// Makes a field's value of a text (see `text_value`).
pub fn str_value(s: &str) -> (r: StateValue)
    ensures
        value_view(r) == text_value(s@),
{
    let cs = chars_of(s);
    if cs.len() > 0 && cs[0] == '{' {
        if let Some(j) = canonical_json(s) {
            return StateValue::Json(j);
        }
    }
    StateValue::Text(s.to_string())
}

/// Makes a field's value of a flag.
pub fn bool_value(b: bool) -> (r: StateValue)
    ensures
        value_view(r) == ValueView::Bool(b),
{
    StateValue::Bool(b)
}

/// The value a field takes when cleared.
pub open spec fn default_view(key: Seq<char>) -> ValueView {
    if key == "running"@ {
        ValueView::Bool(false)
    } else if key == "qr"@ {
        ValueView::Json("{\"status\":\"\",\"url\":\"\"}"@)
    } else if key == "live"@ {
        ValueView::Json("{\"status\":\"\"}"@)
    } else if key == "dns"@ {
        ValueView::Json("{\"actual\":\"\",\"checking\":false,\"enabled\":false,\"ok\":false,\"target\":\"\"}"@)
    } else {
        ValueView::Text(Seq::empty())
    }
}

/// The value a field takes when cleared: `running` false, the `qr`, `live`
/// and `dns` objects with empty fields, any other field empty text.
pub fn default_value(key: &str) -> (r: StateValue)
    ensures
        value_view(r) == default_view(key@),
{
    let k = chars_of(key);
    if crate::text::chars_eq_str(k.as_slice(), "running") {
        StateValue::Bool(false)
    } else if crate::text::chars_eq_str(k.as_slice(), "qr") {
        StateValue::Json("{\"status\":\"\",\"url\":\"\"}".to_string())
    } else if crate::text::chars_eq_str(k.as_slice(), "live") {
        StateValue::Json("{\"status\":\"\"}".to_string())
    } else if crate::text::chars_eq_str(k.as_slice(), "dns") {
        StateValue::Json("{\"actual\":\"\",\"checking\":false,\"enabled\":false,\"ok\":false,\"target\":\"\"}".to_string())
    } else {
        StateValue::Text(String::new())
    }
}

/// The status object: its fields in key order.
pub struct LuciState {
    entries: Vec<(String, StateValue)>,
}

/// Fields by plain values.
pub open spec fn entries_view(v: Seq<(String, StateValue)>) -> Seq<(Seq<char>, ValueView)> {
    v.map_values(|e: (String, StateValue)| (e.0@, value_view(e.1)))
}

impl View for LuciState {
    type V = Seq<(Seq<char>, ValueView)>;

    closed spec fn view(&self) -> Seq<(Seq<char>, ValueView)> {
        entries_view(self.entries@)
    }
}

/// The fields of a fresh status: running, no user, the `qr`, `live` and
/// `dns` objects with empty fields, no error.
pub open spec fn initial_fields() -> Seq<(Seq<char>, ValueView)> {
    seq![
        ("dns"@, default_view("dns"@)),
        ("error"@, ValueView::Text(Seq::empty())),
        ("live"@, default_view("live"@)),
        ("qr"@, default_view("qr"@)),
        ("running"@, ValueView::Bool(true)),
        ("user"@, ValueView::Text(Seq::empty())),
    ]
}

impl LuciState {
    /// Sets `key` to `value`.
    pub fn insert(&mut self, key: String, value: StateValue)
        ensures
            final(self)@ == insert_sorted(old(self)@, key@, value_view(value)),
    {
        let kc = chars_of(key.as_str());
        let n = self.entries.len();
        let mut i: usize = 0;
        let ghost s = self@;
        while i < n
            invariant
                n == self.entries@.len(),
                i <= n,
                s == self@,
                s == entries_view(self.entries@),
                kc@ == key@,
                forall|j: int| 0 <= j < i ==> key_lt(#[trigger] s[j].0, key@),
            ensures
                i <= n,
                s == self@,
                n == self.entries@.len(),
                forall|j: int| 0 <= j < i ==> key_lt(#[trigger] s[j].0, key@),
                i < n ==> !key_lt(s[i as int].0, key@),
            decreases n - i,
        {
            let ec = chars_of(self.entries[i].0.as_str());
            match compare_keys(ec.as_slice(), kc.as_slice()) {
                KeyOrder::Less => {
                    i = i + 1;
                },
                _ => {
                    break;
                },
            }
        }
        proof {
            crate::params::lemma_insert_sorted_skip(s, key@, value_view(value), i as int);
        }
        if i < n {
            let ec = chars_of(self.entries[i].0.as_str());
            match compare_keys(ec.as_slice(), kc.as_slice()) {
                KeyOrder::Equal => {
                    let ghost vv = value_view(value);
                    self.entries.set(i, (key, value));
                    assert(s.skip(i as int)[0].0 == key@);
                    assert(self@ =~= s.take(i as int) + s.skip(i as int).update(0, (key@, vv)));
                },
                _ => {
                    proof {
                        lemma_key_lt_total(s[i as int].0, key@);
                    }
                    assert(key_lt(key@, s.skip(i as int)[0].0));
                    let ghost vv = value_view(value);
                    self.entries.insert(i, (key, value));
                    assert(self@ =~= s.take(i as int) + (seq![(key@, vv)] + s.skip(i as int)));
                },
            }
        } else {
            let ghost vv = value_view(value);
            self.entries.push((key, value));
            assert(s.skip(i as int).len() == 0);
            assert(self@ =~= s.take(i as int) + seq![(key@, vv)]);
        }
    }
}

impl LuciState {
    /// A status without fields.
    pub fn empty() -> (r: LuciState)
        ensures
            r@ == Seq::<(Seq<char>, ValueView)>::empty(),
    {
        let r = LuciState { entries: Vec::new() };
        assert(r@ =~= Seq::<(Seq<char>, ValueView)>::empty());
        r
    }
}

/// A fresh status (see `initial_fields`).
pub fn init() -> (r: LuciState)
    ensures
        r@ == initial_fields(),
        keys_sorted(r@),
{
    let mut entries: Vec<(String, StateValue)> = Vec::new();
    entries.push(("dns".to_string(), default_value("dns")));
    entries.push(("error".to_string(), StateValue::Text(String::new())));
    entries.push(("live".to_string(), default_value("live")));
    entries.push(("qr".to_string(), default_value("qr")));
    entries.push(("running".to_string(), StateValue::Bool(true)));
    entries.push(("user".to_string(), StateValue::Text(String::new())));
    let r = LuciState { entries };
    assert(r@ =~= initial_fields());
    proof {
        lemma_initial_sorted();
    }
    r
}

proof fn lemma_initial_sorted()
    ensures
        keys_sorted(initial_fields()),
{
    reveal_strlit("dns");
    reveal_strlit("error");
    reveal_strlit("live");
    reveal_strlit("qr");
    reveal_strlit("running");
    reveal_strlit("user");
    let f = initial_fields();
    assert(key_lt("dns"@, "error"@));
    assert(key_lt("error"@, "live"@));
    assert(key_lt("live"@, "qr"@));
    assert(key_lt("qr"@, "running"@));
    assert(key_lt("running"@, "user"@));
    assert forall|i: int, j: int| 0 <= i < j < f.len() implies key_lt(#[trigger] f[i].0, #[trigger] f[j].0) by {
        if j == i + 1 {
        } else {
            crate::params::lemma_key_lt_transitive(f[i].0, f[i + 1].0, f[i + 2].0);
            if j > i + 2 {
                crate::params::lemma_key_lt_transitive(f[i].0, f[i + 2].0, f[i + 3].0);
            }
            if j > i + 3 {
                crate::params::lemma_key_lt_transitive(f[i].0, f[i + 3].0, f[i + 4].0);
            }
            if j > i + 4 {
                crate::params::lemma_key_lt_transitive(f[i].0, f[i + 4].0, f[i + 5].0);
            }
        }
    }
}

/// Sets field `key` to `value`.
pub fn set(state: &mut LuciState, key: &str, value: StateValue)
    ensures
        final(state)@ == insert_sorted(old(state)@, key@, value_view(value)),
{
    state.insert(key.to_string(), value);
}

/// Sets field `key` back to its default (see `default_value`).
pub fn clear(state: &mut LuciState, key: &str)
    ensures
        final(state)@ == insert_sorted(old(state)@, key@, default_view(key@)),
{
    let v = default_value(key);
    state.insert(key.to_string(), v);
}

/// Setting a field and reading it back gives the value set; clearing it
/// gives its default; the other fields stay as they were; and the fields
/// stay in key order.
pub proof fn law_set_then_read(
    s: Seq<(Seq<char>, ValueView)>,
    key: Seq<char>,
    v: ValueView,
    other: Seq<char>,
)
    requires
        keys_sorted(s),
        other != key,
    ensures
        lookup(insert_sorted(s, key, v), key) == Some(v),
        lookup(insert_sorted(s, key, v), other) == lookup(s, other),
        keys_sorted(insert_sorted(s, key, v)),
        lookup(insert_sorted(s, key, default_view(key)), key) == Some(default_view(key)),
{
    crate::params::law_insert_sorted(s, key, v);
    crate::params::law_insert_sorted(s, key, default_view(key));
}

// ---------------------------------------------------------------------------
// JSON text
// ---------------------------------------------------------------------------

/// The JSON string literal `serde_json` writes for the text `s`: the text
/// in double quotes, with `"`, `\` and control characters escaped.
pub uninterp spec fn json_string(s: Seq<char>) -> Seq<char>;

/// `serde_json::to_string` on a `&str`: the JSON string literal for `s`.
/// Serializing a string into memory cannot fail (`to_vec` writes into a
/// `Vec`), so the empty text in place of an error is never returned.
#[verifier::external_body]
fn quote_json(s: &str) -> (r: String)
    ensures
        r@ == json_string(s@),
{
    serde_json::to_string(s).unwrap_or_default()
}

/// A field's value as JSON text.
pub open spec fn value_json(v: ValueView) -> Seq<char> {
    match v {
        ValueView::Bool(b) => if b {
            "true"@
        } else {
            "false"@
        },
        ValueView::Text(t) => json_string(t),
        ValueView::Json(j) => j,
    }
}

/// The members `"key":value` joined by commas.
pub open spec fn members_json(fields: Seq<(Seq<char>, ValueView)>) -> Seq<char>
    decreases fields.len(),
{
    if fields.len() == 0 {
        Seq::empty()
    } else if fields.len() == 1 {
        json_string(fields[0].0) + seq![':'] + value_json(fields[0].1)
    } else {
        members_json(fields.drop_last()) + seq![','] + json_string(fields.last().0) + seq![':']
            + value_json(fields.last().1)
    }
}

/// The status object as compact JSON text.
pub open spec fn object_json(fields: Seq<(Seq<char>, ValueView)>) -> Seq<char> {
    seq!['{'] + members_json(fields) + seq!['}']
}

fn push_json_string(out: &mut Vec<char>, s: &str)
    ensures
        final(out)@ == old(out)@ + json_string(s@),
{
    let q = quote_json(s);
    push_str(out, q.as_str());
}

fn push_value_json(out: &mut Vec<char>, v: &StateValue)
    ensures
        final(out)@ == old(out)@ + value_json(value_view(*v)),
{
    match v {
        StateValue::Bool(b) => {
            if *b {
                push_str(out, "true");
            } else {
                push_str(out, "false");
            }
        },
        StateValue::Text(t) => {
            push_json_string(out, t.as_str());
        },
        StateValue::Json(j) => {
            push_str(out, j.as_str());
        },
    }
}

/// A field's value as JSON text.
pub fn value_to_json(v: &StateValue) -> (r: String)
    ensures
        r@ == value_json(value_view(*v)),
{
    let mut out: Vec<char> = Vec::new();
    push_value_json(&mut out, v);
    assert(out@ =~= value_json(value_view(*v)));
    string_from_chars(out.as_slice())
}

impl LuciState {
    /// The status as compact JSON text, fields in key order.
    pub fn to_json(&self) -> (r: String)
        ensures
            r@ == object_json(self@),
    {
        let ghost s = self@;
        let mut out: Vec<char> = Vec::new();
        out.push('{');
        let n = self.entries.len();
        for i in 0..n
            invariant
                n == self.entries@.len(),
                s == self@,
                s == entries_view(self.entries@),
                out@ == seq!['{'] + members_json(s.take(i as int)),
        {
            assert(s.take(i + 1).drop_last() == s.take(i as int));
            assert(s.take(i + 1).last() == s[i as int]);
            let ghost before = out@;
            if i > 0 {
                out.push(',');
            }
            push_json_string(&mut out, self.entries[i].0.as_str());
            out.push(':');
            push_value_json(&mut out, &self.entries[i].1);
            if i == 0 {
                assert(out@ =~= seq!['{'] + members_json(s.take(1)));
            } else {
                assert(out@ =~= seq!['{'] + members_json(s.take(i + 1)));
            }
        }
        assert(s.take(n as int) == s);
        out.push('}');
        assert(out@ =~= object_json(s));
        string_from_chars(out.as_slice())
    }
}

/// A field's value as text: a text as itself, anything else as its JSON.
pub open spec fn value_text(v: ValueView) -> Seq<char> {
    match v {
        ValueView::Text(t) => t,
        _ => value_json(v),
    }
}

impl LuciState {
    /// The value of field `key` as text (see `value_text`), where the field
    /// is present.
    pub fn read(&self, key: &str) -> (r: Option<String>)
        ensures
            match lookup(self@, key@) {
                Some(v) => r matches Some(t) && t@ == value_text(v),
                None => r is None,
            },
    {
        let kc = chars_of(key);
        let ghost s = self@;
        assert(s.skip(0) == s);
        for i in 0..self.entries.len()
            invariant
                s == self@,
                s == entries_view(self.entries@),
                kc@ == key@,
                lookup(s, key@) == lookup(s.skip(i as int), key@),
        {
            assert(s.skip(i as int).drop_first() == s.skip(i + 1));
            assert(s.skip(i as int)[0] == s[i as int]);
            let ec = chars_of(self.entries[i].0.as_str());
            if crate::text::chars_eq(ec.as_slice(), kc.as_slice()) {
                let t = match &self.entries[i].1 {
                    StateValue::Text(t) => t.clone(),
                    other => value_to_json(other),
                };
                return Some(t);
            }
        }
        assert(s.skip(s.len() as int).len() == 0);
        None
    }
}

/// The event that announces a change of field `key` to `value`:
/// `{"data":{"key":KEY,"value":VALUE},"type":"pslinkb"}`.
pub open spec fn event_json(key: Seq<char>, value: ValueView) -> Seq<char> {
    "{\"data\":{\"key\":"@ + json_string(key) + ",\"value\":"@ + value_json(value)
        + "},\"type\":\"pslinkb\"}"@
}

/// The event that announces a change of a field (see `event_json`).
pub fn event_payload(key: &str, value: &StateValue) -> (r: String)
    ensures
        r@ == event_json(key@, value_view(*value)),
{
    let mut out: Vec<char> = Vec::new();
    push_str(&mut out, "{\"data\":{\"key\":");
    push_json_string(&mut out, key);
    push_str(&mut out, ",\"value\":");
    push_value_json(&mut out, value);
    push_str(&mut out, "},\"type\":\"pslinkb\"}");
    assert(out@ =~= event_json(key@, value_view(*value)));
    string_from_chars(out.as_slice())
}

} // verus!
