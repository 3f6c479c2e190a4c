//! Login cookies: picking the authentication cookies out of headers and
//! redirect addresses, merging them, writing them as a `Cookie` header, and
//! reading single values back out of one.

use vstd::prelude::*;

use crate::error::AppError;
use crate::text::{
    chars_of, chars_eq_str, push_all, push_str, split, split_chars, split_once,
    split_once_chars, string_from_chars, trim, trim_chars, starts_with_str, has_prefix, is_ws,
    trim_end, trim_start,
    slice_chars, trim_char, trim_matches_char,
};

verus! {

broadcast use vstd::string::group_string_axioms;

/// One cookie.
#[derive(Clone, Debug)]
pub struct CookieEntry {
    pub name: String,
    pub value: String,
}

/// A cookie by the characters of its name and value.
pub open spec fn entry_view(e: CookieEntry) -> (Seq<char>, Seq<char>) {
    (e.name@, e.value@)
}

/// A list of cookies by the characters of their names and values.
pub open spec fn entries_view(v: Seq<CookieEntry>) -> Seq<(Seq<char>, Seq<char>)> {
    v.map_values(|e: CookieEntry| entry_view(e))
}

/// The names of the cookies that make a login.
pub open spec fn auth_name(n: Seq<char>) -> bool {
    n == "SESSDATA"@ || n == "bili_jct"@ || n == "buvid3"@ || n == "DedeUserID"@ || n
        == "DedeUserID__ckMd5"@
}

/// Whether `name` is one of the login cookies.
pub fn is_auth_cookie(name: &[char]) -> (r: bool)
    ensures
        r == auth_name(name@),
{
    chars_eq_str(name, "SESSDATA") || chars_eq_str(name, "bili_jct") || chars_eq_str(name, "buvid3")
        || chars_eq_str(name, "DedeUserID") || chars_eq_str(name, "DedeUserID__ckMd5")
}

// ---------------------------------------------------------------------------
// Reading a Cookie header
// ---------------------------------------------------------------------------

/// The login cookies of the `name=value` pieces, each piece trimmed and split
/// at its first `=`; pieces without `=` are skipped.
pub open spec fn header_cookies(pieces: Seq<Seq<char>>) -> Seq<(Seq<char>, Seq<char>)>
    decreases pieces.len(),
{
    if pieces.len() == 0 {
        Seq::empty()
    } else {
        let rest = header_cookies(pieces.drop_last());
        match split_once(trim(pieces.last()), '=') {
            Some((n, v)) => if auth_name(n) {
                rest.push((n, v))
            } else {
                rest
            },
            None => rest,
        }
    }
}

/// The login cookies of a `Cookie` header (`a=1; b=2`), in order.
pub fn extract_cookie_header(header: &str) -> (r: Vec<CookieEntry>)
    ensures
        entries_view(r@) == header_cookies(split(header@, ';')),
{
    let hc = chars_of(header);
    let pieces = split_chars(hc.as_slice(), ';');
    let ghost ps = split(header@, ';');
    let mut out: Vec<CookieEntry> = Vec::new();
    for i in 0..pieces.len()
        invariant
            pieces@.len() == ps.len(),
            forall|k: int| 0 <= k < pieces@.len() ==> #[trigger] pieces@[k]@ == ps[k],
            entries_view(out@) == header_cookies(ps.take(i as int)),
    {
        assert(ps.take(i + 1).drop_last() == ps.take(i as int));
        assert(ps.take(i + 1).last() == ps[i as int]);
        let t = trim_chars(pieces[i].as_slice());
        match split_once_chars(t.as_slice(), '=') {
            Some((n, v)) => {
                if is_auth_cookie(n.as_slice()) {
                    let e = CookieEntry { name: string_from_chars(n.as_slice()), value: string_from_chars(v.as_slice()) };
                    out.push(e);
                    assert(entries_view(out@) =~= header_cookies(ps.take(i as int)).push((n@, v@)));
                }
            },
            None => {},
        }
    }
    assert(ps.take(pieces@.len() as int) == ps);
    out
}

/// The cookies given as `name=value` pieces, each piece trimmed and split at
/// its first `=`, name and value trimmed again; pieces without `=` or with an
/// empty name are skipped. Any name is kept.
pub open spec fn given_cookies(pieces: Seq<Seq<char>>) -> Seq<(Seq<char>, Seq<char>)>
    decreases pieces.len(),
{
    if pieces.len() == 0 {
        Seq::empty()
    } else {
        let rest = given_cookies(pieces.drop_last());
        match split_once(trim(pieces.last()), '=') {
            Some((n, v)) => if trim(n).len() > 0 {
                rest.push((trim(n), trim(v)))
            } else {
                rest
            },
            None => rest,
        }
    }
}

/// The cookies of a cookie string given on the command line (`a=1; b=2`),
/// in order.
pub fn parse_cookie_argument(cookie: &str) -> (r: Vec<CookieEntry>)
    ensures
        entries_view(r@) == given_cookies(split(cookie@, ';')),
{
    let hc = chars_of(cookie);
    let pieces = split_chars(hc.as_slice(), ';');
    let ghost ps = split(cookie@, ';');
    let mut out: Vec<CookieEntry> = Vec::new();
    for i in 0..pieces.len()
        invariant
            pieces@.len() == ps.len(),
            forall|k: int| 0 <= k < pieces@.len() ==> #[trigger] pieces@[k]@ == ps[k],
            entries_view(out@) == given_cookies(ps.take(i as int)),
    {
        assert(ps.take(i + 1).drop_last() == ps.take(i as int));
        assert(ps.take(i + 1).last() == ps[i as int]);
        let t = trim_chars(pieces[i].as_slice());
        match split_once_chars(t.as_slice(), '=') {
            Some((n, v)) => {
                let tn = trim_chars(n.as_slice());
                if tn.len() > 0 {
                    let tv = trim_chars(v.as_slice());
                    let e = CookieEntry { name: string_from_chars(tn.as_slice()), value: string_from_chars(tv.as_slice()) };
                    out.push(e);
                    assert(entries_view(out@) =~= given_cookies(ps.take(i as int)).push((tn@, tv@)));
                }
            },
            None => {},
        }
    }
    assert(ps.take(pieces@.len() as int) == ps);
    out
}

// ---------------------------------------------------------------------------
// Merging
// ---------------------------------------------------------------------------

/// The position of the first cookie named `n`.
pub open spec fn index_of_name(cs: Seq<(Seq<char>, Seq<char>)>, n: Seq<char>) -> Option<int>
    decreases cs.len(),
{
    if cs.len() == 0 {
        None
    } else if cs[0].0 == n {
        Some(0)
    } else {
        match index_of_name(cs.drop_first(), n) {
            Some(i) => Some(i + 1),
            None => None,
        }
    }
}

/// The value of the first cookie named `n`.
pub open spec fn value_of(cs: Seq<(Seq<char>, Seq<char>)>, n: Seq<char>) -> Option<Seq<char>> {
    match index_of_name(cs, n) {
        Some(i) => Some(cs[i].1),
        None => None,
    }
}

/// One incoming cookie merged in: it replaces the value of the first cookie
/// of the same name, or is added at the end.
pub open spec fn merge_one(cs: Seq<(Seq<char>, Seq<char>)>, c: (Seq<char>, Seq<char>)) -> Seq<
    (Seq<char>, Seq<char>),
> {
    match index_of_name(cs, c.0) {
        Some(i) => cs.update(i, (cs[i].0, c.1)),
        None => cs.push(c),
    }
}

/// The incoming cookies merged in one after the other.
pub open spec fn merged(cs: Seq<(Seq<char>, Seq<char>)>, inc: Seq<(Seq<char>, Seq<char>)>) -> Seq<
    (Seq<char>, Seq<char>),
>
    decreases inc.len(),
{
    if inc.len() == 0 {
        cs
    } else {
        merge_one(merged(cs, inc.drop_last()), inc.last())
    }
}

proof fn lemma_index_of_name(cs: Seq<(Seq<char>, Seq<char>)>, n: Seq<char>)
    ensures
        index_of_name(cs, n) matches Some(i) ==> 0 <= i < cs.len() && cs[i].0 == n && forall|j: int|
            0 <= j < i ==> cs[j].0 != n,
        index_of_name(cs, n) is None ==> forall|j: int| 0 <= j < cs.len() ==> cs[j].0 != n,
    decreases cs.len(),
{
    if cs.len() > 0 {
        lemma_index_of_name(cs.drop_first(), n);
        if cs[0].0 != n {
            assert forall|j: int| 1 <= j < cs.len() implies cs[j] == cs.drop_first()[j - 1] by {}
        }
    }
}

proof fn lemma_index_of_name_at(cs: Seq<(Seq<char>, Seq<char>)>, n: Seq<char>, i: int)
    requires
        0 <= i < cs.len(),
        cs[i].0 == n,
        forall|j: int| 0 <= j < i ==> cs[j].0 != n,
    ensures
        index_of_name(cs, n) == Some(i),
    decreases i,
{
    if i > 0 {
        lemma_index_of_name_at(cs.drop_first(), n, i - 1);
    }
}

proof fn lemma_index_of_name_none(cs: Seq<(Seq<char>, Seq<char>)>, n: Seq<char>)
    requires
        forall|j: int| 0 <= j < cs.len() ==> cs[j].0 != n,
    ensures
        index_of_name(cs, n) is None,
    decreases cs.len(),
{
    if cs.len() > 0 {
        lemma_index_of_name_none(cs.drop_first(), n);
    }
}

/// Merges `incoming` into `cookies`: a cookie whose name is already present
/// replaces that cookie's value; a new one is added at the end.
pub fn merge_cookies(cookies: &mut Vec<CookieEntry>, incoming: Vec<CookieEntry>)
    ensures
        entries_view(final(cookies)@) == merged(entries_view(old(cookies)@), entries_view(incoming@)),
{
    let ghost inc = entries_view(incoming@);
    let ghost start = entries_view(cookies@);
    let mut incoming = incoming;
    let n = incoming.len();
    let mut k: usize = 0;
    while k < n
        invariant
            k <= n,
            inc.len() == n,
            entries_view(incoming@) == inc.skip(k as int),
            entries_view(cookies@) == merged(start, inc.take(k as int)),
        decreases n - k,
    {
        assert(entries_view(incoming@).len() > 0);
        let ghost before = incoming@;
        let c = incoming.remove(0);
        assert(entry_view(c) == entries_view(before)[0]);
        assert(entry_view(c) == inc.skip(k as int)[0]);
        assert forall|j: int| 0 <= j < entries_view(incoming@).len() implies #[trigger] entries_view(incoming@)[j] == inc.skip(k + 1)[j] by {
            assert(incoming@[j] == before[j + 1]);
            assert(entries_view(before)[j + 1] == inc.skip(k as int)[j + 1]);
        }
        assert(entries_view(incoming@) =~= inc.skip(k + 1));
        assert(inc.take(k + 1).drop_last() == inc.take(k as int));
        assert(inc.take(k + 1).last() == inc[k as int]);
        let ghost cur = entries_view(cookies@);
        let cn = chars_of(c.name.as_str());
        let m = cookies.len();
        let mut i: usize = 0;
        let mut found = false;
        while i < m
            invariant_except_break
                !found,
            invariant
                m == cookies@.len(),
                cur == entries_view(cookies@),
                i <= m,
                cn@ == c.name@,
                forall|j: int| 0 <= j < i ==> cur[j].0 != c.name@,
            ensures
                i <= m,
                forall|j: int| 0 <= j < i ==> cur[j].0 != c.name@,
                found ==> i < m && cur[i as int].0 == c.name@,
                !found ==> i == m,
            decreases m - i,
        {
            let ec = chars_of(cookies[i].name.as_str());
            if crate::text::chars_eq(ec.as_slice(), cn.as_slice()) {
                found = true;
                break;
            }
            i = i + 1;
        }
        if found {
            proof {
                lemma_index_of_name_at(cur, c.name@, i as int);
            }
            let name = cookies[i].name.clone();
            cookies.set(i, CookieEntry { name, value: c.value });
            assert(entries_view(cookies@) =~= cur.update(i as int, (cur[i as int].0, entry_view(c).1)));
        } else {
            proof {
                lemma_index_of_name_none(cur, c.name@);
            }
            cookies.push(c);
            assert(entries_view(cookies@) =~= cur.push(entry_view(c)));
        }
        k = k + 1;
    }
    assert(inc.take(n as int) == inc);
}

/// Merging: every incoming name ends up with the value of its last incoming
/// cookie, any other name keeps what it had, and a list without repeated
/// names stays without them.
pub proof fn law_merge(cs: Seq<(Seq<char>, Seq<char>)>, inc: Seq<(Seq<char>, Seq<char>)>, n: Seq<char>)
    ensures
        value_of(merged(cs, inc), n) == match last_value_of(inc, n) {
            Some(v) => Some(v),
            None => value_of(cs, n),
        },
        unique_names(cs) ==> unique_names(merged(cs, inc)),
    decreases inc.len(),
{
    if inc.len() > 0 {
        let m = merged(cs, inc.drop_last());
        law_merge(cs, inc.drop_last(), n);
        lemma_merge_one(m, inc.last(), n);
        if unique_names(cs) {
            lemma_merge_one_unique(m, inc.last());
        }
    }
}

/// The value of the last cookie named `n`.
pub open spec fn last_value_of(cs: Seq<(Seq<char>, Seq<char>)>, n: Seq<char>) -> Option<Seq<char>>
    decreases cs.len(),
{
    if cs.len() == 0 {
        None
    } else if cs.last().0 == n {
        Some(cs.last().1)
    } else {
        last_value_of(cs.drop_last(), n)
    }
}

/// No two cookies share a name.
pub open spec fn unique_names(cs: Seq<(Seq<char>, Seq<char>)>) -> bool {
    forall|i: int, j: int| 0 <= i < j < cs.len() ==> #[trigger] cs[i].0 != #[trigger] cs[j].0
}

proof fn lemma_merge_one(cs: Seq<(Seq<char>, Seq<char>)>, c: (Seq<char>, Seq<char>), n: Seq<char>)
    ensures
        value_of(merge_one(cs, c), n) == if c.0 == n {
            Some(c.1)
        } else {
            value_of(cs, n)
        },
{
    lemma_index_of_name(cs, c.0);
    lemma_index_of_name(cs, n);
    let r = merge_one(cs, c);
    match index_of_name(cs, c.0) {
        Some(i) => {
            assert forall|j: int| 0 <= j < r.len() implies #[trigger] r[j].0 == cs[j].0 by {}
            if c.0 == n {
                lemma_index_of_name_at(r, n, i);
            } else {
                match index_of_name(cs, n) {
                    Some(k) => {
                        lemma_index_of_name_at(r, n, k);
                    },
                    None => {
                        lemma_index_of_name_none(r, n);
                    },
                }
            }
        },
        None => {
            if c.0 == n {
                lemma_index_of_name_at(r, n, cs.len() as int);
            } else {
                match index_of_name(cs, n) {
                    Some(k) => {
                        lemma_index_of_name_at(r, n, k);
                    },
                    None => {
                        lemma_index_of_name_none(r, n);
                    },
                }
            }
        },
    }
}

proof fn lemma_merge_one_unique(cs: Seq<(Seq<char>, Seq<char>)>, c: (Seq<char>, Seq<char>))
    requires
        unique_names(cs),
    ensures
        unique_names(merge_one(cs, c)),
{
    lemma_index_of_name(cs, c.0);
    let r = merge_one(cs, c);
    match index_of_name(cs, c.0) {
        Some(i) => {
            assert forall|a: int, b: int| 0 <= a < b < r.len() implies #[trigger] r[a].0
                != #[trigger] r[b].0 by {
                assert(r[a].0 == cs[a].0 && r[b].0 == cs[b].0);
            }
        },
        None => {
            assert forall|a: int, b: int| 0 <= a < b < r.len() implies #[trigger] r[a].0
                != #[trigger] r[b].0 by {
                if b == cs.len() {
                    assert(r[b].0 == c.0);
                    assert(r[a] == cs[a]);
                } else {
                    assert(r[a] == cs[a] && r[b] == cs[b]);
                }
            }
        },
    }
}

/// Whether both session cookies, `SESSDATA` and `bili_jct`, are present.
pub open spec fn has_login(cs: Seq<(Seq<char>, Seq<char>)>) -> bool {
    (exists|i: int| 0 <= i < cs.len() && #[trigger] cs[i].0 == "SESSDATA"@) && (exists|i: int|
        0 <= i < cs.len() && #[trigger] cs[i].0 == "bili_jct"@)
}

fn has_name(cookies: &[CookieEntry], name: &str) -> (r: bool)
    ensures
        r == exists|i: int| 0 <= i < cookies@.len() && #[trigger] entries_view(cookies@)[i].0 == name@,
{
    let nc = chars_of(name);
    for i in 0..cookies.len()
        invariant
            nc@ == name@,
            forall|j: int| 0 <= j < i ==> #[trigger] entries_view(cookies@)[j].0 != name@,
    {
        let ec = chars_of(cookies[i].name.as_str());
        if crate::text::chars_eq(ec.as_slice(), nc.as_slice()) {
            assert(entries_view(cookies@)[i as int].0 == name@);
            return true;
        }
    }
    false
}

/// Whether the cookies hold a login: both `SESSDATA` and `bili_jct`.
pub fn has_login_cookies(cookies: &[CookieEntry]) -> (r: bool)
    ensures
        r == has_login(entries_view(cookies@)),
{
    has_name(cookies, "SESSDATA") && has_name(cookies, "bili_jct")
}

// ---------------------------------------------------------------------------
// Writing a Cookie header
// ---------------------------------------------------------------------------

/// The cookies as `name=value` joined by `; `.
pub open spec fn cookie_text(cs: Seq<(Seq<char>, Seq<char>)>) -> Seq<char>
    decreases cs.len(),
{
    if cs.len() == 0 {
        Seq::empty()
    } else if cs.len() == 1 {
        cs[0].0 + "="@ + cs[0].1
    } else {
        cookie_text(cs.drop_last()) + "; "@ + cs.last().0 + "="@ + cs.last().1
    }
}

/// The cookies as one `Cookie` header value.
pub fn cookie_string(cookies: &[CookieEntry]) -> (r: String)
    ensures
        r@ == cookie_text(entries_view(cookies@)),
{
    let ghost cs = entries_view(cookies@);
    let mut out: Vec<char> = Vec::new();
    for i in 0..cookies.len()
        invariant
            cs == entries_view(cookies@),
            out@ == cookie_text(cs.take(i as int)),
    {
        assert(cs.take(i + 1).drop_last() == cs.take(i as int));
        assert(cs.take(i + 1).last() == cs[i as int]);
        if i > 0 {
            push_str(&mut out, "; ");
        }
        push_str(&mut out, cookies[i].name.as_str());
        push_str(&mut out, "=");
        push_str(&mut out, cookies[i].value.as_str());
        assert(cs[i as int] == entry_view(cookies@[i as int]));
    }
    assert(cs.take(cookies@.len() as int) == cs);
    string_from_chars(out.as_slice())
}

/// A cookie a `Cookie` header carries back unchanged: a login cookie whose
/// value holds no `;` and does not end in whitespace.
pub open spec fn header_safe_cookie(c: (Seq<char>, Seq<char>)) -> bool {
    &&& auth_name(c.0)
    &&& forall|j: int| 0 <= j < c.1.len() ==> c.1[j] != ';'
    &&& (c.1.len() == 0 || !is_ws(c.1.last()))
}

/// Whether every cookie is one a header carries back unchanged.
pub open spec fn header_safe(cs: Seq<(Seq<char>, Seq<char>)>) -> bool {
    forall|i: int| 0 <= i < cs.len() ==> #[trigger] header_safe_cookie(cs[i])
}

/// The characters a login cookie's name is made of: no whitespace, `=` or
/// `;`.
proof fn lemma_auth_name_plain(n: Seq<char>)
    requires
        auth_name(n),
    ensures
        n.len() > 0,
        forall|j: int| 0 <= j < n.len() ==> n[j] != '=' && n[j] != ';' && !is_ws(#[trigger] n[j]),
{
    reveal_strlit("SESSDATA");
    reveal_strlit("bili_jct");
    reveal_strlit("buvid3");
    reveal_strlit("DedeUserID");
    reveal_strlit("DedeUserID__ckMd5");
    if n == "SESSDATA"@ {
        assert(n =~= seq!['S', 'E', 'S', 'S', 'D', 'A', 'T', 'A']);
    } else if n == "bili_jct"@ {
        assert(n =~= seq!['b', 'i', 'l', 'i', '_', 'j', 'c', 't']);
    } else if n == "buvid3"@ {
        assert(n =~= seq!['b', 'u', 'v', 'i', 'd', '3']);
    } else if n == "DedeUserID"@ {
        assert(n =~= seq!['D', 'e', 'd', 'e', 'U', 's', 'e', 'r', 'I', 'D']);
    } else {
        assert(n =~= seq![
            'D', 'e', 'd', 'e', 'U', 's', 'e', 'r', 'I', 'D', '_', '_', 'c', 'k', 'M', 'd', '5',
        ]);
    }
}

/// One written cookie, `name=value`, reads back as that cookie.
proof fn lemma_piece_reads_back(c: (Seq<char>, Seq<char>), lead: Seq<char>)
    requires
        header_safe_cookie(c),
        lead == Seq::<char>::empty() || lead == seq![' '],
    ensures
        split_once(trim(lead + c.0 + "="@ + c.1), '=') == Some(c),
{
    reveal_strlit("=");
    lemma_auth_name_plain(c.0);
    let t = c.0 + "="@ + c.1;
    assert(t.len() > 0 && t[0] == c.0[0]);
    assert(!is_ws(t[0]));
    assert(!is_ws(t.last())) by {
        if c.1.len() > 0 {
            assert(t.last() == c.1.last());
        } else {
            assert(t.last() == '=');
        }
    }
    if lead.len() > 0 {
        assert((lead + t).drop_first() =~= t);
        assert(is_ws((lead + t)[0]));
    }
    assert(lead + c.0 + "="@ + c.1 =~= lead + t);
    assert(trim_start(lead + t) == t);
    assert(trim_end(t) == t);
    assert(t[c.0.len() as int] == '=');
    assert forall|j: int| 0 <= j < c.0.len() implies t[j] != '=' by {
        assert(t[j] == c.0[j]);
    }
    crate::text::lemma_first_index_of_char(t, '=', c.0.len() as int);
    assert(t.take(c.0.len() as int) =~= c.0);
    assert(t.skip(c.0.len() as int + 1) =~= c.1);
}

/// Law: a `Cookie` header the library writes reads back as the same
/// cookies, in the same order, for login cookies whose values hold no `;`
/// and do not end in whitespace.
pub proof fn law_header_round_trip(cs: Seq<(Seq<char>, Seq<char>)>)
    requires
        header_safe(cs),
    ensures
        header_cookies(split(cookie_text(cs), ';')) == cs,
    decreases cs.len(),
{
    reveal_strlit("=");
    reveal_strlit("; ");
    if cs.len() == 0 {
        assert(split(Seq::<char>::empty(), ';') =~= seq![Seq::<char>::empty()]) by {
            crate::text::lemma_split_pieces(Seq::empty(), Seq::empty(), ';');
        }
        assert(seq![Seq::<char>::empty()].drop_last() =~= Seq::<Seq<char>>::empty());
        assert(seq![Seq::<char>::empty()].last() == Seq::<char>::empty());
        assert(trim(Seq::<char>::empty()) == Seq::<char>::empty());
        assert(split_once(Seq::<char>::empty(), '=') is None);
        assert(header_cookies(seq![Seq::<char>::empty()]) == header_cookies(Seq::<Seq<char>>::empty()));
        assert(cookie_text(cs) == Seq::<char>::empty());
        assert(cs =~= Seq::<(Seq<char>, Seq<char>)>::empty());
    } else {
        let c = cs.last();
        assert(header_safe_cookie(cs[cs.len() - 1]));
        lemma_auth_name_plain(c.0);
        let piece = c.0 + "="@ + c.1;
        assert(!piece.contains(';')) by {
            if piece.contains(';') {
                let k = choose|k: int| 0 <= k < piece.len() && piece[k] == ';';
                if k < c.0.len() {
                    assert(piece[k] == c.0[k]);
                } else if k == c.0.len() {
                    assert(piece[k] == '=');
                } else {
                    assert(piece[k] == c.1[k - c.0.len() - 1]);
                }
            }
        }
        if cs.len() == 1 {
            assert(cookie_text(cs) == piece);
            crate::text::lemma_split_pieces(Seq::empty(), piece, ';');
            assert(seq![piece].drop_last() =~= Seq::<Seq<char>>::empty());
            assert(seq![piece].last() == piece);
            lemma_piece_reads_back(c, Seq::empty());
            assert(Seq::<char>::empty() + c.0 + "="@ + c.1 =~= piece);
            assert(header_cookies(Seq::<Seq<char>>::empty()) == Seq::<(Seq<char>, Seq<char>)>::empty());
            assert(split(cookie_text(cs), ';') == seq![piece]);
            assert(header_cookies(seq![piece]) == Seq::<(Seq<char>, Seq<char>)>::empty().push(c));
            assert(cs =~= seq![c]);
        } else {
            let rest = cs.drop_last();
            assert forall|i: int| 0 <= i < rest.len() implies #[trigger] header_safe_cookie(rest[i]) by {
                assert(rest[i] == cs[i]);
            }
            law_header_round_trip(rest);
            let x = cookie_text(rest);
            let y = seq![' '] + piece;
            assert(!y.contains(';')) by {
                if y.contains(';') {
                    let k = choose|k: int| 0 <= k < y.len() && y[k] == ';';
                    assert(k > 0);
                    assert(y[k] == piece[k - 1]);
                }
            }
            assert(cookie_text(cs) =~= x.push(';') + y);
            crate::text::lemma_split_pieces(x, y, ';');
            let ps = split(x, ';').push(y);
            assert(ps.drop_last() =~= split(x, ';'));
            assert(ps.last() == y);
            lemma_piece_reads_back(c, seq![' ']);
            assert(seq![' '] + c.0 + "="@ + c.1 =~= y);
            assert(split(cookie_text(cs), ';') == ps);
            assert(header_cookies(ps) == header_cookies(split(x, ';')).push(c));
            assert(cs =~= rest.push(c));
        }
    }
}

// ---------------------------------------------------------------------------
// Reading one value back
// ---------------------------------------------------------------------------

/// The trimmed value of the first piece whose trimmed name is `name`.
pub open spec fn piece_value(pieces: Seq<Seq<char>>, name: Seq<char>) -> Option<Seq<char>>
    decreases pieces.len(),
{
    if pieces.len() == 0 {
        None
    } else {
        match split_once(trim(pieces[0]), '=') {
            Some((k, v)) => if trim(k) == name {
                Some(trim(v))
            } else {
                piece_value(pieces.drop_first(), name)
            },
            None => piece_value(pieces.drop_first(), name),
        }
    }
}

fn piece_value_exec(pieces: &Vec<Vec<char>>, name: &str) -> (r: Option<String>)
    ensures
        r matches Some(v) ==> piece_value(pieces@.map_values(|p: Vec<char>| p@), name@) == Some(v@),
        r is None ==> piece_value(pieces@.map_values(|p: Vec<char>| p@), name@) is None,
{
    let ghost ps = pieces@.map_values(|p: Vec<char>| p@);
    assert(ps.skip(0) == ps);
    for i in 0..pieces.len()
        invariant
            ps == pieces@.map_values(|p: Vec<char>| p@),
            piece_value(ps, name@) == piece_value(ps.skip(i as int), name@),
    {
        assert(ps.skip(i as int).drop_first() == ps.skip(i + 1));
        assert(ps.skip(i as int)[0] == pieces@[i as int]@);
        let t = trim_chars(pieces[i].as_slice());
        match split_once_chars(t.as_slice(), '=') {
            Some((k, v)) => {
                let kt = trim_chars(k.as_slice());
                if crate::text::chars_eq_str(kt.as_slice(), name) {
                    let vt = trim_chars(v.as_slice());
                    return Some(string_from_chars(vt.as_slice()));
                }
            },
            None => {},
        }
    }
    assert(ps.skip(pieces@.len() as int).len() == 0);
    None
}

fn pieces_of(s: &str) -> (r: Vec<Vec<char>>)
    ensures
        r@.map_values(|p: Vec<char>| p@) == split(s@, ';'),
{
    let c = chars_of(s);
    let r = split_chars(c.as_slice(), ';');
    assert(r@.map_values(|p: Vec<char>| p@) =~= split(s@, ';'));
    r
}

/// The user id in a cookie string: the value of its first `DedeUserID`.
pub fn get_uid(cookie: &str) -> (r: Option<String>)
    ensures
        r matches Some(v) ==> piece_value(split(cookie@, ';'), "DedeUserID"@) == Some(v@),
        r is None ==> piece_value(split(cookie@, ';'), "DedeUserID"@) is None,
{
    let ps = pieces_of(cookie);
    piece_value_exec(&ps, "DedeUserID")
}

/// The `SESSDATA` and `bili_jct` values read so far; a later piece of the
/// same name replaces an earlier one.
pub open spec fn session_state(pieces: Seq<Seq<char>>) -> (Seq<char>, Seq<char>)
    decreases pieces.len(),
{
    if pieces.len() == 0 {
        (Seq::empty(), Seq::empty())
    } else {
        let (sess, jct) = session_state(pieces.drop_last());
        match split_once(trim(pieces.last()), '=') {
            Some((k, v)) => if trim(k) == "SESSDATA"@ {
                (trim(v), jct)
            } else if trim(k) == "bili_jct"@ {
                (sess, trim(v))
            } else {
                (sess, jct)
            },
            None => (sess, jct),
        }
    }
}

/// The session cookie and the CSRF token (`bili_jct`) of a cookie string;
/// an error unless both are present and not empty.
pub fn parse_cookies(cookie: &str) -> (r: Result<(String, String), String>)
    ensures
        ({
            let (sess, jct) = session_state(split(cookie@, ';'));
            &&& r is Ok <==> (sess.len() > 0 && jct.len() > 0)
            &&& r matches Ok((a, b)) ==> a@ == sess && b@ == jct
            &&& r matches Err(e) ==> e@ == "Missing SESSDATA or bili_jct"@
        }),
{
    let ps = pieces_of(cookie);
    let ghost seqs = split(cookie@, ';');
    let mut sess: Vec<char> = Vec::new();
    let mut jct: Vec<char> = Vec::new();
    for i in 0..ps.len()
        invariant
            ps@.map_values(|p: Vec<char>| p@) == seqs,
            (sess@, jct@) == session_state(seqs.take(i as int)),
    {
        assert(seqs.take(i + 1).drop_last() == seqs.take(i as int));
        assert(seqs.take(i + 1).last() == ps@[i as int]@);
        let t = trim_chars(ps[i].as_slice());
        match split_once_chars(t.as_slice(), '=') {
            Some((k, v)) => {
                let kt = trim_chars(k.as_slice());
                if crate::text::chars_eq_str(kt.as_slice(), "SESSDATA") {
                    sess = trim_chars(v.as_slice());
                } else if crate::text::chars_eq_str(kt.as_slice(), "bili_jct") {
                    jct = trim_chars(v.as_slice());
                }
            },
            None => {},
        }
    }
    assert(seqs.take(seqs.len() as int) == seqs);
    if sess.len() == 0 || jct.len() == 0 {
        Err("Missing SESSDATA or bili_jct".to_string())
    } else {
        Ok((string_from_chars(sess.as_slice()), string_from_chars(jct.as_slice())))
    }
}

// ---------------------------------------------------------------------------
// The cookie in the OpenWrt configuration
// ---------------------------------------------------------------------------

/// The cookie of an `option cookie` line: the rest of the line trimmed, then
/// stripped of single and then double quotes.
pub open spec fn uci_option_value(line: Seq<char>) -> Seq<char> {
    trim_char(trim_char(trim(line.skip(13)), '\''), '"')
}

/// The first non-empty cookie of an `option cookie` line, over the lines.
pub open spec fn uci_cookie(lines: Seq<Seq<char>>) -> Option<Seq<char>>
    decreases lines.len(),
{
    if lines.len() == 0 {
        None
    } else {
        let t = trim(lines[0]);
        if has_prefix(t, "option cookie"@) && uci_option_value(t).len() > 0 {
            Some(uci_option_value(t))
        } else {
            uci_cookie(lines.drop_first())
        }
    }
}

/// The cookie that the OpenWrt configuration file holds, if any: the first
/// line whose trimmed text starts with `option cookie` and whose value is not
/// empty. (Lines are split at `\n`; a `\r` before it is trimmed away with the
/// other whitespace.)
pub fn parse_uci_cookie(content: &str) -> (r: Option<String>)
    ensures
        r matches Some(v) ==> uci_cookie(split(content@, '\n')) == Some(v@),
        r is None ==> uci_cookie(split(content@, '\n')) is None,
{
    proof {
        reveal_strlit("option cookie");
    }
    let c = chars_of(content);
    let lines = split_chars(c.as_slice(), '\n');
    let ghost ls = split(content@, '\n');
    assert(ls.skip(0) == ls);
    assert("option cookie"@.len() == 13);
    for i in 0..lines.len()
        invariant
            lines@.len() == ls.len(),
            forall|k: int| 0 <= k < lines@.len() ==> #[trigger] lines@[k]@ == ls[k],
            ls == split(content@, '\n'),
            uci_cookie(ls) == uci_cookie(ls.skip(i as int)),
            "option cookie"@.len() == 13,
    {
        assert(ls.skip(i as int).drop_first() == ls.skip(i + 1));
        assert(ls.skip(i as int)[0] == lines@[i as int]@);
        let t = trim_chars(lines[i].as_slice());
        if starts_with_str(t.as_slice(), "option cookie") {
            let rest = slice_chars(t.as_slice(), 13, t.len());
            assert(rest@ == t@.skip(13));
            let v0 = trim_chars(rest.as_slice());
            let v1 = trim_matches_char(v0.as_slice(), '\'');
            let v2 = trim_matches_char(v1.as_slice(), '"');
            assert(v2@ == uci_option_value(t@));
            if v2.len() > 0 {
                assert(uci_cookie(ls.skip(i as int)) == Some(v2@));
                return Some(string_from_chars(v2.as_slice()));
            }
        }
    }
    assert(ls.skip(lines@.len() as int).len() == 0);
    None
}

/// The trimmed text of the stored cookie file, where it was read and holds
/// more than whitespace.
pub open spec fn stored_text(content: Option<&str>) -> Option<Seq<char>> {
    match content {
        Some(c) => if trim(c@).len() > 0 {
            Some(trim(c@))
        } else {
            None
        },
        None => None,
    }
}

/// What loading the cookie kept beside the desktop configuration gives: the
/// file's text trimmed, or the error "No cookie stored" where the file could
/// not be read (`None`) or holds only whitespace.
pub fn stored_cookie(content: Option<&str>) -> (r: Result<String, AppError>)
    ensures
        stored_text(content) matches Some(v) ==> (r matches Ok(t) && t@ == v),
        stored_text(content) is None ==> (r matches Err(AppError::General(m)) && m@ == "No cookie stored"@),
{
    match content {
        Some(c) => {
            let cs = chars_of(c);
            let t = trim_chars(cs.as_slice());
            if t.len() > 0 {
                Ok(string_from_chars(t.as_slice()))
            } else {
                Err(AppError::General("No cookie stored".to_string()))
            }
        },
        None => Err(AppError::General("No cookie stored".to_string())),
    }
}

/// The cookie of the router's configuration text, where it could be read.
pub open spec fn uci_content_cookie(content: Option<&str>) -> Option<Seq<char>> {
    match content {
        Some(c) => uci_cookie(split(c@, '\n')),
        None => None,
    }
}

/// What loading the cookie from the router's configuration gives: the
/// cookie of the configuration text (see `parse_uci_cookie`), or the error
/// "No cookie found in UCI" where the text could not be read (`None`) or
/// holds none.
pub fn uci_loaded_cookie(content: Option<&str>) -> (r: Result<String, AppError>)
    ensures
        uci_content_cookie(content) matches Some(v) ==> (r matches Ok(t) && t@ == v),
        uci_content_cookie(content) is None ==> (r matches Err(AppError::General(m)) && m@
            == "No cookie found in UCI"@),
{
    match content {
        Some(c) => match parse_uci_cookie(c) {
            Some(v) => Ok(v),
            None => Err(AppError::General("No cookie found in UCI".to_string())),
        },
        None => Err(AppError::General("No cookie found in UCI".to_string())),
    }
}

// ---------------------------------------------------------------------------
// Cookies in a redirect address
// ---------------------------------------------------------------------------

/// The login cookies among `key=value` pieces split at their first `=`,
/// without decoding; pieces without `=` are skipped.
pub open spec fn raw_query_cookies(pieces: Seq<Seq<char>>) -> Seq<(Seq<char>, Seq<char>)>
    decreases pieces.len(),
{
    if pieces.len() == 0 {
        Seq::empty()
    } else {
        let rest = raw_query_cookies(pieces.drop_last());
        match split_once(pieces.last(), '=') {
            Some((k, v)) => if auth_name(k) {
                rest.push((k, v))
            } else {
                rest
            },
            None => rest,
        }
    }
}

/// The query text of an address: what lies between its first and second
/// `?` (empty when there is no `?`).
pub open spec fn raw_query(url: Seq<char>) -> Seq<char> {
    if split(url, '?').len() > 1 {
        split(url, '?')[1]
    } else {
        Seq::empty()
    }
}

/// The login cookies in the query of a redirect address, taken as they are
/// written (no percent-decoding).
pub fn raw_url_cookies(url: &str) -> (r: Vec<CookieEntry>)
    ensures
        entries_view(r@) == raw_query_cookies(split(raw_query(url@), '&')),
{
    let c = chars_of(url);
    let parts = split_chars(c.as_slice(), '?');
    let query: Vec<char> = if parts.len() > 1 {
        slice_chars(parts[1].as_slice(), 0, parts[1].len())
    } else {
        Vec::new()
    };
    assert(query@ == raw_query(url@));
    let pieces = split_chars(query.as_slice(), '&');
    let ghost ps = split(raw_query(url@), '&');
    let mut out: Vec<CookieEntry> = Vec::new();
    for i in 0..pieces.len()
        invariant
            pieces@.len() == ps.len(),
            forall|k: int| 0 <= k < pieces@.len() ==> #[trigger] pieces@[k]@ == ps[k],
            entries_view(out@) == raw_query_cookies(ps.take(i as int)),
    {
        assert(ps.take(i + 1).drop_last() == ps.take(i as int));
        assert(ps.take(i + 1).last() == ps[i as int]);
        match split_once_chars(pieces[i].as_slice(), '=') {
            Some((k, v)) => {
                if is_auth_cookie(k.as_slice()) {
                    out.push(CookieEntry { name: string_from_chars(k.as_slice()), value: string_from_chars(v.as_slice()) });
                    assert(entries_view(out@) =~= raw_query_cookies(ps.take(i as int)).push((k@, v@)));
                }
            },
            None => {},
        }
    }
    assert(ps.take(pieces@.len() as int) == ps);
    out
}

/// Pairs of strings by their characters.
pub open spec fn pairs_view(v: Seq<(String, String)>) -> Seq<(Seq<char>, Seq<char>)> {
    v.map_values(|p: (String, String)| (p.0@, p.1@))
}

/// The decoded query pairs of an address, as the `url` crate parses it
/// (`None` where it is no valid absolute URL).
pub uninterp spec fn url_query_pairs(url: Seq<char>) -> Option<Seq<(Seq<char>, Seq<char>)>>;

/// `url::Url::parse` followed by `Url::query_pairs`: the percent-decoded
/// `key=value` pairs of the address's query, in order; `None` where the
/// address does not parse. What the pairs are is named by `url_query_pairs`,
/// not stated here.
#[verifier::external_body]
fn query_pairs(url: &str) -> (r: Option<Vec<(String, String)>>)
    ensures
        r is Some <==> url_query_pairs(url@) is Some,
        r matches Some(v) ==> pairs_view(v@) == url_query_pairs(url@)->0,
{
    url::Url::parse(url).ok().map(
        |u| u.query_pairs().map(|(k, v)| (k.into_owned(), v.into_owned())).collect(),
    )
}

/// The login cookies among decoded query pairs, in order.
pub open spec fn auth_pairs(pairs: Seq<(Seq<char>, Seq<char>)>) -> Seq<(Seq<char>, Seq<char>)> {
    pairs.filter(|p: (Seq<char>, Seq<char>)| auth_name(p.0))
}

/// The login cookies in the query of a redirect address; none where the
/// address does not parse.
pub fn extract_cookies_from_url(url: &str) -> (r: Vec<CookieEntry>)
    ensures
        entries_view(r@) == match url_query_pairs(url@) {
            Some(pairs) => auth_pairs(pairs),
            None => Seq::empty(),
        },
{
    let mut out: Vec<CookieEntry> = Vec::new();
    match query_pairs(url) {
        Some(pairs) => {
            let ghost ps = pairs_view(pairs@);
            let mut pairs = pairs;
            let n = pairs.len();
            let mut i: usize = 0;
            assert(ps.skip(0) == ps);
            while i < n
                invariant
                    i <= n,
                    n == ps.len(),
                    pairs_view(pairs@) == ps.skip(i as int),
                    entries_view(out@) == auth_pairs(ps.take(i as int)),
                decreases n - i,
            {
                let ghost before = pairs@;
                assert(pairs_view(before).len() > 0);
                let (k, v) = pairs.remove(0);
                assert(pairs_view(before)[0] == ps.skip(i as int)[0]);
                assert((k@, v@) == ps[i as int]);
                assert forall|j: int| 0 <= j < pairs@.len() implies #[trigger] pairs_view(pairs@)[j] == ps.skip(i + 1)[j] by {
                    assert(pairs@[j] == before[j + 1]);
                    assert(pairs_view(before)[j + 1] == ps.skip(i as int)[j + 1]);
                }
                assert(pairs_view(pairs@) =~= ps.skip(i + 1));
                assert(ps.take(i + 1).drop_last() == ps.take(i as int));
                assert(ps.take(i + 1) == ps.take(i as int).push(ps[i as int]));
                let kc = chars_of(k.as_str());
                reveal_with_fuel(Seq::filter, 1);
                if is_auth_cookie(kc.as_slice()) {
                    out.push(CookieEntry { name: k, value: v });
                    assert(entries_view(out@) =~= auth_pairs(ps.take(i as int)).push((k@, v@)));
                } else {
                    assert(entries_view(out@) =~= auth_pairs(ps.take(i as int)));
                }
                i = i + 1;
            }
            assert(ps.take(n as int) == ps);
            out
        },
        None => {
            assert(entries_view(out@) =~= Seq::<(Seq<char>, Seq<char>)>::empty());
            out
        },
    }
}

// ---------------------------------------------------------------------------
// The cookie manager
// ---------------------------------------------------------------------------

/// The model of a cookie manager: where its configuration lives and the
/// cookie string it holds, if any.
pub struct CookieManagerView {
    pub config_path: Seq<char>,
    pub cached: Option<Seq<char>>,
}

/// Keeps the login cookie string of a configuration file in memory.
///
/// Reading the file is the caller's part: the methods that may need the
/// file's cookie take what reading it gave (`loaded`) and consult it only
/// when nothing is held.
pub struct CookieManager {
    config_path: String,
    cached_cookie_string: Option<String>,
}

impl View for CookieManager {
    type V = CookieManagerView;

    closed spec fn view(&self) -> CookieManagerView {
        CookieManagerView {
            config_path: self.config_path@,
            cached: match self.cached_cookie_string {
                Some(c) => Some(c@),
                None => None,
            },
        }
    }
}

/// The characters of a loaded cookie, if loading succeeded.
pub open spec fn loaded_view(loaded: Result<String, AppError>) -> Option<Seq<char>> {
    match loaded {
        Ok(c) => Some(c@),
        Err(_) => None,
    }
}

/// One read of the cookie string from a manager in state `v`, where loading
/// the configuration gives `loaded` (`None`: loading failed): the cookie
/// read, if any, and the state after. A held cookie is read and nothing
/// changes; otherwise the loaded one is read and held.
pub open spec fn cookie_read(v: CookieManagerView, loaded: Option<Seq<char>>) -> (
    Option<Seq<char>>,
    CookieManagerView,
) {
    match v.cached {
        Some(c) => (Some(c), v),
        None => (loaded, CookieManagerView { cached: loaded, ..v }),
    }
}

/// Law: a cookie that was set (or saved) is what the next read gives back,
/// whatever the configuration holds.
pub proof fn law_set_then_read(v: CookieManagerView, c: Seq<char>, loaded: Option<Seq<char>>)
    ensures
        cookie_read(CookieManagerView { cached: Some(c), ..v }, loaded).0 == Some(c),
{
}

/// Law: once a read succeeded, later reads give the same cookie, whatever the
/// configuration holds by then, until the cache is cleared.
pub proof fn law_reads_are_stable(v: CookieManagerView, first: Option<Seq<char>>, later: Option<Seq<char>>)
    requires
        cookie_read(v, first).0 is Some,
    ensures
        cookie_read(cookie_read(v, first).1, later) == (cookie_read(v, first).0, cookie_read(v, first).1),
{
}

impl CookieManager {
    /// A manager for the configuration at `config_path`, or at
    /// `default_path` when none is given, holding no cookie yet.
    pub fn new(config_path: Option<String>, default_path: String) -> (r: Self)
        ensures
            r@.config_path == match config_path {
                Some(p) => p@,
                None => default_path@,
            },
            r@.cached is None,
    {
        let config_path = match config_path {
            Some(p) => p,
            None => default_path,
        };
        CookieManager { config_path, cached_cookie_string: None }
    }

    /// Where the configuration lives.
    pub fn config_path(&self) -> (r: String)
        ensures
            r@ == self@.config_path,
    {
        self.config_path.clone()
    }

    /// Whether no cookie is held, so that `get_cookie_string` will use what
    /// the configuration holds.
    pub fn needs_load(&self) -> (r: bool)
        ensures
            r == self@.cached is None,
    {
        self.cached_cookie_string.is_none()
    }

    /// The cookie string: the one held, else the one `loaded` from the
    /// configuration, which is then held; an error only where nothing is held
    /// and loading failed.
    pub fn get_cookie_string(&mut self, loaded: Result<String, AppError>) -> (r: Result<
        String,
        AppError,
    >)
        ensures
            (loaded_view(r), final(self)@) == cookie_read(old(self)@, loaded_view(loaded)),
            r is Err <==> (old(self)@.cached is None && loaded is Err),
            final(self)@.config_path == old(self)@.config_path,
            old(self)@.cached matches Some(c) ==> (r matches Ok(s) && s@ == c) && final(self)@
                == old(self)@,
            old(self)@.cached is None ==> loaded_view(r) == loaded_view(loaded) && (r is Err
                <==> loaded is Err) && final(self)@.cached == loaded_view(loaded),
            old(self)@.cached is None ==> r == loaded,
    {
        if let Some(ref cookie) = self.cached_cookie_string {
            return Ok(cookie.clone());
        }
        match loaded {
            Ok(cookie) => {
                self.cached_cookie_string = Some(cookie.clone());
                Ok(cookie)
            },
            Err(e) => Err(e),
        }
    }

    /// Whether a cookie string can be had (see `get_cookie_string`).
    pub fn has_cookie(&mut self, loaded: Result<String, AppError>) -> (r: bool)
        ensures
            final(self)@.config_path == old(self)@.config_path,
            r == (old(self)@.cached is Some || loaded is Ok),
            final(self)@.cached == match old(self)@.cached {
                Some(c) => Some(c),
                None => loaded_view(loaded),
            },
    {
        self.get_cookie_string(loaded).is_ok()
    }

    /// Forgets the held cookie string.
    pub fn clear_cache(&mut self)
        ensures
            final(self)@ == (CookieManagerView { cached: None, ..old(self)@ }),
    {
        self.cached_cookie_string = None;
    }

    /// Holds `cookie` as the cookie string.
    pub fn set_cookie(&mut self, cookie: String)
        ensures
            final(self)@ == (CookieManagerView { cached: Some(cookie@), ..old(self)@ }),
    {
        self.cached_cookie_string = Some(cookie);
    }

    /// Forgets the held cookie string and takes the one `loaded` from the
    /// configuration instead.
    pub fn reload_cookie(&mut self, loaded: Result<String, AppError>) -> (r: Result<String, AppError>)
        ensures
            final(self)@.config_path == old(self)@.config_path,
            r == loaded,
            loaded_view(r) == loaded_view(loaded),
            r is Err <==> loaded is Err,
            final(self)@.cached == loaded_view(loaded),
    {
        self.cached_cookie_string = None;
        self.get_cookie_string(loaded)
    }

    /// Holds the cookie string of `cookies` and returns it, for the caller to
    /// write to the configuration.
    pub fn save_cookies(&mut self, cookies: &[CookieEntry]) -> (r: String)
        ensures
            r@ == cookie_text(entries_view(cookies@)),
            final(self)@ == (CookieManagerView { cached: Some(r@), ..old(self)@ }),
    {
        let s = cookie_string(cookies);
        self.cached_cookie_string = Some(s.clone());
        s
    }
}

} // verus!
