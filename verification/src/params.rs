//! Request parameters kept in key order, as a `BTreeMap<String, String>`
//! keeps them: text keys compared character by character (which is the order
//! of their UTF-8 bytes).

use vstd::prelude::*;

use crate::text::{chars_of, push_all, string_from_chars};

verus! {

/// Strict lexicographic order on character sequences, by code point.
pub open spec fn key_lt(a: Seq<char>, b: Seq<char>) -> bool
    decreases a.len(),
{
    if a.len() == 0 {
        b.len() > 0
    } else if b.len() == 0 {
        false
    } else if a[0] != b[0] {
        (a[0] as u32) < (b[0] as u32)
    } else {
        key_lt(a.drop_first(), b.drop_first())
    }
}

pub proof fn lemma_key_lt_irreflexive(a: Seq<char>)
    ensures
        !key_lt(a, a),
    decreases a.len(),
{
    if a.len() > 0 {
        lemma_key_lt_irreflexive(a.drop_first());
    }
}

pub proof fn lemma_key_lt_transitive(a: Seq<char>, b: Seq<char>, c: Seq<char>)
    requires
        key_lt(a, b),
        key_lt(b, c),
    ensures
        key_lt(a, c),
    decreases a.len(),
{
    if a.len() > 0 && b.len() > 0 && c.len() > 0 {
        if a[0] == b[0] && b[0] == c[0] {
            lemma_key_lt_transitive(a.drop_first(), b.drop_first(), c.drop_first());
        }
    }
}

pub proof fn lemma_key_lt_total(a: Seq<char>, b: Seq<char>)
    ensures
        a == b || key_lt(a, b) || key_lt(b, a),
    decreases a.len(),
{
    if a.len() > 0 && b.len() > 0 {
        if a[0] == b[0] {
            lemma_key_lt_total(a.drop_first(), b.drop_first());
            if a.drop_first() == b.drop_first() {
                assert(a.len() == a.drop_first().len() + 1);
                assert(b.len() == b.drop_first().len() + 1);
                assert forall|i: int| 0 <= i < a.len() implies a[i] == b[i] by {
                    if i > 0 {
                        assert(a[i] == a.drop_first()[i - 1]);
                        assert(b[i] == b.drop_first()[i - 1]);
                    }
                }
                assert(a =~= b);
            }
        } else {
            vstd::utf8::char_u32_cast(a[0], a[0] as u32);
            vstd::utf8::char_u32_cast(b[0], b[0] as u32);
        }
    } else if a.len() == 0 && b.len() == 0 {
        assert(a =~= b);
    }
}

pub proof fn lemma_key_lt_asymmetric(a: Seq<char>, b: Seq<char>)
    requires
        key_lt(a, b),
    ensures
        !key_lt(b, a),
{
    if key_lt(b, a) {
        lemma_key_lt_transitive(a, b, a);
        lemma_key_lt_irreflexive(a);
    }
}

/// Keys strictly increasing along the listing.
pub open spec fn keys_sorted<V>(s: Seq<(Seq<char>, V)>) -> bool {
    forall|i: int, j: int| 0 <= i < j < s.len() ==> key_lt(#[trigger] s[i].0, #[trigger] s[j].0)
}

/// The listing `s` with `k` set to `v`: the entry with key `k` replaced, or a
/// new entry placed before the first larger key.
pub open spec fn insert_sorted<V>(s: Seq<(Seq<char>, V)>, k: Seq<char>, v: V) -> Seq<(Seq<char>, V)>
    decreases s.len(),
{
    if s.len() == 0 {
        seq![(k, v)]
    } else if s[0].0 == k {
        s.update(0, (k, v))
    } else if key_lt(k, s[0].0) {
        seq![(k, v)] + s
    } else {
        seq![s[0]] + insert_sorted(s.drop_first(), k, v)
    }
}

/// The value of key `k` in a listing, if present.
pub open spec fn lookup<V>(s: Seq<(Seq<char>, V)>, k: Seq<char>) -> Option<V>
    decreases s.len(),
{
    if s.len() == 0 {
        None
    } else if s[0].0 == k {
        Some(s[0].1)
    } else {
        lookup(s.drop_first(), k)
    }
}

/// `key=value` for one entry.
pub open spec fn pair_text(e: (Seq<char>, Seq<char>)) -> Seq<char> {
    e.0 + seq!['='] + e.1
}

/// The entries as `key=value` joined by `&`, in listing order.
pub open spec fn query_text(s: Seq<(Seq<char>, Seq<char>)>) -> Seq<char>
    decreases s.len(),
{
    if s.len() == 0 {
        Seq::empty()
    } else if s.len() == 1 {
        pair_text(s[0])
    } else {
        query_text(s.drop_last()) + seq!['&'] + pair_text(s.last())
    }
}

pub proof fn lemma_insert_sorted_skip<V>(s: Seq<(Seq<char>, V)>, k: Seq<char>, v: V, i: int)
    requires
        0 <= i <= s.len(),
        forall|j: int| 0 <= j < i ==> key_lt(#[trigger] s[j].0, k),
    ensures
        insert_sorted(s, k, v) == s.take(i) + insert_sorted(s.skip(i), k, v),
    decreases i,
{
    if i == 0 {
        assert(s.skip(0) == s);
        assert(s.take(0) + insert_sorted(s, k, v) =~= insert_sorted(s, k, v));
    } else {
        lemma_key_lt_irreflexive(k);
        lemma_key_lt_asymmetric(s[0].0, k);
        assert(s[0].0 != k);
        lemma_insert_sorted_skip(s.drop_first(), k, v, i - 1);
        assert(s.drop_first().skip(i - 1) == s.skip(i));
        assert(seq![s[0]] + s.drop_first().take(i - 1) =~= s.take(i));
        assert(seq![s[0]] + (s.drop_first().take(i - 1) + insert_sorted(s.skip(i), k, v))
            =~= s.take(i) + insert_sorted(s.skip(i), k, v));
    }
}

/// Setting a key keeps the listing sorted, and afterwards the key holds the
/// new value while every other key keeps its old one.
pub proof fn law_insert_sorted<V>(s: Seq<(Seq<char>, V)>, k: Seq<char>, v: V)
    requires
        keys_sorted(s),
    ensures
        keys_sorted(insert_sorted(s, k, v)),
        lookup(insert_sorted(s, k, v), k) == Some(v),
        forall|k2: Seq<char>| k2 != k ==> lookup(insert_sorted(s, k, v), k2) == lookup(s, k2),
        lookup(s, k) is Some ==> insert_sorted(s, k, v).len() == s.len(),
        lookup(s, k) is None ==> insert_sorted(s, k, v).len() == s.len() + 1,
    decreases s.len(),
{
    let r = insert_sorted(s, k, v);
    if s.len() == 0 {
        assert(r.drop_first() =~= Seq::<(Seq<char>, V)>::empty());
        assert forall|k2: Seq<char>| k2 != k implies lookup(r, k2) == lookup(s, k2) by {
            reveal_with_fuel(lookup, 2);
        }
    } else if s[0].0 == k {
        assert(r.drop_first() =~= s.drop_first());
        assert forall|k2: Seq<char>| k2 != k implies lookup(r, k2) == lookup(s, k2) by {}
        assert forall|i: int, j: int| 0 <= i < j < r.len() implies key_lt(
            #[trigger] r[i].0,
            #[trigger] r[j].0,
        ) by {
            assert(s[i].0 == r[i].0);
        }
    } else if key_lt(k, s[0].0) {
        assert(r.drop_first() =~= s);
        assert forall|i: int, j: int| 0 <= i < j < r.len() implies key_lt(
            #[trigger] r[i].0,
            #[trigger] r[j].0,
        ) by {
            if i == 0 {
                if j > 1 {
                    assert(r[j] == s[j - 1]);
                    lemma_key_lt_transitive(k, s[0].0, s[j - 1].0);
                }
            } else {
                assert(r[i] == s[i - 1] && r[j] == s[j - 1]);
            }
        }
        assert forall|k2: Seq<char>| k2 != k implies lookup(r, k2) == lookup(s, k2) by {
            assert(lookup(r, k2) == lookup(r.drop_first(), k2));
        }
        lemma_lookup_absent(s, k);
    } else {
        let t = s.drop_first();
        assert(keys_sorted(t)) by {
            assert forall|i: int, j: int| 0 <= i < j < t.len() implies key_lt(
                #[trigger] t[i].0,
                #[trigger] t[j].0,
            ) by {
                assert(t[i] == s[i + 1] && t[j] == s[j + 1]);
            }
        }
        law_insert_sorted(t, k, v);
        lemma_key_lt_total(k, s[0].0);
        let rt = insert_sorted(t, k, v);
        assert(r.drop_first() =~= rt);
        assert(r[0] == s[0]);
        lemma_lookup_in(rt, k, v);
        assert forall|i: int, j: int| 0 <= i < j < r.len() implies key_lt(
            #[trigger] r[i].0,
            #[trigger] r[j].0,
        ) by {
            if i == 0 {
                assert(r[j] == rt[j - 1]);
                lemma_sorted_head_lt(s, k, v, j - 1);
            } else {
                assert(r[i] == rt[i - 1] && r[j] == rt[j - 1]);
            }
        }
        assert forall|k2: Seq<char>| k2 != k implies lookup(r, k2) == lookup(s, k2) by {
            if s[0].0 != k2 {
                assert(lookup(rt, k2) == lookup(t, k2));
                assert(lookup(r, k2) == lookup(r.drop_first(), k2));
                assert(lookup(s, k2) == lookup(s.drop_first(), k2));
            }
        }
    }
}

proof fn lemma_lookup_absent<V>(s: Seq<(Seq<char>, V)>, k: Seq<char>)
    requires
        keys_sorted(s),
        s.len() > 0,
        key_lt(k, s[0].0),
    ensures
        lookup(s, k) is None,
    decreases s.len(),
{
    reveal_with_fuel(lookup, 2);
    lemma_key_lt_irreflexive(k);
    assert(s[0].0 != k);
    if s.len() == 1 {
        assert(s.drop_first().len() == 0);
    }
    if s.len() > 1 {
        let t = s.drop_first();
        assert(key_lt(s[0].0, s[1].0));
        lemma_key_lt_transitive(k, s[0].0, s[1].0);
        assert(keys_sorted(t)) by {
            assert forall|i: int, j: int| 0 <= i < j < t.len() implies key_lt(
                #[trigger] t[i].0,
                #[trigger] t[j].0,
            ) by {
                assert(t[i] == s[i + 1] && t[j] == s[j + 1]);
            }
        }
        lemma_lookup_absent(t, k);
    }
}

proof fn lemma_lookup_in<V>(s: Seq<(Seq<char>, V)>, k: Seq<char>, v: V)
    requires
        lookup(s, k) == Some(v),
    ensures
        exists|i: int| 0 <= i < s.len() && s[i].0 == k,
    decreases s.len(),
{
    if s[0].0 != k {
        lemma_lookup_in(s.drop_first(), k, v);
        let i = choose|i: int| 0 <= i < s.drop_first().len() && s.drop_first()[i].0 == k;
        assert(s[i + 1].0 == k);
    }
}

proof fn lemma_sorted_head_lt<V>(s: Seq<(Seq<char>, V)>, k: Seq<char>, v: V, j: int)
    requires
        keys_sorted(s),
        s.len() > 0,
        key_lt(s[0].0, k),
        0 <= j < insert_sorted(s.drop_first(), k, v).len(),
    ensures
        key_lt(s[0].0, insert_sorted(s.drop_first(), k, v)[j].0),
    decreases s.len(),
{
    let t = s.drop_first();
    lemma_insert_sorted_members(t, k, v, j);
    let e = insert_sorted(t, k, v)[j];
    if e.0 != k {
        let i = choose|i: int| 0 <= i < t.len() && t[i] == e;
        assert(s[i + 1] == t[i]);
    }
}

proof fn lemma_insert_sorted_members<V>(s: Seq<(Seq<char>, V)>, k: Seq<char>, v: V, j: int)
    requires
        0 <= j < insert_sorted(s, k, v).len(),
    ensures
        insert_sorted(s, k, v)[j].0 == k || exists|i: int|
            0 <= i < s.len() && s[i] == insert_sorted(s, k, v)[j],
    decreases s.len(),
{
    let r = insert_sorted(s, k, v);
    if s.len() == 0 {
    } else if s[0].0 == k {
        if j > 0 {
            assert(s[j] == r[j]);
        }
    } else if key_lt(k, s[0].0) {
        if j > 0 {
            assert(s[j - 1] == r[j]);
        }
    } else {
        if j == 0 {
            assert(s[0] == r[0]);
        } else {
            let t = s.drop_first();
            assert(r[j] == insert_sorted(t, k, v)[j - 1]);
            lemma_insert_sorted_members(t, k, v, j - 1);
            if r[j].0 != k {
                let i = choose|i: int| 0 <= i < t.len() && t[i] == insert_sorted(t, k, v)[j - 1];
                assert(s[i + 1] == t[i]);
            }
        }
    }
}

/// How two keys compare.
pub enum KeyOrder {
    Less,
    Equal,
    Greater,
}

/// Compares two keys in the order of `key_lt`.
pub fn compare_keys(a: &[char], b: &[char]) -> (r: KeyOrder)
    ensures
        r is Less <==> key_lt(a@, b@),
        r is Equal <==> a@ == b@,
        r is Greater <==> key_lt(b@, a@),
{
    proof {
        lemma_key_lt_total(a@, b@);
        lemma_key_lt_irreflexive(a@);
        if key_lt(a@, b@) {
            lemma_key_lt_asymmetric(a@, b@);
        }
    }
    let mut i: usize = 0;
    assert(a@.skip(0) == a@);
    assert(b@.skip(0) == b@);
    while i < a.len() && i < b.len()
        invariant
            i <= a@.len(),
            i <= b@.len(),
            a@.take(i as int) == b@.take(i as int),
            key_lt(a@, b@) == key_lt(a@.skip(i as int), b@.skip(i as int)),
            key_lt(b@, a@) == key_lt(b@.skip(i as int), a@.skip(i as int)),
        decreases a.len() - i,
    {
        assert(a@.skip(i as int).drop_first() == a@.skip(i + 1));
        assert(b@.skip(i as int).drop_first() == b@.skip(i + 1));
        if a[i] != b[i] {
            if (a[i] as u32) < (b[i] as u32) {
                return KeyOrder::Less;
            } else {
                proof {
                    vstd::utf8::char_u32_cast(a@[i as int], a@[i as int] as u32);
                    vstd::utf8::char_u32_cast(b@[i as int], b@[i as int] as u32);
                }
                return KeyOrder::Greater;
            }
        }
        assert(a@.take(i + 1) == a@.take(i as int).push(a@[i as int]));
        assert(b@.take(i + 1) == b@.take(i as int).push(b@[i as int]));
        i = i + 1;
    }
    if a.len() == b.len() {
        assert(a@ == a@.take(i as int));
        assert(b@ == b@.take(i as int));
        KeyOrder::Equal
    } else if a.len() < b.len() {
        assert(a@.skip(i as int).len() == 0);
        KeyOrder::Less
    } else {
        assert(b@.skip(i as int).len() == 0);
        KeyOrder::Greater
    }
}

/// Text parameters of a request, kept in key order.
pub struct Params {
    entries: Vec<(String, String)>,
}

/// The listing of a vector of entries, each side by its characters.
pub open spec fn listing(v: Seq<(String, String)>) -> Seq<(Seq<char>, Seq<char>)> {
    v.map_values(|e: (String, String)| (e.0@, e.1@))
}

impl View for Params {
    type V = Seq<(Seq<char>, Seq<char>)>;

    closed spec fn view(&self) -> Seq<(Seq<char>, Seq<char>)> {
        listing(self.entries@)
    }
}

impl Params {
    /// No parameters.
    pub fn new() -> (r: Self)
        ensures
            r@ == Seq::<(Seq<char>, Seq<char>)>::empty(),
    {
        let r = Params { entries: Vec::new() };
        assert(r@ =~= Seq::<(Seq<char>, Seq<char>)>::empty());
        r
    }

    /// Sets `key` to `value` (`BTreeMap::insert`).
    pub fn insert(&mut self, key: String, value: String)
        ensures
            final(self)@ == insert_sorted(old(self)@, key@, value@),
    {
        let kc = chars_of(key.as_str());
        let n = self.entries.len();
        let mut i: usize = 0;
        let ghost s = self@;
        while i < n
            invariant
                n == self.entries@.len(),
                i <= n,
                s == self@,
                s == listing(self.entries@),
                kc@ == key@,
                forall|j: int| 0 <= j < i ==> key_lt(#[trigger] s[j].0, key@),
            ensures
                i <= n,
                s == self@,
                n == self.entries@.len(),
                forall|j: int| 0 <= j < i ==> key_lt(#[trigger] s[j].0, key@),
                i < n ==> !key_lt(s[i as int].0, key@),
            decreases n - i,
        {
            let ec = chars_of(self.entries[i].0.as_str());
            match compare_keys(ec.as_slice(), kc.as_slice()) {
                KeyOrder::Less => {
                    i = i + 1;
                },
                _ => {
                    break;
                },
            }
        }
        proof {
            lemma_insert_sorted_skip(s, key@, value@, i as int);
        }
        if i < n {
            let ec = chars_of(self.entries[i].0.as_str());
            match compare_keys(ec.as_slice(), kc.as_slice()) {
                KeyOrder::Equal => {
                    let ghost old_entries = self.entries@;
                    self.entries.set(i, (key, value));
                    assert(s.skip(i as int)[0].0 == key@);
                    assert(self@ =~= s.take(i as int) + s.skip(i as int).update(0, (key@, value@)));
                },
                _ => {
                    proof {
                        lemma_key_lt_total(s[i as int].0, key@);
                    }
                    assert(key_lt(key@, s.skip(i as int)[0].0));
                    self.entries.insert(i, (key, value));
                    assert(self@ =~= s.take(i as int) + (seq![(key@, value@)] + s.skip(i as int)));
                },
            }
        } else {
            self.entries.push((key, value));
            assert(s.skip(i as int).len() == 0);
            assert(self@ =~= s.take(i as int) + seq![(key@, value@)]);
        }
    }

    /// The parameters as `key=value` joined by `&`, in key order.
    pub fn to_query(&self) -> (r: String)
        ensures
            r@ == query_text(self@),
    {
        let mut out: Vec<char> = Vec::new();
        let n = self.entries.len();
        let ghost s = self@;
        for i in 0..n
            invariant
                n == self.entries@.len(),
                s == self@,
                s == listing(self.entries@),
                out@ == query_text(s.take(i as int)),
        {
            assert(s.take(i + 1).drop_last() == s.take(i as int));
            if i > 0 {
                out.push('&');
            }
            let kc = chars_of(self.entries[i].0.as_str());
            let vc = chars_of(self.entries[i].1.as_str());
            push_all(&mut out, kc.as_slice());
            out.push('=');
            push_all(&mut out, vc.as_slice());
            assert(s.take(i + 1).last() == s[i as int]);
            if i == 0 {
                assert(out@ =~= pair_text(s[0]));
            } else {
                assert(out@ =~= query_text(s.take(i as int)) + seq!['&'] + pair_text(s[i as int]));
            }
        }
        assert(s.take(n as int) == s);
        string_from_chars(out.as_slice())
    }
}

} // verus!
