//! An ordered map from strings to strings, kept sorted by key in the
//! byte order of UTF-8 (the order in which `String` keys compare).

use vstd::prelude::*;

verus! {

/// One entry of a map, as a pair of character sequences.
pub type Entry = (Seq<char>, Seq<char>);

/// `a` comes strictly before `b` in the order of `String` keys: code point
/// by code point, a proper prefix first.
pub open spec fn key_less(a: Seq<char>, b: Seq<char>) -> bool
    decreases a.len(),
{
    if b.len() == 0 {
        false
    } else if a.len() == 0 {
        true
    } else if a[0] != b[0] {
        a[0] < b[0]
    } else {
        key_less(a.drop_first(), b.drop_first())
    }
}

/// Keys strictly increase along the sequence (so none occurs twice).
pub open spec fn strictly_sorted(s: Seq<Entry>) -> bool {
    forall|i: int, j: int| 0 <= i < j < s.len() ==> key_less(#[trigger] s[i].0, #[trigger] s[j].0)
}

/// The value stored under `k`, if any.
pub open spec fn lookup(s: Seq<Entry>, k: Seq<char>) -> Option<Seq<char>>
    decreases s.len(),
{
    if s.len() == 0 {
        None
    } else if s[0].0 == k {
        Some(s[0].1)
    } else {
        lookup(s.drop_first(), k)
    }
}

/// The entries after storing `v` under `k`: an existing entry for `k` is
/// replaced in place, otherwise the pair goes before the first greater key.
pub open spec fn sorted_insert(s: Seq<Entry>, k: Seq<char>, v: Seq<char>) -> Seq<Entry>
    decreases s.len(),
{
    if s.len() == 0 {
        seq![(k, v)]
    } else if s[0].0 == k {
        s.update(0, (k, v))
    } else if key_less(k, s[0].0) {
        seq![(k, v)] + s
    } else {
        seq![s[0]] + sorted_insert(s.drop_first(), k, v)
    }
}

/// The entries built by inserting each pair of `pairs` in turn into an empty map.
pub open spec fn from_inserts(pairs: Seq<Entry>) -> Seq<Entry>
    decreases pairs.len(),
{
    if pairs.len() == 0 {
        Seq::empty()
    } else {
        let prev = from_inserts(pairs.drop_last());
        sorted_insert(prev, pairs.last().0, pairs.last().1)
    }
}

pub proof fn lemma_key_less_irreflexive(a: Seq<char>)
    ensures
        !key_less(a, a),
    decreases a.len(),
{
    if a.len() > 0 {
        lemma_key_less_irreflexive(a.drop_first());
    }
}

pub proof fn lemma_key_less_asymmetric(a: Seq<char>, b: Seq<char>)
    ensures
        !(key_less(a, b) && key_less(b, a)),
    decreases a.len(),
{
    if a.len() > 0 && b.len() > 0 && a[0] == b[0] {
        lemma_key_less_asymmetric(a.drop_first(), b.drop_first());
    }
}

pub proof fn lemma_key_less_transitive(a: Seq<char>, b: Seq<char>, c: Seq<char>)
    requires
        key_less(a, b),
        key_less(b, c),
    ensures
        key_less(a, c),
    decreases a.len(),
{
    if a.len() > 0 && b.len() > 0 && c.len() > 0 && a[0] == b[0] && b[0] == c[0] {
        lemma_key_less_transitive(a.drop_first(), b.drop_first(), c.drop_first());
    }
}

pub proof fn lemma_key_less_total(a: Seq<char>, b: Seq<char>)
    ensures
        a == b || key_less(a, b) || key_less(b, a),
    decreases a.len(),
{
    if a.len() > 0 && b.len() > 0 && a[0] == b[0] {
        lemma_key_less_total(a.drop_first(), b.drop_first());
        if a.drop_first() == b.drop_first() {
            assert(a =~= seq![a[0]] + a.drop_first());
            assert(b =~= seq![b[0]] + b.drop_first());
        }
    } else if a.len() == 0 && b.len() == 0 {
        assert(a =~= b);
    } else if a.len() > 0 && b.len() > 0 {
        assert(a[0] < b[0] || b[0] < a[0]);
    }
}


/// Inserting into a sorted sequence at the first position whose key is not
/// smaller than `k` is what `sorted_insert` does.
proof fn lemma_sorted_insert_at(s: Seq<Entry>, k: Seq<char>, v: Seq<char>, i: int)
    requires
        0 <= i <= s.len(),
        forall|j: int| 0 <= j < i ==> key_less(#[trigger] s[j].0, k),
        i == s.len() || !key_less(s[i].0, k),
    ensures
        sorted_insert(s, k, v) == (if i < s.len() && s[i].0 == k {
            s.update(i, (k, v))
        } else {
            s.insert(i, (k, v))
        }),
    decreases i,
{
    if i == 0 {
        if s.len() == 0 {
            assert(s.insert(0, (k, v)) =~= seq![(k, v)]);
        } else if s[0].0 == k {
        } else {
            lemma_key_less_total(s[0].0, k);
            assert(s.insert(0, (k, v)) =~= seq![(k, v)] + s);
        }
    } else {
        lemma_key_less_irreflexive(k);
        lemma_key_less_asymmetric(s[0].0, k);
        let t = s.drop_first();
        assert forall|j: int| 0 <= j < i - 1 implies key_less(#[trigger] t[j].0, k) by {
            assert(t[j] == s[j + 1]);
        }
        lemma_sorted_insert_at(t, k, v, i - 1);
        if i < s.len() && s[i].0 == k {
            assert(s.update(i, (k, v)) =~= seq![s[0]] + t.update(i - 1, (k, v)));
        } else {
            assert(s.insert(i, (k, v)) =~= seq![s[0]] + t.insert(i - 1, (k, v)));
        }
    }
}

/// Placing `(k, v)` at the position found as in `lemma_sorted_insert_at`
/// keeps the keys strictly increasing.
proof fn lemma_insert_at_sorted(s: Seq<Entry>, k: Seq<char>, v: Seq<char>, i: int)
    requires
        strictly_sorted(s),
        0 <= i <= s.len(),
        forall|j: int| 0 <= j < i ==> key_less(#[trigger] s[j].0, k),
        i == s.len() || !key_less(s[i].0, k),
    ensures
        strictly_sorted(if i < s.len() && s[i].0 == k {
            s.update(i, (k, v))
        } else {
            s.insert(i, (k, v))
        }),
{
    if i < s.len() && s[i].0 == k {
        let t = s.update(i, (k, v));
        assert forall|a: int, b: int| 0 <= a < b < t.len() implies key_less(
            #[trigger] t[a].0,
            #[trigger] t[b].0,
        ) by {
            assert(s[a].0 == t[a].0 && s[b].0 == t[b].0);
        }
    } else {
        let t = s.insert(i, (k, v));
        if i < s.len() {
            lemma_key_less_total(s[i].0, k);
        }
        assert forall|a: int, b: int| 0 <= a < b < t.len() implies key_less(
            #[trigger] t[a].0,
            #[trigger] t[b].0,
        ) by {
            if b < i {
                assert(t[a] == s[a] && t[b] == s[b]);
            } else if b == i {
                assert(t[a] == s[a]);
            } else if a == i {
                assert(t[b] == s[b - 1]);
                if b - 1 > i {
                    lemma_key_less_transitive(k, s[i].0, s[b - 1].0);
                }
            } else if a < i {
                assert(t[a] == s[a] && t[b] == s[b - 1]);
                if a < b - 1 {
                } else {
                    assert(false);
                }
            } else {
                assert(t[a] == s[a - 1] && t[b] == s[b - 1]);
            }
        }
    }
}

/// The number of leading entries whose keys are smaller than `k`.
pub open spec fn insert_index(s: Seq<Entry>, k: Seq<char>) -> int
    decreases s.len(),
{
    if s.len() == 0 {
        0
    } else if key_less(s[0].0, k) {
        1 + insert_index(s.drop_first(), k)
    } else {
        0
    }
}

proof fn lemma_insert_index(s: Seq<Entry>, k: Seq<char>)
    requires
        strictly_sorted(s),
    ensures
        0 <= insert_index(s, k) <= s.len(),
        forall|j: int| 0 <= j < insert_index(s, k) ==> key_less(#[trigger] s[j].0, k),
        insert_index(s, k) == s.len() || !key_less(s[insert_index(s, k)].0, k),
    decreases s.len(),
{
    if s.len() > 0 && key_less(s[0].0, k) {
        let t = s.drop_first();
        assert(strictly_sorted(t)) by {
            assert forall|a: int, b: int| 0 <= a < b < t.len() implies key_less(
                #[trigger] t[a].0,
                #[trigger] t[b].0,
            ) by {
                assert(t[a] == s[a + 1] && t[b] == s[b + 1]);
            }
        }
        lemma_insert_index(t, k);
        assert forall|j: int| 0 <= j < insert_index(s, k) implies key_less(#[trigger] s[j].0, k) by {
            if j > 0 {
                assert(s[j] == t[j - 1]);
            }
        }
        if insert_index(s, k) < s.len() {
            assert(s[insert_index(s, k)] == t[insert_index(t, k)]);
        }
    }
}

/// Storing into a map keeps its keys strictly increasing.
pub proof fn lemma_sorted_insert_sorted(s: Seq<Entry>, k: Seq<char>, v: Seq<char>)
    requires
        strictly_sorted(s),
    ensures
        strictly_sorted(sorted_insert(s, k, v)),
{
    lemma_insert_index(s, k);
    lemma_sorted_insert_at(s, k, v, insert_index(s, k));
    lemma_insert_at_sorted(s, k, v, insert_index(s, k));
}

/// Looking up the key just stored gives the stored value.
pub proof fn lemma_lookup_inserted(s: Seq<Entry>, k: Seq<char>, v: Seq<char>)
    ensures
        lookup(sorted_insert(s, k, v), k) == Some(v),
    decreases s.len(),
{
    if s.len() > 0 && s[0].0 != k && !key_less(k, s[0].0) {
        lemma_lookup_inserted(s.drop_first(), k, v);
        assert((seq![s[0]] + sorted_insert(s.drop_first(), k, v)).drop_first() =~= sorted_insert(
            s.drop_first(),
            k,
            v,
        ));
    }
}

/// Storing under `k` leaves what every other key maps to unchanged.
pub proof fn lemma_lookup_other(s: Seq<Entry>, k: Seq<char>, v: Seq<char>, other: Seq<char>)
    requires
        other != k,
    ensures
        lookup(sorted_insert(s, k, v), other) == lookup(s, other),
    decreases s.len(),
{
    let r = sorted_insert(s, k, v);
    if s.len() == 0 {
        assert(r.drop_first() =~= Seq::<Entry>::empty());
        assert(r[0].0 == k);
        assert(lookup(r, other) == lookup(r.drop_first(), other));
    } else if s[0].0 == k {
        assert(r.drop_first() =~= s.drop_first());
        assert(r[0].0 == k);
        assert(lookup(r, other) == lookup(r.drop_first(), other));
    } else if key_less(k, s[0].0) {
        assert(r.drop_first() =~= s);
        assert(r[0].0 == k);
        assert(lookup(r, other) == lookup(r.drop_first(), other));
    } else {
        lemma_lookup_other(s.drop_first(), k, v, other);
        assert(r[0] == s[0]);
        assert(r.drop_first() =~= sorted_insert(s.drop_first(), k, v));
    }
}

/// Looking up a key in entries with one more entry at the end: the first
/// entry for the key wins.
pub proof fn lemma_lookup_push(s: Seq<Entry>, e: Entry, k: Seq<char>)
    ensures
        lookup(s.push(e), k) == (if lookup(s, k) is Some {
            lookup(s, k)
        } else if e.0 == k {
            Some(e.1)
        } else {
            None
        }),
    decreases s.len(),
{
    let t = s.push(e);
    if s.len() == 0 {
        assert(t.drop_first() =~= Seq::<Entry>::empty());
        assert(t[0] == e);
        assert(lookup(s, k) is None);
        assert(lookup(t.drop_first(), k) is None);
    } else {
        lemma_lookup_push(s.drop_first(), e, k);
        assert(t.drop_first() =~= s.drop_first().push(e));
        assert(t[0] == s[0]);
        if s[0].0 == k {
            assert(lookup(t, k) == Some(s[0].1));
            assert(lookup(s, k) == Some(s[0].1));
        } else {
            assert(lookup(t, k) == lookup(s.drop_first().push(e), k));
            assert(lookup(s, k) == lookup(s.drop_first(), k));
        }
    }
}

/// A key found by `lookup` is the key of some entry.
pub proof fn lemma_lookup_some(s: Seq<Entry>, k: Seq<char>)
    ensures
        lookup(s, k) is Some ==> exists|i: int| 0 <= i < s.len() && (#[trigger] s[i]).0 == k,
    decreases s.len(),
{
    if s.len() > 0 && s[0].0 != k {
        lemma_lookup_some(s.drop_first(), k);
        if lookup(s, k) is Some {
            let i = choose|i: int| 0 <= i < s.drop_first().len() && (#[trigger] s.drop_first()[i]).0 == k;
            assert(s[i + 1].0 == k);
        }
    }
}

/// In strictly sorted entries, the key of the last entry occurs nowhere before it.
pub proof fn lemma_sorted_last_key_new(s: Seq<Entry>, e: Entry)
    requires
        strictly_sorted(s.push(e)),
    ensures
        lookup(s, e.0) is None,
{
    lemma_lookup_some(s, e.0);
    if lookup(s, e.0) is Some {
        let i = choose|i: int| 0 <= i < s.len() && (#[trigger] s[i]).0 == e.0;
        assert(s.push(e)[i] == s[i]);
        assert(s.push(e)[s.len() as int] == e);
        lemma_key_less_irreflexive(e.0);
    }
}

/// `a` is strictly before `b` in key order (executable form of `key_less`).
pub fn str_key_less(a: &str, b: &str) -> (r: bool)
    ensures
        r == key_less(a@, b@),
{
    let la = a.unicode_len();
    let lb = b.unicode_len();
    let mut i: usize = 0;
    assert(a@.skip(0) =~= a@);
    assert(b@.skip(0) =~= b@);
    while i < la && i < lb
        invariant
            i <= la,
            i <= lb,
            la == a@.len(),
            lb == b@.len(),
            key_less(a@, b@) == key_less(a@.skip(i as int), b@.skip(i as int)),
        decreases la - i,
    {
        let ca = a.get_char(i);
        let cb = b.get_char(i);
        if ca != cb {
            return ca < cb;
        }
        assert(a@.skip(i as int).drop_first() =~= a@.skip(i + 1));
        assert(b@.skip(i as int).drop_first() =~= b@.skip(i + 1));
        i = i + 1;
    }
    i < lb
}

/// A map from strings to strings whose entries are kept in increasing key
/// order, each key at most once. Every method states this of the map it
/// reads or makes (`strictly_sorted`).
pub struct StringMap {
    entries: Vec<(String, String)>,
}

impl View for StringMap {
    type V = Seq<Entry>;

    closed spec fn view(&self) -> Seq<Entry> {
        self.entries@.map_values(|e: (String, String)| (e.0@, e.1@))
    }
}

impl StringMap {
    #[verifier::type_invariant]
    closed spec fn sorted(self) -> bool {
        strictly_sorted(self@)
    }

    /// An empty map.
    pub fn new() -> (m: StringMap)
        ensures
            m@ == Seq::<Entry>::empty(),
            strictly_sorted(m@),
    {
        let m = StringMap { entries: Vec::new() };
        assert(m@ =~= Seq::<Entry>::empty());
        m
    }

    /// Number of entries.
    pub fn len(&self) -> (n: usize)
        ensures
            n == self@.len(),
            strictly_sorted(self@),
    {
        proof {
            use_type_invariant(self);
        }
        self.entries.len()
    }

    /// Whether the map holds no entry.
    pub fn is_empty(&self) -> (b: bool)
        ensures
            b == (self@.len() == 0),
            strictly_sorted(self@),
    {
        proof {
            use_type_invariant(self);
        }
        self.entries.len() == 0
    }

    /// The key of the `i`-th entry in key order.
    pub fn key_at(&self, i: usize) -> (k: &String)
        requires
            i < self@.len(),
        ensures
            k@ == self@[i as int].0,
            strictly_sorted(self@),
    {
        proof {
            use_type_invariant(self);
        }
        &self.entries[i].0
    }

    /// The value of the `i`-th entry in key order.
    pub fn value_at(&self, i: usize) -> (v: &String)
        requires
            i < self@.len(),
        ensures
            v@ == self@[i as int].1,
            strictly_sorted(self@),
    {
        proof {
            use_type_invariant(self);
        }
        &self.entries[i].1
    }

    /// The value stored under `key`, if any.
    pub fn get(&self, key: &str) -> (r: Option<&String>)
        ensures
            match r {
                Some(v) => lookup(self@, key@) == Some(v@),
                None => lookup(self@, key@) is None,
            },
            strictly_sorted(self@),
    {
        proof {
            use_type_invariant(self);
        }
        let n = self.entries.len();
        let mut i: usize = 0;
        assert(self@.skip(0) =~= self@);
        while i < n
            invariant
                i <= n,
                n == self@.len(),
                lookup(self@, key@) == lookup(self@.skip(i as int), key@),
                strictly_sorted(self@),
            decreases n - i,
        {
            if str_eq(self.entries[i].0.as_str(), key) {
                return Some(&self.entries[i].1);
            }
            assert(self@.skip(i as int).drop_first() =~= self@.skip(i + 1));
            i = i + 1;
        }
        None
    }

    /// Stores `value` under `key`, replacing the value that was there.
    pub fn insert(&mut self, key: String, value: String)
        ensures
            final(self)@ == sorted_insert(old(self)@, key@, value@),
            strictly_sorted(final(self)@),
    {
        proof {
            use_type_invariant(&*self);
        }
        let ghost s = self@;
        let n = self.entries.len();
        let mut i: usize = 0;
        while i < n && str_key_less(self.entries[i].0.as_str(), key.as_str())
            invariant
                i <= n,
                n == s.len(),
                s == self@,
                forall|j: int| 0 <= j < i ==> key_less(#[trigger] s[j].0, key@),
            decreases n - i,
        {
            i = i + 1;
        }
        proof {
            lemma_sorted_insert_at(s, key@, value@, i as int);
            lemma_insert_at_sorted(s, key@, value@, i as int);
        }
        let mut entries: Vec<(String, String)> = Vec::new();
        std::mem::swap(&mut entries, &mut self.entries);
        let ghost kv = (key@, value@);
        let ghost old_entries = entries@;
        if i < n && str_eq(entries[i].0.as_str(), key.as_str()) {
            entries.set(i, (key, value));
            assert(entries@.map_values(|e: (String, String)| (e.0@, e.1@)) =~= s.update(
                i as int,
                kv,
            ));
        } else {
            entries.insert(i, (key, value));
            assert(entries@.map_values(|e: (String, String)| (e.0@, e.1@)) =~= s.insert(
                i as int,
                kv,
            ));
        }
        self.entries = entries;
    }
}

impl Clone for StringMap {
    /// A copy with the same entries.
    fn clone(&self) -> (r: Self)
        ensures
            r@ == self@,
            strictly_sorted(r@),
    {
        proof {
            use_type_invariant(self);
        }
        let n = self.entries.len();
        let mut entries: Vec<(String, String)> = Vec::new();
        let mut i: usize = 0;
        while i < n
            invariant
                i <= n,
                n == self@.len(),
                entries@.map_values(|e: (String, String)| (e.0@, e.1@)) == self@.take(i as int),
            decreases n - i,
        {
            let k = self.entries[i].0.clone();
            let v = self.entries[i].1.clone();
            assert(self@[i as int] == (k@, v@));
            let ghost before = entries@;
            entries.push((k, v));
            assert(entries@ == before.push((k, v)));
            assert(entries@.map_values(|e: (String, String)| (e.0@, e.1@)) =~= before.map_values(
                |e: (String, String)| (e.0@, e.1@),
            ).push((k@, v@)));
            assert(self@.take(i + 1) =~= self@.take(i as int).push(self@[i as int]));
            i = i + 1;
        }
        assert(self@.take(n as int) =~= self@);
        StringMap { entries }
    }
}

/// Equality of two strings, character by character.
pub fn str_eq(a: &str, b: &str) -> (r: bool)
    ensures
        r == (a@ == b@),
{
    let la = a.unicode_len();
    let lb = b.unicode_len();
    if la != lb {
        return false;
    }
    let mut i: usize = 0;
    while i < la
        invariant
            i <= la,
            la == a@.len(),
            lb == b@.len(),
            la == lb,
            forall|j: int| 0 <= j < i ==> a@[j] == b@[j],
        decreases la - i,
    {
        if a.get_char(i) != b.get_char(i) {
            return false;
        }
        i = i + 1;
    }
    assert(a@ =~= b@);
    true
}

} // verus!
