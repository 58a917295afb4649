//! Tables keyed by text and kept in lexicographic key order, so that
//! walking one always visits its keys in the same order.

use vstd::prelude::*;
use crate::text::same_chars;

verus! {

/// Lexicographic order on character sequences, by code point.
pub open spec fn lex_lt(a: Seq<char>, b: Seq<char>) -> bool
    decreases a.len(),
{
    if a.len() == 0 {
        b.len() > 0
    } else if b.len() == 0 {
        false
    } else if a[0] != b[0] {
        a[0] < b[0]
    } else {
        lex_lt(a.drop_first(), b.drop_first())
    }
}

pub proof fn lemma_lex_irreflexive(a: Seq<char>)
    ensures
        !lex_lt(a, a),
    decreases a.len(),
{
    if a.len() > 0 {
        lemma_lex_irreflexive(a.drop_first());
    }
}

pub proof fn lemma_lex_asymmetric(a: Seq<char>, b: Seq<char>)
    requires
        lex_lt(a, b),
    ensures
        !lex_lt(b, a),
    decreases a.len(),
{
    if a.len() > 0 && b.len() > 0 && a[0] == b[0] {
        lemma_lex_asymmetric(a.drop_first(), b.drop_first());
    }
}

pub proof fn lemma_lex_total(a: Seq<char>, b: Seq<char>)
    requires
        a != b,
    ensures
        lex_lt(a, b) || lex_lt(b, a),
    decreases a.len(),
{
    if a.len() > 0 && b.len() > 0 && a[0] == b[0] {
        if a.drop_first() == b.drop_first() {
            assert(a =~= seq![a[0]] + a.drop_first());
            assert(b =~= seq![b[0]] + b.drop_first());
        }
        lemma_lex_total(a.drop_first(), b.drop_first());
    } else if a.len() == 0 && b.len() == 0 {
        assert(a =~= b);
    } else if a.len() > 0 && b.len() > 0 {
        assert(a[0] < b[0] || b[0] < a[0]);
    }
}

pub proof fn lemma_lex_transitive(a: Seq<char>, b: Seq<char>, c: Seq<char>)
    requires
        lex_lt(a, b),
        lex_lt(b, c),
    ensures
        lex_lt(a, c),
    decreases a.len(),
{
    if a.len() > 0 && b.len() > 0 && c.len() > 0 && a[0] == b[0] && b[0] == c[0] {
        lemma_lex_transitive(a.drop_first(), b.drop_first(), c.drop_first());
    }
}

/// Whether `a` comes strictly before `b`.
pub fn lex_less(a: &Vec<char>, b: &Vec<char>) -> (r: bool)
    ensures
        r == lex_lt(a@, b@),
{
    let mut i: usize = 0;
    assert(a@.skip(0) =~= a@ && b@.skip(0) =~= b@);
    while i < a.len() && i < b.len()
        invariant
            i <= a@.len(),
            i <= b@.len(),
            lex_lt(a@, b@) == lex_lt(a@.skip(i as int), b@.skip(i as int)),
        decreases a@.len() - i,
    {
        if a[i] != b[i] {
            return a[i] < b[i];
        }
        assert(a@.skip(i as int).drop_first() =~= a@.skip(i + 1));
        assert(b@.skip(i as int).drop_first() =~= b@.skip(i + 1));
        i += 1;
    }
    i < b.len()
}

/// One key and its value.
pub struct Entry<V> {
    pub key: Vec<char>,
    pub value: V,
}

/// A table of values keyed by text, each key at most once, in increasing
/// key order.
pub struct Table<V> {
    pub entries: Vec<Entry<V>>,
}

/// The key-value pairs of a sequence of entries.
pub open spec fn pairs<V>(s: Seq<Entry<V>>) -> Seq<(Seq<char>, V)> {
    s.map_values(|e: Entry<V>| (e.key@, e.value))
}

impl<V> View for Table<V> {
    type V = Seq<(Seq<char>, V)>;

    open spec fn view(&self) -> Seq<(Seq<char>, V)> {
        pairs(self.entries@)
    }
}

/// Keys strictly increasing.
pub open spec fn sorted<V>(s: Seq<(Seq<char>, V)>) -> bool {
    forall|i: int, j: int| 0 <= i < j < s.len() ==> lex_lt(#[trigger] s[i].0, #[trigger] s[j].0)
}

/// The pairs after binding `k` to `v`: an existing binding of `k` is
/// replaced in place, otherwise the pair goes before the first larger key.
pub open spec fn insert_sorted<V>(s: Seq<(Seq<char>, V)>, k: Seq<char>, v: V) -> Seq<(Seq<char>, V)>
    decreases s.len(),
{
    if s.len() == 0 {
        seq![(k, v)]
    } else if s[0].0 == k {
        seq![(k, v)] + s.drop_first()
    } else if lex_lt(k, s[0].0) {
        seq![(k, v)] + s
    } else {
        seq![s[0]] + insert_sorted(s.drop_first(), k, v)
    }
}

/// The value bound to `k`, if any.
pub open spec fn lookup<V>(s: Seq<(Seq<char>, V)>, k: Seq<char>) -> Option<V>
    decreases s.len(),
{
    if s.len() == 0 {
        None
    } else if s[0].0 == k {
        Some(s[0].1)
    } else {
        lookup(s.drop_first(), k)
    }
}

proof fn lemma_insert_split<V>(s: Seq<(Seq<char>, V)>, k: Seq<char>, v: V, i: int)
    requires
        0 <= i <= s.len(),
        forall|j: int| 0 <= j < i ==> lex_lt(#[trigger] s[j].0, k),
    ensures
        insert_sorted(s, k, v) == s.take(i) + insert_sorted(s.skip(i), k, v),
    decreases i,
{
    if i == 0 {
        assert(s.skip(0) =~= s);
        assert(s.take(0) + s =~= s);
    } else {
        lemma_lex_irreflexive(k);
        lemma_lex_asymmetric(s[0].0, k);
        let t = s.drop_first();
        assert forall|j: int| 0 <= j < i - 1 implies lex_lt(#[trigger] t[j].0, k) by {
            assert(t[j] == s[j + 1]);
        }
        lemma_insert_split(t, k, v, i - 1);
        assert(t.take(i - 1) =~= s.take(i).drop_first());
        assert(t.skip(i - 1) =~= s.skip(i));
        assert(s.take(i) =~= seq![s[0]] + s.take(i).drop_first());
    }
}

/// Every key after an insertion is the new key or an old one.
pub proof fn lemma_insert_keys<V>(s: Seq<(Seq<char>, V)>, k: Seq<char>, v: V, i: int)
    requires
        0 <= i < insert_sorted(s, k, v).len(),
    ensures
        insert_sorted(s, k, v)[i].0 == k || exists|j: int| 0 <= j < s.len() && s[j].0 == #[trigger] insert_sorted(s, k, v)[i].0,
    decreases s.len(),
{
    let r = insert_sorted(s, k, v);
    if s.len() > 0 && s[0].0 != k && !lex_lt(k, s[0].0) {
        if i > 0 {
            lemma_insert_keys(s.drop_first(), k, v, i - 1);
            let r2 = insert_sorted(s.drop_first(), k, v);
            assert(r[i] == r2[i - 1]);
            if r2[i - 1].0 != k {
                let j = choose|j: int| 0 <= j < s.drop_first().len() && s.drop_first()[j].0 == #[trigger] r2[i - 1].0;
                assert(s[j + 1].0 == r[i].0);
            }
        } else {
            assert(s[0].0 == r[0].0);
        }
    } else if s.len() > 0 && s[0].0 == k {
        if i > 0 {
            assert(r[i] == s[i]);
        }
    } else if s.len() > 0 {
        if i > 0 {
            assert(r[i] == s[i - 1]);
        }
    }
}

/// Binding a key keeps the keys in increasing order.
pub proof fn lemma_insert_sorted<V>(s: Seq<(Seq<char>, V)>, k: Seq<char>, v: V)
    requires
        sorted(s),
    ensures
        sorted(insert_sorted(s, k, v)),
    decreases s.len(),
{
    let r = insert_sorted(s, k, v);
    if s.len() == 0 {
    } else if s[0].0 == k {
        assert forall|i: int, j: int| 0 <= i < j < r.len() implies lex_lt(#[trigger] r[i].0, #[trigger] r[j].0) by {
            assert(r[j] == s[j]);
            if i > 0 {
                assert(r[i] == s[i]);
            }
        }
    } else if lex_lt(k, s[0].0) {
        assert forall|i: int, j: int| 0 <= i < j < r.len() implies lex_lt(#[trigger] r[i].0, #[trigger] r[j].0) by {
            assert(r[j] == s[j - 1]);
            if i > 0 {
                assert(r[i] == s[i - 1]);
            } else if j > 1 {
                lemma_lex_transitive(k, s[0].0, s[j - 1].0);
            }
        }
    } else {
        let t = s.drop_first();
        assert(sorted(t)) by {
            assert forall|i: int, j: int| 0 <= i < j < t.len() implies lex_lt(#[trigger] t[i].0, #[trigger] t[j].0) by {
                assert(t[i] == s[i + 1] && t[j] == s[j + 1]);
            }
        }
        lemma_insert_sorted(t, k, v);
        lemma_lex_total(k, s[0].0);
        let r2 = insert_sorted(t, k, v);
        assert forall|i: int, j: int| 0 <= i < j < r.len() implies lex_lt(#[trigger] r[i].0, #[trigger] r[j].0) by {
            assert(r[j] == r2[j - 1]);
            if i > 0 {
                assert(r[i] == r2[i - 1]);
            } else {
                lemma_insert_keys(t, k, v, j - 1);
                if r2[j - 1].0 != k {
                    let m = choose|m: int| 0 <= m < t.len() && t[m].0 == #[trigger] r2[j - 1].0;
                    assert(t[m] == s[m + 1]);
                }
            }
        }
    }
}

impl<V> Table<V> {
    /// An empty table.
    pub fn new() -> (r: Table<V>)
        ensures
            r@ == Seq::<(Seq<char>, V)>::empty(),
            sorted(r@),
    {
        let r = Table { entries: Vec::new() };
        assert(r@ =~= Seq::<(Seq<char>, V)>::empty());
        r
    }

    /// The number of keys.
    pub fn len(&self) -> (r: usize)
        ensures
            r == self@.len(),
    {
        self.entries.len()
    }

    /// Binds `key` to `value`, replacing an earlier binding of `key`.
    pub fn insert(&mut self, key: Vec<char>, value: V)
        ensures
            final(self)@ == insert_sorted(old(self)@, key@, value),
            sorted(old(self)@) ==> sorted(final(self)@),
    {
        let ghost s = self@;
        proof {
            if sorted(s) {
                lemma_insert_sorted(s, key@, value);
            }
        }
        let ghost k = key@;
        let mut i: usize = 0;
        while i < self.entries.len() && lex_less(&self.entries[i].key, &key)
            invariant
                s == self@,
                k == key@,
                i <= s.len(),
                forall|j: int| 0 <= j < i ==> lex_lt(#[trigger] s[j].0, k),
            decreases s.len() - i,
        {
            assert(s[i as int].0 == self.entries@[i as int].key@);
            i += 1;
        }
        proof {
            lemma_insert_split(s, k, value, i as int);
        }
        let n = self.entries.len();
        if i < n && same_chars(&self.entries[i].key, &key) {
            let _old = self.entries.remove(i);
            self.entries.insert(i, Entry { key, value });
            assert(insert_sorted(s.skip(i as int), k, value) =~= seq![(k, value)] + s.skip(i + 1));
            assert(self@ =~= s.take(i as int) + insert_sorted(s.skip(i as int), k, value));
        } else {
            proof {
                if i < n {
                    assert(s[i as int].0 == self.entries@[i as int].key@);
                    lemma_lex_total(k, s[i as int].0);
                }
            }
            self.entries.insert(i, Entry { key, value });
            assert(self@ =~= s.take(i as int) + insert_sorted(s.skip(i as int), k, value));
        }
    }

    /// The value bound to `key`, if any.
    pub fn get(&self, key: &Vec<char>) -> (r: Option<&V>)
        ensures
            r matches Some(v) ==> lookup(self@, key@) == Some(*v),
            r is None ==> lookup(self@, key@) is None,
    {
        let ghost s = self@;
        let mut i: usize = 0;
        assert(s.skip(0) =~= s);
        while i < self.entries.len()
            invariant
                s == self@,
                i <= s.len(),
                lookup(s, key@) == lookup(s.skip(i as int), key@),
            decreases s.len() - i,
        {
            if same_chars(&self.entries[i].key, key) {
                return Some(&self.entries[i].value);
            }
            assert(s.skip(i as int).drop_first() =~= s.skip(i + 1));
            i += 1;
        }
        None
    }
}

} // verus!
