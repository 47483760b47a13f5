//! Diagnostics: key-value pairs from the context of a log call.
//!
//! The map behind the thread-local diagnostic keeps its keys in the order of `String`'s `Ord`,
//! each key once; the thread-local storage that holds one map per thread is the caller's.
use vstd::prelude::*;

use vstd::string::StrSliceExecFns;

verus! {

/// The order of `String`'s `Ord`: lexicographic by character (which is the order of the UTF-8
/// bytes).
pub open spec fn str_lt(a: Seq<char>, b: Seq<char>) -> bool
    decreases a.len(),
{
    if a.len() == 0 {
        b.len() > 0
    } else if b.len() == 0 {
        false
    } else if a[0] != b[0] {
        a[0] < b[0]
    } else {
        str_lt(a.drop_first(), b.drop_first())
    }
}

pub proof fn lemma_str_lt_irreflexive(a: Seq<char>)
    ensures
        !str_lt(a, a),
    decreases a.len(),
{
    if a.len() > 0 {
        lemma_str_lt_irreflexive(a.drop_first());
    }
}

pub proof fn lemma_str_lt_transitive(a: Seq<char>, b: Seq<char>, c: Seq<char>)
    requires
        str_lt(a, b),
        str_lt(b, c),
    ensures
        str_lt(a, c),
    decreases a.len(),
{
    if a.len() > 0 && b.len() > 0 && c.len() > 0 && a[0] == b[0] && b[0] == c[0] {
        lemma_str_lt_transitive(a.drop_first(), b.drop_first(), c.drop_first());
    }
}

pub proof fn lemma_str_lt_total(a: Seq<char>, b: Seq<char>)
    requires
        a != b,
    ensures
        str_lt(a, b) || str_lt(b, a),
    decreases a.len(),
{
    if a.len() > 0 && b.len() > 0 && a[0] == b[0] {
        if a.drop_first() == b.drop_first() {
            assert(a =~= seq![a[0]] + a.drop_first());
            assert(b =~= seq![b[0]] + b.drop_first());
        }
        lemma_str_lt_total(a.drop_first(), b.drop_first());
    } else if a.len() == 0 && b.len() == 0 {
        assert(a =~= b);
    }
}

pub proof fn lemma_str_lt_asymmetric(a: Seq<char>, b: Seq<char>)
    requires
        str_lt(a, b),
    ensures
        !str_lt(b, a),
{
    if str_lt(b, a) {
        lemma_str_lt_transitive(a, b, a);
        lemma_str_lt_irreflexive(a);
    }
}

/// Compares two strings in the order of `String`'s `Ord`: `-1`, `0` or `1` as `a` comes before,
/// equals or comes after `b`.
pub fn compare_str(a: &str, b: &str) -> (r: i8)
    ensures
        r == 0 <==> a@ == b@,
        r < 0 <==> str_lt(a@, b@),
        r > 0 <==> str_lt(b@, a@),
{
    let n = a.unicode_len();
    let m = b.unicode_len();
    let mut i: usize = 0;
    assert(a@.skip(0) =~= a@);
    assert(b@.skip(0) =~= b@);
    while i < n && i < m
        invariant
            n == a@.len(),
            m == b@.len(),
            i <= n,
            i <= m,
            a@.take(i as int) == b@.take(i as int),
            str_lt(a@, b@) == str_lt(a@.skip(i as int), b@.skip(i as int)),
            str_lt(b@, a@) == str_lt(b@.skip(i as int), a@.skip(i as int)),
        decreases n - i,
    {
        let x = a.get_char(i);
        let y = b.get_char(i);
        assert(a@.skip(i as int)[0] == x && b@.skip(i as int)[0] == y);
        if x != y {
            if x < y {
                return -1;
            } else {
                return 1;
            }
        }
        assert(a@.skip(i as int).drop_first() =~= a@.skip(i + 1));
        assert(b@.skip(i as int).drop_first() =~= b@.skip(i + 1));
        assert(a@.take(i + 1) =~= a@.take(i as int).push(x));
        assert(b@.take(i + 1) =~= b@.take(i as int).push(y));
        i = i + 1;
    }
    if n == m {
        assert(a@ =~= a@.take(i as int));
        assert(b@ =~= b@.take(i as int));
        proof {
            lemma_str_lt_irreflexive(a@);
        }
        0
    } else if n < m {
        proof {
            assert(a@.skip(i as int).len() == 0);
            assert(a@ != b@);
        }
        -1
    } else {
        proof {
            assert(b@.skip(i as int).len() == 0);
            assert(a@ != b@);
        }
        1
    }
}

/// The keys of `entries` strictly increase.
pub open spec fn sorted_keys<V>(entries: Seq<(Seq<char>, V)>) -> bool {
    forall|i: int, j: int|
        0 <= i < j < entries.len() ==> str_lt(#[trigger] entries[i].0, #[trigger] entries[j].0)
}

/// The value of `key` among `entries`: that of the first pair with this key.
pub open spec fn value_of<V>(entries: Seq<(Seq<char>, V)>, key: Seq<char>) -> Option<V>
    decreases entries.len(),
{
    if entries.len() == 0 {
        None
    } else if entries[0].0 == key {
        Some(entries[0].1)
    } else {
        value_of(entries.drop_first(), key)
    }
}

proof fn lemma_value_of_first<V>(es: Seq<(Seq<char>, V)>, k: Seq<char>, i: int)
    requires
        0 <= i < es.len(),
        es[i].0 == k,
        forall|j: int| 0 <= j < i ==> #[trigger] es[j].0 != k,
    ensures
        value_of(es, k) == Some(es[i].1),
    decreases i,
{
    if i > 0 {
        let t = es.drop_first();
        assert(es[0].0 != k);
        assert forall|j: int| 0 <= j < i - 1 implies #[trigger] t[j].0 != k by {
            assert(t[j] == es[j + 1]);
        }
        lemma_value_of_first(t, k, i - 1);
    }
}

proof fn lemma_value_of_none<V>(es: Seq<(Seq<char>, V)>, k: Seq<char>)
    requires
        forall|j: int| 0 <= j < es.len() ==> #[trigger] es[j].0 != k,
    ensures
        value_of(es, k) is None,
    decreases es.len(),
{
    if es.len() > 0 {
        let t = es.drop_first();
        assert(es[0].0 != k);
        assert forall|j: int| 0 <= j < t.len() implies #[trigger] t[j].0 != k by {
            assert(t[j] == es[j + 1]);
        }
        lemma_value_of_none(t, k);
    }
}

proof fn lemma_sorted_lookup<V>(es: Seq<(Seq<char>, V)>, i: int)
    requires
        sorted_keys(es),
        0 <= i < es.len(),
    ensures
        value_of(es, es[i].0) == Some(es[i].1),
{
    let k = es[i].0;
    assert forall|j: int| 0 <= j < i implies #[trigger] es[j].0 != k by {
        assert(str_lt(es[j].0, es[i].0));
        lemma_str_lt_irreflexive(k);
    }
    lemma_value_of_first(es, k, i);
}

/// A map from string keys to values that walks its keys in order.
#[derive(Debug)]
pub struct OrderedMap<V> {
    entries: Vec<(String, V)>,
}

/// The map of the thread-local diagnostic.
pub type DiagnosticMap = OrderedMap<String>;

impl<V> OrderedMap<V> {
    /// The pairs, in the order of their keys.
    pub closed spec fn spec_entries(&self) -> Seq<(Seq<char>, V)> {
        Seq::new(self.entries@.len(), |i: int| (self.entries@[i].0@, self.entries@[i].1))
    }

    /// Each key is held once, and the keys are in order.
    pub open spec fn wf(&self) -> bool {
        sorted_keys(self.spec_entries())
    }

    /// The value of `key`.
    pub open spec fn spec_get(&self, key: Seq<char>) -> Option<V> {
        value_of(self.spec_entries(), key)
    }

    /// An empty map.
    pub fn new() -> (r: OrderedMap<V>)
        ensures
            r.wf(),
            r.spec_entries().len() == 0,
    {
        OrderedMap { entries: Vec::new() }
    }

    /// The number of pairs.
    pub fn len(&self) -> (r: usize)
        ensures
            r == self.spec_entries().len(),
    {
        self.entries.len()
    }

    /// The pair at position `i`, in the order of the keys.
    pub fn entry(&self, i: usize) -> (r: (&str, &V))
        requires
            i < self.spec_entries().len(),
        ensures
            r.0@ == self.spec_entries()[i as int].0,
            *r.1 == self.spec_entries()[i as int].1,
    {
        let e = &self.entries[i];
        (e.0.as_str(), &e.1)
    }

    /// The first position whose key does not come before `key`, and whether that key is `key`.
    fn find(&self, key: &str) -> (r: (usize, bool))
        requires
            self.wf(),
        ensures
            r.0 <= self.spec_entries().len(),
            forall|i: int| 0 <= i < r.0 ==> str_lt(#[trigger] self.spec_entries()[i].0, key@),
            r.1 <==> (r.0 < self.spec_entries().len() && self.spec_entries()[r.0 as int].0 == key@),
            r.0 < self.spec_entries().len() && !r.1 ==> str_lt(key@, self.spec_entries()[r.0 as int].0),
    {
        let ghost es = self.spec_entries();
        let mut i: usize = 0;
        while i < self.entries.len()
            invariant
                es == self.spec_entries(),
                i <= es.len(),
                es.len() == self.entries@.len(),
                forall|j: int| 0 <= j < i ==> str_lt(#[trigger] es[j].0, key@),
            decreases es.len() - i,
        {
            let c = compare_str(self.entries[i].0.as_str(), key);
            assert(es[i as int].0 == self.entries@[i as int].0@);
            if c == 0 {
                return (i, true);
            } else if c > 0 {
                return (i, false);
            }
            i = i + 1;
        }
        (i, false)
    }

    /// The value of `key`, if the map holds it.
    pub fn get(&self, key: &str) -> (r: Option<&V>)
        requires
            self.wf(),
        ensures
            match r {
                Some(v) => self.spec_get(key@) == Some(*v),
                None => self.spec_get(key@) is None,
            },
    {
        let ghost es = self.spec_entries();
        let (i, found) = self.find(key);
        if found {
            proof {
                lemma_sorted_lookup(es, i as int);
            }
            Some(&self.entries[i].1)
        } else {
            proof {
                assert forall|j: int| 0 <= j < es.len() implies #[trigger] es[j].0 != key@ by {
                    lemma_str_lt_irreflexive(key@);
                    if j >= i && i < es.len() {
                        if j > i {
                            lemma_str_lt_transitive(key@, es[i as int].0, es[j].0);
                        }
                    }
                }
                lemma_value_of_none(es, key@);
            }
            None
        }
    }

    /// Inserts a pair; the value of a key that the map holds is replaced.
    pub fn insert(&mut self, key: String, value: V)
        requires
            old(self).wf(),
        ensures
            final(self).wf(),
            final(self).spec_get(key@) == Some(value),
            forall|k: Seq<char>| k != key@ ==> #[trigger] final(self).spec_get(k) == old(self).spec_get(k),
    {
        let ghost es = self.spec_entries();
        let ghost kv = key@;
        let ghost vv = value;
        let (i, found) = self.find(key.as_str());
        let ghost old_entries = self.entries@;
        if found {
            self.entries.set(i, (key, value));
        } else {
            self.entries.insert(i, (key, value));
        }
        let ghost ns = self.spec_entries();
        proof {
            if found {
                assert(ns =~= es.update(i as int, (kv, vv)));
            } else {
                old_entries.insert_ensures(i as int, (self.entries@[i as int]));
                assert(ns =~= es.insert(i as int, (kv, vv)));
                es.insert_ensures(i as int, (kv, vv));
            }
            assert forall|a: int, b: int| 0 <= a < b < ns.len() implies str_lt(
                #[trigger] ns[a].0,
                #[trigger] ns[b].0,
            ) by {
                if found {
                    if a == i {
                        assert(ns[a].0 == es[a].0);
                    }
                    if b == i {
                        assert(ns[b].0 == es[b].0);
                    }
                } else {
                    if b < i {
                        assert(ns[a] == es[a] && ns[b] == es[b]);
                    } else if b == i {
                        assert(ns[a] == es[a]);
                    } else if a == i {
                        assert(ns[b] == es[b - 1]);
                        if b - 1 > i {
                            lemma_str_lt_transitive(kv, es[i as int].0, es[b - 1].0);
                        }
                    } else if a < i {
                        assert(ns[a] == es[a] && ns[b] == es[b - 1]);
                    } else {
                        assert(ns[a] == es[a - 1] && ns[b] == es[b - 1]);
                    }
                }
            }
            lemma_sorted_lookup(ns, i as int);
            assert(ns[i as int] == (kv, vv));
            assert forall|k: Seq<char>| k != kv implies #[trigger] value_of(ns, k) == value_of(es, k) by {
                if exists|j: int| 0 <= j < es.len() && #[trigger] es[j].0 == k {
                    let w = choose|j: int| 0 <= j < es.len() && #[trigger] es[j].0 == k;
                    let w2 = if found || w < i { w } else { w + 1 };
                    if found {
                        assert(w != i);
                    }
                    assert(ns[w2] == es[w]);
                    lemma_sorted_lookup(es, w);
                    lemma_sorted_lookup(ns, w2);
                } else {
                    assert forall|j: int| 0 <= j < ns.len() implies #[trigger] ns[j].0 != k by {
                        if j == i {
                        } else if found || j < i {
                            assert(ns[j] == es[j]);
                        } else {
                            assert(ns[j] == es[j - 1]);
                        }
                    }
                    lemma_value_of_none(ns, k);
                    lemma_value_of_none(es, k);
                }
            }
        }
    }

    /// Removes the pair of `key`, if the map holds it.
    pub fn remove(&mut self, key: &str)
        requires
            old(self).wf(),
        ensures
            final(self).wf(),
            final(self).spec_get(key@) is None,
            forall|k: Seq<char>| k != key@ ==> #[trigger] final(self).spec_get(k) == old(self).spec_get(k),
    {
        let ghost es = self.spec_entries();
        let ghost kv = key@;
        let (i, found) = self.find(key);
        if !found {
            proof {
                assert forall|j: int| 0 <= j < es.len() implies #[trigger] es[j].0 != kv by {
                    lemma_str_lt_irreflexive(kv);
                    if j > i && i < es.len() {
                        lemma_str_lt_transitive(kv, es[i as int].0, es[j].0);
                    }
                }
                lemma_value_of_none(es, kv);
            }
            return;
        }
        let ghost old_entries = self.entries@;
        let _ = self.entries.remove(i);
        let ghost ns = self.spec_entries();
        proof {
            assert(ns =~= es.remove(i as int));
            es.remove_ensures(i as int);
            assert forall|a: int, b: int| 0 <= a < b < ns.len() implies str_lt(
                #[trigger] ns[a].0,
                #[trigger] ns[b].0,
            ) by {
                if b < i {
                    assert(ns[a] == es[a] && ns[b] == es[b]);
                } else if a < i {
                    assert(ns[a] == es[a] && ns[b] == es[b + 1]);
                } else {
                    assert(ns[a] == es[a + 1] && ns[b] == es[b + 1]);
                }
            }
            assert forall|j: int| 0 <= j < ns.len() implies #[trigger] ns[j].0 != kv by {
                lemma_str_lt_irreflexive(kv);
                if j < i {
                    assert(ns[j] == es[j]);
                    assert(str_lt(es[j].0, es[i as int].0));
                } else {
                    assert(ns[j] == es[j + 1]);
                    assert(str_lt(es[i as int].0, es[j + 1].0));
                }
            }
            lemma_value_of_none(ns, kv);
            assert forall|k: Seq<char>| k != kv implies #[trigger] value_of(ns, k) == value_of(es, k) by {
                if exists|j: int| 0 <= j < es.len() && #[trigger] es[j].0 == k {
                    let w = choose|j: int| 0 <= j < es.len() && #[trigger] es[j].0 == k;
                    assert(w != i);
                    let w2 = if w < i { w } else { w - 1 };
                    assert(ns[w2] == es[w]);
                    lemma_sorted_lookup(es, w);
                    lemma_sorted_lookup(ns, w2);
                } else {
                    assert forall|j: int| 0 <= j < ns.len() implies #[trigger] ns[j].0 != k by {
                        if j < i {
                            assert(ns[j] == es[j]);
                        } else {
                            assert(ns[j] == es[j + 1]);
                        }
                    }
                    lemma_value_of_none(ns, k);
                    lemma_value_of_none(es, k);
                }
            }
        }
    }
}

/// A diagnostic that stores key-value pairs in a map of the current thread.
#[derive(Debug, Clone, Copy, Default)]
pub struct ThreadLocalDiagnostic {}

impl ThreadLocalDiagnostic {
    /// Insert a key-value pair into the map of the thread local diagnostic.
    pub fn insert(map: &mut DiagnosticMap, key: String, value: String)
        requires
            old(map).wf(),
        ensures
            final(map).wf(),
            final(map).spec_get(key@) == Some(value),
            forall|k: Seq<char>| k != key@ ==> #[trigger] final(map).spec_get(k) == old(map).spec_get(k),
    {
        map.insert(key, value);
    }

    /// Remove a key-value pair from the map of the thread local diagnostic.
    pub fn remove(map: &mut DiagnosticMap, key: &str)
        requires
            old(map).wf(),
        ensures
            final(map).wf(),
            final(map).spec_get(key@) is None,
            forall|k: Seq<char>| k != key@ ==> #[trigger] final(map).spec_get(k) == old(map).spec_get(k),
    {
        map.remove(key);
    }
}

} // verus!
