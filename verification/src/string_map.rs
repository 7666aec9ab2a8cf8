//! A map keyed by strings that keeps its entries in key order: the order of
//! `String`'s `Ord` (byte-wise on UTF-8, which is code-point order), as a
//! `BTreeMap<String, V>` would iterate them.
use vstd::prelude::*;

use crate::text::chars_of;

verus! {

/// Lexicographic order on character sequences by code point.
pub open spec fn key_lt(a: Seq<char>, b: Seq<char>) -> bool
    decreases a.len(),
{
    if a.len() == 0 {
        b.len() > 0
    } else if b.len() == 0 {
        false
    } else if a[0] != b[0] {
        a[0] < b[0]
    } else {
        key_lt(a.drop_first(), b.drop_first())
    }
}

pub proof fn lemma_key_lt_irreflexive(a: Seq<char>)
    ensures
        !key_lt(a, a),
    decreases a.len(),
{
    if a.len() > 0 {
        lemma_key_lt_irreflexive(a.drop_first());
    }
}

pub proof fn lemma_key_lt_transitive(a: Seq<char>, b: Seq<char>, c: Seq<char>)
    requires
        key_lt(a, b),
        key_lt(b, c),
    ensures
        key_lt(a, c),
    decreases a.len(),
{
    if a.len() > 0 && b.len() > 0 && c.len() > 0 {
        if a[0] == b[0] && b[0] == c[0] {
            lemma_key_lt_transitive(a.drop_first(), b.drop_first(), c.drop_first());
        }
    }
}

pub proof fn lemma_key_lt_total(a: Seq<char>, b: Seq<char>)
    ensures
        a == b || key_lt(a, b) || key_lt(b, a),
    decreases a.len(),
{
    if a.len() > 0 && b.len() > 0 {
        if a[0] == b[0] {
            lemma_key_lt_total(a.drop_first(), b.drop_first());
            if a.drop_first() == b.drop_first() {
                assert(a =~= seq![a[0]] + a.drop_first());
                assert(b =~= seq![b[0]] + b.drop_first());
            }
        }
    } else if a.len() == 0 && b.len() == 0 {
        assert(a =~= b);
    }
}

pub proof fn lemma_key_lt_asymmetric(a: Seq<char>, b: Seq<char>)
    requires
        key_lt(a, b),
    ensures
        !key_lt(b, a),
{
    if key_lt(b, a) {
        lemma_key_lt_transitive(a, b, a);
        lemma_key_lt_irreflexive(a);
    }
}

/// How two keys compare.
#[derive(Debug, Clone, Copy, PartialEq, Eq, Structural)]
pub enum KeyOrder {
    Less,
    Equal,
    Greater,
}

/// Compares two strings in key order.
pub fn compare_keys(a: &str, b: &str) -> (r: KeyOrder)
    ensures
        r == KeyOrder::Less <==> key_lt(a@, b@),
        r == KeyOrder::Equal <==> a@ == b@,
        r == KeyOrder::Greater <==> key_lt(b@, a@),
{
    let x = chars_of(a);
    let y = chars_of(b);
    let mut i: usize = 0;
    assert(a@.skip(0) == a@);
    assert(b@.skip(0) == b@);
    while i < x.len() && i < y.len() && x[i] == y[i]
        invariant
            x@ == a@,
            y@ == b@,
            i <= x@.len(),
            i <= y@.len(),
            key_lt(a@, b@) == key_lt(a@.skip(i as int), b@.skip(i as int)),
            key_lt(b@, a@) == key_lt(b@.skip(i as int), a@.skip(i as int)),
            (a@ == b@) == (a@.skip(i as int) == b@.skip(i as int)),
        decreases x@.len() - i,
    {
        let ghost sa = a@.skip(i as int);
        let ghost sb = b@.skip(i as int);
        assert(sa.drop_first() == a@.skip(i + 1));
        assert(sb.drop_first() == b@.skip(i + 1));
        assert(sa =~= seq![sa[0]] + sa.drop_first());
        assert(sb =~= seq![sb[0]] + sb.drop_first());
        i = i + 1;
    }
    let ghost sa = a@.skip(i as int);
    let ghost sb = b@.skip(i as int);
    proof {
        lemma_key_lt_irreflexive(sa);
        lemma_key_lt_total(sa, sb);
        if key_lt(sa, sb) {
            lemma_key_lt_asymmetric(sa, sb);
        }
        if key_lt(sb, sa) {
            lemma_key_lt_asymmetric(sb, sa);
        }
    }
    if i == x.len() && i == y.len() {
        assert(sa =~= sb);
        KeyOrder::Equal
    } else if i == x.len() {
        assert(sa.len() == 0 && sb.len() > 0);
        KeyOrder::Less
    } else if i == y.len() {
        assert(sb.len() == 0 && sa.len() > 0);
        KeyOrder::Greater
    } else {
        assert(sa[0] == x@[i as int] && sb[0] == y@[i as int]);
        assert(sa[0] != sb[0]);
        if x[i] < y[i] {
            KeyOrder::Less
        } else {
            KeyOrder::Greater
        }
    }
}

/// The map that a sequence of entries describes, later entries winning.
pub open spec fn entries_map<V>(es: Seq<(Seq<char>, V)>) -> Map<Seq<char>, V>
    decreases es.len(),
{
    if es.len() == 0 {
        Map::empty()
    } else {
        entries_map(es.drop_last()).insert(es.last().0, es.last().1)
    }
}

/// Keys strictly increasing.
pub open spec fn sorted_keys<V>(es: Seq<(Seq<char>, V)>) -> bool {
    forall|i: int, j: int| 0 <= i < j < es.len() ==> key_lt(#[trigger] es[i].0, #[trigger] es[j].0)
}

pub open spec fn has_key<V>(es: Seq<(Seq<char>, V)>, k: Seq<char>) -> bool {
    exists|i: int| 0 <= i < es.len() && #[trigger] es[i].0 == k
}

proof fn lemma_entries_map_dom<V>(es: Seq<(Seq<char>, V)>, k: Seq<char>)
    ensures
        entries_map(es).contains_key(k) == has_key(es, k),
    decreases es.len(),
{
    if es.len() > 0 {
        lemma_entries_map_dom(es.drop_last(), k);
        if has_key(es, k) && es.last().0 != k {
            let i = choose|i: int| 0 <= i < es.len() && #[trigger] es[i].0 == k;
            assert(es.drop_last()[i].0 == k);
        }
        if has_key(es.drop_last(), k) {
            let i = choose|i: int| 0 <= i < es.drop_last().len() && #[trigger] es.drop_last()[i].0 == k;
            assert(es[i].0 == k);
        }
        if es.last().0 == k {
            assert(es[es.len() - 1].0 == k);
        }
    }
}

proof fn lemma_entries_map_insert_mid<V>(s1: Seq<(Seq<char>, V)>, x: (Seq<char>, V), s2: Seq<(Seq<char>, V)>)
    requires
        !has_key(s2, x.0),
    ensures
        entries_map(s1 + seq![x] + s2) == entries_map(s1 + s2).insert(x.0, x.1),
    decreases s2.len(),
{
    if s2.len() == 0 {
        assert(s1 + seq![x] + s2 =~= s1.push(x));
        assert(s1 + s2 =~= s1);
        assert((s1 + seq![x] + s2).drop_last() =~= s1);
    } else {
        let y = s2.last();
        let s2i = s2.drop_last();
        assert(!has_key(s2i, x.0)) by {
            if has_key(s2i, x.0) {
                let i = choose|i: int| 0 <= i < s2i.len() && #[trigger] s2i[i].0 == x.0;
                assert(s2[i].0 == x.0);
            }
        }
        assert(y.0 != x.0) by {
            assert(s2[s2.len() - 1].0 == y.0);
        }
        lemma_entries_map_insert_mid(s1, x, s2i);
        assert((s1 + seq![x] + s2).drop_last() =~= s1 + seq![x] + s2i);
        assert((s1 + s2).drop_last() =~= s1 + s2i);
        assert((s1 + seq![x] + s2).last() == y);
        assert((s1 + s2).last() == y);
        assert(entries_map(s1 + s2i).insert(x.0, x.1).insert(y.0, y.1) =~= entries_map(
            s1 + s2i,
        ).insert(y.0, y.1).insert(x.0, x.1));
    }
}

/// A string-keyed map whose entries stay in increasing key order.
#[derive(Debug, PartialEq, Eq)]
pub struct StringMap<V> {
    entries: Vec<(String, V)>,
}

impl<V> StringMap<V> {
    /// The entries, keys by their text, in increasing key order.
    pub closed spec fn entry_seq(&self) -> Seq<(Seq<char>, V)> {
        self.entries@.map_values(|e: (String, V)| (e.0@, e.1))
    }

    /// The key-value pairs as a map.
    pub open spec fn as_map(&self) -> Map<Seq<char>, V> {
        entries_map(self.entry_seq())
    }

    #[verifier::type_invariant]
    closed spec fn keys_in_order(self) -> bool {
        sorted_keys(self.entry_seq())
    }

    /// An empty map.
    pub fn new() -> (m: Self)
        ensures
            m.entry_seq().len() == 0,
            m.as_map() == Map::<Seq<char>, V>::empty(),
    {
        let m = StringMap { entries: Vec::new() };
        assert(m.entry_seq() =~= Seq::<(Seq<char>, V)>::empty());
        m
    }

    /// Number of entries.
    pub fn len(&self) -> (n: usize)
        ensures
            n == self.entry_seq().len(),
    {
        self.entries.len()
    }

    /// Whether there are no entries.
    pub fn is_empty(&self) -> (b: bool)
        ensures
            b == (self.entry_seq().len() == 0),
    {
        self.entries.len() == 0
    }

    /// The entries in increasing key order.
    pub fn entries(&self) -> (r: &Vec<(String, V)>)
        ensures
            r@.map_values(|e: (String, V)| (e.0@, e.1)) == self.entry_seq(),
            sorted_keys(self.entry_seq()),
    {
        proof {
            use_type_invariant(self);
        }
        &self.entries
    }

    /// The value under `key`, if any.
    pub fn get(&self, key: &str) -> (r: Option<&V>)
        ensures
            match r {
                Some(v) => self.as_map().contains_key(key@) && self.as_map()[key@] == *v,
                None => !self.as_map().contains_key(key@),
            },
    {
        proof {
            use_type_invariant(self);
        }
        let ghost es = self.entry_seq();
        let mut i: usize = 0;
        while i < self.entries.len()
            invariant
                i <= es.len(),
                es == self.entry_seq(),
                es.len() == self.entries@.len(),
                sorted_keys(es),
                forall|j: int| 0 <= j < i ==> es[j].0 != key@,
            decreases es.len() - i,
        {
            assert(es[i as int].0 == self.entries@[i as int].0@);
            if compare_keys(self.entries[i].0.as_str(), key) == KeyOrder::Equal {
                proof {
                    lemma_entries_map_unique(es, i as int);
                }
                return Some(&self.entries[i].1);
            }
            i = i + 1;
        }
        proof {
            lemma_entries_map_dom(es, key@);
        }
        None
    }

    /// Sets `key` to `value`, keeping the key order.
    pub fn insert(&mut self, key: String, value: V)
        ensures
            final(self).as_map() == old(self).as_map().insert(key@, value),
    {
        proof {
            use_type_invariant(&*self);
        }
        let ghost es = self.entry_seq();
        let mut i: usize = 0;
        while i < self.entries.len()
            invariant
                i <= es.len(),
                es == self.entry_seq(),
                es == old(self).entry_seq(),
                es.len() == self.entries@.len(),
                sorted_keys(es),
                forall|j: int| 0 <= j < i ==> key_lt(es[j].0, key@),
            ensures
                i <= es.len(),
                es == self.entry_seq(),
                es.len() == self.entries@.len(),
                forall|j: int| 0 <= j < i ==> key_lt(es[j].0, key@),
                i < es.len() ==> key_lt(key@, es[i as int].0),
            decreases es.len() - i,
        {
            assert(es[i as int].0 == self.entries@[i as int].0@);
            let o = compare_keys(self.entries[i].0.as_str(), key.as_str());
            if o == KeyOrder::Equal {
                let ghost s1 = es.take(i as int);
                let ghost s2 = es.skip(i + 1);
                proof {
                    assert(es =~= s1 + seq![es[i as int]] + s2);
                    assert(!has_key(s2, key@)) by {
                        if has_key(s2, key@) {
                            let j = choose|j: int| 0 <= j < s2.len() && #[trigger] s2[j].0 == key@;
                            assert(es[i + 1 + j].0 == key@);
                            assert(key_lt(es[i as int].0, es[i + 1 + j].0));
                            lemma_key_lt_irreflexive(key@);
                        }
                    }
                    lemma_entries_map_insert_mid(s1, es[i as int], s2);
                    lemma_entries_map_insert_mid(s1, (key@, value), s2);
                    assert(entries_map(s1 + s2).insert(key@, es[i as int].1).insert(key@, value)
                        =~= entries_map(s1 + s2).insert(key@, value));
                }
                let mut v: Vec<(String, V)> = Vec::new();
                std::mem::swap(&mut v, &mut self.entries);
                v.set(i, (key, value));
                let ghost ns = v@.map_values(|e: (String, V)| (e.0@, e.1));
                proof {
                    assert(ns =~= s1 + seq![(key@, value)] + s2);
                    assert(sorted_keys(ns)) by {
                        assert forall|a: int, b: int|
                            0 <= a < b < ns.len() implies key_lt(
                            #[trigger] ns[a].0,
                            #[trigger] ns[b].0,
                        ) by {
                            assert(ns[a].0 == es[a].0);
                            assert(ns[b].0 == es[b].0);
                        }
                    }
                }
                self.entries = v;
                return ;
            }
            if o == KeyOrder::Greater {
                break;
            }
            i = i + 1;
        }
        // every key before `i` is smaller; `key` goes at `i`
        let ghost s1 = es.take(i as int);
        let ghost s2 = es.skip(i as int);
        proof {
            if i < es.len() {
                assert(key_lt(key@, es[i as int].0));
            }
            assert forall|j: int| 0 <= j < s2.len() implies key_lt(key@, #[trigger] s2[j].0) by {
                assert(s2[j] == es[i + j]);
                if j > 0 {
                    assert(key_lt(es[i as int].0, es[i + j].0));
                    lemma_key_lt_transitive(key@, es[i as int].0, es[i + j].0);
                }
            }
            assert(!has_key(s2, key@)) by {
                if has_key(s2, key@) {
                    let j = choose|j: int| 0 <= j < s2.len() && #[trigger] s2[j].0 == key@;
                    lemma_key_lt_irreflexive(key@);
                }
            }
            assert(es =~= s1 + s2);
            lemma_entries_map_insert_mid(s1, (key@, value), s2);
        }
        let ghost k = key@;
        let ghost val = value;
        let mut v: Vec<(String, V)> = Vec::new();
        std::mem::swap(&mut v, &mut self.entries);
        v.insert(i, (key, value));
        proof {
            let ns = v@.map_values(|e: (String, V)| (e.0@, e.1));
            assert(ns =~= s1 + seq![(k, val)] + s2);
            assert forall|a: int, b: int|
                0 <= a < b < ns.len() implies key_lt(#[trigger] ns[a].0, #[trigger] ns[b].0) by {
                if a < i && b < i {
                    assert(ns[a] == es[a] && ns[b] == es[b]);
                } else if a < i && b == i {
                    assert(ns[a] == es[a]);
                } else if a < i {
                    assert(ns[a] == es[a] && ns[b] == es[b - 1]);
                    assert(key_lt(es[a].0, k));
                    assert(key_lt(k, s2[b - 1 - i].0));
                    lemma_key_lt_transitive(es[a].0, k, es[b - 1].0);
                } else if a == i {
                    assert(ns[b] == s2[b - 1 - i]);
                } else {
                    assert(ns[a] == es[a - 1] && ns[b] == es[b - 1]);
                }
            }
        }
        self.entries = v;
    }
}

impl<V: Clone> Clone for StringMap<V> {
    /// A copy with the same keys in the same order; the values are clones.
    fn clone(&self) -> (c: Self)
        ensures
            c.entry_seq().len() == self.entry_seq().len(),
            forall|i: int| 0 <= i < c.entry_seq().len() ==> #[trigger] c.entry_seq()[i].0
                == self.entry_seq()[i].0,
            forall|i: int|
                0 <= i < c.entry_seq().len() ==> cloned(self.entry_seq()[i].1, #[trigger] c.entry_seq()[i].1),
    {
        proof {
            use_type_invariant(self);
        }
        let ghost es = self.entry_seq();
        let mut out: Vec<(String, V)> = Vec::new();
        let mut i: usize = 0;
        while i < self.entries.len()
            invariant
                i <= es.len(),
                es == self.entry_seq(),
                es.len() == self.entries@.len(),
                sorted_keys(es),
                out@.len() == i,
                forall|j: int| 0 <= j < i ==> #[trigger] out@[j].0@ == es[j].0,
                forall|j: int| 0 <= j < i ==> cloned(es[j].1, #[trigger] out@[j].1),
            decreases es.len() - i,
        {
            let k = self.entries[i].0.clone();
            let v = self.entries[i].1.clone();
            out.push((k, v));
            i = i + 1;
        }
        let ghost ns = out@.map_values(|e: (String, V)| (e.0@, e.1));
        assert(sorted_keys(ns)) by {
            assert forall|a: int, b: int| 0 <= a < b < ns.len() implies key_lt(
                #[trigger] ns[a].0,
                #[trigger] ns[b].0,
            ) by {
                assert(ns[a].0 == es[a].0);
                assert(ns[b].0 == es[b].0);
            }
        }
        StringMap { entries: out }
    }
}

/// In sorted entries, the map holds the value of the entry with that key.
proof fn lemma_entries_map_unique<V>(es: Seq<(Seq<char>, V)>, i: int)
    requires
        sorted_keys(es),
        0 <= i < es.len(),
    ensures
        entries_map(es).contains_key(es[i].0),
        entries_map(es)[es[i].0] == es[i].1,
{
    let s1 = es.take(i);
    let s2 = es.skip(i + 1);
    assert(es =~= s1 + seq![es[i]] + s2);
    assert(!has_key(s2, es[i].0)) by {
        if has_key(s2, es[i].0) {
            let j = choose|j: int| 0 <= j < s2.len() && #[trigger] s2[j].0 == es[i].0;
            assert(es[i + 1 + j].0 == es[i].0);
            assert(key_lt(es[i].0, es[i + 1 + j].0));
            lemma_key_lt_irreflexive(es[i].0);
        }
    }
    lemma_entries_map_insert_mid(s1, es[i], s2);
}

} // verus!
