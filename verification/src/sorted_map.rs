//! A map from strings to values that keeps its entries ordered by key, as a `BTreeMap`
//! keyed by `String` does: lookups, insertion with overwrite, and in-order access.
use vstd::prelude::*;

verus! {

/// Lexicographic order of character sequences by code point. This is the order of `String`'s
/// `Ord`, since UTF-8 byte order agrees with code point order.
pub open spec fn key_lt(a: Seq<char>, b: Seq<char>) -> bool
    decreases a.len(),
{
    if b.len() == 0 {
        false
    } else if a.len() == 0 {
        true
    } else if a[0] != b[0] {
        a[0] < b[0]
    } else {
        key_lt(a.drop_first(), b.drop_first())
    }
}

pub proof fn lemma_key_lt_irreflexive(a: Seq<char>)
    ensures
        !key_lt(a, a),
    decreases a.len(),
{
    if a.len() > 0 {
        lemma_key_lt_irreflexive(a.drop_first());
    }
}

pub proof fn lemma_key_lt_asymmetric(a: Seq<char>, b: Seq<char>)
    requires
        key_lt(a, b),
    ensures
        !key_lt(b, a),
    decreases a.len(),
{
    if a.len() > 0 && b.len() > 0 && a[0] == b[0] {
        lemma_key_lt_asymmetric(a.drop_first(), b.drop_first());
    }
}

pub proof fn lemma_key_lt_transitive(a: Seq<char>, b: Seq<char>, c: Seq<char>)
    requires
        key_lt(a, b),
        key_lt(b, c),
    ensures
        key_lt(a, c),
    decreases a.len(),
{
    if a.len() > 0 && b.len() > 0 && c.len() > 0 && a[0] == b[0] && b[0] == c[0] {
        lemma_key_lt_transitive(a.drop_first(), b.drop_first(), c.drop_first());
    }
}

pub proof fn lemma_key_lt_total(a: Seq<char>, b: Seq<char>)
    ensures
        a == b || key_lt(a, b) || key_lt(b, a),
    decreases a.len(),
{
    if a.len() > 0 && b.len() > 0 {
        if a[0] == b[0] {
            lemma_key_lt_total(a.drop_first(), b.drop_first());
            if a.drop_first() == b.drop_first() {
                assert(a =~= seq![a[0]] + a.drop_first());
                assert(b =~= seq![b[0]] + b.drop_first());
            }
        }
    } else if a.len() == 0 && b.len() == 0 {
        assert(a =~= b);
    }
}

/// The outcome of comparing two keys.
#[derive(Debug, Clone, Copy, PartialEq, Eq, Structural)]
pub enum KeyOrder {
    Less,
    Equal,
    Greater,
}

/// Compares two strings in the order of `key_lt`.
pub fn compare_keys(a: &str, b: &str) -> (r: KeyOrder)
    ensures
        (r == KeyOrder::Less) == key_lt(a@, b@),
        (r == KeyOrder::Equal) == (a@ == b@),
        (r == KeyOrder::Greater) == key_lt(b@, a@),
{
    proof {
        lemma_key_lt_total(a@, b@);
        lemma_key_lt_irreflexive(a@);
        if key_lt(a@, b@) {
            lemma_key_lt_asymmetric(a@, b@);
        }
    }
    let n = a.unicode_len();
    let m = b.unicode_len();
    let mut i: usize = 0;
    proof {
        assert(a@.skip(0) == a@);
        assert(b@.skip(0) == b@);
    }
    while i < n && i < m
        invariant
            n == a@.len(),
            m == b@.len(),
            i <= n,
            i <= m,
            key_lt(a@, b@) == key_lt(a@.skip(i as int), b@.skip(i as int)),
            key_lt(b@, a@) == key_lt(b@.skip(i as int), a@.skip(i as int)),
            a@.subrange(0, i as int) == b@.subrange(0, i as int),
        decreases n - i,
    {
        let x = a.get_char(i);
        let y = b.get_char(i);
        proof {
            assert(a@.skip(i as int)[0] == x);
            assert(b@.skip(i as int)[0] == y);
        }
        if x != y {
            proof {
                assert(a@ != b@) by {
                    if a@ == b@ {
                        assert(a@[i as int] == b@[i as int]);
                    }
                }
            }
            if x < y {
                return KeyOrder::Less;
            } else {
                return KeyOrder::Greater;
            }
        }
        proof {
            assert(a@.skip(i as int).drop_first() == a@.skip(i + 1));
            assert(b@.skip(i as int).drop_first() == b@.skip(i + 1));
            assert(a@.subrange(0, i + 1) == a@.subrange(0, i as int).push(x));
            assert(b@.subrange(0, i + 1) == b@.subrange(0, i as int).push(y));
        }
        i = i + 1;
    }
    if n == m {
        proof {
            assert(a@ == a@.subrange(0, i as int));
            assert(b@ == b@.subrange(0, i as int));
        }
        KeyOrder::Equal
    } else if i == n {
        proof {
            assert(a@.skip(i as int).len() == 0);
            assert(b@.skip(i as int).len() > 0);
        }
        KeyOrder::Less
    } else {
        proof {
            assert(a@.skip(i as int).len() > 0);
            assert(b@.skip(i as int).len() == 0);
        }
        KeyOrder::Greater
    }
}

/// Keys strictly increase along `s`, so no key occurs twice.
pub open spec fn keys_increasing<W>(s: Seq<(Seq<char>, W)>) -> bool {
    forall|i: int, j: int| 0 <= i < j < s.len() ==> key_lt(#[trigger] s[i].0, #[trigger] s[j].0)
}

/// The map that a sequence of entries denotes; a later entry wins over an earlier one.
pub open spec fn entries_map<W>(s: Seq<(Seq<char>, W)>) -> Map<Seq<char>, W>
    decreases s.len(),
{
    if s.len() == 0 {
        Map::empty()
    } else {
        entries_map(s.drop_last()).insert(s.last().0, s.last().1)
    }
}

/// Whether some entry of `s` has key `k`.
pub open spec fn has_key<W>(s: Seq<(Seq<char>, W)>, k: Seq<char>) -> bool {
    exists|i: int| 0 <= i < s.len() && s[i].0 == k
}

/// In a sequence without repeated keys, each entry is what the map holds for its key,
/// and the map's keys are the entries' keys.
pub proof fn lemma_entries_map<W>(s: Seq<(Seq<char>, W)>)
    requires
        keys_increasing(s),
    ensures
        forall|k: Seq<char>|
            #![trigger entries_map(s).contains_key(k)]
            #![trigger has_key(s, k)]
            entries_map(s).contains_key(k) <==> has_key(s, k),
        forall|i: int|
            #![trigger s[i]]
            0 <= i < s.len() ==> entries_map(s).contains_key(s[i].0) && entries_map(s)[s[i].0]
                == s[i].1,
        entries_map(s).dom().finite(),
        entries_map(s).len() == s.len(),
    decreases s.len(),
{
    if s.len() > 0 {
        let p = s.drop_last();
        assert(keys_increasing(p)) by {
            assert forall|i: int, j: int| 0 <= i < j < p.len() implies key_lt(
                #[trigger] p[i].0,
                #[trigger] p[j].0,
            ) by {
                assert(p[i] == s[i] && p[j] == s[j]);
            }
        }
        lemma_entries_map(p);
        let last = s.last();
        assert(!has_key(p, last.0)) by {
            if has_key(p, last.0) {
                let i = choose|i: int| 0 <= i < p.len() && p[i].0 == last.0;
                assert(s[i].0 == p[i].0);
                assert(key_lt(s[i].0, s[s.len() - 1].0));
                lemma_key_lt_irreflexive(last.0);
            }
        }
        assert forall|k: Seq<char>| entries_map(s).contains_key(k) <==> has_key(s, k) by {
            if has_key(s, k) {
                let i = choose|i: int| 0 <= i < s.len() && s[i].0 == k;
                if i < s.len() - 1 {
                    assert(p[i].0 == k);
                }
            }
            if has_key(p, k) {
                let i = choose|i: int| 0 <= i < p.len() && p[i].0 == k;
                assert(s[i].0 == k);
            }
        }
        assert forall|i: int| 0 <= i < s.len() implies entries_map(s).contains_key(#[trigger] s[i].0)
            && entries_map(s)[s[i].0] == s[i].1 by {
            if i < s.len() - 1 {
                assert(p[i] == s[i]);
                assert(entries_map(p)[p[i].0] == p[i].1);
                assert(key_lt(s[i].0, s[s.len() - 1].0));
                lemma_key_lt_irreflexive(s[i].0);
            }
        }
    }
}

/// Growing a prefix of a sequence without repeated keys by one entry adds a new key to its map.
pub proof fn lemma_entries_map_prefix<W>(s: Seq<(Seq<char>, W)>, i: int)
    requires
        keys_increasing(s),
        0 <= i < s.len(),
    ensures
        entries_map(s.take(i + 1)) == entries_map(s.take(i)).insert(s[i].0, s[i].1),
        !entries_map(s.take(i)).contains_key(s[i].0),
{
    let p = s.take(i);
    assert(s.take(i + 1).drop_last() == p);
    assert(keys_increasing(p)) by {
        assert forall|a: int, b: int| 0 <= a < b < p.len() implies key_lt(
            #[trigger] p[a].0,
            #[trigger] p[b].0,
        ) by {
            assert(p[a] == s[a] && p[b] == s[b]);
        }
    }
    lemma_entries_map(p);
    if has_key(p, s[i].0) {
        let j = choose|j: int| 0 <= j < p.len() && p[j].0 == s[i].0;
        assert(key_lt(s[j].0, s[i].0));
        lemma_key_lt_irreflexive(s[i].0);
    }
}

proof fn lemma_keys_increasing_prefix<W>(s: Seq<(Seq<char>, W)>)
    requires
        keys_increasing(s),
        s.len() > 0,
    ensures
        keys_increasing(s.drop_last()),
{
    let p = s.drop_last();
    assert forall|a: int, b: int| 0 <= a < b < p.len() implies key_lt(
        #[trigger] p[a].0,
        #[trigger] p[b].0,
    ) by {
        assert(p[a] == s[a] && p[b] == s[b]);
    }
}

/// Two sequences of entries in increasing key order that denote the same map are the same:
/// the order of the entries follows from the contents alone.
pub proof fn lemma_entries_canonical<W>(s: Seq<(Seq<char>, W)>, t: Seq<(Seq<char>, W)>)
    requires
        keys_increasing(s),
        keys_increasing(t),
        entries_map(s) == entries_map(t),
    ensures
        s == t,
    decreases s.len(),
{
    lemma_entries_map(s);
    lemma_entries_map(t);
    if s.len() == 0 {
        assert(t.len() == 0);
        assert(s =~= t);
    } else {
        let n = s.len() - 1;
        let m = t.len() - 1;
        let ls = s[n];
        let lt = t[m];
        assert(entries_map(t).contains_key(ls.0));
        assert(has_key(t, ls.0));
        let j = choose|j: int| 0 <= j < t.len() && t[j].0 == ls.0;
        assert(entries_map(s).contains_key(lt.0));
        assert(has_key(s, lt.0));
        let i = choose|i: int| 0 <= i < s.len() && s[i].0 == lt.0;
        if ls.0 != lt.0 {
            assert(j < m);
            assert(key_lt(t[j].0, t[m].0));
            assert(i < n);
            assert(key_lt(s[i].0, s[n].0));
            lemma_key_lt_asymmetric(ls.0, lt.0);
        }
        assert(ls.1 == entries_map(s)[ls.0]);
        assert(lt.1 == entries_map(t)[lt.0]);
        assert(ls == lt);
        let ps = s.drop_last();
        let pt = t.drop_last();
        lemma_keys_increasing_prefix(s);
        lemma_keys_increasing_prefix(t);
        lemma_entries_map(ps);
        lemma_entries_map(pt);
        assert(!entries_map(ps).contains_key(ls.0)) by {
            if has_key(ps, ls.0) {
                let k = choose|k: int| 0 <= k < ps.len() && ps[k].0 == ls.0;
                assert(key_lt(s[k].0, s[n].0));
                lemma_key_lt_irreflexive(ls.0);
            }
        }
        assert(!entries_map(pt).contains_key(lt.0)) by {
            if has_key(pt, lt.0) {
                let k = choose|k: int| 0 <= k < pt.len() && pt[k].0 == lt.0;
                assert(key_lt(t[k].0, t[m].0));
                lemma_key_lt_irreflexive(lt.0);
            }
        }
        assert(entries_map(ps) =~= entries_map(s).remove(ls.0));
        assert(entries_map(pt) =~= entries_map(t).remove(lt.0));
        lemma_entries_canonical(ps, pt);
        assert(s =~= ps.push(ls));
        assert(t =~= pt.push(lt));
    }
}

/// A string-keyed map whose entries are kept in increasing key order.
#[derive(Debug, PartialEq, Eq)]
pub struct SortedMap<V: View> {
    items: Vec<(String, V)>,
}

impl<V: View> SortedMap<V> {
    /// The entries in key order, keys and values taken by their views.
    pub closed spec fn entries(&self) -> Seq<(Seq<char>, V::V)> {
        self.items@.map_values(|e: (String, V)| (e.0@, e.1@))
    }

    #[verifier::type_invariant]
    closed spec fn inv(&self) -> bool {
        keys_increasing(self.entries())
    }

    /// The entries are in strictly increasing key order.
    pub fn check_sorted(&self)
        ensures
            keys_increasing(self.entries()),
            self@ == entries_map(self.entries()),
    {
        proof {
            use_type_invariant(self);
        }
    }

    /// An empty map.
    pub fn new() -> (r: Self)
        ensures
            r.entries() == Seq::<(Seq<char>, V::V)>::empty(),
            r@ == Map::<Seq<char>, V::V>::empty(),
    {
        let r = SortedMap { items: Vec::new() };
        proof {
            assert(r.entries() == Seq::<(Seq<char>, V::V)>::empty());
        }
        r
    }

    /// The number of entries.
    pub fn len(&self) -> (r: usize)
        ensures
            r == self.entries().len(),
    {
        self.items.len()
    }

    /// What `get` finds for `key`, taken by its view.
    pub open spec fn value_of(&self, key: Seq<char>) -> Option<V::V> {
        if self@.contains_key(key) {
            Some(self@[key])
        } else {
            None
        }
    }

    /// Whether the map holds no entry.
    pub fn is_empty(&self) -> (r: bool)
        ensures
            r == (self@ == Map::<Seq<char>, V::V>::empty()),
    {
        proof {
            use_type_invariant(self);
            let e = self.entries();
            lemma_entries_map(e);
            if e.len() > 0 {
                assert(self@.contains_key(e[0].0));
                assert(!Map::<Seq<char>, V::V>::empty().contains_key(e[0].0));
            }
        }
        self.items.len() == 0
    }

    /// The key of the `i`-th entry in key order.
    pub fn key_at(&self, i: usize) -> (r: &String)
        requires
            i < self.entries().len(),
        ensures
            r@ == self.entries()[i as int].0,
    {
        &self.items[i].0
    }

    /// The value of the `i`-th entry in key order.
    pub fn value_at(&self, i: usize) -> (r: &V)
        requires
            i < self.entries().len(),
        ensures
            r@ == self.entries()[i as int].1,
    {
        &self.items[i].1
    }

    /// The value stored for `key`, if any.
    pub fn get(&self, key: &str) -> (r: Option<&V>)
        ensures
            match r {
                Some(v) => self@.contains_key(key@) && self@[key@] == v@,
                None => !self@.contains_key(key@),
            },
            match r {
                Some(v) => self.value_of(key@) == Some(v@),
                None => self.value_of(key@) is None,
            },
    {
        proof {
            use_type_invariant(self);
            lemma_entries_map(self.entries());
        }
        let n = self.items.len();
        let mut i: usize = 0;
        while i < n
            invariant
                n == self.entries().len(),
                i <= n,
                forall|k: int| 0 <= k < i ==> self.entries()[k].0 != key@,
                keys_increasing(self.entries()),
            decreases n - i,
        {
            proof {
                lemma_entries_map(self.entries());
                assert(self.entries()[i as int] == (self.items@[i as int].0@, self.items@[i as int].1@));
            }
            if compare_keys(self.items[i].0.as_str(), key) == KeyOrder::Equal {
                proof {
                    assert(entries_map(self.entries())[self.entries()[i as int].0] == self.entries()[i as int].1);
                }
                return Some(&self.items[i].1);
            }
            i = i + 1;
        }
        proof {
            assert(!has_key(self.entries(), key@));
        }
        None
    }

    /// Whether `key` has an entry.
    pub fn contains_key(&self, key: &str) -> (r: bool)
        ensures
            r == self@.contains_key(key@),
    {
        self.get(key).is_some()
    }

    /// Stores `value` under `key`, replacing what was stored there, as `BTreeMap::insert` does.
    pub fn insert(&mut self, key: String, value: V)
        ensures
            final(self)@ == old(self)@.insert(key@, value@),
    {
        proof {
            use_type_invariant(&*self);
        }
        let ghost old_entries = self.entries();
        let n = self.items.len();
        let mut i: usize = 0;
        while i < n && compare_keys(self.items[i].0.as_str(), key.as_str()) == KeyOrder::Less
            invariant
                n == self.entries().len(),
                self.entries() == old_entries,
                i <= n,
                forall|k: int| 0 <= k < i ==> key_lt(#[trigger] old_entries[k].0, key@),
            decreases n - i,
        {
            i = i + 1;
        }
        let ghost e = (key@, value@);
        if i < n && compare_keys(self.items[i].0.as_str(), key.as_str()) == KeyOrder::Equal {
            let mut items = Vec::new();
            std::mem::swap(&mut items, &mut self.items);
            items.set(i, (key, value));
            proof {
                let s = items@.map_values(|e: (String, V)| (e.0@, e.1@));
                assert(s == old_entries.update(i as int, e));
                lemma_update_sorted(old_entries, i as int, e);
            }
            self.items = items;
        } else {
            let mut items = Vec::new();
            std::mem::swap(&mut items, &mut self.items);
            items.insert(i, (key, value));
            proof {
                let s = items@.map_values(|e: (String, V)| (e.0@, e.1@));
                assert(s == old_entries.insert(i as int, e));
                lemma_insert_sorted(old_entries, i as int, e);
            }
            self.items = items;
        }
        proof {
            lemma_entries_map(old_entries);
            lemma_entries_map(self.entries());
            assert(self@ == old(self)@.insert(key@, value@));
        }
    }
}

/// Maps with the same contents list their entries in the same order, as a `BTreeMap` does:
/// what iterates over a map depends on its contents alone.
pub proof fn law_entries_follow_contents<V: View>(a: SortedMap<V>, b: SortedMap<V>)
    requires
        keys_increasing(a.entries()),
        keys_increasing(b.entries()),
        a@ == b@,
    ensures
        a.entries() == b.entries(),
{
    lemma_entries_canonical(a.entries(), b.entries());
}

/// Reading a key after storing it gives the stored value, and every other key reads as it did
/// before: `after` is `before` once `insert(key, value)` has run (the relation that `insert`
/// ensures), and `value_of` is what `get` returns.
pub proof fn law_read_after_insert<V: View>(
    before: SortedMap<V>,
    after: SortedMap<V>,
    key: Seq<char>,
    value: V,
    other: Seq<char>,
)
    requires
        after@ == before@.insert(key, value@),
    ensures
        after.value_of(key) == Some(value@),
        other != key ==> after.value_of(other) == before.value_of(other),
{
}

impl<V: View> View for SortedMap<V> {
    type V = Map<Seq<char>, V::V>;

    closed spec fn view(&self) -> Map<Seq<char>, V::V> {
        entries_map(self.entries())
    }
}

impl Clone for SortedMap<String> {
    /// A copy with the same entries.
    fn clone(&self) -> (r: Self)
        ensures
            r.entries() == self.entries(),
            r@ == self@,
    {
        proof {
            use_type_invariant(self);
        }
        let mut items: Vec<(String, String)> = Vec::new();
        let mut i: usize = 0;
        while i < self.items.len()
            invariant
                i <= self.items@.len(),
                items@.len() == i,
                forall|j: int|
                    0 <= j < i ==> (#[trigger] items@[j]).0@ == self.items@[j].0@ && items@[j].1@
                        == self.items@[j].1@,
            decreases self.items@.len() - i,
        {
            let k = self.items[i].0.clone();
            let v = self.items[i].1.clone();
            items.push((k, v));
            i = i + 1;
        }
        let ghost copied = (SortedMap::<String> { items: items }).entries();
        assert(copied =~= self.entries());
        SortedMap { items }
    }
}

impl Clone for SortedMap<u64> {
    /// A copy with the same entries.
    fn clone(&self) -> (r: Self)
        ensures
            r.entries() == self.entries(),
            r@ == self@,
    {
        proof {
            use_type_invariant(self);
        }
        let mut items: Vec<(String, u64)> = Vec::new();
        let mut i: usize = 0;
        while i < self.items.len()
            invariant
                i <= self.items@.len(),
                items@.len() == i,
                forall|j: int|
                    0 <= j < i ==> (#[trigger] items@[j]).0@ == self.items@[j].0@ && items@[j].1
                        == self.items@[j].1,
            decreases self.items@.len() - i,
        {
            let k = self.items[i].0.clone();
            let v = self.items[i].1;
            items.push((k, v));
            i = i + 1;
        }
        let ghost copied = (SortedMap::<u64> { items: items }).entries();
        assert(copied =~= self.entries());
        SortedMap { items }
    }
}

proof fn lemma_update_sorted<W>(s: Seq<(Seq<char>, W)>, i: int, e: (Seq<char>, W))
    requires
        keys_increasing(s),
        0 <= i < s.len(),
        s[i].0 == e.0,
    ensures
        keys_increasing(s.update(i, e)),
        entries_map(s.update(i, e)) == entries_map(s).insert(e.0, e.1),
{
    let t = s.update(i, e);
    assert forall|a: int, b: int| 0 <= a < b < t.len() implies key_lt(
        #[trigger] t[a].0,
        #[trigger] t[b].0,
    ) by {
        assert(key_lt(s[a].0, s[b].0));
    }
    lemma_entries_map(s);
    lemma_entries_map(t);
    assert forall|k: Seq<char>| #[trigger] entries_map(t).contains_key(k) == entries_map(s).insert(
        e.0,
        e.1,
    ).contains_key(k) by {
        if has_key(t, k) {
            let j = choose|j: int| 0 <= j < t.len() && t[j].0 == k;
            assert(s[j].0 == k);
        }
        if has_key(s, k) {
            let j = choose|j: int| 0 <= j < s.len() && s[j].0 == k;
            assert(t[j].0 == k);
        }
    }
    assert forall|k: Seq<char>| #[trigger] entries_map(t).contains_key(k) implies entries_map(t)[k]
        == entries_map(s).insert(e.0, e.1)[k] by {
        assert(has_key(t, k));
        let j = choose|j: int| 0 <= j < t.len() && t[j].0 == k;
        assert(entries_map(t)[t[j].0] == t[j].1);
        if j != i {
            assert(t[j] == s[j]);
            assert(entries_map(s)[s[j].0] == s[j].1);
            lemma_key_lt_irreflexive(s[j].0);
            if j < i {
                assert(key_lt(s[j].0, s[i].0));
            } else {
                assert(key_lt(s[i].0, s[j].0));
            }
        }
    }
    assert(entries_map(t) == entries_map(s).insert(e.0, e.1));
}

proof fn lemma_insert_sorted<W>(s: Seq<(Seq<char>, W)>, i: int, e: (Seq<char>, W))
    requires
        keys_increasing(s),
        0 <= i <= s.len(),
        forall|k: int| 0 <= k < i ==> key_lt(#[trigger] s[k].0, e.0),
        i < s.len() ==> key_lt(e.0, s[i].0),
    ensures
        keys_increasing(s.insert(i, e)),
        entries_map(s.insert(i, e)) == entries_map(s).insert(e.0, e.1),
{
    let t = s.insert(i, e);
    assert forall|k: int| i <= k < s.len() implies key_lt(e.0, #[trigger] s[k].0) by {
        if k > i {
            lemma_key_lt_transitive(e.0, s[i].0, s[k].0);
        }
    }
    assert forall|a: int, b: int| 0 <= a < b < t.len() implies key_lt(
        #[trigger] t[a].0,
        #[trigger] t[b].0,
    ) by {
        if b < i {
            assert(key_lt(s[a].0, s[b].0));
        } else if b == i {
            assert(key_lt(s[a].0, e.0));
        } else if a < i {
            assert(t[b] == s[b - 1]);
            lemma_key_lt_transitive(s[a].0, e.0, s[b - 1].0);
        } else if a == i {
            assert(t[b] == s[b - 1]);
        } else {
            assert(key_lt(s[a - 1].0, s[b - 1].0));
        }
    }
    lemma_entries_map(s);
    lemma_entries_map(t);
    assert(!has_key(s, e.0)) by {
        if has_key(s, e.0) {
            let j = choose|j: int| 0 <= j < s.len() && s[j].0 == e.0;
            lemma_key_lt_irreflexive(e.0);
            if j < i {
                assert(key_lt(s[j].0, e.0));
            } else {
                assert(key_lt(e.0, s[j].0));
            }
        }
    }
    assert forall|k: Seq<char>| #[trigger] entries_map(t).contains_key(k) == entries_map(s).insert(
        e.0,
        e.1,
    ).contains_key(k) by {
        if has_key(t, k) {
            let j = choose|j: int| 0 <= j < t.len() && t[j].0 == k;
            if j < i {
                assert(s[j].0 == k);
            } else if j > i {
                assert(s[j - 1].0 == k);
            }
        }
        if has_key(s, k) {
            let j = choose|j: int| 0 <= j < s.len() && s[j].0 == k;
            if j < i {
                assert(t[j].0 == k);
            } else {
                assert(t[j + 1].0 == k);
            }
        }
        assert(t[i].0 == e.0);
    }
    assert forall|k: Seq<char>| #[trigger] entries_map(t).contains_key(k) implies entries_map(t)[k]
        == entries_map(s).insert(e.0, e.1)[k] by {
        assert(has_key(t, k));
        let j = choose|j: int| 0 <= j < t.len() && t[j].0 == k;
        assert(entries_map(t)[t[j].0] == t[j].1);
        if j < i {
            assert(entries_map(s)[s[j].0] == s[j].1);
        } else if j > i {
            assert(t[j] == s[j - 1]);
            assert(entries_map(s)[s[j - 1].0] == s[j - 1].1);
        }
    }
    assert(entries_map(t) == entries_map(s).insert(e.0, e.1));
}

} // verus!
