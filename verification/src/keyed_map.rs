//! A map from string keys to values, kept as a list of entries in which each key occurs once.
use vstd::prelude::*;
use crate::text::{str_equals, str_less, chars_lt, lemma_chars_lt_irreflexive, lemma_chars_lt_transitive, lemma_chars_lt_total};

verus! {

/// The map that a list of (key, value) entries stands for; a later entry overrides an earlier
/// one with the same key.
pub open spec fn entries_map<V>(ps: Seq<(Seq<char>, V)>) -> Map<Seq<char>, V>
    decreases ps.len(),
{
    if ps.len() == 0 {
        Map::empty()
    } else {
        entries_map(ps.drop_last()).insert(ps.last().0, ps.last().1)
    }
}

/// No key occurs twice among the entries.
pub open spec fn keys_distinct<V>(ps: Seq<(Seq<char>, V)>) -> bool {
    forall|i: int, j: int| 0 <= i < j < ps.len() ==> (#[trigger] ps[i]).0 != (#[trigger] ps[j]).0
}

proof fn lemma_entries_map_dom<V>(ps: Seq<(Seq<char>, V)>, k: Seq<char>)
    ensures
        entries_map(ps).dom().contains(k) <==> exists|i: int| 0 <= i < ps.len() && (#[trigger] ps[i]).0 == k,
    decreases ps.len(),
{
    if ps.len() > 0 {
        let q = ps.drop_last();
        lemma_entries_map_dom(q, k);
        if entries_map(ps).dom().contains(k) {
            if k == ps.last().0 {
                assert(ps[ps.len() - 1].0 == k);
            } else {
                let i = choose|i: int| 0 <= i < q.len() && (#[trigger] q[i]).0 == k;
                assert(ps[i] == q[i]);
            }
        }
        if exists|i: int| 0 <= i < ps.len() && (#[trigger] ps[i]).0 == k {
            let i = choose|i: int| 0 <= i < ps.len() && (#[trigger] ps[i]).0 == k;
            if i < ps.len() - 1 {
                assert(q[i] == ps[i]);
            }
        }
    }
}

proof fn lemma_entries_map_at<V>(ps: Seq<(Seq<char>, V)>, i: int)
    requires
        keys_distinct(ps),
        0 <= i < ps.len(),
    ensures
        entries_map(ps).dom().contains(ps[i].0),
        entries_map(ps)[ps[i].0] == ps[i].1,
    decreases ps.len(),
{
    let q = ps.drop_last();
    if i < ps.len() - 1 {
        assert(q[i] == ps[i]);
        assert(ps[i].0 != ps[ps.len() - 1].0);
        lemma_entries_map_at(q, i);
    }
}

proof fn lemma_entries_map_len<V>(ps: Seq<(Seq<char>, V)>)
    requires
        keys_distinct(ps),
    ensures
        entries_map(ps).dom().finite(),
        entries_map(ps).dom().len() == ps.len(),
    decreases ps.len(),
{
    if ps.len() > 0 {
        let q = ps.drop_last();
        lemma_entries_map_len(q);
        lemma_entries_map_dom(q, ps.last().0);
        if entries_map(q).dom().contains(ps.last().0) {
            let i = choose|i: int| 0 <= i < q.len() && (#[trigger] q[i]).0 == ps.last().0;
            assert(ps[i] == q[i]);
            assert(ps[i].0 != ps[ps.len() - 1].0);
        }
    }
}

/// Replacing the value of the entry at `i` replaces the value of its key in the map.
proof fn lemma_entries_map_update<V>(ps: Seq<(Seq<char>, V)>, i: int, v: V)
    requires
        keys_distinct(ps),
        0 <= i < ps.len(),
    ensures
        keys_distinct(ps.update(i, (ps[i].0, v))),
        entries_map(ps.update(i, (ps[i].0, v))) == entries_map(ps).insert(ps[i].0, v),
{
    let k = ps[i].0;
    let qs = ps.update(i, (k, v));
    assert forall|a: int, b: int| 0 <= a < b < qs.len() implies (#[trigger] qs[a]).0 != (#[trigger] qs[b]).0 by {
        assert(ps[a].0 != ps[b].0);
    }
    let m = entries_map(qs);
    let n = entries_map(ps).insert(k, v);
    assert forall|key: Seq<char>| m.dom().contains(key) <==> n.dom().contains(key) by {
        lemma_entries_map_dom(qs, key);
        lemma_entries_map_dom(ps, key);
        if exists|j: int| 0 <= j < ps.len() && (#[trigger] ps[j]).0 == key {
            let j = choose|j: int| 0 <= j < ps.len() && (#[trigger] ps[j]).0 == key;
            assert(qs[j].0 == key);
        }
        if exists|j: int| 0 <= j < qs.len() && (#[trigger] qs[j]).0 == key {
            let j = choose|j: int| 0 <= j < qs.len() && (#[trigger] qs[j]).0 == key;
            assert(ps[j].0 == key);
        }
    }
    assert forall|key: Seq<char>| m.dom().contains(key) implies m[key] == n[key] by {
        lemma_entries_map_dom(qs, key);
        let j = choose|j: int| 0 <= j < qs.len() && (#[trigger] qs[j]).0 == key;
        lemma_entries_map_at(qs, j);
        if j != i {
            lemma_entries_map_at(ps, j);
        }
    }
    assert(m =~= n);
}

/// Removing the entry at `i` removes its key from the map.
proof fn lemma_entries_map_remove<V>(ps: Seq<(Seq<char>, V)>, i: int)
    requires
        keys_distinct(ps),
        0 <= i < ps.len(),
    ensures
        keys_distinct(ps.remove(i)),
        entries_map(ps.remove(i)) == entries_map(ps).remove(ps[i].0),
{
    let k = ps[i].0;
    let qs = ps.remove(i);
    assert forall|a: int, b: int| 0 <= a < b < qs.len() implies (#[trigger] qs[a]).0 != (#[trigger] qs[b]).0 by {
        let a0 = if a < i { a } else { a + 1 };
        let b0 = if b < i { b } else { b + 1 };
        assert(qs[a] == ps[a0]);
        assert(qs[b] == ps[b0]);
        assert(ps[a0].0 != ps[b0].0);
    }
    let m = entries_map(qs);
    let n = entries_map(ps).remove(k);
    assert forall|key: Seq<char>| m.dom().contains(key) <==> n.dom().contains(key) by {
        lemma_entries_map_dom(qs, key);
        lemma_entries_map_dom(ps, key);
        if exists|j: int| 0 <= j < ps.len() && (#[trigger] ps[j]).0 == key {
            let j = choose|j: int| 0 <= j < ps.len() && (#[trigger] ps[j]).0 == key;
            if key != k {
                assert(j != i);
                if j < i {
                    assert(qs[j] == ps[j]);
                } else {
                    assert(qs[j - 1] == ps[j]);
                }
            }
        }
        if exists|j: int| 0 <= j < qs.len() && (#[trigger] qs[j]).0 == key {
            let j = choose|j: int| 0 <= j < qs.len() && (#[trigger] qs[j]).0 == key;
            let j0 = if j < i { j } else { j + 1 };
            assert(qs[j] == ps[j0]);
            assert(ps[j0].0 != ps[i].0);
        }
    }
    assert forall|key: Seq<char>| m.dom().contains(key) implies m[key] == n[key] by {
        lemma_entries_map_dom(qs, key);
        let j = choose|j: int| 0 <= j < qs.len() && (#[trigger] qs[j]).0 == key;
        let j0 = if j < i { j } else { j + 1 };
        assert(qs[j] == ps[j0]);
        lemma_entries_map_at(qs, j);
        lemma_entries_map_at(ps, j0);
    }
    assert(m =~= n);
}

/// Going through the entries in order: the map of the first `i + 1` entries is that of the
/// first `i` with entry `i` put in, and with distinct keys, entry `i`'s key is new there.
pub proof fn lemma_entries_prefix<V>(ps: Seq<(Seq<char>, V)>, i: int)
    requires
        0 <= i < ps.len(),
    ensures
        entries_map(ps.take(i + 1)) == entries_map(ps.take(i)).insert(ps[i].0, ps[i].1),
        keys_distinct(ps) ==> !entries_map(ps.take(i)).dom().contains(ps[i].0),
        entries_map(ps.take(ps.len() as int)) == entries_map(ps),
{
    assert(ps.take(i + 1).drop_last() =~= ps.take(i));
    assert(ps.take(ps.len() as int) =~= ps);
    lemma_entries_map_dom(ps.take(i), ps[i].0);
    if keys_distinct(ps) && entries_map(ps.take(i)).dom().contains(ps[i].0) {
        let j = choose|j: int| 0 <= j < ps.take(i).len() && (#[trigger] ps.take(i)[j]).0 == ps[i].0;
        assert(ps.take(i)[j] == ps[j]);
        assert(ps[j].0 != ps[i].0);
    }
}

/// Each key comes before the next, in the order of their characters.
pub open spec fn strictly_ascending(q: Seq<Seq<char>>) -> bool {
    forall|i: int, j: int| 0 <= i < j < q.len() ==> chars_lt(#[trigger] q[i], #[trigger] q[j])
}

/// The keys of a finite set in ascending order.
pub open spec fn sorted_keys(s: Set<Seq<char>>) -> Seq<Seq<char>> {
    choose|q: Seq<Seq<char>>| q.to_set() == s && strictly_ascending(q)
}

/// Only one ascending sequence holds a given set of keys.
pub proof fn lemma_ascending_unique(a: Seq<Seq<char>>, b: Seq<Seq<char>>)
    requires
        strictly_ascending(a),
        strictly_ascending(b),
        a.to_set() == b.to_set(),
    ensures
        a == b,
    decreases a.len(),
{
    if a.len() == 0 {
        if b.len() > 0 {
            assert(a.to_set().contains(b[0]));
        }
        assert(a =~= b);
    } else {
        assert(b.to_set().contains(a[0]));
        assert(b.len() > 0);
        assert(a.to_set().contains(b[0]));
        let j = choose|j: int| 0 <= j < b.len() && b[j] == a[0];
        let i = choose|i: int| 0 <= i < a.len() && a[i] == b[0];
        if j > 0 {
            assert(chars_lt(b[0], b[j]));
            if i > 0 {
                assert(chars_lt(a[0], a[i]));
                lemma_chars_lt_total(a[0], b[0]);
            } else {
                lemma_chars_lt_irreflexive(a[0]);
            }
        }
        assert(a[0] == b[0]);
        let ta = a.drop_first();
        let tb = b.drop_first();
        assert forall|k: Seq<char>| ta.to_set().contains(k) <==> tb.to_set().contains(k) by {
            if ta.to_set().contains(k) {
                let x = choose|x: int| 0 <= x < ta.len() && ta[x] == k;
                assert(a[x + 1] == k);
                assert(chars_lt(a[0], k));
                lemma_chars_lt_irreflexive(k);
                assert(b.to_set().contains(k));
                let y = choose|y: int| 0 <= y < b.len() && b[y] == k;
                assert(y != 0);
                assert(tb[y - 1] == k);
            }
            if tb.to_set().contains(k) {
                let y = choose|y: int| 0 <= y < tb.len() && tb[y] == k;
                assert(b[y + 1] == k);
                assert(chars_lt(b[0], k));
                lemma_chars_lt_irreflexive(k);
                assert(a.to_set().contains(k));
                let x = choose|x: int| 0 <= x < a.len() && a[x] == k;
                assert(x != 0);
                assert(ta[x - 1] == k);
            }
        }
        assert(ta.to_set() =~= tb.to_set());
        lemma_ascending_unique(ta, tb);
        assert(a =~= seq![a[0]] + ta);
        assert(b =~= seq![b[0]] + tb);
    }
}

/// Position `p` occurs in `out`.
pub open spec fn holds_position(out: Seq<usize>, p: int) -> bool {
    exists|t: int| 0 <= t < out.len() && out[t] == p
}

/// The keys of the entries at positions `out`.
pub open spec fn keys_at<V>(ps: Seq<(Seq<char>, V)>, out: Seq<usize>) -> Seq<Seq<char>> {
    out.map_values(|p: usize| ps[p as int].0)
}

/// A map from string keys to values.
#[derive(Debug)]
pub struct KeyedMap<V> {
    entries: Vec<(String, V)>,
}

impl<V> View for KeyedMap<V> {
    type V = Map<Seq<char>, V>;

    closed spec fn view(&self) -> Map<Seq<char>, V> {
        entries_map(self.pairs())
    }
}

impl<V> KeyedMap<V> {
    /// The entries, in the order in which their keys were first inserted.
    pub closed spec fn pairs(&self) -> Seq<(Seq<char>, V)> {
        self.entries@.map_values(|e: (String, V)| (e.0@, e.1))
    }

    #[verifier::type_invariant]
    closed spec fn distinct(self) -> bool {
        keys_distinct(self.pairs())
    }

    /// What the entries say of the map: each key occurs once, each entry is in the map, and
    /// the map has no other key.
    pub open spec fn entries_agree(&self) -> bool {
        &&& keys_distinct(self.pairs())
        &&& self@ == entries_map(self.pairs())
        &&& self@.dom().finite()
        &&& self@.len() == self.pairs().len()
        &&& forall|i: int| 0 <= i < self.pairs().len() ==> {
            &&& self@.dom().contains((#[trigger] self.pairs()[i]).0)
            &&& self@[self.pairs()[i].0] == self.pairs()[i].1
        }
        &&& forall|k: Seq<char>| #[trigger] self@.dom().contains(k) ==> exists|i: int|
            0 <= i < self.pairs().len() && (#[trigger] self.pairs()[i]).0 == k
    }

    proof fn lemma_agree(&self)
        requires
            keys_distinct(self.pairs()),
        ensures
            self.entries_agree(),
    {
        lemma_entries_map_len(self.pairs());
        assert forall|i: int| 0 <= i < self.pairs().len() implies {
            &&& self@.dom().contains((#[trigger] self.pairs()[i]).0)
            &&& self@[self.pairs()[i].0] == self.pairs()[i].1
        } by {
            lemma_entries_map_at(self.pairs(), i);
        }
        assert forall|k: Seq<char>| #[trigger] self@.dom().contains(k) implies exists|i: int|
            0 <= i < self.pairs().len() && (#[trigger] self.pairs()[i]).0 == k by {
            lemma_entries_map_dom(self.pairs(), k);
        }
    }

    /// An empty map.
    pub fn new() -> (m: Self)
        ensures
            m@ == Map::<Seq<char>, V>::empty(),
            m.pairs().len() == 0,
    {
        let m = KeyedMap { entries: Vec::new() };
        assert(m.pairs() =~= Seq::<(Seq<char>, V)>::empty());
        m
    }

    /// The number of keys; with it, what the entries say of the map.
    pub fn len(&self) -> (n: usize)
        ensures
            n == self@.len(),
            n == self.pairs().len(),
            self.entries_agree(),
    {
        proof {
            use_type_invariant(self);
            self.lemma_agree();
        }
        self.entries.len()
    }

    /// The key of the entry at `i`.
    pub fn key_at(&self, i: usize) -> (k: &String)
        requires
            i < self.pairs().len(),
        ensures
            k@ == self.pairs()[i as int].0,
    {
        &self.entries[i].0
    }

    /// The value of the entry at `i`.
    pub fn value_at(&self, i: usize) -> (v: &V)
        requires
            i < self.pairs().len(),
        ensures
            *v == self.pairs()[i as int].1,
    {
        &self.entries[i].1
    }

    fn find(&self, key: &str) -> (r: Option<usize>)
        ensures
            match r {
                Some(i) => i < self.pairs().len() && self.pairs()[i as int].0 == key@,
                None => forall|i: int| 0 <= i < self.pairs().len() ==> (#[trigger] self.pairs()[i]).0 != key@,
            },
    {
        let mut i: usize = 0;
        while i < self.entries.len()
            invariant
                i <= self.pairs().len(),
                self.pairs().len() == self.entries@.len(),
                forall|j: int| 0 <= j < i ==> (#[trigger] self.pairs()[j]).0 != key@,
            decreases self.entries.len() - i,
        {
            if str_equals(self.entries[i].0.as_str(), key) {
                return Some(i);
            }
            i = i + 1;
        }
        None
    }

    /// The positions of the entries in the ascending order of their keys.
    pub fn positions_by_key(&self) -> (r: Vec<usize>)
        ensures
            r@.len() == self.pairs().len(),
            forall|i: int| 0 <= i < r@.len() ==> (#[trigger] r@[i]) < self.pairs().len(),
            keys_at(self.pairs(), r@) == sorted_keys(self@.dom()),
            strictly_ascending(sorted_keys(self@.dom())),
            sorted_keys(self@.dom()).to_set() == self@.dom(),
    {
        let n = self.len();
        let ghost ps = self.pairs();
        let mut out: Vec<usize> = Vec::new();
        let mut i: usize = 0;
        while i < n
            invariant
                n == ps.len(),
                ps == self.pairs(),
                self.entries_agree(),
                i <= n,
                out@.len() == i,
                forall|t: int| 0 <= t < out@.len() ==> (#[trigger] out@[t]) < i,
                forall|p: int| 0 <= p < i ==> #[trigger] holds_position(out@, p),
                strictly_ascending(keys_at(ps, out@)),
            decreases n - i,
        {
            let ghost before = out@;
            let ghost ki = ps[i as int].0;
            let mut j: usize = 0;
            while j < out.len() && !str_less(self.entries[i].0.as_str(), self.entries[out[j]].0.as_str())
                invariant
                    n == ps.len(),
                    ps == self.pairs(),
                    ps.len() == self.entries@.len(),
                    i < n,
                    ki == ps[i as int].0,
                    out@ == before,
                    j <= out@.len(),
                    forall|t: int| 0 <= t < out@.len() ==> (#[trigger] out@[t]) < i,
                    forall|t: int| 0 <= t < j ==> !chars_lt(ki, (#[trigger] keys_at(ps, out@)[t])),
                decreases out.len() - j,
            {
                proof {
                    assert(ki == self.entries@[i as int].0@);
                    assert(keys_at(ps, out@)[j as int] == self.entries@[out@[j as int] as int].0@);
                }
                j = j + 1;
            }
            out.insert(j, i);
            proof {
                let kb = keys_at(ps, before);
                let ka = keys_at(ps, out@);
                assert(out@ =~= before.take(j as int).push(i) + before.skip(j as int));
                assert forall|t: int| 0 <= t < j implies chars_lt(#[trigger] kb[t], ki) by {
                    assert(ps[before[t] as int].0 != ki) by {
                        assert(before[t] < i);
                    }
                    lemma_chars_lt_total(kb[t], ki);
                }
                assert forall|t: int| j <= t < kb.len() implies chars_lt(ki, #[trigger] kb[t]) by {
                    if t > j {
                        assert(chars_lt(kb[j as int], kb[t]));
                        lemma_chars_lt_transitive(ki, kb[j as int], kb[t]);
                    }
                }
                assert forall|a: int, b: int| 0 <= a < b < ka.len() implies chars_lt(#[trigger] ka[a], #[trigger] ka[b]) by {
                    if a < j && b < j {
                        assert(ka[a] == kb[a] && ka[b] == kb[b]);
                    } else if a < j && b == j {
                        assert(ka[a] == kb[a] && ka[b] == ki);
                    } else if a < j {
                        assert(ka[a] == kb[a] && ka[b] == kb[b - 1]);
                        lemma_chars_lt_transitive(kb[a], ki, kb[b - 1]);
                    } else if a == j {
                        assert(ka[a] == ki && ka[b] == kb[b - 1]);
                    } else {
                        assert(ka[a] == kb[a - 1] && ka[b] == kb[b - 1]);
                    }
                }
                assert forall|p: int| 0 <= p < i + 1 implies #[trigger] holds_position(out@, p) by {
                    if p == i {
                        assert(out@[j as int] == p);
                    } else {
                        assert(holds_position(before, p));
                        let t = choose|t: int| 0 <= t < before.len() && before[t] == p;
                        if t < j {
                            assert(out@[t] == p);
                        } else {
                            assert(out@[t + 1] == p);
                        }
                    }
                }
                assert forall|t: int| 0 <= t < out@.len() implies (#[trigger] out@[t]) < i + 1 by {
                    if t < j {
                        assert(out@[t] == before[t]);
                    } else if t > j {
                        assert(out@[t] == before[t - 1]);
                    }
                }
            }
            i = i + 1;
        }
        proof {
            let ko = keys_at(ps, out@);
            assert forall|k: Seq<char>| ko.to_set().contains(k) <==> self@.dom().contains(k) by {
                if ko.to_set().contains(k) {
                    let t = choose|t: int| 0 <= t < ko.len() && ko[t] == k;
                    assert(self@.dom().contains(ps[out@[t] as int].0));
                }
                if self@.dom().contains(k) {
                    let p = choose|p: int| 0 <= p < ps.len() && (#[trigger] ps[p]).0 == k;
                    assert(holds_position(out@, p));
                    let t = choose|t: int| 0 <= t < out@.len() && out@[t] == p;
                    assert(ko[t] == k);
                }
            }
            assert(ko.to_set() =~= self@.dom());
            lemma_ascending_unique(ko, sorted_keys(self@.dom()));
        }
        out
    }

    /// Whether the map has `key`.
    pub fn contains_key(&self, key: &str) -> (r: bool)
        ensures
            r == self@.dom().contains(key@),
    {
        proof { use_type_invariant(self); self.lemma_agree(); }
        self.find(key).is_some()
    }

    /// The value of `key`, if the map has it.
    pub fn get(&self, key: &str) -> (r: Option<&V>)
        ensures
            match r {
                Some(v) => self@.dom().contains(key@) && *v == self@[key@],
                None => !self@.dom().contains(key@),
            },
    {
        proof { use_type_invariant(self); self.lemma_agree(); }
        match self.find(key) {
            Some(i) => Some(&self.entries[i].1),
            None => None,
        }
    }

    /// Sets the value of `key`; a new key goes after the others.
    pub fn insert(&mut self, key: String, value: V)
        ensures
            final(self)@ == old(self)@.insert(key@, value),
    {
        proof { use_type_invariant(&*self); }
        let ghost ps = self.pairs();
        let found = self.find(key.as_str());
        let mut entries = Vec::new();
        std::mem::swap(&mut entries, &mut self.entries);
        assert(entries@.map_values(|e: (String, V)| (e.0@, e.1)) == ps);
        match found {
            Some(i) => {
                let ghost k = key@;
                entries.set(i, (key, value));
                proof {
                    lemma_entries_map_update(ps, i as int, value);
                    assert(entries@.map_values(|e: (String, V)| (e.0@, e.1)) =~= ps.update(i as int, (ps[i as int].0, value)));
                }
            },
            None => {
                let ghost k = key@;
                entries.push((key, value));
                proof {
                    let qs = entries@.map_values(|e: (String, V)| (e.0@, e.1));
                    assert(qs =~= ps.push((k, value)));
                    assert(qs.drop_last() =~= ps);
                    assert forall|a: int, b: int| 0 <= a < b < qs.len() implies (#[trigger] qs[a]).0 != (#[trigger] qs[b]).0 by {
                        if b == qs.len() - 1 {
                            assert(qs[a] == ps[a]);
                        } else {
                            assert(qs[a] == ps[a]);
                            assert(qs[b] == ps[b]);
                        }
                    }
                }
            },
        }
        self.entries = entries;
    }

    /// Takes `key` out of the map, with its value if it had one.
    pub fn remove(&mut self, key: &str) -> (r: Option<V>)
        ensures
            final(self)@ == old(self)@.remove(key@),
            match r {
                Some(v) => old(self)@.dom().contains(key@) && v == old(self)@[key@],
                None => !old(self)@.dom().contains(key@),
            },
    {
        proof { use_type_invariant(&*self); self.lemma_agree(); }
        let ghost ps = self.pairs();
        match self.find(key) {
            Some(i) => {
                let mut entries = Vec::new();
                std::mem::swap(&mut entries, &mut self.entries);
                assert(entries@.map_values(|e: (String, V)| (e.0@, e.1)) == ps);
                let (_, v) = entries.remove(i);
                proof {
                    lemma_entries_map_remove(ps, i as int);
                    lemma_entries_map_at(ps, i as int);
                    assert(entries@.map_values(|e: (String, V)| (e.0@, e.1)) =~= ps.remove(i as int));
                }
                self.entries = entries;
                Some(v)
            },
            None => {
                assert(old(self)@.remove(key@) =~= old(self)@);
                None
            },
        }
    }
}

/// A map of strings to strings, by the characters of its values.
pub open spec fn text_view(m: Map<Seq<char>, String>) -> Map<Seq<char>, Seq<char>> {
    m.map_values(|v: String| v@)
}

impl Clone for KeyedMap<String> {
    fn clone(&self) -> (r: Self)
        ensures
            text_view(r@) == text_view(self@),
    {
        proof { use_type_invariant(self); }
        let ghost ps = self.pairs();
        let mut entries: Vec<(String, String)> = Vec::new();
        let mut i: usize = 0;
        while i < self.entries.len()
            invariant
                i <= self.entries@.len(),
                ps == self.pairs(),
                ps.len() == self.entries@.len(),
                entries@.len() == i,
                forall|j: int| 0 <= j < i ==> (#[trigger] entries@[j]).0@ == ps[j].0 && entries@[j].1@ == ps[j].1@,
            decreases self.entries.len() - i,
        {
            let k = self.entries[i].0.clone();
            let v = self.entries[i].1.clone();
            entries.push((k, v));
            i = i + 1;
        }
        let ghost qs = entries@.map_values(|e: (String, String)| (e.0@, e.1));
        assert forall|a: int, b: int| 0 <= a < b < qs.len() implies (#[trigger] qs[a]).0 != (#[trigger] qs[b]).0 by {
            assert(entries@[a].0@ == ps[a].0);
            assert(entries@[b].0@ == ps[b].0);
        }
        let r = KeyedMap { entries };
        proof {
            let m1 = text_view(r@);
            let m2 = text_view(self@);
            assert forall|k: Seq<char>| m1.dom().contains(k) <==> m2.dom().contains(k) by {
                lemma_entries_map_dom(qs, k);
                lemma_entries_map_dom(ps, k);
                if exists|j: int| 0 <= j < qs.len() && (#[trigger] qs[j]).0 == k {
                    let j = choose|j: int| 0 <= j < qs.len() && (#[trigger] qs[j]).0 == k;
                    assert(entries@[j].0@ == ps[j].0);
                }
                if exists|j: int| 0 <= j < ps.len() && (#[trigger] ps[j]).0 == k {
                    let j = choose|j: int| 0 <= j < ps.len() && (#[trigger] ps[j]).0 == k;
                    assert(entries@[j].0@ == ps[j].0);
                    assert(qs[j].0 == k);
                }
            }
            assert forall|k: Seq<char>| m1.dom().contains(k) implies m1[k] == m2[k] by {
                lemma_entries_map_dom(qs, k);
                let j = choose|j: int| 0 <= j < qs.len() && (#[trigger] qs[j]).0 == k;
                assert(entries@[j].0@ == ps[j].0);
                lemma_entries_map_at(qs, j);
                lemma_entries_map_at(ps, j);
            }
            assert(m1 =~= m2);
        }
        r
    }
}

impl Clone for KeyedMap<()> {
    fn clone(&self) -> (r: Self)
        ensures
            r@ == self@,
    {
        proof { use_type_invariant(self); }
        let ghost ps = self.pairs();
        let mut entries: Vec<(String, ())> = Vec::new();
        let mut i: usize = 0;
        while i < self.entries.len()
            invariant
                i <= self.entries@.len(),
                ps == self.pairs(),
                ps.len() == self.entries@.len(),
                entries@.len() == i,
                forall|j: int| 0 <= j < i ==> (#[trigger] entries@[j]).0@ == ps[j].0,
            decreases self.entries.len() - i,
        {
            let k = self.entries[i].0.clone();
            entries.push((k, ()));
            i = i + 1;
        }
        let ghost qs = entries@.map_values(|e: (String, ())| (e.0@, e.1));
        assert(qs =~= ps) by {
            assert forall|j: int| 0 <= j < qs.len() implies qs[j] == ps[j] by {
                assert(entries@[j].0@ == ps[j].0);
            }
        }
        KeyedMap { entries }
    }
}

} // verus!
