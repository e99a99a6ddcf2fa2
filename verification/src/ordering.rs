//! Stable orderings: the positions of a list sorted by a key, ties kept in their order.
use vstd::prelude::*;
use crate::text::{chars_lt, lemma_chars_lt_irreflexive, lemma_chars_lt_total, lemma_chars_lt_transitive, str_less};

verus! {

/// `o` lists each position below `n` exactly once.
pub open spec fn is_order(o: Seq<usize>, n: nat) -> bool {
    &&& o.len() == n
    &&& forall|k: int| 0 <= k < n ==> (#[trigger] o[k]) < n
    &&& forall|a: int, b: int| 0 <= a < b < n ==> o[a] != o[b]
    &&& forall|x: usize| x < n ==> #[trigger] o.contains(x)
}

/// Along `o`, each position comes before the later ones by `before`.
pub open spec fn ascends(o: Seq<usize>, before: spec_fn(int, int) -> bool) -> bool {
    forall|a: int, b: int| 0 <= a < b < o.len() ==> #[trigger] before(o[a] as int, o[b] as int)
}

/// `before` orders the positions below `n` strictly: never both ways.
pub open spec fn asymmetric(before: spec_fn(int, int) -> bool, n: nat) -> bool {
    forall|i: int, j: int| 0 <= i < n && 0 <= j < n && #[trigger] before(i, j) ==> !before(j, i)
}

/// Position `i` comes before `j` by key, and by position among equal keys.
pub open spec fn u64_before(keys: Seq<u64>) -> spec_fn(int, int) -> bool {
    |i: int, j: int| keys[i] < keys[j] || (keys[i] == keys[j] && i < j)
}

/// Position `i` comes before `j` by the order of their texts, and by position among equal
/// texts.
pub open spec fn text_before(keys: Seq<Seq<char>>) -> spec_fn(int, int) -> bool {
    |i: int, j: int| chars_lt(keys[i], keys[j]) || (keys[i] == keys[j] && i < j)
}

/// The positions below `n` in the order of `before`.
pub open spec fn sorted_positions(n: nat, before: spec_fn(int, int) -> bool) -> Seq<usize> {
    choose|o: Seq<usize>| is_order(o, n) && ascends(o, before)
}

/// Two orders of the same positions that both follow an asymmetric `before` are the same.
pub proof fn lemma_order_unique(o1: Seq<usize>, o2: Seq<usize>, n: nat, before: spec_fn(int, int) -> bool)
    requires
        is_order(o1, n),
        is_order(o2, n),
        ascends(o1, before),
        ascends(o2, before),
        asymmetric(before, n),
    ensures
        o1 == o2,
{
    assert forall|i: int| 0 <= i < n implies o1[i] == o2[i] by {
        lemma_order_agrees_at(o1, o2, n, before, i);
    }
    assert(o1 =~= o2);
}

proof fn lemma_order_agrees_at(o1: Seq<usize>, o2: Seq<usize>, n: nat, before: spec_fn(int, int) -> bool, i: int)
    requires
        is_order(o1, n),
        is_order(o2, n),
        ascends(o1, before),
        ascends(o2, before),
        asymmetric(before, n),
        0 <= i < n,
    ensures
        o1[i] == o2[i],
    decreases i,
{
    assert forall|j: int| 0 <= j < i implies o1[j] == o2[j] by {
        lemma_order_agrees_at(o1, o2, n, before, j);
    }
    if o1[i] != o2[i] {
        let a = o1[i];
        let b = o2[i];
        assert(b < n);
        assert(o1.contains(b));
        assert(o2.contains(a));
        let m = choose|k: int| 0 <= k < n && o1[k] == b;
        let k = choose|k: int| 0 <= k < n && o2[k] == a;
        if m < i {
            assert(o2[m] == b);
        }
        if k < i {
            assert(o1[k] == a);
        }
        assert(m > i);
        assert(k > i);
        assert(before(o1[i] as int, o1[m] as int));
        assert(before(o2[i] as int, o2[k] as int));
    }
}

/// The order that [`sorted_positions`] picks is the one an order meeting its conditions has.
pub proof fn lemma_sorted_positions(o: Seq<usize>, n: nat, before: spec_fn(int, int) -> bool)
    requires
        is_order(o, n),
        ascends(o, before),
        asymmetric(before, n),
    ensures
        sorted_positions(n, before) == o,
{
    let c = sorted_positions(n, before);
    assert(is_order(c, n) && ascends(c, before));
    lemma_order_unique(c, o, n, before);
}

proof fn lemma_text_asymmetric(keys: Seq<Seq<char>>)
    ensures
        asymmetric(text_before(keys), keys.len()),
{
    assert forall|i: int, j: int| 0 <= i < keys.len() && 0 <= j < keys.len() && #[trigger] text_before(keys)(i, j)
        implies !text_before(keys)(j, i) by {
        lemma_chars_lt_total(keys[i], keys[j]);
        lemma_chars_lt_irreflexive(keys[i]);
    }
}

/// The positions of `keys` sorted by key, equal keys in their order (a stable sort).
pub fn stable_order_u64(keys: &Vec<u64>) -> (o: Vec<usize>)
    ensures
        is_order(o@, keys@.len()),
        ascends(o@, u64_before(keys@)),
        o@ == sorted_positions(keys@.len(), u64_before(keys@)),
{
    let ghost before = u64_before(keys@);
    let mut o: Vec<usize> = Vec::new();
    let mut j: usize = 0;
    while j < keys.len()
        invariant
            j <= keys@.len(),
            before == u64_before(keys@),
            is_order(o@, j as nat),
            ascends(o@, before),
        decreases keys.len() - j,
    {
        let kj = keys[j];
        let mut p: usize = o.len();
        while p > 0 && keys[o[p - 1]] > kj
            invariant
                p <= o@.len(),
                o@.len() == j,
                j < keys@.len(),
                forall|k: int| 0 <= k < o@.len() ==> (#[trigger] o@[k]) < j,
                forall|q: int| p <= q < o@.len() ==> keys@[o@[q] as int] > kj,
            decreases p,
        {
            p = p - 1;
        }
        let ghost old_o = o@;
        o.insert(p, j);
        proof {
            let no = o@;
            assert forall|a: int, b: int| 0 <= a < b < no.len() implies #[trigger] before(no[a] as int, no[b] as int) by {
                if b < p {
                    assert(before(old_o[a] as int, old_o[b] as int));
                } else if b == p {
                    if a < p - 1 {
                        assert(before(old_o[a] as int, old_o[p - 1] as int));
                    }
                } else if a > p {
                    assert(before(old_o[a - 1] as int, old_o[b - 1] as int));
                } else if a == p {
                } else {
                    assert(before(old_o[a] as int, old_o[b - 1] as int));
                }
            }
            assert forall|x: usize| x < j + 1 implies #[trigger] no.contains(x) by {
                if x == j {
                    assert(no[p as int] == x);
                } else {
                    assert(old_o.contains(x));
                    let k = choose|k: int| 0 <= k < j && old_o[k] == x;
                    if k < p {
                        assert(no[k] == x);
                    } else {
                        assert(no[k + 1] == x);
                    }
                }
            }
            assert forall|a: int, b: int| 0 <= a < b < j + 1 implies no[a] != no[b] by {
                if a != p && b != p {
                    let a0 = if a < p { a } else { a - 1 };
                    let b0 = if b < p { b } else { b - 1 };
                    assert(no[a] == old_o[a0] && no[b] == old_o[b0]);
                } else if a == p {
                    assert(no[b] == old_o[b - 1]);
                } else {
                    assert(no[a] == old_o[a]);
                }
            }
        }
        j = j + 1;
    }
    proof {
        lemma_sorted_positions(o@, keys@.len(), before);
    }
    o
}

pub open spec fn texts(v: Seq<String>) -> Seq<Seq<char>> {
    v.map_values(|s: String| s@)
}

/// The positions of `keys` sorted by the order of their texts, equal texts in their order (a
/// stable sort).
pub fn stable_order_text(keys: &Vec<String>) -> (o: Vec<usize>)
    ensures
        is_order(o@, keys@.len()),
        ascends(o@, text_before(texts(keys@))),
        o@ == sorted_positions(keys@.len(), text_before(texts(keys@))),
{
    let ghost t = texts(keys@);
    let ghost before = text_before(t);
    let mut o: Vec<usize> = Vec::new();
    let mut j: usize = 0;
    while j < keys.len()
        invariant
            j <= keys@.len(),
            t == texts(keys@),
            t.len() == keys@.len(),
            before == text_before(t),
            is_order(o@, j as nat),
            ascends(o@, before),
        decreases keys.len() - j,
    {
        let mut p: usize = o.len();
        while p > 0 && str_less(keys[j].as_str(), keys[o[p - 1]].as_str())
            invariant
                p <= o@.len(),
                o@.len() == j,
                j < keys@.len(),
                t == texts(keys@),
                forall|k: int| 0 <= k < o@.len() ==> (#[trigger] o@[k]) < j,
                forall|q: int| p <= q < o@.len() ==> chars_lt(t[j as int], t[o@[q] as int]),
            decreases p,
        {
            p = p - 1;
        }
        let ghost old_o = o@;
        o.insert(p, j);
        proof {
            let no = o@;
            let kj = t[j as int];
            if p > 0 {
                lemma_chars_lt_total(kj, t[old_o[p - 1] as int]);
            }
            assert forall|a: int, b: int| 0 <= a < b < no.len() implies #[trigger] before(no[a] as int, no[b] as int) by {
                if b < p {
                    assert(before(old_o[a] as int, old_o[b] as int));
                } else if b == p {
                    let kp = t[old_o[p - 1] as int];
                    if a < p - 1 {
                        assert(before(old_o[a] as int, old_o[p - 1] as int));
                        let ka = t[old_o[a] as int];
                        if chars_lt(ka, kp) && chars_lt(kp, kj) {
                            lemma_chars_lt_transitive(ka, kp, kj);
                        }
                    }
                } else if a > p {
                    assert(before(old_o[a - 1] as int, old_o[b - 1] as int));
                } else if a == p {
                } else {
                    assert(before(old_o[a] as int, old_o[b - 1] as int));
                }
            }
            assert forall|x: usize| x < j + 1 implies #[trigger] no.contains(x) by {
                if x == j {
                    assert(no[p as int] == x);
                } else {
                    assert(old_o.contains(x));
                    let k = choose|k: int| 0 <= k < j && old_o[k] == x;
                    if k < p {
                        assert(no[k] == x);
                    } else {
                        assert(no[k + 1] == x);
                    }
                }
            }
            assert forall|a: int, b: int| 0 <= a < b < j + 1 implies no[a] != no[b] by {
                if a != p && b != p {
                    let a0 = if a < p { a } else { a - 1 };
                    let b0 = if b < p { b } else { b - 1 };
                    assert(no[a] == old_o[a0] && no[b] == old_o[b0]);
                } else if a == p {
                    assert(no[b] == old_o[b - 1]);
                } else {
                    assert(no[a] == old_o[a]);
                }
            }
        }
        j = j + 1;
    }
    proof {
        lemma_text_asymmetric(t);
        lemma_sorted_positions(o@, keys@.len(), before);
    }
    o
}

/// `a` comes before `b` by their first texts, then by their second texts.
pub open spec fn pair_lt(a: (Seq<char>, Seq<char>), b: (Seq<char>, Seq<char>)) -> bool {
    chars_lt(a.0, b.0) || (a.0 == b.0 && chars_lt(a.1, b.1))
}

proof fn lemma_pair_lt_order(a: (Seq<char>, Seq<char>), b: (Seq<char>, Seq<char>), c: (Seq<char>, Seq<char>))
    ensures
        !pair_lt(a, a),
        !(pair_lt(a, b) && pair_lt(b, a)),
        a != b ==> pair_lt(a, b) || pair_lt(b, a),
        pair_lt(a, b) && pair_lt(b, c) ==> pair_lt(a, c),
{
    lemma_chars_lt_irreflexive(a.0);
    lemma_chars_lt_irreflexive(a.1);
    lemma_chars_lt_total(a.0, b.0);
    lemma_chars_lt_total(a.1, b.1);
    if pair_lt(a, b) && pair_lt(b, c) {
        if chars_lt(a.0, b.0) && chars_lt(b.0, c.0) {
            lemma_chars_lt_transitive(a.0, b.0, c.0);
        }
        if a.0 == b.0 && b.0 == c.0 && chars_lt(a.1, b.1) && chars_lt(b.1, c.1) {
            lemma_chars_lt_transitive(a.1, b.1, c.1);
        }
    }
}

/// Position `i` comes before `j` by their pairs of texts, and by position among equal pairs.
pub open spec fn pair_before(keys: Seq<(Seq<char>, Seq<char>)>) -> spec_fn(int, int) -> bool {
    |i: int, j: int| pair_lt(keys[i], keys[j]) || (keys[i] == keys[j] && i < j)
}

pub open spec fn pair_texts(v: Seq<(String, String)>) -> Seq<(Seq<char>, Seq<char>)> {
    v.map_values(|p: (String, String)| (p.0@, p.1@))
}

fn pair_less(a: &(String, String), b: &(String, String)) -> (r: bool)
    ensures
        r == pair_lt((a.0@, a.1@), (b.0@, b.1@)),
{
    if str_less(a.0.as_str(), b.0.as_str()) {
        true
    } else if crate::text::str_equals(a.0.as_str(), b.0.as_str()) {
        str_less(a.1.as_str(), b.1.as_str())
    } else {
        false
    }
}

/// The positions of `keys` sorted by their pairs of texts (first texts, then second texts),
/// equal pairs in their order (a stable sort).
pub fn stable_order_pairs(keys: &Vec<(String, String)>) -> (o: Vec<usize>)
    ensures
        is_order(o@, keys@.len()),
        ascends(o@, pair_before(pair_texts(keys@))),
        o@ == sorted_positions(keys@.len(), pair_before(pair_texts(keys@))),
{
    let ghost t = pair_texts(keys@);
    let ghost before = pair_before(t);
    let mut o: Vec<usize> = Vec::new();
    let mut j: usize = 0;
    while j < keys.len()
        invariant
            j <= keys@.len(),
            t == pair_texts(keys@),
            t.len() == keys@.len(),
            before == pair_before(t),
            is_order(o@, j as nat),
            ascends(o@, before),
        decreases keys.len() - j,
    {
        let mut p: usize = o.len();
        while p > 0 && pair_less(&keys[j], &keys[o[p - 1]])
            invariant
                p <= o@.len(),
                o@.len() == j,
                j < keys@.len(),
                t == pair_texts(keys@),
                forall|k: int| 0 <= k < o@.len() ==> (#[trigger] o@[k]) < j,
                forall|q: int| p <= q < o@.len() ==> pair_lt(t[j as int], t[o@[q] as int]),
            decreases p,
        {
            p = p - 1;
        }
        let ghost old_o = o@;
        o.insert(p, j);
        proof {
            let no = o@;
            let kj = t[j as int];
            if p > 0 {
                lemma_pair_lt_order(kj, t[old_o[p - 1] as int], kj);
            }
            assert forall|a: int, b: int| 0 <= a < b < no.len() implies #[trigger] before(no[a] as int, no[b] as int) by {
                if b < p {
                    assert(before(old_o[a] as int, old_o[b] as int));
                } else if b == p {
                    let kp = t[old_o[p - 1] as int];
                    if a < p - 1 {
                        assert(before(old_o[a] as int, old_o[p - 1] as int));
                        let ka = t[old_o[a] as int];
                        lemma_pair_lt_order(ka, kp, kj);
                    }
                } else if a > p {
                    assert(before(old_o[a - 1] as int, old_o[b - 1] as int));
                } else if a == p {
                } else {
                    assert(before(old_o[a] as int, old_o[b - 1] as int));
                }
            }
            assert forall|x: usize| x < j + 1 implies #[trigger] no.contains(x) by {
                if x == j {
                    assert(no[p as int] == x);
                } else {
                    assert(old_o.contains(x));
                    let k = choose|k: int| 0 <= k < j && old_o[k] == x;
                    if k < p {
                        assert(no[k] == x);
                    } else {
                        assert(no[k + 1] == x);
                    }
                }
            }
            assert forall|a: int, b: int| 0 <= a < b < j + 1 implies no[a] != no[b] by {
                if a != p && b != p {
                    let a0 = if a < p { a } else { a - 1 };
                    let b0 = if b < p { b } else { b - 1 };
                    assert(no[a] == old_o[a0] && no[b] == old_o[b0]);
                } else if a == p {
                    assert(no[b] == old_o[b - 1]);
                } else {
                    assert(no[a] == old_o[a]);
                }
            }
        }
        j = j + 1;
    }
    proof {
        assert forall|i: int, k: int| 0 <= i < t.len() && 0 <= k < t.len() && #[trigger] before(i, k)
            implies !before(k, i) by {
            lemma_pair_lt_order(t[i], t[k], t[i]);
        }
        lemma_sorted_positions(o@, keys@.len(), before);
    }
    o
}

} // verus!
