//! Orderings of texts: a stable sort by a text key, and the sorted set of
//! distinct keys (each represented by its first occurrence).

use vstd::prelude::*;
use crate::text::{text_lt, text_less, lemma_text_lt_irreflexive, lemma_text_lt_total, lemma_text_lt_transitive};

verus! {

/// Position `a` goes before position `b`: smaller key first, equal keys in
/// the order in which they come.
pub open spec fn key_before(keys: Seq<Seq<char>>, a: int, b: int) -> bool {
    text_lt(keys[a], keys[b]) || (keys[a] == keys[b] && a < b)
}

/// `order` lists every position of `keys` once, sorted by key and stable.
pub open spec fn stable_key_order(keys: Seq<Seq<char>>, order: Seq<usize>) -> bool {
    &&& order.len() == keys.len()
    &&& forall|k: int| 0 <= k < order.len() ==> #[trigger] order[k] < keys.len()
    &&& forall|i: int| 0 <= i < keys.len() ==> #[trigger] order.contains(i as usize)
    &&& forall|a: int, b: int|
        0 <= a < b < order.len() ==> key_before(keys, #[trigger] order[a] as int, #[trigger] order[b] as int)
}

pub open spec fn views(keys: Seq<Vec<char>>) -> Seq<Seq<char>> {
    keys.map_values(|k: Vec<char>| k@)
}

/// The positions of `keys` in a stable sort by key (`slice::sort_by` on the
/// keys).
pub fn stable_text_order(keys: &Vec<Vec<char>>) -> (r: Vec<usize>)
    ensures
        stable_key_order(views(keys@), r@),
{
    let ghost ks = views(keys@);
    let n = keys.len();
    let mut r: Vec<usize> = Vec::new();
    let mut i: usize = 0;
    while i < n
        invariant
            i <= n == keys@.len(),
            ks == views(keys@),
            ks.len() == n,
            r@.len() == i,
            forall|k: int| 0 <= k < r@.len() ==> #[trigger] r@[k] < i,
            forall|j: int| 0 <= j < i ==> #[trigger] r@.contains(j as usize),
            forall|a: int, b: int|
                0 <= a < b < r@.len() ==> key_before(ks, #[trigger] r@[a] as int, #[trigger] r@[b] as int),
        decreases n - i,
    {
        let mut p: usize = 0;
        while p < r.len() && !text_less(keys[i].as_slice(), keys[r[p]].as_slice())
            invariant
                p <= r@.len(),
                r@.len() == i,
                i < n == keys@.len(),
                ks == views(keys@),
                ks.len() == n,
                forall|k: int| 0 <= k < r@.len() ==> #[trigger] r@[k] < i,
                forall|k: int| 0 <= k < p ==> !text_lt(ks[i as int], ks[#[trigger] r@[k] as int]),
            decreases r.len() - p,
        {
            p += 1;
        }
        let ghost old_r = r@;
        r.insert(p, i);
        proof {
            assert(r@ == old_r.insert(p as int, i));
            assert forall|k: int| 0 <= k < r@.len() implies #[trigger] r@[k] < i + 1 by {
                if k < p {
                    assert(r@[k] == old_r[k]);
                } else if k > p {
                    assert(r@[k] == old_r[k - 1]);
                }
            }
            assert forall|j: int| 0 <= j < i + 1 implies #[trigger] r@.contains(j as usize) by {
                if j == i {
                    assert(r@[p as int] == i);
                } else {
                    assert(old_r.contains(j as usize));
                    let k = choose|k: int| 0 <= k < old_r.len() && old_r[k] == j as usize;
                    if k < p {
                        assert(r@[k] == old_r[k]);
                    } else {
                        assert(r@[k + 1] == old_r[k]);
                    }
                }
            }
            assert forall|a: int, b: int| 0 <= a < b < r@.len() implies key_before(
                ks,
                #[trigger] r@[a] as int,
                #[trigger] r@[b] as int,
            ) by {
                if b < p {
                    assert(r@[a] == old_r[a] && r@[b] == old_r[b]);
                } else if b == p {
                    assert(r@[a] == old_r[a]);
                    let x = ks[old_r[a] as int];
                    let y = ks[i as int];
                    assert(!text_lt(y, x));
                    lemma_text_lt_total(x, y);
                } else if a == p {
                    assert(r@[b] == old_r[b - 1]);
                    let q = old_r[p as int] as int;
                    assert(text_lt(ks[i as int], ks[q]));
                    if b - 1 > p {
                        assert(key_before(ks, q, old_r[b - 1] as int));
                        if text_lt(ks[q], ks[old_r[b - 1] as int]) {
                            lemma_text_lt_transitive(ks[i as int], ks[q], ks[old_r[b - 1] as int]);
                        }
                    }
                } else if a < p {
                    assert(r@[a] == old_r[a] && r@[b] == old_r[b - 1]);
                } else {
                    assert(r@[a] == old_r[a - 1] && r@[b] == old_r[b - 1]);
                }
            }
        }
        i += 1;
    }
    r
}

/// `i` is the first position that holds its key.
pub open spec fn first_of_key(keys: Seq<Seq<char>>, i: int) -> bool {
    forall|j: int| 0 <= j < i ==> keys[j] != keys[i]
}

/// Some entry of `order` points at a position holding `key`.
pub open spec fn key_listed(keys: Seq<Seq<char>>, order: Seq<usize>, key: Seq<char>) -> bool {
    exists|k: int| 0 <= k < order.len() && keys[order[k] as int] == key
}

/// `order` holds, in strictly increasing key order, the first position of
/// each distinct key among `keys[..upto]`.
pub open spec fn distinct_prefix_order(keys: Seq<Seq<char>>, order: Seq<usize>, upto: int) -> bool {
    &&& forall|k: int| 0 <= k < order.len() ==> #[trigger] order[k] < upto
    &&& forall|k: int| 0 <= k < order.len() ==> first_of_key(keys, #[trigger] order[k] as int)
    &&& forall|a: int, b: int|
        0 <= a < b < order.len() ==> text_lt(keys[#[trigger] order[a] as int], keys[#[trigger] order[b] as int])
    &&& forall|t: int| 0 <= t < upto ==> key_listed(keys, order, #[trigger] keys[t])
}

/// `order` holds, in strictly increasing key order, the first position of
/// every distinct key of `keys`.
pub open spec fn distinct_key_order(keys: Seq<Seq<char>>, order: Seq<usize>) -> bool {
    distinct_prefix_order(keys, order, keys.len() as int)
}

/// Whether `keys[i]` equals one of `keys[..i]`.
fn seen_before(keys: &Vec<Vec<char>>, i: usize) -> (r: bool)
    requires
        i < keys@.len(),
    ensures
        r == !first_of_key(views(keys@), i as int),
{
    let ghost ks = views(keys@);
    let mut j: usize = 0;
    while j < i
        invariant
            i < keys@.len(),
            ks == views(keys@),
            j <= i,
            forall|t: int| 0 <= t < j ==> ks[t] != ks[i as int],
        decreases i - j,
    {
        if crate::text::chars_equal(keys[j].as_slice(), keys[i].as_slice()) {
            assert(ks[j as int] == ks[i as int]);
            return true;
        }
        j += 1;
    }
    false
}

proof fn lemma_repeated_key_step(ks: Seq<Seq<char>>, r: Seq<usize>, i: int)
    requires
        0 <= i < ks.len(),
        distinct_prefix_order(ks, r, i),
        !first_of_key(ks, i),
    ensures
        distinct_prefix_order(ks, r, i + 1),
{
    let j = choose|j: int| 0 <= j < i && ks[j] == ks[i];
    assert(key_listed(ks, r, ks[j]));
    assert forall|t: int| 0 <= t < i + 1 implies key_listed(ks, r, #[trigger] ks[t]) by {
        if t == i {
            assert(ks[t] == ks[j]);
        }
    }
}

proof fn lemma_new_key_step(ks: Seq<Seq<char>>, r: Seq<usize>, i: usize, p: int)
    requires
        i < ks.len(),
        distinct_prefix_order(ks, r, i as int),
        first_of_key(ks, i as int),
        0 <= p <= r.len(),
        forall|k: int| 0 <= k < p ==> text_lt(ks[#[trigger] r[k] as int], ks[i as int]),
        p < r.len() ==> !text_lt(ks[r[p] as int], ks[i as int]),
    ensures
        distinct_prefix_order(ks, r.insert(p, i), i + 1),
{
    let nr = r.insert(p, i);
    assert forall|k: int| 0 <= k < nr.len() implies #[trigger] nr[k] < i + 1 by {
        if k < p {
            assert(nr[k] == r[k]);
        } else if k > p {
            assert(nr[k] == r[k - 1]);
        }
    }
    assert forall|k: int| 0 <= k < nr.len() implies first_of_key(ks, #[trigger] nr[k] as int) by {
        if k < p {
            assert(nr[k] == r[k]);
        } else if k > p {
            assert(nr[k] == r[k - 1]);
        }
    }
    assert forall|a: int, b: int| 0 <= a < b < nr.len() implies text_lt(
        ks[#[trigger] nr[a] as int],
        ks[#[trigger] nr[b] as int],
    ) by {
        if b < p {
            assert(nr[a] == r[a] && nr[b] == r[b]);
        } else if b == p {
            assert(nr[a] == r[a]);
        } else if a == p {
            assert(nr[b] == r[b - 1]);
            let q = r[p] as int;
            let x = ks[i as int];
            let y = ks[q];
            assert(x != y) by {
                assert(q < i);
            }
            lemma_text_lt_total(x, y);
            if b - 1 > p {
                lemma_text_lt_transitive(x, y, ks[r[b - 1] as int]);
            }
        } else if a < p {
            assert(nr[a] == r[a] && nr[b] == r[b - 1]);
        } else {
            assert(nr[a] == r[a - 1] && nr[b] == r[b - 1]);
        }
    }
    assert forall|t: int| 0 <= t < i + 1 implies key_listed(ks, nr, #[trigger] ks[t]) by {
        if t == i {
            assert(nr[p] == i);
        } else {
            assert(key_listed(ks, r, ks[t]));
            let k = choose|k: int| 0 <= k < r.len() && ks[r[k] as int] == ks[t];
            if k < p {
                assert(nr[k] == r[k]);
            } else {
                assert(nr[k + 1] == r[k]);
            }
        }
    }
}

/// The first position of each distinct key, sorted by key: the keys that a
/// stable sort followed by dropping repeated keys keeps.
pub fn distinct_text_order(keys: &Vec<Vec<char>>) -> (r: Vec<usize>)
    ensures
        distinct_key_order(views(keys@), r@),
{
    let ghost ks = views(keys@);
    let n = keys.len();
    let mut r: Vec<usize> = Vec::new();
    let mut i: usize = 0;
    while i < n
        invariant
            i <= n == keys@.len(),
            ks == views(keys@),
            ks.len() == n,
            distinct_prefix_order(ks, r@, i as int),
        decreases n - i,
    {
        if seen_before(keys, i) {
            proof {
                lemma_repeated_key_step(ks, r@, i as int);
            }
        } else {
            let mut p: usize = 0;
            while p < r.len() && text_less(keys[r[p]].as_slice(), keys[i].as_slice())
                invariant
                    p <= r@.len(),
                    i < n == keys@.len(),
                    ks == views(keys@),
                    ks.len() == n,
                    distinct_prefix_order(ks, r@, i as int),
                    forall|k: int| 0 <= k < p ==> text_lt(ks[#[trigger] r@[k] as int], ks[i as int]),
                decreases r.len() - p,
            {
                p += 1;
            }
            proof {
                lemma_new_key_step(ks, r@, i, p as int);
            }
            r.insert(p, i);
        }
        i += 1;
    }
    r
}

} // verus!
