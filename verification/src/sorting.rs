//! The order in which the published views list their entries: by text keys,
//! compared as `String`s compare (by UTF-8 bytes, which is the order of the
//! characters' code points), keeping entries with equal keys in the order
//! they came in.
use vstd::prelude::*;
use crate::text::chars_of;

verus! {

/// Whether `a` sorts before `b`, looking from position `i` on, where both
/// agree before `i`.
pub open spec fn text_before_from(a: Seq<char>, b: Seq<char>, i: int) -> bool
    decreases a.len() - i,
{
    if i < 0 || i >= a.len() {
        0 <= i < b.len()
    } else if i >= b.len() {
        false
    } else if a[i] != b[i] {
        (a[i] as int) < (b[i] as int)
    } else {
        text_before_from(a, b, i + 1)
    }
}

/// Whether text `a` sorts strictly before text `b`.
pub open spec fn text_before(a: Seq<char>, b: Seq<char>) -> bool {
    text_before_from(a, b, 0)
}

/// A sort key of two texts: the first decides, the second breaks ties.
pub open spec fn key_view(k: (String, String)) -> (Seq<char>, Seq<char>) {
    (k.0@, k.1@)
}

/// Whether key `a` sorts strictly before key `b`.
pub open spec fn key_before(a: (Seq<char>, Seq<char>), b: (Seq<char>, Seq<char>)) -> bool {
    text_before(a.0, b.0) || (a.0 == b.0 && text_before(a.1, b.1))
}

/// `order` lists the positions of `keys` as a stable sort does: every
/// position once, no key after one it sorts before, and equal keys in the
/// order they came in.
pub open spec fn stably_sorted(keys: Seq<(Seq<char>, Seq<char>)>, order: Seq<usize>) -> bool {
    &&& order.len() == keys.len()
    &&& forall|i: int| 0 <= i < order.len() ==> #[trigger] order[i] < keys.len()
    &&& order.no_duplicates()
    &&& forall|i: int, j: int| 0 <= i < j < order.len() ==> !key_before(
        #[trigger] keys[order[j] as int],
        #[trigger] keys[order[i] as int],
    ) && (keys[order[i] as int] == keys[order[j] as int] ==> order[i] < order[j])
}

proof fn lemma_text_transitive(a: Seq<char>, b: Seq<char>, c: Seq<char>, i: int)
    requires
        0 <= i,
        text_before_from(a, b, i),
        text_before_from(b, c, i),
    ensures
        text_before_from(a, c, i),
    decreases a.len() - i,
{
    if i < a.len() && i < b.len() && i < c.len() && a[i] == b[i] && b[i] == c[i] {
        lemma_text_transitive(a, b, c, i + 1);
    }
}

proof fn lemma_text_total(a: Seq<char>, b: Seq<char>, i: int)
    requires
        0 <= i <= a.len(),
        i <= b.len(),
        !text_before_from(a, b, i),
        !text_before_from(b, a, i),
    ensures
        a.len() == b.len(),
        forall|j: int| i <= j < a.len() ==> a[j] == b[j],
    decreases a.len() - i,
{
    if i < a.len() && i < b.len() {
        if a[i] != b[i] {
            assert((a[i] as int) != (b[i] as int));
        }
        lemma_text_total(a, b, i + 1);
    }
}

proof fn lemma_text_irreflexive(a: Seq<char>, i: int)
    requires
        0 <= i <= a.len(),
    ensures
        !text_before_from(a, a, i),
    decreases a.len() - i,
{
    if i < a.len() {
        lemma_text_irreflexive(a, i + 1);
    }
}

/// Texts that neither sorts before the other are equal.
proof fn lemma_text_equal(a: Seq<char>, b: Seq<char>)
    requires
        !text_before(a, b),
        !text_before(b, a),
    ensures
        a == b,
{
    lemma_text_total(a, b, 0);
    assert(a =~= b);
}

/// Sorting keys before one another is a strict total order.
pub proof fn lemma_key_order(a: (Seq<char>, Seq<char>), b: (Seq<char>, Seq<char>), c: (Seq<char>, Seq<char>))
    ensures
        !key_before(a, a),
        key_before(a, b) && key_before(b, c) ==> key_before(a, c),
        !key_before(a, b) && !key_before(b, a) ==> a == b,
{
    lemma_text_irreflexive(a.0, 0);
    lemma_text_irreflexive(a.1, 0);
    if text_before(a.0, b.0) && text_before(b.0, c.0) {
        lemma_text_transitive(a.0, b.0, c.0, 0);
    }
    if a.1 != b.1 || a.0 != b.0 {
        if text_before(a.1, b.1) && text_before(b.1, c.1) {
            lemma_text_transitive(a.1, b.1, c.1, 0);
        }
    } else if text_before(a.1, b.1) && text_before(b.1, c.1) {
        lemma_text_transitive(a.1, b.1, c.1, 0);
    }
    if !text_before(a.0, b.0) && !text_before(b.0, a.0) {
        lemma_text_equal(a.0, b.0);
        if !text_before(a.1, b.1) && !text_before(b.1, a.1) {
            lemma_text_equal(a.1, b.1);
        }
    }
}

/// Whether text `a` sorts strictly before text `b`.
pub fn text_precedes(a: &str, b: &str) -> (r: bool)
    ensures
        r == text_before(a@, b@),
{
    let x = chars_of(a);
    let y = chars_of(b);
    let mut i: usize = 0;
    while i < x.len() && i < y.len() && x[i] == y[i]
        invariant
            i <= x@.len(),
            i <= y@.len(),
            text_before_from(x@, y@, 0) == text_before_from(x@, y@, i as int),
        decreases x@.len() - i,
    {
        i = i + 1;
    }
    if i >= x.len() {
        i < y.len()
    } else if i >= y.len() {
        false
    } else {
        x[i] < y[i]
    }
}

/// Whether key `a` sorts strictly before key `b`.
pub fn key_precedes(a: &(String, String), b: &(String, String)) -> (r: bool)
    ensures
        r == key_before(key_view(*a), key_view(*b)),
{
    if text_precedes(a.0.as_str(), b.0.as_str()) {
        return true;
    }
    if text_precedes(b.0.as_str(), a.0.as_str()) {
        return false;
    }
    proof {
        lemma_text_equal(a.0@, b.0@);
    }
    text_precedes(a.1.as_str(), b.1.as_str())
}

/// The positions of `keys` in the order a stable sort by key puts them.
pub fn stable_order(keys: &Vec<(String, String)>) -> (order: Vec<usize>)
    ensures
        stably_sorted(keys@.map_values(|k: (String, String)| key_view(k)), order@),
{
    let ghost ks = keys@.map_values(|k: (String, String)| key_view(k));
    let mut order: Vec<usize> = Vec::new();
    let mut n: usize = 0;
    while n < keys.len()
        invariant
            n <= keys@.len(),
            ks == keys@.map_values(|k: (String, String)| key_view(k)),
            order@.len() == n,
            forall|i: int| 0 <= i < order@.len() ==> #[trigger] order@[i] < n,
            order@.no_duplicates(),
            forall|i: int, j: int| 0 <= i < j < order@.len() ==> !key_before(
                #[trigger] ks[order@[j] as int],
                #[trigger] ks[order@[i] as int],
            ) && (ks[order@[i] as int] == ks[order@[j] as int] ==> order@[i] < order@[j]),
        decreases keys@.len() - n,
    {
        let mut p: usize = 0;
        while p < order.len() && !key_precedes(&keys[n], &keys[order[p]])
            invariant
                n < keys@.len(),
                ks == keys@.map_values(|k: (String, String)| key_view(k)),
                p <= order@.len(),
                forall|i: int| 0 <= i < order@.len() ==> #[trigger] order@[i] < n,
                forall|q: int| 0 <= q < p ==> !key_before(ks[n as int], #[trigger] ks[order@[q] as int]),
            decreases order@.len() - p,
        {
            p = p + 1;
        }
        let ghost before = order@;
        proof {
            if p < before.len() {
                assert forall|q: int| p <= q < before.len() implies key_before(ks[n as int], #[trigger] ks[before[q] as int]) by {
                    if q > p {
                        lemma_key_order(ks[n as int], ks[before[p as int] as int], ks[before[q] as int]);
                        lemma_key_order(ks[before[p as int] as int], ks[before[q] as int], ks[before[q] as int]);
                        lemma_key_order(ks[before[q] as int], ks[before[p as int] as int], ks[before[q] as int]);
                    }
                }
            }
        }
        order.insert(p, n);
        proof {
            let after = order@;
            assert(after =~= before.insert(p as int, n));
            assert forall|i: int| 0 <= i < after.len() implies #[trigger] after[i] < n + 1 by {
                if i < p {
                    assert(after[i] == before[i]);
                } else if i > p {
                    assert(after[i] == before[i - 1]);
                }
            }
            assert forall|i: int, j: int| 0 <= i < j < after.len() implies !key_before(
                #[trigger] ks[after[j] as int],
                #[trigger] ks[after[i] as int],
            ) && (ks[after[i] as int] == ks[after[j] as int] ==> after[i] < after[j]) by {
                let oi = if i < p { i } else { i - 1 };
                let oj = if j < p { j } else { j - 1 };
                if i == p as int {
                    assert(after[j] == before[oj]);
                    assert(key_before(ks[n as int], ks[before[oj] as int]));
                    lemma_key_order(ks[n as int], ks[before[oj] as int], ks[n as int]);
                } else if j == p as int {
                    assert(after[i] == before[oi]);
                    assert(!key_before(ks[n as int], ks[before[oi] as int]));
                    assert(before[oi] < n);
                } else {
                    assert(after[i] == before[oi]);
                    assert(after[j] == before[oj]);
                    assert(oi < oj);
                }
            }
            assert forall|i: int, j: int| 0 <= i < j < after.len() implies after[i] != after[j] by {
                let oi = if i < p { i } else { i - 1 };
                let oj = if j < p { j } else { j - 1 };
                if i == p as int {
                    assert(after[j] == before[oj]);
                } else if j == p as int {
                    assert(after[i] == before[oi]);
                } else {
                    assert(after[i] == before[oi]);
                    assert(after[j] == before[oj]);
                }
            }
        }
        n = n + 1;
    }
    order
}

} // verus!
