//! Stable sorting, as index orders: the positions of the elements in
//! ascending order of their keys, ties kept in their original order.
use vstd::prelude::*;
use vstd::relations::{sorted_by, total_ordering};

verus! {

/// Lexicographic order on byte strings, the order of Rust's `str` and `[u8]`.
pub open spec fn bytes_lt(a: Seq<u8>, b: Seq<u8>) -> bool
    decreases a.len(),
{
    if a.len() == 0 {
        b.len() > 0
    } else if b.len() == 0 {
        false
    } else if a[0] != b[0] {
        a[0] < b[0]
    } else {
        bytes_lt(a.drop_first(), b.drop_first())
    }
}

pub proof fn lemma_bytes_lt_irreflexive(a: Seq<u8>)
    ensures
        !bytes_lt(a, a),
    decreases a.len(),
{
    if a.len() > 0 {
        lemma_bytes_lt_irreflexive(a.drop_first());
    }
}

pub proof fn lemma_bytes_lt_transitive(a: Seq<u8>, b: Seq<u8>, c: Seq<u8>)
    requires
        bytes_lt(a, b),
        bytes_lt(b, c),
    ensures
        bytes_lt(a, c),
    decreases a.len(),
{
    if a.len() > 0 && b.len() > 0 && c.len() > 0 && a[0] == b[0] && b[0] == c[0] {
        lemma_bytes_lt_transitive(a.drop_first(), b.drop_first(), c.drop_first());
    }
}

pub proof fn lemma_bytes_lt_total(a: Seq<u8>, b: Seq<u8>)
    ensures
        bytes_lt(a, b) || bytes_lt(b, a) || a == b,
    decreases a.len(),
{
    if a.len() > 0 && b.len() > 0 && a[0] == b[0] {
        lemma_bytes_lt_total(a.drop_first(), b.drop_first());
        if a.drop_first() == b.drop_first() {
            assert(a =~= seq![a[0]] + a.drop_first());
            assert(b =~= seq![b[0]] + b.drop_first());
        }
    } else if a.len() == 0 && b.len() == 0 {
        assert(a =~= b);
    }
}

/// Whether `a` comes before `b` in lexicographic order.
pub fn bytes_less(a: &Vec<u8>, b: &Vec<u8>) -> (r: bool)
    ensures
        r == bytes_lt(a@, b@),
{
    let mut k: usize = 0;
    assert(a@.skip(0) =~= a@);
    assert(b@.skip(0) =~= b@);
    while k < a.len() && k < b.len()
        invariant
            k <= a.len(),
            k <= b.len(),
            bytes_lt(a@, b@) == bytes_lt(a@.skip(k as int), b@.skip(k as int)),
        decreases a.len() - k,
    {
        if a[k] != b[k] {
            return a[k] < b[k];
        }
        assert(a@.skip(k as int).drop_first() =~= a@.skip(k + 1));
        assert(b@.skip(k as int).drop_first() =~= b@.skip(k + 1));
        k = k + 1;
    }
    k == a.len() && k < b.len()
}

/// Element `x` comes before element `y`: a smaller key, or an equal key and
/// an earlier position.
pub open spec fn bytes_before(keys: Seq<Seq<u8>>, x: int, y: int) -> bool {
    bytes_lt(keys[x], keys[y]) || (keys[x] == keys[y] && x < y)
}

/// `order` lists the positions `0..n` once each, ascending by key, ties in
/// their original order.
pub open spec fn is_stable_order_bytes(keys: Seq<Seq<u8>>, order: Seq<usize>) -> bool {
    &&& order.len() == keys.len()
    &&& forall|i: int| 0 <= i < order.len() ==> order[i] < keys.len()
    &&& forall|j: usize| j < keys.len() ==> #[trigger] order.contains(j)
    &&& forall|i: int, j: int|
        0 <= i < j < order.len() ==> bytes_before(keys, order[i] as int, order[j] as int)
}

/// The stable ascending order of byte-string keys, by insertion.
pub fn stable_order_bytes(keys: &Vec<Vec<u8>>) -> (r: Vec<usize>)
    ensures
        is_stable_order_bytes(keys@.map_values(|k: Vec<u8>| k@), r@),
        r@ == stable_order_of_bytes(keys@.map_values(|k: Vec<u8>| k@)),
{
    let ghost ks = keys@.map_values(|k: Vec<u8>| k@);
    let n = keys.len();
    let mut order: Vec<usize> = Vec::new();
    let mut i: usize = 0;
    while i < n
        invariant
            n == keys.len(),
            ks == keys@.map_values(|k: Vec<u8>| k@),
            i <= n,
            order.len() == i,
            forall|a: int| 0 <= a < order.len() ==> order[a] < i,
            forall|j: usize| j < i ==> #[trigger] order@.contains(j),
            forall|a: int, b: int|
                0 <= a < b < order.len() ==> bytes_before(ks, order[a] as int, order[b] as int),
        decreases n - i,
    {
        // the first position whose key is greater than the key of `i`
        let mut p: usize = 0;
        while p < order.len() && !bytes_less(&keys[i], &keys[order[p]])
            invariant
                n == keys.len(),
                ks == keys@.map_values(|k: Vec<u8>| k@),
                i < n,
                p <= order.len(),
                forall|a: int| 0 <= a < order.len() ==> order[a] < i,
                forall|a: int| 0 <= a < p ==> !bytes_lt(ks[i as int], ks[order[a] as int]),
            decreases order.len() - p,
        {
            p = p + 1;
        }
        let ghost old_order = order@;
        proof {
            assert forall|a: int| p <= a < old_order.len() implies bytes_lt(
                ks[i as int],
                ks[old_order[a] as int],
            ) by {
                if a > p {
                    let x = old_order[p as int] as int;
                    let y = old_order[a] as int;
                    assert(bytes_before(ks, x, y));
                    if bytes_lt(ks[x], ks[y]) {
                        lemma_bytes_lt_transitive(ks[i as int], ks[x], ks[y]);
                    }
                }
            }
            assert forall|a: int| 0 <= a < p implies bytes_before(
                ks,
                old_order[a] as int,
                i as int,
            ) by {
                lemma_bytes_lt_total(ks[i as int], ks[old_order[a] as int]);
            }
        }
        order.insert(p, i);
        proof {
            assert(order@ == old_order.insert(p as int, i));
            assert forall|j: usize| j < i + 1 implies #[trigger] order@.contains(j) by {
                if j == i {
                    assert(order@[p as int] == i);
                } else {
                    assert(old_order.contains(j));
                    let a = choose|a: int| 0 <= a < old_order.len() && old_order[a] == j;
                    if a < p {
                        assert(order@[a] == j);
                    } else {
                        assert(order@[a + 1] == j);
                    }
                }
            }
        }
        i = i + 1;
    }
    proof {
        assert(is_stable_order_bytes(ks, order@));
        lemma_stable_order_bytes_unique(ks, order@, stable_order_of_bytes(ks));
    }
    order
}

/// Element `x` comes before element `y`: a smaller id, or an equal id and an
/// earlier position.
pub open spec fn id_before(ids: Seq<u32>, x: int, y: int) -> bool {
    ids[x] < ids[y] || (ids[x] == ids[y] && x < y)
}

/// `order` lists the positions `0..n` once each, ascending by id, ties in
/// their original order.
pub open spec fn is_stable_order_ids(ids: Seq<u32>, order: Seq<usize>) -> bool {
    &&& order.len() == ids.len()
    &&& forall|i: int| 0 <= i < order.len() ==> order[i] < ids.len()
    &&& forall|j: usize| j < ids.len() ==> #[trigger] order.contains(j)
    &&& forall|i: int, j: int|
        0 <= i < j < order.len() ==> id_before(ids, order[i] as int, order[j] as int)
}

/// The stable ascending order of integer keys, by insertion.
pub fn stable_order_ids(ids: &Vec<u32>) -> (r: Vec<usize>)
    ensures
        is_stable_order_ids(ids@, r@),
        r@ == stable_order_of_ids(ids@),
{
    let n = ids.len();
    let mut order: Vec<usize> = Vec::new();
    let mut i: usize = 0;
    while i < n
        invariant
            n == ids.len(),
            i <= n,
            order.len() == i,
            forall|a: int| 0 <= a < order.len() ==> order[a] < i,
            forall|j: usize| j < i ==> #[trigger] order@.contains(j),
            forall|a: int, b: int|
                0 <= a < b < order.len() ==> id_before(ids@, order[a] as int, order[b] as int),
        decreases n - i,
    {
        let mut p: usize = 0;
        while p < order.len() && ids[order[p]] <= ids[i]
            invariant
                n == ids.len(),
                i < n,
                p <= order.len(),
                forall|a: int| 0 <= a < order.len() ==> order[a] < i,
                forall|a: int| 0 <= a < p ==> ids@[order[a] as int] <= ids@[i as int],
            decreases order.len() - p,
        {
            p = p + 1;
        }
        let ghost old_order = order@;
        proof {
            assert forall|a: int| p <= a < old_order.len() implies ids@[i as int] < ids@[old_order[a] as int] by {
                if a > p {
                    assert(id_before(ids@, old_order[p as int] as int, old_order[a] as int));
                }
            }
        }
        order.insert(p, i);
        proof {
            assert(order@ == old_order.insert(p as int, i));
            assert forall|j: usize| j < i + 1 implies #[trigger] order@.contains(j) by {
                if j == i {
                    assert(order@[p as int] == i);
                } else {
                    assert(old_order.contains(j));
                    let a = choose|a: int| 0 <= a < old_order.len() && old_order[a] == j;
                    if a < p {
                        assert(order@[a] == j);
                    } else {
                        assert(order@[a + 1] == j);
                    }
                }
            }
        }
        i = i + 1;
    }
    proof {
        lemma_stable_order_ids_unique(ids@, order@, stable_order_of_ids(ids@));
    }
    order
}

/// Two sequences of distinct positions, both strictly ascending in the same
/// strict order and holding the same positions, are equal.
proof fn lemma_sorted_unique(before: spec_fn(int, int) -> bool, o1: Seq<usize>, o2: Seq<usize>)
    requires
        forall|x: int| !#[trigger] before(x, x),
        forall|x: int, y: int, z: int| #[trigger] before(x, y) && #[trigger] before(y, z) ==> before(x, z),
        o1.len() == o2.len(),
        forall|i: int, j: int| 0 <= i < j < o1.len() ==> before(o1[i] as int, o1[j] as int),
        forall|i: int, j: int| 0 <= i < j < o2.len() ==> before(o2[i] as int, o2[j] as int),
        forall|i: int| 0 <= i < o1.len() ==> o2.contains(#[trigger] o1[i]),
        forall|i: int| 0 <= i < o2.len() ==> o1.contains(#[trigger] o2[i]),
    ensures
        o1 == o2,
    decreases o1.len(),
{
    if o1.len() > 0 {
        assert(o2.contains(o1[0]));
        assert(o1.contains(o2[0]));
        let p = choose|p: int| 0 <= p < o2.len() && o2[p] == o1[0];
        let q = choose|q: int| 0 <= q < o1.len() && o1[q] == o2[0];
        if o1[0] != o2[0] {
            assert(p > 0 && q > 0);
            assert(before(o2[0] as int, o1[0] as int));
            assert(before(o1[0] as int, o2[0] as int));
            assert(before(o1[0] as int, o1[0] as int));
        }
        let t1 = o1.drop_first();
        let t2 = o2.drop_first();
        assert forall|i: int| 0 <= i < t1.len() implies t2.contains(#[trigger] t1[i]) by {
            assert(o2.contains(o1[i + 1]));
            let k = choose|k: int| 0 <= k < o2.len() && o2[k] == o1[i + 1];
            assert(before(o1[0] as int, o1[i + 1] as int));
            if k == 0 {
                assert(before(o1[0] as int, o1[0] as int));
            }
            assert(t2[k - 1] == t1[i]);
        }
        assert forall|i: int| 0 <= i < t2.len() implies t1.contains(#[trigger] t2[i]) by {
            assert(o1.contains(o2[i + 1]));
            let k = choose|k: int| 0 <= k < o1.len() && o1[k] == o2[i + 1];
            assert(before(o2[0] as int, o2[i + 1] as int));
            if k == 0 {
                assert(before(o2[0] as int, o2[0] as int));
            }
            assert(t1[k - 1] == t2[i]);
        }
        lemma_sorted_unique(before, t1, t2);
        assert(o1 =~= seq![o1[0]] + t1);
        assert(o2 =~= seq![o2[0]] + t2);
    }
}

/// There is exactly one stable order of byte-string keys.
pub proof fn lemma_stable_order_bytes_unique(keys: Seq<Seq<u8>>, o1: Seq<usize>, o2: Seq<usize>)
    requires
        is_stable_order_bytes(keys, o1),
        is_stable_order_bytes(keys, o2),
    ensures
        o1 == o2,
{
    let before = |x: int, y: int| 0 <= x < keys.len() && 0 <= y < keys.len() && bytes_before(keys, x, y);
    assert forall|x: int| !#[trigger] before(x, x) by {
        if 0 <= x < keys.len() {
            lemma_bytes_lt_irreflexive(keys[x]);
        }
    }
    assert forall|x: int, y: int, z: int| #[trigger] before(x, y) && #[trigger] before(y, z) implies before(x, z) by {
        if bytes_lt(keys[x], keys[y]) && bytes_lt(keys[y], keys[z]) {
            lemma_bytes_lt_transitive(keys[x], keys[y], keys[z]);
        }
    }
    assert forall|i: int| 0 <= i < o1.len() implies o2.contains(#[trigger] o1[i]) by {
        assert(o2.contains(o1[i]));
    }
    assert forall|i: int| 0 <= i < o2.len() implies o1.contains(#[trigger] o2[i]) by {
        assert(o1.contains(o2[i]));
    }
    lemma_sorted_unique(before, o1, o2);
}

/// There is exactly one stable order of integer keys.
pub proof fn lemma_stable_order_ids_unique(ids: Seq<u32>, o1: Seq<usize>, o2: Seq<usize>)
    requires
        is_stable_order_ids(ids, o1),
        is_stable_order_ids(ids, o2),
    ensures
        o1 == o2,
{
    let before = |x: int, y: int| 0 <= x < ids.len() && 0 <= y < ids.len() && id_before(ids, x, y);
    assert forall|i: int| 0 <= i < o1.len() implies o2.contains(#[trigger] o1[i]) by {
        assert(o2.contains(o1[i]));
    }
    assert forall|i: int| 0 <= i < o2.len() implies o1.contains(#[trigger] o2[i]) by {
        assert(o1.contains(o2[i]));
    }
    lemma_sorted_unique(before, o1, o2);
}

/// The stable order of byte-string keys.
pub open spec fn stable_order_of_bytes(keys: Seq<Seq<u8>>) -> Seq<usize> {
    choose|o: Seq<usize>| is_stable_order_bytes(keys, o)
}

/// The stable order of integer keys.
pub open spec fn stable_order_of_ids(ids: Seq<u32>) -> Seq<usize> {
    choose|o: Seq<usize>| is_stable_order_ids(ids, o)
}


/// Lexicographic order on byte strings, as a total order (`a <= b`).
pub open spec fn bytes_order() -> spec_fn(Seq<u8>, Seq<u8>) -> bool {
    |a: Seq<u8>, b: Seq<u8>| bytes_lt(a, b) || a == b
}

/// Byte strings in ascending lexicographic order.
pub open spec fn sorted_bytes(items: Seq<Seq<u8>>) -> Seq<Seq<u8>> {
    items.sort_by(bytes_order())
}

pub proof fn lemma_bytes_order_total()
    ensures
        total_ordering(bytes_order()),
{
    let leq = bytes_order();
    assert forall|a: Seq<u8>, b: Seq<u8>| #[trigger] leq(a, b) && #[trigger] leq(b, a) implies a == b by {
        if a != b {
            lemma_bytes_lt_transitive(a, b, a);
            lemma_bytes_lt_irreflexive(a);
        }
    }
    assert forall|a: Seq<u8>, b: Seq<u8>, c: Seq<u8>| #[trigger] leq(a, b) && #[trigger] leq(b, c) implies leq(a, c) by {
        if a != b && b != c {
            lemma_bytes_lt_transitive(a, b, c);
        }
    }
    assert forall|a: Seq<u8>, b: Seq<u8>| #[trigger] leq(a, b) || #[trigger] leq(b, a) by {
        lemma_bytes_lt_total(a, b);
    }
}

/// Sorting is blind to the order it is given: byte strings that are the
/// same multiset sort to the same sequence.
pub proof fn lemma_sorted_bytes_ignore_order(a: Seq<Seq<u8>>, b: Seq<Seq<u8>>)
    requires
        a.to_multiset() == b.to_multiset(),
    ensures
        sorted_bytes(a) == sorted_bytes(b),
{
    lemma_bytes_order_total();
    a.lemma_sort_by_ensures(bytes_order());
    b.lemma_sort_by_ensures(bytes_order());
    vstd::seq_lib::lemma_sorted_unique(sorted_bytes(a), sorted_bytes(b), bytes_order());
}

/// The elements of `s` taken in the order of the positions `o`.
pub open spec fn permuted<A>(s: Seq<A>, o: Seq<usize>) -> Seq<A> {
    Seq::new(o.len(), |i: int| s[o[i] as int])
}

/// Taking the elements in another order keeps the multiset.
pub proof fn lemma_permuted_multiset<A>(s: Seq<A>, o: Seq<usize>)
    requires
        s.len() <= usize::MAX,
        o.len() == s.len(),
        forall|i: int| 0 <= i < o.len() ==> o[i] < s.len(),
        forall|i: int, j: int| 0 <= i < j < o.len() ==> o[i] != o[j],
        forall|j: usize| j < s.len() ==> #[trigger] o.contains(j),
    ensures
        permuted(s, o).to_multiset() == s.to_multiset(),
    decreases s.len(),
{
    broadcast use vstd::multiset::group_multiset_axioms;
    broadcast use vstd::seq_lib::group_to_multiset_ensures;

    let n = s.len();
    let t = permuted(s, o);
    if n == 0 {
        assert(t =~= s);
    } else {
        let last = (n - 1) as usize;
        assert(o.contains(last));
        let p = choose|p: int| 0 <= p < o.len() && o[p] == last;
        let o2 = o.remove(p);
        let s2 = s.drop_last();
        assert forall|i: int| 0 <= i < o2.len() implies o2[i] < s2.len() by {
            if i < p {
                assert(o2[i] == o[i]);
            } else {
                assert(o2[i] == o[i + 1]);
            }
        }
        assert forall|i: int, j: int| 0 <= i < j < o2.len() implies o2[i] != o2[j] by {
            let a = if i < p { i } else { i + 1 };
            let b = if j < p { j } else { j + 1 };
            assert(o2[i] == o[a]);
            assert(o2[j] == o[b]);
        }
        assert forall|j: usize| j < s2.len() implies #[trigger] o2.contains(j) by {
            assert(o.contains(j));
            let k = choose|k: int| 0 <= k < o.len() && o[k] == j;
            if k < p {
                assert(o2[k] == j);
            } else {
                assert(k != p);
                assert(o2[k - 1] == j);
            }
        }
        lemma_permuted_multiset(s2, o2);
        assert(permuted(s2, o2) =~= t.remove(p));
        assert(s =~= s2.push(s.last()));
        assert(t[p] == s.last());
        assert(t.to_multiset().count(t[p]) > 0);
        assert(t.to_multiset() =~= t.to_multiset().remove(t[p]).insert(t[p]));
    }
}

/// Elements strictly ascending by a key, with the same multiset, are the
/// same sequence.
pub proof fn lemma_strictly_sorted_unique<A>(x: Seq<A>, y: Seq<A>, key: spec_fn(A) -> int)
    requires
        forall|i: int, j: int| 0 <= i < j < x.len() ==> key(x[i]) < key(x[j]),
        forall|i: int, j: int| 0 <= i < j < y.len() ==> key(y[i]) < key(y[j]),
        x.to_multiset() == y.to_multiset(),
    ensures
        x == y,
    decreases x.len(),
{
    broadcast use vstd::multiset::group_multiset_axioms;
    broadcast use vstd::seq_lib::group_to_multiset_ensures;

    if x.len() == 0 || y.len() == 0 {
        assert(x.to_multiset().len() == x.len());
        assert(y.to_multiset().len() == y.len());
        assert(x =~= y);
    } else {
        assert(x.contains(x[0]));
        assert(y.to_multiset().count(x[0]) > 0);
        assert(y.contains(x[0]));
        assert(y.contains(y[0]));
        assert(x.to_multiset().count(y[0]) > 0);
        assert(x.contains(y[0]));
        let i = choose|i: int| 0 <= i < x.len() && x[i] == y[0];
        let j = choose|j: int| 0 <= j < y.len() && y[j] == x[0];
        if x[0] != y[0] {
            assert(i > 0 && j > 0);
            assert(key(x[0]) < key(x[i]));
            assert(key(y[0]) < key(y[j]));
        }
        assert(x.remove(0) =~= x.drop_first());
        assert(y.remove(0) =~= y.drop_first());
        lemma_strictly_sorted_unique(x.drop_first(), y.drop_first(), key);
        assert(x =~= seq![x[0]] + x.drop_first());
        assert(y =~= seq![y[0]] + y.drop_first());
    }
}

/// Where a key `x` goes among positions ascending by id: after every id at
/// most `x`.
spec fn insert_pos(ids: Seq<u32>, o: Seq<usize>, x: u32) -> int
    decreases o.len(),
{
    if o.len() == 0 {
        0
    } else if x < ids[o.last() as int] {
        insert_pos(ids, o.drop_last(), x)
    } else {
        o.len() as int
    }
}

proof fn lemma_insert_pos(ids: Seq<u32>, o: Seq<usize>, x: u32)
    requires
        forall|i: int| 0 <= i < o.len() ==> o[i] < ids.len(),
        forall|i: int, j: int| 0 <= i < j < o.len() ==> ids[o[i] as int] <= ids[o[j] as int],
    ensures
        0 <= insert_pos(ids, o, x) <= o.len(),
        forall|a: int| 0 <= a < insert_pos(ids, o, x) ==> ids[o[a] as int] <= x,
        forall|a: int| insert_pos(ids, o, x) <= a < o.len() ==> x < ids[o[a] as int],
    decreases o.len(),
{
    if o.len() > 0 {
        let l = o.len() - 1;
        if x < ids[o.last() as int] {
            lemma_insert_pos(ids, o.drop_last(), x);
            assert forall|a: int| insert_pos(ids, o, x) <= a < o.len() implies x < ids[o[a] as int] by {
                if a < l {
                    assert(o.drop_last()[a] == o[a]);
                }
            }
            assert forall|a: int| 0 <= a < insert_pos(ids, o, x) implies ids[o[a] as int] <= x by {
                assert(o.drop_last()[a] == o[a]);
            }
        } else {
            assert forall|a: int| 0 <= a < o.len() implies ids[o[a] as int] <= x by {
                if a < l {
                    assert(ids[o[a] as int] <= ids[o[l] as int]);
                }
            }
        }
    }
}

/// A stable order of integer keys, built by insertion.
proof fn stable_order_ids_witness(ids: Seq<u32>) -> (o: Seq<usize>)
    requires
        ids.len() <= usize::MAX,
    ensures
        is_stable_order_ids(ids, o),
    decreases ids.len(),
{
    if ids.len() == 0 {
        Seq::empty()
    } else {
        let n = (ids.len() - 1) as usize;
        let prev = ids.drop_last();
        let o = stable_order_ids_witness(prev);
        assert forall|i: int, j: int| 0 <= i < j < o.len() implies ids[o[i] as int] <= ids[o[j] as int] by {
            assert(id_before(prev, o[i] as int, o[j] as int));
        }
        lemma_insert_pos(ids, o, ids[n as int]);
        let p = insert_pos(ids, o, ids[n as int]);
        let r = o.insert(p, n);
        assert forall|x: int| 0 <= x < n implies prev[x] == ids[x] by {}
        assert forall|i: int, j: int| 0 <= i < j < r.len() implies id_before(ids, r[i] as int, r[j] as int) by {
            if j < p {
                assert(r[i] == o[i] && r[j] == o[j]);
                assert(id_before(prev, o[i] as int, o[j] as int));
                assert(prev[o[i] as int] == ids[o[i] as int] && prev[o[j] as int] == ids[o[j] as int]);
            } else if j == p {
                assert(r[i] == o[i] && r[j] == n);
            } else if i < p {
                assert(r[i] == o[i] && r[j] == o[j - 1]);
                assert(id_before(prev, o[i] as int, o[j - 1] as int));
                assert(prev[o[i] as int] == ids[o[i] as int] && prev[o[j - 1] as int] == ids[o[j - 1] as int]);
            } else if i == p {
                assert(r[i] == n && r[j] == o[j - 1]);
            } else {
                assert(r[i] == o[i - 1] && r[j] == o[j - 1]);
                assert(id_before(prev, o[i - 1] as int, o[j - 1] as int));
                assert(prev[o[i - 1] as int] == ids[o[i - 1] as int] && prev[o[j - 1] as int] == ids[o[j - 1] as int]);
            }
        }
        assert forall|j: usize| j < ids.len() implies #[trigger] r.contains(j) by {
            if j == n {
                assert(r[p] == n);
            } else {
                assert(o.contains(j));
                let a = choose|a: int| 0 <= a < o.len() && o[a] == j;
                if a < p {
                    assert(r[a] == j);
                } else {
                    assert(r[a + 1] == j);
                }
            }
        }
        assert forall|i: int| 0 <= i < r.len() implies r[i] < ids.len() by {
            if i < p {
                assert(r[i] == o[i]);
            } else if i > p {
                assert(r[i] == o[i - 1]);
            }
        }
        r
    }
}

/// Every sequence of integer keys has its stable order.
pub proof fn lemma_stable_order_ids_exists(ids: Seq<u32>)
    requires
        ids.len() <= usize::MAX,
    ensures
        is_stable_order_ids(ids, stable_order_of_ids(ids)),
{
    let o = stable_order_ids_witness(ids);
    assert(is_stable_order_ids(ids, o));
}

} // verus!
