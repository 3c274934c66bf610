//! Stable sorting by keys. A key is a sequence of integers compared
//! lexicographically (a proper prefix comes first), which covers texts (by
//! code point, as `str` compares them), numbers, and tuples of both. Items
//! with equal keys keep their original order.

use vstd::prelude::*;

verus! {

/// Lexicographic "less than" on keys.
pub open spec fn key_less(a: Seq<i128>, b: Seq<i128>) -> bool
    decreases a.len(),
{
    if a.len() == 0 {
        b.len() > 0
    } else if b.len() == 0 {
        false
    } else if a[0] < b[0] {
        true
    } else if a[0] > b[0] {
        false
    } else {
        key_less(a.drop_first(), b.drop_first())
    }
}

pub proof fn lemma_key_less_irreflexive(a: Seq<i128>)
    ensures
        !key_less(a, a),
    decreases a.len(),
{
    if a.len() > 0 {
        lemma_key_less_irreflexive(a.drop_first());
    }
}

pub proof fn lemma_key_less_transitive(a: Seq<i128>, b: Seq<i128>, c: Seq<i128>)
    requires
        key_less(a, b),
        key_less(b, c),
    ensures
        key_less(a, c),
    decreases a.len(),
{
    if a.len() > 0 && b.len() > 0 && c.len() > 0 && a[0] == b[0] && b[0] == c[0] {
        lemma_key_less_transitive(a.drop_first(), b.drop_first(), c.drop_first());
    }
}

pub proof fn lemma_key_less_total(a: Seq<i128>, b: Seq<i128>)
    ensures
        key_less(a, b) || key_less(b, a) || a == b,
    decreases a.len(),
{
    if a.len() > 0 && b.len() > 0 && a[0] == b[0] {
        lemma_key_less_total(a.drop_first(), b.drop_first());
        if a.drop_first() == b.drop_first() {
            assert(a =~= seq![a[0]] + a.drop_first());
            assert(b =~= seq![b[0]] + b.drop_first());
        }
    } else if a.len() == 0 && b.len() == 0 {
        assert(a =~= b);
    }
}

pub proof fn lemma_key_less_asymmetric(a: Seq<i128>, b: Seq<i128>)
    requires
        key_less(a, b),
    ensures
        !key_less(b, a),
{
    if key_less(b, a) {
        lemma_key_less_transitive(a, b, a);
        lemma_key_less_irreflexive(a);
    }
}

/// Whether item `i` goes before item `j`: by key (descending when `desc`),
/// and by original position between equal keys.
pub open spec fn ranked_before(keys: Seq<Seq<i128>>, desc: bool, i: int, j: int) -> bool {
    let ki = keys[i];
    let kj = keys[j];
    (if desc {
        key_less(kj, ki)
    } else {
        key_less(ki, kj)
    }) || (ki == kj && i < j)
}

pub proof fn lemma_ranked_transitive(keys: Seq<Seq<i128>>, desc: bool, i: int, j: int, k: int)
    requires
        ranked_before(keys, desc, i, j),
        ranked_before(keys, desc, j, k),
    ensures
        ranked_before(keys, desc, i, k),
{
    let (ki, kj, kk) = (keys[i], keys[j], keys[k]);
    if desc {
        if key_less(kj, ki) && key_less(kk, kj) {
            lemma_key_less_transitive(kk, kj, ki);
        }
    } else {
        if key_less(ki, kj) && key_less(kj, kk) {
            lemma_key_less_transitive(ki, kj, kk);
        }
    }
}

pub proof fn lemma_ranked_total(keys: Seq<Seq<i128>>, desc: bool, i: int, j: int)
    requires
        i != j,
    ensures
        ranked_before(keys, desc, i, j) || ranked_before(keys, desc, j, i),
{
    lemma_key_less_total(keys[i], keys[j]);
}

pub proof fn lemma_ranked_asymmetric(keys: Seq<Seq<i128>>, desc: bool, i: int, j: int)
    requires
        ranked_before(keys, desc, i, j),
    ensures
        !ranked_before(keys, desc, j, i),
{
    let (ki, kj) = (keys[i], keys[j]);
    if desc {
        if key_less(kj, ki) {
            lemma_key_less_asymmetric(kj, ki);
            if ki == kj {
                lemma_key_less_irreflexive(ki);
            }
        } else {
            if key_less(ki, kj) {
                lemma_key_less_irreflexive(ki);
            }
        }
    } else {
        if key_less(ki, kj) {
            lemma_key_less_asymmetric(ki, kj);
            if ki == kj {
                lemma_key_less_irreflexive(ki);
            }
        } else {
            if key_less(kj, ki) {
                lemma_key_less_irreflexive(ki);
            }
        }
    }
}

pub open spec fn key_views(keys: Seq<Vec<i128>>) -> Seq<Seq<i128>> {
    keys.map_values(|k: Vec<i128>| k@)
}

/// `order` lists exactly the items of `selected`, each once, best first.
pub open spec fn sorted_selection(
    keys: Seq<Seq<i128>>,
    desc: bool,
    selected: Seq<usize>,
    order: Seq<usize>,
) -> bool {
    &&& order.len() == selected.len()
    &&& forall|x: usize| order.contains(x) <==> selected.contains(x)
    &&& forall|a: int, b: int|
        0 <= a < b < order.len() ==> ranked_before(
            keys,
            desc,
            #[trigger] order[a] as int,
            #[trigger] order[b] as int,
        )
}

pub fn key_less_exec(a: &Vec<i128>, b: &Vec<i128>) -> (r: bool)
    ensures
        r == key_less(a@, b@),
{
    let mut i: usize = 0;
    assert(a@.skip(0) =~= a@);
    assert(b@.skip(0) =~= b@);
    while i < a.len() && i < b.len()
        invariant
            i <= a@.len(),
            i <= b@.len(),
            key_less(a@, b@) == key_less(a@.skip(i as int), b@.skip(i as int)),
        decreases a@.len() - i,
    {
        if a[i] < b[i] {
            return true;
        }
        if a[i] > b[i] {
            return false;
        }
        assert(a@.skip(i as int).drop_first() =~= a@.skip(i + 1));
        assert(b@.skip(i as int).drop_first() =~= b@.skip(i + 1));
        i = i + 1;
    }
    i == a.len() && i < b.len()
}

fn keys_equal(a: &Vec<i128>, b: &Vec<i128>) -> (r: bool)
    ensures
        r == (a@ == b@),
{
    if a.len() != b.len() {
        return false;
    }
    let mut i: usize = 0;
    while i < a.len()
        invariant
            i <= a@.len(),
            a@.len() == b@.len(),
            forall|k: int| 0 <= k < i ==> a@[k] == b@[k],
        decreases a@.len() - i,
    {
        if a[i] != b[i] {
            return false;
        }
        i = i + 1;
    }
    assert(a@ =~= b@);
    true
}

fn before_exec(keys: &Vec<Vec<i128>>, desc: bool, i: usize, j: usize) -> (r: bool)
    requires
        i < keys@.len(),
        j < keys@.len(),
    ensures
        r == ranked_before(key_views(keys@), desc, i as int, j as int),
{
    let ki = &keys[i];
    let kj = &keys[j];
    let by_key = if desc {
        key_less_exec(kj, ki)
    } else {
        key_less_exec(ki, kj)
    };
    by_key || (keys_equal(ki, kj) && i < j)
}

/// Sorts the items `selected` (given in increasing position) by their keys,
/// stably.
pub fn sort_indices(keys: &Vec<Vec<i128>>, desc: bool, selected: &Vec<usize>) -> (r: Vec<usize>)
    requires
        forall|k: int| 0 <= k < selected@.len() ==> #[trigger] selected@[k] < keys@.len(),
        forall|a: int, b: int| 0 <= a < b < selected@.len() ==> selected@[a] < selected@[b],
    ensures
        sorted_selection(key_views(keys@), desc, selected@, r@),
{
    let ghost kv = key_views(keys@);
    let mut out: Vec<usize> = Vec::new();
    let mut n: usize = 0;
    while n < selected.len()
        invariant
            kv == key_views(keys@),
            n <= selected@.len(),
            forall|k: int| 0 <= k < selected@.len() ==> #[trigger] selected@[k] < keys@.len(),
            forall|a: int, b: int| 0 <= a < b < selected@.len() ==> selected@[a] < selected@[b],
            out@.len() == n,
            forall|k: int| 0 <= k < out@.len() ==> #[trigger] out@[k] < keys@.len(),
            forall|x: usize| out@.contains(x) <==> selected@.take(n as int).contains(x),
            forall|a: int, b: int|
                0 <= a < b < out@.len() ==> ranked_before(
                    kv,
                    desc,
                    #[trigger] out@[a] as int,
                    #[trigger] out@[b] as int,
                ),
        decreases selected@.len() - n,
    {
        let x = selected[n];
        assert(!out@.contains(x)) by {
            if out@.contains(x) {
                let k = choose|k: int| 0 <= k < n && selected@.take(n as int)[k] == x;
                assert(selected@[k] < selected@[n as int]);
            }
        }
        let mut p: usize = out.len();
        while p > 0 && before_exec(keys, desc, x, out[p - 1])
            invariant
                kv == key_views(keys@),
                p <= out@.len(),
                x < keys@.len(),
                forall|k: int| 0 <= k < out@.len() ==> #[trigger] out@[k] < keys@.len(),
                forall|k: int| p <= k < out@.len() ==> ranked_before(kv, desc, x as int, #[trigger] out@[k] as int),
            decreases p,
        {
            p = p - 1;
        }
        proof {
            if p > 0 {
                let y = out@[p - 1];
                assert(y != x);
                lemma_ranked_total(kv, desc, y as int, x as int);
                assert forall|k: int| 0 <= k < p implies ranked_before(kv, desc, #[trigger] out@[k] as int, x as int) by {
                    if k < p - 1 {
                        lemma_ranked_transitive(kv, desc, out@[k] as int, y as int, x as int);
                    }
                }
            }
        }
        let ghost before = out@;
        out.insert(p, x);
        proof {
            assert(out@ =~= before.take(p as int).push(x) + before.skip(p as int));
            assert forall|a: int, b: int|
                0 <= a < b < out@.len() implies ranked_before(
                    kv,
                    desc,
                    #[trigger] out@[a] as int,
                    #[trigger] out@[b] as int,
                ) by {
                if b < p {
                    assert(out@[a] == before[a] && out@[b] == before[b]);
                } else if b == p {
                    assert(out@[a] == before[a]);
                } else if a == p {
                    assert(out@[b] == before[b - 1]);
                } else if a < p {
                    assert(out@[a] == before[a] && out@[b] == before[b - 1]);
                } else {
                    assert(out@[a] == before[a - 1] && out@[b] == before[b - 1]);
                }
            }
            assert(selected@.take(n + 1) =~= selected@.take(n as int).push(x));
            assert forall|y: usize| out@.contains(y) <==> selected@.take(n + 1).contains(y) by {
                if out@.contains(y) {
                    let k = choose|k: int| 0 <= k < out@.len() && out@[k] == y;
                    if k < p {
                        assert(before[k] == y);
                    } else if k > p {
                        assert(before[k - 1] == y);
                    }
                }
                if before.contains(y) {
                    let k = choose|k: int| 0 <= k < before.len() && before[k] == y;
                    if k < p {
                        assert(out@[k] == y);
                    } else {
                        assert(out@[k + 1] == y);
                    }
                }
                if y == x {
                    assert(out@[p as int] == x);
                }
                if selected@.take(n + 1).contains(y) {
                    let k = choose|k: int| 0 <= k < n + 1 && #[trigger] selected@.take(n + 1)[k] == y;
                    if k < n {
                        assert(selected@.take(n as int)[k] == y);
                        assert(selected@.take(n as int).contains(y));
                    }
                }
                if selected@.take(n as int).contains(y) {
                    let k = choose|k: int| 0 <= k < n && #[trigger] selected@.take(n as int)[k] == y;
                    assert(selected@.take(n + 1)[k] == y);
                }
                if y == x {
                    assert(selected@.take(n + 1)[n as int] == x);
                }
            }
            assert forall|k: int| 0 <= k < out@.len() implies #[trigger] out@[k] < keys@.len() by {
                if k < p {
                    assert(out@[k] == before[k]);
                } else if k > p {
                    assert(out@[k] == before[k - 1]);
                }
            }
        }
        n = n + 1;
    }
    assert(selected@.take(n as int) =~= selected@);
    out
}

pub open spec fn strictly_ranked(keys: Seq<Seq<i128>>, desc: bool, order: Seq<usize>) -> bool {
    forall|a: int, b: int|
        0 <= a < b < order.len() ==> ranked_before(
            keys,
            desc,
            #[trigger] order[a] as int,
            #[trigger] order[b] as int,
        )
}

/// Two orders of the same items that both follow the ranking are the same:
/// a stable sort has one result.
pub proof fn lemma_sorted_unique(keys: Seq<Seq<i128>>, desc: bool, o1: Seq<usize>, o2: Seq<usize>)
    requires
        o1.len() == o2.len(),
        forall|x: usize| o1.contains(x) <==> o2.contains(x),
        strictly_ranked(keys, desc, o1),
        strictly_ranked(keys, desc, o2),
    ensures
        o1 == o2,
    decreases o1.len(),
{
    if o1.len() > 0 {
        if o1[0] != o2[0] {
            assert(o1.contains(o1[0]));
            let j = choose|j: int| 0 <= j < o2.len() && o2[j] == o1[0];
            assert(o2.contains(o2[0]));
            let i = choose|i: int| 0 <= i < o1.len() && o1[i] == o2[0];
            assert(j > 0);
            assert(i > 0);
            assert(ranked_before(keys, desc, o2[0] as int, o2[j] as int));
            assert(ranked_before(keys, desc, o1[0] as int, o1[i] as int));
            lemma_ranked_asymmetric(keys, desc, o1[0] as int, o2[0] as int);
        }
        let t1 = o1.drop_first();
        let t2 = o2.drop_first();
        assert forall|x: usize| t1.contains(x) <==> t2.contains(x) by {
            if t1.contains(x) {
                let k = choose|k: int| 0 <= k < t1.len() && t1[k] == x;
                assert(o1[k + 1] == x);
                assert(ranked_before(keys, desc, o1[0] as int, o1[k + 1] as int));
                if x == o1[0] {
                    lemma_ranked_asymmetric(keys, desc, x as int, x as int);
                }
                assert(o1.contains(x));
                let m = choose|m: int| 0 <= m < o2.len() && o2[m] == x;
                assert(m != 0);
                assert(t2[m - 1] == x);
            }
            if t2.contains(x) {
                let k = choose|k: int| 0 <= k < t2.len() && t2[k] == x;
                assert(o2[k + 1] == x);
                assert(ranked_before(keys, desc, o2[0] as int, o2[k + 1] as int));
                if x == o2[0] {
                    lemma_ranked_asymmetric(keys, desc, x as int, x as int);
                }
                assert(o2.contains(x));
                let m = choose|m: int| 0 <= m < o1.len() && o1[m] == x;
                assert(m != 0);
                assert(t1[m - 1] == x);
            }
        }
        assert forall|a: int, b: int| 0 <= a < b < t1.len() implies ranked_before(keys, desc, #[trigger] t1[a] as int, #[trigger] t1[b] as int) by {
            assert(t1[a] == o1[a + 1] && t1[b] == o1[b + 1]);
        }
        assert forall|a: int, b: int| 0 <= a < b < t2.len() implies ranked_before(keys, desc, #[trigger] t2[a] as int, #[trigger] t2[b] as int) by {
            assert(t2[a] == o2[a + 1] && t2[b] == o2[b + 1]);
        }
        lemma_sorted_unique(keys, desc, t1, t2);
        assert(o1 =~= seq![o1[0]] + t1);
        assert(o2 =~= seq![o2[0]] + t2);
    }
}

/// The one order of `selected` that follows the ranking.
pub open spec fn sorted_order(keys: Seq<Seq<i128>>, desc: bool, selected: Seq<usize>) -> Seq<usize> {
    choose|o: Seq<usize>| sorted_selection(keys, desc, selected, o)
}

/// Any order that follows the ranking is `sorted_order`.
pub proof fn lemma_sorted_order(keys: Seq<Seq<i128>>, desc: bool, selected: Seq<usize>, o: Seq<usize>)
    requires
        sorted_selection(keys, desc, selected, o),
    ensures
        sorted_order(keys, desc, selected) == o,
{
    let c = sorted_order(keys, desc, selected);
    assert(sorted_selection(keys, desc, selected, c));
    lemma_sorted_unique(keys, desc, c, o);
}

} // verus!
