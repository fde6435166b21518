//! Arranging positions by a strict total order.
//!
//! A set of positions has exactly one arrangement in which each position
//! comes before every later one; callers describe the order by a spec
//! relation on positions and an executable comparison that decides it.

use vstd::prelude::*;

verus! {

/// `before` is a strict total order on positions: irreflexive,
/// transitive, and relating any two distinct positions one way or the
/// other.
pub open spec fn strict_total(before: spec_fn(int, int) -> bool) -> bool {
    &&& forall|i: int| !#[trigger] before(i, i)
    &&& forall|i: int, j: int, k: int| #[trigger] before(i, j) && #[trigger] before(j, k) ==> before(i, k)
    &&& forall|i: int, j: int| i != j ==> #[trigger] before(i, j) || before(j, i)
}

/// Each element of `o` comes before every later one.
pub open spec fn sorted_by(o: Seq<usize>, before: spec_fn(int, int) -> bool) -> bool {
    forall|a: int, b: int| 0 <= a < b < o.len() ==> #[trigger] before(o[a] as int, o[b] as int)
}

/// `o` holds exactly the positions of `items`, in the order `before`.
pub open spec fn is_arrangement(items: Seq<usize>, o: Seq<usize>, before: spec_fn(int, int) -> bool) -> bool {
    &&& o.len() == items.len()
    &&& forall|x: usize| o.contains(x) <==> items.contains(x)
    &&& sorted_by(o, before)
}

/// The arrangement of `items` by `before`.
pub open spec fn arrangement(items: Seq<usize>, before: spec_fn(int, int) -> bool) -> Seq<usize> {
    choose|o: Seq<usize>| is_arrangement(items, o, before)
}

/// No position occurs twice.
pub open spec fn distinct(s: Seq<usize>) -> bool {
    forall|t: int, u: int| 0 <= t < u < s.len() ==> s[t] != s[u]
}

/// Two sequences holding the same positions, each sorted by a strict
/// order, are equal: the order leaves no choice.
pub proof fn lemma_arrangement_unique(o1: Seq<usize>, o2: Seq<usize>, before: spec_fn(int, int) -> bool)
    requires
        strict_total(before),
        sorted_by(o1, before),
        sorted_by(o2, before),
        forall|x: usize| o1.contains(x) <==> o2.contains(x),
    ensures
        o1 == o2,
    decreases o1.len(),
{
    if o1.len() == 0 {
        if o2.len() > 0 {
            assert(o2.contains(o2[0]));
        }
        assert(o1 =~= o2);
    } else {
        assert(o1.contains(o1[0]));
        let a = o1[0];
        let b = o2[0];
        if a != b {
            let j = choose|j: int| 0 <= j < o2.len() && o2[j] == a;
            assert(o2.contains(b));
            let i = choose|i: int| 0 <= i < o1.len() && o1[i] == b;
            assert(before(b as int, a as int));
            assert(before(a as int, b as int));
            assert(before(a as int, a as int));
        }
        let p1 = o1.drop_first();
        let p2 = o2.drop_first();
        assert forall|x: usize| p1.contains(x) <==> p2.contains(x) by {
            if p1.contains(x) {
                let i = choose|i: int| 0 <= i < p1.len() && p1[i] == x;
                assert(o1[i + 1] == x);
                assert(o1.contains(x));
                if x == a {
                    assert(before(o1[0] as int, o1[i + 1] as int));
                }
                let j = choose|j: int| 0 <= j < o2.len() && o2[j] == x;
                if j == 0 {
                    assert(before(o1[0] as int, o1[i + 1] as int));
                }
                assert(p2[j - 1] == x);
            }
            if p2.contains(x) {
                let i = choose|i: int| 0 <= i < p2.len() && p2[i] == x;
                assert(o2[i + 1] == x);
                assert(o2.contains(x));
                if x == a {
                    assert(before(o2[0] as int, o2[i + 1] as int));
                }
                let j = choose|j: int| 0 <= j < o1.len() && o1[j] == x;
                if j == 0 {
                    assert(before(o2[0] as int, o2[i + 1] as int));
                }
                assert(p1[j - 1] == x);
            }
        }
        assert forall|c: int, d: int| 0 <= c < d < p1.len() implies #[trigger] before(p1[c] as int, p1[d] as int) by {
            assert(p1[c] == o1[c + 1] && p1[d] == o1[d + 1]);
        }
        assert forall|c: int, d: int| 0 <= c < d < p2.len() implies #[trigger] before(p2[c] as int, p2[d] as int) by {
            assert(p2[c] == o2[c + 1] && p2[d] == o2[d + 1]);
        }
        lemma_arrangement_unique(p1, p2, before);
        assert(o1 =~= seq![a] + p1);
        assert(o2 =~= seq![b] + p2);
    }
}

/// Arranges distinct positions by a strict total order decided by `less`.
pub fn arrange<F: Fn(usize, usize) -> bool>(items: Vec<usize>, less: &F, Ghost(before): Ghost<spec_fn(int, int) -> bool>) -> (o: Vec<usize>)
    requires
        strict_total(before),
        distinct(items@),
        forall|i: usize, j: usize| items@.contains(i) && items@.contains(j) ==> #[trigger] less.requires((i, j)),
        forall|i: usize, j: usize, b: bool| items@.contains(i) && items@.contains(j) && #[trigger] less.ensures((i, j), b)
            ==> b == before(i as int, j as int),
    ensures
        is_arrangement(items@, o@, before),
        o@ == arrangement(items@, before),
{
    let ghost all = items@;
    let mut remaining = items;
    let mut order: Vec<usize> = Vec::new();
    assert forall|y: usize| all.contains(y) implies order@.contains(y) || remaining@.contains(y) by {}
    while remaining.len() > 0
        invariant
            strict_total(before),
            forall|i: usize, j: usize| all.contains(i) && all.contains(j) ==> #[trigger] less.requires((i, j)),
            forall|i: usize, j: usize, b: bool| all.contains(i) && all.contains(j) && #[trigger] less.ensures((i, j), b)
                ==> b == before(i as int, j as int),
            distinct(remaining@),
            forall|t: int| 0 <= t < remaining@.len() ==> all.contains(#[trigger] remaining@[t]),
            forall|a: int| 0 <= a < order@.len() ==> all.contains(#[trigger] order@[a]),
            forall|y: usize| all.contains(y) ==> order@.contains(y) || remaining@.contains(y),
            sorted_by(order@, before),
            forall|a: int, t: int| 0 <= a < order@.len() && 0 <= t < remaining@.len()
                ==> #[trigger] before(order@[a] as int, remaining@[t] as int),
            order@.len() + remaining@.len() == all.len(),
        decreases remaining@.len(),
    {
        let mut m: usize = 0;
        let mut k: usize = 1;
        assert(all.contains(remaining@[0]));
        while k < remaining.len()
            invariant
                0 <= m < k <= remaining@.len(),
                strict_total(before),
                forall|i: usize, j: usize| all.contains(i) && all.contains(j) ==> #[trigger] less.requires((i, j)),
                forall|i: usize, j: usize, b: bool| all.contains(i) && all.contains(j) && #[trigger] less.ensures((i, j), b)
                    ==> b == before(i as int, j as int),
                forall|t: int| 0 <= t < remaining@.len() ==> all.contains(#[trigger] remaining@[t]),
                distinct(remaining@),
                forall|t: int| 0 <= t < k && t != m ==> #[trigger] before(remaining@[m as int] as int, remaining@[t] as int),
            decreases remaining@.len() - k,
        {
            assert(all.contains(remaining@[k as int]));
            assert(all.contains(remaining@[m as int]));
            let b = less(remaining[k], remaining[m]);
            if b {
                assert forall|t: int| 0 <= t < k + 1 && t != k implies
                    #[trigger] before(remaining@[k as int] as int, remaining@[t] as int) by {
                    if t != m {
                        assert(before(remaining@[m as int] as int, remaining@[t] as int));
                    }
                }
                m = k;
            } else {
                assert(remaining@[k as int] != remaining@[m as int]);
                assert(before(remaining@[k as int] as int, remaining@[m as int] as int)
                    || before(remaining@[m as int] as int, remaining@[k as int] as int));
            }
            k = k + 1;
        }
        let ghost old_rem = remaining@;
        let ghost old_order = order@;
        let y = remaining.remove(m);
        order.push(y);
        assert forall|t: int| 0 <= t < remaining@.len() implies
            remaining@[t] == old_rem[if t < m { t } else { t + 1 }] by {}
        assert forall|a: int, b: int| 0 <= a < b < order@.len() implies
            #[trigger] before(order@[a] as int, order@[b] as int) by {
            if b == order@.len() - 1 {
                assert(order@[b] == old_rem[m as int]);
                assert(order@[a] == old_order[a]);
            } else {
                assert(order@[a] == old_order[a] && order@[b] == old_order[b]);
            }
        }
        assert forall|a: int, t: int| 0 <= a < order@.len() && 0 <= t < remaining@.len() implies
            #[trigger] before(order@[a] as int, remaining@[t] as int) by {
            let ot = if t < m { t } else { t + 1 };
            assert(remaining@[t] == old_rem[ot]);
            if a == order@.len() - 1 {
                assert(order@[a] == old_rem[m as int]);
                assert(ot != m);
            } else {
                assert(order@[a] == old_order[a]);
            }
        }
        assert forall|y2: usize| all.contains(y2) implies order@.contains(y2) || remaining@.contains(y2) by {
            if old_order.contains(y2) {
                let a = choose|a: int| 0 <= a < old_order.len() && old_order[a] == y2;
                assert(order@[a] == y2);
            } else {
                assert(old_rem.contains(y2));
                let t = choose|t: int| 0 <= t < old_rem.len() && old_rem[t] == y2;
                if t == m {
                    assert(order@[order@.len() - 1] == y2);
                } else if t < m {
                    assert(remaining@[t] == y2);
                } else {
                    assert(remaining@[t - 1] == y2);
                }
            }
        }
        assert forall|t: int, u: int| 0 <= t < u < remaining@.len() implies remaining@[t] != remaining@[u] by {
            let ot = if t < m { t } else { t + 1 };
            let ou = if u < m { u } else { u + 1 };
            assert(remaining@[t] == old_rem[ot] && remaining@[u] == old_rem[ou]);
        }
        assert forall|t: int| 0 <= t < remaining@.len() implies all.contains(#[trigger] remaining@[t]) by {
            let ot = if t < m { t } else { t + 1 };
            assert(remaining@[t] == old_rem[ot]);
        }
        assert forall|a: int| 0 <= a < order@.len() implies all.contains(#[trigger] order@[a]) by {
            if a < old_order.len() {
                assert(order@[a] == old_order[a]);
            } else {
                assert(order@[a] == old_rem[m as int]);
            }
        }
    }
    assert forall|x: usize| order@.contains(x) <==> all.contains(x) by {
        if all.contains(x) {
            assert(order@.contains(x) || remaining@.contains(x));
        }
        if order@.contains(x) {
            let a = choose|a: int| 0 <= a < order@.len() && order@[a] == x;
        }
    }
    assert(is_arrangement(all, order@, before));
    assert(is_arrangement(all, arrangement(all, before), before));
    proof { lemma_arrangement_unique(order@, arrangement(all, before), before); }
    order
}

} // verus!
