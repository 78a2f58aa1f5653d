//! Sorting a sequence of ducks in place, and what any sort outcome satisfies.

use vstd::prelude::*;
use vstd::seq_lib::group_to_multiset_ensures;
use vstd::multiset::group_multiset_axioms;
use std::cmp::Ordering;
use crate::duck::{Duck, DuckModel, duck_cmp, lemma_duck_order_total};

verus! {

/// The models of a sequence of ducks, in the same order.
pub open spec fn models(s: Seq<Duck>) -> Seq<DuckModel> {
    s.map_values(|d: Duck| d@)
}

/// No duck of `s` comes after a duck that follows it.
pub open spec fn is_sorted(s: Seq<DuckModel>) -> bool {
    forall|i: int, j: int| 0 <= i < j < s.len() ==> duck_cmp(s[i], s[j]) != Ordering::Greater
}

/// `after` holds exactly the ducks of `before`, as many times each, in sorted order.
pub open spec fn sorts_to(before: Seq<Duck>, after: Seq<Duck>) -> bool {
    &&& is_sorted(models(after))
    &&& after.to_multiset() == before.to_multiset()
}

/// "Not after" is transitive.
proof fn lemma_not_after_transitive(a: DuckModel, b: DuckModel, c: DuckModel)
    requires
        duck_cmp(a, b) != Ordering::Greater,
        duck_cmp(b, c) != Ordering::Greater,
    ensures
        duck_cmp(a, c) != Ordering::Greater,
{
    lemma_duck_order_total(a, b, c);
    lemma_duck_order_total(a, c, b);
    lemma_duck_order_total(b, c, a);
    lemma_duck_order_total(c, a, b);
}

/// Sorts the ducks in place, lightest first and by name at equal weight.
/// Ducks that compare equal keep their relative order.
pub fn sort_ducks(ducks: &mut Vec<Duck>)
    ensures
        sorts_to(old(ducks)@, final(ducks)@),
        final(ducks)@.len() == old(ducks)@.len(),
{
    broadcast use group_to_multiset_ensures, group_multiset_axioms;

    let n = ducks.len();
    let mut i: usize = 0;
    while i < n
        invariant
            n == ducks@.len(),
            i <= n,
            forall|a: int, b: int|
                0 <= a < b < i ==> duck_cmp(ducks@[a]@, ducks@[b]@) != Ordering::Greater,
            ducks@.to_multiset() == old(ducks)@.to_multiset(),
        decreases n - i,
    {
        let ghost before = ducks@;
        let d = ducks.remove(i);
        let ghost rest = ducks@;
        assert(rest =~= before.remove(i as int));
        let mut j: usize = i;
        while j > 0 && matches!(ducks[j - 1].cmp(&d), Ordering::Greater)
            invariant
                ducks@ == rest,
                rest.len() == n - 1,
                j <= i < n,
                forall|k: int| j <= k < i ==> duck_cmp(#[trigger] rest[k]@, d@) == Ordering::Greater,
            decreases j,
        {
            j = j - 1;
        }
        ducks.insert(j, d);
        proof {
            let s = ducks@;
            assert(s =~= rest.insert(j as int, d));
            assert(forall|k: int| 0 <= k < i ==> rest[k] == before[k]);
            assert forall|a: int, b: int| 0 <= a < b <= i implies duck_cmp(
                s[a]@,
                s[b]@,
            ) != Ordering::Greater by {
                if b < j {
                    assert(s[a] == before[a] && s[b] == before[b]);
                } else if b == j {
                    assert(s[b] == d);
                    assert(s[a] == before[a]);
                    assert(duck_cmp(rest[j - 1]@, d@) != Ordering::Greater);
                    if a < j - 1 {
                        lemma_not_after_transitive(before[a]@, before[j - 1]@, d@);
                    }
                } else if a == j {
                    assert(s[a] == d);
                    assert(s[b] == rest[b - 1]);
                    lemma_duck_order_total(rest[b - 1]@, d@, d@);
                } else if a < j {
                    assert(s[a] == before[a] && s[b] == rest[b - 1] && rest[b - 1] == before[b - 1]);
                } else {
                    assert(s[a] == rest[a - 1] && s[b] == rest[b - 1]);
                    assert(rest[a - 1] == before[a - 1] && rest[b - 1] == before[b - 1]);
                }
            }
            assert(before[i as int] == d);
            assert(before.contains(d));
            vstd::seq_lib::to_multiset_contains(before, d);
            vstd::seq_lib::to_multiset_remove(before, i as int);
            vstd::seq_lib::to_multiset_insert(rest, j as int, d);
            assert(before.to_multiset().count(d) > 0);
            assert(rest.to_multiset() == before.to_multiset().remove(d));
            assert(s.to_multiset() == rest.to_multiset().insert(d));
            assert(s.to_multiset() =~= before.to_multiset());
        }
        i = i + 1;
    }
    assert(is_sorted(models(ducks@)));
}

/// Two sequences with the same elements, as many times each, still have the
/// same elements once a function is applied to each.
pub proof fn lemma_map_keeps_multiset<A, B>(a: Seq<A>, b: Seq<A>, f: spec_fn(A) -> B)
    requires
        a.to_multiset() == b.to_multiset(),
    ensures
        a.map_values(f).to_multiset() == b.map_values(f).to_multiset(),
    decreases a.len(),
{
    broadcast use group_to_multiset_ensures, group_multiset_axioms;

    vstd::seq_lib::to_multiset_len(a);
    vstd::seq_lib::to_multiset_len(b);
    vstd::seq_lib::to_multiset_len(a);
    vstd::seq_lib::to_multiset_len(b);
    if a.len() == 0 {
        assert(b.len() == 0);
        assert(a.map_values(f) =~= b.map_values(f));
    } else {
        let x = a.last();
        let a1 = a.drop_last();
        assert(a =~= a1.push(x));
        assert(a.contains(x)) by {
            assert(a[a.len() - 1] == x);
        }
        assert(b.to_multiset().count(x) > 0);
        assert(b.contains(x));
        let k = choose|k: int| 0 <= k < b.len() && b[k] == x;
        let b1 = b.remove(k);
        assert(a1.to_multiset() =~= b1.to_multiset());
        lemma_map_keeps_multiset(a1, b1, f);
        let fa = a.map_values(f);
        let fb = b.map_values(f);
        assert(fa =~= a1.map_values(f).push(f(x)));
        assert(fb.remove(k) =~= b1.map_values(f));
        assert(fb.contains(f(x))) by {
            assert(fb[k] == f(x));
        }
        assert(fb.to_multiset().count(f(x)) > 0);
        assert(fa.to_multiset() =~= fb.to_multiset());
    }
}

/// Two sorted sequences of duck models with the same elements are the same sequence.
pub proof fn lemma_sorted_unique(a: Seq<DuckModel>, b: Seq<DuckModel>)
    requires
        is_sorted(a),
        is_sorted(b),
        a.to_multiset() == b.to_multiset(),
    ensures
        a == b,
    decreases a.len(),
{
    broadcast use group_to_multiset_ensures, group_multiset_axioms;

    vstd::seq_lib::to_multiset_len(a);
    vstd::seq_lib::to_multiset_len(b);
    if a.len() == 0 {
        assert(b.len() == 0);
        assert(a =~= b);
    } else {
        assert(b.len() > 0);
        assert(a.contains(a[0]));
        assert(b.to_multiset().count(a[0]) > 0);
        assert(b.contains(a[0]));
        assert(b.contains(b[0]));
        assert(a.to_multiset().count(b[0]) > 0);
        assert(a.contains(b[0]));
        let ka = choose|k: int| 0 <= k < a.len() && a[k] == b[0];
        let kb = choose|k: int| 0 <= k < b.len() && b[k] == a[0];
        lemma_duck_order_total(a[0], b[0], a[0]);
        assert(duck_cmp(a[0], b[0]) != Ordering::Greater) by {
            if ka == 0 {
            } else {
                assert(duck_cmp(a[0], a[ka]) != Ordering::Greater);
            }
        }
        assert(duck_cmp(b[0], a[0]) != Ordering::Greater) by {
            if kb == 0 {
            } else {
                assert(duck_cmp(b[0], b[kb]) != Ordering::Greater);
            }
        }
        assert(a[0] == b[0]);
        let a1 = a.drop_first();
        let b1 = b.drop_first();
        assert(a1 =~= a.remove(0));
        assert(b1 =~= b.remove(0));
        assert(a1.to_multiset() =~= b1.to_multiset());
        assert(is_sorted(a1)) by {
            assert forall|i: int, j: int| 0 <= i < j < a1.len() implies duck_cmp(a1[i], a1[j])
                != Ordering::Greater by {
                assert(a1[i] == a[i + 1] && a1[j] == a[j + 1]);
            }
        }
        assert(is_sorted(b1)) by {
            assert forall|i: int, j: int| 0 <= i < j < b1.len() implies duck_cmp(b1[i], b1[j])
                != Ordering::Greater by {
                assert(b1[i] == b[i + 1] && b1[j] == b[j + 1]);
            }
        }
        lemma_sorted_unique(a1, b1);
        assert forall|i: int| 0 < i < a.len() implies a[i] == b[i] by {
            assert(a[i] == a1[i - 1] && b[i] == b1[i - 1]);
        }
        assert(a =~= b);
    }
}

/// Whatever a sort outcome is, it holds the same duck models as the input, as
/// many times each.
pub proof fn lemma_sort_keeps_models(before: Seq<Duck>, after: Seq<Duck>)
    requires
        sorts_to(before, after),
    ensures
        models(after).to_multiset() == models(before).to_multiset(),
{
    lemma_map_keeps_multiset(after, before, |d: Duck| d@);
}

/// Sorting is deterministic: any two outcomes of sorting the same ducks are
/// the same sequence of names and weights.
pub proof fn lemma_sort_deterministic(before: Seq<Duck>, first: Seq<Duck>, second: Seq<Duck>)
    requires
        sorts_to(before, first),
        sorts_to(before, second),
    ensures
        models(first) == models(second),
{
    lemma_sort_keeps_models(before, first);
    lemma_sort_keeps_models(before, second);
    lemma_sorted_unique(models(first), models(second));
}

/// Sorting is idempotent: sorting ducks that are already sorted gives them
/// back in the same order.
pub proof fn lemma_sort_idempotent(before: Seq<Duck>, after: Seq<Duck>)
    requires
        is_sorted(models(before)),
        sorts_to(before, after),
    ensures
        models(after) == models(before),
{
    lemma_sort_keeps_models(before, after);
    lemma_sorted_unique(models(after), models(before));
}

} // verus!
