//! The stable order of a sequence of keys: the arrangement in which the keys
//! stand sorted and alike keys keep the order they came in.

use crate::sorting::{
    goes_before, key_views, lemma_key_irreflexive, lemma_key_transitive,
    lemma_not_before_transitive, must_precede, SortKey, SortKeyView,
};
use vstd::prelude::*;
use vstd::set_lib::{lemma_int_range, lemma_len_subset, lemma_subset_equality, set_int_range};

verus! {

/// The place at which item `x` joins `order`: behind the last item that it
/// need not stand before.
pub open spec fn slot(order: Seq<int>, keys: Seq<SortKeyView>, x: int, descending: bool) -> int
    decreases order.len(),
{
    if order.len() == 0 {
        0
    } else if goes_before(keys[x], keys[order.last()], descending) {
        slot(order.drop_last(), keys, x, descending)
    } else {
        order.len() as int
    }
}

/// The stable order of the first `n` keys: the order of the first `n - 1`,
/// which the last of them joins at its place.
pub open spec fn stable_order_of_first(keys: Seq<SortKeyView>, n: nat, descending: bool) -> Seq<
    int,
>
    decreases n,
{
    if n == 0 {
        Seq::empty()
    } else {
        let before = stable_order_of_first(keys, (n - 1) as nat, descending);
        before.insert(slot(before, keys, n - 1, descending), n - 1)
    }
}

/// The stable order of `keys`: at each place the index of the key that
/// stands there once the keys are sorted.
pub open spec fn stable_order(keys: Seq<SortKeyView>, descending: bool) -> Seq<int> {
    stable_order_of_first(keys, keys.len(), descending)
}

/// `items` in the given order.
pub open spec fn arranged<T>(items: Seq<T>, order: Seq<int>) -> Seq<T> {
    Seq::new(order.len(), |i: int| items[order[i]])
}

/// Whether `order` names each of the first `n` indices once.
pub open spec fn is_rearrangement(order: Seq<int>, n: nat) -> bool {
    &&& order.len() == n
    &&& forall|i: int| 0 <= i < order.len() ==> 0 <= #[trigger] order[i] < n
    &&& forall|i: int, j: int|
        0 <= i < j < order.len() ==> #[trigger] order[i] != #[trigger] order[j]
}

/// Whether the keys stand sorted in `order`, and alike keys in the order
/// of their indices.
pub open spec fn in_stable_order(order: Seq<int>, keys: Seq<SortKeyView>, descending: bool) -> bool {
    forall|a: int, b: int|
        0 <= a < b < order.len() ==> {
            &&& !goes_before(keys[#[trigger] order[b]], keys[#[trigger] order[a]], descending)
            &&& (goes_before(keys[order[a]], keys[order[b]], descending) || order[a] < order[b])
        }
}

/// Whether the keys stand sorted as they are.
pub open spec fn is_sorted(keys: Seq<SortKeyView>, descending: bool) -> bool {
    forall|i: int, j: int|
        0 <= i < j < keys.len() ==> !goes_before(#[trigger] keys[j], #[trigger] keys[i], descending)
}

/// The index values of a vector of indices.
pub open spec fn indices(order: Seq<usize>) -> Seq<int> {
    order.map_values(|i: usize| i as int)
}

/// What holds of the place at which an item joins an order.
pub proof fn lemma_slot(order: Seq<int>, keys: Seq<SortKeyView>, x: int, descending: bool)
    ensures
        0 <= slot(order, keys, x, descending) <= order.len(),
        forall|j: int|
            slot(order, keys, x, descending) <= j < order.len() ==> goes_before(
                keys[x],
                keys[#[trigger] order[j]],
                descending,
            ),
        slot(order, keys, x, descending) > 0 ==> !goes_before(
            keys[x],
            keys[order[slot(order, keys, x, descending) - 1]],
            descending,
        ),
    decreases order.len(),
{
    if order.len() > 0 && goes_before(keys[x], keys[order.last()], descending) {
        let shorter = order.drop_last();
        lemma_slot(shorter, keys, x, descending);
        let p = slot(order, keys, x, descending);
        assert forall|j: int| p <= j < order.len() implies goes_before(
            keys[x],
            keys[#[trigger] order[j]],
            descending,
        ) by {
            if j < shorter.len() {
                assert(order[j] == shorter[j]);
            }
        }
        if p > 0 {
            assert(order[p - 1] == shorter[p - 1]);
        }
    }
}

/// Two keys cannot each have to stand before the other.
pub proof fn lemma_goes_before_one_way(a: SortKeyView, b: SortKeyView, descending: bool)
    requires
        goes_before(a, b, descending),
    ensures
        !goes_before(b, a, descending),
{
    if goes_before(b, a, descending) {
        if descending {
            lemma_key_transitive(b, a, b);
        } else {
            lemma_key_transitive(a, b, a);
        }
        lemma_key_irreflexive(a);
        lemma_key_irreflexive(b);
    }
}

/// The stable order of the first `n` keys names each of the first `n`
/// indices once, and the keys stand sorted in it, alike keys in the order of
/// their indices.
pub proof fn lemma_stable_order_of_first(keys: Seq<SortKeyView>, n: nat, descending: bool)
    requires
        n <= keys.len(),
    ensures
        is_rearrangement(stable_order_of_first(keys, n, descending), n),
        in_stable_order(stable_order_of_first(keys, n, descending), keys, descending),
    decreases n,
{
    if n > 0 {
        let before = stable_order_of_first(keys, (n - 1) as nat, descending);
        let x = n - 1;
        let p = slot(before, keys, x, descending);
        let after = before.insert(p, x);
        lemma_stable_order_of_first(keys, (n - 1) as nat, descending);
        lemma_slot(before, keys, x, descending);
        assert forall|i: int| 0 <= i < after.len() implies 0 <= #[trigger] after[i] < n by {
            if i < p {
                assert(after[i] == before[i]);
            } else if i > p {
                assert(after[i] == before[i - 1]);
            }
        }
        assert forall|i: int, j: int| 0 <= i < j < after.len() implies #[trigger] after[i]
            != #[trigger] after[j] by {
            let oi = if i < p { i } else { i - 1 };
            let oj = if j < p { j } else { j - 1 };
            if i != p {
                assert(after[i] == before[oi]);
            }
            if j != p {
                assert(after[j] == before[oj]);
            }
        }
        assert forall|a: int, b: int| 0 <= a < b < after.len() implies {
            &&& !goes_before(keys[#[trigger] after[b]], keys[#[trigger] after[a]], descending)
            &&& (goes_before(keys[after[a]], keys[after[b]], descending) || after[a] < after[b])
        } by {
            let oa = if a < p { a } else { a - 1 };
            let ob = if b < p { b } else { b - 1 };
            if a != p {
                assert(after[a] == before[oa]);
            }
            if b != p {
                assert(after[b] == before[ob]);
            }
            if b == p {
                if a < p - 1 {
                    lemma_not_before_transitive(
                        keys[x],
                        keys[before[p - 1]],
                        keys[before[a]],
                        descending,
                    );
                }
            } else if a == p {
                lemma_goes_before_one_way(keys[x], keys[before[ob]], descending);
            }
        }
    }
}

/// The stable order names each index once: it rearranges, and neither drops
/// nor repeats.
pub proof fn lemma_stable_order_rearranges(keys: Seq<SortKeyView>, descending: bool)
    ensures
        is_rearrangement(stable_order(keys, descending), keys.len()),
{
    lemma_stable_order_of_first(keys, keys.len(), descending);
}

/// In the stable order the keys stand sorted, and of two alike keys the one
/// that came first stands first.
pub proof fn lemma_stable_order_sorts(keys: Seq<SortKeyView>, descending: bool)
    ensures
        in_stable_order(stable_order(keys, descending), keys, descending),
        is_sorted(arranged(keys, stable_order(keys, descending)), descending),
{
    lemma_stable_order_of_first(keys, keys.len(), descending);
    let order = stable_order(keys, descending);
    let sorted = arranged(keys, order);
    assert forall|i: int, j: int| 0 <= i < j < sorted.len() implies !goes_before(
        #[trigger] sorted[j],
        #[trigger] sorted[i],
        descending,
    ) by {
        assert(sorted[i] == keys[order[i]] && sorted[j] == keys[order[j]]);
    }
}

/// The order in which each item stays where it is.
pub open spec fn identity_order(n: nat) -> Seq<int> {
    Seq::new(n, |i: int| i)
}

/// Keys that stand sorted already stay as they are: the stable order of the
/// first `n` of them is the identity.
pub proof fn lemma_sorted_keys_stay(keys: Seq<SortKeyView>, n: nat, descending: bool)
    requires
        n <= keys.len(),
        is_sorted(keys, descending),
    ensures
        stable_order_of_first(keys, n, descending) == identity_order(n),
    decreases n,
{
    if n > 0 {
        lemma_sorted_keys_stay(keys, (n - 1) as nat, descending);
        let before = identity_order((n - 1) as nat);
        if n > 1 {
            assert(before.last() == n - 2);
            assert(!goes_before(keys[n - 1], keys[n - 2], descending));
        }
        assert(slot(before, keys, n - 1, descending) == n - 1);
        assert(before.insert(n - 1, n - 1) =~= identity_order(n));
    }
}

/// Items arranged in the identity order are the items as they were.
pub proof fn lemma_arranged_identity<T>(items: Seq<T>)
    ensures
        arranged(items, identity_order(items.len())) == items,
{
    assert(arranged(items, identity_order(items.len())) =~= items);
}

/// Arranging keeps every item, as many times as it occurred: the items in
/// the stable order of the first `n` keys are the first `n` items, rearranged.
pub proof fn lemma_arranged_keeps_items<T>(
    items: Seq<T>,
    keys: Seq<SortKeyView>,
    n: nat,
    descending: bool,
)
    requires
        n <= keys.len(),
        n <= items.len(),
    ensures
        arranged(items, stable_order_of_first(keys, n, descending)).to_multiset()
            == items.take(n as int).to_multiset(),
    decreases n,
{
    broadcast use vstd::seq_lib::group_to_multiset_ensures;

    if n == 0 {
        assert(arranged(items, stable_order_of_first(keys, n, descending)) =~= items.take(0));
    } else {
        let before = stable_order_of_first(keys, (n - 1) as nat, descending);
        let p = slot(before, keys, n - 1, descending);
        lemma_slot(before, keys, n - 1, descending);
        lemma_stable_order_of_first(keys, (n - 1) as nat, descending);
        lemma_arranged_keeps_items(items, keys, (n - 1) as nat, descending);
        assert(arranged(items, before.insert(p, n - 1)) =~= arranged(items, before).insert(
            p,
            items[n - 1],
        ));
        assert(items.take(n as int) =~= items.take(n - 1).push(items[n - 1]));
    }
}

/// An order that names each of the first `n` indices once names them all.
pub proof fn lemma_rearrangement_names_all(order: Seq<int>, n: nat)
    requires
        is_rearrangement(order, n),
    ensures
        forall|x: int| 0 <= x < n ==> order.contains(x),
{
    let named = order.to_set();
    let all = set_int_range(0, n as int);
    assert(order.no_duplicates());
    order.unique_seq_to_set();
    lemma_int_range(0, n as int);
    assert(named.subset_of(all)) by {
        assert forall|x: int| named.contains(x) implies all.contains(x) by {
            let i = choose|i: int| 0 <= i < order.len() && order[i] == x;
            assert(0 <= order[i] < n);
        }
    }
    lemma_len_subset(named, all);
    lemma_subset_equality(named, all);
    assert forall|x: int| 0 <= x < n implies order.contains(x) by {
        assert(all.contains(x));
        assert(named.contains(x));
    }
}

/// Two orders of the same indices in both of which the keys stand sorted,
/// alike keys in the order of their indices, are one order.
pub proof fn lemma_orders_agree(
    one: Seq<int>,
    other: Seq<int>,
    keys: Seq<SortKeyView>,
    descending: bool,
)
    requires
        one.len() == other.len(),
        one.no_duplicates(),
        other.no_duplicates(),
        forall|x: int| one.contains(x) <==> other.contains(x),
        in_stable_order(one, keys, descending),
        in_stable_order(other, keys, descending),
    ensures
        one == other,
    decreases one.len(),
{
    if one.len() == 0 {
        assert(one =~= other);
    } else {
        assert(one.contains(one[0]));
        assert(other.contains(other[0]));
        let i = choose|i: int| 0 <= i < other.len() && other[i] == one[0];
        let j = choose|j: int| 0 <= j < one.len() && one[j] == other[0];
        if i > 0 && j > 0 {
            assert(!goes_before(keys[other[i]], keys[other[0]], descending));
            assert(!goes_before(keys[one[j]], keys[one[0]], descending));
            assert(other[0] < other[i]);
            assert(one[0] < one[j]);
        }
        assert(one[0] == other[0]);
        let rest = one.drop_first();
        let other_rest = other.drop_first();
        assert forall|x: int| rest.contains(x) <==> other_rest.contains(x) by {
            if rest.contains(x) {
                let k = choose|k: int| 0 <= k < rest.len() && rest[k] == x;
                assert(one[k + 1] == x);
                assert(one.contains(x));
                let m = choose|m: int| 0 <= m < other.len() && other[m] == x;
                assert(m > 0);
                assert(other_rest[m - 1] == x);
            }
            if other_rest.contains(x) {
                let k = choose|k: int| 0 <= k < other_rest.len() && other_rest[k] == x;
                assert(other[k + 1] == x);
                assert(other.contains(x));
                let m = choose|m: int| 0 <= m < one.len() && one[m] == x;
                assert(m > 0);
                assert(rest[m - 1] == x);
            }
        }
        assert forall|a: int, b: int| 0 <= a < b < rest.len() implies {
            &&& !goes_before(keys[#[trigger] rest[b]], keys[#[trigger] rest[a]], descending)
            &&& (goes_before(keys[rest[a]], keys[rest[b]], descending) || rest[a] < rest[b])
        } by {
            assert(rest[a] == one[a + 1] && rest[b] == one[b + 1]);
        }
        assert forall|a: int, b: int| 0 <= a < b < other_rest.len() implies {
            &&& !goes_before(
                keys[#[trigger] other_rest[b]],
                keys[#[trigger] other_rest[a]],
                descending,
            )
            &&& (goes_before(keys[other_rest[a]], keys[other_rest[b]], descending) || other_rest[a]
                < other_rest[b])
        } by {
            assert(other_rest[a] == other[a + 1] && other_rest[b] == other[b + 1]);
        }
        assert(rest.no_duplicates()) by {
            assert forall|a: int, b: int| 0 <= a < rest.len() && 0 <= b < rest.len() && a
                != b implies rest[a] != rest[b] by {
                assert(rest[a] == one[a + 1] && rest[b] == one[b + 1]);
            }
        }
        assert(other_rest.no_duplicates()) by {
            assert forall|a: int, b: int| 0 <= a < other_rest.len() && 0 <= b < other_rest.len()
                && a != b implies other_rest[a] != other_rest[b] by {
                assert(other_rest[a] == other[a + 1] && other_rest[b] == other[b + 1]);
            }
        }
        lemma_orders_agree(rest, other_rest, keys, descending);
        assert(one =~= seq![one[0]] + rest);
        assert(other =~= seq![other[0]] + other_rest);
    }
}

/// The stable order is the only one of its kind: an order that names each
/// index once, and in which the keys stand sorted, alike keys in the order of
/// their indices, is the stable order.
pub proof fn lemma_stable_order_is_unique(order: Seq<int>, keys: Seq<SortKeyView>, descending: bool)
    requires
        is_rearrangement(order, keys.len()),
        in_stable_order(order, keys, descending),
    ensures
        order == stable_order(keys, descending),
{
    let stable = stable_order(keys, descending);
    lemma_stable_order_of_first(keys, keys.len(), descending);
    lemma_rearrangement_names_all(order, keys.len());
    lemma_rearrangement_names_all(stable, keys.len());
    assert forall|x: int| order.contains(x) <==> stable.contains(x) by {
        if order.contains(x) {
            let i = choose|i: int| 0 <= i < order.len() && order[i] == x;
            assert(0 <= order[i] < keys.len());
        }
        if stable.contains(x) {
            let i = choose|i: int| 0 <= i < stable.len() && stable[i] == x;
            assert(0 <= stable[i] < keys.len());
        }
    }
    lemma_orders_agree(order, stable, keys, descending);
}

/// The stable order of `keys`.
pub fn stable_order_of(keys: &Vec<SortKey>, descending: bool) -> (order: Vec<usize>)
    ensures
        indices(order@) == stable_order(key_views(keys@), descending),
{
    let ghost views = key_views(keys@);
    let mut order: Vec<usize> = Vec::new();
    let mut x: usize = 0;
    assert(indices(order@) =~= stable_order_of_first(views, 0, descending));
    while x < keys.len()
        invariant
            x <= keys.len(),
            views == key_views(keys@),
            order.len() == x,
            forall|i: int| 0 <= i < order.len() ==> #[trigger] order@[i] < x,
            indices(order@) == stable_order_of_first(views, x as nat, descending),
        decreases keys.len() - x,
    {
        let ghost before = indices(order@);
        let mut p: usize = order.len();
        assert(before.take(p as int) == before);
        while p > 0 && must_precede(&keys[x], &keys[order[p - 1]], descending)
            invariant
                p <= order.len(),
                x < keys.len(),
                views == key_views(keys@),
                before == indices(order@),
                forall|i: int| 0 <= i < order.len() ==> #[trigger] order@[i] < x,
                slot(before, views, x as int, descending) == slot(
                    before.take(p as int),
                    views,
                    x as int,
                    descending,
                ),
            decreases p,
        {
            assert(before.take(p as int).drop_last() == before.take(p - 1));
            assert(before.take(p as int).last() == order@[p - 1]);
            p -= 1;
        }
        proof {
            if p > 0 {
                assert(before.take(p as int).last() == order@[p - 1]);
            }
            assert(slot(before, views, x as int, descending) == p);
        }
        order.insert(p, x);
        assert(indices(order@) =~= before.insert(p as int, x as int));
        x += 1;
    }
    order
}

} // verus!
