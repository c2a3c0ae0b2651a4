//! What holds of the steps on a page, whatever the page and the operations.

use crate::query_language::operand::OperandView;
use crate::query_language::operation::OperationView;
use crate::rm_api::entities::PageView;
use crate::rm_api::fields::Record;
use crate::rm_api::response::{
    all_present, keys_under, page_after, page_after_all, passes, present, sorted_by,
};
use crate::sorting::{goes_before, lemma_key_irreflexive, SortKeyView};
use crate::stable_order::{
    arranged, lemma_arranged_identity, lemma_arranged_keeps_items, lemma_sorted_keys_stay,
    lemma_stable_order_rearranges, lemma_stable_order_sorts, stable_order,
};
use vstd::prelude::*;

verus! {

/// Filtering by one test and then by another keeps the same items as
/// filtering by the other and then the one.
pub proof fn lemma_filters_commute<A>(s: Seq<A>, p: spec_fn(A) -> bool, q: spec_fn(A) -> bool)
    ensures
        s.filter(p).filter(q) == s.filter(q).filter(p),
    decreases s.len(),
{
    reveal(Seq::filter);
    if s.len() > 0 {
        let rest = s.drop_last();
        let x = s.last();
        lemma_filters_commute(rest, p, q);
        if p(x) {
            assert(s.filter(p) == rest.filter(p).push(x));
            assert(rest.filter(p).push(x).drop_last() == rest.filter(p));
        }
        if q(x) {
            assert(s.filter(q) == rest.filter(q).push(x));
            assert(rest.filter(q).push(x).drop_last() == rest.filter(q));
        }
    }
}

/// Two `Contains` filters keep the same records in whichever order they
/// are applied.
pub proof fn lemma_contains_commutes<T: Record>(
    page: PageView<T::V>,
    field: OperandView,
    value: OperandView,
    other_field: OperandView,
    other_value: OperandView,
)
    ensures
        page_after_all::<T>(
            page,
            seq![
                OperationView::Contains(field, value),
                OperationView::Contains(other_field, other_value),
            ],
        ) == page_after_all::<T>(
            page,
            seq![
                OperationView::Contains(other_field, other_value),
                OperationView::Contains(field, value),
            ],
        ),
{
    let first = OperationView::Contains(field, value);
    let second = OperationView::Contains(other_field, other_value);
    lemma_two_steps::<T>(page, first, second);
    lemma_two_steps::<T>(page, second, first);
    lemma_filters_commute(
        page.results,
        passes::<T>(field.text(), value.text()),
        passes::<T>(other_field.text(), other_value.text()),
    );
}

/// Two operations in a row: the second is applied to what the first gave.
pub proof fn lemma_two_steps<T: Record>(page: PageView<T::V>, first: OperationView, second: OperationView)
    ensures
        page_after_all::<T>(page, seq![first, second]) == match page_after::<T>(page, first) {
            Some(between) => page_after::<T>(between, second),
            None => None,
        },
        page_after_all::<T>(page, seq![first]) == page_after::<T>(page, first),
{
    let both = seq![first, second];
    assert(both.drop_last() =~= seq![first]);
    assert(seq![first].drop_last() =~= Seq::<OperationView>::empty());
    assert(page_after_all::<T>(page, Seq::<OperationView>::empty()) == Some(page));
    assert(page_after_all::<T>(page, seq![first]) == page_after::<T>(page, first));
}

/// A sort is stable: of two records with the same key, the one that stood
/// first before the sort stands first after it.
pub proof fn lemma_sort_is_stable(keys: Seq<SortKeyView>, descending: bool, a: int, b: int)
    requires
        0 <= a < b < keys.len(),
        keys[stable_order(keys, descending)[a]] == keys[stable_order(keys, descending)[b]],
    ensures
        stable_order(keys, descending)[a] < stable_order(keys, descending)[b],
{
    let order = stable_order(keys, descending);
    lemma_stable_order_rearranges(keys, descending);
    lemma_stable_order_sorts(keys, descending);
    lemma_key_irreflexive(keys[order[a]]);
    assert(!goes_before(keys[order[a]], keys[order[b]], descending));
}

/// Records that are all alike under the sort field stay in the order they
/// stood in.
pub proof fn lemma_alike_records_stay<V>(results: Seq<V>, keys: Seq<SortKeyView>, descending: bool)
    requires
        keys.len() == results.len(),
        forall|i: int, j: int| 0 <= i < j < keys.len() ==> keys[i] == keys[j],
    ensures
        arranged(results, stable_order(keys, descending)) == results,
{
    assert forall|i: int, j: int| 0 <= i < j < keys.len() implies !goes_before(
        #[trigger] keys[j],
        #[trigger] keys[i],
        descending,
    ) by {
        lemma_key_irreflexive(keys[i]);
    }
    lemma_sorted_keys_stay(keys, keys.len(), descending);
    lemma_arranged_identity(results);
}

/// A page whose records are all alike under the sort field is left as it
/// is by a sort on that field, in whichever direction.
pub proof fn lemma_alike_page_stays<T: Record>(
    page: PageView<T::V>,
    direction: OperandView,
    field: OperandView,
)
    requires
        forall|i: int, j: int|
            0 <= i < j < page.results.len() ==> T::sort_key(page.results[i], field.text())
                == T::sort_key(page.results[j], field.text()),
        forall|i: int|
            0 <= i < page.results.len() ==> T::sort_key(
                #[trigger] page.results[i],
                field.text(),
            ) is Some,
    ensures
        page_after::<T>(page, OperationView::Sort(direction, field)) == Some(page),
{
    let keys = keys_under::<T>(page.results, field.text());
    assert forall|i: int| 0 <= i < keys.len() implies (#[trigger] keys[i]) is Some by {
        assert(keys[i] == T::sort_key(page.results[i], field.text()));
    }
    let plain = present(keys);
    assert forall|i: int, j: int| 0 <= i < j < plain.len() implies plain[i] == plain[j] by {
        assert(keys[i] == T::sort_key(page.results[i], field.text()));
        assert(keys[j] == T::sort_key(page.results[j], field.text()));
    }
    lemma_alike_records_stay(page.results, plain, false);
    lemma_alike_records_stay(page.results, plain, true);
}

/// A sort keeps every record, as many times as the page held it.
pub proof fn lemma_sort_keeps_records<V>(
    results: Seq<V>,
    keys: Seq<Option<SortKeyView>>,
    descending: bool,
)
    requires
        keys.len() == results.len(),
        sorted_by(results, keys, descending) is Some,
    ensures
        sorted_by(results, keys, descending)->0.to_multiset() == results.to_multiset(),
{
    if results.len() >= 2 {
        lemma_arranged_keeps_items(results, present(keys), results.len(), descending);
        assert(results.take(results.len() as int) == results);
    }
}

/// Sorting what is sorted changes nothing: the same sort applied twice
/// gives the page that it gives applied once.
pub proof fn lemma_sort_twice<T: Record>(
    page: PageView<T::V>,
    direction: OperandView,
    field: OperandView,
)
    ensures
        page_after_all::<T>(
            page,
            seq![OperationView::Sort(direction, field), OperationView::Sort(direction, field)],
        ) == page_after_all::<T>(page, seq![OperationView::Sort(direction, field)]),
{
    let op = OperationView::Sort(direction, field);
    lemma_two_steps::<T>(page, op, op);
    if direction.text() == "ASC"@ {
        lemma_sorted_by_twice::<T>(page.results, field.text(), false);
    } else if direction.text() == "DSC"@ {
        lemma_sorted_by_twice::<T>(page.results, field.text(), true);
    }
}

/// Records that were sorted under a field are left as they are by the same
/// sort.
pub proof fn lemma_sorted_by_twice<T: Record>(results: Seq<T::V>, field: Seq<char>, descending: bool)
    ensures
        match sorted_by(results, keys_under::<T>(results, field), descending) {
            Some(once) => sorted_by(once, keys_under::<T>(once, field), descending) == Some(once),
            None => true,
        },
{
    let keys = keys_under::<T>(results, field);
    if results.len() >= 2 && all_present(keys) {
        let plain = present(keys);
        let order = stable_order(plain, descending);
        let once = arranged(results, order);
        lemma_stable_order_rearranges(plain, descending);
        lemma_stable_order_sorts(plain, descending);
        let keys_once = keys_under::<T>(once, field);
        assert forall|i: int| 0 <= i < keys_once.len() implies (#[trigger] keys_once[i]) is Some by {
            assert(keys_once[i] == keys[order[i]]);
        }
        assert(present(keys_once) =~= arranged(plain, order));
        lemma_sorted_keys_stay(present(keys_once), once.len(), descending);
        lemma_arranged_identity(once);
    }
}

/// No operation changes what the server said of the result set.
pub proof fn lemma_info_stays<T: Record>(page: PageView<T::V>, ops: Seq<OperationView>)
    ensures
        match page_after_all::<T>(page, ops) {
            Some(after) => after.info == page.info,
            None => true,
        },
    decreases ops.len(),
{
    if ops.len() > 0 {
        lemma_info_stays::<T>(page, ops.drop_last());
    }
}

/// No operation adds a record: the page after the operations holds no
/// more records than the page before them.
pub proof fn lemma_no_record_is_added<T: Record>(page: PageView<T::V>, ops: Seq<OperationView>)
    ensures
        match page_after_all::<T>(page, ops) {
            Some(after) => after.results.len() <= page.results.len(),
            None => true,
        },
    decreases ops.len(),
{
    if ops.len() > 0 {
        lemma_no_record_is_added::<T>(page, ops.drop_last());
        match page_after_all::<T>(page, ops.drop_last()) {
            Some(before) => {
                match ops.last() {
                    OperationView::Contains(field, value) => {
                        before.results.lemma_filter_len(passes::<T>(field.text(), value.text()));
                    },
                    OperationView::Sort(direction, field) => {
                        let keys = present(keys_under::<T>(before.results, field.text()));
                        lemma_stable_order_rearranges(keys, false);
                        lemma_stable_order_rearranges(keys, true);
                    },
                    _ => {},
                }
            },
            None => {},
        }
    }
}

} // verus!
