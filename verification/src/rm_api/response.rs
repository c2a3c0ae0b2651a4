//! What is done to a page once it has been read: the steps of a query
//! that filter, sort and shorten it.

use crate::error::QueryError;
use crate::query_language::operation::{Operation, OperationEnum, OperationView};
use crate::query_language::operation_list::{OperationList, OperationListEvaluator};
use crate::rm_api::entities::{
    record_views, Character, CharacterPage, CharacterView, Episode, EpisodePage, EpisodeView,
    Location, LocationPage, LocationView, Page, PageView,
};
use crate::rm_api::fields::{is_word, optional_key, Record};
use crate::sorting::{key_views, SortKey, SortKeyView};
use crate::stable_order::{
    arranged, indices, lemma_stable_order_rearranges, stable_order, stable_order_of,
};
use crate::text::{contains, occurs_in, slice_chars, texts_of};
use vstd::prelude::*;

verus! {

/// Whether a record passes the filter: the text of its field `field`
/// contains `value`.
pub open spec fn passes<T: Record>(field: Seq<char>, value: Seq<char>) -> spec_fn(T::V) -> bool {
    |record: T::V| occurs_in(T::filter_text(record, field), value)
}

/// The records that pass the filter, in the order they stood in.
pub open spec fn kept<T: Record>(results: Seq<T::V>, field: Seq<char>, value: Seq<char>) -> Seq<
    T::V,
> {
    results.filter(passes::<T>(field, value))
}

/// The sort keys of the records under `field`.
pub open spec fn keys_under<T: Record>(results: Seq<T::V>, field: Seq<char>) -> Seq<
    Option<SortKeyView>,
> {
    results.map_values(|record: T::V| T::sort_key(record, field))
}

/// The values of a sequence of keys that may be absent.
pub open spec fn optional_keys(keys: Seq<Option<SortKey>>) -> Seq<Option<SortKeyView>> {
    keys.map_values(|key: Option<SortKey>| optional_key(key))
}

/// Whether each record has a key.
pub open spec fn all_present(keys: Seq<Option<SortKeyView>>) -> bool {
    forall|i: int| 0 <= i < keys.len() ==> (#[trigger] keys[i]) is Some
}

/// The keys themselves, where each record has one.
pub open spec fn present(keys: Seq<Option<SortKeyView>>) -> Seq<SortKeyView> {
    keys.map_values(|key: Option<SortKeyView>| key->0)
}

/// The records sorted by the given keys, one key for each record: in the
/// stable order of the keys. Fewer than two records are never compared and
/// stay as they are. Two or more cannot be sorted where one of them has no
/// key. Nothing can be sorted by keys that are not as many as the records.
pub open spec fn sorted_by<V>(results: Seq<V>, keys: Seq<Option<SortKeyView>>, descending: bool)
    -> Option<Seq<V>> {
    if keys.len() != results.len() {
        None
    } else if results.len() < 2 {
        Some(results)
    } else if all_present(keys) {
        Some(arranged(results, stable_order(present(keys), descending)))
    } else {
        None
    }
}

/// The records sorted in `direction` under `field`: ascending for `ASC`,
/// descending for `DSC`, and left as they are for any other direction.
pub open spec fn sorted<T: Record>(results: Seq<T::V>, direction: Seq<char>, field: Seq<char>)
    -> Option<Seq<T::V>> {
    if direction == "ASC"@ {
        sorted_by(results, keys_under::<T>(results, field), false)
    } else if direction == "DSC"@ {
        sorted_by(results, keys_under::<T>(results, field), true)
    } else {
        Some(results)
    }
}

/// The first `count` records, or all of them where there are no more.
pub open spec fn limited<V>(results: Seq<V>, count: u32) -> Seq<V> {
    if count < results.len() {
        results.take(count as int)
    } else {
        results
    }
}

/// The page after one operation. `Contains`, `Sort` and `Limit` change the
/// records; every other operation leaves the page as it is. What the server
/// said of the result set is never changed. `None` where the operation
/// cannot be carried out.
pub open spec fn page_after<T: Record>(page: PageView<T::V>, op: OperationView) -> Option<
    PageView<T::V>,
> {
    match op {
        OperationView::Contains(field, value) => Some(
            PageView { info: page.info, results: kept::<T>(page.results, field.text(), value.text()) },
        ),
        OperationView::Sort(direction, field) => match sorted::<T>(
            page.results,
            direction.text(),
            field.text(),
        ) {
            Some(results) => Some(PageView { info: page.info, results }),
            None => None,
        },
        OperationView::Limit(count) => Some(
            PageView { info: page.info, results: limited(page.results, count.number()) },
        ),
        _ => Some(page),
    }
}

/// The page after the operations `ops`, one after the other in their
/// order. `None` where one of them cannot be carried out.
pub open spec fn page_after_all<T: Record>(page: PageView<T::V>, ops: Seq<OperationView>)
    -> Option<PageView<T::V>>
    decreases ops.len(),
{
    if ops.len() == 0 {
        Some(page)
    } else {
        match page_after_all::<T>(page, ops.drop_last()) {
            Some(before) => page_after::<T>(before, ops.last()),
            None => None,
        }
    }
}

/// Whether `result` reports `expected`: the page, or the failure of a step.
pub open spec fn reports<T: Record>(
    result: Result<Page<T>, QueryError>,
    expected: Option<PageView<T::V>>,
) -> bool {
    match result {
        Ok(page) => expected == Some(page@),
        Err(error) => expected is None && error == QueryError::Evaluation,
    }
}

impl<T: Record> Page<T> {
    /// A copy of the page.
    pub fn duplicate(&self) -> (r: Self)
        ensures
            r@ == self@,
    {
        let mut results: Vec<T> = Vec::new();
        let mut i: usize = 0;
        while i < self.results.len()
            invariant
                i <= self.results.len(),
                record_views(results@) == record_views(self.results@).take(i as int),
            decreases self.results.len() - i,
        {
            let ghost copied = results@;
            let record = self.results[i].duplicate();
            results.push(record);
            assert(record_views(results@) =~= record_views(copied).push(record@));
            assert(record_views(self.results@).take(i + 1) =~= record_views(self.results@).take(
                i as int,
            ).push(self.results@[i as int]@));
            i += 1;
        }
        assert(record_views(self.results@).take(self.results.len() as int) == record_views(
            self.results@,
        ));
        Page { info: self.info.clone(), results }
    }

    /// The page with only the records whose field `field` contains `value`.
    pub fn containing(&self, field: &Vec<char>, value: &Vec<char>) -> (r: Self)
        ensures
            r@.info == self@.info,
            r@.results == kept::<T>(self@.results, field@, value@),
    {
        let ghost all = record_views(self.results@);
        let ghost pass = passes::<T>(field@, value@);
        let mut results: Vec<T> = Vec::new();
        let mut i: usize = 0;
        assert(all.take(0).filter(pass) =~= Seq::empty()) by {
            reveal(Seq::filter);
        }
        while i < self.results.len()
            invariant
                i <= self.results.len(),
                all == record_views(self.results@),
                pass == passes::<T>(field@, value@),
                record_views(results@) == all.take(i as int).filter(pass),
            decreases self.results.len() - i,
        {
            let ghost copied = results@;
            let record = &self.results[i];
            let text = record.field_text(field);
            proof {
                assert(all.take(i + 1).drop_last() == all.take(i as int));
                assert(all.take(i + 1).last() == record@);
                reveal(Seq::filter);
            }
            if contains(&text, value) {
                let copy = record.duplicate();
                results.push(copy);
                assert(record_views(results@) =~= record_views(copied).push(copy@));
            }
            i += 1;
        }
        assert(all.take(self.results.len() as int) == all);
        Page { info: self.info.clone(), results }
    }

    /// The sort keys of the records under `field`.
    pub fn keys(&self, field: &Vec<char>) -> (r: Vec<Option<SortKey>>)
        ensures
            r@.map_values(|key: Option<SortKey>| optional_key(key)) == keys_under::<T>(
                self@.results,
                field@,
            ),
    {
        let ghost expected = keys_under::<T>(record_views(self.results@), field@);
        let mut keys: Vec<Option<SortKey>> = Vec::new();
        let mut i: usize = 0;
        while i < self.results.len()
            invariant
                i <= self.results.len(),
                expected == keys_under::<T>(record_views(self.results@), field@),
                optional_keys(keys@) == expected.take(
                    i as int,
                ),
            decreases self.results.len() - i,
        {
            let ghost copied = keys@;
            let key = self.results[i].field_key(field);
            keys.push(key);
            assert(optional_keys(keys@) =~= optional_keys(copied).push(optional_key(key)));
            assert(expected.take(i + 1) =~= expected.take(i as int).push(expected[i as int]));
            i += 1;
        }
        assert(expected.take(self.results.len() as int) == expected);
        keys
    }

    /// The page with its records in the given order.
    fn rearranged(&self, order: &Vec<usize>) -> (r: Self)
        requires
            forall|i: int| 0 <= i < order.len() ==> #[trigger] order[i] < self.results.len(),
        ensures
            r@.info == self@.info,
            r@.results == arranged(self@.results, indices(order@)),
    {
        let ghost expected = arranged(record_views(self.results@), indices(order@));
        let mut results: Vec<T> = Vec::new();
        let mut i: usize = 0;
        while i < order.len()
            invariant
                i <= order.len(),
                forall|i: int| 0 <= i < order.len() ==> #[trigger] order[i] < self.results.len(),
                expected == arranged(record_views(self.results@), indices(order@)),
                record_views(results@) == expected.take(i as int),
            decreases order.len() - i,
        {
            let ghost copied = results@;
            let record = self.results[order[i]].duplicate();
            results.push(record);
            assert(record_views(results@) =~= record_views(copied).push(record@));
            assert(indices(order@)[i as int] == order[i as int]);
            assert(expected.take(i + 1) =~= expected.take(i as int).push(expected[i as int]));
            i += 1;
        }
        assert(expected.take(order.len() as int) == expected);
        Page { info: self.info.clone(), results }
    }

    /// The page with its records sorted by the given keys, one key for each
    /// record; a failure where two or more records are to be sorted and one
    /// of them has no key, or where the keys are not as many as the records.
    pub fn sorted_by_keys(&self, keys: &Vec<Option<SortKey>>, descending: bool) -> (r: Result<
        Self,
        QueryError,
    >)
        ensures
            match r {
                Ok(page) => page@.info == self@.info && Some(page@.results) == sorted_by(
                    self@.results,
                    optional_keys(keys@),
                    descending,
                ),
                Err(error) => error == QueryError::Evaluation && sorted_by(
                    self@.results,
                    optional_keys(keys@),
                    descending,
                ) is None,
            },
    {
        let ghost views = optional_keys(keys@);
        if keys.len() != self.results.len() {
            return Err(QueryError::Evaluation);
        }
        if self.results.len() < 2 {
            return Ok(self.duplicate());
        }
        let mut plain: Vec<SortKey> = Vec::new();
        let mut i: usize = 0;
        while i < keys.len()
            invariant
                i <= keys.len(),
                keys.len() == self.results.len(),
                self.results.len() >= 2,
                views == optional_keys(keys@),
                all_present(views.take(i as int)),
                key_views(plain@) == present(views.take(i as int)),
            decreases keys.len() - i,
        {
            match &keys[i] {
                Some(key) => {
                    let ghost copied = plain@;
                    let copy = copy_key(key);
                    plain.push(copy);
                    assert(key_views(plain@) =~= key_views(copied).push(copy@));
                    assert(views.take(i + 1) =~= views.take(i as int).push(views[i as int]));
                    assert(present(views.take(i + 1)) =~= present(views.take(i as int)).push(
                        key@,
                    ));
                },
                None => {
                    assert(views[i as int] == optional_key(keys@[i as int]));
                    assert(!all_present(views));
                    return Err(QueryError::Evaluation);
                },
            }
            i += 1;
        }
        assert(views.take(keys.len() as int) == views);
        let order = stable_order_of(&plain, descending);
        proof {
            lemma_stable_order_rearranges(key_views(plain@), descending);
            assert forall|i: int| 0 <= i < order.len() implies #[trigger] order[i]
                < self.results.len() by {
                assert(indices(order@)[i] == order[i]);
            }
        }
        Ok(self.rearranged(&order))
    }

    /// The page with its records sorted in `direction` under `field`.
    pub fn sorted(&self, direction: &Vec<char>, field: &Vec<char>) -> (r: Result<Self, QueryError>)
        ensures
            match r {
                Ok(page) => page@.info == self@.info && Some(page@.results) == sorted::<T>(
                    self@.results,
                    direction@,
                    field@,
                ),
                Err(error) => error == QueryError::Evaluation && sorted::<T>(
                    self@.results,
                    direction@,
                    field@,
                ) is None,
            },
    {
        if is_word(direction, "ASC") {
            let keys = self.keys(field);
            assert(keys.len() == optional_keys(keys@).len());
            self.sorted_by_keys(&keys, false)
        } else if is_word(direction, "DSC") {
            let keys = self.keys(field);
            assert(keys.len() == optional_keys(keys@).len());
            self.sorted_by_keys(&keys, true)
        } else {
            Ok(self.duplicate())
        }
    }

    /// The page with its first `count` records, or with all of them where
    /// there are no more.
    pub fn limited(&self, count: u32) -> (r: Self)
        ensures
            r@.info == self@.info,
            r@.results == limited(self@.results, count),
    {
        let ghost all = record_views(self.results@);
        let n: usize = if (count as usize) < self.results.len() {
            count as usize
        } else {
            self.results.len()
        };
        let mut results: Vec<T> = Vec::new();
        let mut i: usize = 0;
        while i < n
            invariant
                i <= n <= self.results.len(),
                all == record_views(self.results@),
                record_views(results@) == all.take(i as int),
            decreases n - i,
        {
            let ghost copied = results@;
            let record = self.results[i].duplicate();
            results.push(record);
            assert(record_views(results@) =~= record_views(copied).push(record@));
            assert(all.take(i + 1) =~= all.take(i as int).push(self.results@[i as int]@));
            i += 1;
        }
        assert(all.take(all.len() as int) == all);
        Page { info: self.info.clone(), results }
    }

    /// The page after one operation.
    pub fn after(&self, op: &Operation) -> (r: Result<Self, QueryError>)
        ensures
            reports(r, page_after::<T>(self@, op@)),
    {
        match &op.0 {
            OperationEnum::Contains(field, value) => {
                Ok(self.containing(&field.to_chars(), &value.to_chars()))
            },
            OperationEnum::Sort(direction, field) => {
                self.sorted(&direction.to_chars(), &field.to_chars())
            },
            OperationEnum::Limit(count) => Ok(self.limited(count.to_number())),
            _ => Ok(self.duplicate()),
        }
    }

    /// The page after the operations of `ops`, one after the other.
    pub fn after_all(&self, ops: &OperationList) -> (r: Result<Self, QueryError>)
        ensures
            reports(r, page_after_all::<T>(self@, ops@)),
    {
        let mut page = self.duplicate();
        let mut i: usize = 0;
        assert(ops@.take(0) =~= Seq::empty());
        while i < ops.0.len()
            invariant
                i <= ops.0.len(),
                page_after_all::<T>(self@, ops@.take(i as int)) == Some(page@),
            decreases ops.0.len() - i,
        {
            proof {
                assert(ops@.take(i + 1).drop_last() == ops@.take(i as int));
                assert(ops@.take(i + 1).last() == ops.0@[i as int]@);
            }
            match page.after(&ops.0[i]) {
                Ok(next) => {
                    page = next;
                },
                Err(error) => {
                    proof {
                        lemma_failure_lasts::<T>(self@, ops@, i + 1);
                    }
                    return Err(error);
                },
            }
            i += 1;
        }
        assert(ops@.take(ops.0.len() as int) == ops@);
        Ok(page)
    }
}

/// A copy of a sort key.
pub fn copy_key(key: &SortKey) -> (r: SortKey)
    ensures
        r@ == key@,
{
    match key {
        SortKey::Nothing => SortKey::Nothing,
        SortKey::Number(n) => SortKey::Number(*n),
        SortKey::Text(t) => {
            let copy = slice_chars(t, 0, t.len());
            assert(copy@ =~= t@);
            SortKey::Text(copy)
        },
        SortKey::TextList(list) => {
            let mut copy: Vec<Vec<char>> = Vec::new();
            let mut i: usize = 0;
            while i < list.len()
                invariant
                    i <= list.len(),
                    texts_of(copy@) == texts_of(list@).take(
                        i as int,
                    ),
                decreases list.len() - i,
            {
                let ghost copied = copy@;
                let t = slice_chars(&list[i], 0, list[i].len());
                assert(t@ =~= list@[i as int]@);
                copy.push(t);
                assert(texts_of(copy@) =~= texts_of(copied).push(
                    t@,
                ));
                assert(texts_of(list@).take(i + 1) =~= texts_of(
                    list@,
                ).take(i as int).push(list@[i as int]@));
                i += 1;
            }
            assert(texts_of(list@).take(list.len() as int)
                == texts_of(list@));
            SortKey::TextList(copy)
        },
        SortKey::Instant(seconds, nanos) => SortKey::Instant(*seconds, *nanos),
    }
}

/// Once an operation has failed, the operations after it do not mend it.
pub proof fn lemma_failure_lasts<T: Record>(page: PageView<T::V>, ops: Seq<OperationView>, n: int)
    requires
        0 <= n <= ops.len(),
        page_after_all::<T>(page, ops.take(n)) is None,
    ensures
        page_after_all::<T>(page, ops) is None,
    decreases ops.len() - n,
{
    if n == ops.len() {
        assert(ops.take(n) == ops);
    } else {
        assert(ops.take(n + 1).drop_last() == ops.take(n));
        lemma_failure_lasts::<T>(page, ops, n + 1);
    }
}

/// A page of one of the three resources.
#[derive(Debug, PartialEq)]
pub enum RMResponseEnum {
    Characters(CharacterPage),
    Episodes(EpisodePage),
    Locations(LocationPage),
}

/// What the catalogue answered.
#[derive(Debug, PartialEq)]
pub struct RMResponse(pub RMResponseEnum);

/// The mathematical value of an `RMResponse`.
pub enum RMResponseView {
    Characters(PageView<CharacterView>),
    Episodes(PageView<EpisodeView>),
    Locations(PageView<LocationView>),
}

impl View for RMResponseEnum {
    type V = RMResponseView;

    open spec fn view(&self) -> RMResponseView {
        match self {
            RMResponseEnum::Characters(page) => RMResponseView::Characters(page@),
            RMResponseEnum::Episodes(page) => RMResponseView::Episodes(page@),
            RMResponseEnum::Locations(page) => RMResponseView::Locations(page@),
        }
    }
}

impl View for RMResponse {
    type V = RMResponseView;

    open spec fn view(&self) -> RMResponseView {
        self.0@
    }
}

impl Clone for RMResponseEnum {
    fn clone(&self) -> (r: Self)
        ensures
            r@ == self@,
    {
        match self {
            RMResponseEnum::Characters(page) => RMResponseEnum::Characters(page.duplicate()),
            RMResponseEnum::Episodes(page) => RMResponseEnum::Episodes(page.duplicate()),
            RMResponseEnum::Locations(page) => RMResponseEnum::Locations(page.duplicate()),
        }
    }
}

impl Clone for RMResponse {
    fn clone(&self) -> (r: Self)
        ensures
            r@ == self@,
    {
        RMResponse(self.0.clone())
    }
}

/// The answer after the operations `ops`: its page after them, one after
/// the other. The resource stays what it was. `None` where one of the
/// operations cannot be carried out.
pub open spec fn evaluated(response: RMResponseView, ops: Seq<OperationView>) -> Option<
    RMResponseView,
> {
    match response {
        RMResponseView::Characters(page) => match page_after_all::<Character>(page, ops) {
            Some(after) => Some(RMResponseView::Characters(after)),
            None => None,
        },
        RMResponseView::Episodes(page) => match page_after_all::<Episode>(page, ops) {
            Some(after) => Some(RMResponseView::Episodes(after)),
            None => None,
        },
        RMResponseView::Locations(page) => match page_after_all::<Location>(page, ops) {
            Some(after) => Some(RMResponseView::Locations(after)),
            None => None,
        },
    }
}

impl RMResponse {
    /// Carries out the operations of `operation_list` on the answer, one
    /// after the other. The answer itself stays as it is. Fails where a
    /// step cannot be carried out, and then hands out no page.
    pub fn evaluate_op(&self, operation_list: &OperationList) -> (r: Result<RMResponse, QueryError>)
        ensures
            match r {
                Ok(response) => evaluated(self@, operation_list@) == Some(response@),
                Err(error) => evaluated(self@, operation_list@) is None && error
                    == QueryError::Evaluation,
            },
    {
        match &self.0 {
            RMResponseEnum::Characters(page) => match page.after_all(operation_list) {
                Ok(after) => Ok(RMResponse(RMResponseEnum::Characters(after))),
                Err(error) => Err(error),
            },
            RMResponseEnum::Episodes(page) => match page.after_all(operation_list) {
                Ok(after) => Ok(RMResponse(RMResponseEnum::Episodes(after))),
                Err(error) => Err(error),
            },
            RMResponseEnum::Locations(page) => match page.after_all(operation_list) {
                Ok(after) => Ok(RMResponse(RMResponseEnum::Locations(after))),
                Err(error) => Err(error),
            },
        }
    }
}

impl OperationListEvaluator for RMResponse {
    fn evaluate_op(&self, operation_list: &OperationList) -> (r: Result<RMResponse, QueryError>)
        ensures
            match r {
                Ok(response) => evaluated(self@, operation_list@) == Some(response@),
                Err(error) => evaluated(self@, operation_list@) is None && error
                    == QueryError::Evaluation,
            },
    {
        RMResponse::evaluate_op(self, operation_list)
    }
}

impl OperationListEvaluator for CharacterPage {
    /// The page as an answer, as it is.
    fn evaluate_op(&self, operation_list: &OperationList) -> (r: Result<RMResponse, QueryError>)
        ensures
            r is Ok,
            r->Ok_0@ == RMResponseView::Characters(self@),
    {
        Ok(RMResponse(RMResponseEnum::Characters(self.duplicate())))
    }
}

} // verus!
