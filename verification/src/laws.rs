use crate::dataset::{DatasetView, ImportView, RowView};
use crate::engine::{
    after_write, all_rows, begun, counted, import_entry, import_has_id, import_position, in_phase,
    key_value, new_dataset, next, primary_key, receipt, resolved_matcher, reuses_import, row_at,
    row_step, supplied_import, Fresh, Phase, RequestView, RowScope, SessionView, StepView,
};
use crate::object_id::ObjectId;
use crate::repository::{lemma_next_decreases, outcome, remaining, saved};
use crate::seqs::{first_where, lemma_first_where, lemma_first_where_is};
use crate::store::{
    accepted_by, accepts, executed, has_id, holds_key, in_scope, outside_scope, StoreView,
};
use crate::timestamp::{timestamp_reading, timestamp_text};
use crate::value::{
    entries_of, entry_value, external_of, single, stored_entry_of, stored_of, ValueView,
};
use vstd::prelude::*;

verus! {

/// What a filter keeps is accepted.
pub proof fn lemma_filter_accepts<T>(s: Seq<T>, accept: spec_fn(T) -> bool)
    ensures
        s.filter(accept).len() <= s.len(),
        forall|i: int| 0 <= i < s.filter(accept).len() ==> accept(#[trigger] s.filter(accept)[i]),
    decreases s.len(),
{
    reveal(Seq::filter);
    if s.len() > 0 {
        lemma_filter_accepts(s.drop_last(), accept);
    }
}

/// A filter keeps a sequence whose elements are all accepted.
pub proof fn lemma_filter_all<T>(s: Seq<T>, accept: spec_fn(T) -> bool)
    requires
        forall|i: int| 0 <= i < s.len() ==> accept(#[trigger] s[i]),
    ensures
        s.filter(accept) == s,
    decreases s.len(),
{
    reveal(Seq::filter);
    if s.len() > 0 {
        let front = s.drop_last();
        assert forall|i: int| 0 <= i < front.len() implies accept(#[trigger] front[i]) by {
            assert(front[i] == s[i]);
        }
        lemma_filter_all(front, accept);
        assert(accept(s[s.len() - 1]));
        assert(front.push(s.last()) =~= s);
    }
}

/// A filter keeps nothing of a sequence whose elements are all refused.
pub proof fn lemma_filter_none<T>(s: Seq<T>, accept: spec_fn(T) -> bool)
    requires
        forall|i: int| 0 <= i < s.len() ==> !accept(#[trigger] s[i]),
    ensures
        s.filter(accept).len() == 0,
    decreases s.len(),
{
    reveal(Seq::filter);
    if s.len() > 0 {
        let front = s.drop_last();
        assert forall|i: int| 0 <= i < front.len() implies !accept(#[trigger] front[i]) by {
            assert(front[i] == s[i]);
        }
        lemma_filter_none(front, accept);
        assert(!accept(s[s.len() - 1]));
    }
}

/// A filter keeps as many elements when one element gives way to another
/// that is accepted alike.
pub proof fn lemma_filter_update<T>(s: Seq<T>, accept: spec_fn(T) -> bool, at: int, x: T)
    requires
        0 <= at < s.len(),
        accept(s[at]) == accept(x),
    ensures
        s.update(at, x).filter(accept).len() == s.filter(accept).len(),
    decreases s.len(),
{
    reveal(Seq::filter);
    let t = s.update(at, x);
    if at == s.len() - 1 {
        assert(t.drop_last() =~= s.drop_last());
    } else {
        assert(t.drop_last() =~= s.drop_last().update(at, x));
        lemma_filter_update(s.drop_last(), accept, at, x);
    }
}

/// The rows that a save writes for a batch of payloads: each payload in its
/// stored form, owned by the dataset and the import of the save.
pub open spec fn written_rows(rows: Seq<ValueView>, dataset_id: ObjectId, import_id: ObjectId) -> Seq<
    RowView,
> {
    Seq::new(rows.len(), |i: int| RowView { dataset_id, import_id, data: stored_of(rows[i]) })
}

/// The rows of a store that belong to a dataset.
pub open spec fn rows_of_dataset(store: StoreView, dataset_id: ObjectId) -> Seq<RowView> {
    store.rows.filter(in_scope(RowScope::Dataset(dataset_id)))
}

/// The dataset of a store with the given identifier.
pub open spec fn dataset_with(store: StoreView, id: ObjectId) -> DatasetView {
    store.datasets[first_where(store.datasets, has_id(id))]
}

/// Whether a store holds a dataset with the given identifier.
pub open spec fn holds_dataset(store: StoreView, id: ObjectId) -> bool {
    first_where(store.datasets, has_id(id)) < store.datasets.len()
}

/// A save that appends, with no key declared, ends with a receipt for every
/// row of the batch and leaves the earlier rows as they were, followed by the
/// rows of the batch in order. The rows of the store, and those of the
/// save's dataset among them, are more by the size of the batch.
pub proof fn law_append_adds_every_row(
    store: StoreView,
    options: ValueView,
    rows: Seq<ValueView>,
    import_id: Option<Seq<char>>,
    fresh: Fresh,
)
    requires
        primary_key(entries_of(options)) is None,
        rows.len() <= usize::MAX,
    ensures
        ({
            let end = saved(store, options, rows, import_id, true, fresh);
            &&& end.1 is Some
            &&& end.1->0.rows == rows.len()
            &&& end.0.rows == store.rows + written_rows(
                rows,
                end.1->0.dataset_id,
                end.1->0.import_id,
            )
            &&& end.0.rows.len() == store.rows.len() + rows.len()
            &&& rows_of_dataset(end.0, end.1->0.dataset_id).len() == rows_of_dataset(
                store,
                end.1->0.dataset_id,
            ).len() + rows.len()
        }),
{
    reveal_with_fuel(outcome, 6);
    let end = saved(store, options, rows, import_id, true, fresh);
    assert(end.1 is Some);
    let did = end.1->0.dataset_id;
    let written = written_rows(rows, did, end.1->0.import_id);
    assert(end.0.rows =~= store.rows + written);
    let scope = in_scope(RowScope::Dataset(did));
    Seq::filter_distributes_over_add(store.rows, written, scope);
    lemma_filter_all(written, scope);
}

/// A save that replaces all rows, with no key declared, ends with a receipt
/// for every row of the batch. The rows of its dataset are then exactly the
/// rows of the batch, in order and under the import of this save, whatever
/// rows the dataset had before; the rows of other datasets stay as they were.
pub proof fn law_replace_all_leaves_the_batch(
    store: StoreView,
    options: ValueView,
    rows: Seq<ValueView>,
    fresh: Fresh,
)
    requires
        primary_key(entries_of(options)) is None,
        rows.len() <= usize::MAX,
    ensures
        ({
            let end = saved(store, options, rows, None, false, fresh);
            &&& end.1 is Some
            &&& end.1->0.rows == rows.len()
            &&& rows_of_dataset(end.0, end.1->0.dataset_id) == written_rows(
                rows,
                end.1->0.dataset_id,
                end.1->0.import_id,
            )
            &&& rows_of_dataset(end.0, end.1->0.dataset_id).len() == rows.len()
            &&& end.0.rows.filter(outside_scope(RowScope::Dataset(end.1->0.dataset_id)))
                == store.rows.filter(outside_scope(RowScope::Dataset(end.1->0.dataset_id)))
        }),
{
    reveal_with_fuel(outcome, 7);
    let end = saved(store, options, rows, None, false, fresh);
    assert(end.1 is Some);
    let did = end.1->0.dataset_id;
    let written = written_rows(rows, did, end.1->0.import_id);
    let inside = in_scope(RowScope::Dataset(did));
    let outside = outside_scope(RowScope::Dataset(did));
    let kept = store.rows.filter(outside);
    assert(end.0.rows =~= kept + written);
    lemma_filter_accepts(store.rows, outside);
    lemma_filter_none(kept, inside);
    lemma_filter_all(written, inside);
    lemma_filter_all(kept, outside);
    lemma_filter_none(written, outside);
    Seq::filter_distributes_over_add(kept, written, inside);
    Seq::filter_distributes_over_add(kept, written, outside);
    assert(kept.filter(inside) + written =~= written);
    assert(kept + written.filter(outside) =~= kept);
}

/// A save that replaces the rows of a named import, with no key declared,
/// ends with a receipt for every row of the batch. The rows of the import
/// that the receipt names are then exactly the rows of the batch, in order;
/// the rows of other imports stay as they were.
pub proof fn law_replace_import_leaves_the_batch(
    store: StoreView,
    options: ValueView,
    rows: Seq<ValueView>,
    import_id: Seq<char>,
    fresh: Fresh,
)
    requires
        primary_key(entries_of(options)) is None,
        rows.len() <= usize::MAX,
    ensures
        ({
            let end = saved(store, options, rows, Some(import_id), false, fresh);
            let scope = RowScope::Import(end.1->0.import_id);
            &&& end.1 is Some
            &&& end.1->0.rows == rows.len()
            &&& end.0.rows.filter(in_scope(scope)) == written_rows(
                rows,
                end.1->0.dataset_id,
                end.1->0.import_id,
            )
            &&& end.0.rows.filter(outside_scope(scope)) == store.rows.filter(outside_scope(scope))
        }),
{
    reveal_with_fuel(outcome, 7);
    let end = saved(store, options, rows, Some(import_id), false, fresh);
    assert(end.1 is Some);
    let scope = RowScope::Import(end.1->0.import_id);
    let written = written_rows(rows, end.1->0.dataset_id, end.1->0.import_id);
    let inside = in_scope(scope);
    let outside = outside_scope(scope);
    let kept = store.rows.filter(outside);
    assert(end.0.rows =~= kept + written);
    lemma_filter_accepts(store.rows, outside);
    lemma_filter_none(kept, inside);
    lemma_filter_all(written, inside);
    lemma_filter_all(kept, outside);
    lemma_filter_none(written, outside);
    Seq::filter_distributes_over_add(kept, written, inside);
    Seq::filter_distributes_over_add(kept, written, outside);
    assert(kept.filter(inside) + written =~= written);
    assert(kept + written.filter(outside) =~= kept);
}

/// Two saves in a row that replace all rows of one dataset, with no key
/// declared, leave the dataset with exactly the rows of the second batch:
/// as many as the batch has, each under the import of the second save.
/// Each of the two receipts names the import that its save created.
pub proof fn law_second_replace_all_wins(
    store: StoreView,
    first_options: ValueView,
    first_rows: Seq<ValueView>,
    first_fresh: Fresh,
    second_options: ValueView,
    second_rows: Seq<ValueView>,
    second_fresh: Fresh,
)
    requires
        primary_key(entries_of(first_options)) is None,
        primary_key(entries_of(second_options)) is None,
        first_rows.len() <= usize::MAX,
        second_rows.len() <= usize::MAX,
        ({
            let first = saved(store, first_options, first_rows, None, false, first_fresh);
            let second = saved(first.0, second_options, second_rows, None, false, second_fresh);
            first.1 is Some && second.1 is Some ==> second.1->0.dataset_id
                == first.1->0.dataset_id
        }),
    ensures
        ({
            let first = saved(store, first_options, first_rows, None, false, first_fresh);
            let second = saved(first.0, second_options, second_rows, None, false, second_fresh);
            let of_dataset = rows_of_dataset(second.0, first.1->0.dataset_id);
            &&& first.1 is Some
            &&& second.1 is Some
            &&& of_dataset.len() == second_rows.len()
            &&& forall|i: int|
                0 <= i < of_dataset.len() ==> (#[trigger] of_dataset[i]).import_id
                    == second.1->0.import_id && of_dataset[i].data == stored_of(second_rows[i])
            &&& first.1->0.import_id == first_fresh.import_id
            &&& second.1->0.import_id == second_fresh.import_id
        }),
{
    law_replace_all_leaves_the_batch(store, first_options, first_rows, first_fresh);
    let first = saved(store, first_options, first_rows, None, false, first_fresh);
    law_replace_all_leaves_the_batch(first.0, second_options, second_rows, second_fresh);
    law_save_ends_with_a_receipt(store, first_options, first_rows, None, false, first_fresh);
    law_save_ends_with_a_receipt(first.0, second_options, second_rows, None, false, second_fresh);
}

/// A save in a store that carries out every request ends with a receipt.
/// A save that names no import records a new one: its receipt names the
/// import identifier that the save was given for what it creates.
pub proof fn law_save_ends_with_a_receipt(
    store: StoreView,
    options: ValueView,
    rows: Seq<ValueView>,
    import_id: Option<Seq<char>>,
    append: bool,
    fresh: Fresh,
)
    ensures
        saved(store, options, rows, import_id, append, fresh).1 is Some,
        import_id is None ==> saved(store, options, rows, import_id, append, fresh).1->0.import_id
            == fresh.import_id,
{
    reveal_with_fuel(outcome, 3);
    let s = begun(options, rows, import_id, append, fresh);
    let (found_store, found) = executed(store, RequestView::FindDataset(s.matcher));
    let (s1, step1) = next(s, found);
    let (written, reply) = executed(store, step1->Ask_0);
    let (s2, step2) = next(s1, reply);
    assert(s2 == after_write(s1).0);
    assert(at_rows(s2, step2));
    lemma_rows_leave_datasets(s2, step2, written);
}

/// Whether a save has come to its rows: it asks for an operation on rows,
/// or it has ended with a receipt for its dataset and its import.
pub open spec fn at_rows(s: SessionView, step: StepView) -> bool {
    match step {
        StepView::Finish(r) => r matches Some(receipt) && receipt.dataset_id == s.dataset_id
            && receipt.import_id == s.resolved_import,
        StepView::Ask(request) => {
            &&& s.phase is Clearing || s.phase is Bulk || s.phase is Updating
                || s.phase is Inserting
            &&& request is DeleteRows || request is InsertRows || request is UpdateRow
                || request is InsertRow
        },
    }
}

/// Once a save has come to its rows it leaves the datasets alone, and it ends
/// with a receipt for its dataset and its import.
pub proof fn lemma_rows_leave_datasets(s: SessionView, step: StepView, store: StoreView)
    requires
        at_rows(s, step),
    ensures
        outcome(s, step, store).0.datasets == store.datasets,
        outcome(s, step, store).1 matches Some(receipt) && receipt.dataset_id == s.dataset_id
            && receipt.import_id == s.resolved_import,
    decreases remaining(s), (if step is Ask {1nat } else {0nat }),
{
    match step {
        StepView::Finish(r) => {},
        StepView::Ask(request) => {
            let (after, reply) = executed(store, request);
            let (session, following) = next(s, reply);
            lemma_next_decreases(s, reply);
            lemma_rows_leave_datasets(session, following, after);
        },
    }
}

/// No two datasets of a store have one identifier.
pub open spec fn distinct_ids(datasets: Seq<DatasetView>) -> bool {
    forall|i: int, j: int|
        0 <= i < datasets.len() && 0 <= j < datasets.len() && (#[trigger] datasets[i]).id
            == (#[trigger] datasets[j]).id ==> i == j
}

/// The imports of a dataset after a save that found it.
pub open spec fn imports_after(s: SessionView, d: DatasetView) -> Seq<ImportView> {
    if reuses_import(s, d) {
        d.imports.update(
            import_position(d.imports, s.import_id->0),
            import_entry(s, s.import_id->0),
        )
    } else {
        d.imports.push(import_entry(s, s.fresh.import_id))
    }
}

/// What a save does to the datasets of a store whose datasets have distinct
/// identifiers. Where its matcher accepts a dataset, the first such dataset
/// keeps its place and its identifier, takes the save's name, title,
/// description and options, and has its imports changed; the receipt names
/// it. Where the matcher accepts none, a dataset with the new identifier
/// and one import is added at the end; the receipt names that one.
pub proof fn lemma_save_writes_one_dataset(
    store: StoreView,
    options: ValueView,
    rows: Seq<ValueView>,
    import_id: Option<Seq<char>>,
    append: bool,
    fresh: Fresh,
)
    requires
        distinct_ids(store.datasets),
    ensures
        ({
            let s = begun(options, rows, import_id, append, fresh);
            let end = saved(store, options, rows, import_id, append, fresh);
            let at = first_where(store.datasets, accepted_by(s.matcher));
            &&& end.1 is Some
            &&& at < store.datasets.len() ==> {
                &&& end.1->0.dataset_id == store.datasets[at].id
                &&& end.0.datasets.len() == store.datasets.len()
                &&& end.0.datasets[at].id == store.datasets[at].id
                &&& end.0.datasets[at].name == s.name
                &&& end.0.datasets[at].sheet_index == store.datasets[at].sheet_index
                &&& end.0.datasets[at].imports == imports_after(s, store.datasets[at])
                &&& end.1->0.import_id == if reuses_import(s, store.datasets[at]) {
                    s.import_id->0
                } else {
                    fresh.import_id
                }
                &&& forall|j: int|
                    0 <= j < store.datasets.len() && j != at ==> end.0.datasets[j]
                        == store.datasets[j]
            }
            &&& at >= store.datasets.len() ==> {
                &&& end.1->0.dataset_id == fresh.dataset_id
                &&& end.1->0.import_id == fresh.import_id
                &&& end.0.datasets == store.datasets.push(new_dataset(s))
            }
        }),
{
    reveal_with_fuel(outcome, 3);
    let s = begun(options, rows, import_id, append, fresh);
    let at = first_where(store.datasets, accepted_by(s.matcher));
    lemma_first_where(store.datasets, accepted_by(s.matcher));
    let (found_store, found) = executed(store, RequestView::FindDataset(s.matcher));
    let (s1, step1) = next(s, found);
    if at < store.datasets.len() {
        let d = store.datasets[at];
        lemma_first_where_is(store.datasets, has_id(d.id), at);
    }
    let (written, reply) = executed(store, step1->Ask_0);
    let (s2, step2) = next(s1, reply);
    assert(s2 == after_write(s1).0);
    assert(at_rows(s2, step2));
    lemma_rows_leave_datasets(s2, step2, written);
    if at < store.datasets.len() {
        let d = store.datasets[at];
        if reuses_import(s, d) {
            lemma_first_where(d.imports, import_has_id(s.import_id->0));
        }
    }
}

/// A save leaves the identifiers of a store's datasets distinct, provided
/// that the identifier it may give to a new dataset is not in the store.
pub proof fn law_save_keeps_identifiers_distinct(
    store: StoreView,
    options: ValueView,
    rows: Seq<ValueView>,
    import_id: Option<Seq<char>>,
    append: bool,
    fresh: Fresh,
)
    requires
        distinct_ids(store.datasets),
        !holds_dataset(store, fresh.dataset_id),
    ensures
        distinct_ids(saved(store, options, rows, import_id, append, fresh).0.datasets),
{
    let end = saved(store, options, rows, import_id, append, fresh);
    lemma_save_writes_one_dataset(store, options, rows, import_id, append, fresh);
    lemma_first_where(store.datasets, has_id(fresh.dataset_id));
    assert forall|i: int, j: int|
        0 <= i < end.0.datasets.len() && 0 <= j < end.0.datasets.len() && (
        #[trigger] end.0.datasets[i]).id == (#[trigger] end.0.datasets[j]).id implies i == j by {
        if i < store.datasets.len() {
            assert(end.0.datasets[i].id == store.datasets[i].id);
        }
        if j < store.datasets.len() {
            assert(end.0.datasets[j].id == store.datasets[j].id);
        }
    }
}

/// Two saves in a row under one name and sheet index, neither naming a
/// dataset and the first naming no import either, in a store whose datasets
/// have distinct identifiers and none the identifier that the first save may
/// give: both end with a receipt for the same dataset. That dataset then has
/// one import more than after the first save, the one that the second
/// receipt names; or, where the second save names the import of the first
/// receipt, as many as before, and the second receipt names that import again.
pub proof fn law_same_name_same_dataset(
    store: StoreView,
    first_options: ValueView,
    first_rows: Seq<ValueView>,
    first_append: bool,
    first_fresh: Fresh,
    second_options: ValueView,
    second_rows: Seq<ValueView>,
    second_import: Option<Seq<char>>,
    second_append: bool,
    second_fresh: Fresh,
)
    requires
        distinct_ids(store.datasets),
        !holds_dataset(store, first_fresh.dataset_id),
        resolved_matcher(entries_of(first_options)) is NameIndex,
        resolved_matcher(entries_of(second_options)) == resolved_matcher(
            entries_of(first_options),
        ),
    ensures
        ({
            let first = saved(store, first_options, first_rows, None, first_append, first_fresh);
            let second = saved(
                first.0,
                second_options,
                second_rows,
                second_import,
                second_append,
                second_fresh,
            );
            let id = first.1->0.dataset_id;
            let before = dataset_with(first.0, id).imports;
            let after = dataset_with(second.0, id).imports;
            &&& first.1 is Some
            &&& second.1 is Some
            &&& second.1->0.dataset_id == id
            &&& holds_dataset(first.0, id)
            &&& holds_dataset(second.0, id)
            &&& supplied_import(second_import) == Some(first.1->0.import_id) ==> {
                &&& second.1->0.import_id == first.1->0.import_id
                &&& after.len() == before.len()
            }
            &&& supplied_import(second_import) is None ==> {
                &&& second.1->0.import_id == second_fresh.import_id
                &&& after.len() == before.len() + 1
                &&& after.last().id == second.1->0.import_id
            }
        }),
{
    let s = begun(first_options, first_rows, None, first_append, first_fresh);
    let first = saved(store, first_options, first_rows, None, first_append, first_fresh);
    let t = begun(second_options, second_rows, second_import, second_append, second_fresh);
    let second = saved(
        first.0,
        second_options,
        second_rows,
        second_import,
        second_append,
        second_fresh,
    );
    let accept = accepted_by(s.matcher);
    assert(t.matcher == s.matcher);
    let at = first_where(store.datasets, accept);
    lemma_first_where(store.datasets, accept);
    lemma_first_where(store.datasets, has_id(first_fresh.dataset_id));
    lemma_save_writes_one_dataset(store, first_options, first_rows, None, first_append, first_fresh);
    let id = first.1->0.dataset_id;
    let place = if at < store.datasets.len() {
        at
    } else {
        store.datasets.len() as int
    };
    assert(first.0.datasets[place].id == id);
    assert(accept(first.0.datasets[place]));
    assert forall|j: int| 0 <= j < place implies !accept(#[trigger] first.0.datasets[j]) by {
        assert(first.0.datasets[j] == store.datasets[j]);
    }
    lemma_first_where_is(first.0.datasets, accept, place);
    law_save_keeps_identifiers_distinct(
        store,
        first_options,
        first_rows,
        None,
        first_append,
        first_fresh,
    );
    assert forall|j: int| 0 <= j < place implies !has_id(id)(#[trigger] first.0.datasets[j]) by {}
    lemma_first_where_is(first.0.datasets, has_id(id), place);
    lemma_save_writes_one_dataset(
        first.0,
        second_options,
        second_rows,
        second_import,
        second_append,
        second_fresh,
    );
    assert(second.0.datasets[place].id == id);
    assert forall|j: int| 0 <= j < place implies !has_id(id)(#[trigger] second.0.datasets[j]) by {
        assert(second.0.datasets[j] == first.0.datasets[j]);
    }
    lemma_first_where_is(second.0.datasets, has_id(id), place);
    let d = first.0.datasets[place];
    if supplied_import(second_import) == Some(first.1->0.import_id) {
        let last = d.imports.len() - 1;
        assert(d.imports[last].id == first_fresh.import_id);
        lemma_first_where(d.imports, import_has_id(first_fresh.import_id));
        assert(import_has_id(first_fresh.import_id)(d.imports[last]));
    }
}

/// Whether the row at place `k` of a keyed batch can be added: it holds no
/// value under the key, or one that no row of `earlier` holds and no row
/// before it in the batch.
pub open spec fn row_is_free(s: SessionView, earlier: Seq<RowView>, k: int) -> bool {
    key_value(s, k) matches Some(value) ==> {
        &&& forall|j: int|
            0 <= j < earlier.len() ==> !holds_key(s.data_pk->0, value)(#[trigger] earlier[j])
        &&& forall|j: int| 0 <= j < k ==> #[trigger] key_value(s, j) != Some(value)
    }
}

/// Whether the rows of a keyed batch can all be added.
pub open spec fn free_of_collisions(s: SessionView, earlier: Seq<RowView>) -> bool {
    forall|k: int| 0 <= k < s.payloads.len() ==> #[trigger] row_is_free(s, earlier, k)
}

/// Whether a batch is free of collisions depends on its payloads and its key alone.
pub proof fn lemma_free_of_collisions_kept(s: SessionView, t: SessionView, earlier: Seq<RowView>)
    requires
        free_of_collisions(s, earlier),
        t.payloads == s.payloads,
        t.data_pk == s.data_pk,
    ensures
        free_of_collisions(t, earlier),
{
    assert forall|k: int| 0 <= k < t.payloads.len() implies #[trigger] row_is_free(t, earlier, k) by {
        assert(row_is_free(s, earlier, k));
        assert(key_value(t, k) == key_value(s, k));
        assert forall|j: int| 0 <= j < k implies #[trigger] key_value(t, j) == key_value(s, j) by {}
    }
}

/// A keyed batch from its row at place `i` on, in a store that holds the
/// earlier rows and the rows of the batch before that place: where no key
/// collides, the save adds each remaining row and counts it.
pub proof fn lemma_keyed_rows_append(s: SessionView, i: int, store: StoreView, earlier: Seq<RowView>)
    requires
        s.data_pk is Some,
        0 <= i <= s.payloads.len() <= usize::MAX,
        s.saved + (s.payloads.len() - i) <= usize::MAX,
        store.rows == earlier + all_rows(s).subrange(0, i),
        free_of_collisions(s, earlier),
    ensures
        ({
            let (session, step) = row_step(s, i);
            let end = outcome(session, step, store);
            &&& end.0.datasets == store.datasets
            &&& end.0.rows == earlier + all_rows(s)
            &&& end.1 == Some(receipt(s, (s.saved + (s.payloads.len() - i)) as usize))
        }),
    decreases s.payloads.len() - i,
{
    reveal_with_fuel(outcome, 3);
    let n = s.payloads.len() as int;
    let (session, step) = row_step(s, i);
    if i == n {
        assert(all_rows(s).subrange(0, i) =~= all_rows(s));
    } else {
        let row = row_at(s, i);
        let inserting = in_phase(s, Phase::Inserting(i as usize));
        assert(row_is_free(s, earlier, i));
        if key_value(s, i) is Some {
            let value = key_value(s, i)->0;
            let holds = holds_key(s.data_pk->0, value);
            assert forall|j: int| 0 <= j < store.rows.len() implies !holds(
                #[trigger] store.rows[j],
            ) by {
                if j >= earlier.len() {
                    let k = j - earlier.len();
                    assert(store.rows[j] == row_at(s, k));
                    assert(key_value(s, k) != Some(value));
                } else {
                    assert(store.rows[j] == earlier[j]);
                }
            }
            lemma_first_where_is(store.rows, holds, store.rows.len() as int);
        }
        let after = StoreView { rows: store.rows.push(row), ..store };
        let counting = counted(inserting);
        assert(after.rows =~= earlier + all_rows(s).subrange(0, i + 1));
        assert(all_rows(counting) =~= all_rows(s));
        lemma_free_of_collisions_kept(s, counting, earlier);
        lemma_keyed_rows_append(counting, i + 1, after, earlier);
        assert(outcome(session, step, store) == outcome(
            row_step(counting, i + 1).0,
            row_step(counting, i + 1).1,
            after,
        ));
    }
}

/// A save that appends with a key declared, where no row of the batch holds
/// under the key a value that a stored row holds or a row before it in the
/// batch: it ends with a receipt for every row of the batch and leaves the
/// earlier rows as they were, followed by the rows of the batch in order.
pub proof fn law_append_without_collisions(
    store: StoreView,
    options: ValueView,
    rows: Seq<ValueView>,
    import_id: Option<Seq<char>>,
    fresh: Fresh,
)
    requires
        primary_key(entries_of(options)) is Some,
        rows.len() <= usize::MAX,
        free_of_collisions(begun(options, rows, import_id, true, fresh), store.rows),
    ensures
        ({
            let end = saved(store, options, rows, import_id, true, fresh);
            &&& end.1 is Some
            &&& end.1->0.rows == rows.len()
            &&& end.0.rows == store.rows + written_rows(
                rows,
                end.1->0.dataset_id,
                end.1->0.import_id,
            )
            &&& end.0.rows.len() == store.rows.len() + rows.len()
        }),
{
    reveal_with_fuel(outcome, 3);
    let s = begun(options, rows, import_id, true, fresh);
    let (found_store, found) = executed(store, RequestView::FindDataset(s.matcher));
    let (s1, step1) = next(s, found);
    let (written, reply) = executed(store, step1->Ask_0);
    let (s2, step2) = next(s1, reply);
    assert(written.rows == store.rows);
    assert((s2, step2) == row_step(s1, 0));
    assert(all_rows(s1).subrange(0, 0) =~= Seq::<RowView>::empty());
    assert(store.rows + Seq::<RowView>::empty() =~= store.rows);
    lemma_free_of_collisions_kept(s, s1, store.rows);
    lemma_keyed_rows_append(s1, 0, written, store.rows);
    assert(all_rows(s1) =~= written_rows(rows, s1.dataset_id, s1.resolved_import));
}

/// An instant under a key of a document, shown to a client, written back
/// and shown again, gives the text that it gave first, provided that the
/// text of the instant reads as that instant again.
pub proof fn law_timestamp_text_survives(key: Seq<char>, millis: i64)
    ensures
        timestamp_reading(timestamp_text(millis)) == Some(millis) ==> ({
            let shown = external_of(single(key, ValueView::DateTime(millis)));
            &&& shown == single(key, ValueView::Text(timestamp_text(millis)))
            &&& stored_of(shown) == single(key, ValueView::DateTime(millis))
            &&& external_of(stored_of(shown)) == shown
        }),
{
    reveal_with_fuel(external_of, 2);
    reveal_with_fuel(stored_of, 2);
    reveal_with_fuel(stored_entry_of, 2);
    let stored = single(key, ValueView::DateTime(millis));
    let shown = external_of(stored);
    let text = single(key, ValueView::Text(timestamp_text(millis)));
    assert(shown->Document_0 =~= text->Document_0);
    if timestamp_reading(timestamp_text(millis)) == Some(millis) {
        assert(stored_of(text)->Document_0 =~= stored->Document_0);
    }
}

} // verus!
