use crate::dataset::{
    datasets_view, duplicate_imports, imports_view, rows_view, Dataset, DatasetView, ImportView,
    Row, RowView,
};
use crate::engine::{
    import_position, position_of_import, ImportChange, ImportChangeView, PatchView, ReplyView,
    RequestView, RowScope, StoreReply, StoreRequest,
};
use crate::object_id::{object_id_reading, ObjectId};
use crate::options::{DataSetMatcher, MatcherView};
use crate::seqs::{first_where, lemma_first_where_is};
use crate::value::{entries_of, entry_value, get_field, Value, ValueView};
use vstd::prelude::*;

verus! {

/// The datasets and the rows of a store, each in the order in which they were added.
#[derive(Debug, PartialEq, Eq)]
pub struct MemoryStore {
    pub datasets: Vec<Dataset>,
    pub rows: Vec<Row>,
}

/// What a `MemoryStore` holds.
pub struct StoreView {
    pub datasets: Seq<DatasetView>,
    pub rows: Seq<RowView>,
}

impl View for MemoryStore {
    type V = StoreView;

    open spec fn view(&self) -> StoreView {
        StoreView { datasets: datasets_view(self.datasets@), rows: rows_view(self.rows@) }
    }
}

/// Whether a matcher accepts a dataset: by name and sheet index together, or
/// by the identifier that its text names.
pub open spec fn accepts(m: MatcherView, d: DatasetView) -> bool {
    match m {
        MatcherView::NameIndex(name, index) => d.name == name && d.sheet_index == index,
        MatcherView::Id(text) => object_id_reading(text) == Some(d.id),
    }
}

/// The datasets that a matcher accepts.
pub open spec fn accepted_by(m: MatcherView) -> spec_fn(DatasetView) -> bool {
    |d: DatasetView| accepts(m, d)
}

/// The datasets with the given identifier.
pub open spec fn has_id(id: ObjectId) -> spec_fn(DatasetView) -> bool {
    |d: DatasetView| d.id == id
}

/// Whether a row belongs to a scope.
pub open spec fn in_scope(scope: RowScope) -> spec_fn(RowView) -> bool {
    |r: RowView|
        match scope {
            RowScope::Dataset(id) => r.dataset_id == id,
            RowScope::Import(id) => r.import_id == id,
        }
}

/// The rows that do not belong to a scope.
pub open spec fn outside_scope(scope: RowScope) -> spec_fn(RowView) -> bool {
    |r: RowView| !in_scope(scope)(r)
}

/// Whether a row's payload holds `value` under `key`.
pub open spec fn holds_key(key: Seq<char>, value: ValueView) -> spec_fn(RowView) -> bool {
    |r: RowView| entry_value(entries_of(r.data), key) == Some(value)
}

/// The imports after a change: one more at the end, or one in the place of
/// the first with its identifier.
pub open spec fn changed_imports(imports: Seq<ImportView>, change: ImportChangeView) -> Seq<
    ImportView,
> {
    match change {
        ImportChangeView::Append(e) => imports.push(e),
        ImportChangeView::Replace(e) => imports.update(import_position(imports, e.id), e),
    }
}

/// Whether a change can be made to a dataset: a replacement needs the
/// import that it replaces.
pub open spec fn change_applies(imports: Seq<ImportView>, change: ImportChangeView) -> bool {
    match change {
        ImportChangeView::Append(_) => true,
        ImportChangeView::Replace(e) => import_position(imports, e.id) < imports.len(),
    }
}

/// A dataset after an update: its attributes overwritten, its imports
/// changed, its identifier, user, sheet index and time of creation kept.
pub open spec fn patched(d: DatasetView, patch: PatchView, change: ImportChangeView) -> DatasetView {
    DatasetView {
        name: patch.name,
        title: patch.title,
        description: patch.description,
        options: patch.options,
        updated_at: Some(patch.updated_at),
        imports: changed_imports(d.imports, change),
        ..d
    }
}

/// What a store holds after an operation, and what it answers. An update
/// that finds no dataset, or not the import that it replaces, changes nothing.
pub open spec fn executed(s: StoreView, request: RequestView) -> (StoreView, ReplyView) {
    match request {
        RequestView::FindDataset(m) => {
            let at = first_where(s.datasets, accepted_by(m));
            if at < s.datasets.len() {
                (s, ReplyView::Found(Some(s.datasets[at])))
            } else {
                (s, ReplyView::Found(None))
            }
        },
        RequestView::UpdateDataset { id, patch, import } => {
            let at = first_where(s.datasets, has_id(id));
            if at < s.datasets.len() && change_applies(s.datasets[at].imports, import) {
                (
                    StoreView {
                        datasets: s.datasets.update(at, patched(s.datasets[at], patch, import)),
                        ..s
                    },
                    ReplyView::Done,
                )
            } else {
                (s, ReplyView::Done)
            }
        },
        RequestView::InsertDataset(d) => (
            StoreView { datasets: s.datasets.push(d), ..s },
            ReplyView::Done,
        ),
        RequestView::DeleteRows(scope) => (
            StoreView { rows: s.rows.filter(outside_scope(scope)), ..s },
            ReplyView::Done,
        ),
        RequestView::InsertRows(rows) => (StoreView { rows: s.rows + rows, ..s }, ReplyView::Done),
        RequestView::UpdateRow { key, value, row } => {
            let at = first_where(s.rows, holds_key(key, value));
            if at < s.rows.len() {
                (StoreView { rows: s.rows.update(at, row), ..s }, ReplyView::Matched(true))
            } else {
                (s, ReplyView::Matched(false))
            }
        },
        RequestView::InsertRow(row) => (StoreView { rows: s.rows.push(row), ..s }, ReplyView::Done),
    }
}

fn accepts_dataset(m: &DataSetMatcher, d: &Dataset) -> (r: bool)
    ensures
        r == accepts(m@, d@),
{
    match m {
        DataSetMatcher::NameIndex(name, index) => d.name == *name && d.sheet_index == *index,
        DataSetMatcher::Id(text) => match ObjectId::from_str(text.as_str()) {
            Some(id) => id == d.id,
            None => false,
        },
    }
}

fn holds(row: &Row, key: &str, value: &Value) -> (r: bool)
    ensures
        r == holds_key(key@, value@)(row@),
{
    match &row.data {
        Value::Document(fields) => match get_field(fields, key) {
            Some(v) => v.same(value),
            None => false,
        },
        _ => {
            assert(entry_value(Seq::<(Seq<char>, ValueView)>::empty(), key@) is None);
            false
        },
    }
}

fn within(row: &Row, scope: RowScope) -> (r: bool)
    ensures
        r == in_scope(scope)(row@),
{
    match scope {
        RowScope::Dataset(id) => row.dataset_id == id,
        RowScope::Import(id) => row.import_id == id,
    }
}

impl MemoryStore {
    /// A store that holds nothing.
    pub fn new() -> (r: MemoryStore)
        ensures
            r@.datasets.len() == 0,
            r@.rows.len() == 0,
    {
        MemoryStore { datasets: Vec::new(), rows: Vec::new() }
    }

    fn find_dataset(&self, m: &DataSetMatcher) -> (r: usize)
        ensures
            r == first_where(self@.datasets, accepted_by(m@)),
            r <= self.datasets@.len(),
    {
        let mut i: usize = 0;
        while i < self.datasets.len()
            invariant
                i <= self.datasets.len(),
                forall|j: int| 0 <= j < i ==> !accepted_by(m@)(#[trigger] self@.datasets[j]),
            decreases self.datasets.len() - i,
        {
            if accepts_dataset(m, &self.datasets[i]) {
                proof {
                    lemma_first_where_is(self@.datasets, accepted_by(m@), i as int);
                }
                return i;
            }
            i += 1;
        }
        proof {
            lemma_first_where_is(self@.datasets, accepted_by(m@), i as int);
        }
        i
    }

    fn find_by_id(&self, id: ObjectId) -> (r: usize)
        ensures
            r == first_where(self@.datasets, has_id(id)),
            r <= self.datasets@.len(),
    {
        let mut i: usize = 0;
        while i < self.datasets.len()
            invariant
                i <= self.datasets.len(),
                forall|j: int| 0 <= j < i ==> !has_id(id)(#[trigger] self@.datasets[j]),
            decreases self.datasets.len() - i,
        {
            if self.datasets[i].id == id {
                proof {
                    lemma_first_where_is(self@.datasets, has_id(id), i as int);
                }
                return i;
            }
            i += 1;
        }
        proof {
            lemma_first_where_is(self@.datasets, has_id(id), i as int);
        }
        i
    }

    fn find_row(&self, key: &str, value: &Value) -> (r: usize)
        ensures
            r == first_where(self@.rows, holds_key(key@, value@)),
            r <= self.rows@.len(),
    {
        let mut i: usize = 0;
        while i < self.rows.len()
            invariant
                i <= self.rows.len(),
                forall|j: int| 0 <= j < i ==> !holds_key(key@, value@)(#[trigger] self@.rows[j]),
            decreases self.rows.len() - i,
        {
            if holds(&self.rows[i], key, value) {
                proof {
                    lemma_first_where_is(self@.rows, holds_key(key@, value@), i as int);
                }
                return i;
            }
            i += 1;
        }
        proof {
            lemma_first_where_is(self@.rows, holds_key(key@, value@), i as int);
        }
        i
    }

    fn delete_rows(&mut self, scope: RowScope)
        ensures
            final(self)@.rows == old(self)@.rows.filter(outside_scope(scope)),
            final(self)@.datasets == old(self)@.datasets,
    {
        let ghost before = self@.rows;
        let mut kept: Vec<Row> = Vec::new();
        let mut i: usize = 0;
        proof {
            reveal(Seq::filter);
            assert(before.subrange(0, 0) =~= Seq::<RowView>::empty());
        }
        while i < self.rows.len()
            invariant
                i <= self.rows.len(),
                before == self@.rows,
                rows_view(kept@) == before.subrange(0, i as int).filter(outside_scope(scope)),
            decreases self.rows.len() - i,
        {
            let ghost upto = before.subrange(0, i + 1);
            let ghost so_far = rows_view(kept@);
            proof {
                reveal(Seq::filter);
                assert(upto.drop_last() =~= before.subrange(0, i as int));
                assert(upto.last() == self.rows@[i as int]@);
            }
            if !within(&self.rows[i], scope) {
                kept.push(self.rows[i].duplicate());
                assert(rows_view(kept@) =~= so_far.push(upto.last()));
            }
            i += 1;
        }
        assert(before.subrange(0, self.rows.len() as int) =~= before);
        self.rows = kept;
    }

    /// Carries out one operation and answers it. This store never fails.
    pub fn execute(&mut self, request: StoreRequest) -> (r: StoreReply)
        ensures
            final(self)@ == executed(old(self)@, request@).0,
            r@ == executed(old(self)@, request@).1,
    {
        match request {
            StoreRequest::FindDataset(m) => {
                let at = self.find_dataset(&m);
                if at < self.datasets.len() {
                    StoreReply::Found(Some(self.datasets[at].duplicate()))
                } else {
                    StoreReply::Found(None)
                }
            },
            StoreRequest::UpdateDataset { id, patch, import } => {
                let at = self.find_by_id(id);
                if at < self.datasets.len() {
                    let d = &self.datasets[at];
                    let mut imports = duplicate_imports(&d.imports);
                    let applies = match import {
                        ImportChange::Append(e) => {
                            imports.push(e);
                            true
                        },
                        ImportChange::Replace(e) => {
                            let place = position_of_import(&imports, e.id);
                            if place < imports.len() {
                                imports.remove(place);
                                imports.insert(place, e);
                                true
                            } else {
                                false
                            }
                        },
                    };
                    if applies {
                        assert(imports_view(imports@) =~= changed_imports(d@.imports, import@));
                        let next = Dataset {
                            id: d.id,
                            user_ref: d.user_ref.clone(),
                            name: patch.name,
                            title: patch.title,
                            description: patch.description,
                            sheet_index: d.sheet_index,
                            options: patch.options,
                            imports,
                            created_at: d.created_at,
                            updated_at: Some(patch.updated_at),
                        };
                        self.datasets.remove(at);
                        self.datasets.insert(at, next);
                        assert(self@.datasets =~= old(self)@.datasets.update(
                            at as int,
                            patched(old(self)@.datasets[at as int], patch@, import@),
                        ));
                    }
                }
                StoreReply::Done
            },
            StoreRequest::InsertDataset(d) => {
                self.datasets.push(d);
                assert(self@.datasets =~= old(self)@.datasets.push(d@));
                StoreReply::Done
            },
            StoreRequest::DeleteRows(scope) => {
                self.delete_rows(scope);
                StoreReply::Done
            },
            StoreRequest::InsertRows(rows) => {
                let mut rows = rows;
                let ghost added = rows_view(rows@);
                self.rows.append(&mut rows);
                assert(self@.rows =~= old(self)@.rows + added);
                StoreReply::Done
            },
            StoreRequest::UpdateRow { key, value, row } => {
                let at = self.find_row(key.as_str(), &value);
                if at < self.rows.len() {
                    self.rows.remove(at);
                    self.rows.insert(at, row);
                    assert(self@.rows =~= old(self)@.rows.update(at as int, row@));
                    StoreReply::Matched(true)
                } else {
                    StoreReply::Matched(false)
                }
            },
            StoreRequest::InsertRow(row) => {
                self.rows.push(row);
                assert(self@.rows =~= old(self)@.rows.push(row@));
                StoreReply::Done
            },
        }
    }
}

} // verus!
