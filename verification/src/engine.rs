use crate::dataset::{
    import_document, imports_view, row_document, rows_view, Dataset, DatasetView, ImportEntry,
    ImportView, Row, RowView,
};
use crate::object_id::{generate, object_id_reading, ObjectId};
use crate::options::{DataSetMatcher, MatcherView, ReplaceMode};
use crate::seqs::{first_where, lemma_first_where_is};
use crate::timestamp::now_millis;
use crate::value::{
    document_fields, duplicate_fields, entries_of, entry_value, fields_view, get_field,
    index_entry, index_field, items_view, single, text_entry, text_field, Entries, Field,
    Value, ValueView,
};
use vstd::prelude::*;

verus! {

/// The identifiers and the time that a save may use for what it creates.
#[derive(Clone, Copy, Debug, PartialEq, Eq, Structural)]
pub struct Fresh {
    pub dataset_id: ObjectId,
    pub import_id: ObjectId,
    pub now: i64,
}

/// The attributes of a dataset that every save overwrites.
#[derive(Debug, PartialEq, Eq)]
pub struct DatasetPatch {
    pub name: String,
    pub title: String,
    pub description: String,
    pub options: Vec<Field>,
    pub updated_at: i64,
}

/// What a `DatasetPatch` holds.
pub struct PatchView {
    pub name: Seq<char>,
    pub title: Seq<char>,
    pub description: Seq<char>,
    pub options: Entries,
    pub updated_at: i64,
}

impl View for DatasetPatch {
    type V = PatchView;

    open spec fn view(&self) -> PatchView {
        PatchView {
            name: self.name@,
            title: self.title@,
            description: self.description@,
            options: fields_view(self.options@),
            updated_at: self.updated_at,
        }
    }
}

/// What a save does to the list of a dataset's imports.
#[derive(Debug, PartialEq, Eq)]
pub enum ImportChange {
    /// The entry is added at the end.
    Append(ImportEntry),
    /// The entry takes the place of the one with its identifier.
    Replace(ImportEntry),
}

/// What an `ImportChange` holds.
pub enum ImportChangeView {
    Append(ImportView),
    Replace(ImportView),
}

impl View for ImportChange {
    type V = ImportChangeView;

    open spec fn view(&self) -> ImportChangeView {
        match self {
            ImportChange::Append(e) => ImportChangeView::Append(e@),
            ImportChange::Replace(e) => ImportChangeView::Replace(e@),
        }
    }
}

/// The rows that a removal covers.
#[derive(Clone, Copy, Debug, PartialEq, Eq, Structural)]
pub enum RowScope {
    Dataset(ObjectId),
    Import(ObjectId),
}

/// One operation that a save asks of the store.
#[derive(Debug, PartialEq, Eq)]
pub enum StoreRequest {
    /// Find the first dataset that the matcher accepts.
    FindDataset(DataSetMatcher),
    /// Overwrite the attributes of the dataset with this identifier and change its imports.
    UpdateDataset { id: ObjectId, patch: DatasetPatch, import: ImportChange },
    /// Add a dataset.
    InsertDataset(Dataset),
    /// Remove the rows of a scope.
    DeleteRows(RowScope),
    /// Add rows, in order.
    InsertRows(Vec<Row>),
    /// Put `row` in the place of the first row whose payload holds `value` under `key`.
    UpdateRow { key: String, value: Value, row: Row },
    /// Add one row.
    InsertRow(Row),
}

/// What a `StoreRequest` holds.
pub enum RequestView {
    FindDataset(MatcherView),
    UpdateDataset { id: ObjectId, patch: PatchView, import: ImportChangeView },
    InsertDataset(DatasetView),
    DeleteRows(RowScope),
    InsertRows(Seq<RowView>),
    UpdateRow { key: Seq<char>, value: ValueView, row: RowView },
    InsertRow(RowView),
}

impl View for StoreRequest {
    type V = RequestView;

    open spec fn view(&self) -> RequestView {
        match self {
            StoreRequest::FindDataset(m) => RequestView::FindDataset(m@),
            StoreRequest::UpdateDataset { id, patch, import } => RequestView::UpdateDataset {
                id: *id,
                patch: patch@,
                import: import@,
            },
            StoreRequest::InsertDataset(d) => RequestView::InsertDataset(d@),
            StoreRequest::DeleteRows(scope) => RequestView::DeleteRows(*scope),
            StoreRequest::InsertRows(rows) => RequestView::InsertRows(rows_view(rows@)),
            StoreRequest::UpdateRow { key, value, row } => RequestView::UpdateRow {
                key: key@,
                value: value@,
                row: row@,
            },
            StoreRequest::InsertRow(row) => RequestView::InsertRow(row@),
        }
    }
}

/// What the store answers.
#[derive(Debug, PartialEq, Eq)]
pub enum StoreReply {
    /// The dataset that was looked for, if there is one.
    Found(Option<Dataset>),
    /// The operation was carried out.
    Done,
    /// The operation failed.
    Failed,
    /// Whether an update found its row.
    Matched(bool),
}

/// What a `StoreReply` holds.
pub enum ReplyView {
    Found(Option<DatasetView>),
    Done,
    Failed,
    Matched(bool),
}

impl View for StoreReply {
    type V = ReplyView;

    open spec fn view(&self) -> ReplyView {
        match self {
            StoreReply::Found(Some(d)) => ReplyView::Found(Some(d@)),
            StoreReply::Found(None) => ReplyView::Found(None),
            StoreReply::Done => ReplyView::Done,
            StoreReply::Failed => ReplyView::Failed,
            StoreReply::Matched(b) => ReplyView::Matched(*b),
        }
    }
}

/// What a finished save reports: the dataset, the import and the number of
/// rows that were updated or added.
#[derive(Clone, Copy, Debug, PartialEq, Eq, Structural)]
pub struct SaveReceipt {
    pub dataset_id: ObjectId,
    pub import_id: ObjectId,
    pub rows: usize,
}

/// What a save does next: ask the store for an operation, or end.
#[derive(Debug, PartialEq, Eq)]
pub enum Step {
    Ask(StoreRequest),
    Finish(Option<SaveReceipt>),
}

/// What a `Step` holds.
pub enum StepView {
    Ask(RequestView),
    Finish(Option<SaveReceipt>),
}

impl View for Step {
    type V = StepView;

    open spec fn view(&self) -> StepView {
        match self {
            Step::Ask(r) => StepView::Ask(r@),
            Step::Finish(r) => StepView::Finish(*r),
        }
    }
}

/// Where a save stands: which answer it waits for.
#[derive(Clone, Copy, Debug, PartialEq, Eq, Structural)]
pub enum Phase {
    /// The dataset is being looked for.
    Lookup,
    /// The dataset is being updated or added.
    Writing,
    /// Earlier rows are being removed.
    Clearing,
    /// All rows are being added at once.
    Bulk,
    /// The row at this place is being updated by its key.
    Updating(usize),
    /// The row at this place is being added.
    Inserting(usize),
    Finished,
}

/// One save of a batch of rows, from the lookup of its dataset to its receipt.
#[derive(Debug, PartialEq, Eq)]
pub struct SaveSession {
    pub phase: Phase,
    pub name: String,
    pub title: String,
    pub description: String,
    pub user_ref: String,
    pub sheet_index: u32,
    pub options: Vec<Field>,
    pub matcher: DataSetMatcher,
    pub import_id: Option<ObjectId>,
    pub import_supplied: bool,
    pub append: bool,
    pub data_pk: Option<String>,
    pub payloads: Vec<Value>,
    pub fresh: Fresh,
    pub dataset_id: ObjectId,
    pub resolved_import: ObjectId,
    pub saved: usize,
}

/// What a `SaveSession` holds.
pub struct SessionView {
    pub phase: Phase,
    pub name: Seq<char>,
    pub title: Seq<char>,
    pub description: Seq<char>,
    pub user_ref: Seq<char>,
    pub sheet_index: u32,
    pub options: Entries,
    pub matcher: MatcherView,
    pub import_id: Option<ObjectId>,
    pub import_supplied: bool,
    pub append: bool,
    pub data_pk: Option<Seq<char>>,
    pub payloads: Seq<ValueView>,
    pub fresh: Fresh,
    pub dataset_id: ObjectId,
    pub resolved_import: ObjectId,
    pub saved: usize,
}

/// What an optional text holds.
pub open spec fn text_view(t: Option<String>) -> Option<Seq<char>> {
    match t {
        Some(s) => Some(s@),
        None => None,
    }
}

/// What an optional text slice holds.
pub open spec fn given_text(t: Option<&str>) -> Option<Seq<char>> {
    match t {
        Some(s) => Some(s@),
        None => None,
    }
}

impl View for SaveSession {
    type V = SessionView;

    open spec fn view(&self) -> SessionView {
        SessionView {
            phase: self.phase,
            name: self.name@,
            title: self.title@,
            description: self.description@,
            user_ref: self.user_ref@,
            sheet_index: self.sheet_index,
            options: fields_view(self.options@),
            matcher: self.matcher@,
            import_id: self.import_id,
            import_supplied: self.import_supplied,
            append: self.append,
            data_pk: text_view(self.data_pk),
            payloads: items_view(self.payloads@),
            fresh: self.fresh,
            dataset_id: self.dataset_id,
            resolved_import: self.resolved_import,
            saved: self.saved,
        }
    }
}

/// The sheet index among the options.
pub open spec fn sheet_index_entry(entries: Entries) -> u32 {
    index_entry(entries, "sheet_index"@)
}

/// The keys that are attributes of the dataset itself and stay out of its
/// stored options.
pub open spec fn is_transport_key(key: Seq<char>) -> bool {
    ||| key == "dataset_id"@
    ||| key == "import_id"@
    ||| key == "filename"@
    ||| key == "title"@
    ||| key == "description"@
    ||| key == "user_ref"@
}

/// The entries without those of the dataset's own attributes, in order.
pub open spec fn sanitized(entries: Entries) -> Entries
    decreases entries.len(),
{
    if entries.len() == 0 {
        Seq::empty()
    } else if is_transport_key(entries.last().0) {
        sanitized(entries.drop_last())
    } else {
        sanitized(entries.drop_last()).push(entries.last())
    }
}

/// The matcher of a save: the dataset's identifier where the options give one
/// that reads as an identifier, else name and sheet index.
pub open spec fn resolved_matcher(entries: Entries) -> MatcherView {
    match entry_value(entries, "dataset_id"@) {
        Some(ValueView::Text(id)) => if object_id_reading(id) is Some {
            MatcherView::Id(id)
        } else {
            MatcherView::NameIndex(text_entry(entries, "filename"@), sheet_index_entry(entries))
        },
        _ => MatcherView::NameIndex(text_entry(entries, "filename"@), sheet_index_entry(entries)),
    }
}

/// The name of the payload field by which rows are found again, if the
/// options declare one.
pub open spec fn primary_key(entries: Entries) -> Option<Seq<char>> {
    match entry_value(entries, "data_pk"@) {
        Some(ValueView::Text(pk)) => Some(pk),
        _ => None,
    }
}

/// The identifier that a text names, if a text is given and names one.
pub open spec fn supplied_import(import_id: Option<Seq<char>>) -> Option<ObjectId> {
    match import_id {
        Some(s) => object_id_reading(s),
        None => None,
    }
}

/// The stored forms of a batch of payloads.
pub open spec fn stored_payloads(rows: Seq<ValueView>) -> Seq<ValueView> {
    Seq::new(rows.len(), |i: int| crate::value::stored_of(rows[i]))
}

/// The session at the start of a save.
pub open spec fn begun(
    options: ValueView,
    rows: Seq<ValueView>,
    import_id: Option<Seq<char>>,
    append: bool,
    fresh: Fresh,
) -> SessionView {
    let entries = entries_of(options);
    SessionView {
        phase: Phase::Lookup,
        name: text_entry(entries, "filename"@),
        title: text_entry(entries, "title"@),
        description: text_entry(entries, "description"@),
        user_ref: text_entry(entries, "user_ref"@),
        sheet_index: sheet_index_entry(entries),
        options: sanitized(entries),
        matcher: resolved_matcher(entries),
        import_id: supplied_import(import_id),
        import_supplied: import_id is Some,
        append,
        data_pk: primary_key(entries),
        payloads: stored_payloads(rows),
        fresh,
        dataset_id: fresh.dataset_id,
        resolved_import: fresh.import_id,
        saved: 0,
    }
}

/// The import entry that a save writes under the given identifier.
pub open spec fn import_entry(s: SessionView, id: ObjectId) -> ImportView {
    ImportView { id, dt: s.fresh.now, filename: s.name, sheet_index: s.sheet_index }
}

/// Whether an import has the given identifier.
pub open spec fn import_has_id(id: ObjectId) -> spec_fn(ImportView) -> bool {
    |e: ImportView| e.id == id
}

/// The place of the first import with the given identifier, or the number of
/// imports where there is none.
pub open spec fn import_position(imports: Seq<ImportView>, id: ObjectId) -> int {
    first_where(imports, import_has_id(id))
}

/// Whether the save names an import that the dataset has.
pub open spec fn reuses_import(s: SessionView, d: DatasetView) -> bool {
    match s.import_id {
        Some(id) => import_position(d.imports, id) < d.imports.len(),
        None => false,
    }
}

/// The attributes that the save overwrites in a dataset that it found.
pub open spec fn patch_of(s: SessionView) -> PatchView {
    PatchView {
        name: s.name,
        title: s.title,
        description: s.description,
        options: s.options,
        updated_at: s.fresh.now,
    }
}

/// The dataset that the save adds where it found none.
pub open spec fn new_dataset(s: SessionView) -> DatasetView {
    DatasetView {
        id: s.fresh.dataset_id,
        user_ref: s.user_ref,
        name: s.name,
        title: s.title,
        description: s.description,
        sheet_index: s.sheet_index,
        options: s.options,
        imports: seq![import_entry(s, s.fresh.import_id)],
        created_at: s.fresh.now,
        updated_at: None,
    }
}

/// The row that the save writes for the payload at place `i`.
pub open spec fn row_at(s: SessionView, i: int) -> RowView {
    RowView { dataset_id: s.dataset_id, import_id: s.resolved_import, data: s.payloads[i] }
}

/// The rows that the save writes, one for each payload.
pub open spec fn all_rows(s: SessionView) -> Seq<RowView> {
    Seq::new(s.payloads.len(), |i: int| row_at(s, i))
}

/// The receipt of a save for the given number of rows.
pub open spec fn receipt(s: SessionView, rows: usize) -> SaveReceipt {
    SaveReceipt { dataset_id: s.dataset_id, import_id: s.resolved_import, rows }
}

/// One more saved row.
pub open spec fn counted(s: SessionView) -> SessionView {
    SessionView {
        saved: if s.saved < usize::MAX {
            (s.saved + 1) as usize
        } else {
            s.saved
        },
        ..s
    }
}

/// The session in another phase.
pub open spec fn in_phase(s: SessionView, phase: Phase) -> SessionView {
    SessionView { phase, ..s }
}

/// The save ends without a receipt.
pub open spec fn aborted(s: SessionView) -> (SessionView, StepView) {
    (in_phase(s, Phase::Finished), StepView::Finish(None))
}

/// The value by which the payload at place `i` is found again, if a key is
/// declared and the payload holds it.
pub open spec fn key_value(s: SessionView, i: int) -> Option<ValueView> {
    match s.data_pk {
        Some(pk) => entry_value(entries_of(s.payloads[i]), pk),
        None => None,
    }
}

/// What the save does for the row at place `i`: update it by its key where
/// it has one, add it where it has none, end behind the last row.
pub open spec fn row_step(s: SessionView, i: int) -> (SessionView, StepView) {
    if 0 <= i < s.payloads.len() && i <= usize::MAX {
        match key_value(s, i) {
            Some(value) => (
                in_phase(s, Phase::Updating(i as usize)),
                StepView::Ask(
                    RequestView::UpdateRow { key: s.data_pk->0, value, row: row_at(s, i) },
                ),
            ),
            None => (
                in_phase(s, Phase::Inserting(i as usize)),
                StepView::Ask(RequestView::InsertRow(row_at(s, i))),
            ),
        }
    } else {
        (in_phase(s, Phase::Finished), StepView::Finish(Some(receipt(s, s.saved))))
    }
}

/// What the save does once earlier rows are out of the way: without a key,
/// add all rows at once; with one, go row by row.
pub open spec fn rows_start(s: SessionView) -> (SessionView, StepView) {
    if s.data_pk is None {
        if s.payloads.len() == 0 {
            (in_phase(s, Phase::Finished), StepView::Finish(Some(receipt(s, 0))))
        } else {
            (in_phase(s, Phase::Bulk), StepView::Ask(RequestView::InsertRows(all_rows(s))))
        }
    } else {
        row_step(s, 0)
    }
}

/// What the save does once its dataset is written: remove the rows that its
/// mode replaces, or go on to its own rows.
pub open spec fn after_write(s: SessionView) -> (SessionView, StepView) {
    match ReplaceMode::chosen(s.append, s.import_supplied) {
        ReplaceMode::ReplaceAll => (
            in_phase(s, Phase::Clearing),
            StepView::Ask(RequestView::DeleteRows(RowScope::Dataset(s.dataset_id))),
        ),
        ReplaceMode::ReplaceImport => (
            in_phase(s, Phase::Clearing),
            StepView::Ask(RequestView::DeleteRows(RowScope::Import(s.resolved_import))),
        ),
        ReplaceMode::Append => rows_start(s),
    }
}

/// What the save does with the dataset that the store found.
pub open spec fn after_found(s: SessionView, d: DatasetView) -> (SessionView, StepView) {
    let import_id = if reuses_import(s, d) {
        s.import_id->0
    } else {
        s.fresh.import_id
    };
    let entry = import_entry(s, import_id);
    let change = if reuses_import(s, d) {
        ImportChangeView::Replace(entry)
    } else {
        ImportChangeView::Append(entry)
    };
    (
        SessionView { phase: Phase::Writing, dataset_id: d.id, resolved_import: import_id, ..s },
        StepView::Ask(RequestView::UpdateDataset { id: d.id, patch: patch_of(s), import: change }),
    )
}

/// The first thing a save asks: its dataset.
pub open spec fn first_step(s: SessionView) -> StepView {
    StepView::Ask(RequestView::FindDataset(s.matcher))
}

/// The session after an answer of the store, and what it does next.
pub open spec fn next(s: SessionView, reply: ReplyView) -> (SessionView, StepView) {
    match s.phase {
        Phase::Lookup => match reply {
            ReplyView::Found(Some(d)) => after_found(s, d),
            ReplyView::Found(None) => (
                in_phase(s, Phase::Writing),
                StepView::Ask(RequestView::InsertDataset(new_dataset(s))),
            ),
            _ => aborted(s),
        },
        Phase::Writing => match reply {
            ReplyView::Done => after_write(s),
            _ => aborted(s),
        },
        Phase::Clearing => rows_start(s),
        Phase::Bulk => match reply {
            ReplyView::Done => (
                in_phase(s, Phase::Finished),
                StepView::Finish(Some(receipt(s, s.payloads.len() as usize))),
            ),
            _ => (in_phase(s, Phase::Finished), StepView::Finish(Some(receipt(s, 0)))),
        },
        Phase::Updating(i) => match reply {
            ReplyView::Matched(true) => row_step(counted(s), i + 1),
            _ => if i < s.payloads.len() {
                (in_phase(s, Phase::Inserting(i)), StepView::Ask(RequestView::InsertRow(row_at(s, i as int))))
            } else {
                row_step(s, i + 1)
            },
        },
        Phase::Inserting(i) => match reply {
            ReplyView::Done => row_step(counted(s), i + 1),
            _ => row_step(s, i + 1),
        },
        Phase::Finished => (s, StepView::Finish(None)),
    }
}

fn sheet_index_field(fields: &Vec<Field>) -> (r: u32)
    ensures
        r == sheet_index_entry(fields_view(fields@)),
{
    index_field(fields, "sheet_index")
}

fn is_transport(key: &str) -> (r: bool)
    ensures
        r == is_transport_key(key@),
{
    *key == *"dataset_id" || *key == *"import_id" || *key == *"filename" || *key == *"title"
        || *key == *"description" || *key == *"user_ref"
}

fn sanitize(fields: &Vec<Field>) -> (r: Vec<Field>)
    ensures
        fields_view(r@) == sanitized(fields_view(fields@)),
{
    let ghost entries = fields_view(fields@);
    let mut out: Vec<Field> = Vec::new();
    let mut i: usize = 0;
    assert(entries.subrange(0, 0) =~= Seq::<(Seq<char>, ValueView)>::empty());
    while i < fields.len()
        invariant
            i <= fields.len(),
            entries == fields_view(fields@),
            fields_view(out@) == sanitized(entries.subrange(0, i as int)),
        decreases fields.len() - i,
    {
        let ghost before = fields_view(out@);
        let ghost upto = entries.subrange(0, i + 1);
        assert(upto.drop_last() =~= entries.subrange(0, i as int));
        assert(upto.last() == (fields@[i as int].key@, fields@[i as int].value@));
        if !is_transport(fields[i].key.as_str()) {
            out.push(Field { key: fields[i].key.clone(), value: fields[i].value.duplicate() });
            assert(fields_view(out@) =~= before.push(upto.last()));
        }
        i += 1;
    }
    assert(entries.subrange(0, fields.len() as int) =~= entries);
    out
}

fn resolve_matcher(fields: &Vec<Field>) -> (r: DataSetMatcher)
    ensures
        r@ == resolved_matcher(fields_view(fields@)),
{
    match get_field(fields, "dataset_id") {
        Some(Value::Text(id)) => {
            if ObjectId::from_str(id.as_str()).is_some() {
                return DataSetMatcher::Id(id.clone());
            }
        },
        _ => {},
    }
    DataSetMatcher::NameIndex(text_field(fields, "filename"), sheet_index_field(fields))
}

fn primary_key_field(fields: &Vec<Field>) -> (r: Option<String>)
    ensures
        text_view(r) == primary_key(fields_view(fields@)),
{
    match get_field(fields, "data_pk") {
        Some(Value::Text(pk)) => Some(pk.clone()),
        _ => None,
    }
}

fn store_payloads(rows: &Vec<Value>) -> (r: Vec<Value>)
    ensures
        items_view(r@) == stored_payloads(items_view(rows@)),
{
    let mut out: Vec<Value> = Vec::new();
    let mut i: usize = 0;
    while i < rows.len()
        invariant
            i <= rows.len(),
            out@.len() == i,
            forall|j: int| 0 <= j < i ==> out@[j]@ == crate::value::stored_of(rows@[j]@),
        decreases rows.len() - i,
    {
        out.push(rows[i].to_storage());
        i += 1;
    }
    assert(items_view(out@) =~= stored_payloads(items_view(rows@)));
    out
}

/// The place of the first import with the given identifier, or the number of
/// imports where there is none.
pub fn position_of_import(imports: &Vec<ImportEntry>, id: ObjectId) -> (r: usize)
    ensures
        r == import_position(imports_view(imports@), id),
        r <= imports@.len(),
{
    let ghost all = imports_view(imports@);
    let mut i: usize = 0;
    while i < imports.len()
        invariant
            i <= imports.len(),
            all == imports_view(imports@),
            forall|j: int| 0 <= j < i ==> !import_has_id(id)(#[trigger] all[j]),
        decreases imports.len() - i,
    {
        if imports[i].id == id {
            proof {
                lemma_first_where_is(all, import_has_id(id), i as int);
            }
            return i;
        }
        i += 1;
    }
    proof {
        lemma_first_where_is(all, import_has_id(id), i as int);
    }
    i
}

impl SaveSession {
    /// Starts a save with the given identifiers and time for what it creates.
    pub fn begin_with(
        options: &Value,
        rows: &Vec<Value>,
        import_id: Option<&str>,
        append: bool,
        fresh: Fresh,
    ) -> (r: (SaveSession, Step))
        ensures
            r.0@ == begun(
                options@,
                items_view(rows@),
                given_text(import_id),
                append,
                fresh,
            ),
            r.1@ == first_step(r.0@),
    {
        let empty: Vec<Field> = Vec::new();
        assert(fields_view(empty@) =~= Seq::<(Seq<char>, ValueView)>::empty());
        let fields = match document_fields(options) {
            Some(fields) => fields,
            None => &empty,
        };
        let supplied = match import_id {
            Some(s) => ObjectId::from_str(s),
            None => None,
        };
        let matcher = resolve_matcher(fields);
        let step = Step::Ask(StoreRequest::FindDataset(matcher.duplicate()));
        let session = SaveSession {
            phase: Phase::Lookup,
            name: text_field(fields, "filename"),
            title: text_field(fields, "title"),
            description: text_field(fields, "description"),
            user_ref: text_field(fields, "user_ref"),
            sheet_index: sheet_index_field(fields),
            options: sanitize(fields),
            matcher,
            import_id: supplied,
            import_supplied: import_id.is_some(),
            append,
            data_pk: primary_key_field(fields),
            payloads: store_payloads(rows),
            fresh,
            dataset_id: fresh.dataset_id,
            resolved_import: fresh.import_id,
            saved: 0,
        };
        (session, step)
    }

    /// Starts a save. The identifiers of what it creates are new ones and its
    /// time is the current time, so the session is one that `begun` gives
    /// for some such values.
    pub fn begin(options: &Value, rows: &Vec<Value>, import_id: Option<&str>, append: bool) -> (r: (
        SaveSession,
        Step,
    ))
        ensures
            exists|fresh: Fresh|
                r.0@ == #[trigger] begun(
                    options@,
                    items_view(rows@),
                    given_text(import_id),
                    append,
                    fresh,
                ),
            r.1@ == first_step(r.0@),
    {
        let fresh = Fresh { dataset_id: generate(), import_id: generate(), now: now_millis() };
        SaveSession::begin_with(options, rows, import_id, append, fresh)
    }

    fn entry(&self, id: ObjectId) -> (r: ImportEntry)
        ensures
            r@ == import_entry(self@, id),
    {
        ImportEntry {
            id,
            dt: self.fresh.now,
            filename: self.name.clone(),
            sheet_index: self.sheet_index,
        }
    }

    fn row(&self, i: usize) -> (r: Row)
        requires
            i < self.payloads@.len(),
        ensures
            r@ == row_at(self@, i as int),
    {
        Row {
            dataset_id: self.dataset_id,
            import_id: self.resolved_import,
            data: self.payloads[i].duplicate(),
        }
    }

    fn rows(&self) -> (r: Vec<Row>)
        ensures
            rows_view(r@) == all_rows(self@),
    {
        let mut out: Vec<Row> = Vec::new();
        let mut i: usize = 0;
        while i < self.payloads.len()
            invariant
                i <= self.payloads.len(),
                out@.len() == i,
                forall|j: int| 0 <= j < i ==> out@[j]@ == row_at(self@, j),
            decreases self.payloads.len() - i,
        {
            out.push(self.row(i));
            i += 1;
        }
        assert(rows_view(out@) =~= all_rows(self@));
        out
    }

    fn finish(&mut self, result: Option<SaveReceipt>) -> (r: Step)
        ensures
            final(self)@ == in_phase(old(self)@, Phase::Finished),
            r@ == StepView::Finish(result),
    {
        self.phase = Phase::Finished;
        Step::Finish(result)
    }

    fn receipt(&self, rows: usize) -> (r: SaveReceipt)
        ensures
            r == receipt(self@, rows),
    {
        SaveReceipt { dataset_id: self.dataset_id, import_id: self.resolved_import, rows }
    }

    fn count(&mut self)
        ensures
            final(self)@ == counted(old(self)@),
    {
        if self.saved < usize::MAX {
            self.saved = self.saved + 1;
        }
    }

    fn key_value(&self, i: usize) -> (r: Option<Value>)
        requires
            i < self.payloads@.len(),
        ensures
            match r {
                Some(v) => key_value(self@, i as int) == Some(v@),
                None => key_value(self@, i as int) is None,
            },
    {
        match &self.data_pk {
            Some(pk) => match document_fields(&self.payloads[i]) {
                Some(fields) => match get_field(fields, pk.as_str()) {
                    Some(v) => Some(v.duplicate()),
                    None => None,
                },
                None => {
                    assert(entry_value(Seq::<(Seq<char>, ValueView)>::empty(), pk@) is None);
                    None
                },
            },
            None => None,
        }
    }

    fn row_step(&mut self, i: usize) -> (r: Step)
        ensures
            final(self)@ == row_step(old(self)@, i as int).0,
            r@ == row_step(old(self)@, i as int).1,
    {
        if i < self.payloads.len() {
            match self.key_value(i) {
                Some(value) => {
                    let key = match &self.data_pk {
                        Some(pk) => pk.clone(),
                        None => String::new(),
                    };
                    let row = self.row(i);
                    self.phase = Phase::Updating(i);
                    Step::Ask(StoreRequest::UpdateRow { key, value, row })
                },
                None => {
                    let row = self.row(i);
                    self.phase = Phase::Inserting(i);
                    Step::Ask(StoreRequest::InsertRow(row))
                },
            }
        } else {
            let done = self.receipt(self.saved);
            self.finish(Some(done))
        }
    }

    fn next_row(&mut self, i: usize) -> (r: Step)
        ensures
            final(self)@ == row_step(old(self)@, i + 1).0,
            r@ == row_step(old(self)@, i + 1).1,
    {
        if i < usize::MAX {
            self.row_step(i + 1)
        } else {
            let done = self.receipt(self.saved);
            self.finish(Some(done))
        }
    }

    fn rows_start(&mut self) -> (r: Step)
        ensures
            final(self)@ == rows_start(old(self)@).0,
            r@ == rows_start(old(self)@).1,
    {
        if self.data_pk.is_none() {
            if self.payloads.len() == 0 {
                let done = self.receipt(0);
                self.finish(Some(done))
            } else {
                let rows = self.rows();
                self.phase = Phase::Bulk;
                Step::Ask(StoreRequest::InsertRows(rows))
            }
        } else {
            self.row_step(0)
        }
    }

    fn after_write(&mut self) -> (r: Step)
        ensures
            final(self)@ == after_write(old(self)@).0,
            r@ == after_write(old(self)@).1,
    {
        match ReplaceMode::new(self.append, self.import_supplied) {
            ReplaceMode::ReplaceAll => {
                self.phase = Phase::Clearing;
                Step::Ask(StoreRequest::DeleteRows(RowScope::Dataset(self.dataset_id)))
            },
            ReplaceMode::ReplaceImport => {
                self.phase = Phase::Clearing;
                Step::Ask(StoreRequest::DeleteRows(RowScope::Import(self.resolved_import)))
            },
            ReplaceMode::Append => self.rows_start(),
        }
    }

    fn after_found(&mut self, d: &Dataset) -> (r: Step)
        ensures
            final(self)@ == after_found(old(self)@, d@).0,
            r@ == after_found(old(self)@, d@).1,
    {
        let reused = match self.import_id {
            Some(id) => position_of_import(&d.imports, id) < d.imports.len(),
            None => false,
        };
        let import_id = match self.import_id {
            Some(id) => if reused {
                id
            } else {
                self.fresh.import_id
            },
            None => self.fresh.import_id,
        };
        let entry = self.entry(import_id);
        let import = if reused {
            ImportChange::Replace(entry)
        } else {
            ImportChange::Append(entry)
        };
        let patch = DatasetPatch {
            name: self.name.clone(),
            title: self.title.clone(),
            description: self.description.clone(),
            options: duplicate_fields(&self.options),
            updated_at: self.fresh.now,
        };
        self.phase = Phase::Writing;
        self.dataset_id = d.id;
        self.resolved_import = import_id;
        Step::Ask(StoreRequest::UpdateDataset { id: d.id, patch, import })
    }

    fn new_dataset(&self) -> (r: Dataset)
        ensures
            r@ == new_dataset(self@),
    {
        let mut imports: Vec<ImportEntry> = Vec::new();
        imports.push(self.entry(self.fresh.import_id));
        assert(imports_view(imports@) =~= seq![import_entry(self@, self.fresh.import_id)]);
        Dataset {
            id: self.fresh.dataset_id,
            user_ref: self.user_ref.clone(),
            name: self.name.clone(),
            title: self.title.clone(),
            description: self.description.clone(),
            sheet_index: self.sheet_index,
            options: duplicate_fields(&self.options),
            imports,
            created_at: self.fresh.now,
            updated_at: None,
        }
    }

    /// Takes the store's answer to the last request and says what to do next.
    pub fn advance(&mut self, reply: StoreReply) -> (r: Step)
        ensures
            final(self)@ == next(old(self)@, reply@).0,
            r@ == next(old(self)@, reply@).1,
    {
        match self.phase {
            Phase::Lookup => match reply {
                StoreReply::Found(Some(d)) => self.after_found(&d),
                StoreReply::Found(None) => {
                    let d = self.new_dataset();
                    self.phase = Phase::Writing;
                    Step::Ask(StoreRequest::InsertDataset(d))
                },
                _ => self.finish(None),
            },
            Phase::Writing => match reply {
                StoreReply::Done => self.after_write(),
                _ => self.finish(None),
            },
            Phase::Clearing => self.rows_start(),
            Phase::Bulk => match reply {
                StoreReply::Done => {
                    let done = self.receipt(self.payloads.len());
                    self.finish(Some(done))
                },
                _ => {
                    let done = self.receipt(0);
                    self.finish(Some(done))
                },
            },
            Phase::Updating(i) => match reply {
                StoreReply::Matched(true) => {
                    self.count();
                    self.next_row(i)
                },
                _ => {
                    if i < self.payloads.len() {
                        let row = self.row(i);
                        self.phase = Phase::Inserting(i);
                        Step::Ask(StoreRequest::InsertRow(row))
                    } else {
                        self.next_row(i)
                    }
                },
            },
            Phase::Inserting(i) => match reply {
                StoreReply::Done => {
                    self.count();
                    self.next_row(i)
                },
                _ => self.next_row(i),
            },
            Phase::Finished => Step::Finish(None),
        }
    }
}

/// The filter that selects the rows of a scope.
pub open spec fn scope_document(scope: RowScope) -> ValueView {
    match scope {
        RowScope::Dataset(id) => single("dataset_id"@, ValueView::ObjectId(id)),
        RowScope::Import(id) => single("import_id"@, ValueView::ObjectId(id)),
    }
}

/// The filter that selects the rows whose payload holds `value` under `key`.
pub open spec fn row_key_document(key: Seq<char>, value: ValueView) -> ValueView {
    single("data."@ + key, value)
}

/// The filter that selects the dataset of an update: by its identifier,
/// and by the identifier of the import that is replaced, where one is.
pub open spec fn update_filter(id: ObjectId, change: ImportChangeView) -> ValueView {
    match change {
        ImportChangeView::Append(_) => single("_id"@, ValueView::ObjectId(id)),
        ImportChangeView::Replace(e) => ValueView::Document(
            seq![("_id"@, ValueView::ObjectId(id)), ("imports._id"@, ValueView::ObjectId(e.id))],
        ),
    }
}

/// The attributes that an update sets.
pub open spec fn patch_entries(patch: PatchView) -> Entries {
    seq![
        ("name"@, ValueView::Text(patch.name)),
        ("title"@, ValueView::Text(patch.title)),
        ("description"@, ValueView::Text(patch.description)),
        ("options"@, ValueView::Document(patch.options)),
        ("updated_at"@, ValueView::DateTime(patch.updated_at)),
    ]
}

/// The update of a dataset: its attributes are set; the import is set in
/// the place that the filter matched, or pushed onto the list.
pub open spec fn update_document(patch: PatchView, change: ImportChangeView) -> ValueView {
    match change {
        ImportChangeView::Append(e) => ValueView::Document(
            seq![
                ("$set"@, ValueView::Document(patch_entries(patch))),
                ("$push"@, single("imports"@, import_document(e))),
            ],
        ),
        ImportChangeView::Replace(e) => ValueView::Document(
            seq![
                (
                    "$set"@,
                    ValueView::Document(patch_entries(patch).push(("imports.$"@, import_document(e)))),
                ),
            ],
        ),
    }
}

impl RowScope {
    /// The filter that selects the rows of the scope.
    pub fn to_criteria(&self) -> (r: Value)
        ensures
            r@ == scope_document(*self),
    {
        match self {
            RowScope::Dataset(id) => Value::single("dataset_id", Value::ObjectId(*id)),
            RowScope::Import(id) => Value::single("import_id", Value::ObjectId(*id)),
        }
    }
}

/// The filter that selects the rows whose payload holds `value` under `key`.
pub fn row_key_criteria(key: &str, value: &Value) -> (r: Value)
    ensures
        r@ == row_key_document(key@, value@),
{
    let path = crate::text::concat("data.", key);
    Value::single(path.as_str(), value.duplicate())
}

/// The update that puts a row in the place of another.
pub fn row_update(row: &Row) -> (r: Value)
    ensures
        r@ == single("$set"@, row_document(row@)),
{
    Value::single("$set", row.to_document())
}

impl ImportChange {
    /// The filter that selects the dataset of an update with this change.
    pub fn to_criteria(&self, id: ObjectId) -> (r: Value)
        ensures
            r@ == update_filter(id, self@),
    {
        match self {
            ImportChange::Append(_) => Value::single("_id", Value::ObjectId(id)),
            ImportChange::Replace(e) => {
                let mut fields: Vec<Field> = Vec::new();
                fields.push(Field::new("_id", Value::ObjectId(id)));
                fields.push(Field::new("imports._id", Value::ObjectId(e.id)));
                assert(fields_view(fields@) =~= update_filter(id, self@)->Document_0);
                Value::Document(fields)
            },
        }
    }
}

impl DatasetPatch {
    /// The update of a dataset with this patch and the given change of its imports.
    pub fn to_update(&self, change: &ImportChange) -> (r: Value)
        ensures
            r@ == update_document(self@, change@),
    {
        let mut set: Vec<Field> = Vec::new();
        set.push(Field::new("name", Value::Text(self.name.clone())));
        set.push(Field::new("title", Value::Text(self.title.clone())));
        set.push(Field::new("description", Value::Text(self.description.clone())));
        set.push(Field::new("options", Value::Document(duplicate_fields(&self.options))));
        set.push(Field::new("updated_at", Value::DateTime(self.updated_at)));
        assert(fields_view(set@) =~= patch_entries(self@));
        let mut fields: Vec<Field> = Vec::new();
        match change {
            ImportChange::Append(e) => {
                fields.push(Field::new("$set", Value::Document(set)));
                fields.push(Field::new("$push", Value::single("imports", e.to_document())));
            },
            ImportChange::Replace(e) => {
                set.push(Field::new("imports.$", e.to_document()));
                assert(fields_view(set@) =~= patch_entries(self@).push(
                    ("imports.$"@, import_document(e@)),
                ));
                fields.push(Field::new("$set", Value::Document(set)));
            },
        }
        assert(fields_view(fields@) =~= update_document(self@, change@)->Document_0);
        Value::Document(fields)
    }
}

} // verus!
