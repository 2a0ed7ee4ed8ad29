use crate::object_id::{object_id_reading, ObjectId};
use crate::value::{
    entries_of, entry_value, external_of, fields_view, get_field, is_plain, items_view, set_field, single,
    with_entry, Entries, Field, Value, ValueView,
};
use vstd::prelude::*;

verus! {

/// The number of rows that a query asks for where it names no limit.
pub const UNLIMITED_ROWS: i64 = 10_000_000;

/// The limit that the store is given: ten million where the query names
/// none, else the query's limit, or the greatest number that the store takes.
pub open spec fn effective_limit_of(limit: u64) -> i64 {
    if limit == 0 {
        UNLIMITED_ROWS
    } else if limit <= i64::MAX {
        limit as i64
    } else {
        i64::MAX
    }
}

/// The limit that the store is given.
pub fn effective_limit(limit: u64) -> (r: i64)
    ensures
        r == effective_limit_of(limit),
{
    if limit == 0 {
        UNLIMITED_ROWS
    } else if limit <= 0x7fff_ffff_ffff_ffff {
        limit as i64
    } else {
        i64::MAX
    }
}

/// The fields of a projection: each named field with the number one.
pub open spec fn projected(names: Seq<Seq<char>>) -> Entries
    decreases names.len(),
{
    if names.len() == 0 {
        Seq::empty()
    } else {
        with_entry(projected(names.drop_last()), names.last(), ValueView::Int(1))
    }
}

/// The document that asks the store for the named fields only.
pub fn projection(names: &Vec<String>) -> (r: Value)
    ensures
        r@ == ValueView::Document(projected(crate::text::texts_view(names@))),
{
    let ghost all = crate::text::texts_view(names@);
    let mut fields: Vec<Field> = Vec::new();
    let mut i: usize = 0;
    assert(all.subrange(0, 0) =~= Seq::<Seq<char>>::empty());
    assert(fields_view(fields@) =~= Seq::<(Seq<char>, ValueView)>::empty());
    while i < names.len()
        invariant
            i <= names.len(),
            all == crate::text::texts_view(names@),
            fields_view(fields@) == projected(all.subrange(0, i as int)),
        decreases names.len() - i,
    {
        let ghost upto = all.subrange(0, i + 1);
        assert(upto.drop_last() =~= all.subrange(0, i as int));
        assert(upto.last() == names@[i as int]@);
        set_field(&mut fields, names[i].as_str(), Value::Int(1));
        i += 1;
    }
    assert(all.subrange(0, names.len() as int) =~= all);
    Value::Document(fields)
}

/// The filter that finds a dataset by the text of its identifier; none
/// where the text names no identifier.
pub fn dataset_criteria(dataset_id: &str) -> (r: Option<Value>)
    ensures
        match r {
            Some(criteria) => object_id_reading(dataset_id@) is Some && criteria@ == single(
                "_id"@,
                ValueView::ObjectId(object_id_reading(dataset_id@)->0),
            ),
            None => object_id_reading(dataset_id@) is None,
        },
{
    match ObjectId::from_str(dataset_id) {
        Some(id) => Some(Value::single("_id", Value::ObjectId(id))),
        None => None,
    }
}

/// A filter with the fragments of another merged in: each entry whose
/// value is a document is put under its key, in order; the others are left out.
pub open spec fn merged(base: Entries, fragments: Entries) -> Entries
    decreases fragments.len(),
{
    if fragments.len() == 0 {
        base
    } else {
        let before = merged(base, fragments.drop_last());
        if fragments.last().1 is Document {
            with_entry(before, fragments.last().0, fragments.last().1)
        } else {
            before
        }
    }
}

/// The filter on the rows of a dataset before any fragment is merged in:
/// the dataset, and the import where its text names an identifier.
pub open spec fn scope_criteria(dataset_id: ObjectId, import_id: Option<Seq<char>>) -> Entries {
    let base = seq![("dataset_id"@, ValueView::ObjectId(dataset_id))];
    match import_id {
        Some(text) => match object_id_reading(text) {
            Some(id) => with_entry(base, "import_id"@, ValueView::ObjectId(id)),
            None => base,
        },
        None => base,
    }
}

/// The filter on the rows of a dataset: the dataset, the import where one
/// is named, and the document-shaped fragments of a further filter.
pub open spec fn rows_filter(
    dataset_id: ObjectId,
    import_id: Option<Seq<char>>,
    filter: Option<ValueView>,
) -> ValueView {
    ValueView::Document(
        merged(
            scope_criteria(dataset_id, import_id),
            match filter {
                Some(f) => entries_of(f),
                None => Seq::empty(),
            },
        ),
    )
}

/// The filter on the rows of a dataset.
pub fn rows_criteria(dataset_id: ObjectId, import_id: Option<&str>, filter: Option<&Value>) -> (r:
    Value)
    ensures
        r@ == rows_filter(
            dataset_id,
            crate::engine::given_text(import_id),
            match filter {
                Some(f) => Some(f@),
                None => None,
            },
        ),
{
    let mut fields: Vec<Field> = Vec::new();
    fields.push(Field::new("dataset_id", Value::ObjectId(dataset_id)));
    assert(fields_view(fields@) =~= seq![("dataset_id"@, ValueView::ObjectId(dataset_id))]);
    match import_id {
        Some(text) => match ObjectId::from_str(text) {
            Some(id) => {
                set_field(&mut fields, "import_id", Value::ObjectId(id));
            },
            None => {},
        },
        None => {},
    }
    let ghost base = fields_view(fields@);
    match filter {
        Some(Value::Document(fragments)) => {
            let ghost all = fields_view(fragments@);
            let mut i: usize = 0;
            assert(all.subrange(0, 0) =~= Seq::<(Seq<char>, ValueView)>::empty());
            while i < fragments.len()
                invariant
                    i <= fragments.len(),
                    all == fields_view(fragments@),
                    fields_view(fields@) == merged(base, all.subrange(0, i as int)),
                decreases fragments.len() - i,
            {
                let ghost upto = all.subrange(0, i + 1);
                assert(upto.drop_last() =~= all.subrange(0, i as int));
                assert(upto.last() == (fragments@[i as int].key@, fragments@[i as int].value@));
                match &fragments[i].value {
                    Value::Document(_) => {
                        set_field(&mut fields, fragments[i].key.as_str(), fragments[i].value.duplicate());
                    },
                    _ => {},
                }
                i += 1;
            }
            assert(all.subrange(0, fragments.len() as int) =~= all);
        },
        _ => {},
    }
    Value::Document(fields)
}

/// The payload of a stored row: the document under `data`, if there is one.
pub open spec fn payload_of(row: ValueView) -> Option<ValueView> {
    match entry_value(entries_of(row), "data"@) {
        Some(ValueView::Document(entries)) => Some(ValueView::Document(entries)),
        _ => None,
    }
}

/// The payloads of stored rows, in order; a row without one is left out.
pub open spec fn payloads_of(rows: Seq<ValueView>) -> Seq<ValueView>
    decreases rows.len(),
{
    if rows.len() == 0 {
        Seq::empty()
    } else {
        match payload_of(rows.last()) {
            Some(p) => payloads_of(rows.drop_last()).push(p),
            None => payloads_of(rows.drop_last()),
        }
    }
}

/// The payloads of stored rows.
pub fn payloads(rows: &Vec<Value>) -> (r: Vec<Value>)
    ensures
        items_view(r@) == payloads_of(items_view(rows@)),
{
    let ghost all = items_view(rows@);
    let mut out: Vec<Value> = Vec::new();
    let mut i: usize = 0;
    assert(all.subrange(0, 0) =~= Seq::<ValueView>::empty());
    assert(items_view(out@) =~= Seq::<ValueView>::empty());
    while i < rows.len()
        invariant
            i <= rows.len(),
            all == items_view(rows@),
            items_view(out@) == payloads_of(all.subrange(0, i as int)),
        decreases rows.len() - i,
    {
        let ghost upto = all.subrange(0, i + 1);
        let ghost before = items_view(out@);
        assert(upto.drop_last() =~= all.subrange(0, i as int));
        assert(upto.last() == rows@[i as int]@);
        match &rows[i] {
            Value::Document(fields) => match get_field(fields, "data") {
                Some(Value::Document(inner)) => {
                    out.push(Value::Document(crate::value::duplicate_fields(inner)));
                    assert(items_view(out@) =~= before.push(payload_of(upto.last())->0));
                },
                _ => {},
            },
            _ => {
                assert(entry_value(Seq::<(Seq<char>, ValueView)>::empty(), "data"@) is None);
            },
        }
        i += 1;
    }
    assert(all.subrange(0, rows.len() as int) =~= all);
    out
}

/// The rows of a dataset as a client gets them.
#[derive(Debug, PartialEq, Eq)]
pub struct RowSet {
    pub dataset: Value,
    /// The list of the rows' payloads.
    pub rows: Value,
    pub total: u64,
    pub limit: u64,
    pub skip: u64,
}

/// A list of values as a client sees them.
pub open spec fn external_list(rows: Seq<ValueView>) -> ValueView {
    ValueView::Array(Seq::new(rows.len(), |i: int| external_of(rows[i])))
}

/// The values of a list as a client sees them.
pub fn show_all(rows: &Vec<Value>) -> (r: Vec<Value>)
    ensures
        Value::Array(r)@ == external_list(items_view(rows@)),
        is_plain(Value::Array(r)@),
{
    let mut shown: Vec<Value> = Vec::new();
    let mut i: usize = 0;
    while i < rows.len()
        invariant
            i <= rows.len(),
            shown@.len() == i,
            forall|j: int| 0 <= j < i ==> shown@[j]@ == external_of(rows@[j]@),
            forall|j: int| 0 <= j < i ==> is_plain(shown@[j]@),
        decreases rows.len() - i,
    {
        shown.push(rows[i].from_storage());
        i += 1;
    }
    assert(items_view(shown@) =~= external_list(items_view(rows@))->Array_0);
    shown
}

impl RowSet {
    /// The dataset and the payloads as a client sees them, with the counts.
    pub fn new(dataset: &Value, rows: &Vec<Value>, total: u64, limit: u64, skip: u64) -> (r: RowSet)
        ensures
            r.dataset@ == external_of(dataset@),
            r.rows@ == external_list(items_view(rows@)),
            is_plain(r.dataset@),
            is_plain(r.rows@),
            r.total == total,
            r.limit == limit,
            r.skip == skip,
    {
        RowSet {
            dataset: dataset.from_storage(),
            rows: Value::Array(show_all(rows)),
            total,
            limit,
            skip,
        }
    }

    /// What a query for the rows of a dataset answers: the dataset, the
    /// payloads of the rows that were found, and the total that the store
    /// counted, or the number of payloads where it counted none.
    pub fn assemble(dataset: &Value, found: &Vec<Value>, total: Option<u64>, limit: u64, skip: u64) -> (r:
        RowSet)
        ensures
            r.dataset@ == external_of(dataset@),
            r.rows@ == external_list(payloads_of(items_view(found@))),
            r.total == match total {
                Some(n) => n,
                None => payloads_of(items_view(found@)).len() as u64,
            },
            r.limit == limit,
            r.skip == skip,
    {
        let rows = payloads(found);
        assert(items_view(rows@).len() == rows@.len());
        let counted = match total {
            Some(n) => n,
            None => rows.len() as u64,
        };
        RowSet::new(dataset, &rows, counted, limit, skip)
    }
}

/// One operation that a query for the rows of a dataset asks of the store.
#[derive(Debug, PartialEq, Eq)]
pub enum FetchRequest {
    /// Find the dataset that the filter selects.
    FindDataset(Value),
    /// Find the rows that the filter selects, count them all, and hand over
    /// those of one page in the given order.
    FindRows { criteria: Value, limit: i64, skip: u64, sort: Option<Value> },
}

/// What the store answers to a query.
#[derive(Debug, PartialEq, Eq)]
pub enum FetchReply {
    /// The dataset that was looked for, if there is one.
    Dataset(Option<Value>),
    /// The rows of the page, and the number of all rows where the store counted them.
    Rows(Vec<Value>, Option<u64>),
    /// The operation failed.
    Failed,
}

/// What a query does next: ask the store, or end, with the rows or without.
#[derive(Debug, PartialEq, Eq)]
pub enum FetchStep {
    Ask(FetchRequest),
    Finish(Option<RowSet>),
}

/// Where a query stands.
#[derive(Clone, Copy, Debug, PartialEq, Eq, Structural)]
pub enum FetchPhase {
    /// The dataset is being looked for.
    Dataset,
    /// The rows are being looked for.
    Rows,
    Finished,
}

/// One query for the rows of a dataset, from the lookup of the dataset to the rows.
#[derive(Debug, PartialEq, Eq)]
pub struct FetchSession {
    pub phase: FetchPhase,
    pub dataset_id: ObjectId,
    pub import_id: Option<String>,
    pub filter: Option<Value>,
    pub limit: u64,
    pub skip: u64,
    pub sort: Option<Value>,
    pub dataset: Value,
}

/// What an optional value holds.
pub open spec fn value_view(v: Option<Value>) -> Option<ValueView> {
    match v {
        Some(x) => Some(x@),
        None => None,
    }
}

fn duplicate_option(v: &Option<Value>) -> (r: Option<Value>)
    ensures
        value_view(r) == value_view(*v),
{
    match v {
        Some(x) => Some(x.duplicate()),
        None => None,
    }
}

impl FetchSession {
    /// Starts a query. A text that names no identifier ends it at once,
    /// without rows; else the dataset with that identifier is asked for.
    pub fn begin(
        dataset_id: &str,
        import_id: Option<&str>,
        filter: Option<Value>,
        limit: u64,
        skip: u64,
        sort: Option<Value>,
    ) -> (r: (FetchSession, FetchStep))
        ensures
            r.0.limit == limit,
            r.0.skip == skip,
            value_view(r.0.filter) == value_view(filter),
            value_view(r.0.sort) == value_view(sort),
            crate::engine::text_view(r.0.import_id) == crate::engine::given_text(import_id),
            match object_id_reading(dataset_id@) {
                Some(id) => {
                    &&& r.0.phase == FetchPhase::Dataset
                    &&& r.0.dataset_id == id
                    &&& r.1 matches FetchStep::Ask(FetchRequest::FindDataset(criteria))
                    &&& criteria@ == single("_id"@, ValueView::ObjectId(id))
                },
                None => r.0.phase == FetchPhase::Finished && r.1 == FetchStep::Finish(None),
            },
    {
        let parsed = ObjectId::from_str(dataset_id);
        let (phase, id, step) = match parsed {
            Some(id) => (
                FetchPhase::Dataset,
                id,
                FetchStep::Ask(FetchRequest::FindDataset(Value::single("_id", Value::ObjectId(id)))),
            ),
            None => (FetchPhase::Finished, ObjectId { head: 0, tail: 0 }, FetchStep::Finish(None)),
        };
        let session = FetchSession {
            phase,
            dataset_id: id,
            import_id: match import_id {
                Some(text) => Some(text.to_owned()),
                None => None,
            },
            filter,
            limit,
            skip,
            sort,
            dataset: Value::Null,
        };
        (session, step)
    }

    /// Takes the store's answer and says what to do next. A dataset that was
    /// found is kept and its rows are asked for, scoped to the dataset and
    /// to the import where one is named, with the document-shaped fragments
    /// of the further filter. The rows that come back end the query with the
    /// dataset and the rows' payloads as a client sees them. Any other answer
    /// ends it without rows.
    pub fn advance(&mut self, reply: FetchReply) -> (r: FetchStep)
        ensures
            final(self).dataset_id == old(self).dataset_id,
            final(self).limit == old(self).limit,
            final(self).skip == old(self).skip,
            match (old(self).phase, reply) {
                (FetchPhase::Dataset, FetchReply::Dataset(Some(dataset))) => {
                    &&& final(self).phase == FetchPhase::Rows
                    &&& final(self).dataset@ == dataset@
                    &&& r matches FetchStep::Ask(
                        FetchRequest::FindRows { criteria, limit, skip, sort },
                    )
                    &&& criteria@ == rows_filter(
                        old(self).dataset_id,
                        crate::engine::text_view(old(self).import_id),
                        value_view(old(self).filter),
                    )
                    &&& limit == effective_limit_of(old(self).limit)
                    &&& skip == old(self).skip
                    &&& value_view(sort) == value_view(old(self).sort)
                },
                (FetchPhase::Rows, FetchReply::Rows(found, total)) => {
                    &&& final(self).phase == FetchPhase::Finished
                    &&& r matches FetchStep::Finish(Some(set))
                    &&& set.dataset@ == external_of(old(self).dataset@)
                    &&& set.rows@ == external_list(payloads_of(items_view(found@)))
                    &&& set.total == match total {
                        Some(n) => n,
                        None => payloads_of(items_view(found@)).len() as u64,
                    }
                    &&& set.limit == old(self).limit
                    &&& set.skip == old(self).skip
                },
                _ => final(self).phase == FetchPhase::Finished && r == FetchStep::Finish(None),
            },
    {
        match (self.phase, reply) {
            (FetchPhase::Dataset, FetchReply::Dataset(Some(dataset))) => {
                let import = match &self.import_id {
                    Some(text) => Some(text.as_str()),
                    None => None,
                };
                let criteria = rows_criteria(
                    self.dataset_id,
                    import,
                    match &self.filter {
                        Some(f) => Some(f),
                        None => None,
                    },
                );
                let sort = duplicate_option(&self.sort);
                self.dataset = dataset;
                self.phase = FetchPhase::Rows;
                FetchStep::Ask(
                    FetchRequest::FindRows {
                        criteria,
                        limit: effective_limit(self.limit),
                        skip: self.skip,
                        sort,
                    },
                )
            },
            (FetchPhase::Rows, FetchReply::Rows(found, total)) => {
                let set = RowSet::assemble(&self.dataset, &found, total, self.limit, self.skip);
                self.phase = FetchPhase::Finished;
                FetchStep::Finish(Some(set))
            },
            _ => {
                self.phase = FetchPhase::Finished;
                FetchStep::Finish(None)
            },
        }
    }
}

} // verus!
