use crate::object_id::ObjectId;
use crate::value::{
    document_fields, duplicate_fields, entries_of, entry_value, fields_view, get_field,
    index_entry, index_field, items_view, key_position, lemma_key_position_is, text_entry,
    text_field, Entries, Field, Value, ValueView,
};
use vstd::prelude::*;

verus! {

/// One ingestion event of a dataset.
#[derive(Debug, PartialEq, Eq)]
pub struct ImportEntry {
    pub id: ObjectId,
    /// When the import was made, in milliseconds since the Unix epoch.
    pub dt: i64,
    pub filename: String,
    pub sheet_index: u32,
}

/// What an `ImportEntry` holds.
pub struct ImportView {
    pub id: ObjectId,
    pub dt: i64,
    pub filename: Seq<char>,
    pub sheet_index: u32,
}

impl View for ImportEntry {
    type V = ImportView;

    open spec fn view(&self) -> ImportView {
        ImportView { id: self.id, dt: self.dt, filename: self.filename@, sheet_index: self.sheet_index }
    }
}

/// What each import of a list holds.
pub open spec fn imports_view(imports: Seq<ImportEntry>) -> Seq<ImportView> {
    Seq::new(imports.len(), |i: int| imports[i]@)
}

/// One logical table: its attributes and the list of its imports, oldest first.
#[derive(Debug, PartialEq, Eq)]
pub struct Dataset {
    pub id: ObjectId,
    pub user_ref: String,
    pub name: String,
    pub title: String,
    pub description: String,
    pub sheet_index: u32,
    /// The processing options of the latest save, without the fields that
    /// are attributes of the dataset itself.
    pub options: Vec<Field>,
    pub imports: Vec<ImportEntry>,
    pub created_at: i64,
    pub updated_at: Option<i64>,
}

/// What a `Dataset` holds.
pub struct DatasetView {
    pub id: ObjectId,
    pub user_ref: Seq<char>,
    pub name: Seq<char>,
    pub title: Seq<char>,
    pub description: Seq<char>,
    pub sheet_index: u32,
    pub options: Entries,
    pub imports: Seq<ImportView>,
    pub created_at: i64,
    pub updated_at: Option<i64>,
}

impl View for Dataset {
    type V = DatasetView;

    open spec fn view(&self) -> DatasetView {
        DatasetView {
            id: self.id,
            user_ref: self.user_ref@,
            name: self.name@,
            title: self.title@,
            description: self.description@,
            sheet_index: self.sheet_index,
            options: fields_view(self.options@),
            imports: imports_view(self.imports@),
            created_at: self.created_at,
            updated_at: self.updated_at,
        }
    }
}

/// What each dataset of a list holds.
pub open spec fn datasets_view(datasets: Seq<Dataset>) -> Seq<DatasetView> {
    Seq::new(datasets.len(), |i: int| datasets[i]@)
}

/// One data record: the dataset and the import that it belongs to, and its payload.
#[derive(Debug, PartialEq, Eq)]
pub struct Row {
    pub dataset_id: ObjectId,
    pub import_id: ObjectId,
    pub data: Value,
}

/// What a `Row` holds.
pub struct RowView {
    pub dataset_id: ObjectId,
    pub import_id: ObjectId,
    pub data: ValueView,
}

impl View for Row {
    type V = RowView;

    open spec fn view(&self) -> RowView {
        RowView { dataset_id: self.dataset_id, import_id: self.import_id, data: self.data@ }
    }
}

/// What each row of a list holds.
pub open spec fn rows_view(rows: Seq<Row>) -> Seq<RowView> {
    Seq::new(rows.len(), |i: int| rows[i]@)
}

/// The stored form of an import: identifier, time, file name and sheet index.
pub open spec fn import_document(e: ImportView) -> ValueView {
    ValueView::Document(
        seq![
            ("_id"@, ValueView::ObjectId(e.id)),
            ("dt"@, ValueView::DateTime(e.dt)),
            ("filename"@, ValueView::Text(e.filename)),
            ("sheet_index"@, ValueView::Int(e.sheet_index as i64)),
        ],
    )
}

/// The stored form of a row: its two owners and its payload under `data`.
pub open spec fn row_document(r: RowView) -> ValueView {
    ValueView::Document(
        seq![
            ("dataset_id"@, ValueView::ObjectId(r.dataset_id)),
            ("import_id"@, ValueView::ObjectId(r.import_id)),
            ("data"@, r.data),
        ],
    )
}

/// The stored form of a dataset; `updated_at` is there once the dataset has
/// been saved a second time.
pub open spec fn dataset_document(d: DatasetView) -> ValueView {
    let fixed = seq![
        ("_id"@, ValueView::ObjectId(d.id)),
        ("user_ref"@, ValueView::Text(d.user_ref)),
        ("name"@, ValueView::Text(d.name)),
        ("title"@, ValueView::Text(d.title)),
        ("description"@, ValueView::Text(d.description)),
        ("sheet_index"@, ValueView::Int(d.sheet_index as i64)),
        ("options"@, ValueView::Document(d.options)),
        ("imports"@, ValueView::Array(Seq::new(d.imports.len(), |i: int| import_document(d.imports[i])))),
        ("created_at"@, ValueView::DateTime(d.created_at)),
    ];
    match d.updated_at {
        Some(at) => ValueView::Document(fixed.push(("updated_at"@, ValueView::DateTime(at)))),
        None => ValueView::Document(fixed),
    }
}

impl ImportEntry {
    /// A copy of the import.
    pub fn duplicate(&self) -> (r: ImportEntry)
        ensures
            r@ == self@,
    {
        ImportEntry {
            id: self.id,
            dt: self.dt,
            filename: self.filename.clone(),
            sheet_index: self.sheet_index,
        }
    }

    /// The import as a document of the store.
    pub fn to_document(&self) -> (r: Value)
        ensures
            r@ == import_document(self@),
    {
        let mut fields: Vec<Field> = Vec::new();
        fields.push(Field::new("_id", Value::ObjectId(self.id)));
        fields.push(Field::new("dt", Value::DateTime(self.dt)));
        fields.push(Field::new("filename", Value::Text(self.filename.clone())));
        fields.push(Field::new("sheet_index", Value::Int(self.sheet_index as i64)));
        assert(fields_view(fields@) =~= import_document(self@)->Document_0);
        Value::Document(fields)
    }
}

/// A copy of a list of imports.
pub fn duplicate_imports(imports: &Vec<ImportEntry>) -> (r: Vec<ImportEntry>)
    ensures
        imports_view(r@) == imports_view(imports@),
{
    let mut out: Vec<ImportEntry> = Vec::new();
    let mut i: usize = 0;
    while i < imports.len()
        invariant
            i <= imports.len(),
            out@.len() == i,
            forall|j: int| 0 <= j < i ==> out@[j]@ == imports@[j]@,
        decreases imports.len() - i,
    {
        out.push(imports[i].duplicate());
        i += 1;
    }
    assert(imports_view(out@) =~= imports_view(imports@));
    out
}

impl Dataset {
    /// A copy of the dataset.
    pub fn duplicate(&self) -> (r: Dataset)
        ensures
            r@ == self@,
    {
        Dataset {
            id: self.id,
            user_ref: self.user_ref.clone(),
            name: self.name.clone(),
            title: self.title.clone(),
            description: self.description.clone(),
            sheet_index: self.sheet_index,
            options: duplicate_fields(&self.options),
            imports: duplicate_imports(&self.imports),
            created_at: self.created_at,
            updated_at: self.updated_at,
        }
    }

    /// The dataset as a document of the store.
    pub fn to_document(&self) -> (r: Value)
        ensures
            r@ == dataset_document(self@),
    {
        let mut imports: Vec<Value> = Vec::new();
        let mut i: usize = 0;
        while i < self.imports.len()
            invariant
                i <= self.imports.len(),
                imports@.len() == i,
                forall|j: int| 0 <= j < i ==> imports@[j]@ == import_document(self.imports@[j]@),
            decreases self.imports.len() - i,
        {
            imports.push(self.imports[i].to_document());
            i += 1;
        }
        let ghost listed = Seq::new(self@.imports.len(), |i: int| import_document(self@.imports[i]));
        assert(items_view(imports@) =~= listed);
        let mut fields: Vec<Field> = Vec::new();
        fields.push(Field::new("_id", Value::ObjectId(self.id)));
        fields.push(Field::new("user_ref", Value::Text(self.user_ref.clone())));
        fields.push(Field::new("name", Value::Text(self.name.clone())));
        fields.push(Field::new("title", Value::Text(self.title.clone())));
        fields.push(Field::new("description", Value::Text(self.description.clone())));
        fields.push(Field::new("sheet_index", Value::Int(self.sheet_index as i64)));
        fields.push(Field::new("options", Value::Document(duplicate_fields(&self.options))));
        fields.push(Field::new("imports", Value::Array(imports)));
        fields.push(Field::new("created_at", Value::DateTime(self.created_at)));
        match self.updated_at {
            Some(at) => {
                fields.push(Field::new("updated_at", Value::DateTime(at)));
            },
            None => {},
        }
        assert(fields_view(fields@) =~= dataset_document(self@)->Document_0);
        Value::Document(fields)
    }
}

impl Row {
    /// A copy of the row.
    pub fn duplicate(&self) -> (r: Row)
        ensures
            r@ == self@,
    {
        Row { dataset_id: self.dataset_id, import_id: self.import_id, data: self.data.duplicate() }
    }

    /// The row as a document of the store.
    pub fn to_document(&self) -> (r: Value)
        ensures
            r@ == row_document(self@),
    {
        let mut fields: Vec<Field> = Vec::new();
        fields.push(Field::new("dataset_id", Value::ObjectId(self.dataset_id)));
        fields.push(Field::new("import_id", Value::ObjectId(self.import_id)));
        fields.push(Field::new("data", self.data.duplicate()));
        assert(fields_view(fields@) =~= row_document(self@)->Document_0);
        Value::Document(fields)
    }
}

/// The identifier under a key, if the key holds one.
pub open spec fn id_entry(entries: Entries, key: Seq<char>) -> Option<ObjectId> {
    match entry_value(entries, key) {
        Some(ValueView::ObjectId(id)) => Some(id),
        _ => None,
    }
}

/// The instant under a key, if the key holds one.
pub open spec fn instant_entry(entries: Entries, key: Seq<char>) -> Option<i64> {
    match entry_value(entries, key) {
        Some(ValueView::DateTime(millis)) => Some(millis),
        _ => None,
    }
}

/// The entries under a key that holds a document; none for any other key.
pub open spec fn document_entry(entries: Entries, key: Seq<char>) -> Entries {
    match entry_value(entries, key) {
        Some(ValueView::Document(inner)) => inner,
        _ => Seq::empty(),
    }
}

/// The items under a key that holds a list; none for any other key.
pub open spec fn list_entry(entries: Entries, key: Seq<char>) -> Seq<ValueView> {
    match entry_value(entries, key) {
        Some(ValueView::Array(items)) => items,
        _ => Seq::empty(),
    }
}

/// The import that a stored document describes: one needs an identifier;
/// a time or a sheet index that is missing counts as zero, a file name as empty.
pub open spec fn import_reading(v: ValueView) -> Option<ImportView> {
    let entries = entries_of(v);
    match id_entry(entries, "_id"@) {
        Some(id) => Some(
            ImportView {
                id,
                dt: match instant_entry(entries, "dt"@) {
                    Some(millis) => millis,
                    None => 0,
                },
                filename: text_entry(entries, "filename"@),
                sheet_index: index_entry(entries, "sheet_index"@),
            },
        ),
        None => None,
    }
}

/// The imports that a stored list describes, in order; an item that
/// describes none is left out.
pub open spec fn imports_reading(items: Seq<ValueView>) -> Seq<ImportView>
    decreases items.len(),
{
    if items.len() == 0 {
        Seq::empty()
    } else {
        match import_reading(items.last()) {
            Some(e) => imports_reading(items.drop_last()).push(e),
            None => imports_reading(items.drop_last()),
        }
    }
}

/// The dataset that a stored document describes: one needs an identifier;
/// a text that is missing counts as empty, a number or the time of creation
/// as zero, the options and the imports as none.
pub open spec fn dataset_reading(v: ValueView) -> Option<DatasetView> {
    let entries = entries_of(v);
    match id_entry(entries, "_id"@) {
        Some(id) => Some(
            DatasetView {
                id,
                user_ref: text_entry(entries, "user_ref"@),
                name: text_entry(entries, "name"@),
                title: text_entry(entries, "title"@),
                description: text_entry(entries, "description"@),
                sheet_index: index_entry(entries, "sheet_index"@),
                options: document_entry(entries, "options"@),
                imports: imports_reading(list_entry(entries, "imports"@)),
                created_at: match instant_entry(entries, "created_at"@) {
                    Some(millis) => millis,
                    None => 0,
                },
                updated_at: instant_entry(entries, "updated_at"@),
            },
        ),
        None => None,
    }
}

fn id_field(fields: &Vec<Field>, key: &str) -> (r: Option<ObjectId>)
    ensures
        r == id_entry(fields_view(fields@), key@),
{
    match get_field(fields, key) {
        Some(Value::ObjectId(id)) => Some(*id),
        _ => None,
    }
}

fn instant_field(fields: &Vec<Field>, key: &str) -> (r: Option<i64>)
    ensures
        r == instant_entry(fields_view(fields@), key@),
{
    match get_field(fields, key) {
        Some(Value::DateTime(millis)) => Some(*millis),
        _ => None,
    }
}

impl ImportEntry {
    /// The import that a stored document describes.
    pub fn from_document(v: &Value) -> (r: Option<ImportEntry>)
        ensures
            match r {
                Some(e) => import_reading(v@) == Some(e@),
                None => import_reading(v@) is None,
            },
    {
        let empty: Vec<Field> = Vec::new();
        assert(fields_view(empty@) =~= Seq::<(Seq<char>, ValueView)>::empty());
        let fields = match document_fields(v) {
            Some(fields) => fields,
            None => &empty,
        };
        match id_field(fields, "_id") {
            Some(id) => Some(
                ImportEntry {
                    id,
                    dt: match instant_field(fields, "dt") {
                        Some(millis) => millis,
                        None => 0,
                    },
                    filename: text_field(fields, "filename"),
                    sheet_index: index_field(fields, "sheet_index"),
                },
            ),
            None => None,
        }
    }
}

fn read_imports(items: &Vec<Value>) -> (r: Vec<ImportEntry>)
    ensures
        imports_view(r@) == imports_reading(items_view(items@)),
{
    let ghost all = items_view(items@);
    let mut out: Vec<ImportEntry> = Vec::new();
    let mut i: usize = 0;
    assert(all.subrange(0, 0) =~= Seq::<ValueView>::empty());
    assert(imports_view(out@) =~= Seq::<ImportView>::empty());
    while i < items.len()
        invariant
            i <= items.len(),
            all == items_view(items@),
            imports_view(out@) == imports_reading(all.subrange(0, i as int)),
        decreases items.len() - i,
    {
        let ghost upto = all.subrange(0, i + 1);
        let ghost before = imports_view(out@);
        assert(upto.drop_last() =~= all.subrange(0, i as int));
        assert(upto.last() == items@[i as int]@);
        match ImportEntry::from_document(&items[i]) {
            Some(e) => {
                out.push(e);
                assert(imports_view(out@) =~= before.push(e@));
            },
            None => {},
        }
        i += 1;
    }
    assert(all.subrange(0, items.len() as int) =~= all);
    out
}

impl Dataset {
    /// The dataset that a stored document describes.
    pub fn from_document(v: &Value) -> (r: Option<Dataset>)
        ensures
            match r {
                Some(d) => dataset_reading(v@) == Some(d@),
                None => dataset_reading(v@) is None,
            },
    {
        let empty: Vec<Field> = Vec::new();
        assert(fields_view(empty@) =~= Seq::<(Seq<char>, ValueView)>::empty());
        let fields = match document_fields(v) {
            Some(fields) => fields,
            None => &empty,
        };
        match id_field(fields, "_id") {
            Some(id) => {
                let options = match get_field(fields, "options") {
                    Some(Value::Document(inner)) => duplicate_fields(inner),
                    _ => {
                        let none: Vec<Field> = Vec::new();
                        assert(fields_view(none@) =~= Seq::<(Seq<char>, ValueView)>::empty());
                        none
                    },
                };
                let imports = match get_field(fields, "imports") {
                    Some(Value::Array(items)) => read_imports(items),
                    _ => {
                        let none: Vec<ImportEntry> = Vec::new();
                        assert(imports_view(none@) =~= Seq::<ImportView>::empty());
                        none
                    },
                };
                Some(
                    Dataset {
                        id,
                        user_ref: text_field(fields, "user_ref"),
                        name: text_field(fields, "name"),
                        title: text_field(fields, "title"),
                        description: text_field(fields, "description"),
                        sheet_index: index_field(fields, "sheet_index"),
                        options,
                        imports,
                        created_at: match instant_field(fields, "created_at") {
                            Some(millis) => millis,
                            None => 0,
                        },
                        updated_at: instant_field(fields, "updated_at"),
                    },
                )
            },
            None => None,
        }
    }
}

/// The stored form of an import describes that import.
pub proof fn law_import_document_reads_back(e: ImportView)
    ensures
        import_reading(import_document(e)) == Some(e),
{
    reveal_with_fuel(key_position, 5);
    reveal_strlit("_id");
    reveal_strlit("dt");
    reveal_strlit("filename");
    reveal_strlit("sheet_index");
    let entries = entries_of(import_document(e));
    assert(entries[0].0 == "_id"@);
    assert(key_position(entries, "_id"@) == 0);
    assert("dt"@ != "_id"@);
    assert(entries.drop_first()[0].0 == "dt"@);
    assert(key_position(entries, "dt"@) == 1);
    assert("filename"@ != "_id"@ && "filename"@ != "dt"@);
    assert(entries.drop_first().drop_first()[0].0 == "filename"@);
    assert(key_position(entries, "filename"@) == 2);
    assert("sheet_index"@ != "_id"@ && "sheet_index"@ != "dt"@ && "sheet_index"@ != "filename"@);
    assert(entries.drop_first().drop_first().drop_first()[0].0 == "sheet_index"@);
    assert(key_position(entries, "sheet_index"@) == 3);
    assert(index_entry(entries, "sheet_index"@) == e.sheet_index);
}

/// The stored forms of a list of imports describe those imports.
pub proof fn law_import_documents_read_back(imports: Seq<ImportView>)
    ensures
        imports_reading(Seq::new(imports.len(), |i: int| import_document(imports[i]))) == imports,
    decreases imports.len(),
{
    let documents = Seq::new(imports.len(), |i: int| import_document(imports[i]));
    if imports.len() > 0 {
        let front = imports.drop_last();
        law_import_documents_read_back(front);
        law_import_document_reads_back(imports.last());
        assert(documents.drop_last() =~= Seq::new(front.len(), |i: int| import_document(front[i])));
        assert(documents.last() == import_document(imports.last()));
        assert(front.push(imports.last()) =~= imports);
    } else {
        assert(imports_reading(documents) =~= imports);
    }
}

/// The stored form of a dataset describes that dataset.
pub proof fn law_dataset_document_reads_back(d: DatasetView)
    ensures
        dataset_reading(dataset_document(d)) == Some(d),
{
    reveal_strlit("_id");
    reveal_strlit("user_ref");
    reveal_strlit("name");
    reveal_strlit("title");
    reveal_strlit("description");
    reveal_strlit("sheet_index");
    reveal_strlit("options");
    reveal_strlit("imports");
    reveal_strlit("created_at");
    reveal_strlit("updated_at");
    let entries = entries_of(dataset_document(d));
    assert(entries.len() == if d.updated_at is Some { 10int } else { 9int });
    assert(entries[0].0 == "_id"@);
    assert(entries[1].0 == "user_ref"@);
    assert(entries[2].0 == "name"@);
    assert(entries[3].0 == "title"@);
    assert(entries[4].0 == "description"@);
    assert(entries[5].0 == "sheet_index"@);
    assert(entries[6].0 == "options"@);
    assert(entries[7].0 == "imports"@);
    assert(entries[8].0 == "created_at"@);
    assert("_id"@.len() == 3 && "user_ref"@.len() == 8 && "name"@.len() == 4 && "title"@.len() == 5);
    assert("description"@.len() == 11 && "sheet_index"@.len() == 11 && "options"@.len() == 7);
    assert("imports"@.len() == 7 && "created_at"@.len() == 10 && "updated_at"@.len() == 10);
    assert("description"@[0] == 'd' && "sheet_index"@[0] == 's');
    assert("options"@[0] == 'o' && "imports"@[0] == 'i');
    assert("created_at"@[0] == 'c' && "updated_at"@[0] == 'u');
    lemma_key_position_is(entries, "_id"@, 0);
    lemma_key_position_is(entries, "user_ref"@, 1);
    lemma_key_position_is(entries, "name"@, 2);
    lemma_key_position_is(entries, "title"@, 3);
    lemma_key_position_is(entries, "description"@, 4);
    lemma_key_position_is(entries, "sheet_index"@, 5);
    lemma_key_position_is(entries, "options"@, 6);
    lemma_key_position_is(entries, "imports"@, 7);
    lemma_key_position_is(entries, "created_at"@, 8);
    lemma_key_position_is(entries, "updated_at"@, 9);
    law_import_documents_read_back(d.imports);
    assert(index_entry(entries, "sheet_index"@) == d.sheet_index);
}

} // verus!
