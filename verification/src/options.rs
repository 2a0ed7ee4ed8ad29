use crate::object_id::{object_id_reading, ObjectId};
use crate::criteria::{list_of_texts, text_list, text_or};
use crate::text::{split_on, to_parts};
use crate::value::{fields_view, Entries, Field, Value, ValueView};
use vstd::prelude::*;

verus! {

/// What a save does to the rows that are already stored.
#[derive(Debug, Clone, Copy, PartialEq, Eq, Structural)]
pub enum ReplaceMode {
    /// The rows of the whole dataset are removed first.
    ReplaceAll,
    /// The rows of the named import are removed first.
    ReplaceImport,
    /// No row is removed.
    Append,
}

impl ReplaceMode {
    /// Appending wins; else a named import is replaced; else the whole dataset.
    pub fn new(append: bool, has_import_id: bool) -> (r: ReplaceMode)
        ensures
            r == ReplaceMode::chosen(append, has_import_id),
    {
        if append {
            ReplaceMode::Append
        } else if has_import_id {
            ReplaceMode::ReplaceImport
        } else {
            ReplaceMode::ReplaceAll
        }
    }

    /// The mode for an append flag and the presence of an import identifier.
    pub open spec fn chosen(append: bool, has_import_id: bool) -> ReplaceMode {
        if append {
            ReplaceMode::Append
        } else if has_import_id {
            ReplaceMode::ReplaceImport
        } else {
            ReplaceMode::ReplaceAll
        }
    }
}

/// How a save finds the dataset that it belongs to.
#[derive(Debug, PartialEq, Eq)]
pub enum DataSetMatcher {
    /// By name and sheet index together.
    NameIndex(String, u32),
    /// By the text of the dataset's identifier.
    Id(String),
}

/// What a `DataSetMatcher` holds.
pub enum MatcherView {
    NameIndex(Seq<char>, u32),
    Id(Seq<char>),
}

impl View for DataSetMatcher {
    type V = MatcherView;

    open spec fn view(&self) -> MatcherView {
        match self {
            DataSetMatcher::NameIndex(name, index) => MatcherView::NameIndex(name@, *index),
            DataSetMatcher::Id(id) => MatcherView::Id(id@),
        }
    }
}

/// The filter that a matcher stands for: name and sheet index, or the
/// identifier, which is null where the text names none.
pub open spec fn matcher_criteria(m: MatcherView) -> ValueView {
    match m {
        MatcherView::NameIndex(name, index) => ValueView::Document(
            seq![
                ("name"@, ValueView::Text(name)),
                ("sheet_index"@, ValueView::Int(index as i64)),
            ],
        ),
        MatcherView::Id(id) => ValueView::Document(
            seq![
                (
                    "_id"@,
                    match object_id_reading(id) {
                        Some(oid) => ValueView::ObjectId(oid),
                        None => ValueView::Null,
                    },
                ),
            ],
        ),
    }
}

impl DataSetMatcher {
    /// The matcher by name and sheet index.
    pub fn from_name_index(name: &str, index: u32) -> (r: DataSetMatcher)
        ensures
            r@ == MatcherView::NameIndex(name@, index),
    {
        DataSetMatcher::NameIndex(name.to_owned(), index)
    }

    /// The matcher by the text of an identifier.
    pub fn from_id(id: &str) -> (r: DataSetMatcher)
        ensures
            r@ == MatcherView::Id(id@),
    {
        DataSetMatcher::Id(id.to_owned())
    }

    /// The filter document that selects the matching dataset.
    pub fn to_criteria(&self) -> (r: Value)
        ensures
            r@ == matcher_criteria(self@),
    {
        let mut fields: Vec<Field> = Vec::new();
        match self {
            DataSetMatcher::NameIndex(name, index) => {
                fields.push(Field { key: "name".to_owned(), value: Value::Text(name.clone()) });
                fields.push(Field { key: "sheet_index".to_owned(), value: Value::Int(*index as i64) });
            },
            DataSetMatcher::Id(id) => {
                let value = match ObjectId::from_str(id.as_str()) {
                    Some(oid) => Value::ObjectId(oid),
                    None => Value::Null,
                };
                fields.push(Field { key: "_id".to_owned(), value });
            },
        }
        assert(fields_view(fields@) =~= matcher_criteria(self@)->Document_0);
        Value::Document(fields)
    }

    /// A copy of the matcher.
    pub fn duplicate(&self) -> (r: DataSetMatcher)
        ensures
            r@ == self@,
    {
        match self {
            DataSetMatcher::NameIndex(name, index) => DataSetMatcher::NameIndex(name.clone(), *index),
            DataSetMatcher::Id(id) => DataSetMatcher::Id(id.clone()),
        }
    }
}

/// The options of one processing request.
#[derive(Debug, PartialEq, Eq, Default)]
pub struct CoreOptions {
    pub filename: Option<String>,
    pub title: Option<String>,
    pub description: Option<String>,
    pub user_ref: Option<String>,
    /// How the file is processed; `sync` where nothing is said.
    pub mode: Option<String>,
    pub max: Option<usize>,
    /// Key names, separated by commas.
    pub keys: Option<String>,
    /// Column settings, separated by commas.
    pub cols: Option<String>,
    pub sheet_index: Option<usize>,
    pub header_index: Option<usize>,
    /// The dataset that the rows belong to.
    pub dataset_id: Option<String>,
    /// The import whose rows are replaced.
    pub import_id: Option<String>,
    /// Whether rows are added to those that the dataset has.
    pub append: Option<bool>,
    pub lines: Option<bool>,
    /// The payload field by which a row is found again.
    pub data_pk: Option<String>,
}

/// A count as a stored number; one beyond the greatest stored number counts as that.
pub open spec fn stored_count(n: Option<usize>) -> i64 {
    match n {
        Some(n) => if n <= i64::MAX {
            n as i64
        } else {
            i64::MAX
        },
        None => 0,
    }
}

/// The entries for an optional list: its parts, where the text is given and not empty.
pub open spec fn list_entry(key: Seq<char>, list: Option<String>) -> Entries {
    match list {
        Some(text) => if text@.len() > 0 {
            seq![(key, text_list(split_on(text@, ',')))]
        } else {
            Seq::empty()
        },
        None => Seq::empty(),
    }
}

/// The entry for an optional text, where it is given.
pub open spec fn text_entry_of(key: Seq<char>, text: Option<String>) -> Entries {
    match text {
        Some(t) => seq![(key, ValueView::Text(t@))],
        None => Seq::empty(),
    }
}

/// The options as a document: the texts, empty where they are not given,
/// the two indexes, the mode, the append flag and the lines flag, then the
/// lists of keys and columns, the two identifiers and the key field, each
/// where it is given.
pub open spec fn options_document(o: CoreOptions) -> ValueView {
    ValueView::Document(
        seq![
            ("filename"@, ValueView::Text(text_or(o.filename, ""@))),
            ("title"@, ValueView::Text(text_or(o.title, ""@))),
            ("description"@, ValueView::Text(text_or(o.description, ""@))),
            ("user_ref"@, ValueView::Text(text_or(o.user_ref, ""@))),
            ("sheet_index"@, ValueView::Int(stored_count(o.sheet_index))),
            ("header_index"@, ValueView::Int(stored_count(o.header_index))),
            ("mode"@, ValueView::Text(text_or(o.mode, "sync"@))),
            ("append"@, ValueView::Bool(o.append == Some(true))),
            (
                "lines"@,
                match o.lines {
                    Some(b) => ValueView::Bool(b),
                    None => ValueView::Null,
                },
            ),
        ] + list_entry("keys"@, o.keys) + list_entry("columns"@, o.cols) + text_entry_of(
            "dataset_id"@,
            o.dataset_id,
        ) + text_entry_of("import_id"@, o.import_id) + text_entry_of("data_pk"@, o.data_pk),
    )
}

fn count_value(n: Option<usize>) -> (r: Value)
    ensures
        r@ == ValueView::Int(stored_count(n)),
{
    match n {
        Some(n) => {
            let wide: u64 = n as u64;
            if wide <= 0x7fff_ffff_ffff_ffff {
                Value::Int(wide as i64)
            } else {
                Value::Int(i64::MAX)
            }
        },
        None => Value::Int(0),
    }
}

fn text_value(t: &Option<String>, default: &str) -> (r: Value)
    ensures
        r@ == ValueView::Text(text_or(*t, default@)),
{
    match t {
        Some(s) => Value::Text(s.clone()),
        None => Value::text(default),
    }
}

fn push_list(fields: &mut Vec<Field>, key: &str, list: &Option<String>)
    ensures
        fields_view(final(fields)@) == fields_view(old(fields)@) + list_entry(key@, *list),
{
    match list {
        Some(text) => {
            if text.as_str().unicode_len() > 0 {
                fields.push(Field::new(key, list_of_texts(&to_parts(text.as_str()))));
            }
        },
        None => {},
    }
    assert(fields_view(fields@) =~= fields_view(old(fields)@) + list_entry(key@, *list));
}

fn push_text(fields: &mut Vec<Field>, key: &str, text: &Option<String>)
    ensures
        fields_view(final(fields)@) == fields_view(old(fields)@) + text_entry_of(key@, *text),
{
    match text {
        Some(t) => {
            fields.push(Field::new(key, Value::Text(t.clone())));
        },
        None => {},
    }
    assert(fields_view(fields@) =~= fields_view(old(fields)@) + text_entry_of(key@, *text));
}

impl CoreOptions {
    /// The options as a document.
    pub fn to_json_value(&self) -> (r: Value)
        ensures
            r@ == options_document(*self),
    {
        let mut fields: Vec<Field> = Vec::new();
        fields.push(Field::new("filename", text_value(&self.filename, "")));
        fields.push(Field::new("title", text_value(&self.title, "")));
        fields.push(Field::new("description", text_value(&self.description, "")));
        fields.push(Field::new("user_ref", text_value(&self.user_ref, "")));
        fields.push(Field::new("sheet_index", count_value(self.sheet_index)));
        fields.push(Field::new("header_index", count_value(self.header_index)));
        fields.push(Field::new("mode", text_value(&self.mode, "sync")));
        fields.push(Field::new("append", Value::Bool(self.append_mode())));
        fields.push(
            Field::new(
                "lines",
                match self.lines {
                    Some(b) => Value::Bool(b),
                    None => Value::Null,
                },
            ),
        );
        let ghost base = fields_view(fields@);
        assert(base =~= options_document(*self)->Document_0.subrange(0, 9));
        push_list(&mut fields, "keys", &self.keys);
        push_list(&mut fields, "columns", &self.cols);
        push_text(&mut fields, "dataset_id", &self.dataset_id);
        push_text(&mut fields, "import_id", &self.import_id);
        push_text(&mut fields, "data_pk", &self.data_pk);
        assert(fields_view(fields@) =~= options_document(*self)->Document_0);
        Value::Document(fields)
    }

    /// Whether rows are added to those that the dataset has.
    pub fn append_mode(&self) -> (r: bool)
        ensures
            r == (self.append == Some(true)),
    {
        match self.append {
            Some(b) => b,
            None => false,
        }
    }

    /// The options of an upload: the file's name and what the form gave;
    /// the lines flag is set by a count above zero.
    pub fn for_upload(
        filename: Option<String>,
        mode: Option<String>,
        max: Option<usize>,
        keys: Option<String>,
        lines: Option<usize>,
        cols: Option<String>,
        sheet_index: Option<usize>,
        header_index: Option<usize>,
    ) -> (r: CoreOptions)
        ensures
            r == (CoreOptions {
                filename,
                title: None,
                description: None,
                user_ref: None,
                mode,
                max,
                keys,
                cols,
                sheet_index,
                header_index,
                dataset_id: None,
                import_id: None,
                append: None,
                lines: match lines {
                    Some(n) => Some(n > 0),
                    None => None,
                },
                data_pk: None,
            }),
    {
        CoreOptions {
            filename,
            title: None,
            description: None,
            user_ref: None,
            mode,
            max,
            keys,
            cols,
            sheet_index,
            header_index,
            dataset_id: None,
            import_id: None,
            append: None,
            lines: match lines {
                Some(n) => Some(n > 0),
                None => None,
            },
            data_pk: None,
        }
    }
}

} // verus!
