use crate::object_id::{object_id_text, ObjectId};
use crate::timestamp::{format_timestamp, parse_timestamp, timestamp_reading, timestamp_text};
use vstd::prelude::*;

verus! {

/// A value of the document store: a scalar, a list or a document of named
/// values. A floating-point number is held as its literal text, an instant as
/// milliseconds since the Unix epoch.
#[derive(Debug, PartialEq, Eq)]
pub enum Value {
    Null,
    Bool(bool),
    Int(i64),
    Float(String),
    Text(String),
    DateTime(i64),
    ObjectId(ObjectId),
    Array(Vec<Value>),
    Document(Vec<Field>),
}

/// One named value of a document.
#[derive(Debug, PartialEq, Eq)]
pub struct Field {
    pub key: String,
    pub value: Value,
}

/// What a `Value` holds, as mathematical sequences.
#[verifier::ext_equal]
pub enum ValueView {
    Null,
    Bool(bool),
    Int(i64),
    Float(Seq<char>),
    Text(Seq<char>),
    DateTime(i64),
    ObjectId(ObjectId),
    Array(Seq<ValueView>),
    Document(Seq<(Seq<char>, ValueView)>),
}

/// What each value of a list holds.
pub open spec fn items_view(items: Seq<Value>) -> Seq<ValueView>
    decreases items,
{
    Seq::new(items.len(), |i: int| if 0 <= i < items.len() { items[i].view() } else { ValueView::Null })
}

/// The entries that the fields of a document hold.
pub open spec fn fields_view(fields: Seq<Field>) -> Seq<(Seq<char>, ValueView)>
    decreases fields,
{
    Seq::new(
        fields.len(),
        |i: int|
            if 0 <= i < fields.len() {
                (fields[i].key@, fields[i].value.view())
            } else {
                (Seq::empty(), ValueView::Null)
            },
    )
}

impl View for Value {
    type V = ValueView;

    open spec fn view(&self) -> ValueView
        decreases self,
    {
        match self {
            Value::Null => ValueView::Null,
            Value::Bool(b) => ValueView::Bool(*b),
            Value::Int(n) => ValueView::Int(*n),
            Value::Float(t) => ValueView::Float(t@),
            Value::Text(t) => ValueView::Text(t@),
            Value::DateTime(ms) => ValueView::DateTime(*ms),
            Value::ObjectId(id) => ValueView::ObjectId(*id),
            Value::Array(items) => ValueView::Array(items_view(items@)),
            Value::Document(fields) => ValueView::Document(fields_view(fields@)),
        }
    }
}

/// The entries of a document, each a key and what its value holds.
pub type Entries = Seq<(Seq<char>, ValueView)>;

/// The place of the first entry with the given key, or the number of entries
/// where there is none.
pub open spec fn key_position(entries: Entries, key: Seq<char>) -> int
    decreases entries.len(),
{
    if entries.len() == 0 {
        0
    } else if entries[0].0 == key {
        0
    } else {
        1 + key_position(entries.drop_first(), key)
    }
}

/// The value under the first entry with the given key.
pub open spec fn entry_value(entries: Entries, key: Seq<char>) -> Option<ValueView> {
    let at = key_position(entries, key);
    if at < entries.len() {
        Some(entries[at].1)
    } else {
        None
    }
}

/// The entries with `value` under `key`: in the place of the first entry
/// with that key, or at the end where there is none.
pub open spec fn with_entry(entries: Entries, key: Seq<char>, value: ValueView) -> Entries {
    let at = key_position(entries, key);
    if at < entries.len() {
        entries.update(at, (key, value))
    } else {
        entries.push((key, value))
    }
}

/// The least place whose entry has the key is `key_position`.
pub proof fn lemma_key_position_is(entries: Entries, key: Seq<char>, at: int)
    requires
        0 <= at <= entries.len(),
        at < entries.len() ==> entries[at].0 == key,
        forall|j: int| 0 <= j < at ==> (#[trigger] entries[j]).0 != key,
    ensures
        key_position(entries, key) == at,
    decreases entries.len(),
{
    if entries.len() > 0 && at > 0 {
        let rest = entries.drop_first();
        assert(entries[0].0 != key);
        assert forall|j: int| 0 <= j < at - 1 implies (#[trigger] rest[j]).0 != key by {
            assert(rest[j] == entries[j + 1]);
        }
        lemma_key_position_is(rest, key, at - 1);
    }
}

/// A document of one entry.
pub open spec fn single(key: Seq<char>, value: ValueView) -> ValueView {
    ValueView::Document(seq![(key, value)])
}

/// What a stored value looks like to a client: an object identifier as its
/// canonical text, an instant as its timestamp text, lists and documents
/// element by element, anything else unchanged.
pub open spec fn external_of(v: ValueView) -> ValueView
    decreases v,
{
    match v {
        ValueView::ObjectId(id) => ValueView::Text(object_id_text(id)),
        ValueView::DateTime(ms) => ValueView::Text(timestamp_text(ms)),
        ValueView::Array(items) => ValueView::Array(
            Seq::new(
                items.len(),
                |i: int|
                    if 0 <= i < items.len() {
                        external_of(items[i])
                    } else {
                        ValueView::Null
                    },
            ),
        ),
        ValueView::Document(entries) => ValueView::Document(
            Seq::new(
                entries.len(),
                |i: int|
                    if 0 <= i < entries.len() {
                        (entries[i].0, external_of(entries[i].1))
                    } else {
                        (Seq::empty(), ValueView::Null)
                    },
            ),
        ),
        _ => v,
    }
}

/// Whether a value holds neither an object identifier nor an instant, at any depth.
pub open spec fn is_plain(v: ValueView) -> bool
    decreases v,
{
    match v {
        ValueView::ObjectId(_) => false,
        ValueView::DateTime(_) => false,
        ValueView::Array(items) => forall|i: int|
            0 <= i < items.len() ==> is_plain(#[trigger] items[i]),
        ValueView::Document(entries) => forall|i: int|
            0 <= i < entries.len() ==> is_plain((#[trigger] entries[i]).1),
        _ => true,
    }
}

/// What is stored for the value of a document's entry: a text that reads as
/// a timestamp becomes that instant, anything else is stored as `stored_of` says.
pub open spec fn stored_entry_of(v: ValueView) -> ValueView
    decreases v, 1int,
{
    match v {
        ValueView::Text(s) => match timestamp_reading(s) {
            Some(ms) => ValueView::DateTime(ms),
            None => v,
        },
        _ => stored_of(v),
    }
}

/// What is stored for a client's value: lists and documents element by
/// element, the values of a document's entries as `stored_entry_of` says,
/// anything else unchanged.
pub open spec fn stored_of(v: ValueView) -> ValueView
    decreases v, 0int,
{
    match v {
        ValueView::Array(items) => ValueView::Array(
            Seq::new(
                items.len(),
                |i: int|
                    if 0 <= i < items.len() {
                        stored_of(items[i])
                    } else {
                        ValueView::Null
                    },
            ),
        ),
        ValueView::Document(entries) => ValueView::Document(
            Seq::new(
                entries.len(),
                |i: int|
                    if 0 <= i < entries.len() {
                        (entries[i].0, stored_entry_of(entries[i].1))
                    } else {
                        (Seq::empty(), ValueView::Null)
                    },
            ),
        ),
        _ => v,
    }
}

impl Field {
    /// A field with the given key and value.
    pub fn new(key: &str, value: Value) -> (r: Field)
        ensures
            r.key@ == key@,
            r.value == value,
    {
        Field { key: key.to_owned(), value }
    }
}

impl Value {
    /// A document of one field.
    pub fn single(key: &str, value: Value) -> (r: Value)
        ensures
            r@ == single(key@, value@),
    {
        let mut fields: Vec<Field> = Vec::new();
        fields.push(Field::new(key, value));
        assert(fields_view(fields@) =~= seq![(key@, value@)]);
        Value::Document(fields)
    }

    /// A copy of the value.
    #[verifier::loop_isolation(false)]
    pub fn duplicate(&self) -> (r: Value)
        ensures
            r@ == self@,
        decreases self,
    {
        match self {
            Value::Null => Value::Null,
            Value::Bool(b) => Value::Bool(*b),
            Value::Int(n) => Value::Int(*n),
            Value::Float(t) => Value::Float(t.clone()),
            Value::Text(t) => Value::Text(t.clone()),
            Value::DateTime(ms) => Value::DateTime(*ms),
            Value::ObjectId(id) => Value::ObjectId(*id),
            Value::Array(items) => {
                let mut out: Vec<Value> = Vec::new();
                let mut i: usize = 0;
                while i < items.len()
                    invariant
                        i <= items.len(),
                        out@.len() == i,
                        forall|j: int| 0 <= j < i ==> out@[j]@ == items@[j]@,
                    decreases items.len() - i,
                {
                    out.push(items[i].duplicate());
                    i += 1;
                }
                assert(items_view(out@) =~= items_view(items@));
                Value::Array(out)
            },
            Value::Document(fields) => {
                let out = duplicate_fields(fields);
                Value::Document(out)
            },
        }
    }

    /// Whether two values hold the same.
    #[verifier::loop_isolation(false)]
    pub fn same(&self, other: &Value) -> (r: bool)
        ensures
            r == (self@ == other@),
        decreases self,
    {
        match (self, other) {
            (Value::Null, Value::Null) => true,
            (Value::Bool(a), Value::Bool(b)) => *a == *b,
            (Value::Int(a), Value::Int(b)) => *a == *b,
            (Value::Float(a), Value::Float(b)) => *a == *b,
            (Value::Text(a), Value::Text(b)) => *a == *b,
            (Value::DateTime(a), Value::DateTime(b)) => *a == *b,
            (Value::ObjectId(a), Value::ObjectId(b)) => *a == *b,
            (Value::Array(a), Value::Array(b)) => {
                if a.len() != b.len() {
                    assert(items_view(a@).len() != items_view(b@).len());
                    return false;
                }
                let mut i: usize = 0;
                while i < a.len()
                    invariant
                        i <= a.len(),
                        a.len() == b.len(),
                        forall|j: int| 0 <= j < i ==> a@[j]@ == b@[j]@,
                    decreases a.len() - i,
                {
                    if !a[i].same(&b[i]) {
                        assert(items_view(a@)[i as int] != items_view(b@)[i as int]);
                        return false;
                    }
                    i += 1;
                }
                assert(items_view(a@) =~= items_view(b@));
                true
            },
            (Value::Document(a), Value::Document(b)) => {
                if a.len() != b.len() {
                    assert(fields_view(a@).len() != fields_view(b@).len());
                    return false;
                }
                let mut i: usize = 0;
                while i < a.len()
                    invariant
                        i <= a.len(),
                        a.len() == b.len(),
                        forall|j: int|
                            0 <= j < i ==> a@[j].key@ == b@[j].key@ && a@[j].value@ == b@[j].value@,
                    decreases a.len() - i,
                {
                    if !(a[i].key == b[i].key) || !a[i].value.same(&b[i].value) {
                        assert(fields_view(a@)[i as int] != fields_view(b@)[i as int]);
                        return false;
                    }
                    i += 1;
                }
                assert(fields_view(a@) =~= fields_view(b@));
                true
            },
            _ => false,
        }
    }

    /// A text value.
    pub fn text(s: &str) -> (r: Value)
        ensures
            r@ == ValueView::Text(s@),
    {
        Value::Text(s.to_owned())
    }

    /// The value as a client sees it.
    #[verifier::loop_isolation(false)]
    pub fn from_storage(&self) -> (r: Value)
        ensures
            r@ == external_of(self@),
            is_plain(r@),
        decreases self,
    {
        match self {
            Value::ObjectId(id) => Value::Text(id.to_hex()),
            Value::DateTime(ms) => Value::Text(format_timestamp(*ms)),
            Value::Array(items) => {
                let mut out: Vec<Value> = Vec::new();
                let mut i: usize = 0;
                while i < items.len()
                    invariant
                        i <= items.len(),
                        out@.len() == i,
                        forall|j: int| 0 <= j < i ==> out@[j]@ == external_of(items@[j]@),
                        forall|j: int| 0 <= j < i ==> is_plain(out@[j]@),
                    decreases items.len() - i,
                {
                    out.push(items[i].from_storage());
                    i += 1;
                }
                proof {
                    let a = items_view(out@);
                    let b = external_of(self@)->Array_0;
                    assert(self@ == ValueView::Array(items_view(items@)));
                    assert(a.len() == items@.len());
                    assert(b.len() == items@.len());
                    assert forall|k: int| 0 <= k < a.len() implies a[k] == b[k] by {
                        assert(items_view(items@)[k] == items@[k]@);
                        assert(out@[k]@ == external_of(items@[k]@));
                    }
                    assert(a =~= b);
                }
                Value::Array(out)
            },
            Value::Document(fields) => {
                let mut out: Vec<Field> = Vec::new();
                let mut i: usize = 0;
                while i < fields.len()
                    invariant
                        i <= fields.len(),
                        out@.len() == i,
                        forall|j: int|
                            0 <= j < i ==> out@[j].key@ == fields@[j].key@ && out@[j].value@
                                == external_of(fields@[j].value@),
                        forall|j: int| 0 <= j < i ==> is_plain(out@[j].value@),
                    decreases fields.len() - i,
                {
                    out.push(Field { key: fields[i].key.clone(), value: fields[i].value.from_storage() });
                    i += 1;
                }
                proof {
                    let a = fields_view(out@);
                    let b = external_of(self@)->Document_0;
                    assert(self@ == ValueView::Document(fields_view(fields@)));
                    assert(a.len() == fields@.len());
                    assert(b.len() == fields@.len());
                    assert forall|k: int| 0 <= k < a.len() implies a[k] == b[k] by {
                        assert(fields_view(fields@)[k] == (fields@[k].key@, fields@[k].value@));
                        assert(out@[k].value@ == external_of(fields@[k].value@));
                    }
                    assert(a =~= b);
                }
                Value::Document(out)
            },
            _ => self.duplicate(),
        }
    }

    /// The value as it is stored.
    #[verifier::loop_isolation(false)]
    pub fn to_storage(&self) -> (r: Value)
        ensures
            r@ == stored_of(self@),
        decreases self, 0int,
    {
        match self {
            Value::Array(items) => {
                let mut out: Vec<Value> = Vec::new();
                let mut i: usize = 0;
                while i < items.len()
                    invariant
                        i <= items.len(),
                        out@.len() == i,
                        forall|j: int| 0 <= j < i ==> out@[j]@ == stored_of(items@[j]@),
                    decreases items.len() - i,
                {
                    out.push(items[i].to_storage());
                    i += 1;
                }
                proof {
                    let a = items_view(out@);
                    let b = stored_of(self@)->Array_0;
                    assert(self@ == ValueView::Array(items_view(items@)));
                    assert(a.len() == items@.len());
                    assert(b.len() == items@.len());
                    assert forall|k: int| 0 <= k < a.len() implies a[k] == b[k] by {
                        assert(items_view(items@)[k] == items@[k]@);
                        assert(out@[k]@ == stored_of(items@[k]@));
                    }
                    assert(a =~= b);
                }
                Value::Array(out)
            },
            Value::Document(fields) => {
                let mut out: Vec<Field> = Vec::new();
                let mut i: usize = 0;
                while i < fields.len()
                    invariant
                        i <= fields.len(),
                        out@.len() == i,
                        forall|j: int|
                            0 <= j < i ==> out@[j].key@ == fields@[j].key@ && out@[j].value@
                                == stored_entry_of(fields@[j].value@),
                    decreases fields.len() - i,
                {
                    let value = match &fields[i].value {
                        Value::Text(s) => match parse_timestamp(s.as_str()) {
                            Some(ms) => Value::DateTime(ms),
                            None => Value::Text(s.clone()),
                        },
                        other => other.to_storage(),
                    };
                    out.push(Field { key: fields[i].key.clone(), value });
                    i += 1;
                }
                proof {
                    let a = fields_view(out@);
                    let b = stored_of(self@)->Document_0;
                    assert(self@ == ValueView::Document(fields_view(fields@)));
                    assert(a.len() == fields@.len());
                    assert(b.len() == fields@.len());
                    assert forall|k: int| 0 <= k < a.len() implies a[k] == b[k] by {
                        assert(fields_view(fields@)[k] == (fields@[k].key@, fields@[k].value@));
                        assert(out@[k].value@ == stored_entry_of(fields@[k].value@));
                    }
                    assert(a =~= b);
                }
                Value::Document(out)
            },
            _ => self.duplicate(),
        }
    }
}

/// The place of the first field with the given key, or the number of fields
/// where there is none.
pub fn position_of(fields: &Vec<Field>, key: &str) -> (r: usize)
    ensures
        r == key_position(fields_view(fields@), key@),
        r <= fields@.len(),
{
    let ghost entries = fields_view(fields@);
    let mut i: usize = 0;
    while i < fields.len()
        invariant
            i <= fields.len(),
            entries == fields_view(fields@),
            forall|j: int| 0 <= j < i ==> (#[trigger] entries[j]).0 != key@,
        decreases fields.len() - i,
    {
        if *fields[i].key.as_str() == *key {
            proof {
                lemma_key_position_is(entries, key@, i as int);
            }
            return i;
        }
        i += 1;
    }
    proof {
        lemma_key_position_is(entries, key@, i as int);
    }
    i
}

/// The value under the first field with the given key.
pub fn get_field<'a>(fields: &'a Vec<Field>, key: &str) -> (r: Option<&'a Value>)
    ensures
        match r {
            Some(v) => entry_value(fields_view(fields@), key@) == Some(v@),
            None => entry_value(fields_view(fields@), key@) is None,
        },
{
    let at = position_of(fields, key);
    if at < fields.len() {
        Some(&fields[at].value)
    } else {
        None
    }
}

/// Puts `value` under `key`: in the place of the first field with that key,
/// or at the end where there is none.
pub fn set_field(fields: &mut Vec<Field>, key: &str, value: Value)
    ensures
        fields_view(final(fields)@) == with_entry(fields_view(old(fields)@), key@, value@),
{
    let at = position_of(fields, key);
    let field = Field { key: key.to_owned(), value };
    if at < fields.len() {
        fields.remove(at);
        fields.insert(at, field);
    } else {
        fields.push(field);
    }
    assert(fields_view(fields@) =~= with_entry(fields_view(old(fields)@), key@, value@));
}

/// The entries of a value that is a document; none for any other value.
pub open spec fn entries_of(v: ValueView) -> Entries {
    match v {
        ValueView::Document(entries) => entries,
        _ => Seq::empty(),
    }
}

/// The text under a key, or the empty text where the key holds no text.
pub open spec fn text_entry(entries: Entries, key: Seq<char>) -> Seq<char> {
    match entry_value(entries, key) {
        Some(ValueView::Text(s)) => s,
        _ => Seq::empty(),
    }
}

/// The index under a key: the low 32 bits of a number that is not negative,
/// or zero where the key holds no such number.
pub open spec fn index_entry(entries: Entries, key: Seq<char>) -> u32 {
    match entry_value(entries, key) {
        Some(ValueView::Int(n)) => if n >= 0 {
            (n % 0x1_0000_0000) as u32
        } else {
            0
        },
        _ => 0,
    }
}

/// The fields of a value that is a document.
pub fn document_fields(v: &Value) -> (r: Option<&Vec<Field>>)
    ensures
        match r {
            Some(fields) => v@ is Document && fields_view(fields@) == entries_of(v@) && *v
                == Value::Document(*fields),
            None => !(v@ is Document) && entries_of(v@) == Seq::<(Seq<char>, ValueView)>::empty(),
        },
{
    match v {
        Value::Document(fields) => Some(fields),
        _ => None,
    }
}

/// The text under a key, or the empty text where the key holds no text.
pub fn text_field(fields: &Vec<Field>, key: &str) -> (r: String)
    ensures
        r@ == text_entry(fields_view(fields@), key@),
{
    match get_field(fields, key) {
        Some(Value::Text(s)) => s.clone(),
        _ => String::new(),
    }
}

/// The index under a key.
pub fn index_field(fields: &Vec<Field>, key: &str) -> (r: u32)
    ensures
        r == index_entry(fields_view(fields@), key@),
{
    match get_field(fields, key) {
        Some(Value::Int(n)) => {
            if *n >= 0 {
                (*n % 0x1_0000_0000) as u32
            } else {
                0
            }
        },
        _ => 0,
    }
}

/// A copy of a document's fields.
#[verifier::loop_isolation(false)]
pub fn duplicate_fields(fields: &Vec<Field>) -> (r: Vec<Field>)
    ensures
        fields_view(r@) == fields_view(fields@),
        r@.len() == fields@.len(),
    decreases fields,
{
    let mut out: Vec<Field> = Vec::new();
    let mut i: usize = 0;
    while i < fields.len()
        invariant
            i <= fields.len(),
            out@.len() == i,
            forall|j: int|
                0 <= j < i ==> out@[j].key@ == fields@[j].key@ && out@[j].value@
                    == fields@[j].value@,
        decreases fields.len() - i,
    {
        out.push(Field { key: fields[i].key.clone(), value: fields[i].value.duplicate() });
        i += 1;
    }
    assert(fields_view(out@) =~= fields_view(fields@));
    out
}

} // verus!
