use crate::numeric::{
    decimal_within, is_float_literal, is_float_text, is_numeric, is_numeric_text, parse_i32,
    parse_i64,
};
use crate::text::{
    alphanumeric_only, chars_of, concat, has_prefix, is_truthy, lowercased, split_on, starts_with,
    starts_with_ci, starts_with_ignoring_case, strip_non_alphanum, text_of, texts_view,
    to_lowercase, to_parts, trim, trimmed, truthy_reading,
};
use crate::timestamp::fuzzy_timestamp;
use crate::value::{fields_view, items_view, single, Field, Value, ValueView};
use vstd::prelude::*;

verus! {

/// The type that a client declares for the value of a filter.
#[derive(Debug, Clone, Copy, PartialEq, Eq, Structural)]
pub enum CastDataType {
    String,
    Float,
    Integer,
    Date,
    DateTime,
    Boolean,
}

/// The type that a lower-case key names; any unknown key names `String`.
pub open spec fn data_type_of(key: Seq<char>) -> CastDataType {
    if key == "float"@ || key == "number"@ {
        CastDataType::Float
    } else if key == "int"@ || key == "integer"@ {
        CastDataType::Integer
    } else if key == "date"@ {
        CastDataType::Date
    } else if key == "datetime"@ {
        CastDataType::DateTime
    } else if key == "bool"@ || key == "boolean"@ {
        CastDataType::Boolean
    } else {
        CastDataType::String
    }
}

impl CastDataType {
    /// The type that a key names once it is in lower case.
    pub fn from_key(key: &str) -> (r: CastDataType)
        ensures
            r == data_type_of(key@),
    {
        if *key == *"float" || *key == *"number" {
            CastDataType::Float
        } else if *key == *"int" || *key == *"integer" {
            CastDataType::Integer
        } else if *key == *"date" {
            CastDataType::Date
        } else if *key == *"datetime" {
            CastDataType::DateTime
        } else if *key == *"bool" || *key == *"boolean" {
            CastDataType::Boolean
        } else {
            CastDataType::String
        }
    }

    /// The type that a key names, letter case aside.
    pub fn from_str(key: &str) -> (r: CastDataType)
        ensures
            r == data_type_of(lowercased(key@)),
    {
        let lowered = to_lowercase(key);
        CastDataType::from_key(lowered.as_str())
    }

    /// Whether the type is a number.
    pub fn is_numeric(&self) -> (r: bool)
        ensures
            r == (*self is Float || *self is Integer),
    {
        match self {
            CastDataType::Float | CastDataType::Integer => true,
            _ => false,
        }
    }

    /// Whether the type is a truth value.
    pub fn is_bool(&self) -> (r: bool)
        ensures
            r == (*self is Boolean),
    {
        match self {
            CastDataType::Boolean => true,
            _ => false,
        }
    }

    /// Whether the type is a date, with or without a time.
    pub fn is_datelike(&self) -> (r: bool)
        ensures
            r == (*self is Date || *self is DateTime),
    {
        match self {
            CastDataType::Date | CastDataType::DateTime => true,
            _ => false,
        }
    }

    /// Whether the type is a date with a time.
    pub fn is_datetime(&self) -> (r: bool)
        ensures
            r == (*self is DateTime),
    {
        match self {
            CastDataType::DateTime => true,
            _ => false,
        }
    }

    /// Whether the type is a whole number.
    pub fn is_integer(&self) -> (r: bool)
        ensures
            r == (*self is Integer),
    {
        match self {
            CastDataType::Integer => true,
            _ => false,
        }
    }
}

/// The number that a filter's value is read as: where the value is lexically
/// numeric or a numeric type is declared, an integer of 64 bits under the
/// type `Integer`, else a floating-point literal; none where that reading fails.
pub open spec fn numeric_reading(value: Seq<char>, dt: CastDataType) -> Option<ValueView> {
    if is_numeric_text(value) || dt is Float || dt is Integer {
        if dt is Integer {
            match decimal_within(value, i64::MIN as int, i64::MAX as int) {
                Some(n) => Some(ValueView::Int(n as i64)),
                None => None,
            }
        } else if is_float_text(value) {
            Some(ValueView::Float(value))
        } else {
            None
        }
    } else {
        None
    }
}

/// Whether a text may have been read as the given date: only an ASCII text
/// is read as a date at all.
pub open spec fn may_read_date(value: Seq<char>, date: Option<i64>) -> bool {
    date is Some ==> vstd::utf8::is_ascii_chars(value)
}

/// The typed value of a filter, given what its text reads as a date and as
/// a truth value: the first of number, instant, truth value that there is,
/// else the text itself.
pub open spec fn cast_of(
    value: Seq<char>,
    dt: CastDataType,
    date: Option<i64>,
    truth: Option<bool>,
) -> ValueView {
    match numeric_reading(value, dt) {
        Some(number) => number,
        None => match date {
            Some(millis) => ValueView::DateTime(millis),
            None => match truth {
                Some(b) => ValueView::Bool(b),
                None => ValueView::Text(value),
            },
        },
    }
}

fn read_number(value: &str, dt: CastDataType) -> (r: Option<Value>)
    ensures
        match r {
            Some(v) => numeric_reading(value@, dt) == Some(v@),
            None => numeric_reading(value@, dt) is None,
        },
{
    if is_numeric(value) || dt.is_numeric() {
        if dt.is_integer() {
            match parse_i64(value) {
                Some(n) => Some(Value::Int(n)),
                None => None,
            }
        } else if is_float_literal(value) {
            Some(Value::Float(value.to_owned()))
        } else {
            None
        }
    } else {
        None
    }
}

/// The typed value of a filter, given what its text reads as a date and as
/// a truth value.
pub fn cast_from_readings(value: &str, dt: CastDataType, date: Option<i64>, truth: Option<bool>) -> (r:
    Value)
    ensures
        r@ == cast_of(value@, dt, date, truth),
{
    match read_number(value, dt) {
        Some(number) => number,
        None => match date {
            Some(millis) => Value::DateTime(millis),
            None => match truth {
                Some(b) => Value::Bool(b),
                None => Value::text(value),
            },
        },
    }
}

/// The typed value of a filter: a number, else an instant where the text is
/// a date in year-month-day order, else a truth value, else the text. A text
/// that is not ASCII is not read as a date. Which instant a date gives is
/// left to the reading of dates.
pub fn cast_value(value: &str, dt: CastDataType) -> (r: Value)
    ensures
        exists|date: Option<i64>|
            may_read_date(value@, date) && r@ == #[trigger] cast_of(
                value@,
                dt,
                date,
                truthy_reading(value@),
            ),
        numeric_reading(value@, dt) is Some ==> r@ == numeric_reading(value@, dt)->0,
{
    match read_number(value, dt) {
        Some(number) => {
            assert(may_read_date(value@, None));
            assert(number@ == cast_of(value@, dt, None, truthy_reading(value@)));
            number
        },
        None => {
            let date = if value.is_ascii() {
                fuzzy_timestamp(value)
            } else {
                None
            };
            let truth = if date.is_none() {
                is_truthy(value)
            } else {
                None
            };
            let r = cast_from_readings(value, dt, date, truth);
            assert(may_read_date(value@, date));
            assert(r@ == cast_of(value@, dt, date, truthy_reading(value@)));
            r
        },
    }
}

/// The condition that compares a field with a typed value under the given
/// operator of the store, such as `$gt`.
pub fn cast_to_comparison(op: &str, value: &str, dt: &CastDataType) -> (r: Value)
    ensures
        exists|date: Option<i64>|
            may_read_date(value@, date) && r@ == single(
                op@,
                #[trigger] cast_of(value@, *dt, date, truthy_reading(value@)),
            ),
        numeric_reading(value@, *dt) is Some ==> r@ == single(
            op@,
            numeric_reading(value@, *dt)->0,
        ),
{
    let typed = cast_value(value, *dt);
    Value::single(op, typed)
}

/// The direction that a key in lower case and without white space around it
/// names: 1 upwards, -1 downwards. `asc` and `desc` name themselves, a number
/// its sign, a key that begins with `desc`, `down` or `dsc` downwards, and
/// anything else upwards.
pub open spec fn direction_of(key: Seq<char>) -> int {
    if key == "asc"@ {
        1
    } else if key == "desc"@ {
        -1
    } else if is_numeric_text(key) {
        match decimal_within(key, i32::MIN as int, i32::MAX as int) {
            Some(n) => if n < 0 {
                -1
            } else {
                1
            },
            None => 1,
        }
    } else if has_prefix(key, "desc"@) || has_prefix(key, "down"@) || has_prefix(key, "dsc"@) {
        -1
    } else {
        1
    }
}

/// The direction that a key in lower case and without white space around it names.
pub fn sort_direction(key: &str) -> (r: i32)
    ensures
        r == direction_of(key@),
{
    if *key == *"asc" {
        1
    } else if *key == *"desc" {
        -1
    } else if is_numeric(key) {
        match parse_i32(key) {
            Some(n) => if n < 0 {
                -1
            } else {
                1
            },
            None => 1,
        }
    } else {
        let chars = chars_of(key);
        if starts_with(&chars, "desc") || starts_with(&chars, "down") || starts_with(&chars, "dsc") {
            -1
        } else {
            1
        }
    }
}

/// The direction that a key names, letter case and surrounding white space aside.
pub fn match_sort_direction(key: &str) -> (r: i32)
    ensures
        r == direction_of(lowercased(trimmed(key@))),
{
    let normal = to_lowercase(trim(key));
    sort_direction(normal.as_str())
}

/// What stands for one character of a `like` value in a pattern: a point or
/// a question mark is escaped, a percent sign becomes a run of any
/// characters, any other character stands for itself.
pub open spec fn like_escaped_char(c: char) -> Seq<char> {
    if c == '.' {
        seq!['\\', '.']
    } else if c == '?' {
        seq!['\\', '?']
    } else if c == '%' {
        seq!['.', '*', '?']
    } else {
        seq![c]
    }
}

/// A `like` value with each character replaced by what stands for it.
pub open spec fn like_escaped(s: Seq<char>) -> Seq<char>
    decreases s.len(),
{
    if s.len() == 0 {
        Seq::empty()
    } else {
        like_escaped(s.drop_last()) + like_escaped_char(s.last())
    }
}

/// A `like` value with each character replaced by what stands for it.
pub fn escape_like(value: &str) -> (r: String)
    ensures
        r@ == like_escaped(value@),
{
    let chars = chars_of(value);
    let mut out: Vec<char> = Vec::new();
    let mut i: usize = 0;
    assert(chars@.subrange(0, 0) =~= Seq::<char>::empty());
    while i < chars.len()
        invariant
            i <= chars.len(),
            out@ == like_escaped(chars@.subrange(0, i as int)),
        decreases chars.len() - i,
    {
        let c = chars[i];
        let ghost upto = chars@.subrange(0, i + 1);
        let ghost before = out@;
        assert(upto.drop_last() =~= chars@.subrange(0, i as int));
        assert(upto.last() == c);
        if c == '.' {
            out.push('\\');
            out.push('.');
        } else if c == '?' {
            out.push('\\');
            out.push('?');
        } else if c == '%' {
            out.push('.');
            out.push('*');
            out.push('?');
        } else {
            out.push(c);
        }
        assert(out@ =~= before + like_escaped_char(c));
        i += 1;
    }
    assert(chars@.subrange(0, chars.len() as int) =~= chars@);
    text_of(&out)
}

/// The pattern that matches a whole value against an escaped `like` body,
/// white space around the value aside.
pub fn anchor_like(body: &str) -> (r: String)
    ensures
        r@ == "^\\s*"@ + body@ + "\\s*$"@,
{
    let front = concat("^\\s*", body);
    concat(front.as_str(), "\\s*$")
}

/// The pattern of a `like` filter: the escaped value without white space
/// around it, anchored at both ends.
pub fn str_to_like_pattern(value: &str) -> (r: String)
    ensures
        r@ == "^\\s*"@ + trimmed(like_escaped(value@)) + "\\s*$"@,
{
    let escaped = escape_like(value);
    anchor_like(trim(escaped.as_str()))
}

/// How a filter holds a field against its value.
#[derive(Debug, Clone, Copy, PartialEq, Eq, Structural)]
pub enum Operator {
    Eq,
    Ne,
    Gt,
    Gte,
    Lt,
    Lte,
    In,
    Nin,
    Regex,
    RegexCaseSensitive,
    Like,
    Starts,
    Ends,
}

/// The operator that a key names, once it is in lower case and holds letters
/// and digits only; any unknown key names `Eq`.
pub open spec fn operator_of(key: Seq<char>) -> Operator {
    if key == "ne"@ {
        Operator::Ne
    } else if key == "gt"@ {
        Operator::Gt
    } else if key == "gte"@ {
        Operator::Gte
    } else if key == "lt"@ {
        Operator::Lt
    } else if key == "lte"@ {
        Operator::Lte
    } else if key == "in"@ {
        Operator::In
    } else if key == "nin"@ {
        Operator::Nin
    } else if key == "r"@ || key == "regex"@ || key == "regexp"@ || key == "rgx"@ {
        Operator::Regex
    } else if key == "rcs"@ || key == "rc"@ || key == "regexc"@ || key == "regexpc"@ || key
        == "rgxc"@ {
        Operator::RegexCaseSensitive
    } else if key == "like"@ || key == "l"@ {
        Operator::Like
    } else if key == "starts"@ || key == "startswith"@ {
        Operator::Starts
    } else if key == "ends"@ || key == "endswith"@ {
        Operator::Ends
    } else {
        Operator::Eq
    }
}

/// The store's name for an operator that compares with a typed value.
pub open spec fn comparison_key(op: Operator) -> Seq<char> {
    match op {
        Operator::Ne => "$ne"@,
        Operator::Gt => "$gt"@,
        Operator::Gte => "$gte"@,
        Operator::Lt => "$lt"@,
        Operator::Lte => "$lte"@,
        _ => "$eq"@,
    }
}

/// The condition that matches a pattern, with or without regard to letter case.
pub open spec fn regex_document(pattern: Seq<char>, ignore_case: bool) -> ValueView {
    if ignore_case {
        ValueView::Document(
            seq![("$regex"@, ValueView::Text(pattern)), ("$options"@, ValueView::Text("i"@))],
        )
    } else {
        ValueView::Document(seq![("$regex"@, ValueView::Text(pattern))])
    }
}

/// A list of texts as a list of values.
pub open spec fn text_list(parts: Seq<Seq<char>>) -> ValueView {
    ValueView::Array(Seq::new(parts.len(), |i: int| ValueView::Text(parts[i])))
}

/// The condition of a filter on one field, given what its value reads as a
/// date: a comparison with the typed value, membership in the list that the
/// commas of the value part, or a pattern.
pub open spec fn condition_of(
    op: Operator,
    value: Seq<char>,
    dt: CastDataType,
    date: Option<i64>,
) -> ValueView {
    match op {
        Operator::In => single("$in"@, text_list(split_on(value, ','))),
        Operator::Nin => single("$nin"@, text_list(split_on(value, ','))),
        Operator::Regex => regex_document(value, true),
        Operator::RegexCaseSensitive => regex_document(value, false),
        Operator::Like => regex_document(
            "^\\s*"@ + trimmed(like_escaped(value)) + "\\s*$"@,
            true,
        ),
        Operator::Starts => regex_document("^"@ + trimmed(value), true),
        Operator::Ends => regex_document(trimmed(value) + "$"@, true),
        _ => single(comparison_key(op), cast_of(value, dt, date, truthy_reading(value))),
    }
}

impl Operator {
    /// The operator that a key names, once it is in lower case and holds
    /// letters and digits only.
    pub fn from_key(key: &str) -> (r: Operator)
        ensures
            r == operator_of(key@),
    {
        if *key == *"ne" {
            Operator::Ne
        } else if *key == *"gt" {
            Operator::Gt
        } else if *key == *"gte" {
            Operator::Gte
        } else if *key == *"lt" {
            Operator::Lt
        } else if *key == *"lte" {
            Operator::Lte
        } else if *key == *"in" {
            Operator::In
        } else if *key == *"nin" {
            Operator::Nin
        } else if *key == *"r" || *key == *"regex" || *key == *"regexp" || *key == *"rgx" {
            Operator::Regex
        } else if *key == *"rcs" || *key == *"rc" || *key == *"regexc" || *key == *"regexpc"
            || *key == *"rgxc" {
            Operator::RegexCaseSensitive
        } else if *key == *"like" || *key == *"l" {
            Operator::Like
        } else if *key == *"starts" || *key == *"startswith" {
            Operator::Starts
        } else if *key == *"ends" || *key == *"endswith" {
            Operator::Ends
        } else {
            Operator::Eq
        }
    }

    /// The operator that a key names, letter case and any characters but
    /// letters and digits aside.
    pub fn parse(raw: &str) -> (r: Operator)
        ensures
            r == operator_of(alphanumeric_only(lowercased(raw@))),
    {
        let lowered = to_lowercase(raw);
        let key = strip_non_alphanum(lowered.as_str());
        Operator::from_key(key.as_str())
    }

    /// The store's name for the operator where it compares with a typed value.
    pub fn comparison_key(&self) -> (r: &'static str)
        ensures
            r@ == comparison_key(*self),
    {
        match self {
            Operator::Ne => "$ne",
            Operator::Gt => "$gt",
            Operator::Gte => "$gte",
            Operator::Lt => "$lt",
            Operator::Lte => "$lte",
            _ => "$eq",
        }
    }
}

/// The condition that matches a pattern, with or without regard to letter case.
pub fn regex_condition(pattern: &str, ignore_case: bool) -> (r: Value)
    ensures
        r@ == regex_document(pattern@, ignore_case),
{
    let mut fields: Vec<Field> = Vec::new();
    fields.push(Field::new("$regex", Value::text(pattern)));
    if ignore_case {
        fields.push(Field::new("$options", Value::text("i")));
    }
    assert(fields_view(fields@) =~= regex_document(pattern@, ignore_case)->Document_0);
    Value::Document(fields)
}

/// A list of texts as a list of values.
pub fn list_of_texts(parts: &Vec<String>) -> (r: Value)
    ensures
        r@ == text_list(texts_view(parts@)),
{
    let mut items: Vec<Value> = Vec::new();
    let mut i: usize = 0;
    while i < parts.len()
        invariant
            i <= parts.len(),
            items@.len() == i,
            forall|j: int| 0 <= j < i ==> items@[j]@ == ValueView::Text(parts@[j]@),
        decreases parts.len() - i,
    {
        items.push(Value::Text(parts[i].clone()));
        i += 1;
    }
    assert(items_view(items@) =~= text_list(texts_view(parts@))->Array_0);
    Value::Array(items)
}

/// The condition of a filter on one field. Which instant a date gives is
/// left to the reading of dates.
pub fn field_condition(op: Operator, value: &str, dt: CastDataType) -> (r: Value)
    ensures
        exists|date: Option<i64>|
            may_read_date(value@, date) && r@ == #[trigger] condition_of(op, value@, dt, date),
{
    match op {
        Operator::In => {
            let r = Value::single("$in", list_of_texts(&to_parts(value)));
            assert(may_read_date(value@, None));
            assert(r@ == condition_of(op, value@, dt, None));
            r
        },
        Operator::Nin => {
            let r = Value::single("$nin", list_of_texts(&to_parts(value)));
            assert(r@ == condition_of(op, value@, dt, None));
            r
        },
        Operator::Regex => {
            let r = regex_condition(value, true);
            assert(r@ == condition_of(op, value@, dt, None));
            r
        },
        Operator::RegexCaseSensitive => {
            let r = regex_condition(value, false);
            assert(r@ == condition_of(op, value@, dt, None));
            r
        },
        Operator::Like => {
            let r = regex_condition(str_to_like_pattern(value).as_str(), true);
            assert(r@ == condition_of(op, value@, dt, None));
            r
        },
        Operator::Starts => {
            let r = regex_condition(concat("^", trim(value)).as_str(), true);
            assert(r@ == condition_of(op, value@, dt, None));
            r
        },
        Operator::Ends => {
            let r = regex_condition(concat(trim(value), "$").as_str(), true);
            assert(r@ == condition_of(op, value@, dt, None));
            r
        },
        _ => {
            let r = cast_to_comparison(op.comparison_key(), value, &dt);
            let ghost date = choose|date: Option<i64>|
                may_read_date(value@, date) && r@ == single(
                    comparison_key(op),
                    #[trigger] cast_of(value@, dt, date, truthy_reading(value@)),
                );
            assert(may_read_date(value@, date));
            assert(r@ == condition_of(op, value@, dt, date));
            r
        },
    }
}

/// The parameters of a query as a client sends them.
#[derive(Debug, PartialEq, Eq, Default)]
pub struct QueryFilterParams {
    /// The field that the filter is on.
    pub f: Option<String>,
    /// The value that the field is held against.
    pub v: Option<String>,
    /// The operator's key.
    pub o: Option<String>,
    /// The declared type of the value.
    pub dt: Option<String>,
    pub sort: Option<String>,
    pub dir: Option<String>,
    pub import: Option<String>,
    pub start: Option<u64>,
    pub limit: Option<u64>,
    /// A word to look for in names, file names, titles and descriptions.
    pub q: Option<String>,
    /// A user reference.
    pub u: Option<String>,
}

/// The limit of a page where the client names none.
pub const DEFAULT_PAGE_LIMIT: u64 = 100;

/// The greatest limit of a page where none is configured.
pub const DEFAULT_LISTING_LIMIT: u64 = 10_000;

/// A given text, or the default where none is given.
pub open spec fn text_or(t: Option<String>, default: Seq<char>) -> Seq<char> {
    match t {
        Some(s) => s@,
        None => default,
    }
}

/// The filter on a row's field: the condition under the field's name behind `data.`.
pub open spec fn field_criteria(
    field: Seq<char>,
    op: Operator,
    value: Seq<char>,
    dt: CastDataType,
    date: Option<i64>,
) -> ValueView {
    single("data."@ + field, condition_of(op, value, dt, date))
}

/// The filter that finds a pattern in a dataset's name, in the file names of
/// its imports, in its title or in its description, letter case aside.
pub open spec fn text_search_document(pattern: Seq<char>) -> ValueView {
    single(
        "$or"@,
        ValueView::Array(
            seq![
                single("name"@, regex_document(pattern, true)),
                single("imports.filename"@, regex_document(pattern, true)),
                single("title"@, regex_document(pattern, true)),
                single("description"@, regex_document(pattern, true)),
            ],
        ),
    )
}

/// The filter of a listing: by user where a user reference is given, else
/// by word where a word is given, else none.
pub open spec fn search_criteria(q: Option<Seq<char>>, u: Option<Seq<char>>) -> Option<ValueView> {
    match u {
        Some(user) => Some(
            single("user_ref"@, regex_document("^"@ + trimmed(user) + "\\b"@, true)),
        ),
        None => match q {
            Some(word) => Some(text_search_document("\\b\\s*"@ + trimmed(word))),
            None => None,
        },
    }
}

/// Whether a listing is sorted by the time of the last update: where the
/// sort key begins with `updat`, `modif` or `old`, letter case aside.
pub open spec fn sorts_by_update(sort: Seq<char>) -> bool {
    ||| starts_with_ignoring_case(sort, "updat"@)
    ||| starts_with_ignoring_case(sort, "modif"@)
    ||| starts_with_ignoring_case(sort, "old"@)
}

/// The sort order of a listing by one of its two fields.
pub open spec fn list_sort_document(by_update: bool, direction: int) -> ValueView {
    single(
        if by_update {
            "updated_at"@
        } else {
            "created_at"@
        },
        ValueView::Int(direction as i64),
    )
}

/// The filter that finds a word, given without white space around it, in a
/// dataset's name, import file names, title or description.
pub fn text_search(word: &str) -> (r: Value)
    ensures
        r@ == text_search_document("\\b\\s*"@ + word@),
{
    let pattern = concat("\\b\\s*", word);
    let mut branches: Vec<Value> = Vec::new();
    branches.push(Value::single("name", regex_condition(pattern.as_str(), true)));
    branches.push(Value::single("imports.filename", regex_condition(pattern.as_str(), true)));
    branches.push(Value::single("title", regex_condition(pattern.as_str(), true)));
    branches.push(Value::single("description", regex_condition(pattern.as_str(), true)));
    assert(items_view(branches@) =~= text_search_document(pattern@)->Document_0[0].1->Array_0);
    Value::single("$or", Value::Array(branches))
}

/// The filter that finds the datasets of a user, whose reference is given
/// without white space around it.
pub fn user_search(user: &str) -> (r: Value)
    ensures
        r@ == single("user_ref"@, regex_document("^"@ + user@ + "\\b"@, true)),
{
    let front = concat("^", user);
    let pattern = concat(front.as_str(), "\\b");
    Value::single("user_ref", regex_condition(pattern.as_str(), true))
}

/// The sort order of a listing by one of its two fields.
pub fn list_sort(by_update: bool, direction: i32) -> (r: Value)
    ensures
        r@ == list_sort_document(by_update, direction as int),
{
    let field = if by_update {
        "updated_at"
    } else {
        "created_at"
    };
    Value::single(field, Value::Int(direction as i64))
}

/// The greatest limit of a page: the configured number where it is given
/// and reads as one, else ten thousand.
pub fn listing_limit(configured: Option<&str>) -> (r: u64)
    ensures
        r == match configured {
            Some(text) => match crate::numeric::decimal_within(text@, 0, u64::MAX as int) {
                Some(n) => if text@[0] != '-' {
                    n as u64
                } else {
                    DEFAULT_LISTING_LIMIT
                },
                None => DEFAULT_LISTING_LIMIT,
            },
            None => DEFAULT_LISTING_LIMIT,
        },
{
    match configured {
        Some(text) => match crate::numeric::parse_u64(text) {
            Some(n) => n,
            None => DEFAULT_LISTING_LIMIT,
        },
        None => DEFAULT_LISTING_LIMIT,
    }
}

fn given<'a>(t: &'a Option<String>, default: &'a str) -> (r: &'a str)
    ensures
        r@ == text_or(*t, default@),
{
    match t {
        Some(s) => s.as_str(),
        None => default,
    }
}

impl QueryFilterParams {
    /// The filter on the rows of a dataset: none unless both a field and a
    /// value are given; else the condition that the operator, `eq` by
    /// default, and the declared type, `string` by default, make of the value.
    pub fn to_criteria(&self) -> (r: Option<Value>)
        ensures
            self.f is None || self.v is None ==> r is None,
            self.f is Some && self.v is Some ==> r is Some && exists|date: Option<i64>|
                may_read_date(self.v->0@, date) && r->0@ == #[trigger] field_criteria(
                    self.f->0@,
                    operator_of(alphanumeric_only(lowercased(text_or(self.o, "eq"@)))),
                    self.v->0@,
                    data_type_of(lowercased(text_or(self.dt, "string"@))),
                    date,
                ),
    {
        match (&self.f, &self.v) {
            (Some(field), Some(value)) => {
                let dt = CastDataType::from_str(given(&self.dt, "string"));
                let op = Operator::parse(given(&self.o, "eq"));
                let condition = field_condition(op, value.as_str(), dt);
                let key = concat("data.", field.as_str());
                let r = Value::single(key.as_str(), condition);
                proof {
                    let date = choose|date: Option<i64>|
                        may_read_date(value@, date) && condition@ == #[trigger] condition_of(
                            op,
                            value@,
                            dt,
                            date,
                        );
                    assert(r@ == field_criteria(field@, op, value@, dt, date));
                }
                Some(r)
            },
            _ => None,
        }
    }

    /// The filter of a listing of datasets: by user where a user reference
    /// is given, else by word where a word is given, else none.
    pub fn to_search_criteria(&self) -> (r: Option<Value>)
        ensures
            match r {
                Some(criteria) => search_criteria(
                    crate::engine::text_view(self.q),
                    crate::engine::text_view(self.u),
                ) == Some(criteria@),
                None => search_criteria(
                    crate::engine::text_view(self.q),
                    crate::engine::text_view(self.u),
                ) is None,
            },
    {
        match &self.u {
            Some(user) => Some(user_search(trim(user.as_str()))),
            None => match &self.q {
                Some(word) => Some(text_search(trim(word.as_str()))),
                None => None,
            },
        }
    }

    /// The sort order of rows: none unless a field is given; else that
    /// field behind `data.`, upwards unless the direction says otherwise.
    pub fn to_sort_criteria(&self) -> (r: Option<Value>)
        ensures
            match self.sort {
                Some(field) => r is Some && r->0@ == single(
                    "data."@ + field@,
                    ValueView::Int(direction_of(lowercased(trimmed(text_or(self.dir, "asc"@)))) as i64),
                ),
                None => r is None,
            },
    {
        match &self.sort {
            Some(field) => {
                let direction = match_sort_direction(given(&self.dir, "asc"));
                let key = concat("data.", field.as_str());
                Some(Value::single(key.as_str(), Value::Int(direction as i64)))
            },
            None => None,
        }
    }

    /// The sort order of a listing of datasets: by time of creation unless
    /// the sort key asks for the time of the last update, downwards unless
    /// the direction says otherwise.
    pub fn to_list_sort_criteria(&self) -> (r: Option<Value>)
        ensures
            r is Some,
            r->0@ == list_sort_document(
                sorts_by_update(text_or(self.sort, "created_at"@)),
                direction_of(lowercased(trimmed(text_or(self.dir, "desc"@)))),
            ),
    {
        let sort = given(&self.sort, "created_at");
        let by_update = starts_with_ci(sort, "updat") || starts_with_ci(sort, "modif")
            || starts_with_ci(sort, "old");
        let direction = match_sort_direction(given(&self.dir, "desc"));
        Some(list_sort(by_update, direction))
    }

    /// Where a page starts and how many rows it may hold: the start is 0 and
    /// the limit 100 where they are not given, and the limit is at most `max`.
    pub fn to_pagination(&self, max: u64) -> (r: (u64, u64))
        ensures
            r.0 == match self.start {
                Some(start) => start,
                None => 0,
            },
            r.1 == ({
                let asked = match self.limit {
                    Some(limit) => limit,
                    None => DEFAULT_PAGE_LIMIT,
                };
                if asked > max {
                    max
                } else {
                    asked
                }
            }),
            r.1 <= max,
    {
        let start = match self.start {
            Some(start) => start,
            None => 0,
        };
        let asked = match self.limit {
            Some(limit) => limit,
            None => DEFAULT_PAGE_LIMIT,
        };
        let limit = if asked > max {
            max
        } else {
            asked
        };
        (start, limit)
    }
}

} // verus!
