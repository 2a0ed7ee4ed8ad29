use dataset_store::object_id::ObjectId;
use dataset_store::timestamp::reads_back;
use dataset_store::value::{
    duplicate_fields, get_field, index_field, position_of, set_field, text_field, Field, Value,
};

fn doc(entries: Vec<(&str, Value)>) -> Value {
    Value::Document(entries.into_iter().map(|(k, v)| Field::new(k, v)).collect())
}

fn text(s: &str) -> Value {
    Value::Text(s.to_string())
}

#[test]
fn object_id_reads_both_letter_cases() {
    let id = ObjectId::from_str("65E1A2B3C4D5E6F708192A3B").unwrap();
    assert_eq!(id, ObjectId { head: 0x65e1a2b3, tail: 0xc4d5e6f708192a3b });
    assert_eq!(id.to_hex(), "65e1a2b3c4d5e6f708192a3b");
    assert_eq!(ObjectId::from_str(&id.to_hex()), Some(id));
}

#[test]
fn object_id_refuses_other_texts() {
    assert_eq!(ObjectId::from_str(""), None);
    assert_eq!(ObjectId::from_str("65e1a2b3c4d5e6f708192a3"), None);
    assert_eq!(ObjectId::from_str("65e1a2b3c4d5e6f708192a3b0"), None);
    assert_eq!(ObjectId::from_str("65e1a2b3c4d5e6f708192a3g"), None);
    assert_eq!(ObjectId::from_str("not an identifier at all"), None);
}

#[test]
fn object_id_text_is_padded() {
    assert_eq!(ObjectId { head: 0, tail: 0 }.to_hex(), "000000000000000000000000");
    assert_eq!(ObjectId { head: 1, tail: 0xff }.to_hex(), "0000000100000000000000ff");
    assert_eq!(
        ObjectId { head: u32::MAX, tail: u64::MAX }.to_hex(),
        "ffffffffffffffffffffffff"
    );
}

#[test]
fn new_object_ids_differ() {
    let a = ObjectId::new();
    let b = ObjectId::new();
    assert_ne!(a, b);
    assert_eq!(a.to_hex().len(), 24);
}

#[test]
fn from_storage_renders_identifiers_and_instants() {
    let id = ObjectId { head: 0x65e1a2b3, tail: 0xc4d5e6f708192a3b };
    assert_eq!(Value::ObjectId(id).from_storage(), text("65e1a2b3c4d5e6f708192a3b"));
    assert_eq!(Value::DateTime(0).from_storage(), text("1970-01-01T00:00:00.000Z"));
    assert_eq!(
        Value::DateTime(1_709_296_200_123).from_storage(),
        text("2024-03-01T12:30:00.123Z")
    );
    assert_eq!(Value::DateTime(-1).from_storage(), text("1969-12-31T23:59:59.999Z"));
}

#[test]
fn from_storage_recurses_and_keeps_the_rest() {
    let id = ObjectId { head: 1, tail: 2 };
    let stored = doc(vec![
        ("_id", Value::ObjectId(id)),
        ("n", Value::Int(3)),
        ("f", Value::Float("1.5".to_string())),
        ("ok", Value::Bool(true)),
        ("none", Value::Null),
        ("list", Value::Array(vec![Value::DateTime(0), text("x"), doc(vec![("at", Value::DateTime(1000))])])),
    ]);
    let shown = doc(vec![
        ("_id", text("000000010000000000000002")),
        ("n", Value::Int(3)),
        ("f", Value::Float("1.5".to_string())),
        ("ok", Value::Bool(true)),
        ("none", Value::Null),
        (
            "list",
            Value::Array(vec![
                text("1970-01-01T00:00:00.000Z"),
                text("x"),
                doc(vec![("at", text("1970-01-01T00:00:01.000Z"))]),
            ]),
        ),
    ]);
    assert_eq!(stored.from_storage(), shown);
}

#[test]
fn to_storage_reads_timestamps_under_keys() {
    let row = doc(vec![
        ("when", text("2024-03-01T12:30:00.123Z")),
        ("whole", text("2024-03-01T12:30:00Z")),
        ("name", text("Ann")),
        ("day", text("2024-03-01")),
        ("n", Value::Int(1)),
        ("inner", doc(vec![("at", text("1970-01-01T00:00:01.000Z"))])),
        ("list", Value::Array(vec![text("1970-01-01T00:00:01.000Z"), doc(vec![("at", text("1970-01-01T00:00:02Z"))])])),
    ]);
    let stored = doc(vec![
        ("when", Value::DateTime(1_709_296_200_123)),
        ("whole", Value::DateTime(1_709_296_200_000)),
        ("name", text("Ann")),
        ("day", text("2024-03-01")),
        ("n", Value::Int(1)),
        ("inner", doc(vec![("at", Value::DateTime(1000))])),
        ("list", Value::Array(vec![text("1970-01-01T00:00:01.000Z"), doc(vec![("at", Value::DateTime(2000))])])),
    ]);
    assert_eq!(row.to_storage(), stored);
    assert_eq!(text("2024-03-01T12:30:00.123Z").to_storage(), text("2024-03-01T12:30:00.123Z"));
}

#[test]
fn timestamp_round_trip() {
    for millis in [0i64, 1, 999, 1_709_296_200_123, -1, 253_402_300_799_999, -62_135_596_800_000] {
        let stored = doc(vec![("at", Value::DateTime(millis))]);
        let shown = stored.from_storage();
        assert_eq!(shown.to_storage(), stored);
        assert_eq!(shown.to_storage().from_storage(), shown);
    }
}

#[test]
fn same_and_duplicate_agree() {
    let a = doc(vec![("k", Value::Array(vec![Value::Int(1), text("x")])), ("f", Value::Float("2.0".to_string()))]);
    let b = a.duplicate();
    assert_eq!(a, b);
    assert!(a.same(&b));
    assert!(!a.same(&doc(vec![("k", Value::Array(vec![Value::Int(1)]))])));
    assert!(!Value::Int(1).same(&Value::Float("1".to_string())));
    assert!(!text("a").same(&text("b")));
    assert!(Value::Null.same(&Value::Null));
    assert!(!doc(vec![("a", Value::Int(1))]).same(&doc(vec![("b", Value::Int(1))])));
}

#[test]
fn fields_are_found_and_set_by_key() {
    let mut fields = vec![Field::new("a", Value::Int(1)), Field::new("b", Value::Int(2)), Field::new("a", Value::Int(3))];
    assert_eq!(position_of(&fields, "a"), 0);
    assert_eq!(position_of(&fields, "b"), 1);
    assert_eq!(position_of(&fields, "c"), 3);
    assert_eq!(get_field(&fields, "a"), Some(&Value::Int(1)));
    assert_eq!(get_field(&fields, "c"), None);
    set_field(&mut fields, "b", text("x"));
    set_field(&mut fields, "c", Value::Null);
    assert_eq!(
        fields,
        vec![
            Field::new("a", Value::Int(1)),
            Field::new("b", text("x")),
            Field::new("a", Value::Int(3)),
            Field::new("c", Value::Null),
        ]
    );
    assert_eq!(duplicate_fields(&fields), fields);
}

#[test]
fn texts_and_indexes_under_keys() {
    let fields = vec![
        Field::new("name", text("Ann")),
        Field::new("n", Value::Int(7)),
        Field::new("big", Value::Int(0x1_0000_0005)),
        Field::new("neg", Value::Int(-1)),
    ];
    assert_eq!(text_field(&fields, "name"), "Ann");
    assert_eq!(text_field(&fields, "n"), "");
    assert_eq!(text_field(&fields, "missing"), "");
    assert_eq!(index_field(&fields, "n"), 7);
    assert_eq!(index_field(&fields, "big"), 5);
    assert_eq!(index_field(&fields, "neg"), 0);
    assert_eq!(index_field(&fields, "name"), 0);
}

#[test]
fn timestamps_read_back_within_the_calendar() {
    let mut millis: i64 = -62_135_596_800_000;
    while millis < 253_402_300_800_000 {
        assert!(reads_back(millis), "{}", millis);
        millis += 86_400_000 * 997 + 12_345_678;
    }
    assert!(reads_back(0));
    assert!(reads_back(253_402_300_799_999));
    assert!(!reads_back(i64::MAX));
    assert!(!reads_back(i64::MIN));
}
