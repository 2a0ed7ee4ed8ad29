use dataset_store::object_id::ObjectId;
use dataset_store::options::{CoreOptions, DataSetMatcher, ReplaceMode};
use dataset_store::value::{Field, Value};

fn doc(entries: Vec<(&str, Value)>) -> Value {
    Value::Document(entries.into_iter().map(|(k, v)| Field::new(k, v)).collect())
}

fn text(s: &str) -> Value {
    Value::Text(s.to_string())
}

#[test]
fn replace_mode_precedence() {
    assert_eq!(ReplaceMode::new(true, true), ReplaceMode::Append);
    assert_eq!(ReplaceMode::new(true, false), ReplaceMode::Append);
    assert_eq!(ReplaceMode::new(false, true), ReplaceMode::ReplaceImport);
    assert_eq!(ReplaceMode::new(false, false), ReplaceMode::ReplaceAll);
}

#[test]
fn matcher_by_name_and_index() {
    let m = DataSetMatcher::from_name_index("sales.xlsx", 2);
    assert_eq!(m, DataSetMatcher::NameIndex("sales.xlsx".to_string(), 2));
    assert_eq!(
        m.to_criteria(),
        doc(vec![("name", text("sales.xlsx")), ("sheet_index", Value::Int(2))])
    );
    assert_eq!(m.duplicate(), m);
}

#[test]
fn matcher_by_identifier() {
    let m = DataSetMatcher::from_id("65e1a2b3c4d5e6f708192a3b");
    assert_eq!(m, DataSetMatcher::Id("65e1a2b3c4d5e6f708192a3b".to_string()));
    assert_eq!(
        m.to_criteria(),
        doc(vec![("_id", Value::ObjectId(ObjectId { head: 0x65e1a2b3, tail: 0xc4d5e6f708192a3b }))])
    );
    assert_eq!(DataSetMatcher::from_id("nope").to_criteria(), doc(vec![("_id", Value::Null)]));
}

#[test]
fn options_document_with_defaults() {
    let o = CoreOptions::default();
    assert_eq!(
        o.to_json_value(),
        doc(vec![
            ("filename", text("")),
            ("title", text("")),
            ("description", text("")),
            ("user_ref", text("")),
            ("sheet_index", Value::Int(0)),
            ("header_index", Value::Int(0)),
            ("mode", text("sync")),
            ("append", Value::Bool(false)),
            ("lines", Value::Null),
        ])
    );
    assert!(!o.append_mode());
}

#[test]
fn options_document_with_everything() {
    let o = CoreOptions {
        filename: Some("sales.xlsx".to_string()),
        title: Some("Sales".to_string()),
        description: Some("Monthly".to_string()),
        user_ref: Some("u17".to_string()),
        mode: Some("preview".to_string()),
        max: Some(50),
        keys: Some("id,name".to_string()),
        cols: Some("id,height:float".to_string()),
        sheet_index: Some(2),
        header_index: Some(1),
        dataset_id: Some("65e1a2b3c4d5e6f708192a3b".to_string()),
        import_id: Some("65e1a2b3c4d5e6f708192a3c".to_string()),
        append: Some(true),
        lines: Some(false),
        data_pk: Some("id".to_string()),
    };
    assert_eq!(
        o.to_json_value(),
        doc(vec![
            ("filename", text("sales.xlsx")),
            ("title", text("Sales")),
            ("description", text("Monthly")),
            ("user_ref", text("u17")),
            ("sheet_index", Value::Int(2)),
            ("header_index", Value::Int(1)),
            ("mode", text("preview")),
            ("append", Value::Bool(true)),
            ("lines", Value::Bool(false)),
            ("keys", Value::Array(vec![text("id"), text("name")])),
            ("columns", Value::Array(vec![text("id"), text("height:float")])),
            ("dataset_id", text("65e1a2b3c4d5e6f708192a3b")),
            ("import_id", text("65e1a2b3c4d5e6f708192a3c")),
            ("data_pk", text("id")),
        ])
    );
    assert!(o.append_mode());
}

#[test]
fn options_document_leaves_empty_lists_out() {
    let o = CoreOptions {
        keys: Some(String::new()),
        cols: Some(String::new()),
        append: Some(false),
        ..Default::default()
    };
    let Value::Document(fields) = o.to_json_value() else { panic!("no document") };
    assert_eq!(fields.len(), 9);
    assert!(!o.append_mode());
}

#[test]
fn options_of_an_upload() {
    let o = CoreOptions::for_upload(
        Some("a.csv".to_string()),
        Some("sync".to_string()),
        Some(10),
        Some("a,b".to_string()),
        Some(0),
        None,
        Some(1),
        None,
    );
    assert_eq!(o.filename.as_deref(), Some("a.csv"));
    assert_eq!(o.lines, Some(false));
    assert_eq!(o.dataset_id, None);
    assert_eq!(o.append, None);
    let with_lines =
        CoreOptions::for_upload(None, None, None, None, Some(3), None, None, None);
    assert_eq!(with_lines.lines, Some(true));
    assert_eq!(with_lines.max, None);
}
