use dataset_store::dataset::{Dataset, ImportEntry, Row};
use dataset_store::engine::{
    position_of_import, row_key_criteria, row_update, DatasetPatch, Fresh, ImportChange, Phase,
    RowScope, SaveReceipt, SaveSession, Step, StoreReply, StoreRequest,
};
use dataset_store::object_id::ObjectId;
use dataset_store::options::{CoreOptions, DataSetMatcher};
use dataset_store::store::MemoryStore;
use dataset_store::value::{Field, Value};

fn doc(entries: Vec<(&str, Value)>) -> Value {
    Value::Document(entries.into_iter().map(|(k, v)| Field::new(k, v)).collect())
}

fn text(s: &str) -> Value {
    Value::Text(s.to_string())
}

fn oid(n: u64) -> ObjectId {
    ObjectId { head: 7, tail: n }
}

fn fresh(n: u64) -> Fresh {
    Fresh { dataset_id: oid(n), import_id: oid(n + 1), now: 1_000 * n as i64 }
}

fn options(name: &str) -> Value {
    CoreOptions {
        filename: Some(name.to_string()),
        title: Some("Title".to_string()),
        sheet_index: Some(1),
        ..Default::default()
    }
    .to_json_value()
}

fn keyed_options(name: &str) -> Value {
    CoreOptions {
        filename: Some(name.to_string()),
        sheet_index: Some(1),
        data_pk: Some("id".to_string()),
        ..Default::default()
    }
    .to_json_value()
}

fn people(names: &[(i64, &str)]) -> Vec<Value> {
    names.iter().map(|(id, name)| doc(vec![("id", Value::Int(*id)), ("name", text(name))])).collect()
}

fn rows_of(store: &MemoryStore, dataset: ObjectId) -> Vec<&Row> {
    store.rows.iter().filter(|r| r.dataset_id == dataset).collect()
}

fn parse(id: &str) -> ObjectId {
    ObjectId::from_str(id).unwrap()
}

#[test]
fn a_save_begins_by_looking_for_its_dataset() {
    let (session, step) = SaveSession::begin_with(&options("a.csv"), &people(&[(1, "Ann")]), None, false, fresh(10));
    assert_eq!(session.phase, Phase::Lookup);
    assert_eq!(session.name, "a.csv");
    assert_eq!(session.title, "Title");
    assert_eq!(session.sheet_index, 1);
    assert_eq!(session.data_pk, None);
    assert_eq!(session.import_id, None);
    assert!(!session.import_supplied);
    assert_eq!(
        step,
        Step::Ask(StoreRequest::FindDataset(DataSetMatcher::NameIndex("a.csv".to_string(), 1)))
    );
    let kept: Vec<&str> = session.options.iter().map(|f| f.key.as_str()).collect();
    assert_eq!(kept, vec!["sheet_index", "header_index", "mode", "append", "lines"]);
}

#[test]
fn a_valid_dataset_identifier_takes_precedence() {
    let given = CoreOptions {
        filename: Some("a.csv".to_string()),
        dataset_id: Some("65e1a2b3c4d5e6f708192a3b".to_string()),
        ..Default::default()
    };
    let (_, step) = SaveSession::begin_with(&given.to_json_value(), &vec![], None, false, fresh(10));
    assert_eq!(
        step,
        Step::Ask(StoreRequest::FindDataset(DataSetMatcher::Id("65e1a2b3c4d5e6f708192a3b".to_string())))
    );
    let broken = CoreOptions {
        filename: Some("a.csv".to_string()),
        sheet_index: Some(3),
        dataset_id: Some("nonsense".to_string()),
        ..Default::default()
    };
    let (_, step) = SaveSession::begin_with(&broken.to_json_value(), &vec![], None, false, fresh(10));
    assert_eq!(
        step,
        Step::Ask(StoreRequest::FindDataset(DataSetMatcher::NameIndex("a.csv".to_string(), 3)))
    );
}

#[test]
fn options_that_are_no_document_count_as_empty() {
    let (session, step) = SaveSession::begin_with(&Value::Null, &vec![], None, true, fresh(10));
    assert_eq!(session.name, "");
    assert_eq!(
        step,
        Step::Ask(StoreRequest::FindDataset(DataSetMatcher::NameIndex(String::new(), 0)))
    );
}

#[test]
fn a_new_dataset_is_added_with_one_import() {
    let rows = people(&[(1, "Ann"), (2, "Bob")]);
    let (mut session, _) = SaveSession::begin_with(&options("a.csv"), &rows, None, false, fresh(10));
    let step = session.advance(StoreReply::Found(None));
    let Step::Ask(StoreRequest::InsertDataset(d)) = step else { panic!("no insert") };
    assert_eq!(d.id, oid(10));
    assert_eq!(d.name, "a.csv");
    assert_eq!(d.title, "Title");
    assert_eq!(d.sheet_index, 1);
    assert_eq!(d.created_at, 10_000);
    assert_eq!(d.updated_at, None);
    assert_eq!(
        d.imports,
        vec![ImportEntry { id: oid(11), dt: 10_000, filename: "a.csv".to_string(), sheet_index: 1 }]
    );
    assert_eq!(session.phase, Phase::Writing);
    let step = session.advance(StoreReply::Done);
    assert_eq!(step, Step::Ask(StoreRequest::DeleteRows(RowScope::Dataset(oid(10)))));
    let step = session.advance(StoreReply::Done);
    let Step::Ask(StoreRequest::InsertRows(written)) = step else { panic!("no rows") };
    assert_eq!(written.len(), 2);
    assert_eq!(written[0], Row { dataset_id: oid(10), import_id: oid(11), data: rows[0].duplicate() });
    let step = session.advance(StoreReply::Done);
    assert_eq!(
        step,
        Step::Finish(Some(SaveReceipt { dataset_id: oid(10), import_id: oid(11), rows: 2 }))
    );
    assert_eq!(session.phase, Phase::Finished);
    assert_eq!(session.advance(StoreReply::Done), Step::Finish(None));
}

fn found() -> Dataset {
    Dataset {
        id: oid(1),
        user_ref: "u".to_string(),
        name: "old.csv".to_string(),
        title: "Old".to_string(),
        description: String::new(),
        sheet_index: 1,
        options: vec![],
        imports: vec![
            ImportEntry { id: oid(2), dt: 5, filename: "old.csv".to_string(), sheet_index: 1 },
            ImportEntry { id: oid(3), dt: 6, filename: "old.csv".to_string(), sheet_index: 1 },
        ],
        created_at: 5,
        updated_at: None,
    }
}

#[test]
fn a_found_dataset_gets_another_import() {
    let (mut session, _) = SaveSession::begin_with(&options("a.csv"), &vec![], None, true, fresh(10));
    let step = session.advance(StoreReply::Found(Some(found())));
    let Step::Ask(StoreRequest::UpdateDataset { id, patch, import }) = step else { panic!("no update") };
    assert_eq!(id, oid(1));
    assert_eq!(patch.name, "a.csv");
    assert_eq!(patch.title, "Title");
    assert_eq!(patch.updated_at, 10_000);
    assert_eq!(
        import,
        ImportChange::Append(ImportEntry { id: oid(11), dt: 10_000, filename: "a.csv".to_string(), sheet_index: 1 })
    );
    let step = session.advance(StoreReply::Done);
    assert_eq!(
        step,
        Step::Finish(Some(SaveReceipt { dataset_id: oid(1), import_id: oid(11), rows: 0 }))
    );
}

#[test]
fn a_named_import_is_replaced_in_place() {
    let named = oid(3).to_hex();
    let (mut session, _) =
        SaveSession::begin_with(&options("a.csv"), &people(&[(1, "Ann")]), Some(&named), false, fresh(10));
    assert_eq!(session.import_id, Some(oid(3)));
    let step = session.advance(StoreReply::Found(Some(found())));
    let Step::Ask(StoreRequest::UpdateDataset { import, .. }) = step else { panic!("no update") };
    assert_eq!(
        import,
        ImportChange::Replace(ImportEntry { id: oid(3), dt: 10_000, filename: "a.csv".to_string(), sheet_index: 1 })
    );
    let step = session.advance(StoreReply::Done);
    assert_eq!(step, Step::Ask(StoreRequest::DeleteRows(RowScope::Import(oid(3)))));
}

#[test]
fn an_unknown_or_malformed_import_is_appended() {
    for named in [oid(99).to_hex(), "garbage".to_string()] {
        let (mut session, _) =
            SaveSession::begin_with(&options("a.csv"), &vec![], Some(&named), false, fresh(10));
        let step = session.advance(StoreReply::Found(Some(found())));
        let Step::Ask(StoreRequest::UpdateDataset { import, .. }) = step else { panic!("no update") };
        assert!(matches!(import, ImportChange::Append(e) if e.id == oid(11)));
        let step = session.advance(StoreReply::Done);
        assert_eq!(step, Step::Ask(StoreRequest::DeleteRows(RowScope::Import(oid(11)))));
    }
}

#[test]
fn a_failure_before_the_rows_ends_the_save() {
    let (mut session, _) = SaveSession::begin_with(&options("a.csv"), &people(&[(1, "Ann")]), None, false, fresh(10));
    assert_eq!(session.advance(StoreReply::Failed), Step::Finish(None));
    let (mut session, _) = SaveSession::begin_with(&options("a.csv"), &people(&[(1, "Ann")]), None, false, fresh(10));
    session.advance(StoreReply::Found(None));
    assert_eq!(session.advance(StoreReply::Failed), Step::Finish(None));
    assert_eq!(session.phase, Phase::Finished);
}

#[test]
fn a_failed_bulk_insert_counts_no_row() {
    let (mut session, _) = SaveSession::begin_with(&options("a.csv"), &people(&[(1, "Ann")]), None, true, fresh(10));
    session.advance(StoreReply::Found(None));
    let step = session.advance(StoreReply::Done);
    assert!(matches!(step, Step::Ask(StoreRequest::InsertRows(_))));
    assert_eq!(
        session.advance(StoreReply::Failed),
        Step::Finish(Some(SaveReceipt { dataset_id: oid(10), import_id: oid(11), rows: 0 }))
    );
}

#[test]
fn keyed_rows_are_updated_or_added_one_by_one() {
    let rows = vec![
        doc(vec![("id", Value::Int(1)), ("name", text("Ann"))]),
        doc(vec![("name", text("Nameless"))]),
        doc(vec![("id", Value::Int(3))]),
    ];
    let (mut session, _) = SaveSession::begin_with(&keyed_options("a.csv"), &rows, None, true, fresh(10));
    assert_eq!(session.data_pk.as_deref(), Some("id"));
    session.advance(StoreReply::Found(None));
    let step = session.advance(StoreReply::Done);
    let Step::Ask(StoreRequest::UpdateRow { key, value, row }) = step else { panic!("no update") };
    assert_eq!((key.as_str(), &value), ("id", &Value::Int(1)));
    assert_eq!(row.data, rows[0]);
    assert_eq!(session.phase, Phase::Updating(0));
    let step = session.advance(StoreReply::Matched(true));
    let Step::Ask(StoreRequest::InsertRow(row)) = step else { panic!("no insert") };
    assert_eq!(row.data, rows[1]);
    assert_eq!(session.phase, Phase::Inserting(1));
    let step = session.advance(StoreReply::Failed);
    assert!(matches!(step, Step::Ask(StoreRequest::UpdateRow { .. })));
    let step = session.advance(StoreReply::Matched(false));
    let Step::Ask(StoreRequest::InsertRow(row)) = step else { panic!("no insert") };
    assert_eq!(row.data, rows[2]);
    assert_eq!(session.phase, Phase::Inserting(2));
    assert_eq!(
        session.advance(StoreReply::Done),
        Step::Finish(Some(SaveReceipt { dataset_id: oid(10), import_id: oid(11), rows: 2 }))
    );
}

#[test]
fn begin_draws_new_identifiers() {
    let (a, _) = SaveSession::begin(&options("a.csv"), &vec![], None, false);
    let (b, _) = SaveSession::begin(&options("a.csv"), &vec![], None, false);
    assert_ne!(a.fresh.dataset_id, a.fresh.import_id);
    assert_ne!(a.fresh.dataset_id, b.fresh.dataset_id);
    assert!(a.fresh.now > 1_600_000_000_000);
}

#[test]
fn same_name_and_sheet_resolve_to_one_dataset() {
    let mut store = MemoryStore::new();
    let first = store
        .save_import_with_rows(&options("a.csv"), &people(&[(1, "Ann")]), None, false)
        .unwrap();
    let second = store
        .save_import_with_rows(&options("a.csv"), &people(&[(2, "Bob")]), None, false)
        .unwrap();
    assert_eq!(first.0, second.0);
    assert_ne!(first.1, second.1);
    assert_eq!(store.datasets.len(), 1);
    let imports: Vec<ObjectId> = store.datasets[0].imports.iter().map(|e| e.id).collect();
    assert_eq!(imports, vec![parse(&first.1), parse(&second.1)]);
    assert!(store.datasets[0].updated_at.is_some());
    let other = store
        .save_import_with_rows(&options("b.csv"), &people(&[(3, "Cy")]), None, false)
        .unwrap();
    assert_ne!(other.0, first.0);
    assert_eq!(store.datasets.len(), 2);
}

#[test]
fn an_echoed_import_is_replaced_not_added() {
    let mut store = MemoryStore::new();
    let first = store
        .save_import_with_rows(&options("a.csv"), &people(&[(1, "Ann"), (2, "Bob")]), None, false)
        .unwrap();
    let second = store
        .save_import_with_rows(&options("a.csv"), &people(&[(3, "Cy")]), Some(&first.1), false)
        .unwrap();
    assert_eq!((second.0.as_str(), second.1.as_str(), second.2), (first.0.as_str(), first.1.as_str(), 1));
    assert_eq!(store.datasets[0].imports.len(), 1);
    assert_eq!(store.rows.len(), 1);
    assert_eq!(store.rows[0].data, people(&[(3, "Cy")])[0]);
}

#[test]
fn replace_all_leaves_only_the_second_batch() {
    let mut store = MemoryStore::new();
    store.save_import_with_rows_using(&options("other.csv"), &people(&[(9, "Zed")]), None, false, fresh(50));
    let r1 = people(&[(1, "Ann"), (2, "Bob"), (3, "Cy")]);
    let r2 = people(&[(4, "Dee"), (5, "Eve")]);
    let first = store.save_import_with_rows_using(&options("a.csv"), &r1, None, false, fresh(10)).unwrap();
    assert_eq!(first.2, 3);
    let second = store.save_import_with_rows_using(&options("a.csv"), &r2, None, false, fresh(20)).unwrap();
    assert_eq!(second.2, 2);
    assert_eq!(second.0, first.0);
    let kept = rows_of(&store, oid(10));
    assert_eq!(kept.len(), r2.len());
    assert!(kept.iter().all(|r| r.import_id == oid(21)));
    assert_eq!(kept.iter().map(|r| &r.data).collect::<Vec<_>>(), r2.iter().collect::<Vec<_>>());
    assert_eq!(rows_of(&store, oid(50)).len(), 1);
}

#[test]
fn append_adds_every_row() {
    let mut store = MemoryStore::new();
    store.save_import_with_rows_using(&options("a.csv"), &people(&[(1, "Ann")]), None, false, fresh(10));
    let more = people(&[(2, "Bob"), (3, "Cy"), (1, "Ann")]);
    let receipt = store.save_import_with_rows_using(&options("a.csv"), &more, None, true, fresh(20)).unwrap();
    assert_eq!(receipt.2, 3);
    assert_eq!(store.rows.len(), 4);
    assert_eq!(rows_of(&store, oid(10)).len(), 4);
    let keyed = people(&[(7, "Gus"), (8, "Hal")]);
    let receipt = store.save_import_with_rows_using(&keyed_options("a.csv"), &keyed, None, true, fresh(30)).unwrap();
    assert_eq!(receipt.2, 2);
    assert_eq!(store.rows.len(), 6);
}

#[test]
fn a_keyed_row_is_updated_in_place() {
    let mut store = MemoryStore::new();
    store.save_import_with_rows_using(&options("a.csv"), &people(&[(1, "Ann"), (2, "Bob"), (3, "Cy")]), None, false, fresh(10));
    let receipt = store
        .save_import_with_rows_using(&keyed_options("a.csv"), &people(&[(2, "Robert")]), None, true, fresh(20))
        .unwrap();
    assert_eq!(receipt.2, 1);
    assert_eq!(store.rows.len(), 3);
    assert_eq!(rows_of(&store, oid(10)).len(), 3);
    assert_eq!(store.rows[1].data, people(&[(2, "Robert")])[0]);
    assert_eq!(store.rows[1].import_id, oid(21));
    assert_eq!(store.rows[0].data, people(&[(1, "Ann")])[0]);
    assert_eq!(store.rows[0].import_id, oid(11));
    let receipt = store
        .save_import_with_rows_using(&keyed_options("a.csv"), &people(&[(4, "Dee"), (4, "Di")]), None, true, fresh(30))
        .unwrap();
    assert_eq!(receipt.2, 2);
    assert_eq!(store.rows.len(), 4);
    assert_eq!(store.rows[3].data, people(&[(4, "Di")])[0]);
}

#[test]
fn replace_import_clears_only_that_import() {
    let mut store = MemoryStore::new();
    store.save_import_with_rows_using(&options("a.csv"), &people(&[(1, "Ann")]), None, false, fresh(10));
    store.save_import_with_rows_using(&options("a.csv"), &people(&[(2, "Bob")]), None, true, fresh(20));
    assert_eq!(store.rows.len(), 2);
    let named = oid(11).to_hex();
    let receipt = store
        .save_import_with_rows_using(&options("a.csv"), &people(&[(3, "Cy"), (4, "Dee")]), Some(&named), false, fresh(30))
        .unwrap();
    assert_eq!(receipt.1, named);
    let imports: Vec<ObjectId> = store.rows.iter().map(|r| r.import_id).collect();
    assert_eq!(imports, vec![oid(21), oid(11), oid(11)]);
    assert_eq!(store.datasets[0].imports.len(), 2);
    assert_eq!(store.datasets[0].imports[0].dt, 30_000);
}

#[test]
fn rows_are_stored_with_their_timestamps_read() {
    let mut store = MemoryStore::new();
    let rows = vec![doc(vec![("at", text("2024-03-01T12:30:00.123Z")), ("n", Value::Int(1))])];
    store.save_import_with_rows_using(&options("a.csv"), &rows, None, false, fresh(10));
    assert_eq!(
        store.rows[0].data,
        doc(vec![("at", Value::DateTime(1_709_296_200_123)), ("n", Value::Int(1))])
    );
}

#[test]
fn the_store_answers_each_request() {
    let mut store = MemoryStore::new();
    let matcher = || DataSetMatcher::from_name_index("old.csv", 1);
    assert_eq!(store.execute(StoreRequest::FindDataset(matcher())), StoreReply::Found(None));
    assert_eq!(store.execute(StoreRequest::InsertDataset(found())), StoreReply::Done);
    assert_eq!(store.execute(StoreRequest::FindDataset(matcher())), StoreReply::Found(Some(found())));
    assert_eq!(
        store.execute(StoreRequest::FindDataset(DataSetMatcher::from_id(&oid(1).to_hex()))),
        StoreReply::Found(Some(found()))
    );
    assert_eq!(
        store.execute(StoreRequest::FindDataset(DataSetMatcher::from_name_index("old.csv", 2))),
        StoreReply::Found(None)
    );
    let patch = || DatasetPatch {
        name: "new.csv".to_string(),
        title: "New".to_string(),
        description: "d".to_string(),
        options: vec![Field::new("mode", text("sync"))],
        updated_at: 9,
    };
    let entry = |id: u64| ImportEntry { id: oid(id), dt: 9, filename: "new.csv".to_string(), sheet_index: 1 };
    let absent = StoreRequest::UpdateDataset { id: oid(1), patch: patch(), import: ImportChange::Replace(entry(77)) };
    assert_eq!(store.execute(absent), StoreReply::Done);
    assert_eq!(store.datasets[0], found());
    let replace = StoreRequest::UpdateDataset { id: oid(1), patch: patch(), import: ImportChange::Replace(entry(2)) };
    assert_eq!(store.execute(replace), StoreReply::Done);
    assert_eq!(store.datasets[0].name, "new.csv");
    assert_eq!(store.datasets[0].user_ref, "u");
    assert_eq!(store.datasets[0].updated_at, Some(9));
    assert_eq!(store.datasets[0].imports[0], entry(2));
    assert_eq!(store.datasets[0].imports[1].dt, 6);
    let row = |d: u64, i: u64, id: i64| Row { dataset_id: oid(d), import_id: oid(i), data: doc(vec![("id", Value::Int(id))]) };
    assert_eq!(store.execute(StoreRequest::InsertRows(vec![row(1, 2, 1), row(1, 3, 2)])), StoreReply::Done);
    assert_eq!(store.execute(StoreRequest::InsertRow(row(5, 6, 3))), StoreReply::Done);
    let update = StoreRequest::UpdateRow { key: "id".to_string(), value: Value::Int(2), row: row(1, 4, 20) };
    assert_eq!(store.execute(update), StoreReply::Matched(true));
    assert_eq!(store.rows[1], row(1, 4, 20));
    let miss = StoreRequest::UpdateRow { key: "id".to_string(), value: Value::Int(2), row: row(1, 4, 21) };
    assert_eq!(store.execute(miss), StoreReply::Matched(false));
    assert_eq!(store.execute(StoreRequest::DeleteRows(RowScope::Import(oid(2)))), StoreReply::Done);
    assert_eq!(store.rows, vec![row(1, 4, 20), row(5, 6, 3)]);
    assert_eq!(store.execute(StoreRequest::DeleteRows(RowScope::Dataset(oid(1)))), StoreReply::Done);
    assert_eq!(store.rows, vec![row(5, 6, 3)]);
}

#[test]
fn requests_as_documents_of_the_store() {
    assert_eq!(RowScope::Dataset(oid(1)).to_criteria(), doc(vec![("dataset_id", Value::ObjectId(oid(1)))]));
    assert_eq!(RowScope::Import(oid(2)).to_criteria(), doc(vec![("import_id", Value::ObjectId(oid(2)))]));
    assert_eq!(row_key_criteria("id", &Value::Int(4)), doc(vec![("data.id", Value::Int(4))]));
    let row = Row { dataset_id: oid(1), import_id: oid(2), data: doc(vec![("id", Value::Int(4))]) };
    let stored = doc(vec![
        ("dataset_id", Value::ObjectId(oid(1))),
        ("import_id", Value::ObjectId(oid(2))),
        ("data", doc(vec![("id", Value::Int(4))])),
    ]);
    assert_eq!(row.to_document(), stored);
    assert_eq!(row_update(&row), doc(vec![("$set", row.to_document())]));
    let entry = ImportEntry { id: oid(3), dt: 9, filename: "a.csv".to_string(), sheet_index: 1 };
    let entry_doc = doc(vec![
        ("_id", Value::ObjectId(oid(3))),
        ("dt", Value::DateTime(9)),
        ("filename", text("a.csv")),
        ("sheet_index", Value::Int(1)),
    ]);
    assert_eq!(entry.to_document(), entry_doc);
    let patch = DatasetPatch {
        name: "a.csv".to_string(),
        title: "T".to_string(),
        description: "D".to_string(),
        options: vec![Field::new("mode", text("sync"))],
        updated_at: 9,
    };
    let set = vec![
        ("name", text("a.csv")),
        ("title", text("T")),
        ("description", text("D")),
        ("options", doc(vec![("mode", text("sync"))])),
        ("updated_at", Value::DateTime(9)),
    ];
    let append = ImportChange::Append(entry.duplicate());
    assert_eq!(append.to_criteria(oid(1)), doc(vec![("_id", Value::ObjectId(oid(1)))]));
    assert_eq!(
        patch.to_update(&append),
        doc(vec![("$set", doc(set.iter().map(|(k, v)| (*k, v.duplicate())).collect())), ("$push", doc(vec![("imports", entry.to_document())]))])
    );
    let replace = ImportChange::Replace(entry.duplicate());
    assert_eq!(
        replace.to_criteria(oid(1)),
        doc(vec![("_id", Value::ObjectId(oid(1))), ("imports._id", Value::ObjectId(oid(3)))])
    );
    let mut with_import: Vec<(&str, Value)> = set.iter().map(|(k, v)| (*k, v.duplicate())).collect();
    with_import.push(("imports.$", entry.to_document()));
    assert_eq!(patch.to_update(&replace), doc(vec![("$set", doc(with_import))]));
}

#[test]
fn datasets_as_documents_and_back() {
    let mut d = found();
    d.options = vec![Field::new("mode", text("sync"))];
    let stored = d.to_document();
    let Value::Document(fields) = &stored else { panic!("no document") };
    let keys: Vec<&str> = fields.iter().map(|f| f.key.as_str()).collect();
    assert_eq!(
        keys,
        vec!["_id", "user_ref", "name", "title", "description", "sheet_index", "options", "imports", "created_at"]
    );
    assert_eq!(Dataset::from_document(&stored), Some(found_with_options()));
    d.updated_at = Some(77);
    let stored = d.to_document();
    let Value::Document(fields) = &stored else { panic!("no document") };
    assert_eq!(fields.last().unwrap(), &Field::new("updated_at", Value::DateTime(77)));
    assert_eq!(Dataset::from_document(&stored), Some(d));
    assert_eq!(Dataset::from_document(&Value::Null), None);
    assert_eq!(Dataset::from_document(&doc(vec![("name", text("x"))])), None);
    let sparse = doc(vec![
        ("_id", Value::ObjectId(oid(1))),
        ("imports", Value::Array(vec![Value::Int(1), doc(vec![("_id", Value::ObjectId(oid(2)))])])),
    ]);
    let read = Dataset::from_document(&sparse).unwrap();
    assert_eq!(read.name, "");
    assert_eq!(read.created_at, 0);
    assert_eq!(read.imports, vec![ImportEntry { id: oid(2), dt: 0, filename: String::new(), sheet_index: 0 }]);
    assert_eq!(position_of_import(&read.imports, oid(2)), 0);
    assert_eq!(position_of_import(&read.imports, oid(3)), 1);
    assert_eq!(ImportEntry::from_document(&doc(vec![("dt", Value::DateTime(1))])), None);
}

fn found_with_options() -> Dataset {
    let mut d = found();
    d.options = vec![Field::new("mode", text("sync"))];
    d
}
