use dataset_store::object_id::ObjectId;
use dataset_store::query::{
    dataset_criteria, effective_limit, payloads, projection, rows_criteria, show_all, FetchPhase,
    FetchReply, FetchRequest, FetchSession, FetchStep, RowSet,
};
use dataset_store::value::{Field, Value};

fn doc(entries: Vec<(&str, Value)>) -> Value {
    Value::Document(entries.into_iter().map(|(k, v)| Field::new(k, v)).collect())
}

fn text(s: &str) -> Value {
    Value::Text(s.to_string())
}

fn oid(n: u64) -> ObjectId {
    ObjectId { head: 7, tail: n }
}

#[test]
fn limits_for_the_store() {
    assert_eq!(effective_limit(0), 10_000_000);
    assert_eq!(effective_limit(1), 1);
    assert_eq!(effective_limit(100), 100);
    assert_eq!(effective_limit(i64::MAX as u64), i64::MAX);
    assert_eq!(effective_limit(u64::MAX), i64::MAX);
}

#[test]
fn projections_name_each_field_once() {
    let names = vec!["a".to_string(), "b".to_string(), "a".to_string()];
    assert_eq!(projection(&names), doc(vec![("a", Value::Int(1)), ("b", Value::Int(1))]));
    assert_eq!(projection(&vec![]), doc(vec![]));
}

#[test]
fn a_dataset_is_looked_up_by_a_valid_identifier_only() {
    assert_eq!(
        dataset_criteria(&oid(1).to_hex()),
        Some(doc(vec![("_id", Value::ObjectId(oid(1)))]))
    );
    assert_eq!(dataset_criteria("nope"), None);
    assert_eq!(dataset_criteria(""), None);
}

#[test]
fn rows_are_scoped_to_dataset_and_import() {
    assert_eq!(rows_criteria(oid(1), None, None), doc(vec![("dataset_id", Value::ObjectId(oid(1)))]));
    assert_eq!(
        rows_criteria(oid(1), Some(&oid(2).to_hex()), None),
        doc(vec![("dataset_id", Value::ObjectId(oid(1))), ("import_id", Value::ObjectId(oid(2)))])
    );
    assert_eq!(
        rows_criteria(oid(1), Some("garbage"), None),
        doc(vec![("dataset_id", Value::ObjectId(oid(1)))])
    );
}

#[test]
fn only_document_fragments_are_merged() {
    let filter = doc(vec![
        ("data.age", doc(vec![("$gt", Value::Int(3))])),
        ("scalar", Value::Int(1)),
        ("dataset_id", doc(vec![("$exists", Value::Bool(true))])),
        ("data.name", doc(vec![("$eq", text("Ann"))])),
    ]);
    assert_eq!(
        rows_criteria(oid(1), None, Some(&filter)),
        doc(vec![
            ("dataset_id", doc(vec![("$exists", Value::Bool(true))])),
            ("data.age", doc(vec![("$gt", Value::Int(3))])),
            ("data.name", doc(vec![("$eq", text("Ann"))])),
        ])
    );
    assert_eq!(
        rows_criteria(oid(1), None, Some(&Value::Int(3))),
        doc(vec![("dataset_id", Value::ObjectId(oid(1)))])
    );
}

#[test]
fn payloads_are_unwrapped() {
    let rows = vec![
        doc(vec![("dataset_id", Value::ObjectId(oid(1))), ("data", doc(vec![("n", Value::Int(1))]))]),
        doc(vec![("dataset_id", Value::ObjectId(oid(1)))]),
        doc(vec![("data", Value::Int(5))]),
        Value::Null,
        doc(vec![("data", doc(vec![]))]),
    ];
    assert_eq!(payloads(&rows), vec![doc(vec![("n", Value::Int(1))]), doc(vec![])]);
}

#[test]
fn a_row_set_is_shown_to_the_client() {
    let dataset = doc(vec![("_id", Value::ObjectId(oid(1))), ("created_at", Value::DateTime(0))]);
    let rows = vec![doc(vec![("at", Value::DateTime(1000)), ("n", Value::Int(1))])];
    let set = RowSet::new(&dataset, &rows, 12, 10, 0);
    assert_eq!(
        set,
        RowSet {
            dataset: doc(vec![
                ("_id", text("000000070000000000000001")),
                ("created_at", text("1970-01-01T00:00:00.000Z")),
            ]),
            rows: Value::Array(vec![doc(vec![("at", text("1970-01-01T00:00:01.000Z")), ("n", Value::Int(1))])]),
            total: 12,
            limit: 10,
            skip: 0,
        }
    );
}

#[test]
fn a_row_set_counts_its_rows_where_the_store_did_not() {
    let dataset = doc(vec![("_id", Value::ObjectId(oid(1)))]);
    let found = vec![
        doc(vec![("data", doc(vec![("n", Value::Int(1))]))]),
        doc(vec![("nothing", Value::Null)]),
        doc(vec![("data", doc(vec![("n", Value::Int(2))]))]),
    ];
    let counted = RowSet::assemble(&dataset, &found, Some(40), 10, 20);
    assert_eq!((counted.total, counted.limit, counted.skip), (40, 10, 20));
    let own = RowSet::assemble(&dataset, &found, None, 10, 20);
    assert_eq!(own.total, 2);
    assert_eq!(
        own.rows,
        Value::Array(vec![doc(vec![("n", Value::Int(1))]), doc(vec![("n", Value::Int(2))])])
    );
}

#[test]
fn a_query_ends_at_once_on_a_malformed_identifier() {
    let (session, step) = FetchSession::begin("nope", None, None, 10, 0, None);
    assert_eq!(session.phase, FetchPhase::Finished);
    assert_eq!(step, FetchStep::Finish(None));
}

#[test]
fn a_query_looks_for_the_dataset_and_then_for_its_rows() {
    let filter = doc(vec![("data.n", doc(vec![("$gt", Value::Int(0))])), ("x", Value::Int(1))]);
    let sort = doc(vec![("data.n", Value::Int(-1))]);
    let (mut session, step) = FetchSession::begin(
        &oid(1).to_hex(),
        Some(&oid(2).to_hex()),
        Some(filter),
        0,
        20,
        Some(sort.duplicate()),
    );
    assert_eq!(step, FetchStep::Ask(FetchRequest::FindDataset(doc(vec![("_id", Value::ObjectId(oid(1)))]))));
    let dataset = doc(vec![("_id", Value::ObjectId(oid(1))), ("name", text("a.csv"))]);
    let step = session.advance(FetchReply::Dataset(Some(dataset)));
    assert_eq!(
        step,
        FetchStep::Ask(FetchRequest::FindRows {
            criteria: doc(vec![
                ("dataset_id", Value::ObjectId(oid(1))),
                ("import_id", Value::ObjectId(oid(2))),
                ("data.n", doc(vec![("$gt", Value::Int(0))])),
            ]),
            limit: 10_000_000,
            skip: 20,
            sort: Some(sort),
        })
    );
    let found = vec![doc(vec![("data", doc(vec![("n", Value::Int(5)), ("at", Value::DateTime(0))]))])];
    let step = session.advance(FetchReply::Rows(found, Some(31)));
    assert_eq!(
        step,
        FetchStep::Finish(Some(RowSet {
            dataset: doc(vec![("_id", text("000000070000000000000001")), ("name", text("a.csv"))]),
            rows: Value::Array(vec![doc(vec![("n", Value::Int(5)), ("at", text("1970-01-01T00:00:00.000Z"))])]),
            total: 31,
            limit: 0,
            skip: 20,
        }))
    );
    assert_eq!(session.phase, FetchPhase::Finished);
    assert_eq!(session.advance(FetchReply::Rows(vec![], None)), FetchStep::Finish(None));
}

#[test]
fn a_query_ends_without_rows_where_the_dataset_is_missing() {
    let (mut session, _) = FetchSession::begin(&oid(1).to_hex(), None, None, 10, 0, None);
    assert_eq!(session.advance(FetchReply::Dataset(None)), FetchStep::Finish(None));
    let (mut session, _) = FetchSession::begin(&oid(1).to_hex(), None, None, 10, 0, None);
    assert_eq!(session.advance(FetchReply::Failed), FetchStep::Finish(None));
    let (mut session, _) = FetchSession::begin(&oid(1).to_hex(), None, None, 10, 0, None);
    assert_eq!(session.advance(FetchReply::Rows(vec![], None)), FetchStep::Finish(None));
}

#[test]
fn listed_documents_are_shown_to_the_client() {
    let found = vec![
        doc(vec![("_id", Value::ObjectId(oid(1))), ("created_at", Value::DateTime(1000))]),
        doc(vec![("_id", Value::ObjectId(oid(2)))]),
    ];
    assert_eq!(
        show_all(&found),
        vec![
            doc(vec![("_id", text("000000070000000000000001")), ("created_at", text("1970-01-01T00:00:01.000Z"))]),
            doc(vec![("_id", text("000000070000000000000002"))]),
        ]
    );
    assert_eq!(show_all(&vec![]), vec![]);
}
