use refield::fetch::FetchDocument;
use refield::fetch::FetchPhase;
use refield::fetch::MetadataFetchError;
use refield::fetch::PageFetchError;
use refield::json::JsonValue;

fn obj(pairs: Vec<(&str, JsonValue)>) -> JsonValue {
    JsonValue::Object(pairs.into_iter().map(|(k, v)| (k.to_string(), v)).collect())
}

fn new_scan(limit: usize) -> FetchDocument {
    FetchDocument::new(
        "http://localhost:5984".to_string(),
        "transactions".to_string(),
        limit,
    )
}

#[test]
fn test_scan_of_2500_documents_takes_three_pages() {
    let mut fd = new_scan(1000);
    fd.start();
    assert!(fd.phase == FetchPhase::Probing);

    let meta = obj(vec![
        ("doc_count", JsonValue::Int(2500)),
        ("props", obj(vec![("partitioned", JsonValue::Bool(false))])),
    ]);
    fd.on_metadata(200, Some(&meta)).expect("probe succeeds");
    assert!(fd.phase == FetchPhase::Fetching);
    assert_eq!(fd.doc_count, 2500);

    let total: u64 = 2500;
    let mut served: u64 = 0;
    let mut requests: u64 = 0;
    let mut batch_sizes: Vec<u64> = Vec::new();
    while fd.wants_page() {
        requests += 1;
        let remaining = total - served;
        let batch = remaining.min(1000);
        let docs: Vec<JsonValue> = (0..batch)
            .map(|k| {
                obj(vec![(
                    "_id",
                    JsonValue::Str(format!("doc-{}", served + k)),
                )])
            })
            .collect();
        served += batch;
        let body = obj(vec![
            ("docs", JsonValue::Array(docs)),
            ("bookmark", JsonValue::Str(format!("cursor-{}", requests))),
        ]);
        let page = fd.on_page(200, Some(body)).expect("page fetch succeeds");
        batch_sizes.push(page.len() as u64);
    }

    assert_eq!(requests, 3, "2500 documents at page size 1000 take 3 requests");
    assert_eq!(batch_sizes, vec![1000, 1000, 500]);
    assert!(fd.phase == FetchPhase::Done);
    assert_eq!(fd.total_fetched, 2500);
    assert_eq!(fd.pages_fetched, 3);
    assert_eq!(fd.bookmark, Some("cursor-3".to_string()));
}

#[test]
fn test_scan_of_exact_multiple_ends_on_empty_page() {
    let mut fd = new_scan(1000);
    fd.start();
    let meta = obj(vec![("doc_count", JsonValue::Int(2000))]);
    fd.on_metadata(200, Some(&meta)).expect("probe succeeds");

    let total: u64 = 2000;
    let mut served: u64 = 0;
    let mut requests: u64 = 0;
    while fd.wants_page() {
        requests += 1;
        let batch = (total - served).min(1000);
        let docs: Vec<JsonValue> = (0..batch).map(|_| obj(vec![])).collect();
        served += batch;
        let body = obj(vec![("docs", JsonValue::Array(docs))]);
        fd.on_page(200, Some(body)).expect("page fetch succeeds");
    }

    assert_eq!(requests, 3, "a full final page forces one extra, empty request");
    assert_eq!(fd.total_fetched, 2000);
    assert!(fd.phase == FetchPhase::Done);
}

#[test]
fn test_metadata_defaults_when_fields_absent() {
    let mut fd = new_scan(100);
    fd.start();
    let meta = obj(vec![("other", JsonValue::Null)]);
    fd.on_metadata(200, Some(&meta)).expect("absence is not an error");
    assert!(!fd.is_partitioned);
    assert_eq!(fd.doc_count, 0);
    assert!(fd.phase == FetchPhase::Fetching);
}

#[test]
fn test_metadata_partitioned_flag_is_read() {
    let mut fd = new_scan(100);
    fd.start();
    let meta = obj(vec![
        ("props", obj(vec![("partitioned", JsonValue::Bool(true))])),
        ("doc_count", JsonValue::Int(42)),
    ]);
    fd.on_metadata(200, Some(&meta)).expect("probe succeeds");
    assert!(fd.is_partitioned);
    assert_eq!(fd.doc_count, 42);
}

#[test]
fn test_metadata_bad_status_aborts_scan() {
    let mut fd = new_scan(100);
    fd.start();
    let meta = obj(vec![]);
    match fd.on_metadata(404, Some(&meta)) {
        Err(MetadataFetchError::BadStatus(status)) => assert_eq!(status, 404),
        _ => panic!("a non-success status must abort the scan"),
    }
    assert!(fd.phase == FetchPhase::Failed);
}

#[test]
fn test_metadata_unparsable_body_aborts_scan() {
    let mut fd = new_scan(100);
    fd.start();
    match fd.on_metadata(200, None) {
        Err(MetadataFetchError::UnparsableBody) => {}
        _ => panic!("an unparsable body must abort the scan"),
    }
    assert!(fd.phase == FetchPhase::Failed);
}

#[test]
fn test_page_without_docs_field_aborts_scan() {
    let mut fd = new_scan(100);
    fd.start();
    fd.on_metadata(200, Some(&obj(vec![]))).expect("probe succeeds");
    let body = obj(vec![("bookmark", JsonValue::Str("c".to_string()))]);
    match fd.on_page(200, Some(body)) {
        Err(PageFetchError::MissingDocs) => {}
        _ => panic!("a page without a docs array must abort the scan"),
    }
    assert!(fd.phase == FetchPhase::Failed);
}

#[test]
fn test_page_unparsable_body_aborts_scan() {
    let mut fd = new_scan(100);
    fd.start();
    fd.on_metadata(200, Some(&obj(vec![]))).expect("probe succeeds");
    match fd.on_page(200, None) {
        Err(PageFetchError::UnparsableBody) => {}
        _ => panic!("an unparsable page body must abort the scan"),
    }
    assert!(fd.phase == FetchPhase::Failed);
}

#[test]
fn test_page_bad_status_aborts_scan() {
    let mut fd = new_scan(100);
    fd.start();
    fd.on_metadata(200, Some(&obj(vec![]))).expect("probe succeeds");
    match fd.on_page(500, Some(obj(vec![]))) {
        Err(PageFetchError::BadStatus(status)) => assert_eq!(status, 500),
        _ => panic!("a non-success status must abort the scan"),
    }
    assert!(fd.phase == FetchPhase::Failed);
}
