use refield::json::JsonValue;
use refield::process::DocDecision;
use refield::process::display_doc_id;
use refield::process::process_batch;
use refield::process::process_document;
use refield::update::UpdateError;
use refield::update::prepare_update;
use refield::update::update_outcome;

fn obj(pairs: Vec<(&str, JsonValue)>) -> JsonValue {
    JsonValue::Object(pairs.into_iter().map(|(k, v)| (k.to_string(), v)).collect())
}

fn stored_doc(id: &str, rev: &str, field: &str, n: i64) -> JsonValue {
    obj(vec![
        ("_id", JsonValue::Str(id.to_string())),
        ("_rev", JsonValue::Str(rev.to_string())),
        (field, JsonValue::Int(n)),
    ])
}

fn path(segs: &[&str]) -> Vec<String> {
    segs.iter().map(|s| s.to_string()).collect()
}

#[test]
fn test_update_outcome_statuses() {
    assert!(update_outcome(200).is_ok());
    assert!(update_outcome(201).is_ok());
    assert!(matches!(update_outcome(409), Err(UpdateError::Conflict)));
    assert!(matches!(
        update_outcome(500),
        Err(UpdateError::Rejected(500))
    ));
    assert!(matches!(
        update_outcome(404),
        Err(UpdateError::Rejected(404))
    ));
}

#[test]
fn test_prepare_update_reads_id_and_rev() {
    let doc = stored_doc("doc-1", "3-abc", "amount", 5);
    let req = prepare_update(&doc).expect("id and rev are present");
    assert_eq!(req.id, "doc-1");
    assert_eq!(req.rev, "3-abc");
    assert_eq!(req.encoded_id, "doc-1");
}

#[test]
fn test_prepare_update_percent_encodes_id() {
    let doc = stored_doc("a/b c", "1-x", "amount", 5);
    let req = prepare_update(&doc).expect("id and rev are present");
    assert_eq!(req.id, "a/b c");
    assert_eq!(req.encoded_id, "a%2Fb%20c");
}

#[test]
fn test_prepare_update_missing_id() {
    let doc = obj(vec![("_rev", JsonValue::Str("1-x".to_string()))]);
    assert!(matches!(prepare_update(&doc), Err(UpdateError::MissingId)));
}

#[test]
fn test_prepare_update_missing_rev() {
    let doc = obj(vec![("_id", JsonValue::Str("doc-1".to_string()))]);
    assert!(matches!(prepare_update(&doc), Err(UpdateError::MissingRev)));
}

#[test]
fn test_display_doc_id_falls_back_to_placeholder() {
    let doc = obj(vec![("x", JsonValue::Int(1))]);
    assert_eq!(display_doc_id(&doc), "<unknown>");
    let named = stored_doc("doc-9", "1-a", "x", 1);
    assert_eq!(display_doc_id(&named), "doc-9");
}

#[test]
fn test_process_document_decisions() {
    let old_path = path(&["amount"]);

    let mut hit = stored_doc("doc-1", "1-a", "amount", 10);
    match process_document(&mut hit, &old_path, "total", false) {
        DocDecision::Update(req) => {
            assert_eq!(req.id, "doc-1");
            assert_eq!(req.rev, "1-a");
        }
        _ => panic!("a matching document must be updated"),
    }

    let mut miss = stored_doc("doc-2", "1-b", "other", 10);
    assert!(matches!(
        process_document(&mut miss, &old_path, "total", false),
        DocDecision::FieldNotFound
    ));

    let mut dry = stored_doc("doc-3", "1-c", "amount", 10);
    assert!(matches!(
        process_document(&mut dry, &old_path, "total", true),
        DocDecision::WouldUpdate
    ));

    let mut unwritable = obj(vec![("amount", JsonValue::Int(10))]);
    assert!(matches!(
        process_document(&mut unwritable, &old_path, "total", false),
        DocDecision::UpdateInvalid(UpdateError::MissingId)
    ));
}

#[test]
fn test_write_conflict_does_not_stop_siblings() {
    let old_path = path(&["amount"]);
    let mut docs = vec![
        stored_doc("doc-1", "1-a", "amount", 1),
        stored_doc("doc-2", "1-b", "amount", 2),
        stored_doc("doc-3", "1-c", "amount", 3),
    ];

    let decisions = process_batch(&mut docs, &old_path, "total", false);
    assert_eq!(decisions.len(), 3);
    for d in &decisions {
        assert!(matches!(d, DocDecision::Update(_)));
    }

    // The store answers the three writes: the second revision is stale.
    let statuses = [200u16, 409, 201];
    let mut succeeded = 0;
    let mut conflicts = 0;
    for (d, status) in decisions.iter().zip(statuses.iter()) {
        if let DocDecision::Update(_) = d {
            match update_outcome(*status) {
                Ok(()) => succeeded += 1,
                Err(UpdateError::Conflict) => conflicts += 1,
                Err(_) => panic!("no other failure was simulated"),
            }
        }
    }
    assert_eq!(succeeded, 2, "the conflict must not stop sibling updates");
    assert_eq!(conflicts, 1, "the conflict is reported for its document");
}

#[test]
fn test_dry_run_performs_zero_writes() {
    let old_path = path(&["amount"]);
    let mut docs = vec![
        stored_doc("doc-1", "1-a", "amount", 1),
        stored_doc("doc-2", "1-b", "amount", 2),
        stored_doc("doc-3", "1-c", "other", 3),
        stored_doc("doc-4", "1-d", "amount", 4),
    ];

    let decisions = process_batch(&mut docs, &old_path, "total", true);
    assert_eq!(decisions.len(), 4);
    let writes = decisions
        .iter()
        .filter(|d| matches!(d, DocDecision::Update(_)))
        .count();
    assert_eq!(writes, 0, "dry-run mode must never ask for a write");
    assert!(matches!(decisions[0], DocDecision::WouldUpdate));
    assert!(matches!(decisions[2], DocDecision::FieldNotFound));
}
