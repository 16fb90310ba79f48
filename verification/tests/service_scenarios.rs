use base64::engine::general_purpose::STANDARD;
use base64::Engine;
use hmac::{Hmac, Mac};
use sha2::Sha256;

use papra_vector_search::embeddings::{canonical_embedding_input, embedding_input_hash, MODEL_NAME};
use papra_vector_search::jobs::{JobQueue, JobStatus};
use papra_vector_search::json::JsonValue;
use papra_vector_search::storage::{needs_embedding, plan_upsert, DocumentUpsert, StoredDocument};
use papra_vector_search::webhook::verify_signature;

type HmacSha256 = Hmac<Sha256>;

#[test]
fn canonical_input_is_stable_and_title_sensitive() {
    assert_eq!(
        canonical_embedding_input("  Hello\r\n", "world\r\n"),
        "Title: Hello\n\nContent:\nworld"
    );
    assert_ne!(
        embedding_input_hash("A", "x"),
        embedding_input_hash("B", "x")
    );
    assert_eq!(
        embedding_input_hash("A", "x"),
        embedding_input_hash("A", "x")
    );
}

fn input(title: &str, hash: &str) -> DocumentUpsert {
    DocumentUpsert {
        organization_id: "org".into(),
        papra_document_id: "doc".into(),
        title: Some(title.into()),
        content: Some("body".into()),
        content_hash: hash.into(),
        embedding_input_hash: format!("{title}-{hash}"),
        tags: Some(JsonValue::Array(vec![JsonValue::String("tag".into())])),
        attributes: None,
        source_url: None,
        embedding_model: MODEL_NAME.into(),
        updated_at: "2026-01-01T00:00:00Z".into(),
    }
}

fn inserted(row: StoredDocument, id: i64) -> StoredDocument {
    StoredDocument { id, ..row }
}

#[test]
fn upsert_is_idempotent_and_updates_metadata() {
    let first = input("one", "h1");
    let plan = plan_upsert(&first, None, false, Some(3), 3).unwrap();
    let stored = inserted(plan.row, 1);
    assert!(!needs_embedding(Some(&stored), true, &first));
    let mut second = input("two", "h1");
    second.tags = Some(JsonValue::Array(vec![JsonValue::String("new".into())]));
    let plan = plan_upsert(&second, Some(stored), true, Some(3), 3).unwrap();
    let row = (plan.row.title, plan.row.content_hash, plan.row.tags);
    assert_eq!(row.0, "two");
    assert_eq!(row.1, "h1");
    assert_eq!(row.2, r#"["new"]"#);
}

#[test]
fn embedding_jobs_debounce_and_requeue_updates_during_processing() {
    let mut storage = JobQueue::new();
    storage.enqueue_embedding("doc", "2026-01-01T00:00:00Z");
    let job = storage.claim_embedding_job("2026-01-01T00:01:00Z").unwrap();
    storage.enqueue_embedding("doc", "2026-01-01T00:02:00Z");
    storage.finish_embedding_job(&job);

    let stored = storage.get("doc").unwrap();
    let row: (String, String) = (stored.status.as_str().to_string(), stored.received_at.clone());
    assert_eq!(row, ("pending".into(), "2026-01-01T00:02:00Z".into()));
    assert_eq!(stored.status, JobStatus::Pending);
}

#[test]
fn verifies_signature_and_rejects_modified_body() {
    let body = br#"{"ok":true}"#;
    let mut mac = HmacSha256::new_from_slice(b"secret").unwrap();
    mac.update(b"id.100.");
    mac.update(body);
    let sig = format!("v1,{}", STANDARD.encode(mac.finalize().into_bytes()));
    assert!(verify_signature(b"secret", "id", "100", &sig, body, 10, 100).is_ok());
    assert!(verify_signature(b"secret", "id", "100", &sig, b"bad", 10, 100).is_err());
    assert!(verify_signature(b"secret", "id", "0", &sig, body, 10, 100).is_err());
}

#[test]
fn canonical_input_ignores_trimming_and_line_endings() {
    let title = " \r\nQuarterly\r\nreport\r ";
    let content = "\tline one\r\nline two\rline three\n";
    let expected = canonical_embedding_input(title, content);
    assert_eq!(expected, "Title: Quarterly\nreport\n\nContent:\nline one\nline two\nline three");
    assert_eq!(canonical_embedding_input(title.trim(), content.trim()), expected);
    let norm = |s: &str| s.replace("\r\n", "\n").replace('\r', "\n");
    assert_eq!(canonical_embedding_input(&norm(title), &norm(content)), expected);
}
