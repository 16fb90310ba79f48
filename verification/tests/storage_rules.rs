use papra_vector_search::embeddings::{content_hash, embedding_input_hash, MODEL_NAME};
use papra_vector_search::storage::{
    check_query_dimension, check_schema, needs_embedding, plan_upsert, resolve_input, DocumentUpsert,
    StorageError, StoredDocument,
};

fn upsert(title: Option<&str>, content: Option<&str>, input_hash: &str) -> DocumentUpsert {
    DocumentUpsert {
        organization_id: "org".into(),
        papra_document_id: "doc".into(),
        title: title.map(String::from),
        content: content.map(String::from),
        content_hash: "h".into(),
        embedding_input_hash: input_hash.into(),
        tags: None,
        attributes: None,
        source_url: Some("https://x/doc".into()),
        embedding_model: MODEL_NAME.into(),
        updated_at: "t2".into(),
    }
}

fn stored() -> StoredDocument {
    StoredDocument {
        id: 7,
        title: "old title".into(),
        content: "old content".into(),
        content_hash: "h0".into(),
        embedding_input_hash: "e0".into(),
        tags: r#"["a"]"#.into(),
        attributes: "{}".into(),
        source_url: None,
        embedding_model: MODEL_NAME.into(),
        created_at: "t0".into(),
        updated_at: "t1".into(),
        content_updated_at: "t1".into(),
        embedding_updated_at: "t1".into(),
    }
}

fn copy(row: &StoredDocument) -> StoredDocument {
    StoredDocument {
        id: row.id,
        title: row.title.clone(),
        content: row.content.clone(),
        content_hash: row.content_hash.clone(),
        embedding_input_hash: row.embedding_input_hash.clone(),
        tags: row.tags.clone(),
        attributes: row.attributes.clone(),
        source_url: row.source_url.clone(),
        embedding_model: row.embedding_model.clone(),
        created_at: row.created_at.clone(),
        updated_at: row.updated_at.clone(),
        content_updated_at: row.content_updated_at.clone(),
        embedding_updated_at: row.embedding_updated_at.clone(),
    }
}

#[test]
fn new_document_gets_defaults_and_an_embedding() {
    let plan = plan_upsert(&upsert(Some("T"), Some("C"), "e1"), None, false, Some(4), 4).unwrap();
    assert_eq!(plan.row.id, 0);
    assert_eq!(plan.row.tags, "[]");
    assert_eq!(plan.row.attributes, "{}");
    assert_eq!(plan.row.created_at, "t2");
    assert_eq!(plan.row.content_updated_at, "t2");
    assert!(plan.content_changed && plan.embedding_changed);
}

#[test]
fn new_document_needs_title_content_and_vector() {
    assert!(matches!(
        plan_upsert(&upsert(None, Some("C"), "e1"), None, false, Some(4), 4),
        Err(StorageError::TitleRequired)
    ));
    assert!(matches!(
        plan_upsert(&upsert(Some("T"), None, "e1"), None, false, Some(4), 4),
        Err(StorageError::ContentRequired)
    ));
    assert!(matches!(
        plan_upsert(&upsert(Some("T"), Some("C"), "e1"), None, false, None, 4),
        Err(StorageError::EmbeddingRequired)
    ));
    let err = plan_upsert(&upsert(Some("T"), Some("C"), "e1"), None, false, Some(3), 4).unwrap_err();
    assert_eq!(err.message(), "embedding dimension 3 does not match 4");
    assert_eq!(StorageError::TitleRequired.message(), "title is required for a new document");
}

#[test]
fn other_models_are_refused() {
    let mut input = upsert(Some("T"), Some("C"), "e1");
    input.embedding_model = "other".into();
    let err = plan_upsert(&input, None, false, Some(4), 4).unwrap_err();
    assert!(matches!(err, StorageError::UnsupportedModel));
    assert_eq!(err.message(), "unsupported embedding model");
}

#[test]
fn update_keeps_omitted_fields_and_marks_changes() {
    let plan = plan_upsert(&upsert(None, None, "e0"), Some(stored()), true, None, 4).unwrap();
    assert_eq!(plan.row.id, 7);
    assert_eq!(plan.row.title, "old title");
    assert_eq!(plan.row.content, "old content");
    assert_eq!(plan.row.tags, r#"["a"]"#);
    assert_eq!(plan.row.source_url.as_deref(), Some("https://x/doc"));
    assert_eq!(plan.row.created_at, "t0");
    assert_eq!(plan.row.updated_at, "t2");
    assert!(plan.content_changed);
    assert_eq!(plan.row.content_updated_at, "t2");
    assert!(!plan.embedding_changed);
    assert_eq!(plan.row.embedding_updated_at, "t1");
}

#[test]
fn missing_vector_forces_an_embedding() {
    let plan = plan_upsert(&upsert(None, None, "e0"), Some(stored()), false, Some(4), 4).unwrap();
    assert!(plan.embedding_changed);
    assert!(needs_embedding(Some(&stored()), false, &upsert(None, None, "e0")));
    assert!(!needs_embedding(Some(&stored()), true, &upsert(None, None, "e0")));
    assert!(needs_embedding(Some(&stored()), true, &upsert(None, None, "e1")));
    assert!(needs_embedding(None, true, &upsert(None, None, "e0")));
}

#[test]
fn second_identical_upsert_changes_nothing() {
    let input = upsert(Some("T"), Some("C"), "e1");
    let first = plan_upsert(&input, Some(stored()), true, Some(4), 4).unwrap();
    assert!(first.embedding_changed);
    let written = copy(&first.row);
    let second = plan_upsert(&input, Some(written), true, None, 4).unwrap();
    assert!(!second.content_changed);
    assert!(!second.embedding_changed);
    assert_eq!(second.row.title, first.row.title);
    assert_eq!(second.row.content_updated_at, first.row.content_updated_at);
    assert_eq!(second.row.embedding_updated_at, first.row.embedding_updated_at);
    assert_eq!(second.row.tags, first.row.tags);
}

#[test]
fn resolve_input_fills_from_the_stored_row() {
    let mut input = upsert(Some("New"), None, "stale");
    resolve_input(Some(&stored()), &mut input).unwrap();
    assert_eq!(input.title.as_deref(), Some("New"));
    assert_eq!(input.content.as_deref(), Some("old content"));
    assert_eq!(input.embedding_input_hash, embedding_input_hash("New", "old content"));
    let mut fresh = upsert(Some("New"), None, "stale");
    let err = resolve_input(None, &mut fresh).unwrap_err();
    assert_eq!(err.message(), "title and searchable text are required for a new document");
    let mut complete = upsert(Some("A"), Some("B"), "x");
    resolve_input(None, &mut complete).unwrap();
    assert_eq!(complete.embedding_input_hash, "x");
}

#[test]
fn schema_must_match_model_and_dimension() {
    assert!(check_schema(None, None, MODEL_NAME, 384).is_ok());
    assert!(check_schema(Some(MODEL_NAME.into()), Some("384".into()), MODEL_NAME, 384).is_ok());
    let err = check_schema(Some("other".into()), None, MODEL_NAME, 384).unwrap_err();
    assert_eq!(err.message(), "database embedding model other is incompatible with all-MiniLM-L6-v2");
    let err = check_schema(None, Some("512".into()), MODEL_NAME, 384).unwrap_err();
    assert_eq!(err.message(), "database embedding dimension 512 is incompatible with 384");
    assert!(check_query_dimension(3, 3).is_ok());
    assert_eq!(check_query_dimension(2, 3).unwrap_err().message(), "query embedding dimension mismatch");
}

#[test]
fn hashes_are_lowercase_sha256_hex() {
    assert_eq!(content_hash(""), "e3b0c44298fc1c149afbf4c8996fb92427ae41e4649b934ca495991b7852b855");
    assert_eq!(content_hash("abc"), "ba7816bf8f01cfea414140de5dae2223b00361a396177a9cb410ff61f20015ad");
    assert_eq!(embedding_input_hash("A", "x").len(), 64);
}
