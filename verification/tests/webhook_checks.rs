use base64::engine::general_purpose::{STANDARD, URL_SAFE_NO_PAD};
use base64::Engine;
use hmac::{Hmac, Mac};
use sha2::Sha256;

use papra_vector_search::json::JsonValue;
use papra_vector_search::webhook::{current_unix_time, map_event, unix_seconds, verify_signature, MapError, WebhookError};

fn tag(secret: &[u8], payload: &[u8]) -> Vec<u8> {
    let mut mac = Hmac::<Sha256>::new_from_slice(secret).unwrap();
    mac.update(payload);
    mac.finalize().into_bytes().to_vec()
}

fn standard_signature(secret: &[u8], id: &str, ts: &str, body: &[u8]) -> String {
    let payload = [id.as_bytes(), b".", ts.as_bytes(), b".", body].concat();
    format!("v1,{}", STANDARD.encode(tag(secret, &payload)))
}

#[test]
fn accepts_timestamps_on_the_tolerance_boundary() {
    let sig = standard_signature(b"k", "msg", "1000", b"{}");
    assert_eq!(verify_signature(b"k", "msg", "1000", &sig, b"{}", 10, 1010), Ok(()));
    assert_eq!(verify_signature(b"k", "msg", "1000", &sig, b"{}", 10, 990), Ok(()));
    assert_eq!(
        verify_signature(b"k", "msg", "1000", &sig, b"{}", 10, 1011),
        Err(WebhookError::TimestampExpired)
    );
    assert_eq!(
        verify_signature(b"k", "msg", "1000", &sig, b"{}", 10, 989),
        Err(WebhookError::TimestampExpired)
    );
}

#[test]
fn rejects_unparsable_timestamps() {
    for ts in ["", "+", "-", "1.5", " 100", "abc", "99999999999999999999"] {
        assert_eq!(
            verify_signature(b"k", "msg", ts, "v1,AAAA", b"", 10, 100),
            Err(WebhookError::InvalidTimestamp),
            "timestamp {ts:?}"
        );
    }
}

#[test]
fn accepts_signed_timestamps_as_integers() {
    let sig = standard_signature(b"k", "msg", "+100", b"x");
    assert_eq!(verify_signature(b"k", "msg", "+100", &sig, b"x", 0, 100), Ok(()));
    let sig = standard_signature(b"k", "msg", "-5", b"x");
    assert_eq!(verify_signature(b"k", "msg", "-5", &sig, b"x", 5, 0), Ok(()));
}

#[test]
fn finds_the_v1_signature_among_several() {
    let sig = standard_signature(b"k", "msg", "7", b"body");
    let header = format!("v0,xyz \t {sig}  v2,abc");
    assert_eq!(verify_signature(b"k", "msg", "7", &header, b"body", 1, 7), Ok(()));
}

#[test]
fn accepts_url_safe_signatures_without_padding() {
    let payload = b"msg.7.body";
    let sig = format!("v1,{}", URL_SAFE_NO_PAD.encode(tag(b"k", payload)));
    assert_eq!(verify_signature(b"k", "msg", "7", &sig, b"body", 1, 7), Ok(()));
}

#[test]
fn reports_each_signature_error() {
    assert_eq!(
        verify_signature(b"k", "msg", "7", "v2,AAAA", b"body", 1, 7),
        Err(WebhookError::UnsupportedSignature)
    );
    assert_eq!(
        verify_signature(b"k", "msg", "7", "xv1,AAAA", b"body", 1, 7),
        Err(WebhookError::UnsupportedSignature)
    );
    assert_eq!(
        verify_signature(b"k", "msg", "7", "v1,@@@", b"body", 1, 7),
        Err(WebhookError::MalformedSignature)
    );
    assert_eq!(
        verify_signature(b"k", "msg", "7", "v1,AAAA", b"body", 1, 7),
        Err(WebhookError::InvalidSignature)
    );
    let sig = standard_signature(b"k", "msg", "7", b"body");
    assert_eq!(
        verify_signature(b"other", "msg", "7", &sig, b"body", 1, 7),
        Err(WebhookError::InvalidSignature)
    );
    assert_eq!(
        verify_signature(b"k", "other", "7", &sig, b"body", 1, 7),
        Err(WebhookError::InvalidSignature)
    );
}

#[test]
fn error_messages_match_the_service() {
    assert_eq!(WebhookError::InvalidTimestamp.message(), "invalid webhook timestamp");
    assert_eq!(WebhookError::TimestampExpired.message(), "webhook timestamp expired");
    assert_eq!(WebhookError::InvalidSecret.message(), "invalid webhook secret");
    assert_eq!(WebhookError::UnsupportedSignature.message(), "unsupported webhook signature");
    assert_eq!(WebhookError::MalformedSignature.message(), "malformed webhook signature");
    assert_eq!(WebhookError::InvalidSignature.message(), "invalid webhook signature");
}

fn s(v: &str) -> JsonValue {
    JsonValue::String(v.into())
}

fn obj(fields: Vec<(&str, JsonValue)>) -> JsonValue {
    JsonValue::Object(fields.into_iter().map(|(k, v)| (k.to_string(), v)).collect())
}

#[test]
fn maps_a_full_document_event() {
    let event = obj(vec![
        ("type", s("document.updated")),
        (
            "data",
            obj(vec![(
                "document",
                obj(vec![
                    ("organizationId", s("org_1")),
                    ("id", s("doc_1")),
                    ("name", s("Report")),
                    ("text", s("body text")),
                    ("contentHash", s("abc")),
                    ("tags", JsonValue::Array(vec![s("t1")])),
                    ("customProperties", obj(vec![("k", JsonValue::Number("3".into()))])),
                ]),
            )]),
        ),
    ]);
    let (kind, doc) = map_event(&event, "org_1", Some("https://papra.example//"), "now".into()).unwrap();
    assert_eq!(kind, "document.updated");
    assert_eq!(doc.organization_id, "org_1");
    assert_eq!(doc.papra_document_id, "doc_1");
    assert_eq!(doc.title.as_deref(), Some("Report"));
    assert_eq!(doc.content.as_deref(), Some("body text"));
    assert_eq!(doc.content_hash, "abc");
    assert_eq!(
        doc.embedding_input_hash,
        papra_vector_search::embeddings::embedding_input_hash("Report", "body text")
    );
    assert!(matches!(doc.tags, Some(JsonValue::Array(ref v)) if v.len() == 1));
    assert!(matches!(doc.attributes, Some(JsonValue::Object(ref v)) if v.len() == 1));
    assert_eq!(doc.source_url.as_deref(), Some("https://papra.example/documents/doc_1"));
    assert_eq!(doc.embedding_model, "all-MiniLM-L6-v2");
    assert_eq!(doc.updated_at, "now");
}

#[test]
fn computes_the_content_hash_when_absent() {
    let event = obj(vec![
        ("event_type", s("document_created")),
        ("data", obj(vec![("org_id", s("o")), ("document_id", s("d")), ("content", s("abc"))])),
    ]);
    let (_, doc) = map_event(&event, "o", None, "t".into()).unwrap();
    assert_eq!(
        doc.content_hash,
        "ba7816bf8f01cfea414140de5dae2223b00361a396177a9cb410ff61f20015ad"
    );
    assert_eq!(doc.title, None);
    assert_eq!(doc.source_url, None);
    assert_eq!(doc.embedding_input_hash, papra_vector_search::embeddings::embedding_input_hash("", "abc"));
}

#[test]
fn accepts_the_documented_update_event() {
    let event = obj(vec![
        ("type", s("document:updated")),
        ("data", obj(vec![("organizationId", s("org")), ("documentId", s("d1")), ("contentHash", s("h"))])),
    ]);
    let (kind, doc) = map_event(&event, "org", None, "now".into()).unwrap();
    assert_eq!(kind, "document:updated");
    assert_eq!(doc.papra_document_id, "d1");
    assert_eq!(doc.content_hash, "h");
    for kind in ["document:created", "document.created", "document.updated", "document_created", "document_updated"] {
        let event = obj(vec![
            ("type", s(kind)),
            ("data", obj(vec![("organizationId", s("org")), ("documentId", s("d1")), ("contentHash", s("h"))])),
        ]);
        assert!(map_event(&event, "org", None, "now".into()).is_ok(), "{kind}");
    }
}

#[test]
fn reports_each_mapping_error() {
    let cases: Vec<(JsonValue, MapError)> = vec![
        (obj(vec![]), MapError::EventTypeRequired),
        (obj(vec![("type", JsonValue::Bool(true)), ("event_type", s("document.created"))]), MapError::EventTypeRequired),
        (obj(vec![("type", s("document:deleted"))]), MapError::UnsupportedEventType),
        (obj(vec![("type", s("document.created"))]), MapError::DocumentRequired),
        (obj(vec![("type", s("document.created")), ("data", obj(vec![]))]), MapError::OrganizationRequired),
        (
            obj(vec![("type", s("document.created")), ("data", obj(vec![("organization_id", s("x"))]))]),
            MapError::OrganizationMismatch,
        ),
        (
            obj(vec![("type", s("document.created")), ("data", obj(vec![("organization_id", s("o"))]))]),
            MapError::DocumentIdRequired,
        ),
        (
            obj(vec![
                ("type", s("document.created")),
                ("data", obj(vec![("organization_id", s("o")), ("id", s("d"))])),
            ]),
            MapError::ContentHashRequired,
        ),
    ];
    for (event, expected) in cases {
        assert_eq!(map_event(&event, "o", None, "t".into()).err(), Some(expected));
    }
    assert_eq!(MapError::OrganizationMismatch.message(), "event organization is not configured organization");
    assert_eq!(MapError::ContentHashRequired.message(), "content hash or searchable text is required");
}

#[test]
fn clock_reads_a_recent_time() {
    assert!(current_unix_time() > 1_600_000_000);
}

#[test]
fn clock_readings_become_unix_seconds() {
    assert_eq!(unix_seconds(Some(1_700_000_000)), 1_700_000_000);
    assert_eq!(unix_seconds(None), 0);
    assert_eq!(unix_seconds(Some(u64::MAX)), -1);
}
