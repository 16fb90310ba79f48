use papra_vector_search::api::SearchOutcome;
use papra_vector_search::api::{
    callback_html, clear_state_cookie, cookie_value, route_name, state_cookie, validate_webhook_payload,
    webhook_document, webhook_headers, BatchEmbeddingRequest, OidcCallbackQuery, OidcLoginQuery, SearchQuery,
    ApiError, BAD_REQUEST, UNAUTHORIZED,
};
use papra_vector_search::json::JsonValue;
use papra_vector_search::papra_api::{document_api_path, papra_upsert, PapraDocument};
use papra_vector_search::telemetry::{log_format, LogFormat};

#[test]
fn routes_are_normalized() {
    assert_eq!(route_name("GET", "/api/search"), "/api/search");
    assert_eq!(route_name("POST", "/webhook/papra"), "/webhook/papra");
    assert_eq!(route_name("POST", "/api/embeddings/batch"), "/api/embeddings/batch");
    assert_eq!(route_name("GET", "/health"), "/health");
    assert_eq!(route_name("GET", "/api/search/extra"), "/");
    assert_eq!(route_name("GET", "/ui"), "/");
}

#[test]
fn cookie_values_are_found_by_name() {
    assert_eq!(cookie_value("a=1; oidc_state=abc=def ; b=2", "oidc_state").as_deref(), Some("abc=def"));
    assert_eq!(cookie_value("oidc_state", "oidc_state"), None);
    assert_eq!(cookie_value("x=1;oidc_state=first;oidc_state=second", "oidc_state").as_deref(), Some("first"));
    assert_eq!(cookie_value("", "oidc_state"), None);
}

#[test]
fn search_parameters_are_validated() {
    let q = SearchQuery { q: Some("  hello  ".into()), limit: None };
    assert_eq!(q.validate(20).unwrap(), ("hello".to_string(), 20));
    let q = SearchQuery { q: Some("x".repeat(1000)), limit: Some(100) };
    assert_eq!(q.validate(20).unwrap().1, 100);
    let err = SearchQuery { q: Some("x".repeat(1001)), limit: None }.validate(20).unwrap_err();
    assert_eq!((err.status, err.message.as_str()), (BAD_REQUEST, "q must contain 1 to 1,000 characters"));
    let err = SearchQuery { q: None, limit: None }.validate(20).unwrap_err();
    assert_eq!(err.message, "q must contain 1 to 1,000 characters");
    let err = SearchQuery { q: Some("ok".into()), limit: Some(0) }.validate(20).unwrap_err();
    assert_eq!(err.message, "limit must be between 1 and 100");
    let q = SearchQuery { q: Some("ok".into()), limit: Some(101) };
    assert_eq!(q.validate(20).unwrap(), ("ok".to_string(), 100));
    let q = SearchQuery { q: Some("ok".into()), limit: Some(usize::MAX) };
    assert_eq!(q.validate(20).unwrap().1, 100);
    let q = SearchQuery { q: Some("ok".into()), limit: None };
    assert_eq!(q.validate(250).unwrap().1, 100);
}

#[test]
fn batches_need_non_empty_ids() {
    assert!(BatchEmbeddingRequest { document_ids: vec!["a".into(), "b".into()] }.validate().is_ok());
    let err = BatchEmbeddingRequest { document_ids: vec![] }.validate().unwrap_err();
    assert_eq!(err.message, "document_ids must contain at least one non-empty ID");
    assert!(BatchEmbeddingRequest { document_ids: vec!["a".into(), " \t".into()] }.validate().is_err());
}

#[test]
fn login_and_callback_rules() {
    assert!(OidcLoginQuery { format: Some("json".into()) }.wants_json());
    assert!(!OidcLoginQuery { format: Some("JSON".into()) }.wants_json());
    assert!(!OidcLoginQuery { format: None }.wants_json());
    assert_eq!(state_cookie("s1"), "oidc_state=s1; Path=/oidc; HttpOnly; SameSite=Lax; Max-Age=600");
    assert_eq!(clear_state_cookie(), "oidc_state=; Path=/oidc; HttpOnly; SameSite=Lax; Max-Age=0");
    let q = |code: Option<&str>, state: Option<&str>, error: Option<&str>| OidcCallbackQuery {
        code: code.map(String::from),
        state: state.map(String::from),
        error: error.map(String::from),
    };
    assert_eq!(q(Some("c"), Some("s1"), None).check(Some("oidc_state=s1")).unwrap(), "c");
    let e = q(Some("c"), Some("s1"), Some("denied")).check(Some("oidc_state=s1")).unwrap_err();
    assert_eq!((e.status, e.message.as_str()), (UNAUTHORIZED, "OIDC authorization was denied"));
    let e = q(None, Some("s1"), None).check(Some("oidc_state=s1")).unwrap_err();
    assert_eq!((e.status, e.message.as_str()), (BAD_REQUEST, "missing OAuth authorization code"));
    let e = q(Some("c"), None, None).check(Some("oidc_state=s1")).unwrap_err();
    assert_eq!((e.status, e.message.as_str()), (BAD_REQUEST, "missing OAuth state"));
    let e = q(Some("c"), Some("s1"), None).check(None).unwrap_err();
    assert_eq!((e.status, e.message.as_str()), (UNAUTHORIZED, "missing OAuth state cookie"));
    let e = q(Some("c"), Some("s1"), None).check(Some("oidc_state=s2")).unwrap_err();
    assert_eq!((e.status, e.message.as_str()), (UNAUTHORIZED, "invalid OAuth state"));
}

#[test]
fn callback_page_escapes_the_payload() {
    let html = callback_html(r#"{"id_token":"a<b>&c"}"#);
    assert!(html.starts_with("<!doctype html><meta charset=\"utf-8\"><title>Signing in…</title><p>Completing sign-in…</p><script>const tokens = "));
    assert!(html.contains(r#"const tokens = {"id_token":"a\u003cb\u003e\u0026c"};if (window.opener)"#));
    assert!(html.ends_with("'Sign-in complete. You can close this window.'; }</script>"));
}

#[test]
fn webhook_headers_are_required() {
    let some = |v: &str| Some(v.to_string());
    assert_eq!(
        webhook_headers(some("i"), some("t"), None, some("legacy")).unwrap(),
        ("i".to_string(), "t".to_string(), "legacy".to_string())
    );
    assert_eq!(webhook_headers(some("i"), some("t"), some("v1,x"), some("legacy")).unwrap().2, "v1,x");
    let e: ApiError = webhook_headers(None, some("t"), some("s"), None).unwrap_err();
    assert_eq!((e.status, e.message.as_str()), (BAD_REQUEST, "missing or invalid webhook-id header"));
    let e = webhook_headers(some("i"), None, some("s"), None).unwrap_err();
    assert_eq!((e.status, e.message.as_str()), (BAD_REQUEST, "missing or invalid webhook-timestamp header"));
    let e = webhook_headers(some("i"), some("t"), None, None).unwrap_err();
    assert_eq!((e.status, e.message.as_str()), (UNAUTHORIZED, "missing webhook signature"));
    assert_eq!(ApiError::internal().message, "internal server error");
}

fn obj(fields: Vec<(&str, JsonValue)>) -> JsonValue {
    JsonValue::Object(fields.into_iter().map(|(k, v)| (k.to_string(), v)).collect())
}

#[test]
fn queued_webhooks_name_a_document_of_the_organization() {
    let payload = obj(vec![(
        "data",
        obj(vec![
            ("documentId", JsonValue::String("doc_a8".into())),
            ("notes", JsonValue::String("test update".into())),
            ("organizationId", JsonValue::String("org_iw".into())),
        ]),
    )]);
    assert_eq!(webhook_document(&payload, "org_iw").unwrap(), ("doc_a8".to_string(), "org_iw".to_string()));
    assert!(validate_webhook_payload(&payload, "org_iw").is_ok());
    let err = webhook_document(&payload, "org_other").unwrap_err();
    assert_eq!(err.message(), "webhook organization org_iw does not match configured organization org_other");
    assert_eq!(webhook_document(&obj(vec![]), "o").unwrap_err().message(), "missing data field in webhook payload");
    let no_doc = obj(vec![("data", obj(vec![("organizationId", JsonValue::String("o".into()))]))]);
    assert_eq!(webhook_document(&no_doc, "o").unwrap_err().message(), "missing documentId in webhook payload");
    let no_org = obj(vec![("data", obj(vec![("documentId", JsonValue::String("d".into()))]))]);
    assert_eq!(webhook_document(&no_org, "o").unwrap_err().message(), "missing organizationId in webhook payload");
}

#[test]
fn fetched_documents_become_upserts() {
    assert_eq!(document_api_path("org", "doc"), "organizations/org/documents/doc");
    let doc = PapraDocument {
        id: "doc".into(),
        name: Some("Title".into()),
        organization_id: "org".into(),
        created_at: None,
        updated_at: None,
        content: Some("abc".into()),
    };
    let up = papra_upsert("org", "doc", &doc, "now".into());
    assert_eq!(up.content_hash, "ba7816bf8f01cfea414140de5dae2223b00361a396177a9cb410ff61f20015ad");
    assert_eq!(up.embedding_input_hash, papra_vector_search::embeddings::embedding_input_hash("Title", "abc"));
    let empty = PapraDocument { name: None, content: None, ..doc };
    assert_eq!(papra_upsert("org", "doc", &empty, "now".into()).content_hash, "");
}

#[test]
fn log_format_is_chosen_case_insensitively() {
    assert_eq!(log_format(None), LogFormat::Pretty);
    assert_eq!(log_format(Some("JSON")), LogFormat::Json);
    assert_eq!(log_format(Some("Human")), LogFormat::Pretty);
    assert_eq!(log_format(Some("xml")), LogFormat::Unknown);
}

#[test]
fn search_outcomes_have_their_labels() {
    assert_eq!(SearchOutcome::Success.label(), "success");
    assert_eq!(SearchOutcome::InvalidQuery.label(), "invalid_query");
    assert_eq!(SearchOutcome::Unauthorized.label(), "unauthorized");
    assert_eq!(SearchOutcome::Error.label(), "error");
}
