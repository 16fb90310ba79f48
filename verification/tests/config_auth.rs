use base64::engine::general_purpose::URL_SAFE_NO_PAD;
use base64::Engine;

use papra_vector_search::auth::{require_key_id, AuthError, Authenticator, Claims};
use papra_vector_search::config::{allowed_emails, Config, ConfigError, EnvironmentValues, Variable};

fn env() -> EnvironmentValues {
    EnvironmentValues {
        database_url: Some("sqlite://data/papra.db".into()),
        sqlite_vec_extension_path: Some("./vec0.so".into()),
        papra_webhook_secret: Some("whsec".into()),
        papra_organization_id: Some("org_1".into()),
        google_client_id: Some("client-id".into()),
        google_client_secret: Some("client-secret".into()),
        google_redirect_uri: Some("http://localhost:3000/oidc/callback".into()),
        google_issuer: Some("https://accounts.google.com".into()),
        google_allowed_emails: Some(" Alice@Example.com, bob@example.com ,,alice@example.com".into()),
        auth_enabled: None,
        papra_base_url: None,
        webhook_timestamp_tolerance_seconds: None,
        search_result_limit: None,
        otel_exporter_otlp_endpoint: None,
    }
}

#[test]
fn defaults_apply_when_optional_values_are_unset() {
    let c = Config::from_env(&env()).unwrap();
    assert_eq!(c.webhook_timestamp_tolerance_seconds, 300);
    assert_eq!(c.search_result_limit, 20);
    assert!(c.auth_enabled);
    assert_eq!(c.google_allowed_emails, vec!["alice@example.com".to_string(), "bob@example.com".to_string()]);
    assert_eq!(c.database_path(), "data/papra.db");
    assert_eq!(c.google_client_id(), "client-id");
    assert_eq!(c.google_client_secret(), "client-secret");
    assert_eq!(c.papra_webhook_secret.expose(), "whsec");
}

#[test]
fn limit_is_capped_at_one_hundred() {
    let mut e = env();
    e.search_result_limit = Some("+500".into());
    e.webhook_timestamp_tolerance_seconds = Some("60".into());
    e.auth_enabled = Some("false".into());
    let c = Config::from_env(&e).unwrap();
    assert_eq!(c.search_result_limit, 100);
    assert_eq!(c.webhook_timestamp_tolerance_seconds, 60);
    assert!(!c.auth_enabled);
}

#[test]
fn each_configuration_error_is_reported() {
    let check = |mutate: &dyn Fn(&mut EnvironmentValues), expected: ConfigError, message: &str| {
        let mut e = env();
        mutate(&mut e);
        let err = Config::from_env(&e).err().unwrap();
        assert_eq!(err, expected);
        assert_eq!(err.message(), message);
    };
    check(
        &|e| e.webhook_timestamp_tolerance_seconds = Some("soon".into()),
        ConfigError::NotInteger(Variable::WebhookTimestampToleranceSeconds),
        "WEBHOOK_TIMESTAMP_TOLERANCE_SECONDS must be an integer",
    );
    check(
        &|e| e.webhook_timestamp_tolerance_seconds = Some("0".into()),
        ConfigError::NotPositive(Variable::WebhookTimestampToleranceSeconds),
        "WEBHOOK_TIMESTAMP_TOLERANCE_SECONDS must be positive",
    );
    check(
        &|e| e.search_result_limit = Some("-1".into()),
        ConfigError::NotInteger(Variable::SearchResultLimit),
        "SEARCH_RESULT_LIMIT must be an integer",
    );
    check(
        &|e| e.search_result_limit = Some("0".into()),
        ConfigError::NotPositive(Variable::SearchResultLimit),
        "SEARCH_RESULT_LIMIT must be positive",
    );
    check(
        &|e| e.auth_enabled = Some("yes".into()),
        ConfigError::NotBoolean(Variable::AuthEnabled),
        "AUTH_ENABLED must be true or false",
    );
    check(
        &|e| e.google_allowed_emails = None,
        ConfigError::Missing(Variable::GoogleAllowedEmails),
        "required environment variable GOOGLE_ALLOWED_EMAILS is missing",
    );
    check(
        &|e| e.google_allowed_emails = Some(" , ,".into()),
        ConfigError::NoAllowedEmails,
        "GOOGLE_ALLOWED_EMAILS must contain at least one email",
    );
    check(
        &|e| e.database_url = Some("  ".into()),
        ConfigError::Empty(Variable::DatabaseUrl),
        "DATABASE_URL must not be empty",
    );
    check(
        &|e| e.google_issuer = None,
        ConfigError::Missing(Variable::GoogleIssuer),
        "required environment variable GOOGLE_ISSUER is missing",
    );
}

#[test]
fn debug_text_redacts_secrets() {
    let c = Config::from_env(&env()).unwrap();
    let text = c.debug_text();
    assert!(!text.contains("whsec"));
    assert!(!text.contains("client-secret"));
    assert!(!text.contains("client-id"));
    assert_eq!(
        text,
        "Config { database_url: \"sqlite://data/papra.db\", sqlite_vec_extension_path: \"./vec0.so\", \
         papra_webhook_secret: \"[REDACTED]\", papra_organization_id: \"org_1\", google_client_id: \"[REDACTED]\", \
         google_client_secret: \"[REDACTED]\", google_redirect_uri: \"http://localhost:3000/oidc/callback\", \
         google_issuer: \"https://accounts.google.com\", google_allowed_emails: {\"alice@example.com\", \"bob@example.com\"}, \
         auth_enabled: true, papra_base_url: None, webhook_timestamp_tolerance_seconds: 300, search_result_limit: 20, \
         otel_exporter_endpoint: None }"
    );
}

#[test]
fn allowed_emails_are_normalized_once() {
    let raw: Vec<char> = "A@x.io,a@X.IO, b@y.io ".chars().collect();
    assert_eq!(allowed_emails(&raw), vec!["a@x.io".to_string(), "b@y.io".to_string()]);
}

fn token(header_json: &str) -> String {
    format!("{}.e30.c2ln", URL_SAFE_NO_PAD.encode(header_json))
}

#[test]
fn prepares_bearer_tokens_signed_with_rs256() {
    let auth = Authenticator::new(&Config::from_env(&env()).unwrap());
    let t = token(r#"{"alg":"RS256","kid":"key-1","typ":"JWT"}"#);
    let header = format!("Bearer {t}");
    let prepared = auth.prepare(Some(&header)).unwrap();
    assert_eq!(prepared.token, t);
    assert_eq!(prepared.key_id.as_deref(), Some("key-1"));
    assert_eq!(prepared.jwks_url, "https://www.googleapis.com/oauth2/v3/certs");
    assert_eq!(require_key_id(prepared.key_id).unwrap(), "key-1");
    assert_eq!(require_key_id(None).unwrap_err(), AuthError::MissingKeyId);
}

#[test]
fn refuses_other_headers_and_algorithms() {
    let auth = Authenticator::new(&Config::from_env(&env()).unwrap());
    assert_eq!(auth.prepare(None).unwrap_err(), AuthError::MissingAuthorization);
    assert_eq!(auth.prepare(Some("Basic abc")).unwrap_err(), AuthError::InvalidScheme);
    assert_eq!(auth.prepare(Some("Bearer not-a-jwt")).unwrap_err(), AuthError::MalformedToken);
    let hs = format!("Bearer {}", token(r#"{"alg":"HS256","typ":"JWT"}"#));
    assert_eq!(auth.prepare(Some(&hs)).unwrap_err(), AuthError::UnsupportedAlgorithm);
    assert_eq!(AuthError::UnsupportedAlgorithm.message(), "unsupported token algorithm");
}

#[test]
fn other_issuers_publish_keys_under_well_known() {
    let mut e = env();
    e.google_issuer = Some("https://issuer.example//".into());
    let auth = Authenticator::new(&Config::from_env(&e).unwrap());
    assert_eq!(auth.jwks_endpoint(), "https://issuer.example/.well-known/jwks.json");
}

fn claims(email: Option<&str>) -> Claims {
    Claims { iss: "i".into(), aud: "a".into(), exp: 1, email: email.map(String::from), hd: None }
}

#[test]
fn only_allowed_emails_may_search() {
    let auth = Authenticator::new(&Config::from_env(&env()).unwrap());
    assert_eq!(auth.authorize(claims(Some("BOB@example.com"))).unwrap().email.as_deref(), Some("BOB@example.com"));
    assert_eq!(auth.authorize(claims(Some("eve@example.com"))).unwrap_err(), AuthError::EmailNotAuthorized);
    assert_eq!(auth.authorize(claims(None)).unwrap_err(), AuthError::EmailMissing);
}

#[test]
fn sign_in_url_and_token_request_carry_the_client() {
    let auth = Authenticator::new(&Config::from_env(&env()).unwrap());
    let url = auth.authorization_url("st ate").unwrap();
    assert_eq!(
        url,
        "https://accounts.google.com/o/oauth2/v2/auth?client_id=client-id&redirect_uri=http%3A%2F%2Flocalhost%3A3000%2Foidc%2Fcallback&response_type=code&scope=openid+email+profile&state=st+ate&access_type=online"
    );
    let form = auth.token_request_form("the-code");
    let keys: Vec<&str> = form.iter().map(|(k, _)| k.as_str()).collect();
    assert_eq!(keys, vec!["code", "client_id", "client_secret", "redirect_uri", "grant_type"]);
    assert_eq!(form[2].1, "client-secret");
    assert_eq!(form[4].1, "authorization_code");
}
