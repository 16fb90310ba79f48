use base64::engine::general_purpose::URL_SAFE_NO_PAD;
use base64::Engine;
use papra_vector_search::auth::{AuthError, Authenticator, KeySet, PublicKey};
use papra_vector_search::config::{Config, EnvironmentValues};

/// The modulus of the public half of a throwaway RSA key; the tokens below
/// were signed once with its private half, which is not kept.
const MODULUS: [u8; 256] = [
    202, 6, 59, 203, 228, 214, 169, 80, 180, 202, 136, 149, 71, 60, 200, 100, 195, 72, 127, 9,
    125, 148, 189, 24, 201, 96, 52, 26, 36, 25, 193, 57, 39, 207, 202, 64, 161, 48, 86, 251,
    12, 232, 150, 228, 83, 58, 126, 138, 34, 158, 133, 170, 46, 170, 47, 112, 133, 144, 198, 179,
    184, 45, 81, 90, 8, 82, 133, 165, 141, 190, 197, 59, 39, 26, 50, 6, 184, 51, 232, 101,
    204, 124, 106, 61, 145, 108, 8, 41, 139, 237, 0, 66, 146, 168, 64, 135, 140, 116, 65, 49,
    123, 137, 193, 84, 161, 142, 34, 66, 204, 219, 193, 180, 101, 238, 143, 100, 203, 249, 231, 28,
    176, 188, 56, 124, 110, 253, 216, 182, 220, 32, 138, 67, 140, 255, 179, 213, 19, 162, 95, 167,
    234, 27, 199, 79, 125, 149, 27, 170, 175, 20, 79, 42, 11, 112, 0, 51, 46, 89, 133, 203,
    10, 216, 71, 32, 3, 100, 75, 71, 95, 107, 102, 56, 210, 32, 144, 94, 4, 16, 43, 183,
    92, 93, 126, 232, 130, 133, 2, 118, 8, 9, 89, 200, 177, 121, 33, 132, 16, 134, 102, 173,
    48, 176, 56, 16, 41, 182, 249, 145, 239, 76, 127, 81, 79, 74, 191, 5, 12, 2, 27, 239,
    61, 222, 165, 132, 245, 24, 28, 131, 100, 210, 211, 202, 209, 176, 32, 58, 242, 168, 72, 10,
    127, 0, 234, 150, 87, 157, 4, 77, 143, 53, 228, 255, 11, 46, 109, 29,
];

const VALID_PAYLOAD: &str = r#"{"iss":"https://accounts.google.com","aud":"client-id","exp":4102444800,"email":"Alice@Example.com"}"#;
const VALID_SIGNATURE: [u8; 256] = [
    34, 253, 152, 202, 232, 143, 117, 209, 174, 53, 144, 69, 140, 84, 163, 177, 243, 137, 140, 240,
    225, 149, 105, 238, 247, 233, 140, 184, 132, 29, 235, 63, 240, 134, 252, 15, 27, 51, 25, 179,
    71, 41, 102, 135, 193, 201, 77, 54, 112, 171, 147, 159, 208, 182, 100, 196, 107, 15, 123, 113,
    119, 113, 45, 151, 144, 200, 103, 167, 187, 193, 125, 208, 0, 245, 50, 124, 132, 201, 13, 232,
    153, 150, 110, 222, 138, 83, 214, 73, 137, 254, 71, 14, 70, 37, 213, 248, 191, 127, 100, 12,
    189, 194, 6, 104, 14, 88, 106, 157, 26, 20, 12, 56, 239, 132, 245, 25, 91, 33, 99, 190,
    67, 110, 82, 78, 168, 124, 179, 113, 185, 124, 171, 105, 244, 161, 164, 196, 45, 249, 166, 45,
    190, 51, 243, 197, 245, 235, 63, 4, 98, 204, 53, 29, 32, 31, 206, 15, 87, 193, 24, 148,
    24, 132, 12, 170, 160, 127, 24, 245, 40, 240, 195, 156, 196, 162, 81, 83, 155, 188, 116, 43,
    72, 87, 25, 192, 195, 181, 253, 99, 210, 95, 245, 34, 175, 27, 242, 68, 16, 107, 106, 161,
    154, 211, 206, 185, 11, 144, 5, 139, 4, 230, 112, 21, 189, 235, 79, 85, 222, 191, 246, 244,
    167, 238, 70, 251, 56, 163, 27, 228, 63, 181, 8, 191, 168, 64, 92, 44, 58, 95, 246, 17,
    156, 182, 128, 38, 163, 80, 244, 132, 162, 12, 174, 109, 44, 169, 188, 255,
];

const OTHER_ISSUER_PAYLOAD: &str = r#"{"iss":"https://evil.example","aud":"client-id","exp":4102444800,"email":"alice@example.com"}"#;
const OTHER_ISSUER_SIGNATURE: [u8; 256] = [
    38, 130, 254, 36, 71, 209, 241, 15, 119, 65, 214, 37, 147, 40, 140, 70, 75, 115, 143, 204,
    27, 163, 78, 27, 171, 36, 78, 5, 41, 32, 201, 28, 216, 234, 57, 19, 239, 248, 235, 157,
    202, 118, 20, 36, 6, 187, 175, 132, 243, 87, 114, 71, 83, 109, 236, 247, 253, 148, 108, 119,
    41, 214, 126, 159, 122, 74, 130, 243, 19, 202, 238, 153, 33, 245, 56, 115, 159, 238, 12, 82,
    100, 229, 136, 66, 117, 243, 0, 249, 115, 193, 18, 192, 70, 156, 255, 47, 13, 123, 60, 179,
    183, 195, 62, 36, 118, 207, 248, 181, 121, 121, 111, 163, 80, 56, 252, 127, 208, 153, 75, 66,
    124, 212, 28, 138, 37, 182, 17, 37, 183, 39, 172, 199, 137, 209, 162, 55, 99, 128, 200, 167,
    220, 171, 254, 160, 214, 127, 46, 213, 184, 246, 233, 131, 149, 212, 255, 203, 186, 16, 99, 44,
    159, 253, 49, 183, 53, 200, 186, 150, 185, 167, 94, 152, 130, 14, 236, 2, 23, 4, 111, 64,
    217, 49, 126, 114, 254, 250, 2, 169, 61, 73, 234, 147, 6, 61, 31, 74, 178, 17, 133, 4,
    187, 222, 230, 173, 10, 196, 168, 221, 30, 104, 170, 126, 45, 215, 124, 89, 43, 234, 157, 60,
    163, 8, 65, 191, 169, 150, 76, 67, 131, 161, 247, 49, 37, 219, 127, 84, 255, 59, 238, 11,
    134, 131, 96, 35, 250, 215, 36, 166, 248, 37, 82, 205, 99, 50, 241, 252,
];

const OTHER_AUDIENCE_PAYLOAD: &str = r#"{"iss":"https://accounts.google.com","aud":"someone-else","exp":4102444800,"email":"alice@example.com"}"#;
const OTHER_AUDIENCE_SIGNATURE: [u8; 256] = [
    134, 73, 214, 31, 218, 17, 231, 211, 248, 188, 199, 153, 233, 135, 146, 128, 72, 245, 204, 53,
    102, 133, 151, 216, 21, 225, 226, 175, 250, 100, 193, 91, 207, 254, 69, 231, 55, 4, 93, 27,
    101, 186, 135, 115, 110, 201, 235, 156, 96, 100, 23, 255, 193, 20, 120, 243, 40, 32, 175, 62,
    152, 202, 107, 16, 74, 49, 38, 236, 188, 92, 135, 32, 106, 119, 199, 122, 44, 198, 106, 48,
    38, 145, 27, 154, 31, 5, 249, 109, 0, 21, 253, 89, 202, 53, 25, 163, 39, 14, 92, 186,
    24, 169, 98, 181, 237, 245, 17, 123, 114, 144, 76, 224, 94, 170, 100, 240, 223, 73, 6, 103,
    88, 236, 57, 228, 204, 84, 15, 126, 212, 228, 146, 37, 82, 56, 186, 115, 213, 169, 47, 217,
    31, 235, 8, 242, 36, 121, 18, 64, 203, 109, 11, 115, 52, 103, 9, 42, 21, 129, 20, 74,
    138, 153, 50, 37, 208, 18, 165, 162, 254, 202, 245, 240, 27, 52, 40, 59, 178, 41, 44, 71,
    4, 29, 97, 23, 239, 185, 180, 114, 188, 59, 69, 119, 55, 201, 175, 241, 159, 64, 110, 14,
    192, 180, 148, 224, 92, 152, 91, 22, 33, 139, 45, 100, 68, 218, 54, 49, 55, 223, 14, 30,
    41, 182, 91, 110, 115, 46, 65, 94, 38, 82, 153, 97, 157, 203, 245, 24, 146, 45, 145, 31,
    96, 114, 125, 142, 85, 143, 203, 208, 55, 248, 232, 142, 75, 21, 123, 7,
];

const EXPIRED_PAYLOAD: &str = r#"{"iss":"https://accounts.google.com","aud":"client-id","exp":1000000000,"email":"alice@example.com"}"#;
const EXPIRED_SIGNATURE: [u8; 256] = [
    52, 174, 28, 53, 19, 140, 225, 63, 43, 230, 154, 87, 204, 186, 90, 11, 234, 111, 232, 31,
    129, 111, 62, 225, 25, 20, 64, 6, 39, 254, 165, 201, 99, 248, 254, 57, 126, 4, 171, 229,
    10, 194, 130, 62, 97, 145, 251, 168, 51, 87, 99, 7, 168, 59, 6, 246, 49, 11, 98, 136,
    30, 102, 225, 243, 104, 89, 226, 189, 53, 27, 1, 61, 102, 7, 122, 226, 208, 176, 103, 141,
    23, 39, 92, 243, 204, 134, 225, 53, 149, 237, 18, 240, 150, 74, 27, 94, 198, 145, 71, 250,
    148, 32, 210, 146, 22, 116, 15, 8, 80, 231, 86, 207, 133, 182, 41, 3, 181, 3, 166, 35,
    60, 157, 70, 106, 22, 250, 121, 246, 217, 40, 119, 130, 77, 34, 34, 203, 37, 127, 130, 170,
    38, 224, 132, 23, 238, 129, 73, 214, 35, 82, 184, 13, 97, 204, 27, 89, 162, 71, 184, 227,
    222, 148, 65, 164, 85, 46, 12, 246, 103, 152, 241, 153, 60, 42, 210, 63, 99, 166, 196, 194,
    150, 173, 18, 116, 219, 31, 7, 179, 33, 236, 57, 34, 149, 6, 174, 32, 72, 182, 87, 23,
    6, 242, 85, 157, 5, 145, 97, 163, 202, 112, 138, 194, 232, 96, 179, 129, 8, 186, 29, 221,
    75, 222, 221, 73, 90, 155, 129, 184, 118, 58, 4, 28, 226, 180, 152, 195, 78, 57, 242, 226,
    136, 214, 150, 11, 239, 239, 218, 107, 151, 240, 153, 115, 224, 218, 37, 154,
];

const STRANGER_PAYLOAD: &str = r#"{"iss":"https://accounts.google.com","aud":"client-id","exp":4102444800,"email":"eve@example.com"}"#;
const STRANGER_SIGNATURE: [u8; 256] = [
    169, 165, 104, 114, 23, 221, 97, 165, 126, 29, 165, 33, 76, 199, 229, 167, 205, 121, 174, 134,
    143, 195, 85, 48, 92, 8, 44, 72, 118, 91, 252, 226, 99, 42, 201, 75, 174, 103, 66, 223,
    242, 204, 170, 208, 172, 214, 214, 172, 144, 71, 44, 220, 177, 60, 22, 239, 145, 33, 67, 6,
    255, 43, 248, 25, 60, 107, 88, 22, 92, 65, 234, 115, 138, 10, 138, 154, 115, 184, 110, 25,
    146, 172, 157, 212, 98, 115, 147, 232, 165, 17, 72, 157, 246, 25, 76, 217, 92, 163, 56, 29,
    232, 122, 73, 191, 202, 138, 245, 125, 232, 207, 21, 132, 190, 76, 80, 58, 106, 30, 30, 212,
    166, 251, 177, 130, 204, 119, 25, 27, 242, 20, 165, 103, 131, 77, 121, 166, 32, 64, 108, 252,
    206, 68, 46, 94, 42, 0, 80, 227, 155, 192, 102, 104, 36, 189, 42, 228, 119, 20, 202, 245,
    215, 191, 46, 217, 229, 77, 134, 18, 76, 59, 161, 20, 123, 86, 116, 41, 127, 142, 74, 110,
    83, 251, 241, 57, 6, 28, 134, 3, 2, 248, 126, 139, 72, 118, 8, 91, 219, 8, 243, 21,
    178, 140, 194, 49, 114, 131, 39, 203, 53, 149, 227, 43, 192, 15, 133, 93, 212, 217, 159, 31,
    148, 126, 151, 87, 14, 93, 157, 46, 100, 39, 12, 82, 126, 77, 105, 179, 206, 221, 72, 233,
    247, 253, 159, 56, 236, 23, 115, 126, 230, 206, 90, 106, 141, 67, 4, 243,
];

fn authenticator() -> Authenticator {
    let env = EnvironmentValues {
        database_url: Some("db".into()),
        sqlite_vec_extension_path: Some("vec0.so".into()),
        papra_webhook_secret: Some("whsec".into()),
        papra_organization_id: Some("org".into()),
        google_client_id: Some("client-id".into()),
        google_client_secret: Some("client-secret".into()),
        google_redirect_uri: Some("http://localhost:3000/oidc/callback".into()),
        google_issuer: Some("https://accounts.google.com".into()),
        google_allowed_emails: Some("alice@example.com".into()),
        auth_enabled: None,
        papra_base_url: None,
        webhook_timestamp_tolerance_seconds: None,
        search_result_limit: None,
        otel_exporter_otlp_endpoint: None,
    };
    Authenticator::new(&Config::from_env(&env).unwrap())
}

const HEADER: &str = r#"{"alg":"RS256","kid":"k1","typ":"JWT"}"#;

fn token(header: &str, payload: &str, signature: &[u8]) -> String {
    format!(
        "{}.{}.{}",
        URL_SAFE_NO_PAD.encode(header),
        URL_SAFE_NO_PAD.encode(payload),
        URL_SAFE_NO_PAD.encode(signature)
    )
}

fn keys() -> KeySet {
    KeySet {
        keys: vec![
            PublicKey { kid: "other".into(), n: "AQAB".into(), e: "AQAB".into() },
            PublicKey { kid: "k1".into(), n: URL_SAFE_NO_PAD.encode(MODULUS), e: "AQAB".into() },
        ],
    }
}

const NOW: i64 = 1_700_000_000;

fn check_at(token: &str, now: i64) -> Result<String, AuthError> {
    let auth = authenticator();
    let prepared = auth.prepare(Some(&format!("Bearer {token}")))?;
    auth.authenticate(&prepared, &keys(), now).map(|c| c.email.unwrap())
}

fn check(token: &str) -> Result<String, AuthError> {
    check_at(token, NOW)
}

#[test]
fn accepts_a_signed_token_of_an_allowed_user() {
    let valid = token(HEADER, VALID_PAYLOAD, &VALID_SIGNATURE);
    assert_eq!(check(&valid), Ok("Alice@Example.com".to_string()));
    assert_eq!(keys().position("k1"), Some(1));
    assert_eq!(keys().position("nope"), None);
}

#[test]
fn refuses_tokens_by_key_claims_and_expiry() {
    let no_kid = token(r#"{"alg":"RS256","typ":"JWT"}"#, VALID_PAYLOAD, &VALID_SIGNATURE);
    assert_eq!(check(&no_kid), Err(AuthError::MissingKeyId));
    let unknown = token(r#"{"alg":"RS256","kid":"k9","typ":"JWT"}"#, VALID_PAYLOAD, &VALID_SIGNATURE);
    assert_eq!(check(&unknown), Err(AuthError::KeyNotFound));
    let wrong_key = token(r#"{"alg":"RS256","kid":"other","typ":"JWT"}"#, VALID_PAYLOAD, &VALID_SIGNATURE);
    assert_eq!(check(&wrong_key), Err(AuthError::InvalidToken));
    let tampered = token(HEADER, STRANGER_PAYLOAD, &VALID_SIGNATURE);
    assert_eq!(check(&tampered), Err(AuthError::InvalidToken));
    let issuer = token(HEADER, OTHER_ISSUER_PAYLOAD, &OTHER_ISSUER_SIGNATURE);
    assert_eq!(check(&issuer), Err(AuthError::InvalidToken));
    let audience = token(HEADER, OTHER_AUDIENCE_PAYLOAD, &OTHER_AUDIENCE_SIGNATURE);
    assert_eq!(check(&audience), Err(AuthError::InvalidToken));
    let expired = token(HEADER, EXPIRED_PAYLOAD, &EXPIRED_SIGNATURE);
    assert_eq!(check(&expired), Err(AuthError::TokenExpired));
    assert_eq!(check_at(&expired, 1_000_000_060), Ok("alice@example.com".to_string()));
    assert_eq!(check_at(&expired, 1_000_000_061), Err(AuthError::TokenExpired));
    let stranger = token(HEADER, STRANGER_PAYLOAD, &STRANGER_SIGNATURE);
    assert_eq!(check(&stranger), Err(AuthError::EmailNotAuthorized));
    assert_eq!(AuthError::KeyNotFound.message(), "token key not found");
    assert_eq!(AuthError::InvalidToken.message(), "invalid token");
    assert_eq!(AuthError::TokenExpired.message(), "token expired");
}
