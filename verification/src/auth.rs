//! The authorization policy: the Google sign-in request, the bearer token and
//! its header, where the signing keys are published, the check of a token
//! against those keys, and which emails may search. Fetching the published
//! keys happens in the program around the library.

use jsonwebtoken::{decode, Algorithm, DecodingKey, Validation};
use serde::Deserialize;
use vstd::prelude::*;

use crate::config::{texts, Config};
use crate::secret::{secret_text, SecretValue};
use crate::text::{ascii_lowercase, ascii_lowercase_chars, chars_eq, chars_of, string_from_chars, strip_prefix, strip_prefix_chars};
use crate::webhook::{opt_str_text, trim_end_char};

verus! {

/// The claims of a Google ID token that the service reads.
#[derive(Debug)]
pub struct Claims {
    pub iss: String,
    pub aud: String,
    pub exp: usize,
    pub email: Option<String>,
    pub hd: Option<String>,
}

/// The token response of the OAuth token endpoint.
#[derive(Debug)]
pub struct OAuthTokenResponse {
    pub access_token: String,
    pub expires_in: u64,
    pub id_token: Option<String>,
    pub token_type: String,
}

/// Why a request is not authenticated.
#[derive(Clone, Copy, Debug, PartialEq, Eq, Structural)]
pub enum AuthError {
    /// No `Authorization` header.
    MissingAuthorization,
    /// The header does not use the `Bearer ` scheme.
    InvalidScheme,
    /// The token has no readable JWT header.
    MalformedToken,
    /// The token is not signed with RS256.
    UnsupportedAlgorithm,
    /// The token header names no key.
    MissingKeyId,
    /// No published key has the token's key identifier.
    KeyNotFound,
    /// The signature, issuer, audience or claims of the token do not hold.
    InvalidToken,
    /// The token expired (allowing a minute of clock skew).
    TokenExpired,
    /// The sign-in URL could not be built.
    InvalidUrl,
    /// The token carries no email.
    EmailMissing,
    /// The email is not on the allow list.
    EmailNotAuthorized,
}

impl AuthError {
    /// The text of the error.
    pub open spec fn message_spec(self) -> Seq<char> {
        match self {
            AuthError::MissingAuthorization => "missing authorization"@,
            AuthError::InvalidScheme => "invalid authorization scheme"@,
            AuthError::MalformedToken => "malformed token header"@,
            AuthError::UnsupportedAlgorithm => "unsupported token algorithm"@,
            AuthError::MissingKeyId => "token key id missing"@,
            AuthError::KeyNotFound => "token key not found"@,
            AuthError::InvalidToken => "invalid token"@,
            AuthError::TokenExpired => "token expired"@,
            AuthError::InvalidUrl => "invalid OAuth URL"@,
            AuthError::EmailMissing => "token email missing"@,
            AuthError::EmailNotAuthorized => "email address is not authorized"@,
        }
    }

    /// The text of the error.
    pub fn message(&self) -> (r: String)
        ensures
            r@ == self.message_spec(),
    {
        match self {
            AuthError::MissingAuthorization => "missing authorization".to_owned(),
            AuthError::InvalidScheme => "invalid authorization scheme".to_owned(),
            AuthError::MalformedToken => "malformed token header".to_owned(),
            AuthError::UnsupportedAlgorithm => "unsupported token algorithm".to_owned(),
            AuthError::MissingKeyId => "token key id missing".to_owned(),
            AuthError::KeyNotFound => "token key not found".to_owned(),
            AuthError::InvalidToken => "invalid token".to_owned(),
            AuthError::TokenExpired => "token expired".to_owned(),
            AuthError::InvalidUrl => "invalid OAuth URL".to_owned(),
            AuthError::EmailMissing => "token email missing".to_owned(),
            AuthError::EmailNotAuthorized => "email address is not authorized".to_owned(),
        }
    }
}

/// The URL `base` with `pairs` appended to its query, form-encoded, as
/// `url::Url` serializes it; `None` when `base` is no URL.
pub uninterp spec fn url_with_query_spec(base: Seq<char>, pairs: Seq<(Seq<char>, Seq<char>)>) -> Option<
    Seq<char>,
>;

/// The algorithm name (as `Debug` writes the `jsonwebtoken::Algorithm`) and the
/// key identifier of the header of a JWT; `None` when the token has no
/// readable header.
pub uninterp spec fn jwt_header_spec(token: Seq<char>) -> Option<(Seq<char>, Option<Seq<char>>)>;

/// The text of each pair of a list of string pairs.
pub open spec fn pair_texts(pairs: Seq<(String, String)>) -> Seq<(Seq<char>, Seq<char>)> {
    pairs.map_values(|p: (String, String)| (p.0@, p.1@))
}

/// Calls `url::Url::parse`, `query_pairs_mut().extend_pairs` and
/// `String::from`. Trusted: the result is what `url_with_query_spec` names.
#[verifier::external_body]
fn url_with_query(base: &str, pairs: &Vec<(String, String)>) -> (r: Option<String>)
    ensures
        match r {
            Some(s) => url_with_query_spec(base@, pair_texts(pairs@)) == Some(s@),
            None => url_with_query_spec(base@, pair_texts(pairs@)) is None,
        },
{
    match url::Url::parse(base) {
        Ok(mut url) => {
            url.query_pairs_mut().extend_pairs(pairs.iter());
            Some(String::from(url))
        },
        Err(_) => None,
    }
}

/// Calls `jsonwebtoken::decode_header`. Trusted: the result is what
/// `jwt_header_spec` names.
#[verifier::external_body]
fn jwt_header(token: &str) -> (r: Option<(String, Option<String>)>)
    ensures
        match r {
            Some((alg, kid)) => jwt_header_spec(token@) == Some((alg@, crate::storage::opt_text(kid))),
            None => jwt_header_spec(token@) is None,
        },
{
    match jsonwebtoken::decode_header(token) {
        Ok(header) => Some((format!("{:?}", header.alg), header.kid)),
        Err(_) => None,
    }
}

/// Validates Google ID tokens and decides who may search.
pub struct Authenticator {
    issuer: String,
    audience: String,
    client_secret: SecretValue,
    redirect_uri: String,
    allowed_emails: Vec<String>,
}

/// The value of an [`Authenticator`].
pub struct AuthenticatorView {
    pub issuer: Seq<char>,
    /// The Google client identifier.
    pub audience: Seq<char>,
    pub client_secret: Seq<char>,
    pub redirect_uri: Seq<char>,
    pub allowed_emails: Seq<Seq<char>>,
}

impl View for Authenticator {
    type V = AuthenticatorView;

    closed spec fn view(&self) -> AuthenticatorView {
        AuthenticatorView {
            issuer: self.issuer@,
            audience: self.audience@,
            client_secret: secret_text(self.client_secret),
            redirect_uri: self.redirect_uri@,
            allowed_emails: texts(self.allowed_emails@),
        }
    }
}

/// A bearer token whose header passed the checks, with where its keys are.
#[derive(Debug)]
pub struct PreparedToken {
    /// The token, without the `Bearer ` prefix.
    pub token: String,
    /// The key identifier of its header.
    pub key_id: Option<String>,
    /// The URL of the issuer's key set.
    pub jwks_url: String,
}

/// The Google authorization endpoint.
pub open spec fn google_authorization_endpoint() -> Seq<char> {
    "https://accounts.google.com/o/oauth2/v2/auth"@
}

/// The query of the sign-in redirect.
pub open spec fn authorization_pairs(a: AuthenticatorView, state: Seq<char>) -> Seq<(Seq<char>, Seq<char>)> {
    seq![
        ("client_id"@, a.audience),
        ("redirect_uri"@, a.redirect_uri),
        ("response_type"@, "code"@),
        ("scope"@, "openid email profile"@),
        ("state"@, state),
        ("access_type"@, "online"@),
    ]
}

/// The token request that exchanges an authorization code.
pub open spec fn token_request_pairs(a: AuthenticatorView, code: Seq<char>) -> Seq<(Seq<char>, Seq<char>)> {
    seq![
        ("code"@, code),
        ("client_id"@, a.audience),
        ("client_secret"@, a.client_secret),
        ("redirect_uri"@, a.redirect_uri),
        ("grant_type"@, "authorization_code"@),
    ]
}

/// Where the issuer publishes its signing keys: Google's certificate URL for
/// Google, else `/.well-known/jwks.json` under the issuer.
pub open spec fn jwks_endpoint_spec(issuer: Seq<char>) -> Seq<char> {
    if issuer == "https://accounts.google.com"@ {
        "https://www.googleapis.com/oauth2/v3/certs"@
    } else {
        trim_end_char(issuer, '/') + "/.well-known/jwks.json"@
    }
}

/// A string pair.
fn pair(a: &str, b: &str) -> (r: (String, String))
    ensures
        r.0@ == a@,
        r.1@ == b@,
{
    (a.to_owned(), b.to_owned())
}

impl Authenticator {
    /// The authenticator of a configuration.
    pub fn new(config: &Config) -> (r: Authenticator)
        ensures
            r@ == (AuthenticatorView {
                issuer: config@.google_issuer,
                audience: config@.google_client_id,
                client_secret: config@.google_client_secret,
                redirect_uri: config@.google_redirect_uri,
                allowed_emails: config@.google_allowed_emails,
            }),
    {
        let mut emails: Vec<String> = Vec::new();
        let mut i: usize = 0;
        while i < config.google_allowed_emails.len()
            invariant
                i <= config.google_allowed_emails@.len(),
                texts(emails@) == texts(config.google_allowed_emails@).take(i as int),
            decreases config.google_allowed_emails@.len() - i,
        {
            let ghost before = emails@;
            let e = config.google_allowed_emails[i].clone();
            assert(e@ == config.google_allowed_emails@[i as int]@);
            emails.push(e);
            assert(emails@ == before.push(e));
            assert(texts(emails@) =~= texts(before).push(e@));
            assert(texts(emails@) =~= texts(config.google_allowed_emails@).take(i + 1));
            i = i + 1;
        }
        assert(texts(config.google_allowed_emails@).take(i as int) =~= texts(config.google_allowed_emails@));
        Authenticator {
            issuer: config.google_issuer.clone(),
            audience: config.google_client_id().to_owned(),
            client_secret: config.google_client_secret.duplicate(),
            redirect_uri: config.google_redirect_uri.clone(),
            allowed_emails: emails,
        }
    }

    /// The Google sign-in URL for a login carrying `state`.
    pub fn authorization_url(&self, state: &str) -> (r: Result<String, AuthError>)
        ensures
            match r {
                Ok(u) => url_with_query_spec(google_authorization_endpoint(), authorization_pairs(self@, state@))
                    == Some(u@),
                Err(e) => url_with_query_spec(google_authorization_endpoint(), authorization_pairs(self@, state@))
                    is None && e == AuthError::InvalidUrl,
            },
    {
        let mut pairs: Vec<(String, String)> = Vec::new();
        pairs.push(pair("client_id", self.audience.as_str()));
        pairs.push(pair("redirect_uri", self.redirect_uri.as_str()));
        pairs.push(pair("response_type", "code"));
        pairs.push(pair("scope", "openid email profile"));
        pairs.push(pair("state", state));
        pairs.push(pair("access_type", "online"));
        assert(pair_texts(pairs@) =~= authorization_pairs(self@, state@));
        match url_with_query("https://accounts.google.com/o/oauth2/v2/auth", &pairs) {
            Some(u) => Ok(u),
            None => Err(AuthError::InvalidUrl),
        }
    }

    /// The form of the token request that exchanges `code`.
    pub fn token_request_form(&self, code: &str) -> (r: Vec<(String, String)>)
        ensures
            pair_texts(r@) == token_request_pairs(self@, code@),
    {
        let mut pairs: Vec<(String, String)> = Vec::new();
        pairs.push(pair("code", code));
        pairs.push(pair("client_id", self.audience.as_str()));
        pairs.push(pair("client_secret", self.client_secret.expose()));
        pairs.push(pair("redirect_uri", self.redirect_uri.as_str()));
        pairs.push(pair("grant_type", "authorization_code"));
        assert(pair_texts(pairs@) =~= token_request_pairs(self@, code@));
        pairs
    }

    /// Where the issuer publishes its signing keys.
    pub fn jwks_endpoint(&self) -> (r: String)
        ensures
            r@ == jwks_endpoint_spec(self@.issuer),
    {
        let issuer = chars_of(self.issuer.as_str());
        if chars_eq(issuer.as_slice(), chars_of("https://accounts.google.com").as_slice()) {
            "https://www.googleapis.com/oauth2/v3/certs".to_owned()
        } else {
            let mut end: usize = issuer.len();
            assert(issuer@.take(issuer@.len() as int) =~= issuer@);
            while end > 0 && issuer[end - 1] == '/'
                invariant
                    end <= issuer@.len(),
                    trim_end_char(issuer@, '/') == trim_end_char(issuer@.take(end as int), '/'),
                decreases end,
            {
                assert(issuer@.take(end as int).drop_last() =~= issuer@.take(end - 1));
                end = end - 1;
            }
            let mut v: Vec<char> = Vec::new();
            let mut k: usize = 0;
            while k < end
                invariant
                    k <= end <= issuer@.len(),
                    v@ == issuer@.take(k as int),
                decreases end - k,
            {
                v.push(issuer[k]);
                assert(issuer@.take(k + 1) =~= issuer@.take(k as int).push(issuer@[k as int]));
                k = k + 1;
            }
            crate::text::push_all(&mut v, chars_of("/.well-known/jwks.json").as_slice());
            string_from_chars(v.as_slice())
        }
    }

    /// Checks the `Authorization` header of a request and the header of its
    /// token: a `Bearer ` token whose JWT header names RS256. Gives the token,
    /// its key identifier and where the issuer's keys are.
    pub fn prepare(&self, authorization: Option<&str>) -> (r: Result<PreparedToken, AuthError>)
        ensures
            match r {
                Ok(p) => {
                    &&& prepare_spec(opt_str_text(authorization)) == Ok::<
                        (Seq<char>, Option<Seq<char>>),
                        AuthError,
                    >((p.token@, crate::storage::opt_text(p.key_id)))
                    &&& p.jwks_url@ == jwks_endpoint_spec(self@.issuer)
                },
                Err(e) => prepare_spec(opt_str_text(authorization)) == Err::<
                    (Seq<char>, Option<Seq<char>>),
                    AuthError,
                >(e),
            },
    {
        let value = match authorization {
            Some(v) => v,
            None => return Err(AuthError::MissingAuthorization),
        };
        let token_chars = match strip_prefix_chars(chars_of(value).as_slice(), chars_of("Bearer ").as_slice()) {
            Some(t) => t,
            None => return Err(AuthError::InvalidScheme),
        };
        let token = string_from_chars(token_chars.as_slice());
        let (alg, kid) = match jwt_header(token.as_str()) {
            Some(h) => h,
            None => return Err(AuthError::MalformedToken),
        };
        if !chars_eq(chars_of(alg.as_str()).as_slice(), chars_of("RS256").as_slice()) {
            return Err(AuthError::UnsupportedAlgorithm);
        }
        let jwks_url = self.jwks_endpoint();
        Ok(PreparedToken { token, key_id: kid, jwks_url })
    }

    /// Admits the claims of a token whose signature, issuer, audience and
    /// expiry were checked, when they carry an email on the allow list
    /// (compared in ASCII lower case).
    pub fn authorize(&self, claims: Claims) -> (r: Result<Claims, AuthError>)
        ensures
            match r {
                Ok(c) => {
                    &&& c == claims
                    &&& claims.email is Some
                    &&& self@.allowed_emails.contains(ascii_lowercase(claims.email->0@))
                },
                Err(e) => {
                    &&& claims.email is None ==> e == AuthError::EmailMissing
                    &&& claims.email is Some ==> e == AuthError::EmailNotAuthorized
                        && !self@.allowed_emails.contains(ascii_lowercase(claims.email->0@))
                },
            },
    {
        let normalized = match &claims.email {
            Some(e) => ascii_lowercase_chars(chars_of(e.as_str()).as_slice()),
            None => return Err(AuthError::EmailMissing),
        };
        assert(normalized@ == ascii_lowercase(claims.email->0@));
        let mut i: usize = 0;
        while i < self.allowed_emails.len()
            invariant
                i <= self.allowed_emails@.len(),
                claims.email is Some,
                normalized@ == ascii_lowercase(claims.email->0@),
                forall|k: int| 0 <= k < i ==> self.allowed_emails@[k]@ != normalized@,
            decreases self.allowed_emails@.len() - i,
        {
            if chars_eq(chars_of(self.allowed_emails[i].as_str()).as_slice(), normalized.as_slice()) {
                assert(texts(self.allowed_emails@)[i as int] == normalized@);
                assert(self@.allowed_emails.contains(normalized@));
                return Ok(claims);
            }
            i = i + 1;
        }
        proof {
            if texts(self.allowed_emails@).contains(normalized@) {
                let k = choose|k: int|
                    0 <= k < texts(self.allowed_emails@).len() && texts(self.allowed_emails@)[k]
                        == normalized@;
                assert(self.allowed_emails@[k]@ == normalized@);
            }
        }
        Err(AuthError::EmailNotAuthorized)
    }
}

/// The token of an `Authorization` header and the key identifier of its
/// header: the header must use the `Bearer ` scheme and the token's JWT header
/// must name RS256.
pub open spec fn prepare_spec(authorization: Option<Seq<char>>) -> Result<
    (Seq<char>, Option<Seq<char>>),
    AuthError,
> {
    match authorization {
        None => Err(AuthError::MissingAuthorization),
        Some(v) => match strip_prefix(v, "Bearer "@) {
            None => Err(AuthError::InvalidScheme),
            Some(t) => match jwt_header_spec(t) {
                None => Err(AuthError::MalformedToken),
                Some((alg, kid)) => if alg == "RS256"@ {
                    Ok((t, kid))
                } else {
                    Err(AuthError::UnsupportedAlgorithm)
                },
            },
        },
    }
}

/// The key identifier a token's header must name.
pub fn require_key_id(key_id: Option<String>) -> (r: Result<String, AuthError>)
    ensures
        match r {
            Ok(k) => key_id matches Some(x) && x@ == k@,
            Err(e) => key_id is None && e == AuthError::MissingKeyId,
        },
{
    match key_id {
        Some(k) => Ok(k),
        None => Err(AuthError::MissingKeyId),
    }
}

/// A published RSA signing key: its identifier, and its modulus and exponent
/// as the Base64url text that the key set publishes.
#[derive(Debug)]
pub struct PublicKey {
    pub kid: String,
    pub n: String,
    pub e: String,
}

/// The RSA keys of a published key set, in the order the set lists them.
#[derive(Debug)]
pub struct KeySet {
    pub keys: Vec<PublicKey>,
}

/// Whether key `i` is the first of `keys` with identifier `kid`.
pub open spec fn first_key_with(keys: Seq<PublicKey>, kid: Seq<char>, i: int) -> bool {
    &&& 0 <= i < keys.len()
    &&& keys[i].kid@ == kid
    &&& forall|j: int| 0 <= j < i ==> #[trigger] keys[j].kid@ != kid
}

/// Whether some key of `keys` has identifier `kid`.
pub open spec fn has_key(keys: Seq<PublicKey>, kid: Seq<char>) -> bool {
    exists|i: int| 0 <= i < keys.len() && #[trigger] keys[i].kid@ == kid
}

impl KeySet {
    /// Where the first key with identifier `kid` is, as `JwkSet::find` picks it.
    pub fn position(&self, kid: &str) -> (r: Option<usize>)
        ensures
            match r {
                Some(i) => first_key_with(self.keys@, kid@, i as int),
                None => !has_key(self.keys@, kid@),
            },
    {
        let wanted = chars_of(kid);
        let mut i: usize = 0;
        while i < self.keys.len()
            invariant
                i <= self.keys@.len(),
                wanted@ == kid@,
                forall|j: int| 0 <= j < i ==> #[trigger] self.keys@[j].kid@ != kid@,
            decreases self.keys@.len() - i,
        {
            if chars_eq(chars_of(self.keys[i].kid.as_str()).as_slice(), wanted.as_slice()) {
                return Some(i);
            }
            i = i + 1;
        }
        None
    }
}

/// The first key of `keys` with identifier `kid` is only one.
pub proof fn lemma_first_key_unique(keys: Seq<PublicKey>, kid: Seq<char>, i: int, j: int)
    requires
        first_key_with(keys, kid, i),
        first_key_with(keys, kid, j),
    ensures
        i == j,
{
    if i < j {
        assert(keys[i].kid@ != kid);
    } else if j < i {
        assert(keys[j].kid@ != kid);
    }
}

/// The value of a set of claims.
pub struct ClaimsView {
    pub iss: Seq<char>,
    pub aud: Seq<char>,
    pub exp: usize,
    pub email: Option<Seq<char>>,
    pub hd: Option<Seq<char>>,
}

impl View for Claims {
    type V = ClaimsView;

    open spec fn view(&self) -> ClaimsView {
        ClaimsView {
            iss: self.iss@,
            aud: self.aud@,
            exp: self.exp,
            email: crate::storage::opt_text(self.email),
            hd: crate::storage::opt_text(self.hd),
        }
    }
}

/// The value of optional claims.
pub open spec fn opt_claims(o: Option<Claims>) -> Option<ClaimsView> {
    match o {
        Some(c) => Some(c@),
        None => None,
    }
}

/// The claims of `token` when its RS256 signature verifies under the RSA key
/// with modulus `n` and exponent `e` (Base64url), its issuer and audience are
/// `issuer` and `audience`, and it has an expiry; `None` otherwise. Expiry
/// itself is not judged here.
pub uninterp spec fn verified_claims_spec(
    token: Seq<char>,
    n: Seq<char>,
    e: Seq<char>,
    issuer: Seq<char>,
    audience: Seq<char>,
) -> Option<ClaimsView>;

/// Calls `jsonwebtoken::DecodingKey::from_rsa_components`, `Validation::new`
/// for RS256 with `set_issuer`, `set_audience` and expiry checking off, and
/// `jsonwebtoken::decode`, then reads the claims with serde as `Claims`.
/// Trusted: the result is what `verified_claims_spec` names, a function of the
/// arguments alone once expiry is not judged; and claims that come back carry
/// exactly `issuer` and `audience`, since `decode` refuses a text `iss` or
/// `aud` outside the ones it is given.
#[verifier::external_body]
fn decode_claims(token: &str, n: &str, e: &str, issuer: &str, audience: &str) -> (r: Option<Claims>)
    ensures
        opt_claims(r) == verified_claims_spec(token@, n@, e@, issuer@, audience@),
        r matches Some(c) ==> c.iss@ == issuer@ && c.aud@ == audience@,
{
    let key = DecodingKey::from_rsa_components(n, e).ok()?;
    let mut rules = Validation::new(Algorithm::RS256);
    rules.validate_exp = false;
    rules.set_issuer(&[issuer]);
    rules.set_audience(&[audience]);
    let c = decode::<serde_json::Value>(token, &key, &rules).ok()?.claims;
    Some(Claims {
        iss: Deserialize::deserialize(&c["iss"]).ok()?,
        aud: Deserialize::deserialize(&c["aud"]).ok()?,
        exp: Deserialize::deserialize(&c["exp"]).ok()?,
        email: Deserialize::deserialize(&c["email"]).ok()?,
        hd: Deserialize::deserialize(&c["hd"]).ok()?,
    })
}

/// The seconds of clock skew allowed when judging expiry, as jsonwebtoken's
/// default leeway.
pub const EXPIRY_LEEWAY_SECONDS: u64 = 60;

/// The outcome of authenticating `token` (with key identifier `key_id`)
/// against `keys` at time `now`: it needs a key identifier, the first key of
/// the set with it, claims that verify under that key for this issuer and
/// audience, an expiry no earlier than `now` less the leeway, and an allowed
/// email.
pub open spec fn authenticate_spec(
    a: AuthenticatorView,
    token: Seq<char>,
    key_id: Option<Seq<char>>,
    keys: Seq<PublicKey>,
    now: int,
) -> Result<ClaimsView, AuthError> {
    match key_id {
        None => Err(AuthError::MissingKeyId),
        Some(kid) => if !has_key(keys, kid) {
            Err(AuthError::KeyNotFound)
        } else {
            let key = keys[choose|i: int| first_key_with(keys, kid, i)];
            match verified_claims_spec(token, key.n@, key.e@, a.issuer, a.audience) {
                None => Err(AuthError::InvalidToken),
                Some(c) => if c.exp + EXPIRY_LEEWAY_SECONDS < now {
                    Err(AuthError::TokenExpired)
                } else {
                    match c.email {
                        None => Err(AuthError::EmailMissing),
                        Some(e) => if a.allowed_emails.contains(ascii_lowercase(e)) {
                            Ok(c)
                        } else {
                            Err(AuthError::EmailNotAuthorized)
                        },
                    }
                },
            }
        },
    }
}

impl Authenticator {
    /// Authenticates a prepared bearer token against the published keys at
    /// time `now` (seconds since the Unix epoch): the token must name a key of
    /// the set, its signature, issuer and audience must hold under the first
    /// key with that name, it must not have expired, and its email must be
    /// allowed.
    pub fn authenticate(&self, token: &PreparedToken, keys: &KeySet, now: i64) -> (r: Result<Claims, AuthError>)
        ensures
            match r {
                Ok(c) => authenticate_spec(
                    self@,
                    token.token@,
                    crate::storage::opt_text(token.key_id),
                    keys.keys@,
                    now as int,
                ) == Ok::<ClaimsView, AuthError>(c@),
                Err(e) => authenticate_spec(
                    self@,
                    token.token@,
                    crate::storage::opt_text(token.key_id),
                    keys.keys@,
                    now as int,
                ) == Err::<ClaimsView, AuthError>(e),
            },
            r matches Ok(c) ==> c.iss@ == self@.issuer && c.aud@ == self@.audience,
    {
        let kid = match require_key_id(crate::storage::clone_opt_string(&token.key_id)) {
            Ok(k) => k,
            Err(e) => return Err(e),
        };
        let i = match keys.position(kid.as_str()) {
            Some(i) => i,
            None => return Err(AuthError::KeyNotFound),
        };
        proof {
            let j = choose|j: int| first_key_with(keys.keys@, kid@, j);
            assert(first_key_with(keys.keys@, kid@, i as int));
            lemma_first_key_unique(keys.keys@, kid@, i as int, j);
        }
        let key = &keys.keys[i];
        let claims = match decode_claims(
            token.token.as_str(),
            key.n.as_str(),
            key.e.as_str(),
            self.issuer.as_str(),
            self.audience.as_str(),
        ) {
            Some(c) => c,
            None => return Err(AuthError::InvalidToken),
        };
        if (claims.exp as i128) + (EXPIRY_LEEWAY_SECONDS as i128) < (now as i128) {
            return Err(AuthError::TokenExpired);
        }
        self.authorize(claims)
    }
}

} // verus!
