//! Validated service configuration, read from environment variables.
//!
//! The program around the library reads the variables; this module decides
//! what they mean and which values are refused.

use vstd::prelude::*;

use crate::secret::{secret_text, SecretValue};
use crate::storage::opt_text;
use crate::text::{
    ascii_lowercase,
    ascii_lowercase_chars,
    chars_eq,
    chars_of,
    parse_bool,
    parse_bool_spec,
    parse_i64,
    parse_i64_spec,
    parse_usize,
    parse_usize_spec,
    push_all,
    string_from_chars,
    strip_prefix,
    strip_prefix_chars,
    trim,
    trim_chars,
};

verus! {

/// The environment variables the service reads.
#[derive(Clone, Copy, Debug, PartialEq, Eq, Structural)]
pub enum Variable {
    DatabaseUrl,
    SqliteVecExtensionPath,
    PapraWebhookSecret,
    PapraOrganizationId,
    GoogleClientId,
    GoogleClientSecret,
    GoogleRedirectUri,
    GoogleIssuer,
    GoogleAllowedEmails,
    AuthEnabled,
    PapraBaseUrl,
    WebhookTimestampToleranceSeconds,
    SearchResultLimit,
    OtelExporterOtlpEndpoint,
}

impl Variable {
    /// The name of the variable.
    pub open spec fn name_spec(self) -> Seq<char> {
        match self {
            Variable::DatabaseUrl => "DATABASE_URL"@,
            Variable::SqliteVecExtensionPath => "SQLITE_VEC_EXTENSION_PATH"@,
            Variable::PapraWebhookSecret => "PAPRA_WEBHOOK_SECRET"@,
            Variable::PapraOrganizationId => "PAPRA_ORGANIZATION_ID"@,
            Variable::GoogleClientId => "GOOGLE_CLIENT_ID"@,
            Variable::GoogleClientSecret => "GOOGLE_CLIENT_SECRET"@,
            Variable::GoogleRedirectUri => "GOOGLE_REDIRECT_URI"@,
            Variable::GoogleIssuer => "GOOGLE_ISSUER"@,
            Variable::GoogleAllowedEmails => "GOOGLE_ALLOWED_EMAILS"@,
            Variable::AuthEnabled => "AUTH_ENABLED"@,
            Variable::PapraBaseUrl => "PAPRA_BASE_URL"@,
            Variable::WebhookTimestampToleranceSeconds => "WEBHOOK_TIMESTAMP_TOLERANCE_SECONDS"@,
            Variable::SearchResultLimit => "SEARCH_RESULT_LIMIT"@,
            Variable::OtelExporterOtlpEndpoint => "OTEL_EXPORTER_OTLP_ENDPOINT"@,
        }
    }

    /// The name of the variable.
    pub fn name(&self) -> (r: &'static str)
        ensures
            r@ == self.name_spec(),
    {
        match self {
            Variable::DatabaseUrl => "DATABASE_URL",
            Variable::SqliteVecExtensionPath => "SQLITE_VEC_EXTENSION_PATH",
            Variable::PapraWebhookSecret => "PAPRA_WEBHOOK_SECRET",
            Variable::PapraOrganizationId => "PAPRA_ORGANIZATION_ID",
            Variable::GoogleClientId => "GOOGLE_CLIENT_ID",
            Variable::GoogleClientSecret => "GOOGLE_CLIENT_SECRET",
            Variable::GoogleRedirectUri => "GOOGLE_REDIRECT_URI",
            Variable::GoogleIssuer => "GOOGLE_ISSUER",
            Variable::GoogleAllowedEmails => "GOOGLE_ALLOWED_EMAILS",
            Variable::AuthEnabled => "AUTH_ENABLED",
            Variable::PapraBaseUrl => "PAPRA_BASE_URL",
            Variable::WebhookTimestampToleranceSeconds => "WEBHOOK_TIMESTAMP_TOLERANCE_SECONDS",
            Variable::SearchResultLimit => "SEARCH_RESULT_LIMIT",
            Variable::OtelExporterOtlpEndpoint => "OTEL_EXPORTER_OTLP_ENDPOINT",
        }
    }
}

/// The values of the environment variables; `None` for a variable that is
/// unset (or not valid Unicode).
#[derive(Debug)]
pub struct EnvironmentValues {
    pub database_url: Option<String>,
    pub sqlite_vec_extension_path: Option<String>,
    pub papra_webhook_secret: Option<String>,
    pub papra_organization_id: Option<String>,
    pub google_client_id: Option<String>,
    pub google_client_secret: Option<String>,
    pub google_redirect_uri: Option<String>,
    pub google_issuer: Option<String>,
    pub google_allowed_emails: Option<String>,
    pub auth_enabled: Option<String>,
    pub papra_base_url: Option<String>,
    pub webhook_timestamp_tolerance_seconds: Option<String>,
    pub search_result_limit: Option<String>,
    pub otel_exporter_otlp_endpoint: Option<String>,
}

/// Why a configuration was refused.
#[derive(Clone, Copy, Debug, PartialEq, Eq, Structural)]
pub enum ConfigError {
    /// A required variable is unset.
    Missing(Variable),
    /// A required variable holds only white space.
    Empty(Variable),
    /// A numeric variable is not an integer of its type.
    NotInteger(Variable),
    /// A numeric variable is zero or negative.
    NotPositive(Variable),
    /// `AUTH_ENABLED` is neither `true` nor `false`.
    NotBoolean(Variable),
    /// `GOOGLE_ALLOWED_EMAILS` names no email.
    NoAllowedEmails,
}

impl ConfigError {
    /// The text of the error.
    pub open spec fn message_spec(self) -> Seq<char> {
        match self {
            ConfigError::Missing(v) => "required environment variable "@ + v.name_spec()
                + " is missing"@,
            ConfigError::Empty(v) => v.name_spec() + " must not be empty"@,
            ConfigError::NotInteger(v) => v.name_spec() + " must be an integer"@,
            ConfigError::NotPositive(v) => v.name_spec() + " must be positive"@,
            ConfigError::NotBoolean(v) => v.name_spec() + " must be true or false"@,
            ConfigError::NoAllowedEmails => "GOOGLE_ALLOWED_EMAILS must contain at least one email"@,
        }
    }

    /// The text of the error.
    pub fn message(&self) -> (r: String)
        ensures
            r@ == self.message_spec(),
    {
        let mut v: Vec<char> = Vec::new();
        match self {
            ConfigError::Missing(var) => {
                push_all(&mut v, chars_of("required environment variable ").as_slice());
                push_all(&mut v, chars_of(var.name()).as_slice());
                push_all(&mut v, chars_of(" is missing").as_slice());
            },
            ConfigError::Empty(var) => {
                push_all(&mut v, chars_of(var.name()).as_slice());
                push_all(&mut v, chars_of(" must not be empty").as_slice());
            },
            ConfigError::NotInteger(var) => {
                push_all(&mut v, chars_of(var.name()).as_slice());
                push_all(&mut v, chars_of(" must be an integer").as_slice());
            },
            ConfigError::NotPositive(var) => {
                push_all(&mut v, chars_of(var.name()).as_slice());
                push_all(&mut v, chars_of(" must be positive").as_slice());
            },
            ConfigError::NotBoolean(var) => {
                push_all(&mut v, chars_of(var.name()).as_slice());
                push_all(&mut v, chars_of(" must be true or false").as_slice());
            },
            ConfigError::NoAllowedEmails => {
                push_all(
                    &mut v,
                    chars_of("GOOGLE_ALLOWED_EMAILS must contain at least one email").as_slice(),
                );
            },
        }
        string_from_chars(v.as_slice())
    }
}

/// The parts of `s` between the occurrences of `sep`, as `str::split` gives them.
pub open spec fn split_on(s: Seq<char>, sep: char) -> Seq<Seq<char>>
    decreases s.len(),
{
    if s.len() == 0 {
        seq![Seq::empty()]
    } else {
        let parts = split_on(s.drop_last(), sep);
        if s.last() == sep {
            parts.push(Seq::empty())
        } else {
            parts.update(parts.len() - 1, parts.last().push(s.last()))
        }
    }
}

/// A split always has at least one part.
pub proof fn lemma_split_on_nonempty(s: Seq<char>, sep: char)
    ensures
        split_on(s, sep).len() >= 1,
    decreases s.len(),
{
    if s.len() > 0 {
        lemma_split_on_nonempty(s.drop_last(), sep);
    }
}

/// The normalized emails of a list: trimmed, in ASCII lower case, empty ones dropped.
pub open spec fn normalized_emails(parts: Seq<Seq<char>>) -> Seq<Seq<char>>
    decreases parts.len(),
{
    if parts.len() == 0 {
        Seq::empty()
    } else {
        let rest = normalized_emails(parts.drop_last());
        let e = ascii_lowercase(trim(parts.last()));
        if e.len() == 0 {
            rest
        } else {
            rest.push(e)
        }
    }
}

/// `s` without repeated elements, each kept where it first occurs.
pub open spec fn dedup(s: Seq<Seq<char>>) -> Seq<Seq<char>>
    decreases s.len(),
{
    if s.len() == 0 {
        Seq::empty()
    } else {
        let d = dedup(s.drop_last());
        if d.contains(s.last()) {
            d
        } else {
            d.push(s.last())
        }
    }
}

/// The allowed emails of a `GOOGLE_ALLOWED_EMAILS` value, in the order they
/// first occur.
pub open spec fn allowed_emails_spec(raw: Seq<char>) -> Seq<Seq<char>> {
    dedup(normalized_emails(split_on(raw, ',')))
}

/// The text of each string of a list.
pub open spec fn texts(v: Seq<String>) -> Seq<Seq<char>> {
    v.map_values(|s: String| s@)
}


/// Whether `list` holds `text`.
fn contains_text(list: &Vec<String>, text: &[char]) -> (r: bool)
    ensures
        r == texts(list@).contains(text@),
{
    let mut i: usize = 0;
    while i < list.len()
        invariant
            i <= list@.len(),
            forall|k: int| 0 <= k < i ==> list@[k]@ != text@,
        decreases list@.len() - i,
    {
        if chars_eq(chars_of(list[i].as_str()).as_slice(), text) {
            assert(texts(list@)[i as int] == text@);
            return true;
        }
        i = i + 1;
    }
    proof {
        if texts(list@).contains(text@) {
            let k = choose|k: int| 0 <= k < texts(list@).len() && texts(list@)[k] == text@;
            assert(list@[k]@ == text@);
        }
    }
    false
}

/// Adds the normalized form of `part` to `emails` unless it is empty or present.
fn add_email(emails: &mut Vec<String>, part: &[char], Ghost(done): Ghost<Seq<Seq<char>>>)
    requires
        texts(old(emails)@) == dedup(normalized_emails(done)),
    ensures
        texts(final(emails)@) == dedup(normalized_emails(done.push(part@))),
{
    let trimmed = trim_chars(part);
    let lowered = ascii_lowercase_chars(trimmed.as_slice());
    assert(done.push(part@).drop_last() =~= done);
    assert(done.push(part@).last() == part@);
    if lowered.len() > 0 && !contains_text(emails, lowered.as_slice()) {
        let ghost before = emails@;
        emails.push(string_from_chars(lowered.as_slice()));
        assert(texts(emails@) =~= texts(before).push(lowered@));
        assert(normalized_emails(done.push(part@)) == normalized_emails(done).push(lowered@));
        assert(normalized_emails(done.push(part@)).drop_last() =~= normalized_emails(done));
    } else if lowered.len() > 0 {
        assert(normalized_emails(done.push(part@)).drop_last() =~= normalized_emails(done));
    }
}

/// The allowed emails of a `GOOGLE_ALLOWED_EMAILS` value: the comma-separated
/// parts, trimmed and in ASCII lower case, without empty ones and without
/// repetitions.
pub fn allowed_emails(raw: &[char]) -> (r: Vec<String>)
    ensures
        texts(r@) == allowed_emails_spec(raw@),
{
    let mut emails: Vec<String> = Vec::new();
    let mut current: Vec<char> = Vec::new();
    let ghost mut done: Seq<Seq<char>> = Seq::empty();
    let mut i: usize = 0;
    assert(raw@.take(0) =~= Seq::<char>::empty());
    assert(texts(emails@) =~= Seq::<Seq<char>>::empty());
    while i < raw.len()
        invariant
            i <= raw@.len(),
            split_on(raw@.take(i as int), ',') == done.push(current@),
            texts(emails@) == dedup(normalized_emails(done)),
        decreases raw@.len() - i,
    {
        let c = raw[i];
        assert(raw@.take(i + 1).drop_last() =~= raw@.take(i as int));
        assert(raw@.take(i + 1).last() == c);
        if c == ',' {
            add_email(&mut emails, current.as_slice(), Ghost(done));
            proof {
                done = done.push(current@);
            }
            current = Vec::new();
            assert(split_on(raw@.take(i + 1), ',') =~= done.push(current@));
        } else {
            current.push(c);
            assert(split_on(raw@.take(i + 1), ',') =~= done.push(current@));
        }
        i = i + 1;
    }
    assert(raw@.take(raw@.len() as int) =~= raw@);
    add_email(&mut emails, current.as_slice(), Ghost(done));
    emails
}

/// A validated configuration.
pub struct Config {
    pub database_url: String,
    pub sqlite_vec_extension_path: String,
    pub papra_webhook_secret: SecretValue,
    pub papra_organization_id: String,
    pub google_client_id: SecretValue,
    pub google_client_secret: SecretValue,
    pub google_redirect_uri: String,
    pub google_issuer: String,
    /// Allowed emails, in ASCII lower case, each once.
    pub google_allowed_emails: Vec<String>,
    pub auth_enabled: bool,
    pub papra_base_url: Option<String>,
    pub webhook_timestamp_tolerance_seconds: i64,
    pub search_result_limit: usize,
    pub otel_exporter_endpoint: Option<String>,
}

/// The value of a [`Config`].
pub struct ConfigView {
    pub database_url: Seq<char>,
    pub sqlite_vec_extension_path: Seq<char>,
    pub papra_webhook_secret: Seq<char>,
    pub papra_organization_id: Seq<char>,
    pub google_client_id: Seq<char>,
    pub google_client_secret: Seq<char>,
    pub google_redirect_uri: Seq<char>,
    pub google_issuer: Seq<char>,
    pub google_allowed_emails: Seq<Seq<char>>,
    pub auth_enabled: bool,
    pub papra_base_url: Option<Seq<char>>,
    pub webhook_timestamp_tolerance_seconds: i64,
    pub search_result_limit: usize,
    pub otel_exporter_endpoint: Option<Seq<char>>,
}

impl View for Config {
    type V = ConfigView;

    open spec fn view(&self) -> ConfigView {
        ConfigView {
            database_url: self.database_url@,
            sqlite_vec_extension_path: self.sqlite_vec_extension_path@,
            papra_webhook_secret: secret_text(self.papra_webhook_secret),
            papra_organization_id: self.papra_organization_id@,
            google_client_id: secret_text(self.google_client_id),
            google_client_secret: secret_text(self.google_client_secret),
            google_redirect_uri: self.google_redirect_uri@,
            google_issuer: self.google_issuer@,
            google_allowed_emails: texts(self.google_allowed_emails@),
            auth_enabled: self.auth_enabled,
            papra_base_url: opt_text(self.papra_base_url),
            webhook_timestamp_tolerance_seconds: self.webhook_timestamp_tolerance_seconds,
            search_result_limit: self.search_result_limit,
            otel_exporter_endpoint: opt_text(self.otel_exporter_endpoint),
        }
    }
}

/// Why a required variable is refused, if it is.
pub open spec fn required_error(value: Option<Seq<char>>, var: Variable) -> Option<ConfigError> {
    match value {
        None => Some(ConfigError::Missing(var)),
        Some(s) => if trim(s).len() == 0 {
            Some(ConfigError::Empty(var))
        } else {
            None
        },
    }
}

/// `first` when it is an error, else `then`.
pub open spec fn first_error(first: Option<ConfigError>, then: Option<ConfigError>) -> Option<ConfigError> {
    match first {
        Some(e) => Some(e),
        None => then,
    }
}

/// The first refused required variable among those the configuration reads
/// after the allowed emails, in the order it reads them.
pub open spec fn other_required_error(env: EnvironmentValues) -> Option<ConfigError> {
    first_error(
        required_error(opt_text(env.database_url), Variable::DatabaseUrl),
        first_error(
            required_error(opt_text(env.sqlite_vec_extension_path), Variable::SqliteVecExtensionPath),
            first_error(
                required_error(opt_text(env.papra_webhook_secret), Variable::PapraWebhookSecret),
                first_error(
                    required_error(opt_text(env.papra_organization_id), Variable::PapraOrganizationId),
                    first_error(
                        required_error(opt_text(env.google_client_id), Variable::GoogleClientId),
                        first_error(
                            required_error(
                                opt_text(env.google_client_secret),
                                Variable::GoogleClientSecret,
                            ),
                            first_error(
                                required_error(
                                    opt_text(env.google_redirect_uri),
                                    Variable::GoogleRedirectUri,
                                ),
                                required_error(opt_text(env.google_issuer), Variable::GoogleIssuer),
                            ),
                        ),
                    ),
                ),
            ),
        ),
    )
}

/// The text of a present value.
pub open spec fn value_of(value: Option<Seq<char>>) -> Seq<char> {
    match value {
        Some(s) => s,
        None => Seq::empty(),
    }
}

/// The configuration the environment describes, or why it is refused. Checks
/// run in this order: the timestamp tolerance (default `300`, an `i64`, at
/// least 1), the search result limit (default `20`, a `usize`, at least 1,
/// capped at 100), `AUTH_ENABLED` (default `true`), the allowed emails
/// (required, at least one), then the other required variables in the order of
/// the fields. A required variable that holds only white space is refused;
/// one that is accepted is kept as it is.
pub open spec fn config_spec(env: EnvironmentValues) -> Result<ConfigView, ConfigError> {
    let tolerance = crate::storage::text_or(
        opt_text(env.webhook_timestamp_tolerance_seconds),
        "300"@,
    );
    let limit = crate::storage::text_or(opt_text(env.search_result_limit), "20"@);
    let auth = crate::storage::text_or(opt_text(env.auth_enabled), "true"@);
    match parse_i64_spec(tolerance) {
        None => Err(ConfigError::NotInteger(Variable::WebhookTimestampToleranceSeconds)),
        Some(t) => if t <= 0 {
            Err(ConfigError::NotPositive(Variable::WebhookTimestampToleranceSeconds))
        } else {
            match parse_usize_spec(limit) {
                None => Err(ConfigError::NotInteger(Variable::SearchResultLimit)),
                Some(l) => if l == 0 {
                    Err(ConfigError::NotPositive(Variable::SearchResultLimit))
                } else {
                    match parse_bool_spec(auth) {
                        None => Err(ConfigError::NotBoolean(Variable::AuthEnabled)),
                        Some(auth_enabled) => match required_error(
                            opt_text(env.google_allowed_emails),
                            Variable::GoogleAllowedEmails,
                        ) {
                            Some(e) => Err(e),
                            None => {
                                let emails = allowed_emails_spec(
                                    value_of(opt_text(env.google_allowed_emails)),
                                );
                                if emails.len() == 0 {
                                    Err(ConfigError::NoAllowedEmails)
                                } else {
                                    match other_required_error(env) {
                                        Some(e) => Err(e),
                                        None => Ok(
                                            ConfigView {
                                                database_url: value_of(opt_text(env.database_url)),
                                                sqlite_vec_extension_path: value_of(
                                                    opt_text(env.sqlite_vec_extension_path),
                                                ),
                                                papra_webhook_secret: value_of(
                                                    opt_text(env.papra_webhook_secret),
                                                ),
                                                papra_organization_id: value_of(
                                                    opt_text(env.papra_organization_id),
                                                ),
                                                google_client_id: value_of(opt_text(env.google_client_id)),
                                                google_client_secret: value_of(
                                                    opt_text(env.google_client_secret),
                                                ),
                                                google_redirect_uri: value_of(
                                                    opt_text(env.google_redirect_uri),
                                                ),
                                                google_issuer: value_of(opt_text(env.google_issuer)),
                                                google_allowed_emails: emails,
                                                auth_enabled,
                                                papra_base_url: opt_text(env.papra_base_url),
                                                webhook_timestamp_tolerance_seconds: t,
                                                search_result_limit: if l < 100 {
                                                    l
                                                } else {
                                                    100
                                                },
                                                otel_exporter_endpoint: opt_text(
                                                    env.otel_exporter_otlp_endpoint,
                                                ),
                                            },
                                        ),
                                    }
                                }
                            },
                        },
                    }
                },
            }
        },
    }
}


/// A required variable, or why it is refused.
fn required(value: &Option<String>, var: Variable) -> (r: Result<String, ConfigError>)
    ensures
        match r {
            Ok(s) => required_error(opt_text(*value), var) is None && s@ == value_of(opt_text(*value)),
            Err(e) => required_error(opt_text(*value), var) == Some(e),
        },
{
    match value {
        None => Err(ConfigError::Missing(var)),
        Some(s) => {
            let t = trim_chars(chars_of(s.as_str()).as_slice());
            if t.len() == 0 {
                Err(ConfigError::Empty(var))
            } else {
                Ok(s.clone())
            }
        },
    }
}

/// The characters of a variable's value, or of `default` when it is unset.
fn value_or(value: &Option<String>, default: &str) -> (r: Vec<char>)
    ensures
        r@ == crate::storage::text_or(opt_text(*value), default@),
{
    match value {
        Some(s) => chars_of(s.as_str()),
        None => chars_of(default),
    }
}

impl Config {
    /// Validates the configuration the environment describes.
    pub fn from_env(env: &EnvironmentValues) -> (r: Result<Config, ConfigError>)
        ensures
            match r {
                Ok(c) => config_spec(*env) == Ok::<ConfigView, ConfigError>(c@),
                Err(e) => config_spec(*env) == Err::<ConfigView, ConfigError>(e),
            },
    {
        let tolerance = match parse_i64(value_or(&env.webhook_timestamp_tolerance_seconds, "300").as_slice()) {
            Some(t) => t,
            None => return Err(ConfigError::NotInteger(Variable::WebhookTimestampToleranceSeconds)),
        };
        if tolerance <= 0 {
            return Err(ConfigError::NotPositive(Variable::WebhookTimestampToleranceSeconds));
        }
        let limit = match parse_usize(value_or(&env.search_result_limit, "20").as_slice()) {
            Some(l) => l,
            None => return Err(ConfigError::NotInteger(Variable::SearchResultLimit)),
        };
        if limit == 0 {
            return Err(ConfigError::NotPositive(Variable::SearchResultLimit));
        }
        let auth_enabled = match parse_bool(value_or(&env.auth_enabled, "true").as_slice()) {
            Some(b) => b,
            None => return Err(ConfigError::NotBoolean(Variable::AuthEnabled)),
        };
        let raw_emails = required(&env.google_allowed_emails, Variable::GoogleAllowedEmails)?;
        let google_allowed_emails = allowed_emails(chars_of(raw_emails.as_str()).as_slice());
        if google_allowed_emails.len() == 0 {
            return Err(ConfigError::NoAllowedEmails);
        }
        let database_url = required(&env.database_url, Variable::DatabaseUrl)?;
        let sqlite_vec_extension_path = required(
            &env.sqlite_vec_extension_path,
            Variable::SqliteVecExtensionPath,
        )?;
        let papra_webhook_secret = required(&env.papra_webhook_secret, Variable::PapraWebhookSecret)?;
        let papra_organization_id = required(&env.papra_organization_id, Variable::PapraOrganizationId)?;
        let google_client_id = required(&env.google_client_id, Variable::GoogleClientId)?;
        let google_client_secret = required(&env.google_client_secret, Variable::GoogleClientSecret)?;
        let google_redirect_uri = required(&env.google_redirect_uri, Variable::GoogleRedirectUri)?;
        let google_issuer = required(&env.google_issuer, Variable::GoogleIssuer)?;
        Ok(
            Config {
                database_url,
                sqlite_vec_extension_path,
                papra_webhook_secret: SecretValue::new(papra_webhook_secret),
                papra_organization_id,
                google_client_id: SecretValue::new(google_client_id),
                google_client_secret: SecretValue::new(google_client_secret),
                google_redirect_uri,
                google_issuer,
                google_allowed_emails,
                auth_enabled,
                papra_base_url: crate::storage::clone_opt_string(&env.papra_base_url),
                webhook_timestamp_tolerance_seconds: tolerance,
                search_result_limit: if limit < 100 {
                    limit
                } else {
                    100
                },
                otel_exporter_endpoint: crate::storage::clone_opt_string(
                    &env.otel_exporter_otlp_endpoint,
                ),
            },
        )
    }

    /// The SQLite path of the database URL: without a leading `sqlite://`.
    pub fn database_path(&self) -> (r: String)
        ensures
            r@ == match strip_prefix(self.database_url@, "sqlite://"@) {
                Some(p) => p,
                None => self.database_url@,
            },
    {
        let url = chars_of(self.database_url.as_str());
        match strip_prefix_chars(url.as_slice(), chars_of("sqlite://").as_slice()) {
            Some(p) => string_from_chars(p.as_slice()),
            None => self.database_url.clone(),
        }
    }

    /// The Google client identifier.
    pub fn google_client_id(&self) -> (r: &str)
        ensures
            r@ == self@.google_client_id,
    {
        self.google_client_id.expose()
    }

    /// The Google client secret.
    pub fn google_client_secret(&self) -> (r: &str)
        ensures
            r@ == self@.google_client_secret,
    {
        self.google_client_secret.expose()
    }
}


/// The text `format!("{:?}", text)` writes for a string: quoted and escaped.
pub uninterp spec fn debug_quote_spec(text: Seq<char>) -> Seq<char>;

/// Calls `format!("{:?}", text)`. Trusted: the result is the quoted, escaped
/// form of `text` that `<str as Debug>::fmt` writes, named by `debug_quote_spec`.
#[verifier::external_body]
fn debug_quote(text: &str) -> (r: String)
    ensures
        r@ == debug_quote_spec(text@),
{
    format!("{:?}", text)
}

/// The text that stands for a secret in diagnostics.
pub open spec fn redacted() -> Seq<char> {
    "[REDACTED]"@
}

/// The debug text of an optional string.
pub open spec fn debug_option(o: Option<Seq<char>>) -> Seq<char> {
    match o {
        Some(s) => "Some("@ + debug_quote_spec(s) + ")"@,
        None => "None"@,
    }
}

/// The quoted items of a set, separated by `, `.
pub open spec fn debug_items(items: Seq<Seq<char>>) -> Seq<char>
    decreases items.len(),
{
    if items.len() == 0 {
        Seq::empty()
    } else if items.len() == 1 {
        debug_quote_spec(items[0])
    } else {
        debug_items(items.drop_last()) + ", "@ + debug_quote_spec(items.last())
    }
}

/// The debug text of a boolean.
pub open spec fn bool_text(b: bool) -> Seq<char> {
    if b {
        "true"@
    } else {
        "false"@
    }
}

/// The redacted debug text of a configuration: every field in the form
/// `Debug` writes it, except the webhook secret and the Google client
/// identifier and secret, which read `"[REDACTED]"`.
pub open spec fn debug_text_spec(c: ConfigView) -> Seq<char> {
    "Config { database_url: "@ + debug_quote_spec(c.database_url)
        + ", sqlite_vec_extension_path: "@ + debug_quote_spec(c.sqlite_vec_extension_path)
        + ", papra_webhook_secret: "@ + debug_quote_spec(redacted())
        + ", papra_organization_id: "@ + debug_quote_spec(c.papra_organization_id)
        + ", google_client_id: "@ + debug_quote_spec(redacted())
        + ", google_client_secret: "@ + debug_quote_spec(redacted())
        + ", google_redirect_uri: "@ + debug_quote_spec(c.google_redirect_uri)
        + ", google_issuer: "@ + debug_quote_spec(c.google_issuer)
        + ", google_allowed_emails: {"@ + debug_items(c.google_allowed_emails)
        + "}, auth_enabled: "@ + bool_text(c.auth_enabled)
        + ", papra_base_url: "@ + debug_option(c.papra_base_url)
        + ", webhook_timestamp_tolerance_seconds: "@ + crate::text::signed_decimal_text(
        c.webhook_timestamp_tolerance_seconds as int,
    ) + ", search_result_limit: "@ + crate::text::decimal_text(c.search_result_limit as nat)
        + ", otel_exporter_endpoint: "@ + debug_option(c.otel_exporter_endpoint) + " }"@
}

/// Appends the characters of `text`.
fn put(v: &mut Vec<char>, text: &str)
    ensures
        final(v)@ == old(v)@ + text@,
{
    push_all(v, chars_of(text).as_slice());
}

/// Appends the debug text of `text`.
fn put_quoted(v: &mut Vec<char>, text: &str)
    ensures
        final(v)@ == old(v)@ + debug_quote_spec(text@),
{
    let q = debug_quote(text);
    push_all(v, chars_of(q.as_str()).as_slice());
}

/// Appends the debug text of an optional string.
fn put_option(v: &mut Vec<char>, o: &Option<String>)
    ensures
        final(v)@ == old(v)@ + debug_option(opt_text(*o)),
{
    match o {
        Some(s) => {
            let ghost before = v@;
            put(v, "Some(");
            put_quoted(v, s.as_str());
            put(v, ")");
            assert(v@ =~= before + debug_option(opt_text(*o)));
        },
        None => put(v, "None"),
    }
}

/// Appends the quoted items of a list, separated by `, `.
fn put_items(v: &mut Vec<char>, items: &Vec<String>)
    ensures
        final(v)@ == old(v)@ + debug_items(texts(items@)),
{
    let mut i: usize = 0;
    assert(texts(items@).take(0) =~= Seq::<Seq<char>>::empty());
    while i < items.len()
        invariant
            i <= items@.len(),
            v@ == old(v)@ + debug_items(texts(items@).take(i as int)),
        decreases items@.len() - i,
    {
        let ghost before = v@;
        let ghost t = texts(items@);
        assert(t.take(i + 1).drop_last() =~= t.take(i as int));
        assert(t.take(i + 1).last() == items@[i as int]@);
        if i > 0 {
            put(v, ", ");
        }
        put_quoted(v, items[i].as_str());
        proof {
            if i == 0 {
                assert(t.take(1)[0] == items@[0]@);
                assert(v@ =~= before + debug_items(t.take(1)));
            } else {
                assert(v@ =~= old(v)@ + debug_items(t.take(i + 1)));
            }
        }
        i = i + 1;
    }
    assert(texts(items@).take(items@.len() as int) =~= texts(items@));
}

impl Config {
    /// The redacted debug text of the configuration, for diagnostics: the
    /// secrets read `"[REDACTED]"`.
    pub fn debug_text(&self) -> (r: String)
        ensures
            r@ == debug_text_spec(self@),
    {
        let mut v: Vec<char> = Vec::new();
        put(&mut v, "Config { database_url: ");
        put_quoted(&mut v, self.database_url.as_str());
        put(&mut v, ", sqlite_vec_extension_path: ");
        put_quoted(&mut v, self.sqlite_vec_extension_path.as_str());
        put(&mut v, ", papra_webhook_secret: ");
        put_quoted(&mut v, "[REDACTED]");
        put(&mut v, ", papra_organization_id: ");
        put_quoted(&mut v, self.papra_organization_id.as_str());
        put(&mut v, ", google_client_id: ");
        put_quoted(&mut v, "[REDACTED]");
        put(&mut v, ", google_client_secret: ");
        put_quoted(&mut v, "[REDACTED]");
        put(&mut v, ", google_redirect_uri: ");
        put_quoted(&mut v, self.google_redirect_uri.as_str());
        put(&mut v, ", google_issuer: ");
        put_quoted(&mut v, self.google_issuer.as_str());
        put(&mut v, ", google_allowed_emails: {");
        put_items(&mut v, &self.google_allowed_emails);
        put(&mut v, "}, auth_enabled: ");
        if self.auth_enabled {
            put(&mut v, "true");
        } else {
            put(&mut v, "false");
        }
        put(&mut v, ", papra_base_url: ");
        put_option(&mut v, &self.papra_base_url);
        put(&mut v, ", webhook_timestamp_tolerance_seconds: ");
        push_all(
            &mut v,
            crate::text::signed_decimal_chars(self.webhook_timestamp_tolerance_seconds).as_slice(),
        );
        put(&mut v, ", search_result_limit: ");
        push_all(&mut v, crate::text::decimal_chars(self.search_result_limit as u64).as_slice());
        put(&mut v, ", otel_exporter_endpoint: ");
        put_option(&mut v, &self.otel_exporter_endpoint);
        put(&mut v, " }");
        assert(v@ =~= debug_text_spec(self@));
        string_from_chars(v.as_slice())
    }
}

/// Diagnostics never depend on the secrets: two configurations that differ only
/// in the webhook secret and the Google client identifier and secret have the
/// same debug text.
pub proof fn debug_text_hides_secrets(a: ConfigView, b: ConfigView)
    requires
        a.database_url == b.database_url,
        a.sqlite_vec_extension_path == b.sqlite_vec_extension_path,
        a.papra_organization_id == b.papra_organization_id,
        a.google_redirect_uri == b.google_redirect_uri,
        a.google_issuer == b.google_issuer,
        a.google_allowed_emails == b.google_allowed_emails,
        a.auth_enabled == b.auth_enabled,
        a.papra_base_url == b.papra_base_url,
        a.webhook_timestamp_tolerance_seconds == b.webhook_timestamp_tolerance_seconds,
        a.search_result_limit == b.search_result_limit,
        a.otel_exporter_endpoint == b.otel_exporter_endpoint,
    ensures
        debug_text_spec(a) == debug_text_spec(b),
{
}

/// Every accepted configuration has a positive timestamp tolerance, a result
/// limit between 1 and 100, and at least one allowed email, each in ASCII lower
/// case, trimmed, non-empty and listed once.
pub proof fn accepted_config_is_bounded(env: EnvironmentValues)
    requires
        config_spec(env) is Ok,
    ensures
        ({
            let c = config_spec(env)->Ok_0;
            &&& c.webhook_timestamp_tolerance_seconds > 0
            &&& 1 <= c.search_result_limit <= 100
            &&& c.google_allowed_emails.len() > 0
            &&& c.google_allowed_emails.no_duplicates()
            &&& forall|i: int| 0 <= i < c.google_allowed_emails.len() ==> {
                let e = #[trigger] c.google_allowed_emails[i];
                &&& e.len() > 0
                &&& e == ascii_lowercase(e)
            }
        }),
{
    let raw = value_of(opt_text(env.google_allowed_emails));
    let parts = split_on(raw, ',');
    lemma_normalized_emails_shape(parts);
    lemma_dedup_shape(normalized_emails(parts));
}

/// Normalized emails are non-empty and in ASCII lower case.
pub proof fn lemma_normalized_emails_shape(parts: Seq<Seq<char>>)
    ensures
        forall|i: int| 0 <= i < normalized_emails(parts).len() ==> {
            let e = #[trigger] normalized_emails(parts)[i];
            &&& e.len() > 0
            &&& e == ascii_lowercase(e)
        },
    decreases parts.len(),
{
    if parts.len() > 0 {
        lemma_normalized_emails_shape(parts.drop_last());
        let e = ascii_lowercase(trim(parts.last()));
        assert(ascii_lowercase(e) =~= e);
        let rest = normalized_emails(parts.drop_last());
        assert forall|i: int| 0 <= i < normalized_emails(parts).len() implies ({
            let x = #[trigger] normalized_emails(parts)[i];
            &&& x.len() > 0
            &&& x == ascii_lowercase(x)
        }) by {
            if i < rest.len() {
                assert(normalized_emails(parts)[i] == rest[i]);
            }
        }
    }
}

/// Removing repetitions keeps only elements of the sequence, each once.
pub proof fn lemma_dedup_shape(s: Seq<Seq<char>>)
    ensures
        dedup(s).no_duplicates(),
        forall|i: int| 0 <= i < dedup(s).len() ==> s.contains(#[trigger] dedup(s)[i]),
    decreases s.len(),
{
    if s.len() > 0 {
        let t = s.drop_last();
        lemma_dedup_shape(t);
        assert forall|i: int| 0 <= i < dedup(s).len() implies s.contains(#[trigger] dedup(s)[i]) by {
            if i < dedup(t).len() {
                let x = dedup(t)[i];
                assert(t.contains(x));
                let k = choose|k: int| 0 <= k < t.len() && t[k] == x;
                assert(s[k] == x);
            } else {
                assert(s[s.len() - 1] == s.last());
            }
        }
    }
}

/// An accepted configuration uses the configured search result limit (`20`
/// when unset), capped at 100: a limit of 100 or less is kept as it is.
pub proof fn accepted_limit_is_capped_value(env: EnvironmentValues, l: usize)
    requires
        config_spec(env) is Ok,
        parse_usize_spec(crate::storage::text_or(opt_text(env.search_result_limit), "20"@)) == Some(l),
    ensures
        config_spec(env)->Ok_0.search_result_limit == if l <= 100 {
            l
        } else {
            100
        },
        l <= 100 ==> config_spec(env)->Ok_0.search_result_limit == l,
{
}

/// An accepted configuration keeps what the environment says: each required
/// variable exactly as given, the optional base URL and metrics endpoint as
/// given, the parsed timestamp tolerance (`300` when unset) and the parsed
/// `AUTH_ENABLED` (`true` when unset).
pub proof fn accepted_config_keeps_values(env: EnvironmentValues, t: i64, auth: bool)
    requires
        config_spec(env) is Ok,
        parse_i64_spec(crate::storage::text_or(opt_text(env.webhook_timestamp_tolerance_seconds), "300"@))
            == Some(t),
        parse_bool_spec(crate::storage::text_or(opt_text(env.auth_enabled), "true"@)) == Some(auth),
    ensures
        ({
            let c = config_spec(env)->Ok_0;
            &&& opt_text(env.database_url) == Some(c.database_url)
            &&& opt_text(env.sqlite_vec_extension_path) == Some(c.sqlite_vec_extension_path)
            &&& opt_text(env.papra_webhook_secret) == Some(c.papra_webhook_secret)
            &&& opt_text(env.papra_organization_id) == Some(c.papra_organization_id)
            &&& opt_text(env.google_client_id) == Some(c.google_client_id)
            &&& opt_text(env.google_client_secret) == Some(c.google_client_secret)
            &&& opt_text(env.google_redirect_uri) == Some(c.google_redirect_uri)
            &&& opt_text(env.google_issuer) == Some(c.google_issuer)
            &&& c.papra_base_url == opt_text(env.papra_base_url)
            &&& c.otel_exporter_endpoint == opt_text(env.otel_exporter_otlp_endpoint)
            &&& c.webhook_timestamp_tolerance_seconds == t
            &&& c.auth_enabled == auth
        }),
{
    assert(other_required_error(env) is None);
}

} // verus!
