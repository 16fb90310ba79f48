//! Papra webhook validation: the signature and timestamp check on the raw
//! request, and the mapping of a document event onto a document upsert.

use vstd::prelude::*;

use crate::crypto::{
    base64_standard_decode,
    base64_standard_decode_spec,
    base64_url_safe_no_pad_decode,
    base64_url_safe_no_pad_decode_spec,
    constant_time_eq,
    hmac_sha256,
    hmac_sha256_spec,
};
use crate::embeddings::{
    content_hash,
    content_hash_spec,
    embedding_input_hash,
    embedding_input_hash_spec,
    utf8,
    MODEL_NAME,
};
use crate::json::{opt_as_str, opt_json_ref, or_member, Json, JsonValue};
use crate::storage::{DocumentUpsert, DocumentUpsertView};
use crate::text::{
    chars_of,
    has_prefix,
    is_white_space,
    is_white_space_char,
    parse_i64,
    parse_i64_spec,
    push_all,
    string_from_chars,
    chars_eq,
};

verus! {

/// Why a webhook request was refused before its payload was read.
#[derive(Clone, Copy, Debug, PartialEq, Eq, Structural)]
pub enum WebhookError {
    /// The timestamp header is not a decimal integer.
    InvalidTimestamp,
    /// The timestamp is further from the current time than the tolerance.
    TimestampExpired,
    /// The shared secret cannot key the MAC.
    InvalidSecret,
    /// No whitespace-separated part of the signature header begins with `v1,`.
    UnsupportedSignature,
    /// The `v1` signature is not Base64.
    MalformedSignature,
    /// The `v1` signature does not match the request.
    InvalidSignature,
}

impl WebhookError {
    /// The text of the error, as it is reported to the client.
    pub open spec fn message_spec(self) -> Seq<char> {
        match self {
            WebhookError::InvalidTimestamp => "invalid webhook timestamp"@,
            WebhookError::TimestampExpired => "webhook timestamp expired"@,
            WebhookError::InvalidSecret => "invalid webhook secret"@,
            WebhookError::UnsupportedSignature => "unsupported webhook signature"@,
            WebhookError::MalformedSignature => "malformed webhook signature"@,
            WebhookError::InvalidSignature => "invalid webhook signature"@,
        }
    }

    /// The text of the error, as it is reported to the client.
    pub fn message(&self) -> (r: String)
        ensures
            r@ == self.message_spec(),
    {
        match self {
            WebhookError::InvalidTimestamp => "invalid webhook timestamp".to_owned(),
            WebhookError::TimestampExpired => "webhook timestamp expired".to_owned(),
            WebhookError::InvalidSecret => "invalid webhook secret".to_owned(),
            WebhookError::UnsupportedSignature => "unsupported webhook signature".to_owned(),
            WebhookError::MalformedSignature => "malformed webhook signature".to_owned(),
            WebhookError::InvalidSignature => "invalid webhook signature".to_owned(),
        }
    }
}

/// The bytes that are signed: `{webhook-id}.{webhook-timestamp}.` and the body.
pub open spec fn signing_payload(webhook_id: Seq<char>, timestamp: Seq<char>, body: Seq<u8>) -> Seq<u8> {
    utf8(webhook_id) + seq![46u8] + utf8(timestamp) + seq![46u8] + body
}

/// The number of characters before the first white space of `s`.
pub open spec fn token_len(s: Seq<char>) -> nat
    decreases s.len(),
{
    if s.len() == 0 || is_white_space(s[0]) {
        0
    } else {
        1 + token_len(s.drop_first())
    }
}

/// Scans `s` for the first whitespace-separated part that begins with `v1,`
/// and gives the rest of that part; `at_start` says whether `s` begins a part.
pub open spec fn v1_candidate_from(s: Seq<char>, at_start: bool) -> Option<Seq<char>>
    decreases s.len(),
{
    if s.len() == 0 {
        None
    } else if is_white_space(s[0]) {
        v1_candidate_from(s.drop_first(), true)
    } else if at_start && has_prefix(s, "v1,"@) {
        let rest = s.skip(3);
        Some(rest.take(token_len(rest) as int))
    } else {
        v1_candidate_from(s.drop_first(), false)
    }
}

/// The `v1` signature in a signature header: what
/// `header.split_whitespace().find_map(|part| part.strip_prefix("v1,"))` gives.
pub open spec fn v1_candidate(header: Seq<char>) -> Option<Seq<char>> {
    v1_candidate_from(header, true)
}

/// The signature bytes of Base64 text: standard Base64 first, then URL-safe
/// Base64 without padding.
pub open spec fn decode_signature_spec(text: Seq<u8>) -> Option<Seq<u8>> {
    match base64_standard_decode_spec(text) {
        Some(d) => Some(d),
        None => base64_url_safe_no_pad_decode_spec(text),
    }
}

/// The distance between two instants, in seconds.
pub open spec fn abs_diff(a: int, b: int) -> int {
    if a >= b {
        a - b
    } else {
        b - a
    }
}

/// The outcome of checking a webhook request's signature and timestamp.
pub open spec fn verify_signature_spec(
    secret: Seq<u8>,
    webhook_id: Seq<char>,
    timestamp: Seq<char>,
    signature: Seq<char>,
    body: Seq<u8>,
    tolerance_seconds: int,
    now: int,
) -> Result<(), WebhookError> {
    match parse_i64_spec(timestamp) {
        None => Err(WebhookError::InvalidTimestamp),
        Some(ts) => if abs_diff(now, ts as int) > tolerance_seconds {
            Err(WebhookError::TimestampExpired)
        } else {
            match hmac_sha256_spec(secret, signing_payload(webhook_id, timestamp, body)) {
                None => Err(WebhookError::InvalidSecret),
                Some(expected) => match v1_candidate(signature) {
                    None => Err(WebhookError::UnsupportedSignature),
                    Some(candidate) => match decode_signature_spec(utf8(candidate)) {
                        None => Err(WebhookError::MalformedSignature),
                        Some(decoded) => if decoded == expected {
                            Ok(())
                        } else {
                            Err(WebhookError::InvalidSignature)
                        },
                    },
                },
            }
        },
    }
}

/// The `v1` signature in a signature header.
fn find_v1_candidate(header: &[char]) -> (r: Option<Vec<char>>)
    ensures
        r matches Some(v) ==> v1_candidate(header@) == Some(v@),
        r is None ==> v1_candidate(header@) is None,
{
    let n = header.len();
    let mut i: usize = 0;
    let mut at_start = true;
    assert(header@.skip(0) =~= header@);
    while i < n
        invariant
            i <= n == header@.len(),
            v1_candidate(header@) == v1_candidate_from(header@.skip(i as int), at_start),
        decreases n - i,
    {
        let ghost rest = header@.skip(i as int);
        assert(rest.drop_first() =~= header@.skip(i + 1));
        let c = header[i];
        assert(rest[0] == c);
        if is_white_space_char(c) {
            at_start = true;
            i = i + 1;
        } else if at_start && 3 <= n - i && header[i] == 'v' && header[i + 1] == '1' && header[i
            + 2] == ',' {
            proof {
                reveal_strlit("v1,");
                assert(rest.take(3) =~= "v1,"@);
            }
            let ghost after = rest.skip(3);
            let mut v: Vec<char> = Vec::new();
            let mut k: usize = i + 3;
            while k < n && !is_white_space_char(header[k])
                invariant
                    i + 3 <= k <= n == header@.len(),
                    after == header@.skip(i + 3),
                    v@ == header@.subrange(i + 3, k as int),
                    forall|m: int| i + 3 <= m < k ==> !is_white_space(#[trigger] header@[m]),
                decreases n - k,
            {
                v.push(header[k]);
                k = k + 1;
            }
            proof {
                lemma_token_len(after, k - (i + 3));
                assert(after.take(k - (i + 3)) =~= v@);
            }
            return Some(v);
        } else {
            proof {
                if at_start {
                    reveal_strlit("v1,");
                    if has_prefix(rest, "v1,"@) {
                        assert(rest.take(3)[0] == 'v');
                        assert(rest.take(3)[1] == '1');
                        assert(rest.take(3)[2] == ',');
                        assert(false);
                    }
                }
            }
            at_start = false;
            i = i + 1;
        }
    }
    assert(header@.skip(i as int).len() == 0);
    None
}

/// The token length of a sequence whose first `k` characters are no white
/// space and whose `k`-th is white space (or absent).
proof fn lemma_token_len(s: Seq<char>, k: int)
    requires
        0 <= k <= s.len(),
        forall|m: int| 0 <= m < k ==> !is_white_space(#[trigger] s[m]),
        k == s.len() || is_white_space(s[k]),
    ensures
        token_len(s) == k,
    decreases k,
{
    if k > 0 {
        let t = s.drop_first();
        assert forall|m: int| 0 <= m < k - 1 implies !is_white_space(#[trigger] t[m]) by {
            assert(t[m] == s[m + 1]);
        }
        lemma_token_len(t, k - 1);
    }
}

/// Checks a webhook request: the timestamp must be a decimal integer within
/// `tolerance_seconds` of `now`, and the `v1` signature in the signature header
/// must decode from Base64 to the HMAC-SHA256 of
/// `{webhook_id}.{timestamp}.{body}` under `secret`. The bytes are compared in
/// constant time.
pub fn verify_signature(
    secret: &[u8],
    webhook_id: &str,
    timestamp: &str,
    signature: &str,
    body: &[u8],
    tolerance_seconds: i64,
    now: i64,
) -> (r: Result<(), WebhookError>)
    ensures
        r == verify_signature_spec(
            secret@,
            webhook_id@,
            timestamp@,
            signature@,
            body@,
            tolerance_seconds as int,
            now as int,
        ),
{
    let ts_chars = chars_of(timestamp);
    let ts = match parse_i64(ts_chars.as_slice()) {
        Some(ts) => ts,
        None => return Err(WebhookError::InvalidTimestamp),
    };
    let diff: i128 = (now as i128) - (ts as i128);
    let distance: i128 = if diff < 0 {
        -diff
    } else {
        diff
    };
    if distance > tolerance_seconds as i128 {
        return Err(WebhookError::TimestampExpired);
    }
    let mut payload: Vec<u8> = Vec::new();
    push_all(&mut payload, webhook_id.as_bytes());
    payload.push(46u8);
    push_all(&mut payload, timestamp.as_bytes());
    payload.push(46u8);
    push_all(&mut payload, body);
    assert(payload@ =~= signing_payload(webhook_id@, timestamp@, body@));
    let expected = match hmac_sha256(secret, payload.as_slice()) {
        Some(tag) => tag,
        None => return Err(WebhookError::InvalidSecret),
    };
    let header = chars_of(signature);
    let candidate = match find_v1_candidate(header.as_slice()) {
        Some(c) => c,
        None => return Err(WebhookError::UnsupportedSignature),
    };
    let candidate_text = string_from_chars(candidate.as_slice());
    let candidate_bytes = candidate_text.as_str().as_bytes();
    let decoded = match base64_standard_decode(candidate_bytes) {
        Some(d) => d,
        None => match base64_url_safe_no_pad_decode(candidate_bytes) {
            Some(d) => d,
            None => return Err(WebhookError::MalformedSignature),
        },
    };
    if !constant_time_eq(expected.as_slice(), decoded.as_slice()) {
        return Err(WebhookError::InvalidSignature);
    }
    Ok(())
}


/// Why a document event could not be mapped onto a document upsert.
#[derive(Clone, Copy, Debug, PartialEq, Eq, Structural)]
pub enum MapError {
    EventTypeRequired,
    UnsupportedEventType,
    DocumentRequired,
    OrganizationRequired,
    OrganizationMismatch,
    DocumentIdRequired,
    ContentHashRequired,
}

impl MapError {
    /// The text of the error, as it is reported to the client.
    pub open spec fn message_spec(self) -> Seq<char> {
        match self {
            MapError::EventTypeRequired => "event type is required"@,
            MapError::UnsupportedEventType => "unsupported event type"@,
            MapError::DocumentRequired => "document payload is required"@,
            MapError::OrganizationRequired => "organization identifier is required"@,
            MapError::OrganizationMismatch => "event organization is not configured organization"@,
            MapError::DocumentIdRequired => "document identifier is required"@,
            MapError::ContentHashRequired => "content hash or searchable text is required"@,
        }
    }

    /// The text of the error, as it is reported to the client.
    pub fn message(&self) -> (r: String)
        ensures
            r@ == self.message_spec(),
    {
        match self {
            MapError::EventTypeRequired => "event type is required".to_owned(),
            MapError::UnsupportedEventType => "unsupported event type".to_owned(),
            MapError::DocumentRequired => "document payload is required".to_owned(),
            MapError::OrganizationRequired => "organization identifier is required".to_owned(),
            MapError::OrganizationMismatch => "event organization is not configured organization".to_owned(),
            MapError::DocumentIdRequired => "document identifier is required".to_owned(),
            MapError::ContentHashRequired => "content hash or searchable text is required".to_owned(),
        }
    }
}

/// The event type of an event: `type`, else `event_type`, when it is a string.
pub open spec fn event_type_of(value: Json) -> Option<Seq<char>> {
    opt_as_str(or_member(value.get("type"@), value, "event_type"@))
}

/// Whether an event type names a created or updated document, in any of the
/// spellings Papra uses (`document:updated` is the one it sends today).
pub open spec fn is_document_event(t: Seq<char>) -> bool {
    ||| t == "document:created"@
    ||| t == "document:updated"@
    ||| t == "document.created"@
    ||| t == "document.updated"@
    ||| t == "document_created"@
    ||| t == "document_updated"@
}

/// The document of an event: `data.document`, else `document`, else `data`.
pub open spec fn document_of(value: Json) -> Option<Json> {
    let nested = match value.get("data"@) {
        Some(d) => d.get("document"@),
        None => None,
    };
    or_member(or_member(nested, value, "document"@), value, "data"@)
}

/// The first present member of `doc` among two names.
pub open spec fn member2(doc: Json, a: Seq<char>, b: Seq<char>) -> Option<Json> {
    or_member(doc.get(a), doc, b)
}

/// The first present member of `doc` among three names.
pub open spec fn member3(doc: Json, a: Seq<char>, b: Seq<char>, c: Seq<char>) -> Option<Json> {
    or_member(member2(doc, a, b), doc, c)
}

/// The first present member of `doc` among four names.
pub open spec fn member4(doc: Json, a: Seq<char>, b: Seq<char>, c: Seq<char>, d: Seq<char>) -> Option<Json> {
    or_member(member3(doc, a, b, c), doc, d)
}

/// The first present member of `doc` among five names.
pub open spec fn member5(
    doc: Json,
    a: Seq<char>,
    b: Seq<char>,
    c: Seq<char>,
    d: Seq<char>,
    e: Seq<char>,
) -> Option<Json> {
    or_member(member4(doc, a, b, c, d), doc, e)
}

/// `s` without its trailing occurrences of `c`, as `str::trim_end_matches` gives it.
pub open spec fn trim_end_char(s: Seq<char>, c: char) -> Seq<char>
    decreases s.len(),
{
    if s.len() > 0 && s.last() == c {
        trim_end_char(s.drop_last(), c)
    } else {
        s
    }
}

/// The Papra link of a document under a base URL.
pub open spec fn document_link(base: Seq<char>, id: Seq<char>) -> Seq<char> {
    trim_end_char(base, '/') + "/documents/"@ + id
}

/// The text of an optional string slice.
pub open spec fn opt_str_text(o: Option<&str>) -> Option<Seq<char>> {
    match o {
        Some(s) => Some(s@),
        None => None,
    }
}

/// `o`, or the empty text when absent.
pub open spec fn text_or_empty(o: Option<Seq<char>>) -> Seq<char> {
    match o {
        Some(s) => s,
        None => Seq::empty(),
    }
}

/// The outcome of mapping a Papra document event onto a document upsert.
pub open spec fn map_event_spec(
    value: Json,
    expected_org: Seq<char>,
    base_url: Option<Seq<char>>,
    now: Seq<char>,
) -> Result<(Seq<char>, DocumentUpsertView), MapError> {
    match event_type_of(value) {
        None => Err(MapError::EventTypeRequired),
        Some(t) => if !is_document_event(t) {
            Err(MapError::UnsupportedEventType)
        } else {
            match document_of(value) {
                None => Err(MapError::DocumentRequired),
                Some(doc) => match opt_as_str(
                    member3(doc, "organization_id"@, "organizationId"@, "org_id"@),
                ) {
                    None => Err(MapError::OrganizationRequired),
                    Some(org) => if org != expected_org {
                        Err(MapError::OrganizationMismatch)
                    } else {
                        match opt_as_str(member3(doc, "id"@, "document_id"@, "documentId"@)) {
                            None => Err(MapError::DocumentIdRequired),
                            Some(id) => upsert_from_document(t, doc, org, id, base_url, now),
                        }
                    },
                },
            }
        },
    }
}

/// The upsert of a document event whose type, organization and identifier
/// have been read: its hash is required.
pub open spec fn upsert_from_document(
    t: Seq<char>,
    doc: Json,
    org: Seq<char>,
    id: Seq<char>,
    base_url: Option<Seq<char>>,
    now: Seq<char>,
) -> Result<(Seq<char>, DocumentUpsertView), MapError> {
    let title = opt_as_str(member2(doc, "title"@, "name"@));
    let content = opt_as_str(
        member5(doc, "content"@, "text"@, "body"@, "searchable_text"@, "searchableText"@),
    );
    let hash = match opt_as_str(member3(doc, "content_hash"@, "contentHash"@, "hash"@)) {
        Some(h) => Some(h),
        None => match content {
            Some(c) => Some(content_hash_spec(c)),
            None => None,
        },
    };
    let source_url = match opt_as_str(member3(doc, "source_url"@, "sourceUrl"@, "url"@)) {
        Some(u) => Some(u),
        None => match base_url {
            Some(b) => Some(document_link(b, id)),
            None => None,
        },
    };
    match hash {
        None => Err(MapError::ContentHashRequired),
        Some(h) => Ok(
            (
                t,
                DocumentUpsertView {
                    organization_id: org,
                    papra_document_id: id,
                    title: title,
                    content: content,
                    content_hash: h,
                    embedding_input_hash: embedding_input_hash_spec(
                        text_or_empty(title),
                        text_or_empty(content),
                    ),
                    tags: doc.get("tags"@),
                    attributes: member4(
                        doc,
                        "attributes"@,
                        "properties"@,
                        "custom_properties"@,
                        "customProperties"@,
                    ),
                    source_url: source_url,
                    embedding_model: MODEL_NAME@,
                    updated_at: now,
                },
            ),
        ),
    }
}

/// Whether two strings are equal.
fn str_eq(a: &str, b: &str) -> (r: bool)
    ensures
        r == (a@ == b@),
{
    let x = chars_of(a);
    let y = chars_of(b);
    chars_eq(x.as_slice(), y.as_slice())
}

/// An owned copy of an optional string slice.
fn owned(o: Option<&str>) -> (r: Option<String>)
    ensures
        crate::storage::opt_text(r) == opt_str_text(o),
{
    match o {
        Some(s) => Some(s.to_owned()),
        None => None,
    }
}

/// An owned copy of an optional JSON value.
fn owned_json(o: Option<&JsonValue>) -> (r: Option<JsonValue>)
    ensures
        crate::json::opt_json(r) == opt_json_ref(o),
{
    match o {
        Some(v) => Some(v.deep_clone()),
        None => None,
    }
}

/// The Papra link of a document under a base URL.
fn document_link_text(base: &str, id: &str) -> (r: String)
    ensures
        r@ == document_link(base@, id@),
{
    let b = chars_of(base);
    let mut end: usize = b.len();
    assert(b@.take(b@.len() as int) =~= b@);
    while end > 0 && b[end - 1] == '/'
        invariant
            end <= b@.len(),
            trim_end_char(b@, '/') == trim_end_char(b@.take(end as int), '/'),
        decreases end,
    {
        assert(b@.take(end as int).drop_last() =~= b@.take(end - 1));
        end = end - 1;
    }
    let mut v: Vec<char> = Vec::new();
    let mut k: usize = 0;
    while k < end
        invariant
            k <= end <= b@.len(),
            v@ == b@.take(k as int),
        decreases end - k,
    {
        v.push(b[k]);
        assert(b@.take(k + 1) =~= b@.take(k as int).push(b@[k as int]));
        k = k + 1;
    }
    assert(trim_end_char(b@.take(end as int), '/') == b@.take(end as int));
    push_all(&mut v, chars_of("/documents/").as_slice());
    push_all(&mut v, chars_of(id).as_slice());
    assert(b@.take(b@.len() as int) =~= b@);
    string_from_chars(v.as_slice())
}


/// The upsert of a document event whose type, organization and identifier
/// have been read.
fn build_upsert(
    event_type: &str,
    doc: &JsonValue,
    org: &str,
    id: &str,
    base_url: Option<&str>,
    now: String,
) -> (r: Result<(String, DocumentUpsert), MapError>)
    ensures
        match r {
            Ok((t, d)) => upsert_from_document(event_type@, doc@, org@, id@, opt_str_text(base_url), now@)
                == Ok::<(Seq<char>, DocumentUpsertView), MapError>((t@, d@)),
            Err(e) => upsert_from_document(event_type@, doc@, org@, id@, opt_str_text(base_url), now@)
                == Err::<(Seq<char>, DocumentUpsertView), MapError>(e),
        },
{
    let title = JsonValue::opt_str(JsonValue::or_get(doc.get("title"), doc, "name"));
    let content = JsonValue::opt_str(
        JsonValue::or_get(
            JsonValue::or_get(
                JsonValue::or_get(JsonValue::or_get(doc.get("content"), doc, "text"), doc, "body"),
                doc,
                "searchable_text",
            ),
            doc,
            "searchableText",
        ),
    );
    let hash: String = match JsonValue::opt_str(
        JsonValue::or_get(JsonValue::or_get(doc.get("content_hash"), doc, "contentHash"), doc, "hash"),
    ) {
        Some(h) => h.to_owned(),
        None => match content {
            Some(c) => content_hash(c),
            None => return Err(MapError::ContentHashRequired),
        },
    };
    let title_for_hash: &str = match title {
        Some(t) => t,
        None => "",
    };
    let content_for_hash: &str = match content {
        Some(c) => c,
        None => "",
    };
    proof {
        reveal_strlit("");
    }
    let input_hash = embedding_input_hash(title_for_hash, content_for_hash);
    let tags = owned_json(doc.get("tags"));
    let attributes = owned_json(
        JsonValue::or_get(
            JsonValue::or_get(
                JsonValue::or_get(doc.get("attributes"), doc, "properties"),
                doc,
                "custom_properties",
            ),
            doc,
            "customProperties",
        ),
    );
    let source_url: Option<String> = match JsonValue::opt_str(
        JsonValue::or_get(JsonValue::or_get(doc.get("source_url"), doc, "sourceUrl"), doc, "url"),
    ) {
        Some(u) => Some(u.to_owned()),
        None => match base_url {
            Some(b) => Some(document_link_text(b, id)),
            None => None,
        },
    };
    let input = DocumentUpsert {
        organization_id: org.to_owned(),
        papra_document_id: id.to_owned(),
        title: owned(title),
        content: owned(content),
        content_hash: hash,
        embedding_input_hash: input_hash,
        tags,
        attributes,
        source_url,
        embedding_model: MODEL_NAME.to_owned(),
        updated_at: now,
    };
    Ok((event_type.to_owned(), input))
}

/// Maps a Papra document event onto the document upsert it asks for.
///
/// Accepts `document:created`, `document:updated`, `document.created`,
/// `document.updated`, `document_created` and `document_updated` events for the configured organization; reads the
/// document from `data.document`, `document` or `data`, and each field under
/// the first of its known names that is present.
pub fn map_event(
    value: &JsonValue,
    expected_org: &str,
    base_url: Option<&str>,
    now: String,
) -> (r: Result<(String, DocumentUpsert), MapError>)
    ensures
        match r {
            Ok((t, d)) => map_event_spec(value@, expected_org@, opt_str_text(base_url), now@)
                == Ok::<(Seq<char>, DocumentUpsertView), MapError>((t@, d@)),
            Err(e) => map_event_spec(value@, expected_org@, opt_str_text(base_url), now@) == Err::<
                (Seq<char>, DocumentUpsertView),
                MapError,
            >(e),
        },
{
    let event_type = match JsonValue::opt_str(JsonValue::or_get(value.get("type"), value, "event_type")) {
        Some(t) => t,
        None => return Err(MapError::EventTypeRequired),
    };
    if !(str_eq(event_type, "document:created") || str_eq(event_type, "document:updated") || str_eq(
        event_type,
        "document.created",
    ) || str_eq(event_type, "document.updated") || str_eq(event_type, "document_created") || str_eq(
        event_type,
        "document_updated",
    )) {
        return Err(MapError::UnsupportedEventType);
    }
    let nested = match value.get("data") {
        Some(d) => d.get("document"),
        None => None,
    };
    let document = match JsonValue::or_get(JsonValue::or_get(nested, value, "document"), value, "data") {
        Some(d) => d,
        None => return Err(MapError::DocumentRequired),
    };
    let doc = document;
    let org = match JsonValue::opt_str(
        JsonValue::or_get(JsonValue::or_get(doc.get("organization_id"), doc, "organizationId"), doc, "org_id"),
    ) {
        Some(o) => o,
        None => return Err(MapError::OrganizationRequired),
    };
    if !str_eq(org, expected_org) {
        return Err(MapError::OrganizationMismatch);
    }
    let id = match JsonValue::opt_str(
        JsonValue::or_get(JsonValue::or_get(doc.get("id"), doc, "document_id"), doc, "documentId"),
    ) {
        Some(i) => i,
        None => return Err(MapError::DocumentIdRequired),
    };
    build_upsert(event_type, doc, org, id, base_url, now)
}



#[verifier::external_type_specification]
#[verifier::external_body]
pub struct ExSystemTime(std::time::SystemTime);

#[verifier::external_type_specification]
#[verifier::external_body]
pub struct ExSystemTimeError(std::time::SystemTimeError);

/// `std::time::SystemTime::now` reads the clock: nothing is stated of the instant.
pub assume_specification[ std::time::SystemTime::now ]() -> std::time::SystemTime;

/// `std::time::SystemTime::duration_since`: nothing is stated of the outcome,
/// which depends on the clock.
pub assume_specification[ std::time::SystemTime::duration_since ](
    this: &std::time::SystemTime,
    earlier: std::time::SystemTime,
) -> Result<std::time::Duration, std::time::SystemTimeError>;

/// `std::time::Duration::as_secs`: nothing is stated of the seconds.
pub assume_specification[ std::time::Duration::as_secs ](d: &std::time::Duration) -> u64;

/// The Unix epoch.
#[verifier::external_body]
fn unix_epoch() -> std::time::SystemTime {
    std::time::UNIX_EPOCH
}

/// The seconds since the Unix epoch that a clock reading gives: the whole
/// seconds elapsed (`Some`), taken as an `i64` as `as` does, or zero for a
/// reading before the epoch (`None`).
pub open spec fn unix_seconds_spec(elapsed: Option<u64>) -> i64 {
    match elapsed {
        Some(s) => s as i64,
        None => 0,
    }
}

/// The seconds since the Unix epoch that a clock reading gives.
pub fn unix_seconds(elapsed: Option<u64>) -> (r: i64)
    ensures
        r == unix_seconds_spec(elapsed),
{
    match elapsed {
        Some(s) => s as i64,
        None => 0,
    }
}

/// The current time in whole seconds since the Unix epoch; zero when the clock
/// reads an earlier instant: `unix_seconds` of the clock's reading. Nothing is
/// stated of the reading, which only the clock decides.
pub fn current_unix_time() -> i64 {
    let now = std::time::SystemTime::now();
    let elapsed: Option<u64> = match now.duration_since(unix_epoch()) {
        Ok(d) => Some(d.as_secs()),
        Err(_) => None,
    };
    unix_seconds(elapsed)
}

/// A mapped document event keeps what the event carries: the title from
/// `title`/`name`, the content from its known names, the supplied content hash
/// (else the hash of the content; an event with neither is refused), and the
/// event's own `source_url`/`sourceUrl`/`url` whatever base URL is
/// configured; only when the event has no source URL is a link under the base
/// URL made. The embedding input hash is that of the mapped title and content.
pub proof fn mapped_upsert_keeps_event_fields(
    t: Seq<char>,
    doc: Json,
    org: Seq<char>,
    id: Seq<char>,
    base_url: Option<Seq<char>>,
    now: Seq<char>,
)
    ensures
        ({
            let title = opt_as_str(member2(doc, "title"@, "name"@));
            let content = opt_as_str(
                member5(doc, "content"@, "text"@, "body"@, "searchable_text"@, "searchableText"@),
            );
            let hash = opt_as_str(member3(doc, "content_hash"@, "contentHash"@, "hash"@));
            let url = opt_as_str(member3(doc, "source_url"@, "sourceUrl"@, "url"@));
            let r = upsert_from_document(t, doc, org, id, base_url, now);
            &&& (r is Err <==> (hash is None && content is None))
            &&& r matches Err(e) ==> e == MapError::ContentHashRequired
            &&& r matches Ok((kind, d)) ==> {
                &&& kind == t
                &&& d.organization_id == org
                &&& d.papra_document_id == id
                &&& d.title == title
                &&& d.content == content
                &&& (hash matches Some(h) ==> d.content_hash == h)
                &&& (hash is None ==> d.content_hash == content_hash_spec(content->0))
                &&& (url matches Some(u) ==> d.source_url == Some(u))
                &&& (url is None ==> (base_url matches Some(b) ==> d.source_url == Some(
                    trim_end_char(b, '/') + "/documents/"@ + id,
                )))
                &&& (url is None && base_url is None ==> d.source_url is None)
                &&& d.embedding_input_hash == embedding_input_hash_spec(
                    match title {
                        Some(x) => x,
                        None => Seq::empty(),
                    },
                    match content {
                        Some(x) => x,
                        None => Seq::empty(),
                    },
                )
                &&& d.updated_at == now
                &&& d.embedding_model == MODEL_NAME@
            }
        }),
{
}

} // verus!
