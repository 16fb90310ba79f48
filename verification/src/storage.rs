//! The decisions behind document storage: what a document upsert writes,
//! when a document needs a new embedding, and whether an existing database
//! fits the configured model. The program around the library runs the SQL.

use vstd::prelude::*;

use crate::embeddings::{embedding_input_hash, embedding_input_hash_spec, MODEL_NAME};
use crate::json::{json_text, opt_json, Json, JsonValue};
use crate::text::{chars_eq, chars_of, decimal_chars, decimal_text, push_all, string_from_chars};

verus! {

/// Document fields used to update persistent storage.
#[derive(Debug)]
pub struct DocumentUpsert {
    /// Papra organization identifier.
    pub organization_id: String,
    /// Papra document identifier.
    pub papra_document_id: String,
    /// Optional document title.
    pub title: Option<String>,
    /// Optional searchable content.
    pub content: Option<String>,
    /// Hash of the document content.
    pub content_hash: String,
    /// Hash of the normalized embedding input.
    pub embedding_input_hash: String,
    /// Optional document tags.
    pub tags: Option<JsonValue>,
    /// Optional document attributes.
    pub attributes: Option<JsonValue>,
    /// Optional source URL.
    pub source_url: Option<String>,
    /// Embedding model used to generate the vector.
    pub embedding_model: String,
    /// Timestamp for the update.
    pub updated_at: String,
}

/// The value of a [`DocumentUpsert`].
pub struct DocumentUpsertView {
    pub organization_id: Seq<char>,
    pub papra_document_id: Seq<char>,
    pub title: Option<Seq<char>>,
    pub content: Option<Seq<char>>,
    pub content_hash: Seq<char>,
    pub embedding_input_hash: Seq<char>,
    pub tags: Option<Json>,
    pub attributes: Option<Json>,
    pub source_url: Option<Seq<char>>,
    pub embedding_model: Seq<char>,
    pub updated_at: Seq<char>,
}

/// The text of an optional string.
pub open spec fn opt_text(o: Option<String>) -> Option<Seq<char>> {
    match o {
        Some(s) => Some(s@),
        None => None,
    }
}

impl View for DocumentUpsert {
    type V = DocumentUpsertView;

    open spec fn view(&self) -> DocumentUpsertView {
        DocumentUpsertView {
            organization_id: self.organization_id@,
            papra_document_id: self.papra_document_id@,
            title: opt_text(self.title),
            content: opt_text(self.content),
            content_hash: self.content_hash@,
            embedding_input_hash: self.embedding_input_hash@,
            tags: opt_json(self.tags),
            attributes: opt_json(self.attributes),
            source_url: opt_text(self.source_url),
            embedding_model: self.embedding_model@,
            updated_at: self.updated_at@,
        }
    }
}


/// A copy of an optional string.
pub fn clone_opt_string(o: &Option<String>) -> (r: Option<String>)
    ensures
        opt_text(r) == opt_text(*o),
{
    match o {
        Some(s) => Some(s.clone()),
        None => None,
    }
}

/// A copy of an optional JSON value.
pub fn clone_opt_json(o: &Option<JsonValue>) -> (r: Option<JsonValue>)
    ensures
        opt_json(r) == opt_json(*o),
{
    match o {
        Some(v) => Some(v.deep_clone()),
        None => None,
    }
}

impl Clone for DocumentUpsert {
    fn clone(&self) -> (r: Self)
        ensures
            r@ == self@,
    {
        DocumentUpsert {
            organization_id: self.organization_id.clone(),
            papra_document_id: self.papra_document_id.clone(),
            title: clone_opt_string(&self.title),
            content: clone_opt_string(&self.content),
            content_hash: self.content_hash.clone(),
            embedding_input_hash: self.embedding_input_hash.clone(),
            tags: clone_opt_json(&self.tags),
            attributes: clone_opt_json(&self.attributes),
            source_url: clone_opt_string(&self.source_url),
            embedding_model: self.embedding_model.clone(),
            updated_at: self.updated_at.clone(),
        }
    }
}

/// A stored document row: every column but the organization and document
/// identifiers that key it.
#[derive(Debug)]
pub struct StoredDocument {
    /// Internal row identifier; zero for a row not yet inserted.
    pub id: i64,
    pub title: String,
    pub content: String,
    pub content_hash: String,
    pub embedding_input_hash: String,
    /// Tags, as JSON text.
    pub tags: String,
    /// Attributes, as JSON text.
    pub attributes: String,
    pub source_url: Option<String>,
    pub embedding_model: String,
    pub created_at: String,
    pub updated_at: String,
    /// Time of the last write that changed `content_hash`.
    pub content_updated_at: String,
    /// Time of the last write that changed `embedding_input_hash`.
    pub embedding_updated_at: String,
}

/// The value of a [`StoredDocument`].
pub struct StoredDocumentView {
    pub id: i64,
    pub title: Seq<char>,
    pub content: Seq<char>,
    pub content_hash: Seq<char>,
    pub embedding_input_hash: Seq<char>,
    pub tags: Seq<char>,
    pub attributes: Seq<char>,
    pub source_url: Option<Seq<char>>,
    pub embedding_model: Seq<char>,
    pub created_at: Seq<char>,
    pub updated_at: Seq<char>,
    pub content_updated_at: Seq<char>,
    pub embedding_updated_at: Seq<char>,
}

impl View for StoredDocument {
    type V = StoredDocumentView;

    open spec fn view(&self) -> StoredDocumentView {
        StoredDocumentView {
            id: self.id,
            title: self.title@,
            content: self.content@,
            content_hash: self.content_hash@,
            embedding_input_hash: self.embedding_input_hash@,
            tags: self.tags@,
            attributes: self.attributes@,
            source_url: opt_text(self.source_url),
            embedding_model: self.embedding_model@,
            created_at: self.created_at@,
            updated_at: self.updated_at@,
            content_updated_at: self.content_updated_at@,
            embedding_updated_at: self.embedding_updated_at@,
        }
    }
}

/// What an upsert writes.
#[derive(Debug)]
pub struct UpsertPlan {
    /// The row to write; its `id` is zero when the row is to be inserted.
    pub row: StoredDocument,
    /// Whether the content hash differs from the stored one (always for a new row).
    pub content_changed: bool,
    /// Whether the vector is to be replaced (always for a new row).
    pub embedding_changed: bool,
}

/// The value of an [`UpsertPlan`].
pub struct UpsertPlanView {
    pub row: StoredDocumentView,
    pub content_changed: bool,
    pub embedding_changed: bool,
}

impl View for UpsertPlan {
    type V = UpsertPlanView;

    open spec fn view(&self) -> UpsertPlanView {
        UpsertPlanView {
            row: self.row@,
            content_changed: self.content_changed,
            embedding_changed: self.embedding_changed,
        }
    }
}

/// Why a storage operation was refused.
#[derive(Debug)]
pub enum StorageError {
    /// The upsert names another embedding model.
    UnsupportedModel,
    /// A new document has no title.
    TitleRequired,
    /// A new document has no content.
    ContentRequired,
    /// A new document lacks its title or its content.
    NewDocumentFieldsRequired,
    /// The embedding input changed and no vector was supplied.
    EmbeddingRequired,
    /// The supplied vector has the wrong number of dimensions.
    EmbeddingDimensionMismatch { actual: usize, expected: usize },
    /// The database was created for another model.
    IncompatibleModel { previous: String, model: String },
    /// The database was created for vectors of another dimension.
    IncompatibleDimension { previous: String, dimension: usize },
    /// A search vector has the wrong number of dimensions.
    QueryDimensionMismatch,
}

/// The value of a [`StorageError`].
pub enum StorageErrorView {
    UnsupportedModel,
    TitleRequired,
    ContentRequired,
    NewDocumentFieldsRequired,
    EmbeddingRequired,
    EmbeddingDimensionMismatch { actual: usize, expected: usize },
    IncompatibleModel { previous: Seq<char>, model: Seq<char> },
    IncompatibleDimension { previous: Seq<char>, dimension: usize },
    QueryDimensionMismatch,
}

impl View for StorageError {
    type V = StorageErrorView;

    open spec fn view(&self) -> StorageErrorView {
        match self {
            StorageError::UnsupportedModel => StorageErrorView::UnsupportedModel,
            StorageError::TitleRequired => StorageErrorView::TitleRequired,
            StorageError::ContentRequired => StorageErrorView::ContentRequired,
            StorageError::NewDocumentFieldsRequired => StorageErrorView::NewDocumentFieldsRequired,
            StorageError::EmbeddingRequired => StorageErrorView::EmbeddingRequired,
            StorageError::EmbeddingDimensionMismatch { actual, expected } =>
                StorageErrorView::EmbeddingDimensionMismatch { actual: *actual, expected: *expected },
            StorageError::IncompatibleModel { previous, model } =>
                StorageErrorView::IncompatibleModel { previous: previous@, model: model@ },
            StorageError::IncompatibleDimension { previous, dimension } =>
                StorageErrorView::IncompatibleDimension { previous: previous@, dimension: *dimension },
            StorageError::QueryDimensionMismatch => StorageErrorView::QueryDimensionMismatch,
        }
    }
}

impl StorageErrorView {
    /// The text of the error.
    pub open spec fn message(self) -> Seq<char> {
        match self {
            StorageErrorView::UnsupportedModel => "unsupported embedding model"@,
            StorageErrorView::TitleRequired => "title is required for a new document"@,
            StorageErrorView::ContentRequired => "content is required for a new document"@,
            StorageErrorView::NewDocumentFieldsRequired =>
                "title and searchable text are required for a new document"@,
            StorageErrorView::EmbeddingRequired => "embedding required for changed input"@,
            StorageErrorView::EmbeddingDimensionMismatch { actual, expected } => "embedding dimension "@
                + decimal_text(actual as nat) + " does not match "@ + decimal_text(expected as nat),
            StorageErrorView::IncompatibleModel { previous, model } => "database embedding model "@
                + previous + " is incompatible with "@ + model,
            StorageErrorView::IncompatibleDimension { previous, dimension } =>
                "database embedding dimension "@ + previous + " is incompatible with "@
                + decimal_text(dimension as nat),
            StorageErrorView::QueryDimensionMismatch => "query embedding dimension mismatch"@,
        }
    }
}

/// `a`, `b`, `c` and `d` joined, as a string.
fn join4(a: &str, b: &[char], c: &str, d: &[char]) -> (r: String)
    ensures
        r@ == a@ + b@ + c@ + d@,
{
    let mut v = chars_of(a);
    push_all(&mut v, b);
    push_all(&mut v, chars_of(c).as_slice());
    push_all(&mut v, d);
    string_from_chars(v.as_slice())
}

impl StorageError {
    /// The text of the error.
    pub fn message(&self) -> (r: String)
        ensures
            r@ == self@.message(),
    {
        match self {
            StorageError::UnsupportedModel => "unsupported embedding model".to_owned(),
            StorageError::TitleRequired => "title is required for a new document".to_owned(),
            StorageError::ContentRequired => "content is required for a new document".to_owned(),
            StorageError::NewDocumentFieldsRequired =>
                "title and searchable text are required for a new document".to_owned(),
            StorageError::EmbeddingRequired => "embedding required for changed input".to_owned(),
            StorageError::EmbeddingDimensionMismatch { actual, expected } => join4(
                "embedding dimension ",
                decimal_chars(*actual as u64).as_slice(),
                " does not match ",
                decimal_chars(*expected as u64).as_slice(),
            ),
            StorageError::IncompatibleModel { previous, model } => join4(
                "database embedding model ",
                chars_of(previous.as_str()).as_slice(),
                " is incompatible with ",
                chars_of(model.as_str()).as_slice(),
            ),
            StorageError::IncompatibleDimension { previous, dimension } => join4(
                "database embedding dimension ",
                chars_of(previous.as_str()).as_slice(),
                " is incompatible with ",
                decimal_chars(*dimension as u64).as_slice(),
            ),
            StorageError::QueryDimensionMismatch => "query embedding dimension mismatch".to_owned(),
        }
    }
}


/// `o`, or `d` when absent.
pub open spec fn text_or(o: Option<Seq<char>>, d: Seq<char>) -> Seq<char> {
    match o {
        Some(t) => t,
        None => d,
    }
}

/// The row an upsert writes and what it changes, before the vector is checked.
pub open spec fn planned_row(
    input: DocumentUpsertView,
    existing: Option<StoredDocumentView>,
    vector_present: bool,
    tags_text: Option<Seq<char>>,
    attributes_text: Option<Seq<char>>,
) -> Result<UpsertPlanView, StorageErrorView> {
    match existing {
        Some(row) => {
            let content_changed = row.content_hash != input.content_hash;
            let embedding_changed = row.embedding_input_hash != input.embedding_input_hash
                || !vector_present;
            Ok(
                UpsertPlanView {
                    row: StoredDocumentView {
                        id: row.id,
                        title: text_or(input.title, row.title),
                        content: text_or(input.content, row.content),
                        content_hash: input.content_hash,
                        embedding_input_hash: input.embedding_input_hash,
                        tags: text_or(tags_text, row.tags),
                        attributes: text_or(attributes_text, row.attributes),
                        source_url: match input.source_url {
                            Some(u) => Some(u),
                            None => row.source_url,
                        },
                        embedding_model: input.embedding_model,
                        created_at: row.created_at,
                        updated_at: input.updated_at,
                        content_updated_at: if content_changed {
                            input.updated_at
                        } else {
                            row.content_updated_at
                        },
                        embedding_updated_at: if embedding_changed {
                            input.updated_at
                        } else {
                            row.embedding_updated_at
                        },
                    },
                    content_changed,
                    embedding_changed,
                },
            )
        },
        None => match input.title {
            None => Err(StorageErrorView::TitleRequired),
            Some(title) => match input.content {
                None => Err(StorageErrorView::ContentRequired),
                Some(content) => Ok(
                    UpsertPlanView {
                        row: StoredDocumentView {
                            id: 0,
                            title,
                            content,
                            content_hash: input.content_hash,
                            embedding_input_hash: input.embedding_input_hash,
                            tags: text_or(tags_text, "[]"@),
                            attributes: text_or(attributes_text, "{}"@),
                            source_url: input.source_url,
                            embedding_model: input.embedding_model,
                            created_at: input.updated_at,
                            updated_at: input.updated_at,
                            content_updated_at: input.updated_at,
                            embedding_updated_at: input.updated_at,
                        },
                        content_changed: true,
                        embedding_changed: true,
                    },
                ),
            },
        },
    }
}

/// The outcome of an upsert: the model must be the configured one, a new
/// document needs a title and content, and a changed embedding input needs a
/// vector of the stored dimension.
pub open spec fn plan_upsert_spec(
    input: DocumentUpsertView,
    existing: Option<StoredDocumentView>,
    vector_present: bool,
    tags_text: Option<Seq<char>>,
    attributes_text: Option<Seq<char>>,
    embedding_len: Option<usize>,
    dimension: usize,
) -> Result<UpsertPlanView, StorageErrorView> {
    if input.embedding_model != MODEL_NAME@ {
        Err(StorageErrorView::UnsupportedModel)
    } else {
        match planned_row(input, existing, vector_present, tags_text, attributes_text) {
            Err(e) => Err(e),
            Ok(plan) => if plan.embedding_changed {
                match embedding_len {
                    None => Err(StorageErrorView::EmbeddingRequired),
                    Some(n) => if n != dimension {
                        Err(StorageErrorView::EmbeddingDimensionMismatch { actual: n, expected: dimension })
                    } else {
                        Ok(plan)
                    },
                }
            } else {
                Ok(plan)
            },
        }
    }
}

/// The value of an optional stored row.
pub open spec fn opt_row(o: Option<StoredDocument>) -> Option<StoredDocumentView> {
    match o {
        Some(r) => Some(r@),
        None => None,
    }
}

/// Whether two strings are equal.
fn string_eq(a: &String, b: &String) -> (r: bool)
    ensures
        r == (a@ == b@),
{
    chars_eq(chars_of(a.as_str()).as_slice(), chars_of(b.as_str()).as_slice())
}

/// `o`, or a copy of `d` when absent.
fn string_or(o: &Option<String>, d: &String) -> (r: String)
    ensures
        r@ == text_or(opt_text(*o), d@),
{
    match o {
        Some(t) => t.clone(),
        None => d.clone(),
    }
}

/// The JSON text of an optional value, as it is stored.
pub open spec fn opt_json_text(o: Option<Json>) -> Option<Seq<char>> {
    match o {
        Some(j) => Some(json_text(j)),
        None => None,
    }
}

/// The JSON text of an optional value.
fn render_opt(o: &Option<JsonValue>) -> (r: Option<String>)
    ensures
        opt_text(r) == opt_json_text(opt_json(*o)),
{
    match o {
        Some(v) => Some(v.to_json_text()),
        None => None,
    }
}

/// Decides what an upsert of `input` writes, given the stored row of the same
/// document (if any), whether that row has a vector, and the length of the
/// supplied vector. Tags and attributes are stored as their compact JSON text.
pub fn plan_upsert(
    input: &DocumentUpsert,
    existing: Option<StoredDocument>,
    vector_present: bool,
    embedding_len: Option<usize>,
    dimension: usize,
) -> (r: Result<UpsertPlan, StorageError>)
    ensures
        match r {
            Ok(p) => plan_upsert_spec(
                input@,
                opt_row(existing),
                vector_present,
                opt_json_text(input@.tags),
                opt_json_text(input@.attributes),
                embedding_len,
                dimension,
            ) == Ok::<UpsertPlanView, StorageErrorView>(p@),
            Err(e) => plan_upsert_spec(
                input@,
                opt_row(existing),
                vector_present,
                opt_json_text(input@.tags),
                opt_json_text(input@.attributes),
                embedding_len,
                dimension,
            ) == Err::<UpsertPlanView, StorageErrorView>(e@),
        },
{
    let tags_text = render_opt(&input.tags);
    let attributes_text = render_opt(&input.attributes);
    let model = MODEL_NAME.to_owned();
    if !string_eq(&input.embedding_model, &model) {
        return Err(StorageError::UnsupportedModel);
    }
    let plan = match existing {
        Some(row) => {
            let content_changed = !string_eq(&row.content_hash, &input.content_hash);
            let embedding_changed = !string_eq(&row.embedding_input_hash, &input.embedding_input_hash)
                || !vector_present;
            let source_url = match &input.source_url {
                Some(u) => Some(u.clone()),
                None => row.source_url,
            };
            let content_updated_at = if content_changed {
                input.updated_at.clone()
            } else {
                row.content_updated_at
            };
            let embedding_updated_at = if embedding_changed {
                input.updated_at.clone()
            } else {
                row.embedding_updated_at
            };
            UpsertPlan {
                row: StoredDocument {
                    id: row.id,
                    title: string_or(&input.title, &row.title),
                    content: string_or(&input.content, &row.content),
                    content_hash: input.content_hash.clone(),
                    embedding_input_hash: input.embedding_input_hash.clone(),
                    tags: string_or(&tags_text, &row.tags),
                    attributes: string_or(&attributes_text, &row.attributes),
                    source_url,
                    embedding_model: input.embedding_model.clone(),
                    created_at: row.created_at,
                    updated_at: input.updated_at.clone(),
                    content_updated_at,
                    embedding_updated_at,
                },
                content_changed,
                embedding_changed,
            }
        },
        None => {
            let title = match &input.title {
                Some(t) => t.clone(),
                None => return Err(StorageError::TitleRequired),
            };
            let content = match &input.content {
                Some(c) => c.clone(),
                None => return Err(StorageError::ContentRequired),
            };
            let empty_array = "[]".to_owned();
            let empty_object = "{}".to_owned();
            UpsertPlan {
                row: StoredDocument {
                    id: 0,
                    title,
                    content,
                    content_hash: input.content_hash.clone(),
                    embedding_input_hash: input.embedding_input_hash.clone(),
                    tags: string_or(&tags_text, &empty_array),
                    attributes: string_or(&attributes_text, &empty_object),
                    source_url: clone_opt_string(&input.source_url),
                    embedding_model: input.embedding_model.clone(),
                    created_at: input.updated_at.clone(),
                    updated_at: input.updated_at.clone(),
                    content_updated_at: input.updated_at.clone(),
                    embedding_updated_at: input.updated_at.clone(),
                },
                content_changed: true,
                embedding_changed: true,
            }
        },
    };
    if plan.embedding_changed {
        match embedding_len {
            None => return Err(StorageError::EmbeddingRequired),
            Some(n) => if n != dimension {
                return Err(StorageError::EmbeddingDimensionMismatch { actual: n, expected: dimension });
            },
        }
    }
    Ok(plan)
}

/// Whether a document needs a newly generated embedding.
pub open spec fn needs_embedding_spec(
    existing: Option<StoredDocumentView>,
    vector_present: bool,
    input: DocumentUpsertView,
) -> bool {
    match existing {
        Some(row) => row.embedding_input_hash != input.embedding_input_hash || !vector_present,
        None => true,
    }
}

/// Reports whether the document needs a newly generated embedding: it has no
/// stored row, its embedding input hash changed, or its vector is missing.
pub fn needs_embedding(existing: Option<&StoredDocument>, vector_present: bool, input: &DocumentUpsert) -> (r: bool)
    ensures
        r == needs_embedding_spec(
            match existing {
                Some(row) => Some(row@),
                None => None,
            },
            vector_present,
            input@,
        ),
{
    match existing {
        Some(row) => !string_eq(&row.embedding_input_hash, &input.embedding_input_hash) || !vector_present,
        None => true,
    }
}

/// What resolving an upsert against the stored row gives: the stored title and
/// content fill the omitted ones, and the embedding input hash is recomputed
/// from them. A new document must have both.
pub open spec fn resolve_input_spec(
    existing: Option<StoredDocumentView>,
    input: DocumentUpsertView,
) -> Result<DocumentUpsertView, StorageErrorView> {
    match existing {
        Some(row) => {
            let title = text_or(input.title, row.title);
            let content = text_or(input.content, row.content);
            Ok(
                DocumentUpsertView {
                    title: Some(title),
                    content: Some(content),
                    embedding_input_hash: embedding_input_hash_spec(title, content),
                    ..input
                },
            )
        },
        None => if input.title is None || input.content is None {
            Err(StorageErrorView::NewDocumentFieldsRequired)
        } else {
            Ok(input)
        },
    }
}

/// Fills omitted fields from an existing document and resolves its input hash.
pub fn resolve_input(existing: Option<&StoredDocument>, input: &mut DocumentUpsert) -> (r: Result<(), StorageError>)
    ensures
        match r {
            Ok(()) => resolve_input_spec(
                match existing {
                    Some(row) => Some(row@),
                    None => None,
                },
                old(input)@,
            ) == Ok::<DocumentUpsertView, StorageErrorView>(final(input)@),
            Err(e) => resolve_input_spec(
                match existing {
                    Some(row) => Some(row@),
                    None => None,
                },
                old(input)@,
            ) == Err::<DocumentUpsertView, StorageErrorView>(e@) && final(input)@ == old(input)@,
        },
{
    match existing {
        Some(row) => {
            let title = string_or(&input.title, &row.title);
            let content = string_or(&input.content, &row.content);
            let hash = embedding_input_hash(title.as_str(), content.as_str());
            input.title = Some(title);
            input.content = Some(content);
            input.embedding_input_hash = hash;
            Ok(())
        },
        None => {
            if input.title.is_none() || input.content.is_none() {
                Err(StorageError::NewDocumentFieldsRequired)
            } else {
                Ok(())
            }
        },
    }
}

/// Checks that an existing database fits the model and vector dimension it is
/// opened with: a recorded model or dimension must be the same.
pub open spec fn check_schema_spec(
    previous_model: Option<Seq<char>>,
    previous_dimension: Option<Seq<char>>,
    model: Seq<char>,
    dimension: usize,
) -> Result<(), StorageErrorView> {
    match previous_model {
        Some(p) if p != model => Err(StorageErrorView::IncompatibleModel { previous: p, model }),
        _ => match previous_dimension {
            Some(d) if d != decimal_text(dimension as nat) => Err(
                StorageErrorView::IncompatibleDimension { previous: d, dimension },
            ),
            _ => Ok(()),
        },
    }
}

/// Checks that an existing database fits the model and vector dimension it is
/// opened with.
pub fn check_schema(
    previous_model: Option<String>,
    previous_dimension: Option<String>,
    model: &str,
    dimension: usize,
) -> (r: Result<(), StorageError>)
    ensures
        match r {
            Ok(()) => check_schema_spec(opt_text(previous_model), opt_text(previous_dimension), model@, dimension)
                == Ok::<(), StorageErrorView>(()),
            Err(e) => check_schema_spec(opt_text(previous_model), opt_text(previous_dimension), model@, dimension)
                == Err::<(), StorageErrorView>(e@),
        },
{
    if let Some(previous) = previous_model {
        if !chars_eq(chars_of(previous.as_str()).as_slice(), chars_of(model).as_slice()) {
            return Err(StorageError::IncompatibleModel { previous, model: model.to_owned() });
        }
    }
    if let Some(previous) = previous_dimension {
        let expected = decimal_chars(dimension as u64);
        if !chars_eq(chars_of(previous.as_str()).as_slice(), expected.as_slice()) {
            return Err(StorageError::IncompatibleDimension { previous, dimension });
        }
    }
    Ok(())
}

/// Checks a search vector against the stored dimension.
pub fn check_query_dimension(len: usize, dimension: usize) -> (r: Result<(), StorageError>)
    ensures
        r is Ok <==> len == dimension,
        r matches Err(e) ==> e@ == StorageErrorView::QueryDimensionMismatch,
{
    if len != dimension {
        Err(StorageError::QueryDimensionMismatch)
    } else {
        Ok(())
    }
}


/// The row a plan leaves in the table: the planned row, under the identifier
/// the database assigned when the row was inserted.
pub open spec fn row_after(plan: UpsertPlanView, inserted_id: i64) -> StoredDocumentView {
    if plan.row.id == 0 {
        StoredDocumentView { id: inserted_id, ..plan.row }
    } else {
        plan.row
    }
}

/// Upserting the same document twice in a row is idempotent: once the first
/// upsert has written its row and vector, the second rewrites that row
/// unchanged, records no content change and asks for no new embedding.
pub proof fn upsert_is_idempotent(
    input: DocumentUpsertView,
    existing: Option<StoredDocumentView>,
    vector_present: bool,
    tags_text: Option<Seq<char>>,
    attributes_text: Option<Seq<char>>,
    embedding_len: Option<usize>,
    dimension: usize,
    inserted_id: i64,
    second_embedding_len: Option<usize>,
)
    requires
        plan_upsert_spec(
            input,
            existing,
            vector_present,
            tags_text,
            attributes_text,
            embedding_len,
            dimension,
        ) is Ok,
    ensures
        ({
            let first = plan_upsert_spec(
                input,
                existing,
                vector_present,
                tags_text,
                attributes_text,
                embedding_len,
                dimension,
            )->Ok_0;
            let stored = row_after(first, inserted_id);
            plan_upsert_spec(
                input,
                Some(stored),
                true,
                tags_text,
                attributes_text,
                second_embedding_len,
                dimension,
            ) == Ok::<UpsertPlanView, StorageErrorView>(
                UpsertPlanView { row: stored, content_changed: false, embedding_changed: false },
            )
        }),
{
}

/// An accepted upsert replaces the vector exactly when the document needs a new
/// embedding: it is new, its embedding input hash changed, or its vector is
/// missing. Tags, attributes, the source URL and the content hash alone never
/// cause one.
pub proof fn upsert_embeds_exactly_when_needed(
    input: DocumentUpsertView,
    existing: Option<StoredDocumentView>,
    vector_present: bool,
    tags_text: Option<Seq<char>>,
    attributes_text: Option<Seq<char>>,
    embedding_len: Option<usize>,
    dimension: usize,
)
    requires
        plan_upsert_spec(
            input,
            existing,
            vector_present,
            tags_text,
            attributes_text,
            embedding_len,
            dimension,
        ) is Ok,
    ensures
        plan_upsert_spec(
            input,
            existing,
            vector_present,
            tags_text,
            attributes_text,
            embedding_len,
            dimension,
        )->Ok_0.embedding_changed == needs_embedding_spec(existing, vector_present, input),
{
}

/// Every accepted upsert stores the incoming content hash, embedding input
/// hash, model and update time, and keeps the row's identifier and creation time.
pub proof fn upsert_stores_current_hashes(
    input: DocumentUpsertView,
    existing: Option<StoredDocumentView>,
    vector_present: bool,
    tags_text: Option<Seq<char>>,
    attributes_text: Option<Seq<char>>,
    embedding_len: Option<usize>,
    dimension: usize,
)
    requires
        plan_upsert_spec(
            input,
            existing,
            vector_present,
            tags_text,
            attributes_text,
            embedding_len,
            dimension,
        ) is Ok,
    ensures
        ({
            let row = plan_upsert_spec(
                input,
                existing,
                vector_present,
                tags_text,
                attributes_text,
                embedding_len,
                dimension,
            )->Ok_0.row;
            &&& row.content_hash == input.content_hash
            &&& row.embedding_input_hash == input.embedding_input_hash
            &&& row.embedding_model == input.embedding_model
            &&& row.updated_at == input.updated_at
            &&& existing matches Some(e) ==> row.id == e.id && row.created_at == e.created_at
        }),
{
}

/// An update never overwrites a stored field with an absent value: the title,
/// content, tags, attributes and source URL that the event leaves out keep
/// their stored values, and those it carries replace them (tags and attributes
/// by their compact JSON text).
pub proof fn upsert_keeps_absent_fields(
    input: DocumentUpsertView,
    existing: StoredDocumentView,
    vector_present: bool,
    embedding_len: Option<usize>,
    dimension: usize,
)
    requires
        plan_upsert_spec(
            input,
            Some(existing),
            vector_present,
            opt_json_text(input.tags),
            opt_json_text(input.attributes),
            embedding_len,
            dimension,
        ) is Ok,
    ensures
        ({
            let row = plan_upsert_spec(
                input,
                Some(existing),
                vector_present,
                opt_json_text(input.tags),
                opt_json_text(input.attributes),
                embedding_len,
                dimension,
            )->Ok_0.row;
            &&& row.title == text_or(input.title, existing.title)
            &&& row.content == text_or(input.content, existing.content)
            &&& row.tags == match input.tags {
                Some(t) => json_text(t),
                None => existing.tags,
            }
            &&& row.attributes == match input.attributes {
                Some(a) => json_text(a),
                None => existing.attributes,
            }
            &&& row.source_url == match input.source_url {
                Some(u) => Some(u),
                None => existing.source_url,
            }
        }),
{
}

/// The row of `key` in a document table, if there is one.
pub open spec fn table_row(
    table: Map<(Seq<char>, Seq<char>), StoredDocumentView>,
    key: (Seq<char>, Seq<char>),
) -> Option<StoredDocumentView> {
    if table.contains_key(key) {
        Some(table[key])
    } else {
        None
    }
}

/// The document table after a planned upsert is written: the document's row,
/// under its organization and document identifiers, is the planned one.
pub open spec fn table_after(
    table: Map<(Seq<char>, Seq<char>), StoredDocumentView>,
    input: DocumentUpsertView,
    plan: UpsertPlanView,
    inserted_id: i64,
) -> Map<(Seq<char>, Seq<char>), StoredDocumentView> {
    table.insert((input.organization_id, input.papra_document_id), row_after(plan, inserted_id))
}

/// The table holds one row per document: an accepted upsert writes exactly the
/// document's own row, adds a row only when the document had none, and leaves
/// the row of every other document as it was.
pub proof fn upsert_writes_one_row(
    table: Map<(Seq<char>, Seq<char>), StoredDocumentView>,
    input: DocumentUpsertView,
    vector_present: bool,
    embedding_len: Option<usize>,
    dimension: usize,
    inserted_id: i64,
)
    requires
        table.dom().finite(),
        plan_upsert_spec(
            input,
            table_row(table, (input.organization_id, input.papra_document_id)),
            vector_present,
            opt_json_text(input.tags),
            opt_json_text(input.attributes),
            embedding_len,
            dimension,
        ) is Ok,
    ensures
        ({
            let key = (input.organization_id, input.papra_document_id);
            let plan = plan_upsert_spec(
                input,
                table_row(table, key),
                vector_present,
                opt_json_text(input.tags),
                opt_json_text(input.attributes),
                embedding_len,
                dimension,
            )->Ok_0;
            let after = table_after(table, input, plan, inserted_id);
            &&& after.contains_key(key)
            &&& after[key] == row_after(plan, inserted_id)
            &&& after.dom().len() == if table.contains_key(key) {
                table.dom().len()
            } else {
                table.dom().len() + 1
            }
            &&& forall|k: (Seq<char>, Seq<char>)|
                k != key ==> (#[trigger] after.contains_key(k) == table.contains_key(k) && (
                table.contains_key(k) ==> after[k] == table[k]))
        }),
{
    let key = (input.organization_id, input.papra_document_id);
    if table.contains_key(key) {
        assert(table.dom().insert(key) =~= table.dom());
    }
}

/// Resolving an update of a stored document keeps every field the update
/// carries and fills only the absent title and content from the stored row;
/// the embedding input hash is then the hash of the resolved title and
/// content, so a changed title or content is what gets hashed and embedded.
/// A new document resolves to itself when it has a title and content, and is
/// refused otherwise.
pub proof fn resolve_keeps_incoming_fields(existing: Option<StoredDocumentView>, input: DocumentUpsertView)
    ensures
        existing matches Some(row) ==> {
            let title = match input.title {
                Some(t) => t,
                None => row.title,
            };
            let content = match input.content {
                Some(c) => c,
                None => row.content,
            };
            &&& resolve_input_spec(existing, input) matches Ok(r)
            &&& resolve_input_spec(existing, input)->Ok_0.title == Some(title)
            &&& resolve_input_spec(existing, input)->Ok_0.content == Some(content)
            &&& resolve_input_spec(existing, input)->Ok_0.embedding_input_hash
                == embedding_input_hash_spec(title, content)
            &&& resolve_input_spec(existing, input)->Ok_0.organization_id == input.organization_id
            &&& resolve_input_spec(existing, input)->Ok_0.papra_document_id == input.papra_document_id
            &&& resolve_input_spec(existing, input)->Ok_0.content_hash == input.content_hash
            &&& resolve_input_spec(existing, input)->Ok_0.tags == input.tags
            &&& resolve_input_spec(existing, input)->Ok_0.attributes == input.attributes
            &&& resolve_input_spec(existing, input)->Ok_0.source_url == input.source_url
            &&& resolve_input_spec(existing, input)->Ok_0.embedding_model == input.embedding_model
            &&& resolve_input_spec(existing, input)->Ok_0.updated_at == input.updated_at
        },
        existing is None ==> {
            &&& (resolve_input_spec(existing, input) is Ok <==> (input.title is Some && input.content is Some))
            &&& resolve_input_spec(existing, input) matches Ok(r) ==> r == input
        },
{
}

} // verus!
