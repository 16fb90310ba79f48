//! Documents as the Papra API returns them, and the upsert a fetched document
//! asks for. The request itself is made by the program around the library.

use vstd::prelude::*;

use crate::embeddings::{
    content_hash,
    content_hash_spec,
    embedding_input_hash,
    embedding_input_hash_spec,
    MODEL_NAME,
};
use crate::storage::{clone_opt_string, opt_text, DocumentUpsert, DocumentUpsertView};
use crate::text::{chars_of, push_all, string_from_chars};

verus! {

/// A document of the Papra API.
#[derive(Debug)]
pub struct PapraDocument {
    pub id: String,
    pub name: Option<String>,
    pub organization_id: String,
    pub created_at: Option<String>,
    pub updated_at: Option<String>,
    pub content: Option<String>,
}

/// The body of a Papra document response.
#[derive(Debug)]
pub struct PapraDocumentResponse {
    pub document: PapraDocument,
}

/// The path of a document under the Papra API base URL.
pub fn document_api_path(org_id: &str, document_id: &str) -> (r: String)
    ensures
        r@ == "organizations/"@ + org_id@ + "/documents/"@ + document_id@,
{
    let mut v = chars_of("organizations/");
    push_all(&mut v, chars_of(org_id).as_slice());
    push_all(&mut v, chars_of("/documents/").as_slice());
    push_all(&mut v, chars_of(document_id).as_slice());
    string_from_chars(v.as_slice())
}

/// The upsert a fetched Papra document asks for: its name and content, the
/// hash of the content (empty when there is none), the hash of the canonical
/// input built from the name and content (each empty when absent), no tags,
/// attributes or source URL, and the configured model.
pub open spec fn papra_upsert_spec(
    org_id: Seq<char>,
    document_id: Seq<char>,
    name: Option<Seq<char>>,
    content: Option<Seq<char>>,
    now: Seq<char>,
) -> DocumentUpsertView {
    DocumentUpsertView {
        organization_id: org_id,
        papra_document_id: document_id,
        title: name,
        content: content,
        content_hash: match content {
            Some(c) => content_hash_spec(c),
            None => Seq::empty(),
        },
        embedding_input_hash: embedding_input_hash_spec(
            crate::webhook::text_or_empty(name),
            crate::webhook::text_or_empty(content),
        ),
        tags: None,
        attributes: None,
        source_url: None,
        embedding_model: MODEL_NAME@,
        updated_at: now,
    }
}

/// The upsert a fetched Papra document asks for.
pub fn papra_upsert(org_id: &str, document_id: &str, document: &PapraDocument, now: String) -> (r:
    DocumentUpsert)
    ensures
        r@ == papra_upsert_spec(org_id@, document_id@, opt_text(document.name), opt_text(document.content), now@),
{
    let hash = match &document.content {
        Some(c) => content_hash(c.as_str()),
        None => String::new(),
    };
    let title_for_hash: &str = match &document.name {
        Some(n) => n.as_str(),
        None => "",
    };
    let content_for_hash: &str = match &document.content {
        Some(c) => c.as_str(),
        None => "",
    };
    proof {
        reveal_strlit("");
    }
    let input_hash = embedding_input_hash(title_for_hash, content_for_hash);
    DocumentUpsert {
        organization_id: org_id.to_owned(),
        papra_document_id: document_id.to_owned(),
        title: clone_opt_string(&document.name),
        content: clone_opt_string(&document.content),
        content_hash: hash,
        embedding_input_hash: input_hash,
        tags: None,
        attributes: None,
        source_url: None,
        embedding_model: MODEL_NAME.to_owned(),
        updated_at: now,
    }
}

/// The upsert of a fetched document carries the document's name as its title
/// and its content as the content, the hash of that content (empty text when
/// there is none), and the hash of the name and content as embedding input.
/// So a fetched document with a name and content can always be stored as a
/// new document, and one without either is refused.
pub proof fn fetched_document_keeps_name_and_content(
    org_id: Seq<char>,
    document_id: Seq<char>,
    name: Option<Seq<char>>,
    content: Option<Seq<char>>,
    now: Seq<char>,
)
    ensures
        ({
            let u = papra_upsert_spec(org_id, document_id, name, content, now);
            &&& u.title == name
            &&& u.content == content
            &&& u.organization_id == org_id
            &&& u.papra_document_id == document_id
            &&& u.updated_at == now
            &&& (content matches Some(c) ==> u.content_hash == content_hash_spec(c))
            &&& (content is None ==> u.content_hash.len() == 0)
            &&& u.embedding_input_hash == embedding_input_hash_spec(
                match name {
                    Some(x) => x,
                    None => Seq::empty(),
                },
                match content {
                    Some(x) => x,
                    None => Seq::empty(),
                },
            )
            &&& (crate::storage::resolve_input_spec(None, u) is Ok <==> (name is Some && content is Some))
        }),
{
}

} // verus!
