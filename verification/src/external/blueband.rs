//! The records exchanged with the document service, and the requests made of it.

use vstd::prelude::*;

use crate::types::{CollectionId, DocumentRequest, Principal};

verus! {

/// What the document service answers: a value, or a sentence saying why not.
pub type BluebandResult<T> = Result<T, String>;

/// The kind of text that a document holds.
#[derive(Clone, Debug)]
pub enum ContentType {
    Pdf,
    Html,
    PlainText,
    Markdown,
    Other(String),
}

/// A document to be added to a collection at the document service.
#[derive(Clone, Debug)]
pub struct AddDocumentRequest {
    pub collection_id: CollectionId,
    pub title: String,
    pub content: String,
    pub content_type: Option<ContentType>,
    pub source_url: Option<String>,
    pub author: Option<String>,
    pub tags: Option<Vec<String>>,
}

#[derive(Clone, Debug)]
pub struct BulkEmbedResult {
    pub skipped: u32,
    pub errors: Vec<String>,
    pub embedded: u32,
    pub failed: u32,
}

/// How the document service cuts and embeds the documents of a collection.
#[derive(Clone, Debug)]
pub struct CollectionSettings {
    pub chunk_overlap: u32,
    pub max_documents: Option<u32>,
    pub embedding_model: String,
    pub auto_embed: bool,
    pub proxy_url: String,
    pub chunk_size: u32,
}

/// A collection as the document service keeps it.
#[derive(Clone, Debug)]
pub struct Collection {
    pub id: String,
    pub updated_at: u64,
    pub genesis_admin: String,
    pub name: String,
    pub description: Option<String>,
    pub created_at: u64,
    pub settings: CollectionSettings,
    pub admins: Vec<String>,
}

#[derive(Clone, Copy, Debug)]
pub struct CollectionStats {
    pub updated_at: u64,
    pub document_count: u32,
    pub created_at: u64,
    pub vector_count: u32,
}

#[derive(Clone, Debug)]
pub struct CollectionWithStats {
    pub collection: Collection,
    pub stats: CollectionStats,
}

#[derive(Clone, Debug)]
pub struct CreateCollectionRequest {
    pub id: String,
    pub name: String,
    pub description: Option<String>,
    pub settings: Option<CollectionSettings>,
}

#[derive(Clone, Debug)]
pub struct DocumentMetadata {
    pub id: String,
    pub total_chunks: u32,
    pub title: String,
    pub size: u64,
    pub content_type: ContentType,
    pub collection_id: String,
    pub is_embedded: bool,
    pub source_url: Option<String>,
    pub timestamp: u64,
    pub checksum: String,
}

#[derive(Clone, Debug)]
pub struct SemanticChunk {
    pub id: String,
    pub document_id: String,
    pub text: String,
    pub token_count: Option<u32>,
    pub char_end: u64,
    pub char_start: u64,
    pub position: u32,
}

#[derive(Clone, Copy, Debug)]
pub struct CollectionMetrics {
    pub document_count: u64,
    pub search_count: u64,
}

/// The way to the document service.
#[derive(Clone, Copy, Debug)]
pub struct BluebandService {
    pub canister_id: Principal,
}

impl BluebandService {
    pub fn new(canister_id: Principal) -> (s: BluebandService)
        ensures
            s.canister_id == canister_id,
    {
        BluebandService { canister_id }
    }
}

/// The request that creates a collection at the document service: the given
/// id, name and description, with pieces of 300 that overlap by 25, embedded
/// as they arrive.
pub fn create_blueband_collection(collection_id: String, name: String, description: String) -> (r:
    CreateCollectionRequest)
    ensures
        r.id == collection_id,
        r.name == name,
        r.description == Some(description),
        r.settings matches Some(s) && s.chunk_overlap == 25 && s.chunk_size == 300 && s.auto_embed
            && s.max_documents is None && s.embedding_model@ == "text-embedding-3-small"@
            && s.proxy_url@
            == "https://us-central1-blueband-db-442d8.cloudfunctions.net/proxy"@,
{
    CreateCollectionRequest {
        id: collection_id,
        name,
        description: Some(description),
        settings: Some(
            CollectionSettings {
                chunk_overlap: 25,
                max_documents: None,
                embedding_model: String::from_str("text-embedding-3-small"),
                auto_embed: true,
                proxy_url: String::from_str(
                    "https://us-central1-blueband-db-442d8.cloudfunctions.net/proxy",
                ),
                chunk_size: 300,
            },
        ),
    }
}

/// The request that adds `document` to the collection called `collection_id`
/// at the document service; a document of no stated kind is plain text.
pub fn add_document_to_blueband(collection_id: &str, document: DocumentRequest) -> (r:
    AddDocumentRequest)
    ensures
        r.collection_id@ == collection_id@,
        r.title == document.title,
        r.content == document.content,
        r.source_url == document.source_url,
        r.author == document.author,
        r.tags == document.tags,
        r.content_type is Some,
        document.content_type is Some ==> r.content_type == document.content_type,
        document.content_type is None ==> r.content_type == Some(ContentType::PlainText),
{
    let content_type = match document.content_type {
        Some(kind) => Some(kind),
        None => Some(ContentType::PlainText),
    };
    AddDocumentRequest {
        title: document.title,
        content: document.content,
        content_type,
        collection_id: String::from_str(collection_id),
        source_url: document.source_url,
        author: document.author,
        tags: document.tags,
    }
}

} // verus!
