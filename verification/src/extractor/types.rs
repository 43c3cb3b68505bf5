//! The records of document extraction.

use vstd::prelude::*;

use crate::external::blueband::{AddDocumentRequest, ContentType};
use crate::text::{
    chars_of, concat2, concat3, decimal, decimal_text, last_index_of, lowercase_of, rfind_char,
    same_text, text_contains, text_of, to_lowercase, contains_text,
};
use crate::types::{DocumentId, ProposalId};

verus! {

/// Where a document comes from.
#[derive(Clone, Debug)]
pub enum ExtractionSource {
    File { data: Vec<u8>, filename: String },
    Url { url: String, api_key: Option<String> },
}

/// The kind of a file, by the ending of its name.
#[derive(Clone, Copy, Debug, PartialEq, Eq, Structural)]
pub enum FileType {
    Pdf,
    DocX,
    PlainText,
    Markdown,
    Unknown,
}

/// What follows the last dot of `name`; nothing where `name` has no dot.
pub open spec fn extension_of(name: Seq<char>) -> Seq<char> {
    match last_index_of(name, '.') {
        Some(i) => name.skip(i + 1),
        None => Seq::empty(),
    }
}

/// The kind of file that a lower-case ending stands for.
pub open spec fn file_type_of(ending: Seq<char>) -> FileType {
    if ending == "pdf"@ {
        FileType::Pdf
    } else if ending == "docx"@ || ending == "doc"@ {
        FileType::DocX
    } else if ending == "txt"@ {
        FileType::PlainText
    } else if ending == "md"@ || ending == "markdown"@ {
        FileType::Markdown
    } else {
        FileType::Unknown
    }
}

impl FileType {
    /// The kind of the file called `filename`: by what follows its last dot,
    /// whatever the case of the letters.
    pub fn from_filename(filename: &str) -> (kind: FileType)
        ensures
            kind == file_type_of(lowercase_of(extension_of(filename@))),
    {
        let chars = chars_of(filename);
        let ending = match rfind_char(&chars, '.') {
            Some(i) => {
                assert(chars@.skip(i + 1) =~= chars@.subrange(i + 1, chars.len() as int));
                text_of(&chars, i + 1, chars.len())
            },
            None => String::new(),
        };
        let lower = to_lowercase(ending.as_str());
        let lower = lower.as_str();
        if same_text(lower, "pdf") {
            FileType::Pdf
        } else if same_text(lower, "docx") || same_text(lower, "doc") {
            FileType::DocX
        } else if same_text(lower, "txt") {
            FileType::PlainText
        } else if same_text(lower, "md") || same_text(lower, "markdown") {
            FileType::Markdown
        } else {
            FileType::Unknown
        }
    }

    /// The kind of text that is drawn from a file of this kind: Markdown from
    /// Markdown, plain text from all others.
    pub fn to_content_type(&self) -> (kind: ContentType)
        ensures
            *self == FileType::Markdown ==> kind == ContentType::Markdown,
            *self != FileType::Markdown ==> kind == ContentType::PlainText,
    {
        match self {
            FileType::Markdown => ContentType::Markdown,
            _ => ContentType::PlainText,
        }
    }
}

/// The kind of site that an address leads to.
#[derive(Clone, Copy, Debug, PartialEq, Eq, Structural)]
pub enum UrlType {
    YouTube,
    GitHub,
    Unknown,
}

/// The kind of site that `url` leads to, by the host names it holds.
pub open spec fn url_type_of(url: Seq<char>) -> UrlType {
    if contains_text(url, "youtube.com"@) || contains_text(url, "youtu.be"@) {
        UrlType::YouTube
    } else if contains_text(url, "github.com"@) {
        UrlType::GitHub
    } else {
        UrlType::Unknown
    }
}

impl UrlType {
    pub fn from_url(url: &str) -> (kind: UrlType)
        ensures
            kind == url_type_of(url@),
    {
        if text_contains(url, "youtube.com") || text_contains(url, "youtu.be") {
            UrlType::YouTube
        } else if text_contains(url, "github.com") {
            UrlType::GitHub
        } else {
            UrlType::Unknown
        }
    }
}

/// What is known about a document beside its text.
#[derive(Clone, Debug)]
pub struct ExtractionMetadata {
    pub file_size: Option<u64>,
    pub page_count: Option<u32>,
    pub author: Option<String>,
    pub created_at: Option<u64>,
    pub tags: Option<Vec<String>>,
}

/// A document drawn from a file or an address.
#[derive(Clone, Debug)]
pub struct ExtractionResult {
    pub title: String,
    pub content: String,
    pub content_type: ContentType,
    pub source_url: Option<String>,
    pub metadata: Option<ExtractionMetadata>,
}

pub struct ExtractionMetadataView {
    pub file_size: Option<u64>,
    pub page_count: Option<u32>,
    pub author: Option<Seq<char>>,
    pub created_at: Option<u64>,
    pub tags: Option<Seq<Seq<char>>>,
}

impl View for ExtractionMetadata {
    type V = ExtractionMetadataView;

    open spec fn view(&self) -> ExtractionMetadataView {
        ExtractionMetadataView {
            file_size: self.file_size,
            page_count: self.page_count,
            author: self.author.deep_view(),
            created_at: self.created_at,
            tags: self.tags.deep_view(),
        }
    }
}

impl DeepView for ExtractionMetadata {
    type V = ExtractionMetadataView;

    open spec fn deep_view(&self) -> ExtractionMetadataView {
        self@
    }
}

pub struct ExtractionResultView {
    pub title: Seq<char>,
    pub content: Seq<char>,
    pub content_type: ContentType,
    pub source_url: Option<Seq<char>>,
    pub metadata: Option<ExtractionMetadataView>,
}

impl View for ExtractionResult {
    type V = ExtractionResultView;

    open spec fn view(&self) -> ExtractionResultView {
        ExtractionResultView {
            title: self.title@,
            content: self.content@,
            content_type: self.content_type,
            source_url: self.source_url.deep_view(),
            metadata: self.metadata.deep_view(),
        }
    }
}

/// A video of a playlist.
#[derive(Clone, Debug)]
pub struct YouTubeVideoInfo {
    pub title: String,
    pub description: Option<String>,
    pub video_id: String,
    pub published_at: u64,
    pub creator: Option<String>,
    pub tags: Option<Vec<String>>,
}

/// What files are taken.
#[derive(Clone, Debug)]
pub struct FileExtractionConfig {
    pub max_file_size: u64,
    pub supported_types: Vec<FileType>,
    pub extract_metadata: bool,
}

impl Default for FileExtractionConfig {
    /// Files of up to ten mebibytes, of each known kind, with their metadata.
    fn default() -> (config: FileExtractionConfig)
        ensures
            config.max_file_size == 10 * 1024 * 1024,
            config.supported_types@ == seq![
                FileType::Pdf,
                FileType::DocX,
                FileType::PlainText,
                FileType::Markdown,
            ],
            config.extract_metadata,
    {
        let mut supported_types: Vec<FileType> = Vec::new();
        supported_types.push(FileType::Pdf);
        supported_types.push(FileType::DocX);
        supported_types.push(FileType::PlainText);
        supported_types.push(FileType::Markdown);
        assert(supported_types@ =~= seq![
            FileType::Pdf,
            FileType::DocX,
            FileType::PlainText,
            FileType::Markdown,
        ]);
        FileExtractionConfig { max_file_size: 10 * 1024 * 1024, supported_types, extract_metadata: true }
    }
}

/// How an extraction stands.
#[derive(Debug)]
pub enum ExtractionStatus {
    InProgress,
    Completed,
    Failed(String),
    Paused,
}

pub enum ExtractionStatusView {
    InProgress,
    Completed,
    Failed(Seq<char>),
    Paused,
}

impl View for ExtractionStatus {
    type V = ExtractionStatusView;

    open spec fn view(&self) -> ExtractionStatusView {
        match self {
            ExtractionStatus::InProgress => ExtractionStatusView::InProgress,
            ExtractionStatus::Completed => ExtractionStatusView::Completed,
            ExtractionStatus::Failed(why) => ExtractionStatusView::Failed(why@),
            ExtractionStatus::Paused => ExtractionStatusView::Paused,
        }
    }
}

impl Clone for ExtractionStatus {
    fn clone(&self) -> (out: Self)
        ensures
            out@ == self@,
    {
        match self {
            ExtractionStatus::InProgress => ExtractionStatus::InProgress,
            ExtractionStatus::Completed => ExtractionStatus::Completed,
            ExtractionStatus::Failed(why) => ExtractionStatus::Failed(why.clone()),
            ExtractionStatus::Paused => ExtractionStatus::Paused,
        }
    }
}

impl ExtractionStatusView {
    /// The extraction has ended, well or badly.
    pub open spec fn is_over(self) -> bool {
        self is Completed || self is Failed
    }

    /// The extraction can be taken up again.
    pub open spec fn can_resume(self) -> bool {
        self is Paused || self is Failed
    }
}

/// How far the extraction from one address into one collection has come.
#[derive(Debug)]
pub struct ExtractionProgress {
    pub url: String,
    pub collection_id: String,
    pub playlist_id: String,
    pub next_page_token: Option<String>,
    pub total_videos: Option<u32>,
    pub processed_videos: u32,
    pub last_updated: u64,
    pub status: ExtractionStatus,
}

pub struct ExtractionProgressView {
    pub url: Seq<char>,
    pub collection_id: Seq<char>,
    pub playlist_id: Seq<char>,
    pub next_page_token: Option<Seq<char>>,
    pub total_videos: Option<u32>,
    pub processed_videos: u32,
    pub last_updated: u64,
    pub status: ExtractionStatusView,
}

impl View for ExtractionProgress {
    type V = ExtractionProgressView;

    open spec fn view(&self) -> ExtractionProgressView {
        ExtractionProgressView {
            url: self.url@,
            collection_id: self.collection_id@,
            playlist_id: self.playlist_id@,
            next_page_token: self.next_page_token.deep_view(),
            total_videos: self.total_videos,
            processed_videos: self.processed_videos,
            last_updated: self.last_updated,
            status: self.status@,
        }
    }
}

impl DeepView for ExtractionProgress {
    type V = ExtractionProgressView;

    open spec fn deep_view(&self) -> ExtractionProgressView {
        self@
    }
}

impl Clone for ExtractionProgress {
    fn clone(&self) -> (out: Self)
        ensures
            out@ == self@,
    {
        ExtractionProgress {
            url: self.url.clone(),
            collection_id: self.collection_id.clone(),
            playlist_id: self.playlist_id.clone(),
            next_page_token: crate::types::clone_opt_string(&self.next_page_token),
            total_videos: self.total_videos,
            processed_videos: self.processed_videos,
            last_updated: self.last_updated,
            status: self.status.clone(),
        }
    }
}

/// What became of documents that were handed in.
#[derive(Clone, Copy, Debug, PartialEq, Eq, Structural)]
pub enum DocumentAction {
    /// The documents were embedded at once.
    EmbeddedDirectly,
    /// A proposal to embed them was created.
    ProposalCreated,
}

#[derive(Clone, Debug)]
pub struct AddDocumentsResult {
    pub document_ids: Vec<DocumentId>,
    pub proposal_id: Option<ProposalId>,
    pub action: DocumentAction,
    pub message: String,
}

/// How an extraction went, in numbers and in a sentence.
#[derive(Debug)]
pub struct ExtractionInfo {
    pub status: ExtractionStatus,
    pub processed_count: u32,
    pub total_count: Option<u32>,
    pub has_more: bool,
    pub can_resume: bool,
    pub summary_message: String,
}

/// The documents drawn, and how the extraction went.
#[derive(Debug)]
pub struct ExtractionResponse {
    pub documents: Vec<AddDocumentRequest>,
    pub extraction_info: ExtractionInfo,
}

/// The sentence that sums up an extraction.
pub open spec fn summary_of(
    status: ExtractionStatusView,
    processed_count: u32,
    total_count: Option<u32>,
    has_more: bool,
) -> Seq<char> {
    let processed = decimal(processed_count as nat);
    match (status, total_count, has_more) {
        (ExtractionStatusView::Completed, Some(total), false) => {
            "Extraction completed successfully. "@ + decimal(total as nat)
                + " documents processed."@
        },
        (ExtractionStatusView::Paused, Some(total), true) => {
            "Batch extraction successful: "@ + processed + "/"@ + decimal(total as nat)
                + " documents processed. Resume to continue with remaining "@ + decimal(
                if total >= processed_count {
                    (total - processed_count) as nat
                } else {
                    0
                },
            ) + " documents."@
        },
        (ExtractionStatusView::Paused, None, true) => {
            "Batch extraction successful: "@ + processed
                + " documents processed. More content available - resume to continue."@
        },
        (ExtractionStatusView::InProgress, _, _) => "Extraction in progress..."@,
        (ExtractionStatusView::Failed(why), _, _) => "Extraction failed: "@ + why,
        _ => processed + " documents processed."@,
    }
}

impl ExtractionInfo {
    /// Sums up an extraction. It can be taken up again where it is paused or has failed.
    pub fn new(
        status: ExtractionStatus,
        processed_count: u32,
        total_count: Option<u32>,
        has_more: bool,
    ) -> (info: ExtractionInfo)
        ensures
            info.status == status,
            info.processed_count == processed_count,
            info.total_count == total_count,
            info.has_more == has_more,
            info.can_resume == status@.can_resume(),
            info.summary_message@ == summary_of(status@, processed_count, total_count, has_more),
    {
        let can_resume = matches!(status, ExtractionStatus::Paused | ExtractionStatus::Failed(_));
        let processed = decimal_text(processed_count as u128);
        let summary_message = match (&status, total_count, has_more) {
            (ExtractionStatus::Completed, Some(total), false) => {
                let total = decimal_text(total as u128);
                concat3(
                    "Extraction completed successfully. ",
                    total.as_str(),
                    " documents processed.",
                )
            },
            (ExtractionStatus::Paused, Some(total), true) => {
                let rest = decimal_text(total.saturating_sub(processed_count) as u128);
                let total = decimal_text(total as u128);
                let mut s = concat3("Batch extraction successful: ", processed.as_str(), "/");
                s.append(total.as_str());
                s.append(" documents processed. Resume to continue with remaining ");
                s.append(rest.as_str());
                s.append(" documents.");
                s
            },
            (ExtractionStatus::Paused, None, true) => concat3(
                "Batch extraction successful: ",
                processed.as_str(),
                " documents processed. More content available - resume to continue.",
            ),
            (ExtractionStatus::InProgress, _, _) => String::from_str("Extraction in progress..."),
            (ExtractionStatus::Failed(why), _, _) => concat2("Extraction failed: ", why.as_str()),
            _ => concat2(processed.as_str(), " documents processed."),
        };
        ExtractionInfo {
            status,
            processed_count,
            total_count,
            has_more,
            can_resume,
            summary_message,
        }
    }

    /// Sums up the extraction that `progress` records: there is more to come
    /// exactly where it is paused.
    pub fn from_progress(progress: &ExtractionProgress) -> (info: ExtractionInfo)
        ensures
            info.status@ == progress@.status,
            info.processed_count == progress.processed_videos,
            info.total_count == progress.total_videos,
            info.has_more == (progress@.status is Paused),
            info.can_resume == progress@.status.can_resume(),
            info.summary_message@ == summary_of(
                progress@.status,
                progress.processed_videos,
                progress.total_videos,
                progress@.status is Paused,
            ),
    {
        let has_more = matches!(progress.status, ExtractionStatus::Paused);
        Self::new(
            progress.status.clone(),
            progress.processed_videos,
            progress.total_videos,
            has_more,
        )
    }

    /// Sums up the extraction of a file into `documents_count` documents: it is complete.
    pub fn for_file_extraction(documents_count: u32) -> (info: ExtractionInfo)
        ensures
            info.status@ == ExtractionStatusView::Completed,
            info.processed_count == documents_count,
            info.total_count == Some(documents_count),
            !info.has_more,
            !info.can_resume,
            info.summary_message@ == "Extraction completed successfully. "@ + decimal(
                documents_count as nat,
            ) + " documents processed."@,
    {
        Self::new(ExtractionStatus::Completed, documents_count, Some(documents_count), false)
    }

    /// Sums up an extraction that failed with `error_message`.
    pub fn for_failed_extraction(error_message: String) -> (info: ExtractionInfo)
        ensures
            info.status@ == ExtractionStatusView::Failed(error_message@),
            info.processed_count == 0,
            info.total_count is None,
            !info.has_more,
            info.can_resume,
            info.summary_message@ == "Extraction failed: "@ + error_message@,
    {
        Self::new(ExtractionStatus::Failed(error_message), 0, None, false)
    }
}

} // verus!
