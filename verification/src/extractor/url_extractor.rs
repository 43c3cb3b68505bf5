//! Drawing documents from an address: a playlist of videos or a file in a
//! source repository.

use vstd::prelude::*;
use vstd::string::StringSliceAdditionalSpecFns;

use crate::external::blueband::{AddDocumentRequest, ContentType};
use crate::extractor::types::{
    url_type_of, ExtractionProgress, ExtractionProgressView, ExtractionStatus,
    ExtractionStatusView, UrlType, YouTubeVideoInfo,
};
use crate::extractor::file_extractor::byte_length;
use crate::extractor::{
    progress_of, sanitize_content, sanitized, size_refusal, validate_content_size, with_progress,
    Extractor, MAX_CONTENT_SIZE,
};
use crate::dates::{parse_rfc3339_to_timestamp, written_moment};
use crate::playlist::{
    lossy_text, playlist_head, playlist_items, read_head, read_items, text_from_utf8,
    text_from_utf8_lossy, utf8_failure, PlaylistItemView,
};
use crate::scan::{run_before, scan_to};
use crate::text::{
    chars_of, concat2, concat3, contains_text, decimal, decimal_text, find_from,
    first_place, last_index_of, lemma_first_place, lemma_first_place_is,
    lowercase_of, replace_all, replaced, rfind_char, same_text, text_contains, text_of,
    to_lowercase, trim_bounds, trimmed,
};
use crate::types::{ClanopediaError, ClanopediaResult, ErrorKind};

verus! {

/// The most videos that are drawn from a playlist in one batch.
pub const YOUTUBE_BATCH_SIZE: u32 = 50;

/// How far the reading of a playlist has come.
#[derive(Debug)]
pub struct YouTubePaginationState {
    pub playlist_id: String,
    pub next_page_token: Option<String>,
    pub total_videos: Option<u32>,
    pub processed_videos: u32,
}

impl YouTubePaginationState {
    /// The state before anything was read of the playlist.
    pub fn new(playlist_id: String) -> (state: YouTubePaginationState)
        ensures
            state.playlist_id == playlist_id,
            state.next_page_token is None,
            state.total_videos is None,
            state.processed_videos == 0,
    {
        YouTubePaginationState {
            playlist_id,
            next_page_token: None,
            total_videos: None,
            processed_videos: 0,
        }
    }

    /// There is a next page, and not all the videos that the playlist is
    /// known to hold have been read.
    pub open spec fn spec_has_more_pages(&self) -> bool {
        self.next_page_token is Some && match self.total_videos {
            Some(total) => self.processed_videos < total,
            None => true,
        }
    }

    #[verifier::when_used_as_spec(spec_has_more_pages)]
    pub fn has_more_pages(&self) -> (more: bool)
        ensures
            more == self.spec_has_more_pages(),
    {
        self.next_page_token.is_some() && match self.total_videos {
            Some(total) => self.processed_videos < total,
            None => true,
        }
    }

    /// Takes in what a page of the playlist says: how many videos the
    /// playlist holds, where the next page is, and how many videos the page
    /// lists. Counts that do not fit in 32 bits stay at the largest number
    /// that does.
    pub fn update_from_response(
        &mut self,
        total_results: Option<u64>,
        next_page_token: Option<String>,
        items: Option<usize>,
    )
        ensures
            final(self).playlist_id == old(self).playlist_id,
            final(self).next_page_token == next_page_token,
            final(self).total_videos == match total_results {
                Some(total) => Some(
                    if total > u32::MAX {
                        u32::MAX
                    } else {
                        total as u32
                    },
                ),
                None => old(self).total_videos,
            },
            final(self).processed_videos == match items {
                Some(n) => if old(self).processed_videos + n > u32::MAX {
                    u32::MAX
                } else {
                    (old(self).processed_videos + n) as u32
                },
                None => old(self).processed_videos,
            },
    {
        match total_results {
            Some(total) => {
                self.total_videos = Some(
                    if total > u32::MAX as u64 {
                        u32::MAX
                    } else {
                        total as u32
                    },
                );
            },
            None => {},
        }
        self.next_page_token = next_page_token;
        match items {
            Some(n) => {
                let room = u32::MAX - self.processed_videos;
                self.processed_videos = if n as u128 > room as u128 {
                    u32::MAX
                } else {
                    self.processed_videos + n as u32
                };
            },
            None => {},
        }
    }
}

/// The id of the playlist that `url` names: what follows the first "list="
/// up to the next ampersand. `None` where "list=" does not occur.
pub open spec fn playlist_id_of(url: Seq<char>) -> Option<Seq<char>> {
    match first_place(url, "list="@) {
        Some(i) => {
            let tail = url.skip(i + 5);
            Some(tail.take(run_before(tail, '&') as int))
        },
        None => None,
    }
}

/// The address names a channel, not a playlist.
pub open spec fn names_channel(url: Seq<char>) -> bool {
    contains_text(url, "youtube.com/channel/"@) || contains_text(url, "youtube.com/c/"@)
        || contains_text(url, "youtube.com/@"@)
}

/// The id of the playlist that the address names.
pub fn extract_youtube_playlist_id(url: &str) -> (r: ClanopediaResult<String>)
    ensures
        match r {
            Ok(id) => playlist_id_of(url@) == Some(id@),
            Err(e) => playlist_id_of(url@) is None && e.spec_kind() == ErrorKind::InvalidInput
                && e.spec_message() == if names_channel(url@) {
                "Please provide a YouTube playlist URL or we'll need to implement channel uploads extraction"@
            } else {
                "Could not extract playlist ID from YouTube URL"@
            },
        },
{
    let chars = chars_of(url);
    let marker = chars_of("list=");
    proof {
        crate::text::lemma_list_word_len();
        lemma_first_place(chars@, marker@);
    }
    match find_from(&chars, &marker, 0) {
        Some(start) => {
            proof {
                lemma_first_place_is(chars@, marker@, start as int);
                assert(chars@.skip(start + 5) =~= chars@.subrange(start + 5, chars.len() as int));
            }
            let end = scan_to(&chars, start + 5, chars.len(), '&');
            proof {
                assert(chars@.skip(start + 5).take(end - start - 5) =~= chars@.subrange(
                    start + 5,
                    end as int,
                ));
            }
            Ok(text_of(&chars, start + 5, end))
        },
        None => {
            if text_contains(url, "youtube.com/channel/") || text_contains(url, "youtube.com/c/")
                || text_contains(url, "youtube.com/@") {
                Err(
                    ClanopediaError::InvalidInput(
                        String::from_str(
                            "Please provide a YouTube playlist URL or we'll need to implement channel uploads extraction",
                        ),
                    ),
                )
            } else {
                Err(
                    ClanopediaError::InvalidInput(
                        String::from_str("Could not extract playlist ID from YouTube URL"),
                    ),
                )
            }
        },
    }
}

/// The address under which the raw text of a file stands: for the address of
/// a file as the site shows it, the host of raw files in the place of the
/// site's and "/refs/heads/" in the place of "/blob/"; an address of the host
/// of raw files as it is. `None` for any other address.
pub open spec fn raw_address_of(url: Seq<char>) -> Option<Seq<char>> {
    if contains_text(url, "github.com"@) && contains_text(url, "/blob/"@) {
        Some(
            replaced(
                replaced(url, "github.com"@, "raw.githubusercontent.com"@),
                "/blob/"@,
                "/refs/heads/"@,
            ),
        )
    } else if contains_text(url, "raw.githubusercontent.com"@) {
        Some(url)
    } else {
        None
    }
}

/// The address under which the raw text of a file in a repository stands.
pub fn convert_github_url_to_raw(url: &str) -> (r: ClanopediaResult<String>)
    ensures
        match r {
            Ok(raw) => raw_address_of(url@) == Some(raw@),
            Err(e) => raw_address_of(url@) is None && e.spec_kind() == ErrorKind::InvalidInput,
        },
{
    if text_contains(url, "github.com") && text_contains(url, "/blob/") {
        let chars = chars_of(url);
        let site = chars_of("github.com");
        let raw_host = chars_of("raw.githubusercontent.com");
        let blob = chars_of("/blob/");
        let heads = chars_of("/refs/heads/");
        proof {
            crate::text::lemma_site_words_len();
        }
        let first = replace_all(&chars, &site, &raw_host);
        let second = replace_all(&first, &blob, &heads);
        let out = text_of(&second, 0, second.len());
        assert(second@.subrange(0, second.len() as int) =~= second@);
        Ok(out)
    } else if text_contains(url, "raw.githubusercontent.com") {
        Ok(String::from_str(url))
    } else {
        Err(
            ClanopediaError::InvalidInput(
                String::from_str(
                    "Invalid GitHub URL format. Expected github.com/user/repo/blob/branch/file.md",
                ),
            ),
        )
    }
}

/// What follows the last slash of `url`; all of it where it has none.
pub open spec fn last_segment(url: Seq<char>) -> Seq<char> {
    match last_index_of(url, '/') {
        Some(i) => url.skip(i + 1),
        None => url,
    }
}

/// The name of the file that the address ends in.
pub fn extract_filename_from_url(url: &str) -> (r: Option<String>)
    ensures
        r matches Some(name) && name@ == last_segment(url@),
{
    let chars = chars_of(url);
    match rfind_char(&chars, '/') {
        Some(i) => {
            assert(chars@.skip(i + 1) =~= chars@.subrange(i + 1, chars.len() as int));
            Some(text_of(&chars, i + 1, chars.len()))
        },
        None => Some(String::from_str(url)),
    }
}

/// The time stamp as it is shown: its number in base ten.
pub fn format_timestamp(timestamp: u64) -> (s: String)
    ensures
        s@ == decimal(timestamp as nat),
{
    decimal_text(timestamp as u128)
}

/// What a request costs on thirteen nodes, by the size of the request and of the answer.
pub open spec fn request_cost(request_size: int, response_size: int) -> int {
    (3_000_000 + 60_000 * 13) * 13 + 400 * 13 * request_size + 800 * 13 * response_size
}

/// What is paid for a request to the video service: four times the cost of a
/// request of 1000 bytes with an answer of 500000 bytes, and at least ten billion.
pub fn calculate_youtube_api_cycles() -> (cycles: u128)
    ensures
        cycles == 21_017_360_000,
        cycles == 4 * request_cost(1000, 500_000),
{
    let n: u128 = 13;
    let base_fee: u128 = (3_000_000 + 60_000 * n) * n;
    let request_fee: u128 = 400 * n * 1000;
    let response_fee: u128 = 800 * n * 500_000;
    let with_buffer: u128 = (base_fee + request_fee + response_fee) * 4;
    if with_buffer < 10_000_000_000 {
        10_000_000_000
    } else {
        with_buffer
    }
}

/// What is paid for fetching a file from a repository: three times the cost
/// of a request of 500 bytes with an answer of 200000 bytes, and at least two billion.
pub fn calculate_github_fetch_cycles() -> (cycles: u128)
    ensures
        cycles == 6_395_220_000,
        cycles == 3 * request_cost(500, 200_000),
{
    let n: u128 = 13;
    let base_fee: u128 = (3_000_000 + 60_000 * n) * n;
    let request_fee: u128 = 400 * n * 500;
    let response_fee: u128 = 800 * n * 200_000;
    let with_buffer: u128 = (base_fee + request_fee + response_fee) * 3;
    if with_buffer < 2_000_000_000 {
        2_000_000_000
    } else {
        with_buffer
    }
}

/// The text that stands for a video that has no description.
pub open spec fn video_summary(title: Seq<char>, video_id: Seq<char>, published_at: u64) -> Seq<char> {
    "YouTube Video: "@ + title + "\n\nVideo ID: "@ + video_id + "\nPublished: "@ + decimal(
        published_at as nat,
    )
}

/// The text of the document that a video becomes, before it is sanitized.
pub open spec fn video_text(video: YouTubeVideoInfo) -> Seq<char> {
    match video.description {
        Some(d) => d@,
        None => video_summary(video.title@, video.video_id@, video.published_at),
    }
}

/// The text of a video is no longer than a document may be.
pub open spec fn video_fits(video: YouTubeVideoInfo) -> bool {
    byte_length(video_text(video)) <= MAX_CONTENT_SIZE
}

/// `doc` is the document that `video` becomes in the collection called
/// `collection_id`: the text of the video, sanitized, as plain text under the
/// title of the video, with the address of the video as its source.
pub open spec fn is_video_document(
    doc: AddDocumentRequest,
    video: YouTubeVideoInfo,
    collection_id: Seq<char>,
) -> bool {
    &&& doc.collection_id@ == collection_id
    &&& doc.title@ == video.title@
    &&& doc.content@ == sanitized(video_text(video))
    &&& doc.content_type == Some(ContentType::PlainText)
    &&& doc.source_url.deep_view() == Some("https://www.youtube.com/watch?v="@ + video.video_id@)
    &&& doc.author.deep_view() == video.creator.deep_view()
    &&& doc.tags.deep_view() == Some(seq!["youtube"@, "video"@])
}

/// The document that a video becomes: its description, or where it has none
/// a summary of what is known of it, as plain text with the address of the
/// video as its source. A video whose text is too long is refused.
pub fn video_document(video: &YouTubeVideoInfo, collection_id: &str) -> (r: ClanopediaResult<
    AddDocumentRequest,
>)
    ensures
        r is Ok <==> video_fits(*video),
        match r {
            Ok(doc) => is_video_document(doc, *video, collection_id@),
            Err(e) => e.spec_kind() == ErrorKind::InvalidInput && e.spec_message() == size_refusal(
                video_text(*video),
            ),
        },
{
    let content = match &video.description {
        Some(d) => d.clone(),
        None => {
            let published = format_timestamp(video.published_at);
            let mut s = concat3("YouTube Video: ", video.title.as_str(), "\n\nVideo ID: ");
            s.append(video.video_id.as_str());
            s.append("\nPublished: ");
            s.append(published.as_str());
            s
        },
    };
    let text = content.as_str();
    assert(text.len() == byte_length(content@)) by {
        assert(text.spec_bytes() == vstd::utf8::encode_utf8(text@));
    }
    match validate_content_size(text) {
        Err(e) => {
            return Err(e);
        },
        Ok(_) => {},
    }
    let source_url = concat2("https://www.youtube.com/watch?v=", video.video_id.as_str());
    let mut tags: Vec<String> = Vec::new();
    tags.push(String::from_str("youtube"));
    tags.push(String::from_str("video"));
    assert(tags.deep_view() =~= seq!["youtube"@, "video"@]);
    Ok(
        AddDocumentRequest {
            collection_id: String::from_str(collection_id),
            title: video.title.clone(),
            content: sanitize_content(content.as_str()),
            content_type: Some(ContentType::PlainText),
            source_url: Some(source_url),
            author: crate::types::clone_opt_string(&video.creator),
            tags: Some(tags),
        },
    )
}

/// The document that a video becomes. A video whose text is too long is refused.
pub fn youtube_video_to_document(video: YouTubeVideoInfo, collection_id: &str) -> (r:
    ClanopediaResult<AddDocumentRequest>)
    ensures
        r is Ok <==> video_fits(video),
        match r {
            Ok(doc) => is_video_document(doc, video, collection_id@),
            Err(e) => e.spec_kind() == ErrorKind::InvalidInput && e.spec_message() == size_refusal(
                video_text(video),
            ),
        },
{
    video_document(&video, collection_id)
}

/// Which extraction an address calls for: a playlist of videos needs a key
/// for the video service; an address of no known site is refused.
pub fn extract_url_content(url: &str, api_key: &Option<String>) -> (r: ClanopediaResult<UrlType>)
    ensures
        match r {
            Ok(kind) => kind == url_type_of(url@) && kind != UrlType::Unknown && (kind
                == UrlType::YouTube ==> api_key is Some),
            Err(e) => e.spec_kind() == ErrorKind::InvalidInput && (url_type_of(url@)
                == UrlType::Unknown || (url_type_of(url@) == UrlType::YouTube && api_key is None)),
        },
{
    match UrlType::from_url(url) {
        UrlType::YouTube => {
            if api_key.is_some() {
                Ok(UrlType::YouTube)
            } else {
                Err(ClanopediaError::InvalidInput(String::from_str("YouTube API key is required")))
            }
        },
        UrlType::GitHub => Ok(UrlType::GitHub),
        UrlType::Unknown => Err(
            ClanopediaError::InvalidInput(String::from_str("Unsupported URL type")),
        ),
    }
}

/// The record of an extraction from `url` that is complete with `documents` documents.
pub fn completed_progress(url: &str, collection_id: &str, documents: usize, now: u64) -> (p:
    ExtractionProgress)
    ensures
        p@ == (ExtractionProgressView {
            url: url@,
            collection_id: collection_id@,
            playlist_id: Seq::empty(),
            next_page_token: None,
            total_videos: None,
            processed_videos: if documents > u32::MAX {
                u32::MAX
            } else {
                documents as u32
            },
            last_updated: now,
            status: ExtractionStatusView::Completed,
        }),
{
    ExtractionProgress {
        url: String::from_str(url),
        collection_id: String::from_str(collection_id),
        playlist_id: String::new(),
        next_page_token: None,
        total_videos: None,
        processed_videos: if documents > u32::MAX as usize {
            u32::MAX
        } else {
            documents as u32
        },
        last_updated: now,
        status: ExtractionStatus::Completed,
    }
}

/// The document that the text of a file in a repository becomes: Markdown
/// under the name of the file, tagged "github". An empty text and a text of
/// more than ten mebibytes are refused.
pub fn extract_github_content(url: &str, collection_id: &str, content: &str) -> (r:
    ClanopediaResult<Vec<AddDocumentRequest>>)
    ensures
        r is Ok <==> trimmed(content@).len() > 0 && content.len() <= MAX_CONTENT_SIZE,
        r matches Err(e) ==> e.spec_kind() == ErrorKind::InvalidInput,
        r matches Ok(docs) ==> {
            &&& docs.len() == 1
            &&& docs[0].collection_id@ == collection_id@
            &&& docs[0].title@ == last_segment(url@)
            &&& docs[0].content@ == sanitized(content@)
            &&& docs[0].content_type == Some(ContentType::Markdown)
            &&& docs[0].source_url.deep_view() == Some(url@)
            &&& docs[0].author is None
            &&& docs[0].tags.deep_view() == Some(seq!["github"@])
        },
{
    let chars = chars_of(content);
    let (a, b) = trim_bounds(&chars, 0, chars.len());
    proof {
        assert(chars@.subrange(0, chars.len() as int) =~= chars@);
    }
    if a == b {
        return Err(ClanopediaError::InvalidInput(String::from_str("GitHub file is empty")));
    }
    match validate_content_size(content) {
        Err(e) => {
            return Err(e);
        },
        Ok(_) => {},
    }
    let filename = match extract_filename_from_url(url) {
        Some(name) => name,
        None => String::from_str("github_document"),
    };
    let mut tags: Vec<String> = Vec::new();
    tags.push(String::from_str("github"));
    assert(tags.deep_view() =~= seq!["github"@]);
    let document = AddDocumentRequest {
        collection_id: String::from_str(collection_id),
        title: filename,
        content: sanitize_content(content),
        content_type: Some(ContentType::Markdown),
        source_url: Some(String::from_str(url)),
        author: None,
        tags: Some(tags),
    };
    let mut docs: Vec<AddDocumentRequest> = Vec::new();
    docs.push(document);
    Ok(docs)
}

/// A header of an answer of the video service says the same on every node:
/// its name, in lower case, holds none of "date", "server", "x-request-id",
/// "x-ratelimit", "cf-", "set-cookie", and is neither "age" nor "vary".
pub open spec fn is_stable_video_header(lower: Seq<char>) -> bool {
    &&& !contains_text(lower, "date"@)
    &&& !contains_text(lower, "server"@)
    &&& !contains_text(lower, "x-request-id"@)
    &&& !contains_text(lower, "x-ratelimit"@)
    &&& !contains_text(lower, "cf-"@)
    &&& !contains_text(lower, "set-cookie"@)
    &&& lower != "age"@
    &&& lower != "vary"@
}

/// A header of an answer of the repository site says the same on every node:
/// its name, in lower case, holds none of "date", "server", "x-request-id",
/// "x-ratelimit", "etag", "last-modified", "set-cookie", and is neither
/// "age" nor "vary".
pub open spec fn is_stable_repository_header(lower: Seq<char>) -> bool {
    &&& !contains_text(lower, "date"@)
    &&& !contains_text(lower, "server"@)
    &&& !contains_text(lower, "x-request-id"@)
    &&& !contains_text(lower, "x-ratelimit"@)
    &&& !contains_text(lower, "etag"@)
    &&& !contains_text(lower, "last-modified"@)
    &&& !contains_text(lower, "set-cookie"@)
    &&& lower != "age"@
    &&& lower != "vary"@
}

/// Whether a header of an answer of the video service is kept.
pub fn transform_youtube_response(header_name: &str) -> (keep: bool)
    ensures
        keep == is_stable_video_header(lowercase_of(header_name@)),
{
    let lower = to_lowercase(header_name);
    let lower = lower.as_str();
    !text_contains(lower, "date") && !text_contains(lower, "server") && !text_contains(
        lower,
        "x-request-id",
    ) && !text_contains(lower, "x-ratelimit") && !text_contains(lower, "cf-") && !text_contains(
        lower,
        "set-cookie",
    ) && !same_text(lower, "age") && !same_text(lower, "vary")
}

/// Whether a header of an answer of the repository site is kept.
pub fn transform_github_response(header_name: &str) -> (keep: bool)
    ensures
        keep == is_stable_repository_header(lowercase_of(header_name@)),
{
    let lower = to_lowercase(header_name);
    let lower = lower.as_str();
    !text_contains(lower, "date") && !text_contains(lower, "server") && !text_contains(
        lower,
        "x-request-id",
    ) && !text_contains(lower, "x-ratelimit") && !text_contains(lower, "etag") && !text_contains(
        lower,
        "last-modified",
    ) && !text_contains(lower, "set-cookie") && !same_text(lower, "age") && !same_text(
        lower,
        "vary",
    )
}

/// The sentence that tells why a request to a site failed: for want of
/// resources where the message speaks of cycles, as a fault of the network
/// where it speaks of a transient fault or a timeout, and plainly otherwise.
pub fn describe_http_failure(rejection_code: &str, message: &str, cycles_needed: u128) -> (e:
    ClanopediaError)
    ensures
        e.spec_kind() == ErrorKind::ExternalCallError,
        e.spec_message() == if contains_text(message@, "cycles"@) || contains_text(
            message@,
            "OutOfCycles"@,
        ) {
            "Insufficient cycles: sent "@ + decimal(cycles_needed as nat)
                + " cycles but need more. Error: "@ + message@
        } else if contains_text(message@, "SysTransient"@) || contains_text(message@, "timeout"@) {
            "Network error (consider retry): "@ + rejection_code@ + " - "@ + message@
        } else {
            "HTTP request failed: "@ + rejection_code@ + " - "@ + message@
        },
{
    if text_contains(message, "cycles") || text_contains(message, "OutOfCycles") {
        let sent = decimal_text(cycles_needed);
        let mut s = concat3("Insufficient cycles: sent ", sent.as_str(), " cycles but need more. Error: ");
        s.append(message);
        ClanopediaError::ExternalCallError(s)
    } else if text_contains(message, "SysTransient") || text_contains(message, "timeout") {
        let mut s = concat3("Network error (consider retry): ", rejection_code, " - ");
        s.append(message);
        ClanopediaError::ExternalCallError(s)
    } else {
        let mut s = concat3("HTTP request failed: ", rejection_code, " - ");
        s.append(message);
        ClanopediaError::ExternalCallError(s)
    }
}

/// The address at which a page of the playlist is asked for.
pub fn youtube_request_url(state: &YouTubePaginationState, api_key: &str) -> (url: String)
    ensures
        url@
            == "https://www.googleapis.com/youtube/v3/playlistItems?part=snippet&playlistId="@
            + state.playlist_id@ + "&maxResults="@ + decimal(YOUTUBE_BATCH_SIZE as nat) + "&key="@
            + api_key@ + match state.next_page_token {
            Some(token) => "&pageToken="@ + token@,
            None => Seq::empty(),
        },
{
    let size = decimal_text(YOUTUBE_BATCH_SIZE as u128);
    let mut url = concat3(
        "https://www.googleapis.com/youtube/v3/playlistItems?part=snippet&playlistId=",
        state.playlist_id.as_str(),
        "&maxResults=",
    );
    url.append(size.as_str());
    url.append("&key=");
    url.append(api_key);
    let ghost before = url@;
    match &state.next_page_token {
        Some(token) => {
            url.append("&pageToken=");
            url.append(token.as_str());
            assert(url@ =~= before + ("&pageToken="@ + token@));
        },
        None => {
            assert(url@ =~= before + Seq::<char>::empty());
        },
    }
    url
}

/// The video that an entry of a page stands for, read at time `now`: an
/// entry without a video id stands for none; a missing title reads
/// "Untitled Video"; a date that is missing or cannot be read is `now`.
pub open spec fn video_of(item: PlaylistItemView, now: u64) -> Option<
    (Seq<char>, Option<Seq<char>>, Seq<char>, u64, Option<Seq<char>>),
> {
    match item.video_id {
        Some(id) => if id.len() == 0 {
            None
        } else {
            Some(
                (
                    match item.title {
                        Some(title) => title,
                        None => "Untitled Video"@,
                    },
                    item.description,
                    id,
                    match item.published_at {
                        Some(written) => match written_moment(written) {
                            Some(moment) => moment,
                            None => now,
                        },
                        None => now,
                    },
                    item.channel_title,
                ),
            )
        },
        None => None,
    }
}

/// What a video is, as a tuple of its title, description, id, date and creator.
pub open spec fn video_view(video: YouTubeVideoInfo) -> (
    Seq<char>,
    Option<Seq<char>>,
    Seq<char>,
    u64,
    Option<Seq<char>>,
) {
    (
        video.title@,
        video.description.deep_view(),
        video.video_id@,
        video.published_at,
        video.creator.deep_view(),
    )
}

/// The videos that the entries `items` stand for, in order.
pub open spec fn videos_of(items: Seq<PlaylistItemView>, now: u64) -> Seq<
    (Seq<char>, Option<Seq<char>>, Seq<char>, u64, Option<Seq<char>>),
>
    decreases items.len(),
{
    if items.len() == 0 {
        Seq::empty()
    } else {
        match video_of(items.last(), now) {
            Some(video) => videos_of(items.drop_last(), now).push(video),
            None => videos_of(items.drop_last(), now),
        }
    }
}

/// The videos of `videos`, each as a tuple.
pub open spec fn video_views(videos: Seq<YouTubeVideoInfo>) -> Seq<
    (Seq<char>, Option<Seq<char>>, Seq<char>, u64, Option<Seq<char>>),
> {
    videos.map_values(|v: YouTubeVideoInfo| video_view(v))
}

/// The videos that a page of a playlist lists, read at time `now`. A page
/// that is no UTF-8, no JSON document, reports an error or lists no videos
/// is refused.
pub fn parse_youtube_response(response_body: &[u8], now: u64) -> (r: ClanopediaResult<
    Vec<YouTubeVideoInfo>,
>)
    ensures
        r matches Err(e) ==> e.spec_kind() == ErrorKind::ExternalCallError,
        !vstd::utf8::valid_utf8(response_body@) ==> (r matches Err(e) && e.spec_message()
            == "Invalid UTF-8 response: "@ + utf8_failure(response_body@)),
        vstd::utf8::valid_utf8(response_body@) ==> ({
            let body = response_body@;
            match playlist_head(body) {
                Err(why) => r matches Err(e) && e.spec_message() == "JSON parse error: "@ + why,
                Ok(head) => match head.error {
                    Some(error) => r matches Err(e) && e.spec_message()
                        == "YouTube API error: "@ + error,
                    None => match playlist_items(body) {
                        None => r matches Err(e) && e.spec_message() == "Missing items array"@,
                        Some(items) => r matches Ok(videos) && video_views(videos@) == videos_of(
                            items,
                            now,
                        ) && forall|i: int|
                            0 <= i < videos.len() ==> (#[trigger] videos[i]).tags is None,
                    },
                },
            }
        }),
{
    match text_from_utf8(response_body) {
        Ok(_) => {},
        Err(why) => {
            return Err(
                ClanopediaError::ExternalCallError(
                    concat2("Invalid UTF-8 response: ", why.as_str()),
                ),
            );
        },
    }
    let head = match read_head(response_body) {
        Ok(head) => head,
        Err(why) => {
            return Err(
                ClanopediaError::ExternalCallError(concat2("JSON parse error: ", why.as_str())),
            );
        },
    };
    match head.error {
        Some(error) => {
            return Err(
                ClanopediaError::ExternalCallError(concat2("YouTube API error: ", error.as_str())),
            );
        },
        None => {},
    }
    let items = match read_items(response_body) {
        Some(items) => items,
        None => {
            return Err(ClanopediaError::ExternalCallError(String::from_str("Missing items array")));
        },
    };
    let ghost views = items.deep_view();
    let mut videos: Vec<YouTubeVideoInfo> = Vec::new();
    let mut i: usize = 0;
    assert(views.take(0) =~= Seq::<PlaylistItemView>::empty());
    assert(video_views(videos@) =~= Seq::empty());
    while i < items.len()
        invariant
            i <= items.len(),
            views == items.deep_view(),
            video_views(videos@) == videos_of(views.take(i as int), now),
            forall|k: int| 0 <= k < videos.len() ==> (#[trigger] videos[k]).tags is None,
        decreases items.len() - i,
    {
        proof {
            assert(views.take(i + 1).drop_last() =~= views.take(i as int));
            assert(views.take(i + 1).last() == items[i as int]@);
        }
        let item = &items[i];
        let video_id = match &item.video_id {
            Some(id) => id.clone(),
            None => String::new(),
        };
        if !video_id.as_str().is_empty() {
            let title = match &item.title {
                Some(title) => title.clone(),
                None => String::from_str("Untitled Video"),
            };
            let published_at = match &item.published_at {
                Some(written) => match parse_rfc3339_to_timestamp(written.as_str(), now) {
                    Some(moment) => moment,
                    None => now,
                },
                None => now,
            };
            let video = YouTubeVideoInfo {
                title,
                description: crate::types::clone_opt_string(&item.description),
                video_id,
                published_at,
                creator: crate::types::clone_opt_string(&item.channel_title),
                tags: None,
            };
            let ghost before = videos@;
            videos.push(video);
            assert(video_views(videos@) =~= video_views(before).push(video_view(video)));
        }
        i += 1;
    }
    assert(views.take(items.len() as int) =~= views);
    Ok(videos)
}

/// Reads the answer of the video service to a request for a page: takes in
/// what its head says and returns the videos that it lists. An answer with a
/// status outside 200 to 299, one that is no JSON document and one that
/// reports an error are refused, and leave the state as it is. An answer
/// whose head is taken in and that is no UTF-8 or lists no videos is refused too.
pub fn fetch_youtube_batch(
    state: &mut YouTubePaginationState,
    status: u32,
    body: &[u8],
    now: u64,
) -> (r: ClanopediaResult<Vec<YouTubeVideoInfo>>)
    ensures
        r matches Err(e) ==> e.spec_kind() == ErrorKind::ExternalCallError,
        !(200 <= status < 300) ==> (r matches Err(e) && e.spec_message() == "YouTube API error "@
            + decimal(status as nat) + ": "@ + lossy_text(body@)) && *final(state) == *old(state),
        200 <= status < 300 ==> match playlist_head(body@) {
            Err(why) => (r matches Err(e) && e.spec_message() == "JSON parse error: "@ + why)
                && *final(state) == *old(state),
            Ok(head) => match head.error {
                Some(error) => (r matches Err(e) && e.spec_message() == "YouTube API error: "@
                    + error) && *final(state) == *old(state),
                None => {
                    &&& final(state).playlist_id == old(state).playlist_id
                    &&& final(state).next_page_token.deep_view() == head.next_page_token
                    &&& final(state).total_videos == match head.total_results {
                        Some(total) => Some(
                            if total > u32::MAX {
                                u32::MAX
                            } else {
                                total as u32
                            },
                        ),
                        None => old(state).total_videos,
                    }
                    &&& final(state).processed_videos == match head.items {
                        Some(n) => if old(state).processed_videos + n > u32::MAX {
                            u32::MAX
                        } else {
                            (old(state).processed_videos + n) as u32
                        },
                        None => old(state).processed_videos,
                    }
                    &&& if !vstd::utf8::valid_utf8(body@) {
                        r matches Err(e) && e.spec_message() == "Invalid UTF-8 response: "@
                            + utf8_failure(body@)
                    } else {
                        match playlist_items(body@) {
                            None => r matches Err(e) && e.spec_message() == "Missing items array"@,
                            Some(items) => r matches Ok(videos) && video_views(videos@)
                                == videos_of(items, now) && forall|i: int|
                                0 <= i < videos.len() ==> (#[trigger] videos[i]).tags is None,
                        }
                    }
                },
            },
        },
{
    if !(200 <= status && status < 300) {
        let code = decimal_text(status as u128);
        let said = text_from_utf8_lossy(body);
        let mut message = concat3("YouTube API error ", code.as_str(), ": ");
        message.append(said.as_str());
        return Err(ClanopediaError::ExternalCallError(message));
    }
    let head = match read_head(body) {
        Ok(head) => head,
        Err(why) => {
            return Err(
                ClanopediaError::ExternalCallError(concat2("JSON parse error: ", why.as_str())),
            );
        },
    };
    match head.error {
        Some(error) => {
            return Err(
                ClanopediaError::ExternalCallError(concat2("YouTube API error: ", error.as_str())),
            );
        },
        None => {},
    }
    state.update_from_response(head.total_results, head.next_page_token, head.items);
    parse_youtube_response(body, now)
}

/// The record of the extraction from a playlist as `state` has it.
pub fn youtube_progress(
    url: &str,
    collection_id: &str,
    playlist_id: &str,
    next_page_token: Option<String>,
    state: &YouTubePaginationState,
    now: u64,
    status: ExtractionStatus,
) -> (p: ExtractionProgress)
    ensures
        p@ == (ExtractionProgressView {
            url: url@,
            collection_id: collection_id@,
            playlist_id: playlist_id@,
            next_page_token: next_page_token.deep_view(),
            total_videos: state.total_videos,
            processed_videos: state.processed_videos,
            last_updated: now,
            status: status@,
        }),
{
    ExtractionProgress {
        url: String::from_str(url),
        collection_id: String::from_str(collection_id),
        playlist_id: String::from_str(playlist_id),
        next_page_token,
        total_videos: state.total_videos,
        processed_videos: state.processed_videos,
        last_updated: now,
        status,
    }
}

/// Begins or takes up the extraction from the playlist that `url` names:
/// returns the state to read the next page with, taken from the record of an
/// earlier extraction where there is one, and records the extraction as
/// under way. An address that names no playlist is refused and records nothing.
pub fn extract_youtube_content(extractor: &mut Extractor, url: &str, collection_id: &str, now: u64) -> (r:
    ClanopediaResult<YouTubePaginationState>)
    ensures
        match r {
            Err(e) => playlist_id_of(url@) is None && e.spec_kind() == ErrorKind::InvalidInput
                && final(extractor)@ == old(extractor)@,
            Ok(state) => {
                &&& playlist_id_of(url@) matches Some(playlist_id)
                &&& match progress_of(old(extractor)@, collection_id@, url@) {
                    Some(earlier) => {
                        &&& state.playlist_id@ == earlier.playlist_id
                        &&& state.next_page_token.deep_view() == earlier.next_page_token
                        &&& state.total_videos == earlier.total_videos
                        &&& state.processed_videos == earlier.processed_videos
                    },
                    None => {
                        &&& state.playlist_id@ == playlist_id
                        &&& state.next_page_token is None
                        &&& state.total_videos is None
                        &&& state.processed_videos == 0
                    },
                }
                &&& final(extractor)@ == with_progress(
                    old(extractor)@,
                    ExtractionProgressView {
                        url: url@,
                        collection_id: collection_id@,
                        playlist_id,
                        next_page_token: state.next_page_token.deep_view(),
                        total_videos: state.total_videos,
                        processed_videos: state.processed_videos,
                        last_updated: now,
                        status: ExtractionStatusView::InProgress,
                    },
                )
            },
        },
{
    let playlist_id = match extract_youtube_playlist_id(url) {
        Ok(id) => id,
        Err(e) => {
            return Err(e);
        },
    };
    let state = match extractor.get_progress(collection_id, url) {
        Some(earlier) => YouTubePaginationState {
            playlist_id: earlier.playlist_id,
            next_page_token: earlier.next_page_token,
            total_videos: earlier.total_videos,
            processed_videos: earlier.processed_videos,
        },
        None => YouTubePaginationState::new(playlist_id.clone()),
    };
    let token = crate::types::clone_opt_string(&state.next_page_token);
    let record = youtube_progress(
        url,
        collection_id,
        playlist_id.as_str(),
        token,
        &state,
        now,
        ExtractionStatus::InProgress,
    );
    extractor.update_progress(record);
    Ok(state)
}

/// Records that the extraction from a playlist has failed with `error`.
pub fn record_youtube_failure(
    extractor: &mut Extractor,
    url: &str,
    collection_id: &str,
    playlist_id: &str,
    state: &YouTubePaginationState,
    error: &ClanopediaError,
    now: u64,
)
    ensures
        final(extractor)@ == with_progress(
            old(extractor)@,
            ExtractionProgressView {
                url: url@,
                collection_id: collection_id@,
                playlist_id: playlist_id@,
                next_page_token: state.next_page_token.deep_view(),
                total_videos: state.total_videos,
                processed_videos: state.processed_videos,
                last_updated: now,
                status: ExtractionStatusView::Failed(error.spec_to_string()),
            },
        ),
{
    let token = crate::types::clone_opt_string(&state.next_page_token);
    let record = youtube_progress(
        url,
        collection_id,
        playlist_id,
        token,
        state,
        now,
        ExtractionStatus::Failed(error.to_string()),
    );
    extractor.update_progress(record);
}

/// The video at `i` is the first of `videos` whose text is too long.
pub open spec fn first_too_long(videos: Seq<YouTubeVideoInfo>, i: int) -> bool {
    &&& 0 <= i < videos.len()
    &&& !video_fits(videos[i])
    &&& forall|k: int| 0 <= k < i ==> video_fits(#[trigger] videos[k])
}

/// Turns the videos of a page into documents and records how the extraction
/// stands: failed where the page lists no video, paused where there are more
/// pages, complete otherwise. A video whose text is longer than the document
/// service takes ends the extraction with the error of the first such video
/// and records nothing.
pub fn complete_youtube_extraction(
    extractor: &mut Extractor,
    url: &str,
    collection_id: &str,
    playlist_id: &str,
    state: &YouTubePaginationState,
    videos: Vec<YouTubeVideoInfo>,
    now: u64,
) -> (r: ClanopediaResult<Vec<AddDocumentRequest>>)
    ensures
        videos.len() == 0 ==> {
            &&& r matches Err(e) && e.spec_kind() == ErrorKind::InvalidInput && e.spec_message()
                == "No videos found in YouTube playlist"@
            &&& final(extractor)@ == with_progress(
                old(extractor)@,
                ExtractionProgressView {
                    url: url@,
                    collection_id: collection_id@,
                    playlist_id: playlist_id@,
                    next_page_token: None,
                    total_videos: state.total_videos,
                    processed_videos: state.processed_videos,
                    last_updated: now,
                    status: ExtractionStatusView::Failed("No videos found"@),
                },
            )
        },
        videos.len() > 0 ==> (r is Ok <==> forall|i: int|
            0 <= i < videos.len() ==> video_fits(#[trigger] videos[i])),
        videos.len() > 0 ==> match r {
            Err(e) => {
                &&& e.spec_kind() == ErrorKind::InvalidInput
                &&& exists|i: int| #[trigger]
                    first_too_long(videos@, i) && e.spec_message() == size_refusal(
                        video_text(videos[i]),
                    )
                &&& final(extractor)@ == old(extractor)@
            },
            Ok(docs) => {
                &&& docs.len() == videos.len()
                &&& forall|i: int|
                    0 <= i < docs.len() ==> is_video_document(
                        #[trigger] docs[i],
                        videos[i],
                        collection_id@,
                    )
                &&& final(extractor)@ == with_progress(
                    old(extractor)@,
                    ExtractionProgressView {
                        url: url@,
                        collection_id: collection_id@,
                        playlist_id: playlist_id@,
                        next_page_token: state.next_page_token.deep_view(),
                        total_videos: state.total_videos,
                        processed_videos: state.processed_videos,
                        last_updated: now,
                        status: if state.spec_has_more_pages() {
                            ExtractionStatusView::Paused
                        } else {
                            ExtractionStatusView::Completed
                        },
                    },
                )
            },
        },
{
    if videos.len() == 0 {
        let record = youtube_progress(
            url,
            collection_id,
            playlist_id,
            None,
            state,
            now,
            ExtractionStatus::Failed(String::from_str("No videos found")),
        );
        extractor.update_progress(record);
        return Err(
            ClanopediaError::InvalidInput(String::from_str("No videos found in YouTube playlist")),
        );
    }
    let mut documents: Vec<AddDocumentRequest> = Vec::new();
    let mut i: usize = 0;
    while i < videos.len()
        invariant
            i <= videos.len(),
            videos.len() > 0,
            documents.len() == i,
            forall|k: int|
                0 <= k < documents.len() ==> is_video_document(
                    #[trigger] documents[k],
                    videos[k],
                    collection_id@,
                ),
            forall|k: int| 0 <= k < i ==> video_fits(#[trigger] videos[k]),
            extractor@ == old(extractor)@,
        decreases videos.len() - i,
    {
        match video_document(&videos[i], collection_id) {
            Ok(document) => {
                documents.push(document);
            },
            Err(e) => {
                assert(first_too_long(videos@, i as int));
                return Err(e);
            },
        }
        i += 1;
    }
    let status = if state.has_more_pages() {
        ExtractionStatus::Paused
    } else {
        ExtractionStatus::Completed
    };
    let token = crate::types::clone_opt_string(&state.next_page_token);
    let record = youtube_progress(url, collection_id, playlist_id, token, state, now, status);
    extractor.update_progress(record);
    Ok(documents)
}

} // verus!
