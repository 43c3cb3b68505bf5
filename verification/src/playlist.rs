//! What a page of a playlist, as the video service sends it, says.

use vstd::prelude::*;

verus! {

/// What the head of a page says.
#[derive(Debug)]
pub struct PlaylistHead {
    /// The error that the service reports, as it wrote it.
    pub error: Option<String>,
    /// How many videos the playlist holds.
    pub total_results: Option<u64>,
    /// Where the next page is.
    pub next_page_token: Option<String>,
    /// How many videos the page lists.
    pub items: Option<usize>,
}

pub struct PlaylistHeadView {
    pub error: Option<Seq<char>>,
    pub total_results: Option<u64>,
    pub next_page_token: Option<Seq<char>>,
    pub items: Option<usize>,
}

impl View for PlaylistHead {
    type V = PlaylistHeadView;

    open spec fn view(&self) -> PlaylistHeadView {
        PlaylistHeadView {
            error: self.error.deep_view(),
            total_results: self.total_results,
            next_page_token: self.next_page_token.deep_view(),
            items: self.items,
        }
    }
}

/// What a page says of one video.
#[derive(Debug)]
pub struct PlaylistItem {
    pub title: Option<String>,
    pub description: Option<String>,
    pub video_id: Option<String>,
    pub published_at: Option<String>,
    pub channel_title: Option<String>,
}

pub struct PlaylistItemView {
    pub title: Option<Seq<char>>,
    pub description: Option<Seq<char>>,
    pub video_id: Option<Seq<char>>,
    pub published_at: Option<Seq<char>>,
    pub channel_title: Option<Seq<char>>,
}

impl View for PlaylistItem {
    type V = PlaylistItemView;

    open spec fn view(&self) -> PlaylistItemView {
        PlaylistItemView {
            title: self.title.deep_view(),
            description: self.description.deep_view(),
            video_id: self.video_id.deep_view(),
            published_at: self.published_at.deep_view(),
            channel_title: self.channel_title.deep_view(),
        }
    }
}

impl DeepView for PlaylistItem {
    type V = PlaylistItemView;

    open spec fn deep_view(&self) -> PlaylistItemView {
        self@
    }
}

/// What the head of the page `body` says, or why `body` is no JSON document.
pub uninterp spec fn playlist_head(body: Seq<u8>) -> Result<PlaylistHeadView, Seq<char>>;

/// What the page `body` says of its videos: `None` where `body` is no JSON
/// document or lists no videos.
pub uninterp spec fn playlist_items(body: Seq<u8>) -> Option<Seq<PlaylistItemView>>;

/// Calls `serde_json::from_slice` for a JSON value and reads from it, with
/// `get`, `as_u64`, `as_str`, `as_array` and `to_string`: the member `error`
/// as it is written, `pageInfo.totalResults` as a number, `nextPageToken` as
/// a string, and the length of the array `items`. The contract names the
/// result.
#[verifier::external_body]
pub(crate) fn read_head(body: &[u8]) -> (r: Result<PlaylistHead, String>)
    ensures
        match r {
            Ok(head) => playlist_head(body@) == Ok::<PlaylistHeadView, Seq<char>>(head@),
            Err(why) => playlist_head(body@) == Err::<PlaylistHeadView, Seq<char>>(why@),
        },
{
    let page: serde_json::Value = serde_json::from_slice(body).map_err(|e| e.to_string())?;
    let total = page.get("pageInfo").and_then(|p| p.get("totalResults"));
    let token = page.get("nextPageToken").and_then(|t| t.as_str());
    Ok(PlaylistHead {
        error: page.get("error").map(|e| e.to_string()),
        total_results: total.and_then(|t| t.as_u64()),
        next_page_token: token.map(str::to_string),
        items: page.get("items").and_then(|i| i.as_array()).map(|a| a.len()),
    })
}

/// Calls `serde_json::from_slice` for a JSON value and reads, from each entry
/// of its array `items`, the strings `snippet.title`, `snippet.description`,
/// `snippet.resourceId.videoId`, `snippet.publishedAt` and
/// `snippet.channelTitle`. The contract names the result.
#[verifier::external_body]
pub(crate) fn read_items(body: &[u8]) -> (r: Option<Vec<PlaylistItem>>)
    ensures
        r.deep_view() == playlist_items(body@),
{
    let page: serde_json::Value = serde_json::from_slice(body).ok()?;
    let text = |v: &serde_json::Value| v.as_str().map(str::to_string);
    let item = |s: &serde_json::Value| PlaylistItem {
        title: text(&s["title"]),
        description: text(&s["description"]),
        video_id: text(&s["resourceId"]["videoId"]),
        published_at: text(&s["publishedAt"]),
        channel_title: text(&s["channelTitle"]),
    };
    Some(page["items"].as_array()?.iter().map(|i| item(&i["snippet"])).collect())
}

/// Why the bytes `bytes` are no UTF-8, in the words of the standard library.
pub uninterp spec fn utf8_failure(bytes: Seq<u8>) -> Seq<char>;

/// Calls `String::from_utf8`, which takes the bytes as text where they are
/// valid UTF-8 and reports an error where they are not. The contract says
/// that the text takes exactly these bytes, and names the words of the error.
#[verifier::external_body]
pub(crate) fn text_from_utf8(bytes: &[u8]) -> (r: Result<String, String>)
    ensures
        match r {
            Ok(text) => vstd::utf8::valid_utf8(bytes@) && vstd::utf8::encode_utf8(text@) == bytes@,
            Err(why) => !vstd::utf8::valid_utf8(bytes@) && why@ == utf8_failure(bytes@),
        },
{
    String::from_utf8(bytes.to_vec()).map_err(|e| e.to_string())
}

/// The text that the bytes `bytes` are read as where what is no UTF-8 is
/// replaced by the replacement character.
pub uninterp spec fn lossy_text(bytes: Seq<u8>) -> Seq<char>;

/// Calls `String::from_utf8_lossy`, which reads bytes as text and replaces
/// what is no UTF-8 by the replacement character. The contract names the
/// text, and says that valid UTF-8 is read as it is.
#[verifier::external_body]
pub(crate) fn text_from_utf8_lossy(bytes: &[u8]) -> (text: String)
    ensures
        text@ == lossy_text(bytes@),
        vstd::utf8::valid_utf8(bytes@) ==> text@ == vstd::utf8::decode_utf8(bytes@),
{
    String::from_utf8_lossy(bytes).into_owned()
}

} // verus!
