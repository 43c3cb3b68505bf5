use clanopedia_backend::extractor::types::{
    ExtractionStatus, UrlType, YouTubeVideoInfo,
};
use clanopedia_backend::extractor::url_extractor::{
    calculate_github_fetch_cycles, calculate_youtube_api_cycles, complete_youtube_extraction,
    completed_progress, convert_github_url_to_raw, describe_http_failure, extract_filename_from_url,
    extract_github_content, extract_url_content, extract_youtube_content,
    extract_youtube_playlist_id, fetch_youtube_batch, format_timestamp, parse_youtube_response,
    record_youtube_failure, transform_github_response, transform_youtube_response,
    youtube_request_url, youtube_video_to_document, YouTubePaginationState,
};
use clanopedia_backend::extractor::Extractor;
use clanopedia_backend::external::blueband::ContentType;
use clanopedia_backend::dates::{parse_iso8601, parse_rfc3339_to_timestamp};
use clanopedia_backend::random::custom_random;
use clanopedia_backend::types::{ClanopediaError, ErrorKind};

const PAGE: &str = r#"{
  "pageInfo": {"totalResults": 120, "resultsPerPage": 50},
  "nextPageToken": "NEXT",
  "items": [
    {"snippet": {"title": "First", "description": "  About\n\n the first ", "resourceId": {"videoId": "v1"},
                 "publishedAt": "2020-01-02T03:04:05Z", "channelTitle": "Chan"}},
    {"snippet": {"title": "No id", "resourceId": {}}},
    {"snippet": {"resourceId": {"videoId": "v3"}, "publishedAt": "yesterday"}},
    {"snippet": {"title": "Empty id", "resourceId": {"videoId": ""}}}
  ]
}"#;

#[test]
fn playlist_id_is_what_follows_list() {
    assert_eq!(extract_youtube_playlist_id("https://www.youtube.com/playlist?list=PL123&index=2").unwrap(), "PL123");
    assert_eq!(extract_youtube_playlist_id("https://youtu.be/x?list=PLend").unwrap(), "PLend");
    assert_eq!(extract_youtube_playlist_id("list=&x=1").unwrap(), "");
    assert_eq!(extract_youtube_playlist_id("a?list=one&list=two").unwrap(), "one");
    let channel = extract_youtube_playlist_id("https://www.youtube.com/@someone").unwrap_err();
    assert_eq!(
        channel.to_string(),
        "Invalid input: Please provide a YouTube playlist URL or we'll need to implement channel uploads extraction"
    );
    let other = extract_youtube_playlist_id("https://www.youtube.com/watch?v=1").unwrap_err();
    assert_eq!(other.to_string(), "Invalid input: Could not extract playlist ID from YouTube URL");
}

#[test]
fn repository_address_becomes_the_raw_address() {
    assert_eq!(
        convert_github_url_to_raw("https://github.com/user/repo/blob/main/docs/file.md").unwrap(),
        "https://raw.githubusercontent.com/user/repo/refs/heads/main/docs/file.md"
    );
    assert_eq!(
        convert_github_url_to_raw("https://github.com/a/blob/blob/x/blob/").unwrap(),
        "https://raw.githubusercontent.com/a/refs/heads/blob/x/refs/heads/"
    );
    assert_eq!(
        convert_github_url_to_raw("https://raw.githubusercontent.com/u/r/main/f.md").unwrap(),
        "https://raw.githubusercontent.com/u/r/main/f.md"
    );
    assert_eq!(convert_github_url_to_raw("https://github.com/user/repo").unwrap_err().kind(), ErrorKind::InvalidInput);
    assert_eq!(convert_github_url_to_raw("").unwrap_err().kind(), ErrorKind::InvalidInput);
}

#[test]
fn file_name_is_the_last_segment_of_the_address() {
    assert_eq!(extract_filename_from_url("https://x/y/z.md").as_deref(), Some("z.md"));
    assert_eq!(extract_filename_from_url("https://x/y/").as_deref(), Some(""));
    assert_eq!(extract_filename_from_url("plain").as_deref(), Some("plain"));
    assert_eq!(extract_filename_from_url("").as_deref(), Some(""));
}

#[test]
fn request_costs_are_fixed() {
    assert_eq!(calculate_youtube_api_cycles(), 21_017_360_000);
    assert_eq!(calculate_github_fetch_cycles(), 6_395_220_000);
    assert_eq!(format_timestamp(1_700_000_000_000_000_000), "1700000000000000000");
}

#[test]
fn video_becomes_a_plain_text_document() {
    let video = YouTubeVideoInfo {
        title: "T".to_string(),
        description: Some("  line one \n\n line two ".to_string()),
        video_id: "abc".to_string(),
        published_at: 5,
        creator: Some("C".to_string()),
        tags: None,
    };
    let doc = youtube_video_to_document(video, "col").unwrap();
    assert_eq!(doc.content, "line one\nline two");
    assert_eq!(doc.title, "T");
    assert_eq!(doc.collection_id, "col");
    assert_eq!(doc.source_url.as_deref(), Some("https://www.youtube.com/watch?v=abc"));
    assert_eq!(doc.author.as_deref(), Some("C"));
    assert_eq!(doc.tags, Some(vec!["youtube".to_string(), "video".to_string()]));
    assert!(matches!(doc.content_type, Some(ContentType::PlainText)));
    let bare = YouTubeVideoInfo {
        title: "T".to_string(),
        description: None,
        video_id: "abc".to_string(),
        published_at: 77,
        creator: None,
        tags: None,
    };
    assert_eq!(youtube_video_to_document(bare, "col").unwrap().content, "YouTube Video: T\nVideo ID: abc\nPublished: 77");
    let long = YouTubeVideoInfo {
        title: "T".to_string(),
        description: Some("x".repeat(10 * 1024 * 1024 + 1)),
        video_id: "abc".to_string(),
        published_at: 77,
        creator: None,
        tags: None,
    };
    assert_eq!(youtube_video_to_document(long, "col").unwrap_err().kind(), ErrorKind::InvalidInput);
}

#[test]
fn playlists_need_a_key_and_unknown_sites_are_refused() {
    let key = Some("k".to_string());
    assert_eq!(extract_url_content("https://youtube.com/playlist?list=1", &key).unwrap(), UrlType::YouTube);
    assert_eq!(extract_url_content("https://youtube.com/playlist?list=1", &None).unwrap_err().to_string(), "Invalid input: YouTube API key is required");
    assert_eq!(extract_url_content("https://github.com/a/b/blob/m/x.md", &None).unwrap(), UrlType::GitHub);
    assert_eq!(extract_url_content("https://example.org", &key).unwrap_err().to_string(), "Invalid input: Unsupported URL type");
    let done = completed_progress("u", "c", 3, 9);
    assert!(matches!(done.status, ExtractionStatus::Completed));
    assert_eq!((done.processed_videos, done.last_updated, done.playlist_id.as_str()), (3, 9, ""));
}

#[test]
fn repository_file_becomes_a_markdown_document() {
    let docs = extract_github_content("https://github.com/u/r/blob/main/notes.md", "col", " # Title \n\n body ").unwrap();
    assert_eq!(docs.len(), 1);
    assert_eq!(docs[0].title, "notes.md");
    assert_eq!(docs[0].content, "# Title\nbody");
    assert_eq!(docs[0].source_url.as_deref(), Some("https://github.com/u/r/blob/main/notes.md"));
    assert_eq!(docs[0].tags, Some(vec!["github".to_string()]));
    assert!(matches!(docs[0].content_type, Some(ContentType::Markdown)));
    assert_eq!(extract_github_content("u", "c", " \n\t ").unwrap_err().to_string(), "Invalid input: GitHub file is empty");
    assert_eq!(extract_github_content("u", "c", &"x".repeat(10 * 1024 * 1024 + 1)).unwrap_err().kind(), ErrorKind::InvalidInput);
}

#[test]
fn unstable_headers_are_dropped() {
    assert!(transform_youtube_response("Content-Type"));
    assert!(transform_youtube_response("ETag"));
    assert!(!transform_youtube_response("Date"));
    assert!(!transform_youtube_response("X-RateLimit-Remaining"));
    assert!(!transform_youtube_response("CF-Ray"));
    assert!(!transform_youtube_response("Age"));
    assert!(transform_youtube_response("Language"));
    assert!(!transform_youtube_response("VARY"));
    assert!(!transform_youtube_response("Set-Cookie"));
    assert!(!transform_youtube_response("last-updated"));
    assert!(transform_github_response("Content-Type"));
    assert!(transform_github_response("CF-Ray"));
    assert!(!transform_github_response("ETag"));
    assert!(!transform_github_response("Last-Modified"));
    assert!(!transform_github_response("Server"));
    assert!(!transform_github_response("x-request-id"));
}

#[test]
fn failures_of_requests_are_told_by_their_cause() {
    assert_eq!(
        describe_http_failure("SysFatal", "out of cycles", 5).to_string(),
        "External call error: Insufficient cycles: sent 5 cycles but need more. Error: out of cycles"
    );
    assert_eq!(
        describe_http_failure("SysTransient", "timeout reached", 5).to_string(),
        "External call error: Network error (consider retry): SysTransient - timeout reached"
    );
    assert_eq!(
        describe_http_failure("CanisterReject", "no", 5).to_string(),
        "External call error: HTTP request failed: CanisterReject - no"
    );
}

#[test]
fn page_request_names_playlist_size_key_and_token() {
    let mut state = YouTubePaginationState::new("PL1".to_string());
    assert_eq!(
        youtube_request_url(&state, "KEY"),
        "https://www.googleapis.com/youtube/v3/playlistItems?part=snippet&playlistId=PL1&maxResults=50&key=KEY"
    );
    state.next_page_token = Some("TOK".to_string());
    assert_eq!(
        youtube_request_url(&state, "KEY"),
        "https://www.googleapis.com/youtube/v3/playlistItems?part=snippet&playlistId=PL1&maxResults=50&key=KEY&pageToken=TOK"
    );
}

#[test]
fn pagination_state_counts_and_knows_when_more_is_to_come() {
    let mut state = YouTubePaginationState::new("PL1".to_string());
    assert!(!state.has_more_pages());
    state.update_from_response(Some(120), Some("N".to_string()), Some(50));
    assert_eq!((state.total_videos, state.processed_videos), (Some(120), 50));
    assert!(state.has_more_pages());
    state.update_from_response(None, Some("N".to_string()), Some(70));
    assert_eq!((state.total_videos, state.processed_videos), (Some(120), 120));
    assert!(!state.has_more_pages());
    state.update_from_response(Some(u64::MAX), None, Some(usize::MAX));
    assert_eq!((state.total_videos, state.processed_videos), (Some(u32::MAX), u32::MAX));
    assert!(!state.has_more_pages());
    let mut open = YouTubePaginationState::new("PL1".to_string());
    open.update_from_response(None, Some("N".to_string()), None);
    assert!(open.has_more_pages());
    assert_eq!(open.processed_videos, 0);
}

#[test]
fn videos_are_read_from_a_page() {
    let videos = parse_youtube_response(PAGE.as_bytes(), 999).unwrap();
    assert_eq!(videos.len(), 2);
    assert_eq!(videos[0].title, "First");
    assert_eq!(videos[0].video_id, "v1");
    assert_eq!(videos[0].description.as_deref(), Some("  About\n\n the first "));
    assert_eq!(videos[0].published_at, 1_577_934_245_000_000_000);
    assert_eq!(videos[0].creator.as_deref(), Some("Chan"));
    assert_eq!(videos[1].title, "Untitled Video");
    assert_eq!(videos[1].video_id, "v3");
    assert_eq!(videos[1].published_at, 999);
    assert_eq!(videos[1].description, None);
    let no_items = parse_youtube_response(b"{\"kind\": 1}", 1).unwrap_err();
    assert_eq!(no_items.to_string(), "External call error: Missing items array");
    let reported = parse_youtube_response(b"{\"error\": {\"code\": 403}, \"items\": []}", 1).unwrap_err();
    assert_eq!(reported.to_string(), "External call error: YouTube API error: {\"code\":403}");
    let broken = parse_youtube_response(b"{", 1).unwrap_err();
    assert!(broken.to_string().starts_with("External call error: JSON parse error: "));
    let not_text = parse_youtube_response(&[0xff, 0xfe], 1).unwrap_err();
    assert!(not_text.to_string().starts_with("External call error: Invalid UTF-8 response: "));
    assert_eq!(parse_youtube_response(b"{\"items\": []}", 1).unwrap().len(), 0);
}

#[test]
fn answer_of_the_video_service_updates_the_state() {
    let mut state = YouTubePaginationState::new("PL1".to_string());
    let videos = fetch_youtube_batch(&mut state, 200, PAGE.as_bytes(), 999).unwrap();
    assert_eq!(videos.len(), 2);
    assert_eq!(state.next_page_token.as_deref(), Some("NEXT"));
    assert_eq!((state.total_videos, state.processed_videos), (Some(120), 4));
    let mut untouched = YouTubePaginationState::new("PL1".to_string());
    let denied = fetch_youtube_batch(&mut untouched, 403, b"quota", 1).unwrap_err();
    assert_eq!(denied.to_string(), "External call error: YouTube API error 403: quota");
    let redirect = fetch_youtube_batch(&mut untouched, 300, b"", 1).unwrap_err();
    assert_eq!(redirect.kind(), ErrorKind::ExternalCallError);
    assert!(fetch_youtube_batch(&mut untouched, 299, PAGE.as_bytes(), 1).is_ok());
    let mut fresh = YouTubePaginationState::new("PL1".to_string());
    assert!(fetch_youtube_batch(&mut fresh, 199, PAGE.as_bytes(), 1).is_err());
    let reported = fetch_youtube_batch(&mut fresh, 200, b"{\"error\": \"bad key\"}", 1).unwrap_err();
    assert_eq!(reported.to_string(), "External call error: YouTube API error: \"bad key\"");
    assert!(fetch_youtube_batch(&mut fresh, 200, b"not json", 1).is_err());
    assert_eq!((fresh.total_videos, fresh.processed_videos, fresh.next_page_token.is_none()), (None, 0, true));
}

#[test]
fn playlist_extraction_is_recorded_step_by_step() {
    let mut extractor = Extractor::new();
    let url = "https://www.youtube.com/playlist?list=PL9";
    assert!(extract_youtube_content(&mut extractor, "https://www.youtube.com/watch", "c", 1).is_err());
    assert!(extractor.progress.is_empty());
    let mut state = extract_youtube_content(&mut extractor, url, "c", 1).unwrap();
    assert_eq!(state.playlist_id, "PL9");
    assert!(matches!(extractor.get_progress("c", url).unwrap().status, ExtractionStatus::InProgress));
    let videos = fetch_youtube_batch(&mut state, 200, PAGE.as_bytes(), 2).unwrap();
    let docs = complete_youtube_extraction(&mut extractor, url, "c", "PL9", &state, videos, 3).unwrap();
    assert_eq!(docs.len(), 2);
    assert_eq!(docs[0].content, "About\nthe first");
    let record = extractor.get_progress("c", url).unwrap();
    assert!(matches!(record.status, ExtractionStatus::Paused));
    assert_eq!((record.processed_videos, record.total_videos, record.last_updated), (4, Some(120), 3));
    assert_eq!(record.next_page_token.as_deref(), Some("NEXT"));
    let resumed = extract_youtube_content(&mut extractor, url, "c", 4).unwrap();
    assert_eq!(resumed.processed_videos, 4);
    assert_eq!(resumed.next_page_token.as_deref(), Some("NEXT"));
    let none = complete_youtube_extraction(&mut extractor, url, "c", "PL9", &resumed, Vec::new(), 5).unwrap_err();
    assert_eq!(none.to_string(), "Invalid input: No videos found in YouTube playlist");
    let failed = extractor.get_progress("c", url).unwrap();
    assert!(matches!(failed.status, ExtractionStatus::Failed(ref why) if why == "No videos found"));
    assert_eq!(failed.next_page_token, None);
    record_youtube_failure(&mut extractor, url, "c", "PL9", &resumed, &ClanopediaError::ExternalCallError("down".to_string()), 6);
    let after = extractor.get_progress("c", url).unwrap();
    assert!(matches!(after.status, ExtractionStatus::Failed(ref why) if why == "External call error: down"));
    let last_state = YouTubePaginationState { playlist_id: "PL9".to_string(), next_page_token: None, total_videos: Some(4), processed_videos: 4 };
    let only = YouTubeVideoInfo { title: "t".to_string(), description: None, video_id: "v".to_string(), published_at: 1, creator: None, tags: None };
    complete_youtube_extraction(&mut extractor, url, "c", "PL9", &last_state, vec![only], 7).unwrap();
    assert!(matches!(extractor.get_progress("c", url).unwrap().status, ExtractionStatus::Completed));
}

#[test]
fn written_moments_are_read_or_replaced_by_now() {
    assert_eq!(parse_iso8601("1970-01-01T00:00:01Z", 7), Ok(1_000_000_000));
    assert_eq!(parse_iso8601("2020-01-02T03:04:05.5+01:00", 7), Ok(1_577_930_645_500_000_000));
    assert_eq!(parse_iso8601("not a date", 7), Ok(7));
    assert_eq!(parse_iso8601("", 7), Ok(7));
    assert_eq!(parse_iso8601("1969-12-31T23:59:59Z", 7), Ok(u64::MAX - 999_999_999));
    assert_eq!(parse_iso8601("1500-01-01T00:00:00Z", 7), Ok(0));
    assert_eq!(parse_rfc3339_to_timestamp("1970-01-01T00:00:02Z", 7), Some(2_000_000_000));
    assert_eq!(parse_rfc3339_to_timestamp("soon", 7), Some(7));
}

#[test]
fn generator_fills_the_buffer_from_the_seed() {
    let mut buf = vec![0u8; 4];
    custom_random(&mut buf, 1);
    let mut seed = 1u64;
    let mut expected = Vec::new();
    for _ in 0..4 {
        seed = seed.wrapping_mul(1103515245).wrapping_add(12345);
        expected.push((seed >> 16) as u8);
    }
    assert_eq!(buf, expected);
    assert_eq!(buf, vec![198, 126, 129, 107]);
    let mut empty: Vec<u8> = Vec::new();
    custom_random(&mut empty, 9);
    assert!(empty.is_empty());
    let mut again = vec![9u8; 4];
    custom_random(&mut again, u64::MAX);
    assert_ne!(again, buf);
}

#[test]
fn a_video_becomes_a_document_unless_its_text_is_too_long() {
    let video = YouTubeVideoInfo {
        title: "Talk".to_string(),
        description: None,
        video_id: "abc".to_string(),
        published_at: 42,
        creator: Some("Chan".to_string()),
        tags: None,
    };
    let docs = complete_youtube_extraction(
        &mut Extractor::new(),
        "https://www.youtube.com/playlist?list=PL1",
        "col",
        "PL1",
        &YouTubePaginationState::new("PL1".to_string()),
        vec![video],
        9,
    )
    .unwrap();
    assert_eq!(docs.len(), 1);
    assert_eq!(docs[0].collection_id, "col");
    assert_eq!(docs[0].title, "Talk");
    assert_eq!(docs[0].content, "YouTube Video: Talk\nVideo ID: abc\nPublished: 42");
    assert!(matches!(docs[0].content_type, Some(ContentType::PlainText)));
    assert_eq!(docs[0].source_url.as_deref(), Some("https://www.youtube.com/watch?v=abc"));
    assert_eq!(docs[0].author.as_deref(), Some("Chan"));
    assert_eq!(docs[0].tags, Some(vec!["youtube".to_string(), "video".to_string()]));

    let fits = YouTubeVideoInfo {
        title: "Short".to_string(),
        description: Some("x".repeat(10 * 1024 * 1024)),
        video_id: "s".to_string(),
        published_at: 1,
        creator: None,
        tags: None,
    };
    let long = YouTubeVideoInfo {
        title: "Long".to_string(),
        description: Some("x".repeat(10 * 1024 * 1024 + 1)),
        video_id: "l".to_string(),
        published_at: 1,
        creator: None,
        tags: None,
    };
    let longer = YouTubeVideoInfo {
        title: "Longer".to_string(),
        description: Some("x".repeat(10 * 1024 * 1024 + 2)),
        video_id: "m".to_string(),
        published_at: 1,
        creator: None,
        tags: None,
    };
    let mut extractor = Extractor::new();
    let refused = complete_youtube_extraction(
        &mut extractor,
        "https://www.youtube.com/playlist?list=PL1",
        "col",
        "PL1",
        &YouTubePaginationState::new("PL1".to_string()),
        vec![fits, long, longer],
        9,
    )
    .unwrap_err();
    assert_eq!(
        refused.to_string(),
        "Invalid input: Content too large: 10485761 bytes (max: 10485760 bytes)"
    );
    assert!(extractor.progress.is_empty());
}

#[test]
fn a_page_whose_head_is_read_may_still_list_nothing() {
    let mut state = YouTubePaginationState::new("PL1".to_string());
    let refused = fetch_youtube_batch(&mut state, 200, b"{\"nextPageToken\": \"N\"}", 1).unwrap_err();
    assert_eq!(refused.to_string(), "External call error: Missing items array");
    assert_eq!(state.next_page_token.as_deref(), Some("N"));
    let videos = fetch_youtube_batch(&mut state, 200, PAGE.as_bytes(), 5).unwrap();
    assert_eq!(videos.len(), 2);
    assert_eq!(videos[0].title, "First");
    assert_eq!(videos[0].video_id, "v1");
    assert_eq!(videos[1].title, "Untitled Video");
    assert_eq!(videos[1].video_id, "v3");
    assert_eq!(videos[1].published_at, 5);
    assert!(videos.iter().all(|v| v.tags.is_none()));
}
