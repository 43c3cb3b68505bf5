use clanopedia_backend::external::blueband::ContentType;
use clanopedia_backend::extractor::file_extractor::{
    extract_tags_from_content, extract_title_from_content, extract_yaml_frontmatter,
    get_filename_without_extension, parse_markdown_metadata, parse_yaml_frontmatter,
};
use clanopedia_backend::extractor::types::{
    ExtractionInfo, ExtractionProgress, ExtractionStatus, FileExtractionConfig, FileType, UrlType,
};
use clanopedia_backend::extractor::{
    cleanup_extraction_progress, cleanup_old_extractions, get_extraction_stats, resume_extraction,
    sanitize_content, validate_content_size, Extractor,
};
use clanopedia_backend::types::ErrorKind;

fn record(collection: &str, url: &str, status: ExtractionStatus, updated: u64) -> ExtractionProgress {
    ExtractionProgress {
        url: url.to_string(),
        collection_id: collection.to_string(),
        playlist_id: "PL1".to_string(),
        next_page_token: None,
        total_videos: Some(10),
        processed_videos: 4,
        last_updated: updated,
        status,
    }
}

#[test]
fn file_type_goes_by_the_last_ending_in_any_case() {
    assert_eq!(FileType::from_filename("paper.pdf"), FileType::Pdf);
    assert_eq!(FileType::from_filename("PAPER.PDF"), FileType::Pdf);
    assert_eq!(FileType::from_filename("notes.tar.MD"), FileType::Markdown);
    assert_eq!(FileType::from_filename("a.markdown"), FileType::Markdown);
    assert_eq!(FileType::from_filename("letter.doc"), FileType::DocX);
    assert_eq!(FileType::from_filename("letter.docx"), FileType::DocX);
    assert_eq!(FileType::from_filename("plain.txt"), FileType::PlainText);
    assert_eq!(FileType::from_filename("noending"), FileType::Unknown);
    assert_eq!(FileType::from_filename("trailing."), FileType::Unknown);
    assert_eq!(FileType::from_filename(""), FileType::Unknown);
    assert_eq!(FileType::from_filename("pdf"), FileType::Unknown);
}

#[test]
fn only_markdown_files_give_markdown() {
    assert!(matches!(FileType::Markdown.to_content_type(), ContentType::Markdown));
    assert!(matches!(FileType::Pdf.to_content_type(), ContentType::PlainText));
    assert!(matches!(FileType::DocX.to_content_type(), ContentType::PlainText));
    assert!(matches!(FileType::PlainText.to_content_type(), ContentType::PlainText));
    assert!(matches!(FileType::Unknown.to_content_type(), ContentType::PlainText));
}

#[test]
fn url_type_goes_by_the_host() {
    assert_eq!(UrlType::from_url("https://www.youtube.com/playlist?list=PL1"), UrlType::YouTube);
    assert_eq!(UrlType::from_url("https://youtu.be/abc"), UrlType::YouTube);
    assert_eq!(UrlType::from_url("https://github.com/a/b/blob/main/x.md"), UrlType::GitHub);
    assert_eq!(UrlType::from_url("https://github.com/youtube.com"), UrlType::YouTube);
    assert_eq!(UrlType::from_url("https://example.org"), UrlType::Unknown);
    assert_eq!(UrlType::from_url(""), UrlType::Unknown);
}

#[test]
fn default_configuration_takes_ten_mebibytes_of_each_known_kind() {
    let config = FileExtractionConfig::default();
    assert_eq!(config.max_file_size, 10_485_760);
    assert_eq!(
        config.supported_types,
        vec![FileType::Pdf, FileType::DocX, FileType::PlainText, FileType::Markdown]
    );
    assert!(config.extract_metadata);
}

#[test]
fn summary_sentences_follow_the_status() {
    let done = ExtractionInfo::for_file_extraction(3);
    assert_eq!(done.summary_message, "Extraction completed successfully. 3 documents processed.");
    assert!(!done.can_resume);
    assert!(!done.has_more);
    assert_eq!(done.total_count, Some(3));
    let paused = ExtractionInfo::new(ExtractionStatus::Paused, 50, Some(120), true);
    assert_eq!(
        paused.summary_message,
        "Batch extraction successful: 50/120 documents processed. Resume to continue with remaining 70 documents."
    );
    assert!(paused.can_resume);
    let overrun = ExtractionInfo::new(ExtractionStatus::Paused, 50, Some(20), true);
    assert_eq!(
        overrun.summary_message,
        "Batch extraction successful: 50/20 documents processed. Resume to continue with remaining 0 documents."
    );
    let open = ExtractionInfo::new(ExtractionStatus::Paused, 7, None, true);
    assert_eq!(
        open.summary_message,
        "Batch extraction successful: 7 documents processed. More content available - resume to continue."
    );
    let running = ExtractionInfo::new(ExtractionStatus::InProgress, 7, None, true);
    assert_eq!(running.summary_message, "Extraction in progress...");
    let failed = ExtractionInfo::for_failed_extraction("no network".to_string());
    assert_eq!(failed.summary_message, "Extraction failed: no network");
    assert!(failed.can_resume);
    assert_eq!(failed.processed_count, 0);
    let other = ExtractionInfo::new(ExtractionStatus::Completed, 4, None, false);
    assert_eq!(other.summary_message, "4 documents processed.");
    let from = ExtractionInfo::from_progress(&record("c", "u", ExtractionStatus::Paused, 1));
    assert!(from.has_more);
    assert_eq!(from.processed_count, 4);
    assert_eq!(from.total_count, Some(10));
}

#[test]
fn sanitizing_trims_lines_and_drops_empty_ones() {
    assert_eq!(sanitize_content("  a  \r\n\n\t b\n   \n c"), "a\nb\nc");
    assert_eq!(sanitize_content(""), "");
    assert_eq!(sanitize_content(" \n\t\n"), "");
    assert_eq!(sanitize_content("one line"), "one line");
    assert_eq!(sanitize_content("\u{a0}x\u{2003}\n"), "x");
    assert_eq!(sanitize_content("a\n"), "a");
    assert_eq!(sanitize_content("inner  space stays"), "inner  space stays");
}

#[test]
fn content_of_more_than_ten_mebibytes_is_refused() {
    let limit = 10 * 1024 * 1024;
    assert!(validate_content_size(&"x".repeat(limit)).is_ok());
    let err = validate_content_size(&"x".repeat(limit + 1)).unwrap_err();
    assert_eq!(err.kind(), ErrorKind::InvalidInput);
    assert_eq!(
        err.to_string(),
        "Invalid input: Content too large: 10485761 bytes (max: 10485760 bytes)"
    );
    assert!(validate_content_size(&"é".repeat(limit / 2)).is_ok());
    assert!(validate_content_size(&"é".repeat(limit / 2 + 1)).is_err());
}

#[test]
fn progress_is_kept_for_each_collection_and_address() {
    let mut extractor = Extractor::new();
    assert!(extractor.get_progress("c1", "u1").is_none());
    extractor.update_progress(record("c1", "u1", ExtractionStatus::InProgress, 1));
    extractor.update_progress(record("c1", "u2", ExtractionStatus::Paused, 2));
    extractor.update_progress(record("c2", "u1", ExtractionStatus::Completed, 3));
    extractor.update_progress(record("c1", "u1", ExtractionStatus::Paused, 4));
    assert_eq!(extractor.progress.len(), 3);
    assert_eq!(extractor.get_progress("c1", "u1").unwrap().last_updated, 4);
    assert_eq!(get_extraction_stats(&extractor), (3, 0, 2));
    let of_c1 = extractor.get_collection_extractions("c1".to_string());
    assert_eq!(of_c1.len(), 2);
    assert_eq!(of_c1[0].url, "u1");
    assert_eq!(of_c1[1].url, "u2");
    extractor.remove_progress("c1", "u1");
    assert!(extractor.get_progress("c1", "u1").is_none());
    extractor.remove_progress("c1", "u1");
    assert_eq!(extractor.progress.len(), 2);
    cleanup_extraction_progress(&mut extractor, "c2".to_string(), "u1".to_string()).unwrap();
    assert_eq!(extractor.progress.len(), 1);
}

#[test]
fn only_paused_or_failed_extractions_resume() {
    let mut extractor = Extractor::new();
    extractor.update_progress(record("c", "paused", ExtractionStatus::Paused, 1));
    extractor.update_progress(record("c", "failed", ExtractionStatus::Failed("x".to_string()), 1));
    extractor.update_progress(record("c", "done", ExtractionStatus::Completed, 1));
    extractor.update_progress(record("c", "running", ExtractionStatus::InProgress, 1));
    assert!(resume_extraction(&extractor, "c", "paused").is_ok());
    assert!(resume_extraction(&extractor, "c", "failed").is_ok());
    assert_eq!(resume_extraction(&extractor, "c", "done").unwrap_err().kind(), ErrorKind::InvalidInput);
    assert_eq!(resume_extraction(&extractor, "c", "running").unwrap_err().kind(), ErrorKind::InvalidInput);
    assert_eq!(resume_extraction(&extractor, "c", "none").unwrap_err().kind(), ErrorKind::InvalidInput);
}

#[test]
fn old_ended_extractions_are_forgotten() {
    let week = 7 * 24 * 60 * 60 * 1_000_000_000u64;
    let now = 10 * week;
    let mut extractor = Extractor::new();
    extractor.update_progress(record("c", "old-done", ExtractionStatus::Completed, now - week - 1));
    extractor.update_progress(record("c", "edge-done", ExtractionStatus::Completed, now - week));
    extractor.update_progress(record("c", "old-failed", ExtractionStatus::Failed("x".to_string()), 5));
    extractor.update_progress(record("c", "old-paused", ExtractionStatus::Paused, 5));
    assert_eq!(cleanup_old_extractions(&mut extractor, now), 2);
    let left: Vec<String> = extractor.progress.iter().map(|p| p.url.clone()).collect();
    assert_eq!(left, vec!["edge-done".to_string(), "old-paused".to_string()]);
    assert_eq!(cleanup_old_extractions(&mut extractor, 3), 0);
}

#[test]
fn responses_sum_up_the_extraction() {
    let empty = Extractor::create_response(Vec::new(), None);
    assert_eq!(empty.extraction_info.summary_message, "Extraction completed successfully. 0 documents processed.");
    let paused = Extractor::create_response(Vec::new(), Some(record("c", "u", ExtractionStatus::Paused, 1)));
    assert!(paused.extraction_info.has_more);
    assert!(paused.extraction_info.can_resume);
    let failed = Extractor::create_failed_response("boom".to_string());
    assert!(failed.documents.is_empty());
    assert_eq!(failed.extraction_info.summary_message, "Extraction failed: boom");
}

#[test]
fn file_name_loses_its_last_ending() {
    assert_eq!(get_filename_without_extension("a.b.md"), "a.b");
    assert_eq!(get_filename_without_extension("plain"), "plain");
    assert_eq!(get_filename_without_extension(".hidden"), "");
    assert_eq!(get_filename_without_extension(""), "");
}

#[test]
fn head_is_what_stands_between_the_fences() {
    assert_eq!(
        extract_yaml_frontmatter("---\ntitle: A\r\nauthor: B\n---\nbody").as_deref(),
        Some("title: A\nauthor: B")
    );
    assert_eq!(extract_yaml_frontmatter("  --- \nx: y\n ... \n").as_deref(), Some("x: y"));
    assert_eq!(extract_yaml_frontmatter("---\n---\n").as_deref(), Some(""));
    assert_eq!(extract_yaml_frontmatter("---\nnever closed"), None);
    assert_eq!(extract_yaml_frontmatter("# Title\n---\n---"), None);
    assert_eq!(extract_yaml_frontmatter(""), None);
}

#[test]
fn head_lines_set_title_author_and_tags() {
    let m = parse_yaml_frontmatter("title: \"Hello: World\"\nauthor: 'Ann'\ntags: [a, \"b\", , c ]\nother: x");
    assert_eq!(m.title.as_deref(), Some("Hello: World"));
    assert_eq!(m.author.as_deref(), Some("Ann"));
    assert_eq!(m.tags, Some(vec!["a".to_string(), "b".to_string(), "c".to_string()]));
    let plain = parse_yaml_frontmatter("tags: x, y\ntitle:\nno colon here\n  title : Last  ");
    assert_eq!(plain.tags, Some(vec!["x".to_string(), "y".to_string()]));
    assert_eq!(plain.title.as_deref(), Some("Last"));
    assert_eq!(plain.author, None);
    let empty = parse_yaml_frontmatter("title: \"\"\ntags: [ ]\ntags: ,");
    assert_eq!(empty.title, None);
    assert_eq!(empty.tags, None);
    let open = parse_yaml_frontmatter("tags: [a, b");
    assert_eq!(open.tags, Some(vec!["[a".to_string(), "b".to_string()]));
    let overridden = parse_yaml_frontmatter("title: One\ntitle: Two\ntitle: ''");
    assert_eq!(overridden.title.as_deref(), Some("Two"));
}

#[test]
fn title_is_the_first_heading_of_the_first_rank() {
    assert_eq!(extract_title_from_content("intro\n## Sub\n  #  Main title \n# Second").as_deref(), Some("Main title"));
    assert_eq!(extract_title_from_content("#NoBlank\n# \n#"), None);
    assert_eq!(extract_title_from_content(""), None);
}

#[test]
fn tags_are_read_from_the_first_line_that_lists_them() {
    assert_eq!(
        extract_tags_from_content("text\n tags: a, b ,,c\ntags: z"),
        Some(vec!["a".to_string(), "b".to_string(), "c".to_string()])
    );
    assert_eq!(extract_tags_from_content("Tags: a, b\ntags: c"), None);
    assert_eq!(extract_tags_from_content("tags:   \ntags: c"), None);
    assert_eq!(extract_tags_from_content("no tags"), None);
    assert_eq!(extract_tags_from_content("tags: \"q\""), Some(vec!["\"q\"".to_string()]));
}

#[test]
fn markdown_metadata_falls_back_on_the_body() {
    let m = parse_markdown_metadata("---\nauthor: Ann\n---\n# Heading\ntags: x, y\n");
    assert_eq!(m.title.as_deref(), Some("Heading"));
    assert_eq!(m.author.as_deref(), Some("Ann"));
    assert_eq!(m.tags, Some(vec!["x".to_string(), "y".to_string()]));
    let head_wins = parse_markdown_metadata("---\ntitle: Head\ntags: [h]\n---\n# Heading\ntags: x\n");
    assert_eq!(head_wins.title.as_deref(), Some("Head"));
    assert_eq!(head_wins.tags, Some(vec!["h".to_string()]));
    let bare = parse_markdown_metadata("just text");
    assert!(bare.title.is_none() && bare.author.is_none() && bare.tags.is_none());
}

#[test]
fn white_space_is_the_unicode_class() {
    for c in ['\t', '\n', '\u{b}', '\u{c}', '\r', ' ', '\u{85}', '\u{a0}', '\u{1680}', '\u{2000}', '\u{200a}', '\u{2028}', '\u{2029}', '\u{202f}', '\u{205f}', '\u{3000}'] {
        assert_eq!(sanitize_content(&format!("{}x{}", c, c)), "x", "{:?}", c);
    }
    for c in ['\u{8}', '\u{e}', '\u{1f}', '\u{84}', '\u{86}', '\u{180e}', '\u{1fff}', '\u{200b}', '\u{2027}', '\u{202a}', '\u{2060}', '\u{feff}'] {
        assert_eq!(sanitize_content(&format!("{}x{}", c, c)), format!("{}x{}", c, c), "{:?}", c);
    }
}

#[test]
fn sanitizing_twice_is_sanitizing_once() {
    for text in ["  a  \r\n\n\t b\n   \n c", "", " \n\t\n", "x\u{3000}\n\u{a0}y z \n\n", "\n\na", "a\n\n"] {
        let once = sanitize_content(text);
        assert_eq!(sanitize_content(&once), once);
        assert!(once.chars().count() <= text.chars().count());
    }
}
