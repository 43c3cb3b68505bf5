use std::io::Write;

use lopdf::content::{Content, Operation};
use lopdf::{Dictionary, Document, Object, Stream};

use clanopedia_backend::decoding::{detect_encoding, TextEncoding};
use clanopedia_backend::external::blueband::ContentType;
use clanopedia_backend::extractor::file_extractor::{
    create_text_result, extract_docx_file, extract_docx_metadata, extract_file_content,
    extract_markdown_file, extract_pdf_file, extract_pdf_metadata_lopdf, extract_text_file,
    needs_pdf_reading,
    is_blank, parse_core_metadata, parse_docx_xml, parse_keywords, read_document_xml,
};
use clanopedia_backend::extractor::Extractor;
use clanopedia_backend::pdf::PdfReading;
use clanopedia_backend::service::{
    add_extracted_documents, authorize_admin, cleanup_extraction_progress_endpoint,
    create_collection_endpoint, embed_description, get_extraction_limits,
    get_sns_governance_canister_endpoint, get_supported_file_types, get_supported_url_types,
    governance_type, is_admin, is_sns_integrated_endpoint, new_collection_id, prepare_config,
    update_collection,
};
use clanopedia_backend::extractor::types::{DocumentAction, ExtractionProgress, ExtractionStatus};
use clanopedia_backend::storage::{get_collection, Registry};
use clanopedia_backend::types::{CollectionConfig, ErrorKind, GovernanceModel, Principal};

fn docx(parts: &[(&str, &str)]) -> Vec<u8> {
    let mut writer = zip::ZipWriter::new(std::io::Cursor::new(Vec::new()));
    let options = zip::write::FileOptions::default().compression_method(zip::CompressionMethod::Stored);
    for (name, text) in parts {
        writer.start_file(*name, options).unwrap();
        writer.write_all(text.as_bytes()).unwrap();
    }
    writer.finish().unwrap().into_inner()
}

const DOCUMENT: &str = "<w:document><w:body><w:p><w:r><w:t>Hello &amp; welcome</w:t></w:r></w:p><w:p><w:r><w:t>Second</w:t><w:tab/><w:t xml:space=\"preserve\"> line </w:t></w:r></w:p></w:body></w:document>";

#[test]
fn encoding_is_suggested_by_mark_and_high_bytes() {
    assert_eq!(detect_encoding(&[0xFF, 0xFE, 0x41]), TextEncoding::Utf16Le);
    assert_eq!(detect_encoding(&[0xFE, 0xFF]), TextEncoding::Utf16Be);
    assert_eq!(detect_encoding(&[0xEF, 0xBB, 0xBF, 0x80]), TextEncoding::Utf8);
    assert_eq!(detect_encoding(&[0x41, 0xE9]), TextEncoding::Windows1252);
    assert_eq!(detect_encoding(b"plain"), TextEncoding::Utf8);
    assert_eq!(detect_encoding(&[]), TextEncoding::Utf8);
    assert_eq!(detect_encoding(&[0xFF]), TextEncoding::Windows1252);
}

#[test]
fn text_file_is_read_in_the_encoding_that_fits() {
    let plain = extract_text_file("  héllo \n\n wörld ".as_bytes(), "notes.v2.txt", 5).unwrap();
    assert_eq!(plain.title, "notes.v2");
    assert_eq!(plain.content, "héllo\nwörld");
    assert!(matches!(plain.content_type, ContentType::PlainText));
    let meta = plain.metadata.unwrap();
    assert_eq!((meta.file_size, meta.created_at, meta.page_count), (Some(19), Some(5), None));
    let latin = extract_text_file(&[b'c', b'a', b'f', 0xE9], "menu.txt", 5).unwrap();
    assert_eq!(latin.content, "café");
    let wide = extract_text_file(&[0xFF, 0xFE, b'h', 0, b'i', 0], "wide.txt", 5).unwrap();
    assert_eq!(wide.content, "hi");
    let empty = extract_text_file(b" \n ", "e.txt", 5).unwrap_err();
    assert_eq!(empty.to_string(), "Invalid input: Text file is empty");
    assert!(create_text_result("x".to_string(), "a.txt", 1).is_ok());
    assert!(is_blank(" \t\n"));
    assert!(!is_blank(" x "));
}

#[test]
fn markdown_file_takes_its_title_from_head_heading_or_name() {
    let with_head = extract_markdown_file(b"---\ntitle: From head\nauthor: Ann\ntags: [a, b]\n---\n# Heading\nbody", "f.md", 9).unwrap();
    assert_eq!(with_head.title, "From head");
    assert!(matches!(with_head.content_type, ContentType::Markdown));
    let meta = with_head.metadata.unwrap();
    assert_eq!(meta.author.as_deref(), Some("Ann"));
    assert_eq!(meta.tags, Some(vec!["a".to_string(), "b".to_string()]));
    assert_eq!(meta.created_at, Some(9));
    assert_eq!(meta.file_size, Some(64));
    let with_heading = extract_markdown_file(b"intro\n# Heading\nbody", "f.md", 9).unwrap();
    assert_eq!(with_heading.title, "Heading");
    assert_eq!(with_heading.content, "intro\n# Heading\nbody");
    let bare = extract_markdown_file(b"just text", "name.md", 9).unwrap();
    assert_eq!(bare.title, "name");
    assert_eq!(extract_markdown_file(b"\n \n", "f.md", 9).unwrap_err().to_string(), "Invalid input: Markdown file is empty");
}

#[test]
fn word_document_text_follows_runs_paragraphs_and_tabs() {
    assert_eq!(parse_docx_xml(DOCUMENT).unwrap(), "Hello & welcome\nSecondline");
    assert_eq!(parse_docx_xml("<w:p><w:t>a</w:t><w:tab></w:tab><w:t>b</w:t></w:p>").unwrap(), "a\tb");
    assert_eq!(parse_docx_xml("<w:p><w:t>a</w:t><w:br></w:br><w:t>b</w:t><x>ignored</x></w:p>").unwrap(), "a\nb");
    let none = parse_docx_xml("<w:document><w:p>outside runs</w:p></w:document>").unwrap_err();
    assert_eq!(none.to_string(), "Invalid input: No text content found in Word document");
    let bad = parse_docx_xml("<w:t>fine</w:t><w:t>&nosuch;</w:t>").unwrap_err();
    assert!(bad.to_string().starts_with("Invalid input: XML parsing error: "));
    let broken = parse_docx_xml("<w:t>fine</w:t></w:p>").unwrap_err();
    assert!(broken.to_string().starts_with("Invalid input: XML parsing error: "));
}

#[test]
fn word_document_description_follows_the_last_opened_tag() {
    let core = "<cp:coreProperties><dc:title>Report</dc:title><dc:creator>Ann</dc:creator><dcterms:created>1970-01-01T00:00:03Z</dcterms:created></cp:coreProperties>";
    let m = parse_core_metadata(core, 7).unwrap();
    assert_eq!(m.title.as_deref(), Some("Report"));
    assert_eq!(m.author.as_deref(), Some("Ann"));
    assert_eq!(m.created_at, Some(3_000_000_000));
    assert_eq!(m.tags, None);
    let spaced = parse_core_metadata("<dc:title>Report</dc:title>\n<dc:creator>Ann</dc:creator>", 7).unwrap();
    assert_eq!(spaced.title.as_deref(), Some("\n"));
    let undated = parse_core_metadata("<dcterms:created>someday</dcterms:created>", 7).unwrap();
    assert_eq!(undated.created_at, Some(7));
    let empty = parse_core_metadata("", 7).unwrap();
    assert!(empty.title.is_none() && empty.author.is_none() && empty.created_at.is_none());
}

#[test]
fn keywords_are_split_at_commas_and_semicolons() {
    assert_eq!(
        parse_keywords("<Properties><Keywords> a; b ,c;; </Keywords></Properties>"),
        Some(vec!["a".to_string(), "b".to_string(), "c".to_string()])
    );
    assert_eq!(parse_keywords("<Properties><Keywords> ; </Keywords><Keywords>late</Keywords></Properties>"), Some(vec!["late".to_string()]));
    assert_eq!(parse_keywords("<Properties><Other>a</Other></Properties>"), None);
    assert_eq!(parse_keywords(""), None);
}

#[test]
fn word_file_is_read_from_its_archive() {
    let core = "<cp:coreProperties><dc:title>Report</dc:title></cp:coreProperties>";
    let app = "<Properties><Keywords>x, y</Keywords></Properties>";
    let file = docx(&[("word/document.xml", DOCUMENT), ("docProps/core.xml", core), ("docProps/app.xml", app)]);
    assert_eq!(read_document_xml(&file).unwrap(), DOCUMENT);
    let result = extract_docx_file(&file, "fallback.docx", 11).unwrap();
    assert_eq!(result.title, "Report");
    assert_eq!(result.content, "Hello & welcome\nSecondline");
    let meta = result.metadata.unwrap();
    assert_eq!(meta.tags, Some(vec!["x".to_string(), "y".to_string()]));
    assert_eq!(meta.file_size, Some(file.len() as u64));
    assert_eq!(meta.created_at, None);
    let known = extract_docx_metadata(&file, 11);
    assert_eq!(known.title.as_deref(), Some("Report"));
    let plain = docx(&[("word/document.xml", DOCUMENT)]);
    assert_eq!(extract_docx_file(&plain, "fallback.docx", 11).unwrap().title, "fallback");
    let other = docx(&[("readme.txt", "hi")]);
    assert_eq!(read_document_xml(&other).unwrap_err().to_string(), "Invalid input: No document.xml found in DOCX");
    let not_zip = read_document_xml(b"plain bytes").unwrap_err();
    assert!(not_zip.to_string().starts_with("Invalid input: Invalid DOCX file: "));
    let binary = docx(&[("word/document.xml", "\u{0}")]);
    assert!(extract_docx_file(&binary, "f.docx", 1).is_err());
}

#[test]
fn pdf_file_that_is_none_is_refused() {
    let bad = extract_pdf_file(b"this is no pdf", &read_pdf(b"this is no pdf"), "f.pdf", 1).unwrap_err();
    assert_eq!(bad.kind(), ErrorKind::InvalidInput);
    assert!(bad.to_string().starts_with("Invalid input: Invalid PDF file: "));
    let told = extract_pdf_file(b"x", &PdfReading::unread("broken".to_string()), "f.pdf", 1).unwrap_err();
    assert_eq!(told.to_string(), "Invalid input: Invalid PDF file: broken");
    let nothing = extract_pdf_metadata_lopdf(&read_pdf(b"this is no pdf"));
    assert!(nothing.title.is_none() && nothing.author.is_none() && nothing.page_count.is_none());
}

#[test]
fn pages_of_a_pdf_reading_are_joined_without_the_blank_ones() {
    let reading = PdfReading {
        pages: Ok(vec![Some(" first page ".to_string()), None, Some("  ".to_string()), Some("second\n\npage".to_string())]),
        title: None,
        author: Some("Ann".to_string()),
    };
    let result = extract_pdf_file(b"12345", &reading, "report.final.pdf", 8).unwrap();
    assert_eq!(result.title, "report.final");
    assert_eq!(result.content, "first page\nsecond\npage");
    let meta = result.metadata.unwrap();
    assert_eq!((meta.file_size, meta.page_count, meta.created_at), (Some(5), Some(4), Some(8)));
    assert_eq!(meta.author.as_deref(), Some("Ann"));
    assert!(meta.tags.is_none());
    let described = extract_pdf_metadata_lopdf(&reading);
    assert_eq!((described.title, described.author, described.page_count), (None, Some("Ann".to_string()), Some(4)));
    let empty = PdfReading { pages: Ok(vec![None, Some("\n".to_string())]), title: Some("T".to_string()), author: None };
    assert_eq!(
        extract_pdf_file(b"1", &empty, "e.pdf", 1).unwrap_err().to_string(),
        "Invalid input: No extractable text found in PDF. This may be an image-based PDF, encrypted, or contains only graphics."
    );
    let docs = extract_file_content(b"12345".to_vec(), "r.PDF".to_string(), "col".to_string(), &reading, 8).unwrap();
    assert_eq!(docs[0].content, "first page\nsecond\npage");
    assert_eq!(docs[0].author.as_deref(), Some("Ann"));
    let as_text = extract_file_content(b"plain".to_vec(), "r.txt".to_string(), "col".to_string(), &reading, 8).unwrap();
    assert_eq!(as_text[0].content, "plain");
}

fn description_entry(document: &Document, key: &[u8]) -> Option<String> {
    let info = document.trailer.get(b"Info").and_then(|o| o.as_reference());
    let info = info.and_then(|id| document.get_dictionary(id)).ok()?;
    let bytes = info.get(key).and_then(|o| o.as_str()).ok()?;
    String::from_utf8(bytes.to_vec()).ok()
}

fn read_pdf(data: &[u8]) -> PdfReading {
    match Document::load_mem(data) {
        Ok(document) => PdfReading {
            pages: Ok(document.get_pages().keys().map(|n| document.extract_text(&[*n]).ok()).collect()),
            title: description_entry(&document, b"Title"),
            author: description_entry(&document, b"Author"),
        },
        Err(e) => PdfReading::unread(e.to_string()),
    }
}

fn no_pdf() -> PdfReading {
    PdfReading::unread(String::new())
}

fn sample_pdf(text: &str, title: Option<&str>) -> Vec<u8> {
    let mut doc = Document::with_version("1.5");
    let pages_id = doc.new_object_id();
    let mut font = Dictionary::new();
    font.set("Type", Object::Name(b"Font".to_vec()));
    font.set("Subtype", Object::Name(b"Type1".to_vec()));
    font.set("BaseFont", Object::Name(b"Courier".to_vec()));
    let font_id = doc.add_object(font);
    let mut fonts = Dictionary::new();
    fonts.set("F1", Object::Reference(font_id));
    let mut resources = Dictionary::new();
    resources.set("Font", Object::Dictionary(fonts));
    let resources_id = doc.add_object(resources);
    let content = Content {
        operations: vec![
            Operation::new("BT", vec![]),
            Operation::new("Tf", vec![Object::Name(b"F1".to_vec()), Object::Integer(12)]),
            Operation::new("Td", vec![Object::Integer(50), Object::Integer(700)]),
            Operation::new("Tj", vec![Object::string_literal(text)]),
            Operation::new("ET", vec![]),
        ],
    };
    let content_id = doc.add_object(Stream::new(Dictionary::new(), content.encode().unwrap()));
    let mut page = Dictionary::new();
    page.set("Type", Object::Name(b"Page".to_vec()));
    page.set("Parent", Object::Reference(pages_id));
    page.set("Contents", Object::Reference(content_id));
    let page_id = doc.add_object(page);
    let mut pages = Dictionary::new();
    pages.set("Type", Object::Name(b"Pages".to_vec()));
    pages.set("Kids", Object::Array(vec![Object::Reference(page_id)]));
    pages.set("Count", Object::Integer(1));
    pages.set("Resources", Object::Reference(resources_id));
    pages.set("MediaBox", Object::Array(vec![0.into(), 0.into(), 595.into(), 842.into()]));
    doc.objects.insert(pages_id, Object::Dictionary(pages));
    let mut catalog = Dictionary::new();
    catalog.set("Type", Object::Name(b"Catalog".to_vec()));
    catalog.set("Pages", Object::Reference(pages_id));
    let catalog_id = doc.add_object(catalog);
    doc.trailer.set("Root", Object::Reference(catalog_id));
    if let Some(title) = title {
        let mut info = Dictionary::new();
        info.set("Title", Object::string_literal(title));
        info.set("Author", Object::string_literal("Ann"));
        let info_id = doc.add_object(info);
        doc.trailer.set("Info", Object::Reference(info_id));
    }
    let mut out = Vec::new();
    doc.save_to(&mut out).unwrap();
    out
}

#[test]
fn pdf_file_gives_the_text_of_its_pages() {
    let file = sample_pdf("Hello from a page", Some("The Title"));
    let result = extract_pdf_file(&file, &read_pdf(&file), "fallback.pdf", 4).unwrap();
    assert_eq!(result.title, "The Title");
    assert_eq!(result.content, "Hello from a page");
    let meta = result.metadata.unwrap();
    assert_eq!((meta.page_count, meta.created_at), (Some(1), Some(4)));
    assert_eq!(meta.author.as_deref(), Some("Ann"));
    assert_eq!(meta.file_size, Some(file.len() as u64));
    let untitled = sample_pdf("Text", None);
    assert_eq!(extract_pdf_file(&untitled, &read_pdf(&untitled), "fallback.pdf", 4).unwrap().title, "fallback");
    let blank = sample_pdf("   ", None);
    assert_eq!(extract_pdf_file(&blank, &read_pdf(&blank), "b.pdf", 4).unwrap_err().kind(), ErrorKind::InvalidInput);
}

#[test]
fn uploaded_file_becomes_one_document() {
    let docs = extract_file_content(b" one \n two ".to_vec(), "n.TXT".to_string(), "col".to_string(), &no_pdf(), 1).unwrap();
    assert_eq!(docs.len(), 1);
    assert_eq!((docs[0].title.as_str(), docs[0].content.as_str(), docs[0].collection_id.as_str()), ("n", "one\ntwo", "col"));
    assert!(matches!(docs[0].content_type, Some(ContentType::PlainText)));
    let md = Extractor::extract_from_file(b"# T\ntags: a".to_vec(), "x.md".to_string(), "col".to_string(), &no_pdf(), 1).unwrap();
    assert_eq!(md[0].title, "T");
    assert_eq!(md[0].tags, Some(vec!["a".to_string()]));
    assert!(matches!(md[0].content_type, Some(ContentType::Markdown)));
    let unknown = extract_file_content(b"x".to_vec(), "x.bin".to_string(), "col".to_string(), &no_pdf(), 1).unwrap_err();
    assert_eq!(unknown.to_string(), "Invalid input: Unsupported file type: Unknown");
    let big = extract_file_content(vec![b'x'; 10 * 1024 * 1024 + 1], "x.txt".to_string(), "col".to_string(), &no_pdf(), 1).unwrap_err();
    assert_eq!(big.to_string(), "Invalid input: File too large: 10485761 bytes (max: 10485760 bytes)");
    assert!(extract_file_content(vec![b'x'; 10 * 1024 * 1024], "x.txt".to_string(), "col".to_string(), &no_pdf(), 1).is_ok());
    let file = docx(&[("word/document.xml", DOCUMENT)]);
    assert_eq!(extract_file_content(file, "d.docx".to_string(), "col".to_string(), &no_pdf(), 1).unwrap()[0].title, "d");
    assert!(extract_file_content(b"junk".to_vec(), "d.pdf".to_string(), "col".to_string(), &read_pdf(b"junk"), 1).is_err());
}

fn principal(tag: u8) -> Principal {
    Principal::from_slice(&[tag, 1]).unwrap()
}

fn config(admins: Vec<String>) -> CollectionConfig {
    CollectionConfig {
        name: "N".to_string(),
        description: "D".to_string(),
        admins,
        threshold: 1,
        governance_token: None,
        sns_governance_canister: None,
        governance_model: GovernanceModel::Multisig,
        quorum_threshold: 0,
        is_permissionless: false,
    }
}

#[test]
fn collection_id_is_made_of_caller_time_and_random_number() {
    assert_eq!(new_collection_id(&Principal::anonymous(), 987_654_321, 0x1F), "col_2vxsx-fa_4321_001f");
    let short = Principal::from_text("aaaaa-aa").unwrap();
    assert_eq!(new_collection_id(&short, 7, 0xFFFE), "col_aaaaa-aa_7_fffe");
    assert_eq!(new_collection_id(&short, 7, 0xFFFF), "col_aaaaa-aa_7_0000");
}

#[test]
fn configuration_falls_back_on_the_caller() {
    let caller = principal(1);
    let kept = prepare_config(config(vec![principal(2).to_text()]), &caller).unwrap();
    assert_eq!(kept.admins, vec![principal(2).to_text()]);
    let empty = prepare_config(config(vec![]), &caller).unwrap();
    assert_eq!(empty.admins, vec![caller.to_text()]);
    let broken = prepare_config(config(vec![principal(2).to_text(), "x".to_string()]), &caller).unwrap();
    assert_eq!(broken.admins, vec![caller.to_text()]);
    let mut token = config(vec![]);
    token.governance_token = Some("nonsense".to_string());
    assert_eq!(prepare_config(token, &caller).unwrap_err().kind(), ErrorKind::InvalidInput);
    let mut upper = config(vec![]);
    upper.governance_token = Some("2VXSX-FAE".to_string());
    assert_eq!(prepare_config(upper, &caller).unwrap().governance_token.as_deref(), Some("2vxsx-fae"));
    let mut good = config(vec![]);
    good.governance_token = Some("2vxsx-fae".to_string());
    assert_eq!(prepare_config(good, &caller).unwrap().governance_token.as_deref(), Some("2vxsx-fae"));
}

#[test]
fn collection_is_created_and_reconfigured_by_its_administrators() {
    let mut registry = Registry::new();
    let caller = principal(1);
    let id = "col_x".to_string();
    let made = create_collection_endpoint(&mut registry, &id, config(vec![]), caller, 5, "remote_x".to_string()).unwrap();
    assert_eq!(made, "col_x");
    let stored = get_collection(&registry, &id).unwrap();
    assert_eq!(stored.blueband_collection_id, "remote_x");
    assert_eq!(stored.admins, vec![caller]);
    assert_eq!(create_collection_endpoint(&mut registry, &id, config(vec![]), caller, 5, "r".to_string()).unwrap_err().kind(), ErrorKind::AlreadyExists);
    assert!(is_admin(&registry, "col_x", caller));
    assert!(!is_admin(&registry, "col_x", principal(2)));
    assert!(!is_admin(&registry, "col_y", caller));
    assert!(authorize_admin(&registry, "col_x", caller).is_ok());
    assert_eq!(authorize_admin(&registry, "col_x", principal(2)).unwrap_err().kind(), ErrorKind::NotAuthorized);
    assert_eq!(authorize_admin(&registry, "col_y", caller).unwrap_err().kind(), ErrorKind::NotFound);
    let mut renamed = config(vec![]);
    renamed.name = "Renamed".to_string();
    assert_eq!(update_collection(&mut registry, "col_x", &renamed, principal(2), 6).unwrap_err().kind(), ErrorKind::NotAuthorized);
    update_collection(&mut registry, "col_x", &renamed, caller, 6).unwrap();
    let after = get_collection(&registry, &id).unwrap();
    assert_eq!((after.name.as_str(), after.updated_at), ("Renamed", 6));
    assert_eq!(after.admins, vec![caller]);
    assert_eq!(is_sns_integrated_endpoint(&registry, "col_x").unwrap(), false);
    assert_eq!(get_sns_governance_canister_endpoint(&registry, "col_x").unwrap(), None);
    assert!(is_sns_integrated_endpoint(&registry, "col_y").is_err());
}

#[test]
fn only_ended_extractions_are_cleaned_up_by_administrators() {
    let mut registry = Registry::new();
    let caller = principal(1);
    let id = "c".to_string();
    create_collection_endpoint(&mut registry, &id, config(vec![]), caller, 5, "r".to_string()).unwrap();
    let mut extractor = Extractor::new();
    let record = |url: &str, status| ExtractionProgress {
        url: url.to_string(),
        collection_id: "c".to_string(),
        playlist_id: String::new(),
        next_page_token: None,
        total_videos: None,
        processed_videos: 0,
        last_updated: 0,
        status,
    };
    extractor.update_progress(record("done", ExtractionStatus::Completed));
    extractor.update_progress(record("paused", ExtractionStatus::Paused));
    let run = |e: &mut Extractor, who, url| cleanup_extraction_progress_endpoint(&registry, e, who, "c", url).map_err(|e| e.kind());
    assert_eq!(run(&mut extractor, principal(2), "done"), Err(ErrorKind::NotAuthorized));
    assert_eq!(run(&mut extractor, caller, "paused"), Err(ErrorKind::InvalidOperation));
    assert_eq!(run(&mut extractor, caller, "none"), Err(ErrorKind::InvalidInput));
    assert_eq!(run(&mut extractor, caller, "done"), Ok(()));
    assert_eq!(extractor.progress.len(), 1);
}

#[test]
fn messages_to_callers_are_put_together() {
    assert_eq!(governance_type(GovernanceModel::TokenBased), "token-based");
    assert_eq!(governance_type(GovernanceModel::SnsIntegrated), "SNS-integrated");
    let ids: Vec<String> = vec!["a".into(), "b".into(), "c".into(), "d".into()];
    assert_eq!(embed_description(&ids), "Embed 4 extracted documents into the collection. Documents: [a, b, c]");
    assert_eq!(embed_description(&ids[..2].to_vec()), "Embed 2 extracted documents into the collection. Documents: [a, b]");
    assert_eq!(embed_description(&Vec::new()), "Embed 0 extracted documents into the collection. Documents: []");
    let result = add_extracted_documents(ids.clone(), "prop_1".to_string(), GovernanceModel::Multisig);
    assert_eq!(result.message, "Successfully added 4 documents. Proposal prop_1 created for multisig governance approval");
    assert_eq!(result.proposal_id.as_deref(), Some("prop_1"));
    assert_eq!(result.action, DocumentAction::ProposalCreated);
    assert_eq!(result.document_ids, ids);
    assert_eq!(get_supported_file_types(), vec!["txt", "md", "markdown", "pdf", "docx"]);
    assert_eq!(get_supported_url_types(), vec!["YouTube playlists", "GitHub markdown files"]);
    assert_eq!(get_extraction_limits(), "File size limit: 10 MB\nContent size limit: 10 MB\nYouTube playlist limit: 50 videos per batch\nGitHub file limit: 2 MB");
}

#[test]
fn entry_marked_for_a_cipher_without_being_encrypted_is_unreadable() {
    let mut writer = zip::ZipWriter::new(std::io::Cursor::new(Vec::new()));
    let options = zip::write::FileOptions::default().compression_method(zip::CompressionMethod::Stored);
    writer.start_file_with_extra_data("word/document.xml", options).unwrap();
    writer.write_all(&[0xFE, 0xCA, 7, 0, 2, 0, 0x41, 0x45, 3, 0, 0]).unwrap();
    writer.end_extra_data().unwrap();
    writer.write_all(DOCUMENT.as_bytes()).unwrap();
    let mut bytes = writer.finish().unwrap().into_inner();
    let mut marked = 0;
    for i in 0..bytes.len() - 3 {
        if bytes[i..i + 4] == [0xFE, 0xCA, 7, 0] {
            bytes[i] = 0x01;
            bytes[i + 1] = 0x99;
            marked += 1;
        }
    }
    assert_eq!(marked, 2);
    let refused = read_document_xml(&bytes).unwrap_err();
    assert_eq!(
        refused.to_string(),
        "Invalid input: Failed to read document.xml: invalid password for file in archive"
    );
    assert!(extract_docx_file(&bytes, "f.docx", 1).is_err());
    let metadata = extract_docx_metadata(&bytes, 1);
    assert!(metadata.title.is_none() && metadata.tags.is_none());
}

#[test]
fn only_a_pdf_file_that_is_taken_needs_a_pdf_reading() {
    assert!(needs_pdf_reading(b"x", "a.pdf"));
    assert!(needs_pdf_reading(b"", "A.B.PDF"));
    assert!(!needs_pdf_reading(b"x", "a.pdf.txt"));
    assert!(!needs_pdf_reading(b"x", "pdf"));
    assert!(!needs_pdf_reading(b"x", "a.docx"));
    assert!(needs_pdf_reading(&vec![0u8; 10 * 1024 * 1024], "a.pdf"));
    assert!(!needs_pdf_reading(&vec![0u8; 10 * 1024 * 1024 + 1], "a.pdf"));
}
