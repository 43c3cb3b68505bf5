//! Drawing a document from an uploaded file.

use vstd::prelude::*;
use vstd::string::StringSliceAdditionalSpecFns;

use crate::scan::{
    cuts, joined, line_bounds, lines_of, piece_is, piece_starts_with,
    run_before, scan_to, split_bounds, split_on, starts_with, unquote_bounds, unquoted,
};
use crate::text::{
    chars_of, last_index_of, lowercase_of, rfind_char, text_of, to_lowercase, trim_bounds, trimmed,
};
use crate::archive::{archive_entry, read_entry, ArchiveEntry, ArchiveEntryView};
use crate::dates::{parse_iso8601, written_moment};
use crate::decoding::{decode, decoding, detect_encoding, detected_encoding, TextEncoding, MAX_DECODED_BYTES};
use crate::external::blueband::{AddDocumentRequest, ContentType};
use crate::extractor::types::{
    extension_of, file_type_of, ExtractionMetadata, ExtractionMetadataView, ExtractionResult,
    ExtractionResultView, FileType,
};
use crate::extractor::{sanitize_content, sanitized, validate_content_size, MAX_CONTENT_SIZE};
use crate::pdf::{PdfReading, PdfReadingView};
use crate::text::{concat2, concat3, decimal_text};
use crate::types::{ClanopediaError, ClanopediaResult, ErrorKind};
use crate::xml::{read_events, unescape, unescaped, xml_events, XmlEvent, XmlEventView};

verus! {

/// What the head of a Markdown document says about it.
#[derive(Debug)]
pub struct MarkdownMetadata {
    pub title: Option<String>,
    pub author: Option<String>,
    pub tags: Option<Vec<String>>,
}

pub struct MarkdownMetadataView {
    pub title: Option<Seq<char>>,
    pub author: Option<Seq<char>>,
    pub tags: Option<Seq<Seq<char>>>,
}

impl View for MarkdownMetadata {
    type V = MarkdownMetadataView;

    open spec fn view(&self) -> MarkdownMetadataView {
        MarkdownMetadataView {
            title: self.title.deep_view(),
            author: self.author.deep_view(),
            tags: self.tags.deep_view(),
        }
    }
}

impl MarkdownMetadataView {
    /// Nothing is known.
    pub open spec fn empty() -> MarkdownMetadataView {
        MarkdownMetadataView { title: None, author: None, tags: None }
    }
}

/// The name of a file without its last dot and what follows it.
pub open spec fn stem_of(name: Seq<char>) -> Seq<char> {
    match last_index_of(name, '.') {
        Some(i) => name.take(i),
        None => name,
    }
}

/// The name of a file without its ending.
pub fn get_filename_without_extension(filename: &str) -> (stem: String)
    ensures
        stem@ == stem_of(filename@),
{
    let chars = chars_of(filename);
    match rfind_char(&chars, '.') {
        Some(i) => {
            assert(chars@.take(i as int) =~= chars@.subrange(0, i as int));
            text_of(&chars, 0, i)
        },
        None => {
            assert(chars@.subrange(0, chars.len() as int) =~= chars@);
            text_of(&chars, 0, chars.len())
        },
    }
}

/// The line opens a head: three hyphens, whatever white space is around them.
pub open spec fn is_fence(line: Seq<char>) -> bool {
    trimmed(line) == "---"@
}

/// The line closes a head: three hyphens or three dots, whatever white space is around them.
pub open spec fn closes_head(line: Seq<char>) -> bool {
    trimmed(line) == "---"@ || trimmed(line) == "..."@
}

/// The first place at or after `from` whose line closes a head.
pub open spec fn first_closing(lines: Seq<Seq<char>>, from: int) -> Option<int>
    decreases lines.len() - from,
{
    if from < 0 || from >= lines.len() {
        None
    } else if closes_head(lines[from]) {
        Some(from)
    } else {
        first_closing(lines, from + 1)
    }
}

/// The head of a document: the lines between a first line of three hyphens
/// and the next line of three hyphens or three dots. `None` where the first
/// line is no such line or the head is never closed.
pub open spec fn frontmatter_of(content: Seq<char>) -> Option<Seq<char>> {
    let lines = lines_of(content);
    if lines.len() == 0 || !is_fence(lines[0]) {
        None
    } else {
        match first_closing(lines, 1) {
            Some(i) => Some(joined(lines.subrange(1, i))),
            None => None,
        }
    }
}

/// The text of the lines `bounds[from..to]` of `chars`, with a line feed between each two.
fn join_lines(chars: &Vec<char>, bounds: &Vec<(usize, usize)>, from: usize, to: usize) -> (out: String)
    requires
        from <= to <= bounds.len(),
        forall|k: int| 0 <= k < bounds.len() ==> (#[trigger] bounds[k]).0 <= bounds[k].1 <= chars.len(),
    ensures
        out@ == joined(
            Seq::new(
                (to - from) as nat,
                |k: int| chars@.subrange(bounds[from + k].0 as int, bounds[from + k].1 as int),
            ),
        ),
{
    let ghost all = Seq::new(
        (to - from) as nat,
        |k: int| chars@.subrange(bounds[from + k].0 as int, bounds[from + k].1 as int),
    );
    let mut out = String::new();
    let mut i: usize = from;
    assert(all.take(0) =~= Seq::<Seq<char>>::empty());
    while i < to
        invariant
            from <= i <= to <= bounds.len(),
            forall|k: int| 0 <= k < bounds.len() ==> (#[trigger] bounds[k]).0 <= bounds[k].1 <= chars.len(),
            all == Seq::new(
                (to - from) as nat,
                |k: int| chars@.subrange(bounds[from + k].0 as int, bounds[from + k].1 as int),
            ),
            out@ == joined(all.take(i - from)),
        decreases to - i,
    {
        if i > from {
            out.push('\n');
        }
        let piece = text_of(chars, bounds[i].0, bounds[i].1);
        out.append(piece.as_str());
        proof {
            assert(all.take(i - from + 1).drop_last() =~= all.take(i - from));
            assert(all.take(i - from + 1).last() == piece@);
            if i == from {
                assert(all.take(0).len() == 0);
            }
        }
        i += 1;
    }
    assert(all.take(to - from) =~= all);
    out
}

/// The head that a Markdown document begins with, if it has one.
pub fn extract_yaml_frontmatter(content: &str) -> (r: Option<String>)
    ensures
        r.deep_view() == frontmatter_of(content@),
{
    let chars = chars_of(content);
    let bounds = line_bounds(&chars);
    let ghost lines = lines_of(chars@);
    if bounds.len() == 0 {
        return None;
    }
    let (a, b) = trim_bounds(&chars, bounds[0].0, bounds[0].1);
    if !piece_is(&chars, a, b, "---") {
        return None;
    }
    let mut i: usize = 1;
    while i < bounds.len()
        invariant
            1 <= i <= bounds.len(),
            cuts(chars@, bounds@, lines),
            chars@ == content@,
            lines == lines_of(chars@),
            is_fence(lines[0]),
            first_closing(lines, 1) == first_closing(lines, i as int),
        decreases bounds.len() - i,
    {
        let (a, b) = trim_bounds(&chars, bounds[i].0, bounds[i].1);
        if piece_is(&chars, a, b, "---") || piece_is(&chars, a, b, "...") {
            let head = join_lines(&chars, &bounds, 1, i);
            proof {
                assert(closes_head(lines[i as int]));
                let pieces = Seq::new(
                    (i - 1) as nat,
                    |k: int| chars@.subrange(bounds[1 + k].0 as int, bounds[1 + k].1 as int),
                );
                assert forall|k: int| 0 <= k < i - 1 implies pieces[k] == lines.subrange(
                    1,
                    i as int,
                )[k] by {
                    assert(bounds@[1 + k].0 <= bounds@[1 + k].1);
                }
                assert(pieces =~= lines.subrange(1, i as int));
            }
            return Some(head);
        }
        proof {
            assert(!closes_head(lines[i as int]));
        }
        i += 1;
    }
    None
}

/// The pieces of `pieces` that hold more than white space (and, where
/// `strip_quotes` is set, more than the quotation marks around them), each
/// without the white space and those quotation marks around it.
pub open spec fn tags_from(pieces: Seq<Seq<char>>, strip_quotes: bool) -> Seq<Seq<char>>
    decreases pieces.len(),
{
    if pieces.len() == 0 {
        Seq::empty()
    } else {
        let tag = if strip_quotes {
            unquoted(trimmed(pieces.last()))
        } else {
            trimmed(pieces.last())
        };
        let rest = tags_from(pieces.drop_last(), strip_quotes);
        if tag.len() > 0 {
            rest.push(tag)
        } else {
            rest
        }
    }
}

/// What stands between the square brackets of `value`, where it begins with
/// one and ends with one; else `value` itself.
pub open spec fn bracket_inner(value: Seq<char>) -> Seq<char> {
    if value.len() >= 2 && value[0] == '[' && value.last() == ']' {
        value.subrange(1, value.len() - 1)
    } else {
        value
    }
}

/// The tags listed in `chars[from..to]`, separated by commas.
fn collect_tags(chars: &Vec<char>, from: usize, to: usize, strip_quotes: bool) -> (tags: Vec<String>)
    requires
        from <= to <= chars.len(),
    ensures
        tags.deep_view() == tags_from(
            split_on(chars@.subrange(from as int, to as int), ','),
            strip_quotes,
        ),
{
    let bounds = split_bounds(chars, from, to, ',');
    let ghost pieces = split_on(chars@.subrange(from as int, to as int), ',');
    let mut tags: Vec<String> = Vec::new();
    let mut i: usize = 0;
    assert(pieces.take(0) =~= Seq::<Seq<char>>::empty());
    while i < bounds.len()
        invariant
            i <= bounds.len(),
            cuts(chars@, bounds@, pieces),
            tags.deep_view() == tags_from(pieces.take(i as int), strip_quotes),
        decreases bounds.len() - i,
    {
        let (a, b) = trim_bounds(chars, bounds[i].0, bounds[i].1);
        let (a, b) = if strip_quotes {
            unquote_bounds(chars, a, b)
        } else {
            (a, b)
        };
        proof {
            assert(pieces.take(i + 1).drop_last() =~= pieces.take(i as int));
            assert(pieces.take(i + 1).last() == pieces[i as int]);
        }
        let ghost previous = tags.deep_view();
        if b > a {
            let tag = text_of(chars, a, b);
            tags.push(tag);
            assert(tags.deep_view() =~= previous.push(chars@.subrange(a as int, b as int)));
        }
        i += 1;
    }
    assert(pieces.take(bounds.len() as int) =~= pieces);
    tags
}

/// What a line of a head adds to what is known: a line `key: value` with the
/// key `title`, `author` or `tags` sets that entry, unless the value is
/// empty once the quotation marks around it are taken off. Tags are
/// separated by commas and may stand in square brackets.
pub open spec fn yaml_line(known: MarkdownMetadataView, line: Seq<char>) -> MarkdownMetadataView {
    let t = trimmed(line);
    let colon = run_before(t, ':') as int;
    if t.len() == 0 || colon >= t.len() {
        known
    } else {
        let key = trimmed(t.take(colon));
        let value = trimmed(t.skip(colon + 1));
        if key == "title"@ {
            if unquoted(value).len() > 0 {
                MarkdownMetadataView { title: Some(unquoted(value)), ..known }
            } else {
                known
            }
        } else if key == "author"@ {
            if unquoted(value).len() > 0 {
                MarkdownMetadataView { author: Some(unquoted(value)), ..known }
            } else {
                known
            }
        } else if key == "tags"@ {
            let tags = tags_from(split_on(bracket_inner(value), ','), true);
            if tags.len() > 0 {
                MarkdownMetadataView { tags: Some(tags), ..known }
            } else {
                known
            }
        } else {
            known
        }
    }
}

/// What the lines of a head say, later lines winning over earlier ones.
pub open spec fn yaml_lines(lines: Seq<Seq<char>>) -> MarkdownMetadataView
    decreases lines.len(),
{
    if lines.len() == 0 {
        MarkdownMetadataView::empty()
    } else {
        yaml_line(yaml_lines(lines.drop_last()), lines.last())
    }
}

/// Reads the title, the author and the tags from the head of a document.
pub fn parse_yaml_frontmatter(yaml_content: &str) -> (metadata: MarkdownMetadata)
    ensures
        metadata@ == yaml_lines(lines_of(yaml_content@)),
{
    let chars = chars_of(yaml_content);
    let bounds = line_bounds(&chars);
    let ghost lines = lines_of(chars@);
    let mut metadata = MarkdownMetadata { title: None, author: None, tags: None };
    let mut i: usize = 0;
    assert(lines.take(0) =~= Seq::<Seq<char>>::empty());
    while i < bounds.len()
        invariant
            i <= bounds.len(),
            cuts(chars@, bounds@, lines),
            metadata@ == yaml_lines(lines.take(i as int)),
        decreases bounds.len() - i,
    {
        proof {
            assert(lines.take(i + 1).drop_last() =~= lines.take(i as int));
            assert(lines.take(i + 1).last() == lines[i as int]);
        }
        let (a, b) = trim_bounds(&chars, bounds[i].0, bounds[i].1);
        i += 1;
        if a == b {
            continue;
        }
        let colon = scan_to(&chars, a, b, ':');
        if colon == b {
            continue;
        }
        let ghost t = chars@.subrange(a as int, b as int);
        proof {
            assert(t.take(colon - a) =~= chars@.subrange(a as int, colon as int));
            assert(t.skip(colon - a + 1) =~= chars@.subrange(colon + 1, b as int));
        }
        let (ka, kb) = trim_bounds(&chars, a, colon);
        let (va, vb) = trim_bounds(&chars, colon + 1, b);
        if piece_is(&chars, ka, kb, "title") {
            let (qa, qb) = unquote_bounds(&chars, va, vb);
            if qb > qa {
                metadata.title = Some(text_of(&chars, qa, qb));
            }
        } else if piece_is(&chars, ka, kb, "author") {
            let (qa, qb) = unquote_bounds(&chars, va, vb);
            if qb > qa {
                metadata.author = Some(text_of(&chars, qa, qb));
            }
        } else if piece_is(&chars, ka, kb, "tags") {
            let bracketed = vb - va >= 2 && chars[va] == '[' && chars[vb - 1] == ']';
            let (ia, ib) = if bracketed {
                (va + 1, vb - 1)
            } else {
                (va, vb)
            };
            proof {
                let value = chars@.subrange(va as int, vb as int);
                if vb - va >= 2 {
                    assert(value[0] == chars@[va as int]);
                    assert(value.last() == chars@[vb - 1]);
                }
                if bracketed {
                    assert(value.subrange(1, value.len() - 1) =~= chars@.subrange(
                        ia as int,
                        ib as int,
                    ));
                }
            }
            let tags = collect_tags(&chars, ia, ib, true);
            if tags.len() > 0 {
                metadata.tags = Some(tags);
            }
        }
    }
    assert(lines.take(bounds.len() as int) =~= lines);
    metadata
}

/// The line is a heading of the first rank: a hash sign, a blank and something more.
pub open spec fn is_heading(line: Seq<char>) -> bool {
    starts_with(trimmed(line), "# "@) && trimmed(line).len() > 2
}

/// The text of the first heading of the first rank at or after the line `from`.
pub open spec fn title_in(lines: Seq<Seq<char>>, from: int) -> Option<Seq<char>>
    decreases lines.len() - from,
{
    if from < 0 || from >= lines.len() {
        None
    } else if is_heading(lines[from]) {
        Some(trimmed(trimmed(lines[from]).skip(2)))
    } else {
        title_in(lines, from + 1)
    }
}

/// The title that the first heading of the first rank gives a document.
pub fn extract_title_from_content(content: &str) -> (r: Option<String>)
    ensures
        r.deep_view() == title_in(lines_of(content@), 0),
{
    let chars = chars_of(content);
    let bounds = line_bounds(&chars);
    let ghost lines = lines_of(chars@);
    let mut i: usize = 0;
    while i < bounds.len()
        invariant
            i <= bounds.len(),
            chars@ == content@,
            lines == lines_of(chars@),
            cuts(chars@, bounds@, lines),
            title_in(lines, 0) == title_in(lines, i as int),
        decreases bounds.len() - i,
    {
        let (a, b) = trim_bounds(&chars, bounds[i].0, bounds[i].1);
        if piece_starts_with(&chars, a, b, "# ") && b - a > 2 {
            proof {
                crate::text::lemma_heading_mark_len();
                assert(chars@.subrange(a as int, b as int).skip(2) =~= chars@.subrange(
                    a + 2,
                    b as int,
                ));
            }
            let (ta, tb) = trim_bounds(&chars, a + 2, b);
            return Some(text_of(&chars, ta, tb));
        }
        i += 1;
    }
    None
}

/// The line lists tags: it begins with the word "tags" and a colon, in
/// whatever case.
pub open spec fn is_tags_line(line: Seq<char>) -> bool {
    starts_with(lowercase_of(trimmed(line)), "tags:"@)
}

/// The tags of the first line at or after `from` that lists tags. The word
/// must be written in lower case for the tags to be read; a line that lists
/// none gives none.
pub open spec fn tags_in(lines: Seq<Seq<char>>, from: int) -> Option<Seq<Seq<char>>>
    decreases lines.len() - from,
{
    if from < 0 || from >= lines.len() {
        None
    } else if is_tags_line(lines[from]) {
        let t = trimmed(lines[from]);
        let tags = tags_from(split_on(trimmed(t.skip(5)), ','), false);
        if !starts_with(t, "tags:"@) || tags.len() == 0 {
            None
        } else {
            Some(tags)
        }
    } else {
        tags_in(lines, from + 1)
    }
}

/// The tags that the first line listing tags gives a document.
pub fn extract_tags_from_content(content: &str) -> (r: Option<Vec<String>>)
    ensures
        r.deep_view() == tags_in(lines_of(content@), 0),
{
    let chars = chars_of(content);
    let bounds = line_bounds(&chars);
    let ghost lines = lines_of(chars@);
    let mut i: usize = 0;
    while i < bounds.len()
        invariant
            i <= bounds.len(),
            chars@ == content@,
            lines == lines_of(chars@),
            cuts(chars@, bounds@, lines),
            tags_in(lines, 0) == tags_in(lines, i as int),
        decreases bounds.len() - i,
    {
        let (a, b) = trim_bounds(&chars, bounds[i].0, bounds[i].1);
        let line = text_of(&chars, a, b);
        let lower = to_lowercase(line.as_str());
        let lower_chars = chars_of(lower.as_str());
        proof {
            assert(lower_chars@.subrange(0, lower_chars.len() as int) =~= lower_chars@);
        }
        if piece_starts_with(&lower_chars, 0, lower_chars.len(), "tags:") {
            if !piece_starts_with(&chars, a, b, "tags:") {
                return None;
            }
            proof {
                crate::text::lemma_tags_word_len();
                assert(chars@.subrange(a as int, b as int).skip(5) =~= chars@.subrange(
                    a + 5,
                    b as int,
                ));
            }
            let (ta, tb) = trim_bounds(&chars, a + 5, b);
            let tags = collect_tags(&chars, ta, tb, false);
            return if tags.len() == 0 {
                None
            } else {
                Some(tags)
            };
        }
        i += 1;
    }
    None
}

/// What is known about a Markdown document: what its head says, and, where
/// the head gives no title or no tags, the first heading and the first line
/// that lists tags.
pub open spec fn markdown_metadata(content: Seq<char>) -> MarkdownMetadataView {
    let head = match frontmatter_of(content) {
        Some(h) => yaml_lines(lines_of(h)),
        None => MarkdownMetadataView::empty(),
    };
    MarkdownMetadataView {
        title: if head.title is None {
            title_in(lines_of(content), 0)
        } else {
            head.title
        },
        author: head.author,
        tags: if head.tags is None {
            tags_in(lines_of(content), 0)
        } else {
            head.tags
        },
    }
}

/// Reads the title, the author and the tags of a Markdown document.
pub fn parse_markdown_metadata(content: &str) -> (metadata: MarkdownMetadata)
    ensures
        metadata@ == markdown_metadata(content@),
{
    let mut metadata = match extract_yaml_frontmatter(content) {
        Some(front_matter) => parse_yaml_frontmatter(front_matter.as_str()),
        None => MarkdownMetadata { title: None, author: None, tags: None },
    };
    if metadata.title.is_none() {
        metadata.title = extract_title_from_content(content);
    }
    if metadata.tags.is_none() {
        metadata.tags = extract_tags_from_content(content);
    }
    metadata
}

/// Whether a text holds nothing but white space.
pub fn is_blank(text: &str) -> (r: bool)
    ensures
        r == (trimmed(text@).len() == 0),
{
    let chars = chars_of(text);
    let (a, b) = trim_bounds(&chars, 0, chars.len());
    proof {
        assert(chars@.subrange(0, chars.len() as int) =~= chars@);
    }
    a == b
}

/// How many bytes a text takes as UTF-8, as the length of a string tells it.
pub open spec fn byte_length(text: Seq<char>) -> usize {
    vstd::utf8::encode_utf8(text).len() as usize
}

/// What is drawn from the text of a plain text file called `name`, read at time `now`.
pub open spec fn text_result(content: Seq<char>, size: usize, name: Seq<char>, now: u64) -> Option<
    ExtractionResultView,
> {
    if trimmed(sanitized(content)).len() == 0 {
        None
    } else {
        Some(
            ExtractionResultView {
                title: stem_of(name),
                content: sanitized(content),
                content_type: ContentType::PlainText,
                source_url: None,
                metadata: Some(
                    ExtractionMetadataView {
                        file_size: Some(size as u64),
                        page_count: None,
                        author: None,
                        created_at: Some(now),
                        tags: None,
                    },
                ),
            },
        )
    }
}

/// The document made of the text of a plain text file: the text sanitized,
/// under the name of the file without its ending. An empty text is refused.
pub fn create_text_result(content: String, filename: &str, now: u64) -> (r: ClanopediaResult<
    ExtractionResult,
>)
    ensures
        match r {
            Ok(result) => text_result(content@, byte_length(content@), filename@, now) == Some(
                result@,
            ),
            Err(e) => text_result(content@, byte_length(content@), filename@, now) is None
                && e.spec_kind() == ErrorKind::InvalidInput,
        },
{
    let sanitized_content = sanitize_content(content.as_str());
    if is_blank(sanitized_content.as_str()) {
        return Err(ClanopediaError::InvalidInput(String::from_str("Text file is empty")));
    }
    let text = content.as_str();
    let size = text.len();
    assert(size == byte_length(content@)) by {
        assert(text.spec_bytes() == vstd::utf8::encode_utf8(text@));
    }
    Ok(
        ExtractionResult {
            title: get_filename_without_extension(filename),
            content: sanitized_content,
            content_type: ContentType::PlainText,
            source_url: None,
            metadata: Some(
                ExtractionMetadata {
                    file_size: Some(size as u64),
                    page_count: None,
                    author: None,
                    created_at: Some(now),
                    tags: None,
                },
            ),
        },
    )
}

/// The text of a plain text file: read as UTF-8, or, where that meets
/// bytes that are no UTF-8, in the encoding that the bytes suggest.
pub open spec fn text_of_file(data: Seq<u8>) -> Seq<char> {
    if decoding(TextEncoding::Utf8, data).1 {
        decoding(detected_encoding(data), data).0
    } else {
        decoding(TextEncoding::Utf8, data).0
    }
}

/// What is drawn from a plain text file.
pub open spec fn text_file_result(data: Seq<u8>, name: Seq<char>, now: u64) -> Option<
    ExtractionResultView,
> {
    if data.len() > MAX_DECODED_BYTES {
        None
    } else {
        text_result(text_of_file(data), byte_length(text_of_file(data)), name, now)
    }
}

/// The error that says that a file is too large to be read.
fn too_large_to_read() -> (e: ClanopediaError)
    ensures
        e.spec_kind() == ErrorKind::InvalidInput,
        e.spec_message() == "File too large to be read"@,
{
    ClanopediaError::InvalidInput(String::from_str("File too large to be read"))
}

/// Draws a document from a plain text file. A file of more than a gibibyte is refused.
pub fn extract_text_file(file_data: &[u8], filename: &str, now: u64) -> (r: ClanopediaResult<
    ExtractionResult,
>)
    ensures
        match r {
            Ok(result) => text_file_result(file_data@, filename@, now) == Some(result@),
            Err(e) => text_file_result(file_data@, filename@, now) is None && e.spec_kind()
                == ErrorKind::InvalidInput,
        },
{
    if file_data.len() > MAX_DECODED_BYTES {
        return Err(too_large_to_read());
    }
    let (content, had_errors) = decode(TextEncoding::Utf8, file_data);
    if had_errors {
        let detected = detect_encoding(file_data);
        let (content_retry, _) = decode(detected, file_data);
        return create_text_result(content_retry, filename, now);
    }
    create_text_result(content, filename, now)
}

/// What is drawn from a Markdown file: its text read as UTF-8 and
/// sanitized, under the title that its head or its first heading gives it,
/// or else the name of the file without its ending. Nothing where the file
/// holds no text.
pub open spec fn markdown_file_result(data: Seq<u8>, name: Seq<char>, now: u64) -> Option<
    ExtractionResultView,
> {
    let content = decoding(TextEncoding::Utf8, data).0;
    let known = markdown_metadata(content);
    if data.len() > MAX_DECODED_BYTES || trimmed(sanitized(content)).len() == 0 {
        None
    } else {
        Some(
            ExtractionResultView {
                title: match known.title {
                    Some(title) => title,
                    None => stem_of(name),
                },
                content: sanitized(content),
                content_type: ContentType::Markdown,
                source_url: None,
                metadata: Some(
                    ExtractionMetadataView {
                        file_size: Some(data.len() as u64),
                        page_count: None,
                        author: known.author,
                        created_at: Some(now),
                        tags: known.tags,
                    },
                ),
            },
        )
    }
}

/// Draws a document from a Markdown file. A file of more than a gibibyte is refused.
pub fn extract_markdown_file(file_data: &[u8], filename: &str, now: u64) -> (r: ClanopediaResult<
    ExtractionResult,
>)
    ensures
        match r {
            Ok(result) => markdown_file_result(file_data@, filename@, now) == Some(result@),
            Err(e) => markdown_file_result(file_data@, filename@, now) is None && e.spec_kind()
                == ErrorKind::InvalidInput,
        },
{
    if file_data.len() > MAX_DECODED_BYTES {
        return Err(too_large_to_read());
    }
    let (content, _) = decode(TextEncoding::Utf8, file_data);
    let sanitized_content = sanitize_content(content.as_str());
    if is_blank(sanitized_content.as_str()) {
        return Err(ClanopediaError::InvalidInput(String::from_str("Markdown file is empty")));
    }
    let known = parse_markdown_metadata(content.as_str());
    let title = match known.title {
        Some(title) => title,
        None => get_filename_without_extension(filename),
    };
    Ok(
        ExtractionResult {
            title,
            content: sanitized_content,
            content_type: ContentType::Markdown,
            source_url: None,
            metadata: Some(
                ExtractionMetadata {
                    file_size: Some(file_data.len() as u64),
                    page_count: None,
                    author: known.author,
                    created_at: Some(now),
                    tags: known.tags,
                },
            ),
        },
    )
}

/// The text of the pages of a PDF file, one after the other, each followed
/// by a line feed; pages whose text could not be drawn or is blank are left out.
pub open spec fn pages_text(pages: Seq<Option<Seq<char>>>) -> Seq<char>
    decreases pages.len(),
{
    if pages.len() == 0 {
        Seq::empty()
    } else {
        let before = pages_text(pages.drop_last());
        match pages.last() {
            Some(text) => if trimmed(text).len() > 0 {
                before + text + seq!['\n']
            } else {
                before
            },
            None => before,
        }
    }
}

/// What a PDF file says about itself.
#[derive(Debug)]
pub struct PdfMetadata {
    pub title: Option<String>,
    pub author: Option<String>,
    pub page_count: Option<u32>,
}

/// A count of pages as it is kept: the largest 32-bit number where it is larger.
pub open spec fn page_count_of(pages: nat) -> u32 {
    if pages > u32::MAX {
        u32::MAX
    } else {
        pages as u32
    }
}

/// The title, the author and the number of pages that the reading of a PDF
/// file gives.
pub fn extract_pdf_metadata_lopdf(reading: &PdfReading) -> (metadata: PdfMetadata)
    ensures
        metadata.title.deep_view() == reading@.title,
        metadata.author.deep_view() == reading@.author,
        metadata.page_count == match reading@.pages {
            Ok(pages) => Some(page_count_of(pages.len())),
            Err(_) => None,
        },
{
    let page_count = match &reading.pages {
        Ok(pages) => Some(
            if pages.len() > u32::MAX as usize {
                u32::MAX
            } else {
                pages.len() as u32
            },
        ),
        Err(_) => None,
    };
    PdfMetadata {
        title: crate::types::clone_opt_string(&reading.title),
        author: crate::types::clone_opt_string(&reading.author),
        page_count,
    }
}

/// What is drawn from a PDF file of `size` bytes with the reading `reading`:
/// the text of its pages, sanitized, under the title that the file gives
/// itself, or else the name of the file without its ending. Nothing where the
/// file is no PDF file or holds no text.
pub open spec fn pdf_file_result(size: nat, reading: PdfReadingView, name: Seq<char>, now: u64) -> Option<
    ExtractionResultView,
> {
    match reading.pages {
        Err(_) => None,
        Ok(pages) => if trimmed(pages_text(pages)).len() == 0 {
            None
        } else {
            Some(
                ExtractionResultView {
                    title: match reading.title {
                        Some(title) => title,
                        None => stem_of(name),
                    },
                    content: sanitized(pages_text(pages)),
                    content_type: ContentType::PlainText,
                    source_url: None,
                    metadata: Some(
                        ExtractionMetadataView {
                            file_size: Some(size as u64),
                            page_count: Some(page_count_of(pages.len())),
                            author: reading.author,
                            created_at: Some(now),
                            tags: None,
                        },
                    ),
                },
            )
        },
    }
}

/// Draws a document from the PDF file `file_data`, in which a reader of PDF
/// files found `reading`.
pub fn extract_pdf_file(file_data: &[u8], reading: &PdfReading, filename: &str, now: u64) -> (r:
    ClanopediaResult<ExtractionResult>)
    ensures
        match r {
            Ok(result) => pdf_file_result(file_data@.len(), reading@, filename@, now) == Some(
                result@,
            ),
            Err(e) => pdf_file_result(file_data@.len(), reading@, filename@, now) is None
                && e.spec_kind() == ErrorKind::InvalidInput,
        },
        r matches Err(e) ==> e.spec_message() == match reading@.pages {
            Err(why) => "Invalid PDF file: "@ + why,
            Ok(_) => "No extractable text found in PDF. This may be an image-based PDF, encrypted, or contains only graphics."@,
        },
{
    let pages = match &reading.pages {
        Ok(pages) => pages,
        Err(why) => {
            return Err(ClanopediaError::InvalidInput(concat2("Invalid PDF file: ", why.as_str())));
        },
    };
    let ghost views = pages.deep_view();
    let mut text = String::new();
    let mut i: usize = 0;
    assert(views.take(0) =~= Seq::<Option<Seq<char>>>::empty());
    while i < pages.len()
        invariant
            i <= pages.len(),
            views == pages.deep_view(),
            text@ == pages_text(views.take(i as int)),
        decreases pages.len() - i,
    {
        proof {
            assert(views.take(i + 1).drop_last() =~= views.take(i as int));
            assert(views.take(i + 1).last() == views[i as int]);
            assert(views[i as int] == pages[i as int].deep_view());
        }
        match &pages[i] {
            Some(page_text) => {
                if !is_blank(page_text.as_str()) {
                    text.append(page_text.as_str());
                    text.push('\n');
                }
            },
            None => {},
        }
        i += 1;
    }
    assert(views.take(pages.len() as int) =~= views);
    if is_blank(text.as_str()) {
        return Err(
            ClanopediaError::InvalidInput(
                String::from_str(
                    "No extractable text found in PDF. This may be an image-based PDF, encrypted, or contains only graphics.",
                ),
            ),
        );
    }
    let metadata = extract_pdf_metadata_lopdf(reading);
    let title = match metadata.title {
        Some(title) => title,
        None => get_filename_without_extension(filename),
    };
    Ok(
        ExtractionResult {
            title,
            content: sanitize_content(text.as_str()),
            content_type: ContentType::PlainText,
            source_url: None,
            metadata: Some(
                ExtractionMetadata {
                    file_size: Some(file_data.len() as u64),
                    page_count: metadata.page_count,
                    author: metadata.author,
                    created_at: Some(now),
                    tags: None,
                },
            ),
        },
    )
}

/// Whether the name of a tag is the word `word`.
pub fn name_is(name: &Vec<u8>, word: &str) -> (r: bool)
    ensures
        r == (name@ == word.spec_bytes()),
{
    let bytes = word.as_bytes();
    if bytes.len() != name.len() {
        return false;
    }
    let mut i: usize = 0;
    while i < name.len()
        invariant
            i <= name.len(),
            bytes@.len() == name.len(),
            bytes@ == word.spec_bytes(),
            forall|j: int| 0 <= j < i ==> name@[j] == bytes@[j],
        decreases name.len() - i,
    {
        if name[i] != bytes[i] {
            return false;
        }
        i += 1;
    }
    assert(name@ =~= bytes@);
    true
}

/// The text of a word-processing document as far as it has been read, and
/// whether the reader stands inside a run of text.
pub struct DocxReading {
    pub text: Seq<char>,
    pub in_text: bool,
}

/// What an event adds to the text of a word-processing document: the text
/// of a run (`w:t`), a line feed for a break (`w:br`, `w:cr`) and before a
/// paragraph (`w:p`) that does not begin a line, a tabulator for `w:tab`.
/// Text outside runs is left out. An error where the document is malformed
/// or the text of a run cannot be read.
pub open spec fn docx_step(before: DocxReading, event: XmlEventView) -> Result<DocxReading, Seq<char>> {
    match event {
        XmlEventView::Start(name) => if name == "w:t".spec_bytes() {
            Ok(DocxReading { in_text: true, ..before })
        } else if name == "w:br".spec_bytes() || name == "w:cr".spec_bytes() {
            Ok(DocxReading { text: before.text.push('\n'), ..before })
        } else if name == "w:p".spec_bytes() {
            if before.text.len() > 0 && before.text.last() != '\n' {
                Ok(DocxReading { text: before.text.push('\n'), ..before })
            } else {
                Ok(before)
            }
        } else if name == "w:tab".spec_bytes() {
            Ok(DocxReading { text: before.text.push('\t'), ..before })
        } else {
            Ok(before)
        },
        XmlEventView::End(name) => if name == "w:t".spec_bytes() {
            Ok(DocxReading { in_text: false, ..before })
        } else {
            Ok(before)
        },
        XmlEventView::Text(raw) => if before.in_text {
            match unescaped(raw) {
                Ok(text) => Ok(DocxReading { text: before.text + text, ..before }),
                Err(why) => Err(why),
            }
        } else {
            Ok(before)
        },
        XmlEventView::Malformed(why) => Err(why),
        XmlEventView::Other => Ok(before),
    }
}

/// The text of a word-processing document after the events `events`.
pub open spec fn docx_reading(events: Seq<XmlEventView>) -> Result<DocxReading, Seq<char>>
    decreases events.len(),
{
    if events.len() == 0 {
        Ok(DocxReading { text: Seq::empty(), in_text: false })
    } else {
        match docx_reading(events.drop_last()) {
            Ok(before) => docx_step(before, events.last()),
            Err(why) => Err(why),
        }
    }
}

/// The text of a word-processing document, sanitized; `None` where the
/// document cannot be read or holds no text.
pub open spec fn docx_text(xml: Seq<char>) -> Option<Seq<char>> {
    match docx_reading(xml_events(xml, true)) {
        Ok(reading) => if trimmed(reading.text).len() == 0 {
            None
        } else {
            Some(sanitized(reading.text))
        },
        Err(_) => None,
    }
}

/// Whether the last character of `text` is a line feed.
fn ends_with_line_feed(text: &str) -> (r: bool)
    ensures
        r == (text@.len() > 0 && text@.last() == '\n'),
{
    let chars = chars_of(text);
    chars.len() > 0 && chars[chars.len() - 1] == '\n'
}

/// Draws the text from the main part of a word-processing document.
pub fn parse_docx_xml(xml_content: &str) -> (r: ClanopediaResult<String>)
    ensures
        match r {
            Ok(text) => docx_text(xml_content@) == Some(text@),
            Err(e) => docx_text(xml_content@) is None && e.spec_kind() == ErrorKind::InvalidInput,
        },
        r matches Err(e) ==> (docx_reading(xml_events(xml_content@, true)) matches Err(why)
            ==> e.spec_message() == "XML parsing error: "@ + why),
{
    let events = read_events(xml_content, true);
    let ghost views = events.deep_view();
    let mut text = String::new();
    let mut in_text = false;
    let mut i: usize = 0;
    assert(views.take(0) =~= Seq::<XmlEventView>::empty());
    while i < events.len()
        invariant
            i <= events.len(),
            views == events.deep_view(),
            views == xml_events(xml_content@, true),
            docx_reading(views.take(i as int)) == Ok::<DocxReading, Seq<char>>(
                DocxReading { text: text@, in_text },
            ),
        decreases events.len() - i,
    {
        proof {
            assert(views.take(i + 1).drop_last() =~= views.take(i as int));
            assert(views.take(i + 1).last() == events[i as int]@);
        }
        let ghost before = text@;
        let mut failure: Option<String> = None;
        match &events[i] {
            XmlEvent::Start(name) => {
                if name_is(name, "w:t") {
                    in_text = true;
                } else if name_is(name, "w:br") || name_is(name, "w:cr") {
                    text.push('\n');
                } else if name_is(name, "w:p") {
                    if !text.as_str().is_empty() && !ends_with_line_feed(text.as_str()) {
                        text.push('\n');
                    }
                } else if name_is(name, "w:tab") {
                    text.push('\t');
                }
            },
            XmlEvent::End(name) => {
                if name_is(name, "w:t") {
                    in_text = false;
                }
            },
            XmlEvent::Text(raw) => {
                if in_text {
                    match unescape(raw.as_slice()) {
                        Ok(piece) => {
                            text.append(piece.as_str());
                        },
                        Err(why) => {
                            failure = Some(why);
                        },
                    }
                }
            },
            XmlEvent::Malformed(why) => {
                failure = Some(why.clone());
            },
            XmlEvent::Other => {},
        }
        match failure {
            Some(why) => {
                proof {
                    lemma_docx_error_stays(views, i + 1);
                }
                return Err(
                    ClanopediaError::InvalidInput(concat2("XML parsing error: ", why.as_str())),
                );
            },
            None => {},
        }
        i += 1;
    }
    assert(views.take(events.len() as int) =~= views);
    if is_blank(text.as_str()) {
        return Err(
            ClanopediaError::InvalidInput(
                String::from_str("No text content found in Word document"),
            ),
        );
    }
    Ok(sanitize_content(text.as_str()))
}

/// Once reading has failed, it stays failed with the same reason.
pub(crate) proof fn lemma_docx_error_stays(events: Seq<XmlEventView>, n: int)
    requires
        0 <= n <= events.len(),
        docx_reading(events.take(n)) is Err,
    ensures
        docx_reading(events) == docx_reading(events.take(n)),
    decreases events.len() - n,
{
    if n < events.len() {
        assert(events.take(n + 1).drop_last() =~= events.take(n));
        lemma_docx_error_stays(events, n + 1);
    } else {
        assert(events.take(n) =~= events);
    }
}

/// What a word-processing document says about itself.
#[derive(Debug)]
pub struct DocxMetadata {
    pub title: Option<String>,
    pub author: Option<String>,
    pub created_at: Option<u64>,
    pub tags: Option<Vec<String>>,
}

pub struct DocxMetadataView {
    pub title: Option<Seq<char>>,
    pub author: Option<Seq<char>>,
    pub created_at: Option<u64>,
    pub tags: Option<Seq<Seq<char>>>,
}

impl View for DocxMetadata {
    type V = DocxMetadataView;

    open spec fn view(&self) -> DocxMetadataView {
        DocxMetadataView {
            title: self.title.deep_view(),
            author: self.author.deep_view(),
            created_at: self.created_at,
            tags: self.tags.deep_view(),
        }
    }
}

impl DeepView for DocxMetadata {
    type V = DocxMetadataView;

    open spec fn deep_view(&self) -> DocxMetadataView {
        self@
    }
}

/// How far the description of a document has been read: what is known, the
/// name of the tag that was opened last, and whether reading has stopped.
pub struct CoreReading {
    pub known: DocxMetadataView,
    pub element: Seq<u8>,
    pub stopped: bool,
}

/// What an event adds to the description of a document: text is taken as
/// the title, the author or the date of creation by the tag that was opened
/// last before it (`dc:title`, `dc:creator`, `dcterms:created`); a date that
/// cannot be read is taken as `now`. Reading stops where the description is
/// malformed.
pub open spec fn core_step(before: CoreReading, event: XmlEventView, now: u64) -> CoreReading {
    if before.stopped {
        before
    } else {
        match event {
            XmlEventView::Start(name) => CoreReading { element: name, ..before },
            XmlEventView::Text(raw) => match unescaped(raw) {
                Ok(text) => if before.element == "dc:title".spec_bytes() {
                    CoreReading {
                        known: DocxMetadataView { title: Some(text), ..before.known },
                        ..before
                    }
                } else if before.element == "dc:creator".spec_bytes() {
                    CoreReading {
                        known: DocxMetadataView { author: Some(text), ..before.known },
                        ..before
                    }
                } else if before.element == "dcterms:created".spec_bytes() {
                    CoreReading {
                        known: DocxMetadataView {
                            created_at: Some(
                                match written_moment(text) {
                                    Some(moment) => moment,
                                    None => now,
                                },
                            ),
                            ..before.known
                        },
                        ..before
                    }
                } else {
                    before
                },
                Err(_) => before,
            },
            XmlEventView::Malformed(_) => CoreReading { stopped: true, ..before },
            _ => before,
        }
    }
}

/// The description of a document after the events `events`.
pub open spec fn core_reading(events: Seq<XmlEventView>, now: u64) -> CoreReading
    decreases events.len(),
{
    if events.len() == 0 {
        CoreReading {
            known: DocxMetadataView { title: None, author: None, created_at: None, tags: None },
            element: Seq::empty(),
            stopped: false,
        }
    } else {
        core_step(core_reading(events.drop_last(), now), events.last(), now)
    }
}

/// Reads the title, the author and the date of creation from the
/// description of a word-processing document.
pub fn parse_core_metadata(xml_content: &str, now: u64) -> (r: Option<DocxMetadata>)
    ensures
        r matches Some(metadata) && metadata@ == core_reading(
            xml_events(xml_content@, false),
            now,
        ).known,
{
    let events = read_events(xml_content, false);
    let ghost views = events.deep_view();
    let mut metadata = DocxMetadata { title: None, author: None, created_at: None, tags: None };
    let mut element: Vec<u8> = Vec::new();
    let mut stopped = false;
    let mut i: usize = 0;
    assert(views.take(0) =~= Seq::<XmlEventView>::empty());
    while i < events.len()
        invariant
            i <= events.len(),
            views == events.deep_view(),
            views == xml_events(xml_content@, false),
            core_reading(views.take(i as int), now) == (CoreReading {
                known: metadata@,
                element: element@,
                stopped,
            }),
        decreases events.len() - i,
    {
        proof {
            assert(views.take(i + 1).drop_last() =~= views.take(i as int));
            assert(views.take(i + 1).last() == events[i as int]@);
        }
        if !stopped {
            match &events[i] {
                XmlEvent::Start(name) => {
                    element = name.clone();
                    assert(element@ =~= name@);
                },
                XmlEvent::Text(raw) => {
                    match unescape(raw.as_slice()) {
                        Ok(text) => {
                            if name_is(&element, "dc:title") {
                                metadata.title = Some(text);
                            } else if name_is(&element, "dc:creator") {
                                metadata.author = Some(text);
                            } else if name_is(&element, "dcterms:created") {
                                match parse_iso8601(text.as_str(), now) {
                                    Ok(moment) => {
                                        metadata.created_at = Some(moment);
                                    },
                                    Err(_) => {},
                                }
                            }
                        },
                        Err(_) => {},
                    }
                },
                XmlEvent::Malformed(_) => {
                    stopped = true;
                },
                _ => {},
            }
        }
        i += 1;
    }
    assert(views.take(events.len() as int) =~= views);
    Some(metadata)
}

/// `text` with a comma in the place of each semicolon.
pub open spec fn semicolons_as_commas(text: Seq<char>) -> Seq<char> {
    text.map_values(
        |c: char|
            if c == ';' {
                ','
            } else {
                c
            },
    )
}

/// The keywords that a text lists, separated by commas or semicolons.
pub open spec fn keywords_of(text: Seq<char>) -> Seq<Seq<char>> {
    tags_from(split_on(semicolons_as_commas(text), ','), false)
}

/// How far the properties of a document have been read.
pub struct KeywordReading {
    pub found: Option<Seq<Seq<char>>>,
    pub element: Seq<u8>,
    pub stopped: bool,
}

/// What an event adds: the first text after an opening tag `Keywords` that
/// lists a keyword gives the keywords. Reading stops where the properties
/// are malformed.
pub open spec fn keyword_step(before: KeywordReading, event: XmlEventView) -> KeywordReading {
    if before.stopped || before.found is Some {
        before
    } else {
        match event {
            XmlEventView::Start(name) => KeywordReading { element: name, ..before },
            XmlEventView::Text(raw) => if before.element == "Keywords".spec_bytes() {
                match unescaped(raw) {
                    Ok(text) => if keywords_of(text).len() > 0 {
                        KeywordReading { found: Some(keywords_of(text)), ..before }
                    } else {
                        before
                    },
                    Err(_) => before,
                }
            } else {
                before
            },
            XmlEventView::Malformed(_) => KeywordReading { stopped: true, ..before },
            _ => before,
        }
    }
}

pub open spec fn keyword_reading(events: Seq<XmlEventView>) -> KeywordReading
    decreases events.len(),
{
    if events.len() == 0 {
        KeywordReading { found: None, element: Seq::empty(), stopped: false }
    } else {
        keyword_step(keyword_reading(events.drop_last()), events.last())
    }
}

/// The keywords that a text lists.
fn collect_keywords(text: &str) -> (r: Vec<String>)
    ensures
        r.deep_view() == keywords_of(text@),
{
    let chars = chars_of(text);
    let mut mapped: Vec<char> = Vec::new();
    let mut i: usize = 0;
    while i < chars.len()
        invariant
            i <= chars.len(),
            mapped@ == semicolons_as_commas(chars@.take(i as int)),
        decreases chars.len() - i,
    {
        let c = chars[i];
        mapped.push(if c == ';' { ',' } else { c });
        assert(semicolons_as_commas(chars@.take(i + 1)) =~= semicolons_as_commas(
            chars@.take(i as int),
        ).push(if c == ';' { ',' } else { c }));
        i += 1;
    }
    assert(chars@.take(chars.len() as int) =~= chars@);
    assert(mapped@.subrange(0, mapped.len() as int) =~= mapped@);
    collect_tags(&mapped, 0, mapped.len(), false)
}

/// Reads the keywords from the properties of a word-processing document.
pub fn parse_keywords(xml_content: &str) -> (r: Option<Vec<String>>)
    ensures
        r.deep_view() == keyword_reading(xml_events(xml_content@, false)).found,
{
    let events = read_events(xml_content, false);
    let ghost views = events.deep_view();
    let mut found: Option<Vec<String>> = None;
    let mut element: Vec<u8> = Vec::new();
    let mut stopped = false;
    let mut i: usize = 0;
    assert(views.take(0) =~= Seq::<XmlEventView>::empty());
    while i < events.len()
        invariant
            i <= events.len(),
            views == events.deep_view(),
            views == xml_events(xml_content@, false),
            keyword_reading(views.take(i as int)) == (KeywordReading {
                found: found.deep_view(),
                element: element@,
                stopped,
            }),
        decreases events.len() - i,
    {
        proof {
            assert(views.take(i + 1).drop_last() =~= views.take(i as int));
            assert(views.take(i + 1).last() == events[i as int]@);
        }
        if !stopped && found.is_none() {
            match &events[i] {
                XmlEvent::Start(name) => {
                    element = name.clone();
                    assert(element@ =~= name@);
                },
                XmlEvent::Text(raw) => {
                    if name_is(&element, "Keywords") {
                        match unescape(raw.as_slice()) {
                            Ok(text) => {
                                let keywords = collect_keywords(text.as_str());
                                if keywords.len() > 0 {
                                    found = Some(keywords);
                                }
                            },
                            Err(_) => {},
                        }
                    }
                },
                XmlEvent::Malformed(_) => {
                    stopped = true;
                },
                _ => {},
            }
        }
        i += 1;
    }
    assert(views.take(events.len() as int) =~= views);
    found
}

/// What the parts `docProps/core.xml` and `docProps/app.xml` of a
/// word-processing document say about it; a part that is missing or cannot
/// be read says nothing.
pub open spec fn docx_metadata(data: Seq<u8>, now: u64) -> DocxMetadataView {
    let core = match archive_entry(data, "docProps/core.xml"@) {
        ArchiveEntryView::Text(xml) => core_reading(xml_events(xml, false), now).known,
        _ => DocxMetadataView { title: None, author: None, created_at: None, tags: None },
    };
    let keywords = match archive_entry(data, "docProps/app.xml"@) {
        ArchiveEntryView::Text(xml) => keyword_reading(xml_events(xml, false)).found,
        _ => None,
    };
    DocxMetadataView { tags: keywords, ..core }
}

/// Reads what a word-processing document says about itself.
pub fn extract_docx_metadata(file_data: &[u8], now: u64) -> (metadata: DocxMetadata)
    ensures
        metadata@ == docx_metadata(file_data@, now),
{
    let mut metadata = DocxMetadata { title: None, author: None, created_at: None, tags: None };
    match read_entry(file_data, "docProps/core.xml") {
        ArchiveEntry::Text(core_xml) => match parse_core_metadata(core_xml.as_str(), now) {
            Some(core) => {
                metadata.title = core.title;
                metadata.author = core.author;
                metadata.created_at = core.created_at;
            },
            None => {},
        },
        _ => {},
    }
    match read_entry(file_data, "docProps/app.xml") {
        ArchiveEntry::Text(app_xml) => match parse_keywords(app_xml.as_str()) {
            Some(keywords) => {
                metadata.tags = Some(keywords);
            },
            None => {},
        },
        _ => {},
    }
    metadata
}

/// The main part of a word-processing document, or why it cannot be had.
pub fn read_document_xml(file_data: &[u8]) -> (r: ClanopediaResult<String>)
    ensures
        match archive_entry(file_data@, "word/document.xml"@) {
            ArchiveEntryView::Text(xml) => r matches Ok(text) && text@ == xml,
            ArchiveEntryView::BadArchive(why) => r matches Err(e) && e.spec_kind()
                == ErrorKind::InvalidInput && e.spec_message() == "Invalid DOCX file: "@ + why,
            ArchiveEntryView::Missing => r matches Err(e) && e.spec_kind()
                == ErrorKind::InvalidInput && e.spec_message()
                == "No document.xml found in DOCX"@,
            ArchiveEntryView::Unreadable(why) => r matches Err(e) && e.spec_kind()
                == ErrorKind::InvalidInput && e.spec_message()
                == "Failed to read document.xml: "@ + why,
        },
{
    match read_entry(file_data, "word/document.xml") {
        ArchiveEntry::Text(xml) => Ok(xml),
        ArchiveEntry::BadArchive(why) => Err(
            ClanopediaError::InvalidInput(concat2("Invalid DOCX file: ", why.as_str())),
        ),
        ArchiveEntry::Missing => Err(
            ClanopediaError::InvalidInput(String::from_str("No document.xml found in DOCX")),
        ),
        ArchiveEntry::Unreadable(why) => Err(
            ClanopediaError::InvalidInput(concat2("Failed to read document.xml: ", why.as_str())),
        ),
    }
}

/// What is drawn from a word-processing file: the text of its main part,
/// sanitized, under the title that the file gives itself, or else the name
/// of the file without its ending. Nothing where the file is no such file
/// or holds no text.
pub open spec fn docx_file_result(data: Seq<u8>, name: Seq<char>, now: u64) -> Option<
    ExtractionResultView,
> {
    let text = match archive_entry(data, "word/document.xml"@) {
        ArchiveEntryView::Text(xml) => docx_text(xml),
        _ => None,
    };
    let known = docx_metadata(data, now);
    match text {
        None => None,
        Some(t) => if trimmed(t).len() == 0 {
            None
        } else {
            Some(
                ExtractionResultView {
                    title: match known.title {
                        Some(title) => title,
                        None => stem_of(name),
                    },
                    content: sanitized(t),
                    content_type: ContentType::PlainText,
                    source_url: None,
                    metadata: Some(
                        ExtractionMetadataView {
                            file_size: Some(data.len() as u64),
                            page_count: None,
                            author: known.author,
                            created_at: known.created_at,
                            tags: known.tags,
                        },
                    ),
                },
            )
        },
    }
}

/// Draws a document from a word-processing file.
pub fn extract_docx_file(file_data: &[u8], filename: &str, now: u64) -> (r: ClanopediaResult<
    ExtractionResult,
>)
    ensures
        match r {
            Ok(result) => docx_file_result(file_data@, filename@, now) == Some(result@),
            Err(e) => docx_file_result(file_data@, filename@, now) is None && e.spec_kind()
                == ErrorKind::InvalidInput,
        },
{
    let document_xml = match read_document_xml(file_data) {
        Ok(xml) => xml,
        Err(e) => {
            return Err(e);
        },
    };
    let text = match parse_docx_xml(document_xml.as_str()) {
        Ok(text) => text,
        Err(e) => {
            return Err(e);
        },
    };
    if is_blank(text.as_str()) {
        return Err(ClanopediaError::InvalidInput(String::from_str("No text content found in DOCX")));
    }
    let metadata = extract_docx_metadata(file_data, now);
    let title = match metadata.title {
        Some(title) => title,
        None => get_filename_without_extension(filename),
    };
    Ok(
        ExtractionResult {
            title,
            content: sanitize_content(text.as_str()),
            content_type: ContentType::PlainText,
            source_url: None,
            metadata: Some(
                ExtractionMetadata {
                    file_size: Some(file_data.len() as u64),
                    page_count: None,
                    author: metadata.author,
                    created_at: metadata.created_at,
                    tags: metadata.tags,
                },
            ),
        },
    )
}

/// The largest file that is taken, in bytes.
pub const MAX_FILE_SIZE: usize = 10 * 1024 * 1024;

/// What is drawn from a file of the kind `kind`; `reading` is what a reader
/// of PDF files found in it, and is looked at for a PDF file only.
pub open spec fn file_result(
    kind: FileType,
    data: Seq<u8>,
    reading: PdfReadingView,
    name: Seq<char>,
    now: u64,
) -> Option<ExtractionResultView> {
    match kind {
        FileType::PlainText => text_file_result(data, name, now),
        FileType::Markdown => markdown_file_result(data, name, now),
        FileType::Pdf => pdf_file_result(data.len(), reading, name, now),
        FileType::DocX => docx_file_result(data, name, now),
        FileType::Unknown => None,
    }
}

/// The document that an uploaded file becomes: `None` where the file is
/// larger than ten mebibytes, of no known kind, without text, or where its
/// text is longer than the document service takes.
pub open spec fn file_document(
    data: Seq<u8>,
    reading: PdfReadingView,
    name: Seq<char>,
    now: u64,
) -> Option<ExtractionResultView> {
    if data.len() > MAX_FILE_SIZE {
        None
    } else {
        match file_result(file_type_of(lowercase_of(extension_of(name))), data, reading, name, now) {
            Some(result) => if byte_length(result.content) > MAX_CONTENT_SIZE {
                None
            } else {
                Some(result)
            },
            None => None,
        }
    }
}

/// A file of `size` bytes called `name` has to be read as a PDF file before a
/// document can be drawn from it: its name says that it is one, and it is not
/// too large to be taken.
pub open spec fn wants_pdf_reading(size: nat, name: Seq<char>) -> bool {
    size <= MAX_FILE_SIZE && file_type_of(lowercase_of(extension_of(name))) == FileType::Pdf
}

/// Whether the file has to be read as a PDF file before a document can be
/// drawn from it.
pub fn needs_pdf_reading(file_data: &[u8], filename: &str) -> (r: bool)
    ensures
        r == wants_pdf_reading(file_data@.len(), filename@),
{
    file_data.len() <= MAX_FILE_SIZE && matches!(FileType::from_filename(filename), FileType::Pdf)
}

/// What is drawn from a file that need not be read as a PDF file does not
/// depend on the reading that is handed in.
pub proof fn lemma_reading_matters_for_pdf_only(
    data: Seq<u8>,
    first: PdfReadingView,
    second: PdfReadingView,
    name: Seq<char>,
    now: u64,
)
    requires
        !wants_pdf_reading(data.len(), name),
    ensures
        file_document(data, first, name, now) == file_document(data, second, name, now),
{
}

/// Draws a document from an uploaded file, for the collection called
/// `collection_id`. `reading` is what a reader of PDF files found in the file;
/// it is looked at only where the name of the file says that it is a PDF file.
pub fn extract_file_content(
    file_data: Vec<u8>,
    filename: String,
    collection_id: String,
    reading: &PdfReading,
    now: u64,
) -> (r: ClanopediaResult<Vec<AddDocumentRequest>>)
    ensures
        match r {
            Ok(docs) => {
                &&& docs.len() == 1
                &&& file_document(file_data@, reading@, filename@, now) matches Some(result)
                &&& docs[0].collection_id == collection_id
                &&& docs[0].title@ == result.title
                &&& docs[0].content@ == result.content
                &&& docs[0].content_type == Some(result.content_type)
                &&& docs[0].source_url.deep_view() == result.source_url
                &&& docs[0].author.deep_view() == result.metadata.unwrap().author
                &&& docs[0].tags.deep_view() == result.metadata.unwrap().tags
            },
            Err(e) => file_document(file_data@, reading@, filename@, now) is None && e.spec_kind()
                == ErrorKind::InvalidInput,
        },
{
    if file_data.len() > MAX_FILE_SIZE {
        let size = decimal_text(file_data.len() as u128);
        let limit = decimal_text(MAX_FILE_SIZE as u128);
        let mut message = concat3("File too large: ", size.as_str(), " bytes (max: ");
        message.append(limit.as_str());
        message.append(" bytes)");
        return Err(ClanopediaError::InvalidInput(message));
    }
    let file_type = FileType::from_filename(filename.as_str());
    let extraction = match file_type {
        FileType::PlainText => extract_text_file(file_data.as_slice(), filename.as_str(), now),
        FileType::Markdown => extract_markdown_file(file_data.as_slice(), filename.as_str(), now),
        FileType::Pdf => extract_pdf_file(file_data.as_slice(), reading, filename.as_str(), now),
        FileType::DocX => extract_docx_file(file_data.as_slice(), filename.as_str(), now),
        FileType::Unknown => Err(
            ClanopediaError::InvalidInput(String::from_str("Unsupported file type: Unknown")),
        ),
    };
    let result = match extraction {
        Ok(result) => result,
        Err(e) => {
            return Err(e);
        },
    };
    match validate_content_size(result.content.as_str()) {
        Err(e) => {
            return Err(e);
        },
        Ok(_) => {},
    }
    let (author, tags) = match result.metadata {
        Some(metadata) => (metadata.author, metadata.tags),
        None => (None, None),
    };
    let document = AddDocumentRequest {
        collection_id,
        title: result.title,
        content: result.content,
        content_type: Some(result.content_type),
        source_url: result.source_url,
        author,
        tags,
    };
    let mut docs: Vec<AddDocumentRequest> = Vec::new();
    docs.push(document);
    Ok(docs)
}

} // verus!
