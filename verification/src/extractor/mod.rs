//! Drawing documents from files and addresses, and keeping track of how far
//! each extraction has come.

pub mod file_extractor;
pub mod types;
pub mod url_extractor;

use vstd::prelude::*;

use crate::external::blueband::AddDocumentRequest;
use crate::extractor::types::{
    ExtractionInfo, ExtractionProgress, ExtractionProgressView, ExtractionResponse,
    ExtractionStatus, ExtractionStatusView, summary_of,
};
use crate::scan::{joined, lemma_run_before, run_before, scan_to};
use crate::text::{
    chars_of, concat3, decimal, decimal_text, is_white_space, leading_space, same_text, text_of,
    trailing_space, trim_bounds, trimmed,
};
use crate::keys::{lemma_position_absent, lemma_position_found, position};
use crate::types::{ClanopediaError, ClanopediaResult, ErrorKind};

verus! {

/// The longest text that the document service takes, in bytes.
pub const MAX_CONTENT_SIZE: usize = 10 * 1024 * 1024;

/// The lines of `s`, each without the white space around it, but for those
/// that hold nothing else.
pub open spec fn kept_lines(s: Seq<char>) -> Seq<Seq<char>>
    decreases s.len(),
{
    if s.len() == 0 {
        Seq::empty()
    } else {
        let end = run_before(s, '\n') as int;
        let line = trimmed(s.take(end));
        let rest = if end < s.len() {
            kept_lines(s.skip(end + 1))
        } else {
            Seq::empty()
        };
        if line.len() > 0 {
            seq![line] + rest
        } else {
            rest
        }
    }
}

/// `s` with each line trimmed and the empty lines left out.
pub open spec fn sanitized(s: Seq<char>) -> Seq<char> {
    joined(kept_lines(s))
}

/// The text without the white space around its lines and without its empty lines.
pub fn sanitize_content(content: &str) -> (out: String)
    ensures
        out@ == sanitized(content@),
{
    let chars = chars_of(content);
    let ghost s = chars@;
    let mut out = String::new();
    let ghost mut kept: Seq<Seq<char>> = Seq::empty();
    let mut any = false;
    let mut start: usize = 0;
    assert(s.skip(0) =~= s);
    while start < chars.len()
        invariant
            s == chars@,
            start <= chars.len(),
            kept_lines(s) == kept + kept_lines(s.skip(start as int)),
            out@ == joined(kept),
            any == (kept.len() > 0),
        decreases chars.len() - start,
    {
        let end = scan_to(&chars, start, chars.len(), '\n');
        let (a, b) = trim_bounds(&chars, start, end);
        let next = if end < chars.len() {
            end + 1
        } else {
            end
        };
        proof {
            let tail = s.skip(start as int);
            assert(tail =~= s.subrange(start as int, chars.len() as int));
            assert(tail.take(end - start) =~= s.subrange(start as int, end as int));
            if end < chars.len() {
                assert(tail.skip(end - start + 1) =~= s.skip(next as int));
            } else {
                assert(s.skip(next as int).len() == 0);
            }
        }
        let ghost line = s.subrange(a as int, b as int);
        if b > a {
            if any {
                out.push('\n');
            }
            let piece = text_of(&chars, a, b);
            out.append(piece.as_str());
            proof {
                let longer = kept.push(line);
                assert(longer.drop_last() =~= kept);
                assert(kept + (seq![line] + kept_lines(s.skip(next as int))) =~= longer + kept_lines(
                    s.skip(next as int),
                ));
                kept = longer;
            }
            any = true;
        }
        start = next;
    }
    proof {
        assert(kept + kept_lines(s.skip(start as int)) =~= kept);
    }
    out
}

/// Refuses a text of more than ten mebibytes.
pub fn validate_content_size(content: &str) -> (r: ClanopediaResult<()>)
    ensures
        r is Ok <==> content.len() <= MAX_CONTENT_SIZE,
        r matches Err(e) ==> e.spec_kind() == ErrorKind::InvalidInput && e.spec_message() == size_refusal(content@),
{
    if content.len() > MAX_CONTENT_SIZE {
        let size = decimal_text(content.len() as u128);
        let limit = decimal_text(MAX_CONTENT_SIZE as u128);
        let mut message = concat3("Content too large: ", size.as_str(), " bytes (max: ");
        message.append(limit.as_str());
        message.append(" bytes)");
        return Err(ClanopediaError::InvalidInput(message));
    }
    Ok(())
}

/// Seven days, in nanoseconds: how long the record of an ended extraction is kept.
pub const EXTRACTION_RETENTION_NANOS: u64 = 604_800_000_000_000;

/// Keeps, for each collection and address, how far the extraction has come.
#[derive(Debug)]
pub struct Extractor {
    pub progress: Vec<ExtractionProgress>,
}

impl View for Extractor {
    type V = Seq<ExtractionProgressView>;

    open spec fn view(&self) -> Seq<ExtractionProgressView> {
        self.progress.deep_view()
    }
}

/// The collection and the address of each record, in order.
pub open spec fn progress_keys(records: Seq<ExtractionProgressView>) -> Seq<(Seq<char>, Seq<char>)> {
    records.map_values(|p: ExtractionProgressView| (p.collection_id, p.url))
}

/// The record kept for the collection and the address, if there is one.
pub open spec fn progress_of(
    records: Seq<ExtractionProgressView>,
    collection_id: Seq<char>,
    url: Seq<char>,
) -> Option<ExtractionProgressView> {
    match position(progress_keys(records), (collection_id, url)) {
        Some(i) => Some(records[i]),
        None => None,
    }
}

/// `records` with `p` in the place of the record for the same collection and
/// address, or behind the others where there is none.
pub open spec fn with_progress(records: Seq<ExtractionProgressView>, p: ExtractionProgressView) -> Seq<
    ExtractionProgressView,
> {
    match position(progress_keys(records), (p.collection_id, p.url)) {
        Some(i) => records.update(i, p),
        None => records.push(p),
    }
}

/// `records` without the record for the collection and the address.
pub open spec fn without_progress(
    records: Seq<ExtractionProgressView>,
    collection_id: Seq<char>,
    url: Seq<char>,
) -> Seq<ExtractionProgressView> {
    match position(progress_keys(records), (collection_id, url)) {
        Some(i) => records.remove(i),
        None => records,
    }
}

/// The records of `records` that belong to the collection, in order.
pub open spec fn records_of(records: Seq<ExtractionProgressView>, collection_id: Seq<char>) -> Seq<
    ExtractionProgressView,
>
    decreases records.len(),
{
    if records.len() == 0 {
        Seq::empty()
    } else if records.last().collection_id == collection_id {
        records_of(records.drop_last(), collection_id).push(records.last())
    } else {
        records_of(records.drop_last(), collection_id)
    }
}

/// How many of `records` are under way.
pub open spec fn count_in_progress(records: Seq<ExtractionProgressView>) -> nat
    decreases records.len(),
{
    if records.len() == 0 {
        0
    } else {
        count_in_progress(records.drop_last()) + if records.last().status is InProgress {
            1nat
        } else {
            0nat
        }
    }
}

/// How many of `records` are paused.
pub open spec fn count_paused(records: Seq<ExtractionProgressView>) -> nat
    decreases records.len(),
{
    if records.len() == 0 {
        0
    } else {
        count_paused(records.drop_last()) + if records.last().status is Paused {
            1nat
        } else {
            0nat
        }
    }
}

/// The record of an extraction that ended before `cutoff`.
pub open spec fn is_stale(p: ExtractionProgressView, cutoff: u64) -> bool {
    p.status.is_over() && p.last_updated < cutoff
}

/// The records of `records` that are not stale, in order.
pub open spec fn fresh_records(records: Seq<ExtractionProgressView>, cutoff: u64) -> Seq<
    ExtractionProgressView,
>
    decreases records.len(),
{
    if records.len() == 0 {
        Seq::empty()
    } else if is_stale(records.last(), cutoff) {
        fresh_records(records.drop_last(), cutoff)
    } else {
        fresh_records(records.drop_last(), cutoff).push(records.last())
    }
}

proof fn lemma_fresh_len(records: Seq<ExtractionProgressView>, cutoff: u64)
    ensures
        fresh_records(records, cutoff).len() <= records.len(),
    decreases records.len(),
{
    if records.len() > 0 {
        lemma_fresh_len(records.drop_last(), cutoff);
    }
}

impl Extractor {
    /// An extractor that keeps no record.
    pub fn new() -> (e: Extractor)
        ensures
            e@ == Seq::<ExtractionProgressView>::empty(),
    {
        let e = Extractor { progress: Vec::new() };
        assert(e@ =~= Seq::<ExtractionProgressView>::empty());
        e
    }

    fn find(&self, collection_id: &str, url: &str) -> (r: Option<usize>)
        ensures
            match r {
                Some(i) => position(progress_keys(self@), (collection_id@, url@)) == Some(i as int)
                    && i < self.progress.len(),
                None => position(progress_keys(self@), (collection_id@, url@)) is None,
            },
    {
        let mut i: usize = 0;
        while i < self.progress.len()
            invariant
                i <= self.progress.len(),
                forall|j: int| 0 <= j < i ==> progress_keys(self@)[j] != (collection_id@, url@),
            decreases self.progress.len() - i,
        {
            if same_text(self.progress[i].collection_id.as_str(), collection_id) && same_text(
                self.progress[i].url.as_str(),
                url,
            ) {
                proof {
                    assert(progress_keys(self@)[i as int] == (collection_id@, url@));
                    lemma_position_found(progress_keys(self@), (collection_id@, url@), i as int);
                }
                return Some(i);
            }
            i += 1;
        }
        proof {
            lemma_position_absent(progress_keys(self@), (collection_id@, url@));
        }
        None
    }

    /// Draws a document from an uploaded file, for the collection called
    /// `collection_id`. `reading` is what a reader of PDF files found in the
    /// file; it is looked at for a PDF file only.
    pub fn extract_from_file(
        file_data: Vec<u8>,
        filename: String,
        collection_id: String,
        reading: &crate::pdf::PdfReading,
        now: u64,
    ) -> (r: ClanopediaResult<Vec<AddDocumentRequest>>)
        ensures
            match r {
                Ok(docs) => {
                    &&& docs.len() == 1
                    &&& file_extractor::file_document(file_data@, reading@, filename@, now) matches Some(
                        result,
                    )
                    &&& docs[0].collection_id == collection_id
                    &&& docs[0].title@ == result.title
                    &&& docs[0].content@ == result.content
                    &&& docs[0].content_type == Some(result.content_type)
                    &&& docs[0].source_url.deep_view() == result.source_url
                    &&& docs[0].author.deep_view() == result.metadata.unwrap().author
                    &&& docs[0].tags.deep_view() == result.metadata.unwrap().tags
                },
                Err(e) => file_extractor::file_document(file_data@, reading@, filename@, now)
                    is None && e.spec_kind() == ErrorKind::InvalidInput,
            },
    {
        file_extractor::extract_file_content(file_data, filename, collection_id, reading, now)
    }

    /// How far the extraction from `url` into the collection has come.
    pub fn get_progress(&self, collection_id: &str, url: &str) -> (r: Option<ExtractionProgress>)
        ensures
            r.deep_view() == progress_of(self@, collection_id@, url@),
    {
        match self.find(collection_id, url) {
            Some(i) => Some(self.progress[i].clone()),
            None => None,
        }
    }

    /// Keeps `progress` as the record for its collection and address.
    pub fn update_progress(&mut self, progress: ExtractionProgress)
        ensures
            final(self)@ == with_progress(old(self)@, progress@),
    {
        let ghost before = self@;
        match self.find(progress.collection_id.as_str(), progress.url.as_str()) {
            Some(i) => {
                self.progress[i] = progress;
                assert(self@ =~= before.update(i as int, progress@));
            },
            None => {
                self.progress.push(progress);
                assert(self@ =~= before.push(progress@));
            },
        }
    }

    /// Forgets the record for the collection and the address.
    pub fn remove_progress(&mut self, collection_id: &str, url: &str)
        ensures
            final(self)@ == without_progress(old(self)@, collection_id@, url@),
    {
        let ghost before = self@;
        match self.find(collection_id, url) {
            Some(i) => {
                self.progress.remove(i);
                assert(self@ =~= before.remove(i as int));
            },
            None => {},
        }
    }

    /// The documents drawn, with the summary of `progress`, or, where there
    /// is none, of an extraction that is complete with these documents.
    pub fn create_response(documents: Vec<AddDocumentRequest>, progress: Option<ExtractionProgress>) -> (r:
        ExtractionResponse)
        ensures
            r.documents == documents,
            match progress {
                Some(p) => {
                    &&& r.extraction_info.status@ == p@.status
                    &&& r.extraction_info.processed_count == p.processed_videos
                    &&& r.extraction_info.total_count == p.total_videos
                    &&& r.extraction_info.has_more == (p@.status is Paused)
                    &&& r.extraction_info.can_resume == p@.status.can_resume()
                    &&& r.extraction_info.summary_message@ == summary_of(
                        p@.status,
                        p.processed_videos,
                        p.total_videos,
                        p@.status is Paused,
                    )
                },
                None => {
                    let count = if documents.len() > u32::MAX {
                        u32::MAX
                    } else {
                        documents.len() as u32
                    };
                    &&& r.extraction_info.status@ == ExtractionStatusView::Completed
                    &&& r.extraction_info.processed_count == count
                    &&& r.extraction_info.total_count == Some(count)
                    &&& !r.extraction_info.has_more
                    &&& !r.extraction_info.can_resume
                    &&& r.extraction_info.summary_message@
                        == "Extraction completed successfully. "@ + decimal(count as nat)
                        + " documents processed."@
                },
            },
    {
        let extraction_info = match &progress {
            Some(p) => ExtractionInfo::from_progress(p),
            None => {
                let count = if documents.len() > u32::MAX as usize {
                    u32::MAX
                } else {
                    documents.len() as u32
                };
                ExtractionInfo::for_file_extraction(count)
            },
        };
        ExtractionResponse { documents, extraction_info }
    }

    /// No documents, with the summary of an extraction that failed with `error_message`.
    pub fn create_failed_response(error_message: String) -> (r: ExtractionResponse)
        ensures
            r.documents@ == Seq::<AddDocumentRequest>::empty(),
            r.extraction_info.status@ == ExtractionStatusView::Failed(error_message@),
            r.extraction_info.processed_count == 0,
            r.extraction_info.total_count is None,
            r.extraction_info.can_resume && !r.extraction_info.has_more,
            r.extraction_info.summary_message@ == "Extraction failed: "@ + error_message@,
    {
        ExtractionResponse {
            documents: Vec::new(),
            extraction_info: ExtractionInfo::for_failed_extraction(error_message),
        }
    }

    /// The records of the extractions into the collection, in the order in
    /// which they were first kept.
    pub fn get_collection_extractions(&self, collection_id: String) -> (r: Vec<ExtractionProgress>)
        ensures
            r.deep_view() == records_of(self@, collection_id@),
    {
        let mut out: Vec<ExtractionProgress> = Vec::new();
        let mut i: usize = 0;
        while i < self.progress.len()
            invariant
                i <= self.progress.len(),
                out.deep_view() == records_of(self@.take(i as int), collection_id@),
            decreases self.progress.len() - i,
        {
            proof {
                assert(self@.take(i + 1).drop_last() =~= self@.take(i as int));
            }
            let ghost previous = out.deep_view();
            if same_text(self.progress[i].collection_id.as_str(), collection_id.as_str()) {
                out.push(self.progress[i].clone());
                assert(out.deep_view() =~= previous.push(self@[i as int]));
            }
            i += 1;
        }
        assert(self@.take(self.progress.len() as int) =~= self@);
        out
    }
}

/// How many extractions are recorded, how many of them are under way, and
/// how many are paused.
pub fn get_extraction_stats(extractor: &Extractor) -> (r: (u64, u64, u64))
    ensures
        r.0 == extractor@.len(),
        r.1 == count_in_progress(extractor@),
        r.2 == count_paused(extractor@),
{
    let mut in_progress: u64 = 0;
    let mut paused: u64 = 0;
    let mut i: usize = 0;
    while i < extractor.progress.len()
        invariant
            i <= extractor.progress.len(),
            in_progress == count_in_progress(extractor@.take(i as int)),
            paused == count_paused(extractor@.take(i as int)),
            in_progress <= i,
            paused <= i,
        decreases extractor.progress.len() - i,
    {
        proof {
            assert(extractor@.take(i + 1).drop_last() =~= extractor@.take(i as int));
            assert(extractor@.take(i + 1).last() == extractor.progress[i as int]@);
        }
        match extractor.progress[i].status {
            ExtractionStatus::InProgress => {
                in_progress += 1;
            },
            ExtractionStatus::Paused => {
                paused += 1;
            },
            _ => {},
        }
        i += 1;
    }
    assert(extractor@.take(extractor.progress.len() as int) =~= extractor@);
    (extractor.progress.len() as u64, in_progress, paused)
}

/// Forgets the records of the extractions that ended more than seven days
/// before `now`, and says how many went; a count above the largest 32-bit
/// number is reported as that number.
pub fn cleanup_old_extractions(extractor: &mut Extractor, now: u64) -> (cleaned: u32)
    ensures
        ({
            let cutoff = if now >= EXTRACTION_RETENTION_NANOS {
                (now - EXTRACTION_RETENTION_NANOS) as u64
            } else {
                0u64
            };
            let kept = fresh_records(old(extractor)@, cutoff);
            &&& final(extractor)@ == kept
            &&& cleaned == if old(extractor)@.len() - kept.len() > u32::MAX {
                u32::MAX as int
            } else {
                old(extractor)@.len() - kept.len()
            }
        }),
{
    let cutoff = now.saturating_sub(EXTRACTION_RETENTION_NANOS);
    let ghost before = extractor@;
    let total = extractor.progress.len();
    let mut kept: Vec<ExtractionProgress> = Vec::new();
    let mut i: usize = 0;
    while i < extractor.progress.len()
        invariant
            i <= extractor.progress.len(),
            extractor@ == before,
            kept.deep_view() == fresh_records(before.take(i as int), cutoff),
        decreases extractor.progress.len() - i,
    {
        proof {
            assert(before.take(i + 1).drop_last() =~= before.take(i as int));
        }
        let ghost previous = kept.deep_view();
        let record = &extractor.progress[i];
        let over = matches!(record.status, ExtractionStatus::Completed | ExtractionStatus::Failed(_));
        if !(over && record.last_updated < cutoff) {
            kept.push(record.clone());
            assert(kept.deep_view() =~= previous.push(before[i as int]));
        }
        i += 1;
    }
    proof {
        assert(before.take(total as int) =~= before);
        lemma_fresh_len(before, cutoff);
    }
    let removed = total - kept.len();
    extractor.progress = kept;
    if removed > u32::MAX as usize {
        u32::MAX
    } else {
        removed as u32
    }
}

/// Whether the extraction from `url` into the collection can be taken up
/// again: there must be a record of it, and it must be paused or have failed.
pub fn resume_extraction(extractor: &Extractor, collection_id: &str, url: &str) -> (r:
    ClanopediaResult<()>)
    ensures
        r is Ok <==> (progress_of(extractor@, collection_id@, url@) matches Some(p)
            && p.status.can_resume()),
        r matches Err(e) ==> e.spec_kind() == ErrorKind::InvalidInput,
{
    match extractor.find(collection_id, url) {
        None => Err(
            ClanopediaError::InvalidInput(String::from_str("No extraction in progress for this URL")),
        ),
        Some(i) => match extractor.progress[i].status {
            ExtractionStatus::Paused | ExtractionStatus::Failed(_) => Ok(()),
            _ => Err(
                ClanopediaError::InvalidInput(String::from_str("Extraction is not paused or failed")),
            ),
        },
    }
}

/// Forgets the record of the extraction from `url` into the collection.
pub fn cleanup_extraction_progress(extractor: &mut Extractor, collection_id: String, url: String) -> (r:
    ClanopediaResult<()>)
    ensures
        r is Ok,
        final(extractor)@ == without_progress(old(extractor)@, collection_id@, url@),
{
    extractor.remove_progress(collection_id.as_str(), url.as_str());
    Ok(())
}

/// A line as sanitizing leaves it: not empty, without a line feed, and
/// without white space at its start and at its end.
pub open spec fn is_tidy_line(line: Seq<char>) -> bool {
    &&& line.len() > 0
    &&& !is_white_space(line[0])
    &&& !is_white_space(line.last())
    &&& forall|j: int| 0 <= j < line.len() ==> line[j] != '\n'
}

proof fn lemma_run_stops_at_mark(s: Seq<char>, sep: char)
    ensures
        run_before(s, sep) <= s.len(),
        forall|j: int| 0 <= j < run_before(s, sep) ==> s[j] != sep,
        run_before(s, sep) < s.len() ==> s[run_before(s, sep) as int] == sep,
    decreases s.len(),
{
    if s.len() > 0 && s[0] != sep {
        let rest = s.skip(1);
        lemma_run_stops_at_mark(rest, sep);
        let n = run_before(rest, sep) as int;
        assert forall|j: int| 0 <= j < 1 + n implies s[j] != sep by {
            if j > 0 {
                assert(rest[j - 1] == s[j]);
            }
        }
        if 1 + n < s.len() {
            assert(rest[n] == s[1 + n]);
        }
    }
}

proof fn lemma_leading_is_white(s: Seq<char>)
    ensures
        leading_space(s) <= s.len(),
        forall|j: int| 0 <= j < leading_space(s) ==> is_white_space(s[j]),
        leading_space(s) < s.len() ==> !is_white_space(s[leading_space(s) as int]),
    decreases s.len(),
{
    if s.len() > 0 && is_white_space(s[0]) {
        let rest = s.skip(1);
        lemma_leading_is_white(rest);
        let n = leading_space(rest) as int;
        assert forall|j: int| 0 <= j < 1 + n implies is_white_space(s[j]) by {
            if j > 0 {
                assert(rest[j - 1] == s[j]);
            }
        }
        if 1 + n < s.len() {
            assert(rest[n] == s[1 + n]);
        }
    }
}

proof fn lemma_trailing_is_white(s: Seq<char>)
    ensures
        trailing_space(s) <= s.len(),
        forall|j: int| s.len() - trailing_space(s) <= j < s.len() ==> is_white_space(s[j]),
        trailing_space(s) < s.len() ==> !is_white_space(s[s.len() - trailing_space(s) - 1]),
    decreases s.len(),
{
    if s.len() > 0 && is_white_space(s.last()) {
        let rest = s.drop_last();
        lemma_trailing_is_white(rest);
        let n = trailing_space(rest) as int;
        assert forall|j: int| s.len() - (1 + n) <= j < s.len() implies is_white_space(s[j]) by {
            if j < s.len() - 1 {
                assert(rest[j] == s[j]);
            }
        }
        if 1 + n < s.len() {
            assert(rest[rest.len() - n - 1] == s[s.len() - n - 2]);
        }
    }
}

/// Trimming makes a text no longer, and leaves a text without line feeds
/// either empty or tidy.
proof fn lemma_trimmed(x: Seq<char>)
    ensures
        trimmed(x).len() <= x.len(),
        trimmed(x).len() > 0 && (forall|j: int| 0 <= j < x.len() ==> x[j] != '\n')
            ==> is_tidy_line(trimmed(x)),
{
    lemma_leading_is_white(x);
    lemma_trailing_is_white(x);
    let a = leading_space(x) as int;
    let t = trailing_space(x) as int;
    if a < x.len() {
        assert(a < x.len() - t);
        let y = trimmed(x);
        assert(y[0] == x[a]);
        assert(y.last() == x[x.len() - t - 1]);
        assert forall|j: int| 0 <= j < y.len() implies y[j] == x[a + j] by {}
    }
}

proof fn lemma_tidy_stays(line: Seq<char>)
    requires
        is_tidy_line(line),
    ensures
        trimmed(line) == line,
        run_before(line, '\n') == line.len(),
{
    assert(leading_space(line) == 0);
    assert(trailing_space(line) == 0);
    assert(line.subrange(0, line.len() as int) =~= line);
    lemma_run_before(line, '\n', line.len() as int);
}

proof fn lemma_kept_lines_are_tidy(s: Seq<char>)
    ensures
        forall|i: int| 0 <= i < kept_lines(s).len() ==> is_tidy_line(#[trigger] kept_lines(s)[i]),
    decreases s.len(),
{
    if s.len() > 0 {
        lemma_run_stops_at_mark(s, '\n');
        let end = run_before(s, '\n') as int;
        let raw = s.take(end);
        assert forall|j: int| 0 <= j < raw.len() implies raw[j] != '\n' by {
            assert(raw[j] == s[j]);
        }
        lemma_trimmed(raw);
        let line = trimmed(raw);
        let rest = if end < s.len() {
            kept_lines(s.skip(end + 1))
        } else {
            Seq::empty()
        };
        if end < s.len() {
            lemma_kept_lines_are_tidy(s.skip(end + 1));
        }
        assert forall|i: int| 0 <= i < kept_lines(s).len() implies is_tidy_line(
            #[trigger] kept_lines(s)[i],
        ) by {
            if line.len() > 0 {
                if i > 0 {
                    assert(kept_lines(s)[i] == rest[i - 1]);
                } else {
                    assert(kept_lines(s)[i] == line);
                }
            }
        }
    }
}

proof fn lemma_joined_from_the_left(lines: Seq<Seq<char>>)
    requires
        lines.len() >= 2,
    ensures
        joined(lines) == lines[0] + seq!['\n'] + joined(lines.skip(1)),
    decreases lines.len(),
{
    let front = lines.drop_last();
    let tail = lines.skip(1);
    if lines.len() == 2 {
        assert(joined(front) == lines[0]);
        assert(joined(tail) == lines[1]);
    } else {
        lemma_joined_from_the_left(front);
        assert(tail.drop_last() =~= front.skip(1));
        assert(joined(tail) == joined(front.skip(1)) + seq!['\n'] + lines.last());
        assert(joined(lines) =~= lines[0] + seq!['\n'] + joined(tail));
    }
}

proof fn lemma_kept_lines_of_joined(lines: Seq<Seq<char>>)
    requires
        forall|i: int| 0 <= i < lines.len() ==> is_tidy_line(#[trigger] lines[i]),
    ensures
        kept_lines(joined(lines)) == lines,
    decreases lines.len(),
{
    let s = joined(lines);
    if lines.len() == 0 {
        assert(kept_lines(s) =~= lines);
    } else if lines.len() == 1 {
        let line = lines[0];
        lemma_tidy_stays(line);
        assert(s.take(s.len() as int) =~= s);
        assert(kept_lines(s) =~= lines);
    } else {
        let line = lines[0];
        let tail = lines.skip(1);
        lemma_joined_from_the_left(lines);
        lemma_tidy_stays(line);
        let n = line.len() as int;
        assert forall|j: int| 0 <= j < n implies s[j] != '\n' by {
            assert(s[j] == line[j]);
        }
        assert(s[n] == '\n');
        lemma_run_before(s, '\n', n);
        assert(s.take(n) =~= line);
        assert(s.skip(n + 1) =~= joined(tail));
        assert forall|i: int| 0 <= i < tail.len() implies is_tidy_line(#[trigger] tail[i]) by {
            assert(tail[i] == lines[i + 1]);
        }
        lemma_kept_lines_of_joined(tail);
        assert(kept_lines(s) =~= seq![line] + tail);
        assert(seq![line] + tail =~= lines);
    }
}

proof fn lemma_joined_kept_lines_len(s: Seq<char>)
    ensures
        joined(kept_lines(s)).len() <= s.len(),
    decreases s.len(),
{
    if s.len() > 0 {
        lemma_run_stops_at_mark(s, '\n');
        let end = run_before(s, '\n') as int;
        let line = trimmed(s.take(end));
        lemma_trimmed(s.take(end));
        let rest = if end < s.len() {
            kept_lines(s.skip(end + 1))
        } else {
            Seq::empty()
        };
        if end < s.len() {
            lemma_joined_kept_lines_len(s.skip(end + 1));
        }
        if line.len() > 0 {
            let kept = seq![line] + rest;
            if rest.len() == 0 {
                assert(kept =~= seq![line]);
                assert(joined(kept) == line);
            } else {
                lemma_joined_from_the_left(kept);
                assert(kept.skip(1) =~= rest);
            }
        }
    }
}

/// Sanitizing a text that was sanitized changes nothing.
pub proof fn lemma_sanitizing_is_idempotent(s: Seq<char>)
    ensures
        sanitized(sanitized(s)) == sanitized(s),
{
    lemma_kept_lines_are_tidy(s);
    lemma_kept_lines_of_joined(kept_lines(s));
}

/// Sanitizing makes a text no longer.
pub proof fn lemma_sanitizing_makes_no_longer(s: Seq<char>)
    ensures
        sanitized(s).len() <= s.len(),
{
    lemma_joined_kept_lines_len(s);
}

/// What is said of a text that is refused for its size.
pub open spec fn size_refusal(content: Seq<char>) -> Seq<char> {
    "Content too large: "@ + decimal(file_extractor::byte_length(content) as nat) + " bytes (max: "@
        + decimal(MAX_CONTENT_SIZE as nat) + " bytes)"@
}

} // verus!
