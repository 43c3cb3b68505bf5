//! Reading a named entry of a ZIP archive as text.

use vstd::prelude::*;

verus! {

/// What looking for an entry in an archive comes to.
#[derive(Debug)]
pub enum ArchiveEntry {
    /// The bytes are no archive; the text says why.
    BadArchive(String),
    /// The archive holds no entry of that name that can be opened.
    Missing,
    /// The entry is there but cannot be read as text; the text says why.
    Unreadable(String),
    /// The text of the entry.
    Text(String),
}

pub enum ArchiveEntryView {
    BadArchive(Seq<char>),
    Missing,
    Unreadable(Seq<char>),
    Text(Seq<char>),
}

impl View for ArchiveEntry {
    type V = ArchiveEntryView;

    open spec fn view(&self) -> ArchiveEntryView {
        match self {
            ArchiveEntry::BadArchive(why) => ArchiveEntryView::BadArchive(why@),
            ArchiveEntry::Missing => ArchiveEntryView::Missing,
            ArchiveEntry::Unreadable(why) => ArchiveEntryView::Unreadable(why@),
            ArchiveEntry::Text(text) => ArchiveEntryView::Text(text@),
        }
    }
}

/// What the archive made of `data` holds under `name`.
pub uninterp spec fn archive_entry(data: Seq<u8>, name: Seq<char>) -> ArchiveEntryView;

/// Calls `zip::ZipArchive::new` on the bytes, `by_name_decrypt` on the
/// archive, with an empty password, and `std::io::Read::read_to_string` on the
/// entry. An entry that cannot be opened without its password is reported as
/// unreadable. The contract names the result: the same bytes and name give
/// the same answer.
#[verifier::external_body]
pub(crate) fn read_entry(data: &[u8], name: &str) -> (r: ArchiveEntry)
    ensures
        r@ == archive_entry(data@, name@),
{
    let mut archive = match zip::ZipArchive::new(std::io::Cursor::new(data)) {
        Ok(archive) => archive,
        Err(e) => return ArchiveEntry::BadArchive(e.to_string()),
    };
    let mut file = match archive.by_name_decrypt(name, &[]) {
        Ok(Ok(file)) => file,
        Ok(Err(e)) => return ArchiveEntry::Unreadable(e.to_string()),
        Err(_) => return ArchiveEntry::Missing,
    };
    let mut text = String::new();
    match std::io::Read::read_to_string(&mut file, &mut text) {
        Ok(_) => ArchiveEntry::Text(text),
        Err(e) => ArchiveEntry::Unreadable(e.to_string()),
    }
}

} // verus!
