//! What is read from a PDF file.
//!
//! Reading the bytes of a PDF file is left to the caller, who hands over what
//! was found: the text of the pages and the description of the file.

use vstd::prelude::*;

verus! {

/// What a reader of PDF files found in a file.
#[derive(Debug)]
pub struct PdfReading {
    /// The text of each page, in the order of the pages, with `None` for a
    /// page whose text could not be drawn; or why the bytes cannot be read as
    /// a PDF file.
    pub pages: Result<Vec<Option<String>>, String>,
    /// The title that the description of the file gives.
    pub title: Option<String>,
    /// The author that the description of the file gives.
    pub author: Option<String>,
}

pub struct PdfReadingView {
    pub pages: Result<Seq<Option<Seq<char>>>, Seq<char>>,
    pub title: Option<Seq<char>>,
    pub author: Option<Seq<char>>,
}

impl View for PdfReading {
    type V = PdfReadingView;

    open spec fn view(&self) -> PdfReadingView {
        PdfReadingView {
            pages: match self.pages {
                Ok(pages) => Ok(pages.deep_view()),
                Err(why) => Err(why@),
            },
            title: self.title.deep_view(),
            author: self.author.deep_view(),
        }
    }
}

impl PdfReading {
    /// The reading of a file that was not read as a PDF file, with `why` as the reason.
    pub fn unread(why: String) -> (reading: PdfReading)
        ensures
            reading@ == (PdfReadingView {
                pages: Err(why@),
                title: None,
                author: None,
            }),
    {
        PdfReading { pages: Err(why), title: None, author: None }
    }
}

} // verus!
