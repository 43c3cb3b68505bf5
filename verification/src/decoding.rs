//! Turning the bytes of a text file into text.

use vstd::prelude::*;

verus! {

/// The encodings that a text file is read in.
#[derive(Clone, Copy, Debug, PartialEq, Eq, Structural)]
pub enum TextEncoding {
    Utf8,
    Utf16Le,
    Utf16Be,
    Windows1252,
}

/// The most bytes that are decoded at once.
pub const MAX_DECODED_BYTES: usize = 0x4000_0000;

/// The text that `bytes` stand for in `encoding`, and whether some of them
/// stood for nothing and were replaced. A byte order mark at the start of
/// `bytes` overrides `encoding` and is left out of the text.
pub uninterp spec fn decoding(encoding: TextEncoding, bytes: Seq<u8>) -> (Seq<char>, bool);

/// Calls `encoding_rs::Encoding::decode` on the encoding that `encoding`
/// names. It decodes the whole input, sniffs a byte order mark, replaces
/// malformed sequences, and reports whether it replaced any. The contract
/// names the text and the report. Inputs so large that the size of the
/// output overflows are left out.
#[verifier::external_body]
pub(crate) fn decode(encoding: TextEncoding, bytes: &[u8]) -> (r: (String, bool))
    requires
        bytes@.len() <= MAX_DECODED_BYTES,
    ensures
        (r.0@, r.1) == decoding(encoding, bytes@),
{
    let outside = match encoding {
        TextEncoding::Utf8 => encoding_rs::UTF_8,
        TextEncoding::Utf16Le => encoding_rs::UTF_16LE,
        TextEncoding::Utf16Be => encoding_rs::UTF_16BE,
        TextEncoding::Windows1252 => encoding_rs::WINDOWS_1252,
    };
    let (text, _, had_errors) = outside.decode(bytes);
    (text.into_owned(), had_errors)
}

/// `data` begins with `mark`.
pub open spec fn begins_with(data: Seq<u8>, mark: Seq<u8>) -> bool {
    mark.len() <= data.len() && data.take(mark.len() as int) == mark
}

/// The encoding that the bytes of a file suggest: the one that its byte
/// order mark names; else the western code page where a byte is above 127;
/// else UTF-8.
pub open spec fn detected_encoding(data: Seq<u8>) -> TextEncoding {
    if begins_with(data, seq![0xFFu8, 0xFEu8]) {
        TextEncoding::Utf16Le
    } else if begins_with(data, seq![0xFEu8, 0xFFu8]) {
        TextEncoding::Utf16Be
    } else if begins_with(data, seq![0xEFu8, 0xBBu8, 0xBFu8]) {
        TextEncoding::Utf8
    } else if exists|i: int| 0 <= i < data.len() && data[i] > 127 {
        TextEncoding::Windows1252
    } else {
        TextEncoding::Utf8
    }
}

/// The encoding that the bytes of a file suggest.
pub fn detect_encoding(data: &[u8]) -> (encoding: TextEncoding)
    ensures
        encoding == detected_encoding(data@),
{
    let n = data.len();
    proof {
        if n >= 2 {
            assert(data@.take(2) =~= seq![data@[0], data@[1]]);
        }
        if n >= 3 {
            assert(data@.take(3) =~= seq![data@[0], data@[1], data@[2]]);
        }
    }
    if n >= 2 && data[0] == 0xFF && data[1] == 0xFE {
        return TextEncoding::Utf16Le;
    }
    if n >= 2 && data[0] == 0xFE && data[1] == 0xFF {
        return TextEncoding::Utf16Be;
    }
    if n >= 3 && data[0] == 0xEF && data[1] == 0xBB && data[2] == 0xBF {
        return TextEncoding::Utf8;
    }
    assert(!begins_with(data@, seq![0xFFu8, 0xFEu8])) by {
        if n >= 2 {
            assert(seq![0xFFu8, 0xFEu8][0] == 0xFF && seq![0xFFu8, 0xFEu8][1] == 0xFE);
        }
    }
    assert(!begins_with(data@, seq![0xFEu8, 0xFFu8])) by {
        if n >= 2 {
            assert(seq![0xFEu8, 0xFFu8][0] == 0xFE && seq![0xFEu8, 0xFFu8][1] == 0xFF);
        }
    }
    assert(!begins_with(data@, seq![0xEFu8, 0xBBu8, 0xBFu8])) by {
        if n >= 3 {
            let mark = seq![0xEFu8, 0xBBu8, 0xBFu8];
            assert(mark[0] == 0xEF && mark[1] == 0xBB && mark[2] == 0xBF);
        }
    }
    let mut i: usize = 0;
    while i < n
        invariant
            i <= n,
            n == data@.len(),
            !begins_with(data@, seq![0xFFu8, 0xFEu8]),
            !begins_with(data@, seq![0xFEu8, 0xFFu8]),
            !begins_with(data@, seq![0xEFu8, 0xBBu8, 0xBFu8]),
            forall|j: int| 0 <= j < i ==> data@[j] <= 127,
        decreases n - i,
    {
        if data[i] > 127 {
            return TextEncoding::Windows1252;
        }
        i += 1;
    }
    TextEncoding::Utf8
}

} // verus!
