//! Positions as the editor counts them (line, and UTF-16 code units in the
//! line) and UTF-8 byte offsets of the document, converted by
//! `lsp-textdocument`.

use vstd::prelude::*;
use vstd::string::*;

verus! {

/// The byte offset `lsp-textdocument` gives a position of a text.
pub uninterp spec fn utf16_offset(text: Seq<char>, line: u32, character: u32) -> u32;

/// The position (line, character) `lsp-textdocument` gives a byte offset
/// of a text.
pub uninterp spec fn utf16_position(text: Seq<char>, offset: u32) -> (u32, u32);

/// `FullTextDocument::offset_at` on a document holding `text`: the byte
/// offset of the position; past the end of a line, the line's end; past
/// the last line, the end of the text. The result is at most the text's
/// length. (Building the document panics for a text of `u32::MAX` bytes
/// or more, hence the bound.)
#[verifier::external_body]
fn offset_at(text: &str, line: u32, character: u32) -> (r: u32)
    requires
        text.spec_bytes().len() < u32::MAX,
    ensures
        r == utf16_offset(text@, line, character),
        r <= text.spec_bytes().len(),
{
    let doc = lsp_textdocument::FullTextDocument::new(String::new(), 0, text.to_string());
    doc.offset_at(lsp_types::Position { line, character })
}

/// The longest text whose offsets convert to positions: below 2^31 bytes.
/// `FullTextDocument::position_at` binary-searches its line table with
/// `(low + high) / 2` on `u32`, which stays in range only while the text
/// has at most 2^31 lines.
pub open spec fn positionable(text: &str) -> bool {
    text.spec_bytes().len() < 0x8000_0000
}

/// `FullTextDocument::position_at` on a document holding `text`. Nothing
/// more than its name is stated of the position. (For longer texts the
/// search's midpoint overflows; see `positionable`.)
#[verifier::external_body]
fn position_at(text: &str, offset: u32) -> (r: (u32, u32))
    requires
        positionable(text),
    ensures
        r == utf16_position(text@, offset),
{
    let doc = lsp_textdocument::FullTextDocument::new(String::new(), 0, text.to_string());
    let p = doc.position_at(offset);
    (p.line, p.character)
}

/// An editor position as a byte offset of `text`, within the text.
pub fn lsp_position_to_byte(text: &str, line: u32, character: u32) -> (r: usize)
    requires
        text.spec_bytes().len() < u32::MAX,
    ensures
        r == utf16_offset(text@, line, character),
        r <= text.spec_bytes().len(),
{
    offset_at(text, line, character) as usize
}

/// A byte offset of `text` as an editor position; an offset beyond
/// `u32::MAX` wraps as the cast to `u32` does.
pub fn byte_to_lsp_position(text: &str, byte_offset: usize) -> (r: (u32, u32))
    requires
        positionable(text),
    ensures
        r == utf16_position(text@, byte_offset as u32),
{
    #[verifier::truncate]
    let offset = byte_offset as u32;
    position_at(text, offset)
}

/// A byte range of `text` as a range of editor positions.
pub fn byte_range_to_lsp(text: &str, start: usize, end: usize) -> (r: ((u32, u32), (u32, u32)))
    requires
        positionable(text),
    ensures
        r == (utf16_position(text@, start as u32), utf16_position(text@, end as u32)),
{
    (byte_to_lsp_position(text, start), byte_to_lsp_position(text, end))
}

} // verus!
