use vstd::prelude::*;
use vstd::string::StrSliceExecFns;
use vstd::utf8::encode_utf8;

verus! {

/// The text a cell stands for: its value, or the empty text when the value is missing.
pub open spec fn cell_text(cell: Option<Seq<char>>) -> Seq<char> {
    match cell {
        Some(text) => text,
        None => Seq::empty(),
    }
}

/// The canonical bytes of a cell: the UTF-8 encoding of its text, with no
/// escaping, delimiter or marker for a missing value.
pub open spec fn cell_bytes(cell: Option<Seq<char>>) -> Seq<u8> {
    encode_utf8(cell_text(cell))
}

/// Encodes one nullable cell into the bytes that are submitted to the content store.
pub fn encode_cell(cell: &Option<String>) -> (bytes: Vec<u8>)
    ensures
        bytes@ == cell_bytes(cell.deep_view()),
{
    match cell {
        Some(text) => text.as_str().as_bytes_vec(),
        None => Vec::new(),
    }
}

} // verus!
