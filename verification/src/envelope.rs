use vstd::prelude::*;
use vstd::string::StrSliceExecFns;
use vstd::utf8::encode_utf8;

verus! {

/// The lower-case hexadecimal digit for a value from 0 to 15.
pub open spec fn hex_digit(n: int) -> char {
    seq!['0', '1', '2', '3', '4', '5', '6', '7', '8', '9', 'a', 'b', 'c', 'd', 'e', 'f'][n]
}

/// True for the characters that are written as an escape inside an envelope:
/// the quotation mark, the backslash and the control characters below U+0020.
pub open spec fn needs_escape(c: char) -> bool {
    c == '"' || c == '\\' || (c as u32) < 0x20
}

/// How one character of an identifier is written inside an envelope.
///
/// The quotation mark and the backslash are preceded by a backslash; backspace,
/// tab, line feed, form feed and carriage return get their short escapes; every
/// other control character below U+0020 is written as `\u00` and two lower-case
/// hexadecimal digits; every other character stands for itself.
pub open spec fn escape(c: char) -> Seq<char> {
    if c == '"' {
        seq!['\\', '"']
    } else if c == '\\' {
        seq!['\\', '\\']
    } else if c == '\u{8}' {
        seq!['\\', 'b']
    } else if c == '\t' {
        seq!['\\', 't']
    } else if c == '\n' {
        seq!['\\', 'n']
    } else if c == '\u{c}' {
        seq!['\\', 'f']
    } else if c == '\r' {
        seq!['\\', 'r']
    } else if (c as u32) < 0x20 {
        seq!['\\', 'u', '0', '0', hex_digit((c as int) / 16), hex_digit((c as int) % 16)]
    } else {
        seq![c]
    }
}

/// The characters of an identifier, each written as `escape` says.
pub open spec fn escaped(id: Seq<char>) -> Seq<char>
    decreases id.len(),
{
    if id.len() == 0 {
        Seq::empty()
    } else {
        escape(id[0]) + escaped(id.drop_first())
    }
}

/// One identifier as it stands in an envelope: escaped, between quotation marks.
pub open spec fn quoted(id: Seq<char>) -> Seq<char> {
    seq!['"'] + escaped(id) + seq!['"']
}

/// The identifiers of a list in order, quoted and separated by single commas.
pub open spec fn items(ids: Seq<Seq<char>>) -> Seq<char>
    decreases ids.len(),
{
    if ids.len() == 0 {
        Seq::empty()
    } else if ids.len() == 1 {
        quoted(ids[0])
    } else {
        quoted(ids[0]) + seq![','] + items(ids.drop_first())
    }
}

/// The envelope of an ordered list of identifiers: the list as a compact array
/// of strings, with no white space, in the order given.
pub open spec fn envelope_text(ids: Seq<Seq<char>>) -> Seq<char> {
    seq!['['] + items(ids) + seq![']']
}

/// The bytes of an envelope, as they are submitted to the content store.
pub open spec fn envelope_bytes(ids: Seq<Seq<char>>) -> Seq<u8> {
    encode_utf8(envelope_text(ids))
}

/// Renders the list through `serde_json`: `Value::from` turns the vector into
/// an array value of string values, and `to_string`, by the value's `Display`,
/// writes it with the compact formatter.
///
/// The contract is not proved. It claims what `serde_json` writes for an
/// array of strings: an opening bracket, the strings in the order given with
/// a comma and no white space between them, and a closing bracket; each string
/// between quotation marks, with the escapes of `escape` and every other
/// character, whatever its code, as it is.
#[verifier::external_body]
fn json_array(ids: &Vec<String>) -> (text: String)
    ensures
        text@ == envelope_text(ids.deep_view()),
{
    serde_json::Value::from(ids.clone()).to_string()
}

/// Serializes an ordered list of content identifiers into its envelope.
pub fn envelope(ids: &Vec<String>) -> (text: String)
    ensures
        text@ == envelope_text(ids.deep_view()),
{
    json_array(ids)
}

/// Serializes an ordered list of content identifiers into the bytes of its
/// envelope, the input of the next hashing level.
pub fn envelope_request(ids: &Vec<String>) -> (bytes: Vec<u8>)
    ensures
        bytes@ == envelope_bytes(ids.deep_view()),
{
    let text = json_array(ids);
    text.as_str().as_bytes_vec()
}

} // verus!
