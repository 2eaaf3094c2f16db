//! The runtime status as the command surface reports it.

use substring::Substring;
use vstd::prelude::*;
use vstd::utf8::is_ascii_chars;

verus! {

/// The characters of `text` from position `start` up to position `end`, both
/// counted in characters and cut off at the end of the text; nothing where
/// `end` is not after `start`.
pub open spec fn char_range(text: Seq<char>, start: int, end: int) -> Seq<char> {
    if end <= start {
        Seq::empty()
    } else {
        text.subrange(
            if start < text.len() { start } else { text.len() as int },
            if end < text.len() { end } else { text.len() as int },
        )
    }
}

/// `Substring::substring` of the crate `substring`, as implemented for `str`.
/// The contract claims what its source shows: the slice of the characters
/// from `start_index` up to `end_index`, where an index past the last
/// character stands for the end of the text, and the empty slice where
/// `end_index` is not after `start_index`.
#[verifier::external_body]
fn substring<'a>(text: &'a str, start_index: usize, end_index: usize) -> (part: &'a str)
    ensures
        part@ == char_range(text@, start_index as int, end_index as int),
{
    text.substring(start_index, end_index)
}

/// A serialized status without its first character and, counted from the
/// length in bytes, its last: for a quoted name, the name.
pub open spec fn unquoted(serialized: Seq<char>) -> Seq<char> {
    let length = vstd::utf8::encode_utf8(serialized).len();
    if length == 0 {
        Seq::empty()
    } else {
        char_range(serialized, 1, length - 1)
    }
}

/// The status of the runtime connection as bare text, from its serialized
/// form: a name in double quotes.
pub fn openvr_status(serialized: &str) -> (status: String)
    ensures
        status@ == unquoted(serialized@),
        is_ascii_chars(serialized@) && serialized@.len() >= 2 ==> status@ == serialized@.subrange(
            1,
            serialized@.len() - 1,
        ),
{
    let length = serialized.as_bytes().len();
    if length == 0 {
        let status = String::new();
        proof {
            if is_ascii_chars(serialized@) {
                vstd::utf8::is_ascii_chars_encode_utf8(serialized@);
            }
        }
        return status;
    }
    let status = substring(serialized, 1, length - 1).to_owned();
    proof {
        if is_ascii_chars(serialized@) && serialized@.len() >= 2 {
            vstd::utf8::is_ascii_chars_encode_utf8(serialized@);
        }
    }
    status
}

} // verus!
