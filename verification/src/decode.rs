//! Decoding of the fixed-capacity, NUL-terminated text buffers of the runtime.

use vstd::prelude::*;
use vstd::utf8::{decode_utf8, valid_utf8};

verus! {

/// The bytes of a buffer that carry its text: everything before the first NUL
/// byte, or the whole buffer where it holds none.
pub open spec fn text_bytes(buffer: Seq<u8>) -> Seq<u8> {
    match buffer.index_of_first(0u8) {
        Some(end) => buffer.take(end),
        None => buffer,
    }
}

/// The text of a buffer, where its text bytes are valid UTF-8.
pub open spec fn decoded_text(buffer: Seq<u8>) -> Option<Seq<char>> {
    if valid_utf8(text_bytes(buffer)) {
        Some(decode_utf8(text_bytes(buffer)))
    } else {
        None
    }
}

/// `String::from_utf8` of std. The contract claims what its documentation
/// says: the conversion succeeds exactly on valid UTF-8, and the string then
/// holds the characters that the bytes encode.
#[verifier::external_body]
fn string_from_utf8(bytes: Vec<u8>) -> (text: Option<String>)
    ensures
        match text {
            Some(s) => valid_utf8(bytes@) && s@ == decode_utf8(bytes@),
            None => !valid_utf8(bytes@),
        },
{
    match String::from_utf8(bytes) {
        Ok(text) => Some(text),
        Err(_) => None,
    }
}

/// The number of bytes before the first NUL byte of `buffer`, or its length
/// where it holds none.
pub fn text_length(buffer: &[u8]) -> (length: usize)
    ensures
        length == text_bytes(buffer@).len(),
        length <= buffer@.len(),
        forall|j: int| 0 <= j < length ==> buffer@[j] != 0,
        length < buffer@.len() ==> buffer@[length as int] == 0,
{
    let mut i: usize = 0;
    while i < buffer.len() && buffer[i] != 0
        invariant
            i <= buffer@.len(),
            forall|j: int| 0 <= j < i ==> buffer@[j] != 0,
        decreases buffer@.len() - i,
    {
        i += 1;
    }
    proof {
        buffer@.index_of_first_ensures(0u8);
    }
    i
}

/// Decodes a NUL-terminated buffer into text. The text ends before the first
/// NUL byte, or with the buffer where it holds none; a buffer whose text bytes
/// are not valid UTF-8 is rejected.
pub fn decode_buffer(buffer: &[u8]) -> (text: Option<String>)
    ensures
        match text {
            Some(s) => decoded_text(buffer@) == Some(s@),
            None => decoded_text(buffer@) is None,
        },
{
    let length = text_length(buffer);
    let mut bytes: Vec<u8> = Vec::new();
    let mut i: usize = 0;
    while i < length
        invariant
            i <= length <= buffer@.len(),
            bytes@ == buffer@.take(i as int),
        decreases length - i,
    {
        bytes.push(buffer[i]);
        i += 1;
    }
    proof {
        buffer@.index_of_first_ensures(0u8);
        assert(bytes@ =~= text_bytes(buffer@));
    }
    string_from_utf8(bytes)
}

} // verus!
