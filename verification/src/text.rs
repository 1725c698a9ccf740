//! Reading byte sequences as UTF-8 text, stated against vstd's UTF-8 model.

use vstd::prelude::*;
use vstd::utf8::{
    codepoint_width_1, decode_first_codepoint, decode_first_scalar, decode_utf8,
    is_leading_byte_width_1, leading_bits_width_1, length_of_first_codepoint,
    length_of_first_scalar, pop_first_scalar, valid_first_scalar,
    valid_leading_and_continuation_bytes_first_codepoint, valid_utf8,
};

verus! {

/// Reads `bytes` as UTF-8 text.
///
/// Relies on `core::str::from_utf8`: it succeeds exactly when the bytes are
/// a valid UTF-8 encoding, and then returns the text they encode.
#[verifier::external_body]
pub(crate) fn utf8_from(bytes: &[u8]) -> (r: Option<&str>)
    ensures
        r is Some <==> valid_utf8(bytes@),
        r matches Some(s) ==> s@ == decode_utf8(bytes@),
{
    core::str::from_utf8(bytes).ok()
}

/// A sequence of bytes below `0x80` is valid UTF-8 and decodes to those
/// bytes read as characters, one character per byte.
pub proof fn lemma_ascii_decode(bytes: Seq<u8>)
    requires
        forall|i: int| 0 <= i < bytes.len() ==> #[trigger] bytes[i] < 0x80,
    ensures
        valid_utf8(bytes),
        decode_utf8(bytes) == bytes.map(|i: int, b: u8| b as char),
    decreases bytes.len(),
{
    let mapped = bytes.map(|i: int, b: u8| b as char);
    if bytes.len() == 0 {
        assert(decode_utf8(bytes) =~= mapped);
    } else {
        let b0 = bytes[0];
        assert(is_leading_byte_width_1(b0));
        assert(valid_leading_and_continuation_bytes_first_codepoint(bytes));
        assert(b0 < 0x80 ==> (b0 & 0x7f) == b0) by (bit_vector);
        assert(decode_first_codepoint(bytes) == b0 as u32);
        assert(length_of_first_codepoint(bytes) == 1);
        assert(valid_first_scalar(bytes));
        let rest = pop_first_scalar(bytes);
        assert(rest =~= bytes.subrange(1, bytes.len() as int));
        lemma_ascii_decode(rest);
        assert(valid_utf8(bytes));
        assert(decode_utf8(bytes) == seq![(b0 as u32) as char] + decode_utf8(rest));
        assert((b0 as u32) as char == b0 as char);
        assert(decode_utf8(bytes) =~= mapped);
    }
}

} // verus!
