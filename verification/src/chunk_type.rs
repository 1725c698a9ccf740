//! The 4-byte type tag: four ASCII letters whose letter case encodes the
//! record's semantic flags.

use vstd::prelude::*;
use vstd::string::StringSliceAdditionalSpecFns;

use crate::error::ChunkError;

verus! {

/// True when `b` is an ASCII uppercase letter, `A` through `Z`.
pub open spec fn spec_is_upper(b: u8) -> bool {
    65 <= b <= 90
}

/// True when `b` is an ASCII lowercase letter, `a` through `z`.
pub open spec fn spec_is_lower(b: u8) -> bool {
    97 <= b <= 122
}

/// True when `b` is an ASCII letter of either case.
pub open spec fn spec_is_letter(b: u8) -> bool {
    spec_is_upper(b) || spec_is_lower(b)
}

/// True when `s` is a well-formed tag: exactly 4 bytes, all ASCII letters.
pub open spec fn spec_tag_wf(s: Seq<u8>) -> bool {
    &&& s.len() == 4
    &&& forall|i: int| 0 <= i < 4 ==> spec_is_letter(#[trigger] s[i])
}

/// The position of the first byte of `s` that is not an ASCII letter,
/// scanning in order; meaningful only when some byte is not a letter.
pub open spec fn spec_first_bad_position(s: Seq<u8>) -> int
    recommends
        s.len() == 4,
        !spec_tag_wf(s),
{
    if !spec_is_letter(s[0]) {
        0
    } else if !spec_is_letter(s[1]) {
        1
    } else if !spec_is_letter(s[2]) {
        2
    } else {
        3
    }
}

/// A validated 4-byte type tag. Every byte is an ASCII letter; the case of
/// each byte carries one semantic flag of the record format.
#[derive(Debug, PartialEq, Eq)]
pub struct ChunkType {
    raw: [u8; 4],
}

impl View for ChunkType {
    type V = Seq<u8>;

    closed spec fn view(&self) -> Seq<u8> {
        self.raw@
    }
}

impl ChunkType {
    /// Well-formedness: the stored bytes satisfy the tag invariant.
    /// Both constructors establish it and no method mutates the tag.
    pub open spec fn wf(&self) -> bool {
        spec_tag_wf(self@)
    }

    /// Validated construction from 4 raw bytes: succeeds exactly when every
    /// byte is an ASCII letter, storing the bytes verbatim; otherwise
    /// reports the first offending byte and its position.
    pub fn from_bytes(raw: [u8; 4]) -> (r: Result<ChunkType, ChunkError>)
        ensures
            spec_tag_wf(raw@) <==> r is Ok,
            !spec_tag_wf(raw@) ==> r == Err::<ChunkType, ChunkError>(
                ChunkError::InvalidTagByte {
                    byte: raw@[spec_first_bad_position(raw@)],
                    position: spec_first_bad_position(raw@) as usize,
                },
            ),
            r matches Ok(t) ==> t@ == raw@ && t.wf(),
    {
        let mut index: usize = 0;
        while index < 4
            invariant
                index <= 4,
                forall|i: int| 0 <= i < index ==> spec_is_letter(#[trigger] raw@[i]),
            decreases 4 - index,
        {
            let byte = raw[index];
            if !((byte >= 65 && byte <= 90) || (byte >= 97 && byte <= 122)) {
                return Err(ChunkError::InvalidTagByte { byte, position: index });
            }
            index += 1;
        }
        Ok(ChunkType { raw })
    }

    /// Validated construction from a string-form tag: rejects any string
    /// whose byte length is not exactly 4 with `WrongTagLength`, then
    /// validates the 4 bytes as [`ChunkType::from_bytes`] does.
    pub fn from_str(tag: &str) -> (r: Result<ChunkType, ChunkError>)
        ensures
            tag.spec_bytes().len() != 4 ==> r == Err::<ChunkType, ChunkError>(
                ChunkError::WrongTagLength { actual: tag.spec_bytes().len() as usize },
            ),
            tag.spec_bytes().len() == 4 && spec_tag_wf(tag.spec_bytes()) ==> (r matches Ok(t)
                && t@ == tag.spec_bytes()),
            tag.spec_bytes().len() == 4 && !spec_tag_wf(tag.spec_bytes()) ==> r == Err::<
                ChunkType,
                ChunkError,
            >(
                ChunkError::InvalidTagByte {
                    byte: tag.spec_bytes()[spec_first_bad_position(tag.spec_bytes())],
                    position: spec_first_bad_position(tag.spec_bytes()) as usize,
                },
            ),
            r matches Ok(t) ==> t@ == tag.spec_bytes() && t.wf(),
    {
        let bytes = tag.as_bytes();
        if bytes.len() != 4 {
            return Err(ChunkError::WrongTagLength { actual: bytes.len() });
        }
        let raw: [u8; 4] = [bytes[0], bytes[1], bytes[2], bytes[3]];
        proof {
            assert(raw@ =~= tag.spec_bytes());
        }
        ChunkType::from_bytes(raw)
    }

    /// The stored bytes, verbatim and case preserved.
    pub fn bytes(&self) -> (r: [u8; 4])
        ensures
            r@ == self@,
    {
        self.raw
    }

    /// Renders the 4 tag bytes as text, one character per byte, case
    /// preserved and never normalized.
    pub fn to_display_string(&self) -> (r: String)
        requires
            self.wf(),
        ensures
            r@ == self@.map(|i: int, b: u8| b as char),
    {
        let raw = self.bytes();
        let mut v: Vec<u8> = Vec::new();
        v.push(raw[0]);
        v.push(raw[1]);
        v.push(raw[2]);
        v.push(raw[3]);
        proof {
            assert(v@ =~= self@);
            crate::text::lemma_ascii_decode(v@);
        }
        match crate::text::utf8_from(v.as_slice()) {
            Some(s) => s.to_owned(),
            None => {
                proof {
                    assert(false);
                }
                String::new()
            },
        }
    }

    /// The critical flag: byte 0 is uppercase.
    pub fn is_critical(&self) -> (r: bool)
        ensures
            r == spec_is_upper(self@[0]),
    {
        self.raw[0] >= 65 && self.raw[0] <= 90
    }

    /// The public flag: byte 1 is uppercase.
    pub fn is_public(&self) -> (r: bool)
        ensures
            r == spec_is_upper(self@[1]),
    {
        self.raw[1] >= 65 && self.raw[1] <= 90
    }

    /// The reserved-bit flag: byte 2 is uppercase. The format reserves this
    /// bit and calls a tag valid only when it is set.
    pub fn is_valid(&self) -> (r: bool)
        ensures
            r == spec_is_upper(self@[2]),
    {
        self.raw[2] >= 65 && self.raw[2] <= 90
    }

    /// The safe-to-copy flag: byte 3 is lowercase.
    pub fn is_safe_to_copy(&self) -> (r: bool)
        ensures
            r == spec_is_lower(self@[3]),
    {
        self.raw[3] >= 97 && self.raw[3] <= 122
    }

    /// The reserved-bit flag under its long name; same predicate as
    /// [`ChunkType::is_valid`].
    pub fn is_reserved_bit_valid(&self) -> (r: bool)
        ensures
            r == spec_is_upper(self@[2]),
    {
        self.is_valid()
    }
}

} // verus!
