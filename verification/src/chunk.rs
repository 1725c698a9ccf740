//! The record itself: a validated type tag, a payload, and the CRC-32
//! checksum that binds them together on the wire.
//!
//! Wire layout, big-endian throughout: 4 bytes of payload length, 4 bytes
//! of type tag, the payload, and 4 bytes of CRC-32 computed over the tag
//! and the payload.

use vstd::prelude::*;
use vstd::utf8::{decode_utf8, valid_utf8};

use crate::be32::{
    lemma_be32_decode_encode, lemma_be32_decode_injective, push_be32, read_be32, spec_be32_decode,
    spec_be32_encode,
};
use crate::chunk_type::{spec_first_bad_position, spec_tag_wf, ChunkType};
use crate::error::ChunkError;
use crate::text::utf8_from;

verus! {

/// The CRC-32 checksum (ISO-HDLC polynomial, the PNG/zlib variant) of a
/// byte sequence. The algorithm is not restated here: the name stands for
/// the checksum of the bytes, whatever it is, and the executable [`crc`]
/// computes it.
pub uninterp spec fn spec_crc32(bytes: Seq<u8>) -> u32;

/// Computes the CRC-32/ISO-HDLC checksum of `bytes`.
///
/// Relies on `crc::Crc::<u32>::new(&crc::CRC_32_ISO_HDLC)`: a pure,
/// deterministic digest of the bytes alone, using the PNG/zlib polynomial.
#[verifier::external_body]
pub fn crc(bytes: &[u8]) -> (r: u32)
    ensures
        r == spec_crc32(bytes@),
{
    let algo = crc::Crc::<u32>::new(&crc::CRC_32_ISO_HDLC);
    let mut digest = algo.digest();
    digest.update(bytes);
    digest.finalize()
}

/// The mathematical content of a record: the four fields the wire layout
/// stores.
pub ghost struct ChunkModel {
    pub length: u32,
    pub tag: Seq<u8>,
    pub payload: Seq<u8>,
    pub crc: u32,
}

/// The serialized form of a record: length, tag, payload, checksum.
pub open spec fn spec_serialize(m: ChunkModel) -> Seq<u8> {
    spec_be32_encode(m.length) + m.tag + m.payload + spec_be32_encode(m.crc)
}

/// What parsing a byte buffer yields: the record's fields, or the first
/// failure of the validation sequence. Checks, in order: a 12-byte minimum
/// (length, tag and checksum fields with an empty payload), the tag bytes,
/// room for the declared payload and the trailing checksum, and the
/// checksum itself, read from the 4 bytes right after the payload.
pub open spec fn spec_parse(b: Seq<u8>) -> Result<ChunkModel, ChunkError> {
    if b.len() < 12 {
        Err(ChunkError::TooShort)
    } else {
        let length = spec_be32_decode(b.subrange(0, 4));
        let tag = b.subrange(4, 8);
        if !spec_tag_wf(tag) {
            Err(
                ChunkError::InvalidTagByte {
                    byte: tag[spec_first_bad_position(tag)],
                    position: spec_first_bad_position(tag) as usize,
                },
            )
        } else if b.len() < 12 + length {
            Err(ChunkError::TooShort)
        } else {
            let payload = b.subrange(8, 8 + length);
            let expected = spec_crc32(tag + payload);
            let found = spec_be32_decode(b.subrange(8 + length, 12 + length));
            if found != expected {
                Err(ChunkError::ChecksumMismatch { expected, found })
            } else {
                Ok(ChunkModel { length, tag, payload, crc: found })
            }
        }
    }
}

/// A record: declared length, validated type tag, payload bytes, and the
/// CRC-32 checksum over tag and payload.
#[derive(Debug, PartialEq, Eq)]
pub struct Chunk {
    data_size: u32,
    chunk_type: ChunkType,
    chunk_data: Vec<u8>,
    crc: u32,
}

/// The concatenation of the tag bytes and the payload bytes: the byte
/// sequence the checksum is computed over.
fn tag_and_payload(chunk_type: &ChunkType, data: &Vec<u8>) -> (r: Vec<u8>)
    ensures
        r@ == chunk_type@ + data@,
{
    let tag = chunk_type.bytes();
    let mut out: Vec<u8> = Vec::new();
    out.push(tag[0]);
    out.push(tag[1]);
    out.push(tag[2]);
    out.push(tag[3]);
    proof {
        assert(out@ =~= chunk_type@ + data@.subrange(0, 0));
    }
    let mut i: usize = 0;
    while i < data.len()
        invariant
            i <= data@.len(),
            out@ == chunk_type@ + data@.subrange(0, i as int),
        decreases data@.len() - i,
    {
        out.push(data[i]);
        proof {
            assert(out@ =~= chunk_type@ + data@.subrange(0, i + 1));
        }
        i += 1;
    }
    proof {
        assert(out@ =~= chunk_type@ + data@);
    }
    out
}

impl Chunk {
    /// The declared payload length.
    pub closed spec fn spec_length(&self) -> u32 {
        self.data_size
    }

    /// The 4 tag bytes.
    pub closed spec fn spec_tag(&self) -> Seq<u8> {
        self.chunk_type@
    }

    /// The payload bytes.
    pub closed spec fn spec_payload(&self) -> Seq<u8> {
        self.chunk_data@
    }

    /// The stored checksum.
    pub closed spec fn spec_crc(&self) -> u32 {
        self.crc
    }

    /// The record's mathematical content.
    pub open spec fn model(&self) -> ChunkModel {
        ChunkModel {
            length: self.spec_length(),
            tag: self.spec_tag(),
            payload: self.spec_payload(),
            crc: self.spec_crc(),
        }
    }

    /// Well-formedness: the declared length counts the payload bytes, the
    /// tag is 4 ASCII letters, and the checksum is the CRC-32 of tag and
    /// payload. Both constructors establish it and no method mutates a
    /// record.
    pub open spec fn wf(&self) -> bool {
        &&& self.spec_length() == self.spec_payload().len()
        &&& spec_tag_wf(self.spec_tag())
        &&& self.spec_crc() == spec_crc32(self.spec_tag() + self.spec_payload())
    }

    /// Builds a record from a tag and a payload, computing the checksum.
    /// The payload must fit the 32-bit length field; [`Chunk::create`]
    /// checks that bound and reports `PayloadTooLarge` instead.
    pub fn new(chunk_type: ChunkType, data: Vec<u8>) -> (r: Chunk)
        requires
            chunk_type.wf(),
            data@.len() <= u32::MAX,
        ensures
            r.wf(),
            r.spec_length() == data@.len(),
            r.spec_tag() == chunk_type@,
            r.spec_payload() == data@,
            r.spec_crc() == spec_crc32(chunk_type@ + data@),
    {
        let checksum_input = tag_and_payload(&chunk_type, &data);
        let crc_value = crc(checksum_input.as_slice());
        let data_size = data.len() as u32;
        Chunk { data_size, chunk_type, chunk_data: data, crc: crc_value }
    }

    /// Builds a record from a tag and a payload of any size: succeeds
    /// exactly when the payload fits the 32-bit length field, and reports
    /// `PayloadTooLarge` otherwise.
    pub fn create(chunk_type: ChunkType, data: Vec<u8>) -> (r: Result<Chunk, ChunkError>)
        requires
            chunk_type.wf(),
        ensures
            data@.len() <= u32::MAX <==> r is Ok,
            r matches Ok(c) ==> c.wf() && c.spec_length() == data@.len() && c.spec_tag()
                == chunk_type@ && c.spec_payload() == data@ && c.spec_crc() == spec_crc32(
                chunk_type@ + data@,
            ),
            r matches Err(e) ==> e == ChunkError::PayloadTooLarge,
    {
        if data.len() > u32::MAX as usize {
            return Err(ChunkError::PayloadTooLarge);
        }
        Ok(Chunk::new(chunk_type, data))
    }

    /// Parses a complete candidate record, validating framing, tag and
    /// checksum exactly as [`spec_parse`] states; no record exists in a
    /// partially-invalid state.
    pub fn parse(bytes: &[u8]) -> (r: Result<Chunk, ChunkError>)
        ensures
            r is Ok <==> spec_parse(bytes@) is Ok,
            r matches Ok(c) ==> spec_parse(bytes@) == Ok::<ChunkModel, ChunkError>(c.model())
                && c.wf(),
            r matches Err(e) ==> spec_parse(bytes@) == Err::<ChunkModel, ChunkError>(e),
    {
        if bytes.len() < 12 {
            return Err(ChunkError::TooShort);
        }
        let length = read_be32(bytes, 0);
        let tag_raw: [u8; 4] = [bytes[4], bytes[5], bytes[6], bytes[7]];
        proof {
            assert(tag_raw@ =~= bytes@.subrange(4, 8));
        }
        let chunk_type = match ChunkType::from_bytes(tag_raw) {
            Ok(t) => t,
            Err(e) => {
                return Err(e);
            },
        };
        let length_us = length as usize;
        if length_us > bytes.len() - 12 {
            return Err(ChunkError::TooShort);
        }
        let mut payload: Vec<u8> = Vec::new();
        let mut i: usize = 0;
        while i < length_us
            invariant
                i <= length_us,
                length_us == length,
                12 + length_us <= bytes@.len(),
                bytes@.len() <= usize::MAX,
                payload@ == bytes@.subrange(8, 8 + i as int),
            decreases length_us - i,
        {
            payload.push(bytes[8 + i]);
            proof {
                assert(payload@ =~= bytes@.subrange(8, 8 + (i + 1)));
            }
            i += 1;
        }
        let checksum_input = tag_and_payload(&chunk_type, &payload);
        let expected = crc(checksum_input.as_slice());
        let found = read_be32(bytes, 8 + length_us);
        if found != expected {
            return Err(ChunkError::ChecksumMismatch { expected, found });
        }
        Ok(Chunk { data_size: length, chunk_type, chunk_data: payload, crc: found })
    }

    /// Serializes the record to its wire form; the byte-exact inverse of
    /// [`Chunk::parse`], as [`lemma_round_trip`] states.
    pub fn serialize(&self) -> (r: Vec<u8>)
        ensures
            r@ == spec_serialize(self.model()),
    {
        let mut out: Vec<u8> = Vec::new();
        push_be32(&mut out, self.data_size);
        let tag = self.chunk_type.bytes();
        out.push(tag[0]);
        out.push(tag[1]);
        out.push(tag[2]);
        out.push(tag[3]);
        proof {
            assert(out@ =~= spec_be32_encode(self.spec_length()) + self.spec_tag()
                + self.spec_payload().subrange(0, 0));
        }
        let mut i: usize = 0;
        while i < self.chunk_data.len()
            invariant
                i <= self.spec_payload().len(),
                out@ == spec_be32_encode(self.spec_length()) + self.spec_tag()
                    + self.spec_payload().subrange(0, i as int),
            decreases self.spec_payload().len() - i,
        {
            out.push(self.chunk_data[i]);
            proof {
                assert(out@ =~= spec_be32_encode(self.spec_length()) + self.spec_tag()
                    + self.spec_payload().subrange(0, i + 1));
            }
            i += 1;
        }
        push_be32(&mut out, self.crc);
        proof {
            assert(out@ =~= spec_serialize(self.model()));
        }
        out
    }

    /// The stored checksum.
    pub fn crc(&self) -> (r: u32)
        ensures
            r == self.spec_crc(),
    {
        self.crc
    }

    /// The declared payload length.
    pub fn length(&self) -> (r: u32)
        ensures
            r == self.spec_length(),
    {
        self.data_size
    }

    /// The record's type tag.
    pub fn chunk_type(&self) -> (r: &ChunkType)
        ensures
            r@ == self.spec_tag(),
    {
        &self.chunk_type
    }

    /// Reads the payload as UTF-8 text: succeeds exactly when the payload
    /// is a valid UTF-8 encoding, returning the text it encodes, and
    /// reports `InvalidUtf8` otherwise. The format itself is
    /// payload-agnostic; this is the one text-display path, and rendering
    /// a record displays exactly this text.
    pub fn data_as_string(&self) -> (r: Result<&str, ChunkError>)
        ensures
            r is Ok <==> valid_utf8(self.spec_payload()),
            r matches Ok(s) ==> s@ == decode_utf8(self.spec_payload()),
            r matches Err(e) ==> e == ChunkError::InvalidUtf8,
    {
        match utf8_from(self.chunk_data.as_slice()) {
            Some(s) => Ok(s),
            None => Err(ChunkError::InvalidUtf8),
        }
    }
}

/// Round trip: parsing the serialized form of any well-formed record
/// succeeds and yields a record identical in every field.
pub proof fn lemma_round_trip(c: Chunk)
    requires
        c.wf(),
    ensures
        spec_parse(spec_serialize(c.model())) == Ok::<ChunkModel, ChunkError>(c.model()),
{
    let m = c.model();
    let b = spec_serialize(m);
    let l = m.payload.len() as int;
    assert(b.len() == 12 + l);
    assert(b.subrange(0, 4) =~= spec_be32_encode(m.length));
    lemma_be32_decode_encode(m.length);
    assert(b.subrange(4, 8) =~= m.tag);
    assert(b.subrange(8, 8 + l) =~= m.payload);
    assert(b.subrange(8 + l, 12 + l) =~= spec_be32_encode(m.crc));
    lemma_be32_decode_encode(m.crc);
}

/// `b` with bit `k` of byte `i` inverted.
pub open spec fn spec_flip_bit(b: Seq<u8>, i: int, k: u8) -> Seq<u8>
    recommends
        0 <= i < b.len(),
        k < 8,
{
    b.update(i, b[i] ^ (1u8 << k))
}

/// Tamper detection, checksum region: flipping any single bit of the
/// trailing checksum of a serialized record makes parsing fail with
/// `ChecksumMismatch`, reporting the recomputed checksum (unchanged) as
/// expected and the corrupted value as found.
pub proof fn lemma_bit_flip_in_checksum_detected(c: Chunk, i: int, k: u8)
    requires
        c.wf(),
        8 + c.spec_payload().len() <= i < 12 + c.spec_payload().len(),
        k < 8,
    ensures
        ({
            let b = spec_flip_bit(spec_serialize(c.model()), i, k);
            let l = c.spec_payload().len() as int;
            &&& spec_be32_decode(b.subrange(8 + l, 12 + l)) != c.spec_crc()
            &&& spec_parse(b) == Err::<ChunkModel, ChunkError>(
                ChunkError::ChecksumMismatch {
                    expected: c.spec_crc(),
                    found: spec_be32_decode(b.subrange(8 + l, 12 + l)),
                },
            )
        }),
{
    let m = c.model();
    let s = spec_serialize(m);
    let b = spec_flip_bit(s, i, k);
    let l = m.payload.len() as int;
    let x = s[i];
    assert((x ^ (1u8 << k)) != x) by (bit_vector)
        requires
            k < 8,
    ;
    assert(b.len() == 12 + l);
    assert(b.subrange(0, 4) =~= spec_be32_encode(m.length));
    lemma_be32_decode_encode(m.length);
    assert(b.subrange(4, 8) =~= m.tag);
    assert(b.subrange(8, 8 + l) =~= m.payload);
    let crc_old = s.subrange(8 + l, 12 + l);
    let crc_new = b.subrange(8 + l, 12 + l);
    assert(crc_old =~= spec_be32_encode(m.crc));
    lemma_be32_decode_encode(m.crc);
    assert(crc_new[i - (8 + l)] == (x ^ (1u8 << k)));
    assert(crc_old[i - (8 + l)] == x);
    assert(crc_new != crc_old);
    lemma_be32_decode_injective(crc_new, crc_old);
    assert(b.subrange(4, 8) + b.subrange(8, 8 + l) == m.tag + m.payload);
}

/// Tamper detection, tag and payload regions: flipping any single bit
/// there makes parsing fail with `ChecksumMismatch`, reporting the
/// recomputed checksum as expected and the stored one as found — provided
/// the flip leaves the tag bytes ASCII letters (a flip that breaks a tag
/// byte is rejected earlier, as `InvalidTagByte`) and the corrupted bytes
/// do not collide under CRC-32 (parsing never crashes either way).
pub proof fn lemma_bit_flip_in_body_detected(c: Chunk, i: int, k: u8)
    requires
        c.wf(),
        4 <= i < 8 + c.spec_payload().len(),
        k < 8,
        ({
            let b = spec_flip_bit(spec_serialize(c.model()), i, k);
            let l = c.spec_payload().len() as int;
            &&& spec_tag_wf(b.subrange(4, 8))
            &&& spec_crc32(b.subrange(4, 8 + l)) != c.spec_crc()
        }),
    ensures
        ({
            let b = spec_flip_bit(spec_serialize(c.model()), i, k);
            let l = c.spec_payload().len() as int;
            spec_parse(b) == Err::<ChunkModel, ChunkError>(
                ChunkError::ChecksumMismatch {
                    expected: spec_crc32(b.subrange(4, 8 + l)),
                    found: c.spec_crc(),
                },
            )
        }),
{
    let m = c.model();
    let s = spec_serialize(m);
    let b = spec_flip_bit(s, i, k);
    let l = m.payload.len() as int;
    assert(b.len() == 12 + l);
    assert(b.subrange(0, 4) =~= spec_be32_encode(m.length));
    lemma_be32_decode_encode(m.length);
    assert(b.subrange(8 + l, 12 + l) =~= spec_be32_encode(m.crc));
    lemma_be32_decode_encode(m.crc);
    assert(b.subrange(4, 8) + b.subrange(8, 8 + l) =~= b.subrange(4, 8 + l));
}

} // verus!
