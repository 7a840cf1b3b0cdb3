//! One PNG chunk and its wire codec.
//!
//! On the wire a chunk is the big-endian byte count of its payload, the four
//! type-code bytes, the payload itself, and a CRC-32 over type code and
//! payload.  A chunk value owns its type code and payload; length and CRC
//! are computed on demand, never stored, so they cannot go stale.  Parsing
//! recomputes the CRC and rejects mismatches, and it treats a declared
//! length that runs past the input as a recoverable error rather than
//! reading out of bounds.

use vstd::prelude::*;

verus! {

use crate::big_endian::{
    lemma_u32_be_bytes_roundtrip, push_u32_be, read_u32_be, spec_u32_from_be_bytes,
    spec_u32_to_be_bytes,
};
use crate::checksum::{crc32_checksum, crc32_of};
use crate::chunk_type::ChunkType;
use crate::text::{
    all_ascii_bytes, bytes_to_string, lemma_ascii_bytes_decode, lemma_dec_digits_ascii, push_dec,
    spec_dec_digits,
};
use vstd::slice::{slice_subrange, slice_to_vec};
use vstd::utf8::{decode_utf8, encode_utf8, encode_utf8_valid_utf8, valid_utf8, valid_utf8_concat};

/// Why a chunk could not be parsed from bytes, or its payload not read as
/// text.
#[derive(Debug)]
pub enum ChunkError {
    /// The stored CRC does not match the one recomputed over type code and
    /// payload.
    InvalidCRC,
    /// The four type-code bytes are not all ASCII.
    InvalidChunkType,
    /// The input ends before the declared length and trailing CRC.
    Truncated,
    /// The payload is not valid UTF-8 text.
    NotUtf8,
}

/// The mathematical content of a chunk: its type-code bytes and payload.
pub struct ChunkModel {
    pub type_code: Seq<u8>,
    pub data: Seq<u8>,
}

impl ChunkModel {
    /// Four ASCII type-code bytes, and a payload whose length fits the
    /// four-byte length field.
    pub open spec fn wf(&self) -> bool {
        &&& self.type_code.len() == 4
        &&& all_ascii_bytes(self.type_code)
        &&& self.data.len() <= 0xffff_ffff
    }

    /// The wire form: length, type code, payload, CRC.
    pub open spec fn wire_bytes(&self) -> Seq<u8> {
        spec_u32_to_be_bytes(self.data.len() as u32) + self.type_code + self.data
            + spec_u32_to_be_bytes(crc32_of(self.type_code + self.data))
    }
}

/// A PNG chunk: a type code and an opaque payload.
#[derive(Debug, Clone)]
pub struct Chunk {
    chunk_type: ChunkType,
    data: Vec<u8>,
}

/// The payload length declared by the first four bytes of a chunk's wire
/// form.
pub open spec fn spec_front_data_len(b: Seq<u8>) -> int
    recommends
        b.len() >= 4,
{
    spec_u32_from_be_bytes(b.subrange(0, 4)) as int
}

/// The number of bytes the chunk at the front of `b` occupies.
pub open spec fn spec_chunk_front_size(b: Seq<u8>) -> int
    recommends
        b.len() >= 4,
{
    12 + spec_front_data_len(b)
}

/// True when `b` starts with a complete, well-formed chunk: the declared
/// payload and the CRC fit in `b`, the type code is ASCII, and the stored
/// CRC equals the one computed over type code and payload.
pub open spec fn spec_chunk_front_ok(b: Seq<u8>) -> bool {
    &&& b.len() >= 8
    &&& all_ascii_bytes(b.subrange(4, 8))
    &&& b.len() >= spec_chunk_front_size(b)
    &&& spec_u32_from_be_bytes(
        b.subrange(8 + spec_front_data_len(b), 12 + spec_front_data_len(b)),
    ) == crc32_of(b.subrange(4, 8 + spec_front_data_len(b)))
}

/// The chunk at the front of `b`, assuming `spec_chunk_front_ok(b)`.
pub open spec fn spec_chunk_front(b: Seq<u8>) -> ChunkModel
    recommends
        spec_chunk_front_ok(b),
{
    ChunkModel {
        type_code: b.subrange(4, 8),
        data: b.subrange(8, 8 + spec_front_data_len(b)),
    }
}

/// The error reported for a byte sequence that does not start with a
/// well-formed chunk, mirroring the order in which parsing checks it.
pub open spec fn spec_chunk_front_err(b: Seq<u8>) -> ChunkError
    recommends
        !spec_chunk_front_ok(b),
{
    if b.len() < 8 {
        ChunkError::Truncated
    } else if !all_ascii_bytes(b.subrange(4, 8)) {
        ChunkError::InvalidChunkType
    } else if b.len() < spec_chunk_front_size(b) {
        ChunkError::Truncated
    } else {
        ChunkError::InvalidCRC
    }
}

/// The description of a chunk, as bytes: six lines giving its payload
/// length, type text, payload size and CRC.
pub open spec fn spec_chunk_line(c: ChunkModel) -> Seq<u8> {
    encode_utf8("Chunk {\n  Length: "@) + spec_dec_digits(c.data.len() as int) + encode_utf8(
        "\n  Type: "@,
    ) + c.type_code + encode_utf8("\n  Data: "@) + spec_dec_digits(c.data.len() as int)
        + encode_utf8(" bytes\n  Crc: "@) + spec_dec_digits(crc32_of(c.type_code + c.data) as int)
        + encode_utf8("\n}\n"@)
}

/// The description line of a well-formed chunk is valid UTF-8.
pub proof fn lemma_chunk_line_utf8(c: ChunkModel)
    requires
        c.wf(),
    ensures
        valid_utf8(spec_chunk_line(c)),
{
    broadcast use valid_utf8_concat, encode_utf8_valid_utf8;

    let len_digits = spec_dec_digits(c.data.len() as int);
    let crc_digits = spec_dec_digits(crc32_of(c.type_code + c.data) as int);
    lemma_dec_digits_ascii(c.data.len() as int);
    lemma_dec_digits_ascii(crc32_of(c.type_code + c.data) as int);
    lemma_ascii_bytes_decode(len_digits);
    lemma_ascii_bytes_decode(crc_digits);
    lemma_ascii_bytes_decode(c.type_code);
    let s1 = encode_utf8("Chunk {\n  Length: "@) + len_digits;
    assert(valid_utf8(s1));
    let s2 = s1 + encode_utf8("\n  Type: "@);
    assert(valid_utf8(s2));
    let s3 = s2 + c.type_code;
    assert(valid_utf8(s3));
    let s4 = s3 + encode_utf8("\n  Data: "@);
    assert(valid_utf8(s4));
    let s5 = s4 + len_digits;
    assert(valid_utf8(s5));
    let s6 = s5 + encode_utf8(" bytes\n  Crc: "@);
    assert(valid_utf8(s6));
    let s7 = s6 + crc_digits;
    assert(valid_utf8(s7));
    let s8 = s7 + encode_utf8("\n}\n"@);
    assert(valid_utf8(s8));
    assert(spec_chunk_line(c) == s8);
}

impl View for Chunk {
    type V = ChunkModel;

    closed spec fn view(&self) -> ChunkModel {
        ChunkModel { type_code: self.chunk_type@, data: self.data@ }
    }
}

impl Chunk {
    /// The chunk's model is well formed; established by both constructors.
    pub open spec fn wf(&self) -> bool {
        self@.wf()
    }

    /// Builds a chunk from a type code and a payload.  Always succeeds: the
    /// type code need not be spec-valid, so deliberately non-conforming
    /// marker chunks can be built.
    pub fn new(chunk_type: ChunkType, data: Vec<u8>) -> (r: Chunk)
        requires
            chunk_type.wf(),
            data@.len() <= 0xffff_ffff,
        ensures
            r@ == (ChunkModel { type_code: chunk_type@, data: data@ }),
            r.wf(),
    {
        Chunk { chunk_type, data }
    }

    /// The byte count of the payload.
    pub fn length(&self) -> (r: u32)
        requires
            self.wf(),
        ensures
            r == self@.data.len(),
    {
        self.data.len() as u32
    }

    /// The CRC-32 over the type-code bytes followed by the payload.
    pub fn crc(&self) -> (r: u32)
        requires
            self.wf(),
        ensures
            r == crc32_of(self@.type_code + self@.data),
    {
        let t = self.chunk_type.bytes();
        let mut buf: Vec<u8> = Vec::new();
        buf.push(t[0]);
        buf.push(t[1]);
        buf.push(t[2]);
        buf.push(t[3]);
        buf.extend_from_slice(self.data.as_slice());
        proof {
            assert(buf@ =~= self@.type_code + self@.data);
        }
        crc32_checksum(buf.as_slice())
    }

    /// The chunk's type code.
    pub fn chunk_type(&self) -> (r: &ChunkType)
        ensures
            r@ == self@.type_code,
            self.wf() ==> r.wf(),
    {
        &self.chunk_type
    }

    /// The raw payload bytes.
    pub fn data(&self) -> (r: &[u8])
        ensures
            r@ == self@.data,
    {
        self.data.as_slice()
    }

    /// The payload read as text; fails when it is not valid UTF-8.
    pub fn data_as_string(&self) -> (r: Result<String, ChunkError>)
        ensures
            r is Ok <==> valid_utf8(self@.data),
            r is Ok ==> r->Ok_0@ == decode_utf8(self@.data),
            r is Err ==> r->Err_0 == ChunkError::NotUtf8,
    {
        match bytes_to_string(self.data.clone()) {
            Some(s) => Ok(s),
            None => Err(ChunkError::NotUtf8),
        }
    }

    /// The wire form of this chunk: length, type code, payload, CRC, each
    /// multi-byte integer big-endian.
    pub fn as_bytes(&self) -> (r: Vec<u8>)
        requires
            self.wf(),
        ensures
            r@ == self@.wire_bytes(),
    {
        let crc = self.crc();
        let length = self.length();
        let t = self.chunk_type.bytes();
        let mut out: Vec<u8> = Vec::new();
        push_u32_be(&mut out, length);
        out.push(t[0]);
        out.push(t[1]);
        out.push(t[2]);
        out.push(t[3]);
        out.extend_from_slice(self.data.as_slice());
        push_u32_be(&mut out, crc);
        proof {
            assert(out@ =~= self@.wire_bytes());
        }
        out
    }

    /// Renders the chunk as the six lines of text the tool prints for it:
    /// its payload length, type text, payload size and CRC.
    pub fn to_text(&self) -> (r: String)
        requires
            self.wf(),
        ensures
            r@ == decode_utf8(spec_chunk_line(self@)),
    {
        let crc = self.crc();
        let length = self.length();
        let t = self.chunk_type.bytes();
        let mut buf: Vec<u8> = Vec::new();
        buf.extend_from_slice("Chunk {\n  Length: ".as_bytes());
        push_dec(&mut buf, length);
        buf.extend_from_slice("\n  Type: ".as_bytes());
        buf.push(t[0]);
        buf.push(t[1]);
        buf.push(t[2]);
        buf.push(t[3]);
        buf.extend_from_slice("\n  Data: ".as_bytes());
        push_dec(&mut buf, length);
        buf.extend_from_slice(" bytes\n  Crc: ".as_bytes());
        push_dec(&mut buf, crc);
        buf.extend_from_slice("\n}\n".as_bytes());
        proof {
            assert(buf@ =~= spec_chunk_line(self@));
            lemma_chunk_line_utf8(self@);
        }
        match bytes_to_string(buf) {
            Some(s) => s,
            None => unreached(),
        }
    }

    /// Parses one chunk from the front of `bytes` and returns it with the
    /// unread remainder.  Never reads past the input: a declared length
    /// that overruns what is available is a `Truncated` error.
    pub fn parse(bytes: &[u8]) -> (r: Result<(Chunk, &[u8]), ChunkError>)
        ensures
            r is Ok <==> spec_chunk_front_ok(bytes@),
            r is Ok ==> {
                &&& r->Ok_0.0@ == spec_chunk_front(bytes@)
                &&& r->Ok_0.0.wf()
                &&& r->Ok_0.1@ == bytes@.skip(spec_chunk_front_size(bytes@))
            },
            r is Err ==> r->Err_0 == spec_chunk_front_err(bytes@),
    {
        let n = bytes.len();
        if n < 8 {
            return Err(ChunkError::Truncated);
        }
        let length = read_u32_be(bytes, 0);
        proof {
            assert(bytes@.subrange(0, 4) =~= bytes@.subrange(0, 4));
            assert(length == spec_u32_from_be_bytes(bytes@.subrange(0, 4)));
        }
        let t0 = bytes[4];
        let t1 = bytes[5];
        let t2 = bytes[6];
        let t3 = bytes[7];
        proof {
            assert(bytes@.subrange(4, 8) =~= seq![bytes@[4], bytes@[5], bytes@[6], bytes@[7]]);
        }
        if t0 > 127 || t1 > 127 || t2 > 127 || t3 > 127 {
            return Err(ChunkError::InvalidChunkType);
        }
        let length_us = length as usize;
        if n - 8 < length_us || (n - 8) - length_us < 4 {
            return Err(ChunkError::Truncated);
        }
        let data_end = 8 + length_us;
        let chunk_type = match ChunkType::from_bytes([t0, t1, t2, t3]) {
            Ok(ct) => ct,
            Err(_) => unreached(),
        };
        let data: Vec<u8> = slice_to_vec(slice_subrange(bytes, 8, data_end));
        let stored_crc = read_u32_be(bytes, data_end);
        let computed_crc = crc32_checksum(slice_subrange(bytes, 4, data_end));
        proof {
            assert(bytes@.subrange(data_end as int, data_end as int + 4) =~= bytes@.subrange(
                8 + spec_front_data_len(bytes@),
                12 + spec_front_data_len(bytes@),
            ));
        }
        if stored_crc != computed_crc {
            return Err(ChunkError::InvalidCRC);
        }
        let c = Chunk { chunk_type, data };
        let rest = slice_subrange(bytes, data_end + 4, n);
        proof {
            assert(c@.type_code =~= bytes@.subrange(4, 8));
            assert(rest@ =~= bytes@.skip(spec_chunk_front_size(bytes@)));
        }
        Ok((c, rest))
    }
}

/// Round trip of the chunk codec: serializing a well-formed chunk and
/// parsing the result, with any trailing bytes after it, succeeds and gives
/// back exactly that chunk and exactly those trailing bytes.
pub proof fn lemma_chunk_roundtrip(c: ChunkModel, tail: Seq<u8>)
    requires
        c.wf(),
    ensures
        c.wire_bytes().len() == 12 + c.data.len(),
        spec_chunk_front_ok(c.wire_bytes() + tail),
        spec_chunk_front(c.wire_bytes() + tail) == c,
        (c.wire_bytes() + tail).skip(c.wire_bytes().len() as int) == tail,
{
    lemma_u32_be_bytes_roundtrip();
    let b = c.wire_bytes() + tail;
    let l = c.data.len() as int;
    assert(b.subrange(0, 4) =~= spec_u32_to_be_bytes(c.data.len() as u32));
    assert(spec_front_data_len(b) == l);
    assert(b.subrange(4, 8) =~= c.type_code);
    assert(b.subrange(8, 8 + l) =~= c.data);
    assert(b.subrange(4, 8 + l) =~= c.type_code + c.data);
    assert(b.subrange(8 + l, 12 + l) =~= spec_u32_to_be_bytes(crc32_of(c.type_code + c.data)));
    assert(spec_chunk_front(b) == c);
    assert(b.skip(c.wire_bytes().len() as int) =~= tail);
}

/// Parsing drops nothing: the chunk at the front of a byte sequence
/// serializes back to exactly the bytes it was read from.
pub proof fn lemma_chunk_front_lossless(b: Seq<u8>)
    requires
        spec_chunk_front_ok(b),
    ensures
        spec_chunk_front(b).wf(),
        spec_chunk_front(b).wire_bytes() == b.take(spec_chunk_front_size(b)),
{
    lemma_u32_be_bytes_roundtrip();
    let l = spec_front_data_len(b);
    let c = spec_chunk_front(b);
    assert(c.data.len() == l);
    assert(b.subrange(0, 4).len() == 4);
    assert(spec_u32_to_be_bytes(spec_u32_from_be_bytes(b.subrange(0, 4))) == b.subrange(0, 4));
    assert(c.data.len() as u32 == spec_u32_from_be_bytes(b.subrange(0, 4)));
    let crc_field = b.subrange(8 + l, 12 + l);
    assert(crc_field.len() == 4);
    assert(spec_u32_to_be_bytes(spec_u32_from_be_bytes(crc_field)) == crc_field);
    assert(c.type_code + c.data =~= b.subrange(4, 8 + l));
    assert(crc32_of(c.type_code + c.data) == spec_u32_from_be_bytes(crc_field));
    assert(c.wire_bytes() =~= b.take(12 + l));
}

} // verus!
