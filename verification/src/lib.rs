//! Hide secret messages in PNG files.
//!
//! A PNG file is a fixed signature followed by a sequence of chunks, each a
//! length-prefixed, CRC-checked record.  Ancillary chunks with a private type
//! code are ignored by ordinary readers, which makes them a place to store an
//! arbitrary payload.  This crate models the chunk container: the four-byte
//! type code with its property bits, the chunk wire codec, the parsed
//! container with its structural rules, and the four operations (encode,
//! decode, remove, list) as pure byte-sequence transformations.  All file
//! handling stays outside the crate.

pub mod big_endian;
pub mod checksum;
pub mod chunk;
pub mod chunk_type;
pub mod png;
pub mod text;

use vstd::prelude::*;

verus! {

use crate::chunk::{spec_chunk_line, Chunk, ChunkModel};
use crate::chunk_type::{
    is_alphabetic_char, spec_from_text_err, valid_type_text, ChunkType, ChunkTypeError,
};
use crate::png::{
    lemma_append_preserves_layout, lemma_chunk_stream_roundtrip, lemma_find_chunk_at,
    lemma_find_chunk_props, lemma_parse_chunks_lossless, spec_chunks_bytes, spec_end_type, spec_find_chunk,
    spec_good_signature, spec_header_type, spec_layout_ok, spec_parse_chunks, spec_png_parse_err,
    spec_chunk_stream_ok, spec_signature, spec_type_matches, Png, PngError,
};
use crate::text::{ascii_chars_of, is_ascii_byte};
use vstd::string::{StringExecFns, StrSliceExecFns};
use vstd::utf8::{
    decode_utf8, encode_utf8, encode_utf8_decode_utf8, encode_utf8_valid_utf8, valid_utf8,
};

/// Why an operation on a PNG byte stream failed.
#[derive(Debug)]
pub enum Error {
    /// The input bytes are not a well-formed PNG.
    PNGParse { source: PngError },
    /// A chunk payload is not valid UTF-8 text.
    StrConversion,
    /// The supplied chunk type text is not a valid type code.
    InvalidChunkType { chunk_type: String, source: ChunkTypeError },
    /// No chunk of the supplied type is present.
    ChunkNotFound { chunk_type: String },
}

/// True when the bytes parse as a well-formed PNG: good signature, a whole
/// number of well-formed chunks, header first and end marker last.
pub open spec fn spec_png_ok(b: Seq<u8>) -> bool {
    &&& spec_good_signature(b)
    &&& spec_chunk_stream_ok(b.skip(8))
    &&& spec_layout_ok(spec_parse_chunks(b.skip(8)))
}

/// The chunks a well-formed PNG byte stream parses to.
pub open spec fn spec_png_chunks(b: Seq<u8>) -> Seq<ChunkModel>
    recommends
        spec_png_ok(b),
{
    spec_parse_chunks(b.skip(8))
}

/// The chunk a message under a given type text turns into: the type bytes
/// and the UTF-8 form of the message.
pub open spec fn spec_message_chunk(chunk_type: Seq<char>, message: Seq<char>) -> ChunkModel {
    ChunkModel {
        type_code: Seq::new(4, |i: int| chunk_type[i] as u8),
        data: encode_utf8(message),
    }
}

/// Embeds a message in a PNG byte stream: parses it, validates the chunk
/// type text strictly, and appends a chunk holding the message immediately
/// before the end marker.  Returns the new byte stream.
pub fn encode(data: &[u8], chunk_type: &str, message: &str) -> (r: Result<Vec<u8>, Error>)
    requires
        encode_utf8(message@).len() <= 0xffff_ffff,
    ensures
        r is Ok <==> spec_png_ok(data@) && valid_type_text(chunk_type@),
        r is Ok ==> r->Ok_0@ == spec_signature() + spec_chunks_bytes(
            spec_png_chunks(data@).insert(
                spec_png_chunks(data@).len() - 1,
                spec_message_chunk(chunk_type@, message@),
            ),
        ),
        !spec_png_ok(data@) ==> r is Err && r->Err_0 == (Error::PNGParse {
            source: spec_png_parse_err(data@),
        }),
        spec_png_ok(data@) && !valid_type_text(chunk_type@) ==> r is Err
            && (r->Err_0 matches Error::InvalidChunkType { chunk_type: ct, source } && ct@
            == chunk_type@ && spec_from_text_err(chunk_type@, source)),
{
    let mut png = match Png::parse(data) {
        Ok(p) => p,
        Err(e) => {
            return Err(Error::PNGParse { source: e });
        }
    };
    let ct = match ChunkType::from_text(chunk_type) {
        Ok(ct) => ct,
        Err(e) => {
            return Err(Error::InvalidChunkType {
                chunk_type: String::from_str(chunk_type),
                source: e,
            });
        }
    };
    let message_bytes: Vec<u8> = message.as_bytes_vec();
    let secret_chunk = Chunk::new(ct, message_bytes);
    png.append_chunk(secret_chunk);
    Ok(png.as_bytes())
}

/// Looks for a message hidden under the given chunk type.  Absence of the
/// chunk is no error: the sentinel text is returned instead.  A chunk whose
/// payload is not UTF-8 is a conversion error.
pub fn decode(data: &[u8], chunk_type: &str) -> (r: Result<String, Error>)
    ensures
        !spec_png_ok(data@) ==> r is Err && r->Err_0 == (Error::PNGParse {
            source: spec_png_parse_err(data@),
        }),
        spec_png_ok(data@) ==> {
            let cs = spec_png_chunks(data@);
            let i = spec_find_chunk(cs, chunk_type@);
            &&& (i == -1 ==> r is Ok && r->Ok_0@ == "No secret message found"@)
            &&& (i >= 0 && valid_utf8(cs[i].data) ==> r is Ok && r->Ok_0@ == decode_utf8(
                cs[i].data,
            ))
            &&& (i >= 0 && !valid_utf8(cs[i].data) ==> r is Err && r->Err_0
                == Error::StrConversion)
        },
{
    let png = match Png::parse(data) {
        Ok(p) => p,
        Err(e) => {
            return Err(Error::PNGParse { source: e });
        }
    };
    match png.chunk_by_type(chunk_type) {
        Some(chunk) => match chunk.data_as_string() {
            Ok(text) => Ok(text),
            Err(_) => Err(Error::StrConversion),
        },
        None => Ok(String::from_str("No secret message found")),
    }
}

/// Removes the first chunk of the given type from a PNG byte stream and
/// returns the new byte stream; fails when no chunk of that type exists.
pub fn remove(data: &[u8], chunk_type: &str) -> (r: Result<Vec<u8>, Error>)
    ensures
        r is Ok <==> spec_png_ok(data@) && spec_find_chunk(
            spec_png_chunks(data@),
            chunk_type@,
        ) >= 0,
        !spec_png_ok(data@) ==> r is Err && r->Err_0 == (Error::PNGParse {
            source: spec_png_parse_err(data@),
        }),
        spec_png_ok(data@) && spec_find_chunk(spec_png_chunks(data@), chunk_type@) == -1 ==> r
            is Err && (r->Err_0 matches Error::ChunkNotFound { chunk_type: ct } && ct@
            == chunk_type@),
        r is Ok ==> r->Ok_0@ == spec_signature() + spec_chunks_bytes(
            spec_png_chunks(data@).remove(
                spec_find_chunk(spec_png_chunks(data@), chunk_type@),
            ),
        ),
{
    let mut png = match Png::parse(data) {
        Ok(p) => p,
        Err(e) => {
            return Err(Error::PNGParse { source: e });
        }
    };
    match png.remove_first_chunk(chunk_type) {
        Ok(_) => {}
        Err(_) => {
            return Err(Error::ChunkNotFound { chunk_type: String::from_str(chunk_type) });
        }
    }
    Ok(png.as_bytes())
}

/// Lists the chunks of a PNG byte stream: one description per chunk, in
/// order, each giving the chunk's length, type, payload size and CRC.
pub fn print_chunks(data: &[u8]) -> (r: Result<Vec<String>, Error>)
    ensures
        r is Ok <==> spec_png_ok(data@),
        r is Ok ==> {
            let cs = spec_png_chunks(data@);
            &&& r->Ok_0@.len() == cs.len()
            &&& forall|i: int|
                0 <= i < cs.len() ==> (#[trigger] r->Ok_0@[i])@ == decode_utf8(
                    spec_chunk_line(cs[i]),
                )
        },
        r is Err ==> r->Err_0 == (Error::PNGParse { source: spec_png_parse_err(data@) }),
{
    let png = match Png::parse(data) {
        Ok(p) => p,
        Err(e) => {
            return Err(Error::PNGParse { source: e });
        }
    };
    let chunks = png.chunks();
    let m = chunks.len();
    let mut lines: Vec<String> = Vec::new();
    let mut i: usize = 0;
    while i < m
        invariant
            m == chunks@.len(),
            m == png@.len(),
            i <= m,
            png.wf(),
            forall|j: int| 0 <= j < m ==> (#[trigger] chunks@[j])@ == png@[j],
            lines@.len() == i,
            forall|j: int|
                0 <= j < i ==> (#[trigger] lines@[j])@ == decode_utf8(spec_chunk_line(png@[j])),
        decreases m - i,
    {
        lines.push(chunks[i].to_text());
        i += 1;
    }
    Ok(lines)
}

/// Append and remove are inverse when no chunk of the appended type
/// preexists: after inserting a chunk of a fresh type before the end
/// marker, removing the first chunk of that type gives back exactly that
/// chunk and restores the container, so its serialized form equals the
/// pre-append one.
pub proof fn lemma_append_remove_inverse(cs: Seq<ChunkModel>, c: ChunkModel, q: Seq<char>)
    requires
        spec_layout_ok(cs),
        spec_type_matches(c, q),
        spec_find_chunk(cs, q) == -1,
    ensures
        ({
            let cs2 = cs.insert(cs.len() - 1, c);
            &&& spec_find_chunk(cs2, q) == cs.len() - 1
            &&& cs2[spec_find_chunk(cs2, q)] == c
            &&& cs2.remove(spec_find_chunk(cs2, q)) == cs
        }),
{
    let n = cs.len();
    assert(spec_header_type()[1] != spec_end_type()[1]);
    assert(n >= 2);
    let cs2 = cs.insert(n - 1, c);
    lemma_find_chunk_props(cs, q);
    assert forall|j: int| 0 <= j < n - 1 implies !spec_type_matches(#[trigger] cs2[j], q) by {
        assert(cs2[j] == cs[j]);
    }
    assert(cs2[n - 1] == c);
    lemma_find_chunk_at(cs2, q, n - 1);
    assert(cs2.remove(n - 1) =~= cs);
}

/// Decode after encode: appending a message chunk under a valid type that
/// the container does not hold yet gives a byte stream that parses back as
/// a well-formed PNG, in which the first chunk of that type is the appended
/// one, and whose payload decodes to exactly the original message.
/// The chunk built for a message under a valid type text is well formed,
/// matches that text, and its payload decodes back to the message.
proof fn lemma_message_chunk_facts(q: Seq<char>, msg: Seq<char>)
    requires
        valid_type_text(q),
        encode_utf8(msg).len() <= 0xffff_ffff,
    ensures
        spec_message_chunk(q, msg).wf(),
        spec_type_matches(spec_message_chunk(q, msg), q),
        valid_utf8(spec_message_chunk(q, msg).data),
        decode_utf8(spec_message_chunk(q, msg).data) == msg,
{
    let c = spec_message_chunk(q, msg);
    assert forall|i: int| 0 <= i < 4 implies is_ascii_byte(#[trigger] c.type_code[i]) by {
        assert(is_alphabetic_char(q[i]));
        assert(c.type_code[i] == q[i] as u8);
    }
    assert(c.wf());
    assert forall|i: int| 0 <= i < 4 implies ascii_chars_of(c.type_code)[i] == q[i] by {
        assert(is_alphabetic_char(q[i]));
        assert(c.type_code[i] == q[i] as u8);
    }
    assert(ascii_chars_of(c.type_code) =~= q);
    encode_utf8_valid_utf8(msg);
    encode_utf8_decode_utf8(msg);
}

/// The other direction of the container round trip: parsing a well-formed
/// PNG byte stream and serializing the result gives back exactly the input
/// bytes, so parsing loses nothing and mutations change nothing else.
#[verifier::spinoff_prover]
#[verifier::rlimit(100)]
pub proof fn lemma_serialize_after_parse(b: Seq<u8>)
    requires
        spec_png_ok(b),
    ensures
        spec_signature() + spec_chunks_bytes(spec_png_chunks(b)) == b,
{
    lemma_parse_chunks_lossless(b.skip(8));
    assert(spec_signature() + b.skip(8) =~= b);
}

/// Round trip of the container codec: serializing any sequence of
/// well-formed chunks behind the signature parses back to exactly those
/// chunks, and the stream is a well-formed PNG whenever the layout rule
/// holds of them.
#[verifier::spinoff_prover]
#[verifier::rlimit(100)]
pub proof fn lemma_png_roundtrip(cs: Seq<ChunkModel>)
    requires
        forall|i: int| 0 <= i < cs.len() ==> (#[trigger] cs[i]).wf(),
    ensures
        spec_good_signature(spec_signature() + spec_chunks_bytes(cs)),
        spec_chunk_stream_ok((spec_signature() + spec_chunks_bytes(cs)).skip(8)),
        spec_png_chunks(spec_signature() + spec_chunks_bytes(cs)) == cs,
        spec_layout_ok(cs) ==> spec_png_ok(spec_signature() + spec_chunks_bytes(cs)),
{
    lemma_chunk_stream_roundtrip(cs);
    let out = spec_signature() + spec_chunks_bytes(cs);
    assert(out.subrange(0, 8) =~= spec_signature());
    assert(out.skip(8) =~= spec_chunks_bytes(cs));
}

#[verifier::spinoff_prover]
#[verifier::rlimit(100)]
pub proof fn lemma_decode_after_encode(cs: Seq<ChunkModel>, q: Seq<char>, msg: Seq<char>)
    requires
        spec_layout_ok(cs),
        forall|i: int| 0 <= i < cs.len() ==> (#[trigger] cs[i]).wf(),
        valid_type_text(q),
        spec_find_chunk(cs, q) == -1,
        encode_utf8(msg).len() <= 0xffff_ffff,
    ensures
        ({
            let c = spec_message_chunk(q, msg);
            let cs2 = cs.insert(cs.len() - 1, c);
            let out = spec_signature() + spec_chunks_bytes(cs2);
            &&& spec_png_ok(out)
            &&& spec_png_chunks(out) == cs2
            &&& spec_find_chunk(cs2, q) == cs.len() - 1
            &&& cs2[spec_find_chunk(cs2, q)] == c
            &&& valid_utf8(c.data)
            &&& decode_utf8(c.data) == msg
        }),
{
    let c = spec_message_chunk(q, msg);
    let n = cs.len();
    lemma_message_chunk_facts(q, msg);
    lemma_append_remove_inverse(cs, c, q);
    let cs2 = cs.insert(n - 1, c);
    lemma_append_preserves_layout(cs, c);
    assert forall|i: int| 0 <= i < cs2.len() implies (#[trigger] cs2[i]).wf() by {
        if i < n - 1 {
            assert(cs2[i] == cs[i]);
        } else if i == n - 1 {
            assert(cs2[i] == c);
        } else {
            assert(cs2[i] == cs[i - 1]);
        }
    }
    lemma_png_roundtrip(cs2);
}

/// The structure survives encode: appending a message chunk under any
/// valid type to a well-formed container gives a byte stream that parses
/// back as a PNG whose header chunk is still first, whose end marker is
/// still last, whose second-to-last chunk is the new message chunk, and
/// whose other chunks are the original ones, unchanged and in order.
#[verifier::spinoff_prover]
#[verifier::rlimit(100)]
pub proof fn lemma_structure_after_encode(b: Seq<u8>, q: Seq<char>, msg: Seq<char>)
    requires
        spec_png_ok(b),
        valid_type_text(q),
        encode_utf8(msg).len() <= 0xffff_ffff,
    ensures
        ({
            let cs = spec_png_chunks(b);
            let c = spec_message_chunk(q, msg);
            let cs2 = cs.insert(cs.len() - 1, c);
            let out = spec_signature() + spec_chunks_bytes(cs2);
            &&& spec_png_ok(out)
            &&& spec_png_chunks(out) == cs2
            &&& cs2.len() == cs.len() + 1
            &&& cs2[0].type_code == spec_header_type()
            &&& cs2[cs2.len() - 1].type_code == spec_end_type()
            &&& cs2[cs2.len() - 2] == c
            &&& cs2[cs2.len() - 1] == cs[cs.len() - 1]
            &&& forall|i: int| 0 <= i < cs.len() - 1 ==> #[trigger] cs2[i] == cs[i]
        }),
{
    let cs = spec_png_chunks(b);
    let c = spec_message_chunk(q, msg);
    let n = cs.len();
    lemma_parse_chunks_lossless(b.skip(8));
    lemma_message_chunk_facts(q, msg);
    let cs2 = cs.insert(n - 1, c);
    lemma_append_preserves_layout(cs, c);
    assert forall|i: int| 0 <= i < cs2.len() implies (#[trigger] cs2[i]).wf() by {
        if i < n - 1 {
            assert(cs2[i] == cs[i]);
        } else if i == n - 1 {
            assert(cs2[i] == c);
        } else {
            assert(cs2[i] == cs[i - 1]);
        }
    }
    lemma_png_roundtrip(cs2);
}

/// Remove after encode restores the original byte stream: when no chunk of
/// the given valid type preexists, the stream encode returns holds the new
/// chunk as its first match of that type, and removing that first match
/// and serializing gives back exactly the pre-encode bytes.
#[verifier::spinoff_prover]
#[verifier::rlimit(100)]
pub proof fn lemma_remove_after_encode(b: Seq<u8>, q: Seq<char>, msg: Seq<char>)
    requires
        spec_png_ok(b),
        valid_type_text(q),
        spec_find_chunk(spec_png_chunks(b), q) == -1,
        encode_utf8(msg).len() <= 0xffff_ffff,
    ensures
        ({
            let cs = spec_png_chunks(b);
            let c = spec_message_chunk(q, msg);
            let out = spec_signature() + spec_chunks_bytes(cs.insert(cs.len() - 1, c));
            let i = spec_find_chunk(spec_png_chunks(out), q);
            &&& spec_png_ok(out)
            &&& i == cs.len() - 1
            &&& spec_png_chunks(out)[i] == c
            &&& spec_signature() + spec_chunks_bytes(spec_png_chunks(out).remove(i)) == b
        }),
{
    let cs = spec_png_chunks(b);
    let c = spec_message_chunk(q, msg);
    lemma_parse_chunks_lossless(b.skip(8));
    lemma_serialize_after_parse(b);
    lemma_message_chunk_facts(q, msg);
    lemma_decode_after_encode(cs, q, msg);
    lemma_append_remove_inverse(cs, c, q);
}

} // verus!
