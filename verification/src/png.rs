//! The PNG container: an ordered sequence of chunks behind the signature.
//!
//! A PNG byte stream is the fixed eight-byte signature followed by chunks
//! back to back until the input ends.  The container keeps the structural
//! rules of the format: the first chunk is the image header (`IHDR`), the
//! last is the end marker (`IEND`), and every mutation preserves both.
//! Parsing is strict — a stream with a malformed chunk, trailing garbage or
//! a misplaced header is rejected with a typed error, never a panic.

use vstd::prelude::*;

verus! {

use crate::chunk::{
    spec_chunk_front, spec_chunk_front_err, spec_chunk_front_ok, spec_chunk_front_size, Chunk,
    ChunkError, ChunkModel, lemma_chunk_front_lossless, lemma_chunk_roundtrip,
};
use crate::text::{ascii_chars_of, is_ascii_byte, lemma_ascii_char_eq};
use vstd::slice::slice_subrange;
use vstd::string::StrSliceExecFns;
use vstd::utf8::is_ascii_chars;

/// Why a byte stream was rejected as a PNG, or a lookup failed.
#[derive(Debug)]
pub enum PngError {
    /// The stream does not begin with the PNG signature.
    NotAPng,
    /// A chunk of the stream failed to parse.
    MalformedChunkStream { source: ChunkError },
    /// The chunks parse but the header chunk is not first or the end
    /// marker is not last.
    BadChunkLayout,
    /// No chunk of the requested type is present.
    ChunkNotFound,
}

/// The fixed eight-byte PNG signature.
pub open spec fn spec_signature() -> Seq<u8> {
    seq![137u8, 80u8, 78u8, 71u8, 13u8, 10u8, 26u8, 10u8]
}

/// The type code of the image header chunk, `IHDR`.
pub open spec fn spec_header_type() -> Seq<u8> {
    seq![73u8, 72u8, 68u8, 82u8]
}

/// The type code of the end marker chunk, `IEND`.
pub open spec fn spec_end_type() -> Seq<u8> {
    seq![73u8, 69u8, 78u8, 68u8]
}

/// True when the stream begins with the PNG signature.
pub open spec fn spec_good_signature(b: Seq<u8>) -> bool {
    b.len() >= 8 && b.subrange(0, 8) == spec_signature()
}

/// The models of a sequence of chunks.
pub open spec fn views_of(chunks: Seq<Chunk>) -> Seq<ChunkModel> {
    chunks.map_values(|c: Chunk| c@)
}

/// The concatenated wire forms of a sequence of chunks.
pub open spec fn spec_chunks_bytes(cs: Seq<ChunkModel>) -> Seq<u8>
    decreases cs.len(),
{
    if cs.len() == 0 {
        Seq::empty()
    } else {
        cs[0].wire_bytes() + spec_chunks_bytes(cs.drop_first())
    }
}

/// True when `b` is a whole number of well-formed chunks, back to back.
pub open spec fn spec_chunk_stream_ok(b: Seq<u8>) -> bool
    decreases b.len(),
{
    if b.len() == 0 {
        true
    } else if !spec_chunk_front_ok(b) {
        false
    } else {
        spec_chunk_stream_ok(b.skip(spec_chunk_front_size(b)))
    }
}

/// The chunks read off a well-formed stream, front to back.
pub open spec fn spec_parse_chunks(b: Seq<u8>) -> Seq<ChunkModel>
    recommends
        spec_chunk_stream_ok(b),
    decreases b.len(),
{
    if b.len() == 0 || !spec_chunk_front_ok(b) {
        Seq::empty()
    } else {
        seq![spec_chunk_front(b)] + spec_parse_chunks(b.skip(spec_chunk_front_size(b)))
    }
}

/// The error of the first chunk that fails to parse in a malformed stream.
pub open spec fn spec_chunk_stream_err(b: Seq<u8>) -> ChunkError
    recommends
        !spec_chunk_stream_ok(b),
    decreases b.len(),
{
    if b.len() != 0 && spec_chunk_front_ok(b) {
        spec_chunk_stream_err(b.skip(spec_chunk_front_size(b)))
    } else {
        spec_chunk_front_err(b)
    }
}

/// The structural rule of the container: the image header chunk comes
/// first and the end marker chunk comes last.
pub open spec fn spec_layout_ok(cs: Seq<ChunkModel>) -> bool {
    &&& cs.len() >= 1
    &&& cs[0].type_code == spec_header_type()
    &&& cs[cs.len() - 1].type_code == spec_end_type()
}

/// Mutation keeps the structure: inserting a chunk immediately before the
/// last one leaves the header first and the end marker last.
pub proof fn lemma_append_preserves_layout(cs: Seq<ChunkModel>, c: ChunkModel)
    requires
        spec_layout_ok(cs),
    ensures
        spec_layout_ok(cs.insert(cs.len() - 1, c)),
{
    let cs2 = cs.insert(cs.len() - 1, c);
    assert(spec_header_type()[1] != spec_end_type()[1]);
    assert(cs.len() >= 2);
    assert(cs2[0] == cs[0]);
    assert(cs2[cs2.len() - 1] == cs[cs.len() - 1]);
}

/// Mutation keeps the structure: removing a chunk that is neither the
/// first nor the last leaves the header first and the end marker last.
pub proof fn lemma_remove_preserves_layout(cs: Seq<ChunkModel>, i: int)
    requires
        spec_layout_ok(cs),
        0 < i < cs.len() - 1,
    ensures
        spec_layout_ok(cs.remove(i)),
{
    assert(cs.remove(i)[0] == cs[0]);
    assert(cs.remove(i)[cs.remove(i).len() - 1] == cs[cs.len() - 1]);
}

/// The error a stream parses to when it is not a well-formed PNG.
pub open spec fn spec_png_parse_err(b: Seq<u8>) -> PngError
    recommends
        !(spec_good_signature(b) && spec_chunk_stream_ok(b.skip(8)) && spec_layout_ok(
            spec_parse_chunks(b.skip(8)),
        )),
{
    if !spec_good_signature(b) {
        PngError::NotAPng
    } else if !spec_chunk_stream_ok(b.skip(8)) {
        PngError::MalformedChunkStream { source: spec_chunk_stream_err(b.skip(8)) }
    } else {
        PngError::BadChunkLayout
    }
}

/// True when the chunk's type text equals the query text.
pub open spec fn spec_type_matches(c: ChunkModel, q: Seq<char>) -> bool {
    ascii_chars_of(c.type_code) == q
}

/// The index of the first chunk whose type text equals the query, or -1
/// when none does.
pub open spec fn spec_find_chunk(cs: Seq<ChunkModel>, q: Seq<char>) -> int
    decreases cs.len(),
{
    if cs.len() == 0 {
        -1
    } else if spec_type_matches(cs[0], q) {
        0
    } else {
        let r = spec_find_chunk(cs.drop_first(), q);
        if r == -1 {
            -1
        } else {
            r + 1
        }
    }
}

/// Where the first match sits and that nothing before it matches.
pub proof fn lemma_find_chunk_props(cs: Seq<ChunkModel>, q: Seq<char>)
    ensures
        spec_find_chunk(cs, q) == -1 || (0 <= spec_find_chunk(cs, q) < cs.len()),
        spec_find_chunk(cs, q) == -1 ==> forall|i: int|
            0 <= i < cs.len() ==> !spec_type_matches(#[trigger] cs[i], q),
        spec_find_chunk(cs, q) >= 0 ==> spec_type_matches(cs[spec_find_chunk(cs, q)], q),
        spec_find_chunk(cs, q) >= 0 ==> forall|i: int|
            0 <= i < spec_find_chunk(cs, q) ==> !spec_type_matches(#[trigger] cs[i], q),
    decreases cs.len(),
{
    if cs.len() == 0 {
    } else if spec_type_matches(cs[0], q) {
    } else {
        lemma_find_chunk_props(cs.drop_first(), q);
        assert(forall|i: int|
            1 <= i < cs.len() ==> #[trigger] cs[i] == cs.drop_first()[i - 1]);
    }
}

/// The first match is determined: a witness index that matches, with no
/// match before it, is where the search lands.
pub proof fn lemma_find_chunk_at(cs: Seq<ChunkModel>, q: Seq<char>, i: int)
    requires
        0 <= i < cs.len(),
        spec_type_matches(cs[i], q),
        forall|j: int| 0 <= j < i ==> !spec_type_matches(#[trigger] cs[j], q),
    ensures
        spec_find_chunk(cs, q) == i,
    decreases cs.len(),
{
    if i == 0 {
    } else {
        assert(!spec_type_matches(cs[0], q));
        assert(cs.drop_first()[i - 1] == cs[i]);
        assert(forall|j: int|
            0 <= j < i - 1 ==> #[trigger] cs.drop_first()[j] == cs[j + 1]);
        lemma_find_chunk_at(cs.drop_first(), q, i - 1);
    }
}

/// A search over chunks that none of which matches comes back empty.
pub proof fn lemma_find_chunk_none(cs: Seq<ChunkModel>, q: Seq<char>)
    requires
        forall|j: int| 0 <= j < cs.len() ==> !spec_type_matches(#[trigger] cs[j], q),
    ensures
        spec_find_chunk(cs, q) == -1,
    decreases cs.len(),
{
    if cs.len() == 0 {
    } else {
        assert(forall|j: int|
            0 <= j < cs.len() - 1 ==> #[trigger] cs.drop_first()[j] == cs[j + 1]);
        lemma_find_chunk_none(cs.drop_first(), q);
    }
}

/// Appending a chunk extends the concatenated wire form at the end.
pub proof fn lemma_chunks_bytes_push(cs: Seq<ChunkModel>, c: ChunkModel)
    ensures
        spec_chunks_bytes(cs.push(c)) == spec_chunks_bytes(cs) + c.wire_bytes(),
    decreases cs.len(),
{
    if cs.len() == 0 {
        assert(cs.push(c)[0] == c);
        assert(cs.push(c).drop_first() =~= Seq::<ChunkModel>::empty());
        assert(spec_chunks_bytes(Seq::<ChunkModel>::empty()) == Seq::<u8>::empty());
        assert(spec_chunks_bytes(cs.push(c)) == c.wire_bytes() + Seq::<u8>::empty());
        assert(c.wire_bytes() + Seq::<u8>::empty() =~= c.wire_bytes());
        assert(spec_chunks_bytes(cs) + c.wire_bytes() =~= c.wire_bytes());
    } else {
        lemma_chunks_bytes_push(cs.drop_first(), c);
        assert(cs.push(c).drop_first() =~= cs.drop_first().push(c));
        assert(cs.push(c)[0] == cs[0]);
        assert(spec_chunks_bytes(cs.push(c)) == cs[0].wire_bytes() + (spec_chunks_bytes(
            cs.drop_first(),
        ) + c.wire_bytes()));
        assert(spec_chunks_bytes(cs) == cs[0].wire_bytes() + spec_chunks_bytes(cs.drop_first()));
        assert(cs[0].wire_bytes() + (spec_chunks_bytes(cs.drop_first()) + c.wire_bytes())
            =~= (cs[0].wire_bytes() + spec_chunks_bytes(cs.drop_first())) + c.wire_bytes());
    }
}

/// Round trip of the chunk stream: the concatenated wire forms of
/// well-formed chunks parse back to exactly those chunks.
#[verifier::spinoff_prover]
#[verifier::rlimit(60)]
pub proof fn lemma_chunk_stream_roundtrip(cs: Seq<ChunkModel>)
    requires
        forall|i: int| 0 <= i < cs.len() ==> (#[trigger] cs[i]).wf(),
    ensures
        spec_chunk_stream_ok(spec_chunks_bytes(cs)),
        spec_parse_chunks(spec_chunks_bytes(cs)) == cs,
    decreases cs.len(),
{
    if cs.len() == 0 {
    } else {
        let b = spec_chunks_bytes(cs);
        let rest = spec_chunks_bytes(cs.drop_first());
        lemma_chunk_roundtrip(cs[0], rest);
        assert(b == cs[0].wire_bytes() + rest);
        assert(spec_chunk_front(b) == cs[0]);
        assert(spec_chunk_front_size(b) == cs[0].wire_bytes().len());
        assert(b.skip(spec_chunk_front_size(b)) == rest);
        assert(forall|i: int|
            0 <= i < cs.drop_first().len() ==> (#[trigger] cs.drop_first()[i]).wf());
        lemma_chunk_stream_roundtrip(cs.drop_first());
        assert(spec_chunk_stream_ok(b));
        assert(spec_parse_chunks(b) == seq![cs[0]] + cs.drop_first());
        assert(seq![cs[0]] + cs.drop_first() =~= cs);
    }
}

/// Parsing drops nothing: a well-formed chunk stream serializes back to
/// exactly the bytes it was parsed from.
#[verifier::spinoff_prover]
#[verifier::rlimit(60)]
pub proof fn lemma_parse_chunks_lossless(b: Seq<u8>)
    requires
        spec_chunk_stream_ok(b),
    ensures
        spec_chunks_bytes(spec_parse_chunks(b)) == b,
        forall|i: int|
            0 <= i < spec_parse_chunks(b).len() ==> (#[trigger] spec_parse_chunks(b)[i]).wf(),
    decreases b.len(),
{
    if b.len() == 0 {
        assert(spec_parse_chunks(b) =~= Seq::<ChunkModel>::empty());
        assert(spec_chunks_bytes(spec_parse_chunks(b)) =~= b);
    } else {
        let size = spec_chunk_front_size(b);
        let rest = b.skip(size);
        lemma_chunk_front_lossless(b);
        lemma_parse_chunks_lossless(rest);
        let cs = spec_parse_chunks(b);
        assert(cs == seq![spec_chunk_front(b)] + spec_parse_chunks(rest));
        assert(cs[0] == spec_chunk_front(b));
        assert(cs.drop_first() =~= spec_parse_chunks(rest));
        assert(spec_chunks_bytes(cs) == cs[0].wire_bytes() + spec_chunks_bytes(
            cs.drop_first(),
        ));
        assert(b.take(size) + b.skip(size) =~= b);
        assert forall|i: int| 0 <= i < cs.len() implies (#[trigger] cs[i]).wf() by {
            if i > 0 {
                assert(cs[i] == spec_parse_chunks(rest)[i - 1]);
            }
        }
    }
}

/// A parsed PNG: its chunks in order, the signature implied.
#[derive(Debug)]
pub struct Png {
    chunks: Vec<Chunk>,
}

/// Compares a chunk's type code with four literal bytes.
fn chunk_has_type(c: &Chunk, t: [u8; 4]) -> (r: bool)
    requires
        c.wf(),
    ensures
        r == (c@.type_code == t@),
{
    let ct = c.chunk_type().bytes();
    let eq = ct[0] == t[0] && ct[1] == t[1] && ct[2] == t[2] && ct[3] == t[3];
    proof {
        if eq {
            assert(ct@ =~= t@);
        }
    }
    eq
}

/// Compares the first eight input bytes with the PNG signature.
fn check_signature(bytes: &[u8]) -> (r: bool)
    requires
        bytes@.len() >= 8,
    ensures
        r == (bytes@.subrange(0, 8) == spec_signature()),
{
    let r = bytes[0] == 137 && bytes[1] == 80 && bytes[2] == 78 && bytes[3] == 71 && bytes[4]
        == 13 && bytes[5] == 10 && bytes[6] == 26 && bytes[7] == 10;
    proof {
        let s = bytes@.subrange(0, 8);
        assert(s[0] == bytes@[0] && s[1] == bytes@[1] && s[2] == bytes@[2] && s[3] == bytes@[3]
            && s[4] == bytes@[4] && s[5] == bytes@[5] && s[6] == bytes@[6] && s[7] == bytes@[7]);
        if r {
            assert(s =~= spec_signature());
        } else {
            assert(s != spec_signature());
        }
    }
    r
}

impl View for Png {
    type V = Seq<ChunkModel>;

    closed spec fn view(&self) -> Seq<ChunkModel> {
        views_of(self.chunks@)
    }
}

impl Png {
    /// Every chunk of the container is well formed.
    pub open spec fn chunks_wf(&self) -> bool {
        forall|i: int| 0 <= i < self@.len() ==> (#[trigger] self@[i]).wf()
    }

    /// Every chunk is well formed and the structural rule holds.
    pub open spec fn wf(&self) -> bool {
        &&& self.chunks_wf()
        &&& spec_layout_ok(self@)
    }

    /// Parses a byte stream: the signature, then chunks until the input is
    /// exhausted.  Strict on all counts — a bad signature, a chunk that
    /// fails to parse, leftover bytes and a misplaced header or end marker
    /// are all errors, and no input makes it panic.
    pub fn parse(bytes: &[u8]) -> (r: Result<Png, PngError>)
        ensures
            r is Ok <==> spec_good_signature(bytes@) && spec_chunk_stream_ok(bytes@.skip(8))
                && spec_layout_ok(spec_parse_chunks(bytes@.skip(8))),
            r is Ok ==> r->Ok_0@ == spec_parse_chunks(bytes@.skip(8)) && r->Ok_0.wf(),
            r is Err ==> r->Err_0 == spec_png_parse_err(bytes@),
    {
        let n = bytes.len();
        if n < 8 {
            return Err(PngError::NotAPng);
        }
        if !check_signature(bytes) {
            return Err(PngError::NotAPng);
        }
        let ghost orig: Seq<u8> = bytes@.skip(8);
        let mut rest: &[u8] = slice_subrange(bytes, 8, n);
        let mut chunks: Vec<Chunk> = Vec::new();
        proof {
            assert(rest@ =~= orig);
            assert(views_of(chunks@) + spec_parse_chunks(orig) =~= spec_parse_chunks(orig));
        }
        while rest.len() > 0
            invariant
                spec_good_signature(bytes@),
                orig == bytes@.skip(8),
                forall|j: int| 0 <= j < chunks@.len() ==> (#[trigger] chunks@[j]).wf(),
                spec_chunk_stream_ok(orig) <==> spec_chunk_stream_ok(rest@),
                !spec_chunk_stream_ok(rest@) ==> spec_chunk_stream_err(orig)
                    == spec_chunk_stream_err(rest@),
                spec_chunk_stream_ok(orig) ==> spec_parse_chunks(orig) == views_of(chunks@)
                    + spec_parse_chunks(rest@),
            decreases rest@.len(),
        {
            match Chunk::parse(rest) {
                Ok((c, r2)) => {
                    proof {
                        assert(spec_chunk_front_ok(rest@));
                        assert(rest@.len() >= 8);
                        assert(spec_chunk_stream_ok(rest@) <==> spec_chunk_stream_ok(r2@));
                        if spec_chunk_stream_ok(orig) {
                            assert(spec_parse_chunks(rest@) == seq![spec_chunk_front(rest@)]
                                + spec_parse_chunks(r2@));
                            assert(views_of(chunks@.push(c)) =~= views_of(chunks@).push(c@));
                            assert(views_of(chunks@).push(c@) + spec_parse_chunks(r2@)
                                =~= views_of(chunks@) + spec_parse_chunks(rest@));
                        }
                        if !spec_chunk_stream_ok(r2@) {
                            assert(spec_chunk_stream_err(rest@) == spec_chunk_stream_err(r2@));
                        }
                    }
                    chunks.push(c);
                    rest = r2;
                }
                Err(e) => {
                    proof {
                        assert(!spec_chunk_front_ok(rest@));
                        assert(!spec_chunk_stream_ok(rest@));
                        assert(spec_chunk_stream_err(rest@) == spec_chunk_front_err(rest@));
                    }
                    return Err(PngError::MalformedChunkStream { source: e });
                }
            }
        }
        proof {
            assert(rest@.len() == 0);
            assert(spec_chunk_stream_ok(rest@));
            assert(spec_chunk_stream_ok(orig));
            assert(spec_parse_chunks(rest@) =~= Seq::<ChunkModel>::empty());
            assert(spec_parse_chunks(orig) =~= views_of(chunks@));
        }
        let m = chunks.len();
        if m == 0 {
            return Err(PngError::BadChunkLayout);
        }
        if !chunk_has_type(&chunks[0], [73, 72, 68, 82]) {
            proof {
                assert([73u8, 72u8, 68u8, 82u8]@ =~= spec_header_type());
            }
            return Err(PngError::BadChunkLayout);
        }
        if !chunk_has_type(&chunks[m - 1], [73, 69, 78, 68]) {
            proof {
                assert([73u8, 72u8, 68u8, 82u8]@ =~= spec_header_type());
                assert([73u8, 69u8, 78u8, 68u8]@ =~= spec_end_type());
            }
            return Err(PngError::BadChunkLayout);
        }
        proof {
            assert([73u8, 72u8, 68u8, 82u8]@ =~= spec_header_type());
            assert([73u8, 69u8, 78u8, 68u8]@ =~= spec_end_type());
        }
        Ok(Png { chunks })
    }

    /// The wire form: the signature, then every chunk in order.
    pub fn as_bytes(&self) -> (r: Vec<u8>)
        requires
            self.chunks_wf(),
        ensures
            r@ == spec_signature() + spec_chunks_bytes(self@),
    {
        let mut out: Vec<u8> = Vec::new();
        out.push(137);
        out.push(80);
        out.push(78);
        out.push(71);
        out.push(13);
        out.push(10);
        out.push(26);
        out.push(10);
        proof {
            assert(out@ =~= spec_signature());
            assert(self@.take(0) =~= Seq::<ChunkModel>::empty());
            assert(out@ =~= spec_signature() + spec_chunks_bytes(self@.take(0)));
        }
        let m = self.chunks.len();
        let mut i: usize = 0;
        while i < m
            invariant
                m == self.chunks@.len(),
                i <= m,
                self.chunks_wf(),
                out@ == spec_signature() + spec_chunks_bytes(self@.take(i as int)),
            decreases m - i,
        {
            proof {
                assert(self@[i as int] == self.chunks@[i as int]@);
                assert(self@.take(i as int + 1) =~= self@.take(i as int).push(self@[i as int]));
                lemma_chunks_bytes_push(self@.take(i as int), self@[i as int]);
            }
            let mut cb = self.chunks[i].as_bytes();
            out.append(&mut cb);
            i += 1;
        }
        proof {
            assert(self@.take(m as int) =~= self@);
        }
        out
    }

    /// Inserts a chunk immediately before the end marker, so the structural
    /// rule survives every append.
    pub fn append_chunk(&mut self, chunk: Chunk)
        requires
            old(self).wf(),
            chunk.wf(),
        ensures
            final(self)@ == old(self)@.insert(old(self)@.len() - 1, chunk@),
            final(self).wf(),
    {
        let n = self.chunks.len();
        proof {
            assert(spec_header_type()[1] != spec_end_type()[1]);
            assert(n >= 2);
        }
        self.chunks.insert(n - 1, chunk);
        proof {
            assert(final(self)@ =~= old(self)@.insert(old(self)@.len() - 1, chunk@));
        }
    }

    /// Finds the index of the first chunk whose type text equals the query.
    fn find_first_index(&self, chunk_type: &str) -> (r: Option<usize>)
        requires
            forall|i: int| 0 <= i < self@.len() ==> (#[trigger] self@[i]).wf(),
        ensures
            r is Some <==> spec_find_chunk(self@, chunk_type@) >= 0,
            r is Some ==> r->0 == spec_find_chunk(self@, chunk_type@),
    {
        if chunk_type.unicode_len() != 4 || !chunk_type.is_ascii() {
            proof {
                assert forall|j: int| 0 <= j < self@.len() implies !spec_type_matches(
                    #[trigger] self@[j],
                    chunk_type@,
                ) by {
                    let tc = self@[j].type_code;
                    if ascii_chars_of(tc) == chunk_type@ {
                        assert(chunk_type@.len() == 4);
                        assert forall|k: int| 0 <= k < chunk_type@.len() implies '\0'
                            <= #[trigger] chunk_type@[k] <= '\u{7f}' by {
                            assert(chunk_type@[k] == ascii_chars_of(tc)[k]);
                            assert(is_ascii_byte(tc[k]));
                        }
                        assert(is_ascii_chars(chunk_type@));
                    }
                }
                lemma_find_chunk_none(self@, chunk_type@);
            }
            return None;
        }
        let q0 = chunk_type.get_ascii(0);
        let q1 = chunk_type.get_ascii(1);
        let q2 = chunk_type.get_ascii(2);
        let q3 = chunk_type.get_ascii(3);
        let q = [q0, q1, q2, q3];
        proof {
            assert forall|j: int| 0 <= j < self@.len() implies (spec_type_matches(
                #[trigger] self@[j],
                chunk_type@,
            ) <==> self@[j].type_code == q@) by {
                let tc = self@[j].type_code;
                assert(tc.len() == 4);
                lemma_ascii_char_eq(tc[0], chunk_type@[0]);
                lemma_ascii_char_eq(tc[1], chunk_type@[1]);
                lemma_ascii_char_eq(tc[2], chunk_type@[2]);
                lemma_ascii_char_eq(tc[3], chunk_type@[3]);
                if ascii_chars_of(tc) == chunk_type@ {
                    assert(forall|k: int|
                        0 <= k < 4 ==> ascii_chars_of(tc)[k] == #[trigger] chunk_type@[k]);
                    assert(tc =~= q@);
                }
                if tc == q@ {
                    assert(ascii_chars_of(tc) =~= chunk_type@);
                }
            }
        }
        let m = self.chunks.len();
        let mut i: usize = 0;
        while i < m
            invariant
                m == self.chunks@.len(),
                i <= m,
                forall|j: int| 0 <= j < self@.len() ==> (#[trigger] self@[j]).wf(),
                forall|j: int|
                    0 <= j < self@.len() ==> (spec_type_matches(#[trigger] self@[j], chunk_type@)
                        <==> self@[j].type_code == q@),
                forall|j: int|
                    0 <= j < i ==> !spec_type_matches(#[trigger] self@[j], chunk_type@),
            decreases m - i,
        {
            proof {
                assert(self@[i as int] == self.chunks@[i as int]@);
            }
            if chunk_has_type(&self.chunks[i], q) {
                proof {
                    lemma_find_chunk_at(self@, chunk_type@, i as int);
                }
                return Some(i);
            }
            i += 1;
        }
        proof {
            lemma_find_chunk_none(self@, chunk_type@);
        }
        None
    }

    /// Returns the first chunk whose type text equals the query, if any.
    /// The query need not be a spec-valid type code: the tool's own marker
    /// types are deliberately non-conforming.
    pub fn chunk_by_type(&self, chunk_type: &str) -> (r: Option<&Chunk>)
        requires
            self.wf(),
        ensures
            r is Some <==> spec_find_chunk(self@, chunk_type@) >= 0,
            r is Some ==> r->0@ == self@[spec_find_chunk(self@, chunk_type@)]
                && r->0.wf(),
    {
        proof {
            lemma_find_chunk_props(self@, chunk_type@);
        }
        match self.find_first_index(chunk_type) {
            Some(i) => Some(&self.chunks[i]),
            None => None,
        }
    }

    /// Removes and returns the first chunk whose type text equals the
    /// query; fails without touching the container when none matches.
    /// Removing anything but the header or the end marker keeps the
    /// container well formed.
    pub fn remove_first_chunk(&mut self, chunk_type: &str) -> (r: Result<Chunk, PngError>)
        requires
            old(self).wf(),
        ensures
            r is Ok <==> spec_find_chunk(old(self)@, chunk_type@) >= 0,
            r is Err ==> r->Err_0 == PngError::ChunkNotFound && final(self)@ == old(self)@,
            r is Ok ==> {
                let i = spec_find_chunk(old(self)@, chunk_type@);
                &&& r->Ok_0@ == old(self)@[i]
                &&& r->Ok_0.wf()
                &&& final(self)@ == old(self)@.remove(i)
                &&& final(self).chunks_wf()
            },
            r is Ok && !spec_type_matches(old(self)@[0], chunk_type@) && !spec_type_matches(
                old(self)@[old(self)@.len() - 1],
                chunk_type@,
            ) ==> final(self).wf(),
    {
        proof {
            lemma_find_chunk_props(self@, chunk_type@);
            assert(spec_header_type()[1] != spec_end_type()[1]);
            assert(old(self)@.len() >= 2);
        }
        match self.find_first_index(chunk_type) {
            Some(i) => {
                let c = self.chunks.remove(i);
                proof {
                    let ghost iv = i as int;
                    assert(c@ == old(self)@[iv]);
                    assert(final(self)@ =~= old(self)@.remove(iv));
                    if !spec_type_matches(old(self)@[0], chunk_type@) && !spec_type_matches(
                        old(self)@[old(self)@.len() - 1],
                        chunk_type@,
                    ) {
                        assert(iv != 0 && iv != old(self)@.len() - 1);
                        assert(final(self)@[0] == old(self)@[0]);
                        assert(final(self)@[final(self)@.len() - 1] == old(self)@[old(
                            self,
                        )@.len() - 1]);
                    }
                }
                Ok(c)
            }
            None => Err(PngError::ChunkNotFound),
        }
    }

    /// The chunks in their current order, for enumeration.
    pub fn chunks(&self) -> (r: &Vec<Chunk>)
        ensures
            r@.len() == self@.len(),
            forall|i: int| 0 <= i < r@.len() ==> (#[trigger] r@[i])@ == self@[i],
    {
        &self.chunks
    }
}

} // verus!
