use pngme::chunk::{Chunk, ChunkError};
use pngme::chunk_type::{is_5th_bit_set, ChunkType, ChunkTypeError};
use pngme::png::{Png, PngError};
use pngme::{decode, encode, print_chunks, remove, Error};

fn chunk_bytes(type_text: &str, data: &[u8]) -> Vec<u8> {
    let ct = ChunkType::from_text(type_text).unwrap();
    Chunk::new(ct, data.to_vec()).as_bytes()
}

fn png_bytes_from(chunks: &[Vec<u8>]) -> Vec<u8> {
    let mut out: Vec<u8> = vec![137, 80, 78, 71, 13, 10, 26, 10];
    for c in chunks {
        out.extend_from_slice(c);
    }
    out
}

fn testing_png_bytes() -> Vec<u8> {
    png_bytes_from(&[
        chunk_bytes("IHDR", &[0; 13]),
        chunk_bytes("IDAT", &[1, 2, 3, 4]),
        chunk_bytes("IEND", &[]),
    ])
}

#[test]
fn test_png_parse_and_serialize_roundtrip() {
    let bytes = testing_png_bytes();
    let png = Png::parse(bytes.as_slice()).unwrap();
    assert_eq!(png.chunks().len(), 3);
    assert_eq!(png.as_bytes(), bytes);
}

#[test]
fn test_png_parse_rejects_bad_signature() {
    let mut bytes = testing_png_bytes();
    bytes[0] = 0;
    assert!(matches!(
        Png::parse(bytes.as_slice()),
        Err(PngError::NotAPng)
    ));
    assert!(matches!(Png::parse(&[137, 80]), Err(PngError::NotAPng)));
}

#[test]
fn test_png_parse_rejects_trailing_garbage() {
    let mut bytes = testing_png_bytes();
    bytes.push(7);
    assert!(matches!(
        Png::parse(bytes.as_slice()),
        Err(PngError::MalformedChunkStream { .. })
    ));
}

#[test]
fn test_png_parse_rejects_truncated_chunk() {
    let bytes = testing_png_bytes();
    // Cut the stream in the middle of the IDAT chunk.
    let cut = &bytes[..bytes.len() - 20];
    assert!(matches!(
        Png::parse(cut),
        Err(PngError::MalformedChunkStream {
            source: ChunkError::Truncated
        })
    ));
}

#[test]
fn test_png_parse_rejects_overlong_declared_length() {
    // One chunk whose length field claims far more payload than follows.
    let mut bytes: Vec<u8> = vec![137, 80, 78, 71, 13, 10, 26, 10];
    bytes.extend_from_slice(&[0xff, 0xff, 0xff, 0xff]);
    bytes.extend_from_slice("IHDR".as_bytes());
    bytes.extend_from_slice(&[0; 16]);
    assert!(matches!(
        Png::parse(bytes.as_slice()),
        Err(PngError::MalformedChunkStream {
            source: ChunkError::Truncated
        })
    ));
}

#[test]
fn test_png_parse_rejects_misplaced_header() {
    let bytes = png_bytes_from(&[
        chunk_bytes("IDAT", &[1, 2, 3]),
        chunk_bytes("IEND", &[]),
    ]);
    assert!(matches!(
        Png::parse(bytes.as_slice()),
        Err(PngError::BadChunkLayout)
    ));
    let no_end = png_bytes_from(&[chunk_bytes("IHDR", &[0; 13])]);
    assert!(matches!(
        Png::parse(no_end.as_slice()),
        Err(PngError::BadChunkLayout)
    ));
    let empty = png_bytes_from(&[]);
    assert!(matches!(
        Png::parse(empty.as_slice()),
        Err(PngError::BadChunkLayout)
    ));
}

#[test]
fn test_chunk_parse_rejects_flipped_bits() {
    // Flipping any single bit of the type code or payload of a serialized
    // chunk must make parsing fail; while the type code stays ASCII the
    // failure is the CRC check.
    let ct = ChunkType::from_text("RuSt").unwrap();
    let serialized = Chunk::new(ct, b"secret".to_vec()).as_bytes();
    let payload_end = serialized.len() - 4;
    for byte_index in 4..payload_end {
        for bit in 0..8 {
            let mut corrupted = serialized.clone();
            corrupted[byte_index] ^= 1 << bit;
            let result = Chunk::parse(corrupted.as_slice());
            assert!(result.is_err());
            let type_code_ascii = corrupted[4..8].iter().all(|b| *b <= 127);
            if type_code_ascii {
                assert!(matches!(result, Err(ChunkError::InvalidCRC)));
            } else {
                assert!(matches!(result, Err(ChunkError::InvalidChunkType)));
            }
        }
    }
}

#[test]
fn test_append_then_remove_restores_container() {
    let bytes = testing_png_bytes();
    let mut png = Png::parse(bytes.as_slice()).unwrap();
    let ct = ChunkType::from_text("RuSt").unwrap();
    png.append_chunk(Chunk::new(ct, b"hidden".to_vec()));
    assert_eq!(png.chunks().len(), 4);
    // The appended chunk sits immediately before the end marker.
    assert_eq!(png.chunks()[2].chunk_type().to_text(), "RuSt");
    assert_eq!(png.chunks()[3].chunk_type().to_text(), "IEND");

    let removed = png.remove_first_chunk("RuSt").unwrap();
    assert_eq!(removed.chunk_type().to_text(), "RuSt");
    assert_eq!(removed.data(), b"hidden".as_slice());
    assert_eq!(png.as_bytes(), bytes);
}

#[test]
fn test_structural_invariants_after_mutations() {
    let bytes = testing_png_bytes();
    let mut png = Png::parse(bytes.as_slice()).unwrap();
    let ct = ChunkType::from_text("RuSt").unwrap();
    png.append_chunk(Chunk::new(ct, b"one".to_vec()));
    let ct2 = ChunkType::from_text("TeXt").unwrap();
    png.append_chunk(Chunk::new(ct2, b"two".to_vec()));
    png.remove_first_chunk("RuSt").unwrap();
    let chunks = png.chunks();
    assert_eq!(chunks[0].chunk_type().to_text(), "IHDR");
    assert_eq!(chunks[chunks.len() - 1].chunk_type().to_text(), "IEND");
}

#[test]
fn test_chunk_by_type_finds_first_match() {
    let bytes = png_bytes_from(&[
        chunk_bytes("IHDR", &[0; 13]),
        chunk_bytes("RuSt", b"first"),
        chunk_bytes("RuSt", b"second"),
        chunk_bytes("IEND", &[]),
    ]);
    let png = Png::parse(bytes.as_slice()).unwrap();
    let found = png.chunk_by_type("RuSt").unwrap();
    assert_eq!(found.data(), b"first".as_slice());
    assert!(png.chunk_by_type("ruSt").is_none());
    assert!(png.chunk_by_type("RuSttoolong").is_none());
}

#[test]
fn test_encode_then_decode_returns_message() {
    let bytes = testing_png_bytes();
    let encoded = encode(bytes.as_slice(), "RuSt", "secret").unwrap();
    let message = decode(encoded.as_slice(), "RuSt").unwrap();
    assert_eq!(message, "secret");
}

#[test]
fn test_decode_absent_type_returns_sentinel() {
    let bytes = testing_png_bytes();
    let message = decode(bytes.as_slice(), "RuSt").unwrap();
    assert_eq!(message, "No secret message found");
}

#[test]
fn test_decode_preserves_multibyte_text() {
    let bytes = testing_png_bytes();
    let encoded = encode(bytes.as_slice(), "RuSt", "gru\u{df} \u{263a}").unwrap();
    let message = decode(encoded.as_slice(), "RuSt").unwrap();
    assert_eq!(message, "gru\u{df} \u{263a}");
}

#[test]
fn test_decode_rejects_non_utf8_payload() {
    let bytes = testing_png_bytes();
    let mut png = Png::parse(bytes.as_slice()).unwrap();
    let ct = ChunkType::from_text("RuSt").unwrap();
    png.append_chunk(Chunk::new(ct, vec![0xff, 0xfe, 0xfd]));
    let out = png.as_bytes();
    assert!(matches!(
        decode(out.as_slice(), "RuSt"),
        Err(Error::StrConversion)
    ));
}

#[test]
fn test_encode_rejects_invalid_chunk_type() {
    let bytes = testing_png_bytes();
    let result = encode(bytes.as_slice(), "Rust", "secret");
    match result {
        Err(Error::InvalidChunkType { chunk_type, source }) => {
            assert_eq!(chunk_type, "Rust");
            assert!(matches!(source, ChunkTypeError::InvalidReservedBit));
        }
        _ => panic!("expected an invalid chunk type error"),
    }
    assert!(matches!(
        encode(bytes.as_slice(), "Ru1t", "secret"),
        Err(Error::InvalidChunkType {
            source: ChunkTypeError::NonAlpha,
            ..
        })
    ));
}

#[test]
fn test_encode_rejects_malformed_png() {
    let result = encode(&[1, 2, 3], "RuSt", "secret");
    assert!(matches!(
        result,
        Err(Error::PNGParse {
            source: PngError::NotAPng
        })
    ));
}

#[test]
fn test_remove_roundtrip_and_missing() {
    let bytes = testing_png_bytes();
    let encoded = encode(bytes.as_slice(), "RuSt", "secret").unwrap();
    let removed = remove(encoded.as_slice(), "RuSt").unwrap();
    assert_eq!(removed, bytes);
    match remove(bytes.as_slice(), "RuSt") {
        Err(Error::ChunkNotFound { chunk_type }) => assert_eq!(chunk_type, "RuSt"),
        _ => panic!("expected a chunk not found error"),
    }
}

#[test]
fn test_print_chunks_lines() {
    let bytes = png_bytes_from(&[
        chunk_bytes("IHDR", &[0; 13]),
        chunk_bytes("RuSt", "This is where your secret message will be!".as_bytes()),
        chunk_bytes("IEND", &[]),
    ]);
    let lines = print_chunks(bytes.as_slice()).unwrap();
    assert_eq!(lines.len(), 3);
    assert_eq!(
        lines[1],
        "Chunk {\n  Length: 42\n  Type: RuSt\n  Data: 42 bytes\n  Crc: 2882656334\n}\n"
    );
    assert!(lines[0].starts_with("Chunk {\n  Length: 13\n  Type: IHDR\n"));
    assert_eq!(
        lines[2],
        "Chunk {\n  Length: 0\n  Type: IEND\n  Data: 0 bytes\n  Crc: 2923585666\n}\n"
    );
}

#[test]
fn test_print_chunks_rejects_malformed_png() {
    assert!(matches!(
        print_chunks(&[0, 1, 2]),
        Err(Error::PNGParse {
            source: PngError::NotAPng
        })
    ));
}

#[test]
fn test_chunk_type_text_error_variants() {
    assert!(matches!(
        ChunkType::from_text("abc"),
        Err(ChunkTypeError::WrongLength)
    ));
    assert!(matches!(
        ChunkType::from_text("RuStx"),
        Err(ChunkTypeError::WrongLength)
    ));
    match ChunkType::from_text("Ru\u{e9}t") {
        Err(ChunkTypeError::NonAsciiStr { value }) => assert_eq!(value, "Ru\u{e9}t"),
        _ => panic!("expected a non-ascii text error"),
    }
    assert!(matches!(
        ChunkType::from_text("Ru1t"),
        Err(ChunkTypeError::NonAlpha)
    ));
    assert!(matches!(
        ChunkType::from_text("Rust"),
        Err(ChunkTypeError::InvalidReservedBit)
    ));
}

#[test]
fn test_chunk_type_from_bytes_rejects_non_ascii() {
    match ChunkType::from_bytes([82, 200, 83, 116]) {
        Err(ChunkTypeError::NonAsciiChar { value }) => assert_eq!(value, 200),
        _ => panic!("expected a non-ascii byte error"),
    }
    // Raw bytes only need to be ASCII: a spec-invalid code stays
    // constructible and reports itself invalid.
    let ct = ChunkType::from_bytes([82, 117, 115, 116]).unwrap();
    assert!(!ct.is_valid());
}

#[test]
fn test_data_as_string_rejects_non_utf8() {
    let ct = ChunkType::from_text("RuSt").unwrap();
    let chunk = Chunk::new(ct, vec![0xc3, 0x28]);
    assert!(matches!(chunk.data_as_string(), Err(ChunkError::NotUtf8)));
}

#[test]
fn test_is_5th_bit_set_on_letter_cases() {
    assert!(is_5th_bit_set(b'a'));
    assert!(is_5th_bit_set(b'z'));
    assert!(!is_5th_bit_set(b'A'));
    assert!(!is_5th_bit_set(b'Z'));
    assert!(!is_5th_bit_set(b'1'));
}

#[test]
fn test_chunk_serialize_parse_roundtrip() {
    let ct = ChunkType::from_text("RuSt").unwrap();
    let chunk = Chunk::new(ct, b"any payload at all".to_vec());
    let mut bytes = chunk.as_bytes();
    bytes.extend_from_slice(b"trailing");
    let (parsed, rest) = Chunk::parse(bytes.as_slice()).unwrap();
    assert_eq!(parsed.chunk_type().bytes(), [82, 117, 83, 116]);
    assert_eq!(parsed.data(), b"any payload at all".as_slice());
    assert_eq!(parsed.crc(), chunk.crc());
    assert_eq!(rest, b"trailing");
}
