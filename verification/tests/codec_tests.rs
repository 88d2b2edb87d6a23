use pngme::args::{Config, ConfigError};
use pngme::chunk::Chunk;
use pngme::chunk_type::ChunkType;
use pngme::check_string;
use pngme::commands::{Commands, DataCommand, EncodeCommand, OperationResult};
use pngme::error::FormatError;
use pngme::operation;
use pngme::png::Png;

fn chunk_of(type_text: &str, payload: &str) -> Chunk {
    let chunk_type = ChunkType::from_str(type_text).unwrap();
    Chunk::new(chunk_type, payload.as_bytes().to_vec())
}

fn sample_png() -> Png {
    let mut png = Png::new();
    png.append_chunk(chunk_of("FrSt", "I am the first chunk"));
    png.append_chunk(chunk_of("miDl", "I am another chunk"));
    png.append_chunk(chunk_of("LASt", "I am the last chunk"));
    png
}

#[test]
fn chunk_round_trip_preserves_every_field() {
    let chunk = chunk_of("RuSt", "This is where your secret message will be!");
    let bytes = chunk.as_bytes();
    let reparsed = Chunk::parse(bytes.as_slice()).unwrap();
    assert_eq!(reparsed.length(), chunk.length());
    assert_eq!(reparsed.chunk_type(), chunk.chunk_type());
    assert_eq!(reparsed.data(), chunk.data());
    assert_eq!(reparsed.crc(), chunk.crc());
    assert_eq!(reparsed, chunk);
}

#[test]
fn empty_payload_chunk_round_trips() {
    let chunk = chunk_of("teSt", "");
    assert_eq!(chunk.length(), 0);
    let bytes = chunk.as_bytes();
    assert_eq!(bytes.len(), 12);
    let reparsed = Chunk::parse(bytes.as_slice()).unwrap();
    assert_eq!(reparsed, chunk);
}

#[test]
fn png_round_trip_preserves_chunk_order() {
    let png = sample_png();
    let bytes = png.as_bytes();
    let reparsed = Png::parse(bytes.as_slice()).unwrap();
    assert_eq!(reparsed, png);
    assert_eq!(reparsed.chunks.len(), 3);
    assert_eq!(reparsed.chunks[0].chunk_type().to_text(), "FrSt");
    assert_eq!(reparsed.chunks[1].chunk_type().to_text(), "miDl");
    assert_eq!(reparsed.chunks[2].chunk_type().to_text(), "LASt");
}

#[test]
fn empty_png_round_trips() {
    let png = Png::new();
    let bytes = png.as_bytes();
    assert_eq!(bytes.len(), 8);
    let reparsed = Png::parse(bytes.as_slice()).unwrap();
    assert_eq!(reparsed.chunks.len(), 0);
}

#[test]
fn flipping_any_type_or_payload_byte_is_detected() {
    let chunk = chunk_of("ruSt", "hidden");
    let bytes = chunk.as_bytes();
    let payload_end = 8 + chunk.length() as usize;
    for i in 4..payload_end {
        let mut corrupted = bytes.clone();
        corrupted[i] ^= 0x01;
        assert_eq!(
            Chunk::parse(corrupted.as_slice()),
            Err(FormatError::ChecksumMismatch)
        );
    }
}

#[test]
fn every_strict_prefix_is_reported_truncated() {
    let chunk = chunk_of("ruSt", "hidden");
    let bytes = chunk.as_bytes();
    for k in 0..bytes.len() {
        let prefix = &bytes[..k];
        assert_eq!(Chunk::parse(prefix), Err(FormatError::Truncated));
    }
}

#[test]
fn lying_length_fields_are_reported_truncated() {
    let chunk = chunk_of("ruSt", "hidden");
    let mut bytes = chunk.as_bytes();
    // A declared length far past the end of the buffer.
    bytes[0] = 0xff;
    bytes[1] = 0xff;
    bytes[2] = 0xff;
    bytes[3] = 0xff;
    assert_eq!(Chunk::parse(bytes.as_slice()), Err(FormatError::Truncated));
    // A declared length shorter than the bytes that follow.
    let mut bytes = chunk.as_bytes();
    bytes[3] = 1;
    assert_eq!(Chunk::parse(bytes.as_slice()), Err(FormatError::Truncated));
}

#[test]
fn validity_depends_on_case_alone() {
    assert!(ChunkType::from_str("RuSt").unwrap().is_valid());
    assert!(ChunkType::from_str("AbCd").unwrap().is_valid());
    assert!(!ChunkType::from_str("Rust").unwrap().is_valid());
    assert!(!ChunkType::from_str("RUSt").unwrap().is_valid());
    assert!(!ChunkType::from_str("ABcd").unwrap().is_valid());
    // A binary-parsed tag whose public byte is not a letter at all is
    // not lowercase, so it is invalid.
    assert!(!ChunkType::new([65, 49, 83, 116]).is_valid());
}

#[test]
fn append_then_remove_restores_the_container() {
    let before = sample_png();
    let appended = chunk_of("teXt", "only one of my type");
    let mut png = sample_png();
    png.append_chunk(Chunk::new(
        appended.chunk_type(),
        appended.data().to_vec(),
    ));
    let removed = png.remove_chunk("teXt").unwrap();
    assert_eq!(removed, appended);
    assert_eq!(png, before);
}

#[test]
fn remove_takes_only_the_first_of_duplicates() {
    let mut png = sample_png();
    png.append_chunk(chunk_of("dupE", "first copy"));
    png.append_chunk(chunk_of("dupE", "second copy"));
    let removed = png.remove_chunk("dupE").unwrap();
    assert_eq!(removed.data_as_string().unwrap(), "first copy");
    let left = png.chunk_by_type("dupE").unwrap();
    assert_eq!(left.data_as_string().unwrap(), "second copy");
}

#[test]
fn find_returns_the_first_of_duplicates() {
    let mut png = sample_png();
    png.append_chunk(chunk_of("dupE", "first copy"));
    png.append_chunk(chunk_of("dupE", "second copy"));
    let found = png.chunk_by_type("dupE").unwrap();
    assert_eq!(found.data_as_string().unwrap(), "first copy");
}

#[test]
fn known_chunk_has_expected_length_and_checksum() {
    let chunk = chunk_of("RuSt", "This is where your secret message will be!");
    assert_eq!(chunk.length(), 42);
    assert_eq!(chunk.crc(), 2882656334);

    let mut bytes = chunk.as_bytes();
    let last = bytes.len() - 1;
    bytes[last] = bytes[last].wrapping_add(1);
    assert_eq!(
        Chunk::parse(bytes.as_slice()),
        Err(FormatError::ChecksumMismatch)
    );
}

#[test]
fn checksum_matches_the_published_check_value() {
    // CRC-32/ISO-HDLC of "123456789" is 0xcbf43926; feed the digits
    // through a chunk whose (type ++ payload) is exactly those bytes.
    let digits = Chunk::new(ChunkType::new(*b"1234"), "56789".as_bytes().to_vec());
    assert_eq!(digits.crc(), 0xcbf43926);
}

#[test]
fn absence_is_not_an_error_for_lookup() {
    let png = sample_png();
    assert!(png.chunk_by_type("zzzz").is_none());
}

#[test]
fn absence_is_an_error_only_for_removal() {
    let mut png = sample_png();
    let before = sample_png();
    assert_eq!(png.remove_chunk("zzzz"), Err(FormatError::ChunkNotFound));
    assert_eq!(png, before);
}

#[test]
fn encode_then_decode_yields_the_message() {
    let mut png = sample_png();
    png.append_chunk(chunk_of("teSt", "hello"));
    let bytes = png.as_bytes();
    let reparsed = Png::parse(bytes.as_slice()).unwrap();
    let found = reparsed.chunk_by_type("teSt").unwrap();
    assert_eq!(found.data_as_string().unwrap(), "hello");
}

#[test]
fn bad_magic_is_rejected() {
    let png = sample_png();
    let mut bytes = png.as_bytes();
    bytes[0] = 0;
    assert_eq!(
        Png::parse(bytes.as_slice()),
        Err(FormatError::BadSignature)
    );
    assert_eq!(Png::parse(&[]), Err(FormatError::BadSignature));
    assert_eq!(Png::parse(&[137, 80]), Err(FormatError::BadSignature));
}

#[test]
fn corrupt_chunk_aborts_the_whole_container_parse() {
    let png = sample_png();
    let mut bytes = png.as_bytes();
    bytes[8 + 4] ^= 0x20;
    assert_eq!(
        Png::parse(bytes.as_slice()),
        Err(FormatError::ChecksumMismatch)
    );
    let intact = png.as_bytes();
    let cut = &intact[..intact.len() - 3];
    assert_eq!(Png::parse(cut), Err(FormatError::Truncated));
}

#[test]
fn type_text_is_validated() {
    assert_eq!(ChunkType::from_str("abc"), Err(FormatError::InvalidLength));
    assert_eq!(
        ChunkType::from_str("abcde"),
        Err(FormatError::InvalidLength)
    );
    assert_eq!(
        ChunkType::from_str("ab1d"),
        Err(FormatError::InvalidCharacter)
    );
    assert_eq!(ChunkType::from_str("abcd").unwrap().bytes(), *b"abcd");
}

#[test]
fn type_text_round_trips_with_mixed_case() {
    let chunk_type = ChunkType::from_str("rUsT").unwrap();
    assert_eq!(chunk_type.to_text(), "rUsT");
    assert_eq!(chunk_type.bytes(), *b"rUsT");
}

#[test]
fn non_text_payload_is_reported() {
    let chunk_type = ChunkType::from_str("binA").unwrap();
    let chunk = Chunk::new(chunk_type, vec![0xff, 0xfe, 0x00]);
    assert_eq!(chunk.data_as_string(), Err(FormatError::InvalidEncoding));
}

#[test]
fn chunk_renders_to_one_line() {
    let chunk = chunk_of("ruSt", "hi");
    assert_eq!(
        chunk.to_text(),
        "chunk length is 2 and chunk_type ruSt and chunk data hi and chuck crc is 3574610501 "
    );
}

#[test]
fn numbers_render_in_decimal() {
    assert_eq!(pngme::text::u32_to_text(0), "0");
    assert_eq!(pngme::text::u32_to_text(42), "42");
    assert_eq!(pngme::text::u32_to_text(u32::MAX), "4294967295");
}

#[test]
fn check_string_rejects_only_empty_text() {
    assert_eq!(check_string(""), None);
    assert_eq!(check_string("out.png"), Some("out.png"));
}

#[test]
fn config_build_validates_its_arguments() {
    let no_args: Vec<String> = vec!["prog".to_string()];
    assert!(matches!(
        Config::build(&no_args, Vec::new()),
        Err(ConfigError::NotEnoughArguments)
    ));

    let bad_type = vec![
        "prog".to_string(),
        "decode".to_string(),
        "file.png".to_string(),
        "to0o".to_string(),
    ];
    assert!(matches!(
        Config::build(&bad_type, Vec::new()),
        Err(ConfigError::InvalidType(FormatError::InvalidCharacter))
    ));

    let decode = vec![
        "prog".to_string(),
        "decode".to_string(),
        "file.png".to_string(),
        "ruSt".to_string(),
    ];
    let config = Config::build(&decode, vec![1, 2, 3]).unwrap();
    match config.command {
        Commands::Decode(d) => {
            assert_eq!(d.data(), &vec![1, 2, 3]);
            assert_eq!(d.chunk_type().to_text(), "ruSt");
        }
        _ => panic!("expected a decode command"),
    }

    let encode = vec![
        "prog".to_string(),
        "encode".to_string(),
        "file.png".to_string(),
        "ruSt".to_string(),
        "a message".to_string(),
        "out".to_string(),
    ];
    let config = Config::build(&encode, vec![9]).unwrap();
    match config.command {
        Commands::Encode(e) => {
            assert_eq!(e.message(), "a message");
            assert_eq!(e.output(), "out");
            assert_eq!(e.data(), &vec![9]);
        }
        _ => panic!("expected an encode command"),
    }
}

#[test]
fn operation_encodes_decodes_removes_and_prints() {
    let base_bytes = sample_png().as_bytes();
    let chunk_type = ChunkType::from_str("seCr").unwrap();

    let encode = Config {
        command: Commands::Encode(EncodeCommand::new(
            base_bytes.clone(),
            chunk_type,
            "hello".to_string(),
            String::new(),
        )),
    };
    let encoded = match operation(&encode).unwrap() {
        OperationResult::EncodedPng(p) => p,
        _ => panic!("expected an encoded container"),
    };
    let encoded_bytes = encoded.as_bytes();

    let decode = Config {
        command: Commands::Decode(DataCommand::new(encoded_bytes.clone(), chunk_type)),
    };
    match operation(&decode).unwrap() {
        OperationResult::DecodedMessage(message) => assert_eq!(message, "hello"),
        _ => panic!("expected a decoded message"),
    }

    let decode_missing = Config {
        command: Commands::Decode(DataCommand::new(base_bytes.clone(), chunk_type)),
    };
    match operation(&decode_missing).unwrap() {
        OperationResult::DecodedMessage(message) => assert_eq!(message, "Chunk not found"),
        _ => panic!("expected a decoded message"),
    }

    let remove = Config {
        command: Commands::Remove(DataCommand::new(encoded_bytes.clone(), chunk_type)),
    };
    match operation(&remove).unwrap() {
        OperationResult::RemovedChunk(chunk) => {
            assert_eq!(chunk.data_as_string().unwrap(), "hello");
        }
        _ => panic!("expected a removed chunk"),
    }

    let print = Config {
        command: Commands::Print(DataCommand::new(encoded_bytes, chunk_type)),
    };
    match operation(&print).unwrap() {
        OperationResult::PrintedInfo(found) => assert_eq!(found.to_text(), "seCr"),
        _ => panic!("expected printed info"),
    }

    let print_missing = Config {
        command: Commands::Print(DataCommand::new(base_bytes, chunk_type)),
    };
    assert_eq!(
        operation(&print_missing).unwrap_err(),
        FormatError::ChunkNotFound
    );
}
