use pngme::chunk::Chunk;
use pngme::chunk_type::ChunkType;

fn testing_chunk() -> Chunk {
    let data_length: u32 = 42;
    let chunk_type = "RuSt".as_bytes();
    let message_bytes = "This is where your secret message will be!".as_bytes();
    let crc: u32 = 2882656334;

    let mut chunk_data: Vec<u8> = Vec::new();
    chunk_data.extend_from_slice(&data_length.to_be_bytes());
    chunk_data.extend_from_slice(chunk_type);
    chunk_data.extend_from_slice(message_bytes);
    chunk_data.extend_from_slice(&crc.to_be_bytes());

    Chunk::parse(chunk_data.as_slice()).unwrap()
}

#[test]
fn test_new_chunk() {
    let chunk_type = ChunkType::from_str("RuSt").unwrap();
    let data = "This is where your secret message will be!"
        .as_bytes()
        .to_vec();
    let chunk = Chunk::new(chunk_type, data);
    assert_eq!(chunk.length(), 42);
    assert_eq!(chunk.crc(), 2882656334);
}

#[test]
fn test_chunk_length() {
    let chunk = testing_chunk();
    assert_eq!(chunk.length(), 42);
}

#[test]
fn test_chunk_type() {
    let chunk = testing_chunk();
    println!("{}", chunk.chunk_type().to_text());
    assert_eq!(chunk.chunk_type().to_text(), String::from("RuSt"));
}

#[test]
fn test_chunk_string() {
    let chunk = testing_chunk();
    let chunk_string = chunk.data_as_string().unwrap();
    let expected_chunk_string = String::from("This is where your secret message will be!");
    assert_eq!(chunk_string, expected_chunk_string);
}

#[test]
fn test_chunk_crc() {
    let chunk = testing_chunk();
    assert_eq!(chunk.crc(), 2882656334);
}

#[test]
fn test_valid_chunk_from_bytes() {
    let data_length: u32 = 42;
    let chunk_type = "RuSt".as_bytes();
    let message_bytes = "This is where your secret message will be!".as_bytes();
    let crc: u32 = 2882656334;

    let mut chunk_data: Vec<u8> = Vec::new();
    chunk_data.extend_from_slice(&data_length.to_be_bytes());
    chunk_data.extend_from_slice(chunk_type);
    chunk_data.extend_from_slice(message_bytes);
    chunk_data.extend_from_slice(&crc.to_be_bytes());

    let chunk = Chunk::parse(chunk_data.as_slice()).unwrap();

    let chunk_string = chunk.data_as_string().unwrap();
    let expected_chunk_string = String::from("This is where your secret message will be!");

    assert_eq!(chunk.length(), 42);
    assert_eq!(chunk.chunk_type().to_text(), String::from("RuSt"));
    assert_eq!(chunk_string, expected_chunk_string);
    assert_eq!(chunk.crc(), 2882656334);
}

#[test]
fn test_invalid_chunk_from_bytes() {
    let data_length: u32 = 42;
    let chunk_type = "RuSt".as_bytes();
    let message_bytes = "This is where your secret message will be!".as_bytes();
    let crc: u32 = 2882656333;

    let mut chunk_data: Vec<u8> = Vec::new();
    chunk_data.extend_from_slice(&data_length.to_be_bytes());
    chunk_data.extend_from_slice(chunk_type);
    chunk_data.extend_from_slice(message_bytes);
    chunk_data.extend_from_slice(&crc.to_be_bytes());

    let chunk = Chunk::parse(chunk_data.as_slice());

    assert!(chunk.is_err());
}

#[test]
pub fn test_chunk_trait_impls() {
    let data_length: u32 = 42;
    let chunk_type = "RuSt".as_bytes();
    let message_bytes = "This is where your secret message will be!".as_bytes();
    let crc: u32 = 2882656334;

    let mut chunk_data: Vec<u8> = Vec::new();
    chunk_data.extend_from_slice(&data_length.to_be_bytes());
    chunk_data.extend_from_slice(chunk_type);
    chunk_data.extend_from_slice(message_bytes);
    chunk_data.extend_from_slice(&crc.to_be_bytes());

    let chunk: Chunk = Chunk::parse(chunk_data.as_slice()).unwrap();

    let _chunk_string = chunk.to_text();
}
