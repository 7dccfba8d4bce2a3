use pngme::chunk::{split_frame, write_frame, Chunk};
use pngme::chunk_type::ChunkType;
use pngme::error::PngError;
use std::str::FromStr;

const MESSAGE: &str = "This is where your secret message will be!";

fn chunk_bytes(data_length: u32, chunk_type: &str, message: &str, crc: u32) -> Vec<u8> {
    data_length
        .to_be_bytes()
        .iter()
        .chain(chunk_type.as_bytes().iter())
        .chain(message.as_bytes().iter())
        .chain(crc.to_be_bytes().iter())
        .copied()
        .collect()
}

fn testing_chunk() -> Chunk {
    let data_length: u32 = 42;
    let chunk_type = "RuSt".as_bytes();
    let message_bytes = "This is where your secret message will be!".as_bytes();
    let crc: u32 = 2882656334;

    let chunk_data: Vec<u8> = data_length
        .to_be_bytes()
        .iter()
        .chain(chunk_type.iter())
        .chain(message_bytes.iter())
        .chain(crc.to_be_bytes().iter())
        .copied()
        .collect();

    Chunk::try_from(chunk_data.as_ref()).unwrap()
}

#[test]
fn test_new_chunk() {
    let chunk_type = ChunkType::from_str("RuSt").unwrap();
    let data = "This is where your secret message will be!"
        .as_bytes()
        .to_vec();
    let chunk = Chunk::new(chunk_type, data);
    assert_eq!(chunk.length(), 42);
    assert_eq!(chunk.crc(), 2882656334);
}

#[test]
fn test_chunk_length() {
    let chunk = testing_chunk();
    assert_eq!(chunk.length(), 42);
}

#[test]
fn test_chunk_type() {
    let chunk = testing_chunk();
    assert_eq!(chunk.chunk_type().to_string(), String::from("RuSt"));
}

#[test]
fn test_chunk_string() {
    let chunk = testing_chunk();
    let chunk_string = chunk.data_as_string().unwrap();
    let expected_chunk_string = String::from("This is where your secret message will be!");
    assert_eq!(chunk_string, expected_chunk_string);
}

#[test]
fn test_chunk_crc() {
    let chunk = testing_chunk();
    assert_eq!(chunk.crc(), 2882656334);
}

#[test]
fn test_valid_chunk_from_bytes() {
    let data_length: u32 = 42;
    let chunk_type = "RuSt".as_bytes();
    let message_bytes = "This is where your secret message will be!".as_bytes();
    let crc: u32 = 2882656334;

    let chunk_data: Vec<u8> = data_length
        .to_be_bytes()
        .iter()
        .chain(chunk_type.iter())
        .chain(message_bytes.iter())
        .chain(crc.to_be_bytes().iter())
        .copied()
        .collect();

    let chunk = Chunk::try_from(chunk_data.as_ref()).unwrap();

    let chunk_string = chunk.data_as_string().unwrap();
    let expected_chunk_string = String::from("This is where your secret message will be!");

    assert_eq!(chunk.length(), 42);
    assert_eq!(chunk.chunk_type().to_string(), String::from("RuSt"));
    assert_eq!(chunk_string, expected_chunk_string);
    assert_eq!(chunk.crc(), 2882656334);
}

#[test]
fn test_invalid_chunk_from_bytes() {
    let data_length: u32 = 42;
    let chunk_type = "RuSt".as_bytes();
    let message_bytes = "This is where your secret message will be!".as_bytes();
    let crc: u32 = 2882656333;

    let chunk_data: Vec<u8> = data_length
        .to_be_bytes()
        .iter()
        .chain(chunk_type.iter())
        .chain(message_bytes.iter())
        .chain(crc.to_be_bytes().iter())
        .copied()
        .collect();

    let chunk = Chunk::try_from(chunk_data.as_ref());

    assert!(chunk.is_err());
}

#[test]
fn test_chunk_trait_impls() {
    let data_length: u32 = 42;
    let chunk_type = "RuSt".as_bytes();
    let message_bytes = "This is where your secret message will be!".as_bytes();
    let crc: u32 = 2882656334;

    let chunk_data: Vec<u8> = data_length
        .to_be_bytes()
        .iter()
        .chain(chunk_type.iter())
        .chain(message_bytes.iter())
        .chain(crc.to_be_bytes().iter())
        .copied()
        .collect();

    let chunk: Chunk = TryFrom::try_from(chunk_data.as_ref()).unwrap();

    let _chunk_string = chunk.to_string();
}

#[test]
fn wrong_checksum_is_a_crc_mismatch() {
    let bytes = chunk_bytes(42, "RuSt", MESSAGE, 2882656333);
    assert_eq!(Chunk::try_from(bytes.as_ref()), Err(PngError::CrcMismatch));
}

#[test]
fn new_chunk_keeps_type_and_payload() {
    let chunk_type = ChunkType::from_str("RuSt").unwrap();
    let chunk = Chunk::new(chunk_type, MESSAGE.as_bytes().to_vec());
    assert_eq!(chunk.chunk_type(), chunk_type);
    assert_eq!(chunk.data(), MESSAGE.as_bytes());
    assert_eq!(chunk.data_as_string(), Ok(String::from(MESSAGE)));
}

#[test]
fn as_bytes_is_length_type_data_crc() {
    let chunk_type = ChunkType::from_str("RuSt").unwrap();
    let chunk = Chunk::new(chunk_type, MESSAGE.as_bytes().to_vec());
    assert_eq!(chunk.as_bytes(), chunk_bytes(42, "RuSt", MESSAGE, 2882656334));
}

#[test]
fn end_chunk_has_the_known_bytes() {
    let chunk = Chunk::new(ChunkType::from_str("IEND").unwrap(), Vec::new());
    assert_eq!(chunk.length(), 0);
    assert_eq!(chunk.crc(), 0xae42_6082);
    assert_eq!(
        chunk.as_bytes(),
        vec![0, 0, 0, 0, 0x49, 0x45, 0x4e, 0x44, 0xae, 0x42, 0x60, 0x82]
    );
}

#[test]
fn parsing_serialized_chunk_gives_it_back() {
    let payloads: Vec<Vec<u8>> = vec![
        Vec::new(),
        vec![0],
        vec![0xff, 0xfe, 0x00, 0x80],
        MESSAGE.as_bytes().to_vec(),
        (0..=255u8).collect(),
    ];
    for data in payloads {
        let chunk = Chunk::new(ChunkType::from_str("teSt").unwrap(), data.clone());
        let parsed = Chunk::try_from(chunk.as_bytes().as_ref()).unwrap();
        assert_eq!(parsed.length(), chunk.length());
        assert_eq!(parsed.chunk_type(), chunk.chunk_type());
        assert_eq!(parsed.data(), chunk.data());
        assert_eq!(parsed.crc(), chunk.crc());
        assert_eq!(parsed, chunk);
        assert_eq!(parsed.data(), data.as_slice());
    }
}

#[test]
fn any_flipped_bit_of_type_or_data_is_a_crc_mismatch() {
    let bytes = chunk_bytes(42, "RuSt", MESSAGE, 2882656334);
    assert!(Chunk::try_from(bytes.as_ref()).is_ok());
    for at in 4..bytes.len() - 4 {
        for bit in 0..8 {
            let mut damaged = bytes.clone();
            damaged[at] ^= 1 << bit;
            assert_eq!(
                Chunk::try_from(damaged.as_ref()),
                Err(PngError::CrcMismatch)
            );
        }
    }
}

#[test]
fn short_input_is_truncated() {
    let bytes = chunk_bytes(42, "RuSt", MESSAGE, 2882656334);
    for n in 0..12 {
        assert_eq!(
            Chunk::try_from(&bytes[..n]),
            Err(PngError::TruncatedChunk)
        );
    }
}

#[test]
fn length_field_must_match_the_slice() {
    let bytes = chunk_bytes(42, "RuSt", MESSAGE, 2882656334);
    assert_eq!(
        Chunk::try_from(&bytes[..bytes.len() - 1]),
        Err(PngError::TruncatedChunk)
    );
    let mut longer = bytes.clone();
    longer.push(0);
    assert_eq!(
        Chunk::try_from(longer.as_ref()),
        Err(PngError::TruncatedChunk)
    );
    let declares_more = chunk_bytes(43, "RuSt", MESSAGE, 2882656334);
    assert_eq!(
        Chunk::try_from(declares_more.as_ref()),
        Err(PngError::TruncatedChunk)
    );
}

#[test]
fn payload_that_is_not_utf8_is_no_text() {
    let chunk = Chunk::new(ChunkType::from_str("RuSt").unwrap(), vec![0x66, 0xff, 0x6f]);
    assert_eq!(chunk.data_as_string(), Err(PngError::Utf8DecodeError));
}

#[test]
fn payload_in_utf8_is_text() {
    let text = "gr\u{fc}\u{df}e \u{2014} \u{1f980}";
    let chunk = Chunk::new(ChunkType::from_str("RuSt").unwrap(), text.as_bytes().to_vec());
    assert_eq!(chunk.data_as_string(), Ok(String::from(text)));
}

#[test]
fn chunk_type_of_a_parsed_chunk_need_not_be_letters() {
    let chunk = Chunk::new(ChunkType::from_bytes([0x31, 0x00, 0xff, 0x7e]), vec![1, 2, 3]);
    let parsed = Chunk::try_from(chunk.as_bytes().as_ref()).unwrap();
    assert_eq!(parsed.chunk_type().bytes(), [0x31, 0x00, 0xff, 0x7e]);
    assert!(!parsed.chunk_type().is_valid());
}

#[test]
fn write_frame_lays_out_the_fields() {
    let chunk_type = ChunkType::from_str("RuSt").unwrap();
    assert_eq!(
        write_frame(&chunk_type, &[1, 2, 3], 0x0a0b_0c0d),
        vec![0, 0, 0, 3, 0x52, 0x75, 0x53, 0x74, 1, 2, 3, 0x0a, 0x0b, 0x0c, 0x0d]
    );
    assert_eq!(
        write_frame(&chunk_type, &[], 0xffff_ffff),
        vec![0, 0, 0, 0, 0x52, 0x75, 0x53, 0x74, 0xff, 0xff, 0xff, 0xff]
    );
    let long = vec![7u8; 0x0102_03];
    let frame = write_frame(&chunk_type, &long, 1);
    assert_eq!(&frame[..4], &[0, 1, 2, 3]);
    assert_eq!(frame.len(), 0x0102_03 + 12);
    assert_eq!(&frame[frame.len() - 4..], &[0, 0, 0, 1]);
}

#[test]
fn split_frame_compares_with_the_given_checksum() {
    let bytes = vec![0, 0, 0, 3, 0x52, 0x75, 0x53, 0x74, 1, 2, 3, 0x0a, 0x0b, 0x0c, 0x0d];
    let chunk_type = ChunkType::from_str("RuSt").unwrap();
    assert_eq!(
        split_frame(&bytes, 0x0a0b_0c0d),
        Ok((chunk_type, vec![1, 2, 3]))
    );
    assert_eq!(split_frame(&bytes, 0x0a0b_0c0e), Err(PngError::CrcMismatch));
    assert_eq!(split_frame(&bytes, 0), Err(PngError::CrcMismatch));
    assert_eq!(
        split_frame(&bytes[..14], 0x0a0b_0c0d),
        Err(PngError::TruncatedChunk)
    );
    assert_eq!(split_frame(&bytes[..11], 0), Err(PngError::TruncatedChunk));
    assert_eq!(split_frame(&[], 0), Err(PngError::TruncatedChunk));
}

#[test]
fn split_frame_undoes_write_frame() {
    let chunk_type = ChunkType::from_str("abCd").unwrap();
    let data: Vec<u8> = (0..200u8).collect();
    let frame = write_frame(&chunk_type, &data, 0xdead_beef);
    assert_eq!(split_frame(&frame, 0xdead_beef), Ok((chunk_type, data)));
}

#[test]
fn summary_lists_the_fields() {
    let chunk = testing_chunk();
    assert_eq!(
        chunk.to_string(),
        "Chunk {\n Length: 42\n Type: RuSt\n Length: 42\n Data: 42\n Crc: 2882656334\n}\n"
    );
    let end = Chunk::new(ChunkType::from_str("IEND").unwrap(), Vec::new());
    assert_eq!(
        end.to_string(),
        "Chunk {\n Length: 0\n Type: IEND\n Length: 0\n Data: 0\n Crc: 2923585666\n}\n"
    );
}

#[test]
fn clone_is_equal() {
    let chunk = testing_chunk();
    assert_eq!(chunk.clone(), chunk);
}

#[test]
fn bytes_convert_into_a_chunk() {
    let bytes = chunk_bytes(42, "RuSt", MESSAGE, 2882656334);
    let chunk: Chunk = bytes.as_slice().try_into().unwrap();
    assert_eq!(chunk, testing_chunk());
    let damaged = chunk_bytes(42, "RuSu", MESSAGE, 2882656334);
    let refused: Result<Chunk, PngError> = damaged.as_slice().try_into();
    assert_eq!(refused, Err(PngError::CrcMismatch));
}
