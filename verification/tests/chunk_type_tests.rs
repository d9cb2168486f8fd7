use pngme::chunk_type::{ChunkType, ChunkTypeError};
use std::convert::TryFrom;
use std::str::FromStr;

#[test]
pub fn test_chunk_type_from_bytes() {
    let expected = [82, 117, 83, 116];
    let actual = ChunkType::try_from([82, 117, 83, 116]).unwrap();

    assert_eq!(expected, actual.bytes());
}

#[test]
pub fn test_chunk_type_from_str() {
    let expected = ChunkType::try_from([82, 117, 83, 116]).unwrap();
    let actual = ChunkType::from_str("RuSt").unwrap();
    assert_eq!(expected, actual);
}

#[test]
pub fn test_chunk_type_is_critical() {
    let chunk = ChunkType::from_str("RuSt").unwrap();
    assert!(chunk.is_critical());
}

#[test]
pub fn test_chunk_type_is_not_critical() {
    let chunk = ChunkType::from_str("ruSt").unwrap();
    assert!(!chunk.is_critical());
}

#[test]
pub fn test_chunk_type_is_public() {
    let chunk = ChunkType::from_str("RUSt").unwrap();
    assert!(chunk.is_public());
}

#[test]
pub fn test_chunk_type_is_not_public() {
    let chunk = ChunkType::from_str("RuSt").unwrap();
    assert!(!chunk.is_public());
}

#[test]
pub fn test_chunk_type_is_reserved_bit_valid() {
    let chunk = ChunkType::from_str("RuSt").unwrap();
    assert!(chunk.is_reserved_bit_valid());
}

#[test]
pub fn test_chunk_type_is_reserved_bit_invalid() {
    let chunk = ChunkType::from_str("Rust").unwrap();
    assert!(!chunk.is_reserved_bit_valid());
}

#[test]
pub fn test_chunk_type_is_safe_to_copy() {
    let chunk = ChunkType::from_str("RuSt").unwrap();
    assert!(chunk.is_safe_to_copy());
}

#[test]
pub fn test_chunk_type_is_unsafe_to_copy() {
    let chunk = ChunkType::from_str("RuST").unwrap();
    assert!(!chunk.is_safe_to_copy());
}

#[test]
pub fn test_valid_chunk_is_valid() {
    let chunk = ChunkType::from_str("RuSt").unwrap();
    assert!(chunk.is_valid());
}

#[test]
pub fn test_invalid_chunk_is_valid() {
    let chunk = ChunkType::from_str("Rust").unwrap();
    assert!(!chunk.is_valid());

    let chunk = ChunkType::from_str("Ru1t");
    assert!(chunk.is_err());
}

#[test]
pub fn test_chunk_type_string() {
    let chunk = ChunkType::from_str("RuSt").unwrap();
    assert_eq!(&chunk.to_string(), "RuSt");
}

#[test]
pub fn test_chunk_type_trait_impls() {
    let chunk_type_1: ChunkType = TryFrom::try_from([82, 117, 83, 116]).unwrap();
    let chunk_type_2: ChunkType = FromStr::from_str("RuSt").unwrap();
    let _chunk_string = format!("{}", chunk_type_1.to_string());
    let _are_chunks_equal = chunk_type_1 == chunk_type_2;
}

#[test]
fn raw_rust_code_has_the_four_properties() {
    let code = ChunkType::try_from([0x52, 0x75, 0x53, 0x74]).unwrap();
    assert!(code.is_critical());
    assert!(!code.is_public());
    assert!(code.is_reserved_bit_valid());
    assert!(code.is_safe_to_copy());
    assert!(code.is_valid());
}

#[test]
fn each_property_reads_bit_five_of_its_own_byte() {
    let clear = ChunkType::try_from([0x00, 0x00, 0x00, 0x00]).unwrap();
    assert!(clear.is_critical() && clear.is_public() && clear.is_valid());
    assert!(!clear.is_safe_to_copy());
    let set = ChunkType::try_from([0x20, 0x20, 0x20, 0x20]).unwrap();
    assert!(!set.is_critical() && !set.is_public() && !set.is_valid());
    assert!(set.is_safe_to_copy());
    let others = ChunkType::try_from([0xdf, 0xdf, 0xdf, 0xdf]).unwrap();
    assert!(others.is_critical() && others.is_public() && others.is_reserved_bit_valid());
    assert!(!others.is_safe_to_copy());
    let first = ChunkType::try_from([0x20, 0, 0, 0]).unwrap();
    assert!(!first.is_critical() && first.is_public() && first.is_valid());
    let third = ChunkType::try_from([0, 0, 0x20, 0]).unwrap();
    assert!(third.is_critical() && !third.is_valid() && !third.is_reserved_bit_valid());
}

#[test]
fn validity_is_the_reserved_bit_alone() {
    let code = ChunkType::from_str("ruSt").unwrap();
    assert!(code.is_valid());
    let code = ChunkType::from_str("rust").unwrap();
    assert!(!code.is_valid());
}

#[test]
fn text_of_other_lengths_is_incorrect_length() {
    for text in ["", "R", "Ru", "RuS", "RuStt", "RuStRuSt", "12345", "é"] {
        assert_eq!(ChunkType::from_str(text), Err(ChunkTypeError::IncorrectLength));
    }
}

#[test]
fn four_characters_with_a_non_letter_are_not_alphabetic() {
    for text in ["Ru1t", "RuS ", "1234", "Ru_t", "@uSt", "[uSt", "`uSt", "{uSt", "RuSé", "éééé"] {
        assert_eq!(ChunkType::from_str(text), Err(ChunkTypeError::NotAlphabetic));
    }
}

#[test]
fn length_is_counted_in_characters() {
    assert_eq!(ChunkType::from_str("éé"), Err(ChunkTypeError::IncorrectLength));
    assert_eq!(ChunkType::from_str("aéb"), Err(ChunkTypeError::IncorrectLength));
}

#[test]
fn the_ends_of_both_alphabets_are_letters() {
    assert_eq!(ChunkType::from_str("AZaz").unwrap().bytes(), [65, 90, 97, 122]);
}

#[test]
fn raw_bytes_need_not_be_letters() {
    let code = ChunkType::try_from([0, 255, 49, 32]).unwrap();
    assert_eq!(code.bytes(), [0, 255, 49, 32]);
}

#[test]
fn codes_are_equal_byte_by_byte() {
    let code = ChunkType::from_str("RuSt").unwrap();
    assert!(code == ChunkType::try_from([82, 117, 83, 116]).unwrap());
    assert!(code != ChunkType::from_str("RuSs").unwrap());
    assert!(code != ChunkType::from_str("ruSt").unwrap());
    assert!(code != ChunkType::from_str("RUSt").unwrap());
    assert!(code != ChunkType::from_str("Rust").unwrap());
}

#[test]
fn text_of_a_code_that_is_no_utf8_has_the_replacement_character() {
    let code = ChunkType::try_from([0x52, 0xff, 0x53, 0x74]).unwrap();
    assert_eq!(code.to_string(), "R\u{fffd}St");
}
