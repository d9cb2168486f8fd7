use pngme::chunk::{Chunk, ChunkError};
use pngme::chunk_type::{ChunkType, ChunkTypeError};
use pngme::commands::{decode, encode, print, remove, run, Action, Cli, CommandError, Commands};
use pngme::png::{Png, PngError};
use std::str::FromStr;

const FILE_SIGNATURE: [u8; 8] = [137, 80, 78, 71, 13, 10, 26, 10];

fn file_of(chunks: &[(&str, &[u8])]) -> Vec<u8> {
    let mut bytes = FILE_SIGNATURE.to_vec();
    for (chunk_type, data) in chunks {
        let chunk = Chunk::new(ChunkType::from_str(chunk_type).unwrap(), data.to_vec());
        bytes.extend_from_slice(&chunk.as_bytes());
    }
    bytes
}

fn image() -> Vec<u8> {
    file_of(&[("IHDR", &[0, 0, 0, 1, 0, 0, 0, 1, 8, 0, 0, 0, 0]), ("IDAT", &[0x78, 0x9c, 0xff]), ("IEND", &[])])
}

#[test]
fn encode_adds_the_message_as_the_last_chunk() {
    let png = encode(&image(), "RuSt", "This is where your secret message will be!").unwrap();
    assert_eq!(png.chunks().len(), 4);
    let added = &png.chunks()[3];
    assert_eq!(added.chunk_type().to_string(), "RuSt");
    assert_eq!(added.length(), 42);
    assert_eq!(added.crc(), 2882656334);
    let mut expected = image();
    expected.extend_from_slice(&added.as_bytes());
    assert_eq!(png.as_bytes(), expected);
    assert_eq!(
        png.as_bytes(),
        file_of(&[
            ("IHDR", &[0, 0, 0, 1, 0, 0, 0, 1, 8, 0, 0, 0, 0]),
            ("IDAT", &[0x78, 0x9c, 0xff]),
            ("IEND", &[]),
            ("RuSt", b"This is where your secret message will be!"),
        ])
    );
}

#[test]
fn encode_holds_the_message_as_utf8() {
    let png = encode(&FILE_SIGNATURE, "teXt", "grüße €").unwrap();
    assert_eq!(png.chunks().len(), 1);
    assert_eq!(png.chunks()[0].data(), "grüße €".as_bytes());
    assert_eq!(png.chunks()[0].length(), 11);
}

#[test]
fn encode_fails_on_the_file_before_the_type() {
    assert_eq!(
        encode(&[1, 2, 3], "bad type", "m").unwrap_err(),
        CommandError::Png(PngError::Chunk(ChunkError::InvalidLength(8)))
    );
    assert_eq!(
        encode(&[0; 8], "RuSt", "m").unwrap_err(),
        CommandError::Png(PngError::InvalidSignature)
    );
    assert_eq!(
        encode(&image(), "Ru1t", "m").unwrap_err(),
        CommandError::ChunkType(ChunkTypeError::NotAlphabetic)
    );
    assert_eq!(
        encode(&image(), "RuStX", "m").unwrap_err(),
        CommandError::ChunkType(ChunkTypeError::IncorrectLength)
    );
}

#[test]
fn decode_reads_what_encode_hid() {
    let file = encode(&image(), "RuSt", "a secret").unwrap().as_bytes();
    assert_eq!(decode(&file, "RuSt").unwrap(), "a secret");
}

#[test]
fn decode_reads_the_first_chunk_of_the_type() {
    let file = file_of(&[("RuSt", b"one"), ("ruSt", b"two"), ("RuSt", b"three")]);
    assert_eq!(decode(&file, "RuSt").unwrap(), "one");
    assert_eq!(decode(&file, "ruSt").unwrap(), "two");
}

#[test]
fn decode_fails_without_a_chunk_of_the_type() {
    assert_eq!(
        decode(&image(), "RuSt").unwrap_err(),
        CommandError::Png(PngError::ChunkNotFound)
    );
    assert_eq!(
        decode(&image(), "no type at all").unwrap_err(),
        CommandError::Png(PngError::ChunkNotFound)
    );
}

#[test]
fn decode_fails_on_a_payload_that_is_no_text() {
    assert_eq!(decode(&image(), "IDAT").unwrap_err(), CommandError::InvalidUtf8);
}

#[test]
fn decode_fails_on_a_broken_file() {
    let mut file = image();
    let last = file.len() - 1;
    file[last] ^= 1;
    assert_eq!(
        decode(&file, "IHDR").unwrap_err(),
        CommandError::Png(PngError::Chunk(ChunkError::InvalidCrc {
            got: 0xae42_6083,
            expected: 0xae42_6082,
        }))
    );
}

#[test]
fn remove_gives_the_file_without_the_chunk() {
    let hidden = encode(&image(), "RuSt", "a secret").unwrap().as_bytes();
    assert_eq!(remove(&hidden, "RuSt").unwrap(), image());
    assert_eq!(
        remove(&image(), "IDAT").unwrap(),
        file_of(&[("IHDR", &[0, 0, 0, 1, 0, 0, 0, 1, 8, 0, 0, 0, 0]), ("IEND", &[])])
    );
}

#[test]
fn remove_takes_only_the_first_of_the_type() {
    let file = file_of(&[("RuSt", b"one"), ("miDl", b"two"), ("RuSt", b"three")]);
    assert_eq!(
        remove(&file, "RuSt").unwrap(),
        file_of(&[("miDl", b"two"), ("RuSt", b"three")])
    );
}

#[test]
fn remove_fails_without_a_chunk_of_the_type() {
    assert_eq!(
        remove(&image(), "RuSt").unwrap_err(),
        CommandError::Png(PngError::ChunkNotFound)
    );
    assert_eq!(
        remove(&image()[..20], "RuSt").unwrap_err(),
        CommandError::Png(PngError::Chunk(ChunkError::InvalidLength(25)))
    );
}

#[test]
fn print_lists_the_chunks() {
    let file = file_of(&[("RuSt", b"hi"), ("IEND", &[])]);
    let first = Chunk::new(ChunkType::from_str("RuSt").unwrap(), b"hi".to_vec());
    assert_eq!(
        print(&file).unwrap(),
        format!("Png {{\n  (2, RuSt, hi, {})\n  (0, IEND, , 2923585666)\n}}", first.crc())
    );
    assert_eq!(print(&file).unwrap(), Png::try_from(file.as_slice()).unwrap().to_string());
}

#[test]
fn print_fails_on_what_is_no_container() {
    assert_eq!(
        print(b"not a png").unwrap_err(),
        CommandError::Png(PngError::InvalidSignature)
    );
    assert_eq!(
        print(b"short").unwrap_err(),
        CommandError::Png(PngError::Chunk(ChunkError::InvalidLength(8)))
    );
}

fn written(action: Action) -> (String, Vec<u8>) {
    match action {
        Action::Write { path, bytes } => (path, bytes),
        Action::Show(line) => panic!("shown: {}", line),
    }
}

fn shown(action: Action) -> String {
    match action {
        Action::Show(line) => line,
        Action::Write { path, .. } => panic!("written to {}", path),
    }
}

#[test]
fn run_encode_writes_to_the_output_file() {
    let command = Commands::Encode {
        file: String::from("in.png"),
        chunk_type: String::from("RuSt"),
        message: String::from("a secret"),
        output_file: Some(String::from("out.png")),
    };
    assert_eq!(command.file(), "in.png");
    let (path, bytes) = written(run(&command, &image()).unwrap());
    assert_eq!(path, "out.png");
    assert_eq!(bytes, encode(&image(), "RuSt", "a secret").unwrap().as_bytes());
    assert_eq!(decode(&bytes, "RuSt").unwrap(), "a secret");
}

#[test]
fn run_encode_without_output_file_shows_the_listing() {
    let command = Commands::Encode {
        file: String::from("in.png"),
        chunk_type: String::from("RuSt"),
        message: String::from("hi"),
        output_file: None,
    };
    let line = shown(run(&command, &FILE_SIGNATURE).unwrap());
    let chunk = Chunk::new(ChunkType::from_str("RuSt").unwrap(), b"hi".to_vec());
    assert_eq!(line, format!("Png {{\n  (2, RuSt, hi, {})\n}}", chunk.crc()));
}

#[test]
fn run_decode_shows_the_hidden_message() {
    let file = encode(&image(), "RuSt", "a secret").unwrap().as_bytes();
    let command = Commands::Decode { file: String::from("in.png"), chunk_type: String::from("RuSt") };
    assert_eq!(command.file(), "in.png");
    assert_eq!(shown(run(&command, &file).unwrap()), "Hidden message: a secret");
}

#[test]
fn run_remove_writes_back_to_the_file_it_read() {
    let file = encode(&image(), "RuSt", "a secret").unwrap().as_bytes();
    let command = Commands::Remove { file: String::from("in.png"), chunk_type: String::from("RuSt") };
    assert_eq!(command.file(), "in.png");
    let (path, bytes) = written(run(&command, &file).unwrap());
    assert_eq!(path, "in.png");
    assert_eq!(bytes, image());
}

#[test]
fn run_print_shows_the_listing() {
    let cli = Cli { command: Commands::Print { file: String::from("in.png") } };
    assert_eq!(cli.command.file(), "in.png");
    assert_eq!(shown(run(&cli.command, &image()).unwrap()), print(&image()).unwrap());
}

#[test]
fn run_fails_as_its_command_does() {
    let command = Commands::Decode { file: String::from("in.png"), chunk_type: String::from("RuSt") };
    assert_eq!(
        run(&command, &image()).unwrap_err(),
        CommandError::Png(PngError::ChunkNotFound)
    );
    let command = Commands::Remove { file: String::from("in.png"), chunk_type: String::from("RuSt") };
    assert_eq!(
        run(&command, b"123").unwrap_err(),
        CommandError::Png(PngError::Chunk(ChunkError::InvalidLength(8)))
    );
    let command = Commands::Encode {
        file: String::from("in.png"),
        chunk_type: String::from("R"),
        message: String::from("m"),
        output_file: None,
    };
    assert_eq!(
        run(&command, &image()).unwrap_err(),
        CommandError::ChunkType(ChunkTypeError::IncorrectLength)
    );
    let command = Commands::Print { file: String::from("in.png") };
    assert_eq!(
        run(&command, &[0; 20]).unwrap_err(),
        CommandError::Png(PngError::InvalidSignature)
    );
    let command = Commands::Decode { file: String::from("in.png"), chunk_type: String::from("IDAT") };
    assert_eq!(run(&command, &image()).unwrap_err(), CommandError::InvalidUtf8);
}
