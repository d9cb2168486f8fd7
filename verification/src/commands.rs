//! The four commands, from the bytes of a file to what is to be written or shown.
//!
//! Nothing here touches a file or the console: a caller reads the file that a command
//! names, hands its bytes to [`run`], and carries out the [`Action`] that comes back.

use std::str::FromStr;
use vstd::prelude::*;
use vstd::string::StringExecFns;
use vstd::utf8::{decode_utf8, encode_utf8, valid_utf8};
use crate::chunk::{Chunk, ChunkView};
use crate::chunk_type::{parse_chunk_type, ChunkType, ChunkTypeError};
use crate::png::{decode_png, encode_png, first_match, render_png, Png, PngError};

verus! {

/// The command line: one command.
pub struct Cli {
    pub command: Commands,
}

/// A command and its arguments.
#[derive(Debug)]
pub enum Commands {
    /// Hide a message in a file.
    Encode {
        /// Path of the file.
        file: String,
        /// Type of the chunk to hide the message in.
        chunk_type: String,
        /// The message.
        message: String,
        /// Where to save the changed copy; without it the copy is shown.
        output_file: Option<String>,
    },
    /// Read a message from a file.
    Decode {
        /// Path of the file.
        file: String,
        /// Type of the chunk to look for.
        chunk_type: String,
    },
    /// Remove the first chunk of a type from a file.
    Remove {
        /// Path of the file.
        file: String,
        /// Type of the chunk to remove.
        chunk_type: String,
    },
    /// Show the chunks of a file.
    Print {
        /// Path of the file.
        file: String,
    },
}

/// What is left to do when a command has succeeded.
#[derive(Debug)]
pub enum Action {
    /// Write these bytes to the file at this path.
    Write { path: String, bytes: Vec<u8> },
    /// Show this line.
    Show(String),
}

/// An action as plain values.
pub enum ActionView {
    Write { path: Seq<char>, bytes: Seq<u8> },
    Show(Seq<char>),
}

impl View for Action {
    type V = ActionView;

    open spec fn view(&self) -> ActionView {
        match *self {
            Action::Write { path, bytes } => ActionView::Write { path: path@, bytes: bytes@ },
            Action::Show(line) => ActionView::Show(line@),
        }
    }
}

/// Why a command fails.
#[derive(Debug, PartialEq, Eq, Structural, Clone, Copy)]
pub enum CommandError {
    /// The file is no container, or holds no chunk of the type asked for.
    Png(PngError),
    /// The type given is no type code.
    ChunkType(ChunkTypeError),
    /// The payload of the chunk is not text.
    InvalidUtf8,
}

/// The chunks of the file with a chunk of the given type and message added last. A
/// file that is no container fails before a type that is no type code does.
pub open spec fn encode_outcome(file: Seq<u8>, chunk_type: Seq<char>, message: Seq<char>) -> Result<
    Seq<ChunkView>,
    CommandError,
> {
    match decode_png(file) {
        Err(e) => Err(CommandError::Png(e)),
        Ok(chunks) => match parse_chunk_type(chunk_type) {
            Err(e) => Err(CommandError::ChunkType(e)),
            Ok(code) => Ok(chunks.push(ChunkView { chunk_type: code, data: encode_utf8(message) })),
        },
    }
}

/// The text in the first chunk of the given type.
pub open spec fn decode_outcome(file: Seq<u8>, chunk_type: Seq<char>) -> Result<
    Seq<char>,
    CommandError,
> {
    match decode_png(file) {
        Err(e) => Err(CommandError::Png(e)),
        Ok(chunks) => if first_match(chunks, chunk_type) == chunks.len() {
            Err(CommandError::Png(PngError::ChunkNotFound))
        } else if !valid_utf8(chunks[first_match(chunks, chunk_type)].data) {
            Err(CommandError::InvalidUtf8)
        } else {
            Ok(decode_utf8(chunks[first_match(chunks, chunk_type)].data))
        },
    }
}

/// The bytes of the file without its first chunk of the given type.
pub open spec fn remove_outcome(file: Seq<u8>, chunk_type: Seq<char>) -> Result<
    Seq<u8>,
    CommandError,
> {
    match decode_png(file) {
        Err(e) => Err(CommandError::Png(e)),
        Ok(chunks) => if first_match(chunks, chunk_type) == chunks.len() {
            Err(CommandError::Png(PngError::ChunkNotFound))
        } else {
            Ok(encode_png(chunks.remove(first_match(chunks, chunk_type))))
        },
    }
}

/// The listing of the file.
pub open spec fn print_outcome(file: Seq<u8>) -> Result<Seq<char>, CommandError> {
    match decode_png(file) {
        Err(e) => Err(CommandError::Png(e)),
        Ok(chunks) => Ok(render_png(chunks)),
    }
}

/// What a command does with the bytes of its file.
///
/// `Encode` writes the container with the message added to its output file, or shows its
/// listing if it has none; `Decode` shows the message after `Hidden message: `; `Remove`
/// writes the container without the chunk back to the file it came from; `Print` shows
/// the listing.
pub open spec fn run_outcome(command: Commands, bytes: Seq<u8>) -> Result<ActionView, CommandError> {
    match command {
        Commands::Encode { file, chunk_type, message, output_file } => match encode_outcome(
            bytes,
            chunk_type@,
            message@,
        ) {
            Err(e) => Err(e),
            Ok(chunks) => match output_file {
                Some(path) => Ok(ActionView::Write { path: path@, bytes: encode_png(chunks) }),
                None => Ok(ActionView::Show(render_png(chunks))),
            },
        },
        Commands::Decode { file, chunk_type } => match decode_outcome(bytes, chunk_type@) {
            Err(e) => Err(e),
            Ok(message) => Ok(ActionView::Show("Hidden message: "@ + message)),
        },
        Commands::Remove { file, chunk_type } => match remove_outcome(bytes, chunk_type@) {
            Err(e) => Err(e),
            Ok(left) => Ok(ActionView::Write { path: file@, bytes: left }),
        },
        Commands::Print { file } => match print_outcome(bytes) {
            Err(e) => Err(e),
            Ok(listing) => Ok(ActionView::Show(listing)),
        },
    }
}

impl Commands {
    /// The path of the file that the command reads.
    pub fn file(&self) -> (path: &String)
        ensures
            *path == match *self {
                Commands::Encode { file, .. } => file,
                Commands::Decode { file, .. } => file,
                Commands::Remove { file, .. } => file,
                Commands::Print { file } => file,
            },
    {
        match self {
            Commands::Encode { file, .. } => file,
            Commands::Decode { file, .. } => file,
            Commands::Remove { file, .. } => file,
            Commands::Print { file } => file,
        }
    }

    /// Whether the command can be run: the message of an `Encode` has to fit a chunk.
    pub open spec fn fits(&self) -> bool {
        match *self {
            Commands::Encode { message, .. } => encode_utf8(message@).len() <= u32::MAX,
            _ => true,
        }
    }
}

/// Runs a command on the bytes of its file, and says what is to be written or shown.
pub fn run(command: &Commands, bytes: &[u8]) -> (outcome: Result<Action, CommandError>)
    requires
        command.fits(),
    ensures
        match outcome {
            Ok(action) => run_outcome(*command, bytes@) == Ok::<ActionView, CommandError>(action@),
            Err(e) => run_outcome(*command, bytes@) == Err::<ActionView, CommandError>(e),
        },
{
    match command {
        Commands::Encode { file, chunk_type, message, output_file } => {
            match encode(bytes, chunk_type.as_str(), message.as_str()) {
                Err(e) => Err(e),
                Ok(png) => match output_file {
                    Some(path) => Ok(Action::Write { path: path.clone(), bytes: png.as_bytes() }),
                    None => Ok(Action::Show(png.to_string())),
                },
            }
        },
        Commands::Decode { file, chunk_type } => match decode(bytes, chunk_type.as_str()) {
            Err(e) => Err(e),
            Ok(message) => {
                let mut line = String::new();
                line.append("Hidden message: ");
                line.append(message.as_str());
                assert(line@ =~= "Hidden message: "@ + message@);
                Ok(Action::Show(line))
            },
        },
        Commands::Remove { file, chunk_type } => match remove(bytes, chunk_type.as_str()) {
            Err(e) => Err(e),
            Ok(left) => Ok(Action::Write { path: file.clone(), bytes: left }),
        },
        Commands::Print { file } => match print(bytes) {
            Err(e) => Err(e),
            Ok(listing) => Ok(Action::Show(listing)),
        },
    }
}

/// Hides a message in a file: reads the container, and adds a chunk of the given type
/// that holds the message as UTF-8. The caller writes the container out or shows it.
pub fn encode(file: &[u8], chunk_type: &str, message: &str) -> (outcome: Result<Png, CommandError>)
    requires
        encode_utf8(message@).len() <= u32::MAX,
    ensures
        match outcome {
            Ok(png) => encode_outcome(file@, chunk_type@, message@) == Ok::<
                Seq<ChunkView>,
                CommandError,
            >(png@),
            Err(e) => encode_outcome(file@, chunk_type@, message@) == Err::<
                Seq<ChunkView>,
                CommandError,
            >(e),
        },
{
    let mut png = match Png::try_from(file) {
        Ok(png) => png,
        Err(e) => {
            return Err(CommandError::Png(e));
        },
    };
    let code = match ChunkType::from_str(chunk_type) {
        Ok(code) => code,
        Err(e) => {
            return Err(CommandError::ChunkType(e));
        },
    };
    png.append_chunk(Chunk::new(code, message.as_bytes_vec()));
    Ok(png)
}

/// Reads the message in a file: the payload of the first chunk of the given type, as
/// text.
pub fn decode(file: &[u8], chunk_type: &str) -> (outcome: Result<String, CommandError>)
    ensures
        match outcome {
            Ok(message) => decode_outcome(file@, chunk_type@) == Ok::<Seq<char>, CommandError>(
                message@,
            ),
            Err(e) => decode_outcome(file@, chunk_type@) == Err::<Seq<char>, CommandError>(e),
        },
{
    let mut png = match Png::try_from(file) {
        Ok(png) => png,
        Err(e) => {
            return Err(CommandError::Png(e));
        },
    };
    let chunk = match png.remove_first_chunk(chunk_type) {
        Ok(chunk) => chunk,
        Err(e) => {
            return Err(CommandError::Png(e));
        },
    };
    match chunk.data_as_string() {
        Ok(message) => Ok(message),
        Err(_) => Err(CommandError::InvalidUtf8),
    }
}

/// Takes the first chunk of the given type out of a file, and gives the bytes of the
/// file without it.
pub fn remove(file: &[u8], chunk_type: &str) -> (outcome: Result<Vec<u8>, CommandError>)
    ensures
        match outcome {
            Ok(bytes) => remove_outcome(file@, chunk_type@) == Ok::<Seq<u8>, CommandError>(bytes@),
            Err(e) => remove_outcome(file@, chunk_type@) == Err::<Seq<u8>, CommandError>(e),
        },
{
    let mut png = match Png::try_from(file) {
        Ok(png) => png,
        Err(e) => {
            return Err(CommandError::Png(e));
        },
    };
    match png.remove_first_chunk(chunk_type) {
        Ok(_) => Ok(png.as_bytes()),
        Err(e) => Err(CommandError::Png(e)),
    }
}

/// Lists the chunks of a file.
pub fn print(file: &[u8]) -> (outcome: Result<String, CommandError>)
    ensures
        match outcome {
            Ok(listing) => print_outcome(file@) == Ok::<Seq<char>, CommandError>(listing@),
            Err(e) => print_outcome(file@) == Err::<Seq<char>, CommandError>(e),
        },
{
    match Png::try_from(file) {
        Ok(png) => Ok(png.to_string()),
        Err(e) => Err(CommandError::Png(e)),
    }
}

} // verus!
