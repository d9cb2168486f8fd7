//! A PNG-style chunk container: typed, checksummed byte records behind a fixed
//! eight-byte signature, with decoding, encoding and ordered edits.
//!
//! - [`chunk_type`]: the four-byte type code and the properties its bits carry.
//! - [`chunk`]: one record, with length and checksum kept right by construction.
//! - [`png`]: the container, its wire format, and finding and removing by type;
//!   [`png_laws`]: what is proved of them.
//! - [`commands`]: the four commands as functions from bytes to what is to be done.
//! - [`byte_order`], [`checksum`], [`text`]: integers on the wire, the CRC-32, and
//!   bytes as text.
//!
//! Every function states what it returns over plain sequences, and the laws that tie
//! the functions together (what is encoded decodes, what decodes re-encodes to the
//! same bytes, what is removed is the first of its type) are proved beside them.
//!
//! Two things are taken on trust and marked where they enter: the checksum, which the
//! `crc` crate computes, and the decoding of UTF-8, which the standard library does.

pub mod byte_order;
pub mod checksum;
pub mod chunk;
pub mod chunk_type;
pub mod commands;
pub mod png;
pub mod png_laws;
pub mod text;
