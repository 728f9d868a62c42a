//! Encoding of text values and unsigned 64-bit integers as byte sequences
//! and lowercase hexadecimal strings.
//!
//! Text is encoded as its UTF-8 bytes; an integer as its eight big-endian
//! bytes. A byte sequence can be rendered as bare hex digits, two per byte,
//! or as a "0x"-prefixed display string. An integer can also be rendered in
//! its minimal hex form, with no leading zeros.

pub mod hex;
pub mod encode;

pub use encode::get_string_bytes;
pub use encode::get_string_hex;
pub use encode::get_uint_bytes;
pub use encode::get_uint_hex;
pub use hex::format_as_prefixed_hex;
