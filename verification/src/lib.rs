//! Re-wrapping a PGP message as a `multipart/encrypted` email.
//!
//! The library takes the raw bytes of an already-parsed PGP message, encodes
//! them as RFC 4880 ASCII armor (base64 body, CRC-24 footer), and assembles a
//! complete RFC 5322 email whose body is an RFC 3156 `multipart/encrypted`
//! container: a version part followed by the armored ciphertext part.
//! Reading the message from disk, the command line, and writing to standard
//! output stay outside the library.

pub mod armor;
pub mod base64;
pub mod bytes;
pub mod crc24;
pub mod datefmt;
pub mod envelope;
pub mod lit;
pub mod numfmt;
