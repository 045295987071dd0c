//! A compact, self-describing binary encoding of value trees.
//!
//! Every item on the wire starts with one header byte: its top three bits give
//! the major type, its low five bits the additional-info code. The library
//! holds such items as [`Cbor`] trees, writes them to a byte buffer and reads
//! them back, and converts native values to and from trees through
//! [`IntoCbor`] and [`FromCbor`].
//!
//! Floating-point numbers are held by their IEEE-754 bit patterns: two floats
//! are equal when their bits are, and float keys sort in the total order of
//! the bit patterns.
//!
//! The laws of the library are proved beside the functions they speak of:
//! what is written is read back ([`roundtrip`]), streamed forms read as
//! counted ones do ([`stream`]), nesting is limited ([`limit`]), and keys are
//! totally ordered ([`key`]).

pub mod bigint;
pub mod bytes;
pub mod convert;
pub mod decode;
pub mod encode;
pub mod error;
pub mod header;
pub mod ints;
pub mod key;
pub mod limit;
pub mod pretty;
pub mod roundtrip;
pub mod seqs;
pub mod simple;
pub mod stream;
pub mod text;
pub mod tree;

pub use bigint::{bigint_from_cbor, bigint_into_cbor};
pub use convert::{FromCbor, IntoCbor};
pub use error::{Error, ErrorKind};
pub use header::{decode_addnl, decode_hdr, encode_addnl, encode_hdr, Info};
pub use key::Key;
pub use pretty::{pretty_print, text_key, text_line};
pub use simple::SimpleValue;
pub use tree::{Cbor, Tag, RECURSION_LIMIT};
