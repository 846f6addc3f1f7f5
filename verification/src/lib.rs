//! Incremental UTF-8 decoding with verified contracts.
//!
//! * [`errors`] holds the failure kinds shared by every component.
//! * [`utf`] decodes one Unicode scalar value from the front of a byte
//!   slice, and proves that decoding undoes the standard encoding.
//! * [`reader`] decodes a stream: it pulls bytes from a blocking source into
//!   a buffer of four bytes and decodes scalar value after scalar value.
//! * [`lookahead`] lets a consumer look at upcoming items of any iterator
//!   without taking them.
//! * [`binary`] writes a byte in base two, for the text of an error.

pub mod binary;
pub mod errors;
pub mod lookahead;
pub mod reader;
pub mod utf;

pub use crate::errors::Error;
pub use crate::lookahead::Lookahead;
pub use crate::reader::Utf8Reader;
pub use crate::utf::read_utf;
