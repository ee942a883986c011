//! A compact, self-describing binary encoding of signed rational numbers.
//!
//! An encoded value starts with a discriminant byte (sign flag, denominator
//! width-class, numerator width-class), followed by the little-endian
//! magnitude of the numerator and, unless it is one, of the denominator.

pub mod format;
mod le;
pub mod writer;
pub mod reader;
pub mod laws;

pub use format::{CodecError, WidthClass};

pub use writer::RationalNumberWriter;
pub use reader::RationalNumberReader;
