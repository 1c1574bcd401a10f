//! Serialize values into ROSMSG binary data.
//!
//! The data types that ROSMSG supports are supported; it has no
//! representation for enums of any type (`Option` included), for `char`
//! (one-character strings stand in for it), and for maps that cannot be
//! boiled down to `<String, String>`.
pub mod cursor;
pub mod encoding;
pub mod error;
pub mod laws;
pub mod layout;
pub mod ser;
pub mod value;
pub mod wire;

pub use cursor::Cursor;
pub use error::Error;
pub use value::{MapEntry, Value};
pub use ser::{
    to_vec, to_vec_skip_length, to_writer, to_writer_skip_length, Compound, CompoundMap,
    Serializer,
};
