//! Encoding of structured values as `application/x-www-form-urlencoded` pairs.
//!
//! A [`Value`] is visited once per field by a [`PartSerializer`]: with a
//! [`KeySink`] it yields the field's [`Key`], with a [`ValueSink`] it appends
//! `key=value` pairs to the output text.

pub mod data;
pub mod decimal;
pub mod error;
pub mod key;
pub mod laws;
pub mod pair;
pub mod part;
pub mod value;

pub use data::Value;
pub use error::{Error, Fault};
pub use key::{Key, KeySink, TextKind};
pub use pair::{serialize_pair, to_string};
pub use part::{PartSerializer, SeqSerializer};
pub use value::ValueSink;
