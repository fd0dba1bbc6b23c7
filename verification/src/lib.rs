//! Decoding of flat string key/value pairs, such as the variables of a
//! process environment, into typed records described by an explicit schema.
//!
//! A schema is a list of [`FieldDescriptor`]s. Decoding walks the fields in
//! declaration order, looks each one up in the pairs under its normalised
//! key, and parses the text that it finds according to the field's
//! [`Shape`]. The result is a [`Record`] holding one typed [`Value`] per
//! field, or the [`Error`] of the first field that could not be resolved.

use vstd::prelude::*;

pub mod decode;
pub mod error;
pub mod key;
pub mod prefix;
pub mod sample;
pub mod scalar;
pub mod schema;
pub mod sequence;
pub mod source;
pub mod typing;
pub mod value;

pub use crate::error::Error;
pub use crate::error::ErrorView;
pub use crate::prefix::prefixed;
pub use crate::prefix::Prefixed;
pub use crate::scalar::Scalar;
pub use crate::scalar::ScalarKind;
pub use crate::schema::FieldDescriptor;
pub use crate::schema::Shape;
pub use crate::source::SourceMap;
pub use crate::value::Record;
pub use crate::value::Value;

verus! {

/// Decodes a record from key/value pairs under a schema.
///
/// Keys are compared without regard to case. Where two pairs have the same
/// key, the later one counts. Pairs whose key no field asks for are
/// ignored.
pub fn from_iter(fields: &Vec<FieldDescriptor>, iter: Vec<(String, String)>) -> (r: Result<
    Record,
    Error,
>)
    ensures
        crate::error::result_view(r) == crate::decode::decoded(
            crate::schema::fields_view(fields@),
            crate::source::pairs_view(iter@),
        ),
{
    let source = SourceMap::from_pairs(&iter);
    crate::decode::decode(fields, &source)
}

} // verus!
