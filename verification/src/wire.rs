//! The database's wire parameter model, held as plain data.
//!
//! This mirrors the driver's parameter type one for one; turning it into the
//! driver's own values is a mechanical conversion performed outside the
//! library.

use vstd::prelude::*;

verus! {

/// One wire parameter value.
#[derive(Debug, PartialEq, Eq)]
pub enum WireValue {
    Null,
    Bool(bool),
    Int(i64),
    /// A 64-bit float, held by its IEEE bit pattern.
    Float(u64),
    Str(String),
    Bytes(Vec<u8>),
    List(Vec<WireValue>),
    /// A map from property name to value; entries keep their order.
    Dict(Vec<(String, WireValue)>),
    /// Days since 1970-01-01.
    Date(i64),
    /// Nanoseconds since midnight.
    LocalTime(u64),
    /// Seconds since the epoch, with subsecond nanoseconds.
    LocalDateTime(i64, u32),
    /// Seconds since the epoch, subsecond nanoseconds, and a fixed offset in
    /// seconds.
    DateTime(i64, u32, i32),
}

/// One fully built query: its text and its named parameters, in the order
/// they were bound.
pub struct Query {
    pub text: String,
    pub params: Vec<(String, WireValue)>,
}

} // verus!
