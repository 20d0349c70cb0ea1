//! The schema-typed row/value model that export targets receive.
//!
//! Values are held as plain data: floating-point numbers by their 64-bit IEEE
//! encoding (a 32-bit float is widened where the value is produced), dates as
//! days since the epoch, times as nanoseconds since midnight, timestamps as
//! seconds plus subsecond nanoseconds, UUIDs as their sixteen bytes.

use vstd::prelude::*;

verus! {

/// Declared element type of a vector, with its fixed dimension if any.
pub struct VectorTypeSchema {
    pub element_type: Box<BasicValueType>,
    pub dimension: Option<usize>,
}

/// Declared type of a basic (non-composite) value.
pub enum BasicValueType {
    Bytes,
    Str,
    Bool,
    Int64,
    Float32,
    Float64,
    Range,
    Uuid,
    Date,
    Time,
    LocalDateTime,
    OffsetDateTime,
    Json,
    Vector(VectorTypeSchema),
}

/// Declared type of one named field.
pub struct FieldSchema {
    pub name: String,
    pub value_type: ValueType,
}

/// Declared row shape of a struct value.
pub struct StructSchema {
    pub fields: Vec<FieldSchema>,
}

/// Declared row shape of a collection value.
pub struct CollectionSchema {
    pub row: StructSchema,
}

/// Declared type of a value.
pub enum ValueType {
    Basic(BasicValueType),
    Struct(StructSchema),
    Collection(CollectionSchema),
}

/// A JSON number: an integer, or a float held by its 64-bit IEEE encoding.
pub enum JsonNum {
    Int(i64),
    Float(u64),
}

/// An arbitrary JSON value, held as plain data; object entries keep their
/// order.
pub enum JsonValue {
    Null,
    Bool(bool),
    Num(JsonNum),
    Str(String),
    Arr(Vec<JsonValue>),
    Obj(Vec<(String, JsonValue)>),
}

/// A half-open numeric range.
pub struct RangeValue {
    pub start: i64,
    pub end: i64,
}

/// A basic (non-composite) value.
pub enum BasicValue {
    Bytes(Vec<u8>),
    Str(String),
    Bool(bool),
    Int64(i64),
    /// A 64-bit float, held by its IEEE bit pattern.
    Float64(u64),
    /// A 32-bit float, already widened to its 64-bit IEEE bit pattern where
    /// the value was produced.
    Float32(u64),
    Range(RangeValue),
    /// A UUID, held by its sixteen bytes in order.
    Uuid([u8; 16]),
    /// Days since 1970-01-01.
    Date(i64),
    /// Nanoseconds since midnight.
    Time(u64),
    /// Seconds since the epoch, with subsecond nanoseconds.
    LocalDateTime(i64, u32),
    /// Seconds since the epoch, subsecond nanoseconds, and a fixed offset in
    /// seconds.
    OffsetDateTime(i64, u32, i32),
    Vector(Vec<BasicValue>),
    Json(JsonValue),
}

/// The ordered field values of one row.
pub struct FieldValues {
    pub fields: Vec<Value>,
}

/// A value of the row/value model.
pub enum Value {
    Null,
    Basic(BasicValue),
    Struct(FieldValues),
    Collection(Vec<FieldValues>),
    List(Vec<FieldValues>),
    Table(Vec<(KeyValue, FieldValues)>),
}

/// A key value: the restricted value forms a key field may hold. A composite
/// key is a struct of parts.
pub enum KeyValue {
    Bytes(Vec<u8>),
    Str(String),
    Bool(bool),
    Int64(i64),
    Range(RangeValue),
    Uuid([u8; 16]),
    Date(i64),
    Struct(Vec<KeyValue>),
}

} // verus!
