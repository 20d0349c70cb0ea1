//! Encoding the row/value model into wire parameter values, validated
//! against the declared schema type.
//!
//! Encoding is pure: a value whose dynamic shape disagrees with the declared
//! type yields a type-mismatch error; every other value encodes, and the
//! contracts below pin the encoding down exactly.

use vstd::prelude::*;

use crate::strutil::{byte_hex, bytes_hex, push_hex_byte};
use crate::values::{
    BasicValue, BasicValueType, CollectionSchema, FieldSchema, FieldValues, JsonNum, JsonValue,
    KeyValue, Value, ValueType,
};
use crate::wire::WireValue;

verus! {

/// Why encoding or key binding failed.
#[derive(Clone, Copy, PartialEq, Eq, Structural, Debug)]
pub enum EncodeError {
    /// A value's dynamic shape disagrees with the declared schema type.
    TypeMismatch,
    /// A key value does not split into the declared number of key fields.
    KeyArityMismatch,
}

/// The hyphenated lowercase-hex rendering of a UUID's sixteen bytes.
pub open spec fn uuid_hyphenated(b: Seq<u8>) -> Seq<char> {
    bytes_hex(b.subrange(0, 4)) + seq!['-'] + bytes_hex(b.subrange(4, 6)) + seq!['-'] + bytes_hex(
        b.subrange(6, 8),
    ) + seq!['-'] + bytes_hex(b.subrange(8, 10)) + seq!['-'] + bytes_hex(b.subrange(10, 16))
}

/// Relates a JSON value to its wire encoding: the encoding follows the JSON
/// value's own shape, entry for entry. Every JSON value encodes.
pub open spec fn json_wire_ok(v: JsonValue, w: WireValue) -> bool
    decreases v,
{
    match v {
        JsonValue::Null => w == WireValue::Null,
        JsonValue::Bool(b) => w == WireValue::Bool(b),
        JsonValue::Num(JsonNum::Int(i)) => w == WireValue::Int(i),
        JsonValue::Num(JsonNum::Float(bits)) => w == WireValue::Float(bits),
        JsonValue::Str(s) => w matches WireValue::Str(ws) && ws@ == s@,
        JsonValue::Arr(items) => w matches WireValue::List(ws) && ws@.len() == items@.len()
            && (forall|i: int|
            0 <= i < items@.len() ==> json_wire_ok(#[trigger] items@[i], ws@[i])),
        JsonValue::Obj(entries) => w matches WireValue::Dict(ws) && ws@.len() == entries@.len()
            && (forall|i: int|
            0 <= i < entries@.len() ==> (#[trigger] ws@[i]).0@ == entries@[i].0@ && json_wire_ok(
                entries@[i].1,
                ws@[i].1,
            )),
    }
}

/// Whether a basic value's shape agrees with the declared basic type. Only
/// vector values are checked against the declared type; scalar values encode
/// under any declared basic type, as the wire form depends on the value's
/// own sub-kind.
pub open spec fn basic_encodable(v: BasicValue, t: BasicValueType) -> bool
    decreases v,
{
    match v {
        BasicValue::Vector(items) => match t {
            BasicValueType::Vector(vt) => forall|i: int|
                0 <= i < items@.len() ==> basic_encodable(#[trigger] items@[i], *vt.element_type),
            _ => false,
        },
        _ => true,
    }
}

/// Relates a basic value to its wire encoding under the declared basic type.
pub open spec fn basic_wire_ok(v: BasicValue, t: BasicValueType, w: WireValue) -> bool
    decreases v,
{
    match v {
        BasicValue::Bytes(b) => w matches WireValue::Bytes(wb) && wb@ == b@,
        BasicValue::Str(s) => w matches WireValue::Str(ws) && ws@ == s@,
        BasicValue::Bool(b) => w == WireValue::Bool(b),
        BasicValue::Int64(i) => w == WireValue::Int(i),
        BasicValue::Float64(bits) => w == WireValue::Float(bits),
        BasicValue::Float32(bits) => w == WireValue::Float(bits),
        BasicValue::Range(r) => w matches WireValue::List(l) && l@.len() == 2 && l@[0]
            == WireValue::Int(r.start) && l@[1] == WireValue::Int(r.end),
        BasicValue::Uuid(b) => w matches WireValue::Str(ws) && ws@ == uuid_hyphenated(b@),
        BasicValue::Date(d) => w == WireValue::Date(d),
        BasicValue::Time(ns) => w == WireValue::LocalTime(ns),
        BasicValue::LocalDateTime(secs, ns) => w == WireValue::LocalDateTime(secs, ns),
        BasicValue::OffsetDateTime(secs, ns, off) => w == WireValue::DateTime(secs, ns, off),
        BasicValue::Vector(items) => match t {
            BasicValueType::Vector(vt) => w matches WireValue::List(ws) && ws@.len()
                == items@.len() && (forall|i: int|
                0 <= i < items@.len() ==> basic_wire_ok(
                    #[trigger] items@[i],
                    *vt.element_type,
                    ws@[i],
                )),
            _ => false,
        },
        BasicValue::Json(j) => json_wire_ok(j, w),
    }
}

/// Whether a key value's shape agrees with the declared type: a scalar key
/// part needs a basic declared type, a composite key a struct type of the
/// same arity.
pub open spec fn key_encodable(k: KeyValue, t: ValueType) -> bool
    decreases k,
{
    match k {
        KeyValue::Struct(parts) => match t {
            ValueType::Struct(st) => parts@.len() == st.fields@.len() && (forall|i: int|
                0 <= i < parts@.len() ==> key_encodable(
                    #[trigger] parts@[i],
                    st.fields@[i].value_type,
                )),
            _ => false,
        },
        _ => t is Basic,
    }
}

/// Relates a key value to its wire encoding under the declared type; key
/// values encode as the corresponding plain values do.
pub open spec fn key_wire_ok(k: KeyValue, t: ValueType, w: WireValue) -> bool
    decreases k,
{
    match k {
        KeyValue::Bytes(b) => t is Basic && (w matches WireValue::Bytes(wb) && wb@ == b@),
        KeyValue::Str(s) => t is Basic && (w matches WireValue::Str(ws) && ws@ == s@),
        KeyValue::Bool(b) => t is Basic && w == WireValue::Bool(b),
        KeyValue::Int64(i) => t is Basic && w == WireValue::Int(i),
        KeyValue::Range(r) => t is Basic && (w matches WireValue::List(l) && l@.len() == 2 && l@[0]
            == WireValue::Int(r.start) && l@[1] == WireValue::Int(r.end)),
        KeyValue::Uuid(b) => t is Basic && (w matches WireValue::Str(ws) && ws@ == uuid_hyphenated(
            b@,
        )),
        KeyValue::Date(d) => t is Basic && w == WireValue::Date(d),
        KeyValue::Struct(parts) => match t {
            ValueType::Struct(st) => parts@.len() == st.fields@.len() && (w matches
                WireValue::Dict(entries) && entries@.len() == parts@.len() && (forall|i: int|
                0 <= i < parts@.len() ==> (#[trigger] entries@[i]).0@ == st.fields@[i].name@
                    && key_wire_ok(parts@[i], st.fields@[i].value_type, entries@[i].1))),
            _ => false,
        },
    }
}

/// Whether one row's values, zipped positionally against the declared field
/// schemas, all encode; the counts must agree.
pub open spec fn row_encodable(fields: Seq<Value>, schema: Seq<FieldSchema>) -> bool
    decreases fields,
{
    fields.len() == schema.len() && (forall|i: int|
        0 <= i < fields.len() ==> value_encodable(#[trigger] fields[i], schema[i].value_type))
}

/// Relates one row to its ordered name-to-value wire entries: entry `i`
/// carries the declared name of field `i` and the encoding of value `i`.
pub open spec fn row_entries_ok(
    fields: Seq<Value>,
    schema: Seq<FieldSchema>,
    entries: Seq<(String, WireValue)>,
) -> bool
    decreases fields,
{
    fields.len() == schema.len() && entries.len() == fields.len() && (forall|i: int|
        0 <= i < fields.len() ==> (#[trigger] entries[i]).0@ == schema[i].name@ && value_wire_ok(
            fields[i],
            schema[i].value_type,
            entries[i].1,
        ))
}

/// Whether every row of a collection or list encodes against the declared
/// row schema.
pub open spec fn rows_encodable(rows: Seq<FieldValues>, schema: Seq<FieldSchema>) -> bool
    decreases rows,
{
    forall|r: int| 0 <= r < rows.len() ==> row_encodable((#[trigger] rows[r]).fields@, schema)
}

/// Relates collection or list rows to their wire encoding: a list of one
/// per-row map each.
pub open spec fn rows_wire_ok(rows: Seq<FieldValues>, schema: Seq<FieldSchema>, w: WireValue) -> bool
    decreases rows,
{
    w matches WireValue::List(ws) && ws@.len() == rows.len() && (forall|r: int|
        0 <= r < rows.len() ==> ((#[trigger] ws@[r]) matches WireValue::Dict(entries)
            && row_entries_ok(rows[r].fields@, schema, entries@)))
}

/// Whether one table row encodes: the declared row schema's first field
/// types the key, the remaining fields the row's values.
pub open spec fn table_row_encodable(k: KeyValue, fields: Seq<Value>, schema: Seq<FieldSchema>) -> bool
    decreases fields,
{
    schema.len() == 1 + fields.len() && key_encodable(k, schema[0].value_type) && (forall|i: int|
        0 <= i < fields.len() ==> value_encodable(#[trigger] fields[i], schema[i + 1].value_type))
}

/// Relates one table row to its wire entries: the encoded key stands first
/// under the first declared field's name, the encoded values follow.
pub open spec fn table_row_entries_ok(
    k: KeyValue,
    fields: Seq<Value>,
    schema: Seq<FieldSchema>,
    entries: Seq<(String, WireValue)>,
) -> bool
    decreases fields,
{
    schema.len() == 1 + fields.len() && entries.len() == schema.len() && entries[0].0@
        == schema[0].name@ && key_wire_ok(k, schema[0].value_type, entries[0].1) && (forall|i: int|
        0 <= i < fields.len() ==> (#[trigger] entries[i + 1]).0@ == schema[i + 1].name@
            && value_wire_ok(fields[i], schema[i + 1].value_type, entries[i + 1].1))
}

/// Whether every row of a table encodes against the declared row schema.
pub open spec fn table_encodable(rows: Seq<(KeyValue, FieldValues)>, schema: Seq<FieldSchema>) -> bool
    decreases rows,
{
    forall|r: int|
        0 <= r < rows.len() ==> table_row_encodable(
            (#[trigger] rows[r]).0,
            rows[r].1.fields@,
            schema,
        )
}

/// Relates table rows to their wire encoding: a list of one per-row map
/// each, the key prepended.
pub open spec fn table_wire_ok(
    rows: Seq<(KeyValue, FieldValues)>,
    schema: Seq<FieldSchema>,
    w: WireValue,
) -> bool
    decreases rows,
{
    w matches WireValue::List(ws) && ws@.len() == rows.len() && (forall|r: int|
        0 <= r < rows.len() ==> ((#[trigger] ws@[r]) matches WireValue::Dict(entries)
            && table_row_entries_ok(rows[r].0, rows[r].1.fields@, schema, entries@)))
}

/// Whether a value's shape agrees with the declared type: basic against
/// basic, struct rows zipped field for field (same count), collection and
/// list rows each zipped against the declared row schema, and table rows
/// with the key prepended before zipping. Null encodes under any type.
pub open spec fn value_encodable(v: Value, t: ValueType) -> bool
    decreases v,
{
    match v {
        Value::Null => true,
        Value::Basic(b) => match t {
            ValueType::Basic(bt) => basic_encodable(b, bt),
            _ => false,
        },
        Value::Struct(fv) => match t {
            ValueType::Struct(st) => row_encodable(fv.fields@, st.fields@),
            _ => false,
        },
        Value::Collection(rows) => match t {
            ValueType::Collection(ct) => rows_encodable(rows@, ct.row.fields@),
            _ => false,
        },
        Value::List(rows) => match t {
            ValueType::Collection(ct) => rows_encodable(rows@, ct.row.fields@),
            _ => false,
        },
        Value::Table(rows) => match t {
            ValueType::Collection(ct) => table_encodable(rows@, ct.row.fields@),
            _ => false,
        },
    }
}

/// Relates a value to its wire encoding under the declared type. A struct
/// or row encodes as a map from declared field name to encoded field value,
/// in declared order; a collection as the list of its encoded rows; a table
/// row prepends the encoded key under the first declared field.
pub open spec fn value_wire_ok(v: Value, t: ValueType, w: WireValue) -> bool
    decreases v,
{
    match v {
        Value::Null => w == WireValue::Null,
        Value::Basic(b) => match t {
            ValueType::Basic(bt) => basic_wire_ok(b, bt, w),
            _ => false,
        },
        Value::Struct(fv) => match t {
            ValueType::Struct(st) => w matches WireValue::Dict(entries) && row_entries_ok(
                fv.fields@,
                st.fields@,
                entries@,
            ),
            _ => false,
        },
        Value::Collection(rows) => match t {
            ValueType::Collection(ct) => rows_wire_ok(rows@, ct.row.fields@, w),
            _ => false,
        },
        Value::List(rows) => match t {
            ValueType::Collection(ct) => rows_wire_ok(rows@, ct.row.fields@, w),
            _ => false,
        },
        Value::Table(rows) => match t {
            ValueType::Collection(ct) => table_wire_ok(rows@, ct.row.fields@, w),
            _ => false,
        },
    }
}

/// Builds the hyphenated lowercase-hex string of a UUID's sixteen bytes.
pub fn uuid_to_string(b: &[u8; 16]) -> (r: String)
    ensures
        r@ == uuid_hyphenated(b@),
{
    let mut s = String::new();
    push_hex_range(&mut s, b, 0, 4);
    push_dash(&mut s);
    push_hex_range(&mut s, b, 4, 6);
    push_dash(&mut s);
    push_hex_range(&mut s, b, 6, 8);
    push_dash(&mut s);
    push_hex_range(&mut s, b, 8, 10);
    push_dash(&mut s);
    push_hex_range(&mut s, b, 10, 16);
    assert(s@ =~= uuid_hyphenated(b@));
    s
}

fn push_dash(s: &mut String)
    ensures
        final(s)@ == old(s)@ + seq!['-'],
{
    proof {
        reveal_strlit("-");
        assert("-"@ =~= seq!['-']);
    }
    s.append("-");
}

fn push_hex_range(s: &mut String, b: &[u8; 16], from: usize, to: usize)
    requires
        from <= to <= 16,
    ensures
        final(s)@ == old(s)@ + bytes_hex(b@.subrange(from as int, to as int)),
{
    let ghost base = s@;
    let mut i: usize = from;
    proof {
        assert(b@.subrange(from as int, from as int) =~= Seq::<u8>::empty());
    }
    while i < to
        invariant
            from <= i <= to <= 16,
            b@.len() == 16,
            s@ == base + bytes_hex(b@.subrange(from as int, i as int)),
        decreases to - i,
    {
        push_hex_byte(s, b[i]);
        proof {
            let q = b@.subrange(from as int, i + 1);
            assert(q.drop_last() =~= b@.subrange(from as int, i as int));
            assert(q.last() == b@[i as int]);
            assert(s@ =~= base + bytes_hex(b@.subrange(from as int, i + 1)));
        }
        i = i + 1;
    }
    assert(s@ =~= base + bytes_hex(b@.subrange(from as int, to as int)));
}

/// Encodes a JSON value by its own shape; every JSON value encodes.
#[verifier::loop_isolation(false)]
pub fn json_to_wire(v: &JsonValue) -> (r: WireValue)
    ensures
        json_wire_ok(*v, r),
    decreases *v,
{
    match v {
        JsonValue::Null => WireValue::Null,
        JsonValue::Bool(b) => WireValue::Bool(*b),
        JsonValue::Num(JsonNum::Int(i)) => WireValue::Int(*i),
        JsonValue::Num(JsonNum::Float(bits)) => WireValue::Float(*bits),
        JsonValue::Str(s) => WireValue::Str(s.clone()),
        JsonValue::Arr(items) => {
            let mut out: Vec<WireValue> = Vec::new();
            let mut i: usize = 0;
            while i < items.len()
                invariant
                    i <= items@.len(),
                    out@.len() == i as int,
                    forall|j: int| 0 <= j < i ==> json_wire_ok(#[trigger] items@[j], out@[j]),
                decreases items@.len() - i,
            {
                let w = json_to_wire(&items[i]);
                out.push(w);
                i = i + 1;
            }
            WireValue::List(out)
        },
        JsonValue::Obj(entries) => {
            let mut out: Vec<(String, WireValue)> = Vec::new();
            let mut i: usize = 0;
            while i < entries.len()
                invariant
                    i <= entries@.len(),
                    out@.len() == i as int,
                    forall|j: int|
                        0 <= j < i ==> (#[trigger] out@[j]).0@ == entries@[j].0@ && json_wire_ok(
                            entries@[j].1,
                            out@[j].1,
                        ),
                decreases entries@.len() - i,
            {
                let w = json_to_wire(&entries[i].1);
                out.push((entries[i].0.clone(), w));
                i = i + 1;
            }
            WireValue::Dict(out)
        },
    }
}

/// Encodes a basic value under its declared basic type; fails exactly when a
/// vector value meets a non-vector declared type, recursively.
#[verifier::loop_isolation(false)]
pub fn basic_to_wire(v: &BasicValue, t: &BasicValueType) -> (r: Result<WireValue, EncodeError>)
    ensures
        r is Ok <==> basic_encodable(*v, *t),
        r is Ok ==> basic_wire_ok(*v, *t, r->Ok_0),
        r is Err ==> r->Err_0 == EncodeError::TypeMismatch,
    decreases *v,
{
    match v {
        BasicValue::Bytes(b) => Ok(WireValue::Bytes(b.clone())),
        BasicValue::Str(s) => Ok(WireValue::Str(s.clone())),
        BasicValue::Bool(b) => Ok(WireValue::Bool(*b)),
        BasicValue::Int64(i) => Ok(WireValue::Int(*i)),
        BasicValue::Float64(bits) => Ok(WireValue::Float(*bits)),
        BasicValue::Float32(bits) => Ok(WireValue::Float(*bits)),
        BasicValue::Range(rv) => {
            let mut l: Vec<WireValue> = Vec::new();
            l.push(WireValue::Int(rv.start));
            l.push(WireValue::Int(rv.end));
            Ok(WireValue::List(l))
        },
        BasicValue::Uuid(b) => Ok(WireValue::Str(uuid_to_string(b))),
        BasicValue::Date(d) => Ok(WireValue::Date(*d)),
        BasicValue::Time(ns) => Ok(WireValue::LocalTime(*ns)),
        BasicValue::LocalDateTime(secs, ns) => Ok(WireValue::LocalDateTime(*secs, *ns)),
        BasicValue::OffsetDateTime(secs, ns, off) => Ok(WireValue::DateTime(*secs, *ns, *off)),
        BasicValue::Vector(items) => match t {
            BasicValueType::Vector(vt) => {
                let mut out: Vec<WireValue> = Vec::new();
                let mut i: usize = 0;
                while i < items.len()
                    invariant
                        i <= items@.len(),
                        out@.len() == i as int,
                        forall|j: int|
                            0 <= j < i ==> basic_encodable(#[trigger] items@[j], *vt.element_type),
                        forall|j: int|
                            0 <= j < i ==> basic_wire_ok(
                                #[trigger] items@[j],
                                *vt.element_type,
                                out@[j],
                            ),
                    decreases items@.len() - i,
                {
                    match basic_to_wire(&items[i], &vt.element_type) {
                        Ok(w) => out.push(w),
                        Err(e) => {
                            return Err(e);
                        },
                    }
                    i = i + 1;
                }
                Ok(WireValue::List(out))
            },
            _ => Err(EncodeError::TypeMismatch),
        },
        BasicValue::Json(j) => Ok(json_to_wire(j)),
    }
}

/// Encodes a key value under the declared type of its key field.
#[verifier::loop_isolation(false)]
pub fn key_to_wire(k: &KeyValue, t: &ValueType) -> (r: Result<WireValue, EncodeError>)
    ensures
        r is Ok <==> key_encodable(*k, *t),
        r is Ok ==> key_wire_ok(*k, *t, r->Ok_0),
        r is Err ==> r->Err_0 == EncodeError::TypeMismatch,
    decreases *k,
{
    match k {
        KeyValue::Bytes(b) => match t {
            ValueType::Basic(_) => Ok(WireValue::Bytes(b.clone())),
            _ => Err(EncodeError::TypeMismatch),
        },
        KeyValue::Str(s) => match t {
            ValueType::Basic(_) => Ok(WireValue::Str(s.clone())),
            _ => Err(EncodeError::TypeMismatch),
        },
        KeyValue::Bool(b) => match t {
            ValueType::Basic(_) => Ok(WireValue::Bool(*b)),
            _ => Err(EncodeError::TypeMismatch),
        },
        KeyValue::Int64(i) => match t {
            ValueType::Basic(_) => Ok(WireValue::Int(*i)),
            _ => Err(EncodeError::TypeMismatch),
        },
        KeyValue::Range(rv) => match t {
            ValueType::Basic(_) => {
                let mut l: Vec<WireValue> = Vec::new();
                l.push(WireValue::Int(rv.start));
                l.push(WireValue::Int(rv.end));
                Ok(WireValue::List(l))
            },
            _ => Err(EncodeError::TypeMismatch),
        },
        KeyValue::Uuid(b) => match t {
            ValueType::Basic(_) => Ok(WireValue::Str(uuid_to_string(b))),
            _ => Err(EncodeError::TypeMismatch),
        },
        KeyValue::Date(d) => match t {
            ValueType::Basic(_) => Ok(WireValue::Date(*d)),
            _ => Err(EncodeError::TypeMismatch),
        },
        KeyValue::Struct(parts) => match t {
            ValueType::Struct(st) => {
                if parts.len() != st.fields.len() {
                    return Err(EncodeError::TypeMismatch);
                }
                let mut out: Vec<(String, WireValue)> = Vec::new();
                let mut i: usize = 0;
                while i < parts.len()
                    invariant
                        i <= parts@.len(),
                        parts@.len() == st.fields@.len(),
                        out@.len() == i as int,
                        forall|j: int|
                            0 <= j < i ==> key_encodable(
                                #[trigger] parts@[j],
                                st.fields@[j].value_type,
                            ),
                        forall|j: int|
                            0 <= j < i ==> (#[trigger] out@[j]).0@ == st.fields@[j].name@
                                && key_wire_ok(parts@[j], st.fields@[j].value_type, out@[j].1),
                    decreases parts@.len() - i,
                {
                    match key_to_wire(&parts[i], &st.fields[i].value_type) {
                        Ok(w) => out.push((st.fields[i].name.clone(), w)),
                        Err(e) => {
                            return Err(e);
                        },
                    }
                    i = i + 1;
                }
                Ok(WireValue::Dict(out))
            },
            _ => Err(EncodeError::TypeMismatch),
        },
    }
}

/// Encodes one row: its values zipped positionally against the declared
/// field schemas, producing the ordered name-to-value entries.
#[verifier::loop_isolation(false)]
fn row_to_wire(fields: &Vec<Value>, schema: &Vec<FieldSchema>) -> (r: Result<
    Vec<(String, WireValue)>,
    EncodeError,
>)
    ensures
        r is Ok <==> row_encodable(fields@, schema@),
        r is Ok ==> row_entries_ok(fields@, schema@, r->Ok_0@),
        r is Err ==> r->Err_0 == EncodeError::TypeMismatch,
    decreases fields,
{
    if fields.len() != schema.len() {
        return Err(EncodeError::TypeMismatch);
    }
    let mut out: Vec<(String, WireValue)> = Vec::new();
    let mut i: usize = 0;
    while i < fields.len()
        invariant
            i <= fields@.len(),
            fields@.len() == schema@.len(),
            out@.len() == i as int,
            forall|j: int|
                0 <= j < i ==> value_encodable(#[trigger] fields@[j], schema@[j].value_type),
            forall|j: int|
                0 <= j < i ==> (#[trigger] out@[j]).0@ == schema@[j].name@ && value_wire_ok(
                    fields@[j],
                    schema@[j].value_type,
                    out@[j].1,
                ),
        decreases fields@.len() - i,
    {
        match value_to_wire(&fields[i], &schema[i].value_type) {
            Ok(w) => out.push((schema[i].name.clone(), w)),
            Err(e) => {
                return Err(e);
            },
        }
        i = i + 1;
    }
    Ok(out)
}

/// Encodes collection or list rows as a wire list of per-row maps.
#[verifier::loop_isolation(false)]
fn rows_to_wire(rows: &Vec<FieldValues>, ct: &CollectionSchema) -> (r: Result<
    WireValue,
    EncodeError,
>)
    ensures
        r is Ok <==> rows_encodable(rows@, ct.row.fields@),
        r is Ok ==> rows_wire_ok(rows@, ct.row.fields@, r->Ok_0),
        r is Err ==> r->Err_0 == EncodeError::TypeMismatch,
    decreases rows,
{
    let mut out: Vec<WireValue> = Vec::new();
    let mut q: usize = 0;
    while q < rows.len()
        invariant
            q <= rows@.len(),
            out@.len() == q as int,
            forall|p: int| 0 <= p < q ==> row_encodable((#[trigger] rows@[p]).fields@, ct.row.fields@),
            forall|p: int|
                0 <= p < q ==> ((#[trigger] out@[p]) matches WireValue::Dict(entries)
                    && row_entries_ok(rows@[p].fields@, ct.row.fields@, entries@)),
        decreases rows@.len() - q,
    {
        match row_to_wire(&rows[q].fields, &ct.row.fields) {
            Ok(entries) => out.push(WireValue::Dict(entries)),
            Err(e) => {
                return Err(e);
            },
        }
        q = q + 1;
    }
    Ok(WireValue::List(out))
}

/// Encodes one table row: the key value is prepended, under the first
/// declared field, to the row's value fields before zipping.
#[verifier::loop_isolation(false)]
fn table_row_to_wire(k: &KeyValue, fields: &Vec<Value>, schema: &Vec<FieldSchema>) -> (r: Result<
    Vec<(String, WireValue)>,
    EncodeError,
>)
    ensures
        r is Ok <==> table_row_encodable(*k, fields@, schema@),
        r is Ok ==> table_row_entries_ok(*k, fields@, schema@, r->Ok_0@),
        r is Err ==> r->Err_0 == EncodeError::TypeMismatch,
    decreases fields,
{
    if schema.len() == 0 || schema.len() - 1 != fields.len() {
        return Err(EncodeError::TypeMismatch);
    }
    let kw = match key_to_wire(k, &schema[0].value_type) {
        Ok(w) => w,
        Err(e) => {
            return Err(e);
        },
    };
    let mut out: Vec<(String, WireValue)> = Vec::new();
    out.push((schema[0].name.clone(), kw));
    let mut i: usize = 0;
    while i < fields.len()
        invariant
            i <= fields@.len(),
            schema@.len() == 1 + fields@.len(),
            out@.len() == 1 + i as int,
            out@[0].0@ == schema@[0].name@,
            key_wire_ok(*k, schema@[0].value_type, out@[0].1),
            forall|j: int|
                0 <= j < i ==> value_encodable(#[trigger] fields@[j], schema@[j + 1].value_type),
            forall|j: int|
                0 <= j < i ==> (#[trigger] out@[j + 1]).0@ == schema@[j + 1].name@
                    && value_wire_ok(fields@[j], schema@[j + 1].value_type, out@[j + 1].1),
        decreases fields@.len() - i,
    {
        match value_to_wire(&fields[i], &schema[i + 1].value_type) {
            Ok(w) => out.push((schema[i + 1].name.clone(), w)),
            Err(e) => {
                return Err(e);
            },
        }
        i = i + 1;
    }
    Ok(out)
}

/// Encodes table rows as a wire list of per-row maps, the key prepended.
#[verifier::loop_isolation(false)]
fn table_to_wire(rows: &Vec<(KeyValue, FieldValues)>, ct: &CollectionSchema) -> (r: Result<
    WireValue,
    EncodeError,
>)
    ensures
        r is Ok <==> table_encodable(rows@, ct.row.fields@),
        r is Ok ==> table_wire_ok(rows@, ct.row.fields@, r->Ok_0),
        r is Err ==> r->Err_0 == EncodeError::TypeMismatch,
    decreases rows,
{
    let mut out: Vec<WireValue> = Vec::new();
    let mut q: usize = 0;
    while q < rows.len()
        invariant
            q <= rows@.len(),
            out@.len() == q as int,
            forall|p: int|
                0 <= p < q ==> table_row_encodable(
                    (#[trigger] rows@[p]).0,
                    rows@[p].1.fields@,
                    ct.row.fields@,
                ),
            forall|p: int|
                0 <= p < q ==> ((#[trigger] out@[p]) matches WireValue::Dict(entries)
                    && table_row_entries_ok(rows@[p].0, rows@[p].1.fields@, ct.row.fields@, entries@)),
        decreases rows@.len() - q,
    {
        match table_row_to_wire(&rows[q].0, &rows[q].1.fields, &ct.row.fields) {
            Ok(entries) => out.push(WireValue::Dict(entries)),
            Err(e) => {
                return Err(e);
            },
        }
        q = q + 1;
    }
    Ok(WireValue::List(out))
}

/// Encodes a value under its declared type, recursively; fails exactly when
/// some part's dynamic shape disagrees with the declared type.
pub fn value_to_wire(v: &Value, t: &ValueType) -> (r: Result<WireValue, EncodeError>)
    ensures
        r is Ok <==> value_encodable(*v, *t),
        r is Ok ==> value_wire_ok(*v, *t, r->Ok_0),
        r is Err ==> r->Err_0 == EncodeError::TypeMismatch,
    decreases *v,
{
    match v {
        Value::Null => Ok(WireValue::Null),
        Value::Basic(b) => match t {
            ValueType::Basic(bt) => basic_to_wire(b, bt),
            _ => Err(EncodeError::TypeMismatch),
        },
        Value::Struct(fv) => match t {
            ValueType::Struct(st) => match row_to_wire(&fv.fields, &st.fields) {
                Ok(entries) => Ok(WireValue::Dict(entries)),
                Err(e) => Err(e),
            },
            _ => Err(EncodeError::TypeMismatch),
        },
        Value::Collection(rows) => match t {
            ValueType::Collection(ct) => rows_to_wire(rows, ct),
            _ => Err(EncodeError::TypeMismatch),
        },
        Value::List(rows) => match t {
            ValueType::Collection(ct) => rows_to_wire(rows, ct),
            _ => Err(EncodeError::TypeMismatch),
        },
        Value::Table(rows) => match t {
            ValueType::Collection(ct) => table_to_wire(rows, ct),
            _ => Err(EncodeError::TypeMismatch),
        },
    }
}

} // verus!
