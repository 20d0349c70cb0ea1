use neo4j_export::encode::{json_to_wire, key_to_wire, uuid_to_string, value_to_wire, EncodeError};
use neo4j_export::strutil::dec_string;
use neo4j_export::values::{
    BasicValue, BasicValueType, CollectionSchema, FieldSchema, FieldValues, JsonNum, JsonValue,
    KeyValue, RangeValue, StructSchema, Value, ValueType, VectorTypeSchema,
};
use neo4j_export::wire::WireValue;

fn basic(t: BasicValueType) -> ValueType {
    ValueType::Basic(t)
}

fn field(name: &str, t: BasicValueType) -> FieldSchema {
    FieldSchema { name: name.to_string(), value_type: basic(t) }
}

#[test]
fn scalars_encode_one_to_one() {
    assert_eq!(
        value_to_wire(&Value::Basic(BasicValue::Int64(30)), &basic(BasicValueType::Int64)),
        Ok(WireValue::Int(30))
    );
    assert_eq!(
        value_to_wire(
            &Value::Basic(BasicValue::Str("Alice".to_string())),
            &basic(BasicValueType::Str)
        ),
        Ok(WireValue::Str("Alice".to_string()))
    );
    assert_eq!(
        value_to_wire(&Value::Basic(BasicValue::Bool(true)), &basic(BasicValueType::Bool)),
        Ok(WireValue::Bool(true))
    );
    let bits = 1.5f64.to_bits();
    assert_eq!(
        value_to_wire(&Value::Basic(BasicValue::Float64(bits)), &basic(BasicValueType::Float64)),
        Ok(WireValue::Float(bits))
    );
    let widened = (2.5f32 as f64).to_bits();
    assert_eq!(
        value_to_wire(&Value::Basic(BasicValue::Float32(widened)), &basic(BasicValueType::Float32)),
        Ok(WireValue::Float(widened))
    );
    assert_eq!(
        value_to_wire(&Value::Basic(BasicValue::Bytes(vec![1, 2, 3])), &basic(BasicValueType::Bytes)),
        Ok(WireValue::Bytes(vec![1, 2, 3]))
    );
    assert_eq!(
        value_to_wire(&Value::Basic(BasicValue::Date(19000)), &basic(BasicValueType::Date)),
        Ok(WireValue::Date(19000))
    );
    assert_eq!(
        value_to_wire(&Value::Basic(BasicValue::Time(3_600_000_000_000)), &basic(BasicValueType::Time)),
        Ok(WireValue::LocalTime(3_600_000_000_000))
    );
    assert_eq!(
        value_to_wire(
            &Value::Basic(BasicValue::LocalDateTime(1_700_000_000, 250)),
            &basic(BasicValueType::LocalDateTime)
        ),
        Ok(WireValue::LocalDateTime(1_700_000_000, 250))
    );
    assert_eq!(
        value_to_wire(
            &Value::Basic(BasicValue::OffsetDateTime(1_700_000_000, 0, 3600)),
            &basic(BasicValueType::OffsetDateTime)
        ),
        Ok(WireValue::DateTime(1_700_000_000, 0, 3600))
    );
    assert_eq!(
        value_to_wire(&Value::Null, &basic(BasicValueType::Str)),
        Ok(WireValue::Null)
    );
}

#[test]
fn range_encodes_as_two_element_integer_list() {
    assert_eq!(
        value_to_wire(
            &Value::Basic(BasicValue::Range(RangeValue { start: 10, end: 20 })),
            &basic(BasicValueType::Range)
        ),
        Ok(WireValue::List(vec![WireValue::Int(10), WireValue::Int(20)]))
    );
}

#[test]
fn uuid_serializes_as_hyphenated_string() {
    let b: [u8; 16] = [
        0x00, 0x11, 0x22, 0x33, 0x44, 0x55, 0x66, 0x77, 0x88, 0x99, 0xaa, 0xbb, 0xcc, 0xdd, 0xee,
        0xff,
    ];
    assert_eq!(uuid_to_string(&b), "00112233-4455-6677-8899-aabbccddeeff");
    assert_eq!(
        value_to_wire(&Value::Basic(BasicValue::Uuid(b)), &basic(BasicValueType::Uuid)),
        Ok(WireValue::Str("00112233-4455-6677-8899-aabbccddeeff".to_string()))
    );
}

#[test]
fn json_encodes_by_its_own_shape() {
    let j = JsonValue::Obj(vec![
        ("a".to_string(), JsonValue::Num(JsonNum::Int(1))),
        (
            "b".to_string(),
            JsonValue::Arr(vec![JsonValue::Null, JsonValue::Bool(false), JsonValue::Str(
                "x".to_string(),
            )]),
        ),
    ]);
    assert_eq!(
        json_to_wire(&j),
        WireValue::Dict(vec![
            ("a".to_string(), WireValue::Int(1)),
            (
                "b".to_string(),
                WireValue::List(vec![
                    WireValue::Null,
                    WireValue::Bool(false),
                    WireValue::Str("x".to_string())
                ])
            ),
        ])
    );
}

#[test]
fn vector_validates_element_type_recursively() {
    let vt = basic(BasicValueType::Vector(VectorTypeSchema {
        element_type: Box::new(BasicValueType::Float32),
        dimension: Some(2),
    }));
    let v = Value::Basic(BasicValue::Vector(vec![
        BasicValue::Float32(1.0f64.to_bits()),
        BasicValue::Float32(2.0f64.to_bits()),
    ]));
    assert_eq!(
        value_to_wire(&v, &vt),
        Ok(WireValue::List(vec![
            WireValue::Float(1.0f64.to_bits()),
            WireValue::Float(2.0f64.to_bits())
        ]))
    );
    // a vector value against a non-vector declared type is a mismatch
    assert_eq!(
        value_to_wire(&v, &basic(BasicValueType::Int64)),
        Err(EncodeError::TypeMismatch)
    );
}

#[test]
fn struct_zips_fields_with_declared_schema() {
    let t = ValueType::Struct(StructSchema {
        fields: vec![field("x", BasicValueType::Int64), field("y", BasicValueType::Str)],
    });
    let v = Value::Struct(FieldValues {
        fields: vec![
            Value::Basic(BasicValue::Int64(7)),
            Value::Basic(BasicValue::Str("q".to_string())),
        ],
    });
    assert_eq!(
        value_to_wire(&v, &t),
        Ok(WireValue::Dict(vec![
            ("x".to_string(), WireValue::Int(7)),
            ("y".to_string(), WireValue::Str("q".to_string())),
        ]))
    );
    // wrong arity is a mismatch
    let short = Value::Struct(FieldValues { fields: vec![Value::Basic(BasicValue::Int64(7))] });
    assert_eq!(value_to_wire(&short, &t), Err(EncodeError::TypeMismatch));
    // a struct value against a basic type is a mismatch
    assert_eq!(value_to_wire(&v, &basic(BasicValueType::Int64)), Err(EncodeError::TypeMismatch));
}

#[test]
fn collection_encodes_rows_and_table_prepends_key() {
    let row = StructSchema {
        fields: vec![field("k", BasicValueType::Str), field("n", BasicValueType::Int64)],
    };
    let t = ValueType::Collection(CollectionSchema { row });
    let coll = Value::Collection(vec![FieldValues {
        fields: vec![
            Value::Basic(BasicValue::Str("a".to_string())),
            Value::Basic(BasicValue::Int64(1)),
        ],
    }]);
    assert_eq!(
        value_to_wire(&coll, &t),
        Ok(WireValue::List(vec![WireValue::Dict(vec![
            ("k".to_string(), WireValue::Str("a".to_string())),
            ("n".to_string(), WireValue::Int(1)),
        ])]))
    );
    let table = Value::Table(vec![(
        KeyValue::Str("a".to_string()),
        FieldValues { fields: vec![Value::Basic(BasicValue::Int64(1))] },
    )]);
    assert_eq!(
        value_to_wire(&table, &t),
        Ok(WireValue::List(vec![WireValue::Dict(vec![
            ("k".to_string(), WireValue::Str("a".to_string())),
            ("n".to_string(), WireValue::Int(1)),
        ])]))
    );
}

#[test]
fn key_values_encode_like_plain_values() {
    assert_eq!(
        key_to_wire(&KeyValue::Int64(5), &basic(BasicValueType::Int64)),
        Ok(WireValue::Int(5))
    );
    let t = ValueType::Struct(StructSchema {
        fields: vec![field("a", BasicValueType::Str), field("b", BasicValueType::Int64)],
    });
    let k = KeyValue::Struct(vec![KeyValue::Str("p".to_string()), KeyValue::Int64(3)]);
    assert_eq!(
        key_to_wire(&k, &t),
        Ok(WireValue::Dict(vec![
            ("a".to_string(), WireValue::Str("p".to_string())),
            ("b".to_string(), WireValue::Int(3)),
        ]))
    );
    // composite key against a basic type is a mismatch
    assert_eq!(key_to_wire(&k, &basic(BasicValueType::Str)), Err(EncodeError::TypeMismatch));
}

#[test]
fn decimal_rendering_is_exact() {
    assert_eq!(dec_string(0), "0");
    assert_eq!(dec_string(7), "7");
    assert_eq!(dec_string(10), "10");
    assert_eq!(dec_string(12345), "12345");
}
