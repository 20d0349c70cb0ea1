use neo4j_export::builder::build_export_target;
use neo4j_export::mapping::{
    AuthEntryReference, GraphElementMapping, IndexOptions, NodeMapping, NodeReferenceMapping,
    NodeStorageSpec, RelationshipMapping, Spec, TargetFieldMapping,
};
use neo4j_export::values::{BasicValue, BasicValueType, FieldSchema, FieldValues, KeyValue, Value, ValueType};
use neo4j_export::context::ExportTargetUpsertEntry;
use neo4j_export::wire::WireValue;

fn basic_field(name: &str, t: BasicValueType) -> FieldSchema {
    FieldSchema { name: name.to_string(), value_type: ValueType::Basic(t) }
}

fn no_indexes() -> IndexOptions {
    IndexOptions { primary_key_fields: None, vector_indexes: Vec::new() }
}

fn node_spec(label: &str) -> Spec {
    Spec {
        connection: AuthEntryReference { key: "conn".to_string() },
        mapping: GraphElementMapping::Node(NodeMapping { label: label.to_string() }),
    }
}

#[test]
fn node_target_templates_and_bound_parameters() {
    let out = build_export_target(
        node_spec("Person"),
        vec![basic_field("id", BasicValueType::Str)],
        vec![basic_field("name", BasicValueType::Str), basic_field("age", BasicValueType::Int64)],
        &no_indexes(),
    )
    .unwrap();
    let ctx = &out.export_context;
    assert_eq!(
        ctx.insert_cypher,
        "MERGE (new_node:Person {id: $key_0})\nSET new_node += $props\n\nFINISH\n"
    );
    assert_eq!(
        ctx.delete_cypher,
        "OPTIONAL MATCH (old_node:Person {id: $key_0})\nWITH old_node\nWHERE NOT (old_node)--()\nDELETE old_node\nFINISH\n"
    );
    assert_eq!(ctx.create_order, 0);
    assert!(!ctx.delete_before_upsert);

    let upsert = ExportTargetUpsertEntry {
        key: KeyValue::Str("p1".to_string()),
        value: FieldValues {
            fields: vec![
                Value::Basic(BasicValue::Str("Alice".to_string())),
                Value::Basic(BasicValue::Int64(30)),
            ],
        },
    };
    let mut queries = Vec::new();
    ctx.add_upsert_queries(&upsert, &mut queries).unwrap();
    assert_eq!(queries.len(), 1);
    assert_eq!(queries[0].text, ctx.insert_cypher);
    assert_eq!(
        queries[0].params,
        vec![
            ("key_0".to_string(), WireValue::Str("p1".to_string())),
            (
                "props".to_string(),
                WireValue::Dict(vec![
                    ("name".to_string(), WireValue::Str("Alice".to_string())),
                    ("age".to_string(), WireValue::Int(30)),
                ])
            ),
        ]
    );

    let mut deletes = Vec::new();
    ctx.add_delete_queries(&KeyValue::Str("p1".to_string()), &mut deletes).unwrap();
    assert_eq!(deletes.len(), 1);
    assert_eq!(deletes[0].text, ctx.delete_cypher);
    assert_eq!(
        deletes[0].params,
        vec![("key_0".to_string(), WireValue::Str("p1".to_string()))]
    );
}

fn knows_spec() -> Spec {
    Spec {
        connection: AuthEntryReference { key: "conn".to_string() },
        mapping: GraphElementMapping::Relationship(RelationshipMapping {
            rel_type: "KNOWS".to_string(),
            source: NodeReferenceMapping {
                label: "Person".to_string(),
                fields: vec![TargetFieldMapping {
                    source: "src_id".to_string(),
                    target: Some("id".to_string()),
                }],
            },
            target: NodeReferenceMapping {
                label: "Person".to_string(),
                fields: vec![TargetFieldMapping {
                    source: "tgt_id".to_string(),
                    target: Some("id".to_string()),
                }],
            },
            nodes_storage_spec: None,
        }),
    }
}

#[test]
fn relationship_target_templates_and_bound_parameters() {
    let out = build_export_target(
        knows_spec(),
        vec![basic_field("since", BasicValueType::Int64)],
        vec![basic_field("src_id", BasicValueType::Str), basic_field("tgt_id", BasicValueType::Str)],
        &no_indexes(),
    )
    .unwrap();
    let ctx = &out.export_context;
    assert_eq!(ctx.create_order, 1);
    assert_eq!(
        ctx.insert_cypher,
        "MERGE (new_src:Person {id: $source_key_0})\n\nMERGE (new_tgt:Person {id: $target_key_0})\n\nMERGE (new_src)-[new_rel:KNOWS {since: $key_0}]->(new_tgt)\n\nFINISH\n"
    );

    let upsert = ExportTargetUpsertEntry {
        key: KeyValue::Int64(2020),
        value: FieldValues {
            fields: vec![
                Value::Basic(BasicValue::Str("p1".to_string())),
                Value::Basic(BasicValue::Str("p2".to_string())),
            ],
        },
    };
    let mut queries = Vec::new();
    ctx.add_upsert_queries(&upsert, &mut queries).unwrap();
    // a relationship upsert emits no pre-delete query
    assert_eq!(queries.len(), 1);
    assert_eq!(queries[0].text, ctx.insert_cypher);
    assert_eq!(
        queries[0].params,
        vec![
            ("key_0".to_string(), WireValue::Int(2020)),
            ("source_key_0".to_string(), WireValue::Str("p1".to_string())),
            ("target_key_0".to_string(), WireValue::Str("p2".to_string())),
        ]
    );
}

#[test]
fn relationship_delete_template_checks_both_endpoints() {
    let out = build_export_target(
        knows_spec(),
        vec![basic_field("since", BasicValueType::Int64)],
        vec![basic_field("src_id", BasicValueType::Str), basic_field("tgt_id", BasicValueType::Str)],
        &no_indexes(),
    )
    .unwrap();
    let expected = "OPTIONAL MATCH (old_src)-[old_rel:KNOWS {since: $key_0}]->(old_tgt)\n\n\
DELETE old_rel\n\n\
WITH old_src, old_tgt\n\
CALL {\n  WITH old_src\n  OPTIONAL MATCH (old_src)-[r]-()\n  WITH old_src, count(r) AS rels\n  WHERE rels = 0\n  DELETE old_src\n  RETURN 0 AS _1\n}\n\n\
CALL {\n  WITH old_tgt\n  OPTIONAL MATCH (old_tgt)-[r]-()\n  WITH old_tgt, count(r) AS rels\n  WHERE rels = 0\n  DELETE old_tgt\n  RETURN 0 AS _2\n}            \n\n\
FINISH\n";
    assert_eq!(out.export_context.delete_cypher, expected);
}

#[test]
fn mismatched_row_value_aborts_the_upsert() {
    let out = build_export_target(
        node_spec("Person"),
        vec![basic_field("id", BasicValueType::Str)],
        vec![basic_field(
            "emb",
            BasicValueType::Vector(neo4j_export::values::VectorTypeSchema {
                element_type: Box::new(BasicValueType::Float32),
                dimension: Some(2),
            }),
        )],
        &no_indexes(),
    )
    .unwrap();
    let ctx = &out.export_context;
    let upsert = ExportTargetUpsertEntry {
        key: KeyValue::Str("p1".to_string()),
        // an integer where the declared type demands a vector is fine (scalars
        // are not shape-checked), but a vector against a non-vector element is:
        value: FieldValues {
            fields: vec![Value::Basic(BasicValue::Vector(vec![BasicValue::Vector(vec![])]))],
        },
    };
    let mut queries = Vec::new();
    let r = ctx.add_upsert_queries(&upsert, &mut queries);
    assert_eq!(r, Err(neo4j_export::encode::EncodeError::TypeMismatch));
    assert!(queries.is_empty());
}

#[test]
fn composite_key_arity_is_enforced() {
    let out = build_export_target(
        node_spec("Pair"),
        vec![basic_field("a", BasicValueType::Str), basic_field("b", BasicValueType::Str)],
        vec![],
        &no_indexes(),
    )
    .unwrap();
    let ctx = &out.export_context;
    let mut queries = Vec::new();
    let bad = ctx.add_delete_queries(&KeyValue::Struct(vec![KeyValue::Str("x".to_string())]), &mut queries);
    assert_eq!(bad, Err(neo4j_export::encode::EncodeError::KeyArityMismatch));
    let good = ctx.add_delete_queries(
        &KeyValue::Struct(vec![KeyValue::Str("x".to_string()), KeyValue::Str("y".to_string())]),
        &mut queries,
    );
    assert!(good.is_ok());
    assert_eq!(
        queries[0].params,
        vec![
            ("key_0".to_string(), WireValue::Str("x".to_string())),
            ("key_1".to_string(), WireValue::Str("y".to_string())),
        ]
    );
}

#[test]
fn node_target_without_value_fields_has_no_set_clause() {
    let out = build_export_target(
        node_spec("Tag"),
        vec![basic_field("id", BasicValueType::Str)],
        vec![],
        &no_indexes(),
    )
    .unwrap();
    let ctx = &out.export_context;
    assert_eq!(ctx.insert_cypher, "MERGE (new_node:Tag {id: $key_0})

FINISH
");
    let upsert = ExportTargetUpsertEntry {
        key: KeyValue::Str("t1".to_string()),
        value: FieldValues { fields: vec![] },
    };
    let mut queries = Vec::new();
    ctx.add_upsert_queries(&upsert, &mut queries).unwrap();
    // no value fields: no props parameter at all
    assert_eq!(
        queries[0].params,
        vec![("key_0".to_string(), WireValue::Str("t1".to_string()))]
    );
}

#[test]
fn relationship_with_endpoint_values_binds_all_property_maps() {
    let target_spec = Spec {
        connection: AuthEntryReference { key: "conn".to_string() },
        mapping: GraphElementMapping::Relationship(RelationshipMapping {
            rel_type: "WORKS_AT".to_string(),
            source: NodeReferenceMapping {
                label: "Person".to_string(),
                fields: vec![
                    TargetFieldMapping {
                        source: "p_id".to_string(),
                        target: Some("id".to_string()),
                    },
                    TargetFieldMapping { source: "p_name".to_string(), target: Some("name".to_string()) },
                ],
            },
            target: NodeReferenceMapping {
                label: "Company".to_string(),
                fields: vec![TargetFieldMapping {
                    source: "c_id".to_string(),
                    target: Some("id".to_string()),
                }],
            },
            nodes_storage_spec: Some(vec![(
                "Person".to_string(),
                NodeStorageSpec {
                    index_options: IndexOptions {
                        primary_key_fields: Some(vec!["id".to_string()]),
                        vector_indexes: Vec::new(),
                    },
                },
            )]),
        }),
    };
    let out = build_export_target(
        target_spec,
        vec![basic_field("since", BasicValueType::Int64)],
        vec![
            basic_field("p_id", BasicValueType::Str),
            basic_field("p_name", BasicValueType::Str),
            basic_field("c_id", BasicValueType::Str),
            basic_field("role", BasicValueType::Str),
        ],
        &no_indexes(),
    )
    .unwrap();
    let ctx = &out.export_context;
    assert_eq!(
        ctx.insert_cypher,
        "MERGE (new_src:Person {id: $source_key_0})
SET new_src += $source_props

MERGE (new_tgt:Company {id: $target_key_0})

MERGE (new_src)-[new_rel:WORKS_AT {since: $key_0}]->(new_tgt)
SET new_rel += $props

FINISH
"
    );
    let upsert = ExportTargetUpsertEntry {
        key: KeyValue::Int64(2021),
        value: FieldValues {
            fields: vec![
                Value::Basic(BasicValue::Str("p1".to_string())),
                Value::Basic(BasicValue::Str("Alice".to_string())),
                Value::Basic(BasicValue::Str("c1".to_string())),
                Value::Basic(BasicValue::Str("engineer".to_string())),
            ],
        },
    };
    let mut queries = Vec::new();
    ctx.add_upsert_queries(&upsert, &mut queries).unwrap();
    assert_eq!(
        queries[0].params,
        vec![
            ("key_0".to_string(), WireValue::Int(2021)),
            ("source_key_0".to_string(), WireValue::Str("p1".to_string())),
            (
                "source_props".to_string(),
                WireValue::Dict(vec![("name".to_string(), WireValue::Str("Alice".to_string()))])
            ),
            ("target_key_0".to_string(), WireValue::Str("c1".to_string())),
            (
                "props".to_string(),
                WireValue::Dict(vec![("role".to_string(), WireValue::Str("engineer".to_string()))])
            ),
        ]
    );
    // the dependent label's key constraint is part of the desired state
    let names: Vec<String> =
        out.desired_state.sub_components.iter().map(|c| c.key().name).collect();
    assert_eq!(names, vec!["r__WORKS_AT__key".to_string(), "n__Person__key".to_string()]);
    assert_eq!(out.desired_state.dependent_node_labels, vec!["Person".to_string()]);
}
