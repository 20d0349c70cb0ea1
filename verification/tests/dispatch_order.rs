use neo4j_export::builder::build_export_target;
use neo4j_export::context::ExportTargetUpsertEntry;
use neo4j_export::dispatch::{plan_mutations, TargetMutation};
use neo4j_export::mapping::{
    AuthEntryReference, GraphElementMapping, IndexOptions, NodeMapping, NodeReferenceMapping,
    RelationshipMapping, Spec, TargetFieldMapping,
};
use neo4j_export::values::{BasicValue, BasicValueType, FieldSchema, FieldValues, KeyValue, Value, ValueType};

fn basic_field(name: &str, t: BasicValueType) -> FieldSchema {
    FieldSchema { name: name.to_string(), value_type: ValueType::Basic(t) }
}

fn no_indexes() -> IndexOptions {
    IndexOptions { primary_key_fields: None, vector_indexes: Vec::new() }
}

fn node_ctx(conn: &str) -> neo4j_export::context::ExportContext {
    build_export_target(
        Spec {
            connection: AuthEntryReference { key: conn.to_string() },
            mapping: GraphElementMapping::Node(NodeMapping { label: "Person".to_string() }),
        },
        vec![basic_field("id", BasicValueType::Str)],
        vec![basic_field("name", BasicValueType::Str)],
        &no_indexes(),
    )
    .unwrap()
    .export_context
}

fn rel_ctx(conn: &str) -> neo4j_export::context::ExportContext {
    build_export_target(
        Spec {
            connection: AuthEntryReference { key: conn.to_string() },
            mapping: GraphElementMapping::Relationship(RelationshipMapping {
                rel_type: "KNOWS".to_string(),
                source: NodeReferenceMapping {
                    label: "Person".to_string(),
                    fields: vec![TargetFieldMapping {
                        source: "src_id".to_string(),
                        target: Some("id".to_string()),
                    }],
                },
                target: NodeReferenceMapping {
                    label: "Person".to_string(),
                    fields: vec![TargetFieldMapping {
                        source: "tgt_id".to_string(),
                        target: Some("id".to_string()),
                    }],
                },
                nodes_storage_spec: None,
            }),
        },
        vec![basic_field("since", BasicValueType::Int64)],
        vec![basic_field("src_id", BasicValueType::Str), basic_field("tgt_id", BasicValueType::Str)],
        &no_indexes(),
    )
    .unwrap()
    .export_context
}

fn node_upsert(id: &str, name: &str) -> ExportTargetUpsertEntry {
    ExportTargetUpsertEntry {
        key: KeyValue::Str(id.to_string()),
        value: FieldValues { fields: vec![Value::Basic(BasicValue::Str(name.to_string()))] },
    }
}

fn rel_upsert(src: &str, tgt: &str, since: i64) -> ExportTargetUpsertEntry {
    ExportTargetUpsertEntry {
        key: KeyValue::Int64(since),
        value: FieldValues {
            fields: vec![
                Value::Basic(BasicValue::Str(src.to_string())),
                Value::Basic(BasicValue::Str(tgt.to_string())),
            ],
        },
    }
}

#[test]
fn shared_connection_orders_node_upserts_first_and_relationship_deletes_first() {
    let contexts = vec![node_ctx("c1"), rel_ctx("c1")];
    // the relationship batch comes first in the invocation, yet its queries
    // must follow the node batch's upserts
    let mutations = vec![
        TargetMutation {
            context_idx: 1,
            upserts: vec![rel_upsert("p1", "p2", 2020)],
            delete_keys: vec![KeyValue::Int64(1999)],
        },
        TargetMutation {
            context_idx: 0,
            upserts: vec![node_upsert("p1", "Alice"), node_upsert("p2", "Bob")],
            delete_keys: vec![KeyValue::Str("p3".to_string())],
        },
    ];
    let plans = plan_mutations(&contexts, &mutations).unwrap();
    assert_eq!(plans.len(), 1);
    assert_eq!(plans[0].connection_ref.key, "c1");
    let texts: Vec<&str> = plans[0].queries.iter().map(|q| q.text.as_str()).collect();
    assert_eq!(texts.len(), 5);
    // upserts: both node upserts before the relationship upsert
    assert_eq!(texts[0], contexts[0].insert_cypher);
    assert_eq!(texts[1], contexts[0].insert_cypher);
    assert_eq!(texts[2], contexts[1].insert_cypher);
    // deletes: the relationship delete before the node delete
    assert_eq!(texts[3], contexts[1].delete_cypher);
    assert_eq!(texts[4], contexts[0].delete_cypher);
}

#[test]
fn distinct_connections_get_independent_plans_in_first_appearance_order() {
    let contexts = vec![node_ctx("beta"), node_ctx("alpha")];
    let mutations = vec![
        TargetMutation {
            context_idx: 0,
            upserts: vec![node_upsert("b1", "B")],
            delete_keys: Vec::new(),
        },
        TargetMutation {
            context_idx: 1,
            upserts: vec![node_upsert("a1", "A")],
            delete_keys: Vec::new(),
        },
        TargetMutation {
            context_idx: 0,
            upserts: vec![node_upsert("b2", "B2")],
            delete_keys: Vec::new(),
        },
    ];
    let plans = plan_mutations(&contexts, &mutations).unwrap();
    assert_eq!(plans.len(), 2);
    assert_eq!(plans[0].connection_ref.key, "beta");
    assert_eq!(plans[1].connection_ref.key, "alpha");
    assert_eq!(plans[0].queries.len(), 2);
    assert_eq!(plans[1].queries.len(), 1);
}
