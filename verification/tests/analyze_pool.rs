use neo4j_export::analyze::{BuildError, DependentNodeLabelAnalyzer};
use neo4j_export::builder::build_export_target;
use neo4j_export::mapping::{
    AuthEntryReference, GraphElementMapping, IndexOptions, NodeReferenceMapping,
    NodeStorageSpec, RelationshipMapping, Spec, TargetFieldMapping,
};
use neo4j_export::pool::{ConnectionSpec, GraphKey};
use neo4j_export::values::{BasicValueType, FieldSchema, ValueType};

fn basic_field(name: &str, t: BasicValueType) -> FieldSchema {
    FieldSchema { name: name.to_string(), value_type: ValueType::Basic(t) }
}

fn endpoint(label: &str, mappings: &[(&str, Option<&str>)]) -> NodeReferenceMapping {
    NodeReferenceMapping {
        label: label.to_string(),
        fields: mappings
            .iter()
            .map(|(s, t)| TargetFieldMapping {
                source: s.to_string(),
                target: t.map(|x| x.to_string()),
            })
            .collect(),
    }
}

#[test]
fn claimed_fields_leave_the_remaining_set() {
    let ep = endpoint("Person", &[("src_id", Some("id")), ("src_city", None)]);
    let mut analyzer = DependentNodeLabelAnalyzer::new(&ep);
    assert!(analyzer.process_field(0, &basic_field("src_id", BasicValueType::Str)));
    assert!(!analyzer.process_field(1, &basic_field("unrelated", BasicValueType::Str)));
    assert!(analyzer.process_field(2, &basic_field("src_city", BasicValueType::Str)));
    let info = analyzer.build(None).unwrap();
    // without declared storage options, every claimed field is a key field
    assert_eq!(info.key_fields.len(), 2);
    assert_eq!(info.key_fields[0].field_name, "id");
    assert_eq!(info.key_fields[0].field_idx, 0);
    assert_eq!(info.key_fields[1].field_name, "src_city");
    assert_eq!(info.key_fields[1].field_idx, 2);
    assert!(info.value_fields.is_empty());
}

#[test]
fn unclaimed_declared_mappings_fail_the_endpoint() {
    let ep = endpoint("Person", &[("src_id", Some("id"))]);
    let analyzer = DependentNodeLabelAnalyzer::new(&ep);
    match analyzer.build(None) {
        Err(BuildError::UnmappedFields { label, fields }) => {
            assert_eq!(label, "Person");
            assert_eq!(fields, vec!["src_id".to_string()]);
        },
        other => panic!("expected unmapped fields, got {:?}", other.is_ok()),
    }
}

#[test]
fn declared_primary_keys_are_pulled_in_order() {
    let ep = endpoint("Person", &[("src_id", Some("id")), ("src_city", Some("city"))]);
    let mut analyzer = DependentNodeLabelAnalyzer::new(&ep);
    assert!(analyzer.process_field(0, &basic_field("src_id", BasicValueType::Str)));
    assert!(analyzer.process_field(1, &basic_field("src_city", BasicValueType::Str)));
    let io = IndexOptions {
        primary_key_fields: Some(vec!["city".to_string()]),
        vector_indexes: Vec::new(),
    };
    let info = analyzer.build(Some(&io)).unwrap();
    assert_eq!(info.key_fields.len(), 1);
    assert_eq!(info.key_fields[0].field_name, "city");
    assert_eq!(info.value_fields.len(), 1);
    assert_eq!(info.value_fields[0].field_name, "id");
}

#[test]
fn missing_declared_primary_key_fails_the_endpoint() {
    let ep = endpoint("Person", &[("src_id", Some("id"))]);
    let mut analyzer = DependentNodeLabelAnalyzer::new(&ep);
    assert!(analyzer.process_field(0, &basic_field("src_id", BasicValueType::Str)));
    let io = IndexOptions {
        primary_key_fields: Some(vec!["missing".to_string()]),
        vector_indexes: Vec::new(),
    };
    match analyzer.build(Some(&io)) {
        Err(BuildError::MissingKeyField { label, field }) => {
            assert_eq!(label, "Person");
            assert_eq!(field, "missing");
        },
        other => panic!("expected a missing key field, got {:?}", other.is_ok()),
    }
}

#[test]
fn storage_entry_without_primary_keys_defaults_to_all_claimed_fields() {
    // a storage-spec entry that declares no primary-key list leaves the
    // default in force: every claimed field becomes a key field
    let target_spec = Spec {
        connection: AuthEntryReference { key: "conn".to_string() },
        mapping: GraphElementMapping::Relationship(RelationshipMapping {
            rel_type: "KNOWS".to_string(),
            source: endpoint("Person", &[("src_id", Some("id"))]),
            target: endpoint("Person", &[("tgt_id", Some("id"))]),
            nodes_storage_spec: Some(vec![(
                "Person".to_string(),
                NodeStorageSpec {
                    index_options: IndexOptions {
                        primary_key_fields: None,
                        vector_indexes: Vec::new(),
                    },
                },
            )]),
        }),
    };
    let out = build_export_target(
        target_spec,
        vec![basic_field("since", BasicValueType::Int64)],
        vec![basic_field("src_id", BasicValueType::Str), basic_field("tgt_id", BasicValueType::Str)],
        &IndexOptions { primary_key_fields: None, vector_indexes: Vec::new() },
    )
    .unwrap();
    let src = out.export_context.src_fields.as_ref().unwrap();
    assert_eq!(src.key_fields.len(), 1);
    assert_eq!(src.key_fields[0].field_name, "id");
    assert!(src.value_fields.is_empty());
}

#[test]
fn explicitly_empty_primary_key_list_is_refused() {
    let ep = endpoint("Person", &[("src_id", Some("id"))]);
    let mut analyzer = DependentNodeLabelAnalyzer::new(&ep);
    assert!(analyzer.process_field(0, &basic_field("src_id", BasicValueType::Str)));
    let io = IndexOptions { primary_key_fields: Some(Vec::new()), vector_indexes: Vec::new() };
    assert!(matches!(analyzer.build(Some(&io)), Err(BuildError::NoKeyFields { .. })));
}

#[test]
fn options_without_primary_keys_default_to_all_claimed_fields() {
    let ep = endpoint("Person", &[("src_id", Some("id")), ("src_city", None)]);
    let mut analyzer = DependentNodeLabelAnalyzer::new(&ep);
    assert!(analyzer.process_field(0, &basic_field("src_id", BasicValueType::Str)));
    assert!(analyzer.process_field(1, &basic_field("src_city", BasicValueType::Str)));
    let io = IndexOptions { primary_key_fields: None, vector_indexes: Vec::new() };
    let info = analyzer.build(Some(&io)).unwrap();
    assert_eq!(info.key_fields.len(), 2);
    assert_eq!(info.key_fields[0].field_name, "id");
    assert_eq!(info.key_fields[1].field_name, "src_city");
    assert!(info.value_fields.is_empty());
}

#[test]
fn connection_identity_defaults_the_database_name() {
    let with_db = ConnectionSpec {
        uri: "bolt://localhost:7687".to_string(),
        user: "neo4j".to_string(),
        password: "secret".to_string(),
        db: Some("graph".to_string()),
    };
    let without_db = ConnectionSpec {
        uri: "bolt://localhost:7687".to_string(),
        user: "neo4j".to_string(),
        password: "secret".to_string(),
        db: None,
    };
    let explicit_default = ConnectionSpec {
        uri: "bolt://localhost:7687".to_string(),
        user: "other".to_string(),
        password: "other".to_string(),
        db: Some("neo4j".to_string()),
    };
    let k1 = GraphKey::from_spec(&with_db);
    let k2 = GraphKey::from_spec(&without_db);
    let k3 = GraphKey::from_spec(&explicit_default);
    assert_eq!(k1.uri, "bolt://localhost:7687");
    assert_eq!(k1.db, "graph");
    assert_eq!(k2.db, "neo4j");
    // an absent database name is pooled with the explicit default,
    // whatever the credentials
    assert_eq!((k2.uri.clone(), k2.db.clone()), (k3.uri, k3.db));
    // a differing database name under the same URI is a distinct identity
    assert_ne!(k1.db, k2.db);
}
