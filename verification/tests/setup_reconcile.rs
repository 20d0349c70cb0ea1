use neo4j_export::analyze::BuildError;
use neo4j_export::builder::build_export_target;
use neo4j_export::mapping::{
    AuthEntryReference, ElementType, GraphElement, GraphElementMapping, IndexOptions, NodeMapping,
    Spec, VectorIndexDef, VectorSimilarityMetric,
};
use neo4j_export::reconcile::{
    build_composite_field_names, component_create_ddl, component_drop_ddl, data_clear_queries,
    describe_resource, describe_state, is_up_to_date, CombinedState, ComponentKind,
    DataClearAction, SetupChangeType, SetupStatusCheck,
};
use neo4j_export::setup::{
    ComponentState, IndexDef, RelationshipSetupState, SetupStateCompatibility,
};
use neo4j_export::values::{BasicValueType, FieldSchema, ValueType, VectorTypeSchema};

fn basic_field(name: &str, t: BasicValueType) -> FieldSchema {
    FieldSchema { name: name.to_string(), value_type: ValueType::Basic(t) }
}

fn state(keys: &[&str], labels: &[&str]) -> RelationshipSetupState {
    RelationshipSetupState {
        key_field_names: keys.iter().map(|s| s.to_string()).collect(),
        dependent_node_labels: labels.iter().map(|s| s.to_string()).collect(),
        sub_components: Vec::new(),
    }
}

fn person_element() -> GraphElement {
    GraphElement {
        connection: AuthEntryReference { key: "conn".to_string() },
        typ: ElementType::Node("Person".to_string()),
    }
}

#[test]
fn compatibility_is_exactly_key_field_name_equality() {
    let a = state(&["id"], &[]);
    let b = state(&["id"], &["Other"]);
    let c = state(&["id", "region"], &[]);
    assert_eq!(a.check_compatible(&b), SetupStateCompatibility::Compatible);
    assert_eq!(a.check_compatible(&c), SetupStateCompatibility::NotCompatible);
    assert_eq!(c.check_compatible(&a), SetupStateCompatibility::NotCompatible);
}

#[test]
fn compatible_existing_state_yields_no_change() {
    let desired = state(&["id"], &[]);
    let existing = CombinedState { possible_versions: vec![state(&["id"], &[])] };
    let check = SetupStatusCheck::new(person_element(), Some(&desired), &existing);
    assert!(check.data_clear.is_none());
    assert_eq!(check.change_type(), SetupChangeType::NoChange);
    assert!(check.describe_changes().is_empty());
}

#[test]
fn incompatible_existing_state_forces_scoped_clear_and_update() {
    let desired = state(&["id", "region"], &[]);
    let existing = CombinedState {
        possible_versions: vec![state(&["id"], &["Address", "Company", "Address"])],
    };
    let check = SetupStatusCheck::new(person_element(), Some(&desired), &existing);
    let clear = check.data_clear.as_ref().unwrap();
    assert_eq!(clear.core_elem_type.describe(), "Node(label:Person)");
    assert_eq!(clear.dependent_node_labels, vec!["Address".to_string(), "Company".to_string()]);
    assert_eq!(check.change_type(), SetupChangeType::Update);
    assert_eq!(
        check.describe_changes(),
        vec![
            "Clear data for Node(label:Person); dependents Node(label:Address), Node(label:Company)"
                .to_string()
        ]
    );
}

#[test]
fn remaining_presence_combinations_classify_as_specified() {
    let desired = state(&["id"], &[]);
    let none = CombinedState { possible_versions: Vec::new() };
    let some = CombinedState { possible_versions: vec![state(&["id"], &[])] };

    let create = SetupStatusCheck::new(person_element(), Some(&desired), &none);
    assert_eq!(create.change_type(), SetupChangeType::Create);
    assert!(create.data_clear.is_none());

    let delete = SetupStatusCheck::new(person_element(), None, &some);
    assert_eq!(delete.change_type(), SetupChangeType::Delete);
    assert!(delete.data_clear.is_some());

    let nothing = SetupStatusCheck::new(person_element(), None, &none);
    assert_eq!(nothing.change_type(), SetupChangeType::NoChange);
    assert!(nothing.data_clear.is_none());
}

#[test]
fn component_identity_names_are_deterministic() {
    let kc = ComponentState {
        object_label: ElementType::Node("Person".to_string()),
        index_def: IndexDef::KeyConstraint { field_names: vec!["id".to_string()] },
    };
    let key = kc.key();
    assert_eq!(key.kind, ComponentKind::KeyConstraint);
    assert_eq!(key.name, "n__Person__key");
    // the name ignores the field list
    let kc2 = ComponentState {
        object_label: ElementType::Node("Person".to_string()),
        index_def: IndexDef::KeyConstraint {
            field_names: vec!["id".to_string(), "region".to_string()],
        },
    };
    assert_eq!(kc2.key().name, "n__Person__key");

    let vi = ComponentState {
        object_label: ElementType::Relationship("KNOWS".to_string()),
        index_def: IndexDef::VectorIndex {
            field_name: "emb".to_string(),
            metric: VectorSimilarityMetric::CosineSimilarity,
            vector_size: 128,
        },
    };
    let vkey = vi.key();
    assert_eq!(vkey.kind, ComponentKind::VectorIndex);
    assert_eq!(vkey.name, "r__KNOWS__emb__cosine_similarity__vidx");
}

#[test]
fn up_to_date_is_structural_equality() {
    let a = ComponentState {
        object_label: ElementType::Node("Person".to_string()),
        index_def: IndexDef::KeyConstraint { field_names: vec!["id".to_string()] },
    };
    let b = ComponentState {
        object_label: ElementType::Node("Person".to_string()),
        index_def: IndexDef::KeyConstraint { field_names: vec!["id".to_string()] },
    };
    let c = ComponentState {
        object_label: ElementType::Node("Person".to_string()),
        index_def: IndexDef::KeyConstraint { field_names: vec!["other".to_string()] },
    };
    assert!(is_up_to_date(&a, &b));
    assert!(!is_up_to_date(&a, &c));
}

#[test]
fn ddl_texts_are_exact() {
    let kc = ComponentState {
        object_label: ElementType::Node("Person".to_string()),
        index_def: IndexDef::KeyConstraint {
            field_names: vec!["id".to_string(), "region".to_string()],
        },
    };
    assert_eq!(
        component_create_ddl(&kc),
        "CREATE CONSTRAINT n__Person__key IF NOT EXISTS FOR (e:Person) REQUIRE (e.id, e.region) IS NODE KEY"
    );
    assert_eq!(component_drop_ddl(&kc.key()), "DROP CONSTRAINT n__Person__key IF EXISTS");

    let vi = ComponentState {
        object_label: ElementType::Node("Person".to_string()),
        index_def: IndexDef::VectorIndex {
            field_name: "emb".to_string(),
            metric: VectorSimilarityMetric::CosineSimilarity,
            vector_size: 128,
        },
    };
    assert_eq!(
        component_create_ddl(&vi),
        "CREATE VECTOR INDEX n__Person__emb__cosine_similarity__vidx IF NOT EXISTS\n\
FOR (e:Person) ON e.emb\n\
OPTIONS {\n    indexConfig: {\n        `vector.dimensions`: 128,\n        `vector.similarity_function`: 'cosine_similarity'\n    }\n}"
    );
    assert_eq!(
        component_drop_ddl(&vi.key()),
        "DROP INDEX n__Person__emb__cosine_similarity__vidx IF EXISTS"
    );
    assert_eq!(
        describe_state(&vi),
        "VECTOR INDEX n__Person__emb__cosine_similarity__vidx ON Person (field_name: emb, vector_size: 128, metric: cosine_similarity)"
    );
}

#[test]
fn composite_field_names_parenthesize_only_composites() {
    assert_eq!(build_composite_field_names("e", &vec!["id".to_string()]), "e.id");
    assert_eq!(
        build_composite_field_names("e", &vec!["id".to_string(), "region".to_string()]),
        "(e.id, e.region)"
    );
}

#[test]
fn data_clear_queries_scope_nodes_and_dependents() {
    let action = DataClearAction {
        core_elem_type: ElementType::Relationship("KNOWS".to_string()),
        dependent_node_labels: vec!["Person".to_string()],
    };
    let qs = data_clear_queries(&action);
    assert_eq!(qs.len(), 2);
    assert_eq!(
        qs[0],
        "CALL {\n    MATCH ()-[e:KNOWS]->()\n    WITH e\n    \n    DELETE e\n} IN TRANSACTIONS\n"
    );
    assert_eq!(
        qs[1],
        "CALL {\n    MATCH (n:Person)\n    WHERE NOT (n)--()\n    DELETE n\n} IN TRANSACTIONS\n"
    );
    let node_action = DataClearAction {
        core_elem_type: ElementType::Node("Person".to_string()),
        dependent_node_labels: Vec::new(),
    };
    assert_eq!(
        data_clear_queries(&node_action)[0],
        "CALL {\n    MATCH (e:Person)\n    WITH e\n    WHERE NOT (e)--()\n    DELETE e\n} IN TRANSACTIONS\n"
    );
}

#[test]
fn describe_resource_names_the_element() {
    assert_eq!(describe_resource(&person_element()), "Neo4j Node(label:Person)");
}

#[test]
fn vector_index_requires_fixed_dimension_and_known_field() {
    let spec_with = |dim: Option<usize>| Spec {
        connection: AuthEntryReference { key: "conn".to_string() },
        mapping: GraphElementMapping::Node(NodeMapping { label: "Doc".to_string() }),
    };
    let io = IndexOptions {
        primary_key_fields: None,
        vector_indexes: vec![VectorIndexDef {
            field_name: "emb".to_string(),
            metric: VectorSimilarityMetric::CosineSimilarity,
        }],
    };
    // no fixed dimension: refused
    let r = build_export_target(
        spec_with(None),
        vec![basic_field("id", BasicValueType::Str)],
        vec![FieldSchema {
            name: "emb".to_string(),
            value_type: ValueType::Basic(BasicValueType::Vector(VectorTypeSchema {
                element_type: Box::new(BasicValueType::Float32),
                dimension: None,
            })),
        }],
        &io,
    );
    assert!(matches!(r, Err(BuildError::InvalidIndexField { .. })));
    // unknown field: refused
    let r2 = build_export_target(
        spec_with(Some(4)),
        vec![basic_field("id", BasicValueType::Str)],
        vec![basic_field("other", BasicValueType::Str)],
        &io,
    );
    assert!(matches!(r2, Err(BuildError::UnknownIndexField { .. })));
    // fixed dimension: the component carries it
    let r3 = build_export_target(
        spec_with(Some(4)),
        vec![basic_field("id", BasicValueType::Str)],
        vec![FieldSchema {
            name: "emb".to_string(),
            value_type: ValueType::Basic(BasicValueType::Vector(VectorTypeSchema {
                element_type: Box::new(BasicValueType::Float32),
                dimension: Some(4),
            })),
        }],
        &io,
    )
    .unwrap();
    let comps = r3.desired_state.sub_components;
    assert_eq!(comps.len(), 2);
    assert_eq!(comps[0].key().name, "n__Doc__key");
    assert_eq!(comps[1].key().name, "n__Doc__emb__cosine_similarity__vidx");
    match &comps[1].index_def {
        IndexDef::VectorIndex { vector_size, .. } => assert_eq!(*vector_size, 4),
        _ => panic!("expected a vector index"),
    }
}

#[test]
fn clear_scope_unions_labels_across_incompatible_versions() {
    let desired = state(&["id", "region"], &[]);
    let existing = CombinedState {
        possible_versions: vec![
            state(&["id"], &["Address", "Company"]),
            state(&["id", "region"], &["Ignored"]),
            state(&["old"], &["Company", "Branch"]),
        ],
    };
    let check = SetupStatusCheck::new(person_element(), Some(&desired), &existing);
    let clear = check.data_clear.as_ref().unwrap();
    // labels of compatible versions are not cleared; the rest union in
    // first-seen order
    assert_eq!(
        clear.dependent_node_labels,
        vec!["Address".to_string(), "Company".to_string(), "Branch".to_string()]
    );
    assert_eq!(check.change_type(), SetupChangeType::Update);
}

#[test]
fn metric_names_are_fixed() {
    assert_eq!(VectorSimilarityMetric::CosineSimilarity.name(), "cosine_similarity");
    assert_eq!(VectorSimilarityMetric::L2Distance.name(), "l2_distance");
    assert_eq!(VectorSimilarityMetric::InnerProduct.name(), "inner_product");
}
