//! Building one export target from its spec and schemas: the per-target
//! field analysis, the desired setup state, and the export context, wired
//! together as the pipeline build does once per target.

use vstd::prelude::*;

use crate::analyze::{
    collect_remaining, endpoint_outcome, find_source, lemma_endpoint_fields_bounded, upsert_field,
    AnalyzedFieldView, AnalyzedGraphFieldMapping, BuildError, DependentNodeLabelAnalyzer,
    EndpointOutcome,
};
use crate::context::{
    field_names_of, key_fields_literal, mapping_names_of, node_delete_text, node_insert_text,
    param_names, rel_delete_text, rel_insert_text, ExportContext,
};
use crate::mapping::{
    find_node_storage, mapping_elem_type, node_storage_of, target_name, GraphElement,
    GraphElementMapping, IndexOptions, IndexOptionsView, NodeStorageSpec, RelationshipMapping,
    Spec, TargetFieldMappingView,
};
use crate::setup::{
    dependent_labels_of, setup_components_outcome, ComponentStateView, ComponentsOutcome,
    RelationshipSetupState,
};
use crate::values::FieldSchema;

verus! {

/// Everything built once per target: its setup identity, its desired setup
/// state, and its immutable export context.
pub struct TargetBuildOutput {
    pub setup_key: GraphElement,
    pub desired_state: RelationshipSetupState,
    pub export_context: ExportContext,
}

/// Ghost state of the two-endpoint field split: each endpoint's claimed
/// fields and remaining declared mappings, and the relationship's own
/// value fields collected so far.
#[verifier::ext_equal]
pub struct SplitState {
    pub src_fields: Seq<AnalyzedFieldView>,
    pub src_remaining: Seq<TargetFieldMappingView>,
    pub tgt_fields: Seq<AnalyzedFieldView>,
    pub tgt_remaining: Seq<TargetFieldMappingView>,
    pub own_fields: Seq<AnalyzedFieldView>,
}

/// Offers one row field to the split: the source endpoint claims it first,
/// then the target endpoint; a field neither claims becomes one of the
/// relationship's own value fields, under its schema name, with its row
/// position preserved.
pub open spec fn claim_field(st: SplitState, idx: usize, name: Seq<char>) -> SplitState {
    let i = find_source(st.src_remaining, name);
    if i >= 0 {
        SplitState {
            src_fields: upsert_field(
                st.src_fields,
                AnalyzedFieldView { field_idx: idx, field_name: target_name(st.src_remaining[i]) },
            ),
            src_remaining: st.src_remaining.remove(i),
            tgt_fields: st.tgt_fields,
            tgt_remaining: st.tgt_remaining,
            own_fields: st.own_fields,
        }
    } else {
        let j = find_source(st.tgt_remaining, name);
        if j >= 0 {
            SplitState {
                src_fields: st.src_fields,
                src_remaining: st.src_remaining,
                tgt_fields: upsert_field(
                    st.tgt_fields,
                    AnalyzedFieldView {
                        field_idx: idx,
                        field_name: target_name(st.tgt_remaining[j]),
                    },
                ),
                tgt_remaining: st.tgt_remaining.remove(j),
                own_fields: st.own_fields,
            }
        } else {
            SplitState {
                src_fields: st.src_fields,
                src_remaining: st.src_remaining,
                tgt_fields: st.tgt_fields,
                tgt_remaining: st.tgt_remaining,
                own_fields: st.own_fields.push(
                    AnalyzedFieldView { field_idx: idx, field_name: name },
                ),
            }
        }
    }
}

/// Offers the row fields `schema[k..]` to the split, in order.
pub open spec fn split_from(st: SplitState, schema: Seq<FieldSchema>, k: int) -> SplitState
    decreases schema.len() - k,
{
    if k < 0 || k >= schema.len() {
        st
    } else {
        split_from(claim_field(st, k as usize, schema[k].name@), schema, k + 1)
    }
}

/// The split before any field was offered: nothing claimed, each
/// endpoint's declared mappings (collapsed by source name) all remaining.
pub open spec fn initial_split(rel_spec: RelationshipMapping) -> SplitState {
    SplitState {
        src_fields: Seq::empty(),
        src_remaining: collect_remaining(rel_spec.source.fields.deep_view()),
        tgt_fields: Seq::empty(),
        tgt_remaining: collect_remaining(rel_spec.target.fields.deep_view()),
        own_fields: Seq::empty(),
    }
}

/// The complete split of a relationship target's row fields.
pub open spec fn field_split(rel_spec: RelationshipMapping, schema: Seq<FieldSchema>) -> SplitState {
    split_from(initial_split(rel_spec), schema, 0)
}

/// The storage options declared for a node label, if any: the first entry
/// with that label.
pub open spec fn storage_options_of(
    nodes_storage_spec: Option<Vec<(String, NodeStorageSpec)>>,
    label: Seq<char>,
) -> Option<IndexOptionsView> {
    match nodes_storage_spec {
        None => None,
        Some(entries) => {
            let i = find_node_storage(entries@, label);
            if i < 0 {
                None
            } else {
                Some(entries@[i].1.index_options@)
            }
        },
    }
}

/// A node target's analyzed value fields: every row field in order, under
/// its schema name.
pub open spec fn identity_fields(schema: Seq<FieldSchema>) -> Seq<AnalyzedFieldView> {
    Seq::new(schema.len(), |i: int| AnalyzedFieldView { field_idx: i as usize, field_name: schema[i].name@ })
}

/// What every successful build guarantees, whatever the mapping kind: the
/// setup identity, a well-formed context addressed at the spec's
/// connection with pre-delete disabled, the key schema and row schema held
/// as given, the `key_i` parameter names, and the desired state's
/// key-field names and dependent labels.
pub open spec fn built_common_ok(
    out: TargetBuildOutput,
    target_spec: Spec,
    key_fields_schema: Seq<FieldSchema>,
    value_fields_schema: Seq<FieldSchema>,
) -> bool {
    let ctx = out.export_context;
    &&& out.setup_key.connection.key@ == target_spec.connection.key@
    &&& out.setup_key.typ@ == mapping_elem_type(target_spec.mapping)
    &&& ctx.wf()
    &&& ctx.delete_before_upsert == false
    &&& ctx.connection_ref.key@ == target_spec.connection.key@
    &&& ctx.key_fields@ == key_fields_schema
    &&& ctx.value_fields_schema@ == value_fields_schema
    &&& ctx.key_field_params.deep_view() == param_names(
        "key"@,
        key_fields_schema.len() as int,
    )
    &&& out.desired_state@.key_field_names == field_names_of(key_fields_schema)
    &&& out.desired_state@.dependent_node_labels == dependent_labels_of(target_spec.mapping)
}

/// A successful node-target build: rank 0, no endpoints, the exact delete
/// and upsert templates, every row field a value property in order, and
/// the derived schema objects.
pub open spec fn node_build_ok(
    out: TargetBuildOutput,
    label: Seq<char>,
    key_fields_schema: Seq<FieldSchema>,
    value_fields_schema: Seq<FieldSchema>,
    components: Seq<ComponentStateView>,
) -> bool {
    let ctx = out.export_context;
    let key_lit = key_fields_literal(field_names_of(key_fields_schema), "key"@);
    &&& ctx.create_order == 0
    &&& ctx.src_fields is None
    &&& ctx.tgt_fields is None
    &&& ctx.delete_cypher@ == node_delete_text(label, key_lit)
    &&& ctx.insert_cypher@ == node_insert_text(label, key_lit, value_fields_schema.len() > 0)
    &&& ctx.value_fields.deep_view() == identity_fields(value_fields_schema)
    &&& out.desired_state@.sub_components == components
}

/// A successful relationship-target build: rank 1, the exact delete and
/// three-merge upsert templates, the two endpoints exactly as the field
/// split and key resolution produced them, the relationship's own value
/// fields exactly the unclaimed row fields, and the derived schema
/// objects.
pub open spec fn rel_build_ok(
    out: TargetBuildOutput,
    rel_spec: RelationshipMapping,
    key_fields_schema: Seq<FieldSchema>,
    st: SplitState,
    src_keys: Seq<AnalyzedFieldView>,
    src_values: Seq<AnalyzedFieldView>,
    tgt_keys: Seq<AnalyzedFieldView>,
    tgt_values: Seq<AnalyzedFieldView>,
    components: Seq<ComponentStateView>,
) -> bool {
    let ctx = out.export_context;
    let key_lit = key_fields_literal(field_names_of(key_fields_schema), "key"@);
    &&& ctx.create_order == 1
    &&& ctx.delete_cypher@ == rel_delete_text(rel_spec.rel_type@, key_lit)
    &&& (ctx.src_fields matches Some(s) && s.key_fields.deep_view() == src_keys
        && s.value_fields.deep_view() == src_values)
    &&& (ctx.tgt_fields matches Some(t) && t.key_fields.deep_view() == tgt_keys
        && t.value_fields.deep_view() == tgt_values)
    &&& ctx.value_fields.deep_view() == st.own_fields
    &&& ctx.insert_cypher@ == rel_insert_text(
        rel_spec.source.label@,
        key_fields_literal(mapping_names_of(src_keys), "source_key"@),
        src_values.len() > 0,
        rel_spec.target.label@,
        key_fields_literal(mapping_names_of(tgt_keys), "target_key"@),
        tgt_values.len() > 0,
        rel_spec.rel_type@,
        key_lit,
        st.own_fields.len() > 0,
    )
    &&& out.desired_state@.sub_components == components
}

/// The full outcome of a node-target build: success exactly when every
/// declared vector index resolves to a known fixed-dimension field, the
/// two index errors tied to their field names.
pub open spec fn node_build_result(
    r: Result<TargetBuildOutput, BuildError>,
    target_spec: Spec,
    label: Seq<char>,
    key_fields_schema: Seq<FieldSchema>,
    value_fields_schema: Seq<FieldSchema>,
    io: IndexOptionsView,
) -> bool {
    let comp_out = setup_components_outcome(
        target_spec.mapping,
        field_names_of(key_fields_schema),
        io,
        identity_fields(value_fields_schema),
        value_fields_schema,
        None,
    );
    match comp_out {
        ComponentsOutcome::UnknownField(n) => r matches Err(
            BuildError::UnknownIndexField { field_name },
        ) && field_name@ == n,
        ComponentsOutcome::NoDim(n) => r matches Err(BuildError::InvalidIndexField { field_name })
            && field_name@ == n,
        ComponentsOutcome::Done(cs) => r matches Ok(out) && built_common_ok(
            out,
            target_spec,
            key_fields_schema,
            value_fields_schema,
        ) && node_build_ok(out, label, key_fields_schema, value_fields_schema, cs),
    }
}

/// The outcome of one endpoint's build within the relationship-target
/// build: each analysis error tied to the endpoint's label and cause.
pub open spec fn endpoint_error_result(
    r: Result<TargetBuildOutput, BuildError>,
    outcome: EndpointOutcome,
    label: Seq<char>,
) -> bool {
    match outcome {
        EndpointOutcome::Unmapped(srcs) => r matches Err(
            BuildError::UnmappedFields { label: l, fields },
        ) && l@ == label && fields.deep_view() == srcs,
        EndpointOutcome::MissingKey(n) => r matches Err(
            BuildError::MissingKeyField { label: l, field },
        ) && l@ == label && field@ == n,
        EndpointOutcome::NoKeys => r matches Err(BuildError::NoKeyFields { label: l }) && l@
            == label,
        EndpointOutcome::Fields(_, _) => true,
    }
}

/// The full outcome of a relationship-target build: the row fields are
/// split (source endpoint first, then target, the rest the relationship's
/// own), each endpoint's keys resolve against its declared storage
/// options, every vector index resolves, and success is owed exactly when
/// all of that succeeds.
pub open spec fn rel_build_result(
    r: Result<TargetBuildOutput, BuildError>,
    target_spec: Spec,
    rel_spec: RelationshipMapping,
    key_fields_schema: Seq<FieldSchema>,
    value_fields_schema: Seq<FieldSchema>,
    io: IndexOptionsView,
) -> bool {
    let st = field_split(rel_spec, value_fields_schema);
    let src_out = endpoint_outcome(
        st.src_fields,
        st.src_remaining,
        storage_options_of(rel_spec.nodes_storage_spec, rel_spec.source.label@),
    );
    let tgt_out = endpoint_outcome(
        st.tgt_fields,
        st.tgt_remaining,
        storage_options_of(rel_spec.nodes_storage_spec, rel_spec.target.label@),
    );
    match src_out {
        EndpointOutcome::Fields(sks, svs) => match tgt_out {
            EndpointOutcome::Fields(tks, tvs) => {
                let comp_out = setup_components_outcome(
                    target_spec.mapping,
                    field_names_of(key_fields_schema),
                    io,
                    st.own_fields,
                    value_fields_schema,
                    Some((sks, svs, tks, tvs)),
                );
                match comp_out {
                    ComponentsOutcome::UnknownField(n) => r matches Err(
                        BuildError::UnknownIndexField { field_name },
                    ) && field_name@ == n,
                    ComponentsOutcome::NoDim(n) => r matches Err(
                        BuildError::InvalidIndexField { field_name },
                    ) && field_name@ == n,
                    ComponentsOutcome::Done(cs) => r matches Ok(out) && built_common_ok(
                        out,
                        target_spec,
                        key_fields_schema,
                        value_fields_schema,
                    ) && rel_build_ok(
                        out,
                        rel_spec,
                        key_fields_schema,
                        st,
                        sks,
                        svs,
                        tks,
                        tvs,
                        cs,
                    ),
                }
            },
            _ => endpoint_error_result(r, tgt_out, rel_spec.target.label@),
        },
        _ => endpoint_error_result(r, src_out, rel_spec.source.label@),
    }
}

/// Builds one export target. For a node target every row field becomes a
/// value property; for a relationship target each row field is offered to
/// the source endpoint first, then to the target endpoint, and only an
/// unclaimed field becomes a relationship property; each endpoint's key
/// fields are then resolved against its declared storage options. The
/// desired setup state and the export context are derived from that
/// analysis, and the contract fixes the whole outcome: success exactly
/// when the analysis succeeds, and each error tied to its cause.
#[verifier::loop_isolation(false)]
#[verifier::rlimit(100)]
#[verifier::spinoff_prover]
pub fn build_export_target(
    target_spec: Spec,
    key_fields_schema: Vec<FieldSchema>,
    value_fields_schema: Vec<FieldSchema>,
    index_options: &IndexOptions,
) -> (r: Result<TargetBuildOutput, BuildError>)
    ensures
        match target_spec.mapping {
            GraphElementMapping::Node(node_spec) => node_build_result(
                r,
                target_spec,
                node_spec.label@,
                key_fields_schema@,
                value_fields_schema@,
                index_options@,
            ),
            GraphElementMapping::Relationship(rel_spec) => rel_build_result(
                r,
                target_spec,
                rel_spec,
                key_fields_schema@,
                value_fields_schema@,
                index_options@,
            ),
        },
{
    let setup_key = GraphElement::from_spec(&target_spec);
    match &target_spec.mapping {
        GraphElementMapping::Node(_) => {
            let mut value_fields_info: Vec<AnalyzedGraphFieldMapping> = Vec::new();
            let mut i: usize = 0;
            while i < value_fields_schema.len()
                invariant
                    i <= value_fields_schema@.len(),
                    value_fields_info@.len() == i as int,
                    forall|j: int|
                        0 <= j < i ==> (#[trigger] value_fields_info@[j]).field_idx == j
                            && value_fields_info@[j].field_name@ == value_fields_schema@[j].name@,
                decreases value_fields_schema@.len() - i,
            {
                value_fields_info.push(
                    AnalyzedGraphFieldMapping {
                        field_idx: i,
                        field_name: value_fields_schema[i].name.clone(),
                    },
                );
                i = i + 1;
            }
            proof {
                assert(value_fields_info.deep_view() =~~= identity_fields(value_fields_schema@));
            }
            let key_names = crate::context::schema_field_names(&key_fields_schema);
            let desired_state = match RelationshipSetupState::new(
                &target_spec,
                key_names,
                index_options,
                &value_fields_info,
                &value_fields_schema,
                None,
            ) {
                Ok(st) => st,
                Err(e) => {
                    return Err(e);
                },
            };
            let export_context = match ExportContext::new(
                target_spec,
                key_fields_schema,
                value_fields_info,
                value_fields_schema,
                None,
            ) {
                Ok(c) => c,
                Err(e) => {
                    return Err(e);
                },
            };
            Ok(TargetBuildOutput { setup_key, desired_state, export_context })
        },
        GraphElementMapping::Relationship(rel_spec) => {
            let ghost schema = value_fields_schema@;
            let ghost st = field_split(*rel_spec, schema);
            let mut src_analyzer = DependentNodeLabelAnalyzer::new(&rel_spec.source);
            let mut tgt_analyzer = DependentNodeLabelAnalyzer::new(&rel_spec.target);
            let mut value_fields_info: Vec<AnalyzedGraphFieldMapping> = Vec::new();
            proof {
                assert(src_analyzer.fields@.len() == src_analyzer.fields.deep_view().len());
                assert(tgt_analyzer.fields@.len() == tgt_analyzer.fields.deep_view().len());
                assert(current_split(src_analyzer, tgt_analyzer, value_fields_info)
                    =~~= initial_split(*rel_spec));
            }
            let mut i: usize = 0;
            while i < value_fields_schema.len()
                invariant
                    i <= value_fields_schema@.len(),
                    st == split_from(
                        current_split(src_analyzer, tgt_analyzer, value_fields_info),
                        schema,
                        i as int,
                    ),
                    src_analyzer.label_name@ == rel_spec.source.label@,
                    tgt_analyzer.label_name@ == rel_spec.target.label@,
                    forall|j: int|
                        0 <= j < value_fields_info@.len() ==> (
                        #[trigger] value_fields_info@[j]).field_idx < i,
                    forall|j: int|
                        0 <= j < src_analyzer.fields@.len() ==> (
                        #[trigger] src_analyzer.fields@[j]).field_idx < i,
                    forall|j: int|
                        0 <= j < tgt_analyzer.fields@.len() ==> (
                        #[trigger] tgt_analyzer.fields@[j]).field_idx < i,
                decreases value_fields_schema@.len() - i,
            {
                let ghost pre = current_split(src_analyzer, tgt_analyzer, value_fields_info);
                let ghost src_pre = src_analyzer.fields.deep_view();
                let ghost tgt_pre = tgt_analyzer.fields.deep_view();
                proof {
                    assert(forall|j: int|
                        0 <= j < src_pre.len() ==> (#[trigger] src_pre[j]).field_idx < i) by {
                        assert(forall|j: int|
                            0 <= j < src_pre.len() ==> src_pre[j] == (
                            #[trigger] src_analyzer.fields@[j])@);
                    }
                    assert(forall|j: int|
                        0 <= j < tgt_pre.len() ==> (#[trigger] tgt_pre[j]).field_idx < i) by {
                        assert(forall|j: int|
                            0 <= j < tgt_pre.len() ==> tgt_pre[j] == (
                            #[trigger] tgt_analyzer.fields@[j])@);
                    }
                }
                let claimed_src = src_analyzer.process_field(i, &value_fields_schema[i]);
                let mut claimed = claimed_src;
                if !claimed {
                    let claimed_tgt = tgt_analyzer.process_field(i, &value_fields_schema[i]);
                    claimed = claimed_tgt;
                }
                if !claimed {
                    let ghost own_pre = value_fields_info.deep_view();
                    value_fields_info.push(
                        AnalyzedGraphFieldMapping {
                            field_idx: i,
                            field_name: value_fields_schema[i].name.clone(),
                        },
                    );
                    proof {
                        assert(value_fields_info.deep_view() =~~= own_pre.push(
                            AnalyzedFieldView { field_idx: i, field_name: schema[i as int].name@ },
                        ));
                    }
                }
                proof {
                    assert(current_split(src_analyzer, tgt_analyzer, value_fields_info)
                        =~~= claim_field(pre, i, schema[i as int].name@));
                    lemma_upsert_bound(src_pre, src_analyzer.fields.deep_view(), i as int);
                    lemma_upsert_bound(tgt_pre, tgt_analyzer.fields.deep_view(), i as int);
                    assert forall|j: int|
                        0 <= j < src_analyzer.fields@.len() implies (
                    #[trigger] src_analyzer.fields@[j]).field_idx < i + 1 by {
                        assert(src_analyzer.fields.deep_view()[j] == src_analyzer.fields@[j]@);
                    }
                    assert forall|j: int|
                        0 <= j < tgt_analyzer.fields@.len() implies (
                    #[trigger] tgt_analyzer.fields@[j]).field_idx < i + 1 by {
                        assert(tgt_analyzer.fields.deep_view()[j] == tgt_analyzer.fields@[j]@);
                    }
                }
                i = i + 1;
            }
            proof {
                assert(st == current_split(src_analyzer, tgt_analyzer, value_fields_info));
            }
            let ghost src_fields_dv = src_analyzer.fields.deep_view();
            let ghost src_remaining_dv = src_analyzer.remaining_fields.deep_view();
            let ghost tgt_fields_dv = tgt_analyzer.fields.deep_view();
            let ghost tgt_remaining_dv = tgt_analyzer.remaining_fields.deep_view();
            proof {
                assert forall|j: int| 0 <= j < src_fields_dv.len() implies (
                #[trigger] src_fields_dv[j]).field_idx < value_fields_schema@.len() by {
                    assert(src_fields_dv[j] == src_analyzer.fields@[j]@);
                }
                assert forall|j: int| 0 <= j < tgt_fields_dv.len() implies (
                #[trigger] tgt_fields_dv[j]).field_idx < value_fields_schema@.len() by {
                    assert(tgt_fields_dv[j] == tgt_analyzer.fields@[j]@);
                }
            }
            let src_storage = node_storage_of(&rel_spec.nodes_storage_spec, &rel_spec.source.label);
            let src_io = match src_storage {
                Some(s) => Some(&s.index_options),
                None => None,
            };
            proof {
                assert((match src_io {
                    Some(o) => Some(o@),
                    None => None,
                }) == storage_options_of(rel_spec.nodes_storage_spec, rel_spec.source.label@));
                lemma_endpoint_fields_bounded(
                    src_fields_dv,
                    src_remaining_dv,
                    storage_options_of(rel_spec.nodes_storage_spec, rel_spec.source.label@),
                    value_fields_schema@.len() as int,
                );
            }
            let src_info = match src_analyzer.build(src_io) {
                Ok(info) => info,
                Err(e) => {
                    return Err(e);
                },
            };
            let tgt_storage = node_storage_of(&rel_spec.nodes_storage_spec, &rel_spec.target.label);
            let tgt_io = match tgt_storage {
                Some(s) => Some(&s.index_options),
                None => None,
            };
            proof {
                assert((match tgt_io {
                    Some(o) => Some(o@),
                    None => None,
                }) == storage_options_of(rel_spec.nodes_storage_spec, rel_spec.target.label@));
                lemma_endpoint_fields_bounded(
                    tgt_fields_dv,
                    tgt_remaining_dv,
                    storage_options_of(rel_spec.nodes_storage_spec, rel_spec.target.label@),
                    value_fields_schema@.len() as int,
                );
            }
            let tgt_info = match tgt_analyzer.build(tgt_io) {
                Ok(info) => info,
                Err(e) => {
                    return Err(e);
                },
            };
            proof {
                assert forall|j: int|
                    0 <= j < src_info.key_fields@.len() implies (
                #[trigger] src_info.key_fields@[j]).field_idx < value_fields_schema@.len() by {
                    assert(src_info.key_fields.deep_view()[j] == src_info.key_fields@[j]@);
                }
                assert forall|j: int|
                    0 <= j < src_info.value_fields@.len() implies (
                #[trigger] src_info.value_fields@[j]).field_idx < value_fields_schema@.len() by {
                    assert(src_info.value_fields.deep_view()[j] == src_info.value_fields@[j]@);
                }
                assert forall|j: int|
                    0 <= j < tgt_info.key_fields@.len() implies (
                #[trigger] tgt_info.key_fields@[j]).field_idx < value_fields_schema@.len() by {
                    assert(tgt_info.key_fields.deep_view()[j] == tgt_info.key_fields@[j]@);
                }
                assert forall|j: int|
                    0 <= j < tgt_info.value_fields@.len() implies (
                #[trigger] tgt_info.value_fields@[j]).field_idx < value_fields_schema@.len() by {
                    assert(tgt_info.value_fields.deep_view()[j] == tgt_info.value_fields@[j]@);
                }
            }
            let key_names = crate::context::schema_field_names(&key_fields_schema);
            let desired_state = match RelationshipSetupState::new(
                &target_spec,
                key_names,
                index_options,
                &value_fields_info,
                &value_fields_schema,
                Some((&src_info, &tgt_info)),
            ) {
                Ok(state) => state,
                Err(e) => {
                    return Err(e);
                },
            };
            let export_context = match ExportContext::new(
                target_spec,
                key_fields_schema,
                value_fields_info,
                value_fields_schema,
                Some((src_info, tgt_info)),
            ) {
                Ok(c) => c,
                Err(e) => {
                    return Err(e);
                },
            };
            Ok(TargetBuildOutput { setup_key, desired_state, export_context })
        },
    }
}

/// The split state an exec analysis currently holds, as ghost views.
pub open spec fn current_split(
    src_analyzer: DependentNodeLabelAnalyzer,
    tgt_analyzer: DependentNodeLabelAnalyzer,
    value_fields_info: Vec<AnalyzedGraphFieldMapping>,
) -> SplitState {
    SplitState {
        src_fields: src_analyzer.fields.deep_view(),
        src_remaining: src_analyzer.remaining_fields.deep_view(),
        tgt_fields: tgt_analyzer.fields.deep_view(),
        tgt_remaining: tgt_analyzer.remaining_fields.deep_view(),
        own_fields: value_fields_info.deep_view(),
    }
}

/// An analyzer step keeps every recorded field index below the bound: the
/// state either stayed, or gained or replaced one field read at the bound
/// position itself.
proof fn lemma_upsert_bound(
    pre: Seq<AnalyzedFieldView>,
    post: Seq<AnalyzedFieldView>,
    idx: int,
)
    requires
        forall|j: int| 0 <= j < pre.len() ==> (#[trigger] pre[j]).field_idx < idx,
        post == pre || exists|m: AnalyzedFieldView|
            m.field_idx == idx && post == #[trigger] upsert_field(pre, m),
    ensures
        forall|j: int| 0 <= j < post.len() ==> (#[trigger] post[j]).field_idx < idx + 1,
{
    if post != pre {
        let m = choose|m: AnalyzedFieldView| m.field_idx == idx && post == upsert_field(pre, m);
        let f = crate::analyze::find_field(pre, m.field_name);
        crate::analyze::lemma_find_field_in_range(pre, m.field_name, 0);
        if f < 0 {
            assert(post == pre.push(m));
        } else {
            assert(post == pre.update(f, m));
        }
    }
}

} // verus!
