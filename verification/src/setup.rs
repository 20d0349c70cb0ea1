//! The desired schema-object state of one export target: its key
//! constraint, its vector indexes, and the schema objects of the node
//! labels a relationship target implicitly owns.

use vstd::prelude::*;

use crate::analyze::{
    find_field, AnalyzedFieldView, AnalyzedGraphFieldMapping, AnalyzedNodeLabelInfo, BuildError,
};
use crate::mapping::{
    mapping_elem_type, ElementType, ElementTypeView, GraphElementMapping, IndexOptions,
    IndexOptionsView, NodeStorageSpec, Spec, VectorIndexDef, VectorIndexDefView,
    VectorSimilarityMetric,
};
use crate::values::{BasicValueType, FieldSchema, ValueType};

verus! {

/// Whether a desired state may reuse what an existing state left behind.
#[derive(Clone, Copy, PartialEq, Eq, Structural, Debug)]
pub enum SetupStateCompatibility {
    Compatible,
    NotCompatible,
}

/// One schema object's definition: a key constraint over named fields, or a
/// vector index over one field with a metric and a fixed dimension.
pub enum IndexDef {
    KeyConstraint { field_names: Vec<String> },
    VectorIndex { field_name: String, metric: VectorSimilarityMetric, vector_size: usize },
}

/// Ghost mirror of a schema-object definition.
#[verifier::ext_equal]
pub enum IndexDefView {
    KeyConstraint { field_names: Seq<Seq<char>> },
    VectorIndex { field_name: Seq<char>, metric: VectorSimilarityMetric, vector_size: usize },
}

impl View for IndexDef {
    type V = IndexDefView;

    open spec fn view(&self) -> IndexDefView {
        match self {
            IndexDef::KeyConstraint { field_names } => IndexDefView::KeyConstraint {
                field_names: field_names.deep_view(),
            },
            IndexDef::VectorIndex { field_name, metric, vector_size } => IndexDefView::VectorIndex {
                field_name: field_name@,
                metric: *metric,
                vector_size: *vector_size,
            },
        }
    }
}

impl DeepView for IndexDef {
    type V = IndexDefView;

    open spec fn deep_view(&self) -> IndexDefView {
        self.view()
    }
}

/// The fixed dimension of a declared type, when it is a vector type with
/// one.
pub open spec fn vector_dim_of(t: ValueType) -> Option<usize> {
    match t {
        ValueType::Basic(BasicValueType::Vector(vs)) => vs.dimension,
        _ => None,
    }
}

impl IndexDef {
    /// The vector index definition for a declared index over a field of the
    /// given declared type; a type without a fixed dimension is refused.
    pub fn from_vector_index_def(index_def: &VectorIndexDef, field_typ: &ValueType) -> (r: Result<
        IndexDef,
        BuildError,
    >)
        ensures
            r is Ok <==> vector_dim_of(*field_typ) is Some,
            r is Ok ==> r->Ok_0@ == (IndexDefView::VectorIndex {
                field_name: index_def.field_name@,
                metric: index_def.metric,
                vector_size: vector_dim_of(*field_typ)->0,
            }),
            r is Err ==> (r->Err_0 matches BuildError::InvalidIndexField { field_name }
                && field_name@ == index_def.field_name@),
    {
        let dim = match field_typ {
            ValueType::Basic(BasicValueType::Vector(vs)) => match vs.dimension {
                Some(d) => d,
                None => {
                    return Err(
                        BuildError::InvalidIndexField { field_name: index_def.field_name.clone() },
                    );
                },
            },
            _ => {
                return Err(
                    BuildError::InvalidIndexField { field_name: index_def.field_name.clone() },
                );
            },
        };
        Ok(
            IndexDef::VectorIndex {
                field_name: index_def.field_name.clone(),
                metric: index_def.metric,
                vector_size: dim,
            },
        )
    }
}

/// One tracked schema object: the element kind it attaches to and its
/// definition.
pub struct ComponentState {
    pub object_label: ElementType,
    pub index_def: IndexDef,
}

/// Ghost mirror of a tracked schema object.
#[verifier::ext_equal]
pub struct ComponentStateView {
    pub object_label: ElementTypeView,
    pub index_def: IndexDefView,
}

impl View for ComponentState {
    type V = ComponentStateView;

    open spec fn view(&self) -> ComponentStateView {
        ComponentStateView { object_label: self.object_label@, index_def: self.index_def@ }
    }
}

impl DeepView for ComponentState {
    type V = ComponentStateView;

    open spec fn deep_view(&self) -> ComponentStateView {
        self.view()
    }
}

/// The desired setup state of one export target: its ordered key-field
/// names, the node labels a relationship target implicitly owns, and every
/// schema object it requires.
pub struct RelationshipSetupState {
    pub key_field_names: Vec<String>,
    pub dependent_node_labels: Vec<String>,
    pub sub_components: Vec<ComponentState>,
}

/// Ghost mirror of a target's setup state.
#[verifier::ext_equal]
pub struct RelationshipSetupStateView {
    pub key_field_names: Seq<Seq<char>>,
    pub dependent_node_labels: Seq<Seq<char>>,
    pub sub_components: Seq<ComponentStateView>,
}

impl View for RelationshipSetupState {
    type V = RelationshipSetupStateView;

    open spec fn view(&self) -> RelationshipSetupStateView {
        RelationshipSetupStateView {
            key_field_names: self.key_field_names.deep_view(),
            dependent_node_labels: self.dependent_node_labels.deep_view(),
            sub_components: self.sub_components.deep_view(),
        }
    }
}

impl DeepView for RelationshipSetupState {
    type V = RelationshipSetupStateView;

    open spec fn deep_view(&self) -> RelationshipSetupStateView {
        self.view()
    }
}

/// Whether two setup states are compatible: exactly when their key-field
/// name sequences agree in content and order, whatever else differs.
pub open spec fn compatible(a: RelationshipSetupStateView, b: RelationshipSetupStateView) -> bool {
    a.key_field_names == b.key_field_names
}

/// Compares two string lists for content equality.
#[verifier::loop_isolation(false)]
pub fn vec_string_eq(a: &Vec<String>, b: &Vec<String>) -> (r: bool)
    ensures
        r == (a.deep_view() == b.deep_view()),
{
    if a.len() != b.len() {
        assert(a.deep_view().len() != b.deep_view().len());
        return false;
    }
    let mut i: usize = 0;
    while i < a.len()
        invariant
            i <= a@.len(),
            a@.len() == b@.len(),
            forall|j: int| 0 <= j < i ==> a.deep_view()[j] == b.deep_view()[j],
        decreases a@.len() - i,
    {
        if !a[i].eq(&b[i]) {
            assert(a.deep_view()[i as int] != b.deep_view()[i as int]);
            return false;
        }
        i = i + 1;
    }
    proof {
        assert(a.deep_view() =~~= b.deep_view());
    }
    true
}

impl RelationshipSetupState {
    /// Compatibility with an existing state: compatible exactly when the
    /// key-field name sequences are equal; any other difference (dependent
    /// labels, schema objects) does not force a data clear.
    pub fn check_compatible(&self, existing: &RelationshipSetupState) -> (r:
        SetupStateCompatibility)
        ensures
            r == (if compatible(self@, existing@) {
                SetupStateCompatibility::Compatible
            } else {
                SetupStateCompatibility::NotCompatible
            }),
    {
        if vec_string_eq(&self.key_field_names, &existing.key_field_names) {
            SetupStateCompatibility::Compatible
        } else {
            SetupStateCompatibility::NotCompatible
        }
    }

    /// The schema objects this state requires, in order.
    pub fn into_components(self) -> (r: Vec<ComponentState>)
        ensures
            r.deep_view() == self@.sub_components,
    {
        self.sub_components
    }
}

/// Outcome of deriving a target's schema objects.
pub enum ComponentsOutcome {
    /// A vector index names a field absent from the analyzed field list.
    UnknownField(Seq<char>),
    /// A vector index names a field whose type has no fixed dimension.
    NoDim(Seq<char>),
    /// The derived schema objects, in order.
    Done(Seq<ComponentStateView>),
}

/// The schema objects for the declared vector indexes `vecs[k..]` over an
/// element kind, each index's field resolved in `fields` and its dimension
/// taken from the row schema.
pub open spec fn vector_components_from(
    elem: ElementTypeView,
    vecs: Seq<VectorIndexDefView>,
    fields: Seq<AnalyzedFieldView>,
    schema: Seq<FieldSchema>,
    k: int,
) -> ComponentsOutcome
    decreases vecs.len() - k,
{
    if k < 0 || k >= vecs.len() {
        ComponentsOutcome::Done(Seq::empty())
    } else {
        let i = find_field(fields, vecs[k].field_name);
        if i < 0 {
            ComponentsOutcome::UnknownField(vecs[k].field_name)
        } else {
            match vector_dim_of(schema[fields[i].field_idx as int].value_type) {
                None => ComponentsOutcome::NoDim(vecs[k].field_name),
                Some(d) => match vector_components_from(elem, vecs, fields, schema, k + 1) {
                    ComponentsOutcome::Done(rest) => ComponentsOutcome::Done(
                        seq![
                            ComponentStateView {
                                object_label: elem,
                                index_def: IndexDefView::VectorIndex {
                                    field_name: vecs[k].field_name,
                                    metric: vecs[k].metric,
                                    vector_size: d,
                                },
                            },
                        ] + rest,
                    ),
                    e => e,
                },
            }
        }
    }
}

/// The key-constraint schema object of an element kind over named fields.
pub open spec fn key_constraint_component(
    elem: ElementTypeView,
    field_names: Seq<Seq<char>>,
) -> ComponentStateView {
    ComponentStateView {
        object_label: elem,
        index_def: IndexDefView::KeyConstraint { field_names },
    }
}

/// The schema objects declared by one dependent node label's storage
/// options: its key constraint when primary-key fields are declared, then
/// its vector indexes resolved against the endpoints' analyzed fields.
pub open spec fn node_entry_components(
    label: Seq<char>,
    io: IndexOptionsView,
    endpoint_fields: Seq<AnalyzedFieldView>,
    schema: Seq<FieldSchema>,
) -> ComponentsOutcome {
    let pk: Seq<ComponentStateView> = match io.primary_key_fields {
        Some(pks) => seq![key_constraint_component(ElementTypeView::Node(label), pks)],
        None => Seq::empty(),
    };
    match vector_components_from(
        ElementTypeView::Node(label),
        io.vector_indexes,
        endpoint_fields,
        schema,
        0,
    ) {
        ComponentsOutcome::Done(vs) => ComponentsOutcome::Done(pk + vs),
        e => e,
    }
}

/// The schema objects of the dependent node labels `entries[k..]`, in
/// declaration order.
pub open spec fn nodes_components_from(
    entries: Seq<(String, NodeStorageSpec)>,
    endpoint_fields: Seq<AnalyzedFieldView>,
    schema: Seq<FieldSchema>,
    k: int,
) -> ComponentsOutcome
    decreases entries.len() - k,
{
    if k < 0 || k >= entries.len() {
        ComponentsOutcome::Done(Seq::empty())
    } else {
        match node_entry_components(
            entries[k].0@,
            entries[k].1.index_options@,
            endpoint_fields,
            schema,
        ) {
            ComponentsOutcome::Done(cs) => match nodes_components_from(
                entries,
                endpoint_fields,
                schema,
                k + 1,
            ) {
                ComponentsOutcome::Done(rest) => ComponentsOutcome::Done(cs + rest),
                e => e,
            },
            e => e,
        }
    }
}

/// The analyzed endpoint fields searched for a dependent label's vector
/// index fields: source keys, source values, target keys, target values.
pub open spec fn endpoint_search_fields(
    src_keys: Seq<AnalyzedFieldView>,
    src_values: Seq<AnalyzedFieldView>,
    tgt_keys: Seq<AnalyzedFieldView>,
    tgt_values: Seq<AnalyzedFieldView>,
) -> Seq<AnalyzedFieldView> {
    src_keys + src_values + tgt_keys + tgt_values
}

/// The dependent node labels a relationship target implicitly owns, in
/// declaration order.
pub open spec fn dependent_labels_of(mapping: GraphElementMapping) -> Seq<Seq<char>> {
    match mapping {
        GraphElementMapping::Node(_) => Seq::empty(),
        GraphElementMapping::Relationship(rel_spec) => match rel_spec.nodes_storage_spec {
            Some(entries) => entries@.map_values(|e: (String, NodeStorageSpec)| e.0@),
            None => Seq::empty(),
        },
    }
}

/// The full derivation of a target's schema objects: its own key
/// constraint, its own vector indexes resolved in the target's value
/// fields, and — for a relationship — the objects of each dependent node
/// label in turn.
pub open spec fn setup_components_outcome(
    mapping: GraphElementMapping,
    key_field_names: Seq<Seq<char>>,
    io: IndexOptionsView,
    value_fields: Seq<AnalyzedFieldView>,
    schema: Seq<FieldSchema>,
    endpoints: Option<(Seq<AnalyzedFieldView>, Seq<AnalyzedFieldView>, Seq<AnalyzedFieldView>, Seq<AnalyzedFieldView>)>,
) -> ComponentsOutcome {
    let elem = mapping_elem_type(mapping);
    let base = seq![key_constraint_component(elem, key_field_names)];
    match vector_components_from(elem, io.vector_indexes, value_fields, schema, 0) {
        ComponentsOutcome::Done(own) => match mapping {
            GraphElementMapping::Node(_) => ComponentsOutcome::Done(base + own),
            GraphElementMapping::Relationship(rel_spec) => match endpoints {
                None => ComponentsOutcome::Done(base + own),
                Some(ep) => {
                    let entries: Seq<(String, NodeStorageSpec)> = match rel_spec.nodes_storage_spec {
                        Some(e) => e@,
                        None => Seq::empty(),
                    };
                    match nodes_components_from(
                        entries,
                        endpoint_search_fields(ep.0, ep.1, ep.2, ep.3),
                        schema,
                        0,
                    ) {
                        ComponentsOutcome::Done(ns) => ComponentsOutcome::Done(base + own + ns),
                        e => e,
                    }
                },
            },
        },
        e => e,
    }
}

fn clone_analyzed(m: &AnalyzedGraphFieldMapping) -> (r: AnalyzedGraphFieldMapping)
    ensures
        r@ == m@,
{
    AnalyzedGraphFieldMapping { field_idx: m.field_idx, field_name: m.field_name.clone() }
}

/// Finds a field by name and resolves a vector index over it; used for the
/// target's own indexes and for each dependent label's.
#[verifier::loop_isolation(false)]
fn resolve_vector_component(
    elem: &ElementType,
    index_def: &VectorIndexDef,
    fields: &Vec<AnalyzedGraphFieldMapping>,
    schema: &Vec<FieldSchema>,
) -> (r: Result<ComponentState, BuildError>)
    requires
        forall|i: int|
            0 <= i < fields@.len() ==> (#[trigger] fields@[i]).field_idx < schema@.len(),
    ensures
        ({
            let i = find_field(fields.deep_view(), index_def.field_name@);
            if i < 0 {
                r matches Err(BuildError::UnknownIndexField { field_name }) && field_name@
                    == index_def.field_name@
            } else {
                match vector_dim_of(schema@[fields.deep_view()[i].field_idx as int].value_type) {
                    None => r matches Err(BuildError::InvalidIndexField { field_name })
                        && field_name@ == index_def.field_name@,
                    Some(d) => r matches Ok(c) && c@ == (ComponentStateView {
                        object_label: elem@,
                        index_def: IndexDefView::VectorIndex {
                            field_name: index_def.field_name@,
                            metric: index_def.metric,
                            vector_size: d,
                        },
                    }),
                }
            }
        }),
{
    let mut i: usize = 0;
    while i < fields.len()
        invariant
            i <= fields@.len(),
            find_field(fields.deep_view(), index_def.field_name@) == crate::analyze::find_field_from(
                fields.deep_view(),
                index_def.field_name@,
                i as int,
            ),
        decreases fields@.len() - i,
    {
        if fields[i].field_name.eq(&index_def.field_name) {
            let idx = fields[i].field_idx;
            let def = match IndexDef::from_vector_index_def(index_def, &schema[idx].value_type) {
                Ok(d) => d,
                Err(e) => {
                    return Err(e);
                },
            };
            return Ok(
                ComponentState { object_label: ElementType::clone_kind(elem), index_def: def },
            );
        }
        i = i + 1;
    }
    Err(BuildError::UnknownIndexField { field_name: index_def.field_name.clone() })
}

/// Derives the vector-index schema objects of one element kind, in
/// declaration order.
#[verifier::loop_isolation(false)]
fn vector_components_exec(
    elem: &ElementType,
    vecs: &Vec<VectorIndexDef>,
    fields: &Vec<AnalyzedGraphFieldMapping>,
    schema: &Vec<FieldSchema>,
) -> (r: Result<Vec<ComponentState>, BuildError>)
    requires
        forall|i: int|
            0 <= i < fields@.len() ==> (#[trigger] fields@[i]).field_idx < schema@.len(),
    ensures
        ({
            match vector_components_from(elem@, vecs.deep_view(), fields.deep_view(), schema@, 0) {
                ComponentsOutcome::Done(cs) => r matches Ok(v) && v.deep_view() == cs,
                ComponentsOutcome::UnknownField(n) => r matches Err(
                    BuildError::UnknownIndexField { field_name },
                ) && field_name@ == n,
                ComponentsOutcome::NoDim(n) => r matches Err(
                    BuildError::InvalidIndexField { field_name },
                ) && field_name@ == n,
            }
        }),
{
    let ghost dvecs = vecs.deep_view();
    let ghost dfields = fields.deep_view();
    let mut out: Vec<ComponentState> = Vec::new();
    let mut k: usize = 0;
    while k < vecs.len()
        invariant
            k <= dvecs.len(),
            vector_components_from(elem@, dvecs, dfields, schema@, 0) == (
            match vector_components_from(elem@, dvecs, dfields, schema@, k as int) {
                ComponentsOutcome::Done(rest) => ComponentsOutcome::Done(out.deep_view() + rest),
                e => e,
            }),
        decreases dvecs.len() - k,
    {
        proof {
            assert(dvecs[k as int] == vecs@[k as int]@);
        }
        let c = match resolve_vector_component(elem, &vecs[k], fields, schema) {
            Ok(c) => c,
            Err(e) => {
                return Err(e);
            },
        };
        let ghost pre = out.deep_view();
        out.push(c);
        proof {
            assert(out.deep_view() =~~= pre.push(c@));
            match vector_components_from(elem@, dvecs, dfields, schema@, k + 1) {
                ComponentsOutcome::Done(rest) => {
                    assert(out.deep_view() + rest =~~= pre + (seq![c@] + rest));
                },
                _ => {},
            }
        }
        k = k + 1;
    }
    proof {
        assert(out.deep_view() + Seq::<ComponentStateView>::empty() =~~= out.deep_view());
    }
    Ok(out)
}

/// Clones a string list.
#[verifier::loop_isolation(false)]
fn clone_strings(src: &Vec<String>) -> (r: Vec<String>)
    ensures
        r.deep_view() == src.deep_view(),
{
    let mut out: Vec<String> = Vec::new();
    let mut i: usize = 0;
    while i < src.len()
        invariant
            i <= src@.len(),
            out@.len() == i as int,
            forall|j: int| 0 <= j < i ==> (#[trigger] out@[j])@ == src.deep_view()[j],
        decreases src@.len() - i,
    {
        out.push(src[i].clone());
        i = i + 1;
    }
    assert(out.deep_view() =~~= src.deep_view());
    out
}

/// Derives the schema objects one dependent node label declares: its key
/// constraint when primary-key fields are declared, then its vector
/// indexes.
fn node_entry_components_exec(
    label: &String,
    io: &IndexOptions,
    search_fields: &Vec<AnalyzedGraphFieldMapping>,
    schema: &Vec<FieldSchema>,
) -> (r: Result<Vec<ComponentState>, BuildError>)
    requires
        forall|i: int|
            0 <= i < search_fields@.len() ==> (#[trigger] search_fields@[i]).field_idx
                < schema@.len(),
    ensures
        ({
            match node_entry_components(label@, io@, search_fields.deep_view(), schema@) {
                ComponentsOutcome::Done(cs) => r matches Ok(v) && v.deep_view() == cs,
                ComponentsOutcome::UnknownField(n) => r matches Err(
                    BuildError::UnknownIndexField { field_name },
                ) && field_name@ == n,
                ComponentsOutcome::NoDim(n) => r matches Err(
                    BuildError::InvalidIndexField { field_name },
                ) && field_name@ == n,
            }
        }),
{
    let mut out: Vec<ComponentState> = Vec::new();
    match &io.primary_key_fields {
        Some(pks) => {
            let pk_names = clone_strings(pks);
            out.push(
                ComponentState {
                    object_label: ElementType::Node(label.clone()),
                    index_def: IndexDef::KeyConstraint { field_names: pk_names },
                },
            );
        },
        None => {},
    }
    let ghost pk_part = out.deep_view();
    let node_elem = ElementType::Node(label.clone());
    let mut vcs = match vector_components_exec(&node_elem, &io.vector_indexes, search_fields, schema) {
        Ok(v) => v,
        Err(e) => {
            return Err(e);
        },
    };
    let ghost vcs_dv = vcs.deep_view();
    out.append(&mut vcs);
    proof {
        assert(out.deep_view() =~~= pk_part + vcs_dv);
        match node_entry_components(label@, io@, search_fields.deep_view(), schema@) {
            ComponentsOutcome::Done(cs) => {
                assert(out.deep_view() =~~= cs);
            },
            _ => {},
        }
    }
    Ok(out)
}

impl RelationshipSetupState {
    /// Derives the desired setup state of one target: its key-field names,
    /// its dependent node labels, and every schema object it requires. A
    /// vector index over an unknown field or over a field without a fixed
    /// dimension is refused, as is a relationship target that comes without
    /// its endpoint field analysis.
    #[verifier::loop_isolation(false)]
    #[verifier::rlimit(100)]
    pub fn new(
        target_spec: &Spec,
        key_field_names: Vec<String>,
        index_options: &IndexOptions,
        value_fields_info: &Vec<AnalyzedGraphFieldMapping>,
        value_fields_schema: &Vec<FieldSchema>,
        end_nodes_label_info: Option<(&AnalyzedNodeLabelInfo, &AnalyzedNodeLabelInfo)>,
    ) -> (r: Result<RelationshipSetupState, BuildError>)
        requires
            forall|i: int|
                0 <= i < value_fields_info@.len() ==> (#[trigger] value_fields_info@[i]).field_idx
                    < value_fields_schema@.len(),
            end_nodes_label_info matches Some(ep) ==> ((forall|i: int|
                0 <= i < ep.0.key_fields@.len() ==> (#[trigger] ep.0.key_fields@[i]).field_idx
                    < value_fields_schema@.len()) && (forall|i: int|
                0 <= i < ep.0.value_fields@.len() ==> (#[trigger] ep.0.value_fields@[i]).field_idx
                    < value_fields_schema@.len()) && (forall|i: int|
                0 <= i < ep.1.key_fields@.len() ==> (#[trigger] ep.1.key_fields@[i]).field_idx
                    < value_fields_schema@.len()) && (forall|i: int|
                0 <= i < ep.1.value_fields@.len() ==> (#[trigger] ep.1.value_fields@[i]).field_idx
                    < value_fields_schema@.len())),
        ensures
            ({
                let own = vector_components_from(
                    mapping_elem_type(target_spec.mapping),
                    index_options@.vector_indexes,
                    value_fields_info.deep_view(),
                    value_fields_schema@,
                    0,
                );
                let eps = match end_nodes_label_info {
                    Some(ep) => Some(
                        (
                            ep.0.key_fields.deep_view(),
                            ep.0.value_fields.deep_view(),
                            ep.1.key_fields.deep_view(),
                            ep.1.value_fields.deep_view(),
                        ),
                    ),
                    None => None,
                };
                let outcome = setup_components_outcome(
                    target_spec.mapping,
                    key_field_names.deep_view(),
                    index_options@,
                    value_fields_info.deep_view(),
                    value_fields_schema@,
                    eps,
                );
                if target_spec.mapping matches GraphElementMapping::Relationship(_)
                    && end_nodes_label_info is None && own is Done {
                    r matches Err(e) && e is MissingEndpointFields
                } else {
                    match outcome {
                        ComponentsOutcome::UnknownField(n) => r matches Err(
                            BuildError::UnknownIndexField { field_name },
                        ) && field_name@ == n,
                        ComponentsOutcome::NoDim(n) => r matches Err(
                            BuildError::InvalidIndexField { field_name },
                        ) && field_name@ == n,
                        ComponentsOutcome::Done(cs) => r matches Ok(st) && st@.key_field_names
                            == key_field_names.deep_view() && st@.dependent_node_labels
                            == dependent_labels_of(target_spec.mapping) && st@.sub_components == cs,
                    }
                }
            }),
    {
        let elem = ElementType::from_mapping_spec(&target_spec.mapping);
        let mut sub_components: Vec<ComponentState> = Vec::new();
        let names = clone_strings(&key_field_names);
        sub_components.push(
            ComponentState {
                object_label: ElementType::clone_kind(&elem),
                index_def: IndexDef::KeyConstraint { field_names: names },
            },
        );
        let ghost base = sub_components.deep_view();
        proof {
            assert(base =~~= seq![
                key_constraint_component(
                    mapping_elem_type(target_spec.mapping),
                    key_field_names.deep_view(),
                ),
            ]);
        }
        let mut own_vcs = match vector_components_exec(
            &elem,
            &index_options.vector_indexes,
            value_fields_info,
            value_fields_schema,
        ) {
            Ok(v) => v,
            Err(e) => {
                return Err(e);
            },
        };
        let ghost own_dv = own_vcs.deep_view();
        sub_components.append(&mut own_vcs);
        proof {
            assert(sub_components.deep_view() =~~= base + own_dv);
        }
        let mut dependent_node_labels: Vec<String> = Vec::new();
        match &target_spec.mapping {
            GraphElementMapping::Node(_) => {
                proof {
                    match setup_components_outcome(
                        target_spec.mapping,
                        key_field_names.deep_view(),
                        index_options@,
                        value_fields_info.deep_view(),
                        value_fields_schema@,
                        None,
                    ) {
                        ComponentsOutcome::Done(cs) => {
                            assert(sub_components.deep_view() =~~= cs);
                        },
                        _ => {},
                    }
                    assert(dependent_node_labels.deep_view() =~~= dependent_labels_of(
                        target_spec.mapping,
                    ));
                }
                Ok(
                    RelationshipSetupState {
                        key_field_names,
                        dependent_node_labels,
                        sub_components,
                    },
                )
            },
            GraphElementMapping::Relationship(rel_spec) => {
                let (src_info, tgt_info) = match end_nodes_label_info {
                    Some(ep) => ep,
                    None => {
                        return Err(BuildError::MissingEndpointFields);
                    },
                };
                let mut search_fields: Vec<AnalyzedGraphFieldMapping> = Vec::new();
                push_all(&mut search_fields, &src_info.key_fields);
                push_all(&mut search_fields, &src_info.value_fields);
                push_all(&mut search_fields, &tgt_info.key_fields);
                push_all(&mut search_fields, &tgt_info.value_fields);
                proof {
                    assert(search_fields.deep_view() =~~= endpoint_search_fields(
                        src_info.key_fields.deep_view(),
                        src_info.value_fields.deep_view(),
                        tgt_info.key_fields.deep_view(),
                        tgt_info.value_fields.deep_view(),
                    ));
                    assert forall|i: int|
                        0 <= i < search_fields@.len() implies (
                    #[trigger] search_fields@[i]).field_idx < value_fields_schema@.len() by {
                        let dv = search_fields.deep_view();
                        assert(dv[i] == search_fields@[i]@);
                        let a = src_info.key_fields@.len() as int;
                        let b = src_info.value_fields@.len() as int;
                        let c = tgt_info.key_fields@.len() as int;
                        if i < a {
                            assert(dv[i] == src_info.key_fields@[i]@);
                        } else if i < a + b {
                            assert(dv[i] == src_info.value_fields@[i - a]@);
                        } else if i < a + b + c {
                            assert(dv[i] == tgt_info.key_fields@[i - a - b]@);
                        } else {
                            assert(dv[i] == tgt_info.value_fields@[i - a - b - c]@);
                        }
                    }
                }
                let empty_entries: Vec<(String, NodeStorageSpec)> = Vec::new();
                let entries: &Vec<(String, NodeStorageSpec)> = match &rel_spec.nodes_storage_spec {
                    Some(e) => e,
                    None => &empty_entries,
                };
                let ghost own_full = sub_components.deep_view();
                let mut ei: usize = 0;
                while ei < entries.len()
                    invariant
                        ei <= entries@.len(),
                        search_fields.deep_view() == endpoint_search_fields(
                            src_info.key_fields.deep_view(),
                            src_info.value_fields.deep_view(),
                            tgt_info.key_fields.deep_view(),
                            tgt_info.value_fields.deep_view(),
                        ),
                        forall|i: int|
                            0 <= i < search_fields@.len() ==> (
                            #[trigger] search_fields@[i]).field_idx < value_fields_schema@.len(),
                        nodes_components_from(
                            entries@,
                            search_fields.deep_view(),
                            value_fields_schema@,
                            0,
                        ) == (match nodes_components_from(
                            entries@,
                            search_fields.deep_view(),
                            value_fields_schema@,
                            ei as int,
                        ) {
                            ComponentsOutcome::Done(rest) => ComponentsOutcome::Done(
                                sub_components.deep_view().skip(own_full.len() as int) + rest,
                            ),
                            e => e,
                        }),
                        sub_components.deep_view().take(own_full.len() as int) == own_full,
                        sub_components@.len() >= own_full.len(),
                        dependent_node_labels@.len() == ei as int,
                        forall|j: int|
                            0 <= j < ei ==> (#[trigger] dependent_node_labels@[j])@
                                == entries@[j].0@,
                    decreases entries@.len() - ei,
                {
                    let label = &entries[ei].0;
                    let io = &entries[ei].1.index_options;
                    let mut ecs = match node_entry_components_exec(
                        label,
                        io,
                        &search_fields,
                        value_fields_schema,
                    ) {
                        Ok(v) => v,
                        Err(e) => {
                            return Err(e);
                        },
                    };
                    let ghost ecs_dv = ecs.deep_view();
                    let ghost pre = sub_components.deep_view();
                    sub_components.append(&mut ecs);
                    proof {
                        assert(sub_components.deep_view() =~~= pre + ecs_dv);
                        assert(sub_components.deep_view().take(own_full.len() as int) =~~= own_full);
                        match nodes_components_from(
                            entries@,
                            search_fields.deep_view(),
                            value_fields_schema@,
                            ei + 1,
                        ) {
                            ComponentsOutcome::Done(rest) => {
                                assert(sub_components.deep_view().skip(own_full.len() as int) + rest
                                    =~~= pre.skip(own_full.len() as int) + (ecs_dv + rest));
                            },
                            _ => {},
                        }
                    }
                    dependent_node_labels.push(label.clone());
                    ei = ei + 1;
                }
                proof {
                    assert(dependent_node_labels.deep_view() =~~= dependent_labels_of(
                        target_spec.mapping,
                    ));
                    match setup_components_outcome(
                        target_spec.mapping,
                        key_field_names.deep_view(),
                        index_options@,
                        value_fields_info.deep_view(),
                        value_fields_schema@,
                        Some(
                            (
                                src_info.key_fields.deep_view(),
                                src_info.value_fields.deep_view(),
                                tgt_info.key_fields.deep_view(),
                                tgt_info.value_fields.deep_view(),
                            ),
                        ),
                    ) {
                        ComponentsOutcome::Done(cs) => {
                            assert(sub_components.deep_view() =~~= cs);
                        },
                        _ => {},
                    }
                }
                Ok(
                    RelationshipSetupState {
                        key_field_names,
                        dependent_node_labels,
                        sub_components,
                    },
                )
            },
        }
    }
}

/// Appends clones of all mappings.
#[verifier::loop_isolation(false)]
fn push_all(dst: &mut Vec<AnalyzedGraphFieldMapping>, src: &Vec<AnalyzedGraphFieldMapping>)
    ensures
        final(dst).deep_view() == old(dst).deep_view() + src.deep_view(),
{
    let mut i: usize = 0;
    while i < src.len()
        invariant
            i <= src@.len(),
            dst@.len() == old(dst)@.len() + i as int,
            forall|j: int| 0 <= j < old(dst)@.len() ==> dst@[j] == old(dst)@[j],
            forall|p: int|
                old(dst)@.len() <= p < old(dst)@.len() + i ==> (#[trigger] dst@[p])@
                    == src.deep_view()[p - old(dst)@.len()],
        decreases src@.len() - i,
    {
        dst.push(clone_analyzed(&src[i]));
        i = i + 1;
    }
    proof {
        assert(dst.deep_view() =~~= old(dst).deep_view() + src.deep_view());
    }
}

impl ElementType {
    /// A copy of this element kind.
    pub fn clone_kind(&self) -> (r: ElementType)
        ensures
            r@ == self@,
    {
        match self {
            ElementType::Node(l) => ElementType::Node(l.clone()),
            ElementType::Relationship(t) => ElementType::Relationship(t.clone()),
        }
    }
}

} // verus!
