//! The declarative mapping model: what one export target writes (a node
//! label or a relationship type), its endpoints, and its index options.

use vstd::prelude::*;

verus! {

/// A reference, by name, to connection credentials held elsewhere.
pub struct AuthEntryReference {
    pub key: String,
}

/// Ghost mirror of an element kind: a node label or a relationship type.
#[verifier::ext_equal]
pub enum ElementTypeView {
    Node(Seq<char>),
    Relationship(Seq<char>),
}

/// The kind of graph element a target writes, tagged with its label
/// (for nodes) or its type name (for relationships).
pub enum ElementType {
    Node(String),
    Relationship(String),
}

impl View for ElementType {
    type V = ElementTypeView;

    open spec fn view(&self) -> ElementTypeView {
        match self {
            ElementType::Node(l) => ElementTypeView::Node(l@),
            ElementType::Relationship(t) => ElementTypeView::Relationship(t@),
        }
    }
}

impl DeepView for ElementType {
    type V = ElementTypeView;

    open spec fn deep_view(&self) -> ElementTypeView {
        self.view()
    }
}

/// The label or type name carried by an element kind.
pub open spec fn elem_label(v: ElementTypeView) -> Seq<char> {
    match v {
        ElementTypeView::Node(l) => l,
        ElementTypeView::Relationship(t) => t,
    }
}

/// The graph pattern that matches elements of this kind under the given
/// variable name: `(v:Label)` for nodes, `()-[v:TYPE]->()` for
/// relationships.
pub open spec fn matcher_text(v: ElementTypeView, var_name: Seq<char>) -> Seq<char> {
    match v {
        ElementTypeView::Node(l) => "("@ + var_name + ":"@ + l + ")"@,
        ElementTypeView::Relationship(t) => "()-["@ + var_name + ":"@ + t + "]->()"@,
    }
}

/// The human-readable description of an element kind.
pub open spec fn elem_describe(v: ElementTypeView) -> Seq<char> {
    match v {
        ElementTypeView::Node(l) => "Node(label:"@ + l + ")"@,
        ElementTypeView::Relationship(t) => "Relationship(type:"@ + t + ")"@,
    }
}

impl ElementType {
    /// The label or type name this kind carries.
    pub fn label(&self) -> (r: &String)
        ensures
            r@ == elem_label(self@),
    {
        match self {
            ElementType::Node(label) => label,
            ElementType::Relationship(label) => label,
        }
    }

    /// The element kind a mapping spec writes.
    pub fn from_mapping_spec(mapping: &GraphElementMapping) -> (r: ElementType)
        ensures
            r@ == mapping_elem_type(*mapping),
    {
        match mapping {
            GraphElementMapping::Relationship(rel_spec) => ElementType::Relationship(
                rel_spec.rel_type.clone(),
            ),
            GraphElementMapping::Node(node_spec) => ElementType::Node(node_spec.label.clone()),
        }
    }

    /// The graph pattern matching elements of this kind under `var_name`.
    pub fn matcher(&self, var_name: &str) -> (r: String)
        ensures
            r@ == matcher_text(self@, var_name@),
    {
        match self {
            ElementType::Relationship(label) => {
                let mut s = String::new();
                s.append("()-[");
                s.append(var_name);
                s.append(":");
                s.append(label.as_str());
                s.append("]->()");
                assert(s@ =~= matcher_text(self@, var_name@));
                s
            },
            ElementType::Node(label) => {
                let mut s = String::new();
                s.append("(");
                s.append(var_name);
                s.append(":");
                s.append(label.as_str());
                s.append(")");
                assert(s@ =~= matcher_text(self@, var_name@));
                s
            },
        }
    }

    /// The human-readable description of this element kind.
    pub fn describe(&self) -> (r: String)
        ensures
            r@ == elem_describe(self@),
    {
        match self {
            ElementType::Node(label) => {
                let mut s = String::new();
                s.append("Node(label:");
                s.append(label.as_str());
                s.append(")");
                assert(s@ =~= elem_describe(self@));
                s
            },
            ElementType::Relationship(rel_type) => {
                let mut s = String::new();
                s.append("Relationship(type:");
                s.append(rel_type.as_str());
                s.append(")");
                assert(s@ =~= elem_describe(self@));
                s
            },
        }
    }
}

/// The element kind that a mapping spec declares.
pub open spec fn mapping_elem_type(mapping: GraphElementMapping) -> ElementTypeView {
    match mapping {
        GraphElementMapping::Node(node_spec) => ElementTypeView::Node(node_spec.label@),
        GraphElementMapping::Relationship(rel_spec) => ElementTypeView::Relationship(
            rel_spec.rel_type@,
        ),
    }
}

/// Identity of one export target for setup bookkeeping: its connection
/// reference paired with the element kind it writes.
pub struct GraphElement {
    pub connection: AuthEntryReference,
    pub typ: ElementType,
}

impl GraphElement {
    /// The setup identity of a target spec.
    pub fn from_spec(target_spec: &Spec) -> (r: GraphElement)
        ensures
            r.connection.key@ == target_spec.connection.key@,
            r.typ@ == mapping_elem_type(target_spec.mapping),
    {
        GraphElement {
            connection: AuthEntryReference { key: target_spec.connection.key.clone() },
            typ: ElementType::from_mapping_spec(&target_spec.mapping),
        }
    }
}

/// How one source row field maps onto a target property: the source field
/// name, and the target property name when it differs.
pub struct TargetFieldMapping {
    pub source: String,
    pub target: Option<String>,
}

/// Ghost mirror of a target field mapping.
#[verifier::ext_equal]
pub struct TargetFieldMappingView {
    pub source: Seq<char>,
    pub target: Option<Seq<char>>,
}

impl View for TargetFieldMapping {
    type V = TargetFieldMappingView;

    open spec fn view(&self) -> TargetFieldMappingView {
        TargetFieldMappingView {
            source: self.source@,
            target: match self.target {
                Some(t) => Some(t@),
                None => None,
            },
        }
    }
}

impl DeepView for TargetFieldMapping {
    type V = TargetFieldMappingView;

    open spec fn deep_view(&self) -> TargetFieldMappingView {
        self.view()
    }
}

/// The property name a field mapping writes to: the declared target name,
/// or the source name when none is declared.
pub open spec fn target_name(m: TargetFieldMappingView) -> Seq<char> {
    match m.target {
        Some(t) => t,
        None => m.source,
    }
}

impl TargetFieldMapping {
    /// The property name this mapping writes to.
    pub fn get_target(&self) -> (r: &String)
        ensures
            r@ == target_name(self@),
    {
        match &self.target {
            Some(t) => t,
            None => &self.source,
        }
    }
}

/// A relationship endpoint: the node label and how row fields map onto the
/// endpoint node's properties.
pub struct NodeReferenceMapping {
    pub label: String,
    pub fields: Vec<TargetFieldMapping>,
}

/// The similarity metric of a vector index.
#[derive(Clone, Copy, PartialEq, Eq, Structural, Debug)]
pub enum VectorSimilarityMetric {
    CosineSimilarity,
    L2Distance,
    InnerProduct,
}

/// The name under which a similarity metric appears in index identities and
/// index options.
pub open spec fn metric_name(m: VectorSimilarityMetric) -> Seq<char> {
    match m {
        VectorSimilarityMetric::CosineSimilarity => "cosine_similarity"@,
        VectorSimilarityMetric::L2Distance => "l2_distance"@,
        VectorSimilarityMetric::InnerProduct => "inner_product"@,
    }
}

impl VectorSimilarityMetric {
    /// The metric's name.
    pub fn name(&self) -> (r: &'static str)
        ensures
            r@ == metric_name(*self),
    {
        match self {
            VectorSimilarityMetric::CosineSimilarity => "cosine_similarity",
            VectorSimilarityMetric::L2Distance => "l2_distance",
            VectorSimilarityMetric::InnerProduct => "inner_product",
        }
    }
}

/// One declared vector index: the indexed field and its metric.
pub struct VectorIndexDef {
    pub field_name: String,
    pub metric: VectorSimilarityMetric,
}

/// Ghost mirror of a vector index declaration.
#[verifier::ext_equal]
pub struct VectorIndexDefView {
    pub field_name: Seq<char>,
    pub metric: VectorSimilarityMetric,
}

impl View for VectorIndexDef {
    type V = VectorIndexDefView;

    open spec fn view(&self) -> VectorIndexDefView {
        VectorIndexDefView { field_name: self.field_name@, metric: self.metric }
    }
}

impl DeepView for VectorIndexDef {
    type V = VectorIndexDefView;

    open spec fn deep_view(&self) -> VectorIndexDefView {
        self.view()
    }
}

/// Index options of a target or of a dependent node label: its declared
/// primary-key fields, if any, and its vector indexes.
pub struct IndexOptions {
    pub primary_key_fields: Option<Vec<String>>,
    pub vector_indexes: Vec<VectorIndexDef>,
}

/// Ghost mirror of index options.
#[verifier::ext_equal]
pub struct IndexOptionsView {
    pub primary_key_fields: Option<Seq<Seq<char>>>,
    pub vector_indexes: Seq<VectorIndexDefView>,
}

impl View for IndexOptions {
    type V = IndexOptionsView;

    open spec fn view(&self) -> IndexOptionsView {
        IndexOptionsView {
            primary_key_fields: match self.primary_key_fields {
                Some(ref l) => Some(l.deep_view()),
                None => None,
            },
            vector_indexes: self.vector_indexes.deep_view(),
        }
    }
}

impl DeepView for IndexOptions {
    type V = IndexOptionsView;

    open spec fn deep_view(&self) -> IndexOptionsView {
        self.view()
    }
}

/// Storage options declared for one dependent node label of a relationship
/// target.
pub struct NodeStorageSpec {
    pub index_options: IndexOptions,
}

/// A node target: its label.
pub struct NodeMapping {
    pub label: String,
}

/// A relationship target: its type name, its two endpoints, and the storage
/// options of the node labels it implicitly owns.
pub struct RelationshipMapping {
    pub rel_type: String,
    pub source: NodeReferenceMapping,
    pub target: NodeReferenceMapping,
    pub nodes_storage_spec: Option<Vec<(String, NodeStorageSpec)>>,
}

/// What one export target writes: a node label or a relationship.
pub enum GraphElementMapping {
    Node(NodeMapping),
    Relationship(RelationshipMapping),
}

/// One export target's spec: its connection reference and its mapping.
pub struct Spec {
    pub connection: AuthEntryReference,
    pub mapping: GraphElementMapping,
}

/// First index at or after `from` among storage-spec entries whose label
/// equals `label`, or -1 when none follows.
pub open spec fn find_node_storage_from(
    entries: Seq<(String, NodeStorageSpec)>,
    label: Seq<char>,
    from: int,
) -> int
    decreases entries.len() - from,
{
    if from < 0 || from >= entries.len() {
        -1
    } else if entries[from].0@ == label {
        from
    } else {
        find_node_storage_from(entries, label, from + 1)
    }
}

/// First index among storage-spec entries whose label equals `label`, or -1.
pub open spec fn find_node_storage(entries: Seq<(String, NodeStorageSpec)>, label: Seq<char>) -> int {
    find_node_storage_from(entries, label, 0)
}

/// Looks up the storage options declared for a node label, if any: the
/// first entry with that label.
#[verifier::loop_isolation(false)]
pub fn node_storage_of<'a>(
    nodes_storage_spec: &'a Option<Vec<(String, NodeStorageSpec)>>,
    label: &String,
) -> (r: Option<&'a NodeStorageSpec>)
    ensures
        match nodes_storage_spec {
            None => r is None,
            Some(entries) => {
                let i = find_node_storage(entries@, label@);
                if i < 0 {
                    r is None
                } else {
                    r matches Some(s) && *s == entries@[i].1
                }
            },
        },
{
    match nodes_storage_spec {
        None => None,
        Some(entries) => {
            let mut i: usize = 0;
            while i < entries.len()
                invariant
                    i <= entries@.len(),
                    find_node_storage(entries@, label@) == find_node_storage_from(
                        entries@,
                        label@,
                        i as int,
                    ),
                decreases entries@.len() - i,
            {
                if entries[i].0.eq(label) {
                    return Some(&entries[i].1);
                }
                i = i + 1;
            }
            None
        },
    }
}

} // verus!
