//! Reconciling desired against observed setup state: component identities,
//! structural up-to-date comparison, the DDL that creates and drops schema
//! objects, and the data-clearing migration plan with its change
//! classification.

use vstd::prelude::*;

use crate::mapping::{
    elem_describe, elem_label, matcher_text, metric_name, ElementType, ElementTypeView,
    GraphElement,
};
use crate::setup::{
    compatible, ComponentState, ComponentStateView, IndexDef, IndexDefView,
    RelationshipSetupState, RelationshipSetupStateView, SetupStateCompatibility, vec_string_eq,
};
use crate::strutil::{dec_digits, push_dec};

verus! {

/// The kind of one tracked schema object.
#[derive(Clone, Copy, PartialEq, Eq, Structural, Debug)]
pub enum ComponentKind {
    KeyConstraint,
    VectorIndex,
}

/// The human-readable name of a component kind.
pub open spec fn kind_describe(k: ComponentKind) -> Seq<char> {
    match k {
        ComponentKind::KeyConstraint => "KEY CONSTRAINT"@,
        ComponentKind::VectorIndex => "VECTOR INDEX"@,
    }
}

impl ComponentKind {
    /// The human-readable name of this kind.
    pub fn describe(&self) -> (r: &'static str)
        ensures
            r@ == kind_describe(*self),
    {
        match self {
            ComponentKind::KeyConstraint => "KEY CONSTRAINT",
            ComponentKind::VectorIndex => "VECTOR INDEX",
        }
    }
}

/// The identity of one tracked schema object: its kind and its derived
/// name.
pub struct ComponentKey {
    pub kind: ComponentKind,
    pub name: String,
}

/// Ghost mirror of a component identity.
#[verifier::ext_equal]
pub struct ComponentKeyView {
    pub kind: ComponentKind,
    pub name: Seq<char>,
}

impl View for ComponentKey {
    type V = ComponentKeyView;

    open spec fn view(&self) -> ComponentKeyView {
        ComponentKeyView { kind: self.kind, name: self.name@ }
    }
}

impl DeepView for ComponentKey {
    type V = ComponentKeyView;

    open spec fn deep_view(&self) -> ComponentKeyView {
        self.view()
    }
}

/// The element-kind prefix of a component name: `n` for nodes, `r` for
/// relationships.
pub open spec fn elem_prefix(v: ElementTypeView) -> Seq<char> {
    match v {
        ElementTypeView::Node(_) => "n"@,
        ElementTypeView::Relationship(_) => "r"@,
    }
}

/// The identity of a schema object, a pure function of its element kind,
/// label, field name(s) and metric: `{n|r}__{label}__key` for key
/// constraints, `{n|r}__{label}__{field}__{metric}__vidx` for vector
/// indexes.
pub open spec fn component_key_of(s: ComponentStateView) -> ComponentKeyView {
    match s.index_def {
        IndexDefView::KeyConstraint { .. } => ComponentKeyView {
            kind: ComponentKind::KeyConstraint,
            name: elem_prefix(s.object_label) + "__"@ + elem_label(s.object_label) + "__key"@,
        },
        IndexDefView::VectorIndex { field_name, metric, .. } => ComponentKeyView {
            kind: ComponentKind::VectorIndex,
            name: elem_prefix(s.object_label) + "__"@ + elem_label(s.object_label) + "__"@
                + field_name + "__"@ + metric_name(metric) + "__vidx"@,
        },
    }
}

impl ComponentState {
    /// The identity under which this schema object is tracked.
    pub fn key(&self) -> (r: ComponentKey)
        ensures
            r@ == component_key_of(self@),
    {
        let mut name = String::new();
        match &self.object_label {
            ElementType::Node(_) => name.append("n"),
            ElementType::Relationship(_) => name.append("r"),
        }
        name.append("__");
        name.append(self.object_label.label().as_str());
        match &self.index_def {
            IndexDef::KeyConstraint { .. } => {
                name.append("__key");
                assert(name@ =~= component_key_of(self@).name);
                ComponentKey { kind: ComponentKind::KeyConstraint, name }
            },
            IndexDef::VectorIndex { field_name, metric, .. } => {
                name.append("__");
                name.append(field_name.as_str());
                name.append("__");
                name.append(metric.name());
                name.append("__vidx");
                assert(name@ =~= component_key_of(self@).name);
                ComponentKey { kind: ComponentKind::VectorIndex, name }
            },
        }
    }
}

/// The description of a component identity: its kind and its name.
pub open spec fn describe_key_text(k: ComponentKeyView) -> Seq<char> {
    kind_describe(k.kind) + " "@ + k.name
}

/// Describes a component identity.
pub fn describe_key(key: &ComponentKey) -> (r: String)
    ensures
        r@ == describe_key_text(key@),
{
    let mut s = key.kind.describe().to_owned();
    s.append(" ");
    s.append(key.name.as_str());
    assert(s@ =~= describe_key_text(key@));
    s
}

/// Field names joined with `, `, over the first `n` names.
pub open spec fn names_join(names: Seq<Seq<char>>, n: int) -> Seq<char>
    decreases n,
{
    if n <= 0 {
        Seq::empty()
    } else if n == 1 {
        names[0]
    } else {
        names_join(names, n - 1) + ", "@ + names[n - 1]
    }
}

/// The description of a schema object's full state.
pub open spec fn describe_state_text(s: ComponentStateView) -> Seq<char> {
    let key_desc = describe_key_text(component_key_of(s));
    match s.index_def {
        IndexDefView::KeyConstraint { field_names } => key_desc + " ON "@ + elem_label(
            s.object_label,
        ) + " (key: "@ + names_join(field_names, field_names.len() as int) + ")"@,
        IndexDefView::VectorIndex { field_name, metric, vector_size } => key_desc + " ON "@
            + elem_label(s.object_label) + " (field_name: "@ + field_name + ", vector_size: "@
            + dec_digits(vector_size as nat) + ", metric: "@ + metric_name(metric) + ")"@,
    }
}

/// Describes a schema object's full state.
#[verifier::loop_isolation(false)]
pub fn describe_state(state: &ComponentState) -> (r: String)
    ensures
        r@ == describe_state_text(state@),
{
    let key = state.key();
    let mut s = describe_key(&key);
    s.append(" ON ");
    s.append(state.object_label.label().as_str());
    match &state.index_def {
        IndexDef::KeyConstraint { field_names } => {
            s.append(" (key: ");
            let ghost names = field_names.deep_view();
            let mut i: usize = 0;
            while i < field_names.len()
                invariant
                    i <= names.len(),
                    names == field_names.deep_view(),
                    s@ == describe_key_text(component_key_of(state@)) + " ON "@ + elem_label(
                        state@.object_label,
                    ) + " (key: "@ + names_join(names, i as int),
                decreases names.len() - i,
            {
                if i > 0 {
                    s.append(", ");
                }
                s.append(field_names[i].as_str());
                proof {
                    assert(s@ =~= describe_key_text(component_key_of(state@)) + " ON "@
                        + elem_label(state@.object_label) + " (key: "@ + names_join(names, i + 1));
                }
                i = i + 1;
            }
            s.append(")");
            assert(s@ =~= describe_state_text(state@));
            s
        },
        IndexDef::VectorIndex { field_name, metric, vector_size } => {
            s.append(" (field_name: ");
            s.append(field_name.as_str());
            s.append(", vector_size: ");
            push_dec(&mut s, *vector_size as u64);
            s.append(", metric: ");
            s.append(metric.name());
            s.append(")");
            assert(s@ =~= describe_state_text(state@));
            s
        },
    }
}

/// Structural equality of two tracked schema objects: the reconciliation
/// engine treats a component as up to date exactly when current and
/// desired agree in every part.
pub fn is_up_to_date(current: &ComponentState, desired: &ComponentState) -> (r: bool)
    ensures
        r == (current@ == desired@),
{
    let labels_eq = match (&current.object_label, &desired.object_label) {
        (ElementType::Node(a), ElementType::Node(b)) => a.eq(b),
        (ElementType::Relationship(a), ElementType::Relationship(b)) => a.eq(b),
        _ => false,
    };
    if !labels_eq {
        return false;
    }
    match (&current.index_def, &desired.index_def) {
        (
            IndexDef::KeyConstraint { field_names: a },
            IndexDef::KeyConstraint { field_names: b },
        ) => {
            let r = vec_string_eq(a, b);
            proof {
                if r {
                    assert(current@ =~~= desired@);
                }
            }
            r
        },
        (
            IndexDef::VectorIndex { field_name: fa, metric: ma, vector_size: sa },
            IndexDef::VectorIndex { field_name: fb, metric: mb, vector_size: sb },
        ) => {
            let r = fa.eq(fb) && *ma == *mb && *sa == *sb;
            proof {
                if r {
                    assert(current@ =~~= desired@);
                }
            }
            r
        },
        _ => false,
    }
}

/// `true` of the fields joined for a composite key constraint:
/// `q.a, q.b`, parenthesized when there is more than one field.
pub open spec fn qualified_join(qualifier: Seq<char>, names: Seq<Seq<char>>, n: int) -> Seq<char>
    decreases n,
{
    if n <= 0 {
        Seq::empty()
    } else if n == 1 {
        qualifier + "."@ + names[0]
    } else {
        qualified_join(qualifier, names, n - 1) + ", "@ + qualifier + "."@ + names[n - 1]
    }
}

/// The composite field list of a key constraint: each field qualified,
/// joined with `, `, and parenthesized unless there is exactly one.
pub open spec fn composite_field_names_text(qualifier: Seq<char>, names: Seq<Seq<char>>) -> Seq<
    char,
> {
    let joined = qualified_join(qualifier, names, names.len() as int);
    if names.len() == 1 {
        joined
    } else {
        "("@ + joined + ")"@
    }
}

/// Builds the qualified, joined and possibly parenthesized field list of a
/// key constraint.
#[verifier::loop_isolation(false)]
pub fn build_composite_field_names(qualifier: &str, field_names: &Vec<String>) -> (r: String)
    ensures
        r@ == composite_field_names_text(qualifier@, field_names.deep_view()),
{
    let ghost names = field_names.deep_view();
    let mut joined = String::new();
    let mut i: usize = 0;
    while i < field_names.len()
        invariant
            i <= names.len(),
            names == field_names.deep_view(),
            joined@ == qualified_join(qualifier@, names, i as int),
        decreases names.len() - i,
    {
        if i > 0 {
            joined.append(", ");
        }
        joined.append(qualifier);
        joined.append(".");
        joined.append(field_names[i].as_str());
        proof {
            assert(joined@ =~= qualified_join(qualifier@, names, i + 1));
        }
        i = i + 1;
    }
    if field_names.len() == 1 {
        joined
    } else {
        let mut s = String::new();
        s.append("(");
        s.append(joined.as_str());
        s.append(")");
        assert(s@ =~= composite_field_names_text(qualifier@, names));
        s
    }
}

/// The DDL that creates a schema object if absent: a key constraint over
/// the element's matcher and qualified fields, or a vector index with its
/// dimension and similarity function.
pub open spec fn component_create_text(s: ComponentStateView) -> Seq<char> {
    let key = component_key_of(s);
    let matcher = matcher_text(s.object_label, "e"@);
    match s.index_def {
        IndexDefView::KeyConstraint { field_names } => "CREATE CONSTRAINT "@ + key.name
            + " IF NOT EXISTS FOR "@ + matcher + " REQUIRE "@ + composite_field_names_text(
            "e"@,
            field_names,
        ) + " IS "@ + (match s.object_label {
            ElementTypeView::Node(_) => "NODE"@,
            ElementTypeView::Relationship(_) => "RELATIONSHIP"@,
        }) + " KEY"@,
        IndexDefView::VectorIndex { field_name, metric, vector_size } => "CREATE VECTOR INDEX "@
            + key.name + " IF NOT EXISTS\nFOR "@ + matcher + " ON e."@ + field_name
            + "\nOPTIONS {\n    indexConfig: {\n        `vector.dimensions`: "@ + dec_digits(
            vector_size as nat,
        ) + ",\n        `vector.similarity_function`: '"@ + metric_name(metric) + "'\n    }\n}"@,
    }
}

/// Builds the DDL that creates a schema object if absent.
pub fn component_create_ddl(state: &ComponentState) -> (r: String)
    ensures
        r@ == component_create_text(state@),
{
    let key = state.key();
    let matcher = state.object_label.matcher("e");
    match &state.index_def {
        IndexDef::KeyConstraint { field_names } => {
            let fields = build_composite_field_names("e", field_names);
            let mut s = String::new();
            s.append("CREATE CONSTRAINT ");
            s.append(key.name.as_str());
            s.append(" IF NOT EXISTS FOR ");
            s.append(matcher.as_str());
            s.append(" REQUIRE ");
            s.append(fields.as_str());
            s.append(" IS ");
            match &state.object_label {
                ElementType::Node(_) => s.append("NODE"),
                ElementType::Relationship(_) => s.append("RELATIONSHIP"),
            }
            s.append(" KEY");
            assert(s@ =~= component_create_text(state@));
            s
        },
        IndexDef::VectorIndex { field_name, metric, vector_size } => {
            let mut s = String::new();
            s.append("CREATE VECTOR INDEX ");
            s.append(key.name.as_str());
            s.append(" IF NOT EXISTS\nFOR ");
            s.append(matcher.as_str());
            s.append(" ON e.");
            s.append(field_name.as_str());
            s.append("\nOPTIONS {\n    indexConfig: {\n        `vector.dimensions`: ");
            push_dec(&mut s, *vector_size as u64);
            s.append(",\n        `vector.similarity_function`: '");
            s.append(metric.name());
            s.append("'\n    }\n}");
            assert(s@ =~= component_create_text(state@));
            s
        },
    }
}

/// The DDL that drops a schema object if present.
pub open spec fn component_drop_text(k: ComponentKeyView) -> Seq<char> {
    "DROP "@ + (match k.kind {
        ComponentKind::KeyConstraint => "CONSTRAINT"@,
        ComponentKind::VectorIndex => "INDEX"@,
    }) + " "@ + k.name + " IF EXISTS"@
}

/// Builds the DDL that drops a schema object if present.
pub fn component_drop_ddl(key: &ComponentKey) -> (r: String)
    ensures
        r@ == component_drop_text(key@),
{
    let mut s = String::new();
    s.append("DROP ");
    match key.kind {
        ComponentKind::KeyConstraint => s.append("CONSTRAINT"),
        ComponentKind::VectorIndex => s.append("INDEX"),
    }
    s.append(" ");
    s.append(key.name.as_str());
    s.append(" IF EXISTS");
    assert(s@ =~= component_drop_text(key@));
    s
}

/// How a target's setup must change, over the four presence combinations
/// of desired and existing state.
#[derive(Clone, Copy, PartialEq, Eq, Structural, Debug)]
pub enum SetupChangeType {
    NoChange,
    Create,
    Update,
    Delete,
}

/// Whatever observed versions of a target's state exist: the reconciliation
/// engine may supply several possible prior versions.
pub struct CombinedState {
    pub possible_versions: Vec<RelationshipSetupState>,
}

/// The data to clear before reapplying: the target's own element kind, and
/// the dependent node labels collected from every incompatible observed
/// version.
pub struct DataClearAction {
    pub core_elem_type: ElementType,
    pub dependent_node_labels: Vec<String>,
}

/// Whether an observed version forces a data clear: it does when no state
/// is desired at all, or when the desired state is incompatible with it.
pub open spec fn version_forces_clear(
    desired: Option<RelationshipSetupStateView>,
    v: RelationshipSetupStateView,
) -> bool {
    match desired {
        None => true,
        Some(d) => !compatible(d, v),
    }
}

/// Whether any of the observed versions `versions[k..]` forces a clear.
pub open spec fn needs_clear_from(
    desired: Option<RelationshipSetupStateView>,
    versions: Seq<RelationshipSetupStateView>,
    k: int,
) -> bool
    decreases versions.len() - k,
{
    if k < 0 || k >= versions.len() {
        false
    } else {
        version_forces_clear(desired, versions[k]) || needs_clear_from(desired, versions, k + 1)
    }
}

/// Adds a label unless it is already present, keeping first-seen order.
pub open spec fn add_label(acc: Seq<Seq<char>>, l: Seq<char>) -> Seq<Seq<char>> {
    if acc.contains(l) {
        acc
    } else {
        acc.push(l)
    }
}

/// Adds the labels `ls[j..]` in order, deduplicating.
pub open spec fn add_labels_from(acc: Seq<Seq<char>>, ls: Seq<Seq<char>>, j: int) -> Seq<Seq<char>>
    decreases ls.len() - j,
{
    if j < 0 || j >= ls.len() {
        acc
    } else {
        add_labels_from(add_label(acc, ls[j]), ls, j + 1)
    }
}

/// The dependent labels to clear: the union, in first-seen order, of the
/// labels of every observed version that forces a clear, over
/// `versions[k..]` starting from `acc`.
pub open spec fn clear_labels_from(
    desired: Option<RelationshipSetupStateView>,
    versions: Seq<RelationshipSetupStateView>,
    acc: Seq<Seq<char>>,
    k: int,
) -> Seq<Seq<char>>
    decreases versions.len() - k,
{
    if k < 0 || k >= versions.len() {
        acc
    } else {
        let acc2 = if version_forces_clear(desired, versions[k]) {
            add_labels_from(acc, versions[k].dependent_node_labels, 0)
        } else {
            acc
        };
        clear_labels_from(desired, versions, acc2, k + 1)
    }
}

/// The change classification over the four presence combinations: both
/// present without a clear is no change, both present with a clear is an
/// update, desired only is a create, observed only is a delete, neither is
/// no change.
pub open spec fn change_type_of(desired_present: bool, existing_present: bool, clear: bool) -> SetupChangeType {
    if desired_present && existing_present {
        if clear {
            SetupChangeType::Update
        } else {
            SetupChangeType::NoChange
        }
    } else if desired_present {
        SetupChangeType::Create
    } else if existing_present {
        SetupChangeType::Delete
    } else {
        SetupChangeType::NoChange
    }
}

/// The computed setup status of one target: what data must be cleared, and
/// how the setup is classified to change.
pub struct SetupStatusCheck {
    pub data_clear: Option<DataClearAction>,
    pub change_type: SetupChangeType,
}

/// The ghost view of an optional desired state.
pub open spec fn desired_view(desired: Option<&RelationshipSetupState>) -> Option<
    RelationshipSetupStateView,
> {
    match desired {
        Some(d) => Some(d@),
        None => None,
    }
}

/// Whether a string list holds a string of this content.
#[verifier::loop_isolation(false)]
fn string_vec_contains(v: &Vec<String>, s: &String) -> (r: bool)
    ensures
        r == v.deep_view().contains(s@),
{
    let mut i: usize = 0;
    while i < v.len()
        invariant
            i <= v@.len(),
            forall|j: int| 0 <= j < i ==> v.deep_view()[j] != s@,
        decreases v@.len() - i,
    {
        if v[i].eq(s) {
            assert(v.deep_view()[i as int] == s@);
            return true;
        }
        i = i + 1;
    }
    proof {
        if v.deep_view().contains(s@) {
            let j = choose|j: int| 0 <= j < v.deep_view().len() && v.deep_view()[j] == s@;
            assert(v.deep_view()[j] != s@);
        }
    }
    false
}

impl SetupStatusCheck {
    /// Computes the setup status: a data clear is required exactly when
    /// some observed version forces one (or the target is being removed
    /// while versions remain); its scope is the target's element kind plus
    /// the union of the dependent labels of every version forcing a clear;
    /// the change classification follows the presence table.
    #[verifier::loop_isolation(false)]
    pub fn new(
        key: GraphElement,
        desired: Option<&RelationshipSetupState>,
        existing: &CombinedState,
    ) -> (r: SetupStatusCheck)
        ensures
            ({
                let dv = desired_view(desired);
                let vs = existing.possible_versions.deep_view();
                &&& (r.data_clear is Some) == needs_clear_from(dv, vs, 0)
                &&& (r.data_clear matches Some(a) ==> a.core_elem_type@ == key.typ@
                    && a.dependent_node_labels.deep_view() == clear_labels_from(
                    dv,
                    vs,
                    Seq::empty(),
                    0,
                ))
                &&& r.change_type == change_type_of(
                    desired is Some,
                    vs.len() > 0,
                    needs_clear_from(dv, vs, 0),
                )
            }),
    {
        let ghost dv = desired_view(desired);
        let ghost vs = existing.possible_versions.deep_view();
        let mut found: bool = false;
        let mut labels: Vec<String> = Vec::new();
        proof {
            assert(labels.deep_view() =~~= Seq::<Seq<char>>::empty());
        }
        let mut k: usize = 0;
        while k < existing.possible_versions.len()
            invariant
                k <= vs.len(),
                vs == existing.possible_versions.deep_view(),
                dv == desired_view(desired),
                needs_clear_from(dv, vs, 0) == (found || needs_clear_from(dv, vs, k as int)),
                clear_labels_from(dv, vs, Seq::empty(), 0) == clear_labels_from(
                    dv,
                    vs,
                    labels.deep_view(),
                    k as int,
                ),
                !found ==> labels@.len() == 0,
            decreases vs.len() - k,
        {
            let v = &existing.possible_versions[k];
            let incompatible = match desired {
                None => true,
                Some(d) => match d.check_compatible(v) {
                    SetupStateCompatibility::NotCompatible => true,
                    SetupStateCompatibility::Compatible => false,
                },
            };
            proof {
                assert(vs[k as int] == existing.possible_versions@[k as int]@);
                assert(incompatible == version_forces_clear(dv, vs[k as int]));
            }
            if incompatible {
                found = true;
                let ghost ls = vs[k as int].dependent_node_labels;
                proof {
                    assert(clear_labels_from(dv, vs, labels.deep_view(), k as int)
                        == clear_labels_from(
                        dv,
                        vs,
                        add_labels_from(labels.deep_view(), ls, 0),
                        k + 1,
                    ));
                }
                let mut j: usize = 0;
                while j < v.dependent_node_labels.len()
                    invariant
                        j <= ls.len(),
                        ls == vs[k as int].dependent_node_labels,
                        vs == existing.possible_versions.deep_view(),
                        k < vs.len(),
                        clear_labels_from(dv, vs, Seq::empty(), 0) == clear_labels_from(
                            dv,
                            vs,
                            add_labels_from(labels.deep_view(), ls, j as int),
                            k + 1,
                        ),
                    decreases ls.len() - j,
                {
                    let l = &v.dependent_node_labels[j];
                    proof {
                        assert(ls[j as int] == v.dependent_node_labels@[j as int]@);
                    }
                    if !string_vec_contains(&labels, l) {
                        let ghost pre = labels.deep_view();
                        labels.push(l.clone());
                        proof {
                            assert(labels.deep_view() =~~= pre.push(l@));
                        }
                    }
                    j = j + 1;
                }
                proof {
                    assert(add_labels_from(labels.deep_view(), ls, ls.len() as int)
                        == labels.deep_view());
                }
            }
            k = k + 1;
        }
        let data_clear = if found {
            Some(DataClearAction { core_elem_type: key.typ, dependent_node_labels: labels })
        } else {
            None
        };
        let desired_present = match desired {
            Some(_) => true,
            None => false,
        };
        let existing_present = existing.possible_versions.len() > 0;
        let change_type = if desired_present && existing_present {
            if found {
                SetupChangeType::Update
            } else {
                SetupChangeType::NoChange
            }
        } else if desired_present {
            SetupChangeType::Create
        } else if existing_present {
            SetupChangeType::Delete
        } else {
            SetupChangeType::NoChange
        };
        SetupStatusCheck { data_clear, change_type }
    }

    /// The change classification of this status.
    pub fn change_type(&self) -> (r: SetupChangeType)
        ensures
            r == self.change_type,
    {
        self.change_type
    }
}

/// The dependent-label descriptions joined with `, `, over the first `n`.
pub open spec fn dependents_join(ls: Seq<Seq<char>>, n: int) -> Seq<char>
    decreases n,
{
    if n <= 0 {
        Seq::empty()
    } else if n == 1 {
        elem_describe(ElementTypeView::Node(ls[0]))
    } else {
        dependents_join(ls, n - 1) + ", "@ + elem_describe(ElementTypeView::Node(ls[n - 1]))
    }
}

/// The description of one data-clear action.
pub open spec fn clear_desc_text(elem: ElementTypeView, labels: Seq<Seq<char>>) -> Seq<char> {
    "Clear data for "@ + elem_describe(elem) + (if labels.len() > 0 {
        "; dependents "@ + dependents_join(labels, labels.len() as int)
    } else {
        Seq::empty()
    })
}

impl SetupStatusCheck {
    /// Describes the pending changes: one line for the data clear, naming
    /// the element to clear and its dependent labels; nothing when no
    /// clear is pending.
    #[verifier::loop_isolation(false)]
    pub fn describe_changes(&self) -> (r: Vec<String>)
        ensures
            match self.data_clear {
                None => r@.len() == 0,
                Some(a) => r@.len() == 1 && r@[0]@ == clear_desc_text(
                    a.core_elem_type@,
                    a.dependent_node_labels.deep_view(),
                ),
            },
    {
        let mut result: Vec<String> = Vec::new();
        match &self.data_clear {
            None => result,
            Some(a) => {
                let mut desc = String::new();
                desc.append("Clear data for ");
                let elem_desc = a.core_elem_type.describe();
                desc.append(elem_desc.as_str());
                if a.dependent_node_labels.len() > 0 {
                    desc.append("; dependents ");
                    let ghost ls = a.dependent_node_labels.deep_view();
                    let mut i: usize = 0;
                    while i < a.dependent_node_labels.len()
                        invariant
                            i <= ls.len(),
                            ls == a.dependent_node_labels.deep_view(),
                            desc@ == "Clear data for "@ + elem_describe(a.core_elem_type@)
                                + "; dependents "@ + dependents_join(ls, i as int),
                        decreases ls.len() - i,
                    {
                        if i > 0 {
                            desc.append(", ");
                        }
                        let d = ElementType::Node(a.dependent_node_labels[i].clone()).describe();
                        desc.append(d.as_str());
                        proof {
                            assert(desc@ =~= "Clear data for "@ + elem_describe(a.core_elem_type@)
                                + "; dependents "@ + dependents_join(ls, i + 1));
                        }
                        i = i + 1;
                    }
                    assert(desc@ =~= clear_desc_text(
                        a.core_elem_type@,
                        a.dependent_node_labels.deep_view(),
                    ));
                } else {
                    assert(desc@ =~= clear_desc_text(
                        a.core_elem_type@,
                        a.dependent_node_labels.deep_view(),
                    ));
                }
                result.push(desc);
                result
            },
        }
    }
}

/// The scoped bulk-delete text for the target's own element kind, run as
/// the database's batched-transaction construct: orphan-only for nodes,
/// unconditional otherwise.
pub open spec fn clear_core_query_text(elem: ElementTypeView) -> Seq<char> {
    "CALL {\n    MATCH "@ + matcher_text(elem, "e"@) + "\n    WITH e\n    "@ + (match elem {
        ElementTypeView::Node(_) => "WHERE NOT (e)--()"@,
        ElementTypeView::Relationship(_) => Seq::empty(),
    }) + "\n    DELETE e\n} IN TRANSACTIONS\n"@
}

/// The orphan-only bulk-delete text for one dependent node label.
pub open spec fn clear_label_query_text(label: Seq<char>) -> Seq<char> {
    "CALL {\n    MATCH (n:"@ + label + ")\n    WHERE NOT (n)--()\n    DELETE n\n} IN TRANSACTIONS\n"@
}

/// Builds the ordered bulk-delete texts of one data-clear action: the
/// target's own scope first, then one orphan-only delete per dependent
/// label.
#[verifier::loop_isolation(false)]
pub fn data_clear_queries(action: &DataClearAction) -> (r: Vec<String>)
    ensures
        r@.len() == 1 + action.dependent_node_labels@.len(),
        r@[0]@ == clear_core_query_text(action.core_elem_type@),
        forall|j: int|
            0 <= j < action.dependent_node_labels@.len() ==> (#[trigger] r@[j + 1])@
                == clear_label_query_text(action.dependent_node_labels.deep_view()[j]),
{
    let mut out: Vec<String> = Vec::new();
    let matcher = action.core_elem_type.matcher("e");
    let mut core = String::new();
    core.append("CALL {\n    MATCH ");
    core.append(matcher.as_str());
    core.append("\n    WITH e\n    ");
    match &action.core_elem_type {
        ElementType::Node(_) => core.append("WHERE NOT (e)--()"),
        ElementType::Relationship(_) => {},
    }
    core.append("\n    DELETE e\n} IN TRANSACTIONS\n");
    assert(core@ =~= clear_core_query_text(action.core_elem_type@));
    out.push(core);
    let mut i: usize = 0;
    while i < action.dependent_node_labels.len()
        invariant
            i <= action.dependent_node_labels@.len(),
            out@.len() == 1 + i as int,
            out@[0]@ == clear_core_query_text(action.core_elem_type@),
            forall|j: int|
                0 <= j < i ==> (#[trigger] out@[j + 1])@ == clear_label_query_text(
                    action.dependent_node_labels.deep_view()[j],
                ),
        decreases action.dependent_node_labels@.len() - i,
    {
        let mut q = String::new();
        q.append("CALL {\n    MATCH (n:");
        q.append(action.dependent_node_labels[i].as_str());
        q.append(")\n    WHERE NOT (n)--()\n    DELETE n\n} IN TRANSACTIONS\n");
        assert(q@ =~= clear_label_query_text(action.dependent_node_labels.deep_view()[i as int]));
        out.push(q);
        i = i + 1;
    }
    out
}

/// The description of one export target resource.
pub fn describe_resource(key: &GraphElement) -> (r: String)
    ensures
        r@ == "Neo4j "@ + elem_describe(key.typ@),
{
    let mut s = String::new();
    s.append("Neo4j ");
    let d = key.typ.describe();
    s.append(d.as_str());
    assert(s@ =~= "Neo4j "@ + elem_describe(key.typ@));
    s
}

} // verus!
