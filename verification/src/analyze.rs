//! Splitting a relationship target's row fields into endpoint-node
//! properties and the relationship's own properties, and resolving each
//! endpoint's key fields.
//!
//! A field claimed by an endpoint is removed from that endpoint's remaining
//! declared mappings and recorded under its target property name; key-field
//! resolution then pulls the declared primary-key fields out of the claimed
//! fields (or takes all claimed fields where none are declared).

use vstd::prelude::*;

use crate::mapping::{
    target_name, IndexOptions, IndexOptionsView, NodeReferenceMapping, TargetFieldMapping,
    TargetFieldMappingView,
};
use crate::values::FieldSchema;

verus! {

/// Why building an export target failed.
#[derive(Debug)]
pub enum BuildError {
    /// An endpoint declares field mappings that no row field satisfies.
    UnmappedFields { label: String, fields: Vec<String> },
    /// A declared primary-key field was never claimed by the endpoint.
    MissingKeyField { label: String, field: String },
    /// An endpoint ended up with no key fields at all.
    NoKeyFields { label: String },
    /// A vector index names a field absent from the target's field list.
    UnknownIndexField { field_name: String },
    /// A vector index names a field whose type has no fixed dimension.
    InvalidIndexField { field_name: String },
    /// A relationship target came without its endpoint field analysis.
    MissingEndpointFields,
}

/// One analyzed field: the row position it reads and the target property
/// name it writes.
pub struct AnalyzedGraphFieldMapping {
    pub field_idx: usize,
    pub field_name: String,
}

/// Ghost mirror of an analyzed field.
#[verifier::ext_equal]
pub struct AnalyzedFieldView {
    pub field_idx: usize,
    pub field_name: Seq<char>,
}

impl View for AnalyzedGraphFieldMapping {
    type V = AnalyzedFieldView;

    open spec fn view(&self) -> AnalyzedFieldView {
        AnalyzedFieldView { field_idx: self.field_idx, field_name: self.field_name@ }
    }
}

impl DeepView for AnalyzedGraphFieldMapping {
    type V = AnalyzedFieldView;

    open spec fn deep_view(&self) -> AnalyzedFieldView {
        self.view()
    }
}

/// An endpoint's analyzed fields: its ordered key fields (never empty when
/// built) and its ordered value fields.
pub struct AnalyzedNodeLabelInfo {
    pub key_fields: Vec<AnalyzedGraphFieldMapping>,
    pub value_fields: Vec<AnalyzedGraphFieldMapping>,
}

/// First index at or after `from` whose field name equals `name`, or -1.
pub open spec fn find_field_from(fields: Seq<AnalyzedFieldView>, name: Seq<char>, from: int) -> int
    decreases fields.len() - from,
{
    if from < 0 || from >= fields.len() {
        -1
    } else if fields[from].field_name == name {
        from
    } else {
        find_field_from(fields, name, from + 1)
    }
}

/// First index whose field name equals `name`, or -1.
pub open spec fn find_field(fields: Seq<AnalyzedFieldView>, name: Seq<char>) -> int {
    find_field_from(fields, name, 0)
}

/// A found field index lies inside the list.
pub proof fn lemma_find_field_in_range(fields: Seq<AnalyzedFieldView>, name: Seq<char>, from: int)
    ensures
        find_field_from(fields, name, from) == -1 || (0 <= find_field_from(fields, name, from)
            < fields.len()),
    decreases fields.len() - from,
{
    if from < 0 || from >= fields.len() {
    } else if fields[from].field_name == name {
    } else {
        lemma_find_field_in_range(fields, name, from + 1);
    }
}

/// First index at or after `from` whose source name equals `name`, or -1.
pub open spec fn find_source_from(
    remaining: Seq<TargetFieldMappingView>,
    name: Seq<char>,
    from: int,
) -> int
    decreases remaining.len() - from,
{
    if from < 0 || from >= remaining.len() {
        -1
    } else if remaining[from].source == name {
        from
    } else {
        find_source_from(remaining, name, from + 1)
    }
}

/// First index whose source name equals `name`, or -1.
pub open spec fn find_source(remaining: Seq<TargetFieldMappingView>, name: Seq<char>) -> int {
    find_source_from(remaining, name, 0)
}

/// Records a field under its target property name: an existing entry of the
/// same name is replaced in place, a new name is appended.
pub open spec fn upsert_field(fields: Seq<AnalyzedFieldView>, m: AnalyzedFieldView) -> Seq<
    AnalyzedFieldView,
> {
    let i = find_field(fields, m.field_name);
    if i < 0 {
        fields.push(m)
    } else {
        fields.update(i, m)
    }
}

/// Collapses declared field mappings by source name: a later mapping with
/// the same source replaces the earlier one in place.
pub open spec fn upsert_source(
    acc: Seq<TargetFieldMappingView>,
    f: TargetFieldMappingView,
) -> Seq<TargetFieldMappingView> {
    let i = find_source(acc, f.source);
    if i < 0 {
        acc.push(f)
    } else {
        acc.update(i, f)
    }
}

/// The collapsed remaining-mapping list of an endpoint's declared fields.
pub open spec fn collect_remaining(fs: Seq<TargetFieldMappingView>) -> Seq<TargetFieldMappingView>
    decreases fs.len(),
{
    if fs.len() == 0 {
        Seq::empty()
    } else {
        upsert_source(collect_remaining(fs.drop_last()), fs.last())
    }
}

/// Outcome of pulling declared primary-key fields out of the claimed
/// fields, in declared order.
pub enum ExtractOutcome {
    /// A declared key field was never claimed; carries its name.
    Missing(Seq<char>),
    /// The extracted key fields and the claimed fields that remain.
    Done(Seq<AnalyzedFieldView>, Seq<AnalyzedFieldView>),
}

/// Pulls the declared key fields `pks[k..]` out of `fields`, in order.
pub open spec fn extract_keys_from(
    fields: Seq<AnalyzedFieldView>,
    pks: Seq<Seq<char>>,
    k: int,
) -> ExtractOutcome
    decreases pks.len() - k,
{
    if k < 0 || k >= pks.len() {
        ExtractOutcome::Done(Seq::empty(), fields)
    } else {
        let i = find_field(fields, pks[k]);
        if i < 0 {
            ExtractOutcome::Missing(pks[k])
        } else {
            match extract_keys_from(fields.remove(i), pks, k + 1) {
                ExtractOutcome::Done(ks, rest) => ExtractOutcome::Done(
                    seq![fields[i]] + ks,
                    rest,
                ),
                ExtractOutcome::Missing(n) => ExtractOutcome::Missing(n),
            }
        }
    }
}

/// Outcome of an endpoint's field analysis.
pub enum EndpointOutcome {
    /// Declared mappings whose source fields were never claimed remain;
    /// carries their source names.
    Unmapped(Seq<Seq<char>>),
    /// A declared primary-key field was never claimed; carries its name.
    MissingKey(Seq<char>),
    /// The endpoint ended up with no key fields.
    NoKeys,
    /// The endpoint's key fields and value fields, in order.
    Fields(Seq<AnalyzedFieldView>, Seq<AnalyzedFieldView>),
}

/// The primary-key field list an endpoint's storage options declare, if
/// any: options without a list declare none.
pub open spec fn declared_primary_keys(index_options: Option<IndexOptionsView>) -> Option<
    Seq<Seq<char>>,
> {
    match index_options {
        Some(io) => io.primary_key_fields,
        None => None,
    }
}

/// The complete endpoint analysis: unclaimed declared mappings fail it;
/// where an explicit primary-key field list is declared it is pulled out,
/// in declared order, as the key fields; where none is declared every
/// claimed field becomes a key field; and an endpoint without key fields
/// fails it.
pub open spec fn endpoint_outcome(
    fields: Seq<AnalyzedFieldView>,
    remaining: Seq<TargetFieldMappingView>,
    index_options: Option<IndexOptionsView>,
) -> EndpointOutcome {
    if remaining.len() > 0 {
        EndpointOutcome::Unmapped(remaining.map_values(|f: TargetFieldMappingView| f.source))
    } else {
        match declared_primary_keys(index_options) {
            Some(pks) => match extract_keys_from(fields, pks, 0) {
                ExtractOutcome::Missing(n) => EndpointOutcome::MissingKey(n),
                ExtractOutcome::Done(ks, rest) => if ks.len() == 0 {
                    EndpointOutcome::NoKeys
                } else {
                    EndpointOutcome::Fields(ks, rest)
                },
            },
            None => if fields.len() == 0 {
                EndpointOutcome::NoKeys
            } else {
                EndpointOutcome::Fields(fields, Seq::empty())
            },
        }
    }
}

/// Key extraction keeps every field index below any bound that the
/// analyzed fields respect.
pub proof fn lemma_extract_keys_bounded(
    fields: Seq<AnalyzedFieldView>,
    pks: Seq<Seq<char>>,
    k: int,
    bound: int,
)
    requires
        forall|i: int| 0 <= i < fields.len() ==> (#[trigger] fields[i]).field_idx < bound,
    ensures
        match extract_keys_from(fields, pks, k) {
            ExtractOutcome::Done(ks, rest) => (forall|i: int|
                0 <= i < ks.len() ==> (#[trigger] ks[i]).field_idx < bound) && (forall|i: int|
                0 <= i < rest.len() ==> (#[trigger] rest[i]).field_idx < bound),
            ExtractOutcome::Missing(_) => true,
        },
    decreases pks.len() - k,
{
    if k < 0 || k >= pks.len() {
    } else {
        let i = find_field(fields, pks[k]);
        if i >= 0 {
            lemma_find_field_in_range(fields, pks[k], 0);
            assert forall|j: int|
                0 <= j < fields.remove(i).len() implies (#[trigger] fields.remove(i)[j]).field_idx
                < bound by {
                if j < i {
                    assert(fields.remove(i)[j] == fields[j]);
                } else {
                    assert(fields.remove(i)[j] == fields[j + 1]);
                }
            }
            lemma_extract_keys_bounded(fields.remove(i), pks, k + 1, bound);
        }
    }
}

/// An endpoint's resolved key and value fields keep every field index
/// below any bound that the analyzed fields respect.
pub proof fn lemma_endpoint_fields_bounded(
    fields: Seq<AnalyzedFieldView>,
    remaining: Seq<TargetFieldMappingView>,
    io: Option<IndexOptionsView>,
    bound: int,
)
    requires
        forall|i: int| 0 <= i < fields.len() ==> (#[trigger] fields[i]).field_idx < bound,
    ensures
        match endpoint_outcome(fields, remaining, io) {
            EndpointOutcome::Fields(ks, vs) => (forall|i: int|
                0 <= i < ks.len() ==> (#[trigger] ks[i]).field_idx < bound) && (forall|i: int|
                0 <= i < vs.len() ==> (#[trigger] vs[i]).field_idx < bound),
            _ => true,
        },
{
    if remaining.len() == 0 {
        match declared_primary_keys(io) {
            Some(pks) => {
                lemma_extract_keys_bounded(fields, pks, 0, bound);
            },
            None => {},
        }
    }
}

/// Walks a relationship endpoint's declared field mappings against the
/// target's row fields, claiming fields as they appear.
pub struct DependentNodeLabelAnalyzer {
    pub label_name: String,
    pub fields: Vec<AnalyzedGraphFieldMapping>,
    pub remaining_fields: Vec<TargetFieldMapping>,
}

fn clone_field_mapping(f: &TargetFieldMapping) -> (r: TargetFieldMapping)
    ensures
        r@ == f@,
{
    TargetFieldMapping {
        source: f.source.clone(),
        target: match &f.target {
            Some(t) => Some(t.clone()),
            None => None,
        },
    }
}

/// First position in the claimed fields under `name`, if any.
#[verifier::loop_isolation(false)]
fn find_field_idx(fields: &Vec<AnalyzedGraphFieldMapping>, name: &String) -> (r: Option<usize>)
    ensures
        ({
            let i = find_field(fields.deep_view(), name@);
            if i < 0 {
                r is None
            } else {
                r matches Some(u) && u as int == i && i < fields@.len()
            }
        }),
{
    let mut i: usize = 0;
    while i < fields.len()
        invariant
            i <= fields@.len(),
            find_field(fields.deep_view(), name@) == find_field_from(
                fields.deep_view(),
                name@,
                i as int,
            ),
        decreases fields@.len() - i,
    {
        if fields[i].field_name.eq(name) {
            return Some(i);
        }
        i = i + 1;
    }
    None
}

/// First position among the remaining declared mappings whose source is
/// `name`, if any.
#[verifier::loop_isolation(false)]
fn find_source_idx(remaining: &Vec<TargetFieldMapping>, name: &String) -> (r: Option<usize>)
    ensures
        ({
            let i = find_source(remaining.deep_view(), name@);
            if i < 0 {
                r is None
            } else {
                r matches Some(u) && u as int == i && i < remaining@.len()
            }
        }),
{
    let mut i: usize = 0;
    while i < remaining.len()
        invariant
            i <= remaining@.len(),
            find_source(remaining.deep_view(), name@) == find_source_from(
                remaining.deep_view(),
                name@,
                i as int,
            ),
        decreases remaining@.len() - i,
    {
        if remaining[i].source.eq(name) {
            return Some(i);
        }
        i = i + 1;
    }
    None
}

impl DependentNodeLabelAnalyzer {
    /// Starts the analysis of one endpoint: no field claimed yet, the
    /// endpoint's declared mappings (collapsed by source name) all
    /// remaining.
    #[verifier::loop_isolation(false)]
    pub fn new(rel_end_spec: &NodeReferenceMapping) -> (r: DependentNodeLabelAnalyzer)
        ensures
            r.label_name@ == rel_end_spec.label@,
            r.fields.deep_view() == Seq::<AnalyzedFieldView>::empty(),
            r.remaining_fields.deep_view() == collect_remaining(rel_end_spec.fields.deep_view()),
    {
        let mut remaining: Vec<TargetFieldMapping> = Vec::new();
        let mut i: usize = 0;
        while i < rel_end_spec.fields.len()
            invariant
                i <= rel_end_spec.fields@.len(),
                remaining.deep_view() == collect_remaining(
                    rel_end_spec.fields.deep_view().take(i as int),
                ),
            decreases rel_end_spec.fields@.len() - i,
        {
            let f = clone_field_mapping(&rel_end_spec.fields[i]);
            let ghost prev = remaining.deep_view();
            match find_source_idx(&remaining, &f.source) {
                Some(j) => {
                    let _ = remaining.remove(j);
                    remaining.insert(j, f);
                    assert(remaining.deep_view() =~= prev.update(j as int, rel_end_spec.fields.deep_view()[i as int]));
                },
                None => {
                    remaining.push(f);
                    assert(remaining.deep_view() =~= prev.push(rel_end_spec.fields.deep_view()[i as int]));
                },
            }
            proof {
                let dv = rel_end_spec.fields.deep_view();
                assert(dv.take(i + 1).drop_last() =~= dv.take(i as int));
                assert(dv.take(i + 1).last() == dv[i as int]);
            }
            i = i + 1;
        }
        proof {
            assert(rel_end_spec.fields.deep_view().take(rel_end_spec.fields@.len() as int)
                =~= rel_end_spec.fields.deep_view());
        }
        DependentNodeLabelAnalyzer {
            label_name: rel_end_spec.label.clone(),
            fields: Vec::new(),
            remaining_fields: remaining,
        }
    }

    /// Offers one row field to this endpoint. A field whose name matches a
    /// remaining declared mapping is claimed: the mapping leaves the
    /// remaining set and the field is recorded under its target property
    /// name (replacing an earlier record of the same name in place). Any
    /// other field is left untouched and refused.
    pub fn process_field(&mut self, field_idx: usize, field_schema: &FieldSchema) -> (r: bool)
        ensures
            ({
                let i = find_source(old(self).remaining_fields.deep_view(), field_schema.name@);
                if i < 0 {
                    r == false && final(self).label_name@ == old(self).label_name@ && final(self).fields.deep_view() == old(self).fields.deep_view() && final(self).remaining_fields.deep_view() == old(self).remaining_fields.deep_view()
                } else {
                    r == true && final(self).label_name@ == old(self).label_name@ && final(self).remaining_fields.deep_view() == old(self).remaining_fields.deep_view().remove(
                        i,
                    ) && final(self).fields.deep_view() == upsert_field(
                        old(self).fields.deep_view(),
                        AnalyzedFieldView {
                            field_idx,
                            field_name: target_name(
                                old(self).remaining_fields.deep_view()[i],
                            ),
                        },
                    )
                }
            }),
    {
        let j = match find_source_idx(&self.remaining_fields, &field_schema.name) {
            Some(j) => j,
            None => {
                return false;
            },
        };
        let ghost old_remaining = self.remaining_fields.deep_view();
        let ghost old_fields = self.fields.deep_view();
        let field_info = self.remaining_fields.remove(j);
        assert(self.remaining_fields.deep_view() =~= old_remaining.remove(j as int));
        let m = AnalyzedGraphFieldMapping {
            field_idx,
            field_name: field_info.get_target().clone(),
        };
        let ghost mv = AnalyzedFieldView {
            field_idx,
            field_name: target_name(old_remaining[j as int]),
        };
        match find_field_idx(&self.fields, &m.field_name) {
            Some(p) => {
                let _ = self.fields.remove(p);
                self.fields.insert(p, m);
                assert(self.fields.deep_view() =~= old_fields.update(p as int, mv));
            },
            None => {
                self.fields.push(m);
                assert(self.fields.deep_view() =~= old_fields.push(mv));
            },
        }
        true
    }

    /// Finishes the endpoint: fails if declared mappings remain unclaimed,
    /// resolves the key fields against the endpoint's storage options, and
    /// fails an endpoint that has no key fields.
    #[verifier::loop_isolation(false)]
    pub fn build(self, index_options: Option<&IndexOptions>) -> (r: Result<
        AnalyzedNodeLabelInfo,
        BuildError,
    >)
        ensures
            ({
                let outcome = endpoint_outcome(
                    self.fields.deep_view(),
                    self.remaining_fields.deep_view(),
                    match index_options {
                        Some(io) => Some(io@),
                        None => None,
                    },
                );
                match outcome {
                    EndpointOutcome::Unmapped(srcs) => r matches Err(
                        BuildError::UnmappedFields { label, fields },
                    ) && label@ == self.label_name@ && fields.deep_view() == srcs,
                    EndpointOutcome::MissingKey(n) => r matches Err(
                        BuildError::MissingKeyField { label, field },
                    ) && label@ == self.label_name@ && field@ == n,
                    EndpointOutcome::NoKeys => r matches Err(BuildError::NoKeyFields { label })
                        && label@ == self.label_name@,
                    EndpointOutcome::Fields(ks, vs) => r matches Ok(info)
                        && info.key_fields.deep_view() == ks && info.value_fields.deep_view() == vs,
                }
            }),
    {
        if self.remaining_fields.len() > 0 {
            let mut srcs: Vec<String> = Vec::new();
            let mut i: usize = 0;
            while i < self.remaining_fields.len()
                invariant
                    i <= self.remaining_fields@.len(),
                    srcs.deep_view() =~= self.remaining_fields.deep_view().map_values(
                        |f: TargetFieldMappingView| f.source,
                    ).take(i as int),
                decreases self.remaining_fields@.len() - i,
            {
                srcs.push(self.remaining_fields[i].source.clone());
                i = i + 1;
            }
            proof {
                let full = self.remaining_fields.deep_view().map_values(
                    |f: TargetFieldMappingView| f.source,
                );
                assert(full.take(full.len() as int) =~= full);
            }
            return Err(BuildError::UnmappedFields { label: self.label_name, fields: srcs });
        }
        let mut flds = self.fields;
        let ghost fields0 = flds.deep_view();
        let pk_list: Option<&Vec<String>> = match index_options {
            Some(io) => match &io.primary_key_fields {
                Some(l) => Some(l),
                None => None,
            },
            None => None,
        };
        match pk_list {
            Some(pks) => {
                let mut keys: Vec<AnalyzedGraphFieldMapping> = Vec::new();
                let ghost pks_v = pks.deep_view();
                let mut k: usize = 0;
                while k < pks.len()
                    invariant
                        k <= pks_v.len(),
                        pks_v == pks.deep_view(),
                        extract_keys_from(fields0, pks_v, 0) == (match extract_keys_from(
                            flds.deep_view(),
                            pks_v,
                            k as int,
                        ) {
                            ExtractOutcome::Done(ks, rest) => ExtractOutcome::Done(
                                keys.deep_view() + ks,
                                rest,
                            ),
                            ExtractOutcome::Missing(n) => ExtractOutcome::Missing(n),
                        }),
                    decreases pks_v.len() - k,
                {
                    let ghost pre = flds.deep_view();
                    match find_field_idx(&flds, &pks[k]) {
                        Some(i) => {
                            let e = flds.remove(i);
                            assert(flds.deep_view() =~= pre.remove(i as int));
                            let ghost prek = keys.deep_view();
                            keys.push(e);
                            assert(keys.deep_view() =~= prek.push(pre[i as int]));
                            proof {
                                match extract_keys_from(flds.deep_view(), pks_v, k + 1) {
                                    ExtractOutcome::Done(ks, rest) => {
                                        assert(keys.deep_view() + ks =~= prek + (seq![
                                            pre[i as int],
                                        ] + ks));
                                    },
                                    ExtractOutcome::Missing(_) => {},
                                }
                            }
                        },
                        None => {
                            return Err(
                                BuildError::MissingKeyField {
                                    label: self.label_name,
                                    field: pks[k].clone(),
                                },
                            );
                        },
                    }
                    k = k + 1;
                }
                if keys.len() == 0 {
                    return Err(BuildError::NoKeyFields { label: self.label_name });
                }
                proof {
                    assert(keys.deep_view() + Seq::<AnalyzedFieldView>::empty() =~= keys.deep_view());
                }
                Ok(AnalyzedNodeLabelInfo { key_fields: keys, value_fields: flds })
            },
            None => {
                if flds.len() == 0 {
                    return Err(BuildError::NoKeyFields { label: self.label_name });
                }
                Ok(AnalyzedNodeLabelInfo { key_fields: flds, value_fields: Vec::new() })
            },
        }
    }
}

} // verus!
