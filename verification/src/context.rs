//! The export context of one target: its fixed query texts with named
//! placeholders, built once, and the per-row binding of parameters for
//! upsert and delete queries.

use vstd::prelude::*;

use crate::analyze::{
    AnalyzedFieldView, AnalyzedGraphFieldMapping, AnalyzedNodeLabelInfo, BuildError,
};
use crate::encode::{
    key_encodable, key_to_wire, key_wire_ok, value_encodable, value_to_wire, value_wire_ok,
    EncodeError,
};
use crate::mapping::{AuthEntryReference, GraphElementMapping, Spec};
use crate::strutil::{dec_digits, push_dec};
use crate::values::{FieldSchema, FieldValues, KeyValue, Value};
use crate::wire::{Query, WireValue};

verus! {

/// The parameter name for key field `i` under a prefix: `prefix_i`.
pub open spec fn param_name(prefix: Seq<char>, i: nat) -> Seq<char> {
    prefix + "_"@ + dec_digits(i)
}

/// The parameter names for `n` key fields under a prefix, in order.
pub open spec fn param_names(prefix: Seq<char>, n: int) -> Seq<Seq<char>> {
    Seq::new(n as nat, |i: int| param_name(prefix, i as nat))
}

/// One entry of a key-fields literal: `name: $prefix_i`.
pub open spec fn key_item(name: Seq<char>, prefix: Seq<char>, i: nat) -> Seq<char> {
    name + ": $"@ + param_name(prefix, i)
}

/// The first `n` key-literal entries joined with `, `.
pub open spec fn key_items_upto(names: Seq<Seq<char>>, prefix: Seq<char>, n: int) -> Seq<char>
    decreases n,
{
    if n <= 0 {
        Seq::empty()
    } else if n == 1 {
        key_item(names[0], prefix, 0)
    } else {
        key_items_upto(names, prefix, n - 1) + ", "@ + key_item(names[n - 1], prefix, (n - 1) as nat)
    }
}

/// The braced key-fields literal: `{name: $prefix_0, name2: $prefix_1}`.
pub open spec fn key_fields_literal(names: Seq<Seq<char>>, prefix: Seq<char>) -> Seq<char> {
    "{"@ + key_items_upto(names, prefix, names.len() as int) + "}"@
}

/// The declared names of a field schema list, in order.
pub open spec fn field_names_of(s: Seq<FieldSchema>) -> Seq<Seq<char>> {
    s.map_values(|f: FieldSchema| f.name@)
}

/// The target property names of analyzed field mappings, in order.
pub open spec fn mapping_names_of(s: Seq<AnalyzedFieldView>) -> Seq<Seq<char>> {
    s.map_values(|m: AnalyzedFieldView| m.field_name)
}

/// The node-target delete text: an orphan-only cleanup that removes the
/// matched node only when it has no incident relationships.
pub open spec fn node_delete_text(label: Seq<char>, key_lit: Seq<char>) -> Seq<char> {
    "OPTIONAL MATCH (old_node:"@ + label + " "@ + key_lit
        + ")\nWITH old_node\nWHERE NOT (old_node)--()\nDELETE old_node\nFINISH\n"@
}

/// The node-target upsert text: a merge on the key fields, overwriting the
/// declared value properties when any are declared.
pub open spec fn node_insert_text(label: Seq<char>, key_lit: Seq<char>, has_props: bool) -> Seq<
    char,
> {
    "MERGE (new_node:"@ + label + " "@ + key_lit + ")\n"@ + (if has_props {
        "SET new_node += $props\n"@
    } else {
        Seq::<char>::empty()
    }) + "\nFINISH\n"@
}

/// The relationship-target delete text: the matched edge is removed
/// unconditionally, then each endpoint is independently removed when it has
/// become fully unreferenced.
pub open spec fn rel_delete_text(rel_type: Seq<char>, key_lit: Seq<char>) -> Seq<char> {
    "OPTIONAL MATCH (old_src)-[old_rel:"@ + rel_type + " "@ + key_lit
        + "]->(old_tgt)\n\nDELETE old_rel\n\nWITH old_src, old_tgt\nCALL {\n  WITH old_src\n  OPTIONAL MATCH (old_src)-[r]-()\n  WITH old_src, count(r) AS rels\n  WHERE rels = 0\n  DELETE old_src\n  RETURN 0 AS _1\n}\n\nCALL {\n  WITH old_tgt\n  OPTIONAL MATCH (old_tgt)-[r]-()\n  WITH old_tgt, count(r) AS rels\n  WHERE rels = 0\n  DELETE old_tgt\n  RETURN 0 AS _2\n}            \n\nFINISH\n"@
}

/// The relationship-target upsert text: both endpoints are merged by their
/// own key fields (optionally setting their value properties), then the
/// edge is merged by its key fields.
pub open spec fn rel_insert_text(
    src_label: Seq<char>,
    src_key_lit: Seq<char>,
    has_src_props: bool,
    tgt_label: Seq<char>,
    tgt_key_lit: Seq<char>,
    has_tgt_props: bool,
    rel_type: Seq<char>,
    key_lit: Seq<char>,
    has_props: bool,
) -> Seq<char> {
    "MERGE (new_src:"@ + src_label + " "@ + src_key_lit + ")\n"@ + (if has_src_props {
        "SET new_src += $source_props\n"@
    } else {
        Seq::<char>::empty()
    }) + "\nMERGE (new_tgt:"@ + tgt_label + " "@ + tgt_key_lit + ")\n"@ + (if has_tgt_props {
        "SET new_tgt += $target_props\n"@
    } else {
        Seq::<char>::empty()
    }) + "\nMERGE (new_src)-[new_rel:"@ + rel_type + " "@ + key_lit + "]->(new_tgt)\n"@ + (
    if has_props {
        "SET new_rel += $props\n"@
    } else {
        Seq::<char>::empty()
    }) + "\nFINISH\n"@
}

/// Whether a key value splits into `n` key fields: a single key field takes
/// the value whole, several take a composite key of exactly that arity.
pub open spec fn key_arity_ok(k: KeyValue, n: int) -> bool {
    n == 1 || (k matches KeyValue::Struct(parts) && parts@.len() == n)
}

/// The key parts bound to the `n` key-field parameters, in order.
pub open spec fn key_parts_of(k: KeyValue, n: int) -> Seq<KeyValue> {
    if n == 1 {
        seq![k]
    } else {
        match k {
            KeyValue::Struct(parts) => parts@,
            _ => Seq::empty(),
        }
    }
}

/// Whether every key part encodes under its key field's declared type.
pub open spec fn keyparts_encodable(parts: Seq<KeyValue>, key_fields: Seq<FieldSchema>) -> bool {
    forall|i: int|
        0 <= i < parts.len() ==> key_encodable(#[trigger] parts[i], key_fields[i].value_type)
}

/// One bound key segment: parameter `i` carries the `i`-th name and the
/// encoding of the `i`-th key part under the `i`-th key field's type.
pub open spec fn seg_key_params(
    names: Seq<Seq<char>>,
    parts: Seq<KeyValue>,
    key_fields: Seq<FieldSchema>,
    seg: Seq<(String, WireValue)>,
) -> bool {
    seg.len() == names.len() && (forall|i: int|
        0 <= i < names.len() ==> (#[trigger] seg[i]).0@ == names[i] && key_wire_ok(
            parts[i],
            key_fields[i].value_type,
            seg[i].1,
        ))
}

/// Whether every mapped row field encodes under its declared type.
pub open spec fn mapped_encodable(
    mappings: Seq<AnalyzedFieldView>,
    schema: Seq<FieldSchema>,
    row: Seq<Value>,
) -> bool {
    forall|i: int|
        0 <= i < mappings.len() ==> value_encodable(
            row[(#[trigger] mappings[i]).field_idx as int],
            schema[mappings[i].field_idx as int].value_type,
        )
}

/// One bound field segment: parameter `i` carries the `i`-th name and the
/// encoding of the row field the `i`-th mapping reads.
pub open spec fn seg_field_params(
    names: Seq<Seq<char>>,
    mappings: Seq<AnalyzedFieldView>,
    schema: Seq<FieldSchema>,
    row: Seq<Value>,
    seg: Seq<(String, WireValue)>,
) -> bool {
    seg.len() == names.len() && names.len() == mappings.len() && (forall|i: int|
        0 <= i < names.len() ==> (#[trigger] seg[i]).0@ == names[i] && value_wire_ok(
            row[mappings[i].field_idx as int],
            schema[mappings[i].field_idx as int].value_type,
            seg[i].1,
        ))
}

/// One bound property map: entry `i` carries the `i`-th mapping's target
/// property name and the encoding of the row field it reads.
pub open spec fn mapped_props_ok(
    mappings: Seq<AnalyzedFieldView>,
    schema: Seq<FieldSchema>,
    row: Seq<Value>,
    w: WireValue,
) -> bool {
    w matches WireValue::Dict(entries) && entries@.len() == mappings.len() && (forall|i: int|
        0 <= i < mappings.len() ==> (#[trigger] entries@[i]).0@ == mappings[i].field_name
            && value_wire_ok(
            row[mappings[i].field_idx as int],
            schema[mappings[i].field_idx as int].value_type,
            entries@[i].1,
        ))
}

/// One upsert or delete entry handed to an export target.
pub struct ExportTargetUpsertEntry {
    pub key: KeyValue,
    pub value: FieldValues,
}

/// The immutable per-target export context: connection reference, creation
/// rank, precompiled query texts, and the parameter layout bound per row.
pub struct ExportContext {
    pub connection_ref: AuthEntryReference,
    /// Creation rank: nodes are 0 and relationships 1, so that one flush
    /// queues node upserts before relationship upserts and deletes in the
    /// reverse order.
    pub create_order: u8,
    pub delete_cypher: String,
    pub insert_cypher: String,
    /// Whether an upsert first queues a delete of the old element; disabled
    /// for both target kinds.
    pub delete_before_upsert: bool,
    pub key_field_params: Vec<String>,
    pub key_fields: Vec<FieldSchema>,
    pub value_fields: Vec<AnalyzedGraphFieldMapping>,
    /// The row schema that all field indices point into.
    pub value_fields_schema: Vec<FieldSchema>,
    pub src_fields: Option<AnalyzedNodeLabelInfo>,
    pub src_key_field_params: Vec<String>,
    pub tgt_fields: Option<AnalyzedNodeLabelInfo>,
    pub tgt_key_field_params: Vec<String>,
}

impl ExportContext {
    /// Internal consistency: the creation rank is 0 or 1, every parameter
    /// list matches its field list, and every field index lies inside the
    /// row schema.
    pub open spec fn wf(&self) -> bool {
        &&& self.create_order <= 1
        &&& self.key_field_params@.len() == self.key_fields@.len()
        &&& forall|i: int|
            0 <= i < self.value_fields@.len() ==> (#[trigger] self.value_fields@[i]).field_idx
                < self.value_fields_schema@.len()
        &&& match self.src_fields {
            Some(s) => {
                &&& self.src_key_field_params@.len() == s.key_fields@.len()
                &&& forall|i: int|
                    0 <= i < s.key_fields@.len() ==> (#[trigger] s.key_fields@[i]).field_idx
                        < self.value_fields_schema@.len()
                &&& forall|i: int|
                    0 <= i < s.value_fields@.len() ==> (#[trigger] s.value_fields@[i]).field_idx
                        < self.value_fields_schema@.len()
            },
            None => self.src_key_field_params@.len() == 0,
        }
        &&& match self.tgt_fields {
            Some(s) => {
                &&& self.tgt_key_field_params@.len() == s.key_fields@.len()
                &&& forall|i: int|
                    0 <= i < s.key_fields@.len() ==> (#[trigger] s.key_fields@[i]).field_idx
                        < self.value_fields_schema@.len()
                &&& forall|i: int|
                    0 <= i < s.value_fields@.len() ==> (#[trigger] s.value_fields@[i]).field_idx
                        < self.value_fields_schema@.len()
            },
            None => self.tgt_key_field_params@.len() == 0,
        }
    }
}

/// Whether a whole upsert entry encodes against this context: the key
/// splits and encodes, and every mapped endpoint and relationship field
/// encodes.
pub open spec fn upsert_encodable(ctx: ExportContext, k: KeyValue, row: Seq<Value>) -> bool {
    let n0 = ctx.key_fields@.len() as int;
    let schema = ctx.value_fields_schema@;
    &&& key_arity_ok(k, n0)
    &&& keyparts_encodable(key_parts_of(k, n0), ctx.key_fields@)
    &&& match ctx.src_fields {
        Some(s) => mapped_encodable(s.key_fields.deep_view(), schema, row) && mapped_encodable(
            s.value_fields.deep_view(),
            schema,
            row,
        ),
        None => true,
    }
    &&& match ctx.tgt_fields {
        Some(s) => mapped_encodable(s.key_fields.deep_view(), schema, row) && mapped_encodable(
            s.value_fields.deep_view(),
            schema,
            row,
        ),
        None => true,
    }
    &&& mapped_encodable(ctx.value_fields.deep_view(), schema, row)
}

/// Whether a delete key encodes against this context.
pub open spec fn delete_encodable(ctx: ExportContext, k: KeyValue) -> bool {
    let n0 = ctx.key_fields@.len() as int;
    key_arity_ok(k, n0) && keyparts_encodable(key_parts_of(k, n0), ctx.key_fields@)
}

/// The parameters of one bound delete query: exactly the key segment.
pub open spec fn delete_params_ok(ctx: ExportContext, k: KeyValue, params: Seq<(String, WireValue)>) -> bool {
    let n0 = ctx.key_fields@.len() as int;
    params.len() == n0 && seg_key_params(
        ctx.key_field_params.deep_view(),
        key_parts_of(k, n0),
        ctx.key_fields@,
        params,
    )
}

/// The parameters of one bound upsert query, in binding order: the key
/// segment, the source endpoint's key segment and optional property map,
/// the target endpoint's likewise, then the optional relationship property
/// map.
pub open spec fn upsert_params_ok(
    ctx: ExportContext,
    k: KeyValue,
    row: Seq<Value>,
    params: Seq<(String, WireValue)>,
) -> bool {
    let n0 = ctx.key_fields@.len() as int;
    let schema = ctx.value_fields_schema@;
    let n1: int = match ctx.src_fields {
        Some(s) => s.key_fields@.len() as int,
        None => 0,
    };
    let p1: int = match ctx.src_fields {
        Some(s) => if s.value_fields@.len() > 0 {
            1
        } else {
            0
        },
        None => 0,
    };
    let n2: int = match ctx.tgt_fields {
        Some(s) => s.key_fields@.len() as int,
        None => 0,
    };
    let p2: int = match ctx.tgt_fields {
        Some(s) => if s.value_fields@.len() > 0 {
            1
        } else {
            0
        },
        None => 0,
    };
    let pc: int = if ctx.value_fields@.len() > 0 {
        1
    } else {
        0
    };
    &&& params.len() == n0 + n1 + p1 + n2 + p2 + pc
    &&& seg_key_params(
        ctx.key_field_params.deep_view(),
        key_parts_of(k, n0),
        ctx.key_fields@,
        params.subrange(0, n0),
    )
    &&& match ctx.src_fields {
        Some(s) => {
            &&& seg_field_params(
                ctx.src_key_field_params.deep_view(),
                s.key_fields.deep_view(),
                schema,
                row,
                params.subrange(n0, n0 + n1),
            )
            &&& (p1 == 1 ==> params[n0 + n1].0@ == "source_props"@ && mapped_props_ok(
                s.value_fields.deep_view(),
                schema,
                row,
                params[n0 + n1].1,
            ))
        },
        None => true,
    }
    &&& match ctx.tgt_fields {
        Some(s) => {
            &&& seg_field_params(
                ctx.tgt_key_field_params.deep_view(),
                s.key_fields.deep_view(),
                schema,
                row,
                params.subrange(n0 + n1 + p1, n0 + n1 + p1 + n2),
            )
            &&& (p2 == 1 ==> params[n0 + n1 + p1 + n2].0@ == "target_props"@ && mapped_props_ok(
                s.value_fields.deep_view(),
                schema,
                row,
                params[n0 + n1 + p1 + n2].1,
            ))
        },
        None => true,
    }
    &&& (pc == 1 ==> params.last().0@ == "props"@ && mapped_props_ok(
        ctx.value_fields.deep_view(),
        schema,
        row,
        params.last().1,
    ))
}

/// Builds the parameter names and the braced key-fields literal for the
/// given field names under a prefix.
#[verifier::loop_isolation(false)]
pub fn build_key_field_params_n_literal(param_prefix: &str, names: &Vec<String>) -> (r: (
    Vec<String>,
    String,
))
    ensures
        r.0.deep_view() == param_names(param_prefix@, names@.len() as int),
        r.1@ == key_fields_literal(names.deep_view(), param_prefix@),
{
    let mut params: Vec<String> = Vec::new();
    let mut lit = String::new();
    lit.append("{");
    let mut i: usize = 0;
    while i < names.len()
        invariant
            i <= names@.len(),
            params@.len() == i as int,
            forall|j: int|
                0 <= j < i ==> (#[trigger] params@[j])@ == param_name(param_prefix@, j as nat),
            lit@ == "{"@ + key_items_upto(names.deep_view(), param_prefix@, i as int),
        decreases names@.len() - i,
    {
        let mut p = param_prefix.to_owned();
        p.append("_");
        push_dec(&mut p, i as u64);
        assert(p@ =~= param_name(param_prefix@, i as nat));
        if i > 0 {
            lit.append(", ");
        }
        lit.append(names[i].as_str());
        lit.append(": $");
        lit.append(p.as_str());
        params.push(p);
        proof {
            assert(lit@ =~= "{"@ + key_items_upto(names.deep_view(), param_prefix@, i + 1));
        }
        i = i + 1;
    }
    lit.append("}");
    assert(lit@ =~= key_fields_literal(names.deep_view(), param_prefix@));
    assert(params.deep_view() =~~= param_names(param_prefix@, names@.len() as int));
    (params, lit)
}

/// The declared names of a field schema list, as owned strings.
#[verifier::loop_isolation(false)]
pub fn schema_field_names(fields: &Vec<FieldSchema>) -> (r: Vec<String>)
    ensures
        r.deep_view() == field_names_of(fields@),
{
    let mut names: Vec<String> = Vec::new();
    let mut i: usize = 0;
    while i < fields.len()
        invariant
            i <= fields@.len(),
            names@.len() == i as int,
            forall|j: int| 0 <= j < i ==> (#[trigger] names@[j])@ == fields@[j].name@,
        decreases fields@.len() - i,
    {
        names.push(fields[i].name.clone());
        i = i + 1;
    }
    assert(names.deep_view() =~~= field_names_of(fields@));
    names
}

/// The target property names of analyzed mappings, as owned strings.
#[verifier::loop_isolation(false)]
pub fn mapping_field_names(mappings: &Vec<AnalyzedGraphFieldMapping>) -> (r: Vec<String>)
    ensures
        r.deep_view() == mapping_names_of(mappings.deep_view()),
{
    let mut names: Vec<String> = Vec::new();
    let mut i: usize = 0;
    while i < mappings.len()
        invariant
            i <= mappings@.len(),
            names@.len() == i as int,
            forall|j: int| 0 <= j < i ==> (#[trigger] names@[j])@ == mappings@[j].field_name@,
        decreases mappings@.len() - i,
    {
        names.push(mappings[i].field_name.clone());
        i = i + 1;
    }
    assert(names.deep_view() =~~= mapping_names_of(mappings.deep_view()));
    names
}

/// Binds the key parameters: the key value split into the declared number
/// of key fields, each part encoded under its key field's type.
#[verifier::loop_isolation(false)]
fn key_params_segment(names: &Vec<String>, k: &KeyValue, key_fields: &Vec<FieldSchema>) -> (r:
    Result<Vec<(String, WireValue)>, EncodeError>)
    requires
        names@.len() == key_fields@.len(),
    ensures
        ({
            let n = key_fields@.len() as int;
            let parts = key_parts_of(*k, n);
            &&& r is Ok <==> (key_arity_ok(*k, n) && keyparts_encodable(parts, key_fields@))
            &&& r is Ok ==> seg_key_params(names.deep_view(), parts, key_fields@, r->Ok_0@)
            &&& r is Err ==> (if !key_arity_ok(*k, n) {
                r->Err_0 == EncodeError::KeyArityMismatch
            } else {
                r->Err_0 == EncodeError::TypeMismatch
            })
        }),
{
    let n = key_fields.len();
    let mut out: Vec<(String, WireValue)> = Vec::new();
    if n == 1 {
        proof {
            assert(key_parts_of(*k, 1)[0] == *k);
        }
        let w = match key_to_wire(k, &key_fields[0].value_type) {
            Ok(w) => w,
            Err(e) => {
                proof {
                    assert(!keyparts_encodable(key_parts_of(*k, 1), key_fields@));
                }
                return Err(e);
            },
        };
        out.push((names[0].clone(), w));
        assert(seg_key_params(names.deep_view(), key_parts_of(*k, 1), key_fields@, out@));
        Ok(out)
    } else {
        match k {
            KeyValue::Struct(parts) => {
                if parts.len() != n {
                    return Err(EncodeError::KeyArityMismatch);
                }
                let mut i: usize = 0;
                while i < n
                    invariant
                        i <= n,
                        out@.len() == i as int,
                        forall|j: int|
                            0 <= j < i ==> key_encodable(
                                #[trigger] parts@[j],
                                key_fields@[j].value_type,
                            ),
                        forall|j: int|
                            0 <= j < i ==> (#[trigger] out@[j]).0@ == names.deep_view()[j]
                                && key_wire_ok(parts@[j], key_fields@[j].value_type, out@[j].1),
                    decreases n - i,
                {
                    let w = match key_to_wire(&parts[i], &key_fields[i].value_type) {
                        Ok(w) => w,
                        Err(e) => {
                            proof {
                                assert(key_parts_of(*k, n as int)[i as int] == parts@[i as int]);
                                assert(!keyparts_encodable(key_parts_of(*k, n as int), key_fields@));
                            }
                            return Err(e);
                        },
                    };
                    out.push((names[i].clone(), w));
                    i = i + 1;
                }
                Ok(out)
            },
            _ => Err(EncodeError::KeyArityMismatch),
        }
    }
}

/// Binds one field segment: each mapping's row field encoded under its
/// declared type, named by the given parameter names.
#[verifier::loop_isolation(false)]
fn field_params_segment(
    names: &Vec<String>,
    mappings: &Vec<AnalyzedGraphFieldMapping>,
    schema: &Vec<FieldSchema>,
    row: &Vec<Value>,
) -> (r: Result<Vec<(String, WireValue)>, EncodeError>)
    requires
        names@.len() == mappings@.len(),
        row@.len() == schema@.len(),
        forall|i: int|
            0 <= i < mappings@.len() ==> (#[trigger] mappings@[i]).field_idx < schema@.len(),
    ensures
        r is Ok <==> mapped_encodable(mappings.deep_view(), schema@, row@),
        r is Ok ==> seg_field_params(names.deep_view(), mappings.deep_view(), schema@, row@, r->Ok_0@),
        r is Err ==> r->Err_0 == EncodeError::TypeMismatch,
{
    let mut out: Vec<(String, WireValue)> = Vec::new();
    let mut i: usize = 0;
    while i < mappings.len()
        invariant
            i <= mappings@.len(),
            out@.len() == i as int,
            forall|j: int|
                0 <= j < i ==> value_encodable(
                    row@[(#[trigger] mappings@[j]).field_idx as int],
                    schema@[mappings@[j].field_idx as int].value_type,
                ),
            forall|j: int|
                0 <= j < i ==> (#[trigger] out@[j]).0@ == names.deep_view()[j] && value_wire_ok(
                    row@[mappings@[j].field_idx as int],
                    schema@[mappings@[j].field_idx as int].value_type,
                    out@[j].1,
                ),
        decreases mappings@.len() - i,
    {
        let idx = mappings[i].field_idx;
        let w = match value_to_wire(&row[idx], &schema[idx].value_type) {
            Ok(w) => w,
            Err(e) => {
                proof {
                    assert(mappings.deep_view()[i as int] == mappings@[i as int]@);
                    assert(!mapped_encodable(mappings.deep_view(), schema@, row@));
                }
                return Err(e);
            },
        };
        out.push((names[i].clone(), w));
        i = i + 1;
    }
    Ok(out)
}

/// Binds one property map: each mapping's row field encoded under its
/// declared type, keyed by its target property name.
#[verifier::loop_isolation(false)]
fn mapped_props_value(
    mappings: &Vec<AnalyzedGraphFieldMapping>,
    schema: &Vec<FieldSchema>,
    row: &Vec<Value>,
) -> (r: Result<WireValue, EncodeError>)
    requires
        row@.len() == schema@.len(),
        forall|i: int|
            0 <= i < mappings@.len() ==> (#[trigger] mappings@[i]).field_idx < schema@.len(),
    ensures
        r is Ok <==> mapped_encodable(mappings.deep_view(), schema@, row@),
        r is Ok ==> mapped_props_ok(mappings.deep_view(), schema@, row@, r->Ok_0),
        r is Err ==> r->Err_0 == EncodeError::TypeMismatch,
{
    let mut entries: Vec<(String, WireValue)> = Vec::new();
    let mut i: usize = 0;
    while i < mappings.len()
        invariant
            i <= mappings@.len(),
            entries@.len() == i as int,
            forall|j: int|
                0 <= j < i ==> value_encodable(
                    row@[(#[trigger] mappings@[j]).field_idx as int],
                    schema@[mappings@[j].field_idx as int].value_type,
                ),
            forall|j: int|
                0 <= j < i ==> (#[trigger] entries@[j]).0@ == mappings.deep_view()[j].field_name
                    && value_wire_ok(
                    row@[mappings@[j].field_idx as int],
                    schema@[mappings@[j].field_idx as int].value_type,
                    entries@[j].1,
                ),
        decreases mappings@.len() - i,
    {
        let idx = mappings[i].field_idx;
        let w = match value_to_wire(&row[idx], &schema[idx].value_type) {
            Ok(w) => w,
            Err(e) => {
                proof {
                    assert(mappings.deep_view()[i as int] == mappings@[i as int]@);
                    assert(!mapped_encodable(mappings.deep_view(), schema@, row@));
                }
                return Err(e);
            },
        };
        entries.push((mappings[i].field_name.clone(), w));
        i = i + 1;
    }
    Ok(WireValue::Dict(entries))
}

impl ExportContext {
    /// Builds the context of one target: the fixed delete and upsert texts
    /// with their named placeholders, and the parameter name lists bound
    /// per row. A relationship spec without its endpoint analysis is
    /// refused.
    #[verifier::rlimit(100)]
    pub fn new(
        target_spec: Spec,
        key_fields: Vec<FieldSchema>,
        value_fields: Vec<AnalyzedGraphFieldMapping>,
        value_fields_schema: Vec<FieldSchema>,
        end_node_fields: Option<(AnalyzedNodeLabelInfo, AnalyzedNodeLabelInfo)>,
    ) -> (r: Result<ExportContext, BuildError>)
        requires
            forall|i: int|
                0 <= i < value_fields@.len() ==> (#[trigger] value_fields@[i]).field_idx
                    < value_fields_schema@.len(),
            end_node_fields matches Some(ef) ==> ((forall|i: int|
                0 <= i < ef.0.key_fields@.len() ==> (#[trigger] ef.0.key_fields@[i]).field_idx
                    < value_fields_schema@.len()) && (forall|i: int|
                0 <= i < ef.0.value_fields@.len() ==> (#[trigger] ef.0.value_fields@[i]).field_idx
                    < value_fields_schema@.len()) && (forall|i: int|
                0 <= i < ef.1.key_fields@.len() ==> (#[trigger] ef.1.key_fields@[i]).field_idx
                    < value_fields_schema@.len()) && (forall|i: int|
                0 <= i < ef.1.value_fields@.len() ==> (#[trigger] ef.1.value_fields@[i]).field_idx
                    < value_fields_schema@.len())),
        ensures
            ({
                let key_lit = key_fields_literal(field_names_of(key_fields@), "key"@);
                match target_spec.mapping {
                    GraphElementMapping::Node(node_spec) => r matches Ok(ctx) && ctx.wf()
                        && ctx.connection_ref.key@ == target_spec.connection.key@
                        && ctx.create_order == 0 && ctx.delete_before_upsert == false
                        && ctx.delete_cypher@ == node_delete_text(node_spec.label@, key_lit)
                        && ctx.insert_cypher@ == node_insert_text(
                        node_spec.label@,
                        key_lit,
                        value_fields@.len() > 0,
                    ) && ctx.key_field_params.deep_view() == param_names(
                        "key"@,
                        key_fields@.len() as int,
                    ) && ctx.key_fields@ == key_fields@ && ctx.value_fields@ == value_fields@
                        && ctx.value_fields_schema@ == value_fields_schema@ && ctx.src_fields
                        is None && ctx.tgt_fields is None,
                    GraphElementMapping::Relationship(rel_spec) => match end_node_fields {
                        None => r matches Err(e) && e is MissingEndpointFields,
                        Some(ef) => r matches Ok(ctx) && ctx.wf() && ctx.connection_ref.key@
                            == target_spec.connection.key@ && ctx.create_order == 1
                            && ctx.delete_before_upsert == false && ctx.delete_cypher@
                            == rel_delete_text(rel_spec.rel_type@, key_lit) && ctx.insert_cypher@
                            == rel_insert_text(
                            rel_spec.source.label@,
                            key_fields_literal(
                                mapping_names_of(ef.0.key_fields.deep_view()),
                                "source_key"@,
                            ),
                            ef.0.value_fields@.len() > 0,
                            rel_spec.target.label@,
                            key_fields_literal(
                                mapping_names_of(ef.1.key_fields.deep_view()),
                                "target_key"@,
                            ),
                            ef.1.value_fields@.len() > 0,
                            rel_spec.rel_type@,
                            key_lit,
                            value_fields@.len() > 0,
                        ) && ctx.key_field_params.deep_view() == param_names(
                            "key"@,
                            key_fields@.len() as int,
                        ) && ctx.src_key_field_params.deep_view() == param_names(
                            "source_key"@,
                            ef.0.key_fields@.len() as int,
                        ) && ctx.tgt_key_field_params.deep_view() == param_names(
                            "target_key"@,
                            ef.1.key_fields@.len() as int,
                        ) && ctx.key_fields@ == key_fields@ && ctx.value_fields@ == value_fields@
                            && ctx.value_fields_schema@ == value_fields_schema@ && (
                        ctx.src_fields matches Some(s) && s.key_fields@ == ef.0.key_fields@
                            && s.value_fields@ == ef.0.value_fields@) && (ctx.tgt_fields matches
                        Some(t) && t.key_fields@ == ef.1.key_fields@ && t.value_fields@
                            == ef.1.value_fields@),
                    },
                }
            }),
    {
        let key_names = schema_field_names(&key_fields);
        let (key_field_params, key_fields_lit) = build_key_field_params_n_literal(
            "key",
            &key_names,
        );
        proof {
            assert(key_field_params@.len() == key_field_params.deep_view().len());
            assert(key_names@.len() == key_names.deep_view().len());
            assert(key_field_params@.len() == key_fields@.len());
        }
        match target_spec.mapping {
            GraphElementMapping::Node(node_spec) => {
                let mut delete_cypher = String::new();
                delete_cypher.append("OPTIONAL MATCH (old_node:");
                delete_cypher.append(node_spec.label.as_str());
                delete_cypher.append(" ");
                delete_cypher.append(key_fields_lit.as_str());
                delete_cypher.append(
                    ")\nWITH old_node\nWHERE NOT (old_node)--()\nDELETE old_node\nFINISH\n",
                );
                assert(delete_cypher@ =~= node_delete_text(
                    node_spec.label@,
                    key_fields_literal(field_names_of(key_fields@), "key"@),
                ));
                let mut insert_cypher = String::new();
                insert_cypher.append("MERGE (new_node:");
                insert_cypher.append(node_spec.label.as_str());
                insert_cypher.append(" ");
                insert_cypher.append(key_fields_lit.as_str());
                insert_cypher.append(")\n");
                if value_fields.len() > 0 {
                    insert_cypher.append("SET new_node += $props\n");
                }
                insert_cypher.append("\nFINISH\n");
                assert(insert_cypher@ =~= node_insert_text(
                    node_spec.label@,
                    key_fields_literal(field_names_of(key_fields@), "key"@),
                    value_fields@.len() > 0,
                ));
                Ok(
                    ExportContext {
                        connection_ref: target_spec.connection,
                        create_order: 0,
                        delete_cypher,
                        insert_cypher,
                        delete_before_upsert: false,
                        key_field_params,
                        key_fields,
                        value_fields,
                        value_fields_schema,
                        src_fields: None,
                        src_key_field_params: Vec::new(),
                        tgt_fields: None,
                        tgt_key_field_params: Vec::new(),
                    },
                )
            },
            GraphElementMapping::Relationship(rel_spec) => {
                let (src_info, tgt_info) = match end_node_fields {
                    Some(ef) => ef,
                    None => {
                        return Err(BuildError::MissingEndpointFields);
                    },
                };
                let mut delete_cypher = String::new();
                delete_cypher.append("OPTIONAL MATCH (old_src)-[old_rel:");
                delete_cypher.append(rel_spec.rel_type.as_str());
                delete_cypher.append(" ");
                delete_cypher.append(key_fields_lit.as_str());
                delete_cypher.append(
                    "]->(old_tgt)\n\nDELETE old_rel\n\nWITH old_src, old_tgt\nCALL {\n  WITH old_src\n  OPTIONAL MATCH (old_src)-[r]-()\n  WITH old_src, count(r) AS rels\n  WHERE rels = 0\n  DELETE old_src\n  RETURN 0 AS _1\n}\n\nCALL {\n  WITH old_tgt\n  OPTIONAL MATCH (old_tgt)-[r]-()\n  WITH old_tgt, count(r) AS rels\n  WHERE rels = 0\n  DELETE old_tgt\n  RETURN 0 AS _2\n}            \n\nFINISH\n",
                );
                assert(delete_cypher@ =~= rel_delete_text(
                    rel_spec.rel_type@,
                    key_fields_literal(field_names_of(key_fields@), "key"@),
                ));
                let src_names = mapping_field_names(&src_info.key_fields);
                let (src_key_field_params, src_key_lit) = build_key_field_params_n_literal(
                    "source_key",
                    &src_names,
                );
                proof {
                    assert(src_key_field_params@.len() == src_key_field_params.deep_view().len());
                    assert(src_names@.len() == src_names.deep_view().len());
                    assert(src_key_field_params@.len() == src_info.key_fields@.len());
                }
                let tgt_names = mapping_field_names(&tgt_info.key_fields);
                let (tgt_key_field_params, tgt_key_lit) = build_key_field_params_n_literal(
                    "target_key",
                    &tgt_names,
                );
                proof {
                    assert(tgt_key_field_params@.len() == tgt_key_field_params.deep_view().len());
                    assert(tgt_names@.len() == tgt_names.deep_view().len());
                    assert(tgt_key_field_params@.len() == tgt_info.key_fields@.len());
                }
                let mut insert_cypher = String::new();
                insert_cypher.append("MERGE (new_src:");
                insert_cypher.append(rel_spec.source.label.as_str());
                insert_cypher.append(" ");
                insert_cypher.append(src_key_lit.as_str());
                insert_cypher.append(")\n");
                if src_info.value_fields.len() > 0 {
                    insert_cypher.append("SET new_src += $source_props\n");
                }
                insert_cypher.append("\nMERGE (new_tgt:");
                insert_cypher.append(rel_spec.target.label.as_str());
                insert_cypher.append(" ");
                insert_cypher.append(tgt_key_lit.as_str());
                insert_cypher.append(")\n");
                if tgt_info.value_fields.len() > 0 {
                    insert_cypher.append("SET new_tgt += $target_props\n");
                }
                insert_cypher.append("\nMERGE (new_src)-[new_rel:");
                insert_cypher.append(rel_spec.rel_type.as_str());
                insert_cypher.append(" ");
                insert_cypher.append(key_fields_lit.as_str());
                insert_cypher.append("]->(new_tgt)\n");
                if value_fields.len() > 0 {
                    insert_cypher.append("SET new_rel += $props\n");
                }
                insert_cypher.append("\nFINISH\n");
                assert(insert_cypher@ =~= rel_insert_text(
                    rel_spec.source.label@,
                    key_fields_literal(mapping_names_of(src_info.key_fields.deep_view()), "source_key"@),
                    src_info.value_fields@.len() > 0,
                    rel_spec.target.label@,
                    key_fields_literal(mapping_names_of(tgt_info.key_fields.deep_view()), "target_key"@),
                    tgt_info.value_fields@.len() > 0,
                    rel_spec.rel_type@,
                    key_fields_literal(field_names_of(key_fields@), "key"@),
                    value_fields@.len() > 0,
                ));
                Ok(
                    ExportContext {
                        connection_ref: target_spec.connection,
                        create_order: 1,
                        delete_cypher,
                        insert_cypher,
                        delete_before_upsert: false,
                        key_field_params,
                        key_fields,
                        value_fields,
                        value_fields_schema,
                        src_fields: Some(src_info),
                        src_key_field_params,
                        tgt_fields: Some(tgt_info),
                        tgt_key_field_params,
                    },
                )
            },
        }
    }

    /// Binds the full parameter list of one upsert entry, in binding
    /// order: the key segment, each declared endpoint's key segment and
    /// optional property map, then the optional relationship property map.
    #[verifier::loop_isolation(false)]
    #[verifier::rlimit(100)]
    #[verifier::spinoff_prover]
    fn assemble_upsert_params(&self, upsert: &ExportTargetUpsertEntry) -> (r: Result<
        Vec<(String, WireValue)>,
        EncodeError,
    >)
        requires
            self.wf(),
            upsert.value.fields@.len() == self.value_fields_schema@.len(),
        ensures
            r is Ok <==> upsert_encodable(*self, upsert.key, upsert.value.fields@),
            r is Ok ==> upsert_params_ok(*self, upsert.key, upsert.value.fields@, r->Ok_0@),
            r is Err ==> (if !key_arity_ok(upsert.key, self.key_fields@.len() as int) {
                r->Err_0 == EncodeError::KeyArityMismatch
            } else {
                r->Err_0 == EncodeError::TypeMismatch
            }),
    {
        let row = &upsert.value.fields;
        let key_seg = match key_params_segment(&self.key_field_params, &upsert.key, &self.key_fields) {
            Ok(s) => s,
            Err(e) => {
                return Err(e);
            },
        };
        let ghost ks = key_seg@;
        let mut params = key_seg;
        let ghost n0 = self.key_fields@.len() as int;
        match &self.src_fields {
            Some(s) => {
                let mut seg = match field_params_segment(
                    &self.src_key_field_params,
                    &s.key_fields,
                    &self.value_fields_schema,
                    row,
                ) {
                    Ok(s) => s,
                    Err(e) => {
                        return Err(e);
                    },
                };
                params.append(&mut seg);
                if s.value_fields.len() > 0 {
                    let w = match mapped_props_value(&s.value_fields, &self.value_fields_schema, row) {
                        Ok(w) => w,
                        Err(e) => {
                            return Err(e);
                        },
                    };
                    params.push(("source_props".to_owned(), w));
                }
            },
            None => {},
        }
        let ghost after_src = params@;
        match &self.tgt_fields {
            Some(t) => {
                let mut seg = match field_params_segment(
                    &self.tgt_key_field_params,
                    &t.key_fields,
                    &self.value_fields_schema,
                    row,
                ) {
                    Ok(s) => s,
                    Err(e) => {
                        return Err(e);
                    },
                };
                params.append(&mut seg);
                if t.value_fields.len() > 0 {
                    let w = match mapped_props_value(&t.value_fields, &self.value_fields_schema, row) {
                        Ok(w) => w,
                        Err(e) => {
                            return Err(e);
                        },
                    };
                    params.push(("target_props".to_owned(), w));
                }
            },
            None => {},
        }
        if self.value_fields.len() > 0 {
            let w = match mapped_props_value(&self.value_fields, &self.value_fields_schema, row) {
                Ok(w) => w,
                Err(e) => {
                    return Err(e);
                },
            };
            params.push(("props".to_owned(), w));
        }
        proof {
            let p = params@;
            assert(p.subrange(0, n0) =~= ks);
            match &self.src_fields {
                Some(s) => {
                    let n1 = s.key_fields@.len() as int;
                    assert(p.subrange(n0, n0 + n1) =~= after_src.subrange(n0, n0 + n1));
                },
                None => {},
            }
            assert(upsert_params_ok(*self, upsert.key, upsert.value.fields@, params@));
        }
        Ok(params)
    }

    /// Builds the fully bound upsert query for one entry and appends it.
    /// The query carries the upsert text; its parameters are the key
    /// segment, each declared endpoint's key segment and optional property
    /// map, and the optional relationship property map, in that order. On
    /// failure nothing is appended.
    pub fn add_upsert_queries(
        &self,
        upsert: &ExportTargetUpsertEntry,
        queries: &mut Vec<Query>,
    ) -> (r: Result<(), EncodeError>)
        requires
            self.wf(),
            upsert.value.fields@.len() == self.value_fields_schema@.len(),
        ensures
            r is Ok <==> upsert_encodable(*self, upsert.key, upsert.value.fields@),
            r is Ok ==> ({
                let extra: int = if self.delete_before_upsert {
                    1
                } else {
                    0
                };
                &&& final(queries)@.len() == old(queries)@.len() + 1 + extra
                &&& (forall|j: int|
                    0 <= j < old(queries)@.len() ==> final(queries)@[j] == old(queries)@[j])
                &&& (self.delete_before_upsert ==> final(queries)@[old(queries)@.len() as int].text@
                    == self.delete_cypher@ && delete_params_ok(
                    *self,
                    upsert.key,
                    final(queries)@[old(queries)@.len() as int].params@,
                ))
                &&& final(queries)@.last().text@ == self.insert_cypher@
                &&& upsert_params_ok(
                    *self,
                    upsert.key,
                    upsert.value.fields@,
                    final(queries)@.last().params@,
                )
            }),
            r is Err ==> final(queries)@ == old(queries)@ && (if !key_arity_ok(
                upsert.key,
                self.key_fields@.len() as int,
            ) {
                r->Err_0 == EncodeError::KeyArityMismatch
            } else {
                r->Err_0 == EncodeError::TypeMismatch
            }),
    {
        let params = match self.assemble_upsert_params(upsert) {
            Ok(p) => p,
            Err(e) => {
                return Err(e);
            },
        };
        if self.delete_before_upsert {
            let del_seg = match key_params_segment(
                &self.key_field_params,
                &upsert.key,
                &self.key_fields,
            ) {
                Ok(s) => s,
                Err(e) => {
                    return Err(e);
                },
            };
            queries.push(Query { text: self.delete_cypher.clone(), params: del_seg });
        }
        queries.push(Query { text: self.insert_cypher.clone(), params });
        Ok(())
    }

    /// Builds the fully bound delete query for one delete key and appends
    /// it: the delete text with exactly the key segment. On failure nothing
    /// is appended.
    pub fn add_delete_queries(&self, delete_key: &KeyValue, queries: &mut Vec<Query>) -> (r: Result<
        (),
        EncodeError,
    >)
        requires
            self.wf(),
        ensures
            r is Ok <==> delete_encodable(*self, *delete_key),
            r is Ok ==> final(queries)@.len() == old(queries)@.len() + 1 && (forall|j: int|
                0 <= j < old(queries)@.len() ==> final(queries)@[j] == old(queries)@[j]) && final(queries)@.last().text@ == self.delete_cypher@ && delete_params_ok(
                *self,
                *delete_key,
                final(queries)@.last().params@,
            ),
            r is Err ==> final(queries)@ == old(queries)@ && (if !key_arity_ok(
                *delete_key,
                self.key_fields@.len() as int,
            ) {
                r->Err_0 == EncodeError::KeyArityMismatch
            } else {
                r->Err_0 == EncodeError::TypeMismatch
            }),
    {
        let seg = match key_params_segment(&self.key_field_params, delete_key, &self.key_fields) {
            Ok(s) => s,
            Err(e) => {
                return Err(e);
            },
        };
        queries.push(Query { text: self.delete_cypher.clone(), params: seg });
        Ok(())
    }
}

} // verus!
