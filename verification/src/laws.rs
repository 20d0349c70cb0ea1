//! Library-wide laws, each proved from the public contracts: what
//! compatibility means, how changes classify, that component identities are
//! pure names of their inputs, and how one flush orders its queries.

use vstd::prelude::*;

use crate::context::ExportContext;
use crate::dispatch::{
    delete_jobs_down, group_jobs, rank_of, rank_sorted, upsert_jobs, TargetMutation,
};
use crate::reconcile::{change_type_of, component_key_of, needs_clear_from, SetupChangeType};
use crate::setup::{compatible, ComponentStateView, IndexDefView, RelationshipSetupStateView};

verus! {

/// For every pair of setup states, compatibility is exactly equality of
/// their key-field-name sequences in content and order, irrespective of
/// differing dependent-label sets or schema-object lists.
pub proof fn lemma_compatibility_is_key_field_equality(
    a: RelationshipSetupStateView,
    b: RelationshipSetupStateView,
    c: RelationshipSetupStateView,
)
    requires
        c.key_field_names == a.key_field_names,
    ensures
        compatible(a, b) == (a.key_field_names == b.key_field_names),
        compatible(c, b) == compatible(a, b),
{
}

/// The change classification over the four presence combinations of
/// (desired, existing): both present classify as no change or, when a data
/// clear is needed, as an update; desired only creates; existing only
/// deletes; neither is no change.
pub proof fn lemma_change_classification(desired_present: bool, existing_present: bool, clear: bool)
    ensures
        desired_present && existing_present && !clear ==> change_type_of(
            desired_present,
            existing_present,
            clear,
        ) == SetupChangeType::NoChange,
        desired_present && existing_present && clear ==> change_type_of(
            desired_present,
            existing_present,
            clear,
        ) == SetupChangeType::Update,
        desired_present && !existing_present ==> change_type_of(
            desired_present,
            existing_present,
            clear,
        ) == SetupChangeType::Create,
        !desired_present && existing_present ==> change_type_of(
            desired_present,
            existing_present,
            clear,
        ) == SetupChangeType::Delete,
        !desired_present && !existing_present ==> change_type_of(
            desired_present,
            existing_present,
            clear,
        ) == SetupChangeType::NoChange,
{
}

/// Re-running setup against an already-synchronized database yields zero
/// changes: when at least one version was observed and the desired state
/// is compatible with every one of them, no data clear is forced and the
/// classification is no change. (With nothing observed at all, the same
/// desired state classifies as a create.)
pub proof fn lemma_setup_idempotent(
    desired: RelationshipSetupStateView,
    versions: Seq<RelationshipSetupStateView>,
)
    requires
        forall|k: int| 0 <= k < versions.len() ==> compatible(desired, #[trigger] versions[k]),
    ensures
        !needs_clear_from(Some(desired), versions, 0),
        versions.len() > 0 ==> change_type_of(
            true,
            true,
            needs_clear_from(Some(desired), versions, 0),
        ) == SetupChangeType::NoChange,
        versions.len() == 0 ==> change_type_of(
            true,
            false,
            needs_clear_from(Some(desired), versions, 0),
        ) == SetupChangeType::Create,
{
    lemma_no_clear_from(desired, versions, 0);
}

proof fn lemma_no_clear_from(
    desired: RelationshipSetupStateView,
    versions: Seq<RelationshipSetupStateView>,
    k: int,
)
    requires
        forall|j: int| 0 <= j < versions.len() ==> compatible(desired, #[trigger] versions[j]),
    ensures
        !needs_clear_from(Some(desired), versions, k),
    decreases versions.len() - k,
{
    if 0 <= k < versions.len() {
        lemma_no_clear_from(desired, versions, k + 1);
    }
}

/// Component identity naming is a pure function of (kind, label,
/// field-name, metric): a key constraint's name ignores its field list,
/// and a vector index's name ignores its dimension, so identical inputs
/// always yield identical names.
pub proof fn lemma_identity_ignores_content(a: ComponentStateView, b: ComponentStateView)
    ensures
        (a.object_label == b.object_label && a.index_def is KeyConstraint && b.index_def
            is KeyConstraint) ==> component_key_of(a) == component_key_of(b),
        (a.object_label == b.object_label && (a.index_def matches IndexDefView::VectorIndex {
            field_name: fa,
            metric: ma,
            ..
        } && (b.index_def matches IndexDefView::VectorIndex { field_name: fb, metric: mb, .. }
            && fa == fb && ma == mb))) ==> component_key_of(a) == component_key_of(b),
{
}

/// When every target from `k` on has nonzero rank, so has every upsert
/// job of `order[k..]`.
proof fn lemma_upsert_jobs_nonzero(
    contexts: Seq<ExportContext>,
    mutations: Seq<TargetMutation>,
    order: Seq<usize>,
    k: int,
)
    requires
        forall|p: int|
            k <= p < order.len() ==> rank_of(contexts, mutations, (#[trigger] order[p]) as int)
                != 0,
    ensures
        forall|a: int|
            0 <= a < upsert_jobs(mutations, order, k).len() ==> rank_of(
                contexts,
                mutations,
                (#[trigger] upsert_jobs(mutations, order, k)[a]).mut_idx,
            ) != 0,
    decreases order.len() - k,
{
    if 0 <= k < order.len() {
        let head_len = mutations[order[k] as int].upserts@.len() as int;
        lemma_upsert_jobs_nonzero(contexts, mutations, order, k + 1);
        assert forall|a: int| 0 <= a < upsert_jobs(mutations, order, k).len() implies rank_of(
            contexts,
            mutations,
            (#[trigger] upsert_jobs(mutations, order, k)[a]).mut_idx,
        ) != 0 by {
            let jobs = upsert_jobs(mutations, order, k);
            if a < head_len {
                assert(jobs[a].mut_idx == order[k] as int);
            } else {
                assert(jobs[a] == upsert_jobs(mutations, order, k + 1)[a - head_len]);
            }
        }
    }
}

/// In the upsert jobs of a zero-first order, a nonzero-rank job is never
/// followed by a zero-rank job.
proof fn lemma_upsert_jobs_zero_first(
    contexts: Seq<ExportContext>,
    mutations: Seq<TargetMutation>,
    order: Seq<usize>,
    k: int,
)
    requires
        forall|p: int, q: int|
            k <= p < q < order.len() ==> rank_of(contexts, mutations, (#[trigger] order[p]) as int)
                == 0 || rank_of(contexts, mutations, (#[trigger] order[q]) as int) != 0,
    ensures
        forall|a: int, b: int|
            0 <= a < b < upsert_jobs(mutations, order, k).len() ==> rank_of(
                contexts,
                mutations,
                (#[trigger] upsert_jobs(mutations, order, k)[a]).mut_idx,
            ) == 0 || rank_of(
                contexts,
                mutations,
                (#[trigger] upsert_jobs(mutations, order, k)[b]).mut_idx,
            ) != 0,
    decreases order.len() - k,
{
    if 0 <= k < order.len() {
        let head_len = mutations[order[k] as int].upserts@.len() as int;
        lemma_upsert_jobs_zero_first(contexts, mutations, order, k + 1);
        if rank_of(contexts, mutations, order[k] as int) != 0 {
            lemma_upsert_jobs_nonzero(contexts, mutations, order, k + 1);
        }
        assert forall|a: int, b: int|
            0 <= a < b < upsert_jobs(mutations, order, k).len() implies rank_of(
            contexts,
            mutations,
            (#[trigger] upsert_jobs(mutations, order, k)[a]).mut_idx,
        ) == 0 || rank_of(
            contexts,
            mutations,
            (#[trigger] upsert_jobs(mutations, order, k)[b]).mut_idx,
        ) != 0 by {
            let jobs = upsert_jobs(mutations, order, k);
            let rest = upsert_jobs(mutations, order, k + 1);
            if b < head_len {
                assert(jobs[a].mut_idx == order[k] as int);
                assert(jobs[b].mut_idx == order[k] as int);
            } else if a < head_len {
                assert(jobs[a].mut_idx == order[k] as int);
                assert(jobs[b] == rest[b - head_len]);
            } else {
                assert(jobs[a] == rest[a - head_len]);
                assert(jobs[b] == rest[b - head_len]);
            }
        }
    }
}

/// When every target up to `k` has nonzero rank, so has every delete job
/// of `order[..k+1]` walked backwards.
proof fn lemma_delete_jobs_nonzero(
    contexts: Seq<ExportContext>,
    mutations: Seq<TargetMutation>,
    order: Seq<usize>,
    k: int,
)
    requires
        k < order.len(),
        forall|p: int|
            0 <= p <= k ==> rank_of(contexts, mutations, (#[trigger] order[p]) as int) != 0,
    ensures
        forall|a: int|
            0 <= a < delete_jobs_down(mutations, order, k).len() ==> rank_of(
                contexts,
                mutations,
                (#[trigger] delete_jobs_down(mutations, order, k)[a]).mut_idx,
            ) != 0,
    decreases k + 1,
{
    if 0 <= k {
        let head_len = mutations[order[k] as int].delete_keys@.len() as int;
        lemma_delete_jobs_nonzero(contexts, mutations, order, k - 1);
        assert forall|a: int| 0 <= a < delete_jobs_down(mutations, order, k).len() implies rank_of(
            contexts,
            mutations,
            (#[trigger] delete_jobs_down(mutations, order, k)[a]).mut_idx,
        ) != 0 by {
            let jobs = delete_jobs_down(mutations, order, k);
            if a < head_len {
                assert(jobs[a].mut_idx == order[k] as int);
            } else {
                assert(jobs[a] == delete_jobs_down(mutations, order, k - 1)[a - head_len]);
            }
        }
    }
}

/// In the delete jobs of a zero-first order walked backwards, a zero-rank
/// job is never followed by a nonzero-rank job.
proof fn lemma_delete_jobs_nonzero_first(
    contexts: Seq<ExportContext>,
    mutations: Seq<TargetMutation>,
    order: Seq<usize>,
    k: int,
)
    requires
        k < order.len(),
        forall|p: int, q: int|
            0 <= p < q < order.len() ==> rank_of(contexts, mutations, (#[trigger] order[p]) as int)
                == 0 || rank_of(contexts, mutations, (#[trigger] order[q]) as int) != 0,
    ensures
        forall|a: int, b: int|
            0 <= a < b < delete_jobs_down(mutations, order, k).len() ==> rank_of(
                contexts,
                mutations,
                (#[trigger] delete_jobs_down(mutations, order, k)[a]).mut_idx,
            ) != 0 || rank_of(
                contexts,
                mutations,
                (#[trigger] delete_jobs_down(mutations, order, k)[b]).mut_idx,
            ) == 0,
    decreases k + 1,
{
    if 0 <= k {
        let head_len = mutations[order[k] as int].delete_keys@.len() as int;
        lemma_delete_jobs_nonzero_first(contexts, mutations, order, k - 1);
        if k >= 1 && rank_of(contexts, mutations, order[k] as int) == 0 {
        }
        assert forall|a: int, b: int|
            0 <= a < b < delete_jobs_down(mutations, order, k).len() implies rank_of(
            contexts,
            mutations,
            (#[trigger] delete_jobs_down(mutations, order, k)[a]).mut_idx,
        ) != 0 || rank_of(
            contexts,
            mutations,
            (#[trigger] delete_jobs_down(mutations, order, k)[b]).mut_idx,
        ) == 0 by {
            let jobs = delete_jobs_down(mutations, order, k);
            let rest = delete_jobs_down(mutations, order, k - 1);
            if b < head_len {
                assert(jobs[a].mut_idx == order[k] as int);
                assert(jobs[b].mut_idx == order[k] as int);
            } else if a < head_len {
                assert(jobs[a].mut_idx == order[k] as int);
                assert(jobs[b] == rest[b - head_len]);
                if rank_of(contexts, mutations, order[k] as int) == 0 {
                    lemma_delete_jobs_zero_tail(contexts, mutations, order, k - 1, k);
                }
            } else {
                assert(jobs[a] == rest[a - head_len]);
                assert(jobs[b] == rest[b - head_len]);
            }
        }
    }
}

/// When the target at `kz` has rank zero in a zero-first order, every
/// earlier target and hence every delete job of `order[..k+1]` with
/// `k < kz` has rank zero.
proof fn lemma_delete_jobs_zero_tail(
    contexts: Seq<ExportContext>,
    mutations: Seq<TargetMutation>,
    order: Seq<usize>,
    k: int,
    kz: int,
)
    requires
        k < kz < order.len(),
        rank_of(contexts, mutations, order[kz] as int) == 0,
        forall|p: int, q: int|
            0 <= p < q < order.len() ==> rank_of(contexts, mutations, (#[trigger] order[p]) as int)
                == 0 || rank_of(contexts, mutations, (#[trigger] order[q]) as int) != 0,
    ensures
        forall|a: int|
            0 <= a < delete_jobs_down(mutations, order, k).len() ==> rank_of(
                contexts,
                mutations,
                (#[trigger] delete_jobs_down(mutations, order, k)[a]).mut_idx,
            ) == 0,
    decreases k + 1,
{
    if 0 <= k {
        let head_len = mutations[order[k] as int].delete_keys@.len() as int;
        lemma_delete_jobs_zero_tail(contexts, mutations, order, k - 1, kz);
        assert forall|a: int| 0 <= a < delete_jobs_down(mutations, order, k).len() implies rank_of(
            contexts,
            mutations,
            (#[trigger] delete_jobs_down(mutations, order, k)[a]).mut_idx,
        ) == 0 by {
            let jobs = delete_jobs_down(mutations, order, k);
            if a < head_len {
                assert(jobs[a].mut_idx == order[k] as int);
            } else {
                assert(jobs[a] == delete_jobs_down(mutations, order, k - 1)[a - head_len]);
            }
        }
    }
}

/// A rank-sorted group is zero-first: a nonzero-rank target is never
/// followed by a zero-rank one.
proof fn lemma_rank_sorted_zero_first(
    contexts: Seq<ExportContext>,
    mutations: Seq<TargetMutation>,
    g: Seq<usize>,
)
    ensures
        ({
            let order = rank_sorted(contexts, mutations, g);
            forall|p: int, q: int|
                0 <= p < q < order.len() ==> rank_of(
                    contexts,
                    mutations,
                    (#[trigger] order[p]) as int,
                ) == 0 || rank_of(contexts, mutations, (#[trigger] order[q]) as int) != 0
        }),
{
    broadcast use vstd::seq_lib::group_filter_ensures;

    let pred0 = |i: usize| rank_of(contexts, mutations, i as int) == 0;
    let pred1 = |i: usize| rank_of(contexts, mutations, i as int) != 0;
    let z = g.filter(pred0);
    let o = g.filter(pred1);
    let order = rank_sorted(contexts, mutations, g);
    assert forall|p: int, q: int| 0 <= p < q < order.len() implies rank_of(
        contexts,
        mutations,
        (#[trigger] order[p]) as int,
    ) == 0 || rank_of(contexts, mutations, (#[trigger] order[q]) as int) != 0 by {
        if p < z.len() {
            assert(order[p] == z[p]);
            assert(pred0(z[p]));
        } else {
            assert(order[q] == o[q - z.len()]);
            assert(pred1(o[q - z.len()]));
        }
    }
}

/// Every upsert job is an upsert.
proof fn lemma_jobs_shape(mutations: Seq<TargetMutation>, order: Seq<usize>, k: int)
    ensures
        forall|a: int|
            0 <= a < upsert_jobs(mutations, order, k).len() ==> !(#[trigger] upsert_jobs(
                mutations,
                order,
                k,
            )[a]).is_delete,
    decreases order.len() - k,
{
    if 0 <= k < order.len() {
        lemma_jobs_shape(mutations, order, k + 1);
        let head_u = mutations[order[k] as int].upserts@.len() as int;
        assert forall|a: int| 0 <= a < upsert_jobs(mutations, order, k).len() implies !(
        #[trigger] upsert_jobs(mutations, order, k)[a]).is_delete by {
            if a >= head_u {
                assert(upsert_jobs(mutations, order, k)[a] == upsert_jobs(mutations, order, k + 1)[
                    a - head_u]);
            }
        }
    }
}

proof fn lemma_jobs_shape_down(mutations: Seq<TargetMutation>, order: Seq<usize>, k: int)
    ensures
        forall|a: int|
            0 <= a < delete_jobs_down(mutations, order, k).len() ==> (#[trigger] delete_jobs_down(
                mutations,
                order,
                k,
            )[a]).is_delete,
    decreases k + 1,
{
    if 0 <= k < order.len() {
        lemma_jobs_shape_down(mutations, order, k - 1);
        let head_d = mutations[order[k] as int].delete_keys@.len() as int;
        assert forall|a: int| 0 <= a < delete_jobs_down(mutations, order, k).len() implies (
        #[trigger] delete_jobs_down(mutations, order, k)[a]).is_delete by {
            if a >= head_d {
                assert(delete_jobs_down(mutations, order, k)[a] == delete_jobs_down(
                    mutations,
                    order,
                    k - 1,
                )[a - head_d]);
            }
        }
    }
}

/// One flush's query order, for creation ranks limited to 0 (nodes) and
/// 1 (relationships): the upsert region holds exactly the upsert jobs with
/// creation ranks never decreasing, so every node-target upsert stands
/// before every relationship-target upsert; the delete region holds
/// exactly the delete jobs with ranks never increasing, so every
/// relationship-target delete stands before every node-target delete.
pub proof fn lemma_flush_query_order(
    contexts: Seq<ExportContext>,
    mutations: Seq<TargetMutation>,
    g: Seq<usize>,
)
    requires
        forall|i: int|
            0 <= i < g.len() ==> rank_of(contexts, mutations, (#[trigger] g[i]) as int) <= 1,
    ensures
        ({
            let order = rank_sorted(contexts, mutations, g);
            let jobs = group_jobs(mutations, order);
            let nu = upsert_jobs(mutations, order, 0).len() as int;
            &&& forall|a: int| 0 <= a < nu ==> !(#[trigger] jobs[a]).is_delete
            &&& forall|a: int| nu <= a < jobs.len() ==> (#[trigger] jobs[a]).is_delete
            &&& forall|a: int, b: int|
                0 <= a < b < nu ==> rank_of(contexts, mutations, (#[trigger] jobs[a]).mut_idx)
                    == 0 || rank_of(contexts, mutations, (#[trigger] jobs[b]).mut_idx) != 0
            &&& forall|a: int, b: int|
                nu <= a < b < jobs.len() ==> rank_of(
                    contexts,
                    mutations,
                    (#[trigger] jobs[a]).mut_idx,
                ) != 0 || rank_of(contexts, mutations, (#[trigger] jobs[b]).mut_idx) == 0
        }),
{
    let order = rank_sorted(contexts, mutations, g);
    let jobs = group_jobs(mutations, order);
    let us = upsert_jobs(mutations, order, 0);
    let ds = delete_jobs_down(mutations, order, order.len() - 1);
    let nu = us.len() as int;
    lemma_rank_sorted_zero_first(contexts, mutations, g);
    lemma_upsert_jobs_zero_first(contexts, mutations, order, 0);
    if order.len() > 0 {
        lemma_delete_jobs_nonzero_first(contexts, mutations, order, order.len() - 1);
    }
    lemma_jobs_shape(mutations, order, 0);
    lemma_jobs_shape_down(mutations, order, order.len() - 1);
    assert forall|a: int| 0 <= a < nu implies !(#[trigger] jobs[a]).is_delete by {
        assert(jobs[a] == us[a]);
    }
    assert forall|a: int| nu <= a < jobs.len() implies (#[trigger] jobs[a]).is_delete by {
        assert(jobs[a] == ds[a - nu]);
    }
    assert forall|a: int, b: int| 0 <= a < b < nu implies rank_of(
        contexts,
        mutations,
        (#[trigger] jobs[a]).mut_idx,
    ) == 0 || rank_of(contexts, mutations, (#[trigger] jobs[b]).mut_idx) != 0 by {
        assert(jobs[a] == us[a]);
        assert(jobs[b] == us[b]);
    }
    assert forall|a: int, b: int| nu <= a < b < jobs.len() implies rank_of(
        contexts,
        mutations,
        (#[trigger] jobs[a]).mut_idx,
    ) != 0 || rank_of(contexts, mutations, (#[trigger] jobs[b]).mut_idx) == 0 by {
        assert(jobs[a] == ds[a - nu]);
        assert(jobs[b] == ds[b - nu]);
    }
}

/// In the upsert region, every node-target query stands before every
/// relationship-target query.
pub proof fn lemma_nodes_before_relationships(
    contexts: Seq<ExportContext>,
    mutations: Seq<TargetMutation>,
    g: Seq<usize>,
    a: int,
    b: int,
)
    requires
        forall|i: int|
            0 <= i < g.len() ==> rank_of(contexts, mutations, (#[trigger] g[i]) as int) <= 1,
        ({
            let order = rank_sorted(contexts, mutations, g);
            let jobs = group_jobs(mutations, order);
            let nu = upsert_jobs(mutations, order, 0).len() as int;
            0 <= a < nu && 0 <= b < nu && rank_of(contexts, mutations, jobs[a].mut_idx) == 1
                && rank_of(contexts, mutations, jobs[b].mut_idx) == 0
        }),
    ensures
        b < a,
{
    lemma_flush_query_order(contexts, mutations, g);
}

/// In the delete region, every relationship-target query stands before
/// every node-target query.
pub proof fn lemma_relationship_deletes_first(
    contexts: Seq<ExportContext>,
    mutations: Seq<TargetMutation>,
    g: Seq<usize>,
    a: int,
    b: int,
)
    requires
        forall|i: int|
            0 <= i < g.len() ==> rank_of(contexts, mutations, (#[trigger] g[i]) as int) <= 1,
        ({
            let order = rank_sorted(contexts, mutations, g);
            let jobs = group_jobs(mutations, order);
            let nu = upsert_jobs(mutations, order, 0).len() as int;
            nu <= a < jobs.len() && nu <= b < jobs.len() && rank_of(
                contexts,
                mutations,
                jobs[a].mut_idx,
            ) == 0 && rank_of(contexts, mutations, jobs[b].mut_idx) == 1
        }),
    ensures
        b < a,
{
    lemma_flush_query_order(contexts, mutations, g);
}

} // verus!
