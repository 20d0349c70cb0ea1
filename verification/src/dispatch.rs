//! Planning one dispatcher invocation: batched mutations are grouped by
//! connection, each group is ordered by creation rank, and the group's full
//! query list is built — all upserts across targets in rank order, then all
//! deletes across targets in reverse rank order. Executing a group's list
//! as one transaction happens outside the library.

use vstd::prelude::*;

use crate::context::{
    delete_encodable, delete_params_ok, upsert_encodable, upsert_params_ok, ExportContext,
    ExportTargetUpsertEntry,
};
use crate::encode::EncodeError;
use crate::mapping::AuthEntryReference;
use crate::values::KeyValue;
use crate::wire::Query;

verus! {

/// One target's batched mutation: which export context it belongs to, the
/// rows to upsert, and the keys to delete.
pub struct TargetMutation {
    pub context_idx: usize,
    pub upserts: Vec<ExportTargetUpsertEntry>,
    pub delete_keys: Vec<KeyValue>,
}

/// The planned queries of one connection: everything this invocation runs
/// against it, in order, inside one transaction.
pub struct ConnectionPlan {
    pub connection_ref: AuthEntryReference,
    pub queries: Vec<Query>,
}

/// The connection a mutation addresses, through its context.
pub open spec fn conn_of(
    contexts: Seq<ExportContext>,
    mutations: Seq<TargetMutation>,
    i: int,
) -> Seq<char> {
    contexts[mutations[i].context_idx as int].connection_ref.key@
}

/// The creation rank of a mutation's target.
pub open spec fn rank_of(
    contexts: Seq<ExportContext>,
    mutations: Seq<TargetMutation>,
    i: int,
) -> u8 {
    contexts[mutations[i].context_idx as int].create_order
}

/// Whether every context is well formed with its creation rank 0 or 1 and
/// pre-delete disabled, and every mutation points at a context and carries
/// rows of that context's arity.
pub open spec fn batch_wf(contexts: Seq<ExportContext>, mutations: Seq<TargetMutation>) -> bool {
    &&& forall|c: int| 0 <= c < contexts.len() ==> (#[trigger] contexts[c]).wf()
    &&& forall|c: int|
        0 <= c < contexts.len() ==> (#[trigger] contexts[c]).delete_before_upsert == false
    &&& forall|i: int|
        0 <= i < mutations.len() ==> (#[trigger] mutations[i]).context_idx < contexts.len()
    &&& forall|i: int, u: int|
        0 <= i < mutations.len() && 0 <= u < mutations[i].upserts@.len() ==> (
        #[trigger] mutations[i].upserts@[u]).value.fields@.len()
            == contexts[mutations[i].context_idx as int].value_fields_schema@.len()
}

/// Whether mutation `i` appears in some group.
pub open spec fn covered(mutations: Seq<TargetMutation>, groups: Seq<Vec<usize>>, i: int) -> bool {
    exists|g: int, a: int|
        0 <= g < groups.len() && 0 <= a < groups[g]@.len() && ((#[trigger] groups[g]@[a]) as int)
            == i
}

/// A valid grouping of the batch by connection: groups are nonempty, hold
/// indices in ascending batch order, agree on their connection, differ
/// between groups, cover every mutation, and stand in first-appearance
/// order.
pub open spec fn grouping_ok(
    contexts: Seq<ExportContext>,
    mutations: Seq<TargetMutation>,
    groups: Seq<Vec<usize>>,
) -> bool {
    &&& forall|g: int| 0 <= g < groups.len() ==> (#[trigger] groups[g])@.len() > 0
    &&& forall|g: int, a: int|
        0 <= g < groups.len() && 0 <= a < groups[g]@.len() ==> ((#[trigger] groups[g]@[a]) as int)
            < mutations.len()
    &&& forall|g: int, a: int|
        0 <= g < groups.len() && 0 <= a < groups[g]@.len() ==> conn_of(
            contexts,
            mutations,
            #[trigger] groups[g]@[a] as int,
        ) == conn_of(contexts, mutations, groups[g]@[0] as int)
    &&& forall|g1: int, g2: int|
        0 <= g1 < groups.len() && 0 <= g2 < groups.len() && g1 != g2 ==> conn_of(
            contexts,
            mutations,
            (#[trigger] groups[g1])@[0] as int,
        ) != conn_of(contexts, mutations, (#[trigger] groups[g2])@[0] as int)
    &&& forall|i: int| 0 <= i < mutations.len() ==> #[trigger] covered(mutations, groups, i)
    &&& forall|g: int, a: int, b: int|
        0 <= g < groups.len() && 0 <= a < b < groups[g]@.len() ==> (#[trigger] groups[g]@[a]) < (
        #[trigger] groups[g]@[b])
    &&& forall|g1: int, g2: int|
        0 <= g1 < g2 < groups.len() ==> (#[trigger] groups[g1])@[0] < (#[trigger] groups[g2])@[0]
}

/// One group ordered by creation rank: its rank-0 targets in batch order,
/// then its rank-1 targets in batch order — a stable sort for the two
/// ranks.
pub open spec fn rank_sorted(
    contexts: Seq<ExportContext>,
    mutations: Seq<TargetMutation>,
    g: Seq<usize>,
) -> Seq<usize> {
    g.filter(|i: usize| rank_of(contexts, mutations, i as int) == 0) + g.filter(
        |i: usize| rank_of(contexts, mutations, i as int) != 0,
    )
}

/// One planned query, identified by the mutation it came from, the upsert
/// or delete position inside that mutation, and which of the two it is.
pub struct PlanJob {
    pub mut_idx: int,
    pub item_idx: int,
    pub is_delete: bool,
}

/// The upsert jobs of the ordered targets `order[k..]`: each target's
/// upserts in row order, targets in rank order.
pub open spec fn upsert_jobs(mutations: Seq<TargetMutation>, order: Seq<usize>, k: int) -> Seq<
    PlanJob,
>
    decreases order.len() - k,
{
    if k < 0 || k >= order.len() {
        Seq::empty()
    } else {
        Seq::new(
            mutations[order[k] as int].upserts@.len(),
            |u: int| PlanJob { mut_idx: order[k] as int, item_idx: u, is_delete: false },
        ) + upsert_jobs(mutations, order, k + 1)
    }
}

/// The delete jobs of the ordered targets `order[..k+1]` walked backwards:
/// each target's delete keys in order, targets in reverse rank order.
pub open spec fn delete_jobs_down(mutations: Seq<TargetMutation>, order: Seq<usize>, k: int) -> Seq<
    PlanJob,
>
    decreases k + 1,
{
    if k < 0 || k >= order.len() {
        Seq::empty()
    } else {
        Seq::new(
            mutations[order[k] as int].delete_keys@.len(),
            |d: int| PlanJob { mut_idx: order[k] as int, item_idx: d, is_delete: true },
        ) + delete_jobs_down(mutations, order, k - 1)
    }
}

/// The full job list of one ordered group: all upserts in rank order, then
/// all deletes in reverse rank order.
pub open spec fn group_jobs(mutations: Seq<TargetMutation>, order: Seq<usize>) -> Seq<PlanJob> {
    upsert_jobs(mutations, order, 0) + delete_jobs_down(mutations, order, order.len() - 1)
}

/// Whether one planned query realizes one job: the right text of the job's
/// context, with the parameters bound from the job's row or key.
pub open spec fn job_ok(
    contexts: Seq<ExportContext>,
    mutations: Seq<TargetMutation>,
    j: PlanJob,
    q: Query,
) -> bool {
    let m = mutations[j.mut_idx];
    let ctx = contexts[m.context_idx as int];
    if j.is_delete {
        q.text@ == ctx.delete_cypher@ && delete_params_ok(
            ctx,
            m.delete_keys@[j.item_idx],
            q.params@,
        )
    } else {
        q.text@ == ctx.insert_cypher@ && upsert_params_ok(
            ctx,
            m.upserts@[j.item_idx].key,
            m.upserts@[j.item_idx].value.fields@,
            q.params@,
        )
    }
}

/// Whether one job's row or key encodes against its context.
pub open spec fn job_encodable(
    contexts: Seq<ExportContext>,
    mutations: Seq<TargetMutation>,
    j: PlanJob,
) -> bool {
    let m = mutations[j.mut_idx];
    let ctx = contexts[m.context_idx as int];
    if j.is_delete {
        delete_encodable(ctx, m.delete_keys@[j.item_idx])
    } else {
        upsert_encodable(ctx, m.upserts@[j.item_idx].key, m.upserts@[j.item_idx].value.fields@)
    }
}

/// Whether every job of an ordered group encodes.
pub open spec fn group_encodable(
    contexts: Seq<ExportContext>,
    mutations: Seq<TargetMutation>,
    order: Seq<usize>,
) -> bool {
    forall|i: int|
        0 <= i < group_jobs(mutations, order).len() ==> job_encodable(
            contexts,
            mutations,
            #[trigger] group_jobs(mutations, order)[i],
        )
}

/// Stable two-rank ordering of one group: rank-0 targets first, in batch
/// order, then the rest.
#[verifier::loop_isolation(false)]
pub fn sort_group_by_rank(
    contexts: &Vec<ExportContext>,
    mutations: &Vec<TargetMutation>,
    g: &Vec<usize>,
) -> (r: Vec<usize>)
    requires
        forall|a: int| 0 <= a < g@.len() ==> ((#[trigger] g@[a]) as int) < mutations@.len(),
        forall|i: int|
            0 <= i < mutations@.len() ==> (#[trigger] mutations@[i]).context_idx < contexts@.len(),
    ensures
        r@ == rank_sorted(contexts@, mutations@, g@),
        forall|a: int|
            0 <= a < r@.len() ==> ((#[trigger] r@[a]) as int) < mutations@.len(),
{
    let mut zeros: Vec<usize> = Vec::new();
    let mut ones: Vec<usize> = Vec::new();
    let mut a: usize = 0;
    while a < g.len()
        invariant
            a <= g@.len(),
            zeros@ == g@.take(a as int).filter(
                |i: usize| rank_of(contexts@, mutations@, i as int) == 0,
            ),
            ones@ == g@.take(a as int).filter(
                |i: usize| rank_of(contexts@, mutations@, i as int) != 0,
            ),
            forall|x: int|
                0 <= x < zeros@.len() ==> ((#[trigger] zeros@[x]) as int) < mutations@.len(),
            forall|x: int|
                0 <= x < ones@.len() ==> ((#[trigger] ones@[x]) as int) < mutations@.len(),
        decreases g@.len() - a,
    {
        let i = g[a];
        proof {
            let pred0 = |i: usize| rank_of(contexts@, mutations@, i as int) == 0;
            let pred1 = |i: usize| rank_of(contexts@, mutations@, i as int) != 0;
            assert(g@.take(a + 1).drop_last() =~= g@.take(a as int));
            assert(g@.take(a + 1).last() == g@[a as int]);
            reveal(Seq::filter);
            assert(g@.take(a + 1).filter(pred0) == (if pred0(g@[a as int]) {
                g@.take(a as int).filter(pred0).push(g@[a as int])
            } else {
                g@.take(a as int).filter(pred0)
            }));
            assert(g@.take(a + 1).filter(pred1) == (if pred1(g@[a as int]) {
                g@.take(a as int).filter(pred1).push(g@[a as int])
            } else {
                g@.take(a as int).filter(pred1)
            }));
        }
        if contexts[mutations[i].context_idx].create_order == 0 {
            zeros.push(i);
        } else {
            ones.push(i);
        }
        a = a + 1;
    }
    proof {
        assert(g@.take(g@.len() as int) =~= g@);
    }
    let ghost zs = zeros@;
    let ghost os = ones@;
    let mut out = zeros;
    out.append(&mut ones);
    proof {
        assert(out@ == zs + os);
        assert forall|a: int| 0 <= a < out@.len() implies ((#[trigger] out@[a]) as int)
            < mutations@.len() by {
            if a < zs.len() {
                assert(out@[a] == zs[a]);
            } else {
                assert(out@[a] == os[a - zs.len()]);
            }
        }
    }
    out
}

/// Builds one ordered group's full query list: every target's upserts in
/// rank order, then every target's deletes in reverse rank order; each
/// query is exactly the job's bound query. Fails exactly when some row or
/// key does not encode.
#[verifier::loop_isolation(false)]
#[verifier::rlimit(100)]
pub fn build_group_queries(
    contexts: &Vec<ExportContext>,
    mutations: &Vec<TargetMutation>,
    order: &Vec<usize>,
) -> (r: Result<Vec<Query>, EncodeError>)
    requires
        batch_wf(contexts@, mutations@),
        forall|a: int| 0 <= a < order@.len() ==> ((#[trigger] order@[a]) as int) < mutations@.len(),
    ensures
        r is Ok <==> group_encodable(contexts@, mutations@, order@),
        r is Ok ==> r->Ok_0@.len() == group_jobs(mutations@, order@).len() && (forall|i: int|
            0 <= i < r->Ok_0@.len() ==> job_ok(
                contexts@,
                mutations@,
                group_jobs(mutations@, order@)[i],
                #[trigger] r->Ok_0@[i],
            )),
{
    let ghost jobs = group_jobs(mutations@, order@);
    let mut queries: Vec<Query> = Vec::new();
    let ghost done: Seq<PlanJob> = Seq::empty();
    let mut k: usize = 0;
    while k < order.len()
        invariant
            k <= order@.len(),
            queries@.len() == upsert_jobs(mutations@, order@, 0).len() - upsert_jobs(
                mutations@,
                order@,
                k as int,
            ).len(),
            upsert_jobs(mutations@, order@, 0) == upsert_jobs(mutations@, order@, 0).take(
                queries@.len() as int,
            ) + upsert_jobs(mutations@, order@, k as int),
            forall|i: int|
                0 <= i < queries@.len() ==> job_ok(
                    contexts@,
                    mutations@,
                    upsert_jobs(mutations@, order@, 0)[i],
                    #[trigger] queries@[i],
                ),
            forall|i: int|
                0 <= i < queries@.len() ==> job_encodable(
                    contexts@,
                    mutations@,
                    upsert_jobs(mutations@, order@, 0)[i],
                ),
        decreases order@.len() - k,
    {
        let idx = order[k];
        let m = &mutations[idx];
        let ctx = &contexts[m.context_idx];
        let ghost entry = Seq::new(
            mutations@[idx as int].upserts@.len(),
            |u: int| PlanJob { mut_idx: idx as int, item_idx: u, is_delete: false },
        );
        proof {
            assert(upsert_jobs(mutations@, order@, k as int) == entry + upsert_jobs(
                mutations@,
                order@,
                k + 1,
            ));
        }
        let mut u: usize = 0;
        while u < m.upserts.len()
            invariant
                u <= m.upserts@.len(),
                queries@.len() == upsert_jobs(mutations@, order@, 0).len() - upsert_jobs(
                    mutations@,
                    order@,
                    k as int,
                ).len() + u as int,
                upsert_jobs(mutations@, order@, 0) == upsert_jobs(mutations@, order@, 0).take(
                    queries@.len() as int,
                ) + entry.skip(u as int) + upsert_jobs(mutations@, order@, k + 1),
                forall|i: int|
                    0 <= i < queries@.len() ==> job_ok(
                        contexts@,
                        mutations@,
                        upsert_jobs(mutations@, order@, 0)[i],
                        #[trigger] queries@[i],
                    ),
                forall|i: int|
                    0 <= i < queries@.len() ==> job_encodable(
                        contexts@,
                        mutations@,
                        upsert_jobs(mutations@, order@, 0)[i],
                    ),
            decreases m.upserts@.len() - u,
        {
            let ghost pre_len = queries@.len() as int;
            match ctx.add_upsert_queries(&m.upserts[u], &mut queries) {
                Ok(_) => {},
                Err(e) => {
                    proof {
                        let bad = entry[u as int];
                        let full = upsert_jobs(mutations@, order@, 0);
                        assert(full[pre_len] == bad);
                        assert(!job_encodable(contexts@, mutations@, bad));
                        assert(!group_encodable(contexts@, mutations@, order@)) by {
                            assert(group_jobs(mutations@, order@)[pre_len] == bad);
                        }
                    }
                    return Err(e);
                },
            }
            proof {
                let full = upsert_jobs(mutations@, order@, 0);
                assert(entry.skip(u as int) =~= seq![entry[u as int]] + entry.skip(u + 1));
                assert(full[pre_len] == entry[u as int]);
                assert(full.take(pre_len + 1) =~= full.take(pre_len).push(entry[u as int]));
                assert(full == full.take(queries@.len() as int) + entry.skip(u + 1) + upsert_jobs(
                    mutations@,
                    order@,
                    k + 1,
                )) by {
                    assert(full =~= full.take(pre_len).push(entry[u as int]) + entry.skip(u + 1)
                        + upsert_jobs(mutations@, order@, k + 1));
                }
            }
            u = u + 1;
        }
        proof {
            assert(entry.skip(entry.len() as int) =~= Seq::<PlanJob>::empty());
            assert(upsert_jobs(mutations@, order@, 0).take(queries@.len() as int) + entry.skip(
                entry.len() as int,
            ) + upsert_jobs(mutations@, order@, k + 1) =~= upsert_jobs(
                mutations@,
                order@,
                0,
            ).take(queries@.len() as int) + upsert_jobs(mutations@, order@, k + 1));
        }
        k = k + 1;
    }
    proof {
        assert(upsert_jobs(mutations@, order@, order@.len() as int) =~= Seq::<PlanJob>::empty());
        assert(upsert_jobs(mutations@, order@, 0).take(queries@.len() as int) =~= upsert_jobs(
            mutations@,
            order@,
            0,
        ));
    }
    let ghost nu = queries@.len() as int;
    let mut kk: usize = order.len();
    while kk > 0
        invariant
            kk <= order@.len(),
            queries@.len() == nu + delete_jobs_down(mutations@, order@, order@.len() - 1).len()
                - delete_jobs_down(mutations@, order@, kk - 1).len(),
            delete_jobs_down(mutations@, order@, order@.len() - 1) == delete_jobs_down(
                mutations@,
                order@,
                order@.len() - 1,
            ).take(queries@.len() - nu) + delete_jobs_down(mutations@, order@, kk - 1),
            forall|i: int|
                0 <= i < nu ==> job_ok(
                    contexts@,
                    mutations@,
                    upsert_jobs(mutations@, order@, 0)[i],
                    #[trigger] queries@[i],
                ),
            forall|i: int|
                nu <= i < queries@.len() ==> job_ok(
                    contexts@,
                    mutations@,
                    delete_jobs_down(mutations@, order@, order@.len() - 1)[i - nu],
                    #[trigger] queries@[i],
                ),
            forall|i: int|
                0 <= i < queries@.len() ==> job_encodable(
                    contexts@,
                    mutations@,
                    group_jobs(mutations@, order@)[i],
                ),
            upsert_jobs(mutations@, order@, 0).len() == nu,
        decreases kk,
    {
        let kcur = kk - 1;
        let idx = order[kcur];
        let m = &mutations[idx];
        let ctx = &contexts[m.context_idx];
        let ghost entry = Seq::new(
            mutations@[idx as int].delete_keys@.len(),
            |d: int| PlanJob { mut_idx: idx as int, item_idx: d, is_delete: true },
        );
        proof {
            assert(delete_jobs_down(mutations@, order@, kcur as int) == entry + delete_jobs_down(
                mutations@,
                order@,
                kcur - 1,
            ));
        }
        let mut d: usize = 0;
        while d < m.delete_keys.len()
            invariant
                d <= m.delete_keys@.len(),
                kk >= 1,
                kcur == kk - 1,
                queries@.len() == nu + delete_jobs_down(mutations@, order@, order@.len() - 1).len()
                    - delete_jobs_down(mutations@, order@, kcur as int).len() + d as int,
                delete_jobs_down(mutations@, order@, order@.len() - 1) == delete_jobs_down(
                    mutations@,
                    order@,
                    order@.len() - 1,
                ).take(queries@.len() - nu) + entry.skip(d as int) + delete_jobs_down(
                    mutations@,
                    order@,
                    kcur - 1,
                ),
                forall|i: int|
                    0 <= i < nu ==> job_ok(
                        contexts@,
                        mutations@,
                        upsert_jobs(mutations@, order@, 0)[i],
                        #[trigger] queries@[i],
                    ),
                forall|i: int|
                    nu <= i < queries@.len() ==> job_ok(
                        contexts@,
                        mutations@,
                        delete_jobs_down(mutations@, order@, order@.len() - 1)[i - nu],
                        #[trigger] queries@[i],
                    ),
                forall|i: int|
                    0 <= i < queries@.len() ==> job_encodable(
                        contexts@,
                        mutations@,
                        group_jobs(mutations@, order@)[i],
                    ),
            decreases m.delete_keys@.len() - d,
        {
            let ghost pre_len = queries@.len() as int;
            match ctx.add_delete_queries(&m.delete_keys[d], &mut queries) {
                Ok(_) => {},
                Err(e) => {
                    proof {
                        let bad = entry[d as int];
                        let dj = delete_jobs_down(mutations@, order@, order@.len() - 1);
                        assert(dj[pre_len - nu] == bad);
                        assert(!job_encodable(contexts@, mutations@, bad));
                        assert(!group_encodable(contexts@, mutations@, order@)) by {
                            assert(group_jobs(mutations@, order@)[pre_len] == bad);
                        }
                    }
                    return Err(e);
                },
            }
            proof {
                let dj = delete_jobs_down(mutations@, order@, order@.len() - 1);
                assert(entry.skip(d as int) =~= seq![entry[d as int]] + entry.skip(d + 1));
                assert(dj[pre_len - nu] == entry[d as int]);
                assert(group_jobs(mutations@, order@)[pre_len] == entry[d as int]);
                assert(dj.take(pre_len - nu + 1) =~= dj.take(pre_len - nu).push(entry[d as int]));
                assert(dj == dj.take(queries@.len() - nu) + entry.skip(d + 1) + delete_jobs_down(
                    mutations@,
                    order@,
                    kcur - 1,
                )) by {
                    assert(dj =~= dj.take(pre_len - nu).push(entry[d as int]) + entry.skip(d + 1)
                        + delete_jobs_down(mutations@, order@, kcur - 1));
                }
            }
            d = d + 1;
        }
        proof {
            assert(entry.skip(entry.len() as int) =~= Seq::<PlanJob>::empty());
            assert(delete_jobs_down(mutations@, order@, order@.len() - 1).take(queries@.len() - nu)
                + entry.skip(entry.len() as int) + delete_jobs_down(
                mutations@,
                order@,
                kcur - 1,
            ) =~= delete_jobs_down(mutations@, order@, order@.len() - 1).take(
                queries@.len() - nu,
            ) + delete_jobs_down(mutations@, order@, kcur - 1));
        }
        kk = kk - 1;
    }
    proof {
        assert(delete_jobs_down(mutations@, order@, -1) =~= Seq::<PlanJob>::empty());
        assert(delete_jobs_down(mutations@, order@, order@.len() - 1).take(queries@.len() - nu)
            =~= delete_jobs_down(mutations@, order@, order@.len() - 1));
        assert(queries@.len() == group_jobs(mutations@, order@).len());
        assert forall|i: int| 0 <= i < queries@.len() implies job_ok(
            contexts@,
            mutations@,
            group_jobs(mutations@, order@)[i],
            #[trigger] queries@[i],
        ) by {
            if i < nu {
                assert(group_jobs(mutations@, order@)[i] == upsert_jobs(mutations@, order@, 0)[i]);
            } else {
                assert(group_jobs(mutations@, order@)[i] == delete_jobs_down(
                    mutations@,
                    order@,
                    order@.len() - 1,
                )[i - nu]);
            }
        }
    }
    Ok(queries)
}

/// Groups the batch by connection, in first-appearance order, keeping
/// batch order inside each group.
#[verifier::loop_isolation(false)]
#[verifier::rlimit(100)]
pub fn group_by_connection(
    contexts: &Vec<ExportContext>,
    mutations: &Vec<TargetMutation>,
) -> (r: Vec<Vec<usize>>)
    requires
        forall|i: int|
            0 <= i < mutations@.len() ==> (#[trigger] mutations@[i]).context_idx < contexts@.len(),
    ensures
        grouping_ok(contexts@, mutations@, r@),
{
    let mut groups: Vec<Vec<usize>> = Vec::new();
    let ghost mut pos: Seq<(int, int)> = Seq::empty();
    let mut i: usize = 0;
    while i < mutations.len()
        invariant
            i <= mutations@.len(),
            forall|g: int| 0 <= g < groups@.len() ==> (#[trigger] groups@[g])@.len() > 0,
            forall|g: int, a: int|
                0 <= g < groups@.len() && 0 <= a < groups@[g]@.len() ==> ((
                #[trigger] groups@[g]@[a]) as int) < i as int,
            forall|g: int, a: int|
                0 <= g < groups@.len() && 0 <= a < groups@[g]@.len() ==> conn_of(
                    contexts@,
                    mutations@,
                    #[trigger] groups@[g]@[a] as int,
                ) == conn_of(contexts@, mutations@, groups@[g]@[0] as int),
            forall|g1: int, g2: int|
                0 <= g1 < groups@.len() && 0 <= g2 < groups@.len() && g1 != g2 ==> conn_of(
                    contexts@,
                    mutations@,
                    (#[trigger] groups@[g1])@[0] as int,
                ) != conn_of(contexts@, mutations@, (#[trigger] groups@[g2])@[0] as int),
            pos.len() == i as int,
            forall|j: int|
                0 <= j < i ==> 0 <= (#[trigger] pos[j]).0 < groups@.len() && 0 <= pos[j].1
                    < groups@[pos[j].0]@.len() && groups@[pos[j].0]@[pos[j].1] as int == j,
            forall|g: int, a: int, b: int|
                0 <= g < groups@.len() && 0 <= a < b < groups@[g]@.len() ==> (
                #[trigger] groups@[g]@[a]) < (#[trigger] groups@[g]@[b]),
            forall|g1: int, g2: int|
                0 <= g1 < g2 < groups@.len() ==> (#[trigger] groups@[g1])@[0] < (
                #[trigger] groups@[g2])@[0],
        decreases mutations@.len() - i,
    {
        let conn = &contexts[mutations[i].context_idx].connection_ref.key;
        let mut found: bool = false;
        let mut gi: usize = 0;
        while gi < groups.len() && !found
            invariant
                gi <= groups@.len(),
                found ==> gi < groups@.len() && conn_of(contexts@, mutations@, i as int) == conn_of(
                    contexts@,
                    mutations@,
                    groups@[gi as int]@[0] as int,
                ),
                !found ==> forall|g: int|
                    0 <= g < gi ==> conn_of(contexts@, mutations@, i as int) != conn_of(
                        contexts@,
                        mutations@,
                        (#[trigger] groups@[g])@[0] as int,
                    ),
                forall|g: int| 0 <= g < groups@.len() ==> (#[trigger] groups@[g])@.len() > 0,
                forall|g: int, a: int|
                    0 <= g < groups@.len() && 0 <= a < groups@[g]@.len() ==> ((
                    #[trigger] groups@[g]@[a]) as int) < i as int,
            decreases groups@.len() - gi + (if found {
                0int
            } else {
                1int
            }),
        {
            let head = groups[gi][0];
            if contexts[mutations[head].context_idx].connection_ref.key.eq(conn) {
                found = true;
            } else {
                gi = gi + 1;
            }
        }
        if found {
            let ghost old_groups = groups@;
            let mut grp = groups.remove(gi);
            grp.push(i);
            groups.insert(gi, grp);
            proof {
                assert(groups@.len() == old_groups.len());
                assert(forall|g: int|
                    0 <= g < groups@.len() && g != gi as int ==> groups@[g] == old_groups[g]);
                assert(groups@[gi as int]@ =~= old_groups[gi as int]@.push(i));
                pos = pos.push((gi as int, old_groups[gi as int]@.len() as int));
                assert forall|j: int| 0 <= j < i + 1 implies 0 <= (#[trigger] pos[j]).0
                    < groups@.len() && 0 <= pos[j].1 < groups@[pos[j].0]@.len()
                    && groups@[pos[j].0]@[pos[j].1] as int == j by {
                    if j < i as int {
                        if pos[j].0 == gi as int {
                            assert(groups@[gi as int]@[pos[j].1] == old_groups[gi as int]@[pos[j].1]);
                        }
                    }
                }
            }
        } else {
            let ghost old_groups = groups@;
            let mut grp: Vec<usize> = Vec::new();
            grp.push(i);
            groups.push(grp);
            proof {
                assert(forall|g: int| 0 <= g < old_groups.len() ==> groups@[g] == old_groups[g]);
                assert(groups@[old_groups.len() as int]@[0] as int == i as int);
                pos = pos.push((old_groups.len() as int, 0int));
            }
        }
        i = i + 1;
    }
    proof {
        assert forall|j: int| 0 <= j < mutations@.len() implies #[trigger] covered(
            mutations@,
            groups@,
            j,
        ) by {
            let (g0, a0) = pos[j];
            assert(0 <= g0 < groups@.len() && 0 <= a0 < groups@[g0]@.len() && groups@[g0]@[a0] as int
                == j);
        }
    }
    groups
}

/// Plans one dispatcher invocation: the batch grouped by connection in
/// first-appearance order; inside each group the targets ordered by
/// creation rank; each group's query list all upserts in rank order then
/// all deletes in reverse rank order, each query exactly the bound query
/// of its row or key. Fails exactly when some row or key does not encode.
#[verifier::loop_isolation(false)]
pub fn plan_mutations(
    contexts: &Vec<ExportContext>,
    mutations: &Vec<TargetMutation>,
) -> (r: Result<Vec<ConnectionPlan>, EncodeError>)
    requires
        batch_wf(contexts@, mutations@),
    ensures
        r is Ok ==> exists|groups: Seq<Vec<usize>>|
            grouping_ok(contexts@, mutations@, groups) && plans_realize(
                contexts@,
                mutations@,
                groups,
                r->Ok_0@,
            ),
        r is Err ==> exists|groups: Seq<Vec<usize>>, g: int|
            grouping_ok(contexts@, mutations@, groups) && 0 <= g < groups.len()
                && !group_encodable(
                contexts@,
                mutations@,
                rank_sorted(contexts@, mutations@, (#[trigger] groups[g])@),
            ),
{
    let groups = group_by_connection(contexts, mutations);
    let ghost groups_v = groups@;
    let mut plans: Vec<ConnectionPlan> = Vec::new();
    let mut g: usize = 0;
    while g < groups.len()
        invariant
            groups_v == groups@,
            g <= groups@.len(),
            grouping_ok(contexts@, mutations@, groups@),
            plans@.len() == g as int,
            forall|p: int|
                0 <= p < g ==> plan_realizes_group(
                    contexts@,
                    mutations@,
                    groups@[p]@,
                    #[trigger] plans@[p],
                ),
        decreases groups@.len() - g,
    {
        let order = sort_group_by_rank(contexts, mutations, &groups[g]);
        let queries = match build_group_queries(contexts, mutations, &order) {
            Ok(qs) => qs,
            Err(e) => {
                proof {
                    assert(grouping_ok(contexts@, mutations@, groups@) && 0 <= (g as int)
                        && (g as int) < groups@.len() && !group_encodable(
                        contexts@,
                        mutations@,
                        rank_sorted(contexts@, mutations@, groups@[g as int]@),
                    ));
                }
                return Err(e);
            },
        };
        let head = groups[g][0];
        let conn = AuthEntryReference {
            key: contexts[mutations[head].context_idx].connection_ref.key.clone(),
        };
        plans.push(ConnectionPlan { connection_ref: conn, queries });
        g = g + 1;
    }
    Ok(plans)
}

/// Whether one plan realizes one group: it addresses the group's
/// connection and its queries are exactly the group's job list, rank
/// sorted.
pub open spec fn plan_realizes_group(
    contexts: Seq<ExportContext>,
    mutations: Seq<TargetMutation>,
    g: Seq<usize>,
    plan: ConnectionPlan,
) -> bool {
    let order = rank_sorted(contexts, mutations, g);
    &&& plan.connection_ref.key@ == conn_of(contexts, mutations, g[0] as int)
    &&& plan.queries@.len() == group_jobs(mutations, order).len()
    &&& forall|i: int|
        0 <= i < plan.queries@.len() ==> job_ok(
            contexts,
            mutations,
            group_jobs(mutations, order)[i],
            #[trigger] plan.queries@[i],
        )
}

/// Whether the plans realize the grouping, group for group.
pub open spec fn plans_realize(
    contexts: Seq<ExportContext>,
    mutations: Seq<TargetMutation>,
    groups: Seq<Vec<usize>>,
    plans: Seq<ConnectionPlan>,
) -> bool {
    plans.len() == groups.len() && (forall|p: int|
        0 <= p < plans.len() ==> plan_realizes_group(
            contexts,
            mutations,
            groups[p]@,
            #[trigger] plans[p],
        ))
}

} // verus!
