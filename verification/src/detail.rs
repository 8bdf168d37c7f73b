//! Recent visits and the detailed stats view.
//!
//! The detailed view of a project joins its all-time totals, its
//! registry metadata, its per-country breakdown and its most recent
//! visits. Recent visits are ordered newest first; visits with the same
//! timestamp are ordered by descending id, so the order is total.

use vstd::prelude::*;

use crate::country::{country_stats_ok, CountryStats};
use crate::dates::ts_le;
use crate::project::Project;
use crate::stats::{stats_ok, ProjectStats};
use crate::store::{matching, visit_views, Visit, VisitStore, VisitView};

verus! {

broadcast use vstd::seq_lib::group_seq_properties;

/// How many rows the recent-visit window holds.
pub open spec fn recent_limit() -> int {
    10
}

/// Whether visit `a` comes no later than `b` in a newest-first listing:
/// `a` has the later timestamp, or the same timestamp and the larger id.
pub open spec fn visit_before(a: VisitView, b: VisitView) -> bool {
    if a.created_at == b.created_at {
        a.id >= b.id
    } else {
        ts_le(b.created_at, a.created_at)
    }
}

/// Decides the newest-first order.
fn visit_before_exec(a: &Visit, b: &Visit) -> (r: bool)
    ensures
        r == visit_before(a@, b@),
{
    if a.created_at == b.created_at {
        a.id >= b.id
    } else {
        crate::dates::ts_le_exec(&b.created_at, &a.created_at)
    }
}

/// What a recent-visit window must say of the matching visits `m` and
/// the window size `limit`: as many rows as there are, up to the limit;
/// newest first with distinct ids; every row a matching visit; and
/// nothing left out unless the window is full and every left-out visit
/// is older than the last row.
pub open spec fn recent_ok(rv: Seq<VisitView>, m: Seq<VisitView>, limit: int) -> bool {
    &&& rv.len() == if m.len() < limit {
        m.len() as int
    } else {
        limit
    }
    &&& forall|i: int, j: int|
        #![trigger rv[i], rv[j]]
        0 <= i < j < rv.len() ==> visit_before(rv[i], rv[j]) && rv[i].id != rv[j].id
    &&& forall|i: int| 0 <= i < rv.len() ==> m.contains(#[trigger] rv[i])
    &&& forall|k: int|
        0 <= k < m.len() ==> rv.contains(#[trigger] m[k]) || (rv.len() == limit && (rv.len() == 0
            || visit_before(rv[rv.len() - 1], m[k])))
}

/// A filter of a duplicate-free sequence is duplicate-free.
proof fn lemma_filter_preserves_no_dup<A>(s: Seq<A>, pred: spec_fn(A) -> bool)
    requires
        s.no_duplicates(),
    ensures
        s.filter(pred).no_duplicates(),
    decreases s.len(),
{
    reveal(Seq::filter);
    if s.len() > 0 {
        let init = s.drop_last();
        lemma_filter_preserves_no_dup(init, pred);
        if pred(s.last()) {
            assert(s.filter(pred) == init.filter(pred).push(s.last()));
            if init.filter(pred).contains(s.last()) {
                broadcast use vstd::prelude::Seq::lemma_filter_contains_rev;

                assert(init.contains(s.last()));
                assert(false);
            }
        }
    }
}

/// The views of a well-formed store's matching visits carry pairwise
/// distinct ids.
proof fn lemma_matching_ids_distinct(store: VisitStore, p: Option<Project>, s: Option<
    crate::scope::TimeScope,
>)
    requires
        store.wf(),
    ensures
        ({
            let m = matching(store@, p, s);
            forall|i: int, j: int|
                #![trigger m[i], m[j]]
                0 <= i < j < m.len() ==> m[i].id != m[j].id
        }),
{
    let sv = store@;
    let m = matching(sv, p, s);
    store.lemma_wf_view();
    assert(sv.no_duplicates()) by {
        assert forall|i: int, j: int| 0 <= i < j < sv.len() implies sv[i] != sv[j] by {
            assert(sv[i].id < sv[j].id);
        }
    }
    lemma_filter_preserves_no_dup(sv, |v: VisitView| crate::store::visit_in(v, p, s));
    assert forall|i: int, j: int|
        #![trigger m[i], m[j]]
        0 <= i < j < m.len() implies m[i].id != m[j].id by {
        assert(m[i] != m[j]);
        assert(m.contains(m[i]));
        assert(m.contains(m[j]));
        broadcast use vstd::prelude::Seq::lemma_filter_contains_rev;

        assert(sv.contains(m[i]));
        assert(sv.contains(m[j]));
        let a = sv.lemma_contains_to_index(m[i]);
        let b = sv.lemma_contains_to_index(m[j]);
        if a != b {
            assert(sv[a].id != sv[b].id);
        }
    }
}

/// Picks the `limit` newest of the given visits, newest first.
#[verifier::loop_isolation(false)]
#[verifier::rlimit(40)]
fn top_recent(mv: Vec<Visit>, limit: usize) -> (r: Vec<Visit>)
    requires
        ({
            let vv = visit_views(mv@);
            forall|i: int, j: int|
                #![trigger vv[i], vv[j]]
                0 <= i < j < vv.len() ==> vv[i].id != vv[j].id
        }),
    ensures
        recent_ok(
            visit_views(r@),
            visit_views(mv@),
            limit as int,
        ),
{
    broadcast use vstd::seq_lib::group_to_multiset_ensures;
    broadcast use vstd::multiset::group_multiset_axioms;
    broadcast use vstd::multiset::lemma_update_same;
    broadcast use vstd::multiset::lemma_update_different;

    let ghost vv = visit_views(mv@);
    let mut rest = mv;
    let mut out: Vec<Visit> = Vec::new();
    while out.len() < limit && rest.len() > 0
        invariant
            visit_views(out@).to_multiset().add(
                visit_views(rest@).to_multiset(),
            ) =~= vv.to_multiset(),
            out@.len() + rest@.len() == vv.len(),
            out@.len() <= limit,
            forall|i: int, j: int|
                #![trigger visit_views(out@)[i], visit_views(out@)[j]]
                0 <= i < j < out@.len() ==> visit_before(
                    visit_views(out@)[i],
                    visit_views(out@)[j],
                ),
            forall|i: int, j: int|
                #![trigger visit_views(out@)[i], visit_views(rest@)[j]]
                0 <= i < out@.len() && 0 <= j < rest@.len() ==> visit_before(
                    visit_views(out@)[i],
                    visit_views(rest@)[j],
                ),
        decreases rest.len(),
    {
        let n = rest.len();
        let mut best: usize = 0;
        let mut bi: usize = 1;
        while bi < n
            invariant
                best < bi <= n,
                n == rest@.len(),
                forall|j: int|
                    0 <= j < bi ==> visit_before(
                        visit_views(rest@)[best as int],
                        #[trigger] visit_views(rest@)[j],
                    ),
            decreases n - bi,
        {
            if !visit_before_exec(&rest[best], &rest[bi]) {
                best = bi;
            }
            bi = bi + 1;
        }
        let ghost out0 = visit_views(out@);
        let ghost rest0 = visit_views(rest@);
        let ghost e_v = rest0[best as int];
        let e = rest.remove(best);
        out.push(e);
        proof {
            broadcast use vstd::prelude::Seq::lemma_push_map_commute;

            let ov = visit_views(out@);
            let rv = visit_views(rest@);
            assert(ov =~= out0.push(e_v));
            assert(rv =~= rest0.remove(best as int));
            assert(ov.to_multiset().add(rv.to_multiset()) =~= vv.to_multiset()) by {
                assert(ov.to_multiset() =~= out0.to_multiset().insert(e_v));
                assert(rv.to_multiset() =~= rest0.to_multiset().remove(e_v));
                assert(rest0.to_multiset().count(e_v) > 0);
                assert forall|x: VisitView|
                    ov.to_multiset().add(rv.to_multiset()).count(x) == vv.to_multiset().count(
                        x,
                    ) by {
                    assert(out0.to_multiset().add(rest0.to_multiset()).count(x) == vv.to_multiset(
                    ).count(x));
                }
            }
            assert forall|i: int, j: int|
                #![trigger ov[i], rv[j]]
                0 <= i < ov.len() && 0 <= j < rv.len() implies visit_before(ov[i], rv[j]) by {
                assert(rv[j] == if j < best { rest0[j] } else { rest0[j + 1] });
                assert(visit_before(e_v, rv[j]));
                if i < ov.len() - 1 {
                    assert(visit_before(ov[i], rv[j]));
                }
            }
        }
    }
    proof {
        let ov = visit_views(out@);
        let rv = visit_views(rest@);
        assert(vv.no_duplicates()) by {
            assert forall|i: int, j: int| 0 <= i < j < vv.len() implies vv[i] != vv[j] by {
                assert(vv[i].id != vv[j].id);
            }
        }
        vv.lemma_multiset_has_no_duplicates();
        assert forall|x: VisitView| ov.to_multiset().contains(x) implies ov.to_multiset().count(x)
            == 1 by {
            assert(vv.to_multiset().count(x) == ov.to_multiset().count(x) + rv.to_multiset().count(
                x,
            ));
            assert(vv.to_multiset().contains(x));
        }
        ov.lemma_multiset_has_no_duplicates_conv();
        assert forall|i: int| 0 <= i < ov.len() implies vv.contains(#[trigger] ov[i]) by {
            assert(ov.contains(ov[i]));
            assert(ov.to_multiset().count(ov[i]) > 0);
            assert(vv.to_multiset().count(ov[i]) == ov.to_multiset().count(ov[i])
                + rv.to_multiset().count(ov[i]));
        }
        assert forall|i: int, j: int|
            #![trigger ov[i], ov[j]]
            0 <= i < j < ov.len() implies visit_before(ov[i], ov[j]) && ov[i].id != ov[j].id by {
            assert(vv.contains(ov[i]));
            assert(vv.contains(ov[j]));
            let a = vv.lemma_contains_to_index(ov[i]);
            let b = vv.lemma_contains_to_index(ov[j]);
            assert(ov[i] != ov[j]) by {
                assert(ov.no_duplicates());
            }
            if a != b {
                assert(vv[a].id != vv[b].id);
            }
        }
        assert forall|k: int| 0 <= k < vv.len() implies ov.contains(#[trigger] vv[k]) || (ov.len()
            == limit && (ov.len() == 0 || visit_before(ov[ov.len() - 1], vv[k]))) by {
            if !ov.contains(vv[k]) {
                assert(vv.contains(vv[k]));
                assert(vv.to_multiset().count(vv[k]) > 0);
                assert(ov.to_multiset().count(vv[k]) == 0);
                assert(vv.to_multiset().count(vv[k]) == ov.to_multiset().count(vv[k])
                    + rv.to_multiset().count(vv[k]));
                assert(rv.to_multiset().count(vv[k]) > 0);
                assert(rv.contains(vv[k]));
                let j = rv.lemma_contains_to_index(vv[k]);
                assert(rv.len() > 0);
                assert(ov.len() == limit);
                if ov.len() > 0 {
                    assert(visit_before(ov[ov.len() - 1], rv[j]));
                }
            }
        }
    }
    out
}

/// The `limit` most recent visits of one project, newest first, over all
/// time: the recent window ignores any time scope.
pub fn get_recent_visits(store: &VisitStore, project_name: &Project, limit: usize) -> (r: Vec<
    Visit,
>)
    requires
        store.wf(),
    ensures
        recent_ok(
            visit_views(r@),
            matching(store@, Some(*project_name), None),
            limit as int,
        ),
{
    let mv = store.scan(Some(*project_name), None);
    proof {
        lemma_matching_ids_distinct(*store, Some(*project_name), None);
    }
    top_recent(mv, limit)
}

/// The detailed view of one project: totals, registry metadata, country
/// breakdown and the ten most recent visits.
pub struct ProjectDetailedStats {
    pub project_name: Project,
    pub repository: String,
    pub icon: String,
    pub description: String,
    pub total_visits: u64,
    pub unique_visitors: u64,
    pub country_stats: Vec<CountryStats>,
    pub recent_visits: Vec<Visit>,
}

/// What the detailed view must say of store contents `vs` and project
/// `p`: the all-time totals, the registry metadata, a correct country
/// breakdown, and the ten most recent visits.
pub open spec fn detailed_ok(r: ProjectDetailedStats, vs: Seq<VisitView>, p: Project) -> bool {
    &&& r.project_name == p
    &&& r.repository@ == p.repository_spec()
    &&& r.icon@ == p.icon_spec()
    &&& r.description@ == p.description_spec()
    &&& stats_ok(
        ProjectStats {
            project_name: r.project_name,
            total_visits: r.total_visits,
            unique_visitors: r.unique_visitors,
        },
        vs,
        p,
        None,
    )
    &&& r.unique_visitors <= r.total_visits
    &&& country_stats_ok(
        r.country_stats@.map_values(|c: CountryStats| c@),
        matching(vs, Some(p), None),
    )
    &&& recent_ok(visit_views(r.recent_visits@), matching(vs, Some(p), None), recent_limit())
}

/// The detailed all-time view of one project: its totals, its registry
/// metadata, its per-country breakdown and its ten most recent visits.
pub fn get_project_detailed_stats(store: &VisitStore, project_name: &Project) -> (r:
    ProjectDetailedStats)
    requires
        store.wf(),
    ensures
        detailed_ok(r, store@, *project_name),
{
    let basic = crate::stats::get_project_stats(store, project_name);
    let country_stats = crate::country::get_country_stats(store, project_name);
    let recent_visits = get_recent_visits(store, project_name, 10);
    ProjectDetailedStats {
        project_name: *project_name,
        repository: project_name.repository().to_owned(),
        icon: project_name.icon().to_owned(),
        description: project_name.description().to_owned(),
        total_visits: basic.total_visits,
        unique_visitors: basic.unique_visitors,
        country_stats,
        recent_visits,
    }
}

} // verus!
