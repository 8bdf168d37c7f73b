//! The stats aggregator: totals, unique-visitor counts, per-country
//! breakdowns and recent-visit windows over the visit store, optionally
//! restricted to a time scope.
//!
//! Every aggregate is stated against [`matching`], the filtered view of
//! the store: a total is the length of the matching sequence, a
//! unique-visitor count is the cardinality of its set of addresses, and
//! so on. A scoped query whose scope text does not parse selects no
//! visit, so it reports zero counts, as the raw text would have matched
//! nothing among well-formed stored dates.

use vstd::prelude::*;

use crate::project::Project;
use crate::scope::TimeScope;
use crate::store::{matching, VisitStore, VisitView};

verus! {

broadcast use vstd::seq_lib::group_seq_properties;

/// Aggregate counters of one project under one scope.
#[derive(Clone, Copy, PartialEq, Eq, Structural, Debug)]
pub struct ProjectStats {
    pub project_name: Project,
    /// How many matching visits were recorded.
    pub total_visits: u64,
    /// How many distinct `ip_address` values the matching visits hold.
    /// Address text is the only identity a visitor has.
    pub unique_visitors: u64,
}

/// The addresses of a sequence of visits, in order, with repetitions.
pub open spec fn ips_of(m: Seq<VisitView>) -> Seq<Seq<char>> {
    m.map_values(|v: VisitView| v.ip_address)
}

/// How many distinct addresses a sequence of visits holds.
pub open spec fn unique_ips(m: Seq<VisitView>) -> nat {
    ips_of(m).to_set().len()
}

/// What a stats row must say of store contents `vs`, project `p` and
/// optional scope `s`.
pub open spec fn stats_ok(
    r: ProjectStats,
    vs: Seq<VisitView>,
    p: Project,
    s: Option<TimeScope>,
) -> bool {
    &&& r.project_name == p
    &&& r.total_visits == matching(vs, Some(p), s).len()
    &&& r.unique_visitors == unique_ips(matching(vs, Some(p), s))
}

/// No sequence of visits has more distinct addresses than visits.
pub proof fn lemma_unique_le_total(m: Seq<VisitView>)
    ensures
        unique_ips(m) <= m.len(),
{
    ips_of(m).lemma_cardinality_of_set();
}

/// Whether some element of `v` has the value of `s`.
#[verifier::loop_isolation(false)]
fn contains_string(v: &Vec<String>, s: &String) -> (r: bool)
    ensures
        r == v@.map_values(|x: String| x@).contains(s@),
{
    let ghost views = v@.map_values(|x: String| x@);
    let n = v.len();
    let mut i: usize = 0;
    while i < n
        invariant
            i <= n,
            n == v@.len(),
            forall|j: int| 0 <= j < i ==> views[j] != s@,
        decreases n - i,
    {
        let x: &String = &v[i];
        if x.eq(s) {
            assert(views[i as int] == s@);
            return true;
        }
        i = i + 1;
    }
    false
}

/// Counts the matching visits and their distinct addresses.
#[verifier::loop_isolation(false)]
pub fn count_visit_stats(store: &VisitStore, p: Option<Project>, s: Option<TimeScope>) -> (r: (
    u64,
    u64,
))
    ensures
        r.0 == matching(store@, p, s).len(),
        r.1 == unique_ips(matching(store@, p, s)),
        r.1 <= r.0,
{
    let mv = store.scan(p, s);
    let ghost m = matching(store@, p, s);
    let total = mv.len() as u64;
    let mut seen: Vec<String> = Vec::new();
    let n = mv.len();
    let mut k: usize = 0;
    while k < n
        invariant
            k <= n,
            seen@.map_values(|x: String| x@).no_duplicates(),
            seen@.map_values(|x: String| x@).to_set() =~= ips_of(m.take(k as int)).to_set(),
            seen@.len() <= k,
        decreases n - k,
    {
        let ghost seen0 = seen@.map_values(|x: String| x@);
        let v = &mv[k];
        if !contains_string(&seen, &v.ip_address) {
            seen.push(v.ip_address.clone());
        }
        k = k + 1;
        proof {
            broadcast use vstd::prelude::Seq::lemma_push_map_commute;
            broadcast use vstd::prelude::Seq::lemma_push_to_set_commute;

            assert(m.take(k as int) =~= m.take(k - 1).push(m[k - 1]));
            assert(ips_of(m.take(k as int)) =~= ips_of(m.take(k - 1)).push(m[k - 1].ip_address));
            let cur = seen@.map_values(|x: String| x@);
            if seen0.contains(v@.ip_address) {
                assert(cur.to_set() =~= ips_of(m.take(k as int)).to_set());
            } else {
                assert(cur =~= seen0.push(v@.ip_address));
                assert(cur.to_set() =~= ips_of(m.take(k as int)).to_set());
            }
        }
    }
    proof {
        assert(m.take(n as int) =~= m);
        seen@.map_values(|x: String| x@).unique_seq_to_set();
    }
    let unique = seen.len() as u64;
    (total, unique)
}

/// All-time totals of one project. The row is always produced, with zero
/// counts if the project has no visit.
pub fn get_project_stats(store: &VisitStore, project_name: &Project) -> (r: ProjectStats)
    ensures
        stats_ok(r, store@, *project_name, None),
        r.unique_visitors <= r.total_visits,
{
    let (total_visits, unique_visitors) = count_visit_stats(store, Some(*project_name), None);
    ProjectStats { project_name: *project_name, total_visits, unique_visitors }
}

/// Totals of one project on one calendar day, named as `YYYY-MM-DD`
/// text. Text in any other shape selects no visit and yields zero
/// counts.
pub fn get_project_stats_by_date(store: &VisitStore, project_name: &Project, date: &str) -> (r:
    ProjectStats)
    ensures
        match crate::dates::spec_parse_date(date@) {
            Some(d) => stats_ok(r, store@, *project_name, Some(TimeScope::OnDate(d))),
            None => r.project_name == *project_name && r.total_visits == 0 && r.unique_visitors
                == 0,
        },
        r.unique_visitors <= r.total_visits,
{
    match crate::dates::parse_date(date) {
        Some(d) => {
            let (total_visits, unique_visitors) = count_visit_stats(
                store,
                Some(*project_name),
                Some(TimeScope::OnDate(d)),
            );
            ProjectStats { project_name: *project_name, total_visits, unique_visitors }
        },
        None => ProjectStats { project_name: *project_name, total_visits: 0, unique_visitors: 0 },
    }
}

/// Totals of one project in one month, named as `YYYY-MM` text.
pub fn get_project_stats_by_month(store: &VisitStore, project_name: &Project, year_month: &str) -> (
    r: ProjectStats)
    ensures
        match crate::dates::spec_parse_month(year_month@) {
            Some(ym) => stats_ok(r, store@, *project_name, Some(TimeScope::InMonth(ym.0, ym.1))),
            None => r.project_name == *project_name && r.total_visits == 0 && r.unique_visitors
                == 0,
        },
        r.unique_visitors <= r.total_visits,
{
    match crate::dates::parse_month(year_month) {
        Some((y, m)) => {
            let (total_visits, unique_visitors) = count_visit_stats(
                store,
                Some(*project_name),
                Some(TimeScope::InMonth(y, m)),
            );
            ProjectStats { project_name: *project_name, total_visits, unique_visitors }
        },
        None => ProjectStats { project_name: *project_name, total_visits: 0, unique_visitors: 0 },
    }
}

/// Totals of one project in one year, named as `YYYY` text.
pub fn get_project_stats_by_year(store: &VisitStore, project_name: &Project, year: &str) -> (r:
    ProjectStats)
    ensures
        match crate::dates::spec_parse_year(year@) {
            Some(y) => stats_ok(r, store@, *project_name, Some(TimeScope::InYear(y))),
            None => r.project_name == *project_name && r.total_visits == 0 && r.unique_visitors
                == 0,
        },
        r.unique_visitors <= r.total_visits,
{
    match crate::dates::parse_year(year) {
        Some(y) => {
            let (total_visits, unique_visitors) = count_visit_stats(
                store,
                Some(*project_name),
                Some(TimeScope::InYear(y)),
            );
            ProjectStats { project_name: *project_name, total_visits, unique_visitors }
        },
        None => ProjectStats { project_name: *project_name, total_visits: 0, unique_visitors: 0 },
    }
}

/// Totals of one project between two days, both ends included, named as
/// `YYYY-MM-DD` text. If either end is malformed the scope selects no
/// visit.
pub fn get_project_stats_by_date_range(
    store: &VisitStore,
    project_name: &Project,
    start_date: &str,
    end_date: &str,
) -> (r: ProjectStats)
    ensures
        match (crate::dates::spec_parse_date(start_date@), crate::dates::spec_parse_date(
            end_date@,
        )) {
            (Some(a), Some(b)) => stats_ok(r, store@, *project_name, Some(TimeScope::Between(a, b))),
            _ => r.project_name == *project_name && r.total_visits == 0 && r.unique_visitors == 0,
        },
        r.unique_visitors <= r.total_visits,
{
    let a = crate::dates::parse_date(start_date);
    let b = crate::dates::parse_date(end_date);
    match (a, b) {
        (Some(a), Some(b)) => {
            let (total_visits, unique_visitors) = count_visit_stats(
                store,
                Some(*project_name),
                Some(TimeScope::Between(a, b)),
            );
            ProjectStats { project_name: *project_name, total_visits, unique_visitors }
        },
        _ => ProjectStats { project_name: *project_name, total_visits: 0, unique_visitors: 0 },
    }
}

/// The order of rows in an all-projects result: more visits first, ties
/// broken by registry position. This is a total order because no two
/// rows of a result share a project.
pub open spec fn ps_before(a: ProjectStats, b: ProjectStats) -> bool {
    ||| a.total_visits > b.total_visits
    ||| (a.total_visits == b.total_visits && a.project_name.index_spec()
        <= b.project_name.index_spec())
}

/// Decides the row order.
fn ps_before_exec(a: &ProjectStats, b: &ProjectStats) -> (r: bool)
    ensures
        r == ps_before(*a, *b),
{
    if a.total_visits != b.total_visits {
        a.total_visits > b.total_visits
    } else {
        a.project_name.index() <= b.project_name.index()
    }
}

/// What an all-projects result must say of store contents `vs` under
/// optional scope `s`: one correct row per project with at least one
/// matching visit, no row for any other project, ordered by descending
/// total with registry-order ties.
pub open spec fn all_stats_ok(r: Seq<ProjectStats>, vs: Seq<VisitView>, s: Option<TimeScope>) -> bool {
    &&& forall|i: int|
        0 <= i < r.len() ==> stats_ok(#[trigger] r[i], vs, r[i].project_name, s)
            && r[i].total_visits > 0
    &&& forall|p: Project|
        #[trigger] matching(vs, Some(p), s).len() > 0 ==> exists|i: int|
            0 <= i < r.len() && (#[trigger] r[i]).project_name == p
    &&& forall|i: int, j: int|
        #![trigger r[i], r[j]]
        0 <= i < j < r.len() ==> ps_before(r[i], r[j]) && r[i].project_name != r[j].project_name
}

/// Sorts stats rows by [`ps_before`], a permutation of the input.
#[verifier::loop_isolation(false)]
fn sort_project_stats(groups: Vec<ProjectStats>) -> (r: Vec<ProjectStats>)
    ensures
        r@.to_multiset() == groups@.to_multiset(),
        r@.len() == groups@.len(),
        forall|i: int, j: int|
            #![trigger r@[i], r@[j]]
            0 <= i < j < r@.len() ==> ps_before(r@[i], r@[j]),
{
    broadcast use vstd::seq_lib::group_to_multiset_ensures;
    broadcast use vstd::multiset::group_multiset_axioms;
    broadcast use vstd::multiset::lemma_update_same;
    broadcast use vstd::multiset::lemma_update_different;

    let ghost groups0 = groups@;
    let mut rest = groups;
    let mut out: Vec<ProjectStats> = Vec::new();
    while rest.len() > 0
        invariant
            out@.to_multiset().add(rest@.to_multiset()) =~= groups0.to_multiset(),
            out@.len() + rest@.len() == groups0.len(),
            forall|i: int, j: int|
                #![trigger out@[i], out@[j]]
                0 <= i < j < out@.len() ==> ps_before(out@[i], out@[j]),
            forall|i: int, j: int|
                #![trigger out@[i], rest@[j]]
                0 <= i < out@.len() && 0 <= j < rest@.len() ==> ps_before(out@[i], rest@[j]),
        decreases rest.len(),
    {
        let n = rest.len();
        let mut best: usize = 0;
        let mut bi: usize = 1;
        while bi < n
            invariant
                best < bi <= n,
                n == rest@.len(),
                forall|j: int| 0 <= j < bi ==> ps_before(rest@[best as int], #[trigger] rest@[j]),
            decreases n - bi,
        {
            if !ps_before_exec(&rest[best], &rest[bi]) {
                best = bi;
            }
            bi = bi + 1;
        }
        let ghost out0 = out@;
        let ghost rest0 = rest@;
        let ghost e_v = rest@[best as int];
        let e = rest.remove(best);
        out.push(e);
        proof {
            assert(out@ =~= out0.push(e_v));
            assert(out@.to_multiset().add(rest@.to_multiset()) =~= groups0.to_multiset()) by {
                assert(out@.to_multiset() =~= out0.to_multiset().insert(e_v));
                assert(rest@.to_multiset() =~= rest0.to_multiset().remove(e_v));
                assert(rest0.to_multiset().count(e_v) > 0);
                assert forall|x: ProjectStats|
                    out@.to_multiset().add(rest@.to_multiset()).count(x) == groups0.to_multiset(
                    ).count(x) by {
                    assert(out0.to_multiset().add(rest0.to_multiset()).count(x) == groups0
                        .to_multiset().count(x));
                }
            }
            assert forall|i: int, j: int|
                #![trigger out@[i], rest@[j]]
                0 <= i < out@.len() && 0 <= j < rest@.len() implies ps_before(
                out@[i],
                rest@[j],
            ) by {
                assert(rest@[j] == if j < best { rest0[j] } else { rest0[j + 1] });
                assert(ps_before(e_v, rest@[j]));
                if i < out@.len() - 1 {
                    assert(ps_before(out@[i], rest@[j]));
                }
            }
        }
    }
    out
}

/// One correct row, in registry order, for each project with at least
/// one matching visit.
#[verifier::loop_isolation(false)]
fn collect_project_stats(store: &VisitStore, s: Option<TimeScope>) -> (groups: Vec<ProjectStats>)
    ensures
        forall|i: int|
            0 <= i < groups@.len() ==> stats_ok(
                #[trigger] groups@[i],
                store@,
                groups@[i].project_name,
                s,
            ) && groups@[i].total_visits > 0,
        forall|i: int, j: int|
            #![trigger groups@[i], groups@[j]]
            0 <= i < j < groups@.len() ==> groups@[i].project_name.index_spec()
                < groups@[j].project_name.index_spec(),
        forall|p: Project|
            #[trigger] matching(store@, Some(p), s).len() > 0 ==> exists|i: int|
                0 <= i < groups@.len() && (#[trigger] groups@[i]).project_name == p,
{
    let projects = crate::project::all_projects();
    let mut groups: Vec<ProjectStats> = Vec::new();
    let n = projects.len();
    let mut t: usize = 0;
    while t < n
        invariant
            t <= n,
            forall|i: int|
                0 <= i < groups@.len() ==> stats_ok(
                    #[trigger] groups@[i],
                    store@,
                    groups@[i].project_name,
                    s,
                ) && groups@[i].total_visits > 0,
            forall|i: int|
                0 <= i < groups@.len() ==> (#[trigger] groups@[i]).project_name.index_spec() < t,
            forall|i: int, j: int|
                #![trigger groups@[i], groups@[j]]
                0 <= i < j < groups@.len() ==> groups@[i].project_name.index_spec()
                    < groups@[j].project_name.index_spec(),
            forall|p: Project|
                #![trigger p.index_spec()]
                p.index_spec() < t && matching(store@, Some(p), s).len() > 0 ==> exists|i: int|
                    0 <= i < groups@.len() && (#[trigger] groups@[i]).project_name == p,
        decreases n - t,
    {
        let ghost groups_pre = groups@;
        let p = projects[t];
        let (total_visits, unique_visitors) = count_visit_stats(store, Some(p), s);
        if total_visits > 0 {
            groups.push(ProjectStats { project_name: p, total_visits, unique_visitors });
        }
        t = t + 1;
        proof {
            assert forall|q: Project|
                #![trigger q.index_spec()]
                q.index_spec() < t && matching(store@, Some(q), s).len() > 0 implies exists|i: int|
                0 <= i < groups@.len() && (#[trigger] groups@[i]).project_name == q by {
                if q.index_spec() == t - 1 {
                    assert(projects@[t - 1].index_spec() == t - 1);
                    assert(q == p);
                    assert(groups@[groups@.len() - 1].project_name == q);
                } else {
                    let i = choose|i: int|
                        0 <= i < groups_pre.len() && groups_pre[i].project_name == q;
                    assert(groups@[i].project_name == q);
                }
            }
        }
    }
    proof {
        assert forall|p: Project|
            #[trigger] matching(store@, Some(p), s).len() > 0 implies exists|i: int|
            0 <= i < groups@.len() && (#[trigger] groups@[i]).project_name == p by {
            assert(p.index_spec() < 4);
        }
    }
    groups
}

/// One stats row per project with visits under the scope, ordered by
/// descending total. A project with no matching visit yields no row.
#[verifier::rlimit(30)]
pub fn all_stats_for(store: &VisitStore, s: Option<TimeScope>) -> (r: Vec<ProjectStats>)
    ensures
        all_stats_ok(r@, store@, s),
{
    let groups = collect_project_stats(store, s);
    let ghost groups0 = groups@;
    let r = sort_project_stats(groups);
    proof {
        broadcast use vstd::seq_lib::group_to_multiset_ensures;

        assert(groups0.no_duplicates()) by {
            assert forall|i: int, j: int|
                0 <= i < j < groups0.len() implies groups0[i] != groups0[j] by {
                assert(groups0[i].project_name.index_spec() < groups0[j].project_name.index_spec());
            }
        }
        groups0.lemma_multiset_has_no_duplicates();
        r@.lemma_multiset_has_no_duplicates_conv();
        assert forall|i: int|
            0 <= i < r@.len() implies stats_ok(#[trigger] r@[i], store@, r@[i].project_name, s)
            && r@[i].total_visits > 0 by {
            assert(r@.to_multiset().count(r@[i]) > 0);
            assert(groups0.contains(r@[i]));
            let k = groups0.lemma_contains_to_index(r@[i]);
        }
        assert forall|p: Project|
            #[trigger] matching(store@, Some(p), s).len() > 0 implies exists|i: int|
            0 <= i < r@.len() && (#[trigger] r@[i]).project_name == p by {
            let k = choose|k: int| 0 <= k < groups0.len() && groups0[k].project_name == p;
            assert(groups0.contains(groups0[k]));
            assert(r@.to_multiset().count(groups0[k]) > 0);
            assert(r@.contains(groups0[k]));
            let i = r@.lemma_contains_to_index(groups0[k]);
            assert(r@[i].project_name == p);
        }
        assert forall|i: int, j: int|
            #![trigger r@[i], r@[j]]
            0 <= i < j < r@.len() implies ps_before(r@[i], r@[j]) && r@[i].project_name
            != r@[j].project_name by {
            if r@[i].project_name == r@[j].project_name {
                assert(r@.to_multiset().count(r@[i]) > 0);
                assert(groups0.contains(r@[i]));
                let a = groups0.lemma_contains_to_index(r@[i]);
                assert(r@.to_multiset().count(r@[j]) > 0);
                assert(groups0.contains(r@[j]));
                let b = groups0.lemma_contains_to_index(r@[j]);
                assert(r@[i] == r@[j]);
                assert(r@.no_duplicates());
            }
        }
    }
    r
}

/// All-time totals of every project with at least one visit, ordered by
/// descending total.
pub fn get_all_projects_stats(store: &VisitStore) -> (r: Vec<ProjectStats>)
    ensures
        all_stats_ok(r@, store@, None),
{
    all_stats_for(store, None)
}

/// Per-project totals on one calendar day, named as `YYYY-MM-DD` text.
pub fn get_all_projects_stats_by_date(store: &VisitStore, date: &str) -> (r: Vec<ProjectStats>)
    ensures
        match crate::dates::spec_parse_date(date@) {
            Some(d) => all_stats_ok(r@, store@, Some(TimeScope::OnDate(d))),
            None => r@.len() == 0,
        },
{
    match crate::dates::parse_date(date) {
        Some(d) => all_stats_for(store, Some(TimeScope::OnDate(d))),
        None => Vec::new(),
    }
}

/// Per-project totals in one month, named as `YYYY-MM` text.
pub fn get_all_projects_stats_by_month(store: &VisitStore, year_month: &str) -> (r: Vec<
    ProjectStats,
>)
    ensures
        match crate::dates::spec_parse_month(year_month@) {
            Some(ym) => all_stats_ok(r@, store@, Some(TimeScope::InMonth(ym.0, ym.1))),
            None => r@.len() == 0,
        },
{
    match crate::dates::parse_month(year_month) {
        Some((y, m)) => all_stats_for(store, Some(TimeScope::InMonth(y, m))),
        None => Vec::new(),
    }
}

/// Per-project totals in one year, named as `YYYY` text.
pub fn get_all_projects_stats_by_year(store: &VisitStore, year: &str) -> (r: Vec<ProjectStats>)
    ensures
        match crate::dates::spec_parse_year(year@) {
            Some(y) => all_stats_ok(r@, store@, Some(TimeScope::InYear(y))),
            None => r@.len() == 0,
        },
{
    match crate::dates::parse_year(year) {
        Some(y) => all_stats_for(store, Some(TimeScope::InYear(y))),
        None => Vec::new(),
    }
}

} // verus!
