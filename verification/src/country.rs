//! Per-country breakdown of one project's visits.
//!
//! Visits are grouped by their `country` value — the absent value is a
//! bucket of its own, distinct from the texts `"Unknown"` and `"Local"` —
//! and the buckets are ordered by descending count. Buckets with equal
//! counts keep the order in which their country first appears among the
//! visits, which makes the row order a total one.

use vstd::prelude::*;

use crate::project::Project;
use crate::store::{matching, opt_str_view, VisitStore, VisitView};

verus! {

broadcast use vstd::seq_lib::group_seq_properties;

/// One row of a per-country breakdown.
#[derive(Clone, Debug)]
pub struct CountryStats {
    /// The country code of this bucket, or the absent bucket.
    pub country: Option<String>,
    /// How many matching visits carry this country value.
    pub visit_count: u64,
}

/// The mathematical value of one breakdown row.
pub struct CountryStatsView {
    pub country: Option<Seq<char>>,
    pub visit_count: u64,
}

impl View for CountryStats {
    type V = CountryStatsView;

    open spec fn view(&self) -> CountryStatsView {
        CountryStatsView { country: opt_str_view(self.country), visit_count: self.visit_count }
    }
}

/// How many of the visits carry country value `c`.
pub open spec fn country_count(m: Seq<VisitView>, c: Option<Seq<char>>) -> nat {
    m.filter(|v: VisitView| v.country == c).len()
}

/// Whether any of the visits carries country value `c`.
pub open spec fn country_occurs(m: Seq<VisitView>, c: Option<Seq<char>>) -> bool {
    exists|k: int| 0 <= k < m.len() && (#[trigger] m[k]).country == c
}

/// Whether position `k` holds the first visit with country value `c`.
pub open spec fn is_first_occurrence(m: Seq<VisitView>, c: Option<Seq<char>>, k: int) -> bool {
    &&& 0 <= k < m.len()
    &&& m[k].country == c
    &&& forall|j: int| 0 <= j < k ==> (#[trigger] m[j]).country != c
}

/// The position of the first visit with country value `c`.
pub open spec fn first_occ(m: Seq<VisitView>, c: Option<Seq<char>>) -> int {
    choose|k: int| is_first_occurrence(m, c, k)
}

/// A first occurrence is unique, so it is what `first_occ` names.
pub proof fn lemma_first_occ_at(m: Seq<VisitView>, c: Option<Seq<char>>, k: int)
    requires
        is_first_occurrence(m, c, k),
    ensures
        first_occ(m, c) == k,
{
    let k2 = first_occ(m, c);
    assert(is_first_occurrence(m, c, k2));
    if k2 < k {
        assert(m[k2].country != c);
    } else if k < k2 {
        assert(m[k].country != c);
    }
}

/// The sum of a sequence of counters.
pub open spec fn sum_counts(s: Seq<u64>) -> int
    decreases s.len(),
{
    if s.len() == 0 {
        0
    } else {
        sum_counts(s.drop_last()) + s.last()
    }
}

proof fn lemma_sum_push(s: Seq<u64>, x: u64)
    ensures
        sum_counts(s.push(x)) == sum_counts(s) + x,
{
    assert(s.push(x).drop_last() =~= s);
}

proof fn lemma_sum_update(s: Seq<u64>, i: int, v: u64)
    requires
        0 <= i < s.len(),
    ensures
        sum_counts(s.update(i, v)) == sum_counts(s) - s[i] + v,
    decreases s.len(),
{
    if i == s.len() - 1 {
        assert(s.update(i, v).drop_last() =~= s.drop_last());
        assert(s.update(i, v).last() == v);
    } else {
        assert(s.update(i, v).drop_last() =~= s.drop_last().update(i, v));
        assert(s.update(i, v).last() == s.last());
        lemma_sum_update(s.drop_last(), i, v);
    }
}

proof fn lemma_sum_remove(s: Seq<u64>, i: int)
    requires
        0 <= i < s.len(),
    ensures
        sum_counts(s.remove(i)) == sum_counts(s) - s[i],
    decreases s.len(),
{
    if i == s.len() - 1 {
        assert(s.remove(i) =~= s.drop_last());
    } else {
        assert(s.remove(i).drop_last() =~= s.drop_last().remove(i));
        assert(s.remove(i).last() == s.last());
        lemma_sum_remove(s.drop_last(), i);
    }
}

/// What a per-country breakdown must say of the matching visits `m`:
/// one row per occurring country value with its exact count, no other
/// row, ordered by descending count with first-appearance ties, and the
/// counts summing to the number of visits.
pub open spec fn country_stats_ok(r: Seq<CountryStatsView>, m: Seq<VisitView>) -> bool {
    &&& forall|i: int|
        0 <= i < r.len() ==> country_occurs(m, (#[trigger] r[i]).country) && r[i].visit_count
            == country_count(m, r[i].country)
    &&& forall|k: int|
        0 <= k < m.len() ==> exists|i: int|
            0 <= i < r.len() && (#[trigger] r[i]).country == (#[trigger] m[k]).country
    &&& forall|i: int, j: int|
        #![trigger r[i], r[j]]
        0 <= i < j < r.len() ==> r[i].country != r[j].country
    &&& forall|i: int, j: int|
        #![trigger r[i], r[j]]
        0 <= i < j < r.len() ==> (r[i].visit_count > r[j].visit_count || (r[i].visit_count
            == r[j].visit_count && first_occ(m, r[i].country) < first_occ(m, r[j].country)))
    &&& sum_counts(r.map_values(|e: CountryStatsView| e.visit_count)) == m.len()
}

/// A working row of the grouping pass: a breakdown row plus the position
/// of its country's first appearance, the sort tie-breaker.
struct CountryGroup {
    country: Option<String>,
    visit_count: u64,
    first_pos: usize,
}

/// The mathematical value of one working row.
struct GroupView {
    country: Option<Seq<char>>,
    visit_count: u64,
    first_pos: usize,
}

impl View for CountryGroup {
    type V = GroupView;

    closed spec fn view(&self) -> GroupView {
        GroupView {
            country: opt_str_view(self.country),
            visit_count: self.visit_count,
            first_pos: self.first_pos,
        }
    }
}

spec fn gviews(gs: Seq<CountryGroup>) -> Seq<GroupView> {
    gs.map_values(|g: CountryGroup| g@)
}

spec fn gcounts(gs: Seq<GroupView>) -> Seq<u64> {
    gs.map_values(|g: GroupView| g.visit_count)
}

/// The row order of the sorted breakdown: more visits first, ties broken
/// by first appearance.
spec fn group_before(a: GroupView, b: GroupView) -> bool {
    ||| a.visit_count > b.visit_count
    ||| (a.visit_count == b.visit_count && a.first_pos <= b.first_pos)
}

fn group_before_exec(a: &CountryGroup, b: &CountryGroup) -> (r: bool)
    ensures
        r == group_before(a@, b@),
{
    if a.visit_count != b.visit_count {
        a.visit_count > b.visit_count
    } else {
        a.first_pos <= b.first_pos
    }
}

/// A copy of an optional text value.
fn clone_opt_string(c: &Option<String>) -> (r: Option<String>)
    ensures
        opt_str_view(r) == opt_str_view(*c),
{
    match c {
        Some(s) => Some(s.clone()),
        None => None,
    }
}

/// Whether two optional text values are equal.
fn opt_string_eq(a: &Option<String>, b: &Option<String>) -> (r: bool)
    ensures
        r == (opt_str_view(*a) == opt_str_view(*b)),
{
    match (a, b) {
        (None, None) => true,
        (Some(x), Some(y)) => x.eq(y),
        _ => false,
    }
}

/// The position of the group with country `c`, if one exists.
#[verifier::loop_isolation(false)]
fn find_country(groups: &Vec<CountryGroup>, c: &Option<String>) -> (r: Option<usize>)
    ensures
        match r {
            Some(i) => i < groups@.len() && gviews(groups@)[i as int].country == opt_str_view(*c),
            None => forall|i: int|
                0 <= i < groups@.len() ==> gviews(groups@)[i].country != opt_str_view(*c),
        },
{
    let n = groups.len();
    let mut i: usize = 0;
    while i < n
        invariant
            i <= n,
            forall|j: int| 0 <= j < i ==> gviews(groups@)[j].country != opt_str_view(*c),
        decreases n - i,
    {
        if opt_string_eq(&groups[i].country, c) {
            return Some(i);
        }
        i = i + 1;
    }
    None
}

/// Groups the matching visits by country, in order of first appearance,
/// counting each bucket.
#[verifier::loop_isolation(false)]
fn collect_country_groups(mv: &Vec<crate::store::Visit>) -> (groups: Vec<CountryGroup>)
    ensures
        ({
            let m = mv@.map_values(|v: crate::store::Visit| v@);
            let gs = gviews(groups@);
            &&& forall|i: int|
                0 <= i < gs.len() ==> is_first_occurrence(
                    m,
                    (#[trigger] gs[i]).country,
                    gs[i].first_pos as int,
                )
            &&& forall|i: int|
                0 <= i < gs.len() ==> (#[trigger] gs[i]).visit_count == country_count(
                    m,
                    gs[i].country,
                )
            &&& forall|i: int, j: int|
                #![trigger gs[i], gs[j]]
                0 <= i < j < gs.len() ==> gs[i].country != gs[j].country
            &&& forall|k: int|
                0 <= k < m.len() ==> exists|i: int|
                    0 <= i < gs.len() && (#[trigger] gs[i]).country == (#[trigger] m[k]).country
            &&& sum_counts(gcounts(gs)) == m.len()
        }),
{
    let ghost m = mv@.map_values(|v: crate::store::Visit| v@);
    let mut groups: Vec<CountryGroup> = Vec::new();
    let n = mv.len();
    let mut k: usize = 0;
    while k < n
        invariant
            k <= n,
            n == m.len(),
            forall|i: int|
                0 <= i < gviews(groups@).len() ==> is_first_occurrence(
                    m,
                    (#[trigger] gviews(groups@)[i]).country,
                    gviews(groups@)[i].first_pos as int,
                ) && gviews(groups@)[i].first_pos < k,
            forall|i: int|
                0 <= i < gviews(groups@).len() ==> (#[trigger] gviews(groups@)[i]).visit_count
                    == country_count(m.take(k as int), gviews(groups@)[i].country),
            forall|i: int, j: int|
                #![trigger gviews(groups@)[i], gviews(groups@)[j]]
                0 <= i < j < gviews(groups@).len() ==> gviews(groups@)[i].country
                    != gviews(groups@)[j].country,
            forall|j: int|
                0 <= j < k ==> exists|i: int|
                    0 <= i < gviews(groups@).len() && (#[trigger] gviews(groups@)[i]).country == (
                    #[trigger] m[j]).country,
            sum_counts(gcounts(gviews(groups@))) == k,
        decreases n - k,
    {
        let ghost gs0 = gviews(groups@);
        let v = &mv[k];
        let found = find_country(&groups, &v.country);
        match found {
            Some(i) => {
                let cnt = groups[i].visit_count;
                let fp = groups[i].first_pos;
                proof {
                    assert(gs0[i as int].visit_count == country_count(
                        m.take(k as int),
                        gs0[i as int].country,
                    ));
                    m.take(k as int).lemma_filter_len(
                        |vv: VisitView| vv.country == gs0[i as int].country,
                    );
                    assert(cnt <= k < u64::MAX);
                }
                let c2 = clone_opt_string(&v.country);
                groups[i] = CountryGroup { country: c2, visit_count: cnt + 1, first_pos: fp };
            },
            None => {
                let c2 = clone_opt_string(&v.country);
                groups.push(CountryGroup { country: c2, visit_count: 1, first_pos: k });
            },
        }
        k = k + 1;
        proof {
            broadcast use vstd::prelude::Seq::lemma_filter_push;
            broadcast use vstd::prelude::Seq::lemma_push_map_commute;

            let gs = gviews(groups@);
            let ck = m[k - 1].country;
            assert(m.take(k as int) =~= m.take(k - 1).push(m[k - 1]));
            match found {
                Some(i) => {
                    let i = i as int;
                    assert(gs =~= gs0.update(i, gs[i]));
                    assert(gcounts(gs) =~= gcounts(gs0).update(i, gs[i].visit_count));
                    lemma_sum_update(gcounts(gs0), i, gs[i].visit_count);
                    assert forall|t: int| 0 <= t < gs.len() implies (#[trigger] gs[t]).visit_count
                        == country_count(m.take(k as int), gs[t].country) by {
                        if t == i {
                            assert(gs[t].country == ck);
                        } else {
                            assert(gs[t].country != gs0[i].country);
                        }
                    }
                    assert forall|j: int| 0 <= j < k implies exists|t: int|
                        0 <= t < gs.len() && (#[trigger] gs[t]).country == (#[trigger] m[j]).country by {
                        if j == k - 1 {
                            assert(gs[i].country == m[j].country);
                        } else {
                            let t = choose|t: int|
                                0 <= t < gs0.len() && gs0[t].country == m[j].country;
                            assert(gs[t].country == m[j].country);
                        }
                    }
                },
                None => {
                    assert(gs =~= gs0.push(gs[gs.len() - 1]));
                    assert(gcounts(gs) =~= gcounts(gs0).push(1u64));
                    lemma_sum_push(gcounts(gs0), 1u64);
                    assert forall|j: int| 0 <= j < k - 1 implies (#[trigger] m[j]).country
                        != ck by {
                        let t = choose|t: int|
                            0 <= t < gs0.len() && gs0[t].country == m[j].country;
                        assert(gs0[t].country != ck);
                    }
                    assert(country_count(m.take(k - 1), ck) == 0) by {
                        m.take(k - 1).lemma_all_neg_filter_empty(|vv: VisitView| vv.country == ck);
                    }
                    assert forall|t: int| 0 <= t < gs.len() implies (#[trigger] gs[t]).visit_count
                        == country_count(m.take(k as int), gs[t].country) by {
                        if t < gs.len() - 1 {
                            assert(gs[t].country != ck);
                        }
                    }
                    assert forall|j: int| 0 <= j < k implies exists|t: int|
                        0 <= t < gs.len() && (#[trigger] gs[t]).country == (#[trigger] m[j]).country by {
                        if j == k - 1 {
                            assert(gs[gs.len() - 1].country == m[j].country);
                        } else {
                            let t = choose|t: int|
                                0 <= t < gs0.len() && gs0[t].country == m[j].country;
                            assert(gs[t].country == m[j].country);
                        }
                    }
                },
            }
        }
    }
    proof {
        assert(m.take(n as int) =~= m);
    }
    groups
}

/// Sorts breakdown rows by [`group_before`], a permutation of the input
/// with the same count sum.
#[verifier::loop_isolation(false)]
fn sort_country_groups(groups: Vec<CountryGroup>) -> (r: Vec<CountryGroup>)
    ensures
        gviews(r@).to_multiset() == gviews(groups@).to_multiset(),
        gviews(r@).len() == gviews(groups@).len(),
        forall|i: int, j: int|
            #![trigger gviews(r@)[i], gviews(r@)[j]]
            0 <= i < j < gviews(r@).len() ==> group_before(gviews(r@)[i], gviews(r@)[j]),
        sum_counts(gcounts(gviews(r@))) == sum_counts(gcounts(gviews(groups@))),
{
    broadcast use vstd::seq_lib::group_to_multiset_ensures;
    broadcast use vstd::multiset::group_multiset_axioms;
    broadcast use vstd::multiset::lemma_update_same;
    broadcast use vstd::multiset::lemma_update_different;

    let ghost g0 = gviews(groups@);
    let mut rest = groups;
    let mut out: Vec<CountryGroup> = Vec::new();
    while rest.len() > 0
        invariant
            gviews(out@).to_multiset().add(gviews(rest@).to_multiset()) =~= g0.to_multiset(),
            gviews(out@).len() + gviews(rest@).len() == g0.len(),
            sum_counts(gcounts(gviews(out@))) + sum_counts(gcounts(gviews(rest@))) == sum_counts(
                gcounts(g0),
            ),
            forall|i: int, j: int|
                #![trigger gviews(out@)[i], gviews(out@)[j]]
                0 <= i < j < gviews(out@).len() ==> group_before(gviews(out@)[i], gviews(out@)[j]),
            forall|i: int, j: int|
                #![trigger gviews(out@)[i], gviews(rest@)[j]]
                0 <= i < gviews(out@).len() && 0 <= j < gviews(rest@).len() ==> group_before(
                    gviews(out@)[i],
                    gviews(rest@)[j],
                ),
        decreases rest.len(),
    {
        let n = rest.len();
        let mut best: usize = 0;
        let mut bi: usize = 1;
        while bi < n
            invariant
                best < bi <= n,
                n == rest@.len(),
                forall|j: int|
                    0 <= j < bi ==> group_before(
                        gviews(rest@)[best as int],
                        #[trigger] gviews(rest@)[j],
                    ),
            decreases n - bi,
        {
            if !group_before_exec(&rest[best], &rest[bi]) {
                best = bi;
            }
            bi = bi + 1;
        }
        let ghost out0 = gviews(out@);
        let ghost rest0 = gviews(rest@);
        let ghost e_v = gviews(rest@)[best as int];
        let e = rest.remove(best);
        out.push(e);
        proof {
            broadcast use vstd::prelude::Seq::lemma_push_map_commute;

            assert(gviews(out@) =~= out0.push(e_v));
            assert(gviews(rest@) =~= rest0.remove(best as int));
            assert(gviews(out@).to_multiset().add(gviews(rest@).to_multiset())
                =~= g0.to_multiset()) by {
                assert(gviews(out@).to_multiset() =~= out0.to_multiset().insert(e_v));
                assert(gviews(rest@).to_multiset() =~= rest0.to_multiset().remove(e_v));
                assert(rest0.to_multiset().count(e_v) > 0);
                assert forall|x: GroupView|
                    gviews(out@).to_multiset().add(gviews(rest@).to_multiset()).count(x) == g0
                        .to_multiset().count(x) by {
                    assert(out0.to_multiset().add(rest0.to_multiset()).count(x) == g0.to_multiset(
                    ).count(x));
                }
            }
            assert(gcounts(gviews(out@)) =~= gcounts(out0).push(e_v.visit_count));
            assert(gcounts(gviews(rest@)) =~= gcounts(rest0).remove(best as int));
            lemma_sum_push(gcounts(out0), e_v.visit_count);
            lemma_sum_remove(gcounts(rest0), best as int);
            assert forall|i: int, j: int|
                #![trigger gviews(out@)[i], gviews(rest@)[j]]
                0 <= i < gviews(out@).len() && 0 <= j < gviews(rest@).len() implies group_before(
                gviews(out@)[i],
                gviews(rest@)[j],
            ) by {
                assert(gviews(rest@)[j] == if j < best { rest0[j] } else { rest0[j + 1] });
                assert(group_before(e_v, gviews(rest@)[j]));
                if i < gviews(out@).len() - 1 {
                    assert(group_before(gviews(out@)[i], gviews(rest@)[j]));
                }
            }
        }
    }
    out
}

/// The per-country breakdown of one project's visits, all time: one row
/// per occurring country value with its exact count, ordered by
/// descending count with first-appearance ties; the counts sum to the
/// project's visit total.
#[verifier::rlimit(40)]
pub fn get_country_stats(store: &VisitStore, project_name: &Project) -> (r: Vec<CountryStats>)
    ensures
        country_stats_ok(
            r@.map_values(|c: CountryStats| c@),
            matching(store@, Some(*project_name), None),
        ),
{
    let ghost m = matching(store@, Some(*project_name), None);
    let mv = store.scan(Some(*project_name), None);
    let groups = collect_country_groups(&mv);
    let ghost g0 = gviews(groups@);
    let sorted = sort_country_groups(groups);
    let ghost sv = gviews(sorted@);
    let mut r: Vec<CountryStats> = Vec::new();
    let n = sorted.len();
    let mut t: usize = 0;
    while t < n
        invariant
            t <= n,
            n == sorted@.len(),
            r@.len() == t,
            forall|i: int|
                0 <= i < t ==> (#[trigger] r@[i])@.country == gviews(sorted@)[i].country && r@[i]@
                    .visit_count == gviews(sorted@)[i].visit_count,
        decreases n - t,
    {
        let g = &sorted[t];
        r.push(CountryStats { country: clone_opt_string(&g.country), visit_count: g.visit_count });
        t = t + 1;
    }
    proof {
        broadcast use vstd::seq_lib::group_to_multiset_ensures;

        let rv = r@.map_values(|c: CountryStats| c@);
        assert(g0.no_duplicates()) by {
            assert forall|i: int, j: int| 0 <= i < j < g0.len() implies g0[i] != g0[j] by {
                assert(g0[i].country != g0[j].country);
            }
        }
        g0.lemma_multiset_has_no_duplicates();
        sv.lemma_multiset_has_no_duplicates_conv();
        assert forall|i: int| 0 <= i < sv.len() implies is_first_occurrence(
            m,
            (#[trigger] sv[i]).country,
            sv[i].first_pos as int,
        ) && sv[i].visit_count == country_count(m, sv[i].country) by {
            assert(sv.to_multiset().count(sv[i]) > 0);
            assert(g0.contains(sv[i]));
            let k = g0.lemma_contains_to_index(sv[i]);
        }
        assert forall|i: int| 0 <= i < rv.len() implies country_occurs(
            m,
            (#[trigger] rv[i]).country,
        ) && rv[i].visit_count == country_count(m, rv[i].country) by {
            assert(rv[i].country == sv[i].country);
            assert(is_first_occurrence(m, sv[i].country, sv[i].first_pos as int));
        }
        assert forall|k: int| 0 <= k < m.len() implies exists|i: int|
            0 <= i < rv.len() && (#[trigger] rv[i]).country == (#[trigger] m[k]).country by {
            let t0 = choose|t0: int| 0 <= t0 < g0.len() && g0[t0].country == m[k].country;
            assert(g0.contains(g0[t0]));
            assert(sv.to_multiset().count(g0[t0]) > 0);
            assert(sv.contains(g0[t0]));
            let i = sv.lemma_contains_to_index(g0[t0]);
            assert(rv[i].country == m[k].country);
        }
        assert forall|i: int, j: int|
            #![trigger rv[i], rv[j]]
            0 <= i < j < rv.len() implies rv[i].country != rv[j].country && (rv[i].visit_count
            > rv[j].visit_count || (rv[i].visit_count == rv[j].visit_count && first_occ(
            m,
            rv[i].country,
        ) < first_occ(m, rv[j].country))) by {
            assert(group_before(sv[i], sv[j]));
            assert(is_first_occurrence(m, sv[i].country, sv[i].first_pos as int));
            assert(is_first_occurrence(m, sv[j].country, sv[j].first_pos as int));
            if sv[i].country == sv[j].country {
                assert(sv[i].first_pos == sv[j].first_pos) by {
                    if sv[i].first_pos < sv[j].first_pos {
                        assert(m[sv[i].first_pos as int].country != sv[j].country);
                    } else if sv[j].first_pos < sv[i].first_pos {
                        assert(m[sv[j].first_pos as int].country != sv[i].country);
                    }
                }
                assert(sv[i] == sv[j]);
                assert(sv.no_duplicates());
                assert(false);
            }
            if sv[i].first_pos == sv[j].first_pos {
                assert(m[sv[i].first_pos as int].country == sv[i].country);
                assert(m[sv[j].first_pos as int].country == sv[j].country);
                assert(false);
            }
            lemma_first_occ_at(m, sv[i].country, sv[i].first_pos as int);
            lemma_first_occ_at(m, sv[j].country, sv[j].first_pos as int);
        }
        assert(rv.map_values(|e: CountryStatsView| e.visit_count) =~= gcounts(sv));
        assert(sum_counts(rv.map_values(|e: CountryStatsView| e.visit_count)) == m.len());
    }
    r
}

} // verus!
