//! Laws that relate the library's aggregates across calls.
//!
//! Each law is stated over the store's view and the spec functions the
//! public contracts use, so it composes with any function whose
//! `ensures` speaks of them.

use vstd::prelude::*;

use crate::dates::Date;
use crate::project::Project;
use crate::scope::TimeScope;
use crate::stats::{ips_of, unique_ips};
use crate::store::{matching, visit_in, VisitView};

verus! {

/// Two predicates that agree on a sequence's elements filter it alike.
proof fn lemma_filter_congruent<A>(s: Seq<A>, p1: spec_fn(A) -> bool, p2: spec_fn(A) -> bool)
    requires
        forall|x: A| s.contains(x) ==> (#[trigger] p1(x) <==> #[trigger] p2(x)),
    ensures
        s.filter(p1) == s.filter(p2),
    decreases s.len(),
{
    reveal(Seq::filter);
    if s.len() > 0 {
        let init = s.drop_last();
        assert(s.contains(s.last())) by {
            assert(s[s.len() - 1] == s.last());
        }
        assert forall|x: A| init.contains(x) implies (#[trigger] p1(x) <==> #[trigger] p2(
            x,
        )) by {
            let i = choose|i: int| 0 <= i < init.len() && init[i] == x;
            assert(s[i] == x);
            assert(s.contains(x));
        }
        lemma_filter_congruent(init, p1, p2);
    }
}

/// A day scope selects exactly the visits that the one-day range of the
/// same day selects, for any project restriction.
pub proof fn lemma_date_scope_eq_singleton_range(vs: Seq<VisitView>, p: Option<Project>, d: Date)
    ensures
        matching(vs, p, Some(TimeScope::OnDate(d))) == matching(
            vs,
            p,
            Some(TimeScope::Between(d, d)),
        ),
{
    let p1 = |v: VisitView| visit_in(v, p, Some(TimeScope::OnDate(d)));
    let p2 = |v: VisitView| visit_in(v, p, Some(TimeScope::Between(d, d)));
    assert forall|v: VisitView| vs.contains(v) implies (#[trigger] p1(v) <==> #[trigger] p2(
        v,
    )) by {
        crate::scope::lemma_date_scope_is_singleton_range(d, v.created_at.date);
    }
    lemma_filter_congruent(vs, p1, p2);
}

/// Appending one visit raises its own project's all-time total by exactly
/// one, and the unique-visitor count by one exactly when the address had
/// not appeared among that project's visits before.
pub proof fn lemma_insert_updates_stats(vs: Seq<VisitView>, v: VisitView)
    ensures
        matching(vs.push(v), Some(v.project_name), None).len() == matching(
            vs,
            Some(v.project_name),
            None,
        ).len() + 1,
        ips_of(matching(vs, Some(v.project_name), None)).to_set().contains(v.ip_address)
            ==> unique_ips(matching(vs.push(v), Some(v.project_name), None)) == unique_ips(
            matching(vs, Some(v.project_name), None),
        ),
        !ips_of(matching(vs, Some(v.project_name), None)).to_set().contains(v.ip_address)
            ==> unique_ips(matching(vs.push(v), Some(v.project_name), None)) == unique_ips(
            matching(vs, Some(v.project_name), None),
        ) + 1,
{
    broadcast use vstd::prelude::Seq::lemma_filter_push;
    broadcast use vstd::prelude::Seq::lemma_push_map_commute;
    broadcast use vstd::prelude::Seq::lemma_push_to_set_commute;
    broadcast use vstd::set::group_set_axioms;
    broadcast use vstd::seq_lib::seq_to_set_is_finite;

    let p = v.project_name;
    let m0 = matching(vs, Some(p), None);
    let m1 = matching(vs.push(v), Some(p), None);
    assert(visit_in(v, Some(p), None));
    assert(m1 == m0.push(v));
    assert(ips_of(m1) =~= ips_of(m0).push(v.ip_address));
    assert(ips_of(m1).to_set() =~= ips_of(m0).to_set().insert(v.ip_address));
    if ips_of(m0).to_set().contains(v.ip_address) {
        assert(ips_of(m0).to_set().insert(v.ip_address) =~= ips_of(m0).to_set());
    } else {
        vstd::set::axiom_set_insert_len(ips_of(m0).to_set(), v.ip_address);
    }
}

/// Appending a visit of one project leaves every other project's
/// all-time matching visits unchanged.
pub proof fn lemma_insert_other_projects_unchanged(vs: Seq<VisitView>, v: VisitView, q: Project)
    requires
        q != v.project_name,
    ensures
        matching(vs.push(v), Some(q), None) == matching(vs, Some(q), None),
{
    broadcast use vstd::prelude::Seq::lemma_filter_push;

    assert(!visit_in(v, Some(q), None));
}

} // verus!
