//! The request-level query and ingestion logic.
//!
//! A single-project query with no time scope answers with the full
//! detailed view; with a scope it answers with the scalar totals only —
//! that asymmetry is deliberate. An all-projects query takes any scope
//! but a range, which is rejected as an invalid scope.

use vstd::prelude::*;

use crate::detail::{detailed_ok, ProjectDetailedStats};
use crate::project::Project;
use crate::scope::{QueryParams, TimeQuery};
use crate::stats::{all_stats_ok, stats_ok, ProjectStats};
use crate::store::VisitStore;

verus! {

broadcast use vstd::seq_lib::group_seq_properties;

/// What can go wrong with a request, by the stage that rejects it.
#[derive(Clone, Copy, PartialEq, Eq, Structural, Debug)]
pub enum TrackerError {
    /// The storage layer failed; the caller sees a transient failure.
    StoreUnavailable,
    /// The path names no known project; rejected when the path is parsed.
    InvalidProject,
    /// The time scope is malformed or not supported on this path.
    InvalidTimeScope,
}

/// The body of a successful tracking call.
pub struct TrackResponse {
    pub success: bool,
    pub message: String,
}

/// Builds the body of a successful tracking call.
pub fn track_response() -> (r: TrackResponse)
    ensures
        r.success,
        r.message@ == "Visit tracked successfully"@,
{
    TrackResponse { success: true, message: "Visit tracked successfully".to_owned() }
}

/// What a scoped single-project query answers: the detailed view when no
/// scope was supplied, the scalar totals when one was.
pub enum StatsResponse {
    Detailed(ProjectDetailedStats),
    Scalar(ProjectStats),
}

/// The detailed all-time view of one project; the handler behind the
/// unscoped single-project stats route.
pub fn get_project_stats(store: &VisitStore, project_name: &Project) -> (r: ProjectDetailedStats)
    requires
        store.wf(),
    ensures
        detailed_ok(r, store@, *project_name),
{
    crate::detail::get_project_detailed_stats(store, project_name)
}

/// Every project's all-time totals; the handler behind the unscoped
/// all-projects stats route.
pub fn get_all_stats(store: &VisitStore) -> (r: Vec<ProjectStats>)
    ensures
        all_stats_ok(r@, store@, None),
{
    crate::stats::get_all_projects_stats(store)
}

/// One project's stats under the optional scope of the request: the
/// detailed view without a scope, the scalar totals with one. A scope
/// whose text is malformed selects no visit and yields zero counts.
pub fn get_project_stats_by_time(store: &VisitStore, project_name: &Project, params: &QueryParams)
    -> (r: StatsResponse)
    requires
        store.wf(),
    ensures
        match params.time {
            None => r matches StatsResponse::Detailed(d) && detailed_ok(d, store@, *project_name),
            Some(tq) => r matches StatsResponse::Scalar(ps) && ps.unique_visitors
                <= ps.total_visits && match tq.parsed() {
                Some(sc) => stats_ok(ps, store@, *project_name, Some(sc)),
                None => ps.project_name == *project_name && ps.total_visits == 0
                    && ps.unique_visitors == 0,
            },
        },
{
    match &params.time {
        None => StatsResponse::Detailed(
            crate::detail::get_project_detailed_stats(store, project_name),
        ),
        Some(tq) => match tq.parse() {
            Some(sc) => {
                let (total_visits, unique_visitors) = crate::stats::count_visit_stats(
                    store,
                    Some(*project_name),
                    Some(sc),
                );
                StatsResponse::Scalar(
                    ProjectStats { project_name: *project_name, total_visits, unique_visitors },
                )
            },
            None => StatsResponse::Scalar(
                ProjectStats { project_name: *project_name, total_visits: 0, unique_visitors: 0 },
            ),
        },
    }
}

/// Per-project stats under the optional scope of the request. A range
/// scope is not supported on the all-projects path and is rejected as an
/// invalid scope; any other malformed scope selects no visit.
pub fn get_all_projects_stats_by_time(store: &VisitStore, params: &QueryParams) -> (r: Result<
    Vec<ProjectStats>,
    TrackerError,
>)
    ensures
        match params.time {
            None => r matches Ok(v) && all_stats_ok(v@, store@, None),
            Some(tq) => match tq {
                TimeQuery::Range { .. } => r matches Err(e) && e == TrackerError::InvalidTimeScope,
                _ => r matches Ok(v) && match tq.parsed() {
                    Some(sc) => all_stats_ok(v@, store@, Some(sc)),
                    None => v@.len() == 0,
                },
            },
        },
{
    match &params.time {
        None => Ok(crate::stats::get_all_projects_stats(store)),
        Some(tq) => match tq {
            TimeQuery::Range { .. } => Err(TrackerError::InvalidTimeScope),
            _ => match tq.parse() {
                Some(sc) => Ok(crate::stats::all_stats_for(store, Some(sc))),
                None => Ok(Vec::new()),
            },
        },
    }
}

/// Whether a character counts as surrounding whitespace of a
/// forwarded-for entry.
pub open spec fn is_space(c: char) -> bool {
    c == ' ' || c == '\t' || c == '\r' || c == '\n'
}

fn is_space_exec(c: char) -> (r: bool)
    ensures
        r == is_space(c),
{
    c == ' ' || c == '\t' || c == '\r' || c == '\n'
}

/// Whether `j` ends the first comma-separated entry of `s`: the first
/// comma's position, or the whole length when there is none.
pub open spec fn is_entry_end(s: Seq<char>, j: int) -> bool {
    &&& 0 <= j <= s.len()
    &&& (j == s.len() || s[j] == ',')
    &&& forall|i: int| 0 <= i < j ==> s[i] != ','
}

/// Whether `j`, `a` and `b` bound the client address inside a
/// forwarded-for value: `j` ends the first entry, and `a .. b` is that
/// entry with surrounding whitespace stripped.
pub open spec fn is_client_ip_bounds(s: Seq<char>, j: int, a: int, b: int) -> bool {
    &&& is_entry_end(s, j)
    &&& 0 <= a <= b <= j
    &&& forall|i: int| 0 <= i < a ==> is_space(s[i])
    &&& forall|i: int| b <= i < j ==> is_space(s[i])
    &&& (a < b ==> !is_space(s[a]) && !is_space(s[b - 1]))
    &&& (a == b ==> a == j)
}

/// The client address inside a forwarded-for value: its first
/// comma-separated entry, trimmed.
pub open spec fn client_ip_of(s: Seq<char>) -> Seq<char> {
    let t = choose|t: (int, int, int)| is_client_ip_bounds(s, t.0, t.1, t.2);
    s.subrange(t.1, t.2)
}

/// The bounds of the client address are unique, so they are what
/// `client_ip_of` cuts.
pub proof fn lemma_client_ip_bounds_at(s: Seq<char>, j: int, a: int, b: int)
    requires
        is_client_ip_bounds(s, j, a, b),
    ensures
        client_ip_of(s) == s.subrange(a, b),
{
    let w = (j, a, b);
    assert(is_client_ip_bounds(s, w.0, w.1, w.2));
    let t = choose|t: (int, int, int)| is_client_ip_bounds(s, t.0, t.1, t.2);
    assert(is_client_ip_bounds(s, t.0, t.1, t.2));
    let (j2, a2, b2) = t;
    assert(j2 == j) by {
        if j2 < j {
            assert(s[j2] != ',');
        } else if j < j2 {
            assert(s[j] != ',');
        }
    }
    assert(a2 == a) by {
        if a < a2 {
            if a < b {
                assert(is_space(s[a]));
            } else {
                assert(a == j);
            }
        } else if a2 < a {
            if a2 < b2 {
                assert(is_space(s[a2]));
            } else {
                assert(a2 == j);
            }
        }
    }
    assert(b2 == b) by {
        if b < b2 {
            if a2 < b2 {
                assert(is_space(s[b2 - 1]));
            }
        } else if b2 < b {
            if a < b {
                assert(is_space(s[b - 1]));
            }
        }
    }
}

/// The client address of a request: the first comma-separated entry of
/// the forwarded-for header, trimmed, if that header came as text; else
/// the real-ip header's text; else the literal `"unknown"`. The value is
/// stored as opaque text, never validated as an address.
#[verifier::loop_isolation(false)]
pub fn get_client_ip(forwarded_for: Option<&str>, real_ip: Option<&str>) -> (r: String)
    ensures
        match forwarded_for {
            Some(f) => r@ == client_ip_of(f@),
            None => match real_ip {
                Some(x) => r@ == x@,
                None => r@ == "unknown"@,
            },
        },
{
    match forwarded_for {
        Some(f) => {
            let n = f.unicode_len();
            let mut j: usize = 0;
            while j < n && f.get_char(j) != ','
                invariant
                    j <= n,
                    forall|i: int| 0 <= i < j ==> f@[i] != ',',
                decreases n - j,
            {
                j = j + 1;
            }
            let mut a: usize = 0;
            while a < j && is_space_exec(f.get_char(a))
                invariant
                    a <= j,
                    forall|i: int| 0 <= i < a ==> is_space(f@[i]),
                decreases j - a,
            {
                a = a + 1;
            }
            let mut b: usize = j;
            while b > a && is_space_exec(f.get_char(b - 1))
                invariant
                    a <= b <= j,
                    forall|i: int| b <= i < j ==> is_space(f@[i]),
                decreases b,
            {
                b = b - 1;
            }
            proof {
                if a == b && a < j {
                    assert(!is_space(f@[a as int]));
                    assert(is_space(f@[a as int]));
                }
                lemma_client_ip_bounds_at(f@, j as int, a as int, b as int);
            }
            let sub = f.substring_char(a, b);
            sub.to_owned()
        },
        None => match real_ip {
            Some(x) => x.to_owned(),
            None => "unknown".to_owned(),
        },
    }
}

/// Whether `s` starts with `p`.
#[verifier::loop_isolation(false)]
fn has_prefix(s: &str, p: &str) -> (r: bool)
    ensures
        r == (s@.len() >= p@.len() && s@.take(p@.len() as int) == p@),
{
    let sn = s.unicode_len();
    let pn = p.unicode_len();
    if sn < pn {
        return false;
    }
    let mut i: usize = 0;
    while i < pn
        invariant
            i <= pn,
            forall|k: int| 0 <= k < i ==> s@[k] == p@[k],
        decreases pn - i,
    {
        if s.get_char(i) != p.get_char(i) {
            assert(s@.take(pn as int)[i as int] != p@[i as int]);
            return false;
        }
        i = i + 1;
    }
    proof {
        assert(s@.take(pn as int) =~= p@);
    }
    true
}

/// Whether two texts are equal.
fn str_eq(s: &str, t: &str) -> (r: bool)
    ensures
        r == (s@ == t@),
{
    let sn = s.unicode_len();
    let tn = t.unicode_len();
    if sn != tn {
        return false;
    }
    let r = has_prefix(s, t);
    proof {
        assert(s@.take(tn as int) =~= s@);
    }
    r
}

/// Whether an address never leaves the machine or the local network: the
/// literal `"unknown"`, or a loopback or private-range prefix.
pub open spec fn is_local_ip(s: Seq<char>) -> bool {
    ||| s == "unknown"@
    ||| (s.len() >= "127."@.len() && s.take("127."@.len() as int) == "127."@)
    ||| (s.len() >= "192.168."@.len() && s.take("192.168."@.len() as int) == "192.168."@)
}

/// The country of a local address: `"Local"`, decided without any
/// lookup. A non-local address needs the geolocation service.
pub fn local_country_for(ip: &str) -> (r: Option<String>)
    ensures
        r matches Some(c) ==> is_local_ip(ip@) && c@ == "Local"@,
        r is None ==> !is_local_ip(ip@),
{
    if str_eq(ip, "unknown") || has_prefix(ip, "127.") || has_prefix(ip, "192.168.") {
        Some("Local".to_owned())
    } else {
        None
    }
}

/// The country a geolocation answer names, or `"Unknown"` when the
/// lookup failed or its answer had no country field. A lookup failure
/// never reaches the caller of the tracking route.
pub fn country_from_lookup(code: Option<String>) -> (r: String)
    ensures
        match code {
            Some(c) => r@ == c@,
            None => r@ == "Unknown"@,
        },
{
    match code {
        Some(c) => c,
        None => "Unknown".to_owned(),
    }
}

} // verus!
