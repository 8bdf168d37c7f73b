//! The visit store: the one durable entity of the system.
//!
//! Every recorded visit sits in insertion order in a [`VisitStore`]; the
//! store assigns each visit a strictly increasing id and stamps it with
//! the clock. Aggregate queries read the store through [`scan`]-style
//! filters over its view, a sequence of [`VisitView`] values.

use vstd::prelude::*;

use crate::dates::Timestamp;
use crate::project::Project;
use crate::scope::{opt_scope_matches, TimeScope};

verus! {

broadcast use vstd::seq_lib::group_seq_properties;

/// One recorded visit.
#[derive(Clone, Debug)]
pub struct Visit {
    /// Surrogate key, assigned by the store, strictly increasing.
    pub id: u64,
    /// The visited project.
    pub project_name: Project,
    /// The client address as reported, or the literal `"unknown"`; held
    /// as opaque text, never validated.
    pub ip_address: String,
    /// A country code, `"Local"`, `"Unknown"`, or absent.
    pub country: Option<String>,
    /// When the visit was recorded.
    pub created_at: Timestamp,
}

/// The mathematical value of one visit.
pub struct VisitView {
    pub id: u64,
    pub project_name: Project,
    pub ip_address: Seq<char>,
    pub country: Option<Seq<char>>,
    pub created_at: Timestamp,
}

/// What holds of a well-formed store's view: ids are strictly
/// increasing in store order and every timestamp is a valid calendar
/// value.
pub open spec fn view_wf(vs: Seq<VisitView>) -> bool {
    &&& forall|i: int, j: int|
        #![trigger vs[i], vs[j]]
        0 <= i < j < vs.len() ==> vs[i].id < vs[j].id
    &&& forall|i: int| 0 <= i < vs.len() ==> (#[trigger] vs[i]).created_at.valid()
}

/// The values of a sequence of visits.
pub open spec fn visit_views(s: Seq<Visit>) -> Seq<VisitView> {
    s.map_values(|v: Visit| v@)
}

/// The value of an optional text field.
pub open spec fn opt_str_view(c: Option<String>) -> Option<Seq<char>> {
    match c {
        Some(s) => Some(s@),
        None => None,
    }
}

impl View for Visit {
    type V = VisitView;

    open spec fn view(&self) -> VisitView {
        VisitView {
            id: self.id,
            project_name: self.project_name,
            ip_address: self.ip_address@,
            country: opt_str_view(self.country),
            created_at: self.created_at,
        }
    }
}

impl Visit {
    /// A copy of this visit with the same value.
    pub fn duplicate(&self) -> (r: Visit)
        ensures
            r@ == self@,
    {
        Visit {
            id: self.id,
            project_name: self.project_name,
            ip_address: self.ip_address.clone(),
            country: match &self.country {
                Some(c) => Some(c.clone()),
                None => None,
            },
            created_at: self.created_at,
        }
    }
}

/// Whether one visit falls under a project restriction and an optional
/// time scope.
pub open spec fn visit_in(v: VisitView, p: Option<Project>, s: Option<TimeScope>) -> bool {
    &&& match p {
        None => true,
        Some(pp) => v.project_name == pp,
    }
    &&& opt_scope_matches(s, v.created_at.date)
}

/// The visits of a store's view that fall under a project restriction
/// and an optional time scope, in store order.
pub open spec fn matching(vs: Seq<VisitView>, p: Option<Project>, s: Option<TimeScope>) -> Seq<
    VisitView,
> {
    vs.filter(|v: VisitView| visit_in(v, p, s))
}

/// Decides whether a visit falls under a restriction.
pub fn visit_in_exec(v: &Visit, p: Option<Project>, s: Option<TimeScope>) -> (r: bool)
    ensures
        r == visit_in(v@, p, s),
{
    let project_ok = match p {
        None => true,
        Some(pp) => v.project_name == pp,
    };
    let scope_ok = match s {
        None => true,
        Some(sc) => crate::scope::scope_matches_exec(&sc, &v.created_at.date),
    };
    project_ok && scope_ok
}

/// The persistent record of visits.
pub struct VisitStore {
    visits: Vec<Visit>,
    next_id: u64,
}

impl View for VisitStore {
    type V = Seq<VisitView>;

    closed spec fn view(&self) -> Seq<VisitView> {
        self.visits@.map_values(|v: Visit| v@)
    }
}

impl VisitStore {
    /// The id the next inserted visit will get.
    pub closed spec fn spec_next_id(self) -> u64 {
        self.next_id
    }

    /// The store's invariant: its view is well-formed, and every recorded
    /// id is below the next free id.
    pub closed spec fn wf(self) -> bool {
        &&& view_wf(self@)
        &&& forall|i: int| 0 <= i < self@.len() ==> (#[trigger] self@[i]).id < self.next_id
    }

    /// A well-formed store has a well-formed view.
    pub proof fn lemma_wf_view(self)
        requires
            self.wf(),
        ensures
            view_wf(self@),
    {
    }

    /// An empty store.
    pub fn new() -> (r: VisitStore)
        ensures
            r.wf(),
            r@ =~= Seq::<VisitView>::empty(),
            r.spec_next_id() == 0,
    {
        VisitStore { visits: Vec::new(), next_id: 0 }
    }

    /// Whether another visit can still get a fresh id.
    pub fn can_insert(&self) -> (r: bool)
        ensures
            r == (self.spec_next_id() < u64::MAX),
    {
        self.next_id < u64::MAX
    }

    /// How many visits are recorded.
    pub fn len(&self) -> (r: usize)
        ensures
            r == self@.len(),
    {
        self.visits.len()
    }

    /// The visit at one position of the store.
    pub fn get(&self, k: usize) -> (r: &Visit)
        requires
            k < self@.len(),
        ensures
            r@ == self@[k as int],
    {
        &self.visits[k]
    }

    /// Appends one visit with the given creation time. The new row gets
    /// the next free id; everything already recorded stays as it was.
    pub fn insert_visit_at(
        &mut self,
        project_name: Project,
        ip_address: String,
        country: Option<String>,
        created_at: Timestamp,
    )
        requires
            old(self).wf(),
            old(self).spec_next_id() < u64::MAX,
            created_at.valid(),
        ensures
            final(self).wf(),
            final(self)@ =~= old(self)@.push(
                VisitView {
                    id: old(self).spec_next_id(),
                    project_name: project_name,
                    ip_address: ip_address@,
                    country: opt_str_view(country),
                    created_at: created_at,
                },
            ),
            final(self).spec_next_id() == old(self).spec_next_id() + 1,
    {
        let v = Visit {
            id: self.next_id,
            project_name,
            ip_address,
            country,
            created_at,
        };
        self.visits.push(v);
        self.next_id = self.next_id + 1;
        proof {
            broadcast use vstd::prelude::Seq::lemma_push_map_commute;

            assert(self@ =~= old(self)@.push(v@));
            assert forall|i: int, j: int|
                #![trigger self@[i], self@[j]]
                0 <= i < j < self@.len() implies self@[i].id < self@[j].id by {
                if j == self@.len() - 1 {
                    assert(old(self)@[i].id < old(self).spec_next_id());
                }
            }
        }
    }

    /// Appends one visit stamped with the clock. The creation time is
    /// whatever the clock read, clamped into the representable years; all
    /// other fields are exactly the arguments.
    pub fn insert_visit(
        &mut self,
        project_name: Project,
        ip_address: String,
        country: Option<String>,
    )
        requires
            old(self).wf(),
            old(self).spec_next_id() < u64::MAX,
        ensures
            final(self).wf(),
            final(self)@.len() == old(self)@.len() + 1,
            final(self)@ =~= old(self)@.push(final(self)@.last()),
            final(self)@.last().id == old(self).spec_next_id(),
            final(self)@.last().project_name == project_name,
            final(self)@.last().ip_address == ip_address@,
            final(self)@.last().country == opt_str_view(country),
            final(self)@.last().created_at.valid(),
            final(self).spec_next_id() == old(self).spec_next_id() + 1,
    {
        let now = now_timestamp();
        self.insert_visit_at(project_name, ip_address, country, now);
    }

    /// All visits under a project restriction and an optional time
    /// scope, in store order, as copies.
    #[verifier::loop_isolation(false)]
    pub fn scan(&self, p: Option<Project>, s: Option<TimeScope>) -> (r: Vec<Visit>)
        ensures
            r@.map_values(|v: Visit| v@) =~= matching(self@, p, s),
    {
        let ghost pred = |v: VisitView| visit_in(v, p, s);
        let mut out: Vec<Visit> = Vec::new();
        let n = self.visits.len();
        let mut k: usize = 0;
        while k < n
            invariant
                k <= n,
                n == self@.len(),
                out@.map_values(|v: Visit| v@) =~= self@.take(k as int).filter(pred),
            decreases n - k,
        {
            let ghost out0 = out@;
            let ghost k0 = k as int;
            let ghost vv = self@[k as int];
            let v = &self.visits[k];
            let hit = visit_in_exec(v, p, s);
            if hit {
                out.push(v.duplicate());
            }
            k = k + 1;
            proof {
                broadcast use vstd::prelude::Seq::lemma_filter_push;
                broadcast use vstd::prelude::Seq::lemma_push_map_commute;

                let f = |v: Visit| v@;
                assert(pred(vv) == hit);
                assert(self@.take(k0 + 1) =~= self@.take(k0).push(vv));
                assert(self@.take(k0).push(vv).filter(pred) == if pred(vv) {
                    self@.take(k0).filter(pred).push(vv)
                } else {
                    self@.take(k0).filter(pred)
                });
                if hit {
                    assert(out@ =~= out0.push(out@.last()));
                    assert(out@.last()@ == vv);
                    assert(out@.map_values(f) =~= out0.map_values(f).push(vv));
                } else {
                    assert(out@.map_values(f) =~= out0.map_values(f));
                }
                assert(out@.map_values(f) =~= self@.take(k as int).filter(pred));
            }
        }
        proof {
            assert(self@.take(n as int) =~= self@);
        }
        out
    }

    /// All visits under an optional time scope, every project included.
    pub fn scan_all(&self, s: Option<TimeScope>) -> (r: Vec<Visit>)
        ensures
            r@.map_values(|v: Visit| v@) =~= matching(self@, None, s),
    {
        self.scan(None, s)
    }
}

/// Relies on `time::OffsetDateTime::now_utc` and its accessors: `month`
/// is `1..=12` (as documented for `Month`), `day` is `1..=31`, `hour`
/// below 24, `minute` and `second` below 60. Nothing is assumed of the
/// year beyond what the clock gives.
#[verifier::external_body]
fn clock_now_parts() -> (r: (i32, u8, u8, u8, u8, u8))
    ensures
        1 <= r.1 <= 12,
        1 <= r.2 <= 31,
        r.3 < 24,
        r.4 < 60,
        r.5 < 60,
{
    let t = time::OffsetDateTime::now_utc();
    (t.year(), t.month() as u8, t.day(), t.hour(), t.minute(), t.second())
}

/// Reads the clock and forms a valid timestamp; a year outside
/// `0..=9999` is clamped to the nearest representable year.
pub fn now_timestamp() -> (r: Timestamp)
    ensures
        r.valid(),
{
    let (y, mo, d, h, mi, s) = clock_now_parts();
    let year: u16 = if y < 0 {
        0
    } else if y > 9999 {
        9999
    } else {
        y as u16
    };
    Timestamp {
        date: crate::dates::Date { year, month: mo, day: d },
        hour: h,
        minute: mi,
        second: s,
    }
}

} // verus!
