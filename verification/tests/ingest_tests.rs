use project_tracker::dates::{Date, Timestamp};
use project_tracker::handlers::{
    country_from_lookup, get_client_ip, local_country_for, track_response,
};
use project_tracker::project::Project;
use project_tracker::scope::TimeScope;
use project_tracker::store::VisitStore;

#[test]
fn client_ip_prefers_first_forwarded_entry_trimmed() {
    assert_eq!(get_client_ip(Some("1.2.3.4, 5.6.7.8"), None), "1.2.3.4");
    assert_eq!(get_client_ip(Some("  9.9.9.9\t, 1.1.1.1"), Some("2.2.2.2")), "9.9.9.9");
    assert_eq!(get_client_ip(Some("8.8.8.8"), None), "8.8.8.8");
    assert_eq!(get_client_ip(Some(" , 5.6.7.8"), None), "");
    assert_eq!(get_client_ip(None, Some("3.3.3.3")), "3.3.3.3");
    assert_eq!(get_client_ip(None, None), "unknown");
}

#[test]
fn local_addresses_need_no_lookup() {
    assert_eq!(local_country_for("unknown").as_deref(), Some("Local"));
    assert_eq!(local_country_for("127.0.0.1").as_deref(), Some("Local"));
    assert_eq!(local_country_for("192.168.1.17").as_deref(), Some("Local"));
    assert_eq!(local_country_for("8.8.8.8"), None);
    assert_eq!(local_country_for("12.0.0.1"), None);
}

#[test]
fn failed_lookup_becomes_unknown() {
    assert_eq!(country_from_lookup(Some("JP".to_string())), "JP");
    assert_eq!(country_from_lookup(None), "Unknown");
}

#[test]
fn tracking_answer_reports_success() {
    let r = track_response();
    assert!(r.success);
    assert_eq!(r.message, "Visit tracked successfully");
}

#[test]
fn store_assigns_increasing_ids_and_keeps_fields() {
    let mut st = VisitStore::new();
    let at = Timestamp { date: Date { year: 2024, month: 2, day: 29 }, hour: 23, minute: 59, second: 59 };
    st.insert_visit_at(Project::Dwall, "1.2.3.4".to_string(), Some("US".to_string()), at);
    st.insert_visit_at(Project::Lsar, "5.6.7.8".to_string(), None, at);
    assert_eq!(st.len(), 2);
    let first = st.get(0);
    assert_eq!(first.id, 0);
    assert_eq!(first.project_name, Project::Dwall);
    assert_eq!(first.ip_address, "1.2.3.4");
    assert_eq!(first.country.as_deref(), Some("US"));
    assert_eq!(first.created_at.date.year, 2024);
    let second = st.get(1);
    assert_eq!(second.id, 1);
    assert_eq!(second.country, None);
}

#[test]
fn clock_stamped_insert_yields_a_valid_calendar_value() {
    let mut st = VisitStore::new();
    st.insert_visit(Project::Fluxy, "1.2.3.4".to_string(), Some("US".to_string()));
    assert_eq!(st.len(), 1);
    let v = st.get(0);
    let t = &v.created_at;
    assert!(t.date.year <= 9999);
    assert!((1..=12).contains(&t.date.month));
    assert!((1..=31).contains(&t.date.day));
    assert!(t.hour < 24);
    assert!(t.minute < 60);
    assert!(t.second < 60);
    // The stamp is today's clock, not a fixed fallback: a fresh store
    // still counts the visit under the all-time scope.
    assert_eq!(
        project_tracker::stats::get_project_stats(&st, &Project::Fluxy).total_visits,
        1
    );
}

#[test]
fn scan_filters_by_project_and_scope() {
    let mut st = VisitStore::new();
    let d1 = Timestamp { date: Date { year: 2024, month: 5, day: 1 }, hour: 0, minute: 0, second: 0 };
    let d2 = Timestamp { date: Date { year: 2024, month: 5, day: 2 }, hour: 0, minute: 0, second: 0 };
    st.insert_visit_at(Project::Dwall, "1.1.1.1".to_string(), None, d1);
    st.insert_visit_at(Project::Lsar, "2.2.2.2".to_string(), None, d1);
    st.insert_visit_at(Project::Dwall, "3.3.3.3".to_string(), None, d2);
    let dwall_all = st.scan(Some(Project::Dwall), None);
    assert_eq!(dwall_all.len(), 2);
    let day_one = st.scan_all(Some(TimeScope::OnDate(Date { year: 2024, month: 5, day: 1 })));
    assert_eq!(day_one.len(), 2);
    let dwall_day_one = st.scan(
        Some(Project::Dwall),
        Some(TimeScope::OnDate(Date { year: 2024, month: 5, day: 1 })),
    );
    assert_eq!(dwall_day_one.len(), 1);
    assert_eq!(dwall_day_one[0].ip_address, "1.1.1.1");
}
