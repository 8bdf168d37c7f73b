use project_tracker::country::get_country_stats;
use project_tracker::dates::{Date, Timestamp};
use project_tracker::detail::{get_project_detailed_stats, get_recent_visits};
use project_tracker::handlers::{
    get_all_projects_stats_by_time, get_project_stats_by_time, StatsResponse, TrackerError,
};
use project_tracker::project::Project;
use project_tracker::scope::{QueryParams, TimeQuery};
use project_tracker::stats::{
    get_all_projects_stats, get_all_projects_stats_by_date, get_all_projects_stats_by_month,
    get_all_projects_stats_by_year, get_project_stats, get_project_stats_by_date,
    get_project_stats_by_date_range, get_project_stats_by_month, get_project_stats_by_year,
};
use project_tracker::store::VisitStore;

fn ts(year: u16, month: u8, day: u8, hour: u8) -> Timestamp {
    Timestamp { date: Date { year, month, day }, hour, minute: 0, second: 0 }
}

fn insert(
    st: &mut VisitStore,
    project: Project,
    ip: &str,
    country: Option<&str>,
    at: Timestamp,
) {
    st.insert_visit_at(project, ip.to_string(), country.map(|c| c.to_string()), at);
}

#[test]
fn repeated_visit_counts_one_unique_visitor() {
    let mut st = VisitStore::new();
    insert(&mut st, Project::Dwall, "1.2.3.4", Some("US"), ts(2024, 5, 1, 8));
    insert(&mut st, Project::Dwall, "1.2.3.4", Some("US"), ts(2024, 5, 1, 9));
    let s = get_project_stats(&st, &Project::Dwall);
    assert_eq!(s.total_visits, 2);
    assert_eq!(s.unique_visitors, 1);
    let cs = get_country_stats(&st, &Project::Dwall);
    assert_eq!(cs.len(), 1);
    assert_eq!(cs[0].country.as_deref(), Some("US"));
    assert_eq!(cs[0].visit_count, 2);
}

#[test]
fn insert_raises_total_by_one_and_unique_only_when_new() {
    let mut st = VisitStore::new();
    insert(&mut st, Project::Lsar, "1.1.1.1", None, ts(2024, 1, 1, 0));
    let before = get_project_stats(&st, &Project::Lsar);
    insert(&mut st, Project::Lsar, "1.1.1.1", None, ts(2024, 1, 2, 0));
    let after_repeat = get_project_stats(&st, &Project::Lsar);
    assert_eq!(after_repeat.total_visits, before.total_visits + 1);
    assert_eq!(after_repeat.unique_visitors, before.unique_visitors);
    insert(&mut st, Project::Lsar, "2.2.2.2", None, ts(2024, 1, 3, 0));
    let after_new = get_project_stats(&st, &Project::Lsar);
    assert_eq!(after_new.total_visits, after_repeat.total_visits + 1);
    assert_eq!(after_new.unique_visitors, after_repeat.unique_visitors + 1);
}

#[test]
fn unique_visitors_never_exceed_total_visits() {
    let mut st = VisitStore::new();
    let ips = ["9.9.9.9", "8.8.8.8", "9.9.9.9", "7.7.7.7", "8.8.8.8"];
    for (i, ip) in ips.iter().enumerate() {
        insert(&mut st, Project::UP2B, ip, Some("DE"), ts(2024, 3, (i + 1) as u8, 0));
    }
    let s = get_project_stats(&st, &Project::UP2B);
    assert_eq!(s.total_visits, 5);
    assert_eq!(s.unique_visitors, 3);
    assert!(s.unique_visitors <= s.total_visits);
    let scoped = get_project_stats_by_date(&st, &Project::UP2B, "2024-03-01");
    assert!(scoped.unique_visitors <= scoped.total_visits);
}

#[test]
fn country_counts_sum_to_total_and_order_descending() {
    let mut st = VisitStore::new();
    insert(&mut st, Project::Fluxy, "1.0.0.1", Some("US"), ts(2024, 6, 1, 1));
    insert(&mut st, Project::Fluxy, "1.0.0.2", None, ts(2024, 6, 1, 2));
    insert(&mut st, Project::Fluxy, "1.0.0.3", Some("CN"), ts(2024, 6, 1, 3));
    insert(&mut st, Project::Fluxy, "1.0.0.4", Some("CN"), ts(2024, 6, 1, 4));
    insert(&mut st, Project::Fluxy, "1.0.0.5", Some("Unknown"), ts(2024, 6, 1, 5));
    insert(&mut st, Project::Fluxy, "1.0.0.6", None, ts(2024, 6, 1, 6));
    insert(&mut st, Project::Fluxy, "1.0.0.7", Some("CN"), ts(2024, 6, 1, 7));
    let total = get_project_stats(&st, &Project::Fluxy).total_visits;
    let cs = get_country_stats(&st, &Project::Fluxy);
    let sum: u64 = cs.iter().map(|c| c.visit_count).sum();
    assert_eq!(sum, total);
    // CN has 3; the absent bucket has 2; US and "Unknown" one each, in
    // first-appearance order on the tie.
    assert_eq!(cs.len(), 4);
    assert_eq!(cs[0].country.as_deref(), Some("CN"));
    assert_eq!(cs[0].visit_count, 3);
    assert_eq!(cs[1].country, None);
    assert_eq!(cs[1].visit_count, 2);
    assert_eq!(cs[2].country.as_deref(), Some("US"));
    assert_eq!(cs[2].visit_count, 1);
    assert_eq!(cs[3].country.as_deref(), Some("Unknown"));
    assert_eq!(cs[3].visit_count, 1);
}

#[test]
fn date_scope_equals_singleton_range() {
    let mut st = VisitStore::new();
    insert(&mut st, Project::Dwall, "1.2.3.4", Some("US"), ts(2024, 5, 1, 8));
    insert(&mut st, Project::Dwall, "5.6.7.8", Some("FR"), ts(2024, 5, 2, 8));
    insert(&mut st, Project::Dwall, "9.9.9.9", Some("FR"), ts(2024, 5, 1, 20));
    let by_date = get_project_stats_by_date(&st, &Project::Dwall, "2024-05-01");
    let by_range = get_project_stats_by_date_range(&st, &Project::Dwall, "2024-05-01", "2024-05-01");
    assert_eq!(by_date.total_visits, by_range.total_visits);
    assert_eq!(by_date.unique_visitors, by_range.unique_visitors);
    assert_eq!(by_date.total_visits, 2);
}

#[test]
fn range_rejected_for_all_projects_but_fine_for_one() {
    let mut st = VisitStore::new();
    insert(&mut st, Project::Dwall, "1.2.3.4", Some("US"), ts(2024, 5, 1, 8));
    let range = TimeQuery::Range {
        start_date: "2024-05-01".to_string(),
        end_date: "2024-05-31".to_string(),
    };
    let params = QueryParams { time: Some(range) };
    let all = get_all_projects_stats_by_time(&st, &params);
    assert!(matches!(all, Err(TrackerError::InvalidTimeScope)));
    let one = get_project_stats_by_time(&st, &Project::Dwall, &params);
    match one {
        StatsResponse::Scalar(ps) => {
            assert_eq!(ps.total_visits, 1);
            assert_eq!(ps.unique_visitors, 1);
        }
        StatsResponse::Detailed(_) => panic!("scoped query must answer with scalar totals"),
    }
}

#[test]
fn project_without_visits_gets_zero_row_but_no_group() {
    let mut st = VisitStore::new();
    insert(&mut st, Project::Dwall, "1.2.3.4", Some("US"), ts(2024, 5, 1, 8));
    let s = get_project_stats(&st, &Project::Fluxy);
    assert_eq!(s.total_visits, 0);
    assert_eq!(s.unique_visitors, 0);
    let scoped = get_project_stats_by_date(&st, &Project::Fluxy, "2024-05-01");
    assert_eq!(scoped.total_visits, 0);
    assert_eq!(scoped.unique_visitors, 0);
    let all = get_all_projects_stats(&st);
    assert_eq!(all.len(), 1);
    assert_eq!(all[0].project_name, Project::Dwall);
}

#[test]
fn two_projects_same_day_grouped_in_descending_order() {
    let mut st = VisitStore::new();
    insert(&mut st, Project::Lsar, "1.0.0.1", None, ts(2024, 7, 15, 1));
    insert(&mut st, Project::UP2B, "1.0.0.2", None, ts(2024, 7, 15, 2));
    insert(&mut st, Project::UP2B, "1.0.0.3", None, ts(2024, 7, 15, 3));
    let groups = get_all_projects_stats_by_date(&st, "2024-07-15");
    assert_eq!(groups.len(), 2);
    assert_eq!(groups[0].project_name, Project::UP2B);
    assert_eq!(groups[0].total_visits, 2);
    assert_eq!(groups[1].project_name, Project::Lsar);
    assert_eq!(groups[1].total_visits, 1);
    // Equal totals fall back to registry order.
    insert(&mut st, Project::Lsar, "1.0.0.4", None, ts(2024, 7, 15, 4));
    let tied = get_all_projects_stats_by_date(&st, "2024-07-15");
    assert_eq!(tied.len(), 2);
    assert_eq!(tied[0].project_name, Project::Lsar);
    assert_eq!(tied[1].project_name, Project::UP2B);
}

#[test]
fn month_year_and_malformed_scopes() {
    let mut st = VisitStore::new();
    insert(&mut st, Project::Dwall, "1.2.3.4", Some("US"), ts(2024, 5, 1, 8));
    insert(&mut st, Project::Dwall, "1.2.3.5", Some("US"), ts(2024, 6, 1, 8));
    insert(&mut st, Project::Dwall, "1.2.3.6", Some("US"), ts(2023, 6, 1, 8));
    assert_eq!(get_project_stats_by_month(&st, &Project::Dwall, "2024-05").total_visits, 1);
    assert_eq!(get_project_stats_by_year(&st, &Project::Dwall, "2024").total_visits, 2);
    assert_eq!(get_project_stats_by_year(&st, &Project::Dwall, "2023").total_visits, 1);
    // Malformed scope text selects nothing.
    assert_eq!(get_project_stats_by_date(&st, &Project::Dwall, "2024-5-1").total_visits, 0);
    assert_eq!(get_project_stats_by_month(&st, &Project::Dwall, "2024-13").total_visits, 0);
    assert_eq!(get_project_stats_by_year(&st, &Project::Dwall, "24").total_visits, 0);
}

#[test]
fn recent_visits_are_the_newest_first() {
    let mut st = VisitStore::new();
    for day in 1..=12u8 {
        insert(
            &mut st,
            Project::Dwall,
            &format!("10.0.0.{}", day),
            Some("US"),
            ts(2024, 4, day, 0),
        );
    }
    let recent = get_recent_visits(&st, &Project::Dwall, 10);
    assert_eq!(recent.len(), 10);
    assert_eq!(recent[0].created_at.date.day, 12);
    assert_eq!(recent[9].created_at.date.day, 3);
    for w in recent.windows(2) {
        assert!(w[0].created_at.date.day > w[1].created_at.date.day);
    }
    // Equal timestamps are ordered by descending id.
    let mut st2 = VisitStore::new();
    insert(&mut st2, Project::Lsar, "1.1.1.1", None, ts(2024, 4, 1, 0));
    insert(&mut st2, Project::Lsar, "2.2.2.2", None, ts(2024, 4, 1, 0));
    let r2 = get_recent_visits(&st2, &Project::Lsar, 10);
    assert_eq!(r2.len(), 2);
    assert!(r2[0].id > r2[1].id);
    assert_eq!(r2[0].ip_address, "2.2.2.2");
}

#[test]
fn detailed_stats_join_totals_metadata_countries_and_recent() {
    let mut st = VisitStore::new();
    insert(&mut st, Project::UP2B, "1.2.3.4", Some("CN"), ts(2024, 5, 1, 8));
    insert(&mut st, Project::UP2B, "1.2.3.4", Some("CN"), ts(2024, 5, 2, 8));
    let d = get_project_detailed_stats(&st, &Project::UP2B);
    assert_eq!(d.project_name, Project::UP2B);
    assert_eq!(d.repository, "https://github.com/up2b/up2b");
    assert_eq!(d.total_visits, 2);
    assert_eq!(d.unique_visitors, 1);
    assert_eq!(d.country_stats.len(), 1);
    assert_eq!(d.country_stats[0].visit_count, 2);
    assert_eq!(d.recent_visits.len(), 2);
    assert_eq!(d.recent_visits[0].created_at.date.day, 2);
}

#[test]
fn unscoped_time_query_answers_detailed_shape() {
    let mut st = VisitStore::new();
    insert(&mut st, Project::Dwall, "1.2.3.4", Some("US"), ts(2024, 5, 1, 8));
    let params = QueryParams { time: None };
    match get_project_stats_by_time(&st, &Project::Dwall, &params) {
        StatsResponse::Detailed(d) => assert_eq!(d.total_visits, 1),
        StatsResponse::Scalar(_) => panic!("unscoped query must answer with the detailed shape"),
    }
    let all = get_all_projects_stats_by_time(&st, &params).unwrap();
    assert_eq!(all.len(), 1);
}

#[test]
fn scoped_all_projects_time_query() {
    let mut st = VisitStore::new();
    insert(&mut st, Project::Dwall, "1.2.3.4", Some("US"), ts(2024, 5, 1, 8));
    insert(&mut st, Project::Lsar, "1.2.3.5", Some("US"), ts(2023, 5, 1, 8));
    let params = QueryParams {
        time: Some(TimeQuery::Year { year: "2024".to_string() }),
    };
    let groups = get_all_projects_stats_by_time(&st, &params).unwrap();
    assert_eq!(groups.len(), 1);
    assert_eq!(groups[0].project_name, Project::Dwall);
    let bad = QueryParams {
        time: Some(TimeQuery::Date { date: "not-a-date".to_string() }),
    };
    let none = get_all_projects_stats_by_time(&st, &bad).unwrap();
    assert!(none.is_empty());
}

#[test]
fn all_projects_scoped_by_month_and_year() {
    let mut st = VisitStore::new();
    insert(&mut st, Project::Dwall, "1.0.0.1", None, ts(2024, 5, 1, 0));
    insert(&mut st, Project::Lsar, "1.0.0.2", None, ts(2024, 6, 1, 0));
    insert(&mut st, Project::Lsar, "1.0.0.3", None, ts(2023, 6, 1, 0));
    let may = get_all_projects_stats_by_month(&st, "2024-05");
    assert_eq!(may.len(), 1);
    assert_eq!(may[0].project_name, Project::Dwall);
    let y2024 = get_all_projects_stats_by_year(&st, "2024");
    assert_eq!(y2024.len(), 2);
    let bad = get_all_projects_stats_by_date(&st, "01-05-2024");
    assert!(bad.is_empty());
    assert!(get_all_projects_stats_by_month(&st, "May 2024").is_empty());
    assert!(get_all_projects_stats_by_year(&st, "MMXXIV").is_empty());
}
