use project_tracker::dates::{parse_date, parse_month, parse_year, Date};
use project_tracker::project::{all_projects, Project};
use project_tracker::scope::{select_time_query, TimeQuery, TimeScope};

#[test]
fn well_formed_dates_parse() {
    assert_eq!(parse_date("2024-05-01"), Some(Date { year: 2024, month: 5, day: 1 }));
    assert_eq!(parse_date("0001-01-01"), Some(Date { year: 1, month: 1, day: 1 }));
    assert_eq!(parse_date("9999-12-31"), Some(Date { year: 9999, month: 12, day: 31 }));
}

#[test]
fn malformed_dates_are_rejected() {
    assert_eq!(parse_date(""), None);
    assert_eq!(parse_date("2024-5-1"), None);
    assert_eq!(parse_date("2024/05/01"), None);
    assert_eq!(parse_date("2024-13-01"), None);
    assert_eq!(parse_date("2024-00-01"), None);
    assert_eq!(parse_date("2024-05-00"), None);
    assert_eq!(parse_date("2024-05-32"), None);
    assert_eq!(parse_date("2024-05-011"), None);
    assert_eq!(parse_date("abcd-ef-gh"), None);
}

#[test]
fn months_and_years_parse() {
    assert_eq!(parse_month("2024-05"), Some((2024, 5)));
    assert_eq!(parse_month("2024-13"), None);
    assert_eq!(parse_month("2024-5"), None);
    assert_eq!(parse_month("202405"), None);
    assert_eq!(parse_year("2024"), Some(2024));
    assert_eq!(parse_year("24"), None);
    assert_eq!(parse_year("20a4"), None);
}

#[test]
fn time_query_parses_its_text() {
    let q = TimeQuery::Date { date: "2024-05-01".to_string() };
    assert_eq!(q.parse(), Some(TimeScope::OnDate(Date { year: 2024, month: 5, day: 1 })));
    let q = TimeQuery::Month { month: "2024-05".to_string() };
    assert_eq!(q.parse(), Some(TimeScope::InMonth(2024, 5)));
    let q = TimeQuery::Year { year: "2024".to_string() };
    assert_eq!(q.parse(), Some(TimeScope::InYear(2024)));
    let q = TimeQuery::Range {
        start_date: "2024-05-01".to_string(),
        end_date: "2024-05-31".to_string(),
    };
    assert_eq!(
        q.parse(),
        Some(TimeScope::Between(
            Date { year: 2024, month: 5, day: 1 },
            Date { year: 2024, month: 5, day: 31 },
        ))
    );
    let q = TimeQuery::Date { date: "yesterday".to_string() };
    assert_eq!(q.parse(), None);
}

#[test]
fn scope_fields_select_exactly_one_variant() {
    let none = select_time_query(None, None, None, None, None).unwrap();
    assert!(none.time.is_none());
    let day = select_time_query(Some("2024-05-01".to_string()), None, None, None, None).unwrap();
    assert!(matches!(day.time, Some(TimeQuery::Date { .. })));
    let month = select_time_query(None, Some("2024-05".to_string()), None, None, None).unwrap();
    assert!(matches!(month.time, Some(TimeQuery::Month { .. })));
    let year = select_time_query(None, None, Some("2024".to_string()), None, None).unwrap();
    assert!(matches!(year.time, Some(TimeQuery::Year { .. })));
    let range = select_time_query(
        None,
        None,
        None,
        Some("2024-05-01".to_string()),
        Some("2024-05-31".to_string()),
    )
    .unwrap();
    assert!(matches!(range.time, Some(TimeQuery::Range { .. })));
    // Mixed or partial field sets are malformed scopes.
    assert!(select_time_query(
        Some("2024-05-01".to_string()),
        Some("2024-05".to_string()),
        None,
        None,
        None
    )
    .is_err());
    assert!(select_time_query(None, None, None, Some("2024-05-01".to_string()), None).is_err());
    assert!(select_time_query(None, None, None, None, Some("2024-05-31".to_string())).is_err());
}

#[test]
fn registry_metadata_is_fixed() {
    assert_eq!(Project::Dwall.repository(), "https://github.com/dwall-rs/dwall");
    assert_eq!(Project::Lsar.repository(), "https://github.com/alley-rs/lsar");
    assert_eq!(Project::UP2B.repository(), "https://github.com/up2b/up2b");
    assert_eq!(Project::Fluxy.repository(), "https://github.com/alley-rs/fluxy");
    assert!(Project::Dwall.icon().ends_with("icon.ico"));
    assert!(!Project::Fluxy.description().is_empty());
    assert_eq!(Project::Dwall.name(), "dwall");
    assert_eq!(Project::UP2B.name(), "up2b");
    let all = all_projects();
    assert_eq!(all.len(), 4);
    for (i, p) in all.iter().enumerate() {
        assert_eq!(p.index(), i);
    }
}
