use viewer_report::render::{report_line, report_lines, u64_to_decimal};
use viewer_report::report::{
    assemble, collect_reports, lookup_count, sort_reports, visible_reports, zero_viewer_names,
    CatalogRecord, GameOutcome, GameReport,
};

fn report(name: &str, catalog_id: &str, viewers: u64) -> GameReport {
    GameReport { name: name.to_string(), catalog_id: catalog_id.to_string(), viewers }
}

fn viewer_counts(reports: &[GameReport]) -> Vec<u64> {
    reports.iter().map(|r| r.viewers).collect()
}

#[test]
fn collect_keeps_exactly_the_resolved_games() {
    let outcomes = vec![
        GameOutcome::Resolved(report("Foo", "1", 3)),
        GameOutcome::NotFound("Ghost".to_string()),
        GameOutcome::Resolved(report("Bar", "2", 0)),
    ];
    let reports = collect_reports(outcomes);
    assert_eq!(reports.len(), 2);
    assert_eq!(reports[0].name, "Foo");
    assert_eq!(reports[0].viewers, 3);
    assert_eq!(reports[1].name, "Bar");
    assert_eq!(reports[1].viewers, 0);
}

#[test]
fn one_failure_leaves_the_others_untouched() {
    let with_failure = vec![
        GameOutcome::Resolved(report("Foo", "1", 3)),
        GameOutcome::NotFound("Bar".to_string()),
    ];
    let without_failure = vec![
        GameOutcome::Resolved(report("Foo", "1", 3)),
        GameOutcome::Resolved(report("Bar", "2", 7)),
    ];
    let a = collect_reports(with_failure);
    let b = collect_reports(without_failure);
    assert_eq!(a[0].name, b[0].name);
    assert_eq!(a[0].viewers, b[0].viewers);
    assert_eq!(a.len(), 1);
    assert_eq!(b.len(), 2);
}

#[test]
fn lookup_returns_recorded_count_or_zero() {
    let counts = vec![("10".to_string(), 42u64), ("20".to_string(), 7u64)];
    assert_eq!(lookup_count(&counts, &"10".to_string()), 42);
    assert_eq!(lookup_count(&counts, &"20".to_string()), 7);
    assert_eq!(lookup_count(&counts, &"30".to_string()), 0);
}

#[test]
fn assemble_joins_by_catalog_id_defaulting_to_zero() {
    let records = vec![
        CatalogRecord {
            name: "Foo".to_string(),
            catalog_id: "10".to_string(),
            external_catalog_id: "100".to_string(),
        },
        CatalogRecord {
            name: "Bar".to_string(),
            catalog_id: "20".to_string(),
            external_catalog_id: "200".to_string(),
        },
    ];
    let counts = vec![("20".to_string(), 42u64)];
    let reports = assemble(&records, &counts);
    assert_eq!(reports.len(), 2);
    assert_eq!(reports[0].name, "Foo");
    assert_eq!(reports[0].viewers, 0);
    assert_eq!(reports[1].name, "Bar");
    assert_eq!(reports[1].viewers, 42);
}

#[test]
fn sort_is_non_increasing_with_ties_adjacent() {
    let reports = vec![
        report("a", "1", 10),
        report("b", "2", 0),
        report("c", "3", 50),
        report("d", "4", 10),
    ];
    let sorted = sort_reports(&reports);
    assert_eq!(viewer_counts(&sorted), vec![50, 10, 10, 0]);
    let mut names: Vec<String> = sorted.iter().map(|r| r.name.clone()).collect();
    names.sort();
    assert_eq!(names, vec!["a", "b", "c", "d"]);
}

#[test]
fn sorting_the_same_fixture_twice_gives_the_same_report_set() {
    let outcomes = || {
        vec![
            GameOutcome::Resolved(report("Foo", "1", 0)),
            GameOutcome::NotFound("Ghost".to_string()),
            GameOutcome::Resolved(report("Bar", "2", 42)),
            GameOutcome::Resolved(report("Baz", "3", 42)),
        ]
    };
    let first = sort_reports(&collect_reports(outcomes()));
    let second = sort_reports(&collect_reports(outcomes()));
    assert_eq!(first.len(), second.len());
    for (x, y) in first.iter().zip(second.iter()) {
        assert_eq!(x.name, y.name);
        assert_eq!(x.catalog_id, y.catalog_id);
        assert_eq!(x.viewers, y.viewers);
    }
}

#[test]
fn quiet_report_hides_zero_viewer_rows() {
    let reports = vec![report("Foo", "1", 0), report("Bar", "2", 42)];
    let visible = visible_reports(&reports, false);
    let lines = report_lines(&visible);
    assert_eq!(lines, vec!["Bar | 42".to_string()]);
}

#[test]
fn verbose_report_shows_zero_viewer_rows() {
    let reports = vec![report("Foo", "1", 0), report("Bar", "2", 42)];
    let visible = visible_reports(&reports, true);
    let lines = report_lines(&visible);
    assert_eq!(lines, vec!["Foo | 0".to_string(), "Bar | 42".to_string()]);
}

#[test]
fn decimal_rendering_is_exact() {
    assert_eq!(u64_to_decimal(0), "0");
    assert_eq!(u64_to_decimal(9), "9");
    assert_eq!(u64_to_decimal(42), "42");
    assert_eq!(u64_to_decimal(1000), "1000");
    assert_eq!(u64_to_decimal(u64::MAX), "18446744073709551615");
}

#[test]
fn report_line_formats_name_and_count() {
    assert_eq!(report_line(&report("Dwarf Fortress", "1", 7)), "Dwarf Fortress | 7");
}

#[test]
fn zero_viewer_names_accumulate_without_duplicates() {
    let reports = vec![
        report("Foo", "1", 0),
        report("Bar", "2", 42),
        report("Old", "3", 0),
    ];
    let existing = vec!["Old".to_string(), "Stale".to_string()];
    let out = zero_viewer_names(&reports, &existing);
    assert_eq!(out, vec!["Old".to_string(), "Stale".to_string(), "Foo".to_string()]);
}
