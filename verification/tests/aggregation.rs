use viewer_report::aggregate::{aggregate_viewers, sum_counts, Aggregation, PageFetch, StreamsPage};

fn page(counts: Vec<u64>, cursor: Option<&str>) -> PageFetch {
    PageFetch::Page(StreamsPage { counts, cursor: cursor.map(|c| c.to_string()) })
}

#[test]
fn sum_counts_sums_exactly() {
    assert_eq!(sum_counts(&vec![5, 0, 3]), 8);
    assert_eq!(sum_counts(&vec![]), 0);
    assert_eq!(sum_counts(&vec![42]), 42);
}

#[test]
fn sum_counts_clamps_at_max() {
    assert_eq!(sum_counts(&vec![u64::MAX, 1]), u64::MAX);
    assert_eq!(sum_counts(&vec![u64::MAX, 0]), u64::MAX);
}

#[test]
fn three_pages_sum_to_eight() {
    let script = vec![
        page(vec![5], Some("next1")),
        page(vec![0], Some("next2")),
        page(vec![3], None),
    ];
    assert_eq!(aggregate_viewers(&script), 8);
}

#[test]
fn empty_cursor_ends_pagination() {
    let script = vec![page(vec![5], Some("")), page(vec![99], None)];
    assert_eq!(aggregate_viewers(&script), 5);
}

#[test]
fn failure_on_second_page_keeps_first_page_sum() {
    let script = vec![
        page(vec![7, 2], Some("next1")),
        PageFetch::Failure,
        page(vec![100], None),
    ];
    assert_eq!(aggregate_viewers(&script), 9);
}

#[test]
fn failure_on_first_page_yields_zero() {
    let script = vec![PageFetch::Failure, page(vec![100], None)];
    assert_eq!(aggregate_viewers(&script), 0);
}

#[test]
fn empty_script_yields_zero() {
    assert_eq!(aggregate_viewers(&vec![]), 0);
}

#[test]
fn pagination_stops_at_the_page_bound() {
    let mut script = Vec::new();
    for _ in 0..1500 {
        script.push(page(vec![1], Some("again")));
    }
    assert_eq!(aggregate_viewers(&script), 1000);
}

#[test]
fn counts_on_one_page_all_join_the_total() {
    let script = vec![page(vec![1, 2, 3, 4], None)];
    assert_eq!(aggregate_viewers(&script), 10);
}

#[test]
fn aggregation_state_records_pages_and_cursor() {
    let mut agg = Aggregation::new();
    assert_eq!(agg.total, 0);
    assert!(!agg.finished);
    assert!(agg.cursor.is_none());

    agg.on_page(&StreamsPage { counts: vec![5], cursor: Some("abc".to_string()) });
    assert_eq!(agg.total, 5);
    assert_eq!(agg.pages, 1);
    assert!(!agg.finished);
    assert_eq!(agg.cursor.as_deref(), Some("abc"));

    agg.on_failure();
    assert!(agg.finished);
    assert_eq!(agg.total, 5);
}
