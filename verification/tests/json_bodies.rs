use viewer_report::json::{
    extract_access_token, extract_library_names, parse_catalog_record, parse_streams_page,
};

#[test]
fn streams_page_reads_counts_and_cursor() {
    let body = r#"{"data":[{"viewer_count":5},{"viewer_count":0},{"title":"no count"}],"pagination":{"cursor":"abc"}}"#;
    let page = parse_streams_page(body).expect("valid JSON");
    assert_eq!(page.counts, vec![5, 0, 0]);
    assert_eq!(page.cursor.as_deref(), Some("abc"));
}

#[test]
fn streams_page_without_cursor_or_data() {
    let body = r#"{"data":[],"pagination":{}}"#;
    let page = parse_streams_page(body).expect("valid JSON");
    assert!(page.counts.is_empty());
    assert!(page.cursor.is_none());

    let body = r#"{}"#;
    let page = parse_streams_page(body).expect("valid JSON");
    assert!(page.counts.is_empty());
    assert!(page.cursor.is_none());
}

#[test]
fn streams_page_defaults_bad_counts_to_zero() {
    let body = r#"{"data":[{"viewer_count":"many"},{"viewer_count":-3},{"viewer_count":12}]}"#;
    let page = parse_streams_page(body).expect("valid JSON");
    assert_eq!(page.counts, vec![0, 0, 12]);
}

#[test]
fn streams_page_rejects_non_json() {
    assert!(parse_streams_page("not json at all").is_none());
}

#[test]
fn catalog_record_takes_the_first_match() {
    let body = r#"{"data":[{"id":"10","igdb_id":"100"},{"id":"11","igdb_id":"101"}]}"#;
    let name = "Foo".to_string();
    let record = parse_catalog_record(&name, body).expect("found");
    assert_eq!(record.name, "Foo");
    assert_eq!(record.catalog_id, "10");
    assert_eq!(record.external_catalog_id, "100");
}

#[test]
fn catalog_record_empty_data_means_not_found() {
    let name = "Foo".to_string();
    assert!(parse_catalog_record(&name, r#"{"data":[]}"#).is_none());
    assert!(parse_catalog_record(&name, r#"{}"#).is_none());
    assert!(parse_catalog_record(&name, "garbage").is_none());
}

#[test]
fn access_token_is_read_from_the_exchange_response() {
    let body = r#"{"access_token":"SECRET-REDACTED","expires_in":5011271}"#;
    assert_eq!(extract_access_token(body).as_deref(), Some("SECRET-REDACTED"));
    assert!(extract_access_token(r#"{"expires_in":1}"#).is_none());
    assert!(extract_access_token("garbage").is_none());
}

#[test]
fn library_names_are_read_from_the_owned_games_response() {
    let body = r#"{"response":{"games":[{"name":"Foo"},{"appid":7},{"name":"Bar"}]}}"#;
    assert_eq!(
        extract_library_names(body),
        Some(vec!["Foo".to_string(), "Bar".to_string()])
    );
    assert_eq!(extract_library_names(r#"{"response":{}}"#), Some(vec![]));
    assert!(extract_library_names("garbage").is_none());
}
