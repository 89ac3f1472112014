use area_history::aggregate::{aggregate_all, FetchResult};
use area_history::csvout::{parse_csv, render_csv};
use area_history::model::ParseError;
use area_history::parse::{parse_history, parse_snapshot};
use area_history::retry::{Decision, FetchError, Outcome, RetryState};
use area_history::strutil::{index_url, snapshot_url};

const SNAPSHOT_BODY: &str = r#"[
    {"hash": "abc123", "area": 12.5, "percent": "42.5", "type": "occupied"},
    {"hash": "def456", "area": 3, "percent": "0.25", "area_type": "liberated"}
]"#;

#[test]
fn percent_string_parses_to_number() {
    let recs = parse_snapshot(r#"[{"hash":"h","area":1,"percent":"42.5","type":"t"}]"#, 0)
        .expect("valid snapshot");
    assert_eq!(recs.len(), 1);
    assert_eq!(recs[0].percent, "42.5");
}

#[test]
fn percent_non_numeric_fails_snapshot() {
    let r = parse_snapshot(r#"[{"hash":"h","area":1,"percent":"a lot","type":"t"}]"#, 0);
    assert_eq!(r.unwrap_err(), ParseError::PercentNotNumeric);
}

#[test]
fn percent_is_rendered_canonically() {
    let recs = parse_snapshot(r#"[{"hash":"h","area":1,"percent":"42.50","type":"t"}]"#, 0)
        .expect("valid snapshot");
    assert_eq!(recs[0].percent, "42.5");
}

#[test]
fn category_read_from_type_field() {
    let recs = parse_snapshot(r#"[{"hash":"h","area":1,"percent":"1","type":"occupied"}]"#, 0)
        .expect("valid snapshot");
    assert_eq!(recs[0].area_type, "occupied");
}

#[test]
fn category_read_from_area_type_field() {
    let recs = parse_snapshot(
        r#"[{"hash":"h","area":1,"percent":"1","area_type":"liberated"}]"#,
        0,
    )
    .expect("valid snapshot");
    assert_eq!(recs[0].area_type, "liberated");
}

#[test]
fn category_prefers_type_when_both_present() {
    let recs = parse_snapshot(
        r#"[{"hash":"h","area":1,"percent":"1","type":"first","area_type":"second"}]"#,
        0,
    )
    .expect("valid snapshot");
    assert_eq!(recs[0].area_type, "first");
}

#[test]
fn timestamp_attached_from_entry_id() {
    let recs = parse_snapshot(SNAPSHOT_BODY, 1431648000).expect("valid snapshot");
    assert_eq!(recs.len(), 2);
    for r in &recs {
        assert_eq!(r.time_index, 1431648000);
        assert_eq!(r.time_text, "2015-05-15 00:00:00 UTC");
    }
}

#[test]
fn retry_delivers_on_fourth_attempt() {
    let mut st = RetryState::new(10);
    for _ in 0..3 {
        let d = st.step(Outcome::HttpStatus(500));
        assert!(matches!(d, Decision::RetryAfterDelay));
    }
    match st.step(Outcome::Body("payload".to_string())) {
        Decision::Deliver(b) => assert_eq!(b, "payload"),
        _ => panic!("expected the body of the fourth attempt"),
    }
}

#[test]
fn retry_gives_up_after_last_attempt() {
    let mut st = RetryState::new(3);
    assert!(matches!(st.step(Outcome::HttpStatus(500)), Decision::RetryAfterDelay));
    assert!(matches!(st.step(Outcome::HttpStatus(502)), Decision::RetryAfterDelay));
    match st.step(Outcome::HttpStatus(500)) {
        Decision::GiveUp(FetchError::Http(code)) => assert_eq!(code, 500),
        _ => panic!("expected exhaustion with the last status"),
    }
}

#[test]
fn retry_reports_most_recent_transport_error() {
    let mut st = RetryState::new(2);
    assert!(matches!(
        st.step(Outcome::Transport("connection refused".to_string())),
        Decision::RetryAfterDelay
    ));
    match st.step(Outcome::HttpStatus(500)) {
        Decision::GiveUp(FetchError::Transport(msg)) => assert_eq!(msg, "connection refused"),
        _ => panic!("expected the recorded transport error"),
    }
}

#[test]
fn fetched_snapshot_included_exactly_once() {
    let items = vec![(1431648000i64, FetchResult::Fetched(SNAPSHOT_BODY.to_string()))];
    let recs = aggregate_all(items).expect("valid run");
    assert_eq!(recs.len(), 2);
    assert_eq!(recs[0].hash, "abc123");
    assert_eq!(recs[1].hash, "def456");
}

#[test]
fn skipped_snapshot_contributes_zero_records() {
    let one = r#"[{"hash":"first","area":1,"percent":"1","type":"a"}]"#;
    let two = r#"[{"hash":"third","area":3,"percent":"3","type":"c"}]"#;
    let items = vec![
        (100i64, FetchResult::Fetched(one.to_string())),
        (200i64, FetchResult::Skipped),
        (300i64, FetchResult::Fetched(two.to_string())),
    ];
    let recs = aggregate_all(items).expect("valid run");
    assert_eq!(recs.len(), 2);
    assert_eq!(recs[0].hash, "first");
    assert_eq!(recs[0].time_index, 100);
    assert_eq!(recs[1].hash, "third");
    assert_eq!(recs[1].time_index, 300);
}

#[test]
fn aggregate_preserves_listing_order() {
    let b1 = r#"[{"hash":"a","area":1,"percent":"1","type":"x"},{"hash":"b","area":2,"percent":"2","type":"x"}]"#;
    let b2 = r#"[{"hash":"c","area":3,"percent":"3","type":"y"}]"#;
    let items = vec![
        (10i64, FetchResult::Fetched(b1.to_string())),
        (20i64, FetchResult::Fetched(b2.to_string())),
    ];
    let recs = aggregate_all(items).expect("valid run");
    let hashes: Vec<&str> = recs.iter().map(|r| r.hash.as_str()).collect();
    assert_eq!(hashes, vec!["a", "b", "c"]);
}

#[test]
fn decode_failure_ends_the_run() {
    let items = vec![
        (1i64, FetchResult::Fetched(r#"[{"hash":"a","area":1,"percent":"1","type":"x"}]"#.to_string())),
        (2i64, FetchResult::Fetched("not json".to_string())),
    ];
    assert_eq!(aggregate_all(items).unwrap_err(), ParseError::MalformedJson);
}

#[test]
fn csv_round_trip_reproduces_fields() {
    let recs = parse_snapshot(SNAPSHOT_BODY, 1431648000).expect("valid snapshot");
    let text = render_csv(&recs);
    let rows = parse_csv(&text);
    assert_eq!(rows.len(), recs.len());
    for (row, rec) in rows.iter().zip(recs.iter()) {
        assert_eq!(row.len(), 5);
        assert_eq!(row[0], rec.time_text);
        assert_eq!(row[1], rec.hash);
        assert_eq!(row[2], rec.area);
        assert_eq!(row[3], rec.percent);
        assert_eq!(row[4], rec.area_type);
    }
}

#[test]
fn zero_entries_yield_header_only() {
    let recs = aggregate_all(Vec::new()).expect("empty run");
    assert_eq!(recs.len(), 0);
    let text = render_csv(&recs);
    assert_eq!(text, "time_index,hash,area,percent,area_type\n");
    assert_eq!(parse_csv(&text).len(), 0);
}

#[test]
fn area_number_rendered_canonically() {
    let recs = parse_snapshot(SNAPSHOT_BODY, 0).expect("valid snapshot");
    assert_eq!(recs[0].area, "12.5");
    assert_eq!(recs[1].area, "3");
}

#[test]
fn malformed_json_is_reported() {
    assert_eq!(parse_snapshot("{", 0).unwrap_err(), ParseError::MalformedJson);
}

#[test]
fn top_level_must_be_array() {
    assert_eq!(parse_snapshot("{}", 0).unwrap_err(), ParseError::TopNotArray);
}

#[test]
fn element_must_be_object() {
    assert_eq!(parse_snapshot("[1]", 0).unwrap_err(), ParseError::ElemNotObject);
}

#[test]
fn missing_hash_is_reported() {
    let r = parse_snapshot(r#"[{"area":1,"percent":"1","type":"t"}]"#, 0);
    assert_eq!(r.unwrap_err(), ParseError::MissingHash);
}

#[test]
fn hash_must_be_string() {
    let r = parse_snapshot(r#"[{"hash":5,"area":1,"percent":"1","type":"t"}]"#, 0);
    assert_eq!(r.unwrap_err(), ParseError::HashNotString);
}

#[test]
fn missing_area_is_reported() {
    let r = parse_snapshot(r#"[{"hash":"h","percent":"1","type":"t"}]"#, 0);
    assert_eq!(r.unwrap_err(), ParseError::MissingArea);
}

#[test]
fn area_must_be_number() {
    let r = parse_snapshot(r#"[{"hash":"h","area":"wide","percent":"1","type":"t"}]"#, 0);
    assert_eq!(r.unwrap_err(), ParseError::AreaNotNumber);
}

#[test]
fn missing_percent_is_reported() {
    let r = parse_snapshot(r#"[{"hash":"h","area":1,"type":"t"}]"#, 0);
    assert_eq!(r.unwrap_err(), ParseError::MissingPercent);
}

#[test]
fn percent_must_be_string() {
    let r = parse_snapshot(r#"[{"hash":"h","area":1,"percent":42.5,"type":"t"}]"#, 0);
    assert_eq!(r.unwrap_err(), ParseError::PercentNotString);
}

#[test]
fn missing_category_is_reported() {
    let r = parse_snapshot(r#"[{"hash":"h","area":1,"percent":"1"}]"#, 0);
    assert_eq!(r.unwrap_err(), ParseError::MissingCategory);
}

#[test]
fn category_must_be_string() {
    let r = parse_snapshot(r#"[{"hash":"h","area":1,"percent":"1","type":7}]"#, 0);
    assert_eq!(r.unwrap_err(), ParseError::CategoryNotString);
}

#[test]
fn history_index_parses_in_order() {
    let body = r#"[
        {"id": 1696573135, "updatedAt": "2023-10-06T06:18:55.000Z", "datetime": "06.10.2023",
         "status": true, "createdAt": "2023-10-06T06:18:55.000Z"},
        {"id": 1696486735, "updatedAt": "2023-10-05T06:18:55.000Z", "datetime": "05.10.2023",
         "status": false, "createdAt": "2023-10-05T06:18:55.000Z"}
    ]"#;
    let entries = parse_history(body).expect("valid index");
    assert_eq!(entries.len(), 2);
    assert_eq!(entries[0].id, 1696573135);
    assert_eq!(entries[0].datetime, "06.10.2023");
    assert!(entries[0].status);
    assert_eq!(entries[1].id, 1696486735);
    assert!(!entries[1].status);
}

#[test]
fn history_entry_id_must_be_integer() {
    let body = r#"[{"id": 1.5, "updatedAt": "u", "datetime": "d", "status": true, "createdAt": "c"}]"#;
    assert_eq!(parse_history(body).unwrap_err(), ParseError::IdNotInteger);
}

#[test]
fn history_entry_id_required() {
    let body = r#"[{"updatedAt": "u", "datetime": "d", "status": true, "createdAt": "c"}]"#;
    assert_eq!(parse_history(body).unwrap_err(), ParseError::MissingId);
}

#[test]
fn empty_index_is_a_valid_run() {
    let entries = parse_history("[]").expect("empty index");
    assert_eq!(entries.len(), 0);
}

#[test]
fn unrenderable_timestamp_is_reported() {
    let r = parse_snapshot(r#"[{"hash":"h","area":1,"percent":"1","type":"t"}]"#, i64::MAX);
    assert_eq!(r.unwrap_err(), ParseError::TimeOutOfRange);
}

#[test]
fn empty_snapshot_has_no_records() {
    let recs = parse_snapshot("[]", 42).expect("empty snapshot");
    assert_eq!(recs.len(), 0);
}

#[test]
fn reading_tolerates_a_missing_final_line_break() {
    let rows = parse_csv("time_index,hash,area,percent,area_type\nt,h,a,p,c");
    assert_eq!(rows.len(), 1);
    assert_eq!(rows[0], vec!["t", "h", "a", "p", "c"]);
}

#[test]
fn endpoint_urls_are_built_from_the_templates() {
    assert_eq!(index_url(), "https://deepstatemap.live/api/history/public");
    assert_eq!(snapshot_url(1696573135), "https://deepstatemap.live/api/history/1696573135/areas");
    assert_eq!(snapshot_url(0), "https://deepstatemap.live/api/history/0/areas");
    assert_eq!(snapshot_url(-7), "https://deepstatemap.live/api/history/-7/areas");
}
