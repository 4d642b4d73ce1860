use openrouter_local::logging::db::{
    filter_sql, is_sqlite_busy, page_window, persist_next, PersistAction, RequestListSearch, SqlPiece,
    WriteOutcome,
};

fn search() -> RequestListSearch {
    RequestListSearch {
        page: 3,
        page_size: 50,
        model: None,
        provider: None,
        has_error: false,
        q: None,
        from: None,
        to: None,
    }
}

fn render(pieces: &[SqlPiece]) -> String {
    pieces
        .iter()
        .map(|p| match p {
            SqlPiece::Text(t) => t.clone(),
            SqlPiece::BindText(v) => format!("[{v}]"),
            SqlPiece::BindInt(v) => format!("[{v}]"),
        })
        .collect()
}

#[test]
fn empty_search_adds_no_conditions() {
    assert!(filter_sql(&search()).is_empty());
}

#[test]
fn every_filter_in_order() {
    let s = RequestListSearch {
        model: Some("gpt-4o".into()),
        provider: Some("openai".into()),
        has_error: true,
        q: Some("hello".into()),
        from: Some(10),
        to: Some(20),
        ..search()
    };
    assert_eq!(
        render(&filter_sql(&s)),
        " AND model = [gpt-4o] AND provider = [openai] AND error IS NOT NULL AND trim(error) != '' AND (request_json LIKE [%hello%] OR response_text LIKE [%hello%]) AND created_at >= [10] AND created_at <= [20]"
    );
}

#[test]
fn page_window_caps_the_page_size() {
    assert_eq!(page_window(&search()), (50, 100));
    assert_eq!(page_window(&RequestListSearch { page_size: 500, page: 2, ..search() }), (200, 200));
    assert_eq!(page_window(&RequestListSearch { page: 0, ..search() }), (50, 0));
    assert_eq!(page_window(&RequestListSearch { page: u32::MAX, page_size: u32::MAX, ..search() }), (200, (u32::MAX as i64 - 1) * 200));
}

#[test]
fn busy_writes_are_retried_three_times() {
    assert_eq!(persist_next(0, WriteOutcome::Written), PersistAction::Done);
    assert_eq!(persist_next(0, WriteOutcome::Busy), PersistAction::RetryAfter(50));
    assert_eq!(persist_next(1, WriteOutcome::Busy), PersistAction::RetryAfter(100));
    assert_eq!(persist_next(2, WriteOutcome::Busy), PersistAction::RetryAfter(200));
    assert_eq!(persist_next(3, WriteOutcome::Busy), PersistAction::GiveUp);
    assert_eq!(persist_next(0, WriteOutcome::Failed), PersistAction::GiveUp);
    assert_eq!(persist_next(3, WriteOutcome::Written), PersistAction::Done);
}

#[test]
fn recognises_busy_databases() {
    assert!(is_sqlite_busy(&Some("5".into()), "x"));
    assert!(is_sqlite_busy(&Some("6".into()), "x"));
    assert!(!is_sqlite_busy(&Some("56".into()), "x"));
    assert!(!is_sqlite_busy(&Some("19".into()), "UNIQUE constraint failed"));
    assert!(is_sqlite_busy(&None, "error returned from database: database is locked"));
    assert!(!is_sqlite_busy(&None, "database is busy"));
}
