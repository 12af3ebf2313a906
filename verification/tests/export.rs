use limber::error::Error;
use limber::export::construct_query;
use limber::export::process_page;
use limber::export::resolve_export_index;
use limber::export::PageOutcome;
use limber::export::ScrollWorker;
use limber::export::DEFAULT_CONCURRENCY;
use limber::export::DEFAULT_SIZE;
use limber::export::SCROLL_TTL;
use limber::json::Json;

fn s(text: &str) -> String {
    text.to_string()
}

fn match_all() -> Json {
    Json::Obj(vec![(s("match_all"), Json::Obj(vec![]))])
}

fn page_body(hits: Vec<Json>, cursor: Option<&str>) -> Json {
    let mut top: Vec<(String, Json)> = Vec::new();
    if let Some(c) = cursor {
        top.push((s("_scroll_id"), Json::Str(s(c))));
    }
    top.push((s("hits"), Json::Obj(vec![(s("hits"), Json::Arr(hits))])));
    Json::Obj(top)
}

#[test]
fn defaults_match_the_cli() {
    assert_eq!(DEFAULT_SIZE, 100);
    assert_eq!(DEFAULT_CONCURRENCY, 1);
    assert_eq!(SCROLL_TTL, "1m");
}

#[test]
fn single_worker_query_has_no_slice() {
    let q = construct_query(match_all(), 100, 0, 1).unwrap();
    let expected = Json::Obj(vec![
        (s("query"), match_all()),
        (s("size"), Json::Uint(100)),
        (s("sort"), Json::Arr(vec![Json::Str(s("_doc"))])),
    ]);
    assert_eq!(q, expected);
}

#[test]
fn sliced_queries_cover_every_worker() {
    let max = 3usize;
    for id in 0..max {
        let q = construct_query(match_all(), 500, id, max).unwrap();
        let expected = Json::Obj(vec![
            (s("query"), match_all()),
            (s("size"), Json::Uint(500)),
            (s("sort"), Json::Arr(vec![Json::Str(s("_doc"))])),
            (
                s("slice"),
                Json::Obj(vec![
                    (s("id"), Json::Uint(id as u64)),
                    (s("max"), Json::Uint(max as u64)),
                ]),
            ),
        ]);
        assert_eq!(q, expected);
    }
}

#[test]
fn rejects_non_object_filter() {
    assert_eq!(
        construct_query(Json::Str(s("match_all")), 100, 0, 1),
        Err(Error::InvalidFilter)
    );
    assert_eq!(
        construct_query(Json::Arr(vec![]), 100, 0, 2),
        Err(Error::InvalidFilter)
    );
}

#[test]
fn page_records_lose_transient_fields() {
    let hit = Json::Obj(vec![
        (s("_id"), Json::Str(s("1"))),
        (s("_score"), Json::Null),
        (s("_index"), Json::Str(s("a"))),
        (s("sort"), Json::Arr(vec![Json::Uint(7)])),
        (s("_source"), Json::Obj(vec![(s("x"), Json::Uint(1))])),
    ]);
    let body = page_body(vec![hit], Some("cursor-1"));
    match process_page(body).unwrap() {
        PageOutcome::Page { records, scroll_id } => {
            assert_eq!(scroll_id, s("cursor-1"));
            assert_eq!(records.len(), 1);
            let expected = Json::Obj(vec![
                (s("_id"), Json::Str(s("1"))),
                (s("_index"), Json::Str(s("a"))),
                (s("_source"), Json::Obj(vec![(s("x"), Json::Uint(1))])),
            ]);
            assert_eq!(records[0], expected);
        }
        PageOutcome::Done => panic!("page with one hit reported as done"),
    }
}

#[test]
fn empty_page_finishes_the_scroll() {
    let body = page_body(vec![], Some("cursor-1"));
    assert!(matches!(process_page(body).unwrap(), PageOutcome::Done));
    // An empty page needs no cursor at all.
    let body = page_body(vec![], None);
    assert!(matches!(process_page(body).unwrap(), PageOutcome::Done));
}

#[test]
fn page_without_hits_is_a_protocol_error() {
    assert_eq!(process_page(Json::Obj(vec![])), Err(Error::MissingHits));
    assert_eq!(process_page(Json::Null), Err(Error::MissingHits));
    let no_inner = Json::Obj(vec![(s("hits"), Json::Obj(vec![]))]);
    assert_eq!(process_page(no_inner), Err(Error::MissingHits));
}

#[test]
fn page_with_non_object_hit_is_a_protocol_error() {
    let body = page_body(vec![Json::Str(s("junk"))], Some("cursor-1"));
    assert_eq!(process_page(body), Err(Error::MalformedHit));
}

#[test]
fn nonempty_page_without_cursor_is_a_protocol_error() {
    let hit = Json::Obj(vec![(s("_id"), Json::Str(s("1")))]);
    let body = page_body(vec![hit], None);
    assert_eq!(process_page(body), Err(Error::MissingCursor));
}

#[test]
fn scroll_worker_walks_to_completion() {
    let mut worker = ScrollWorker::new();
    assert!(!worker.finished());
    let hit = Json::Obj(vec![(s("_id"), Json::Str(s("1")))]);
    let records = worker.on_page(page_body(vec![hit], Some("c1"))).unwrap();
    assert_eq!(records.len(), 1);
    assert!(!worker.finished());
    let records = worker.on_page(page_body(vec![], None)).unwrap();
    assert_eq!(records.len(), 0);
    assert!(worker.finished());
}

#[test]
fn export_index_defaults_to_catch_all() {
    assert_eq!(resolve_export_index(Some(s("books"))), s("books"));
    assert_eq!(resolve_export_index(None), s("_all"));
}
