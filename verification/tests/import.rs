use limber::error::Error;
use limber::import::failed_items;
use limber::import::make_batches;
use limber::import::transform_record;
use limber::import::transform_records;
use limber::import::BulkOperation;
use limber::import::Dispatcher;
use limber::json::Json;
use limber::stats::Counter;

fn s(text: &str) -> String {
    text.to_string()
}

fn record(id: Option<&str>, index: Option<&str>, x: u64) -> Json {
    let mut es: Vec<(String, Json)> = Vec::new();
    if let Some(id) = id {
        es.push((s("_id"), Json::Str(s(id))));
    }
    if let Some(index) = index {
        es.push((s("_index"), Json::Str(s(index))));
    }
    es.push((s("_source"), Json::Obj(vec![(s("x"), Json::Uint(x))])));
    Json::Obj(es)
}

fn op(index: &str, id: &str, x: u64) -> BulkOperation {
    BulkOperation {
        index: s(index),
        id: s(id),
        source: Json::Obj(vec![(s("x"), Json::Uint(x))]),
    }
}

fn reply_item(failed: Json) -> Json {
    Json::Obj(vec![(
        s("index"),
        Json::Obj(vec![(s("_shards"), Json::Obj(vec![(s("failed"), failed)]))]),
    )])
}

#[test]
fn transform_resolves_index_from_record() {
    let r = transform_record(record(Some("1"), Some("a"), 1), &None);
    assert_eq!(r, Some(op("a", "1", 1)));
}

#[test]
fn transform_prefers_fixed_index() {
    let r = transform_record(record(Some("1"), Some("a"), 1), &Some(s("fixed")));
    assert_eq!(r, Some(op("fixed", "1", 1)));
}

#[test]
fn transform_fixed_index_covers_missing_field() {
    let r = transform_record(record(Some("1"), None, 1), &Some(s("fixed")));
    assert_eq!(r, Some(op("fixed", "1", 1)));
}

#[test]
fn transform_drops_record_without_identifier() {
    assert_eq!(transform_record(record(None, Some("a"), 1), &None), None);
    assert_eq!(transform_record(record(None, Some("a"), 1), &Some(s("fixed"))), None);
}

#[test]
fn transform_drops_record_without_index() {
    assert_eq!(transform_record(record(Some("1"), None, 1), &None), None);
}

#[test]
fn transform_drops_non_object_record() {
    assert_eq!(transform_record(Json::Str(s("junk")), &None), None);
    assert_eq!(transform_record(Json::Null, &Some(s("fixed"))), None);
}

#[test]
fn transform_keeps_number_text_verbatim() {
    let rec = Json::Obj(vec![
        (s("_id"), Json::Str(s("1"))),
        (s("_index"), Json::Str(s("a"))),
        (s("_source"), Json::Obj(vec![(s("ratio"), Json::NumText(s("1.50")))])),
    ]);
    let r = transform_record(rec, &None).unwrap();
    assert_eq!(
        r.source,
        Json::Obj(vec![(s("ratio"), Json::NumText(s("1.50")))])
    );
}

#[test]
fn transform_carries_missing_payload_as_null() {
    let rec = Json::Obj(vec![
        (s("_id"), Json::Str(s("1"))),
        (s("_index"), Json::Str(s("a"))),
    ]);
    let r = transform_record(rec, &None).unwrap();
    assert_eq!(r.source, Json::Null);
}

#[test]
fn malformed_record_yields_one_operation_of_two() {
    let lines = vec![record(Some("1"), Some("a"), 1), record(None, Some("a"), 2)];
    let (ops, dropped) = transform_records(lines, &None);
    assert_eq!(ops, vec![op("a", "1", 1)]);
    assert_eq!(dropped, 1);
    // The malformed record contributes nothing to the counter.
    let mut counter = Counter::new(0);
    assert_eq!(counter.increment(ops.len()), 1);
}

#[test]
fn batches_split_with_short_tail() {
    let ops = vec![op("a", "1", 1), op("a", "2", 2), op("a", "3", 3), op("a", "4", 4), op("a", "5", 5)];
    let batches = make_batches(ops, 2);
    assert_eq!(batches.len(), 3);
    assert_eq!(batches[0], vec![op("a", "1", 1), op("a", "2", 2)]);
    assert_eq!(batches[1], vec![op("a", "3", 3), op("a", "4", 4)]);
    assert_eq!(batches[2], vec![op("a", "5", 5)]);
}

#[test]
fn batches_of_empty_stream_are_none() {
    let batches = make_batches(Vec::new(), 3);
    assert_eq!(batches.len(), 0);
}

#[test]
fn two_records_fill_exactly_one_batch() {
    // Two well-formed input lines, size 2, concurrency 1: one bulk
    // request with two operations, and the counter ends at 2.
    let lines = vec![record(Some("1"), Some("a"), 1), record(Some("2"), Some("a"), 2)];
    let (ops, dropped) = transform_records(lines, &None);
    assert_eq!(dropped, 0);
    let batches = make_batches(ops, 2);
    assert_eq!(batches.len(), 1);
    assert_eq!(batches[0], vec![op("a", "1", 1), op("a", "2", 2)]);
    let mut counter = Counter::new(0);
    let mut dispatcher = Dispatcher::new(1);
    let mut total = 0usize;
    for batch in &batches {
        assert!(dispatcher.can_start());
        dispatcher.start();
        total = counter.increment(batch.len());
        dispatcher.finish();
    }
    assert_eq!(total, 2);
}

#[test]
fn clean_reply_reports_no_failures() {
    let body = Json::Obj(vec![(s("errors"), Json::Bool(false))]);
    assert_eq!(failed_items(body), Ok(vec![]));
}

#[test]
fn unreadable_error_flag_counts_as_clean() {
    let body = Json::Obj(vec![(s("errors"), Json::Str(s("no")))]);
    assert_eq!(failed_items(body), Ok(vec![]));
}

#[test]
fn flagged_reply_reports_failing_indices() {
    let items = Json::Arr(vec![
        reply_item(Json::Uint(0)),
        reply_item(Json::Uint(2)),
        reply_item(Json::Uint(0)),
        reply_item(Json::Str(s("boom"))),
    ]);
    let body = Json::Obj(vec![(s("errors"), Json::Bool(true)), (s("items"), items)]);
    assert_eq!(failed_items(body), Ok(vec![1, 3]));
}

#[test]
fn reply_without_flag_is_a_protocol_error() {
    assert_eq!(failed_items(Json::Obj(vec![])), Err(Error::MalformedBulkReply));
    assert_eq!(failed_items(Json::Null), Err(Error::MalformedBulkReply));
}

#[test]
fn flagged_reply_without_items_is_a_protocol_error() {
    let body = Json::Obj(vec![(s("errors"), Json::Bool(true))]);
    assert_eq!(failed_items(body), Err(Error::MalformedBulkReply));
}

#[test]
fn item_without_shard_outcome_is_a_protocol_error() {
    let items = Json::Arr(vec![reply_item(Json::Uint(0)), Json::Obj(vec![])]);
    let body = Json::Obj(vec![(s("errors"), Json::Bool(true)), (s("items"), items)]);
    assert_eq!(failed_items(body), Err(Error::MissingShardInfo));
}

#[test]
fn dispatcher_never_exceeds_its_bound() {
    let mut d = Dispatcher::new(2);
    assert!(d.can_start());
    d.start();
    assert!(d.can_start());
    d.start();
    // The bound is reached: a third batch must wait.
    assert!(!d.can_start());
    assert_eq!(d.in_flight, 2);
    d.finish();
    assert!(d.can_start());
    d.start();
    assert!(!d.can_start());
    d.finish();
    d.finish();
    assert_eq!(d.in_flight, 0);
    assert_eq!(d.completed, 3);
}
