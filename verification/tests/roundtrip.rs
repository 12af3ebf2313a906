//! A full export-to-import round trip over a fixed corpus, simulated at
//! the page level: export with the catch-all filter, size 100 and one
//! worker, piped into import with the same settings, reproduces the
//! same identifiers and payloads minus the transient fields.
use limber::export::construct_query;
use limber::export::process_page;
use limber::export::PageOutcome;
use limber::import::make_batches;
use limber::import::transform_records;
use limber::json::Json;
use limber::stats::Counter;

fn s(text: &str) -> String {
    text.to_string()
}

fn corpus_hit(id: u64) -> Json {
    Json::Obj(vec![
        (s("_index"), Json::Str(s("books"))),
        (s("_id"), Json::Str(id.to_string())),
        (s("_score"), Json::Null),
        (s("_source"), Json::Obj(vec![(s("n"), Json::Uint(id))])),
        (s("sort"), Json::Arr(vec![Json::Uint(id)])),
    ])
}

fn page(ids: std::ops::Range<u64>, cursor: &str) -> Json {
    let hits: Vec<Json> = ids.map(corpus_hit).collect();
    Json::Obj(vec![
        (s("_scroll_id"), Json::Str(s(cursor))),
        (s("hits"), Json::Obj(vec![(s("hits"), Json::Arr(hits))])),
    ])
}

#[test]
fn export_piped_into_import_reproduces_the_corpus() {
    let size = 100u64;
    // One worker: the query carries no slice.
    let query = construct_query(Json::Obj(vec![(s("match_all"), Json::Obj(vec![]))]), size, 0, 1)
        .unwrap();
    assert!(matches!(&query, Json::Obj(es) if es.len() == 3));

    // Export: three pages, the last one empty.
    let mut export_counter = Counter::new(0);
    let mut emitted: Vec<Json> = Vec::new();
    for body in [page(0..100, "c1"), page(100..150, "c2"), page(150..150, "c3")] {
        match process_page(body).unwrap() {
            PageOutcome::Page { records, scroll_id: _ } => {
                export_counter.increment(records.len());
                emitted.extend(records);
            }
            PageOutcome::Done => break,
        }
    }
    assert_eq!(export_counter.get(), 150);
    assert_eq!(emitted.len(), 150);

    // Import: the emitted lines, batched at the same size, one worker.
    let mut import_counter = Counter::new(0);
    let (ops, dropped) = transform_records(emitted, &None);
    assert_eq!(dropped, 0);
    let batches = make_batches(ops, size as usize);
    assert_eq!(batches.len(), 2);
    let mut written: Vec<(String, String, Json)> = Vec::new();
    for batch in batches {
        import_counter.increment(batch.len());
        for op in batch {
            written.push((op.index, op.id, op.source));
        }
    }
    assert_eq!(import_counter.get(), 150);

    // The target sees the same identifiers and payloads, minus the
    // transient ranking fields.
    assert_eq!(written.len(), 150);
    for (i, (index, id, source)) in written.iter().enumerate() {
        assert_eq!(index, "books");
        assert_eq!(id, &(i as u64).to_string());
        assert_eq!(source, &Json::Obj(vec![(s("n"), Json::Uint(i as u64))]));
    }
}
