//! The export pipeline: sliced page queries and scroll page handling.
//!
//! Each export worker opens one scroll session over its slice of the
//! match set and streams pages until an empty page arrives. This module
//! holds the decisions of that loop: building the per-worker query,
//! stripping transient ranking fields from raw hits, reading the next
//! cursor, and the explicit worker state machine. Sending requests and
//! printing records happen outside the library; the caller feeds each
//! page body back in as a [`Json`] value.
use crate::error::Error;
use crate::json::lookup;
use crate::json::str_eq;
use crate::json::take_one;
use crate::json::take_two;
use crate::json::Json;
use vstd::prelude::*;
use vstd::string::StringExecFns;

verus! {

/// Default number of documents pulled or written per request.
pub const DEFAULT_SIZE: u64 = 100;

/// Default worker count for either pipeline.
pub const DEFAULT_CONCURRENCY: usize = 1;

/// Lifetime requested for each scroll cursor.
pub const SCROLL_TTL: &'static str = "1m";

/// Whether a value is the fixed sort of every page query: the single
/// marker that asks for stable per-shard document order, which scroll
/// paging requires.
pub open spec fn sort_marker(j: Json) -> bool {
    match j {
        Json::Arr(items) => items@.len() == 1 && (match items@[0] {
            Json::Str(s) => s@ == "_doc"@,
            _ => false,
        }),
        _ => false,
    }
}

/// Whether a value is the slice object addressing partition `id` out of
/// `max`.
pub open spec fn slice_marker(j: Json, id: int, max: int) -> bool {
    match j {
        Json::Obj(es) => es@.len() == 2 && es@[0].0@ == "id"@ && es@[0].1 == Json::Uint(
            id as u64,
        ) && es@[1].0@ == "max"@ && es@[1].1 == Json::Uint(max as u64),
        _ => false,
    }
}

/// The exact shape of the page query built for worker `id` of `max`:
/// the caller's filter, the page size, the fixed sort, and — only when
/// more than one worker shares the scroll — this worker's slice.
pub open spec fn query_shape(q: Json, filter: Json, size: int, id: int, max: int) -> bool {
    match q {
        Json::Obj(es) => es@.len() == (if max > 1 {
            4int
        } else {
            3int
        }) && es@[0].0@ == "query"@ && es@[0].1 == filter && es@[1].0@ == "size"@ && es@[1].1
            == Json::Uint(size as u64) && es@[2].0@ == "sort"@ && sort_marker(es@[2].1) && (max > 1
            ==> es@[3].0@ == "slice"@ && slice_marker(es@[3].1, id, max)),
        _ => false,
    }
}

/// Constructs the page query for worker `id` of `max` workers.
///
/// Fails exactly when the filter is not a JSON object.
pub fn construct_query(filter: Json, size: u64, id: usize, max: usize) -> (r: Result<Json, Error>)
    requires
        1 <= size,
        1 <= max,
        id < max,
    ensures
        match filter {
            Json::Obj(_) => r matches Ok(q) && query_shape(
                q,
                filter,
                size as int,
                id as int,
                max as int,
            ),
            _ => r == Err::<Json, Error>(Error::InvalidFilter),
        },
{
    if !(matches!(filter, Json::Obj(_))) {
        return Err(Error::InvalidFilter);
    }
    let mut es: Vec<(String, Json)> = Vec::new();
    es.push((String::from_str("query"), filter));
    es.push((String::from_str("size"), Json::Uint(size)));
    let mut sort_items: Vec<Json> = Vec::new();
    sort_items.push(Json::Str(String::from_str("_doc")));
    es.push((String::from_str("sort"), Json::Arr(sort_items)));
    if max > 1 {
        let mut slice_es: Vec<(String, Json)> = Vec::new();
        slice_es.push((String::from_str("id"), Json::Uint(id as u64)));
        slice_es.push((String::from_str("max"), Json::Uint(max as u64)));
        es.push((String::from_str("slice"), Json::Obj(slice_es)));
    }
    Ok(Json::Obj(es))
}

/// The slice carried by a query, if any.
pub open spec fn slice_of(q: Json) -> Option<Json> {
    match q {
        Json::Obj(es) => lookup(es@, "slice"@),
        _ => None,
    }
}

/// Law: a slice field appears in the constructed query iff the worker
/// count is above one, and then it addresses exactly partition `id` of
/// `max`; so over workers `0..max` the slice ids exactly cover the
/// partition space.
pub proof fn lemma_slice_iff_partitioned(q: Json, filter: Json, size: int, id: int, max: int)
    requires
        query_shape(q, filter, size, id, max),
        1 <= max,
        0 <= id < max,
    ensures
        (slice_of(q) matches Some(_)) <==> max > 1,
        max > 1 ==> (slice_of(q) matches Some(s) && slice_marker(s, id, max)),
{
    reveal_strlit("query");
    reveal_strlit("size");
    reveal_strlit("sort");
    reveal_strlit("slice");
    assert("query"@.len() == 5);
    assert("size"@.len() == 4);
    assert("sort"@.len() == 4);
    assert("slice"@.len() == 5);
    assert("query"@[0] == 'q');
    assert("slice"@[0] == 's');
    match q {
        Json::Obj(es) => {
            assert(es@[0].0@ != "slice"@);
            assert(es@[1].0@ != "slice"@);
            assert(es@[2].0@ != "slice"@);
            assert(lookup(es@, "slice"@) == lookup(es@.drop_first(), "slice"@));
            assert(lookup(es@.drop_first(), "slice"@) == lookup(
                es@.drop_first().drop_first(),
                "slice"@,
            ));
            assert(lookup(es@.drop_first().drop_first(), "slice"@) == lookup(
                es@.drop_first().drop_first().drop_first(),
                "slice"@,
            ));
            if max > 1 {
                assert(es@.drop_first().drop_first().drop_first()[0] == es@[3]);
                assert(lookup(es@.drop_first().drop_first().drop_first(), "slice"@) == Some(
                    es@[3].1,
                ));
            } else {
                assert(es@.drop_first().drop_first().drop_first().len() == 0);
            }
        },
        _ => {
            assert(false);
        },
    }
}

/// Whether an entry survives stripping: everything but the transient
/// ranking fields `sort` and `_score`.
pub open spec fn keeps(e: (String, Json)) -> bool {
    !(e.0@ == "sort"@ || e.0@ == "_score"@)
}

/// An object's entries without the transient ranking fields, in order.
pub open spec fn strip_entries(es: Seq<(String, Json)>) -> Seq<(String, Json)>
    decreases es.len(),
{
    if es.len() == 0 {
        Seq::empty()
    } else {
        let rest = strip_entries(es.drop_first());
        if keeps(es[0]) {
            seq![es[0]] + rest
        } else {
            rest
        }
    }
}

/// Whether `r` is the emitted form of the raw hit `hit`: the same
/// object with its transient ranking fields removed.
pub open spec fn stripped_form(hit: Json, r: Json) -> bool {
    match (hit, r) {
        (Json::Obj(es), Json::Obj(rs)) => rs@ == strip_entries(es@),
        _ => false,
    }
}

/// Strips the transient ranking fields from one raw hit.
///
/// Fails exactly when the hit is not a document object.
pub fn strip_transients(hit: Json) -> (r: Result<Json, Error>)
    ensures
        match hit {
            Json::Obj(_) => r matches Ok(s) && stripped_form(hit, s),
            _ => r == Err::<Json, Error>(Error::MalformedHit),
        },
{
    let es = match hit {
        Json::Obj(es) => es,
        _ => { return Err(Error::MalformedHit) },
    };
    let ghost all = es@;
    let mut rest = es;
    let mut out: Vec<(String, Json)> = Vec::new();
    while rest.len() > 0
        invariant
            strip_entries(all) == out@ + strip_entries(rest@),
        decreases rest.len(),
    {
        let ghost before = rest@;
        let e = rest.remove(0);
        proof {
            assert(rest@ =~= before.drop_first());
        }
        let transient = str_eq(e.0.as_str(), "sort") || str_eq(e.0.as_str(), "_score");
        if !transient {
            let ghost prev = out@;
            out.push(e);
            proof {
                assert(out@ + strip_entries(rest@) =~= prev + (seq![e] + strip_entries(rest@)));
            }
        }
    }
    proof {
        assert(out@ + strip_entries(rest@) =~= out@);
    }
    Ok(Json::Obj(out))
}

/// The hit array of a scroll page body, under `hits.hits`.
pub open spec fn page_hits(body: Json) -> Option<Seq<Json>> {
    match body {
        Json::Obj(es) => match lookup(es@, "hits"@) {
            Some(Json::Obj(hs)) => match lookup(hs@, "hits"@) {
                Some(Json::Arr(v)) => Some(v@),
                _ => None,
            },
            _ => None,
        },
        _ => None,
    }
}

/// The scroll cursor of a page body, under `_scroll_id`.
pub open spec fn page_cursor(body: Json) -> Option<Seq<char>> {
    match body {
        Json::Obj(es) => match lookup(es@, "_scroll_id"@) {
            Some(Json::Str(s)) => Some(s@),
            _ => None,
        },
        _ => None,
    }
}

/// Whether a value is a document object.
pub open spec fn is_document(j: Json) -> bool {
    j matches Json::Obj(_)
}

/// Whether every hit of a page is a document object.
pub open spec fn all_documents(hits: Seq<Json>) -> bool {
    forall|i: int| 0 <= i < hits.len() ==> is_document(#[trigger] hits[i])
}

/// What one scroll page tells the export worker.
#[derive(Debug, PartialEq, Eq)]
pub enum PageOutcome {
    /// The page was empty: the scroll is exhausted and the worker is
    /// done.
    Done,
    /// A non-empty page: the stripped documents to emit in arrival
    /// order, and the cursor for the continuation request.
    Page { records: Vec<Json>, scroll_id: String },
}

/// Whether `r` is the required reading of the page body: the exact
/// error taxonomy of a malformed page, `Done` for an empty page, and
/// otherwise the stripped records with the next cursor.
pub open spec fn page_result(body: Json, r: Result<PageOutcome, Error>) -> bool {
    match page_hits(body) {
        None => r == Err::<PageOutcome, Error>(Error::MissingHits),
        Some(hits) => if hits.len() == 0 {
            r == Ok::<PageOutcome, Error>(PageOutcome::Done)
        } else if !all_documents(hits) {
            r == Err::<PageOutcome, Error>(Error::MalformedHit)
        } else {
            match page_cursor(body) {
                None => r == Err::<PageOutcome, Error>(Error::MissingCursor),
                Some(cursor) => r matches Ok(PageOutcome::Page { records, scroll_id })
                    && records@.len() == hits.len() && (forall|i: int|
                    0 <= i < hits.len() ==> stripped_form(#[trigger] hits[i], records@[i]))
                    && scroll_id@ == cursor,
            }
        },
    }
}

/// Reads one scroll page body.
///
/// An empty hit array means the scroll is exhausted. A non-empty page
/// yields the hits with their transient ranking fields stripped, in
/// arrival order, and the cursor for the next request. A page without a
/// hit array, with a hit that is not an object, or — when non-empty —
/// without a cursor is rejected as a protocol error.
pub fn process_page(body: Json) -> (r: Result<PageOutcome, Error>)
    ensures
        page_result(body, r),
{
    proof {
        reveal_strlit("hits");
        reveal_strlit("_scroll_id");
        assert("hits"@.len() == 4);
        assert("_scroll_id"@.len() == 10);
    }
    let es = match body {
        Json::Obj(es) => es,
        _ => { return Err(Error::MissingHits) },
    };
    let (hits_member, cursor_member) = take_two(es, "hits", "_scroll_id");
    let hs = match hits_member {
        Some(Json::Obj(hs)) => hs,
        _ => { return Err(Error::MissingHits) },
    };
    let arr = match take_one(hs, "hits") {
        Some(Json::Arr(v)) => v,
        _ => { return Err(Error::MissingHits) },
    };
    if arr.len() == 0 {
        return Ok(PageOutcome::Done);
    }
    let ghost hits = arr@;
    let mut rest = arr;
    let mut records: Vec<Json> = Vec::new();
    while rest.len() > 0
        invariant
            page_hits(body) == Some(hits),
            hits.len() > 0,
            (match cursor_member {
                Some(Json::Str(s)) => page_cursor(body) == Some(s@),
                _ => page_cursor(body) matches None,
            }),
            records@.len() + rest@.len() == hits.len(),
            rest@ == hits.skip(records@.len() as int),
            forall|i: int|
                0 <= i < records@.len() ==> is_document(#[trigger] hits[i]) && stripped_form(
                    hits[i],
                    records@[i],
                ),
        decreases rest.len(),
    {
        let ghost k = records@.len() as int;
        let ghost before = rest@;
        let h = rest.remove(0);
        proof {
            assert(before[0] == hits[k]);
            assert(rest@ =~= hits.skip(k + 1));
        }
        let s = match strip_transients(h) {
            Ok(s) => s,
            Err(e) => {
                proof {
                    assert(!is_document(hits[k]));
                }
                return Err(e);
            },
        };
        records.push(s);
    }
    let scroll_id = match cursor_member {
        Some(Json::Str(s)) => s,
        _ => { return Err(Error::MissingCursor) },
    };
    Ok(PageOutcome::Page { records, scroll_id })
}

/// Law: emitted export records never contain the transient ranking
/// fields present in raw hits.
pub proof fn lemma_no_transient_fields(hit: Json, r: Json)
    requires
        stripped_form(hit, r),
    ensures
        match r {
            Json::Obj(rs) => lookup(rs@, "sort"@) matches None && lookup(rs@, "_score"@) matches None,
            _ => false,
        },
{
    match hit {
        Json::Obj(es) => {
            lemma_strip_drops(es@, "sort"@);
            lemma_strip_drops(es@, "_score"@);
        },
        _ => {
            assert(false);
        },
    }
}

/// A transient key is never found among stripped entries.
proof fn lemma_strip_drops(es: Seq<(String, Json)>, key: Seq<char>)
    requires
        key == "sort"@ || key == "_score"@,
    ensures
        lookup(strip_entries(es), key) matches None,
    decreases es.len(),
{
    if es.len() > 0 {
        lemma_strip_drops(es.drop_first(), key);
        if keeps(es[0]) {
            let tail = strip_entries(es.drop_first());
            assert((seq![es[0]] + tail)[0] == es[0]);
            assert((seq![es[0]] + tail).drop_first() =~= tail);
        }
    }
}

/// A key that stripping keeps is found among stripped entries exactly
/// as among the raw ones.
pub proof fn lemma_strip_keeps(es: Seq<(String, Json)>, key: Seq<char>)
    requires
        !(key == "sort"@ || key == "_score"@),
    ensures
        lookup(strip_entries(es), key) == lookup(es, key),
    decreases es.len(),
{
    if es.len() > 0 {
        lemma_strip_keeps(es.drop_first(), key);
        if keeps(es[0]) {
            let tail = strip_entries(es.drop_first());
            assert((seq![es[0]] + tail)[0] == es[0]);
            assert((seq![es[0]] + tail).drop_first() =~= tail);
        }
    }
}

/// The explicit state of one scroll worker.
#[derive(Debug, PartialEq, Eq)]
pub enum ScrollState {
    /// No page has been read yet: the initial search is outstanding.
    Opening,
    /// A page was read and the scroll continues under this cursor.
    Scrolling { scroll_id: String },
    /// An empty page was read: the session is over and its cursor is
    /// invalid.
    Finished,
}

/// One export worker's scroll session, stepped page by page.
///
/// The caller opens the session with the worker's page query, then feeds
/// each response body to [`ScrollWorker::on_page`] and sends a
/// continuation request for the returned cursor until the worker reports
/// itself finished.
pub struct ScrollWorker {
    pub state: ScrollState,
}

impl ScrollWorker {
    /// A worker that has not read any page yet.
    pub fn new() -> (r: Self)
        ensures
            r.state matches ScrollState::Opening,
    {
        ScrollWorker { state: ScrollState::Opening }
    }

    /// Whether the session is over.
    pub fn finished(&self) -> (r: bool)
        ensures
            r == (self.state matches ScrollState::Finished),
    {
        matches!(self.state, ScrollState::Finished)
    }

    /// Feeds the next page body to the worker.
    ///
    /// Returns the records to emit for this page, in arrival order; an
    /// empty page finishes the session and emits nothing. Any protocol
    /// error aborts the worker without a state change: the run is over
    /// either way.
    pub fn on_page(&mut self, body: Json) -> (r: Result<Vec<Json>, Error>)
        requires
            !(old(self).state matches ScrollState::Finished),
        ensures
            match page_hits(body) {
                None => r == Err::<Vec<Json>, Error>(Error::MissingHits) && final(self).state
                    == old(self).state,
                Some(hits) => if hits.len() == 0 {
                    r matches Ok(v) && v@.len() == 0 && final(self).state
                        matches ScrollState::Finished
                } else if !all_documents(hits) {
                    r == Err::<Vec<Json>, Error>(Error::MalformedHit)
                        && final(self).state == old(self).state
                } else {
                    match page_cursor(body) {
                        None => r == Err::<Vec<Json>, Error>(Error::MissingCursor)
                            && final(self).state == old(self).state,
                        Some(cursor) => r matches Ok(v) && v@.len() == hits.len() && (forall|i: int|
                            0 <= i < hits.len() ==> stripped_form(#[trigger] hits[i], v@[i])) && (
                        final(self).state matches ScrollState::Scrolling { scroll_id } && scroll_id@
                            == cursor),
                    }
                },
            },
    {
        match process_page(body) {
            Ok(PageOutcome::Done) => {
                self.state = ScrollState::Finished;
                Ok(Vec::new())
            },
            Ok(PageOutcome::Page { records, scroll_id }) => {
                self.state = ScrollState::Scrolling { scroll_id };
                Ok(records)
            },
            Err(e) => Err(e),
        }
    }
}

/// The export side's index fallback: a target without a fixed index
/// exports from the catch-all `_all` alias.
pub fn resolve_export_index(index: Option<String>) -> (r: String)
    ensures
        match index {
            Some(s) => r@ == s@,
            None => r@ == "_all"@,
        },
{
    match index {
        Some(s) => s,
        None => String::from_str("_all"),
    }
}

} // verus!
