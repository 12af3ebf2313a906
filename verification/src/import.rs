//! The import pipeline: record transform, batching, bulk-reply
//! inspection and the bounded dispatch pool.
//!
//! The caller reads raw lines, parses each into a [`Json`] record, and
//! feeds them through [`transform_record`] (or a whole finite stream
//! through [`transform_records`]). The surviving operations are grouped
//! by [`make_batches`]; each batch becomes exactly one bulk write. A
//! bulk reply is inspected by [`failed_items`], which reports the
//! item-level failures without failing the batch. [`Dispatcher`] keeps
//! the number of simultaneously in-flight batches within its bound.
//!
//! Failure policy: a transport- or status-level failure of a batch is
//! fatal to the whole run, while item-level failures inside an accepted
//! batch are reported and tolerated. Records that the transform drops
//! are counted, so a run can surface its losses.
use crate::error::Error;
use crate::export::lemma_strip_keeps;
use crate::export::stripped_form;
use crate::json::lookup;
use crate::json::opt_text;
use crate::json::take_three;
use crate::json::take_two;
use crate::json::Json;
use vstd::prelude::*;

verus! {

/// One write operation of a bulk request: index a document under its
/// identifier.
#[derive(Debug, PartialEq, Eq)]
pub struct BulkOperation {
    pub index: String,
    pub id: String,
    pub source: Json,
}

/// What the transform stage makes of one record: the write-target
/// index, the document identifier, and the payload. `None` for a record
/// that is dropped.
///
/// The index resolves to the caller's fixed index when one is present,
/// else to the record's own `_index` field. A record that is not an
/// object, lacks a string `_id`, or — without a fixed index — lacks a
/// string `_index` is dropped. A missing `_source` is carried as null.
pub open spec fn transform_spec(record: Json, fixed: Option<Seq<char>>) -> Option<
    (Seq<char>, Seq<char>, Json),
> {
    match record {
        Json::Obj(es) => {
            let ix = match fixed {
                Some(f) => Some(f),
                None => match lookup(es@, "_index"@) {
                    Some(Json::Str(s)) => Some(s@),
                    _ => None,
                },
            };
            let id = match lookup(es@, "_id"@) {
                Some(Json::Str(s)) => Some(s@),
                _ => None,
            };
            let src = match lookup(es@, "_source"@) {
                Some(v) => v,
                None => Json::Null,
            };
            match (ix, id) {
                (Some(i), Some(d)) => Some((i, d, src)),
                _ => None,
            }
        },
        _ => None,
    }
}

/// Whether an operation carries the values a spec-level transform
/// names.
pub open spec fn op_matches(op: BulkOperation, t: (Seq<char>, Seq<char>, Json)) -> bool {
    op.index@ == t.0 && op.id@ == t.1 && op.source == t.2
}

/// Transforms one parsed input record into a write operation.
///
/// Returns `None` exactly for the records that [`transform_spec`]
/// drops.
pub fn transform_record(record: Json, fixed: &Option<String>) -> (r: Option<BulkOperation>)
    ensures
        match transform_spec(record, opt_text(*fixed)) {
            Some(t) => r matches Some(op) && op_matches(op, t),
            None => r matches None,
        },
{
    proof {
        reveal_strlit("_id");
        reveal_strlit("_index");
        reveal_strlit("_source");
        assert("_id"@.len() == 3);
        assert("_index"@.len() == 6);
        assert("_source"@.len() == 7);
    }
    let es = match record {
        Json::Obj(es) => es,
        _ => { return None },
    };
    let (idv, ixv, srcv) = take_three(es, "_id", "_index", "_source");
    let id = match idv {
        Some(Json::Str(s)) => s,
        _ => { return None },
    };
    let index = match fixed {
        Some(f) => f.clone(),
        None => match ixv {
            Some(Json::Str(s)) => s,
            _ => { return None },
        },
    };
    let source = match srcv {
        Some(v) => v,
        None => Json::Null,
    };
    Some(BulkOperation { index, id, source })
}

/// The transform of a whole finite stream, in order, dropped records
/// left out.
pub open spec fn transform_all(lines: Seq<Json>, fixed: Option<Seq<char>>) -> Seq<
    (Seq<char>, Seq<char>, Json),
>
    decreases lines.len(),
{
    if lines.len() == 0 {
        Seq::empty()
    } else {
        let rest = transform_all(lines.drop_first(), fixed);
        match transform_spec(lines[0], fixed) {
            Some(t) => seq![t] + rest,
            None => rest,
        }
    }
}

/// Whether a sequence of operations carries, element for element, the
/// values a spec-level transform stream names.
pub open spec fn ops_match(
    ops: Seq<BulkOperation>,
    ts: Seq<(Seq<char>, Seq<char>, Json)>,
) -> bool {
    ops.len() == ts.len() && (forall|i: int|
        0 <= i < ops.len() ==> op_matches(#[trigger] ops[i], ts[i]))
}

/// Runs the transform stage over a whole finite stream.
///
/// Returns the surviving operations in input order together with the
/// number of dropped records, so a run can surface how much was lost
/// rather than dropping silently.
pub fn transform_records(lines: Vec<Json>, fixed: &Option<String>) -> (r: (
    Vec<BulkOperation>,
    usize,
))
    ensures
        ops_match(r.0@, transform_all(lines@, opt_text(*fixed))),
        r.0@.len() + r.1 == lines@.len(),
{
    let ghost all = lines@;
    let ghost fx = opt_text(*fixed);
    let ghost ts = transform_all(all, fx);
    let mut rest = lines;
    let total_in: usize = rest.len();
    let mut ops: Vec<BulkOperation> = Vec::new();
    let mut dropped: usize = 0;
    while rest.len() > 0
        invariant
            ts == transform_all(all, fx),
            fx == opt_text(*fixed),
            transform_all(rest@, fx) == ts.skip(ops@.len() as int),
            ops@.len() <= ts.len(),
            ops_match(ops@, ts.take(ops@.len() as int)),
            ops@.len() + dropped + rest@.len() == all.len(),
            all.len() == total_in as int,
        decreases rest.len(),
    {
        let ghost k = ops@.len() as int;
        let ghost before = rest@;
        let e = rest.remove(0);
        proof {
            assert(rest@ =~= before.drop_first());
        }
        match transform_record(e, fixed) {
            Some(op) => {
                proof {
                    assert(ts.skip(k).drop_first() =~= ts.skip(k + 1));
                    assert(ts[k] == ts.skip(k)[0]);
                }
                ops.push(op);
                proof {
                    assert(ts.take(k + 1) =~= ts.take(k).push(ts[k]));
                }
            },
            None => {
                dropped = dropped + 1;
            },
        }
    }
    proof {
        assert(ts.take(ops@.len() as int) =~= ts);
    }
    (ops, dropped)
}

/// The stream of operations cut into batches of `size`, the last batch
/// possibly shorter.
pub open spec fn batches_spec(s: Seq<BulkOperation>, size: int) -> Seq<Seq<BulkOperation>>
    decreases s.len(),
{
    if s.len() == 0 || size < 1 {
        Seq::empty()
    } else if s.len() <= size {
        seq![s]
    } else {
        seq![s.take(size)] + batches_spec(s.skip(size), size)
    }
}

/// The views of a vector of batches.
pub open spec fn views_of(bs: Seq<Vec<BulkOperation>>) -> Seq<Seq<BulkOperation>> {
    bs.map_values(|b: Vec<BulkOperation>| b@)
}

/// Groups a stream of operations into batches of `size`; only the last
/// batch may be shorter.
pub fn make_batches(ops: Vec<BulkOperation>, size: usize) -> (r: Vec<Vec<BulkOperation>>)
    requires
        1 <= size,
    ensures
        views_of(r@) == batches_spec(ops@, size as int),
{
    let ghost all = ops@;
    let mut rest = ops;
    let mut out: Vec<Vec<BulkOperation>> = Vec::new();
    proof {
        assert(views_of(out@) + batches_spec(rest@, size as int) =~= batches_spec(
            all,
            size as int,
        ));
    }
    while rest.len() > 0
        invariant
            1 <= size,
            batches_spec(all, size as int) == views_of(out@) + batches_spec(rest@, size as int),
        decreases rest.len(),
    {
        let ghost rb = rest@;
        let take_n = if rest.len() > size {
            size
        } else {
            rest.len()
        };
        let mut batch: Vec<BulkOperation> = Vec::new();
        proof {
            assert(batch@ =~= rb.take(0));
            assert(rest@ =~= rb.skip(0));
        }
        while batch.len() < take_n
            invariant
                take_n <= rb.len(),
                batch@.len() <= take_n,
                batch@ == rb.take(batch@.len() as int),
                rest@ == rb.skip(batch@.len() as int),
            decreases take_n - batch.len(),
        {
            let ghost k = batch@.len() as int;
            let ghost before = rest@;
            let e = rest.remove(0);
            proof {
                assert(before[0] == rb[k]);
                assert(rest@ =~= rb.skip(k + 1));
            }
            batch.push(e);
            proof {
                assert(batch@ =~= rb.take(k + 1));
            }
        }
        let ghost prev = out@;
        out.push(batch);
        proof {
            assert(views_of(out@) =~= views_of(prev).push(batch@));
            if rb.len() <= size as int {
                assert(batch@ =~= rb);
                assert(rest@.len() == 0);
                assert(batches_spec(rb, size as int) == seq![rb]);
                assert(views_of(out@) + batches_spec(rest@, size as int) =~= views_of(prev)
                    + batches_spec(rb, size as int));
            } else {
                assert(batch@ =~= rb.take(size as int));
                assert(rest@ =~= rb.skip(size as int));
                assert(views_of(out@) + batches_spec(rest@, size as int) =~= views_of(prev) + (
                seq![rb.take(size as int)] + batches_spec(rb.skip(size as int), size as int)));
            }
        }
    }
    proof {
        assert(views_of(out@) + batches_spec(rest@, size as int) =~= views_of(out@));
    }
    out
}

/// The concatenation of a sequence of batches.
pub open spec fn flat(bs: Seq<Seq<BulkOperation>>) -> Seq<BulkOperation>
    decreases bs.len(),
{
    if bs.len() == 0 {
        Seq::empty()
    } else {
        bs[0] + flat(bs.drop_first())
    }
}

/// Law: batching loses, duplicates and reorders nothing — the batches
/// concatenate back to the input stream — and every batch is non-empty,
/// no batch exceeds `size`, and every batch but the last holds exactly
/// `size` operations.
pub proof fn lemma_batches_exact(s: Seq<BulkOperation>, size: int)
    requires
        1 <= size,
    ensures
        flat(batches_spec(s, size)) == s,
        forall|i: int|
            0 <= i < batches_spec(s, size).len() ==> 1 <= (#[trigger] batches_spec(s, size)[i]).len()
                <= size,
        forall|i: int|
            0 <= i < batches_spec(s, size).len() - 1 ==> (#[trigger] batches_spec(s, size)[i]).len()
                == size,
    decreases s.len(),
{
    let bs = batches_spec(s, size);
    if s.len() == 0 {
        assert(flat(bs) =~= s);
    } else if s.len() <= size {
        assert(bs[0] == s);
        assert(bs.drop_first() =~= Seq::<Seq<BulkOperation>>::empty());
        assert(flat(bs.drop_first()) =~= Seq::<BulkOperation>::empty());
        assert(flat(bs) =~= s);
    } else {
        lemma_batches_exact(s.skip(size), size);
        let rest = batches_spec(s.skip(size), size);
        assert(bs[0] == s.take(size));
        assert(bs.drop_first() =~= rest);
        assert(flat(bs) == s.take(size) + flat(rest));
        assert(s.take(size) + s.skip(size) =~= s);
        assert(flat(bs) == s);
        assert(rest.len() > 0);
        assert(forall|i: int| 1 <= i < bs.len() ==> #[trigger] bs[i] == rest[i - 1]);
    }
}

/// Law: the number of batches is exactly the input length divided by
/// `size`, rounded up — every batch but possibly the last is full.
pub proof fn lemma_batch_count(s: Seq<BulkOperation>, size: int)
    requires
        1 <= size,
    ensures
        s.len() == 0 ==> batches_spec(s, size).len() == 0,
        s.len() > 0 ==> (batches_spec(s, size).len() - 1) * size < s.len() <= batches_spec(
            s,
            size,
        ).len() * size,
    decreases s.len(),
{
    if s.len() > size {
        lemma_batch_count(s.skip(size), size);
        let n = batches_spec(s.skip(size), size).len();
        assert(batches_spec(s, size).len() == n + 1);
        assert((n - 1) * size < s.len() - size <= n * size);
        assert((n + 1 - 1) * size == (n - 1) * size + size) by (nonlinear_arith);
        assert((n + 1) * size == n * size + size) by (nonlinear_arith);
    } else if s.len() > 0 {
        assert(batches_spec(s, size).len() == 1);
        assert((1 - 1) * size == 0) by (nonlinear_arith);
        assert(1 * size == size) by (nonlinear_arith);
    }
}

/// The indices below `n` of the items whose write failed.
pub open spec fn failing_upto(items: Seq<Json>, n: int) -> Seq<usize>
    decreases n,
{
    if n <= 0 {
        Seq::empty()
    } else {
        let prev = failing_upto(items, n - 1);
        if shard_failed(items[n - 1]) == Some(true) {
            prev.push((n - 1) as usize)
        } else {
            prev
        }
    }
}

/// Whether one bulk reply item reports a failed write: its
/// `index._shards.failed` count is above zero, or cannot be read as a
/// non-negative integer. `None` for an item that carries no such count
/// at all.
pub open spec fn shard_failed(item: Json) -> Option<bool> {
    match item {
        Json::Obj(es) => match lookup(es@, "index"@) {
            Some(Json::Obj(ix)) => match lookup(ix@, "_shards"@) {
                Some(Json::Obj(sh)) => match lookup(sh@, "failed"@) {
                    Some(Json::Uint(n)) => Some(n > 0),
                    Some(_) => Some(true),
                    None => None,
                },
                _ => None,
            },
            _ => None,
        },
        _ => None,
    }
}

/// Borrow-based first-match lookup among an object's entries.
pub fn obj_get<'a>(es: &'a Vec<(String, Json)>, key: &str) -> (r: Option<&'a Json>)
    ensures
        match r {
            Some(v) => lookup(es@, key@) == Some(*v),
            None => lookup(es@, key@) matches None,
        },
{
    let mut i: usize = 0;
    proof {
        assert(es@.skip(0) =~= es@);
    }
    while i < es.len()
        invariant
            i <= es@.len(),
            lookup(es@, key@) == lookup(es@.skip(i as int), key@),
        decreases es@.len() - i,
    {
        proof {
            assert(es@.skip(i as int)[0] == es@[i as int]);
            assert(es@.skip(i as int).drop_first() =~= es@.skip(i as int + 1));
        }
        if crate::json::str_eq(es[i].0.as_str(), key) {
            return Some(&es[i].1);
        }
        i = i + 1;
    }
    None
}

/// Reads one bulk reply item's shard outcome.
pub fn shard_check(item: &Json) -> (r: Option<bool>)
    ensures
        r == shard_failed(*item),
{
    let es = match item {
        Json::Obj(es) => es,
        _ => { return None },
    };
    let ixv = match obj_get(es, "index") {
        Some(v) => v,
        None => { return None },
    };
    let ix = match ixv {
        Json::Obj(ix) => ix,
        _ => { return None },
    };
    let shv = match obj_get(ix, "_shards") {
        Some(v) => v,
        None => { return None },
    };
    let sh = match shv {
        Json::Obj(sh) => sh,
        _ => { return None },
    };
    let fv = match obj_get(sh, "failed") {
        Some(v) => v,
        None => { return None },
    };
    match fv {
        Json::Uint(n) => Some(*n > 0),
        _ => Some(true),
    }
}

/// The error flag of a bulk reply body; `None` when the reply carries
/// no flag at all. A flag that is not a boolean counts as no error, as
/// it cannot be read.
pub open spec fn bulk_errors_flag(body: Json) -> Option<bool> {
    match body {
        Json::Obj(es) => match lookup(es@, "errors"@) {
            Some(Json::Bool(b)) => Some(b),
            Some(_) => Some(false),
            None => None,
        },
        _ => None,
    }
}

/// The item array of a bulk reply body.
pub open spec fn bulk_items(body: Json) -> Option<Seq<Json>> {
    match body {
        Json::Obj(es) => match lookup(es@, "items"@) {
            Some(Json::Arr(v)) => Some(v@),
            _ => None,
        },
        _ => None,
    }
}

/// Whether every item of a bulk reply carries a readable shard outcome.
pub open spec fn shards_known(items: Seq<Json>) -> bool {
    forall|i: int| 0 <= i < items.len() ==> (shard_failed(#[trigger] items[i]) matches Some(_))
}

/// Whether `r` is the required reading of a bulk reply body.
pub open spec fn bulk_result(body: Json, r: Result<Vec<usize>, Error>) -> bool {
    match bulk_errors_flag(body) {
        None => r == Err::<Vec<usize>, Error>(Error::MalformedBulkReply),
        Some(false) => r matches Ok(v) && v@.len() == 0,
        Some(true) => match bulk_items(body) {
            None => r == Err::<Vec<usize>, Error>(Error::MalformedBulkReply),
            Some(items) => if shards_known(items) {
                r matches Ok(v) && v@ == failing_upto(items, items.len() as int)
            } else {
                r == Err::<Vec<usize>, Error>(Error::MissingShardInfo)
            },
        },
    }
}

/// Inspects a bulk reply for item-level failures.
///
/// An accepted batch whose reply flags no errors yields no failures. A
/// flagged reply yields the indices of the items whose write failed, in
/// order; those failures are recoverable and reported, never fatal. A
/// reply without an error flag or item array, or with an item that
/// carries no shard outcome, is a protocol error.
pub fn failed_items(body: Json) -> (r: Result<Vec<usize>, Error>)
    ensures
        bulk_result(body, r),
{
    proof {
        reveal_strlit("errors");
        reveal_strlit("items");
        assert("errors"@.len() == 6);
        assert("items"@.len() == 5);
    }
    let es = match body {
        Json::Obj(es) => es,
        _ => { return Err(Error::MalformedBulkReply) },
    };
    let (errv, itemsv) = take_two(es, "errors", "items");
    let flagged = match errv {
        Some(Json::Bool(b)) => b,
        Some(_) => false,
        None => { return Err(Error::MalformedBulkReply) },
    };
    if !flagged {
        return Ok(Vec::new());
    }
    let items = match itemsv {
        Some(Json::Arr(v)) => v,
        _ => { return Err(Error::MalformedBulkReply) },
    };
    let mut out: Vec<usize> = Vec::new();
    let mut i: usize = 0;
    while i < items.len()
        invariant
            bulk_errors_flag(body) == Some(true),
            bulk_items(body) == Some(items@),
            i <= items@.len(),
            forall|j: int|
                0 <= j < i ==> (shard_failed(#[trigger] items@[j]) matches Some(_)),
            out@ == failing_upto(items@, i as int),
        decreases items@.len() - i,
    {
        match shard_check(&items[i]) {
            None => { return Err(Error::MissingShardInfo) },
            Some(true) => {
                out.push(i);
            },
            Some(false) => {},
        }
        i = i + 1;
    }
    Ok(out)
}

/// The bounded dispatch pool of the import pipeline.
///
/// Batches move through three stages: pending (not yet started), in
/// flight (a bulk request outstanding), and completed. The pool refuses
/// to start a batch while its bound is reached, which is the
/// backpressure that bounds memory and outstanding requests.
pub struct Dispatcher {
    pub limit: usize,
    pub in_flight: usize,
    pub started: usize,
    pub completed: usize,
}

impl Dispatcher {
    /// The dispatcher's invariant: the bound is positive, in-flight
    /// work never exceeds it, and the stage counts agree.
    pub open spec fn wf(self) -> bool {
        1 <= self.limit && self.in_flight <= self.limit && self.completed + self.in_flight
            == self.started
    }

    /// A fresh pool with the given bound and nothing started.
    pub fn new(limit: usize) -> (r: Self)
        requires
            1 <= limit,
        ensures
            r.wf(),
            r.limit == limit,
            r.started == 0,
            r.in_flight == 0,
            r.completed == 0,
    {
        Dispatcher { limit, in_flight: 0, started: 0, completed: 0 }
    }

    /// Whether another batch may start right now.
    pub fn can_start(&self) -> (r: bool)
        ensures
            r == (self.in_flight < self.limit),
    {
        self.in_flight < self.limit
    }

    /// Records that one more batch went in flight.
    pub fn start(&mut self)
        requires
            old(self).wf(),
            old(self).in_flight < old(self).limit,
            old(self).started < usize::MAX,
        ensures
            final(self).wf(),
            final(self).limit == old(self).limit,
            final(self).in_flight == old(self).in_flight + 1,
            final(self).started == old(self).started + 1,
            final(self).completed == old(self).completed,
    {
        self.in_flight = self.in_flight + 1;
        self.started = self.started + 1;
    }

    /// Records that one in-flight batch completed.
    pub fn finish(&mut self)
        requires
            old(self).wf(),
            0 < old(self).in_flight,
        ensures
            final(self).wf(),
            final(self).limit == old(self).limit,
            final(self).in_flight == old(self).in_flight - 1,
            final(self).started == old(self).started,
            final(self).completed == old(self).completed + 1,
    {
        self.in_flight = self.in_flight - 1;
        self.completed = self.completed + 1;
    }
}

/// Law: no more than `limit` batches are ever simultaneously in
/// flight — the dispatcher's invariant, which [`Dispatcher::new`]
/// establishes and every transition preserves.
pub proof fn lemma_bounded_dispatch(d: Dispatcher)
    requires
        d.wf(),
    ensures
        d.in_flight <= d.limit,
{
}

/// Law: a record emitted by the export side transforms back into a
/// write operation carrying the same identifier, index and payload —
/// stripping the transient ranking fields loses nothing a round trip
/// needs.
pub proof fn lemma_round_trip(hit: Json, emitted: Json)
    requires
        stripped_form(hit, emitted),
        (match hit {
            Json::Obj(es) => (lookup(es@, "_id"@) matches Some(Json::Str(_))) && (lookup(
                es@,
                "_index"@,
            ) matches Some(Json::Str(_))),
            _ => false,
        }),
    ensures
        (match hit {
            Json::Obj(es) => (match (lookup(es@, "_index"@), lookup(es@, "_id"@)) {
                (Some(Json::Str(ix)), Some(Json::Str(id))) => transform_spec(emitted, None)
                    == Some(
                    (
                        ix@,
                        id@,
                        (match lookup(es@, "_source"@) {
                            Some(v) => v,
                            None => Json::Null,
                        }),
                    ),
                ),
                _ => false,
            }),
            _ => false,
        }),
{
    reveal_strlit("_id");
    reveal_strlit("_index");
    reveal_strlit("_source");
    reveal_strlit("sort");
    reveal_strlit("_score");
    assert("_id"@.len() == 3);
    assert("_index"@.len() == 6);
    assert("_source"@.len() == 7);
    assert("sort"@.len() == 4);
    assert("_score"@.len() == 6);
    assert("_index"@[1] == 'i');
    assert("_score"@[1] == 's');
    match hit {
        Json::Obj(es) => {
            lemma_strip_keeps(es@, "_id"@);
            lemma_strip_keeps(es@, "_index"@);
            lemma_strip_keeps(es@, "_source"@);
        },
        _ => {
            assert(false);
        },
    }
}

} // verus!
