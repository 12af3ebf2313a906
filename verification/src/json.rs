//! An in-memory model of JSON documents.
//!
//! The pipelines inspect and build JSON values: scroll pages, hit
//! objects, bulk replies and page queries. The library holds such a value
//! in [`Json`], a plain enum the verifier can reason about; turning raw
//! bytes into a [`Json`] and back is left to the caller at the stream
//! boundary.
//!
//! Objects are kept as ordered entry lists. Reading functions follow a
//! first-match rule for repeated keys, stated by [`lookup`].
use vstd::prelude::*;
use vstd::string::StrSliceExecFns;

verus! {

/// A JSON document.
///
/// Numbers appear in two forms: [`Json::Uint`] for the non-negative
/// integers the library writes into queries itself, and
/// [`Json::NumText`] for any other number carried through from input,
/// kept verbatim as its literal text so nothing is lost in transit.
#[derive(Debug, PartialEq, Eq)]
pub enum Json {
    Null,
    Bool(bool),
    Uint(u64),
    NumText(String),
    Str(String),
    Arr(Vec<Json>),
    Obj(Vec<(String, Json)>),
}

/// First-match lookup of a key among an object's entries.
pub open spec fn lookup(es: Seq<(String, Json)>, key: Seq<char>) -> Option<Json>
    decreases es.len(),
{
    if es.len() == 0 {
        None
    } else if es[0].0@ == key {
        Some(es[0].1)
    } else {
        lookup(es.drop_first(), key)
    }
}

/// The view of an optional owned string.
pub open spec fn opt_text(o: Option<String>) -> Option<Seq<char>> {
    match o {
        Some(s) => Some(s@),
        None => None,
    }
}

/// Compares two string slices character by character.
pub fn str_eq(a: &str, b: &str) -> (r: bool)
    ensures
        r == (a@ == b@),
{
    let alen = a.unicode_len();
    let blen = b.unicode_len();
    if alen != blen {
        return false;
    }
    let mut i: usize = 0;
    while i < alen
        invariant
            alen == a@.len(),
            blen == b@.len(),
            alen == blen,
            i <= alen,
            forall|j: int| 0 <= j < i ==> a@[j] == b@[j],
        decreases alen - i,
    {
        let ca = a.get_char(i);
        let cb = b.get_char(i);
        if ca != cb {
            return false;
        }
        i = i + 1;
    }
    proof {
        assert(a@ =~= b@);
    }
    true
}

/// Consumes an object's entries and takes the value under one key.
pub fn take_one(es: Vec<(String, Json)>, key: &str) -> (r: Option<Json>)
    ensures
        r == lookup(es@, key@),
{
    let mut rest = es;
    let mut found: Option<Json> = None;
    let ghost all = rest@;
    while rest.len() > 0
        invariant
            match found {
                Some(v) => lookup(all, key@) == Some(v),
                None => lookup(all, key@) == lookup(rest@, key@),
            },
        decreases rest.len(),
    {
        let ghost before = rest@;
        let e = rest.remove(0);
        proof {
            assert(rest@ =~= before.drop_first());
        }
        if found.is_none() && str_eq(e.0.as_str(), key) {
            found = Some(e.1);
        }
    }
    found
}

/// Consumes an object's entries and takes the values under two keys.
pub fn take_two(es: Vec<(String, Json)>, k1: &str, k2: &str) -> (r: (Option<Json>, Option<Json>))
    requires
        k1@ != k2@,
    ensures
        r.0 == lookup(es@, k1@),
        r.1 == lookup(es@, k2@),
{
    let mut rest = es;
    let mut v1: Option<Json> = None;
    let mut v2: Option<Json> = None;
    let ghost all = rest@;
    while rest.len() > 0
        invariant
            k1@ != k2@,
            match v1 {
                Some(v) => lookup(all, k1@) == Some(v),
                None => lookup(all, k1@) == lookup(rest@, k1@),
            },
            match v2 {
                Some(v) => lookup(all, k2@) == Some(v),
                None => lookup(all, k2@) == lookup(rest@, k2@),
            },
        decreases rest.len(),
    {
        let ghost before = rest@;
        let e = rest.remove(0);
        proof {
            assert(rest@ =~= before.drop_first());
        }
        let hit1 = str_eq(e.0.as_str(), k1);
        let hit2 = str_eq(e.0.as_str(), k2);
        if v1.is_none() && hit1 {
            v1 = Some(e.1);
        } else if v2.is_none() && hit2 {
            v2 = Some(e.1);
        }
    }
    (v1, v2)
}

/// Consumes an object's entries and takes the values under three keys.
pub fn take_three(es: Vec<(String, Json)>, k1: &str, k2: &str, k3: &str) -> (r: (
    Option<Json>,
    Option<Json>,
    Option<Json>,
))
    requires
        k1@ != k2@,
        k1@ != k3@,
        k2@ != k3@,
    ensures
        r.0 == lookup(es@, k1@),
        r.1 == lookup(es@, k2@),
        r.2 == lookup(es@, k3@),
{
    let mut rest = es;
    let mut v1: Option<Json> = None;
    let mut v2: Option<Json> = None;
    let mut v3: Option<Json> = None;
    let ghost all = rest@;
    while rest.len() > 0
        invariant
            k1@ != k2@,
            k1@ != k3@,
            k2@ != k3@,
            match v1 {
                Some(v) => lookup(all, k1@) == Some(v),
                None => lookup(all, k1@) == lookup(rest@, k1@),
            },
            match v2 {
                Some(v) => lookup(all, k2@) == Some(v),
                None => lookup(all, k2@) == lookup(rest@, k2@),
            },
            match v3 {
                Some(v) => lookup(all, k3@) == Some(v),
                None => lookup(all, k3@) == lookup(rest@, k3@),
            },
        decreases rest.len(),
    {
        let ghost before = rest@;
        let e = rest.remove(0);
        proof {
            assert(rest@ =~= before.drop_first());
        }
        let hit1 = str_eq(e.0.as_str(), k1);
        let hit2 = str_eq(e.0.as_str(), k2);
        let hit3 = str_eq(e.0.as_str(), k3);
        if v1.is_none() && hit1 {
            v1 = Some(e.1);
        } else if v2.is_none() && hit2 {
            v2 = Some(e.1);
        } else if v3.is_none() && hit3 {
            v3 = Some(e.1);
        }
    }
    (v1, v2, v3)
}

} // verus!
