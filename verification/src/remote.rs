//! Resolution of a cluster target descriptor.
//!
//! A target such as `http://host:9200/myindex` names a base host and,
//! optionally, a fixed index. [`parse_cluster`] splits the descriptor,
//! rejecting targets without a host or with a scheme other than
//! http/https. URL syntax itself is handed to the `url` crate behind a
//! trusted wrapper; everything after that split is verified here.
use crate::error::Error;
use crate::json::opt_text;
use crate::json::str_eq;
use vstd::prelude::*;
use vstd::string::StrSliceExecFns;

verus! {

/// The raw pieces of a parsed URL that target resolution reads.
pub struct UrlParts {
    /// The scheme, without the trailing `:`.
    pub scheme: String,
    /// Whether the URL has a host component.
    pub has_host: bool,
    /// The path component, usually beginning with `/`.
    pub path: String,
    /// The whole URL serialized with its path cleared.
    pub base: String,
}

/// What `url::Url::parse` yields for a descriptor: `None` for a string
/// that is not an absolute URL, else the pieces read by resolution.
pub uninterp spec fn url_parts_of(s: Seq<char>) -> Option<UrlParts>;

/// Relies on `url::Url::parse` together with the accessors
/// `Url::scheme`, `Url::has_host`, `Url::path`, `Url::set_path` and
/// `Url::as_str`: parsing is a function of the input string alone, and
/// the accessors merely read slices of the parsed form.
#[verifier::external_body]
fn split_target(s: &str) -> (r: Option<UrlParts>)
    ensures
        r == url_parts_of(s@),
{
    match url::Url::parse(s) {
        Ok(mut u) => {
            let scheme = u.scheme().to_owned();
            let has_host = u.has_host();
            let path = u.path().to_owned();
            u.set_path("");
            let base = u.as_str().to_owned();
            Some(UrlParts { scheme, has_host, path, base })
        }
        Err(_) => None,
    }
}

/// The given sequence without its leading copies of `c`.
pub open spec fn trim_start(s: Seq<char>, c: char) -> Seq<char>
    decreases s.len(),
{
    if s.len() > 0 && s.first() == c {
        trim_start(s.drop_first(), c)
    } else {
        s
    }
}

/// The given sequence without its trailing copies of `c`.
pub open spec fn trim_end(s: Seq<char>, c: char) -> Seq<char>
    decreases s.len(),
{
    if s.len() > 0 && s.last() == c {
        trim_end(s.drop_last(), c)
    } else {
        s
    }
}

/// Strips every leading copy of `c` from a string slice.
pub fn trim_leading<'a>(s: &'a str, c: char) -> (r: &'a str)
    ensures
        r@ == trim_start(s@, c),
{
    let len = s.unicode_len();
    let mut i: usize = 0;
    proof {
        assert(s@.skip(0) =~= s@);
    }
    while i < len && s.get_char(i) == c
        invariant
            i <= len,
            len == s@.len(),
            trim_start(s@, c) == trim_start(s@.skip(i as int), c),
        decreases len - i,
    {
        proof {
            assert(s@.skip(i as int)[0] == s@[i as int]);
            assert(s@.skip(i as int).drop_first() =~= s@.skip(i as int + 1));
        }
        i = i + 1;
    }
    proof {
        if i < len {
            assert(s@.skip(i as int)[0] == s@[i as int]);
        }
        assert(trim_start(s@.skip(i as int), c) == s@.skip(i as int));
    }
    let r = s.substring_char(i, len);
    proof {
        assert(r@ =~= s@.skip(i as int));
    }
    r
}

/// Strips every trailing copy of `c` from a string slice.
pub fn trim_trailing<'a>(s: &'a str, c: char) -> (r: &'a str)
    ensures
        r@ == trim_end(s@, c),
{
    let len = s.unicode_len();
    let mut j: usize = len;
    proof {
        assert(s@.take(len as int) =~= s@);
    }
    while j > 0 && s.get_char(j - 1) == c
        invariant
            j <= len,
            len == s@.len(),
            trim_end(s@, c) == trim_end(s@.take(j as int), c),
        decreases j,
    {
        proof {
            assert(s@.take(j as int).last() == s@[j as int - 1]);
            assert(s@.take(j as int).drop_last() =~= s@.take(j as int - 1));
        }
        j = j - 1;
    }
    proof {
        if j > 0 {
            assert(s@.take(j as int).last() == s@[j as int - 1]);
        }
        assert(trim_end(s@.take(j as int), c) == s@.take(j as int));
    }
    let r = s.substring_char(0, j);
    proof {
        assert(r@ =~= s@.take(j as int));
    }
    r
}

/// What target resolution makes of the pieces of a parsed URL: an error
/// for a hostless or non-http(s) target, else the base host without its
/// trailing slash and the path without its slashes as the fixed index,
/// or no index when that leaves nothing.
pub open spec fn cluster_spec(p: UrlParts) -> Result<(Seq<char>, Option<Seq<char>>), Error> {
    if !p.has_host || !(p.scheme@ == "http"@ || p.scheme@ == "https"@) {
        Err(Error::InvalidTarget)
    } else {
        let ix = trim_start(p.path@, '/');
        Ok(
            (
                trim_end(p.base@, '/'),
                if ix.len() == 0 {
                    None
                } else {
                    Some(ix)
                },
            ),
        )
    }
}

/// Whether an executable resolution result carries the values that a
/// spec-level one names.
pub open spec fn cluster_result_matches(
    r: Result<(String, Option<String>), Error>,
    s: Result<(Seq<char>, Option<Seq<char>>), Error>,
) -> bool {
    match (r, s) {
        (Ok(o), Ok(m)) => o.0@ == m.0 && opt_text(o.1) == m.1,
        (Err(e1), Err(e2)) => e1 == e2,
        _ => false,
    }
}

/// Resolves already-split URL pieces into a host/index pairing.
pub fn resolve_cluster(parts: UrlParts) -> (r: Result<(String, Option<String>), Error>)
    ensures
        cluster_result_matches(r, cluster_spec(parts)),
{
    if !parts.has_host {
        return Err(Error::InvalidTarget);
    }
    let http = str_eq(parts.scheme.as_str(), "http");
    let https = str_eq(parts.scheme.as_str(), "https");
    if !http && !https {
        return Err(Error::InvalidTarget);
    }
    let ix = trim_leading(parts.path.as_str(), '/');
    let host = trim_trailing(parts.base.as_str(), '/').to_owned();
    let index = if ix.unicode_len() == 0 {
        None
    } else {
        Some(ix.to_owned())
    };
    Ok((host, index))
}

/// Attempts to parse a host/index pairing out of a target descriptor.
///
/// The index is never empty: a target whose path holds nothing but
/// slashes yields no index, and the caller decides how to fall back (the
/// export side defaults to the catch-all `_all`, the import side resolves
/// the index per record).
pub fn parse_cluster(target: &str) -> (r: Result<(String, Option<String>), Error>)
    ensures
        match url_parts_of(target@) {
            None => r == Err::<(String, Option<String>), Error>(Error::InvalidTarget),
            Some(p) => cluster_result_matches(r, cluster_spec(p)),
        },
{
    match split_target(target) {
        None => Err(Error::InvalidTarget),
        Some(parts) => resolve_cluster(parts),
    }
}

} // verus!
