//! A parsed URL as plain values — host, path, query pairs — behind a
//! trusted wrapper over the URL library, and the verified extraction of
//! the video portal's redirect target from a location URL.

use vstd::prelude::*;

use crate::textutil::str_eq;

verus! {

/// The parts of a URL this crate reads.
#[derive(Clone, Debug)]
pub struct UrlParts {
    pub host: String,
    pub path: String,
    pub query: Vec<(String, String)>,
}

/// The mathematical image of the parts.
pub struct UrlPartsView {
    pub host: Seq<char>,
    pub path: Seq<char>,
    pub query: Seq<(Seq<char>, Seq<char>)>,
}

impl View for UrlParts {
    type V = UrlPartsView;

    open spec fn view(&self) -> UrlPartsView {
        UrlPartsView {
            host: self.host@,
            path: self.path@,
            query: self.query@.map_values(|p: (String, String)| (p.0@, p.1@)),
        }
    }
}

/// What the URL library parses a text into — host (empty when the URL has
/// none), path, and decoded query pairs in order — or nothing for an
/// invalid URL.  A function of the text alone.
pub uninterp spec fn url_parts_of(s: Seq<char>) -> Option<UrlPartsView>;

/// Relies on `url::Url::parse` (through its re-export) and the `host_str`,
/// `path` and `query_pairs` accessors.
#[verifier::external_body]
pub(crate) fn parse_url(s: &str) -> (r: Option<UrlParts>)
    ensures
        match r {
            Some(p) => url_parts_of(s@) == Some(p@),
            None => url_parts_of(s@) is None,
        },
{
    match reqwest::Url::parse(s) {
        Ok(u) => Some(
            UrlParts {
                host: u.host_str().unwrap_or("").to_string(),
                path: u.path().to_string(),
                query: u.query_pairs().map(|(k, v)| (k.to_string(), v.to_string())).collect(),
            },
        ),
        Err(_) => None,
    }
}

/// The value of the first query pair named `key`.
pub open spec fn first_query_value(q: Seq<(Seq<char>, Seq<char>)>, key: Seq<char>) -> Option<
    Seq<char>,
>
    decreases q.len(),
{
    if q.len() == 0 {
        None
    } else if q[0].0 == key {
        Some(q[0].1)
    } else {
        first_query_value(q.drop_first(), key)
    }
}

/// Looks up the first query pair named `key`.
pub fn query_value(parts: &UrlParts, key: &str) -> (r: Option<String>)
    ensures
        match r {
            Some(v) => first_query_value(parts@.query, key@) == Some(v@),
            None => first_query_value(parts@.query, key@) is None,
        },
{
    let n = parts.query.len();
    proof {
        assert(parts@.query.skip(0) =~= parts@.query);
    }
    let mut i: usize = 0;
    while i < n
        invariant
            i <= n,
            n == parts.query@.len(),
            parts@.query.len() == n,
            first_query_value(parts@.query, key@) == first_query_value(
                parts@.query.skip(i as int),
                key@,
            ),
        decreases n - i,
    {
        proof {
            assert(parts@.query.skip(i as int)[0] == parts@.query[i as int]);
            assert(parts@.query.skip(i as int).drop_first() =~= parts@.query.skip(i + 1));
            assert(parts@.query[i as int] == (parts.query@[i as int].0@, parts.query@[i as int].1@));
        }
        let hit = str_eq(parts.query[i].0.as_str(), key);
        if hit {
            let v = parts.query[i].1.clone();
            return Some(v);
        }
        i = i + 1;
    }
    proof {
        assert(parts@.query.skip(n as int) =~= Seq::<(Seq<char>, Seq<char>)>::empty());
    }
    None
}

/// The host a URL names, when it parses and names one.
pub fn url_host(s: &str) -> (r: Option<String>)
    ensures
        match r {
            Some(h) => {
                &&& url_parts_of(s@) is Some
                &&& url_parts_of(s@)->0.host == h@
                &&& h@.len() > 0
            },
            None => url_parts_of(s@) is None || url_parts_of(s@)->0.host.len() == 0,
        },
{
    match parse_url(s) {
        Some(p) => {
            if p.host.as_str().unicode_len() == 0 {
                None
            } else {
                Some(p.host)
            }
        },
        None => None,
    }
}

/// The video portal's redirect target: the host of the location URL and
/// its `folderID` query parameter.  Nothing comes back when the URL does
/// not parse, names no host, or carries no such parameter.
pub fn panopto_target(location: &str) -> (r: Option<(String, String)>)
    ensures
        match r {
            Some(t) => {
                &&& url_parts_of(location@) is Some
                &&& url_parts_of(location@)->0.host == t.0@
                &&& t.0@.len() > 0
                &&& first_query_value(url_parts_of(location@)->0.query, "folderID"@) == Some(t.1@)
            },
            None => {
                ||| url_parts_of(location@) is None
                ||| url_parts_of(location@)->0.host.len() == 0
                ||| first_query_value(url_parts_of(location@)->0.query, "folderID"@) is None
            },
        },
{
    let parts = match parse_url(location) {
        Some(p) => p,
        None => {
            return None;
        },
    };
    if parts.host.as_str().unicode_len() == 0 {
        return None;
    }
    let folder = match query_value(&parts, "folderID") {
        Some(f) => f,
        None => {
            return None;
        },
    };
    Some((parts.host, folder))
}

} // verus!
