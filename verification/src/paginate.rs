//! The paginator's continuation rule: a listing request is driven across
//! pages by the `current` / `next` / `last` link-relation triple of each
//! response.  No `next` means stop; `current` equal to `last` means stop,
//! even if the final page still carries a `next` link; anything else means
//! follow `next`.

use vstd::prelude::*;

verus! {

/// The three link relations of one response, each with its raw URI.
#[derive(Clone, Debug)]
pub struct LinkRels {
    pub current: Option<String>,
    pub next: Option<String>,
    pub last: Option<String>,
}

/// The mathematical image of a relation triple.
pub struct LinkRelsView {
    pub current: Option<Seq<char>>,
    pub next: Option<Seq<char>>,
    pub last: Option<Seq<char>>,
}

impl View for LinkRels {
    type V = LinkRelsView;

    open spec fn view(&self) -> LinkRelsView {
        LinkRelsView {
            current: match self.current {
                Some(ref c) => Some(c@),
                None => None,
            },
            next: match self.next {
                Some(ref n) => Some(n@),
                None => None,
            },
            last: match self.last {
                Some(ref l) => Some(l@),
                None => None,
            },
        }
    }
}

/// What the link-header parser of the outside library yields for a header
/// text: the relation triple, or nothing for a malformed header.  A
/// function of the text alone.
pub uninterp spec fn link_rels_of(header: Seq<char>) -> Option<LinkRelsView>;

/// Relies on `parse_link_header::parse_with_rel`: the `current`, `next`
/// and `last` relations of the header with their raw URIs, or `None` when
/// the header does not parse.
#[verifier::external_body]
fn parse_link_rels(header: &str) -> (r: Option<LinkRels>)
    ensures
        match r {
            Some(rels) => link_rels_of(header@) == Some(rels@),
            None => link_rels_of(header@) is None,
        },
{
    match parse_link_header::parse_with_rel(header) {
        Ok(m) => Some(
            LinkRels {
                current: m.get("current").map(|l| l.raw_uri.clone()),
                next: m.get("next").map(|l| l.raw_uri.clone()),
                last: m.get("last").map(|l| l.raw_uri.clone()),
            },
        ),
        Err(_) => None,
    }
}

/// The continuation rule.  Stopping on `current == last` defends against a
/// server repeating the final page under a fresh `next` link.
pub open spec fn next_cursor_spec(rels: LinkRelsView) -> Option<Seq<char>> {
    if rels.next is None {
        None
    } else if rels.current is Some && rels.last is Some && rels.current->0 == rels.last->0 {
        None
    } else {
        Some(rels.next->0)
    }
}

/// Where the next page of a listing lives, if anywhere.
pub fn next_cursor(rels: &LinkRels) -> (r: Option<String>)
    ensures
        match r {
            Some(u) => next_cursor_spec(rels@) == Some(u@),
            None => next_cursor_spec(rels@) is None,
        },
{
    match rels.next {
        None => None,
        Some(ref n) => {
            let same = match (&rels.current, &rels.last) {
                (Some(c), Some(l)) => c.eq(l),
                _ => false,
            };
            if same {
                None
            } else {
                Some(n.clone())
            }
        },
    }
}

/// What a response's link header means for the paginator.
#[derive(Clone, Debug)]
pub enum HeaderCursor {
    /// No link header came back: a single-page listing, stop.
    NoHeader,
    /// The header does not parse; the driver treats this as fatal, as a
    /// malformed paginated listing cannot be walked soundly.
    Malformed,
    /// The continuation rule says stop.
    Done,
    /// Fetch the next page here.
    Next(String),
}

/// Reads a response's link header and applies the continuation rule.
pub fn cursor_from_header(header: Option<&str>) -> (r: HeaderCursor)
    ensures
        match header {
            None => r is NoHeader,
            Some(h) => match link_rels_of(h@) {
                None => r is Malformed,
                Some(rels) => match next_cursor_spec(rels) {
                    None => r is Done,
                    Some(u) => r matches HeaderCursor::Next(n) && n@ == u,
                },
            },
        },
{
    match header {
        None => HeaderCursor::NoHeader,
        Some(h) => match parse_link_rels(h) {
            None => HeaderCursor::Malformed,
            Some(rels) => match next_cursor(&rels) {
                None => HeaderCursor::Done,
                Some(u) => HeaderCursor::Next(u),
            },
        },
    }
}

/// The relation triples of a run of responses.
pub open spec fn rels_views(rels: Seq<LinkRels>) -> Seq<LinkRelsView> {
    rels.map_values(|r: LinkRels| r@)
}

/// How many pages the paginator fetches when the responses come back as
/// `rels`, in order: it always takes the first page, then follows the
/// cursor until the rule stops it or the responses run out.
pub open spec fn pages_taken(rels: Seq<LinkRelsView>) -> nat
    decreases rels.len(),
{
    if rels.len() == 0 {
        0
    } else if next_cursor_spec(rels[0]) is None {
        1
    } else {
        1 + pages_taken(rels.drop_first())
    }
}

/// Pagination termination, run against the responses a server would give:
/// returns the number of pages fetched, never more than the responses
/// available.
pub fn drive_pagination(rels: &Vec<LinkRels>) -> (n: usize)
    ensures
        n == pages_taken(rels_views(rels@)),
        n <= rels@.len(),
{
    let total = rels.len();
    proof {
        assert(rels_views(rels@).skip(0) =~= rels_views(rels@));
    }
    let mut i: usize = 0;
    while i < total
        invariant
            i <= total,
            total == rels@.len(),
            pages_taken(rels_views(rels@)) == i + pages_taken(rels_views(rels@).skip(i as int)),
            i < total ==> pages_taken(rels_views(rels@).skip(i as int)) >= 1,
        decreases total - i,
    {
        let more = next_cursor(&rels[i]);
        proof {
            assert(rels_views(rels@).skip(i as int)[0] == rels@[i as int]@);
            assert(rels_views(rels@).skip(i as int).drop_first() =~= rels_views(rels@).skip(
                i + 1,
            ));
        }
        match more {
            None => {
                return i + 1;
            },
            Some(_) => {},
        }
        i = i + 1;
    }
    proof {
        assert(rels_views(rels@).skip(total as int) =~= Seq::<LinkRelsView>::empty());
    }
    total
}

} // verus!
