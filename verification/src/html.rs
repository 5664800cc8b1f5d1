//! Link harvesting from fetched HTML.  The markup itself is read by the
//! HTML-parsing library behind trusted wrappers that hand back plain
//! attribute values; which links matter — course-file references under the
//! source system's own URL, images served from its CDN — is decided here.

use vstd::prelude::*;
use vstd::string::*;

use crate::extract::{contains_course_file_ref, has_course_file_ref};
use crate::textutil::{contains_seq, contains_str, occurs_at, starts_with_str};
use crate::urlinfo::{parse_url, url_parts_of};

verus! {

/// The `href` attributes of the anchor elements of a document, in document
/// order.  A function of the markup alone.
pub uninterp spec fn anchor_hrefs_of(html: Seq<char>) -> Seq<Seq<char>>;

/// Relies on select's `Document` parsing and `find` over `a` elements,
/// collecting each `href` attribute in document order.
#[verifier::external_body]
fn anchor_hrefs(html: &str) -> (r: Vec<String>)
    ensures
        r.deep_view() == anchor_hrefs_of(html@),
{
    select::document::Document::from(html)
        .find(select::predicate::Name("a"))
        .filter_map(|n| n.attr("href").map(|h| h.to_string()))
        .collect()
}

/// The `src` attributes of the image elements of a document, in document
/// order.  A function of the markup alone.
pub uninterp spec fn image_srcs_of(html: Seq<char>) -> Seq<Seq<char>>;

/// Relies on select's `Document` parsing and `find` over `img` elements,
/// collecting each `src` attribute in document order.
#[verifier::external_body]
fn image_srcs(html: &str) -> (r: Vec<String>)
    ensures
        r.deep_view() == image_srcs_of(html@),
{
    select::document::Document::from(html)
        .find(select::predicate::Name("img"))
        .filter_map(|n| n.attr("src").map(|s| s.to_string()))
        .collect()
}

/// One form of a document, as far as this crate reads it: the tool
/// identifier and action attributes, and the name/value pairs of its
/// inputs.
#[derive(Clone, Debug)]
pub struct FormDesc {
    pub tool_id: Option<String>,
    pub action: Option<String>,
    pub inputs: Vec<(String, String)>,
}

/// The mathematical image of a form.
pub struct FormDescView {
    pub tool_id: Option<Seq<char>>,
    pub action: Option<Seq<char>>,
    pub inputs: Seq<(Seq<char>, Seq<char>)>,
}

impl View for FormDesc {
    type V = FormDescView;

    open spec fn view(&self) -> FormDescView {
        FormDescView {
            tool_id: match self.tool_id {
                Some(ref t) => Some(t@),
                None => None,
            },
            action: match self.action {
                Some(ref a) => Some(a@),
                None => None,
            },
            inputs: self.inputs@.map_values(|p: (String, String)| (p.0@, p.1@)),
        }
    }
}

/// The forms of a document, in document order, each with its `data-tool-id`
/// and `action` attributes and the `name`/`value` pairs of its named
/// inputs.  A function of the markup alone.
pub uninterp spec fn forms_of(html: Seq<char>) -> Seq<FormDescView>;

/// Relies on select's `Document` parsing and `find` over `form` and
/// `input` elements, collecting the attributes in document order; an input
/// without a `value` counts as empty.
#[verifier::external_body]
fn form_descs(html: &str) -> (r: Vec<FormDesc>)
    ensures
        r@.map_values(|f: FormDesc| f@) == forms_of(html@),
{
    select::document::Document::from(html)
        .find(select::predicate::Name("form"))
        .map(|f| FormDesc {
            tool_id: f.attr("data-tool-id").map(|t| t.to_string()),
            action: f.attr("action").map(|a| a.to_string()),
            inputs: f.find(select::predicate::Name("input"))
                .filter_map(|n| n.attr("name").map(
                    |k| (k.to_string(), n.attr("value").unwrap_or("").to_string()),
                ))
                .collect(),
        })
        .collect()
}

/// A form of the video portal's launcher.
pub open spec fn is_portal_form(f: FormDescView) -> bool {
    match f.tool_id {
        Some(t) => t == "mediaweb.ap.panopto.com"@,
        None => false,
    }
}

/// The first form of the video portal's launcher among the forms.
pub open spec fn first_portal_form(fs: Seq<FormDescView>) -> Option<FormDescView>
    decreases fs.len(),
{
    if fs.len() == 0 {
        None
    } else if is_portal_form(fs[0]) {
        Some(fs[0])
    } else {
        first_portal_form(fs.drop_first())
    }
}

/// Finds the video portal's launch form in a page: its action URL and the
/// parameters to post.  Nothing comes back when no such form stands in the
/// page or when it names no action.
pub fn panopto_form(html: &str) -> (r: Option<(String, Vec<(String, String)>)>)
    ensures
        match first_portal_form(forms_of(html@)) {
            None => r is None,
            Some(f) => match f.action {
                None => r is None,
                Some(a) => r matches Some(p) && p.0@ == a && p.1@.map_values(
                    |q: (String, String)| (q.0@, q.1@),
                ) == f.inputs,
            },
        },
{
    let forms = form_descs(html);
    let ghost fviews = forms@.map_values(|f: FormDesc| f@);
    let n = forms.len();
    proof {
        assert(fviews.skip(0) =~= fviews);
    }
    let mut i: usize = 0;
    while i < n
        invariant
            i <= n,
            n == forms@.len(),
            fviews == forms@.map_values(|f: FormDesc| f@),
            fviews == forms_of(html@),
            first_portal_form(forms_of(html@)) == first_portal_form(fviews.skip(i as int)),
        decreases n - i,
    {
        proof {
            assert(fviews.skip(i as int)[0] == fviews[i as int]);
            assert(fviews[i as int] == forms@[i as int]@);
            assert(fviews.skip(i as int).drop_first() =~= fviews.skip(i + 1));
        }
        let hit = match forms[i].tool_id {
            Some(ref t) => crate::textutil::str_eq(t.as_str(), "mediaweb.ap.panopto.com"),
            None => false,
        };
        if hit {
            let f = &forms[i];
            match f.action {
                Some(ref a) => {
                    let action = a.clone();
                    let mut inputs: Vec<(String, String)> = Vec::new();
                    let m = f.inputs.len();
                    let mut k: usize = 0;
                    while k < m
                        invariant
                            k <= m,
                            m == f.inputs@.len(),
                            inputs@.len() == k,
                            forall|k2: int|
                                0 <= k2 < k ==> (#[trigger] inputs@[k2]).0@ == f.inputs@[k2].0@
                                    && inputs@[k2].1@ == f.inputs@[k2].1@,
                        decreases m - k,
                    {
                        let name = f.inputs[k].0.clone();
                        let value = f.inputs[k].1.clone();
                        inputs.push((name, value));
                        k = k + 1;
                    }
                    proof {
                        assert(inputs@.map_values(|q: (String, String)| (q.0@, q.1@))
                            =~= forms@[i as int]@.inputs);
                    }
                    return Some((action, inputs));
                },
                None => {
                    return None;
                },
            }
        }
        i = i + 1;
    }
    proof {
        assert(fviews.skip(n as int) =~= Seq::<FormDescView>::empty());
    }
    None
}

/// An anchor worth following into the files API: it points under the
/// source system's own URL, parses as a URL, and its path carries a
/// course-file reference.
pub open spec fn wanted_file_href(base: Seq<char>, href: Seq<char>) -> bool {
    &&& occurs_at(href, base, 0)
    &&& url_parts_of(href) is Some
    &&& has_course_file_ref(url_parts_of(href)->0.path)
}

/// The API URL a wanted anchor resolves to: the base, the API prefix, and
/// the link's path.
pub open spec fn api_url_of(base: Seq<char>, href: Seq<char>) -> Seq<char> {
    base + "/api/v1"@ + url_parts_of(href)->0.path
}

/// The API URLs of the wanted anchors among `hrefs`, in order.
pub open spec fn file_api_links_spec(base: Seq<char>, hrefs: Seq<Seq<char>>) -> Seq<Seq<char>>
    decreases hrefs.len(),
{
    if hrefs.len() == 0 {
        Seq::empty()
    } else {
        let rest = file_api_links_spec(base, hrefs.drop_first());
        if wanted_file_href(base, hrefs[0]) {
            seq![api_url_of(base, hrefs[0])] + rest
        } else {
            rest
        }
    }
}

/// Harvests the course-file links of a page: for every anchor under the
/// source system's URL whose path carries a course-file reference, the
/// files-API URL to ask about it.
pub fn course_file_links(html: &str, base: &str) -> (r: Vec<String>)
    ensures
        r.deep_view() == file_api_links_spec(base@, anchor_hrefs_of(html@)),
{
    let hrefs = anchor_hrefs(html);
    let n = hrefs.len();
    let mut r: Vec<String> = Vec::new();
    proof {
        assert(hrefs.deep_view().skip(0) =~= hrefs.deep_view());
        assert(r.deep_view() =~= Seq::<Seq<char>>::empty());
        assert(Seq::<Seq<char>>::empty() + file_api_links_spec(base@, hrefs.deep_view())
            =~= file_api_links_spec(base@, hrefs.deep_view()));
    }
    let mut i: usize = 0;
    while i < n
        invariant
            i <= n,
            n == hrefs@.len(),
            hrefs.deep_view() == anchor_hrefs_of(html@),
            hrefs.deep_view().len() == n,
            file_api_links_spec(base@, hrefs.deep_view()) == r.deep_view()
                + file_api_links_spec(base@, hrefs.deep_view().skip(i as int)),
        decreases n - i,
    {
        proof {
            assert(hrefs.deep_view()[i as int] == hrefs@[i as int]@);
            assert(hrefs.deep_view().skip(i as int)[0] == hrefs.deep_view()[i as int]);
            assert(hrefs.deep_view().skip(i as int).drop_first() =~= hrefs.deep_view().skip(
                i + 1,
            ));
        }
        let href = &hrefs[i];
        if starts_with_str(href.as_str(), base) {
            match parse_url(href.as_str()) {
                Some(parts) => {
                    if contains_course_file_ref(parts.path.as_str()) {
                        let mut link = base.to_owned();
                        link.append("/api/v1");
                        link.append(parts.path.as_str());
                        proof {
                            assert(link@ == api_url_of(base@, hrefs.deep_view()[i as int]));
                        }
                        let ghost prev = r.deep_view();
                        r.push(link);
                        proof {
                            assert(r.deep_view() =~= prev + seq![
                                api_url_of(base@, hrefs.deep_view()[i as int]),
                            ]);
                            assert(prev + seq![api_url_of(base@, hrefs.deep_view()[i as int])]
                                + file_api_links_spec(
                                base@,
                                hrefs.deep_view().skip(i + 1),
                            ) =~= prev + (seq![api_url_of(base@, hrefs.deep_view()[i as int])]
                                + file_api_links_spec(base@, hrefs.deep_view().skip(i + 1))));
                        }
                    }
                },
                None => {},
            }
        }
        i = i + 1;
    }
    proof {
        assert(hrefs.deep_view().skip(n as int) =~= Seq::<Seq<char>>::empty());
        assert(r.deep_view() + Seq::<Seq<char>>::empty() =~= r.deep_view());
    }
    r
}

/// An image worth fetching from the CDN: under the source system's URL and
/// not an equation rendering.
pub open spec fn wanted_image_src(base: Seq<char>, src: Seq<char>) -> bool {
    &&& occurs_at(src, base, 0)
    &&& !contains_seq(src, "equation_images"@)
}

/// The wanted image links among `srcs`, unchanged, in order.
pub open spec fn image_links_spec(base: Seq<char>, srcs: Seq<Seq<char>>) -> Seq<Seq<char>>
    decreases srcs.len(),
{
    if srcs.len() == 0 {
        Seq::empty()
    } else {
        let rest = image_links_spec(base, srcs.drop_first());
        if wanted_image_src(base, srcs[0]) {
            seq![srcs[0]] + rest
        } else {
            rest
        }
    }
}

/// Harvests the image links of a page worth downloading from the CDN.
pub fn cdn_image_links(html: &str, base: &str) -> (r: Vec<String>)
    ensures
        r.deep_view() == image_links_spec(base@, image_srcs_of(html@)),
{
    let srcs = image_srcs(html);
    let n = srcs.len();
    let mut r: Vec<String> = Vec::new();
    proof {
        assert(srcs.deep_view().skip(0) =~= srcs.deep_view());
        assert(r.deep_view() =~= Seq::<Seq<char>>::empty());
        assert(Seq::<Seq<char>>::empty() + image_links_spec(base@, srcs.deep_view())
            =~= image_links_spec(base@, srcs.deep_view()));
    }
    let mut i: usize = 0;
    while i < n
        invariant
            i <= n,
            n == srcs@.len(),
            srcs.deep_view() == image_srcs_of(html@),
            srcs.deep_view().len() == n,
            image_links_spec(base@, srcs.deep_view()) == r.deep_view() + image_links_spec(
                base@,
                srcs.deep_view().skip(i as int),
            ),
        decreases n - i,
    {
        proof {
            assert(srcs.deep_view()[i as int] == srcs@[i as int]@);
            assert(srcs.deep_view().skip(i as int)[0] == srcs.deep_view()[i as int]);
            assert(srcs.deep_view().skip(i as int).drop_first() =~= srcs.deep_view().skip(i + 1));
        }
        let src = &srcs[i];
        if starts_with_str(src.as_str(), base) && !contains_str(src.as_str(), "equation_images") {
            let kept = src.clone();
            let ghost prev = r.deep_view();
            r.push(kept);
            proof {
                assert(r.deep_view() =~= prev + seq![srcs.deep_view()[i as int]]);
                assert(prev + seq![srcs.deep_view()[i as int]] + image_links_spec(
                    base@,
                    srcs.deep_view().skip(i + 1),
                ) =~= prev + (seq![srcs.deep_view()[i as int]] + image_links_spec(
                    base@,
                    srcs.deep_view().skip(i + 1),
                )));
            }
        }
        i = i + 1;
    }
    proof {
        assert(srcs.deep_view().skip(n as int) =~= Seq::<Seq<char>>::empty());
        assert(r.deep_view() + Seq::<Seq<char>>::empty() =~= r.deep_view());
    }
    r
}

} // verus!
