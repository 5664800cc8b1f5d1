//! The video portal's discovery logic: folder-listing paging decisions,
//! playlist parsing behind a trusted wrapper, highest-bandwidth variant
//! selection, and the URL and name assembly for one recording session.

use vstd::prelude::*;
use vstd::string::*;

use crate::names::folder_name_of;
use crate::names::sanitize_foldername;
use crate::resources::{File, PanoptoSubfolder};
use crate::textutil::{decimal_of, u64_to_decimal};

verus! {

/// One variant stream of a master playlist.
#[derive(Clone, Debug)]
pub struct Variant {
    pub bandwidth: u64,
    pub uri: String,
}

/// The mathematical image of a variant.
pub struct VariantView {
    pub bandwidth: u64,
    pub uri: Seq<char>,
}

impl View for Variant {
    type V = VariantView;

    open spec fn view(&self) -> VariantView {
        VariantView { bandwidth: self.bandwidth, uri: self.uri@ }
    }
}

/// What a playlist text parses into: a master playlist's variants, a media
/// playlist's segment URIs, or nothing.
#[derive(Clone, Debug)]
pub enum PlaylistInfo {
    Master(Vec<Variant>),
    Media(Vec<String>),
    Invalid,
}

/// The mathematical image of a parsed playlist.
pub enum PlaylistView {
    Master(Seq<VariantView>),
    Media(Seq<Seq<char>>),
    Invalid,
}

impl View for PlaylistInfo {
    type V = PlaylistView;

    open spec fn view(&self) -> PlaylistView {
        match self {
            PlaylistInfo::Master(vs) => PlaylistView::Master(
                vs@.map_values(|v: Variant| v@),
            ),
            PlaylistInfo::Media(segs) => PlaylistView::Media(
                segs@.map_values(|s: String| s@),
            ),
            PlaylistInfo::Invalid => PlaylistView::Invalid,
        }
    }
}

/// What the playlist parser of the outside library yields for a text: its
/// kind with the fields this crate reads.  A function of the text alone.
pub uninterp spec fn playlist_of(text: Seq<char>) -> PlaylistView;

/// Relies on `m3u8_rs::parse_playlist_res` over the text's bytes: a master
/// playlist's variants with bandwidth and URI, a media playlist's segment
/// URIs, or a parse failure.
#[verifier::external_body]
pub(crate) fn parse_playlist(text: &str) -> (r: PlaylistInfo)
    ensures
        r@ == playlist_of(text@),
{
    match m3u8_rs::parse_playlist_res(text.as_bytes()) {
        Ok(m3u8_rs::Playlist::MasterPlaylist(pl)) => PlaylistInfo::Master(
            pl.variants.into_iter().map(
                |v| Variant { bandwidth: v.bandwidth, uri: v.uri },
            ).collect(),
        ),
        Ok(m3u8_rs::Playlist::MediaPlaylist(pl)) => PlaylistInfo::Media(
            pl.segments.into_iter().map(|sg| sg.uri).collect(),
        ),
        Err(_) => PlaylistInfo::Invalid,
    }
}

/// The variant to download: the one of highest bandwidth, the last such on
/// a tie.
pub fn best_variant(vs: &Vec<Variant>) -> (r: Option<usize>)
    ensures
        (r is None) == (vs@.len() == 0),
        r is Some ==> 0 <= r->0 < vs@.len(),
        r is Some ==> forall|k: int|
            0 <= k < vs@.len() ==> (#[trigger] vs@[k]).bandwidth <= vs@[r->0 as int].bandwidth,
        r is Some ==> forall|k: int|
            r->0 < k < vs@.len() ==> (#[trigger] vs@[k]).bandwidth < vs@[r->0 as int].bandwidth,
{
    let n = vs.len();
    if n == 0 {
        return None;
    }
    let mut best: usize = 0;
    let mut i: usize = 1;
    while i < n
        invariant
            1 <= i <= n,
            n == vs@.len(),
            best < i,
            forall|k: int| 0 <= k < i ==> vs@[k].bandwidth <= vs@[best as int].bandwidth,
            forall|k: int| best < k < i ==> vs@[k].bandwidth < vs@[best as int].bandwidth,
        decreases n - i,
    {
        if vs[i].bandwidth >= vs[best].bandwidth {
            best = i;
        }
        i = i + 1;
    }
    Some(best)
}

/// Parses a master playlist and picks the variant to download: the one of
/// highest bandwidth, the last such on a tie.  Nothing comes back for a
/// media playlist, an invalid playlist, or a master without variants.
pub fn choose_master_variant(text: &str) -> (r: Option<Variant>)
    ensures
        match playlist_of(text@) {
            PlaylistView::Master(vs) => {
                &&& (vs.len() == 0 ==> r is None)
                &&& (vs.len() > 0 ==> (r matches Some(v) && exists|b: int|
                    {
                        &&& 0 <= b < vs.len()
                        &&& v@ == #[trigger] vs[b]
                        &&& (forall|k: int|
                            0 <= k < vs.len() ==> (#[trigger] vs[k]).bandwidth <= vs[b].bandwidth)
                        &&& (forall|k: int|
                            b < k < vs.len() ==> (#[trigger] vs[k]).bandwidth < vs[b].bandwidth)
                    }))
            },
            PlaylistView::Media(_) => r is None,
            PlaylistView::Invalid => r is None,
        },
{
    match parse_playlist(text) {
        PlaylistInfo::Master(mut vs) => {
            match best_variant(&vs) {
                Some(idx) => {
                    let ghost vs0 = vs@.map_values(|v: Variant| v@);
                    let v = vs.swap_remove(idx);
                    proof {
                        assert(v@ == vs0[idx as int]);
                    }
                    Some(v)
                },
                None => None,
            }
        },
        PlaylistInfo::Media(_) => None,
        PlaylistInfo::Invalid => None,
    }
}

/// Parses a media playlist and hands back its first segment's URI —
/// nothing for a master playlist, an invalid playlist, or an empty one.
pub fn first_media_segment(text: &str) -> (r: Option<String>)
    ensures
        match playlist_of(text@) {
            PlaylistView::Media(segs) => {
                &&& (segs.len() == 0 ==> r is None)
                &&& (segs.len() > 0 ==> (r matches Some(u) && u@ == segs[0]))
            },
            PlaylistView::Master(_) => r is None,
            PlaylistView::Invalid => r is None,
        },
{
    match parse_playlist(text) {
        PlaylistInfo::Media(mut segs) => {
            if segs.len() > 0 {
                let u = segs.remove(0);
                Some(u)
            } else {
                None
            }
        },
        PlaylistInfo::Master(_) => None,
        PlaylistInfo::Invalid => None,
    }
}

/// The timestamp a recording's candidate carries: the first
/// `/Date(...)/` capture of the start-time text, rendered as its UTC
/// timestamp — nothing when no capture stands, its value overflows, or
/// the instant lies outside the calendar's range.
pub fn session_timestamp(start_time: &str) -> (r: Option<String>)
    ensures
        (forall|i: int, j: int| !crate::extract::date_at(start_time@, i, j)) ==> r is None,
        forall|i: int, j: int|
            #![trigger crate::extract::date_first_at(start_time@, i, j)]
            crate::extract::date_first_at(start_time@, i, j) ==> {
                let v = crate::textutil::digits_val(start_time@.subrange(i + 6, j));
                if v <= i64::MAX {
                    match crate::timestamp::rfc3339_from_millis(v as i64) {
                        Some(t) => r matches Some(x) && x@ == t,
                        None => r is None,
                    }
                } else {
                    r is None
                }
            },
{
    match crate::extract::start_time_millis(start_time) {
        Some(ms) => crate::timestamp::millis_to_rfc3339(ms),
        None => None,
    }
}

/// The common prefix of one session's stream URLs: host, session id, and
/// the delivery/viewer pair, up to and including `.hls/`.
pub open spec fn session_prefix(
    host: Seq<char>,
    session_id: Seq<char>,
    delivery_id: Seq<char>,
    viewer_file_id: Seq<char>,
) -> Seq<char> {
    "https://"@ + host + "/sessions/"@ + session_id + "/"@ + delivery_id + "-"@ + viewer_file_id
        + ".hls/"@
}

fn build_session_prefix(
    host: &str,
    session_id: &str,
    delivery_id: &str,
    viewer_file_id: &str,
) -> (r: String)
    ensures
        r@ == session_prefix(host@, session_id@, delivery_id@, viewer_file_id@),
{
    let mut r = "https://".to_owned();
    r.append(host);
    r.append("/sessions/");
    r.append(session_id);
    r.append("/");
    r.append(delivery_id);
    r.append("-");
    r.append(viewer_file_id);
    r.append(".hls/");
    r
}

/// The master-playlist URL of one session.
pub fn master_playlist_url(
    host: &str,
    session_id: &str,
    delivery_id: &str,
    viewer_file_id: &str,
) -> (r: String)
    ensures
        r@ == session_prefix(host@, session_id@, delivery_id@, viewer_file_id@)
            + "master.m3u8"@,
{
    let mut r = build_session_prefix(host, session_id, delivery_id, viewer_file_id);
    r.append("master.m3u8");
    r
}

/// The index-playlist URL of one variant of a session.
pub fn variant_index_url(
    host: &str,
    session_id: &str,
    delivery_id: &str,
    viewer_file_id: &str,
    variant_uri: &str,
) -> (r: String)
    ensures
        r@ == session_prefix(host@, session_id@, delivery_id@, viewer_file_id@) + variant_uri@,
{
    let mut r = build_session_prefix(host, session_id, delivery_id, viewer_file_id);
    r.append(variant_uri);
    r
}

/// The media-file URL of one segment of a variant.
pub fn media_file_url(
    host: &str,
    session_id: &str,
    delivery_id: &str,
    viewer_file_id: &str,
    uri_id: &str,
    file_uri: &str,
) -> (r: String)
    ensures
        r@ == session_prefix(host@, session_id@, delivery_id@, viewer_file_id@) + uri_id@
            + "/"@ + file_uri@,
{
    let mut r = build_session_prefix(host, session_id, delivery_id, viewer_file_id);
    r.append(uri_id);
    r.append("/");
    r.append(file_uri);
    r
}

/// The name the downloaded recording gets: the session's name, with the
/// media file's extension when it has one.
pub fn session_file_name(session_name: &str, ext: &str) -> (r: String)
    ensures
        ext@.len() == 0 ==> r@ == session_name@,
        ext@.len() > 0 ==> r@ == session_name@ + "."@ + ext@,
{
    let el = ext.unicode_len();
    if el == 0 {
        session_name.to_owned()
    } else {
        let mut r = session_name.to_owned();
        r.append(".");
        r.append(ext);
        r
    }
}

/// The candidate descriptor of one recording, handed to the change filter:
/// no structured metadata beyond the name, the media URL and the start
/// time rendered as its timestamp.
pub fn video_candidate(display_name: String, url: String, updated_at: String, dir: String) -> (f:
    File)
    ensures
        f@.id == 0,
        f@.folder_id == 0,
        f@.size == 0,
        !f@.locked_for_user,
        f@.display_name == display_name@,
        f@.url == url@,
        f@.updated_at == updated_at@,
        f@.filepath == dir@,
{
    File {
        id: 0,
        folder_id: 0,
        display_name,
        size: 0,
        url,
        updated_at,
        locked_for_user: false,
        filepath: dir,
    }
}

/// The session-token URL that opens the video portal for one course.
pub fn session_token_url(base: &str, course_id: u32) -> (r: String)
    ensures
        r@ == base@ + "/login/session_token?return_to="@ + base@ + "/courses/"@ + decimal_of(
            course_id as nat,
        ) + "/external_tools/128"@,
{
    let id = u64_to_decimal(course_id as u64);
    let mut r = base.to_owned();
    r.append("/login/session_token?return_to=");
    r.append(base);
    r.append("/courses/");
    r.append(id.as_str());
    r.append("/external_tools/128");
    r
}

/// What one page of the video portal's folder listing decides: stop on an
/// empty result page, and walk subfolders only from the first page — they
/// repeat on every page.
pub struct VideoFolderPlan {
    pub done: bool,
    pub subfolder_tasks: Vec<(String, String)>,
}

/// Plans one folder-listing page: whether the paging loop stops, and which
/// subfolders to descend into, each with its local directory.
pub fn plan_video_folder_page(
    page_index: u64,
    results_len: usize,
    subfolders: &Vec<PanoptoSubfolder>,
    dir: &str,
) -> (plan: VideoFolderPlan)
    ensures
        plan.done == (results_len == 0),
        (page_index == 0 && results_len > 0) ==> {
            &&& plan.subfolder_tasks@.len() == subfolders@.len()
            &&& forall|i: int|
                0 <= i < subfolders@.len() ==> (#[trigger] plan.subfolder_tasks@[i]).0@
                    == subfolders@[i].ID@ && plan.subfolder_tasks@[i].1@ == dir@.push('/')
                    + folder_name_of(subfolders@[i].Name@)
        },
        !(page_index == 0 && results_len > 0) ==> plan.subfolder_tasks@.len() == 0,
{
    let done = results_len == 0;
    let mut subfolder_tasks: Vec<(String, String)> = Vec::new();
    if page_index == 0 && !done {
        let n = subfolders.len();
        let mut i: usize = 0;
        while i < n
            invariant
                i <= n,
                n == subfolders@.len(),
                subfolder_tasks@.len() == i,
                forall|k: int|
                    0 <= k < i ==> (#[trigger] subfolder_tasks@[k]).0@ == subfolders@[k].ID@
                        && subfolder_tasks@[k].1@ == dir@.push('/') + folder_name_of(
                        subfolders@[k].Name@,
                    ),
            decreases n - i,
        {
            let id = subfolders[i].ID.clone();
            let name = sanitize_foldername(subfolders[i].Name.as_str());
            let sub_dir = crate::textutil::path_join(dir, name.as_str());
            subfolder_tasks.push((id, sub_dir));
            i = i + 1;
        }
    }
    VideoFolderPlan { done, subfolder_tasks }
}

} // verus!
