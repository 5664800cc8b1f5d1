//! The discovery handlers' decisions: which URL each resource listing
//! lives at, which local directory each discovered container maps to, what
//! each handler spawns, and which candidates it emits.  The driver fetches
//! and decodes; every name, path and URL is computed and specified here.

use vstd::prelude::*;
use vstd::string::*;

use crate::extract::{cd_filename_at, content_disposition_filename};
use crate::names::folder_name_of;
use crate::names::sanitize_foldername;
use crate::names::sanitized_of;
use crate::resources::{
    Assignment, CandidateView, Comments, Course, Discussion, DiscussionView, File, Folder,
    ModuleItem, ModuleSection, Page,
};
use crate::textutil::{
    decimal_of, last_path_segment, last_slash_at, path_join, str_eq, u64_to_decimal,
};

verus! {

/// The authenticated user's endpoint.
pub fn user_url(base: &str) -> (r: String)
    ensures
        r@ == base@ + "/api/v1/users/self"@,
{
    let mut r = base.to_owned();
    r.append("/api/v1/users/self");
    r
}

/// The favourite-courses listing.
pub fn favorites_url(base: &str) -> (r: String)
    ensures
        r@ == base@ + "/api/v1/users/self/favorites/courses"@,
{
    let mut r = base.to_owned();
    r.append("/api/v1/users/self/favorites/courses");
    r
}

/// One course's root-folder listing.
pub fn course_folders_url(base: &str, course_id: u32) -> (r: String)
    ensures
        r@ == base@ + "/api/v1/courses/"@ + decimal_of(course_id as nat) + "/folders/by_path/"@,
{
    let id = u64_to_decimal(course_id as u64);
    let mut r = base.to_owned();
    r.append("/api/v1/courses/");
    r.append(id.as_str());
    r.append("/folders/by_path/");
    r
}

/// One course's API root, with the trailing slash the listing URLs build
/// on.
pub fn course_api_url(base: &str, course_id: u32) -> (r: String)
    ensures
        r@ == base@ + "/api/v1/courses/"@ + decimal_of(course_id as nat) + "/"@,
{
    let id = u64_to_decimal(course_id as u64);
    let mut r = base.to_owned();
    r.append("/api/v1/courses/");
    r.append(id.as_str());
    r.append("/");
    r
}

/// The page listing of a course.
pub fn pages_url(api: &str) -> (r: String)
    ensures
        r@ == api@ + "pages"@,
{
    let mut r = api.to_owned();
    r.append("pages");
    r
}

/// The user listing of a course, with every include the mirror records.
pub fn users_url(api: &str) -> (r: String)
    ensures
        r@ == api@
            + "users?include_inactive=true&include[]=avatar_url&include[]=enrollments&include[]=email&include[]=observed_users&include[]=can_be_removed&include[]=custom_links"@,
{
    let mut r = api.to_owned();
    r.append(
        "users?include_inactive=true&include[]=avatar_url&include[]=enrollments&include[]=email&include[]=observed_users&include[]=can_be_removed&include[]=custom_links",
    );
    r
}

/// The assignment listing of a course, with every include the mirror
/// records.
pub fn assignments_url(api: &str) -> (r: String)
    ensures
        r@ == api@
            + "assignments?include[]=submission&include[]=assignment_visibility&include[]=all_dates&include[]=overrides&include[]=observed_users&include[]=can_edit&include[]=score_statistics"@,
{
    let mut r = api.to_owned();
    r.append(
        "assignments?include[]=submission&include[]=assignment_visibility&include[]=all_dates&include[]=overrides&include[]=observed_users&include[]=can_edit&include[]=score_statistics",
    );
    r
}

/// The discussion-topic listing — the announcements variant asks for
/// announcements only.
pub fn discussions_url(api: &str, announcements: bool) -> (r: String)
    ensures
        announcements ==> r@ == api@ + "discussion_topics?only_announcements=true"@,
        !announcements ==> r@ == api@ + "discussion_topics"@,
{
    let mut r = api.to_owned();
    if announcements {
        r.append("discussion_topics?only_announcements=true");
    } else {
        r.append("discussion_topics");
    }
    r
}

/// The module listing of a course.
pub fn modules_url(api: &str) -> (r: String)
    ensures
        r@ == api@ + "modules"@,
{
    let mut r = api.to_owned();
    r.append("modules");
    r
}

/// The submissions collection of one assignment.
pub fn submissions_url(api: &str, assignment_id: u32) -> (r: String)
    ensures
        r@ == api@ + "assignments/"@ + decimal_of(assignment_id as nat) + "/submissions/"@,
{
    let id = u64_to_decimal(assignment_id as u64);
    let mut r = api.to_owned();
    r.append("assignments/");
    r.append(id.as_str());
    r.append("/submissions/");
    r
}

/// One user's submission under a submissions collection.
pub fn submission_of_user_url(submissions: &str, user_id: u32) -> (r: String)
    ensures
        r@ == submissions@ + decimal_of(user_id as nat),
{
    let id = u64_to_decimal(user_id as u64);
    let mut r = submissions.to_owned();
    r.append(id.as_str());
    r
}

/// The full view of one discussion.
pub fn discussion_view_url(api: &str, discussion_id: u32) -> (r: String)
    ensures
        r@ == api@ + "discussion_topics/"@ + decimal_of(discussion_id as nat) + "/view"@,
{
    let id = u64_to_decimal(discussion_id as u64);
    let mut r = api.to_owned();
    r.append("discussion_topics/");
    r.append(id.as_str());
    r.append("/view");
    r
}

/// The body of one wiki page.
pub fn page_body_url(api: &str, page_slug: &str) -> (r: String)
    ensures
        r@ == api@ + "pages/"@ + page_slug@,
{
    let mut r = api.to_owned();
    r.append("pages/");
    r.append(page_slug);
    r
}

/// Whether `t` occurs among the wanted term identifiers.
pub open spec fn term_wanted(terms: Seq<u32>, t: u32) -> bool {
    exists|k: int| 0 <= k < terms.len() && terms[k] == t
}

fn contains_term(terms: &Vec<u32>, t: u32) -> (r: bool)
    ensures
        r == term_wanted(terms@, t),
{
    let n = terms.len();
    let mut i: usize = 0;
    while i < n
        invariant
            i <= n,
            n == terms@.len(),
            forall|k: int| 0 <= k < i ==> terms@[k] != t,
        decreases n - i,
    {
        if terms[i] == t {
            return true;
        }
        i = i + 1;
    }
    false
}

/// The positions of the courses enrolled in one of the wanted terms, in
/// listing order.
pub fn courses_for_terms(courses: &Vec<Course>, terms: &Vec<u32>) -> (r: Vec<usize>)
    ensures
        forall|k: int| 0 <= k < r@.len() ==> 0 <= #[trigger] r@[k] < courses@.len(),
        forall|k: int|
            0 <= k < r@.len() ==> term_wanted(terms@, courses@[#[trigger] r@[k] as int].enrollment_term_id),
        forall|i: int|
            0 <= i < courses@.len() && term_wanted(terms@, courses@[i].enrollment_term_id)
                ==> exists|k: int| 0 <= k < r@.len() && #[trigger] r@[k] == i,
        forall|k1: int, k2: int| 0 <= k1 < k2 < r@.len() ==> r@[k1] < r@[k2],
{
    let n = courses.len();
    let mut r: Vec<usize> = Vec::new();
    let mut i: usize = 0;
    while i < n
        invariant
            i <= n,
            n == courses@.len(),
            forall|k: int| 0 <= k < r@.len() ==> 0 <= #[trigger] r@[k] < i,
            forall|k: int|
                0 <= k < r@.len() ==> term_wanted(
                    terms@,
                    courses@[#[trigger] r@[k] as int].enrollment_term_id,
                ),
            forall|j: int|
                0 <= j < i && term_wanted(terms@, courses@[j].enrollment_term_id) ==> exists|k: int|
                    0 <= k < r@.len() && #[trigger] r@[k] == j,
            forall|k1: int, k2: int| 0 <= k1 < k2 < r@.len() ==> r@[k1] < r@[k2],
        decreases n - i,
    {
        if contains_term(terms, courses[i].enrollment_term_id) {
            let ghost prev = r@;
            r.push(i);
            proof {
                assert(r@[r@.len() - 1] == i);
                assert forall|j: int|
                    0 <= j < i + 1 && term_wanted(terms@, courses@[j].enrollment_term_id)
                        implies exists|k: int| 0 <= k < r@.len() && #[trigger] r@[k] == j by {
                    if j < i {
                        let k = choose|k: int| 0 <= k < prev.len() && prev[k] == j;
                        assert(r@[k] == j);
                    } else {
                        assert(r@[r@.len() - 1] == j);
                    }
                }
            }
        }
        i = i + 1;
    }
    r
}

/// Some course among `courses` is enrolled under term `t`.
pub open spec fn course_has_term(courses: Seq<Course>, t: u32) -> bool {
    exists|i: int| 0 <= i < courses.len() && courses[i].enrollment_term_id == t
}

/// The term identifiers that occur among the courses, first occurrence
/// first, without repetition.
pub fn distinct_terms(courses: &Vec<Course>) -> (r: Vec<u32>)
    ensures
        forall|k1: int, k2: int| 0 <= k1 < k2 < r@.len() ==> r@[k1] != r@[k2],
        forall|i: int|
            0 <= i < courses@.len() ==> term_wanted(r@, courses@[i].enrollment_term_id),
        forall|k: int| 0 <= k < r@.len() ==> course_has_term(courses@, #[trigger] r@[k]),
{
    let n = courses.len();
    let mut r: Vec<u32> = Vec::new();
    let mut i: usize = 0;
    while i < n
        invariant
            i <= n,
            n == courses@.len(),
            forall|k1: int, k2: int| 0 <= k1 < k2 < r@.len() ==> r@[k1] != r@[k2],
            forall|j: int| 0 <= j < i ==> term_wanted(r@, courses@[j].enrollment_term_id),
            forall|k: int| 0 <= k < r@.len() ==> course_has_term(courses@, #[trigger] r@[k]),
        decreases n - i,
    {
        let t = courses[i].enrollment_term_id;
        if !contains_term(&r, t) {
            let ghost prev = r@;
            r.push(t);
            proof {
                assert(r@[r@.len() - 1] == t);
                assert forall|k: int| 0 <= k < r@.len() implies course_has_term(
                    courses@,
                    #[trigger] r@[k],
                ) by {
                    if k >= prev.len() {
                        assert(courses@[i as int].enrollment_term_id == r@[k]);
                    }
                }
                assert forall|j: int| 0 <= j < i + 1 implies term_wanted(
                    r@,
                    courses@[j].enrollment_term_id,
                ) by {
                    if j < i {
                        let k = choose|k: int|
                            0 <= k < prev.len() && prev[k] == courses@[j].enrollment_term_id;
                        assert(r@[k] == courses@[j].enrollment_term_id);
                    } else {
                        assert(r@[r@.len() - 1] == courses@[j].enrollment_term_id);
                    }
                }
            }
        } else {
            proof {
                let k = choose|k: int| 0 <= k < r@.len() && r@[k] == t;
                assert(r@[k] == courses@[i as int].enrollment_term_id);
            }
        }
        i = i + 1;
    }
    r
}

/// The course codes of the courses enrolled under term `t`, in listing
/// order.
pub open spec fn codes_of_term(courses: Seq<Course>, t: u32) -> Seq<Seq<char>>
    decreases courses.len(),
{
    if courses.len() == 0 {
        Seq::empty()
    } else {
        let rest = codes_of_term(courses.drop_first(), t);
        if courses[0].enrollment_term_id == t {
            seq![courses[0].course_code@] + rest
        } else {
            rest
        }
    }
}

/// The course codes enrolled under one term, in listing order.
pub fn codes_for_term(courses: &Vec<Course>, t: u32) -> (r: Vec<String>)
    ensures
        r.deep_view() == codes_of_term(courses@, t),
{
    let n = courses.len();
    let mut r: Vec<String> = Vec::new();
    proof {
        assert(courses@.skip(0) =~= courses@);
        assert(r.deep_view() =~= Seq::<Seq<char>>::empty());
        assert(Seq::<Seq<char>>::empty() + codes_of_term(courses@, t) =~= codes_of_term(
            courses@,
            t,
        ));
    }
    let mut i: usize = 0;
    while i < n
        invariant
            i <= n,
            n == courses@.len(),
            codes_of_term(courses@, t) == r.deep_view() + codes_of_term(
                courses@.skip(i as int),
                t,
            ),
        decreases n - i,
    {
        proof {
            assert(courses@.skip(i as int)[0] == courses@[i as int]);
            assert(courses@.skip(i as int).drop_first() =~= courses@.skip(i + 1));
        }
        if courses[i].enrollment_term_id == t {
            let code = courses[i].course_code.clone();
            let ghost prev = r.deep_view();
            let ghost code_v = code@;
            r.push(code);
            proof {
                assert(r.deep_view() =~= prev + seq![code_v]);
                assert(prev + seq![code_v] + codes_of_term(courses@.skip(i + 1), t) =~= prev + (
                seq![code_v] + codes_of_term(courses@.skip(i + 1), t)));
            }
        }
        i = i + 1;
    }
    proof {
        assert(courses@.skip(n as int) =~= Seq::<Course>::empty());
        assert(r.deep_view() + Seq::<Seq<char>>::empty() =~= r.deep_view());
    }
    r
}

/// What one discovered folder asks for: its file and subfolder listings,
/// and the local directory they land in — the course root itself for the
/// hierarchy's root folder, so the root adds no extra nesting.
pub struct FolderTask {
    pub files_url: String,
    pub folders_url: String,
    pub dir: String,
}

/// Plans the folders of one listing page.
pub fn plan_folders(folders: Vec<Folder>, base_dir: &str) -> (r: Vec<FolderTask>)
    ensures
        r@.len() == folders@.len(),
        forall|i: int|
            0 <= i < folders@.len() ==> {
                &&& (#[trigger] r@[i]).files_url@ == folders@[i].files_url@
                &&& r@[i].folders_url@ == folders@[i].folders_url@
                &&& (folders@[i].parent_folder_id is Some ==> r@[i].dir@ == base_dir@.push('/')
                    + folder_name_of(folders@[i].name@))
                &&& (folders@[i].parent_folder_id is None ==> r@[i].dir@ == base_dir@)
            },
{
    let mut rest = folders;
    let n = rest.len();
    let ghost all = rest@;
    let mut r: Vec<FolderTask> = Vec::new();
    let mut i: usize = 0;
    while i < n
        invariant
            i <= n,
            n == all.len(),
            rest@ == all.skip(i as int),
            r@.len() == i,
            forall|k: int|
                0 <= k < i ==> {
                    &&& (#[trigger] r@[k]).files_url@ == all[k].files_url@
                    &&& r@[k].folders_url@ == all[k].folders_url@
                    &&& (all[k].parent_folder_id is Some ==> r@[k].dir@ == base_dir@.push('/')
                        + folder_name_of(all[k].name@))
                    &&& (all[k].parent_folder_id is None ==> r@[k].dir@ == base_dir@)
                },
        decreases n - i,
    {
        proof {
            assert(all.skip(i as int)[0] == all[i as int]);
            assert(all.skip(i as int).drop_first() =~= all.skip(i + 1));
        }
        let f = rest.remove(0);
        let dir = match f.parent_folder_id {
            Some(_) => {
                let name = sanitize_foldername(f.name.as_str());
                path_join(base_dir, name.as_str())
            },
            None => base_dir.to_owned(),
        };
        r.push(FolderTask { files_url: f.files_url, folders_url: f.folders_url, dir });
        i = i + 1;
    }
    r
}

/// The local directories one course's resource listings land in.
pub struct CourseDataPlan {
    pub assignments_dir: String,
    pub users_file: String,
    pub discussions_dir: String,
    pub announcements_dir: String,
    pub modules_dir: String,
}

/// Plans the per-course resource walk: one directory per resource kind,
/// and the users listing as a single file.
pub fn plan_course_data(dir: &str) -> (r: CourseDataPlan)
    ensures
        r.assignments_dir@ == dir@.push('/') + "assignments"@,
        r.users_file@ == dir@.push('/') + "users.json"@,
        r.discussions_dir@ == dir@.push('/') + "discussions"@,
        r.announcements_dir@ == dir@.push('/') + "announcements"@,
        r.modules_dir@ == dir@.push('/') + "modules"@,
{
    CourseDataPlan {
        assignments_dir: path_join(dir, "assignments"),
        users_file: path_join(dir, "users.json"),
        discussions_dir: path_join(dir, "discussions"),
        announcements_dir: path_join(dir, "announcements"),
        modules_dir: path_join(dir, "modules"),
    }
}

/// What one listed wiki page asks for: its body's URL, its title, and the
/// directory its files land in.
pub struct PageTask {
    pub url: String,
    pub title: String,
    pub dir: String,
}

/// Plans the wiki pages of one listing page.
pub fn plan_pages(pages: Vec<Page>, api: &str, dir: &str) -> (r: Vec<PageTask>)
    ensures
        r@.len() == pages@.len(),
        forall|i: int|
            0 <= i < pages@.len() ==> {
                &&& (#[trigger] r@[i]).url@ == api@ + "pages/"@ + pages@[i].url@
                &&& r@[i].title@ == pages@[i].url@
                &&& r@[i].dir@ == dir@.push('/') + folder_name_of(pages@[i].url@)
            },
{
    let mut rest = pages;
    let n = rest.len();
    let ghost all = rest@;
    let mut r: Vec<PageTask> = Vec::new();
    let mut i: usize = 0;
    while i < n
        invariant
            i <= n,
            n == all.len(),
            rest@ == all.skip(i as int),
            r@.len() == i,
            forall|k: int|
                0 <= k < i ==> {
                    &&& (#[trigger] r@[k]).url@ == api@ + "pages/"@ + all[k].url@
                    &&& r@[k].title@ == all[k].url@
                    &&& r@[k].dir@ == dir@.push('/') + folder_name_of(all[k].url@)
                },
        decreases n - i,
    {
        proof {
            assert(all.skip(i as int)[0] == all[i as int]);
            assert(all.skip(i as int).drop_first() =~= all.skip(i + 1));
        }
        let p = rest.remove(0);
        let url = page_body_url(api, p.url.as_str());
        let name = sanitize_foldername(p.url.as_str());
        let page_dir = path_join(dir, name.as_str());
        r.push(PageTask { url, title: p.url, dir: page_dir });
        i = i + 1;
    }
    r
}

/// The stored name of a page body's raw record.
pub fn page_json_name(title: &str) -> (r: String)
    ensures
        r@ == sanitized_of(title@) + ".json"@,
{
    let mut r = crate::names::target_name(title);
    r.append(".json");
    r
}

/// The stored name of a page body's rendered document.
pub fn page_html_name(slug: &str) -> (r: String)
    ensures
        r@ == sanitized_of(slug@) + ".html"@,
{
    let mut r = crate::names::target_name(slug);
    r.append(".html");
    r
}

/// The minimal document a page body is stored as.
pub fn page_html_doc(title: &str, body: &str) -> (r: String)
    ensures
        r@ == "<html><head><title>"@ + title@ + "</title></head><body>"@ + body@
            + "</body></html>"@,
{
    let mut r = "<html><head><title>".to_owned();
    r.append(title);
    r.append("</title></head><body>");
    r.append(body);
    r.append("</body></html>");
    r
}

/// What one assignment asks for: its directory, its submissions URL, and
/// its description markup to harvest links from.
pub struct AssignmentTask {
    pub dir: String,
    pub submissions_url: String,
    pub description: String,
}

/// Plans the assignments of one listing page.
pub fn plan_assignments(assignments: Vec<Assignment>, api: &str, dir: &str) -> (r: Vec<
    AssignmentTask,
>)
    ensures
        r@.len() == assignments@.len(),
        forall|i: int|
            0 <= i < assignments@.len() ==> {
                &&& (#[trigger] r@[i]).dir@ == dir@.push('/') + folder_name_of(
                    assignments@[i].name@,
                )
                &&& r@[i].submissions_url@ == api@ + "assignments/"@ + decimal_of(
                    assignments@[i].id as nat,
                ) + "/submissions/"@
                &&& r@[i].description@ == assignments@[i].description@
            },
{
    let mut rest = assignments;
    let n = rest.len();
    let ghost all = rest@;
    let mut r: Vec<AssignmentTask> = Vec::new();
    let mut i: usize = 0;
    while i < n
        invariant
            i <= n,
            n == all.len(),
            rest@ == all.skip(i as int),
            r@.len() == i,
            forall|k: int|
                0 <= k < i ==> {
                    &&& (#[trigger] r@[k]).dir@ == dir@.push('/') + folder_name_of(all[k].name@)
                    &&& r@[k].submissions_url@ == api@ + "assignments/"@ + decimal_of(
                        all[k].id as nat,
                    ) + "/submissions/"@
                    &&& r@[k].description@ == all[k].description@
                },
        decreases n - i,
    {
        proof {
            assert(all.skip(i as int)[0] == all[i as int]);
            assert(all.skip(i as int).drop_first() =~= all.skip(i + 1));
        }
        let a = rest.remove(0);
        let name = sanitize_foldername(a.name.as_str());
        let a_dir = path_join(dir, name.as_str());
        let subs = submissions_url(api, a.id);
        r.push(AssignmentTask { dir: a_dir, submissions_url: subs, description: a.description });
        i = i + 1;
    }
    r
}

/// Each attachment renamed with its own identifier, so that attachments of
/// the same name in one discussion do not collide.
pub fn prefix_attachment_ids(files: Vec<File>) -> (r: Vec<File>)
    ensures
        r@.len() == files@.len(),
        forall|i: int|
            0 <= i < files@.len() ==> {
                &&& (#[trigger] r@[i])@.display_name == decimal_of(files@[i]@.id as nat) + "_"@
                    + files@[i]@.display_name
                &&& r@[i]@.id == files@[i]@.id
                &&& r@[i]@.folder_id == files@[i]@.folder_id
                &&& r@[i]@.size == files@[i]@.size
                &&& r@[i]@.url == files@[i]@.url
                &&& r@[i]@.updated_at == files@[i]@.updated_at
                &&& r@[i]@.locked_for_user == files@[i]@.locked_for_user
                &&& r@[i]@.filepath == files@[i]@.filepath
            },
{
    let mut rest = files;
    let n = rest.len();
    let ghost all = rest@;
    let mut r: Vec<File> = Vec::new();
    let mut i: usize = 0;
    while i < n
        invariant
            i <= n,
            n == all.len(),
            rest@ == all.skip(i as int),
            r@.len() == i,
            forall|k: int|
                0 <= k < i ==> {
                    &&& (#[trigger] r@[k])@.display_name == decimal_of(all[k]@.id as nat) + "_"@
                        + all[k]@.display_name
                    &&& r@[k]@.id == all[k]@.id
                    &&& r@[k]@.folder_id == all[k]@.folder_id
                    &&& r@[k]@.size == all[k]@.size
                    &&& r@[k]@.url == all[k]@.url
                    &&& r@[k]@.updated_at == all[k]@.updated_at
                    &&& r@[k]@.locked_for_user == all[k]@.locked_for_user
                    &&& r@[k]@.filepath == all[k]@.filepath
                },
        decreases n - i,
    {
        proof {
            assert(all.skip(i as int)[0] == all[i as int]);
            assert(all.skip(i as int).drop_first() =~= all.skip(i + 1));
        }
        let mut f = rest.remove(0);
        let mut name = u64_to_decimal(f.id as u64);
        name.append("_");
        name.append(f.display_name.as_str());
        f.display_name = name;
        r.push(f);
        i = i + 1;
    }
    r
}

/// What one discussion asks for: its directory, its full view's URL, its
/// message markup, and its attachments under their prefixed names.
pub struct DiscussionTask {
    pub dir: String,
    pub view_url: String,
    pub message: String,
    pub attachments: Vec<File>,
}

/// Plans the discussions of one listing page.
pub fn plan_discussions(discussions: Vec<Discussion>, api: &str, dir: &str) -> (r: Vec<
    DiscussionTask,
>)
    ensures
        r@.len() == discussions@.len(),
        forall|i: int|
            0 <= i < discussions@.len() ==> {
                &&& (#[trigger] r@[i]).dir@ == dir@.push('/') + decimal_of(
                    discussions@[i].id as nat,
                ) + "_"@ + folder_name_of(discussions@[i].title@)
                &&& r@[i].view_url@ == api@ + "discussion_topics/"@ + decimal_of(
                    discussions@[i].id as nat,
                ) + "/view"@
                &&& r@[i].message@ == discussions@[i].message@
                &&& r@[i].attachments@.len() == discussions@[i].attachments@.len()
                &&& forall|k: int|
                    0 <= k < discussions@[i].attachments@.len() ==> (
                    #[trigger] r@[i].attachments@[k])@.display_name == decimal_of(
                        discussions@[i].attachments@[k]@.id as nat,
                    ) + "_"@ + discussions@[i].attachments@[k]@.display_name
                        && r@[i].attachments@[k]@.url == discussions@[i].attachments@[k]@.url
                        && r@[i].attachments@[k]@.updated_at
                        == discussions@[i].attachments@[k]@.updated_at
                        && r@[i].attachments@[k]@.locked_for_user
                        == discussions@[i].attachments@[k]@.locked_for_user
                        && r@[i].attachments@[k]@.size == discussions@[i].attachments@[k]@.size
                        && r@[i].attachments@[k]@.id == discussions@[i].attachments@[k]@.id
            },
{
    let mut rest = discussions;
    let n = rest.len();
    let ghost all = rest@;
    let mut r: Vec<DiscussionTask> = Vec::new();
    let mut i: usize = 0;
    while i < n
        invariant
            i <= n,
            n == all.len(),
            rest@ == all.skip(i as int),
            r@.len() == i,
            forall|k: int|
                0 <= k < i ==> {
                    &&& (#[trigger] r@[k]).dir@ == dir@.push('/') + decimal_of(all[k].id as nat)
                        + "_"@ + folder_name_of(all[k].title@)
                    &&& r@[k].view_url@ == api@ + "discussion_topics/"@ + decimal_of(
                        all[k].id as nat,
                    ) + "/view"@
                    &&& r@[k].message@ == all[k].message@
                    &&& r@[k].attachments@.len() == all[k].attachments@.len()
                    &&& forall|k2: int|
                        0 <= k2 < all[k].attachments@.len() ==> (
                        #[trigger] r@[k].attachments@[k2])@.display_name == decimal_of(
                            all[k].attachments@[k2]@.id as nat,
                        ) + "_"@ + all[k].attachments@[k2]@.display_name
                            && r@[k].attachments@[k2]@.url == all[k].attachments@[k2]@.url
                            && r@[k].attachments@[k2]@.updated_at
                            == all[k].attachments@[k2]@.updated_at
                            && r@[k].attachments@[k2]@.locked_for_user
                            == all[k].attachments@[k2]@.locked_for_user
                            && r@[k].attachments@[k2]@.size == all[k].attachments@[k2]@.size
                            && r@[k].attachments@[k2]@.id == all[k].attachments@[k2]@.id
                },
        decreases n - i,
    {
        proof {
            assert(all.skip(i as int)[0] == all[i as int]);
            assert(all.skip(i as int).drop_first() =~= all.skip(i + 1));
        }
        let d = rest.remove(0);
        let mut folder = u64_to_decimal(d.id as u64);
        folder.append("_");
        let title_name = sanitize_foldername(d.title.as_str());
        folder.append(title_name.as_str());
        let d_dir = path_join(dir, folder.as_str());
        proof {
            assert(dir@.push('/') + (decimal_of(all[i as int].id as nat) + "_"@ + folder_name_of(
                all[i as int].title@,
            )) =~= dir@.push('/') + decimal_of(all[i as int].id as nat) + "_"@ + folder_name_of(
                all[i as int].title@,
            ));
        }
        let view = discussion_view_url(api, d.id);
        let attachments = prefix_attachment_ids(d.attachments);
        r.push(DiscussionTask { dir: d_dir, view_url: view, message: d.message, attachments });
        i = i + 1;
    }
    r
}

/// What one module section asks for: its items URL and its directory.
pub struct ModuleTask {
    pub items_url: String,
    pub dir: String,
}

/// Plans the module sections of one listing page.
pub fn plan_modules(sections: Vec<ModuleSection>, dir: &str) -> (r: Vec<ModuleTask>)
    ensures
        r@.len() == sections@.len(),
        forall|i: int|
            0 <= i < sections@.len() ==> {
                &&& (#[trigger] r@[i]).items_url@ == sections@[i].items_url@
                &&& r@[i].dir@ == dir@.push('/') + decimal_of(sections@[i].id as nat) + "_"@
                    + folder_name_of(sections@[i].name@)
            },
{
    let mut rest = sections;
    let n = rest.len();
    let ghost all = rest@;
    let mut r: Vec<ModuleTask> = Vec::new();
    let mut i: usize = 0;
    while i < n
        invariant
            i <= n,
            n == all.len(),
            rest@ == all.skip(i as int),
            r@.len() == i,
            forall|k: int|
                0 <= k < i ==> {
                    &&& (#[trigger] r@[k]).items_url@ == all[k].items_url@
                    &&& r@[k].dir@ == dir@.push('/') + decimal_of(all[k].id as nat) + "_"@
                        + folder_name_of(all[k].name@)
                },
        decreases n - i,
    {
        proof {
            assert(all.skip(i as int)[0] == all[i as int]);
            assert(all.skip(i as int).drop_first() =~= all.skip(i + 1));
        }
        let s = rest.remove(0);
        let mut folder = u64_to_decimal(s.id as u64);
        folder.append("_");
        let name = sanitize_foldername(s.name.as_str());
        folder.append(name.as_str());
        let s_dir = path_join(dir, folder.as_str());
        proof {
            assert(dir@.push('/') + (decimal_of(all[i as int].id as nat) + "_"@ + folder_name_of(
                all[i as int].name@,
            )) =~= dir@.push('/') + decimal_of(all[i as int].id as nat) + "_"@ + folder_name_of(
                all[i as int].name@,
            ));
        }
        r.push(ModuleTask { items_url: s.items_url, dir: s_dir });
        i = i + 1;
    }
    r
}

/// What a module item leads to: a wiki page to store, a file to look up,
/// or nothing this mirror handles.
#[derive(Debug)]
pub enum ItemAction {
    SavePage { url: String, title: String },
    FetchFile { url: String },
    Skip,
}

/// What one module item asks for: its directory and its action.
pub struct ItemTask {
    pub dir: String,
    pub action: ItemAction,
}

/// Plans the items of one module section: a `Page` item with a URL is
/// stored as a page, a `File` item with a URL is looked up; anything else
/// — other kinds, or an item without a URL — is left alone.
pub fn plan_module_items(items: Vec<ModuleItem>, dir: &str) -> (r: Vec<ItemTask>)
    ensures
        r@.len() == items@.len(),
        forall|i: int|
            0 <= i < items@.len() ==> {
                &&& (#[trigger] r@[i]).dir@ == dir@.push('/') + decimal_of(items@[i].id as nat)
                    + "_"@ + folder_name_of(items@[i].title@)
                &&& (items@[i].Type@ == "Page"@ && items@[i].url is Some ==> (r@[i].action
                    matches ItemAction::SavePage { url, title } && url@ == items@[i].url->0@
                    && title@ == items@[i].title@))
                &&& (items@[i].Type@ == "File"@ && items@[i].url is Some ==> (r@[i].action
                    matches ItemAction::FetchFile { url } && url@ == items@[i].url->0@))
                &&& (!(items@[i].Type@ == "Page"@ || items@[i].Type@ == "File"@) || items@[i].url
                    is None ==> r@[i].action is Skip)
            },
{
    let mut rest = items;
    let n = rest.len();
    let ghost all = rest@;
    let mut r: Vec<ItemTask> = Vec::new();
    let mut i: usize = 0;
    while i < n
        invariant
            i <= n,
            n == all.len(),
            rest@ == all.skip(i as int),
            r@.len() == i,
            forall|k: int|
                0 <= k < i ==> {
                    &&& (#[trigger] r@[k]).dir@ == dir@.push('/') + decimal_of(all[k].id as nat)
                        + "_"@ + folder_name_of(all[k].title@)
                    &&& (all[k].Type@ == "Page"@ && all[k].url is Some ==> (r@[k].action
                        matches ItemAction::SavePage { url, title } && url@ == all[k].url->0@
                        && title@ == all[k].title@))
                    &&& (all[k].Type@ == "File"@ && all[k].url is Some ==> (r@[k].action
                        matches ItemAction::FetchFile { url } && url@ == all[k].url->0@))
                    &&& (!(all[k].Type@ == "Page"@ || all[k].Type@ == "File"@) || all[k].url
                        is None ==> r@[k].action is Skip)
                },
        decreases n - i,
    {
        proof {
            assert(all.skip(i as int)[0] == all[i as int]);
            assert(all.skip(i as int).drop_first() =~= all.skip(i + 1));
        }
        let item = rest.remove(0);
        let mut folder = u64_to_decimal(item.id as u64);
        folder.append("_");
        let name = sanitize_foldername(item.title.as_str());
        folder.append(name.as_str());
        let item_dir = path_join(dir, folder.as_str());
        proof {
            assert(dir@.push('/') + (decimal_of(all[i as int].id as nat) + "_"@ + folder_name_of(
                all[i as int].title@,
            )) =~= dir@.push('/') + decimal_of(all[i as int].id as nat) + "_"@ + folder_name_of(
                all[i as int].title@,
            ));
        }
        let is_page = str_eq(item.Type.as_str(), "Page");
        let is_file = str_eq(item.Type.as_str(), "File");
        let action = match item.url {
            Some(u) => {
                if is_page {
                    ItemAction::SavePage { url: u, title: item.title }
                } else if is_file {
                    ItemAction::FetchFile { url: u }
                } else {
                    ItemAction::Skip
                }
            },
            None => ItemAction::Skip,
        };
        r.push(ItemTask { dir: item_dir, action });
        proof {
            // the two kind literals are distinct texts
            reveal_strlit("Page");
            reveal_strlit("File");
            assert("File"@ != "Page"@) by {
                assert("File"@[0] == 'F');
                assert("Page"@[0] == 'P');
            }
        }
        i = i + 1;
    }
    r
}

/// The message markup of each comment that carries one, in order.
pub open spec fn view_messages(cs: Seq<Comments>) -> Seq<Seq<char>>
    decreases cs.len(),
{
    if cs.len() == 0 {
        Seq::empty()
    } else {
        (match cs[0].message {
            Some(m) => seq![m@],
            None => Seq::empty(),
        }) + view_messages(cs.drop_first())
    }
}

/// One comment's attachments: its list, then its single attachment.
pub open spec fn comment_attachments(c: Comments) -> Seq<CandidateView> {
    (match c.attachments {
        Some(list) => crate::filter::views(list@),
        None => Seq::empty(),
    }) + (match c.attachment {
        Some(a) => seq![a@],
        None => Seq::empty(),
    })
}

/// Every comment's attachments, flattened in comment order.
pub open spec fn view_attachments(cs: Seq<Comments>) -> Seq<CandidateView>
    decreases cs.len(),
{
    if cs.len() == 0 {
        Seq::empty()
    } else {
        comment_attachments(cs[0]) + view_attachments(cs.drop_first())
    }
}

/// What the full view of a discussion contributes: every comment's message
/// markup to harvest links from, and every attachment — each comment's
/// list first, then its single attachment — under prefixed names.
pub fn plan_discussion_view(view: DiscussionView) -> (r: (Vec<String>, Vec<File>))
    ensures
        r.0.deep_view() == view_messages(view.view@),
        r.1@.len() == view_attachments(view.view@).len(),
        forall|i: int|
            0 <= i < r.1@.len() ==> {
                let orig = view_attachments(view.view@)[i];
                &&& (#[trigger] r.1@[i])@.display_name == decimal_of(orig.id as nat) + "_"@
                    + orig.display_name
                &&& r.1@[i]@.id == orig.id
                &&& r.1@[i]@.folder_id == orig.folder_id
                &&& r.1@[i]@.size == orig.size
                &&& r.1@[i]@.url == orig.url
                &&& r.1@[i]@.updated_at == orig.updated_at
                &&& r.1@[i]@.locked_for_user == orig.locked_for_user
                &&& r.1@[i]@.filepath == orig.filepath
            },
{
    let mut messages: Vec<String> = Vec::new();
    let mut attachments: Vec<File> = Vec::new();
    let mut rest = view.view;
    let n = rest.len();
    let ghost all = rest@;
    proof {
        assert(all.skip(0) =~= all);
        assert(messages.deep_view() =~= Seq::<Seq<char>>::empty());
        assert(crate::filter::views(attachments@) =~= Seq::<CandidateView>::empty());
        assert(Seq::<Seq<char>>::empty() + view_messages(all) =~= view_messages(all));
        assert(Seq::<CandidateView>::empty() + view_attachments(all) =~= view_attachments(all));
    }
    let mut i: usize = 0;
    while i < n
        invariant
            i <= n,
            n == all.len(),
            rest@ == all.skip(i as int),
            view_messages(all) == messages.deep_view() + view_messages(all.skip(i as int)),
            view_attachments(all) == crate::filter::views(attachments@) + view_attachments(
                all.skip(i as int),
            ),
        decreases n - i,
    {
        proof {
            assert(all.skip(i as int)[0] == all[i as int]);
            assert(all.skip(i as int).drop_first() =~= all.skip(i + 1));
        }
        let c = rest.remove(0);
        let ghost msgs0 = messages.deep_view();
        let ghost atts0 = crate::filter::views(attachments@);
        match c.message {
            Some(m) => {
                let ghost mv = m@;
                messages.push(m);
                proof {
                    assert(messages.deep_view() =~= msgs0 + seq![mv]);
                    assert(msgs0 + seq![mv] + view_messages(all.skip(i + 1)) =~= msgs0 + (
                    seq![mv] + view_messages(all.skip(i + 1))));
                }
            },
            None => {},
        }
        match c.attachments {
            Some(mut list) => {
                let ghost lv = crate::filter::views(list@);
                attachments.append(&mut list);
                proof {
                    assert(crate::filter::views(attachments@) =~= atts0 + lv);
                }
            },
            None => {},
        }
        proof {
            let atts1 = crate::filter::views(attachments@);
            assert(match all[i as int].attachments {
                Some(list) => atts1 == atts0 + crate::filter::views(list@),
                None => atts1 == atts0,
            });
        }
        let ghost atts1 = crate::filter::views(attachments@);
        match c.attachment {
            Some(a) => {
                let ghost av = a@;
                attachments.push(a);
                proof {
                    assert(crate::filter::views(attachments@) =~= atts1 + seq![av]);
                }
            },
            None => {},
        }
        proof {
            assert(crate::filter::views(attachments@) =~= atts0 + comment_attachments(
                all[i as int],
            ));
            assert(atts0 + comment_attachments(all[i as int]) + view_attachments(all.skip(i + 1))
                =~= atts0 + (comment_attachments(all[i as int]) + view_attachments(
                all.skip(i + 1),
            )));
        }
        i = i + 1;
    }
    proof {
        assert(all.skip(n as int) =~= Seq::<Comments>::empty());
        assert(messages.deep_view() + Seq::<Seq<char>>::empty() =~= messages.deep_view());
        assert(crate::filter::views(attachments@) + Seq::<CandidateView>::empty()
            =~= crate::filter::views(attachments@));
    }
    let renamed = prefix_attachment_ids(attachments);
    (messages, renamed)
}

/// The link of a course file, stripped of its download suffix, ready for
/// the files API.
pub fn file_api_link(link: &str) -> (r: String)
    ensures
        r@ == crate::textutil::trim_end_all(link@, "/download"@),
{
    proof {
        reveal_strlit("/download");
    }
    crate::textutil::trim_end_matches_str(link, "/download")
}

/// A looked-up file descriptor placed in its directory: the target path is
/// the directory plus the file's display name, unsanitized, as the files
/// API hands it out.
pub fn place_file(file: File, dir: &str) -> (r: File)
    ensures
        r@.filepath == dir@.push('/') + file@.display_name,
        r@.display_name == file@.display_name,
        r@.id == file@.id,
        r@.folder_id == file@.folder_id,
        r@.size == file@.size,
        r@.url == file@.url,
        r@.updated_at == file@.updated_at,
        r@.locked_for_user == file@.locked_for_user,
{
    let mut f = file;
    let p = path_join(dir, f.display_name.as_str());
    f.filepath = p;
    f
}

/// The name a scraped link's download gets: the Content-Disposition
/// capture when the header carries one; else the link's final path
/// segment; else a fixed fallback.
pub fn link_filename(cd_header: Option<&str>, link: &str) -> (r: String)
    ensures
        match cd_header {
            Some(h) => {
                &&& (forall|i: int, q: int|
                    cd_filename_at(h@, i, q) ==> r@ == h@.subrange(i + 10, q))
                &&& ((forall|i: int, q: int| !cd_filename_at(h@, i, q)) ==> fallback_name_holds(
                    link@,
                    r@,
                ))
            },
            None => fallback_name_holds(link@, r@),
        },
{
    match cd_header {
        Some(h) => {
            match content_disposition_filename(h) {
                Some(name) => name,
                None => fallback_name(link),
            }
        },
        None => fallback_name(link),
    }
}

/// The fallback rule for a scraped link's name: the final path segment, or
/// the fixed fallback when the link has none.
pub open spec fn fallback_name_holds(link: Seq<char>, r: Seq<char>) -> bool {
    &&& forall|i: int|
        last_slash_at(link, i) && i + 1 < link.len() ==> r == link.subrange(
            i + 1,
            link.len() as int,
        )
    &&& ((forall|i: int| !(last_slash_at(link, i) && i + 1 < link.len())) ==> r == "unknown"@)
}

fn fallback_name(link: &str) -> (r: String)
    ensures
        fallback_name_holds(link@, r@),
{
    match last_path_segment(link) {
        Some(seg) => seg,
        None => "unknown".to_owned(),
    }
}

/// The timestamp a scraped link's candidate carries: the Last-Modified
/// header rendered in the local zone when it parses, the clock's reading
/// otherwise.  The flag says whether the header supplied it; the text
/// itself depends on the host's zone and clock, so only that choice is
/// pinned down.
pub fn link_timestamp(last_modified: Option<&str>) -> (r: (String, bool))
    ensures
        r.1 == match last_modified {
            Some(h) => crate::timestamp::rfc2822_ok(h@),
            None => false,
        },
{
    match last_modified {
        Some(h) => {
            match crate::timestamp::rfc2822_to_rfc3339_local(h) {
                Some(t) => (t, true),
                None => (crate::timestamp::now_rfc3339_local(), false),
            }
        },
        None => (crate::timestamp::now_rfc3339_local(), false),
    }
}

/// The candidate descriptor of a scraped link, handed to the change
/// filter: no structured metadata, the name and timestamp the headers
/// offered, the target beside the page that referenced it.
pub fn link_candidate(link: String, filename: String, updated_at: String, dir: &str) -> (f: File)
    ensures
        f@.id == 0,
        f@.folder_id == 0,
        f@.size == 0,
        !f@.locked_for_user,
        f@.display_name == filename@,
        f@.url == link@,
        f@.updated_at == updated_at@,
        f@.filepath == dir@.push('/') + filename@,
{
    let p = path_join(dir, filename.as_str());
    File {
        id: 0,
        folder_id: 0,
        display_name: filename,
        size: 0,
        url: link,
        updated_at,
        locked_for_user: false,
        filepath: p,
    }
}

} // verus!
