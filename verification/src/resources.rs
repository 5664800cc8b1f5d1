//! Plain data describing the remote resource hierarchy: accounts, courses,
//! folders, files, pages, assignments, discussions, modules and video
//! sessions.  These carry only plain values; the driver decodes the wire
//! shapes into them and back.

use vstd::prelude::*;

verus! {

/// Bearer-token credentials: the base URL of the source system and the token.
#[derive(Clone, Debug)]
pub struct Credentials {
    pub canvas_url: String,
    pub canvas_token: String,
}

/// One course, as listed by the favourites endpoint.
#[derive(Clone, Debug)]
pub struct Course {
    pub id: u32,
    pub name: String,
    pub course_code: String,
    pub enrollment_term_id: u32,
}

/// The authenticated user.
#[derive(Clone, Debug)]
pub struct User {
    pub id: u32,
    pub name: String,
}

/// A folder in a course's file hierarchy.
#[derive(Clone, Debug)]
pub struct Folder {
    pub id: u32,
    pub name: String,
    pub folders_url: String,
    pub files_url: String,
    pub for_submissions: bool,
    pub can_upload: bool,
    pub parent_folder_id: Option<u32>,
}

/// A wiki page, as listed by the pages endpoint.
#[derive(Clone, Debug)]
pub struct Page {
    pub page_id: u32,
    pub url: String,
    pub title: String,
    pub updated_at: String,
    pub locked_for_user: bool,
}

/// The body of a single wiki page.
#[derive(Clone, Debug)]
pub struct PageBody {
    pub page_id: u32,
    pub url: String,
    pub title: String,
    pub body: String,
    pub updated_at: String,
    pub locked_for_user: bool,
}

/// A section of a course's module listing.
#[derive(Clone, Debug)]
pub struct ModuleSection {
    pub id: u32,
    pub items_url: String,
    pub name: String,
}

/// One item inside a module section.
#[derive(Clone, Debug)]
#[allow(non_snake_case)]
pub struct ModuleItem {
    pub id: u32,
    pub title: String,
    pub Type: String,
    pub url: Option<String>,
}

/// An assignment, with its description markup.
#[derive(Clone, Debug)]
pub struct Assignment {
    pub id: u32,
    pub name: String,
    pub description: String,
}

/// The user's submission for one assignment.
#[derive(Clone, Debug)]
pub struct Submission {
    pub id: u32,
    pub body: Option<String>,
    pub attachments: Vec<File>,
}

/// A discussion topic, with its attachments.
#[derive(Clone, Debug)]
pub struct Discussion {
    pub id: u32,
    pub title: String,
    pub message: String,
    pub attachments: Vec<File>,
}

/// The full view of a discussion: its comment tree flattened.
#[derive(Clone, Debug)]
pub struct DiscussionView {
    pub unread_entries: Vec<u32>,
    pub view: Vec<Comments>,
}

/// One comment of a discussion view.
#[derive(Clone, Debug)]
pub struct Comments {
    pub id: u32,
    pub message: Option<String>,
    pub attachment: Option<File>,
    pub attachments: Option<Vec<File>>,
}

/// A remote file descriptor: the candidate unit of the change filter and the
/// download engine.  `filepath` is the computed local target path; it is
/// assigned by the change filter, not by the producer.
#[derive(Debug)]
pub struct File {
    pub id: u32,
    pub folder_id: u32,
    pub display_name: String,
    pub size: u64,
    pub url: String,
    pub updated_at: String,
    pub locked_for_user: bool,
    pub filepath: String,
}

/// The mathematical image of a `File`: every text field as its character
/// sequence.
pub struct CandidateView {
    pub id: u32,
    pub folder_id: u32,
    pub display_name: Seq<char>,
    pub size: u64,
    pub url: Seq<char>,
    pub updated_at: Seq<char>,
    pub locked_for_user: bool,
    pub filepath: Seq<char>,
}

impl View for File {
    type V = CandidateView;

    open spec fn view(&self) -> CandidateView {
        CandidateView {
            id: self.id,
            folder_id: self.folder_id,
            display_name: self.display_name@,
            size: self.size,
            url: self.url@,
            updated_at: self.updated_at@,
            locked_for_user: self.locked_for_user,
            filepath: self.filepath@,
        }
    }
}

impl Clone for File {
    /// A copy of a descriptor is the descriptor itself, field for field.
    fn clone(&self) -> (res: File)
        ensures
            res == *self,
    {
        File {
            id: self.id,
            folder_id: self.folder_id,
            display_name: self.display_name.clone(),
            size: self.size,
            url: self.url.clone(),
            updated_at: self.updated_at.clone(),
            locked_for_user: self.locked_for_user,
            filepath: self.filepath.clone(),
        }
    }
}

/// A video-portal session handed out by the session-token endpoint.
#[derive(Clone, Debug)]
pub struct Session {
    pub session_url: String,
    pub requires_terms_acceptance: bool,
}

/// A page of results from the video portal's folder listing.
#[derive(Clone, Debug)]
#[allow(non_snake_case)]
pub struct PanoptoSessionInfo {
    pub TotalNumber: u32,
    pub Results: Vec<PanoptoResult>,
    pub Subfolders: Vec<PanoptoSubfolder>,
}

/// One recording session of the video portal.
#[derive(Clone, Debug)]
#[allow(non_snake_case)]
pub struct PanoptoResult {
    pub DeliveryID: String,
    pub FolderID: String,
    pub SessionID: String,
    pub SessionName: String,
    pub StartTime: String,
    pub IosVideoUrl: String,
}

/// A subfolder of the video portal's folder listing.
#[derive(Clone, Debug)]
#[allow(non_snake_case)]
pub struct PanoptoSubfolder {
    pub ID: String,
    pub Name: String,
}

/// Delivery metadata for one recording session.
#[derive(Clone, Debug)]
#[allow(non_snake_case)]
pub struct PanoptoDeliveryInfo {
    pub SessionId: String,
    pub ViewerFileId: String,
}

/// A listing endpoint answers either with the items themselves or with a
/// `{status: ...}` error shape; the two are a tagged union, decoded by first
/// trying the item shape and then falling back to the status shape.
#[derive(Clone, Debug)]
pub enum Listing<T> {
    Items(Vec<T>),
    Status { status: String },
}

} // verus!
