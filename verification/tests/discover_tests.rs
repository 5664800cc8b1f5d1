use canvas::discover::{
    assignments_url, codes_for_term, course_api_url, course_folders_url, courses_for_terms,
    discussion_view_url, discussions_url, distinct_terms, favorites_url, file_api_link,
    link_filename, link_timestamp, modules_url, page_body_url, page_html_doc, page_html_name,
    page_json_name, pages_url, place_file, plan_assignments, plan_course_data,
    plan_discussion_view, plan_discussions, plan_folders, plan_module_items, plan_modules,
    plan_pages, submission_of_user_url, submissions_url, user_url, users_url, ItemAction,
};
use canvas::resources::{
    Assignment, Comments, Course, Discussion, DiscussionView, File, Folder, ModuleItem,
    ModuleSection, Page,
};

fn course(id: u32, code: &str, term: u32) -> Course {
    Course {
        id,
        name: format!("Course {code}"),
        course_code: code.to_string(),
        enrollment_term_id: term,
    }
}

fn attachment(id: u32, name: &str) -> File {
    File {
        id,
        folder_id: 0,
        display_name: name.to_string(),
        size: 1,
        url: format!("https://host/files/{id}"),
        updated_at: "2024-01-02T03:04:05+00:00".to_string(),
        locked_for_user: false,
        filepath: String::new(),
    }
}

#[test]
fn discover_listing_urls_are_exact() {
    let base = "https://canvas.example.com";
    assert_eq!(user_url(base), "https://canvas.example.com/api/v1/users/self");
    assert_eq!(favorites_url(base), "https://canvas.example.com/api/v1/users/self/favorites/courses");
    assert_eq!(
        course_folders_url(base, 42),
        "https://canvas.example.com/api/v1/courses/42/folders/by_path/"
    );
    let api = course_api_url(base, 42);
    assert_eq!(api, "https://canvas.example.com/api/v1/courses/42/");
    assert_eq!(pages_url(&api), format!("{api}pages"));
    assert_eq!(modules_url(&api), format!("{api}modules"));
    assert_eq!(discussions_url(&api, false), format!("{api}discussion_topics"));
    assert_eq!(
        discussions_url(&api, true),
        format!("{api}discussion_topics?only_announcements=true")
    );
    assert!(users_url(&api).starts_with(&format!("{api}users?include_inactive=true")));
    assert!(assignments_url(&api).starts_with(&format!("{api}assignments?include[]=submission")));
    assert_eq!(submissions_url(&api, 7), format!("{api}assignments/7/submissions/"));
    assert_eq!(
        submission_of_user_url(&submissions_url(&api, 7), 99),
        format!("{api}assignments/7/submissions/99")
    );
    assert_eq!(discussion_view_url(&api, 5), format!("{api}discussion_topics/5/view"));
    assert_eq!(page_body_url(&api, "intro-page"), format!("{api}pages/intro-page"));
}

#[test]
fn discover_term_selection() {
    let courses = vec![course(1, "A", 10), course(2, "B", 20), course(3, "C", 10)];
    let wanted = vec![10u32];
    assert_eq!(courses_for_terms(&courses, &wanted), vec![0usize, 2]);
    assert_eq!(courses_for_terms(&courses, &vec![99u32]), Vec::<usize>::new());
    assert_eq!(distinct_terms(&courses), vec![10u32, 20]);
    assert_eq!(codes_for_term(&courses, 10), vec!["A".to_string(), "C".to_string()]);
    assert_eq!(codes_for_term(&courses, 20), vec!["B".to_string()]);
}

#[test]
fn discover_folder_plan_skips_root_nesting() {
    let folders = vec![
        Folder {
            id: 1,
            name: "course files".to_string(),
            folders_url: "https://host/folders/1/folders".to_string(),
            files_url: "https://host/folders/1/files".to_string(),
            for_submissions: false,
            can_upload: false,
            parent_folder_id: None,
        },
        Folder {
            id: 2,
            name: "week: 1".to_string(),
            folders_url: "https://host/folders/2/folders".to_string(),
            files_url: "https://host/folders/2/files".to_string(),
            for_submissions: false,
            can_upload: false,
            parent_folder_id: Some(1),
        },
    ];
    let tasks = plan_folders(folders, "course");
    assert_eq!(tasks.len(), 2);
    assert_eq!(tasks[0].dir, "course");
    assert_eq!(tasks[0].files_url, "https://host/folders/1/files");
    assert_eq!(tasks[1].dir, "course/week 1");
    assert_eq!(tasks[1].folders_url, "https://host/folders/2/folders");
}

#[test]
fn discover_course_data_plan_names_every_directory() {
    let plan = plan_course_data("course");
    assert_eq!(plan.assignments_dir, "course/assignments");
    assert_eq!(plan.users_file, "course/users.json");
    assert_eq!(plan.discussions_dir, "course/discussions");
    assert_eq!(plan.announcements_dir, "course/announcements");
    assert_eq!(plan.modules_dir, "course/modules");
}

#[test]
fn discover_page_plan_builds_urls_and_dirs() {
    let pages = vec![Page {
        page_id: 3,
        url: "intro-page".to_string(),
        title: "Intro".to_string(),
        updated_at: "2024-01-02T03:04:05+00:00".to_string(),
        locked_for_user: false,
    }];
    let tasks = plan_pages(pages, "https://h/api/", "course/pages");
    assert_eq!(tasks.len(), 1);
    assert_eq!(tasks[0].url, "https://h/api/pages/intro-page");
    assert_eq!(tasks[0].title, "intro-page");
    assert_eq!(tasks[0].dir, "course/pages/intro-page");
}

#[test]
fn discover_page_body_outputs() {
    assert_eq!(page_json_name("My: Page"), "My Page.json");
    assert_eq!(page_html_name("my-page"), "my-page.html");
    assert_eq!(
        page_html_doc("T", "<p>b</p>"),
        "<html><head><title>T</title></head><body><p>b</p></body></html>"
    );
}

#[test]
fn discover_assignment_plan() {
    let assignments = vec![Assignment {
        id: 7,
        name: "HW: 1".to_string(),
        description: "<a href=\"x\">d</a>".to_string(),
    }];
    let tasks = plan_assignments(assignments, "https://h/api/", "course/assignments");
    assert_eq!(tasks.len(), 1);
    assert_eq!(tasks[0].dir, "course/assignments/HW 1");
    assert_eq!(tasks[0].submissions_url, "https://h/api/assignments/7/submissions/");
    assert_eq!(tasks[0].description, "<a href=\"x\">d</a>");
}

#[test]
fn discover_discussion_plan_prefixes_attachments() {
    let discussions = vec![Discussion {
        id: 9,
        title: "Q & A".to_string(),
        message: "<p>m</p>".to_string(),
        attachments: vec![attachment(31, "notes.pdf")],
    }];
    let tasks = plan_discussions(discussions, "https://h/api/", "course/discussions");
    assert_eq!(tasks.len(), 1);
    assert_eq!(tasks[0].dir, "course/discussions/9_Q & A");
    assert_eq!(tasks[0].view_url, "https://h/api/discussion_topics/9/view");
    assert_eq!(tasks[0].attachments.len(), 1);
    assert_eq!(tasks[0].attachments[0].display_name, "31_notes.pdf");
    assert_eq!(tasks[0].attachments[0].url, "https://host/files/31");
}

#[test]
fn discover_module_plans() {
    let sections = vec![ModuleSection {
        id: 4,
        items_url: "https://h/api/modules/4/items".to_string(),
        name: "Part I".to_string(),
    }];
    let tasks = plan_modules(sections, "course/modules");
    assert_eq!(tasks.len(), 1);
    assert_eq!(tasks[0].dir, "course/modules/4_Part I");
    assert_eq!(tasks[0].items_url, "https://h/api/modules/4/items");
}

#[test]
fn discover_module_items_branch_by_kind() {
    let items = vec![
        ModuleItem {
            id: 1,
            title: "A Page".to_string(),
            Type: "Page".to_string(),
            url: Some("https://h/api/pages/a".to_string()),
        },
        ModuleItem {
            id: 2,
            title: "A File".to_string(),
            Type: "File".to_string(),
            url: Some("https://h/api/files/2".to_string()),
        },
        ModuleItem {
            id: 3,
            title: "A Quiz".to_string(),
            Type: "Quiz".to_string(),
            url: Some("https://h/api/quizzes/3".to_string()),
        },
        ModuleItem { id: 4, title: "No Url".to_string(), Type: "Page".to_string(), url: None },
    ];
    let tasks = plan_module_items(items, "course/modules/4_Part I");
    assert_eq!(tasks.len(), 4);
    assert_eq!(tasks[0].dir, "course/modules/4_Part I/1_A Page");
    match &tasks[0].action {
        ItemAction::SavePage { url, title } => {
            assert_eq!(url, "https://h/api/pages/a");
            assert_eq!(title, "A Page");
        }
        other => panic!("expected a page action, got {other:?}"),
    }
    assert!(matches!(&tasks[1].action, ItemAction::FetchFile { url } if url == "https://h/api/files/2"));
    assert!(matches!(tasks[2].action, ItemAction::Skip));
    assert!(matches!(tasks[3].action, ItemAction::Skip));
}

#[test]
fn discover_discussion_view_flattens_comments() {
    let view = DiscussionView {
        unread_entries: vec![],
        view: vec![
            Comments {
                id: 1,
                message: Some("<p>one</p>".to_string()),
                attachment: Some(attachment(51, "single.pdf")),
                attachments: Some(vec![attachment(52, "first.pdf")]),
            },
            Comments { id: 2, message: None, attachment: None, attachments: None },
            Comments {
                id: 3,
                message: Some("<p>three</p>".to_string()),
                attachment: None,
                attachments: None,
            },
        ],
    };
    let (messages, files) = plan_discussion_view(view);
    assert_eq!(messages, vec!["<p>one</p>".to_string(), "<p>three</p>".to_string()]);
    // the comment's list comes before its single attachment
    let names: Vec<&str> = files.iter().map(|f| f.display_name.as_str()).collect();
    assert_eq!(names, vec!["52_first.pdf", "51_single.pdf"]);
}

#[test]
fn discover_file_links_and_placement() {
    assert_eq!(file_api_link("https://h/files/5/download"), "https://h/files/5");
    assert_eq!(file_api_link("https://h/files/5"), "https://h/files/5");
    let placed = place_file(attachment(5, "a b.pdf"), "dir");
    assert_eq!(placed.filepath, "dir/a b.pdf");
    assert_eq!(placed.display_name, "a b.pdf");
}

#[test]
fn discover_link_filenames() {
    assert_eq!(
        link_filename(Some("attachment; filename=\"from header.pdf\""), "https://h/x/y.pdf"),
        "from header.pdf"
    );
    assert_eq!(link_filename(Some("attachment"), "https://h/x/y.pdf"), "y.pdf");
    assert_eq!(link_filename(None, "https://h/x/y.pdf"), "y.pdf");
    assert_eq!(link_filename(None, "nopath"), "unknown");
}

#[test]
fn discover_link_timestamps_flag_their_source() {
    let (from_header, used_header) = link_timestamp(Some("Wed, 21 Oct 2015 07:28:00 GMT"));
    assert!(used_header);
    // the rendered text parses back to the same instant
    let parsed = chrono::DateTime::parse_from_rfc3339(&from_header).expect("own rendering parses");
    assert_eq!(parsed.timestamp(), 1445412480);
    let (_now, used) = link_timestamp(Some("not a date"));
    assert!(!used);
    let (_now2, used2) = link_timestamp(None);
    assert!(!used2);
}
