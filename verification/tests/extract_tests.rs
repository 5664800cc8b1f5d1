use canvas::extract::{contains_course_file_ref, content_disposition_filename, start_time_millis};

#[test]
fn course_file_refs_are_recognized() {
    assert!(contains_course_file_ref("/courses/123/files/456"));
    assert!(contains_course_file_ref("/api/v1/courses/9/files/8/preview"));
    assert!(!contains_course_file_ref("/courses//files/4"));
    assert!(!contains_course_file_ref("/courses/12/files/"));
    assert!(!contains_course_file_ref("/courses/12/pages/3"));
    assert!(!contains_course_file_ref("no path at all"));
}

#[test]
fn content_disposition_captures_the_filename() {
    assert_eq!(
        content_disposition_filename("attachment; filename=\"report final.pdf\""),
        Some("report final.pdf".to_string())
    );
    assert_eq!(
        content_disposition_filename("attachment; filename=\"a\"b\""),
        Some("a\"b".to_string())
    );
    assert_eq!(content_disposition_filename("attachment; filename=\"\""), Some(String::new()));
    assert_eq!(content_disposition_filename("attachment"), None);
    assert_eq!(content_disposition_filename("attachment; filename=\"open"), None);
}

#[test]
fn start_times_parse_the_date_capture() {
    assert_eq!(start_time_millis("/Date(1633072800000)/"), Some(1633072800000));
    assert_eq!(start_time_millis("noise /Date(5)/ tail"), Some(5));
    assert_eq!(start_time_millis("/Date()/"), None);
    assert_eq!(start_time_millis("/Date(12x)/"), None);
    assert_eq!(start_time_millis("no capture"), None);
}
