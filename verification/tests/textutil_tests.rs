use canvas::names::{sanitize_foldername, target_name, target_path_for};
use canvas::textutil::{
    contains_str, file_extension_of, first_path_segment, last_path_segment, parse_u64_digits,
    path_join, replace_slashes, starts_with_str, str_eq, trim_end_matches_str, u64_to_decimal,
};

#[test]
fn text_contains_and_prefix() {
    assert!(contains_str("abcdef", "cde"));
    assert!(contains_str("abcdef", ""));
    assert!(!contains_str("abcdef", "xyz"));
    assert!(!contains_str("ab", "abc"));
    assert!(starts_with_str("https://host/x", "https://host"));
    assert!(!starts_with_str("http://other", "https://host"));
    assert!(str_eq("same", "same"));
    assert!(!str_eq("same", "sa me"));
}

#[test]
fn text_trim_end_matches_removes_all_repetitions() {
    assert_eq!(trim_end_matches_str("https://h/files/1/download", "/download"), "https://h/files/1");
    assert_eq!(
        trim_end_matches_str("https://h/files/1/download/download", "/download"),
        "https://h/files/1"
    );
    assert_eq!(trim_end_matches_str("https://h/files/1", "/download"), "https://h/files/1");
}

#[test]
fn text_path_segments() {
    assert_eq!(last_path_segment("https://h/a/b/c.pdf"), Some("c.pdf".to_string()));
    assert_eq!(last_path_segment("nosegment"), None);
    assert_eq!(last_path_segment("ends/with/"), None);
    assert_eq!(first_path_segment("dir/rest/more"), "dir");
    assert_eq!(first_path_segment("plain"), "plain");
    assert_eq!(first_path_segment("/leading"), "");
}

#[test]
fn text_file_extensions() {
    assert_eq!(file_extension_of("dir/file.tar.gz"), "gz");
    assert_eq!(file_extension_of("file.mp4"), "mp4");
    assert_eq!(file_extension_of("dir/.hidden"), "");
    assert_eq!(file_extension_of("noext"), "");
    assert_eq!(file_extension_of("dotted.dir/noext"), "");
}

#[test]
fn text_decimal_round_trips() {
    assert_eq!(u64_to_decimal(0), "0");
    assert_eq!(u64_to_decimal(7), "7");
    assert_eq!(u64_to_decimal(1234567890), "1234567890");
    assert_eq!(u64_to_decimal(u64::MAX), "18446744073709551615");
    assert_eq!(parse_u64_digits("18446744073709551615"), Some(u64::MAX));
    assert_eq!(parse_u64_digits("18446744073709551616"), None);
    assert_eq!(parse_u64_digits("0042"), Some(42));
    assert_eq!(parse_u64_digits(""), None);
    assert_eq!(parse_u64_digits("12a"), None);
    assert_eq!(parse_u64_digits("-3"), None);
}

#[test]
fn text_path_join_and_slashes() {
    assert_eq!(path_join("base", "name.txt"), "base/name.txt");
    assert_eq!(replace_slashes("CS/101/A"), "CS_101_A");
    assert_eq!(replace_slashes("plain"), "plain");
}

#[test]
fn names_folder_sanitization() {
    assert_eq!(sanitize_foldername("a/b: c?"), "ab c");
    assert_eq!(sanitize_foldername("  Week 1: Intro.  "), "Week 1 Intro");
    assert_eq!(sanitize_foldername("<|*>"), "");
    assert_eq!(sanitize_foldername("plain name"), "plain name");
}

#[test]
fn names_file_sanitization() {
    // the filename sanitizer of the outside library must strip separators
    assert_eq!(target_name("a/b.txt"), "ab.txt");
    assert_eq!(target_name("report?.pdf"), "report.pdf");
    assert_eq!(target_path_for("dl", "x y.pdf"), "dl/x y.pdf");
    assert_eq!(target_path_for("dl", "../up.pdf"), "dl/..up.pdf");
}
