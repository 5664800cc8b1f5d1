use canvas::urlinfo::{panopto_target, query_value, UrlParts};

#[test]
fn url_panopto_target_reads_host_and_folder() {
    let location = "https://media.example.com/Panopto/Pages/Sessions/List.aspx?folderID=abc-123&noise=1";
    assert_eq!(
        panopto_target(location),
        Some(("media.example.com".to_string(), "abc-123".to_string()))
    );
}

#[test]
fn url_panopto_target_decodes_query_escapes() {
    let location = "https://media.example.com/p?folderID=a%20b";
    assert_eq!(panopto_target(location), Some(("media.example.com".to_string(), "a b".to_string())));
}

#[test]
fn url_panopto_target_needs_the_parameter() {
    assert_eq!(panopto_target("https://media.example.com/p?other=1"), None);
    assert_eq!(panopto_target("not a url"), None);
}

#[test]
fn url_query_lookup_takes_the_first_pair() {
    let parts = UrlParts {
        host: "h".to_string(),
        path: "/p".to_string(),
        query: vec![
            ("k".to_string(), "first".to_string()),
            ("other".to_string(), "x".to_string()),
            ("k".to_string(), "second".to_string()),
        ],
    };
    assert_eq!(query_value(&parts, "k"), Some("first".to_string()));
    assert_eq!(query_value(&parts, "missing"), None);
}

#[test]
fn url_host_reads_the_host() {
    assert_eq!(
        canvas::urlinfo::url_host("https://cdn.example.net/sessions/x"),
        Some("cdn.example.net".to_string())
    );
    assert_eq!(canvas::urlinfo::url_host("not a url"), None);
}
