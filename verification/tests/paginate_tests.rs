use canvas::paginate::{cursor_from_header, drive_pagination, next_cursor, HeaderCursor, LinkRels};

fn rels(current: &str, next: Option<&str>, last: &str) -> LinkRels {
    LinkRels {
        current: Some(current.to_string()),
        next: next.map(|n| n.to_string()),
        last: Some(last.to_string()),
    }
}

/// A three-page sequence where page 3's `current` equals its `last` stops
/// after page 3, not page 4, even though page 3 still carries a `next`
/// link.
#[test]
fn pagination_stops_on_current_equal_last() {
    let pages = vec![
        rels("p1", Some("p2"), "p3"),
        rels("p2", Some("p3"), "p3"),
        rels("p3", Some("p4"), "p3"),
        rels("p4", Some("p5"), "p5"),
    ];
    assert_eq!(drive_pagination(&pages), 3);
}

#[test]
fn pagination_stops_when_next_is_absent() {
    let pages = vec![rels("p1", Some("p2"), "p3"), rels("p2", None, "p3")];
    assert_eq!(drive_pagination(&pages), 2);
}

#[test]
fn pagination_single_page() {
    let pages = vec![rels("p1", None, "p1")];
    assert_eq!(drive_pagination(&pages), 1);
}

#[test]
fn next_cursor_follows_next() {
    let r = rels("p1", Some("https://host/page2"), "p9");
    assert_eq!(next_cursor(&r), Some("https://host/page2".to_string()));
}

#[test]
fn next_cursor_stops_without_next() {
    let r = rels("p1", None, "p9");
    assert_eq!(next_cursor(&r), None);
}

#[test]
fn next_cursor_stops_on_final_page() {
    let r = rels("p9", Some("p10"), "p9");
    assert_eq!(next_cursor(&r), None);
}

#[test]
fn header_cursor_parses_a_real_link_header() {
    let header = "<https://host/api?page=2>; rel=\"next\", \
                  <https://host/api?page=1>; rel=\"current\", \
                  <https://host/api?page=9>; rel=\"last\"";
    match cursor_from_header(Some(header)) {
        HeaderCursor::Next(u) => assert_eq!(u, "https://host/api?page=2"),
        other => panic!("expected a next cursor, got {other:?}"),
    }
}

#[test]
fn header_cursor_stops_on_final_page_header() {
    let header = "<https://host/api?page=10>; rel=\"next\", \
                  <https://host/api?page=9>; rel=\"current\", \
                  <https://host/api?page=9>; rel=\"last\"";
    assert!(matches!(cursor_from_header(Some(header)), HeaderCursor::Done));
}

#[test]
fn header_cursor_without_header_stops() {
    assert!(matches!(cursor_from_header(None), HeaderCursor::NoHeader));
}

#[test]
fn header_cursor_rejects_malformed_headers() {
    assert!(matches!(
        cursor_from_header(Some("not a link header")),
        HeaderCursor::Malformed
    ));
}
