use canvas::html::{cdn_image_links, course_file_links, panopto_form};

const BASE: &str = "https://canvas.example.com";

#[test]
fn html_course_file_links_resolve_to_the_api() {
    let html = r#"<html><body>
        <a href="https://canvas.example.com/courses/11/files/22">doc</a>
        <a href="https://elsewhere.example.com/courses/1/files/2">foreign</a>
        <a href="https://canvas.example.com/courses/11/pages/intro">page</a>
        <a href="https://canvas.example.com/courses/11/files/33/download">dl</a>
    </body></html>"#;
    let links = course_file_links(html, BASE);
    assert_eq!(
        links,
        vec![
            "https://canvas.example.com/api/v1/courses/11/files/22".to_string(),
            "https://canvas.example.com/api/v1/courses/11/files/33/download".to_string(),
        ]
    );
}

#[test]
fn html_image_links_skip_foreign_hosts_and_equations() {
    let html = r#"<html><body>
        <img src="https://canvas.example.com/media/pic.png">
        <img src="https://cdn.example.net/pic.png">
        <img src="https://canvas.example.com/equation_images/x%5E2">
    </body></html>"#;
    let links = cdn_image_links(html, BASE);
    assert_eq!(links, vec!["https://canvas.example.com/media/pic.png".to_string()]);
}

#[test]
fn html_panopto_form_is_found_with_its_inputs() {
    let html = r#"<html><body>
        <form action="https://other.example.com/x"><input name="ignored" value="1"></form>
        <form data-tool-id="mediaweb.ap.panopto.com" action="https://media.example.com/launch">
            <input name="a" value="1">
            <input name="b" value="2">
            <input value="no-name">
        </form>
    </body></html>"#;
    let (action, params) = panopto_form(html).expect("form should be found");
    assert_eq!(action, "https://media.example.com/launch");
    assert_eq!(
        params,
        vec![("a".to_string(), "1".to_string()), ("b".to_string(), "2".to_string())]
    );
}

#[test]
fn html_panopto_form_absent() {
    let html = "<html><body><form action=\"x\"></form></body></html>";
    assert!(panopto_form(html).is_none());
}
