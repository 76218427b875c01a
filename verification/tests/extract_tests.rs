use attia::cache::{HtmlFile, VERSION};
use attia::convert::extract;

const FULL_PAGE: &str = "<html><body>\
    <div class=\"header__title\"><h1 class=\"heading--page\">  Episode One  </h1></div>\
    <div class=\"content--post\"><p>Notes about zebras</p></div>\
    </body></html>";

const NO_TITLE_PAGE: &str = "<html><body>\
    <div class=\"content--post\"><p>Notes about zebras</p></div>\
    </body></html>";

const NO_CONTENT_PAGE: &str = "<html><body>\
    <div class=\"header__title\"><h1 class=\"heading--page\">Episode One</h1></div>\
    </body></html>";

fn page_with(content: &[u8]) -> HtmlFile {
    HtmlFile {
        version: VERSION,
        url: "https://example.com/ep1".to_string(),
        content: content.to_vec(),
    }
}

#[test]
fn extract_returns_trimmed_title_and_content() {
    let doc = extract(&page_with(FULL_PAGE.as_bytes())).expect("both regions are present");
    assert_eq!(doc.title, "Episode One");
    assert_eq!(doc.url, "https://example.com/ep1");
    assert_eq!(doc.content, "<p>Notes about zebras</p>");
    assert!(!doc.title.is_empty());
    assert!(!doc.content.is_empty());
}

#[test]
fn extract_is_idempotent() {
    let page = page_with(FULL_PAGE.as_bytes());
    let first = extract(&page).unwrap();
    let second = extract(&page).unwrap();
    assert_eq!(first.title, second.title);
    assert_eq!(first.url, second.url);
    assert_eq!(first.content, second.content);
}

#[test]
fn extract_missing_title_names_url() {
    let err = extract(&page_with(NO_TITLE_PAGE.as_bytes())).unwrap_err();
    assert_eq!(err.message(), "no title in https://example.com/ep1");
}

#[test]
fn extract_missing_content_names_url() {
    let err = extract(&page_with(NO_CONTENT_PAGE.as_bytes())).unwrap_err();
    assert_eq!(err.message(), "no content in https://example.com/ep1");
}

#[test]
fn extract_rejects_invalid_utf8() {
    let err = extract(&page_with(&[0xff, 0xfe, 0x80])).unwrap_err();
    assert_eq!(err.message(), "invalid utf-8 in https://example.com/ep1");
}
