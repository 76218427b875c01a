use attia::download::{
    collect_links, expect_url, needs_login, ARCHIVE_PAGE, LOGIN_PAGE, MEMBERS_PAGE,
};
use attia::error::ProgramError;

#[test]
fn needs_login_only_on_login_page() {
    assert!(needs_login(LOGIN_PAGE));
    assert!(!needs_login(MEMBERS_PAGE));
    assert!(!needs_login(ARCHIVE_PAGE));
    assert!(!needs_login(""));
}

#[test]
fn expect_url_accepts_match() {
    assert!(expect_url(MEMBERS_PAGE, MEMBERS_PAGE).is_ok());
}

#[test]
fn expect_url_mismatch_names_both() {
    let err = expect_url("https://example.com/elsewhere/", MEMBERS_PAGE).unwrap_err();
    assert_eq!(
        err,
        ProgramError::WrongUrl(
            "https://example.com/elsewhere/".to_string(),
            MEMBERS_PAGE.to_string()
        )
    );
    assert_eq!(
        err.message(),
        "URL not as expected, got `https://example.com/elsewhere/` but expected \
         `https://peterattiamd.com/members/`"
    );
}

#[test]
fn collect_links_keeps_document_order() {
    let hrefs = vec![
        Some("https://example.com/a".to_string()),
        Some("https://example.com/b".to_string()),
        Some("https://example.com/c".to_string()),
    ];
    let links = collect_links(hrefs).unwrap();
    assert_eq!(
        links,
        vec![
            "https://example.com/a".to_string(),
            "https://example.com/b".to_string(),
            "https://example.com/c".to_string(),
        ]
    );
}

#[test]
fn collect_links_fails_on_missing_href() {
    let hrefs = vec![Some("https://example.com/a".to_string()), None];
    let err = collect_links(hrefs).unwrap_err();
    assert_eq!(
        err,
        ProgramError::Unexpected("all links should have a href".to_string())
    );
}
