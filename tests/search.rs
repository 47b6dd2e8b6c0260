use exhentai::error::{ExError, Field};
use exhentai::gallery::BasicGalleryInfo;
use exhentai::search::{gallery_from_page, merge_search_pages, search_page_results, SearchRow};
use exhentai::session::{
    bootstrap_urls, follow_redirect, login_form, login_query, login_url, session_headers,
    site_url, MAX_REDIRECTS, SESSION_TIMEOUT_SECS,
};

fn row(title: &str, url: &str) -> SearchRow {
    SearchRow { titles: vec![title.to_string()], urls: vec![url.to_string()] }
}

fn info(title: &str, url: &str) -> BasicGalleryInfo {
    BasicGalleryInfo { title: title.to_string(), url: url.to_string(), limit: true }
}

#[test]
fn search_rows_become_limited_galleries() {
    let rows = vec![row("Title A", "/g/1/"), row("Title B", "/g/2/")];
    let out = search_page_results(&rows).unwrap();
    assert_eq!(out, vec![info("Title A", "/g/1/"), info("Title B", "/g/2/")]);
}

#[test]
fn search_page_errors() {
    assert_eq!(search_page_results(&vec![]), Err(ExError::Extraction(Field::ResultRows)));
    let rows = vec![row("A", "/g/1/"), SearchRow { titles: vec![], urls: vec!["u".to_string()] }];
    assert_eq!(search_page_results(&rows), Err(ExError::Extraction(Field::ResultTitle)));
    let rows = vec![SearchRow { titles: vec!["t".to_string()], urls: vec![] }];
    assert_eq!(search_page_results(&rows), Err(ExError::Extraction(Field::ResultUrl)));
}

#[test]
fn failed_search_pages_are_passed_over() {
    let pages = vec![
        Ok(vec![info("A", "1")]),
        Err(ExError::Http("503".to_string())),
        Ok(vec![info("B", "2"), info("C", "3")]),
    ];
    assert_eq!(merge_search_pages(pages), vec![info("A", "1"), info("B", "2"), info("C", "3")]);
    assert_eq!(merge_search_pages(vec![]), vec![]);
}

#[test]
fn direct_link_takes_page_title() {
    let out = gallery_from_page("https://h/g/9/".to_string(), &vec!["T".to_string()]);
    assert_eq!(out, Ok(info("T", "https://h/g/9/")));
    let out = gallery_from_page("https://h/g/9/".to_string(), &vec![]);
    assert_eq!(out, Err(ExError::Extraction(Field::Title)));
}

#[test]
fn test_login() {
    let form = login_form("user", "pass");
    assert_eq!(form.len(), 6);
    assert_eq!(form[3], ("UserName".to_string(), "user".to_string()));
    assert_eq!(form[4], ("PassWord".to_string(), "pass".to_string()));
    assert_eq!(login_url(), "https://forums.e-hentai.org/index.php");
    assert_eq!(
        login_query(),
        vec![("act".to_string(), "Login".to_string()), ("CODE".to_string(), "01".to_string())]
    );
    assert_eq!(
        bootstrap_urls("exhentai.org", true),
        vec!["https://exhentai.org", "https://exhentai.org/uconfig.php", "https://exhentai.org/mytags"]
    );
    assert_eq!(
        bootstrap_urls("exhentai.org", false),
        vec!["https://exhentai.org/uconfig.php", "https://exhentai.org/mytags"]
    );
}

#[test]
fn redirects_follow_up_to_three() {
    assert!(follow_redirect(0));
    assert!(follow_redirect(3));
    assert!(!follow_redirect(4));
    assert_eq!(MAX_REDIRECTS, 3);
    assert_eq!(SESSION_TIMEOUT_SECS, 15);
}

#[test]
fn headers_carry_host_and_referer() {
    let h = session_headers("exhentai.org");
    assert_eq!(h.len(), 9);
    assert_eq!(h[5], ("host".to_string(), "exhentai.org".to_string()));
    assert_eq!(h[6], ("referer".to_string(), "https://exhentai.org/".to_string()));
    assert_eq!(site_url("a.b", "/x"), "https://a.b/x");
}
