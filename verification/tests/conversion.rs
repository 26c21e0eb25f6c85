use docsite_to_md::extractors::{extract_with, framework_extract};
use docsite_to_md::html::html2md_can_convert;
use docsite_to_md::normalize::{can_convert_html, html_to_markdown};
use docsite_to_md::page_export::{PageAction, PageEvent, PageExport};
use docsite_to_md::{
    BrowserOptions, DocsiteError, FetchResult, Framework, PageRef, SiteProfile,
};

fn page(url: &str) -> PageRef {
    PageRef {
        url: url.to_string(),
        normalized_url: url.to_string(),
        title: None,
        depth: 1,
        parent_url: None,
        markdown_url: None,
    }
}

fn html(url: &str, body: &str) -> FetchResult {
    FetchResult {
        final_url: url.to_string(),
        content_type: Some("text/html".to_string()),
        body: body.to_string(),
    }
}

#[test]
fn list_items_outside_lists_are_refused() {
    assert!(!html2md_can_convert("<blockquote><li></li></blockquote>"));
    assert!(!html2md_can_convert("<div>\n<a href=\"x\"><li></li></a></div>"));
    assert!(!can_convert_html("<blockquote><li></li></blockquote>", &["main"]));
    assert!(!html2md_can_convert(
        "<ul><li><table><tr><td><blockquote><li>x</li></blockquote></td></tr></table></li></ul>"
    ));
}

#[test]
fn list_items_outside_lists_without_markers_are_converted() {
    assert!(html2md_can_convert("<main><li>x</li></main>"));
    assert!(html2md_can_convert("<div><p><li>item</li></p></div>"));
    assert!(can_convert_html("<main><li>x</li></main>", &["main"]));
    let md = html_to_markdown("<main><li>x</li></main>", &Framework::GenericDocsFallback);
    assert_eq!(md, "x\n");
}

#[test]
fn ordinary_pages_are_converted() {
    assert!(html2md_can_convert("<ul><li>a</li><li>b</li></ul>"));
    assert!(html2md_can_convert("<blockquote><ol><li>a</li></ol></blockquote>"));
    assert!(html2md_can_convert("<p>No lists here.</p>"));
    let body = "<main><ul><li>First</li><li>Second</li></ul></main>";
    assert!(can_convert_html(body, &["main"]));
    let md = html_to_markdown(body, &Framework::GenericDocsFallback);
    assert!(md.contains("First"));
    assert!(md.contains("Second"));
}

#[test]
fn unconvertible_page_is_an_extract_error() {
    let p = page("https://docs.example.com/q");
    let r = html("https://docs.example.com/q", "<main><blockquote><li></li></blockquote></main>");
    assert!(framework_extract(Framework::Docusaurus, &p, &r).is_none());
    match extract_with(Framework::Docusaurus, &p, &r) {
        Err(DocsiteError::Unconvertible(u)) => assert_eq!(u, "https://docs.example.com/q"),
        _ => panic!("expected an unconvertible page"),
    }
    let site = SiteProfile {
        url: "https://docs.example.com".to_string(),
        framework: Framework::Docusaurus,
        extractor: "Docusaurus".to_string(),
        supports_markdown_endpoints: false,
        browser_fallback_recommended: false,
        detection_signals: vec![],
    };
    let (mut m, _) = PageExport::start(site, p, BrowserOptions::default(), None);
    match m.on_event(PageEvent::Fetched(Ok(r))) {
        PageAction::Done(Err(e)) => {
            assert_eq!(e.phase, "extract");
            assert_eq!(e.message, "HTML cannot be converted to Markdown: https://docs.example.com/q");
        }
        _ => panic!("expected an extract error"),
    }
}
