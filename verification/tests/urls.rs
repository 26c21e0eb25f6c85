use docsite_to_md::extractors::links::{discover_nav_links, scope_prefix, should_include_url};
use docsite_to_md::extractors::{framework_discover_links, framework_markdown_url};
use docsite_to_md::urls::{normalize_page_url, page_depth_exec, parse_page_url, url_without_trailing_slash};
use docsite_to_md::{CrawlOptions, Framework};

#[test]
fn parses_and_normalizes_page_urls() {
    let u = parse_page_url("https://Docs.Example.com/guide/?q=1#top").unwrap();
    assert_eq!(u.scheme, "https");
    assert_eq!(u.host.as_deref(), Some("docs.example.com"));
    assert_eq!(u.path, "/guide/");
    assert_eq!(normalize_page_url(&u), "https://docs.example.com/guide");
    let p = parse_page_url("http://127.0.0.1:8080/a/b").unwrap();
    assert_eq!(normalize_page_url(&p), "http://127.0.0.1/a/b:8080");
    assert_eq!(url_without_trailing_slash(&parse_page_url("https://x.org/").unwrap()), "https://x.org");
    assert!(parse_page_url("no scheme here").is_err());
}

#[test]
fn depth_counts_path_segments() {
    assert_eq!(page_depth_exec(&parse_page_url("https://x.org/").unwrap()), 0);
    assert_eq!(page_depth_exec(&parse_page_url("https://x.org/a/b/c").unwrap()), 3);
    assert_eq!(page_depth_exec(&parse_page_url("https://x.org//a//b/").unwrap()), 2);
}

#[test]
fn scope_defaults_to_the_base_path() {
    let base = parse_page_url("https://x.org/docs/").unwrap();
    assert_eq!(scope_prefix(&base, &CrawlOptions::default()), "/docs");
    let mut o = CrawlOptions::default();
    o.scope_prefix = Some("/api".to_string());
    assert_eq!(scope_prefix(&base, &o), "/api");
}

#[test]
fn inclusion_rules() {
    let base = parse_page_url("https://x.org/docs").unwrap();
    let o = CrawlOptions::default();
    assert!(should_include_url(&parse_page_url("https://x.org/docs/intro").unwrap(), &base, &o));
    assert!(!should_include_url(&parse_page_url("https://y.org/docs/intro").unwrap(), &base, &o));
    assert!(!should_include_url(&parse_page_url("https://x.org/blog").unwrap(), &base, &o));
    assert!(!should_include_url(&parse_page_url("https://x.org/docs/logo.png").unwrap(), &base, &o));
    assert!(!should_include_url(&parse_page_url("https://x.org/docs/cdn-cgi/l").unwrap(), &base, &o));
    let mut ex = CrawlOptions::default();
    ex.excludes = vec!["intro".to_string()];
    assert!(!should_include_url(&parse_page_url("https://x.org/docs/intro").unwrap(), &base, &ex));
}

#[test]
fn nav_links_are_scoped_deduplicated_and_sorted() {
    let base = parse_page_url("https://x.org/").unwrap();
    let html = "<aside>\
        <a href=\"/b\"> B  page </a>\
        <a href=\"/a#section\">A</a>\
        <a href=\"/a\">A again</a>\
        <a href=\"https://other.org/x\">Other</a>\
        <a href=\"/img.svg\">Img</a>\
        </aside>";
    let pages = discover_nav_links(&base, html, &CrawlOptions::default(), &["aside a[href]"]);
    let urls: Vec<&str> = pages.iter().map(|p| p.url.as_str()).collect();
    assert_eq!(urls, vec!["https://x.org/a", "https://x.org/b"]);
    assert_eq!(pages[0].title.as_deref(), Some("A"));
    assert_eq!(pages[1].title.as_deref(), Some("B page"));
    assert_eq!(pages[1].depth, 1);
}

#[test]
fn vitepress_prefers_core_docs_over_locale_variants() {
    let base = parse_page_url("https://vp.example.com/").unwrap();
    let html = "<div class=\"VPSidebar\">\
        <a href=\"/es/guide/\">ES</a>\
        <a href=\"/fa/guide/\">FA</a>\
        <a href=\"/guide/what-is-vitepress\">What is</a>\
        <a href=\"/team\">Team</a>\
        </div>";
    let pages = framework_discover_links(Framework::VitePress, &base, html, &CrawlOptions::default());
    let urls: Vec<&str> = pages.iter().map(|p| p.url.as_str()).collect();
    assert_eq!(
        urls,
        vec![
            "https://vp.example.com/guide/what-is-vitepress",
            "https://vp.example.com/team",
            "https://vp.example.com/es/guide",
            "https://vp.example.com/fa/guide",
        ]
    );
}

#[test]
fn gitbook_markdown_urls() {
    let root = parse_page_url("https://docs.example.com/").unwrap();
    let page = parse_page_url("https://docs.example.com/guide/").unwrap();
    assert_eq!(
        framework_markdown_url(Framework::GitBookModern, &root).as_deref(),
        Some("https://docs.example.com/.md")
    );
    assert_eq!(
        framework_markdown_url(Framework::GitBookClassic, &root).as_deref(),
        Some("https://docs.example.com/README.md")
    );
    assert_eq!(
        framework_markdown_url(Framework::GitBookModern, &page).as_deref(),
        Some("https://docs.example.com/guide.md")
    );
    assert!(framework_markdown_url(Framework::Docusaurus, &page).is_none());
}
