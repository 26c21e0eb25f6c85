use docsite_to_md::crawl::Crawl;
use docsite_to_md::{CrawlOptions, FetchResult, Framework};

const ROOT: &str = "<html><body><nav>\
<a href=\"/guide\">Guide</a>\
<a href=\"/guide-duplicate\">Guide duplicate</a>\
<a href=\"/blog\">Blog</a>\
</nav><h1>Home</h1></body></html>";

fn page(url: &str, body: &str) -> FetchResult {
    FetchResult {
        final_url: url.to_string(),
        content_type: Some("text/html".to_string()),
        body: body.to_string(),
    }
}

fn options(excludes: Vec<&str>, max_pages: Option<usize>) -> CrawlOptions {
    let mut o = CrawlOptions::default();
    o.excludes = excludes.into_iter().map(|s| s.to_string()).collect();
    o.max_pages = max_pages;
    o
}

fn run(mut crawl: Crawl, pages: &[(&str, &str)]) -> docsite_to_md::CrawlManifest {
    while let Some(url) = crawl.next_fetch() {
        match pages.iter().find(|(u, _)| *u == url) {
            Some((u, body)) => crawl.absorb(&page(u, body)).unwrap(),
            None => crawl.record_failure(url),
        }
    }
    crawl.finish(7)
}

#[test]
fn crawl_respects_scope_and_excludes() {
    let root = page("http://127.0.0.1:4000/", ROOT);
    let crawl = Crawl::start("http://127.0.0.1:4000/", &root, options(vec!["blog"], None)).unwrap();
    let manifest = run(
        crawl,
        &[
            ("http://127.0.0.1:4000", ROOT),
            ("http://127.0.0.1:4000/guide", "<main><h1>Guide</h1></main>"),
            ("http://127.0.0.1:4000/guide-duplicate", "<main><h1>Guide</h1></main>"),
        ],
    );
    let urls: Vec<&str> = manifest.pages.iter().map(|p| p.url.as_str()).collect();
    assert_eq!(
        urls,
        vec![
            "http://127.0.0.1:4000",
            "http://127.0.0.1:4000/guide",
            "http://127.0.0.1:4000/guide-duplicate",
        ]
    );
    assert!(manifest.pages.iter().all(|p| !p.url.contains("blog")));
    assert_eq!(manifest.generated_at_epoch, 7);
    assert_eq!(manifest.site.framework, Framework::GenericDocsFallback);
    assert_eq!(manifest.pages[0].depth, 0);
    assert_eq!(manifest.pages[0].title.as_deref(), Some("Home"));
    assert_eq!(manifest.pages[1].title.as_deref(), Some("Guide"));
    assert_eq!(manifest.pages[1].depth, 1);
    assert!(manifest.skipped_urls.is_empty());
}

#[test]
fn crawl_stops_at_the_page_limit() {
    let root = page("http://127.0.0.1:4000/", ROOT);
    let crawl = Crawl::start("http://127.0.0.1:4000/", &root, options(vec!["blog"], Some(2))).unwrap();
    let manifest = run(
        crawl,
        &[
            ("http://127.0.0.1:4000", ROOT),
            ("http://127.0.0.1:4000/guide", "<main>g</main>"),
        ],
    );
    assert_eq!(manifest.pages.len(), 2);
    assert_eq!(
        manifest.skipped_urls,
        vec![
            "http://127.0.0.1:4000/guide-duplicate".to_string(),
            "http://127.0.0.1:4000/guide".to_string(),
        ]
    );
}

#[test]
fn crawl_records_failed_fetches() {
    let root = page("http://127.0.0.1:4000/", ROOT);
    let crawl = Crawl::start("http://127.0.0.1:4000/", &root, options(vec![], None)).unwrap();
    let manifest = run(crawl, &[("http://127.0.0.1:4000", ROOT)]);
    assert_eq!(manifest.pages.len(), 4);
    assert_eq!(
        manifest.skipped_urls,
        vec![
            "http://127.0.0.1:4000/blog".to_string(),
            "http://127.0.0.1:4000/guide".to_string(),
            "http://127.0.0.1:4000/guide-duplicate".to_string(),
        ]
    );
}

#[test]
fn crawl_takes_each_url_once() {
    let root = page("http://127.0.0.1:4000/", ROOT);
    let mut crawl = Crawl::start("http://127.0.0.1:4000/", &root, options(vec![], None)).unwrap();
    let mut taken = Vec::new();
    while let Some(url) = crawl.next_fetch() {
        assert!(!taken.contains(&url));
        taken.push(url.clone());
        crawl.absorb(&page(&url, ROOT)).unwrap();
    }
    assert_eq!(taken.len(), 4);
}

#[test]
fn crawl_start_fails_on_unparsable_final_url() {
    let root = page("not a url", ROOT);
    match Crawl::start("not a url", &root, CrawlOptions::default()) {
        Err(docsite_to_md::DocsiteError::Url(m)) => assert!(!m.is_empty()),
        _ => panic!("expected a URL error"),
    }
}

#[test]
fn gitbook_crawl_fills_markdown_urls() {
    let body = "<div id=\"__next\">powered by gitbook<nav><a href=\"/getting-started\">Getting started</a></nav></div>";
    let root = page("https://docs.example.com/", body);
    let mut crawl = Crawl::start("https://docs.example.com/", &root, CrawlOptions::default()).unwrap();
    let first = crawl.next_fetch().unwrap();
    assert_eq!(first, "https://docs.example.com");
    crawl.absorb(&page("https://docs.example.com/", body)).unwrap();
    let m = crawl.finish(0);
    assert_eq!(m.pages[0].markdown_url.as_deref(), Some("https://docs.example.com/.md"));
    assert_eq!(
        m.pages[1].markdown_url.as_deref(),
        Some("https://docs.example.com/getting-started.md")
    );
}
