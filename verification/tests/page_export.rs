use docsite_to_md::export::content_hash;
use docsite_to_md::page_export::{PageAction, PageEvent, PageExport, PageStage};
use docsite_to_md::{
    BrowserOptions, ExportedPage, FetchResult, Framework, PageRef, SiteProfile, SourceFormat,
};

fn site(framework: Framework, extractor: &str, markdown: bool) -> SiteProfile {
    SiteProfile {
        url: "https://docs.example.com".to_string(),
        framework,
        extractor: extractor.to_string(),
        supports_markdown_endpoints: markdown,
        browser_fallback_recommended: false,
        detection_signals: vec![],
    }
}

fn page(url: &str, markdown_url: Option<&str>) -> PageRef {
    PageRef {
        url: url.to_string(),
        normalized_url: url.to_string(),
        title: Some("Link title".to_string()),
        depth: 1,
        parent_url: None,
        markdown_url: markdown_url.map(|m| m.to_string()),
    }
}

fn html(url: &str, body: &str) -> FetchResult {
    FetchResult {
        final_url: url.to_string(),
        content_type: Some("text/html".to_string()),
        body: body.to_string(),
    }
}

#[test]
fn html_page_is_fetched_written_and_hashed() {
    let (mut m, a) = PageExport::start(
        site(Framework::GenericDocsFallback, "GenericDocsFallback", false),
        page("https://docs.example.com/guide/start", None),
        BrowserOptions::default(),
        None,
    );
    match a {
        PageAction::Fetch(u) => assert_eq!(u, "https://docs.example.com/guide/start"),
        _ => panic!("expected a fetch"),
    }
    let a = m.on_event(PageEvent::Fetched(Ok(html(
        "https://docs.example.com/guide/start",
        "<html><body><main><h1>Start</h1><p>Hello there.</p></main></body></html>",
    ))));
    let markdown = match a {
        PageAction::Write { path, markdown } => {
            assert_eq!(path, "guide/start.md");
            assert!(markdown.contains("Hello there."));
            markdown
        }
        _ => panic!("expected a write"),
    };
    assert!(m.stage() == PageStage::Writing);
    match m.on_event(PageEvent::Written(Ok(()))) {
        PageAction::Done(Ok((rec, md))) => {
            assert_eq!(md, markdown);
            assert_eq!(rec.output_file, "guide/start.md");
            assert_eq!(rec.title.as_deref(), Some("Start"));
            assert_eq!(rec.source_format, SourceFormat::Html);
            assert!(!rec.used_browser_fallback);
            assert_eq!(rec.content_hash, Some(content_hash(&markdown)));
            assert!(!rec.skipped);
        }
        _ => panic!("expected the record"),
    }
    assert!(m.stage() == PageStage::Finished);
}

#[test]
fn markdown_endpoint_then_html_then_failure() {
    let (mut m, a) = PageExport::start(
        site(Framework::GitBookModern, "GitBookModern", true),
        page("https://docs.example.com/a", Some("https://docs.example.com/a.md")),
        BrowserOptions::default(),
        None,
    );
    assert!(matches!(a, PageAction::Fetch(ref u) if u == "https://docs.example.com/a.md"));
    let a = m.on_event(PageEvent::Fetched(Err("first".to_string())));
    assert!(matches!(a, PageAction::Fetch(ref u) if u == "https://docs.example.com/a"));
    match m.on_event(PageEvent::Fetched(Err("second".to_string()))) {
        PageAction::Done(Err(e)) => {
            assert_eq!(e.url, "https://docs.example.com/a");
            assert_eq!(e.phase, "fetch");
            assert_eq!(e.message, "second");
        }
        _ => panic!("expected a fetch error"),
    }
}

#[test]
fn markdown_response_keeps_the_link_title() {
    let (mut m, _) = PageExport::start(
        site(Framework::GitBookModern, "GitBookModern", true),
        page("https://docs.example.com/", Some("https://docs.example.com/.md")),
        BrowserOptions::default(),
        None,
    );
    let r = FetchResult {
        final_url: "https://docs.example.com/.md".to_string(),
        content_type: Some("text/markdown".to_string()),
        body: "# Root\n\n{% hint style=\"danger\" %}\nCareful\n{% endhint %}\n".to_string(),
    };
    match m.on_event(PageEvent::Fetched(Ok(r))) {
        PageAction::Write { path, markdown } => {
            assert_eq!(path, "index.md");
            assert!(markdown.contains("[!DANGER]"));
        }
        _ => panic!("expected a write"),
    }
    match m.on_event(PageEvent::Written(Ok(()))) {
        PageAction::Done(Ok((rec, _))) => {
            assert_eq!(rec.source_format, SourceFormat::Markdown);
            assert_eq!(rec.title.as_deref(), Some("Link title"));
        }
        _ => panic!("expected the record"),
    }
}

#[test]
fn resumed_page_with_existing_file_is_kept() {
    let previous = ExportedPage {
        page: page("https://docs.example.com/a", None),
        output_file: "a.md".to_string(),
        title: None,
        source_format: SourceFormat::Html,
        used_browser_fallback: false,
        content_hash: Some("abc".to_string()),
        skipped: false,
        duplicate_of: None,
    };
    let (mut m, a) = PageExport::start(
        site(Framework::GenericDocsFallback, "GenericDocsFallback", false),
        page("https://docs.example.com/a", None),
        BrowserOptions::default(),
        Some(previous),
    );
    assert!(matches!(a, PageAction::CheckExisting(ref p) if p == "a.md"));
    match m.on_event(PageEvent::Exists(true)) {
        PageAction::Done(Ok((rec, md))) => {
            assert_eq!(rec.content_hash.as_deref(), Some("abc"));
            assert_eq!(md, "");
        }
        _ => panic!("expected the earlier record"),
    }
}

#[test]
fn resumed_page_without_file_is_fetched_again() {
    let previous = ExportedPage {
        page: page("https://docs.example.com/a", None),
        output_file: "a.md".to_string(),
        title: None,
        source_format: SourceFormat::Html,
        used_browser_fallback: false,
        content_hash: None,
        skipped: false,
        duplicate_of: None,
    };
    let (mut m, _) = PageExport::start(
        site(Framework::GenericDocsFallback, "GenericDocsFallback", false),
        page("https://docs.example.com/a", None),
        BrowserOptions::default(),
        Some(previous),
    );
    assert!(matches!(
        m.on_event(PageEvent::Exists(false)),
        PageAction::Fetch(ref u) if u == "https://docs.example.com/a"
    ));
}

#[test]
fn unparsable_page_url_fails_in_parse_phase() {
    let (_, a) = PageExport::start(
        site(Framework::GenericDocsFallback, "GenericDocsFallback", false),
        page("::nope::", None),
        BrowserOptions::default(),
        None,
    );
    match a {
        PageAction::Done(Err(e)) => {
            assert_eq!(e.phase, "parse");
            assert!(!e.message.is_empty());
        }
        _ => panic!("expected a parse error"),
    }
}

#[test]
fn unknown_extractor_fails_in_extractor_phase() {
    let (mut m, _) = PageExport::start(
        site(Framework::GenericDocsFallback, "Hugo", false),
        page("https://docs.example.com/a", None),
        BrowserOptions::default(),
        None,
    );
    match m.on_event(PageEvent::Fetched(Ok(html("https://docs.example.com/a", "<main>x</main>")))) {
        PageAction::Done(Err(e)) => {
            assert_eq!(e.phase, "extractor");
            assert_eq!(e.message, "site detection failed for Hugo");
        }
        _ => panic!("expected an extractor error"),
    }
}

#[test]
fn write_failure_fails_in_write_phase() {
    let (mut m, _) = PageExport::start(
        site(Framework::GenericDocsFallback, "GenericDocsFallback", false),
        page("https://docs.example.com/a", None),
        BrowserOptions::default(),
        None,
    );
    let _ = m.on_event(PageEvent::Fetched(Ok(html("https://docs.example.com/a", "<main>x</main>"))));
    match m.on_event(PageEvent::Written(Err("read-only".to_string()))) {
        PageAction::Done(Err(e)) => {
            assert_eq!(e.phase, "write");
            assert_eq!(e.message, "read-only");
        }
        _ => panic!("expected a write error"),
    }
}

#[test]
fn weak_nextra_page_goes_to_the_browser() {
    let browser = BrowserOptions { enabled: true, webdriver_url: Some("http://wd".to_string()) };
    let (mut m, _) = PageExport::start(
        site(Framework::Nextra, "Nextra", false),
        page("https://docs.example.com/docs/intro", None),
        browser,
        None,
    );
    let a = m.on_event(PageEvent::Fetched(Ok(html(
        "https://docs.example.com/docs/intro",
        "<main>Loading</main>",
    ))));
    match a {
        PageAction::Render { url, webdriver_url } => {
            assert_eq!(url, "https://docs.example.com/docs/intro");
            assert_eq!(webdriver_url.as_deref(), Some("http://wd"));
        }
        _ => panic!("expected a rendering"),
    }
    match m.on_event(PageEvent::Rendered(Ok("<main><p>Rendered text here.</p></main>".to_string()))) {
        PageAction::Write { path, markdown } => {
            assert_eq!(path, "docs/intro.md");
            assert!(markdown.contains("Rendered text here."));
        }
        _ => panic!("expected a write"),
    }
    match m.on_event(PageEvent::Written(Ok(()))) {
        PageAction::Done(Ok((rec, _))) => {
            assert!(rec.used_browser_fallback);
            assert_eq!(rec.source_format, SourceFormat::BrowserHtml);
            assert!(rec.title.is_none());
        }
        _ => panic!("expected the record"),
    }
}

#[test]
fn nextra_without_browser_is_written_from_html() {
    let (mut m, _) = PageExport::start(
        site(Framework::Nextra, "Nextra", false),
        page("https://docs.example.com/docs/intro", None),
        BrowserOptions::default(),
        None,
    );
    let a = m.on_event(PageEvent::Fetched(Ok(html(
        "https://docs.example.com/docs/intro",
        "<main>Loading</main>",
    ))));
    assert!(matches!(a, PageAction::Write { .. }));
    match m.on_event(PageEvent::Written(Ok(()))) {
        PageAction::Done(Ok((rec, _))) => {
            assert!(!rec.used_browser_fallback);
            assert_eq!(rec.source_format, SourceFormat::Html);
        }
        _ => panic!("expected the record"),
    }
}

#[test]
fn browser_failure_is_a_fetch_error() {
    let browser = BrowserOptions { enabled: true, webdriver_url: None };
    let (mut m, _) = PageExport::start(
        site(Framework::Nextra, "Nextra", false),
        page("https://docs.example.com/docs/intro", None),
        browser,
        None,
    );
    let a = m.on_event(PageEvent::Fetched(Err("timeout".to_string())));
    assert!(matches!(a, PageAction::Render { .. }));
    match m.on_event(PageEvent::Rendered(Err("missing webdriver URL".to_string()))) {
        PageAction::Done(Err(e)) => {
            assert_eq!(e.phase, "fetch");
            assert_eq!(e.message, "missing webdriver URL");
        }
        _ => panic!("expected a fetch error"),
    }
}
