use docsite_to_md::export::{
    ExportRun, content_hash, find_extractor_for_site, links_text, output_file_for_page, preferred_targets,
    render_bundle, resume_entry_for, summarize_exports, BundleEntry,
};
use docsite_to_md::urls::parse_page_url;
use docsite_to_md::{
    DocsiteError, ExportedPage, Framework, PageError, PageRef, SiteProfile, SourceFormat,
};

fn page_ref(url: &str) -> PageRef {
    PageRef {
        url: url.to_string(),
        normalized_url: url.to_string(),
        title: None,
        depth: 0,
        parent_url: None,
        markdown_url: None,
    }
}

fn exported(url: &str, file: &str, hash: Option<&str>) -> ExportedPage {
    ExportedPage {
        page: page_ref(url),
        output_file: file.to_string(),
        title: Some(file.to_string()),
        source_format: SourceFormat::Html,
        used_browser_fallback: false,
        content_hash: hash.map(|h| h.to_string()),
        skipped: false,
        duplicate_of: None,
    }
}

fn site(framework: Framework, extractor: &str, markdown: bool) -> SiteProfile {
    SiteProfile {
        url: "https://docs.example.com".to_string(),
        framework,
        extractor: extractor.to_string(),
        supports_markdown_endpoints: markdown,
        browser_fallback_recommended: false,
        detection_signals: vec![],
    }
}

#[test]
fn output_files_mirror_the_url_path() {
    assert_eq!(output_file_for_page("/"), "index.md");
    assert_eq!(output_file_for_page(""), "index.md");
    assert_eq!(output_file_for_page("//"), "index.md");
    assert_eq!(output_file_for_page("/getting-started"), "getting-started.md");
    assert_eq!(output_file_for_page("/api/reference"), "api/reference.md");
}

#[test]
fn content_hash_is_lowercase_sha256() {
    assert_eq!(
        content_hash(""),
        "e3b0c44298fc1c149afbf4c8996fb92427ae41e4649b934ca495991b7852b855"
    );
    assert_eq!(
        content_hash("abc"),
        "ba7816bf8f01cfea414140de5dae2223b00361a396177a9cb410ff61f20015ad"
    );
}

#[test]
fn markdown_endpoint_is_tried_first() {
    let mut p = page_ref("https://docs.example.com/guide");
    p.markdown_url = Some("https://docs.example.com/guide.md".to_string());
    let u = parse_page_url("https://docs.example.com/guide").unwrap();
    let t = preferred_targets(&site(Framework::GitBookModern, "GitBookModern", true), &p, &u);
    assert_eq!(t.len(), 2);
    assert_eq!(t[0].0, "https://docs.example.com/guide.md");
    assert_eq!(t[0].1, SourceFormat::Markdown);
    assert_eq!(t[1].0, "https://docs.example.com/guide");
    assert_eq!(t[1].1, SourceFormat::Html);
    let t = preferred_targets(&site(Framework::Docusaurus, "Docusaurus", false), &p, &u);
    assert_eq!(t.len(), 1);
    assert_eq!(t[0].1, SourceFormat::Html);
}

#[test]
fn extractor_is_found_by_name() {
    assert_eq!(
        find_extractor_for_site(&site(Framework::Nextra, "Nextra", false)).unwrap(),
        Framework::Nextra
    );
    match find_extractor_for_site(&site(Framework::Nextra, "Hugo", false)) {
        Err(DocsiteError::DetectionFailed(name)) => assert_eq!(name, "Hugo"),
        _ => panic!("expected detection failure"),
    }
}

#[test]
fn resume_uses_the_last_record_of_a_url() {
    let previous = vec![
        exported("https://x/a", "a-old.md", None),
        exported("https://x/b", "b.md", None),
        exported("https://x/a", "a.md", None),
    ];
    assert_eq!(resume_entry_for(&previous, "https://x/a").unwrap().output_file, "a.md");
    assert!(resume_entry_for(&previous, "https://x/c").is_none());
}

#[test]
fn links_list_has_one_url_per_line() {
    let pages = vec![exported("https://x/a", "a.md", None), exported("https://x/b", "b.md", None)];
    assert_eq!(links_text(&pages), "https://x/a\nhttps://x/b\n");
    assert_eq!(links_text(&Vec::new()), "\n");
}

#[test]
fn bundle_has_a_section_per_entry() {
    let entries = vec![
        BundleEntry {
            title: Some("Guide".to_string()),
            url: "http://x/guide".to_string(),
            markdown: "  # Guide\n\nText \n".to_string(),
        },
        BundleEntry { title: None, url: "http://x/a".to_string(), markdown: "A".to_string() },
    ];
    assert_eq!(
        render_bundle(&entries),
        "# Documentation Bundle\n\n## Guide\n\nSource: http://x/guide\n\n# Guide\n\nText\n\n## http://x/a\n\nSource: http://x/a\n\nA\n\n"
    );
    assert_eq!(render_bundle(&Vec::new()), "# Documentation Bundle\n\n");
}

#[test]
fn duplicate_content_is_marked_and_left_out_of_the_bundle() {
    let results = vec![
        Ok((exported("https://x/guide-duplicate", "guide-duplicate.md", Some("h1")), "G".to_string())),
        Err(PageError {
            url: "https://x/broken".to_string(),
            phase: "fetch".to_string(),
            message: "boom".to_string(),
        }),
        Ok((exported("https://x/guide", "guide.md", Some("h1")), "G".to_string())),
        Ok((exported("https://x/about", "about.md", Some("h2")), "About".to_string())),
        Ok((exported("https://x/empty", "empty.md", None), String::new())),
    ];
    let s = summarize_exports(&results);
    let urls: Vec<&str> = s.pages.iter().map(|p| p.page.url.as_str()).collect();
    assert_eq!(urls, vec!["https://x/about", "https://x/empty", "https://x/guide", "https://x/guide-duplicate"]);
    assert!(!s.pages[2].skipped);
    assert!(s.pages[3].skipped);
    assert_eq!(s.pages[3].duplicate_of.as_deref(), Some("guide.md"));
    assert!(!s.pages[1].skipped);
    assert_eq!(s.errors.len(), 1);
    assert_eq!(s.errors[0].phase, "fetch");
    let bundle_urls: Vec<&str> = s.bundle.iter().map(|b| b.url.as_str()).collect();
    assert_eq!(bundle_urls, vec!["https://x/about", "https://x/guide"]);
    assert_eq!(s.bundle[1].markdown, "G");
}

#[test]
fn skipped_resumed_pages_stay_out_of_the_bundle() {
    let mut resumed = exported("https://x/a", "a.md", Some("h"));
    resumed.skipped = true;
    let results = vec![
        Ok((resumed, String::new())),
        Ok((exported("https://x/b", "b.md", Some("h")), "B".to_string())),
    ];
    let s = summarize_exports(&results);
    assert!(s.pages[0].skipped);
    assert!(!s.pages[1].skipped);
    assert_eq!(s.bundle.len(), 1);
    assert_eq!(s.bundle[0].url, "https://x/b");
}

#[test]
fn every_page_ends_as_a_record_or_an_error() {
    let manifest = vec!["https://x/c", "https://x/a", "https://x/b"];
    let results = vec![
        Ok((exported("https://x/b", "b.md", Some("h")), "B".to_string())),
        Err(PageError {
            url: "https://x/c".to_string(),
            phase: "write".to_string(),
            message: "disk full".to_string(),
        }),
        Ok((exported("https://x/a", "a.md", Some("h")), "B".to_string())),
    ];
    let s = summarize_exports(&results);
    let mut urls: Vec<String> = s.pages.iter().map(|p| p.page.url.clone()).collect();
    urls.extend(s.errors.iter().map(|e| e.url.clone()));
    urls.sort();
    let mut expected: Vec<String> = manifest.iter().map(|u| u.to_string()).collect();
    expected.sort();
    assert_eq!(urls, expected);
    assert_eq!(s.pages.len() + s.errors.len(), manifest.len());
}

#[test]
fn export_run_takes_one_outcome_per_page() {
    let mut run = ExportRun::new(vec![page_ref("https://x/a"), page_ref("https://x/b")]);
    assert_eq!(run.len(), 2);
    assert!(run.finish().is_none());
    assert!(!run.record(0, Ok((exported("https://x/b", "b.md", None), String::new()))));
    assert!(run.record(1, Ok((exported("https://x/b", "b.md", None), "B".to_string()))));
    assert!(!run.record(1, Ok((exported("https://x/b", "b.md", None), "B".to_string()))));
    assert!(!run.record(5, Ok((exported("https://x/b", "b.md", None), "B".to_string()))));
    assert!(run.finish().is_none());
    let err = PageError {
        url: "https://x/a".to_string(),
        phase: "fetch".to_string(),
        message: "boom".to_string(),
    };
    assert!(run.record(0, Err(err)));
    let s = run.finish().unwrap();
    assert_eq!(s.pages.len(), 1);
    assert_eq!(s.pages[0].page.url, "https://x/b");
    assert_eq!(s.errors.len(), 1);
    assert_eq!(s.errors[0].url, "https://x/a");
    assert_eq!(run.page(0).unwrap().url, "https://x/a");
    assert!(run.page(2).is_none());
}
