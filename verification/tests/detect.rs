use docsite_to_md::extractors::{default_extractors, detect_extractor, detect_site};
use docsite_to_md::{FetchResult, Framework};

fn html(url: &str, body: &str) -> FetchResult {
    FetchResult {
        final_url: url.to_string(),
        content_type: Some("text/html; charset=utf-8".to_string()),
        body: body.to_string(),
    }
}

#[test]
fn detects_modern_gitbook_from_next_runtime() {
    let r = html(
        "https://docs.example.com/",
        "<html><body><div id=\"__next\">Powered by GitBook</div></body></html>",
    );
    let profile = detect_site("https://docs.example.com/", &r).unwrap();
    assert_eq!(profile.framework, Framework::GitBookModern);
    assert!(profile.supports_markdown_endpoints);
    assert_eq!(profile.extractor, "GitBookModern");
    assert!(profile.detection_signals.contains(&"body:powered-by-gitbook".to_string()));
}

#[test]
fn detects_classic_gitbook() {
    let r = html("https://book.example.com/", "<div class=\"book\" data-gitbook-root></div>");
    let profile = detect_site("https://book.example.com/", &r).unwrap();
    assert_eq!(profile.framework, Framework::GitBookClassic);
    assert!(profile.supports_markdown_endpoints);
}

#[test]
fn detects_docusaurus_site() {
    let r = html(
        "https://site.example.com/docs/intro",
        "<div id=\"__docusaurus\"><main class=\"theme-doc-markdown\">Hi</main></div>",
    );
    let profile = detect_site("https://site.example.com/docs/intro", &r).unwrap();
    assert_eq!(profile.framework, Framework::Docusaurus);
    assert!(!profile.supports_markdown_endpoints);
    assert_eq!(profile.url, "https://site.example.com/docs/intro");
}

#[test]
fn detects_mkdocs_material_site() {
    let r = html(
        "https://m.example.com/",
        "<meta name=\"generator\" content=\"mkdocs-1.5, mkdocs-material-9\"><div class=\"md-content\"></div>",
    );
    assert_eq!(detect_site("u", &r).unwrap().framework, Framework::MkDocsMaterial);
}

#[test]
fn plain_mkdocs_without_material_is_not_material() {
    let r = html("https://m.example.com/", "<meta name=\"generator\" content=\"mkdocs-1.5\">");
    assert_eq!(detect_site("u", &r).unwrap().framework, Framework::GenericDocsFallback);
}

#[test]
fn detects_vitepress_site() {
    let r = html("https://v.example.com/", "<div class=\"VPNav\"></div><div class=\"VPDoc\"></div>");
    assert_eq!(detect_site("u", &r).unwrap().framework, Framework::VitePress);
}

#[test]
fn detects_nextra_site() {
    let r = html(
        "https://n.example.com/",
        "<div id=\"__next\"><div class=\"nextra-content\">x</div></div>",
    );
    let profile = detect_site("u", &r).unwrap();
    assert_eq!(profile.framework, Framework::Nextra);
    assert!(profile.browser_fallback_recommended);
}

#[test]
fn falls_back_to_generic_docs() {
    let r = html("https://plain.example.com/", "<html><body><main>Docs</main></body></html>");
    let (framework, profile) = detect_extractor(&r).unwrap();
    assert_eq!(framework, Framework::GenericDocsFallback);
    assert_eq!(profile.extractor, "GenericDocsFallback");
    assert!(!profile.supports_markdown_endpoints);
}

#[test]
fn detection_order_lists_every_framework() {
    let order = default_extractors();
    assert_eq!(order.len(), 7);
    assert_eq!(order[0], Framework::GitBookModern);
    assert_eq!(order[6], Framework::GenericDocsFallback);
}
