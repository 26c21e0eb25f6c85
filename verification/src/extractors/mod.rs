//! Extractors: per-framework detection, link discovery and page extraction.
use vstd::prelude::*;

pub mod docusaurus;
pub mod generic;
pub mod gitbook;
pub mod links;
pub mod mkdocs;
pub mod nextra;
pub mod signals;
pub mod vitepress;

pub use crate::extractors::links::{discover_nav_links, scope_prefix, should_include_url};
pub use crate::urls::normalize_page_url;

use crate::error::{DocsiteError, DocsiteErrorView};
use crate::extractors::docusaurus::{detect_docusaurus, Docusaurus};
use crate::extractors::generic::{generic_signals, GenericDocsFallback};
use crate::extractors::gitbook::{
    detect_gitbook_classic, detect_gitbook_modern, gitbook_markdown_url, signals_view, GitBookClassic,
    GitBookModern,
};
use crate::extractors::links::{
    lemma_discovered_in_scope, lemma_in_scope_not_asset, non_asset_page, page_in_scope, default_nav_selectors, default_nav_selectors_spec, discovered_nav_links,
    page_views, sort_pages_by, sort_pages_in, PageOrder,
};
use crate::extractors::mkdocs::{detect_mkdocs_material, MkDocsMaterial};
use crate::extractors::nextra::{nextra_needs_browser, Nextra};
use crate::extractors::vitepress::{detect_vitepress, VitePress};
use crate::normalize::{
    default_content_selectors, default_content_selectors_spec, extract_title_from_html,
    can_convert_html, html_convertible, html_markdown_with, html_to_markdown_with_selectors, normalize_markdown, normalized_markdown,
    opt_chars, str_views, title_from_html,
};
use crate::text::{contains, starts_with, str_contains, str_starts_with, trim_start, trim_start_chars, to_chars, starts_with_str};
use crate::types::{
    clone_opt_string, opt_view, CrawlOptions, CrawlOptionsView, FetchResult, FetchResultView,
    Framework, PageRef, PageRefView, SiteProfile, SiteProfileView, SourceFormat,
};
use crate::urls::{UrlParts, UrlView};

verus! {

/// What an extractor made of one fetched page.
#[derive(Debug)]
pub struct ExtractionResult {
    pub markdown: String,
    pub title: Option<String>,
    pub source_format: SourceFormat,
}

pub struct ExtractionView {
    pub markdown: Seq<char>,
    pub title: Option<Seq<char>>,
    pub source_format: SourceFormat,
}

impl View for ExtractionResult {
    type V = ExtractionView;

    open spec fn view(&self) -> ExtractionView {
        ExtractionView {
            markdown: self.markdown@,
            title: opt_view(self.title),
            source_format: self.source_format,
        }
    }
}

// ---------------------------------------------------------------- per-framework facts

pub open spec fn extractor_name_of(f: Framework) -> Seq<char> {
    match f {
        Framework::GitBookModern => "GitBookModern"@,
        Framework::GitBookClassic => "GitBookClassic"@,
        Framework::Docusaurus => "Docusaurus"@,
        Framework::MkDocsMaterial => "MkDocsMaterial"@,
        Framework::VitePress => "VitePress"@,
        Framework::Nextra => "Nextra"@,
        Framework::GenericDocsFallback => "GenericDocsFallback"@,
    }
}

pub open spec fn detect_of(f: Framework, r: FetchResultView) -> Option<Seq<Seq<char>>> {
    match f {
        Framework::GitBookModern => detect_gitbook_modern(r),
        Framework::GitBookClassic => detect_gitbook_classic(r),
        Framework::Docusaurus => detect_docusaurus(r),
        Framework::MkDocsMaterial => detect_mkdocs_material(r),
        Framework::VitePress => detect_vitepress(r),
        Framework::Nextra => detect_nextra_of(r),
        Framework::GenericDocsFallback => Some(generic_signals()),
    }
}

pub open spec fn detect_nextra_of(r: FetchResultView) -> Option<Seq<Seq<char>>> {
    crate::extractors::nextra::detect_nextra(r)
}

/// Only GitBook serves a Markdown twin of each page.
pub open spec fn supports_markdown_of(f: Framework) -> bool {
    f == Framework::GitBookModern || f == Framework::GitBookClassic
}

pub open spec fn fallback_recommended_of(f: Framework) -> bool {
    f == Framework::GitBookModern || f == Framework::GenericDocsFallback || f == Framework::Nextra
        || f == Framework::VitePress
}

pub open spec fn nav_selectors_of(f: Framework) -> Seq<Seq<char>> {
    match f {
        Framework::Docusaurus => seq![
            "nav[aria-label='Docs sidebar'] a[href]"@,
            ".theme-doc-sidebar-menu a[href]"@,
            "aside nav a[href]"@,
            "nav a[href]"@,
            "main a[href]"@,
            "a[href]"@,
        ],
        Framework::MkDocsMaterial => seq![
            ".md-nav a[href]"@,
            ".md-sidebar a[href]"@,
            "nav a[href]"@,
            "main a[href]"@,
            "a[href]"@,
        ],
        Framework::VitePress => seq![
            ".VPSidebar a[href]"@,
            ".VPNav a[href]"@,
            "aside a[href]"@,
            "nav a[href]"@,
            "main a[href]"@,
            "a[href]"@,
        ],
        Framework::Nextra => seq![
            "[data-nextra-sidebar] a[href]"@,
            ".nextra-sidebar-container a[href]"@,
            "aside a[href]"@,
            "nav a[href]"@,
            "main a[href]"@,
            "a[href]"@,
        ],
        _ => default_nav_selectors_spec(),
    }
}

pub open spec fn content_selectors_of(f: Framework) -> Seq<Seq<char>> {
    match f {
        Framework::Docusaurus => seq![
            "main article"@,
            ".theme-doc-markdown"@,
            "article"@,
            "main"@,
            "body"@,
        ],
        Framework::MkDocsMaterial => seq![
            ".md-content article"@,
            ".md-content"@,
            "article"@,
            "main"@,
            "body"@,
        ],
        Framework::VitePress => seq![".VPDoc .content"@, ".vp-doc"@, "main"@, "body"@],
        Framework::Nextra => seq![
            "main article"@,
            ".nextra-content"@,
            "article"@,
            "main"@,
            "body"@,
        ],
        _ => default_content_selectors_spec(),
    }
}

pub open spec fn markdown_url_of(f: Framework, u: UrlView) -> Option<Seq<char>> {
    match f {
        Framework::GitBookModern => Some(gitbook_markdown_url(u, "/.md"@)),
        Framework::GitBookClassic => Some(gitbook_markdown_url(u, "/README.md"@)),
        _ => None,
    }
}

/// Pages linked from a page's navigation: by URL, except VitePress, which
/// puts core docs first and locale variants last.
pub open spec fn links_of(
    f: Framework,
    base: UrlView,
    html: Seq<char>,
    options: CrawlOptionsView,
) -> Seq<PageRefView> {
    let found = discovered_nav_links(base, html, options, nav_selectors_of(f));
    if f == Framework::VitePress {
        sort_pages_by(PageOrder::VitePressPriority, found)
    } else {
        found
    }
}

/// A response is Markdown when its content type says so or its body starts
/// (after whitespace) with `#` or `---`.
pub open spec fn looks_like_markdown(r: FetchResultView) -> bool {
    let ct = match r.content_type {
        Some(c) => c,
        None => seq![],
    };
    contains(ct, "markdown"@) || starts_with(trim_start(r.body), "#"@) || starts_with(
        trim_start(r.body),
        "---"@,
    )
}

/// Markdown responses are normalized as they are (title from the page
/// reference); HTML is reduced to its content fragment and converted (title
/// from the HTML, else the page reference). `None` for HTML whose content
/// fragment the converter cannot take.
pub open spec fn extraction_of(f: Framework, page: PageRefView, r: FetchResultView) -> Option<
    ExtractionView,
> {
    if looks_like_markdown(r) {
        Some(
            ExtractionView {
                markdown: normalized_markdown(r.body, f),
                title: page.title,
                source_format: SourceFormat::Markdown,
            },
        )
    } else if html_convertible(r.body, content_selectors_of(f)) {
        Some(
            ExtractionView {
                markdown: html_markdown_with(r.body, f, content_selectors_of(f)),
                title: match title_from_html(r.body) {
                    Some(t) => Some(t),
                    None => page.title,
                },
                source_format: SourceFormat::Html,
            },
        )
    } else {
        None
    }
}

pub open spec fn opt_extraction_view(o: Option<ExtractionResult>) -> Option<ExtractionView> {
    match o {
        Some(e) => Some(e@),
        None => None,
    }
}

/// Every link an extractor discovers on a page is in scope of that page.
pub proof fn lemma_links_in_scope(f: Framework, base: UrlView, html: Seq<char>, options: CrawlOptionsView)
    ensures
        forall|k: int|
            0 <= k < links_of(f, base, html, options).len() ==> page_in_scope(
                #[trigger] links_of(f, base, html, options)[k],
                base,
                options,
            ),
{
    lemma_discovered_in_scope(PageOrder::VitePressPriority, base, html, options, nav_selectors_of(f));
}

/// No asset is discovered as a page: every link an extractor discovers
/// stands for a link target whose path does not end with `.png`, `.jpg`,
/// `.jpeg`, `.gif`, `.svg`, `.pdf` or `.zip`.
pub proof fn lemma_no_asset_links(f: Framework, base: UrlView, html: Seq<char>, options: CrawlOptionsView)
    ensures
        forall|k: int|
            0 <= k < links_of(f, base, html, options).len() ==> non_asset_page(
                #[trigger] links_of(f, base, html, options)[k],
                base,
                options,
            ),
{
    lemma_links_in_scope(f, base, html, options);
    assert forall|k: int| 0 <= k < links_of(f, base, html, options).len() implies non_asset_page(
        #[trigger] links_of(f, base, html, options)[k],
        base,
        options,
    ) by {
        lemma_in_scope_not_asset(links_of(f, base, html, options)[k], base, options);
    }
}

/// Only Nextra asks for a browser rendering of weak static extractions.
pub open spec fn needs_browser_of(f: Framework, e: ExtractionView) -> bool {
    f == Framework::Nextra && nextra_needs_browser(e.markdown, e.source_format)
}

// ---------------------------------------------------------------- executable dispatch

pub fn framework_name(f: Framework) -> (r: &'static str)
    ensures
        r@ == extractor_name_of(f),
{
    match f {
        Framework::GitBookModern => "GitBookModern",
        Framework::GitBookClassic => "GitBookClassic",
        Framework::Docusaurus => "Docusaurus",
        Framework::MkDocsMaterial => "MkDocsMaterial",
        Framework::VitePress => "VitePress",
        Framework::Nextra => "Nextra",
        Framework::GenericDocsFallback => "GenericDocsFallback",
    }
}

pub fn framework_detect(f: Framework, response: &FetchResult) -> (r: Option<Vec<String>>)
    ensures
        signals_view(r) == detect_of(f, response@),
{
    match f {
        Framework::GitBookModern => gitbook::detect_modern(response),
        Framework::GitBookClassic => gitbook::detect_classic(response),
        Framework::Docusaurus => docusaurus::detect(response),
        Framework::MkDocsMaterial => mkdocs::detect(response),
        Framework::VitePress => vitepress::detect(response),
        Framework::Nextra => nextra::detect(response),
        Framework::GenericDocsFallback => Some(generic::detect()),
    }
}

pub fn framework_supports_markdown(f: Framework) -> (r: bool)
    ensures
        r == supports_markdown_of(f),
{
    f == Framework::GitBookModern || f == Framework::GitBookClassic
}

pub fn framework_fallback_recommended(f: Framework) -> (r: bool)
    ensures
        r == fallback_recommended_of(f),
{
    f == Framework::GitBookModern || f == Framework::GenericDocsFallback || f == Framework::Nextra
        || f == Framework::VitePress
}

pub fn framework_nav_selectors(f: Framework) -> (r: Vec<&'static str>)
    ensures
        str_views(r@) == nav_selectors_of(f),
{
    let r = match f {
        Framework::Docusaurus => vec![
            "nav[aria-label='Docs sidebar'] a[href]",
            ".theme-doc-sidebar-menu a[href]",
            "aside nav a[href]",
            "nav a[href]",
            "main a[href]",
            "a[href]",
        ],
        Framework::MkDocsMaterial => vec![
            ".md-nav a[href]",
            ".md-sidebar a[href]",
            "nav a[href]",
            "main a[href]",
            "a[href]",
        ],
        Framework::VitePress => vec![
            ".VPSidebar a[href]",
            ".VPNav a[href]",
            "aside a[href]",
            "nav a[href]",
            "main a[href]",
            "a[href]",
        ],
        Framework::Nextra => vec![
            "[data-nextra-sidebar] a[href]",
            ".nextra-sidebar-container a[href]",
            "aside a[href]",
            "nav a[href]",
            "main a[href]",
            "a[href]",
        ],
        _ => {
            return default_nav_selectors();
        },
    };
    assert(str_views(r@) =~= nav_selectors_of(f));
    r
}

pub fn framework_content_selectors(f: Framework) -> (r: Vec<&'static str>)
    ensures
        str_views(r@) == content_selectors_of(f),
{
    let r = match f {
        Framework::Docusaurus => vec![
            "main article",
            ".theme-doc-markdown",
            "article",
            "main",
            "body",
        ],
        Framework::MkDocsMaterial => vec![
            ".md-content article",
            ".md-content",
            "article",
            "main",
            "body",
        ],
        Framework::VitePress => vec![".VPDoc .content", ".vp-doc", "main", "body"],
        Framework::Nextra => vec!["main article", ".nextra-content", "article", "main", "body"],
        _ => {
            return default_content_selectors();
        },
    };
    assert(str_views(r@) =~= content_selectors_of(f));
    r
}

pub fn framework_markdown_url(f: Framework, page_url: &UrlParts) -> (r: Option<String>)
    ensures
        opt_chars(r) == markdown_url_of(f, page_url@),
{
    match f {
        Framework::GitBookModern => Some(gitbook::markdown_url(page_url, "/.md")),
        Framework::GitBookClassic => Some(gitbook::markdown_url(page_url, "/README.md")),
        _ => None,
    }
}

pub fn framework_discover_links(f: Framework, base_url: &UrlParts, html: &str, options: &CrawlOptions) -> (r:
    Vec<PageRef>)
    ensures
        page_views(r@) == links_of(f, base_url@, html@, options@),
{
    let sels = framework_nav_selectors(f);
    let found = discover_nav_links(base_url, html, options, sels.as_slice());
    if f == Framework::VitePress {
        sort_pages_in(found, PageOrder::VitePressPriority)
    } else {
        found
    }
}

pub fn framework_extract(f: Framework, page: &PageRef, response: &FetchResult) -> (r: Option<
    ExtractionResult,
>)
    ensures
        opt_extraction_view(r) == extraction_of(f, page@, response@),
{
    let is_markdown = match &response.content_type {
        Some(c) => str_contains(c.as_str(), "markdown"),
        None => str_contains("", "markdown"),
    } || {
        let b = to_chars(response.body.as_str());
        let t = trim_start_chars(b.as_slice());
        starts_with_str(t.as_slice(), "#") || starts_with_str(t.as_slice(), "---")
    };
    proof {
        assert(""@ =~= Seq::<char>::empty()) by {
            reveal_strlit("");
        }
    }
    if is_markdown {
        Some(
            ExtractionResult {
                markdown: normalize_markdown(response.body.as_str(), &f),
                title: clone_opt_string(&page.title),
                source_format: SourceFormat::Markdown,
            },
        )
    } else {
        let sels = framework_content_selectors(f);
        if !can_convert_html(response.body.as_str(), sels.as_slice()) {
            return None;
        }
        let title = match extract_title_from_html(response.body.as_str()) {
            Some(t) => Some(t),
            None => clone_opt_string(&page.title),
        };
        Some(
            ExtractionResult {
                markdown: html_to_markdown_with_selectors(response.body.as_str(), &f, sels.as_slice()),
                title,
                source_format: SourceFormat::Html,
            },
        )
    }
}

/// Extracts a page with a framework's extractor: the extraction, or the
/// error naming the page when its HTML cannot be converted.
pub fn extract_with(f: Framework, page: &PageRef, response: &FetchResult) -> (r: Result<
    ExtractionResult,
    DocsiteError,
>)
    ensures
        match r {
            Ok(e) => extraction_of(f, page@, response@) == Some(e@),
            Err(err) => extraction_of(f, page@, response@) is None && err@
                == DocsiteErrorView::Unconvertible(page@.url),
        },
{
    match framework_extract(f, page, response) {
        Some(e) => Ok(e),
        None => Err(DocsiteError::Unconvertible(page.url.clone())),
    }
}

pub fn framework_needs_browser(f: Framework, extraction: &ExtractionResult) -> (r: bool)
    ensures
        r == needs_browser_of(f, extraction@),
{
    f == Framework::Nextra && nextra::needs_browser(
        extraction.markdown.as_str(),
        extraction.source_format,
    )
}

// ---------------------------------------------------------------- the extractor interface

/// A documentation-framework extractor. Each extractor is identified by the
/// framework it handles, and behaves as that framework's rules say.
pub trait Extractor {
    spec fn kind(&self) -> Framework;

    fn framework(&self) -> (r: Framework)
        ensures
            r == self.kind(),
    ;

    fn name(&self) -> (r: &'static str)
        ensures
            r@ == extractor_name_of(self.kind()),
    ;

    fn detect(&self, response: &FetchResult) -> (r: Option<Vec<String>>)
        ensures
            signals_view(r) == detect_of(self.kind(), response@),
    ;

    fn supports_markdown_endpoints(&self) -> (r: bool)
        ensures
            r == supports_markdown_of(self.kind()),
    ;

    fn browser_fallback_recommended(&self) -> (r: bool)
        ensures
            r == fallback_recommended_of(self.kind()),
    ;

    fn nav_selectors(&self) -> (r: Vec<&'static str>)
        ensures
            str_views(r@) == nav_selectors_of(self.kind()),
    ;

    fn content_selectors(&self) -> (r: Vec<&'static str>)
        ensures
            str_views(r@) == content_selectors_of(self.kind()),
    ;

    fn discover_links(&self, base_url: &UrlParts, html: &str, options: &CrawlOptions) -> (r: Vec<
        PageRef,
    >)
        ensures
            page_views(r@) == links_of(self.kind(), base_url@, html@, options@),
    ;

    fn preferred_markdown_url(&self, page_url: &UrlParts) -> (r: Option<String>)
        ensures
            opt_chars(r) == markdown_url_of(self.kind(), page_url@),
    ;

    fn extract(&self, page: &PageRef, response: &FetchResult) -> (r: Result<ExtractionResult, DocsiteError>)
        ensures
            match r {
                Ok(e) => extraction_of(self.kind(), page@, response@) == Some(e@),
                Err(err) => extraction_of(self.kind(), page@, response@) is None && err@
                    == DocsiteErrorView::Unconvertible(page@.url),
            },
    ;

    fn should_fallback_to_browser(&self, extraction: &ExtractionResult) -> (r: bool)
        ensures
            r == needs_browser_of(self.kind(), extraction@),
    ;
}

/// A framework value stands for its extractor.
impl Extractor for Framework {
    open spec fn kind(&self) -> Framework {
        *self
    }

    fn framework(&self) -> (r: Framework) {
        *self
    }

    fn name(&self) -> (r: &'static str) {
        framework_name(*self)
    }

    fn detect(&self, response: &FetchResult) -> (r: Option<Vec<String>>) {
        framework_detect(*self, response)
    }

    fn supports_markdown_endpoints(&self) -> (r: bool) {
        framework_supports_markdown(*self)
    }

    fn browser_fallback_recommended(&self) -> (r: bool) {
        framework_fallback_recommended(*self)
    }

    fn nav_selectors(&self) -> (r: Vec<&'static str>) {
        framework_nav_selectors(*self)
    }

    fn content_selectors(&self) -> (r: Vec<&'static str>) {
        framework_content_selectors(*self)
    }

    fn discover_links(&self, base_url: &UrlParts, html: &str, options: &CrawlOptions) -> (r: Vec<
        PageRef,
    >) {
        framework_discover_links(*self, base_url, html, options)
    }

    fn preferred_markdown_url(&self, page_url: &UrlParts) -> (r: Option<String>) {
        framework_markdown_url(*self, page_url)
    }

    fn extract(&self, page: &PageRef, response: &FetchResult) -> (r: Result<ExtractionResult, DocsiteError>)
        ensures
            match r {
                Ok(e) => extraction_of(*self, page@, response@) == Some(e@),
                Err(err) => extraction_of(*self, page@, response@) is None && err@
                    == DocsiteErrorView::Unconvertible(page@.url),
            },
    {
        extract_with(*self, page, response)
    }

    fn should_fallback_to_browser(&self, extraction: &ExtractionResult) -> (r: bool) {
        framework_needs_browser(*self, extraction)
    }
}

/// The GitBookModern extractor.
impl Extractor for GitBookModern {
    open spec fn kind(&self) -> Framework {
        Framework::GitBookModern
    }

    fn framework(&self) -> (r: Framework) {
        Framework::GitBookModern
    }

    fn name(&self) -> (r: &'static str) {
        framework_name(Framework::GitBookModern)
    }

    fn detect(&self, response: &FetchResult) -> (r: Option<Vec<String>>) {
        framework_detect(Framework::GitBookModern, response)
    }

    fn supports_markdown_endpoints(&self) -> (r: bool) {
        framework_supports_markdown(Framework::GitBookModern)
    }

    fn browser_fallback_recommended(&self) -> (r: bool) {
        framework_fallback_recommended(Framework::GitBookModern)
    }

    fn nav_selectors(&self) -> (r: Vec<&'static str>) {
        framework_nav_selectors(Framework::GitBookModern)
    }

    fn content_selectors(&self) -> (r: Vec<&'static str>) {
        framework_content_selectors(Framework::GitBookModern)
    }

    fn discover_links(&self, base_url: &UrlParts, html: &str, options: &CrawlOptions) -> (r: Vec<
        PageRef,
    >) {
        framework_discover_links(Framework::GitBookModern, base_url, html, options)
    }

    fn preferred_markdown_url(&self, page_url: &UrlParts) -> (r: Option<String>) {
        framework_markdown_url(Framework::GitBookModern, page_url)
    }

    fn extract(&self, page: &PageRef, response: &FetchResult) -> (r: Result<ExtractionResult, DocsiteError>)
        ensures
            match r {
                Ok(e) => extraction_of(Framework::GitBookModern, page@, response@) == Some(e@),
                Err(err) => extraction_of(Framework::GitBookModern, page@, response@) is None && err@
                    == DocsiteErrorView::Unconvertible(page@.url),
            },
    {
        extract_with(Framework::GitBookModern, page, response)
    }

    fn should_fallback_to_browser(&self, extraction: &ExtractionResult) -> (r: bool) {
        framework_needs_browser(Framework::GitBookModern, extraction)
    }
}

/// The GitBookClassic extractor.
impl Extractor for GitBookClassic {
    open spec fn kind(&self) -> Framework {
        Framework::GitBookClassic
    }

    fn framework(&self) -> (r: Framework) {
        Framework::GitBookClassic
    }

    fn name(&self) -> (r: &'static str) {
        framework_name(Framework::GitBookClassic)
    }

    fn detect(&self, response: &FetchResult) -> (r: Option<Vec<String>>) {
        framework_detect(Framework::GitBookClassic, response)
    }

    fn supports_markdown_endpoints(&self) -> (r: bool) {
        framework_supports_markdown(Framework::GitBookClassic)
    }

    fn browser_fallback_recommended(&self) -> (r: bool) {
        framework_fallback_recommended(Framework::GitBookClassic)
    }

    fn nav_selectors(&self) -> (r: Vec<&'static str>) {
        framework_nav_selectors(Framework::GitBookClassic)
    }

    fn content_selectors(&self) -> (r: Vec<&'static str>) {
        framework_content_selectors(Framework::GitBookClassic)
    }

    fn discover_links(&self, base_url: &UrlParts, html: &str, options: &CrawlOptions) -> (r: Vec<
        PageRef,
    >) {
        framework_discover_links(Framework::GitBookClassic, base_url, html, options)
    }

    fn preferred_markdown_url(&self, page_url: &UrlParts) -> (r: Option<String>) {
        framework_markdown_url(Framework::GitBookClassic, page_url)
    }

    fn extract(&self, page: &PageRef, response: &FetchResult) -> (r: Result<ExtractionResult, DocsiteError>)
        ensures
            match r {
                Ok(e) => extraction_of(Framework::GitBookClassic, page@, response@) == Some(e@),
                Err(err) => extraction_of(Framework::GitBookClassic, page@, response@) is None && err@
                    == DocsiteErrorView::Unconvertible(page@.url),
            },
    {
        extract_with(Framework::GitBookClassic, page, response)
    }

    fn should_fallback_to_browser(&self, extraction: &ExtractionResult) -> (r: bool) {
        framework_needs_browser(Framework::GitBookClassic, extraction)
    }
}

/// The Docusaurus extractor.
impl Extractor for Docusaurus {
    open spec fn kind(&self) -> Framework {
        Framework::Docusaurus
    }

    fn framework(&self) -> (r: Framework) {
        Framework::Docusaurus
    }

    fn name(&self) -> (r: &'static str) {
        framework_name(Framework::Docusaurus)
    }

    fn detect(&self, response: &FetchResult) -> (r: Option<Vec<String>>) {
        framework_detect(Framework::Docusaurus, response)
    }

    fn supports_markdown_endpoints(&self) -> (r: bool) {
        framework_supports_markdown(Framework::Docusaurus)
    }

    fn browser_fallback_recommended(&self) -> (r: bool) {
        framework_fallback_recommended(Framework::Docusaurus)
    }

    fn nav_selectors(&self) -> (r: Vec<&'static str>) {
        framework_nav_selectors(Framework::Docusaurus)
    }

    fn content_selectors(&self) -> (r: Vec<&'static str>) {
        framework_content_selectors(Framework::Docusaurus)
    }

    fn discover_links(&self, base_url: &UrlParts, html: &str, options: &CrawlOptions) -> (r: Vec<
        PageRef,
    >) {
        framework_discover_links(Framework::Docusaurus, base_url, html, options)
    }

    fn preferred_markdown_url(&self, page_url: &UrlParts) -> (r: Option<String>) {
        framework_markdown_url(Framework::Docusaurus, page_url)
    }

    fn extract(&self, page: &PageRef, response: &FetchResult) -> (r: Result<ExtractionResult, DocsiteError>)
        ensures
            match r {
                Ok(e) => extraction_of(Framework::Docusaurus, page@, response@) == Some(e@),
                Err(err) => extraction_of(Framework::Docusaurus, page@, response@) is None && err@
                    == DocsiteErrorView::Unconvertible(page@.url),
            },
    {
        extract_with(Framework::Docusaurus, page, response)
    }

    fn should_fallback_to_browser(&self, extraction: &ExtractionResult) -> (r: bool) {
        framework_needs_browser(Framework::Docusaurus, extraction)
    }
}

/// The MkDocsMaterial extractor.
impl Extractor for MkDocsMaterial {
    open spec fn kind(&self) -> Framework {
        Framework::MkDocsMaterial
    }

    fn framework(&self) -> (r: Framework) {
        Framework::MkDocsMaterial
    }

    fn name(&self) -> (r: &'static str) {
        framework_name(Framework::MkDocsMaterial)
    }

    fn detect(&self, response: &FetchResult) -> (r: Option<Vec<String>>) {
        framework_detect(Framework::MkDocsMaterial, response)
    }

    fn supports_markdown_endpoints(&self) -> (r: bool) {
        framework_supports_markdown(Framework::MkDocsMaterial)
    }

    fn browser_fallback_recommended(&self) -> (r: bool) {
        framework_fallback_recommended(Framework::MkDocsMaterial)
    }

    fn nav_selectors(&self) -> (r: Vec<&'static str>) {
        framework_nav_selectors(Framework::MkDocsMaterial)
    }

    fn content_selectors(&self) -> (r: Vec<&'static str>) {
        framework_content_selectors(Framework::MkDocsMaterial)
    }

    fn discover_links(&self, base_url: &UrlParts, html: &str, options: &CrawlOptions) -> (r: Vec<
        PageRef,
    >) {
        framework_discover_links(Framework::MkDocsMaterial, base_url, html, options)
    }

    fn preferred_markdown_url(&self, page_url: &UrlParts) -> (r: Option<String>) {
        framework_markdown_url(Framework::MkDocsMaterial, page_url)
    }

    fn extract(&self, page: &PageRef, response: &FetchResult) -> (r: Result<ExtractionResult, DocsiteError>)
        ensures
            match r {
                Ok(e) => extraction_of(Framework::MkDocsMaterial, page@, response@) == Some(e@),
                Err(err) => extraction_of(Framework::MkDocsMaterial, page@, response@) is None && err@
                    == DocsiteErrorView::Unconvertible(page@.url),
            },
    {
        extract_with(Framework::MkDocsMaterial, page, response)
    }

    fn should_fallback_to_browser(&self, extraction: &ExtractionResult) -> (r: bool) {
        framework_needs_browser(Framework::MkDocsMaterial, extraction)
    }
}

/// The VitePress extractor.
impl Extractor for VitePress {
    open spec fn kind(&self) -> Framework {
        Framework::VitePress
    }

    fn framework(&self) -> (r: Framework) {
        Framework::VitePress
    }

    fn name(&self) -> (r: &'static str) {
        framework_name(Framework::VitePress)
    }

    fn detect(&self, response: &FetchResult) -> (r: Option<Vec<String>>) {
        framework_detect(Framework::VitePress, response)
    }

    fn supports_markdown_endpoints(&self) -> (r: bool) {
        framework_supports_markdown(Framework::VitePress)
    }

    fn browser_fallback_recommended(&self) -> (r: bool) {
        framework_fallback_recommended(Framework::VitePress)
    }

    fn nav_selectors(&self) -> (r: Vec<&'static str>) {
        framework_nav_selectors(Framework::VitePress)
    }

    fn content_selectors(&self) -> (r: Vec<&'static str>) {
        framework_content_selectors(Framework::VitePress)
    }

    fn discover_links(&self, base_url: &UrlParts, html: &str, options: &CrawlOptions) -> (r: Vec<
        PageRef,
    >) {
        framework_discover_links(Framework::VitePress, base_url, html, options)
    }

    fn preferred_markdown_url(&self, page_url: &UrlParts) -> (r: Option<String>) {
        framework_markdown_url(Framework::VitePress, page_url)
    }

    fn extract(&self, page: &PageRef, response: &FetchResult) -> (r: Result<ExtractionResult, DocsiteError>)
        ensures
            match r {
                Ok(e) => extraction_of(Framework::VitePress, page@, response@) == Some(e@),
                Err(err) => extraction_of(Framework::VitePress, page@, response@) is None && err@
                    == DocsiteErrorView::Unconvertible(page@.url),
            },
    {
        extract_with(Framework::VitePress, page, response)
    }

    fn should_fallback_to_browser(&self, extraction: &ExtractionResult) -> (r: bool) {
        framework_needs_browser(Framework::VitePress, extraction)
    }
}

/// The Nextra extractor.
impl Extractor for Nextra {
    open spec fn kind(&self) -> Framework {
        Framework::Nextra
    }

    fn framework(&self) -> (r: Framework) {
        Framework::Nextra
    }

    fn name(&self) -> (r: &'static str) {
        framework_name(Framework::Nextra)
    }

    fn detect(&self, response: &FetchResult) -> (r: Option<Vec<String>>) {
        framework_detect(Framework::Nextra, response)
    }

    fn supports_markdown_endpoints(&self) -> (r: bool) {
        framework_supports_markdown(Framework::Nextra)
    }

    fn browser_fallback_recommended(&self) -> (r: bool) {
        framework_fallback_recommended(Framework::Nextra)
    }

    fn nav_selectors(&self) -> (r: Vec<&'static str>) {
        framework_nav_selectors(Framework::Nextra)
    }

    fn content_selectors(&self) -> (r: Vec<&'static str>) {
        framework_content_selectors(Framework::Nextra)
    }

    fn discover_links(&self, base_url: &UrlParts, html: &str, options: &CrawlOptions) -> (r: Vec<
        PageRef,
    >) {
        framework_discover_links(Framework::Nextra, base_url, html, options)
    }

    fn preferred_markdown_url(&self, page_url: &UrlParts) -> (r: Option<String>) {
        framework_markdown_url(Framework::Nextra, page_url)
    }

    fn extract(&self, page: &PageRef, response: &FetchResult) -> (r: Result<ExtractionResult, DocsiteError>)
        ensures
            match r {
                Ok(e) => extraction_of(Framework::Nextra, page@, response@) == Some(e@),
                Err(err) => extraction_of(Framework::Nextra, page@, response@) is None && err@
                    == DocsiteErrorView::Unconvertible(page@.url),
            },
    {
        extract_with(Framework::Nextra, page, response)
    }

    fn should_fallback_to_browser(&self, extraction: &ExtractionResult) -> (r: bool) {
        framework_needs_browser(Framework::Nextra, extraction)
    }
}

/// The GenericDocsFallback extractor.
impl Extractor for GenericDocsFallback {
    open spec fn kind(&self) -> Framework {
        Framework::GenericDocsFallback
    }

    fn framework(&self) -> (r: Framework) {
        Framework::GenericDocsFallback
    }

    fn name(&self) -> (r: &'static str) {
        framework_name(Framework::GenericDocsFallback)
    }

    fn detect(&self, response: &FetchResult) -> (r: Option<Vec<String>>) {
        framework_detect(Framework::GenericDocsFallback, response)
    }

    fn supports_markdown_endpoints(&self) -> (r: bool) {
        framework_supports_markdown(Framework::GenericDocsFallback)
    }

    fn browser_fallback_recommended(&self) -> (r: bool) {
        framework_fallback_recommended(Framework::GenericDocsFallback)
    }

    fn nav_selectors(&self) -> (r: Vec<&'static str>) {
        framework_nav_selectors(Framework::GenericDocsFallback)
    }

    fn content_selectors(&self) -> (r: Vec<&'static str>) {
        framework_content_selectors(Framework::GenericDocsFallback)
    }

    fn discover_links(&self, base_url: &UrlParts, html: &str, options: &CrawlOptions) -> (r: Vec<
        PageRef,
    >) {
        framework_discover_links(Framework::GenericDocsFallback, base_url, html, options)
    }

    fn preferred_markdown_url(&self, page_url: &UrlParts) -> (r: Option<String>) {
        framework_markdown_url(Framework::GenericDocsFallback, page_url)
    }

    fn extract(&self, page: &PageRef, response: &FetchResult) -> (r: Result<ExtractionResult, DocsiteError>)
        ensures
            match r {
                Ok(e) => extraction_of(Framework::GenericDocsFallback, page@, response@) == Some(e@),
                Err(err) => extraction_of(Framework::GenericDocsFallback, page@, response@) is None && err@
                    == DocsiteErrorView::Unconvertible(page@.url),
            },
    {
        extract_with(Framework::GenericDocsFallback, page, response)
    }

    fn should_fallback_to_browser(&self, extraction: &ExtractionResult) -> (r: bool) {
        framework_needs_browser(Framework::GenericDocsFallback, extraction)
    }
}

// ---------------------------------------------------------------- detection

/// The extractors in the order detection tries them.
pub open spec fn extractor_order() -> Seq<Framework> {
    seq![
        Framework::GitBookModern,
        Framework::GitBookClassic,
        Framework::Docusaurus,
        Framework::MkDocsMaterial,
        Framework::VitePress,
        Framework::Nextra,
        Framework::GenericDocsFallback,
    ]
}

pub fn default_extractors() -> (r: Vec<Framework>)
    ensures
        r@ == extractor_order(),
{
    let r = vec![
        Framework::GitBookModern,
        Framework::GitBookClassic,
        Framework::Docusaurus,
        Framework::MkDocsMaterial,
        Framework::VitePress,
        Framework::Nextra,
        Framework::GenericDocsFallback,
    ];
    assert(r@ =~= extractor_order());
    r
}

/// The first extractor (in order, from index `i`) that recognises the response.
pub open spec fn first_detection_from(r: FetchResultView, i: int) -> Option<(Framework, Seq<Seq<char>>)>
    decreases 7 - i,
{
    if i < 0 || i >= 7 {
        None
    } else {
        match detect_of(extractor_order()[i], r) {
            Some(signals) => Some((extractor_order()[i], signals)),
            None => first_detection_from(r, i + 1),
        }
    }
}

/// The profile recorded for a site detected as `f` with these signals.
pub open spec fn profile_of(r: FetchResultView, f: Framework, signals: Seq<Seq<char>>) -> SiteProfileView {
    SiteProfileView {
        url: r.final_url,
        framework: f,
        extractor: extractor_name_of(f),
        supports_markdown_endpoints: supports_markdown_of(f),
        browser_fallback_recommended: fallback_recommended_of(f),
        detection_signals: signals,
    }
}

/// The first extractor that recognises the response, with the site's profile.
pub open spec fn detection(r: FetchResultView) -> Option<(Framework, SiteProfileView)> {
    match first_detection_from(r, 0) {
        Some((f, signals)) => Some((f, profile_of(r, f, signals))),
        None => None,
    }
}

pub fn detect_extractor(response: &FetchResult) -> (r: Option<(Framework, SiteProfile)>)
    ensures
        match r {
            Some((f, p)) => detection(response@) == Some((f, p@)),
            None => detection(response@) is None,
        },
{
    let order = default_extractors();
    let mut i: usize = 0;
    while i < order.len()
        invariant
            0 <= i <= 7,
            order@ == extractor_order(),
            first_detection_from(response@, 0) == first_detection_from(response@, i as int),
        decreases 7 - i,
    {
        let f = order[i];
        match framework_detect(f, response) {
            Some(signals) => {
                let profile = SiteProfile {
                    url: response.final_url.clone(),
                    framework: f,
                    extractor: framework_name(f).to_owned(),
                    supports_markdown_endpoints: framework_supports_markdown(f),
                    browser_fallback_recommended: framework_fallback_recommended(f),
                    detection_signals: signals,
                };
                return Some((f, profile));
            },
            None => {},
        }
        i = i + 1;
    }
    None
}

/// The profile of the site whose URL `url` gave this response: what the first
/// extractor that recognises it records. Fails with detection failure for
/// `url` when none does (never, as the generic fallback recognises every page).
pub fn detect_site(url: &str, response: &FetchResult) -> (r: Result<SiteProfile, DocsiteError>)
    ensures
        match r {
            Ok(p) => detection(response@) matches Some((_, q)) && p@ == q,
            Err(e) => detection(response@) is None && e@ == DocsiteErrorView::DetectionFailed(url@),
        },
        r is Ok,
{
    proof {
        lemma_detection_total(response@);
    }
    match detect_extractor(response) {
        Some((_, profile)) => Ok(profile),
        None => Err(DocsiteError::DetectionFailed(url.to_string())),
    }
}

/// The generic fallback recognises every response, so detection always succeeds.
pub proof fn lemma_detection_total(r: FetchResultView)
    ensures
        detection(r) is Some,
{
    lemma_first_detection_some(r, 0);
}

proof fn lemma_first_detection_some(r: FetchResultView, i: int)
    requires
        0 <= i <= 6,
    ensures
        first_detection_from(r, i) is Some,
    decreases 6 - i,
{
    if i < 6 && detect_of(extractor_order()[i], r) is None {
        lemma_first_detection_some(r, i + 1);
    }
}

} // verus!
