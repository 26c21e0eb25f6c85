//! The library's data: frameworks, site profiles, page references, options,
//! manifests and export records, each with a mathematical view.
use vstd::prelude::*;

verus! {

/// Documentation frameworks that an extractor can recognise.
#[derive(Clone, Copy, Debug, PartialEq, Eq, Structural)]
pub enum Framework {
    GitBookModern,
    GitBookClassic,
    Docusaurus,
    MkDocsMaterial,
    VitePress,
    Nextra,
    GenericDocsFallback,
}

/// Where a page's Markdown came from.
#[derive(Clone, Copy, Debug, PartialEq, Eq, Structural)]
pub enum SourceFormat {
    Markdown,
    Html,
    BrowserHtml,
}

pub open spec fn opt_view(o: Option<String>) -> Option<Seq<char>> {
    match o {
        Some(s) => Some(s@),
        None => None,
    }
}

pub fn clone_opt_string(o: &Option<String>) -> (r: Option<String>)
    ensures
        opt_view(r) == opt_view(*o),
{
    match o {
        Some(s) => Some(s.clone()),
        None => None,
    }
}

pub fn clone_strings(v: &Vec<String>) -> (r: Vec<String>)
    ensures
        r.deep_view() == v.deep_view(),
{
    let mut r: Vec<String> = Vec::new();
    let mut i: usize = 0;
    while i < v.len()
        invariant
            0 <= i <= v@.len(),
            r.deep_view() == v.deep_view().take(i as int),
        decreases v@.len() - i,
    {
        let c = v[i].clone();
        let ghost before = r.deep_view();
        r.push(c);
        assert(r.deep_view() =~= before.push(c@));
        assert(r.deep_view() =~= v.deep_view().take(i + 1));
        i = i + 1;
    }
    assert(v.deep_view().take(v@.len() as int) =~= v.deep_view());
    r
}

/// The response to one HTTP request: where it ended up, its content type and body.
#[derive(Debug)]
pub struct FetchResult {
    pub final_url: String,
    pub content_type: Option<String>,
    pub body: String,
}

pub struct FetchResultView {
    pub final_url: Seq<char>,
    pub content_type: Option<Seq<char>>,
    pub body: Seq<char>,
}

impl View for FetchResult {
    type V = FetchResultView;

    open spec fn view(&self) -> FetchResultView {
        FetchResultView {
            final_url: self.final_url@,
            content_type: opt_view(self.content_type),
            body: self.body@,
        }
    }
}

impl Clone for FetchResult {
    fn clone(&self) -> (r: Self)
        ensures
            r@ == self@,
    {
        FetchResult {
            final_url: self.final_url.clone(),
            content_type: clone_opt_string(&self.content_type),
            body: self.body.clone(),
        }
    }
}

/// What detection found out about a site.
#[derive(Debug)]
pub struct SiteProfile {
    pub url: String,
    pub framework: Framework,
    pub extractor: String,
    pub supports_markdown_endpoints: bool,
    pub browser_fallback_recommended: bool,
    pub detection_signals: Vec<String>,
}

pub struct SiteProfileView {
    pub url: Seq<char>,
    pub framework: Framework,
    pub extractor: Seq<char>,
    pub supports_markdown_endpoints: bool,
    pub browser_fallback_recommended: bool,
    pub detection_signals: Seq<Seq<char>>,
}

impl View for SiteProfile {
    type V = SiteProfileView;

    open spec fn view(&self) -> SiteProfileView {
        SiteProfileView {
            url: self.url@,
            framework: self.framework,
            extractor: self.extractor@,
            supports_markdown_endpoints: self.supports_markdown_endpoints,
            browser_fallback_recommended: self.browser_fallback_recommended,
            detection_signals: self.detection_signals.deep_view(),
        }
    }
}

impl Clone for SiteProfile {
    fn clone(&self) -> (r: Self)
        ensures
            r@ == self@,
    {
        SiteProfile {
            url: self.url.clone(),
            framework: self.framework,
            extractor: self.extractor.clone(),
            supports_markdown_endpoints: self.supports_markdown_endpoints,
            browser_fallback_recommended: self.browser_fallback_recommended,
            detection_signals: clone_strings(&self.detection_signals),
        }
    }
}

/// One discovered page.
#[derive(Debug)]
pub struct PageRef {
    pub url: String,
    pub normalized_url: String,
    pub title: Option<String>,
    pub depth: usize,
    pub parent_url: Option<String>,
    pub markdown_url: Option<String>,
}

pub struct PageRefView {
    pub url: Seq<char>,
    pub normalized_url: Seq<char>,
    pub title: Option<Seq<char>>,
    pub depth: usize,
    pub parent_url: Option<Seq<char>>,
    pub markdown_url: Option<Seq<char>>,
}

impl View for PageRef {
    type V = PageRefView;

    open spec fn view(&self) -> PageRefView {
        PageRefView {
            url: self.url@,
            normalized_url: self.normalized_url@,
            title: opt_view(self.title),
            depth: self.depth,
            parent_url: opt_view(self.parent_url),
            markdown_url: opt_view(self.markdown_url),
        }
    }
}

impl Clone for PageRef {
    fn clone(&self) -> (r: Self)
        ensures
            r@ == self@,
    {
        PageRef {
            url: self.url.clone(),
            normalized_url: self.normalized_url.clone(),
            title: clone_opt_string(&self.title),
            depth: self.depth,
            parent_url: clone_opt_string(&self.parent_url),
            markdown_url: clone_opt_string(&self.markdown_url),
        }
    }
}

/// How a crawl is scoped and paced.
#[derive(Debug)]
pub struct CrawlOptions {
    pub scope_prefix: Option<String>,
    pub excludes: Vec<String>,
    pub retry_attempts: usize,
    pub rate_limit_ms: u64,
    pub max_concurrency: usize,
    pub max_pages: Option<usize>,
}

pub struct CrawlOptionsView {
    pub scope_prefix: Option<Seq<char>>,
    pub excludes: Seq<Seq<char>>,
    pub retry_attempts: usize,
    pub rate_limit_ms: u64,
    pub max_concurrency: usize,
    pub max_pages: Option<usize>,
}

impl View for CrawlOptions {
    type V = CrawlOptionsView;

    open spec fn view(&self) -> CrawlOptionsView {
        CrawlOptionsView {
            scope_prefix: opt_view(self.scope_prefix),
            excludes: self.excludes.deep_view(),
            retry_attempts: self.retry_attempts,
            rate_limit_ms: self.rate_limit_ms,
            max_concurrency: self.max_concurrency,
            max_pages: self.max_pages,
        }
    }
}

impl Clone for CrawlOptions {
    fn clone(&self) -> (r: Self)
        ensures
            r@ == self@,
    {
        CrawlOptions {
            scope_prefix: clone_opt_string(&self.scope_prefix),
            excludes: clone_strings(&self.excludes),
            retry_attempts: self.retry_attempts,
            rate_limit_ms: self.rate_limit_ms,
            max_concurrency: self.max_concurrency,
            max_pages: self.max_pages,
        }
    }
}

impl Default for CrawlOptions {
    fn default() -> (r: Self)
        ensures
            r@.scope_prefix is None,
            r@.excludes.len() == 0,
            r@.retry_attempts == 2,
            r@.rate_limit_ms == 0,
            r@.max_concurrency == 8,
            r@.max_pages is None,
    {
        CrawlOptions {
            scope_prefix: None,
            excludes: Vec::new(),
            retry_attempts: 2,
            rate_limit_ms: 0,
            max_concurrency: 8,
            max_pages: None,
        }
    }
}

/// The pages a crawl found, with the URLs it did not follow.
#[derive(Debug)]
pub struct CrawlManifest {
    pub site: SiteProfile,
    pub generated_at_epoch: u64,
    pub pages: Vec<PageRef>,
    pub skipped_urls: Vec<String>,
}

/// Whether pages that extract poorly are rendered in a browser.
#[derive(Debug)]
pub struct BrowserOptions {
    pub enabled: bool,
    pub webdriver_url: Option<String>,
}

impl Clone for BrowserOptions {
    fn clone(&self) -> (r: Self)
        ensures
            r.enabled == self.enabled,
            opt_view(r.webdriver_url) == opt_view(self.webdriver_url),
    {
        BrowserOptions { enabled: self.enabled, webdriver_url: clone_opt_string(&self.webdriver_url) }
    }
}

impl Default for BrowserOptions {
    fn default() -> (r: Self)
        ensures
            !r.enabled,
            r.webdriver_url is None,
    {
        BrowserOptions { enabled: false, webdriver_url: None }
    }
}

/// Options of a mirror-tree export (paths as text).
#[derive(Debug)]
pub struct ExportOptions {
    pub output_dir: String,
    pub crawl: CrawlOptions,
    pub resume: bool,
    pub bundle_output: Option<String>,
    pub browser: BrowserOptions,
}

/// Options of a single-file bundle (paths as text).
#[derive(Debug)]
pub struct BundleOptions {
    pub crawl: CrawlOptions,
    pub output_file: String,
    pub browser: BrowserOptions,
}

/// One exported page as the manifest records it.
#[derive(Debug)]
pub struct ExportedPage {
    pub page: PageRef,
    pub output_file: String,
    pub title: Option<String>,
    pub source_format: SourceFormat,
    pub used_browser_fallback: bool,
    pub content_hash: Option<String>,
    pub skipped: bool,
    pub duplicate_of: Option<String>,
}

pub struct ExportedPageView {
    pub page: PageRefView,
    pub output_file: Seq<char>,
    pub title: Option<Seq<char>>,
    pub source_format: SourceFormat,
    pub used_browser_fallback: bool,
    pub content_hash: Option<Seq<char>>,
    pub skipped: bool,
    pub duplicate_of: Option<Seq<char>>,
}

impl View for ExportedPage {
    type V = ExportedPageView;

    open spec fn view(&self) -> ExportedPageView {
        ExportedPageView {
            page: self.page@,
            output_file: self.output_file@,
            title: opt_view(self.title),
            source_format: self.source_format,
            used_browser_fallback: self.used_browser_fallback,
            content_hash: opt_view(self.content_hash),
            skipped: self.skipped,
            duplicate_of: opt_view(self.duplicate_of),
        }
    }
}

impl Clone for ExportedPage {
    fn clone(&self) -> (r: Self)
        ensures
            r@ == self@,
    {
        ExportedPage {
            page: self.page.clone(),
            output_file: self.output_file.clone(),
            title: clone_opt_string(&self.title),
            source_format: self.source_format,
            used_browser_fallback: self.used_browser_fallback,
            content_hash: clone_opt_string(&self.content_hash),
            skipped: self.skipped,
            duplicate_of: clone_opt_string(&self.duplicate_of),
        }
    }
}

/// A page that could not be exported, the phase that failed, and why.
#[derive(Debug)]
pub struct PageError {
    pub url: String,
    pub phase: String,
    pub message: String,
}

pub struct PageErrorView {
    pub url: Seq<char>,
    pub phase: Seq<char>,
    pub message: Seq<char>,
}

impl View for PageError {
    type V = PageErrorView;

    open spec fn view(&self) -> PageErrorView {
        PageErrorView { url: self.url@, phase: self.phase@, message: self.message@ }
    }
}

impl Clone for PageError {
    fn clone(&self) -> (r: Self)
        ensures
            r@ == self@,
    {
        PageError {
            url: self.url.clone(),
            phase: self.phase.clone(),
            message: self.message.clone(),
        }
    }
}

/// The outcome of an export (paths as text).
#[derive(Debug)]
pub struct ExportResult {
    pub site: SiteProfile,
    pub output_dir: String,
    pub manifest_path: String,
    pub links_path: String,
    pub bundle_path: Option<String>,
    pub pages: Vec<ExportedPage>,
    pub errors: Vec<PageError>,
}

} // verus!
