//! Exporting one page as a state machine. The caller performs each action
//! (checks a file, fetches a URL, writes a file, renders in a browser) and
//! hands back what happened; the machine decides which URL to try next,
//! extracts the Markdown, and builds the page's record or its error.
use vstd::prelude::*;

use crate::error::{error_message, DocsiteError, DocsiteErrorView};
use crate::export::{
    outcome_url, content_hash, content_hash_spec, find_extractor_for_site, framework_named_from,
    output_file_for_page, output_file_spec, preferred_targets, target_views, targets_spec,
};
use crate::extractors::{extraction_of, framework_extract, framework_needs_browser, needs_browser_of};
use crate::normalize::{
    can_convert_html, default_content_selectors, default_content_selectors_spec, html_convertible,
    html_markdown_with, html_to_markdown,
};
use crate::types::{
    clone_opt_string, opt_view, BrowserOptions, ExportedPage, ExportedPageView, FetchResult,
    FetchResultView, PageError, PageErrorView, PageRef, PageRefView, SiteProfile, SiteProfileView,
    SourceFormat,
};
use crate::urls::{parse_url, url_parse};

verus! {

/// Where a page's export stands.
#[derive(Clone, Copy, PartialEq, Eq, Structural)]
pub enum PageStage {
    /// Waiting to hear whether the resumed output file exists.
    Checking,
    /// Waiting for the response to the target with this index.
    Fetching(usize),
    /// Waiting for the Markdown to be written.
    Writing,
    /// Waiting for the browser rendering.
    Rendering,
    Finished,
}

/// What the caller does next.
pub enum PageAction {
    /// Report whether this file (relative to the output directory) exists.
    CheckExisting(String),
    /// Fetch this URL.
    Fetch(String),
    /// Write this Markdown to this file (relative to the output directory),
    /// creating its directories.
    Write { path: String, markdown: String },
    /// Render the page in a browser through this WebDriver endpoint.
    Render { url: String, webdriver_url: Option<String> },
    /// The export of the page is over: its record and Markdown, or its error.
    Done(Result<(ExportedPage, String), PageError>),
}

pub enum PageActionView {
    CheckExisting(Seq<char>),
    Fetch(Seq<char>),
    Write { path: Seq<char>, markdown: Seq<char> },
    Render { url: Seq<char>, webdriver_url: Option<Seq<char>> },
    Done(Result<(ExportedPageView, Seq<char>), PageErrorView>),
}

impl View for PageAction {
    type V = PageActionView;

    open spec fn view(&self) -> PageActionView {
        match self {
            PageAction::CheckExisting(p) => PageActionView::CheckExisting(p@),
            PageAction::Fetch(u) => PageActionView::Fetch(u@),
            PageAction::Write { path, markdown } => PageActionView::Write {
                path: path@,
                markdown: markdown@,
            },
            PageAction::Render { url, webdriver_url } => PageActionView::Render {
                url: url@,
                webdriver_url: opt_view(*webdriver_url),
            },
            PageAction::Done(Ok((e, m))) => PageActionView::Done(Ok((e@, m@))),
            PageAction::Done(Err(e)) => PageActionView::Done(Err(e@)),
        }
    }
}

/// What came of the last action.
pub enum PageEvent {
    /// Whether the file exists.
    Exists(bool),
    /// The response, or the fetch error's message.
    Fetched(Result<FetchResult, String>),
    /// Whether the write succeeded (else its error's message).
    Written(Result<(), String>),
    /// The rendered HTML, or the browser error's message.
    Rendered(Result<String, String>),
}

pub enum PageEventView {
    Exists(bool),
    Fetched(Result<FetchResultView, Seq<char>>),
    Written(Result<(), Seq<char>>),
    Rendered(Result<Seq<char>, Seq<char>>),
}

impl View for PageEvent {
    type V = PageEventView;

    open spec fn view(&self) -> PageEventView {
        match self {
            PageEvent::Exists(b) => PageEventView::Exists(*b),
            PageEvent::Fetched(Ok(r)) => PageEventView::Fetched(Ok(r@)),
            PageEvent::Fetched(Err(m)) => PageEventView::Fetched(Err(m@)),
            PageEvent::Written(Ok(())) => PageEventView::Written(Ok(())),
            PageEvent::Written(Err(m)) => PageEventView::Written(Err(m@)),
            PageEvent::Rendered(Ok(b)) => PageEventView::Rendered(Ok(b@)),
            PageEvent::Rendered(Err(m)) => PageEventView::Rendered(Err(m@)),
        }
    }
}

/// The export of one page.
pub struct PageExport {
    site: SiteProfile,
    page: PageRef,
    browser: BrowserOptions,
    resume: Option<ExportedPage>,
    stage: PageStage,
    targets: Vec<(String, SourceFormat)>,
    output_file: String,
    last_error: Option<String>,
    pending: Option<(ExportedPage, String)>,
}

pub struct PageExportView {
    pub site: SiteProfileView,
    pub page: PageRefView,
    pub browser_enabled: bool,
    pub webdriver_url: Option<Seq<char>>,
    /// The page's record in the previous manifest, when resuming.
    pub resume: Option<ExportedPageView>,
    pub stage: PageStage,
    /// The URLs to try, with the format each is expected in.
    pub targets: Seq<(Seq<char>, SourceFormat)>,
    /// The page's output file, relative to the output directory.
    pub output_file: Seq<char>,
    pub last_error: Option<Seq<char>>,
    /// The record and Markdown waiting for their write.
    pub pending: Option<(ExportedPageView, Seq<char>)>,
}

pub open spec fn opt_exported_view(o: Option<ExportedPage>) -> Option<ExportedPageView> {
    match o {
        Some(e) => Some(e@),
        None => None,
    }
}

pub open spec fn opt_pending_view(o: Option<(ExportedPage, String)>) -> Option<
    (ExportedPageView, Seq<char>),
> {
    match o {
        Some((e, m)) => Some((e@, m@)),
        None => None,
    }
}

impl View for PageExport {
    type V = PageExportView;

    closed spec fn view(&self) -> PageExportView {
        PageExportView {
            site: self.site@,
            page: self.page@,
            browser_enabled: self.browser.enabled,
            webdriver_url: opt_view(self.browser.webdriver_url),
            resume: opt_exported_view(self.resume),
            stage: self.stage,
            targets: target_views(self.targets@),
            output_file: self.output_file@,
            last_error: opt_view(self.last_error),
            pending: opt_pending_view(self.pending),
        }
    }
}

// ---------------------------------------------------------------- the model

/// Every stage has what it waits with, and only an enabled browser renders.
pub open spec fn page_wf(s: PageExportView) -> bool {
    &&& match s.stage {
        PageStage::Checking => s.resume is Some,
        PageStage::Fetching(i) => i < s.targets.len(),
        PageStage::Writing => s.pending is Some,
        PageStage::Rendering => s.browser_enabled,
        _ => true,
    }
    &&& pending_ok(s)
}

/// A record waiting for its write is the page's own, and says it was rendered
/// only if the browser is enabled.
pub open spec fn pending_ok(s: PageExportView) -> bool {
    &&& (s.pending matches Some((rec, _)) && rec.used_browser_fallback ==> s.browser_enabled)
    &&& (s.pending matches Some((rec, _)) ==> rec.page == s.page)
}

/// The event answers the action the stage waits on.
pub open spec fn event_fits(stage: PageStage, e: PageEventView) -> bool {
    match stage {
        PageStage::Checking => e is Exists,
        PageStage::Fetching(_) => e is Fetched,
        PageStage::Writing => e is Written,
        PageStage::Rendering => e is Rendered,
        PageStage::Finished => false,
    }
}

pub open spec fn page_error(page: PageRefView, phase: Seq<char>, message: Seq<char>) -> PageErrorView {
    PageErrorView { url: page.url, phase, message }
}

pub open spec fn finish_spec(
    s: PageExportView,
    result: Result<(ExportedPageView, Seq<char>), PageErrorView>,
) -> (PageExportView, PageActionView) {
    (PageExportView { stage: PageStage::Finished, ..s }, PageActionView::Done(result))
}

/// Tries the target with index `i`; after the last target, the browser when
/// it is enabled, else the page fails with the last error.
pub open spec fn try_target_spec(s: PageExportView, i: nat) -> (PageExportView, PageActionView) {
    if i < s.targets.len() {
        (
            PageExportView { stage: PageStage::Fetching(i as usize), ..s },
            PageActionView::Fetch(s.targets[i as int].0),
        )
    } else if s.browser_enabled {
        (
            PageExportView { stage: PageStage::Rendering, ..s },
            PageActionView::Render { url: s.page.url, webdriver_url: s.webdriver_url },
        )
    } else {
        finish_spec(
            s,
            Err(
                page_error(
                    s.page,
                    "fetch"@,
                    match s.last_error {
                        Some(m) => m,
                        None => "unknown failure"@,
                    },
                ),
            ),
        )
    }
}

/// The export proper: the page URL is parsed (a failure ends it), the
/// targets and output file follow from it, and the first target is tried.
pub open spec fn begin_spec(s: PageExportView) -> (PageExportView, PageActionView) {
    match url_parse(s.page.url) {
        Err(m) => finish_spec(s, Err(page_error(s.page, "parse"@, m))),
        Ok(u) => try_target_spec(
            PageExportView {
                targets: targets_spec(s.site, s.page, u),
                output_file: output_file_spec(u.path),
                ..s
            },
            0,
        ),
    }
}

/// A page with a record in the previous manifest first checks whether that
/// record's output file still exists; other pages begin at once.
pub open spec fn start_spec(
    site: SiteProfileView,
    page: PageRefView,
    browser_enabled: bool,
    webdriver_url: Option<Seq<char>>,
    resume: Option<ExportedPageView>,
) -> (PageExportView, PageActionView) {
    let s = PageExportView {
        site,
        page,
        browser_enabled,
        webdriver_url,
        resume,
        stage: PageStage::Finished,
        targets: seq![],
        output_file: seq![],
        last_error: None,
        pending: None,
    };
    match resume {
        Some(e) => (
            PageExportView { stage: PageStage::Checking, ..s },
            PageActionView::CheckExisting(e.output_file),
        ),
        None => begin_spec(s),
    }
}

pub open spec fn weak_extraction_message() -> Seq<char> {
    "static extraction too weak; trying browser fallback"@
}

/// A fetched target: the site's extractor extracts the page (an unknown
/// extractor name fails the page, and so does HTML the converter cannot take);
/// an extraction the extractor finds too weak moves on to the next target when
/// the browser is enabled; otherwise the Markdown is written.
pub open spec fn fetched_spec(s: PageExportView, i: nat, r: FetchResultView) -> (
    PageExportView,
    PageActionView,
) {
    match framework_named_from(s.site.extractor, 0) {
        None => finish_spec(
            s,
            Err(
                page_error(
                    s.page,
                    "extractor"@,
                    error_message(DocsiteErrorView::DetectionFailed(s.site.extractor)),
                ),
            ),
        ),
        Some(f) => match extraction_of(f, s.page, r) {
            None => finish_spec(
                s,
                Err(
                    page_error(
                        s.page,
                        "extract"@,
                        error_message(DocsiteErrorView::Unconvertible(s.page.url)),
                    ),
                ),
            ),
            Some(ex) => if s.browser_enabled && needs_browser_of(f, ex) {
                try_target_spec(
                    PageExportView { last_error: Some(weak_extraction_message()), ..s },
                    i + 1,
                )
            } else {
                let rec = ExportedPageView {
                    page: s.page,
                    output_file: s.output_file,
                    title: ex.title,
                    source_format: if s.targets[i as int].1 == SourceFormat::BrowserHtml {
                        SourceFormat::BrowserHtml
                    } else {
                        ex.source_format
                    },
                    used_browser_fallback: false,
                    content_hash: None,
                    skipped: false,
                    duplicate_of: None,
                };
                (
                    PageExportView {
                        stage: PageStage::Writing,
                        pending: Some((rec, ex.markdown)),
                        ..s
                    },
                    PageActionView::Write { path: s.output_file, markdown: ex.markdown },
                )
            },
        },
    }
}

/// The rendered HTML is converted with the site's framework and written; HTML
/// the converter cannot take fails the page.
pub open spec fn rendered_spec(s: PageExportView, body: Seq<char>) -> (PageExportView, PageActionView) {
    if !html_convertible(body, default_content_selectors_spec()) {
        finish_spec(
            s,
            Err(
                page_error(
                    s.page,
                    "extract"@,
                    error_message(DocsiteErrorView::Unconvertible(s.page.url)),
                ),
            ),
        )
    } else {
        rendered_write_spec(s, body)
    }
}

pub open spec fn rendered_write_spec(s: PageExportView, body: Seq<char>) -> (
    PageExportView,
    PageActionView,
) {
    let md = html_markdown_with(body, s.site.framework, default_content_selectors_spec());
    let rec = ExportedPageView {
        page: s.page,
        output_file: s.output_file,
        title: None,
        source_format: SourceFormat::BrowserHtml,
        used_browser_fallback: true,
        content_hash: None,
        skipped: false,
        duplicate_of: None,
    };
    (
        PageExportView { stage: PageStage::Writing, pending: Some((rec, md)), ..s },
        PageActionView::Write { path: s.output_file, markdown: md },
    )
}

/// What follows an event.
pub open spec fn page_step(s: PageExportView, e: PageEventView) -> (PageExportView, PageActionView) {
    match e {
        PageEventView::Exists(found) => if found {
            finish_spec(s, Ok((s.resume->0, seq![])))
        } else {
            begin_spec(s)
        },
        PageEventView::Fetched(res) => {
            let i = s.stage->0 as nat;
            match res {
                Err(m) => try_target_spec(PageExportView { last_error: Some(m), ..s }, i + 1),
                Ok(r) => fetched_spec(s, i, r),
            }
        },
        PageEventView::Written(res) => match res {
            Err(m) => finish_spec(s, Err(page_error(s.page, "write"@, m))),
            Ok(_) => {
                let (rec, md) = s.pending->0;
                finish_spec(
                    s,
                    Ok((ExportedPageView { content_hash: Some(content_hash_spec(md)), ..rec }, md)),
                )
            },
        },
        PageEventView::Rendered(res) => match res {
            Err(m) => finish_spec(
                PageExportView { last_error: Some(m), ..s },
                Err(page_error(s.page, "fetch"@, m)),
            ),
            Ok(body) => rendered_spec(s, body),
        },
    }
}

// ---------------------------------------------------------------- executable

fn page_error_exec(page: &PageRef, phase: &str, message: String) -> (r: PageError)
    ensures
        r@ == page_error(page@, phase@, message@),
{
    PageError { url: page.url.clone(), phase: phase.to_string(), message }
}

fn clone_opt_exported(o: &Option<ExportedPage>) -> (r: Option<ExportedPage>)
    ensures
        opt_exported_view(r) == opt_exported_view(*o),
{
    match o {
        Some(e) => Some(e.clone()),
        None => None,
    }
}

fn clone_opt_pending(o: &Option<(ExportedPage, String)>) -> (r: Option<(ExportedPage, String)>)
    ensures
        opt_pending_view(r) == opt_pending_view(*o),
{
    match o {
        Some(p) => Some((p.0.clone(), p.1.clone())),
        None => None,
    }
}

impl PageExport {
    fn finish(&mut self, result: Result<(ExportedPage, String), PageError>) -> (r: PageAction)
        ensures
            (final(self)@, r@) == finish_spec(
                old(self)@,
                match result {
                    Ok((e, m)) => Ok((e@, m@)),
                    Err(err) => Err(err@),
                },
            ),
    {
        self.stage = PageStage::Finished;
        PageAction::Done(result)
    }

    fn try_target(&mut self, i: usize) -> (r: PageAction)
        requires
            pending_ok(old(self)@),
        ensures
            (final(self)@, r@) == try_target_spec(old(self)@, i as nat),
            page_wf(final(self)@),
    {
        if i < self.targets.len() {
            self.stage = PageStage::Fetching(i);
            assert(target_views(self.targets@)[i as int].0 == self.targets@[i as int].0@);
            PageAction::Fetch(self.targets[i].0.clone())
        } else if self.browser.enabled {
            self.stage = PageStage::Rendering;
            PageAction::Render {
                url: self.page.url.clone(),
                webdriver_url: clone_opt_string(&self.browser.webdriver_url),
            }
        } else {
            let message = match &self.last_error {
                Some(m) => m.clone(),
                None => "unknown failure".to_string(),
            };
            let err = page_error_exec(&self.page, "fetch", message);
            self.finish(Err(err))
        }
    }

    fn begin(&mut self) -> (r: PageAction)
        requires
            pending_ok(old(self)@),
        ensures
            (final(self)@, r@) == begin_spec(old(self)@),
            page_wf(final(self)@),
    {
        match parse_url(self.page.url.as_str()) {
            Err(m) => {
                let err = page_error_exec(&self.page, "parse", m);
                self.finish(Err(err))
            },
            Ok(u) => {
                self.targets = preferred_targets(&self.site, &self.page, &u);
                self.output_file = output_file_for_page(u.path.as_str());
                self.try_target(0)
            },
        }
    }

    /// Starts the export of `page`, with its record from a previous manifest
    /// when resuming.
    pub fn start(
        site: SiteProfile,
        page: PageRef,
        browser: BrowserOptions,
        resume: Option<ExportedPage>,
    ) -> (r: (PageExport, PageAction))
        ensures
            (r.0@, r.1@) == start_spec(
                site@,
                page@,
                browser.enabled,
                opt_view(browser.webdriver_url),
                opt_exported_view(resume),
            ),
            page_wf(r.0@),
    {
        let check = match &resume {
            Some(e) => Some(e.output_file.clone()),
            None => None,
        };
        let mut s = PageExport {
            site,
            page,
            browser,
            resume,
            stage: PageStage::Finished,
            targets: Vec::new(),
            output_file: String::new(),
            last_error: None,
            pending: None,
        };
        assert(target_views(s.targets@) =~= Seq::<(Seq<char>, SourceFormat)>::empty());
        assert(s.output_file@ =~= Seq::<char>::empty());
        match check {
            Some(path) => {
                s.stage = PageStage::Checking;
                (s, PageAction::CheckExisting(path))
            },
            None => {
                let a = s.begin();
                (s, a)
            },
        }
    }

    /// The stage the export is in.
    pub fn stage(&self) -> (r: PageStage)
        ensures
            r == self@.stage,
    {
        self.stage
    }

    /// Decides what follows the event that answers the last action.
    pub fn on_event(&mut self, event: PageEvent) -> (r: PageAction)
        requires
            page_wf(old(self)@),
            event_fits(old(self)@.stage, event@),
        ensures
            (final(self)@, r@) == page_step(old(self)@, event@),
            page_wf(final(self)@),
    {
        match event {
            PageEvent::Exists(found) => {
                if found {
                    let e = clone_opt_exported(&self.resume).unwrap();
                    let empty = String::new();
                    assert(empty@ =~= Seq::<char>::empty());
                    self.finish(Ok((e, empty)))
                } else {
                    self.begin()
                }
            },
            PageEvent::Fetched(res) => {
                let i = match self.stage {
                    PageStage::Fetching(i) => i,
                    _ => 0,
                };
                let n = self.targets.len();
                assert(i < n);
                match res {
                    Err(m) => {
                        self.last_error = Some(m);
                        self.try_target(i + 1)
                    },
                    Ok(response) => self.on_fetched(i, &response),
                }
            },
            PageEvent::Written(res) => match res {
                Err(m) => {
                    let err = page_error_exec(&self.page, "write", m);
                    self.finish(Err(err))
                },
                Ok(()) => {
                    let (mut rec, md) = clone_opt_pending(&self.pending).unwrap();
                    rec.content_hash = Some(content_hash(md.as_str()));
                    let a = self.finish(Ok((rec, md)));
                    a
                },
            },
            PageEvent::Rendered(res) => match res {
                Err(m) => {
                    self.last_error = Some(m.clone());
                    let err = page_error_exec(&self.page, "fetch", m);
                    self.finish(Err(err))
                },
                Ok(body) => {
                    let sels = default_content_selectors();
                    if !can_convert_html(body.as_str(), sels.as_slice()) {
                        let e = DocsiteError::Unconvertible(self.page.url.clone());
                        let err = page_error_exec(&self.page, "extract", e.message());
                        return self.finish(Err(err));
                    }
                    let md = html_to_markdown(body.as_str(), &self.site.framework);
                    let rec = ExportedPage {
                        page: self.page.clone(),
                        output_file: self.output_file.clone(),
                        title: None,
                        source_format: SourceFormat::BrowserHtml,
                        used_browser_fallback: true,
                        content_hash: None,
                        skipped: false,
                        duplicate_of: None,
                    };
                    let path = self.output_file.clone();
                    let markdown = md.clone();
                    self.stage = PageStage::Writing;
                    self.pending = Some((rec, md));
                    PageAction::Write { path, markdown }
                },
            },
        }
    }

    fn on_fetched(&mut self, i: usize, response: &FetchResult) -> (r: PageAction)
        requires
            i < old(self)@.targets.len(),
            pending_ok(old(self)@),
        ensures
            (final(self)@, r@) == fetched_spec(old(self)@, i as nat, response@),
            page_wf(final(self)@),
    {
        match find_extractor_for_site(&self.site) {
            Err(e) => {
                let err = page_error_exec(&self.page, "extractor", e.message());
                self.finish(Err(err))
            },
            Ok(f) => {
                let ex = match framework_extract(f, &self.page, response) {
                    Some(ex) => ex,
                    None => {
                        let e = DocsiteError::Unconvertible(self.page.url.clone());
                        let err = page_error_exec(&self.page, "extract", e.message());
                        return self.finish(Err(err));
                    },
                };
                let n = self.targets.len();
                if self.browser.enabled && framework_needs_browser(f, &ex) {
                    self.last_error = Some(
                        "static extraction too weak; trying browser fallback".to_string(),
                    );
                    self.try_target(i + 1)
                } else {
                    let source_format = match self.targets[i].1 {
                        SourceFormat::BrowserHtml => SourceFormat::BrowserHtml,
                        _ => ex.source_format,
                    };
                    let rec = ExportedPage {
                        page: self.page.clone(),
                        output_file: self.output_file.clone(),
                        title: ex.title,
                        source_format,
                        used_browser_fallback: false,
                        content_hash: None,
                        skipped: false,
                        duplicate_of: None,
                    };
                    let path = self.output_file.clone();
                    let markdown = ex.markdown.clone();
                    self.stage = PageStage::Writing;
                    self.pending = Some((rec, ex.markdown));
                    PageAction::Write { path, markdown }
                }
            },
        }
    }
}

// ---------------------------------------------------------------- laws

/// With the browser disabled no rendering is ever asked for, the browser
/// stays disabled, and no written page is recorded as rendered.
pub proof fn lemma_no_render_when_disabled(s: PageExportView, e: PageEventView)
    requires
        page_wf(s),
        event_fits(s.stage, e),
        !s.browser_enabled,
    ensures
        !(page_step(s, e).1 is Render),
        !page_step(s, e).0.browser_enabled,
        e is Written ==> (page_step(s, e).1 matches PageActionView::Done(Ok((rec, _)))
            ==> !rec.used_browser_fallback),
{
}

/// A page export that starts with the browser disabled asks for no rendering.
pub proof fn lemma_start_no_render(
    site: SiteProfileView,
    page: PageRefView,
    webdriver_url: Option<Seq<char>>,
    resume: Option<ExportedPageView>,
)
    ensures
        !(start_spec(site, page, false, webdriver_url, resume).1 is Render),
        !start_spec(site, page, false, webdriver_url, resume).0.browser_enabled,
{
}

/// Targets are tried in order, each at most once: fetching only ever moves on
/// to the next target.
pub proof fn lemma_targets_in_order(s: PageExportView, e: PageEventView)
    requires
        page_wf(s),
        event_fits(s.stage, e),
        page_step(s, e).0.stage is Fetching,
    ensures
        s.stage matches PageStage::Fetching(i) && page_step(s, e).0.stage == PageStage::Fetching(
            (i + 1) as usize,
        ) || s.stage is Checking && page_step(s, e).0.stage == PageStage::Fetching(0),
        page_step(s, e).0.targets.len() > 0,
{
}

/// A written page is recorded with the SHA-256 of exactly the Markdown that
/// was written, under the output file it was written to.
pub proof fn lemma_written_record(s: PageExportView)
    requires
        page_wf(s),
        s.stage is Writing,
    ensures
        ({
            let (rec, md) = s.pending->0;
            page_step(s, PageEventView::Written(Ok(()))).1 == PageActionView::Done(
                Ok((
                    ExportedPageView { content_hash: Some(content_hash_spec(md)), ..rec },
                    md,
                )),
            )
        }),
{
}

/// Resuming: a page whose earlier output file still exists is not fetched
/// again; its earlier record is kept, with no new Markdown.
pub proof fn lemma_resume_keeps_record(s: PageExportView)
    requires
        page_wf(s),
        s.stage is Checking,
    ensures
        page_step(s, PageEventView::Exists(true)).1 == PageActionView::Done(
            Ok((s.resume->0, Seq::<char>::empty())),
        ),
{
}

/// The outcome of a page's export names that page: an exported record is the
/// page's own (a resumed record is taken as given, so it must be the page's),
/// and an error carries the page's URL.
pub proof fn lemma_outcome_names_page(s: PageExportView, e: PageEventView)
    requires
        page_wf(s),
        event_fits(s.stage, e),
        s.resume matches Some(r) ==> r.page.url == s.page.url,
    ensures
        page_step(s, e).1 matches PageActionView::Done(o) ==> outcome_url(o) == s.page.url,
        page_step(s, e).0.page == s.page,
        page_step(s, e).0.resume == s.resume,
{
}

/// The same holds of a page export that ends as it starts.
pub proof fn lemma_start_outcome_names_page(
    site: SiteProfileView,
    page: PageRefView,
    browser_enabled: bool,
    webdriver_url: Option<Seq<char>>,
    resume: Option<ExportedPageView>,
)
    ensures
        start_spec(site, page, browser_enabled, webdriver_url, resume).1 matches PageActionView::Done(
            o,
        ) ==> outcome_url(o) == page.url,
        start_spec(site, page, browser_enabled, webdriver_url, resume).0.page == page,
        start_spec(site, page, browser_enabled, webdriver_url, resume).0.resume == resume,
{
}

} // verus!
