//! A breadth-first crawl of a documentation site as a state machine. The
//! caller fetches: it asks for the next URL, fetches it, and hands back the
//! response (or records the failure); the crawl decides which pages are new,
//! what is queued, and when the page limit stops it.
use vstd::prelude::*;

use crate::error::{DocsiteError, DocsiteErrorView};
use crate::extractors::links::{
    has_normalized, has_normalized_exec, lemma_sort_pages_by_url, page_views, sort_pages,
    sort_pages_by_url,
};
use crate::sorting::seq_lt;
use crate::extractors::links::{is_asset_path, is_excluded, page_in_scope, should_include};
use crate::extractors::{
    detect_extractor, detection, framework_discover_links, framework_markdown_url,
    lemma_links_in_scope, links_of, markdown_url_of,
};
use crate::normalize::{extract_title_from_html, title_from_html};
use crate::text::{contains, eq_chars, starts_with, to_chars};
use crate::types::{
    opt_view, CrawlManifest, CrawlOptions, CrawlOptionsView, FetchResult, FetchResultView, Framework,
    PageRef, PageRefView, SiteProfile, SiteProfileView,
};
use crate::urls::{
    normalize_page_url, normalized_page_url, parse_url, trim_end_char, url_parse,
    url_without_trailing_slash, UrlView,
};

verus! {

/// The state of a crawl as plain values.
pub struct CrawlView {
    pub framework: Framework,
    pub site: SiteProfileView,
    /// The root URL without trailing `/`.
    pub base: Seq<char>,
    pub options: CrawlOptionsView,
    /// Every page found so far, the root first.
    pub pages: Seq<PageRefView>,
    /// URLs queued for fetching; those before `head` were taken.
    pub queue: Seq<Seq<char>>,
    pub head: nat,
    /// URLs taken for fetching.
    pub visited: Seq<Seq<char>>,
    /// URLs not followed: failed fetches and pages beyond the limit.
    pub skipped: Seq<Seq<char>>,
    /// Set when the page limit ended the crawl.
    pub stopped: bool,
}

/// A crawl in progress.
pub struct Crawl {
    framework: Framework,
    site: SiteProfile,
    base: String,
    options: CrawlOptions,
    pages: Vec<PageRef>,
    queue: Vec<String>,
    head: usize,
    visited: Vec<String>,
    skipped: Vec<String>,
    stopped: bool,
}

impl View for Crawl {
    type V = CrawlView;

    closed spec fn view(&self) -> CrawlView {
        CrawlView {
            framework: self.framework,
            site: self.site@,
            base: self.base@,
            options: self.options@,
            pages: page_views(self.pages@),
            queue: self.queue.deep_view(),
            head: self.head as nat,
            visited: self.visited.deep_view(),
            skipped: self.skipped.deep_view(),
            stopped: self.stopped,
        }
    }
}

// ---------------------------------------------------------------- the model

/// No two pages share a normalized URL.
pub open spec fn distinct_pages(pages: Seq<PageRefView>) -> bool {
    forall|i: int, j: int|
        0 <= i < j < pages.len() ==> #[trigger] pages[i].normalized_url
            != #[trigger] pages[j].normalized_url
}

/// The page limit (when there is one) is reached.
pub open spec fn limit_reached(s: CrawlView) -> bool {
    match s.options.max_pages {
        Some(m) => s.pages.len() >= m,
        None => false,
    }
}

/// A page the crawl options admit: it stands for a URL that is under the
/// configured scope prefix (when there is one), is not an asset or CDN helper,
/// and matches no exclusion pattern.
pub open spec fn admitted(p: PageRefView, options: CrawlOptionsView) -> bool {
    exists|c: UrlView|
        #[trigger] normalized_page_url(c) == p.normalized_url && p.url == trim_end_char(
            c.serialization,
            '/',
        ) && !contains(c.path, "/cdn-cgi/"@) && !is_asset_path(c.path) && !is_excluded(
            c,
            options.excludes,
        ) && match options.scope_prefix {
            Some(pre) => pre.len() == 0 || pre == "/"@ || starts_with(c.path, pre),
            None => true,
        }
}

/// What every crawl state satisfies: the root page comes first, every other
/// page is admitted by the options, no page is recorded twice, no URL is taken
/// twice, and there are never more pages than the limit (the root counts even
/// under a limit of 0).
pub open spec fn crawl_wf(s: CrawlView) -> bool {
    &&& s.head <= s.queue.len()
    &&& s.pages.len() >= 1
    &&& forall|k: int| 1 <= k < s.pages.len() ==> admitted(#[trigger] s.pages[k], s.options)
    &&& distinct_pages(s.pages)
    &&& s.visited.no_duplicates()
    &&& match s.options.max_pages {
        Some(m) => s.pages.len() <= if m == 0 {
            1
        } else {
            m as int
        },
        None => true,
    }
}

/// The root page: the site URL as fetched (final URL after redirects).
pub open spec fn root_page(f: Framework, base: UrlView, body: Seq<char>) -> PageRefView {
    PageRefView {
        url: trim_end_char(base.serialization, '/'),
        normalized_url: normalized_page_url(base),
        title: title_from_html(body),
        depth: 0,
        parent_url: None,
        markdown_url: markdown_url_of(f, base),
    }
}

/// The crawl that starts from the response to the site URL `url`: the
/// detected framework, the root page, and the root URL queued. It fails when
/// nothing detects the site or the final URL does not parse.
pub open spec fn crawl_start_spec(
    url: Seq<char>,
    root: FetchResultView,
    options: CrawlOptionsView,
) -> Result<CrawlView, DocsiteErrorView> {
    match detection(root) {
        None => Err(DocsiteErrorView::DetectionFailed(url)),
        Some((f, site)) => match url_parse(root.final_url) {
            Err(m) => Err(DocsiteErrorView::Url(m)),
            Ok(base) => Ok(
                CrawlView {
                    framework: f,
                    site,
                    base: trim_end_char(base.serialization, '/'),
                    options,
                    pages: seq![root_page(f, base, root.body)],
                    queue: seq![trim_end_char(base.serialization, '/')],
                    head: 0,
                    visited: seq![],
                    skipped: seq![],
                    stopped: false,
                },
            ),
        },
    }
}

/// The next URL to fetch: queued URLs already taken are passed over; a new
/// one is taken, unless the page limit is reached and it is not the root, in
/// which case it is recorded as skipped and the crawl stops.
pub open spec fn next_fetch_spec(s: CrawlView) -> (CrawlView, Option<Seq<char>>)
    decreases s.queue.len() - s.head,
{
    if s.stopped || s.head >= s.queue.len() {
        (s, None)
    } else {
        let url = s.queue[s.head as int];
        let s1 = CrawlView { head: s.head + 1, ..s };
        if s.visited.contains(url) {
            next_fetch_spec(s1)
        } else {
            let s2 = CrawlView { visited: s.visited.push(url), ..s1 };
            if limit_reached(s2) && url != s.base {
                (CrawlView { skipped: s2.skipped.push(url), stopped: true, ..s2 }, None)
            } else {
                (s2, Some(url))
            }
        }
    }
}

/// A discovered page with its Markdown URL filled in from its own URL when
/// discovery gave none (the parse error's message when that URL does not parse).
pub open spec fn with_markdown_url(f: Framework, p: PageRefView) -> Result<PageRefView, Seq<char>> {
    if p.markdown_url is None {
        match url_parse(p.url) {
            Err(m) => Err(m),
            Ok(u) => Ok(PageRefView { markdown_url: markdown_url_of(f, u), ..p }),
        }
    } else {
        Ok(p)
    }
}

/// One discovered page: known pages are passed over; beyond the limit the page
/// is recorded as skipped; otherwise it is recorded and queued.
pub open spec fn absorb_page(s: CrawlView, p: PageRefView) -> Result<CrawlView, Seq<char>> {
    match with_markdown_url(s.framework, p) {
        Err(m) => Err(m),
        Ok(q) => if has_normalized(s.pages, q.normalized_url) {
            Ok(s)
        } else if limit_reached(s) {
            Ok(CrawlView { skipped: s.skipped.push(q.url), ..s })
        } else {
            Ok(CrawlView { queue: s.queue.push(q.url), pages: s.pages.push(q), ..s })
        },
    }
}

pub open spec fn absorb_pages(s: CrawlView, ps: Seq<PageRefView>) -> Result<CrawlView, Seq<char>>
    decreases ps.len(),
{
    if ps.len() == 0 {
        Ok(s)
    } else {
        match absorb_page(s, ps[0]) {
            Err(m) => Err(m),
            Ok(s1) => absorb_pages(s1, ps.drop_first()),
        }
    }
}

/// A fetched page's links, taken in discovery order, relative to its final
/// URL; fails with the parse error's message of a URL that does not parse.
pub open spec fn absorb_spec(s: CrawlView, response: FetchResultView) -> Result<CrawlView, Seq<char>> {
    match url_parse(response.final_url) {
        Err(m) => Err(m),
        Ok(current) => absorb_pages(
            s,
            links_of(s.framework, current, response.body, s.options),
        ),
    }
}

// ---------------------------------------------------------------- executable

fn contains_string(v: &Vec<String>, s: &String) -> (r: bool)
    ensures
        r == v.deep_view().contains(s@),
{
    let sc = to_chars(s.as_str());
    let mut i: usize = 0;
    while i < v.len()
        invariant
            0 <= i <= v@.len(),
            sc@ == s@,
            forall|j: int| 0 <= j < i ==> #[trigger] v.deep_view()[j] != s@,
        decreases v@.len() - i,
    {
        let vc = to_chars(v[i].as_str());
        if eq_chars(vc.as_slice(), sc.as_slice()) {
            assert(v.deep_view()[i as int] == s@);
            return true;
        }
        i = i + 1;
    }
    false
}

fn push_string(v: &mut Vec<String>, s: String)
    ensures
        final(v).deep_view() == old(v).deep_view().push(s@),
{
    let ghost before = v.deep_view();
    v.push(s);
    assert(v.deep_view() =~= before.push(s@));
}

impl Crawl {
    /// Starts a crawl from the response to the site's URL `url`.
    pub fn start(url: &str, root: &FetchResult, options: CrawlOptions) -> (r: Result<
        Crawl,
        DocsiteError,
    >)
        ensures
            match r {
                Ok(c) => crawl_start_spec(url@, root@, options@) == Ok::<
                    CrawlView,
                    DocsiteErrorView,
                >(c@) && crawl_wf(c@),
                Err(e) => crawl_start_spec(url@, root@, options@) == Err::<
                    CrawlView,
                    DocsiteErrorView,
                >(e@),
            },
    {
        let (framework, site) = match detect_extractor(root) {
            None => return Err(DocsiteError::DetectionFailed(url.to_string())),
            Some(d) => d,
        };
        let base_url = match parse_url(root.final_url.as_str()) {
            Err(m) => return Err(DocsiteError::Url(m)),
            Ok(u) => u,
        };
        let base = url_without_trailing_slash(&base_url);
        let root_ref = PageRef {
            url: base.clone(),
            normalized_url: normalize_page_url(&base_url),
            title: extract_title_from_html(root.body.as_str()),
            depth: 0,
            parent_url: None,
            markdown_url: framework_markdown_url(framework, &base_url),
        };
        let ghost rv = root_ref@;
        let pages = vec![root_ref];
        let queue = vec![base.clone()];
        let c = Crawl {
            framework,
            site,
            base,
            options,
            pages,
            queue,
            head: 0,
            visited: Vec::new(),
            skipped: Vec::new(),
            stopped: false,
        };
        assert(page_views(c.pages@) =~= seq![rv]);
        assert(c.queue.deep_view() =~= seq![c.base@]);
        assert(c.visited.deep_view() =~= Seq::<Seq<char>>::empty());
        assert(c.skipped.deep_view() =~= Seq::<Seq<char>>::empty());
        Ok(c)
    }

    fn limit_reached_exec(&self) -> (r: bool)
        ensures
            r == limit_reached(self@),
    {
        match self.options.max_pages {
            Some(m) => self.pages.len() >= m,
            None => false,
        }
    }

    /// Takes the next URL to fetch, or `None` when the crawl is over.
    pub fn next_fetch(&mut self) -> (r: Option<String>)
        requires
            crawl_wf(old(self)@),
        ensures
            (final(self)@, opt_view(r)) == next_fetch_spec(old(self)@),
            crawl_wf(final(self)@),
    {
        if self.stopped {
            return None;
        }
        let ghost s0 = self@;
        while self.head < self.queue.len()
            invariant
                crawl_wf(self@),
                !self.stopped,
                s0 == old(self)@,
                next_fetch_spec(s0) == next_fetch_spec(self@),
            decreases self.queue@.len() - self.head,
        {
            let ghost si = self@;
            let url = self.queue[self.head].clone();
            assert(url@ == si.queue[si.head as int]);
            self.head = self.head + 1;
            assert(self@ == CrawlView { head: si.head + 1, ..si });
            if contains_string(&self.visited, &url) {
                continue;
            }
            push_string(&mut self.visited, url.clone());
            let ghost s2 = self@;
            assert(s2 == CrawlView { visited: si.visited.push(url@), head: si.head + 1, ..si });
            assert(s2.visited.no_duplicates()) by {
                assert forall|a: int, b: int|
                    0 <= a < s2.visited.len() && 0 <= b < s2.visited.len() && a != b implies
                    s2.visited[a] != s2.visited[b] by {
                    if a < si.visited.len() && b < si.visited.len() {
                        assert(si.visited[a] == s2.visited[a]);
                        assert(si.visited[b] == s2.visited[b]);
                    } else if a == si.visited.len() {
                        assert(si.visited.contains(si.visited[b]));
                    } else {
                        assert(si.visited.contains(si.visited[a]));
                    }
                }
            }
            let reached = self.limit_reached_exec();
            if reached {
                let ub = to_chars(url.as_str());
                let bb = to_chars(self.base.as_str());
                if !eq_chars(ub.as_slice(), bb.as_slice()) {
                    push_string(&mut self.skipped, url);
                    self.stopped = true;
                    assert(next_fetch_spec(si) == (self@, opt_view(None::<String>)));
                    return None;
                }
            }
            assert(next_fetch_spec(si) == (s2, Some(url@)));
            return Some(url);
        }
        None
    }

    /// Records a URL whose fetch failed.
    pub fn record_failure(&mut self, url: String)
        requires
            crawl_wf(old(self)@),
        ensures
            final(self)@ == (CrawlView { skipped: old(self)@.skipped.push(url@), ..old(self)@ }),
            crawl_wf(final(self)@),
    {
        push_string(&mut self.skipped, url);
    }

    /// Takes in the links of a fetched page. Fails when its final URL, or the
    /// URL of a discovered page that needs a Markdown URL, does not parse.
    pub fn absorb(&mut self, response: &FetchResult) -> (r: Result<(), DocsiteError>)
        requires
            crawl_wf(old(self)@),
        ensures
            match r {
                Ok(_) => absorb_spec(old(self)@, response@) == Ok::<CrawlView, Seq<char>>(
                    final(self)@,
                ) && crawl_wf(final(self)@),
                Err(e) => absorb_spec(old(self)@, response@) matches Err(m) && e@
                    == DocsiteErrorView::Url(m),
            },
    {
        let current = match parse_url(response.final_url.as_str()) {
            Err(m) => return Err(DocsiteError::Url(m)),
            Ok(u) => u,
        };
        let links = framework_discover_links(
            self.framework,
            &current,
            response.body.as_str(),
            &self.options,
        );
        let ghost s0 = self@;
        let ghost ps = page_views(links@);
        assert(ps.skip(0) =~= ps);
        proof {
            lemma_links_in_scope(s0.framework, current@, response@.body, s0.options);
        }
        let mut i: usize = 0;
        while i < links.len()
            invariant
                0 <= i <= links@.len(),
                ps == page_views(links@),
                s0 == old(self)@,
                ps == links_of(s0.framework, current@, response@.body, s0.options),
                url_parse(response@.final_url) == Ok::<UrlView, Seq<char>>(current@),
                forall|k: int|
                    0 <= k < ps.len() ==> page_in_scope(#[trigger] ps[k], current@, s0.options),
                crawl_wf(self@),
                self@.framework == s0.framework,
                self@.options == s0.options,
                absorb_pages(s0, ps) == absorb_pages(self@, ps.skip(i as int)),
            decreases links@.len() - i,
        {
            let ghost si = self@;
            assert(ps.skip(i as int)[0] == ps[i as int]);
            assert(ps.skip(i as int).drop_first() =~= ps.skip(i + 1));
            let mut page = links[i].clone();
            if page.markdown_url.is_none() {
                match parse_url(page.url.as_str()) {
                    Err(m) => {
                        assert(absorb_page(si, ps[i as int]) == Err::<CrawlView, Seq<char>>(m@));
                        assert(absorb_pages(si, ps.skip(i as int)) == Err::<CrawlView, Seq<char>>(
                            m@,
                        ));
                        return Err(DocsiteError::Url(m));
                    },
                    Ok(u) => {
                        page.markdown_url = framework_markdown_url(self.framework, &u);
                    },
                }
            }
            assert(with_markdown_url(si.framework, ps[i as int]) == Ok::<PageRefView, Seq<char>>(
                page@,
            ));
            if has_normalized_exec(&self.pages, &page.normalized_url) {
            } else if self.limit_reached_exec() {
                push_string(&mut self.skipped, page.url.clone());
            } else {
                let ghost pv = page@;
                let ghost before = self.pages@;
                push_string(&mut self.queue, page.url.clone());
                self.pages.push(page);
                assert(page_views(self.pages@) =~= page_views(before).push(pv));
                assert(admitted(pv, self@.options)) by {
                    assert(page_in_scope(ps[i as int], current@, s0.options));
                    let c = choose|c: UrlView|
                        #[trigger] should_include(c, current@, s0.options) && ps[i as int].url
                            == trim_end_char(c.serialization, '/') && ps[i as int].normalized_url
                            == normalized_page_url(c);
                    assert(should_include(c, current@, s0.options));
                    assert(normalized_page_url(c) == pv.normalized_url);
                }
                assert forall|k: int| 1 <= k < self@.pages.len() implies admitted(
                    #[trigger] self@.pages[k],
                    self@.options,
                ) by {
                    if k < self@.pages.len() - 1 {
                        assert(self@.pages[k] == si.pages[k]);
                    }
                }
                assert(distinct_pages(self@.pages)) by {
                    assert forall|a: int, b: int|
                        0 <= a < b < self@.pages.len() implies #[trigger] self@.pages[a].normalized_url
                        != #[trigger] self@.pages[b].normalized_url by {
                        if b == self@.pages.len() - 1 {
                            if self@.pages[a].normalized_url == pv.normalized_url {
                                assert(si.pages[a].normalized_url == pv.normalized_url);
                            }
                        } else {
                            assert(si.pages[a] == self@.pages[a]);
                            assert(si.pages[b] == self@.pages[b]);
                        }
                    }
                }
            }
            i = i + 1;
        }
        Ok(())
    }

    /// Ends the crawl: the manifest lists the pages ordered by URL and the
    /// URLs that were not followed.
    pub fn finish(self, generated_at_epoch: u64) -> (m: CrawlManifest)
        ensures
            m.site@ == self@.site,
            m.generated_at_epoch == generated_at_epoch,
            page_views(m.pages@) == sort_pages_by_url(self@.pages),
            m.skipped_urls.deep_view() == self@.skipped,
    {
        CrawlManifest {
            site: self.site,
            generated_at_epoch,
            pages: sort_pages(self.pages),
            skipped_urls: self.skipped,
        }
    }
}

// ---------------------------------------------------------------- laws

/// No URL is fetched twice: a URL handed out for fetching was not taken
/// before and is recorded as taken; URLs once taken stay taken, and taking a
/// URL leaves the pages found as they are.
pub proof fn lemma_next_fetch_fresh(s: CrawlView)
    requires
        crawl_wf(s),
    ensures
        next_fetch_spec(s).0.pages == s.pages,
        s.visited.is_prefix_of(next_fetch_spec(s).0.visited),
        next_fetch_spec(s).1 matches Some(u) ==> !s.visited.contains(u)
            && next_fetch_spec(s).0.visited == s.visited.push(u),
    decreases s.queue.len() - s.head,
{
    if !(s.stopped || s.head >= s.queue.len()) {
        let url = s.queue[s.head as int];
        let s1 = CrawlView { head: s.head + 1, ..s };
        if s.visited.contains(url) {
            lemma_next_fetch_fresh(s1);
        } else {
            assert(s.visited.is_prefix_of(s.visited.push(url)));
        }
    } else {
        assert(s.visited.is_prefix_of(s.visited));
    }
}

proof fn lemma_absorb_page_grows(s: CrawlView, p: PageRefView)
    requires
        absorb_page(s, p) is Ok,
    ensures
        s.pages.is_prefix_of(absorb_page(s, p)->Ok_0.pages),
        s.skipped.is_prefix_of(absorb_page(s, p)->Ok_0.skipped),
        absorb_page(s, p)->Ok_0.visited == s.visited,
        absorb_page(s, p)->Ok_0.head == s.head,
        absorb_page(s, p)->Ok_0.framework == s.framework,
        absorb_page(s, p)->Ok_0.options == s.options,
        has_normalized(absorb_page(s, p)->Ok_0.pages, p.normalized_url) || absorb_page(
            s,
            p,
        )->Ok_0.skipped.contains(p.url),
{
    let t = absorb_page(s, p)->Ok_0;
    let q = with_markdown_url(s.framework, p)->Ok_0;
    assert(q.normalized_url == p.normalized_url && q.url == p.url);
    assert(s.pages.is_prefix_of(t.pages));
    assert(s.skipped.is_prefix_of(t.skipped));
    if !has_normalized(s.pages, q.normalized_url) {
        if limit_reached(s) {
            assert(t.skipped[t.skipped.len() - 1] == p.url);
        } else {
            assert(t.pages[t.pages.len() - 1].normalized_url == p.normalized_url);
        }
    }
}

/// Taking in a fetched page's links leaves what was taken alone, only adds
/// pages and skipped URLs, and accounts for every discovered page: each is
/// afterwards a recorded page (by normalized URL) or a skipped URL.
pub proof fn lemma_absorb_accounts(s: CrawlView, ps: Seq<PageRefView>)
    requires
        absorb_pages(s, ps) is Ok,
    ensures
        s.pages.is_prefix_of(absorb_pages(s, ps)->Ok_0.pages),
        s.skipped.is_prefix_of(absorb_pages(s, ps)->Ok_0.skipped),
        absorb_pages(s, ps)->Ok_0.visited == s.visited,
        absorb_pages(s, ps)->Ok_0.head == s.head,
        forall|k: int|
            0 <= k < ps.len() ==> has_normalized(
                absorb_pages(s, ps)->Ok_0.pages,
                (#[trigger] ps[k]).normalized_url,
            ) || absorb_pages(s, ps)->Ok_0.skipped.contains(ps[k].url),
    decreases ps.len(),
{
    if ps.len() > 0 {
        lemma_absorb_page_grows(s, ps[0]);
        let s1 = absorb_page(s, ps[0])->Ok_0;
        let rest = ps.drop_first();
        lemma_absorb_accounts(s1, rest);
        let t = absorb_pages(s, ps)->Ok_0;
        assert(t == absorb_pages(s1, rest)->Ok_0);
        assert(s.pages.is_prefix_of(t.pages)) by {
            assert(s1.pages.is_prefix_of(t.pages));
            assert forall|i: int| 0 <= i < s.pages.len() implies s.pages[i] == t.pages[i] by {
                assert(s.pages[i] == s1.pages[i]);
                assert(s1.pages[i] == t.pages[i]);
            }
            assert(s.pages =~= t.pages.subrange(0, s.pages.len() as int));
        }
        assert(s.skipped.is_prefix_of(t.skipped)) by {
            assert(s1.skipped.is_prefix_of(t.skipped));
            assert forall|i: int| 0 <= i < s.skipped.len() implies s.skipped[i] == t.skipped[i] by {
                assert(s.skipped[i] == s1.skipped[i]);
                assert(s1.skipped[i] == t.skipped[i]);
            }
            assert(s.skipped =~= t.skipped.subrange(0, s.skipped.len() as int));
        }
        assert forall|k: int| 0 <= k < ps.len() implies has_normalized(
            t.pages,
            (#[trigger] ps[k]).normalized_url,
        ) || t.skipped.contains(ps[k].url) by {
            if k == 0 {
                if has_normalized(s1.pages, ps[0].normalized_url) {
                    let w = choose|w: int|
                        0 <= w < s1.pages.len() && #[trigger] s1.pages[w].normalized_url
                            == ps[0].normalized_url;
                    assert(s1.pages[w] == t.pages[w]);
                    assert(t.pages[w].normalized_url == ps[0].normalized_url);
                } else {
                    let w = choose|w: int|
                        0 <= w < s1.skipped.len() && s1.skipped[w] == ps[0].url;
                    assert(s1.skipped[w] == t.skipped[w]);
                    assert(t.skipped.contains(ps[0].url));
                }
            } else {
                assert(ps[k] == rest[k - 1]);
            }
        }
    }
}

/// The URLs of `pages`, in order.
pub open spec fn page_urls(pages: Seq<PageRefView>) -> Seq<Seq<char>> {
    Seq::new(pages.len(), |i: int| pages[i].url)
}

proof fn lemma_absorb_pages_queue(s: CrawlView, ps: Seq<PageRefView>)
    requires
        absorb_pages(s, ps) is Ok,
    ensures
        s.pages.is_prefix_of(absorb_pages(s, ps)->Ok_0.pages),
        absorb_pages(s, ps)->Ok_0.queue == s.queue + page_urls(
            absorb_pages(s, ps)->Ok_0.pages.subrange(
                s.pages.len() as int,
                absorb_pages(s, ps)->Ok_0.pages.len() as int,
            ),
        ),
    decreases ps.len(),
{
    if ps.len() > 0 {
        let s1 = absorb_page(s, ps[0])->Ok_0;
        let rest = ps.drop_first();
        lemma_absorb_pages_queue(s1, rest);
        lemma_absorb_page_grows(s, ps[0]);
        let t = absorb_pages(s, ps)->Ok_0;
        assert(t == absorb_pages(s1, rest)->Ok_0);
        let a = s.pages.len() as int;
        let b = s1.pages.len() as int;
        let c = t.pages.len() as int;
        assert(s1.queue == s.queue + page_urls(s1.pages.subrange(a, b))) by {
            let q = with_markdown_url(s.framework, ps[0])->Ok_0;
            if !has_normalized(s.pages, q.normalized_url) && !limit_reached(s) {
                assert(s1.pages.subrange(a, b) =~= seq![q]);
            } else {
                assert(s1.pages.subrange(a, b) =~= Seq::<PageRefView>::empty());
            }
            assert(s1.queue =~= s.queue + page_urls(s1.pages.subrange(a, b)));
        }
        assert(page_urls(t.pages.subrange(a, c)) =~= page_urls(s1.pages.subrange(a, b))
            + page_urls(t.pages.subrange(b, c))) by {
            assert forall|i: int| a <= i < b implies s1.pages[i] == t.pages[i] by {
                assert(s1.pages.is_prefix_of(t.pages));
            }
        }
        assert(t.queue =~= s.queue + page_urls(t.pages.subrange(a, c)));
    } else {
        assert(s.pages.is_prefix_of(s.pages));
        assert(s.pages.subrange(s.pages.len() as int, s.pages.len() as int) =~= Seq::<
            PageRefView,
        >::empty());
        assert(s.queue =~= s.queue + page_urls(Seq::<PageRefView>::empty()));
    }
}

/// Every page that taking in a fetched page's links records is queued for
/// fetching: the queue afterwards is the queue before, followed by the URLs
/// of the newly recorded pages in the order they were recorded, and the pages
/// found before stay as they were.
pub proof fn lemma_absorb_queues_new_pages(s: CrawlView, response: FetchResultView)
    ensures
        absorb_spec(s, response) matches Ok(t) ==> s.pages.is_prefix_of(t.pages) && t.queue
            == s.queue + page_urls(t.pages.subrange(s.pages.len() as int, t.pages.len() as int)),
{
    if let Ok(current) = url_parse(response.final_url) {
        let ps = links_of(s.framework, current, response.body, s.options);
        if absorb_pages(s, ps) is Ok {
            lemma_absorb_pages_queue(s, ps);
        }
    }
}

/// A crawl manifest lists every page found, each as often as it was recorded,
/// in URL order.
pub proof fn lemma_manifest_order(s: CrawlView)
    ensures
        sort_pages_by_url(s.pages).to_multiset() == s.pages.to_multiset(),
        forall|i: int, j: int|
            0 <= i < j < s.pages.len() ==> !seq_lt(
                (#[trigger] sort_pages_by_url(s.pages)[j]).url,
                (#[trigger] sort_pages_by_url(s.pages)[i]).url,
            ),
{
    lemma_sort_pages_by_url(s.pages);
}

} // verus!
