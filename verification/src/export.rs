//! Exporting pages: where each page's Markdown is written, which URLs are
//! tried for it, content hashes, duplicate detection across pages, the links
//! list and the single-file bundle.
use sha2::Digest;
use vstd::prelude::*;

use crate::error::{DocsiteError, DocsiteErrorView};
use crate::extractors::{extractor_name_of, extractor_order, framework_name};
use crate::text::{append_chars, append_str, from_chars, join, join_chars, to_chars, trim, trim_chars, views};
use crate::extractors::links::{firsts, lemma_firsts_multiset};
use crate::sorting::{
    key_lt, key_view, keyed_view, lemma_stable_sort, seq_lt, sort_by_key, stable_sort, KeyView, SortKey,
};
use crate::types::{
    clone_opt_string, opt_view, ExportedPage, ExportedPageView, Framework, PageError, PageErrorView,
    PageRef, PageRefView, SiteProfile, SiteProfileView, SourceFormat,
};
use crate::urls::{only_slashes, only_slashes_exec, trim_start_char, trim_start_char_exec, UrlParts, UrlView};

verus! {

// ---------------------------------------------------------------- output paths

/// The file a page is written to, relative to the output directory: the URL
/// path without leading `/` plus `.md`, or `index.md` for the root path.
pub open spec fn output_file_spec(path: Seq<char>) -> Seq<char> {
    if only_slashes(path) {
        "index.md"@
    } else {
        trim_start_char(path, '/') + ".md"@
    }
}

pub fn output_file_for_page(path: &str) -> (r: String)
    ensures
        r@ == output_file_spec(path@),
{
    let p = to_chars(path);
    if only_slashes_exec(p.as_slice()) {
        "index.md".to_string()
    } else {
        let mut t = trim_start_char_exec(p.as_slice(), '/');
        append_str(&mut t, ".md");
        from_chars(t.as_slice())
    }
}

// ---------------------------------------------------------------- fetch targets

/// The URLs tried for a page, in order: its Markdown URL when the site serves
/// Markdown endpoints and the page has one, then the page itself as HTML.
pub open spec fn targets_spec(site: SiteProfileView, page: PageRefView, page_url: UrlView) -> Seq<
    (Seq<char>, SourceFormat),
> {
    let html = seq![(page_url.serialization, SourceFormat::Html)];
    match page.markdown_url {
        Some(m) => if site.supports_markdown_endpoints {
            seq![(m, SourceFormat::Markdown)] + html
        } else {
            html
        },
        None => html,
    }
}

pub open spec fn target_views(v: Seq<(String, SourceFormat)>) -> Seq<(Seq<char>, SourceFormat)> {
    Seq::new(v.len(), |i: int| (v[i].0@, v[i].1))
}

pub fn preferred_targets(site: &SiteProfile, page: &PageRef, page_url: &UrlParts) -> (r: Vec<
    (String, SourceFormat),
>)
    ensures
        target_views(r@) == targets_spec(site@, page@, page_url@),
{
    let mut targets: Vec<(String, SourceFormat)> = Vec::new();
    if site.supports_markdown_endpoints {
        match &page.markdown_url {
            Some(m) => targets.push((m.clone(), SourceFormat::Markdown)),
            None => {},
        }
    }
    targets.push((page_url.serialization.clone(), SourceFormat::Html));
    assert(target_views(targets@) =~= targets_spec(site@, page@, page_url@));
    targets
}

// ---------------------------------------------------------------- extractor lookup

/// The first extractor (from index `i` of the detection order) with this name.
pub open spec fn framework_named_from(name: Seq<char>, i: int) -> Option<Framework>
    decreases 7 - i,
{
    if i < 0 || i >= 7 {
        None
    } else if extractor_name_of(extractor_order()[i]) == name {
        Some(extractor_order()[i])
    } else {
        framework_named_from(name, i + 1)
    }
}

/// The extractor a site profile names, or detection failure naming it.
pub fn find_extractor_for_site(site: &SiteProfile) -> (r: Result<Framework, DocsiteError>)
    ensures
        match r {
            Ok(f) => framework_named_from(site@.extractor, 0) == Some(f),
            Err(e) => framework_named_from(site@.extractor, 0) is None
                && e@ == DocsiteErrorView::DetectionFailed(site@.extractor),
        },
{
    let order = crate::extractors::default_extractors();
    let wanted = to_chars(site.extractor.as_str());
    let mut i: usize = 0;
    while i < order.len()
        invariant
            0 <= i <= 7,
            order@ == extractor_order(),
            wanted@ == site@.extractor,
            framework_named_from(site@.extractor, 0) == framework_named_from(site@.extractor, i as int),
        decreases 7 - i,
    {
        let f = order[i];
        let name = to_chars(framework_name(f));
        if crate::text::eq_chars(name.as_slice(), wanted.as_slice()) {
            return Ok(f);
        }
        i = i + 1;
    }
    Err(DocsiteError::DetectionFailed(site.extractor.clone()))
}

// ---------------------------------------------------------------- content hashes

/// What SHA-256 gives for the UTF-8 bytes of a text.
pub uninterp spec fn sha256_utf8(text: Seq<char>) -> Seq<u8>;

/// Hashes the UTF-8 bytes of `text` with `sha2::Sha256` (`new`, `update`,
/// `finalize`) and returns the digest's bytes. The digest is what the `sha2`
/// crate computes (named, not restated here); its length is the algorithm's
/// output size, 32 bytes.
#[verifier::external_body]
fn sha256_bytes(text: &str) -> (r: Vec<u8>)
    ensures
        r@ == sha256_utf8(text@),
        r@.len() == 32,
{
    let mut hasher = sha2::Sha256::new();
    hasher.update(text.as_bytes());
    hasher.finalize().to_vec()
}

pub open spec fn hex_digits() -> Seq<char> {
    seq!['0', '1', '2', '3', '4', '5', '6', '7', '8', '9', 'a', 'b', 'c', 'd', 'e', 'f']
}

/// Bytes as lowercase hexadecimal, two digits per byte.
pub open spec fn lower_hex(bytes: Seq<u8>) -> Seq<char>
    decreases bytes.len(),
{
    if bytes.len() == 0 {
        seq![]
    } else {
        let b = bytes.last();
        lower_hex(bytes.drop_last()) + seq![hex_digits()[(b / 16) as int], hex_digits()[(b % 16) as int]]
    }
}

pub fn lower_hex_exec(bytes: &[u8]) -> (r: String)
    ensures
        r@ == lower_hex(bytes@),
        r@.len() == 2 * bytes@.len(),
{
    let digits = vec!['0', '1', '2', '3', '4', '5', '6', '7', '8', '9', 'a', 'b', 'c', 'd', 'e', 'f'];
    assert(digits@ =~= hex_digits());
    let mut out: Vec<char> = Vec::new();
    let mut i: usize = 0;
    while i < bytes.len()
        invariant
            0 <= i <= bytes@.len(),
            digits@ == hex_digits(),
            out@ == lower_hex(bytes@.take(i as int)),
            out@.len() == 2 * i,
        decreases bytes@.len() - i,
    {
        let b = bytes[i];
        out.push(digits[(b / 16) as usize]);
        out.push(digits[(b % 16) as usize]);
        assert(bytes@.take(i + 1).drop_last() =~= bytes@.take(i as int));
        i = i + 1;
    }
    assert(bytes@.take(bytes@.len() as int) =~= bytes@);
    from_chars(out.as_slice())
}

/// The content hash recorded for a page: SHA-256 of its Markdown, in
/// lowercase hexadecimal.
pub open spec fn content_hash_spec(markdown: Seq<char>) -> Seq<char> {
    lower_hex(sha256_utf8(markdown))
}

pub fn content_hash(markdown: &str) -> (r: String)
    ensures
        r@ == content_hash_spec(markdown@),
        r@.len() == 64,
{
    let d = sha256_bytes(markdown);
    lower_hex_exec(d.as_slice())
}

// ---------------------------------------------------------------- resuming

/// The record a previous manifest holds for a page URL: the last one listed.
pub open spec fn resume_entry_spec(previous: Seq<ExportedPageView>, url: Seq<char>) -> Option<
    ExportedPageView,
>
    decreases previous.len(),
{
    if previous.len() == 0 {
        None
    } else if previous.last().page.url == url {
        Some(previous.last())
    } else {
        resume_entry_spec(previous.drop_last(), url)
    }
}

pub open spec fn exported_views(v: Seq<ExportedPage>) -> Seq<ExportedPageView> {
    Seq::new(v.len(), |i: int| v[i]@)
}

/// A record found for a URL is about that URL.
pub proof fn lemma_resume_entry_url(previous: Seq<ExportedPageView>, url: Seq<char>)
    ensures
        resume_entry_spec(previous, url) matches Some(e) ==> e.page.url == url,
    decreases previous.len(),
{
    if previous.len() > 0 {
        lemma_resume_entry_url(previous.drop_last(), url);
    }
}

pub fn resume_entry_for(previous: &Vec<ExportedPage>, url: &str) -> (r: Option<ExportedPage>)
    ensures
        match r {
            Some(e) => resume_entry_spec(exported_views(previous@), url@) == Some(e@),
            None => resume_entry_spec(exported_views(previous@), url@) is None,
        },
        r matches Some(e) ==> e@.page.url == url@,
{
    proof {
        lemma_resume_entry_url(exported_views(previous@), url@);
    }
    let ghost pv = exported_views(previous@);
    let u = to_chars(url);
    let mut n: usize = previous.len();
    assert(pv.take(n as int) =~= pv);
    while n > 0
        invariant
            0 <= n <= previous@.len(),
            pv == exported_views(previous@),
            u@ == url@,
            resume_entry_spec(pv, url@) == resume_entry_spec(pv.take(n as int), url@),
        decreases n,
    {
        let p = to_chars(previous[n - 1].page.url.as_str());
        assert(pv.take(n as int).last() == previous@[n - 1]@);
        if crate::text::eq_chars(p.as_slice(), u.as_slice()) {
            return Some(previous[n - 1].clone());
        }
        assert(pv.take(n as int).drop_last() =~= pv.take(n - 1));
        n = n - 1;
    }
    None
}

// ---------------------------------------------------------------- links list

/// `links.txt`: the page URLs, one per line.
pub open spec fn links_text_spec(pages: Seq<ExportedPageView>) -> Seq<char> {
    join(Seq::new(pages.len(), |i: int| pages[i].page.url), "\n"@) + "\n"@
}

pub fn links_text(pages: &Vec<ExportedPage>) -> (r: String)
    ensures
        r@ == links_text_spec(exported_views(pages@)),
{
    let mut parts: Vec<Vec<char>> = Vec::new();
    let mut i: usize = 0;
    while i < pages.len()
        invariant
            0 <= i <= pages@.len(),
            parts@.len() == i,
            forall|k: int| 0 <= k < i ==> #[trigger] parts@[k]@ == pages@[k].page.url@,
        decreases pages@.len() - i,
    {
        parts.push(to_chars(pages[i].page.url.as_str()));
        i = i + 1;
    }
    let nl = to_chars("\n");
    let mut r = join_chars(&parts, nl.as_slice());
    append_str(&mut r, "\n");
    let ghost pv = exported_views(pages@);
    assert(views(parts@) =~= Seq::new(pv.len(), |k: int| pv[k].page.url));
    from_chars(r.as_slice())
}

// ---------------------------------------------------------------- bundle

/// One section of the bundle: a title (or none), the page URL and its Markdown.
pub struct BundleEntry {
    pub title: Option<String>,
    pub url: String,
    pub markdown: String,
}

pub struct BundleEntryView {
    pub title: Option<Seq<char>>,
    pub url: Seq<char>,
    pub markdown: Seq<char>,
}

impl View for BundleEntry {
    type V = BundleEntryView;

    open spec fn view(&self) -> BundleEntryView {
        BundleEntryView { title: opt_view(self.title), url: self.url@, markdown: self.markdown@ }
    }
}

pub open spec fn entry_views(v: Seq<BundleEntry>) -> Seq<BundleEntryView> {
    Seq::new(v.len(), |i: int| v[i]@)
}

/// A bundle section: the title (else the URL) as a heading, the source URL,
/// and the trimmed Markdown.
pub open spec fn bundle_section(e: BundleEntryView) -> Seq<char> {
    let heading = match e.title {
        Some(t) => t,
        None => e.url,
    };
    "## "@ + heading + "\n\n"@ + "Source: "@ + e.url + "\n\n"@ + trim(e.markdown) + "\n\n"@
}

pub open spec fn bundle_sections(es: Seq<BundleEntryView>) -> Seq<char>
    decreases es.len(),
{
    if es.len() == 0 {
        seq![]
    } else {
        bundle_sections(es.drop_last()) + bundle_section(es.last())
    }
}

/// The single-file bundle: a title line, then one section per entry.
pub open spec fn bundle_spec(es: Seq<BundleEntryView>) -> Seq<char> {
    "# Documentation Bundle\n\n"@ + bundle_sections(es)
}

pub fn render_bundle(entries: &Vec<BundleEntry>) -> (r: String)
    ensures
        r@ == bundle_spec(entry_views(entries@)),
{
    let ghost ev = entry_views(entries@);
    let mut out = to_chars("# Documentation Bundle\n\n");
    let ghost head = out@;
    let mut i: usize = 0;
    assert(ev.take(0) =~= Seq::<BundleEntryView>::empty());
    while i < entries.len()
        invariant
            0 <= i <= entries@.len(),
            ev == entry_views(entries@),
            head == "# Documentation Bundle\n\n"@,
            out@ == head + bundle_sections(ev.take(i as int)),
        decreases entries@.len() - i,
    {
        let e = &entries[i];
        let ghost before = out@;
        append_str(&mut out, "## ");
        match &e.title {
            Some(t) => append_str(&mut out, t.as_str()),
            None => append_str(&mut out, e.url.as_str()),
        }
        append_str(&mut out, "\n\n");
        append_str(&mut out, "Source: ");
        append_str(&mut out, e.url.as_str());
        append_str(&mut out, "\n\n");
        let md = to_chars(e.markdown.as_str());
        let t = trim_chars(md.as_slice());
        append_chars(&mut out, t.as_slice());
        append_str(&mut out, "\n\n");
        assert(ev[i as int] == e@);
        assert(out@ =~= before + bundle_section(ev[i as int]));
        assert(ev.take(i + 1).drop_last() =~= ev.take(i as int));
        i = i + 1;
    }
    assert(ev.take(entries@.len() as int) =~= ev);
    from_chars(out.as_slice())
}

// ---------------------------------------------------------------- summarizing an export

/// The outcome of one page's export as plain values.
pub open spec fn outcome_view(o: Result<(ExportedPage, String), PageError>) -> Result<
    (ExportedPageView, Seq<char>),
    PageErrorView,
> {
    match o {
        Ok((e, c)) => Ok((e@, c@)),
        Err(err) => Err(err@),
    }
}

pub open spec fn outcome_views(v: Seq<Result<(ExportedPage, String), PageError>>) -> Seq<
    Result<(ExportedPageView, Seq<char>), PageErrorView>,
> {
    Seq::new(v.len(), |i: int| outcome_view(v[i]))
}

/// The exported pages with their Markdown, in the order given.
pub open spec fn successes(os: Seq<Result<(ExportedPageView, Seq<char>), PageErrorView>>) -> Seq<
    (ExportedPageView, Seq<char>),
>
    decreases os.len(),
{
    if os.len() == 0 {
        seq![]
    } else {
        match os.last() {
            Ok(x) => successes(os.drop_last()).push(x),
            Err(_) => successes(os.drop_last()),
        }
    }
}

/// The page errors, in the order given.
pub open spec fn failures(os: Seq<Result<(ExportedPageView, Seq<char>), PageErrorView>>) -> Seq<
    PageErrorView,
>
    decreases os.len(),
{
    if os.len() == 0 {
        seq![]
    } else {
        match os.last() {
            Ok(_) => failures(os.drop_last()),
            Err(e) => failures(os.drop_last()).push(e),
        }
    }
}

pub open spec fn url_key(x: (ExportedPageView, Seq<char>)) -> KeyView {
    (0, 0, x.0.page.url)
}

pub open spec fn with_url_keys(items: Seq<(ExportedPageView, Seq<char>)>) -> Seq<
    ((ExportedPageView, Seq<char>), KeyView),
> {
    Seq::new(items.len(), |i: int| (items[i], url_key(items[i])))
}

/// Exported pages ordered by page URL (stable).
pub open spec fn sort_by_page_url(items: Seq<(ExportedPageView, Seq<char>)>) -> Seq<
    (ExportedPageView, Seq<char>),
> {
    firsts(stable_sort(with_url_keys(items)))
}

/// Duplicate detection so far: the first output file of each content hash, the
/// pages, and the bundle entries.
pub struct DedupView {
    pub seen: Seq<(Seq<char>, Seq<char>)>,
    pub pages: Seq<ExportedPageView>,
    pub bundle: Seq<BundleEntryView>,
}

/// The output file recorded for a content hash.
pub open spec fn seen_file(seen: Seq<(Seq<char>, Seq<char>)>, h: Seq<char>) -> Option<Seq<char>>
    decreases seen.len(),
{
    if seen.len() == 0 {
        None
    } else if seen.last().0 == h {
        Some(seen.last().1)
    } else {
        seen_file(seen.drop_last(), h)
    }
}

/// One page: a page whose content hash was seen before is marked skipped, as a
/// duplicate of the first page with that hash; a new hash of a page not
/// already skipped is recorded and the page goes into the bundle. Pages without
/// a hash pass through.
pub open spec fn dedup_step(st: DedupView, x: (ExportedPageView, Seq<char>)) -> DedupView {
    let e = x.0;
    match e.content_hash {
        Some(h) => match seen_file(st.seen, h) {
            Some(existing) => DedupView {
                pages: st.pages.push(
                    ExportedPageView { skipped: true, duplicate_of: Some(existing), ..e },
                ),
                ..st
            },
            None => if !e.skipped {
                DedupView {
                    seen: st.seen.push((h, e.output_file)),
                    pages: st.pages.push(e),
                    bundle: st.bundle.push(
                        BundleEntryView { title: e.title, url: e.page.url, markdown: x.1 },
                    ),
                }
            } else {
                DedupView { pages: st.pages.push(e), ..st }
            },
        },
        None => DedupView { pages: st.pages.push(e), ..st },
    }
}

pub open spec fn dedup_fold(items: Seq<(ExportedPageView, Seq<char>)>) -> DedupView
    decreases items.len(),
{
    if items.len() == 0 {
        DedupView { seen: seq![], pages: seq![], bundle: seq![] }
    } else {
        dedup_step(dedup_fold(items.drop_last()), items.last())
    }
}

/// The pages, errors and bundle entries of an export: successful pages in
/// page-URL order with duplicates marked, errors in the order given.
pub open spec fn summary_spec(os: Seq<Result<(ExportedPageView, Seq<char>), PageErrorView>>) -> (
    Seq<ExportedPageView>,
    Seq<PageErrorView>,
    Seq<BundleEntryView>,
) {
    let d = dedup_fold(sort_by_page_url(successes(os)));
    (d.pages, failures(os), d.bundle)
}

/// What an export produced.
pub struct ExportSummary {
    pub pages: Vec<ExportedPage>,
    pub errors: Vec<PageError>,
    pub bundle: Vec<BundleEntry>,
}

pub open spec fn error_views(v: Seq<PageError>) -> Seq<PageErrorView> {
    Seq::new(v.len(), |i: int| v[i]@)
}

fn seen_file_exec(seen: &Vec<(String, String)>, h: &String) -> (r: Option<String>)
    ensures
        opt_view(r) == seen_file(Seq::new(seen@.len(), |i: int| (seen@[i].0@, seen@[i].1@)), h@),
{
    let ghost sv = Seq::new(seen@.len(), |i: int| (seen@[i].0@, seen@[i].1@));
    let hc = to_chars(h.as_str());
    let mut n: usize = seen.len();
    assert(sv.take(n as int) =~= sv);
    while n > 0
        invariant
            0 <= n <= seen@.len(),
            sv == Seq::new(seen@.len(), |i: int| (seen@[i].0@, seen@[i].1@)),
            hc@ == h@,
            seen_file(sv, h@) == seen_file(sv.take(n as int), h@),
        decreases n,
    {
        let c = to_chars(seen[n - 1].0.as_str());
        assert(sv.take(n as int).last() == sv[n - 1]);
        if crate::text::eq_chars(c.as_slice(), hc.as_slice()) {
            return Some(seen[n - 1].1.clone());
        }
        assert(sv.take(n as int).drop_last() =~= sv.take(n - 1));
        n = n - 1;
    }
    None
}

fn clone_outcome_page(x: &(ExportedPage, String)) -> (r: (ExportedPage, String))
    ensures
        r@ == x@,
{
    (x.0.clone(), x.1.clone())
}

/// Splits page outcomes into pages and errors, orders the pages by URL, marks
/// duplicate content, and collects the bundle entries.
pub fn summarize_exports(results: &Vec<Result<(ExportedPage, String), PageError>>) -> (r:
    ExportSummary)
    ensures
        (exported_views(r.pages@), error_views(r.errors@), entry_views(r.bundle@)) == summary_spec(
            outcome_views(results@),
        ),
{
    let ghost ov = outcome_views(results@);
    let mut keyed: Vec<((ExportedPage, String), SortKey)> = Vec::new();
    let mut errors: Vec<PageError> = Vec::new();
    let mut i: usize = 0;
    assert(ov.take(0) =~= Seq::<Result<(ExportedPageView, Seq<char>), PageErrorView>>::empty());
    while i < results.len()
        invariant
            0 <= i <= results@.len(),
            ov == outcome_views(results@),
            keyed_view(keyed@) == with_url_keys(successes(ov.take(i as int))),
            error_views(errors@) == failures(ov.take(i as int)),
        decreases results@.len() - i,
    {
        assert(ov.take(i + 1).drop_last() =~= ov.take(i as int));
        assert(ov.take(i + 1).last() == outcome_view(results@[i as int]));
        match &results[i] {
            Ok(x) => {
                let item = clone_outcome_page(x);
                let key = SortKey { bucket: 0, depth: 0, text: to_chars(item.0.page.url.as_str()) };
                let ghost before = keyed_view(keyed@);
                let ghost iv = item@;
                assert(successes(ov.take(i + 1)) == successes(ov.take(i as int)).push(iv));
                assert(key_view(key) == url_key(iv));
                keyed.push((item, key));
                assert(keyed_view(keyed@) =~= before.push((iv, url_key(iv))));
                assert(keyed_view(keyed@) =~= with_url_keys(successes(ov.take(i + 1))));
            },
            Err(e) => {
                let ghost before = error_views(errors@);
                errors.push(e.clone());
                assert(error_views(errors@) =~= before.push(e@));
            },
        }
        i = i + 1;
    }
    assert(ov.take(results@.len() as int) =~= ov);
    let sorted = sort_by_key(keyed);
    let ghost sv = firsts(keyed_view(sorted@));
    assert(sv == sort_by_page_url(successes(ov)));
    let mut seen: Vec<(String, String)> = Vec::new();
    let mut pages: Vec<ExportedPage> = Vec::new();
    let mut bundle: Vec<BundleEntry> = Vec::new();
    let mut j: usize = 0;
    assert(sv.take(0) =~= Seq::<(ExportedPageView, Seq<char>)>::empty());
    assert(Seq::new(seen@.len(), |k: int| (seen@[k].0@, seen@[k].1@)) =~= Seq::<
        (Seq<char>, Seq<char>),
    >::empty());
    assert(exported_views(pages@) =~= Seq::<ExportedPageView>::empty());
    assert(entry_views(bundle@) =~= Seq::<BundleEntryView>::empty());
    while j < sorted.len()
        invariant
            0 <= j <= sorted@.len(),
            sv == firsts(keyed_view(sorted@)),
            dedup_fold(sv.take(j as int)) == (DedupView {
                seen: Seq::new(seen@.len(), |k: int| (seen@[k].0@, seen@[k].1@)),
                pages: exported_views(pages@),
                bundle: entry_views(bundle@),
            }),
        decreases sorted@.len() - j,
    {
        let ghost st = dedup_fold(sv.take(j as int));
        assert(sv.take(j + 1).drop_last() =~= sv.take(j as int));
        assert(sv.take(j + 1).last() == sorted@[j as int].0@);
        let e = sorted[j].0.0.clone();
        let content = sorted[j].0.1.clone();
        let ghost x = (e@, content@);
        assert(x == sv[j as int]);
        let ghost seen0 = seen@;
        let ghost pages0 = pages@;
        let ghost bundle0 = bundle@;
        match &e.content_hash {
            Some(h) => {
                match seen_file_exec(&seen, h) {
                    Some(existing) => {
                        let mut d = e.clone();
                        d.skipped = true;
                        d.duplicate_of = Some(existing);
                        pages.push(d);
                    },
                    None => {
                        if !e.skipped {
                            seen.push((h.clone(), e.output_file.clone()));
                            bundle.push(
                                BundleEntry {
                                    title: clone_opt_string(&e.title),
                                    url: e.page.url.clone(),
                                    markdown: content,
                                },
                            );
                            pages.push(e);
                        } else {
                            pages.push(e);
                        }
                    },
                }
            },
            None => {
                pages.push(e);
            },
        }
        assert(exported_views(pages@) =~= dedup_step(st, x).pages);
        assert(Seq::new(seen@.len(), |k: int| (seen@[k].0@, seen@[k].1@)) =~= dedup_step(st, x).seen);
        assert(entry_views(bundle@) =~= dedup_step(st, x).bundle);
        j = j + 1;
    }
    assert(sv.take(sorted@.len() as int) =~= sv);
    ExportSummary { pages, errors, bundle }
}

// ---------------------------------------------------------------- laws of summarizing

/// Ordering exported pages by page URL keeps every page and puts them in
/// non-decreasing URL order.
pub proof fn lemma_sort_by_page_url(items: Seq<(ExportedPageView, Seq<char>)>)
    ensures
        sort_by_page_url(items).len() == items.len(),
        sort_by_page_url(items).to_multiset() == items.to_multiset(),
        forall|i: int, j: int|
            0 <= i < j < items.len() ==> !seq_lt(
                (#[trigger] sort_by_page_url(items)[j]).0.page.url,
                (#[trigger] sort_by_page_url(items)[i]).0.page.url,
            ),
{
    let w = with_url_keys(items);
    lemma_stable_sort(w);
    lemma_firsts_multiset(w);
    assert(firsts(w) =~= items);
    let st = stable_sort(w);
    assert forall|i: int| 0 <= i < st.len() implies #[trigger] st[i].1 == url_key(st[i].0) by {
        broadcast use vstd::seq_lib::group_to_multiset_ensures;

        assert(st.contains(st[i]));
        assert(st.to_multiset().count(st[i]) > 0);
        assert(w.contains(st[i]));
    }
    assert forall|i: int, j: int| 0 <= i < j < items.len() implies !seq_lt(
        (#[trigger] sort_by_page_url(items)[j]).0.page.url,
        (#[trigger] sort_by_page_url(items)[i]).0.page.url,
    ) by {
        assert(st[i].1 == url_key(st[i].0));
        assert(st[j].1 == url_key(st[j].0));
        assert(!key_lt(st[j].1, st[i].1));
    }
}

/// What duplicate detection keeps true of the pages it has gone through.
pub open spec fn dedup_facts(items: Seq<(ExportedPageView, Seq<char>)>, st: DedupView) -> bool {
    &&& st.pages.len() == items.len()
    &&& forall|i: int|
        0 <= i < items.len() ==> (#[trigger] st.pages[i]).page == items[i].0.page
            && st.pages[i].content_hash == items[i].0.content_hash && st.pages[i].output_file
            == items[i].0.output_file
    &&& forall|k: int|
        0 <= k < st.pages.len() && !(#[trigger] st.pages[k]).skipped && st.pages[k].content_hash is Some
            ==> seen_file(st.seen, st.pages[k].content_hash->0) == Some(st.pages[k].output_file)
    &&& forall|k: int, i: int|
        0 <= k < i < st.pages.len() && !(#[trigger] st.pages[k]).skipped
            && st.pages[k].content_hash is Some && (#[trigger] items[i]).0.content_hash
            == st.pages[k].content_hash ==> st.pages[i].skipped && st.pages[i].duplicate_of == Some(
            st.pages[k].output_file,
        )
}

proof fn lemma_dedup_fold(items: Seq<(ExportedPageView, Seq<char>)>)
    ensures
        dedup_facts(items, dedup_fold(items)),
    decreases items.len(),
{
    if items.len() > 0 {
        let prev = items.drop_last();
        lemma_dedup_fold(prev);
        let st = dedup_fold(prev);
        let x = items.last();
        let e = x.0;
        let t = dedup_fold(items);
        assert(t == dedup_step(st, x));
        let n = prev.len() as int;
        assert(t.pages.len() == items.len());
        assert forall|i: int| 0 <= i < items.len() implies (#[trigger] t.pages[i]).page
            == items[i].0.page && t.pages[i].content_hash == items[i].0.content_hash
            && t.pages[i].output_file == items[i].0.output_file by {
            if i < n {
                assert(t.pages[i] == st.pages[i]);
                assert(items[i] == prev[i]);
            }
        }
        assert forall|k: int|
            0 <= k < t.pages.len() && !(#[trigger] t.pages[k]).skipped
                && t.pages[k].content_hash is Some implies seen_file(
            t.seen,
            t.pages[k].content_hash->0,
        ) == Some(t.pages[k].output_file) by {
            let h = t.pages[k].content_hash->0;
            if k < n {
                assert(t.pages[k] == st.pages[k]);
                match e.content_hash {
                    Some(he) => {
                        if seen_file(st.seen, he) is None && !e.skipped {
                            assert(t.seen == st.seen.push((he, e.output_file)));
                            assert(t.seen.drop_last() =~= st.seen);
                            if h == he {
                                assert(false);
                            }
                        }
                    },
                    None => {},
                }
            } else {
                assert(t.seen.drop_last() =~= st.seen);
            }
        }
        assert forall|k: int, i: int|
            0 <= k < i < t.pages.len() && !(#[trigger] t.pages[k]).skipped
                && t.pages[k].content_hash is Some && (#[trigger] items[i]).0.content_hash
                == t.pages[k].content_hash implies t.pages[i].skipped && t.pages[i].duplicate_of
            == Some(t.pages[k].output_file) by {
            assert(t.pages[k] == st.pages[k]);
            if i < n {
                assert(t.pages[i] == st.pages[i]);
                assert(items[i] == prev[i]);
            } else {
                assert(items[i] == x);
                assert(seen_file(st.seen, st.pages[k].content_hash->0) == Some(
                    st.pages[k].output_file,
                ));
            }
        }
    }
}

/// The bundle entry is the page's title, the page's URL and this Markdown.
pub open spec fn entry_of_page(e: BundleEntryView, p: ExportedPageView, markdown: Seq<char>) -> bool {
    e.title == p.title && e.url == p.page.url && e.markdown == markdown
}

/// The entry is made from a page of `pages` that is not skipped, with the
/// Markdown that `items` holds at that page's position.
pub open spec fn entry_from_pages(
    e: BundleEntryView,
    pages: Seq<ExportedPageView>,
    items: Seq<(ExportedPageView, Seq<char>)>,
) -> bool {
    exists|i: int|
        0 <= i < pages.len() && i < items.len() && !(#[trigger] pages[i]).skipped
            && entry_of_page(e, pages[i], items[i].1)
}

/// Each entry of `bundle` is made from a page of `pages` that is not skipped.
pub open spec fn entries_from_pages(
    bundle: Seq<BundleEntryView>,
    pages: Seq<ExportedPageView>,
    items: Seq<(ExportedPageView, Seq<char>)>,
) -> bool {
    forall|k: int| 0 <= k < bundle.len() ==> entry_from_pages(#[trigger] bundle[k], pages, items)
}

/// The bundle has an entry made from the page `p` with this Markdown.
pub open spec fn page_bundled(bundle: Seq<BundleEntryView>, p: ExportedPageView, markdown: Seq<char>) -> bool {
    exists|k: int| 0 <= k < bundle.len() && entry_of_page(#[trigger] bundle[k], p, markdown)
}

/// Every page of `pages` that is kept and has a content hash has its entry in
/// `bundle`.
pub open spec fn kept_pages_bundled(
    bundle: Seq<BundleEntryView>,
    pages: Seq<ExportedPageView>,
    items: Seq<(ExportedPageView, Seq<char>)>,
) -> bool {
    forall|i: int|
        0 <= i < pages.len() && i < items.len() && !pages[i].skipped && pages[i].content_hash is Some
            ==> page_bundled(bundle, #[trigger] pages[i], items[i].1)
}

proof fn lemma_dedup_bundle(items: Seq<(ExportedPageView, Seq<char>)>)
    ensures
        dedup_fold(items).pages.len() == items.len(),
        forall|i: int|
            0 <= i < items.len() ==> (#[trigger] dedup_fold(items).pages[i]).title
                == items[i].0.title,
        entries_from_pages(dedup_fold(items).bundle, dedup_fold(items).pages, items),
        kept_pages_bundled(dedup_fold(items).bundle, dedup_fold(items).pages, items),
    decreases items.len(),
{
    if items.len() > 0 {
        let prev = items.drop_last();
        lemma_dedup_bundle(prev);
        let st = dedup_fold(prev);
        let x = items.last();
        let t = dedup_fold(items);
        assert(t == dedup_step(st, x));
        let n = prev.len() as int;
        assert forall|i: int| 0 <= i < items.len() implies (#[trigger] t.pages[i]).title
            == items[i].0.title by {
            if i < n {
                assert(t.pages[i] == st.pages[i]);
                assert(items[i] == prev[i]);
            }
        }
        assert forall|k: int| 0 <= k < t.bundle.len() implies entry_from_pages(
            #[trigger] t.bundle[k],
            t.pages,
            items,
        ) by {
            if k < st.bundle.len() {
                assert(t.bundle[k] == st.bundle[k]);
                assert(entry_from_pages(st.bundle[k], st.pages, prev));
                let i = choose|i: int|
                    0 <= i < st.pages.len() && i < prev.len() && !(#[trigger] st.pages[i]).skipped
                        && entry_of_page(st.bundle[k], st.pages[i], prev[i].1);
                assert(t.pages[i] == st.pages[i]);
                assert(items[i] == prev[i]);
                assert(entry_of_page(t.bundle[k], t.pages[i], items[i].1));
            } else {
                assert(t.pages[n] == x.0);
                assert(items[n] == x);
                assert(entry_of_page(t.bundle[k], t.pages[n], items[n].1));
            }
        }
        assert(entries_from_pages(t.bundle, t.pages, items));
        assert forall|i: int|
            0 <= i < t.pages.len() && i < items.len() && !t.pages[i].skipped
                && t.pages[i].content_hash is Some implies page_bundled(
            t.bundle,
            #[trigger] t.pages[i],
            items[i].1,
        ) by {
            if i < n {
                assert(t.pages[i] == st.pages[i]);
                assert(items[i] == prev[i]);
                assert(page_bundled(st.bundle, st.pages[i], prev[i].1));
                let k = choose|k: int|
                    0 <= k < st.bundle.len() && entry_of_page(
                        #[trigger] st.bundle[k],
                        st.pages[i],
                        prev[i].1,
                    );
                assert(t.bundle[k] == st.bundle[k]);
            } else {
                assert(items[i] == x);
                let k = t.bundle.len() - 1;
                assert(entry_of_page(t.bundle[k], t.pages[i], items[i].1));
            }
        }
        assert(kept_pages_bundled(t.bundle, t.pages, items));
    } else {
        assert(dedup_fold(items).bundle.len() == 0);
    }
}

/// The bundle holds the exported pages themselves: each entry has the title,
/// the URL and the Markdown of a page of the summary that is not skipped;
/// every page that is not skipped and has a content hash has its entry; and
/// each page of the summary keeps the title it was exported with.
pub proof fn lemma_bundle_entries_are_pages(os: Seq<Result<(ExportedPageView, Seq<char>), PageErrorView>>)
    ensures
        entries_from_pages(summary_spec(os).2, summary_spec(os).0, sort_by_page_url(successes(os))),
        kept_pages_bundled(summary_spec(os).2, summary_spec(os).0, sort_by_page_url(successes(os))),
        forall|i: int|
            0 <= i < summary_spec(os).0.len() ==> (#[trigger] summary_spec(os).0[i]).title
                == sort_by_page_url(successes(os))[i].0.title,
{
    let items = sort_by_page_url(successes(os));
    lemma_dedup_bundle(items);
}

/// Duplicate detection: among the exported pages, those not skipped have
/// distinct content hashes; and a page whose content an earlier kept page
/// already has is marked skipped, naming that page's output file. Each
/// successful page appears once, in page-URL order, with its page, hash and
/// output file as exported.
pub proof fn lemma_summary_dedup(os: Seq<Result<(ExportedPageView, Seq<char>), PageErrorView>>)
    ensures
        ({
            let items = sort_by_page_url(successes(os));
            let pages = summary_spec(os).0;
            &&& items.to_multiset() == successes(os).to_multiset()
            &&& pages.len() == items.len()
            &&& forall|i: int|
                0 <= i < pages.len() ==> (#[trigger] pages[i]).page == items[i].0.page
                    && pages[i].content_hash == items[i].0.content_hash
                    && pages[i].output_file == items[i].0.output_file
            &&& forall|i: int, j: int|
                0 <= i < j < pages.len() ==> !seq_lt(
                    (#[trigger] pages[j]).page.url,
                    (#[trigger] pages[i]).page.url,
                )
            &&& forall|i: int, j: int|
                0 <= i < j < pages.len() && !(#[trigger] pages[i]).skipped
                    && !(#[trigger] pages[j]).skipped && pages[i].content_hash is Some
                    ==> pages[i].content_hash != pages[j].content_hash
            &&& forall|k: int, i: int|
                0 <= k < i < pages.len() && !(#[trigger] pages[k]).skipped
                    && pages[k].content_hash is Some && (#[trigger] items[i]).0.content_hash
                    == pages[k].content_hash ==> pages[i].skipped && pages[i].duplicate_of == Some(
                    pages[k].output_file,
                )
        }),
{
    let items = sort_by_page_url(successes(os));
    lemma_sort_by_page_url(successes(os));
    lemma_dedup_fold(items);
    let pages = summary_spec(os).0;
    assert forall|i: int, j: int|
        0 <= i < j < pages.len() implies !seq_lt(
        (#[trigger] pages[j]).page.url,
        (#[trigger] pages[i]).page.url,
    ) by {
        assert(pages[i].page == items[i].0.page);
        assert(pages[j].page == items[j].0.page);
    }
    assert forall|i: int, j: int|
        0 <= i < j < pages.len() && !(#[trigger] pages[i]).skipped
            && !(#[trigger] pages[j]).skipped && pages[i].content_hash is Some implies pages[i].content_hash
        != pages[j].content_hash by {
        if pages[i].content_hash == pages[j].content_hash {
            assert(items[j].0.content_hash == pages[j].content_hash);
        }
    }
}

// ---------------------------------------------------------------- completeness

/// The page URL an export outcome is about.
pub open spec fn outcome_url(o: Result<(ExportedPageView, Seq<char>), PageErrorView>) -> Seq<char> {
    match o {
        Ok((e, _)) => e.page.url,
        Err(err) => err.url,
    }
}

pub open spec fn outcome_urls(os: Seq<Result<(ExportedPageView, Seq<char>), PageErrorView>>) -> Seq<
    Seq<char>,
> {
    Seq::new(os.len(), |i: int| outcome_url(os[i]))
}

pub open spec fn page_urls(pages: Seq<ExportedPageView>) -> Seq<Seq<char>> {
    Seq::new(pages.len(), |i: int| pages[i].page.url)
}

pub open spec fn error_urls(errors: Seq<PageErrorView>) -> Seq<Seq<char>> {
    Seq::new(errors.len(), |i: int| errors[i].url)
}

pub open spec fn item_urls(items: Seq<(ExportedPageView, Seq<char>)>) -> Seq<Seq<char>> {
    Seq::new(items.len(), |i: int| items[i].0.page.url)
}

proof fn lemma_partition_urls(os: Seq<Result<(ExportedPageView, Seq<char>), PageErrorView>>)
    ensures
        item_urls(successes(os)).to_multiset().add(error_urls(failures(os)).to_multiset())
            == outcome_urls(os).to_multiset(),
        successes(os).len() + failures(os).len() == os.len(),
    decreases os.len(),
{
    broadcast use vstd::multiset::group_multiset_axioms;
    broadcast use vstd::seq_lib::group_to_multiset_ensures;

    if os.len() == 0 {
        assert(item_urls(successes(os)) =~= Seq::<Seq<char>>::empty());
        assert(error_urls(failures(os)) =~= Seq::<Seq<char>>::empty());
        assert(outcome_urls(os) =~= Seq::<Seq<char>>::empty());
        assert(vstd::multiset::Multiset::<Seq<char>>::empty().add(vstd::multiset::Multiset::empty())
            =~= vstd::multiset::Multiset::empty());
    } else {
        let p = os.drop_last();
        lemma_partition_urls(p);
        let u = outcome_url(os.last());
        assert(outcome_urls(os) =~= outcome_urls(p).push(u));
        vstd::seq_lib::to_multiset_build(outcome_urls(p), u);
        let a = item_urls(successes(p));
        let b = error_urls(failures(p));
        assert(a.to_multiset().add(b.to_multiset()) == outcome_urls(p).to_multiset());
        match os.last() {
            Ok(x) => {
                assert(item_urls(successes(os)) =~= a.push(u));
                vstd::seq_lib::to_multiset_build(a, u);
                assert(failures(os) == failures(p));
                assert(a.push(u).to_multiset().add(b.to_multiset()) =~= a.to_multiset().add(
                    b.to_multiset(),
                ).insert(u));
            },
            Err(e) => {
                assert(error_urls(failures(os)) =~= b.push(u));
                vstd::seq_lib::to_multiset_build(b, u);
                assert(successes(os) == successes(p));
                assert(a.to_multiset().add(b.push(u).to_multiset()) =~= a.to_multiset().add(
                    b.to_multiset(),
                ).insert(u));
            },
        }
    }
}

proof fn lemma_sort_keeps_urls(items: Seq<(ExportedPageView, Seq<char>)>)
    ensures
        item_urls(sort_by_page_url(items)).to_multiset() == item_urls(items).to_multiset(),
{
    lemma_stable_sort_urls(with_url_keys(items));
    assert(item_urls(sort_by_page_url(items)) =~= keyed_urls(stable_sort(with_url_keys(items))));
    assert(item_urls(items) =~= keyed_urls(with_url_keys(items)));
}

pub open spec fn keyed_urls(s: Seq<((ExportedPageView, Seq<char>), KeyView)>) -> Seq<Seq<char>> {
    Seq::new(s.len(), |i: int| s[i].0.0.page.url)
}

proof fn lemma_stable_sort_urls(s: Seq<((ExportedPageView, Seq<char>), KeyView)>)
    ensures
        keyed_urls(stable_sort(s)).to_multiset() == keyed_urls(s).to_multiset(),
    decreases s.len(),
{
    if s.len() > 0 {
        let rest = s.drop_first();
        lemma_stable_sort_urls(rest);
        lemma_stable_sort(rest);
        let l = stable_sort(rest);
        crate::sorting::lemma_insertion_point(l, s[0].1);
        let j = crate::sorting::insertion_point(l, s[0].1);
        assert(keyed_urls(crate::sorting::insert_sorted(l, s[0])) =~= keyed_urls(l).insert(
            j,
            s[0].0.0.page.url,
        ));
        vstd::seq_lib::to_multiset_insert(keyed_urls(l), j, s[0].0.0.page.url);
        assert(keyed_urls(s) =~= keyed_urls(rest).insert(0, s[0].0.0.page.url));
        vstd::seq_lib::to_multiset_insert(keyed_urls(rest), 0, s[0].0.0.page.url);
    } else {
        assert(keyed_urls(stable_sort(s)) =~= keyed_urls(s));
    }
}

/// Export completeness: when the page outcomes are one per manifest page (in
/// any order), every manifest page ends in exactly one exported page or one
/// error. The exported pages' URLs together with the errors' URLs are the
/// manifest's page URLs, each as often, and there are as many of them.
pub proof fn lemma_export_complete(
    os: Seq<Result<(ExportedPageView, Seq<char>), PageErrorView>>,
    manifest: Seq<PageRefView>,
)
    requires
        outcome_urls(os).to_multiset() == Seq::new(manifest.len(), |i: int| manifest[i].url).to_multiset(),
    ensures
        summary_spec(os).0.len() + summary_spec(os).1.len() == manifest.len(),
        page_urls(summary_spec(os).0).to_multiset().add(error_urls(summary_spec(os).1).to_multiset())
            == Seq::new(manifest.len(), |i: int| manifest[i].url).to_multiset(),
{
    lemma_partition_urls(os);
    lemma_summary_dedup(os);
    let items = sort_by_page_url(successes(os));
    lemma_sort_keeps_urls(successes(os));
    lemma_sort_by_page_url(successes(os));
    let pages = summary_spec(os).0;
    assert(page_urls(pages) =~= item_urls(items));
    vstd::seq_lib::to_multiset_len(outcome_urls(os));
    vstd::seq_lib::to_multiset_len(Seq::new(manifest.len(), |i: int| manifest[i].url));
}

// ---------------------------------------------------------------- one outcome per page

/// The pages of an export, each with the outcome of its export once it has one.
pub struct ExportRun {
    pages: Vec<PageRef>,
    slots: Vec<Option<Result<(ExportedPage, String), PageError>>>,
}

pub struct ExportRunView {
    pub pages: Seq<PageRefView>,
    pub slots: Seq<Option<Result<(ExportedPageView, Seq<char>), PageErrorView>>>,
}

pub open spec fn slot_view(o: Option<Result<(ExportedPage, String), PageError>>) -> Option<
    Result<(ExportedPageView, Seq<char>), PageErrorView>,
> {
    match o {
        Some(x) => Some(outcome_view(x)),
        None => None,
    }
}

impl View for ExportRun {
    type V = ExportRunView;

    closed spec fn view(&self) -> ExportRunView {
        ExportRunView {
            pages: Seq::new(self.pages@.len(), |i: int| self.pages@[i]@),
            slots: Seq::new(self.slots@.len(), |i: int| slot_view(self.slots@[i])),
        }
    }
}

/// Every page has one slot, and a filled slot holds an outcome about its page.
pub open spec fn run_wf(r: ExportRunView) -> bool {
    &&& r.pages.len() == r.slots.len()
    &&& forall|i: int|
        0 <= i < r.slots.len() && (#[trigger] r.slots[i]) is Some ==> outcome_url(r.slots[i]->0)
            == r.pages[i].url
}

/// Every page has its outcome.
pub open spec fn run_complete(r: ExportRunView) -> bool {
    forall|i: int| 0 <= i < r.slots.len() ==> (#[trigger] r.slots[i]) is Some
}

/// The outcomes, in page order.
pub open spec fn run_outcomes(r: ExportRunView) -> Seq<Result<(ExportedPageView, Seq<char>), PageErrorView>> {
    Seq::new(r.slots.len(), |i: int| r.slots[i]->0)
}

fn clone_outcome(o: &Result<(ExportedPage, String), PageError>) -> (r: Result<(ExportedPage, String), PageError>)
    ensures
        outcome_view(r) == outcome_view(*o),
{
    match o {
        Ok(x) => Ok(clone_outcome_page(x)),
        Err(e) => Err(e.clone()),
    }
}

impl ExportRun {
    /// An export of these pages, none of them done yet.
    pub fn new(pages: Vec<PageRef>) -> (r: ExportRun)
        ensures
            r@.pages == Seq::new(pages@.len(), |i: int| pages@[i]@),
            r@.slots.len() == pages@.len(),
            forall|i: int| 0 <= i < r@.slots.len() ==> (#[trigger] r@.slots[i]) is None,
            run_wf(r@),
    {
        let mut slots: Vec<Option<Result<(ExportedPage, String), PageError>>> = Vec::new();
        let mut i: usize = 0;
        while i < pages.len()
            invariant
                0 <= i <= pages@.len(),
                slots@.len() == i,
                forall|k: int| 0 <= k < i ==> (#[trigger] slots@[k]) is None,
            decreases pages@.len() - i,
        {
            slots.push(None);
            i = i + 1;
        }
        ExportRun { pages, slots }
    }

    /// The number of pages.
    pub fn len(&self) -> (n: usize)
        ensures
            n == self@.pages.len(),
    {
        self.pages.len()
    }

    /// The page with index `i`.
    pub fn page(&self, i: usize) -> (r: Option<PageRef>)
        ensures
            match r {
                Some(p) => i < self@.pages.len() && p@ == self@.pages[i as int],
                None => i >= self@.pages.len(),
            },
    {
        if i < self.pages.len() {
            Some(self.pages[i].clone())
        } else {
            None
        }
    }

    /// Records the outcome of page `i`'s export. It is taken only once per page,
    /// and only when it is about that page.
    pub fn record(&mut self, i: usize, outcome: Result<(ExportedPage, String), PageError>) -> (accepted:
        bool)
        requires
            run_wf(old(self)@),
        ensures
            accepted == (i < old(self)@.slots.len() && old(self)@.slots[i as int] is None
                && outcome_url(outcome_view(outcome)) == old(self)@.pages[i as int].url),
            final(self)@.pages == old(self)@.pages,
            final(self)@.slots == if accepted {
                old(self)@.slots.update(i as int, Some(outcome_view(outcome)))
            } else {
                old(self)@.slots
            },
            run_wf(final(self)@),
    {
        if i >= self.slots.len() || self.slots[i].is_some() {
            return false;
        }
        let u = match &outcome {
            Ok(x) => to_chars(x.0.page.url.as_str()),
            Err(e) => to_chars(e.url.as_str()),
        };
        let p = to_chars(self.pages[i].url.as_str());
        if !crate::text::eq_chars(u.as_slice(), p.as_slice()) {
            return false;
        }
        let ghost before = self@;
        self.slots.set(i, Some(outcome));
        assert(self@.slots =~= before.slots.update(i as int, Some(outcome_view(outcome))));
        assert(self@.pages =~= before.pages);
        true
    }

    /// Ends the export once every page has its outcome: the pages in page-URL
    /// order with duplicates marked, the errors, and the bundle entries. Every
    /// page of the export is then accounted for exactly once, as an exported
    /// page or as an error. `None` while some page has no outcome.
    pub fn finish(&self) -> (r: Option<ExportSummary>)
        requires
            run_wf(self@),
        ensures
            r is Some <==> run_complete(self@),
            r matches Some(s) ==> (exported_views(s.pages@), error_views(s.errors@), entry_views(
                s.bundle@,
            )) == summary_spec(run_outcomes(self@)),
            r matches Some(s) ==> s.pages@.len() + s.errors@.len() == self@.pages.len(),
            r matches Some(s) ==> page_urls(exported_views(s.pages@)).to_multiset().add(
                error_urls(error_views(s.errors@)).to_multiset(),
            ) == Seq::new(self@.pages.len(), |k: int| self@.pages[k].url).to_multiset(),
    {
        let ghost v = self@;
        let mut results: Vec<Result<(ExportedPage, String), PageError>> = Vec::new();
        let mut i: usize = 0;
        while i < self.slots.len()
            invariant
                0 <= i <= self.slots@.len(),
                v == self@,
                run_wf(v),
                results@.len() == i,
                forall|k: int|
                    0 <= k < i ==> v.slots[k] == Some(outcome_view(#[trigger] results@[k])),
            decreases self.slots@.len() - i,
        {
            assert(v.slots[i as int] == slot_view(self.slots@[i as int]));
            match &self.slots[i] {
                Some(o) => results.push(clone_outcome(o)),
                None => return None,
            }
            i = i + 1;
        }
        let s = summarize_exports(&results);
        proof {
            assert forall|k: int| 0 <= k < v.slots.len() implies (#[trigger] v.slots[k]) is Some by {
                assert(v.slots[k] == Some(outcome_view(results@[k])));
            }
            let os = outcome_views(results@);
            assert(os =~= run_outcomes(v));
            let murls = Seq::new(v.pages.len(), |k: int| v.pages[k].url);
            assert(outcome_urls(os) =~= murls);
            lemma_export_complete(os, v.pages);
        }
        Some(s)
    }
}

} // verus!
