//! Link discovery: which URLs are in scope, and the page references found in
//! a page's navigation.
use vstd::prelude::*;

use crate::html::{anchor_matches, anchors_view, html_anchor_matches, Anchor};
use crate::normalize::str_views;
use crate::sorting::{
    insert_sorted, insertion_point, key_lt, key_view, keyed_view, lemma_insertion_point,
    lemma_stable_sort, seq_lt, sort_by_key, stable_sort, KeyView, SortKey,
};
use crate::text::{
    contains, contains_chars, ends_with, ends_with_str, eq_chars, eq_str, from_chars, join,
    join_chars, lemma_views_push, starts_with, starts_with_chars, to_chars, trim, trim_chars,
    split_whitespace, views, words, contains_str,
};
use crate::types::{CrawlOptions, CrawlOptionsView, PageRef, PageRefView};
use crate::extractors::vitepress::{vitepress_link_priority, vitepress_priority};
use crate::urls::{
    join_url_clean, normalize_page_url, normalized_page_url, page_depth, page_depth_exec,
    trim_end_char, trim_end_char_exec, url_join_clean, UrlParts, UrlView,
};

verus! {

/// The path prefix that bounds a crawl: the configured one, else the base
/// URL's path without trailing slashes.
pub open spec fn scope_prefix_spec(base: UrlView, options: CrawlOptionsView) -> Seq<char> {
    match options.scope_prefix {
        Some(p) => p,
        None => trim_end_char(base.path, '/'),
    }
}

pub fn scope_prefix(base_url: &UrlParts, options: &CrawlOptions) -> (r: String)
    ensures
        r@ == scope_prefix_spec(base_url@, options@),
{
    match &options.scope_prefix {
        Some(p) => p.clone(),
        None => {
            let p = to_chars(base_url.path.as_str());
            let t = trim_end_char_exec(p.as_slice(), '/');
            from_chars(t.as_slice())
        },
    }
}

/// Paths of assets that are never pages.
pub open spec fn is_asset_path(path: Seq<char>) -> bool {
    ||| ends_with(path, ".png"@)
    ||| ends_with(path, ".jpg"@)
    ||| ends_with(path, ".jpeg"@)
    ||| ends_with(path, ".gif"@)
    ||| ends_with(path, ".svg"@)
    ||| ends_with(path, ".pdf"@)
    ||| ends_with(path, ".zip"@)
}

/// Some exclusion pattern occurs in the candidate's path or full URL.
pub open spec fn is_excluded(candidate: UrlView, excludes: Seq<Seq<char>>) -> bool {
    exists|i: int|
        0 <= i < excludes.len() && (contains(candidate.path, #[trigger] excludes[i]) || contains(
            candidate.serialization,
            excludes[i],
        ))
}

/// A candidate link is followed when it is on the base URL's domain, is not a
/// CDN helper or asset, lies under the scope prefix (an empty or `/` scope
/// admits every path) and matches no exclusion pattern.
pub open spec fn should_include(candidate: UrlView, base: UrlView, options: CrawlOptionsView) -> bool {
    let scope = scope_prefix_spec(base, options);
    &&& candidate.domain == base.domain
    &&& !contains(candidate.path, "/cdn-cgi/"@)
    &&& !is_asset_path(candidate.path)
    &&& (scope.len() == 0 || scope == "/"@ || starts_with(candidate.path, scope))
    &&& !is_excluded(candidate, options.excludes)
}

fn same_opt_string(a: &Option<String>, b: &Option<String>) -> (r: bool)
    ensures
        r == (match a {
            Some(x) => Some(x@),
            None => None,
        } == match b {
            Some(x) => Some(x@),
            None => None,
        }),
{
    match (a, b) {
        (Some(x), Some(y)) => {
            let xc = to_chars(x.as_str());
            let yc = to_chars(y.as_str());
            eq_chars(xc.as_slice(), yc.as_slice())
        },
        (None, None) => true,
        _ => false,
    }
}

fn is_asset_path_exec(path: &[char]) -> (r: bool)
    ensures
        r == is_asset_path(path@),
{
    ends_with_str(path, ".png") || ends_with_str(path, ".jpg") || ends_with_str(path, ".jpeg")
        || ends_with_str(path, ".gif") || ends_with_str(path, ".svg") || ends_with_str(
        path,
        ".pdf",
    ) || ends_with_str(path, ".zip")
}

fn is_excluded_exec(candidate: &UrlParts, excludes: &Vec<String>) -> (r: bool)
    ensures
        r == is_excluded(candidate@, excludes.deep_view()),
{
    let path = to_chars(candidate.path.as_str());
    let whole = to_chars(candidate.serialization.as_str());
    let mut i: usize = 0;
    while i < excludes.len()
        invariant
            0 <= i <= excludes@.len(),
            path@ == candidate@.path,
            whole@ == candidate@.serialization,
            forall|j: int|
                0 <= j < i ==> !(contains(candidate@.path, #[trigger] excludes.deep_view()[j])
                    || contains(candidate@.serialization, excludes.deep_view()[j])),
        decreases excludes@.len() - i,
    {
        let pat = to_chars(excludes[i].as_str());
        assert(excludes.deep_view()[i as int] == excludes@[i as int]@);
        if contains_chars(path.as_slice(), pat.as_slice()) || contains_chars(
            whole.as_slice(),
            pat.as_slice(),
        ) {
            return true;
        }
        i = i + 1;
    }
    false
}

pub fn should_include_url(candidate: &UrlParts, base_url: &UrlParts, options: &CrawlOptions) -> (r:
    bool)
    ensures
        r == should_include(candidate@, base_url@, options@),
{
    if !same_opt_string(&candidate.domain, &base_url.domain) {
        return false;
    }
    let path = to_chars(candidate.path.as_str());
    if contains_str(path.as_slice(), "/cdn-cgi/") {
        return false;
    }
    if is_asset_path_exec(path.as_slice()) {
        return false;
    }
    let scope = scope_prefix(base_url, options);
    let sc = to_chars(scope.as_str());
    if !(sc.len() == 0 || eq_str(sc.as_slice(), "/") || starts_with_chars(
        path.as_slice(),
        sc.as_slice(),
    )) {
        return false;
    }
    !is_excluded_exec(candidate, &options.excludes)
}

/// Icon words that decorate link text.
pub open spec fn is_icon_word(w: Seq<char>) -> bool {
    w == "chevron-right"@ || w == "arrow-right"@ || w == "external-link"@
}

pub open spec fn icon_filter() -> spec_fn(Seq<char>) -> bool {
    |w: Seq<char>| !is_icon_word(w)
}

/// Link text without icon words, whitespace collapsed.
pub open spec fn clean_link_title_spec(s: Seq<char>) -> Seq<char> {
    trim(join(words(s).filter(icon_filter()), " "@))
}

pub fn clean_link_title(input: &[char]) -> (r: Vec<char>)
    ensures
        r@ == clean_link_title_spec(input@),
{
    let ws = split_whitespace(input);
    let ghost all = views(ws@);
    let mut kept: Vec<Vec<char>> = Vec::new();
    let mut i: usize = 0;
    assert(all.take(0).filter(icon_filter()) =~= Seq::<Seq<char>>::empty()) by {
        reveal_with_fuel(Seq::filter, 1);
    }
    while i < ws.len()
        invariant
            0 <= i <= ws@.len(),
            all == views(ws@),
            all == words(input@),
            views(kept@) == all.take(i as int).filter(icon_filter()),
        decreases ws@.len() - i,
    {
        proof {
            crate::text::lemma_filter_take_step(all, icon_filter(), i as int);
        }
        assert(all[i as int] == ws@[i as int]@);
        let w = ws[i].as_slice();
        let icon = eq_str(w, "chevron-right") || eq_str(w, "arrow-right") || eq_str(
            w,
            "external-link",
        );
        if !icon {
            let c = crate::text::slice_to_vec(w, 0, w.len());
            assert(c@ =~= all[i as int]);
            proof {
                lemma_views_push(kept@, c);
            }
            kept.push(c);
        }
        i = i + 1;
    }
    assert(all.take(ws@.len() as int) =~= all);
    let sp = to_chars(" ");
    let j = join_chars(&kept, sp.as_slice());
    trim_chars(j.as_slice())
}

/// The page a navigation anchor leads to, when it has a target that resolves
/// and is in scope.
pub open spec fn anchor_page(
    base: UrlView,
    options: CrawlOptionsView,
    anchor: (Option<Seq<char>>, Seq<Seq<char>>),
) -> Option<PageRefView> {
    match anchor.0 {
        None => None,
        Some(href) => match url_join_clean(base.serialization, href) {
            None => None,
            Some(c) => if should_include(c, base, options) && page_depth(c) <= usize::MAX {
                let title = clean_link_title_spec(join(anchor.1, " "@));
                Some(
                    PageRefView {
                        url: trim_end_char(c.serialization, '/'),
                        normalized_url: normalized_page_url(c),
                        title: if title.len() == 0 {
                            None
                        } else {
                            Some(title)
                        },
                        depth: page_depth(c) as usize,
                        parent_url: None,
                        markdown_url: None,
                    },
                )
            } else {
                None
            },
        },
    }
}

pub open spec fn has_normalized(pages: Seq<PageRefView>, n: Seq<char>) -> bool {
    exists|i: int| 0 <= i < pages.len() && #[trigger] pages[i].normalized_url == n
}

/// The in-scope pages of a list of anchors, first occurrence of each
/// normalized URL only.
pub open spec fn collect_anchor_pages(
    base: UrlView,
    options: CrawlOptionsView,
    anchors: Seq<(Option<Seq<char>>, Seq<Seq<char>>)>,
) -> Seq<PageRefView>
    decreases anchors.len(),
{
    if anchors.len() == 0 {
        seq![]
    } else {
        let prev = collect_anchor_pages(base, options, anchors.drop_last());
        match anchor_page(base, options, anchors.last()) {
            Some(p) => if has_normalized(prev, p.normalized_url) {
                prev
            } else {
                prev.push(p)
            },
            None => prev,
        }
    }
}

/// Pages found by the first selector (in order) that yields any; a selector
/// that does not parse is passed over.
pub open spec fn nav_pages_from(
    base: UrlView,
    html: Seq<char>,
    options: CrawlOptionsView,
    sels: Seq<Seq<char>>,
    i: int,
) -> Seq<PageRefView>
    decreases sels.len() - i,
{
    if i < 0 || i >= sels.len() {
        seq![]
    } else {
        let found = match html_anchor_matches(html, sels[i]) {
            Some(anchors) => collect_anchor_pages(base, options, anchors),
            None => seq![],
        };
        if found.len() > 0 {
            found
        } else {
            nav_pages_from(base, html, options, sels, i + 1)
        }
    }
}

pub open spec fn page_views(v: Seq<PageRef>) -> Seq<PageRefView> {
    Seq::new(v.len(), |i: int| v[i]@)
}

/// How discovered pages are ordered.
#[derive(Clone, Copy, PartialEq, Eq, Structural)]
pub enum PageOrder {
    /// By URL.
    ByUrl,
    /// Core docs first, locale variants last, shallower first, then by URL.
    VitePressPriority,
}

/// The sort key of a page.
pub open spec fn page_key(order: PageOrder, p: PageRefView) -> KeyView {
    match order {
        PageOrder::ByUrl => (0, 0, p.url),
        PageOrder::VitePressPriority => {
            let pr = vitepress_priority(p.url);
            (pr.0, pr.1, p.url)
        },
    }
}

pub open spec fn with_keys(order: PageOrder, s: Seq<PageRefView>) -> Seq<(PageRefView, KeyView)> {
    Seq::new(s.len(), |i: int| (s[i], page_key(order, s[i])))
}

fn page_key_exec(order: PageOrder, p: &PageRef) -> (k: SortKey)
    ensures
        key_view(k) == page_key(order, p@),
{
    match order {
        PageOrder::ByUrl => SortKey { bucket: 0, depth: 0, text: to_chars(p.url.as_str()) },
        PageOrder::VitePressPriority => {
            let (b, d) = vitepress_link_priority(p.url.as_str());
            SortKey { bucket: b as u64, depth: d as u64, text: to_chars(p.url.as_str()) }
        },
    }
}

pub open spec fn firsts<A, B>(s: Seq<(A, B)>) -> Seq<A> {
    Seq::new(s.len(), |i: int| s[i].0)
}

/// Pages ordered by the given order (stable).
pub open spec fn sort_pages_by(order: PageOrder, s: Seq<PageRefView>) -> Seq<PageRefView> {
    firsts(stable_sort(with_keys(order, s)))
}

/// Stable sorting keeps every element, each as often as it occurs.
pub proof fn lemma_firsts_multiset<T>(s: Seq<(T, KeyView)>)
    ensures
        firsts(stable_sort(s)).to_multiset() == firsts(s).to_multiset(),
    decreases s.len(),
{
    if s.len() > 0 {
        let rest = s.drop_first();
        lemma_firsts_multiset(rest);
        lemma_stable_sort(rest);
        let l = stable_sort(rest);
        lemma_insertion_point(l, s[0].1);
        let j = insertion_point(l, s[0].1);
        assert(firsts(insert_sorted(l, s[0])) =~= firsts(l).insert(j, s[0].0));
        vstd::seq_lib::to_multiset_insert(firsts(l), j, s[0].0);
        assert(firsts(s) =~= firsts(rest).insert(0, s[0].0));
        vstd::seq_lib::to_multiset_insert(firsts(rest), 0, s[0].0);
    } else {
        assert(firsts(stable_sort(s)) =~= firsts(s));
    }
}

/// Ordering pages keeps every page (as many times as it occurs) and puts them
/// in the order's key order; pages with equal keys keep their relative order.
pub proof fn lemma_sort_pages_by(order: PageOrder, s: Seq<PageRefView>)
    ensures
        sort_pages_by(order, s).len() == s.len(),
        sort_pages_by(order, s).to_multiset() == s.to_multiset(),
        forall|i: int, j: int|
            0 <= i < j < s.len() ==> !key_lt(
                page_key(order, #[trigger] sort_pages_by(order, s)[j]),
                page_key(order, #[trigger] sort_pages_by(order, s)[i]),
            ),
{
    let w = with_keys(order, s);
    lemma_stable_sort(w);
    lemma_firsts_multiset(w);
    assert(firsts(w) =~= s);
    let st = stable_sort(w);
    assert forall|i: int| 0 <= i < st.len() implies #[trigger] st[i].1 == page_key(order, st[i].0) by {
        broadcast use vstd::seq_lib::group_to_multiset_ensures;

        assert(st.contains(st[i]));
        assert(st.to_multiset().count(st[i]) > 0);
        assert(w.contains(st[i]));
    }
    assert forall|i: int, j: int| 0 <= i < j < s.len() implies !key_lt(
        page_key(order, #[trigger] sort_pages_by(order, s)[j]),
        page_key(order, #[trigger] sort_pages_by(order, s)[i]),
    ) by {
        assert(st[i].1 == page_key(order, st[i].0));
        assert(st[j].1 == page_key(order, st[j].0));
    }
}

/// Pages ordered by URL come out in non-decreasing URL order, each page kept.
pub proof fn lemma_sort_pages_by_url(s: Seq<PageRefView>)
    ensures
        sort_pages_by_url(s).len() == s.len(),
        sort_pages_by_url(s).to_multiset() == s.to_multiset(),
        forall|i: int, j: int|
            0 <= i < j < s.len() ==> !seq_lt(
                (#[trigger] sort_pages_by_url(s)[j]).url,
                (#[trigger] sort_pages_by_url(s)[i]).url,
            ),
{
    lemma_sort_pages_by(PageOrder::ByUrl, s);
    assert forall|i: int, j: int| 0 <= i < j < s.len() implies !seq_lt(
        (#[trigger] sort_pages_by_url(s)[j]).url,
        (#[trigger] sort_pages_by_url(s)[i]).url,
    ) by {
        assert(!key_lt(
            page_key(PageOrder::ByUrl, sort_pages_by(PageOrder::ByUrl, s)[j]),
            page_key(PageOrder::ByUrl, sort_pages_by(PageOrder::ByUrl, s)[i]),
        ));
    }
}

/// Pages ordered by URL (stable).
pub open spec fn sort_pages_by_url(s: Seq<PageRefView>) -> Seq<PageRefView> {
    sort_pages_by(PageOrder::ByUrl, s)
}

/// The pages a navigation yields, ordered by URL.
pub open spec fn discovered_nav_links(
    base: UrlView,
    html: Seq<char>,
    options: CrawlOptionsView,
    sels: Seq<Seq<char>>,
) -> Seq<PageRefView> {
    sort_pages_by_url(nav_pages_from(base, html, options, sels, 0))
}

/// The page stands for a link target that the scope rules admit.
pub open spec fn page_in_scope(p: PageRefView, base: UrlView, options: CrawlOptionsView) -> bool {
    exists|c: UrlView|
        #[trigger] should_include(c, base, options) && p.url == trim_end_char(c.serialization, '/')
            && p.normalized_url == normalized_page_url(c)
}

proof fn lemma_collect_in_scope(
    base: UrlView,
    options: CrawlOptionsView,
    anchors: Seq<(Option<Seq<char>>, Seq<Seq<char>>)>,
)
    ensures
        forall|k: int|
            0 <= k < collect_anchor_pages(base, options, anchors).len() ==> page_in_scope(
                #[trigger] collect_anchor_pages(base, options, anchors)[k],
                base,
                options,
            ),
    decreases anchors.len(),
{
    if anchors.len() > 0 {
        lemma_collect_in_scope(base, options, anchors.drop_last());
        let prev = collect_anchor_pages(base, options, anchors.drop_last());
        let r = collect_anchor_pages(base, options, anchors);
        assert forall|k: int| 0 <= k < r.len() implies page_in_scope(#[trigger] r[k], base, options) by {
            if k < prev.len() {
                assert(r[k] == prev[k]);
            } else {
                let a = anchors.last();
                let href = a.0->0;
                let c = url_join_clean(base.serialization, href)->0;
                assert(should_include(c, base, options));
            }
        }
    }
}

proof fn lemma_nav_pages_in_scope(
    base: UrlView,
    html: Seq<char>,
    options: CrawlOptionsView,
    sels: Seq<Seq<char>>,
    i: int,
)
    ensures
        forall|k: int|
            0 <= k < nav_pages_from(base, html, options, sels, i).len() ==> page_in_scope(
                #[trigger] nav_pages_from(base, html, options, sels, i)[k],
                base,
                options,
            ),
    decreases sels.len() - i,
{
    if 0 <= i < sels.len() {
        lemma_nav_pages_in_scope(base, html, options, sels, i + 1);
        let found = match html_anchor_matches(html, sels[i]) {
            Some(anchors) => collect_anchor_pages(base, options, anchors),
            None => seq![],
        };
        match html_anchor_matches(html, sels[i]) {
            Some(anchors) => lemma_collect_in_scope(base, options, anchors),
            None => {},
        }
        let r = nav_pages_from(base, html, options, sels, i);
        assert forall|k: int| 0 <= k < r.len() implies page_in_scope(#[trigger] r[k], base, options) by {
            if found.len() > 0 {
                assert(r[k] == found[k]);
            } else {
                assert(r[k] == nav_pages_from(base, html, options, sels, i + 1)[k]);
            }
        }
    }
}

/// Every page that a navigation yields is a link target that the scope rules
/// admit: on the base URL's domain, under the scope prefix, not an asset or
/// CDN helper, and matching no exclusion pattern.
pub proof fn lemma_discovered_in_scope(
    order: PageOrder,
    base: UrlView,
    html: Seq<char>,
    options: CrawlOptionsView,
    sels: Seq<Seq<char>>,
)
    ensures
        forall|k: int|
            0 <= k < sort_pages_by(order, discovered_nav_links(base, html, options, sels)).len()
                ==> page_in_scope(
                #[trigger] sort_pages_by(order, discovered_nav_links(base, html, options, sels))[k],
                base,
                options,
            ),
        forall|k: int|
            0 <= k < discovered_nav_links(base, html, options, sels).len() ==> page_in_scope(
                #[trigger] discovered_nav_links(base, html, options, sels)[k],
                base,
                options,
            ),
{
    let found = nav_pages_from(base, html, options, sels, 0);
    lemma_nav_pages_in_scope(base, html, options, sels, 0);
    lemma_sort_pages_by(PageOrder::ByUrl, found);
    let d = discovered_nav_links(base, html, options, sels);
    assert forall|k: int| 0 <= k < d.len() implies page_in_scope(#[trigger] d[k], base, options) by {
        broadcast use vstd::seq_lib::group_to_multiset_ensures;

        assert(d.contains(d[k]));
        assert(d.to_multiset().count(d[k]) > 0);
        assert(found.contains(d[k]));
    }
    lemma_sort_pages_by(order, d);
    let r = sort_pages_by(order, d);
    assert forall|k: int| 0 <= k < r.len() implies page_in_scope(#[trigger] r[k], base, options) by {
        broadcast use vstd::seq_lib::group_to_multiset_ensures;

        assert(r.contains(r[k]));
        assert(r.to_multiset().count(r[k]) > 0);
        assert(d.contains(r[k]));
    }
}

/// The path ends like an image, a PDF document or a ZIP archive.
pub open spec fn has_asset_suffix(path: Seq<char>) -> bool {
    ||| ends_with(path, ".png"@)
    ||| ends_with(path, ".jpg"@)
    ||| ends_with(path, ".jpeg"@)
    ||| ends_with(path, ".gif"@)
    ||| ends_with(path, ".svg"@)
    ||| ends_with(path, ".pdf"@)
    ||| ends_with(path, ".zip"@)
}

/// Assets are never followed: a candidate whose path ends with `.png`,
/// `.jpg`, `.jpeg`, `.gif`, `.svg`, `.pdf` or `.zip` is not included, whatever
/// the base URL and the options.
pub proof fn lemma_assets_excluded(candidate: UrlView, base: UrlView, options: CrawlOptionsView)
    ensures
        ends_with(candidate.path, ".png"@) || ends_with(candidate.path, ".jpg"@) || ends_with(
            candidate.path,
            ".jpeg"@,
        ) || ends_with(candidate.path, ".gif"@) || ends_with(candidate.path, ".svg"@) || ends_with(
            candidate.path,
            ".pdf"@,
        ) || ends_with(candidate.path, ".zip"@) ==> !should_include(candidate, base, options),
{
}

/// The page stands for a link target that the scope rules admit and whose
/// path has no asset suffix.
pub open spec fn non_asset_page(p: PageRefView, base: UrlView, options: CrawlOptionsView) -> bool {
    exists|c: UrlView|
        #[trigger] should_include(c, base, options) && !has_asset_suffix(c.path) && p.url
            == trim_end_char(c.serialization, '/') && p.normalized_url == normalized_page_url(c)
}

/// A page in scope stands for a link target without an asset suffix.
pub proof fn lemma_in_scope_not_asset(p: PageRefView, base: UrlView, options: CrawlOptionsView)
    requires
        page_in_scope(p, base, options),
    ensures
        non_asset_page(p, base, options),
{
    let c = choose|c: UrlView|
        #[trigger] should_include(c, base, options) && p.url == trim_end_char(c.serialization, '/')
            && p.normalized_url == normalized_page_url(c);
    lemma_assets_excluded(c, base, options);
}

/// Sorts pages by URL (stable).
pub fn sort_pages(pages: Vec<PageRef>) -> (r: Vec<PageRef>)
    ensures
        page_views(r@) == sort_pages_by_url(page_views(pages@)),
{
    sort_pages_in(pages, PageOrder::ByUrl)
}

/// Sorts pages in the given order (stable).
pub fn sort_pages_in(pages: Vec<PageRef>, order: PageOrder) -> (r: Vec<PageRef>)
    ensures
        page_views(r@) == sort_pages_by(order, page_views(pages@)),
{
    let ghost orig = page_views(pages@);
    let mut pages = pages;
    let mut keyed: Vec<(PageRef, SortKey)> = Vec::new();
    while pages.len() > 0
        invariant
            pages@.len() + keyed@.len() == orig.len(),
            page_views(pages@) == orig.skip(keyed@.len() as int),
            keyed_view(keyed@) == with_keys(order, orig.take(keyed@.len() as int)),
        decreases pages@.len(),
    {
        let ghost m = keyed@.len() as int;
        let ghost old_pages = pages@;
        let ghost old_keyed = keyed@;
        let p = pages.remove(0);
        assert(page_views(old_pages)[0] == p@);
        assert(orig.skip(m)[0] == p@);
        assert forall|i: int| 0 <= i < pages@.len() implies page_views(pages@)[i] == orig.skip(
            m + 1,
        )[i] by {
            assert(pages@[i] == old_pages[i + 1]);
            assert(page_views(old_pages)[i + 1] == orig.skip(m)[i + 1]);
        }
        assert(page_views(pages@) =~= orig.skip(m + 1));
        let key = page_key_exec(order, &p);
        keyed.push((p, key));
        assert forall|i: int| 0 <= i < keyed@.len() implies keyed_view(keyed@)[i] == with_keys(order, 
            orig.take(m + 1),
        )[i] by {
            if i < m {
                assert(keyed@[i] == old_keyed[i]);
                assert(keyed_view(old_keyed)[i] == with_keys(order, orig.take(m))[i]);
            }
        }
        assert(keyed_view(keyed@) =~= with_keys(order, orig.take(m + 1)));
    }
    assert(orig.take(orig.len() as int) =~= orig);
    let mut sorted = sort_by_key(keyed);
    let ghost sv = keyed_view(sorted@);
    let mut out: Vec<PageRef> = Vec::new();
    while sorted.len() > 0
        invariant
            sorted@.len() + out@.len() == sv.len(),
            keyed_view(sorted@) == sv.skip(out@.len() as int),
            page_views(out@) == firsts(sv.take(out@.len() as int)),
        decreases sorted@.len(),
    {
        let ghost m = out@.len() as int;
        let ghost old_sorted = sorted@;
        let ghost old_out = out@;
        let (p, _k) = sorted.remove(0);
        assert(keyed_view(old_sorted)[0].0 == p@);
        assert(sv.skip(m)[0].0 == p@);
        assert forall|i: int| 0 <= i < sorted@.len() implies keyed_view(sorted@)[i] == sv.skip(
            m + 1,
        )[i] by {
            assert(sorted@[i] == old_sorted[i + 1]);
            assert(keyed_view(old_sorted)[i + 1] == sv.skip(m)[i + 1]);
        }
        assert(keyed_view(sorted@) =~= sv.skip(m + 1));
        out.push(p);
        assert forall|i: int| 0 <= i < out@.len() implies page_views(out@)[i] == firsts(
            sv.take(m + 1),
        )[i] by {
            if i < m {
                assert(out@[i] == old_out[i]);
                assert(page_views(old_out)[i] == firsts(sv.take(m))[i]);
            }
        }
        assert(page_views(out@) =~= firsts(sv.take(m + 1)));
    }
    assert(sv.take(sv.len() as int) =~= sv);
    out
}

pub fn has_normalized_exec(pages: &Vec<PageRef>, n: &String) -> (r: bool)
    ensures
        r == has_normalized(page_views(pages@), n@),
{
    let nc = to_chars(n.as_str());
    let mut i: usize = 0;
    while i < pages.len()
        invariant
            0 <= i <= pages@.len(),
            nc@ == n@,
            forall|j: int| 0 <= j < i ==> #[trigger] page_views(pages@)[j].normalized_url != n@,
        decreases pages@.len() - i,
    {
        let pc = to_chars(pages[i].normalized_url.as_str());
        if eq_chars(pc.as_slice(), nc.as_slice()) {
            assert(page_views(pages@)[i as int].normalized_url == n@);
            return true;
        }
        i = i + 1;
    }
    false
}

pub open spec fn opt_page_view(o: Option<PageRef>) -> Option<PageRefView> {
    match o {
        Some(p) => Some(p@),
        None => None,
    }
}

fn anchor_page_exec(base: &UrlParts, options: &CrawlOptions, anchor: &Anchor) -> (r: Option<PageRef>)
    ensures
        opt_page_view(r) == anchor_page(base@, options@, crate::html::anchor_view(*anchor)),
{
    match &anchor.href {
        None => None,
        Some(href) => match join_url_clean(base.serialization.as_str(), href.as_str()) {
            None => None,
            Some(c) => {
                if !should_include_url(&c, base, options) {
                    return None;
                }
                let normalized_url = normalize_page_url(&c);
                let parts = crate::normalize::strings_to_chars(&anchor.texts);
                let sp = to_chars(" ");
                let joined = join_chars(&parts, sp.as_slice());
                let t = clean_link_title(joined.as_slice());
                let title = if t.len() == 0 {
                    None
                } else {
                    Some(from_chars(t.as_slice()))
                };
                let depth = page_depth_exec(&c);
                let sc = to_chars(c.serialization.as_str());
                let url = from_chars(trim_end_char_exec(sc.as_slice(), '/').as_slice());
                Some(
                    PageRef {
                        url,
                        normalized_url,
                        title,
                        depth,
                        parent_url: None,
                        markdown_url: None,
                    },
                )
            },
        },
    }
}

fn collect_anchor_pages_exec(base: &UrlParts, options: &CrawlOptions, anchors: &Vec<Anchor>) -> (r:
    Vec<PageRef>)
    ensures
        page_views(r@) == collect_anchor_pages(base@, options@, anchors_view(anchors@)),
{
    let ghost av = anchors_view(anchors@);
    let mut pages: Vec<PageRef> = Vec::new();
    let mut i: usize = 0;
    assert(av.take(0) =~= Seq::<(Option<Seq<char>>, Seq<Seq<char>>)>::empty());
    assert(page_views(pages@) =~= Seq::<PageRefView>::empty());
    while i < anchors.len()
        invariant
            0 <= i <= anchors@.len(),
            av == anchors_view(anchors@),
            page_views(pages@) == collect_anchor_pages(base@, options@, av.take(i as int)),
        decreases anchors@.len() - i,
    {
        assert(av.take(i + 1).drop_last() =~= av.take(i as int));
        assert(av.take(i + 1).last() == crate::html::anchor_view(anchors@[i as int]));
        match anchor_page_exec(base, options, &anchors[i]) {
            Some(p) => {
                if !has_normalized_exec(&pages, &p.normalized_url) {
                    let ghost before = pages@;
                    pages.push(p);
                    assert(page_views(pages@) =~= page_views(before).push(p@));
                }
            },
            None => {},
        }
        i = i + 1;
    }
    assert(av.take(anchors@.len() as int) =~= av);
    pages
}

/// Pages linked from the navigation, ordered by URL: the anchors of the first
/// selector that yields an in-scope page, resolved against `base_url`, scoped,
/// and kept once per normalized URL.
pub fn discover_nav_links(base_url: &UrlParts, html: &str, options: &CrawlOptions, selectors: &[&str]) -> (r:
    Vec<PageRef>)
    ensures
        page_views(r@) == discovered_nav_links(base_url@, html@, options@, str_views(selectors@)),
{
    let ghost sels = str_views(selectors@);
    let mut i: usize = 0;
    while i < selectors.len()
        invariant
            0 <= i <= selectors@.len(),
            sels == str_views(selectors@),
            nav_pages_from(base_url@, html@, options@, sels, 0) == nav_pages_from(
                base_url@,
                html@,
                options@,
                sels,
                i as int,
            ),
        decreases selectors@.len() - i,
    {
        assert(sels[i as int] == selectors@[i as int]@);
        match anchor_matches(html, selectors[i]) {
            Some(anchors) => {
                let found = collect_anchor_pages_exec(base_url, options, &anchors);
                if found.len() > 0 {
                    return sort_pages(found);
                }
            },
            None => {},
        }
        i = i + 1;
    }
    let empty: Vec<PageRef> = Vec::new();
    assert(page_views(empty@) =~= Seq::<PageRefView>::empty());
    sort_pages(empty)
}

/// The navigation selectors tried when a framework names none of its own.
pub open spec fn default_nav_selectors_spec() -> Seq<Seq<char>> {
    seq![
        "aside a[href]"@,
        "nav a[href]"@,
        "[data-testid*='sidebar'] a[href]"@,
        "#SUMMARY a[href]"@,
        "main a[href]"@,
        "a[href]"@,
    ]
}

pub fn default_nav_selectors() -> (r: Vec<&'static str>)
    ensures
        str_views(r@) == default_nav_selectors_spec(),
{
    let r = vec![
        "aside a[href]",
        "nav a[href]",
        "[data-testid*='sidebar'] a[href]",
        "#SUMMARY a[href]",
        "main a[href]",
        "a[href]",
    ];
    assert(str_views(r@) =~= default_nav_selectors_spec());
    r
}

} // verus!
