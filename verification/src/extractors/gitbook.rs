//! GitBook (modern Next.js-based sites and classic sites).
use vstd::prelude::*;

use crate::extractors::signals::{
    any_signal_contains, any_signal_contains_exec, gather, lower_body, lower_content_type,
    lowercase_of, push_if,
};
use crate::text::{contains, str_contains};
use crate::types::{FetchResult, FetchResultView};
use crate::urls::{only_slashes, only_slashes_exec, trim_end_char, trim_end_char_exec, UrlParts, UrlView};
use crate::text::{append_str, from_chars, to_chars};

verus! {

/// Modern GitBook: powered-by text, Next.js runtime, and a GitBook URL.
pub struct GitBookModern;

/// Classic GitBook: `data-gitbook` markers or GitBook mentions.
pub struct GitBookClassic;

pub open spec fn gitbook_modern_conditions(r: FetchResultView) -> Seq<(bool, Seq<char>)> {
    let body = lower_body(r);
    let ct = lower_content_type(r);
    seq![
        (contains(body, "powered by gitbook"@), "body:powered-by-gitbook"@),
        (contains(body, "__next"@) || contains(body, "data-dpl-id"@), "body:next-runtime"@),
        (contains(ct, "text/html"@) && contains(r.final_url, "gitbook"@), "url:gitbook"@),
    ]
}

/// Detected when a GitBook signal comes with the Next.js runtime, or when the
/// page carries a deployment id.
pub open spec fn detect_gitbook_modern(r: FetchResultView) -> Option<Seq<Seq<char>>> {
    let signals = gather(gitbook_modern_conditions(r));
    let body = lower_body(r);
    if (any_signal_contains(signals, "gitbook"@) && contains(body, "__next"@)) || contains(
        body,
        "data-dpl-id"@,
    ) {
        Some(signals)
    } else {
        None
    }
}

pub open spec fn gitbook_classic_conditions(r: FetchResultView) -> Seq<(bool, Seq<char>)> {
    let body = lower_body(r);
    seq![
        (contains(body, "data-gitbook"@), "body:data-gitbook"@),
        (contains(body, "gitbook-plugin"@) || contains(body, "gitbook"@), "body:gitbook"@),
    ]
}

pub open spec fn detect_gitbook_classic(r: FetchResultView) -> Option<Seq<Seq<char>>> {
    let signals = gather(gitbook_classic_conditions(r));
    if signals.len() == 0 {
        None
    } else {
        Some(signals)
    }
}

pub open spec fn signals_view(r: Option<Vec<String>>) -> Option<Seq<Seq<char>>> {
    match r {
        Some(v) => Some(v.deep_view()),
        None => None,
    }
}

pub fn detect_modern(response: &FetchResult) -> (r: Option<Vec<String>>)
    ensures
        signals_view(r) == detect_gitbook_modern(response@),
{
    let body = lowercase_of(response.body.as_str());
    let ct_raw = match &response.content_type {
        Some(c) => c.clone(),
        None => String::new(),
    };
    let ct = lowercase_of(ct_raw.as_str());
    let ghost conds = gitbook_modern_conditions(response@);
    let mut signals: Vec<String> = Vec::new();
    assert(signals.deep_view() =~= gather(conds.take(0)));
    push_if(&mut signals, str_contains(body.as_str(), "powered by gitbook"), "body:powered-by-gitbook", Ghost(conds.take(0)));
    assert(conds.take(0).push(conds[0]) =~= conds.take(1));
    let next = str_contains(body.as_str(), "__next") || str_contains(body.as_str(), "data-dpl-id");
    push_if(&mut signals, next, "body:next-runtime", Ghost(conds.take(1)));
    assert(conds.take(1).push(conds[1]) =~= conds.take(2));
    let url = str_contains(ct.as_str(), "text/html") && str_contains(response.final_url.as_str(), "gitbook");
    push_if(&mut signals, url, "url:gitbook", Ghost(conds.take(2)));
    assert(conds.take(2).push(conds[2]) =~= conds);
    if (any_signal_contains_exec(&signals, "gitbook") && str_contains(body.as_str(), "__next"))
        || str_contains(body.as_str(), "data-dpl-id") {
        Some(signals)
    } else {
        None
    }
}

pub fn detect_classic(response: &FetchResult) -> (r: Option<Vec<String>>)
    ensures
        signals_view(r) == detect_gitbook_classic(response@),
{
    let body = lowercase_of(response.body.as_str());
    let ghost conds = gitbook_classic_conditions(response@);
    let mut signals: Vec<String> = Vec::new();
    assert(signals.deep_view() =~= gather(conds.take(0)));
    push_if(&mut signals, str_contains(body.as_str(), "data-gitbook"), "body:data-gitbook", Ghost(conds.take(0)));
    assert(conds.take(0).push(conds[0]) =~= conds.take(1));
    let g = str_contains(body.as_str(), "gitbook-plugin") || str_contains(body.as_str(), "gitbook");
    push_if(&mut signals, g, "body:gitbook", Ghost(conds.take(1)));
    assert(conds.take(1).push(conds[1]) =~= conds);
    if signals.len() == 0 {
        None
    } else {
        Some(signals)
    }
}

/// The Markdown twin of a GitBook page: the page URL (trailing `/`s removed)
/// plus `.md`, or plus `root_suffix` for the site root.
pub open spec fn gitbook_markdown_url(u: UrlView, root_suffix: Seq<char>) -> Seq<char> {
    let clean = trim_end_char(u.serialization, '/');
    if only_slashes(u.path) {
        clean + root_suffix
    } else {
        clean + ".md"@
    }
}

pub fn markdown_url(page_url: &UrlParts, root_suffix: &str) -> (r: String)
    ensures
        r@ == gitbook_markdown_url(page_url@, root_suffix@),
{
    let s = to_chars(page_url.serialization.as_str());
    let mut clean = trim_end_char_exec(s.as_slice(), '/');
    let p = to_chars(page_url.path.as_str());
    if only_slashes_exec(p.as_slice()) {
        append_str(&mut clean, root_suffix);
    } else {
        append_str(&mut clean, ".md");
    }
    from_chars(clean.as_slice())
}

} // verus!
