//! VitePress sites.
use vstd::prelude::*;

use crate::extractors::gitbook::signals_view;
use crate::extractors::signals::{gather, lower_body, lowercase_of, push_if};
use crate::text::{contains, eq_str, str_contains, to_chars};
use crate::types::{FetchResult, FetchResultView};
use crate::urls::{first_segment, first_segment_exec, parse_url, segment_count, segment_count_exec, url_parse};

verus! {

/// VitePress: `vitepress` mentions or `VP` layout classes.
pub struct VitePress;

pub open spec fn vitepress_conditions(r: FetchResultView) -> Seq<(bool, Seq<char>)> {
    let body = lower_body(r);
    seq![
        (contains(body, "vitepress"@), "body:vitepress"@),
        (contains(body, "vpsidebar"@) || contains(body, "vpdoc"@) || contains(body, "vpnav"@), "body:vp-layout"@),
    ]
}

pub open spec fn detect_vitepress(r: FetchResultView) -> Option<Seq<Seq<char>>> {
    let signals = gather(vitepress_conditions(r));
    if signals.len() == 0 {
        None
    } else {
        Some(signals)
    }
}

pub fn detect(response: &FetchResult) -> (r: Option<Vec<String>>)
    ensures
        signals_view(r) == detect_vitepress(response@),
{
    let body = lowercase_of(response.body.as_str());
    let ghost conds = vitepress_conditions(response@);
    let mut signals: Vec<String> = Vec::new();
    assert(signals.deep_view() =~= gather(conds.take(0)));
    push_if(&mut signals, str_contains(body.as_str(), "vitepress"), "body:vitepress", Ghost(conds.take(0)));
    assert(conds.take(0).push(conds[0]) =~= conds.take(1));
    let layout = str_contains(body.as_str(), "vpsidebar") || str_contains(body.as_str(), "vpdoc")
        || str_contains(body.as_str(), "vpnav");
    push_if(&mut signals, layout, "body:vp-layout", Ghost(conds.take(1)));
    assert(conds.take(1).push(conds[1]) =~= conds);
    if signals.len() == 0 {
        None
    } else {
        Some(signals)
    }
}

pub open spec fn is_ascii_alpha(c: char) -> bool {
    ('a' <= c && c <= 'z') || ('A' <= c && c <= 'Z')
}

/// A locale segment: two ASCII letters, optionally followed by `-` and two
/// more (`en`, `pt-BR`). This is the segment lower-cased and split at `-`
/// into one or two parts of two ASCII letters each.
pub open spec fn is_locale_segment_spec(s: Seq<char>) -> bool {
    ||| (s.len() == 2 && is_ascii_alpha(s[0]) && is_ascii_alpha(s[1]))
    ||| (s.len() == 5 && is_ascii_alpha(s[0]) && is_ascii_alpha(s[1]) && s[2] == '-'
        && is_ascii_alpha(s[3]) && is_ascii_alpha(s[4]))
}

fn is_ascii_alpha_exec(c: char) -> (r: bool)
    ensures
        r == is_ascii_alpha(c),
{
    ('a' <= c && c <= 'z') || ('A' <= c && c <= 'Z')
}

pub fn is_locale_segment(segment: &[char]) -> (r: bool)
    ensures
        r == is_locale_segment_spec(segment@),
{
    if segment.len() == 2 {
        is_ascii_alpha_exec(segment[0]) && is_ascii_alpha_exec(segment[1])
    } else if segment.len() == 5 {
        is_ascii_alpha_exec(segment[0]) && is_ascii_alpha_exec(segment[1]) && segment[2] == '-'
            && is_ascii_alpha_exec(segment[3]) && is_ascii_alpha_exec(segment[4])
    } else {
        false
    }
}

/// Top-level sections of the core documentation (the root included).
pub open spec fn is_core_docs_segment(s: Seq<char>) -> bool {
    s.len() == 0 || s == "guide"@ || s == "api"@ || s == "reference"@ || s == "config"@
}

/// Crawl priority of a VitePress URL: bucket 0 for core docs, 2 for locale
/// variants, 1 otherwise, then the number of path segments; an unparsable
/// URL comes after every other in bucket 1.
pub open spec fn vitepress_priority(url: Seq<char>) -> (int, int) {
    match url_parse(url) {
        Err(_) => (1, usize::MAX as int),
        Ok(u) => if u.cannot_be_a_base {
            (0, 0)
        } else {
            let first = first_segment(u.path);
            let bucket = if is_core_docs_segment(first) {
                0
            } else if is_locale_segment_spec(first) {
                2
            } else {
                1
            };
            (bucket, segment_count(u.path) as int)
        },
    }
}

pub fn vitepress_link_priority(url: &str) -> (r: (u8, usize))
    ensures
        (r.0 as int, r.1 as int) == vitepress_priority(url@),
{
    match parse_url(url) {
        Err(_) => (1, usize::MAX),
        Ok(u) => {
            if u.cannot_be_a_base {
                return (0, 0);
            }
            let p = to_chars(u.path.as_str());
            let first = first_segment_exec(p.as_slice());
            let f = first.as_slice();
            let core = first.len() == 0 || eq_str(f, "guide") || eq_str(f, "api") || eq_str(
                f,
                "reference",
            ) || eq_str(f, "config");
            let bucket: u8 = if core {
                0
            } else if is_locale_segment(f) {
                2
            } else {
                1
            };
            (bucket, segment_count_exec(p.as_slice()))
        },
    }
}

} // verus!
