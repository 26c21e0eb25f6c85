//! Docusaurus sites.
use vstd::prelude::*;

use crate::extractors::gitbook::signals_view;
use crate::extractors::signals::{gather, lower_body, lowercase_of, push_if};
use crate::text::{contains, str_contains};
use crate::types::{FetchResult, FetchResultView};

verus! {

/// Docusaurus: `__docusaurus` / `docusaurus` markers or `theme-doc` classes.
pub struct Docusaurus;

pub open spec fn docusaurus_conditions(r: FetchResultView) -> Seq<(bool, Seq<char>)> {
    let body = lower_body(r);
    seq![
        (contains(body, "__docusaurus"@), "body:__docusaurus"@),
        (contains(body, "docusaurus"@), "body:docusaurus"@),
        (contains(body, "theme-doc-sidebar"@) || contains(body, "theme-doc-markdown"@), "body:theme-doc"@),
    ]
}

pub open spec fn detect_docusaurus(r: FetchResultView) -> Option<Seq<Seq<char>>> {
    let signals = gather(docusaurus_conditions(r));
    if signals.len() == 0 {
        None
    } else {
        Some(signals)
    }
}

pub fn detect(response: &FetchResult) -> (r: Option<Vec<String>>)
    ensures
        signals_view(r) == detect_docusaurus(response@),
{
    let body = lowercase_of(response.body.as_str());
    let ghost conds = docusaurus_conditions(response@);
    let mut signals: Vec<String> = Vec::new();
    assert(signals.deep_view() =~= gather(conds.take(0)));
    push_if(&mut signals, str_contains(body.as_str(), "__docusaurus"), "body:__docusaurus", Ghost(conds.take(0)));
    assert(conds.take(0).push(conds[0]) =~= conds.take(1));
    push_if(&mut signals, str_contains(body.as_str(), "docusaurus"), "body:docusaurus", Ghost(conds.take(1)));
    assert(conds.take(1).push(conds[1]) =~= conds.take(2));
    let theme = str_contains(body.as_str(), "theme-doc-sidebar") || str_contains(body.as_str(), "theme-doc-markdown");
    push_if(&mut signals, theme, "body:theme-doc", Ghost(conds.take(2)));
    assert(conds.take(2).push(conds[2]) =~= conds);
    if signals.len() == 0 {
        None
    } else {
        Some(signals)
    }
}

} // verus!
