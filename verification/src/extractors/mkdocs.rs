//! MkDocs Material sites.
use vstd::prelude::*;

use crate::extractors::gitbook::signals_view;
use crate::extractors::signals::{
    any_signal_contains, any_signal_contains_exec, gather, lower_body, lowercase_of, push_if,
};
use crate::text::{contains, str_contains};
use crate::types::{FetchResult, FetchResultView};

verus! {

/// MkDocs Material: detected only when a Material signal is present.
pub struct MkDocsMaterial;

pub open spec fn mkdocs_conditions(r: FetchResultView) -> Seq<(bool, Seq<char>)> {
    let body = lower_body(r);
    seq![
        (contains(body, "mkdocs"@), "body:mkdocs"@),
        (contains(body, "material for mkdocs"@) || contains(body, "mkdocs-material"@), "body:material-for-mkdocs"@),
        (contains(body, "md-sidebar"@) || contains(body, "md-content"@), "body:md-layout"@),
    ]
}

pub open spec fn detect_mkdocs_material(r: FetchResultView) -> Option<Seq<Seq<char>>> {
    let signals = gather(mkdocs_conditions(r));
    if any_signal_contains(signals, "material"@) {
        Some(signals)
    } else {
        None
    }
}

pub fn detect(response: &FetchResult) -> (r: Option<Vec<String>>)
    ensures
        signals_view(r) == detect_mkdocs_material(response@),
{
    let body = lowercase_of(response.body.as_str());
    let ghost conds = mkdocs_conditions(response@);
    let mut signals: Vec<String> = Vec::new();
    assert(signals.deep_view() =~= gather(conds.take(0)));
    push_if(&mut signals, str_contains(body.as_str(), "mkdocs"), "body:mkdocs", Ghost(conds.take(0)));
    assert(conds.take(0).push(conds[0]) =~= conds.take(1));
    let material = str_contains(body.as_str(), "material for mkdocs") || str_contains(body.as_str(), "mkdocs-material");
    push_if(&mut signals, material, "body:material-for-mkdocs", Ghost(conds.take(1)));
    assert(conds.take(1).push(conds[1]) =~= conds.take(2));
    let layout = str_contains(body.as_str(), "md-sidebar") || str_contains(body.as_str(), "md-content");
    push_if(&mut signals, layout, "body:md-layout", Ghost(conds.take(2)));
    assert(conds.take(2).push(conds[2]) =~= conds);
    if any_signal_contains_exec(&signals, "material") {
        Some(signals)
    } else {
        None
    }
}

} // verus!
