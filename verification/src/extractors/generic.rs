//! The fallback extractor for any same-domain HTML documentation.
use vstd::prelude::*;

verus! {

/// Generic HTML documentation: always matches.
pub struct GenericDocsFallback;

pub open spec fn generic_signals() -> Seq<Seq<char>> {
    seq!["fallback:same-domain-html"@]
}

pub fn detect() -> (r: Vec<String>)
    ensures
        r.deep_view() == generic_signals(),
{
    let mut v: Vec<String> = Vec::new();
    v.push("fallback:same-domain-html".to_owned());
    assert(v.deep_view() =~= generic_signals());
    v
}

} // verus!
