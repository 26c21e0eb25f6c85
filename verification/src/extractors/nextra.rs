//! Nextra sites.
use vstd::prelude::*;

use crate::extractors::gitbook::signals_view;
use crate::extractors::signals::{
    any_signal_contains, any_signal_contains_exec, gather, lower_body, lowercase_of, push_if,
};
use crate::matching::byte_len;
use crate::text::{contains, contains_str, lines, split_lines, str_contains, trim, trim_chars, to_chars};
use crate::types::{FetchResult, FetchResultView, SourceFormat};

verus! {

/// Nextra: detected only when a Nextra signal is present.
pub struct Nextra;

pub open spec fn nextra_conditions(r: FetchResultView) -> Seq<(bool, Seq<char>)> {
    let body = lower_body(r);
    seq![
        (contains(body, "nextra"@), "body:nextra"@),
        (contains(body, "nextra-theme-docs"@), "body:nextra-theme-docs"@),
        (contains(body, "__next_data__"@) || contains(body, "__next"@), "body:next-runtime"@),
    ]
}

pub open spec fn detect_nextra(r: FetchResultView) -> Option<Seq<Seq<char>>> {
    let signals = gather(nextra_conditions(r));
    if any_signal_contains(signals, "nextra"@) {
        Some(signals)
    } else {
        None
    }
}

pub fn detect(response: &FetchResult) -> (r: Option<Vec<String>>)
    ensures
        signals_view(r) == detect_nextra(response@),
{
    let body = lowercase_of(response.body.as_str());
    let ghost conds = nextra_conditions(response@);
    let mut signals: Vec<String> = Vec::new();
    assert(signals.deep_view() =~= gather(conds.take(0)));
    push_if(&mut signals, str_contains(body.as_str(), "nextra"), "body:nextra", Ghost(conds.take(0)));
    assert(conds.take(0).push(conds[0]) =~= conds.take(1));
    push_if(&mut signals, str_contains(body.as_str(), "nextra-theme-docs"), "body:nextra-theme-docs", Ghost(conds.take(1)));
    assert(conds.take(1).push(conds[1]) =~= conds.take(2));
    let next = str_contains(body.as_str(), "__next_data__") || str_contains(body.as_str(), "__next");
    push_if(&mut signals, next, "body:next-runtime", Ghost(conds.take(2)));
    assert(conds.take(2).push(conds[2]) =~= conds);
    if any_signal_contains_exec(&signals, "nextra") {
        Some(signals)
    } else {
        None
    }
}

/// Static HTML extraction of a Nextra page is too weak when the trimmed
/// Markdown looks like a hydration placeholder, or is shorter than 24 bytes
/// (UTF-8) or than 2 lines.
pub open spec fn nextra_needs_browser(markdown: Seq<char>, source: SourceFormat) -> bool {
    let m = trim(markdown);
    let looks_hydration_only = contains(m, "Loading"@) || contains(m, "hydration"@) || contains(
        m,
        "Enable JavaScript"@,
    ) || contains(m, "__NEXT_DATA__"@);
    let too_thin = byte_len(m) < 24 || lines(m).len() < 2;
    source == SourceFormat::Html && (looks_hydration_only || too_thin)
}

fn byte_len_exec(s: &[char]) -> (n: u128)
    ensures
        n == byte_len(s@),
{
    let mut n: u128 = 0;
    let mut k: usize = 0;
    assert(s@.take(0) =~= Seq::<char>::empty());
    while k < s.len()
        invariant
            0 <= k <= s@.len(),
            n == byte_len(s@.take(k as int)),
        decreases s@.len() - k,
    {
        proof {
            crate::matching::lemma_byte_len_bound(s@.take(k as int));
        }
        assert(s@.take(k + 1).drop_last() =~= s@.take(k as int));
        let c = s[k];
        let u = c as u32;
        let w: u128 = if u < 0x80 {
            1
        } else if u < 0x800 {
            2
        } else if u < 0x10000 {
            3
        } else {
            4
        };
        n = n + w;
        k = k + 1;
    }
    assert(s@.take(s@.len() as int) =~= s@);
    n
}

pub fn needs_browser(markdown: &str, source: SourceFormat) -> (r: bool)
    ensures
        r == nextra_needs_browser(markdown@, source),
{
    let v = to_chars(markdown);
    let m = trim_chars(v.as_slice());
    let looks = contains_str(m.as_slice(), "Loading") || contains_str(m.as_slice(), "hydration")
        || contains_str(m.as_slice(), "Enable JavaScript") || contains_str(
        m.as_slice(),
        "__NEXT_DATA__",
    );
    let line_count = split_lines(m.as_slice()).len();
    let thin = byte_len_exec(m.as_slice()) < 24 || line_count < 2;
    source == SourceFormat::Html && (looks || thin)
}

} // verus!
