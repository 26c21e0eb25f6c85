//! Detection helpers shared by the framework extractors.
use vstd::prelude::*;

use crate::text::{contains, str_contains, to_lowercase, spec_to_lowercase};
use crate::types::FetchResultView;

verus! {

/// The response body, lower-cased.
pub open spec fn lower_body(r: FetchResultView) -> Seq<char> {
    spec_to_lowercase(r.body)
}

/// The content type (empty when absent), lower-cased.
pub open spec fn lower_content_type(r: FetchResultView) -> Seq<char> {
    spec_to_lowercase(
        match r.content_type {
            Some(c) => c,
            None => seq![],
        },
    )
}

/// Some signal holds `needle`.
pub open spec fn any_signal_contains(signals: Seq<Seq<char>>, needle: Seq<char>) -> bool {
    exists|i: int| 0 <= i < signals.len() && contains(#[trigger] signals[i], needle)
}

/// Signals gathered in order: `label` is added when its condition holds.
pub open spec fn gather(conds: Seq<(bool, Seq<char>)>) -> Seq<Seq<char>>
    decreases conds.len(),
{
    if conds.len() == 0 {
        seq![]
    } else {
        let rest = gather(conds.drop_last());
        if conds.last().0 {
            rest.push(conds.last().1)
        } else {
            rest
        }
    }
}

pub fn lowercase_of(s: &str) -> (r: String)
    ensures
        r@ == spec_to_lowercase(s@),
{
    to_lowercase(s)
}

pub fn signal(label: &str) -> (r: String)
    ensures
        r@ == label@,
{
    label.to_owned()
}

pub fn any_signal_contains_exec(signals: &Vec<String>, needle: &str) -> (r: bool)
    ensures
        r == any_signal_contains(signals.deep_view(), needle@),
{
    let mut i: usize = 0;
    while i < signals.len()
        invariant
            0 <= i <= signals@.len(),
            forall|j: int|
                0 <= j < i ==> !contains(#[trigger] signals.deep_view()[j], needle@),
        decreases signals@.len() - i,
    {
        assert(signals.deep_view()[i as int] == signals@[i as int]@);
        if str_contains(signals[i].as_str(), needle) {
            return true;
        }
        i = i + 1;
    }
    false
}

/// Appends `label` when `cond` holds, keeping `gather` in step.
pub(crate) fn push_if(signals: &mut Vec<String>, cond: bool, label: &str, Ghost(conds): Ghost<Seq<(bool, Seq<char>)>>)
    requires
        old(signals).deep_view() == gather(conds),
    ensures
        final(signals).deep_view() == gather(conds.push((cond, label@))),
{
    assert(conds.push((cond, label@)).drop_last() =~= conds);
    if cond {
        let s = signal(label);
        let ghost before = signals.deep_view();
        signals.push(s);
        assert(signals.deep_view() =~= before.push(label@));
    }
}

} // verus!
