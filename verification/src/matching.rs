//! Pattern rewriting: the regex engine finds capture spans (byte offsets);
//! the rewriting of the text around those spans is done here.
use vstd::prelude::*;

use crate::text::{
    first_occurrence_from, lemma_first_occurrence, occurs_at, replace_from, append_chars, append_str, from_chars, join, join_chars, lemma_views_push, lines, replace,
    replace_str, slice_to_vec, spec_to_uppercase, split_lines, to_chars, to_uppercase, trim,
    trim_chars, views,
};

verus! {

/// What the `regex` crate reports for `pattern` on `text`: `None` when the
/// pattern does not compile, otherwise, for each successive non-overlapping
/// match, the byte span of every capture group (group 0 is the whole match).
pub uninterp spec fn regex_capture_spans(pattern: Seq<char>, text: Seq<char>) -> Option<
    Seq<Seq<Option<(usize, usize)>>>,
>;

pub open spec fn spans_view(v: Seq<Vec<Option<(usize, usize)>>>) -> Seq<
    Seq<Option<(usize, usize)>>,
> {
    Seq::new(v.len(), |i: int| v[i]@)
}

/// Calls `regex::Regex::new(pattern)` and then `Regex::captures_iter(text)`,
/// reporting each capture's `Match::start`/`Match::end`. The contract only
/// names the result: it is a function of the pattern and the text.
#[verifier::external_body]
fn capture_spans(pattern: &str, text: &str) -> (r: Option<Vec<Vec<Option<(usize, usize)>>>>)
    ensures
        match r {
            Some(v) => regex_capture_spans(pattern@, text@) == Some(spans_view(v@)),
            None => regex_capture_spans(pattern@, text@) is None,
        },
{
    let re = regex::Regex::new(pattern).ok()?;
    Some(
        re.captures_iter(text).map(
            |caps| (0..caps.len()).map(|i| caps.get(i).map(|m| (m.start(), m.end()))).collect(),
        ).collect(),
    )
}

/// Number of bytes of the UTF-8 encoding of `c`.
pub open spec fn utf8_width(c: char) -> nat {
    let u = c as u32;
    if u < 0x80 {
        1
    } else if u < 0x800 {
        2
    } else if u < 0x10000 {
        3
    } else {
        4
    }
}

/// Byte length of the UTF-8 encoding of `s`.
pub open spec fn byte_len(s: Seq<char>) -> nat
    decreases s.len(),
{
    if s.len() == 0 {
        0
    } else {
        byte_len(s.drop_last()) + utf8_width(s.last())
    }
}

/// The character index at which byte offset `b` falls, scanning from index `k`
/// (the first index whose prefix is exactly `b` bytes long).
pub open spec fn char_index_from(s: Seq<char>, b: int, k: int) -> Option<int>
    decreases s.len() - k,
{
    if k < 0 || k > s.len() {
        None
    } else if byte_len(s.take(k)) == b {
        Some(k)
    } else if k == s.len() {
        None
    } else {
        char_index_from(s, b, k + 1)
    }
}

pub open spec fn char_index(s: Seq<char>, b: int) -> Option<int> {
    char_index_from(s, b, 0)
}

pub proof fn lemma_char_index_from(s: Seq<char>, b: int, k: int)
    requires
        0 <= k <= s.len(),
    ensures
        char_index_from(s, b, k) matches Some(i) ==> k <= i <= s.len(),
    decreases s.len() - k,
{
    if byte_len(s.take(k)) != b && k < s.len() {
        lemma_char_index_from(s, b, k + 1);
    }
}

pub proof fn lemma_byte_len_bound(s: Seq<char>)
    ensures
        byte_len(s) <= 4 * s.len(),
    decreases s.len(),
{
    if s.len() > 0 {
        lemma_byte_len_bound(s.drop_last());
    }
}

fn utf8_width_exec(c: char) -> (w: u128)
    ensures
        w == utf8_width(c),
{
    let u = c as u32;
    if u < 0x80 {
        1
    } else if u < 0x800 {
        2
    } else if u < 0x10000 {
        3
    } else {
        4
    }
}

/// `offs[k]` is the byte length of `s[..k]`, for every `k <= s.len()`.
fn prefix_byte_offsets(s: &[char]) -> (offs: Vec<u128>)
    ensures
        offs@.len() == s@.len() + 1,
        forall|k: int| 0 <= k <= s@.len() ==> #[trigger] offs@[k] == byte_len(s@.take(k)),
{
    let mut offs: Vec<u128> = Vec::new();
    offs.push(0);
    assert(s@.take(0) =~= Seq::<char>::empty());
    let mut k: usize = 0;
    while k < s.len()
        invariant
            0 <= k <= s@.len(),
            offs@.len() == k + 1,
            forall|j: int| 0 <= j <= k ==> #[trigger] offs@[j] == byte_len(s@.take(j)),
        decreases s@.len() - k,
    {
        proof {
            lemma_byte_len_bound(s@.take(k as int));
            assert(s@.take(k + 1).drop_last() =~= s@.take(k as int));
        }
        let w = utf8_width_exec(s[k]);
        let prev = offs[k];
        assert(prev <= 4 * k);
        offs.push(prev + w);
        k = k + 1;
    }
    offs
}

fn char_index_exec(s: &[char], offs: &Vec<u128>, b: usize) -> (r: Option<usize>)
    requires
        offs@.len() == s@.len() + 1,
        forall|k: int| 0 <= k <= s@.len() ==> #[trigger] offs@[k] == byte_len(s@.take(k)),
    ensures
        match r {
            Some(i) => char_index(s@, b as int) == Some(i as int),
            None => char_index(s@, b as int) is None,
        },
{
    let mut k: usize = 0;
    loop
        invariant
            0 <= k <= s@.len(),
            offs@.len() == s@.len() + 1,
            forall|j: int| 0 <= j <= s@.len() ==> #[trigger] offs@[j] == byte_len(s@.take(j)),
            char_index(s@, b as int) == char_index_from(s@, b as int, k as int),
        decreases s@.len() - k,
    {
        if offs[k] == b as u128 {
            return Some(k);
        }
        if k == s.len() {
            return None;
        }
        k = k + 1;
    }
}

/// A capture group's byte span converted to a character span, when both ends
/// fall on character positions of `s`.
pub open spec fn char_span(s: Seq<char>, span: (usize, usize)) -> Option<(int, int)> {
    match (char_index(s, span.0 as int), char_index(s, span.1 as int)) {
        (Some(a), Some(b)) => Some((a, b)),
        _ => None,
    }
}

/// All groups of one match in character positions; `None` when some present
/// group does not fall on character positions.
pub open spec fn char_groups(s: Seq<char>, groups: Seq<Option<(usize, usize)>>) -> Option<
    Seq<Option<(int, int)>>,
>
    decreases groups.len(),
{
    if groups.len() == 0 {
        Some(seq![])
    } else {
        let head = match groups.last() {
            Some(span) => match char_span(s, span) {
                Some(cs) => Some(Some(cs)),
                None => None,
            },
            None => Some(None),
        };
        match (char_groups(s, groups.drop_last()), head) {
            (Some(rest), Some(h)) => Some(rest.push(h)),
            _ => None,
        }
    }
}

/// The text of group `g`, or the empty text when the group took no part.
pub open spec fn group_text(s: Seq<char>, groups: Seq<Option<(int, int)>>, g: int) -> Seq<char> {
    if 0 <= g < groups.len() {
        match groups[g] {
            Some(span) => s.subrange(span.0, span.1),
            None => seq![],
        }
    } else {
        seq![]
    }
}

pub open spec fn span_start(g: Option<(int, int)>) -> int {
    match g {
        Some(p) => p.0,
        None => 0,
    }
}

pub open spec fn span_end(g: Option<(int, int)>) -> int {
    match g {
        Some(p) => p.1,
        None => 0,
    }
}

/// A match is usable when its whole span is present, ordered, inside the text,
/// and every group span is ordered inside the text.
pub open spec fn well_placed(s: Seq<char>, groups: Seq<Option<(int, int)>>, pos: int) -> bool {
    &&& groups.len() > 0
    &&& groups[0] is Some
    &&& pos <= span_start(groups[0]) <= span_end(groups[0]) <= s.len()
    &&& forall|g: int|
        0 <= g < groups.len() ==> (#[trigger] groups[g] matches Some(sp) ==> 0 <= sp.0 <= sp.1
            <= s.len())
}

/// How each match is rewritten.
#[derive(Clone, Copy, PartialEq, Eq, Structural)]
pub enum Rewrite {
    /// Replaced by nothing.
    Delete,
    /// Replaced by a blank-line paragraph break `"\n\n"`.
    ParagraphBreak,
    /// Replaced by the text of group 1 (`"$1"`).
    FirstGroup,
    /// A GitBook `{% hint %}` block turned into a quoted alert.
    GitBookHint,
    /// A GitBook `{% tab title="..." %}` opener turned into a heading.
    GitBookTab,
    /// An admonition / container / callout turned into a quoted alert.
    Callout,
}

/// The alert label: group 1 upper-cased, or `NOTE` when absent.
pub open spec fn alert_style(s: Seq<char>, groups: Seq<Option<(int, int)>>) -> Seq<char> {
    if groups.len() > 1 && groups[1] is Some {
        spec_to_uppercase(group_text(s, groups, 1))
    } else {
        "NOTE"@
    }
}

/// Each line prefixed with `"> "`, joined with `'\n'`.
pub open spec fn quote_lines(ls: Seq<Seq<char>>) -> Seq<Seq<char>> {
    Seq::new(ls.len(), |i: int| "> "@ + ls[i])
}

pub open spec fn rewrite_match(kind: Rewrite, s: Seq<char>, groups: Seq<Option<(int, int)>>) -> Seq<
    char,
> {
    match kind {
        Rewrite::Delete => seq![],
        Rewrite::ParagraphBreak => "\n\n"@,
        Rewrite::FirstGroup => group_text(s, groups, 1),
        Rewrite::GitBookHint => "> [!"@ + alert_style(s, groups) + "]\n"@ + join(
            quote_lines(lines(trim(group_text(s, groups, 2)))),
            "\n"@,
        ) + "\n"@,
        Rewrite::GitBookTab => "\n### "@ + group_text(s, groups, 1) + "\n"@,
        Rewrite::Callout => "> [!"@ + alert_style(s, groups) + "]\n> "@ + replace(
            trim(group_text(s, groups, 2)),
            "\n"@,
            "\n> "@,
        ) + "\n"@,
    }
}

/// `s[pos..]` with the listed matches rewritten; unusable matches are passed over.
pub open spec fn splice_from(
    s: Seq<char>,
    ms: Seq<Seq<Option<(usize, usize)>>>,
    pos: int,
    kind: Rewrite,
) -> Seq<char>
    decreases ms.len(),
{
    if ms.len() == 0 {
        s.subrange(pos, s.len() as int)
    } else {
        match char_groups(s, ms[0]) {
            Some(gs) => if well_placed(s, gs, pos) {
                s.subrange(pos, span_start(gs[0])) + rewrite_match(kind, s, gs) + splice_from(
                    s,
                    ms.drop_first(),
                    span_end(gs[0]),
                    kind,
                )
            } else {
                splice_from(s, ms.drop_first(), pos, kind)
            },
            None => splice_from(s, ms.drop_first(), pos, kind),
        }
    }
}

/// Every match of the pattern rewritten (`Regex::replace_all`); the text is
/// returned unchanged when the pattern does not compile.
pub open spec fn rewrite_all(pattern: Seq<char>, s: Seq<char>, kind: Rewrite) -> Seq<char> {
    match regex_capture_spans(pattern, s) {
        Some(ms) => splice_from(s, ms, 0, kind),
        None => s,
    }
}

/// Character spans held as machine integers, viewed as integer pairs.
pub open spec fn int_spans(v: Seq<Option<(usize, usize)>>) -> Seq<Option<(int, int)>> {
    Seq::new(
        v.len(),
        |i: int|
            match v[i] {
                Some(p) => Some((p.0 as int, p.1 as int)),
                None => None,
            },
    )
}

proof fn lemma_char_groups_none(s: Seq<char>, g: Seq<Option<(usize, usize)>>, k: int)
    requires
        0 <= k <= g.len(),
        char_groups(s, g.take(k)) is None,
    ensures
        char_groups(s, g) is None,
    decreases g.len(),
{
    if k == g.len() {
        assert(g.take(k) =~= g);
    } else {
        assert(g.drop_last().take(k) =~= g.take(k));
        lemma_char_groups_none(s, g.drop_last(), k);
    }
}

fn char_groups_exec(s: &[char], offs: &Vec<u128>, groups: &Vec<Option<(usize, usize)>>) -> (r:
    Option<Vec<Option<(usize, usize)>>>)
    requires
        offs@.len() == s@.len() + 1,
        forall|k: int| 0 <= k <= s@.len() ==> #[trigger] offs@[k] == byte_len(s@.take(k)),
    ensures
        match r {
            Some(v) => char_groups(s@, groups@) == Some(int_spans(v@)),
            None => char_groups(s@, groups@) is None,
        },
{
    let mut out: Vec<Option<(usize, usize)>> = Vec::new();
    let mut i: usize = 0;
    while i < groups.len()
        invariant
            0 <= i <= groups@.len(),
            offs@.len() == s@.len() + 1,
            forall|k: int| 0 <= k <= s@.len() ==> #[trigger] offs@[k] == byte_len(s@.take(k)),
            char_groups(s@, groups@.take(i as int)) == Some(int_spans(out@)),
        decreases groups@.len() - i,
    {
        assert(groups@.take(i + 1).drop_last() =~= groups@.take(i as int));
        match groups[i] {
            Some(span) => {
                let a = char_index_exec(s, offs, span.0);
                let b = char_index_exec(s, offs, span.1);
                match (a, b) {
                    (Some(a), Some(b)) => {
                        out.push(Some((a, b)));
                        assert(int_spans(out@) =~= int_spans(out@.drop_last()).push(
                            Some((a as int, b as int)),
                        ));
                    },
                    _ => {
                        proof {
                            let t = groups@.take(i + 1);
                            assert(t.last() == groups@[i as int]);
                            assert(t.drop_last() =~= groups@.take(i as int));
                            assert(char_groups(s@, t) is None);
                            lemma_char_groups_none(s@, groups@, i + 1);
                        }
                        return None;
                    },
                }
            },
            None => {
                out.push(None);
                assert(int_spans(out@) =~= int_spans(out@.drop_last()).push(None));
            },
        }
        i = i + 1;
    }
    assert(groups@.take(groups@.len() as int) =~= groups@);
    Some(out)
}

/// Every present group span is ordered and inside `s`.
pub open spec fn spans_inside(s: Seq<char>, groups: Seq<Option<(int, int)>>) -> bool {
    forall|g: int|
        0 <= g < groups.len() ==> (#[trigger] groups[g] matches Some(sp) ==> 0 <= sp.0 <= sp.1
            <= s.len())
}

fn well_placed_exec(s: &[char], groups: &Vec<Option<(usize, usize)>>, pos: usize) -> (r: bool)
    ensures
        r == well_placed(s@, int_spans(groups@), pos as int),
{
    if groups.len() == 0 {
        return false;
    }
    match groups[0] {
        None => {
            return false;
        },
        Some(w) => {
            if !(pos <= w.0 && w.0 <= w.1 && w.1 <= s.len()) {
                return false;
            }
        },
    }
    let mut g: usize = 0;
    while g < groups.len()
        invariant
            0 <= g <= groups@.len(),
            forall|j: int|
                0 <= j < g ==> (#[trigger] int_spans(groups@)[j] matches Some(sp) ==> 0 <= sp.0
                    <= sp.1 <= s@.len()),
        decreases groups@.len() - g,
    {
        match groups[g] {
            Some(sp) => {
                if !(sp.0 <= sp.1 && sp.1 <= s.len()) {
                    assert(int_spans(groups@)[g as int] == Some((sp.0 as int, sp.1 as int)));
                    return false;
                }
            },
            None => {},
        }
        g = g + 1;
    }
    true
}

fn group_text_exec(s: &[char], groups: &Vec<Option<(usize, usize)>>, g: usize) -> (r: Vec<char>)
    requires
        spans_inside(s@, int_spans(groups@)),
    ensures
        r@ == group_text(s@, int_spans(groups@), g as int),
{
    if g < groups.len() {
        match groups[g] {
            Some(sp) => {
                assert(int_spans(groups@)[g as int] == Some((sp.0 as int, sp.1 as int)));
                slice_to_vec(s, sp.0, sp.1)
            },
            None => Vec::new(),
        }
    } else {
        Vec::new()
    }
}

fn alert_style_exec(s: &[char], groups: &Vec<Option<(usize, usize)>>) -> (r: Vec<char>)
    requires
        spans_inside(s@, int_spans(groups@)),
    ensures
        r@ == alert_style(s@, int_spans(groups@)),
{
    if groups.len() > 1 && groups[1].is_some() {
        let t = group_text_exec(s, groups, 1);
        let up = to_uppercase(from_chars(t.as_slice()).as_str());
        to_chars(up.as_str())
    } else {
        to_chars("NOTE")
    }
}

fn quote_lines_exec(ls: &Vec<Vec<char>>) -> (r: Vec<Vec<char>>)
    ensures
        views(r@) == quote_lines(views(ls@)),
{
    let mut r: Vec<Vec<char>> = Vec::new();
    let mut i: usize = 0;
    while i < ls.len()
        invariant
            0 <= i <= ls@.len(),
            views(r@) == quote_lines(views(ls@).take(i as int)),
        decreases ls@.len() - i,
    {
        let mut q = to_chars("> ");
        append_chars(&mut q, ls[i].as_slice());
        proof {
            lemma_views_push(r@, q);
        }
        r.push(q);
        assert(views(r@) =~= quote_lines(views(ls@).take(i + 1)));
        i = i + 1;
    }
    assert(views(ls@).take(ls@.len() as int) =~= views(ls@));
    r
}

fn rewrite_match_exec(kind: Rewrite, s: &[char], groups: &Vec<Option<(usize, usize)>>) -> (r: Vec<
    char,
>)
    requires
        spans_inside(s@, int_spans(groups@)),
    ensures
        r@ == rewrite_match(kind, s@, int_spans(groups@)),
{
    match kind {
        Rewrite::Delete => Vec::new(),
        Rewrite::ParagraphBreak => to_chars("\n\n"),
        Rewrite::FirstGroup => group_text_exec(s, groups, 1),
        Rewrite::GitBookHint => {
            let mut out = to_chars("> [!");
            let style = alert_style_exec(s, groups);
            append_chars(&mut out, style.as_slice());
            append_str(&mut out, "]\n");
            let body = trim_chars(group_text_exec(s, groups, 2).as_slice());
            let quoted = quote_lines_exec(&split_lines(body.as_slice()));
            let nl = to_chars("\n");
            let joined = join_chars(&quoted, nl.as_slice());
            append_chars(&mut out, joined.as_slice());
            append_str(&mut out, "\n");
            out
        },
        Rewrite::GitBookTab => {
            let mut out = to_chars("\n### ");
            let title = group_text_exec(s, groups, 1);
            append_chars(&mut out, title.as_slice());
            append_str(&mut out, "\n");
            out
        },
        Rewrite::Callout => {
            let mut out = to_chars("> [!");
            let style = alert_style_exec(s, groups);
            append_chars(&mut out, style.as_slice());
            append_str(&mut out, "]\n> ");
            let body = trim_chars(group_text_exec(s, groups, 2).as_slice());
            proof {
                reveal_strlit("\n");
            }
            let quoted = replace_str(body.as_slice(), "\n", "\n> ");
            append_chars(&mut out, quoted.as_slice());
            append_str(&mut out, "\n");
            out
        },
    }
}

/// Rewrites the given matches of `s` (as `regex_capture_spans` reports them).
pub fn rewrite_spans(s: &[char], ms: &Vec<Vec<Option<(usize, usize)>>>, kind: Rewrite) -> (r: Vec<
    char,
>)
    ensures
        r@ == splice_from(s@, spans_view(ms@), 0, kind),
{
    let offs = prefix_byte_offsets(s);
    let mut out: Vec<char> = Vec::new();
    let mut pos: usize = 0;
    let mut i: usize = 0;
    let ghost all = spans_view(ms@);
    assert(all.skip(0) =~= all);
    assert(out@ + splice_from(s@, all, 0, kind) =~= splice_from(s@, all, 0, kind));
    while i < ms.len()
        invariant
            0 <= i <= ms@.len(),
            pos <= s@.len(),
            all == spans_view(ms@),
            offs@.len() == s@.len() + 1,
            forall|k: int| 0 <= k <= s@.len() ==> #[trigger] offs@[k] == byte_len(s@.take(k)),
            out@ + splice_from(s@, all.skip(i as int), pos as int, kind) == splice_from(
                s@,
                all,
                0,
                kind,
            ),
        decreases ms@.len() - i,
    {
        let ghost rest = all.skip(i as int);
        assert(rest[0] == ms@[i as int]@);
        assert(rest.drop_first() =~= all.skip(i + 1));
        let gs = char_groups_exec(s, &offs, &ms[i]);
        match gs {
            Some(gs) => {
                if well_placed_exec(s, &gs, pos) {
                    let (a, b) = match gs[0] {
                        Some(w) => w,
                        None => (0, 0),
                    };
                    assert(int_spans(gs@)[0] == Some((a as int, b as int)));
                    let head = slice_to_vec(s, pos, a);
                    append_chars(&mut out, head.as_slice());
                    let rep = rewrite_match_exec(kind, s, &gs);
                    append_chars(&mut out, rep.as_slice());
                    pos = b;
                }
            },
            None => {},
        }
        i = i + 1;
    }
    assert(all.skip(i as int) =~= Seq::<Seq<Option<(usize, usize)>>>::empty());
    let tail = slice_to_vec(s, pos, s.len());
    append_chars(&mut out, tail.as_slice());
    out
}

/// `Regex::new(pattern)` then `replace_all` with the given rewriting; the text
/// comes back unchanged when the pattern does not compile.
pub fn rewrite_all_exec(pattern: &str, s: &[char], kind: Rewrite) -> (r: Vec<char>)
    ensures
        r@ == rewrite_all(pattern@, s@, kind),
{
    let text = from_chars(s);
    match capture_spans(pattern, text.as_str()) {
        Some(ms) => rewrite_spans(s, &ms, kind),
        None => slice_to_vec(s, 0, s.len()),
    }
}

// ---------------------------------------------------------------- callout quoting

/// The text split at every newline, as `str::split('\n')` splits it (a text
/// without newlines is one piece; `n` newlines give `n + 1` pieces).
pub open spec fn split_newlines(t: Seq<char>) -> Seq<Seq<char>>
    decreases t.len(),
{
    if t.len() == 0 {
        seq![seq![]]
    } else {
        let r = split_newlines(t.drop_first());
        if t[0] == '\n' {
            seq![seq![]] + r
        } else {
            r.update(0, seq![t[0]] + r[0])
        }
    }
}

/// Each line as a Markdown quote line: `"> "`, the line, a newline.
pub open spec fn quoted_block(ls: Seq<Seq<char>>) -> Seq<char>
    decreases ls.len(),
{
    if ls.len() == 0 {
        seq![]
    } else {
        "> "@ + ls[0] + "\n"@ + quoted_block(ls.drop_first())
    }
}

/// The text with `"> "` after every newline.
spec fn quote_after_newlines(t: Seq<char>) -> Seq<char>
    decreases t.len(),
{
    if t.len() == 0 {
        seq![]
    } else if t[0] == '\n' {
        "\n> "@ + quote_after_newlines(t.drop_first())
    } else {
        seq![t[0]] + quote_after_newlines(t.drop_first())
    }
}

proof fn lemma_split_newlines_nonempty(t: Seq<char>)
    ensures
        split_newlines(t).len() >= 1,
    decreases t.len(),
{
    if t.len() > 0 {
        lemma_split_newlines_nonempty(t.drop_first());
    }
}

proof fn lemma_replace_newlines(t: Seq<char>, i: int)
    requires
        0 <= i <= t.len(),
    ensures
        replace_from(t, "\n"@, "\n> "@, i) == quote_after_newlines(t.skip(i)),
    decreases t.len() - i,
{
    reveal_strlit("\n");
    reveal_strlit("\n> ");
    lemma_first_occurrence(t, "\n"@, i);
    if i == t.len() {
        assert(t.skip(i) =~= Seq::<char>::empty());
        assert(t.subrange(i, t.len() as int) =~= Seq::<char>::empty());
    } else {
        lemma_replace_newlines(t, i + 1);
        assert(t.skip(i).drop_first() =~= t.skip(i + 1));
        assert(t.skip(i)[0] == t[i]);
        if t[i] == '\n' {
            assert(occurs_at(t, "\n"@, i));
            assert(t.subrange(i, i) =~= Seq::<char>::empty());
        } else {
            if occurs_at(t, "\n"@, i) {
                assert(t[i + 0] == "\n"@[0]);
            }
            assert(first_occurrence_from(t, "\n"@, i) == first_occurrence_from(t, "\n"@, i + 1));
            lemma_first_occurrence(t, "\n"@, i + 1);
            match first_occurrence_from(t, "\n"@, i + 1) {
                Some(j) => {
                    assert(t.subrange(i, j) =~= seq![t[i]] + t.subrange(i + 1, j));
                },
                None => {
                    assert(t.subrange(i, t.len() as int) =~= seq![t[i]] + t.subrange(
                        i + 1,
                        t.len() as int,
                    ));
                },
            }
        }
    }
}

proof fn lemma_quote_lines_block(t: Seq<char>)
    ensures
        "> "@ + quote_after_newlines(t) + "\n"@ == quoted_block(split_newlines(t)),
    decreases t.len(),
{
    reveal_strlit("\n");
    reveal_strlit("> ");
    reveal_strlit("\n> ");
    if t.len() == 0 {
        assert(split_newlines(t) == seq![Seq::<char>::empty()]);
        assert(quoted_block(seq![Seq::<char>::empty()].drop_first()) == Seq::<char>::empty());
        assert("> "@ + quote_after_newlines(t) + "\n"@ =~= quoted_block(split_newlines(t)));
    } else {
        let rest = t.drop_first();
        lemma_quote_lines_block(rest);
        lemma_split_newlines_nonempty(rest);
        let r = split_newlines(rest);
        if t[0] == '\n' {
            let ls = seq![Seq::<char>::empty()] + r;
            assert(ls.drop_first() =~= r);
            assert("> "@ + quote_after_newlines(t) + "\n"@ =~= "> "@ + ls[0] + "\n"@
                + quoted_block(ls.drop_first()));
        } else {
            let ls = r.update(0, seq![t[0]] + r[0]);
            assert(ls.drop_first() =~= r.drop_first());
            assert(quoted_block(r) == "> "@ + r[0] + "\n"@ + quoted_block(r.drop_first()));
            let lhs = "> "@ + quote_after_newlines(rest) + "\n"@;
            let rhs = "> "@ + r[0] + "\n"@ + quoted_block(r.drop_first());
            assert(lhs == rhs);
            assert(lhs.skip(2) =~= quote_after_newlines(rest) + "\n"@);
            assert(rhs.skip(2) =~= r[0] + "\n"@ + quoted_block(r.drop_first()));
            assert(quote_after_newlines(rest) + "\n"@ == r[0] + "\n"@ + quoted_block(
                r.drop_first(),
            ));
            assert(quote_after_newlines(t) == seq![t[0]] + quote_after_newlines(rest));
            assert(ls[0] == seq![t[0]] + r[0]);
            assert("> "@ + quote_after_newlines(t) + "\n"@ =~= "> "@ + seq![t[0]] + (
            quote_after_newlines(rest) + "\n"@));
            assert("> "@ + ls[0] + "\n"@ + quoted_block(ls.drop_first()) =~= "> "@ + seq![t[0]]
                + (r[0] + "\n"@ + quoted_block(r.drop_first())));
        }
    }
}

/// A callout (admonition, container or Nextra callout) becomes an alert quote:
/// the `[!STYLE]` line, then every line of the trimmed body, each prefixed
/// with `"> "` and ended by a newline.
pub proof fn lemma_callout_quotes_every_line(s: Seq<char>, groups: Seq<Option<(int, int)>>)
    ensures
        rewrite_match(Rewrite::Callout, s, groups) == "> [!"@ + alert_style(s, groups) + "]\n"@
            + quoted_block(split_newlines(trim(group_text(s, groups, 2)))),
{
    reveal_strlit("]\n> ");
    reveal_strlit("]\n");
    reveal_strlit("> ");
    let b = trim(group_text(s, groups, 2));
    lemma_replace_newlines(b, 0);
    assert(b.skip(0) =~= b);
    lemma_quote_lines_block(b);
    assert(rewrite_match(Rewrite::Callout, s, groups) =~= "> [!"@ + alert_style(s, groups)
        + "]\n"@ + ("> "@ + quote_after_newlines(b) + "\n"@));
}

} // verus!
