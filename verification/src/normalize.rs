//! Markdown normalization: framework block syntax to portable Markdown, and
//! removal of navigation chrome and bootstrap noise.
use vstd::prelude::*;

use crate::matching::{rewrite_all, rewrite_all_exec, Rewrite};
use crate::text::{
    append_chars, append_str, contains, contains_str, ends_with, ends_with_str, eq_str, from_chars,
    join, join_chars, lemma_filter_take_step, lemma_views_push, lines, replace, replace_str,
    slice_to_vec, split_lines, starts_with, starts_with_str, to_chars, trim, trim_chars, trim_end,
    trim_end_chars, views,
};
use crate::html::{
    first_match_html, first_match_texts, html2md_accepts, html2md_can_convert, html2md_dom,
    html2md_markdown, html2md_parse, html_first_match_html,
    html_first_match_texts,
};
use crate::text::{is_ws, lemma_trim_shape, split_whitespace, words};
use crate::types::Framework;

verus! {

pub const HINT_PATTERN: &'static str =
    r#"\{%\s*hint\s+style="([^"]+)"\s*%\}\s*(?s)(.*?)\s*\{%\s*endhint\s*%\}"#;

pub const TAB_OPEN_PATTERN: &'static str = r#"\{%\s*tab\s+title="([^"]+)"\s*%\}"#;

pub const ADMONITION_PATTERN: &'static str = r":::(\w+)\s*(?s)(.*?)\s*:::";

pub const CONTAINER_PATTERN: &'static str = r":::\s*(\w+)\s*(?s)(.*?)\s*:::";

pub const CALLOUT_PATTERN: &'static str = r#"<Callout[^>]*type="([^"]+)"[^>]*>(?s)(.*?)</Callout>"#;

pub const EMPTY_LINK_PATTERN: &'static str = r#"\[\s*\]\((?:#|/|https?://)[^)]+\)"#;

pub const ANCHOR_GLYPH_PATTERN: &'static str = r#"\[[^\w\s]{1,2}\]\(#.*?\)"#;

pub const LLMS_BANNER_PATTERN: &'static str = r"Are you an LLM\? View /llms(?:-full)?\.txt[^\n]*";

pub const MULTI_NEWLINE_PATTERN: &'static str = r"\n{3,}";

pub const TABLE_WRAPPER_PATTERN: &'static str =
    r#"(?s)<div class="[^"]*md-typeset__table[^"]*">(.*?)</div>"#;

// ---------------------------------------------------------------- line filters

/// A line survives bootstrap-noise stripping when its trimmed text holds none
/// of the inline-script markers.
pub open spec fn keeps_after_bootstrap(line: Seq<char>) -> bool {
    let t = trim(line);
    &&& !contains(t, "localStorage.getItem("@)
    &&& !contains(t, "document.querySelector("@)
    &&& !contains(t, "classList.toggle("@)
    &&& !contains(t, "window.matchMedia("@)
    &&& !contains(t, "document.documentElement"@)
    &&& !contains(t, "__NEXT_DATA__"@)
    &&& !starts_with(t, "((a,b,c,d,e,f,g,h)="@)
    &&& !starts_with(t, "try{document.querySelector"@)
}

pub open spec fn bootstrap_keeper() -> spec_fn(Seq<char>) -> bool {
    |l: Seq<char>| keeps_after_bootstrap(l)
}

pub open spec fn strip_bootstrap_noise_spec(s: Seq<char>) -> Seq<char> {
    join(lines(s).filter(bootstrap_keeper()), "\n"@)
}

/// Phrases whose presence on a line marks it as navigation chrome.
pub open spec fn has_chrome_phrase(t: Seq<char>) -> bool {
    ||| contains(t, "On this page"@)
    ||| contains(t, "Table of contents"@)
    ||| contains(t, "Was this page helpful?"@)
    ||| contains(t, "Thanks for your feedback!"@)
    ||| contains(t, "Help us improve this page"@)
    ||| contains(t, "Edit this page"@)
    ||| contains(t, "Skip to Content"@)
    ||| contains(t, "Copy page"@)
    ||| contains(t, "CTRL K"@)
    ||| contains(t, "Continue reading"@)
    ||| contains(t, "Last updated on"@)
}

/// Lines that are chrome when they consist of exactly this label.
pub open spec fn is_chrome_label(t: Seq<char>) -> bool {
    ||| t == "Edit this page"@
    ||| t == "Last updated"@
    ||| t == "Previous page"@
    ||| t == "Next page"@
    ||| t == "Files"@
    ||| t == "Top-Level Files"@
    ||| t == "Top-Level Folders"@
    ||| t == "Other Components"@
    ||| t == "Layout Components"@
    ||| t == "Content Components"@
    ||| t == "Search"@
    ||| t == "Types"@
    ||| t == "Functions"@
}

pub open spec fn keeps_after_chrome(line: Seq<char>) -> bool {
    !has_chrome_phrase(trim(line)) && !is_chrome_label(trim(line))
}

pub open spec fn chrome_keeper() -> spec_fn(Seq<char>) -> bool {
    |l: Seq<char>| keeps_after_chrome(l)
}

pub open spec fn strip_common_chrome_spec(s: Seq<char>) -> Seq<char> {
    join(lines(s).filter(chrome_keeper()), "\n"@)
}

fn keeps_after_bootstrap_exec(line: &[char]) -> (r: bool)
    ensures
        r == keeps_after_bootstrap(line@),
{
    let t = trim_chars(line);
    let t = t.as_slice();
    !contains_str(t, "localStorage.getItem(") && !contains_str(t, "document.querySelector(")
        && !contains_str(t, "classList.toggle(") && !contains_str(t, "window.matchMedia(")
        && !contains_str(t, "document.documentElement") && !contains_str(t, "__NEXT_DATA__")
        && !starts_with_str(t, "((a,b,c,d,e,f,g,h)=") && !starts_with_str(
        t,
        "try{document.querySelector",
    )
}

fn has_chrome_phrase_exec(t: &[char]) -> (r: bool)
    ensures
        r == has_chrome_phrase(t@),
{
    contains_str(t, "On this page") || contains_str(t, "Table of contents") || contains_str(
        t,
        "Was this page helpful?",
    ) || contains_str(t, "Thanks for your feedback!") || contains_str(
        t,
        "Help us improve this page",
    ) || contains_str(t, "Edit this page") || contains_str(t, "Skip to Content")
        || contains_str(t, "Copy page") || contains_str(t, "CTRL K") || contains_str(
        t,
        "Continue reading",
    ) || contains_str(t, "Last updated on")
}

fn is_chrome_label_exec(t: &[char]) -> (r: bool)
    ensures
        r == is_chrome_label(t@),
{
    eq_str(t, "Edit this page") || eq_str(t, "Last updated") || eq_str(t, "Previous page")
        || eq_str(t, "Next page") || eq_str(t, "Files") || eq_str(t, "Top-Level Files") || eq_str(
        t,
        "Top-Level Folders",
    ) || eq_str(t, "Other Components") || eq_str(t, "Layout Components") || eq_str(
        t,
        "Content Components",
    ) || eq_str(t, "Search") || eq_str(t, "Types") || eq_str(t, "Functions")
}

fn keeps_after_chrome_exec(line: &[char]) -> (r: bool)
    ensures
        r == keeps_after_chrome(line@),
{
    let t = trim_chars(line);
    !has_chrome_phrase_exec(t.as_slice()) && !is_chrome_label_exec(t.as_slice())
}

/// Drops lines that hold inline bootstrap scripts; lines are re-joined with `'\n'`.
pub fn strip_bootstrap_noise(input: &[char]) -> (r: Vec<char>)
    ensures
        r@ == strip_bootstrap_noise_spec(input@),
{
    let ls = split_lines(input);
    let ghost all = views(ls@);
    let mut kept: Vec<Vec<char>> = Vec::new();
    let mut i: usize = 0;
    assert(all.take(0).filter(bootstrap_keeper()) =~= Seq::<Seq<char>>::empty()) by {
        reveal_with_fuel(Seq::filter, 1);
    }
    while i < ls.len()
        invariant
            0 <= i <= ls@.len(),
            all == views(ls@),
            all == lines(input@),
            views(kept@) == all.take(i as int).filter(bootstrap_keeper()),
        decreases ls@.len() - i,
    {
        proof {
            lemma_filter_take_step(all, bootstrap_keeper(), i as int);
        }
        assert(all[i as int] == ls@[i as int]@);
        assert(bootstrap_keeper()(all[i as int]) == keeps_after_bootstrap(all[i as int]));
        if keeps_after_bootstrap_exec(ls[i].as_slice()) {
            let l = slice_to_vec(ls[i].as_slice(), 0, ls[i].len());
            assert(l@ =~= all[i as int]);
            proof {
                lemma_views_push(kept@, l);
            }
            kept.push(l);
        }
        i = i + 1;
    }
    assert(all.take(ls@.len() as int) =~= all);
    let nl = to_chars("\n");
    join_chars(&kept, nl.as_slice())
}

/// Drops navigation-chrome lines; lines are re-joined with `'\n'`.
pub fn strip_common_chrome(input: &[char]) -> (r: Vec<char>)
    ensures
        r@ == strip_common_chrome_spec(input@),
{
    let ls = split_lines(input);
    let ghost all = views(ls@);
    let mut kept: Vec<Vec<char>> = Vec::new();
    let mut i: usize = 0;
    assert(all.take(0).filter(chrome_keeper()) =~= Seq::<Seq<char>>::empty()) by {
        reveal_with_fuel(Seq::filter, 1);
    }
    while i < ls.len()
        invariant
            0 <= i <= ls@.len(),
            all == views(ls@),
            all == lines(input@),
            views(kept@) == all.take(i as int).filter(chrome_keeper()),
        decreases ls@.len() - i,
    {
        proof {
            lemma_filter_take_step(all, chrome_keeper(), i as int);
        }
        assert(all[i as int] == ls@[i as int]@);
        assert(chrome_keeper()(all[i as int]) == keeps_after_chrome(all[i as int]));
        if keeps_after_chrome_exec(ls[i].as_slice()) {
            let l = slice_to_vec(ls[i].as_slice(), 0, ls[i].len());
            assert(l@ =~= all[i as int]);
            proof {
                lemma_views_push(kept@, l);
            }
            kept.push(l);
        }
        i = i + 1;
    }
    assert(all.take(ls@.len() as int) =~= all);
    let nl = to_chars("\n");
    join_chars(&kept, nl.as_slice())
}

// ---------------------------------------------------------------- preamble

/// A setext underline: at least three characters, all `=` or `-`, after trimming.
pub open spec fn is_setext_underline_spec(line: Seq<char>) -> bool {
    let t = trim(line);
    t.len() >= 3 && forall|k: int| 0 <= k < t.len() ==> (t[k] == '=' || t[k] == '-')
}

/// Line `i` opens the document: it is a `# ` heading or underlined by the next line.
pub open spec fn opens_document(ls: Seq<Seq<char>>, i: int) -> bool {
    starts_with(trim(ls[i]), "# "@) || (i + 1 < ls.len() && is_setext_underline_spec(ls[i + 1]))
}

/// The first heading line among the first 80 lines, from index `i`.
pub open spec fn first_heading_from(ls: Seq<Seq<char>>, i: int) -> Option<int>
    decreases 80 - i,
{
    if i < 0 || i >= ls.len() || i >= 80 {
        None
    } else if opens_document(ls, i) {
        Some(i)
    } else {
        first_heading_from(ls, i + 1)
    }
}

pub open spec fn trim_leading_preamble_spec(s: Seq<char>) -> Seq<char> {
    match first_heading_from(lines(s), 0) {
        Some(i) => join(lines(s).skip(i), "\n"@),
        None => s,
    }
}

/// Whether a line underlines a setext heading. A line of only `=`/`-` has as
/// many bytes as characters, so the character count stands for the byte count.
pub fn is_setext_underline(line: &[char]) -> (r: bool)
    ensures
        r == is_setext_underline_spec(line@),
{
    let t = trim_chars(line);
    if t.len() < 3 {
        return false;
    }
    let mut k: usize = 0;
    while k < t.len()
        invariant
            0 <= k <= t@.len(),
            t@ == trim(line@),
            forall|j: int| 0 <= j < k ==> (t@[j] == '=' || t@[j] == '-'),
        decreases t@.len() - k,
    {
        if t[k] != '=' && t[k] != '-' {
            assert(!(t@[k as int] == '=' || t@[k as int] == '-'));
            return false;
        }
        k = k + 1;
    }
    true
}

/// Drops what precedes the first heading (looked for among the first 80 lines).
pub fn trim_leading_preamble(input: &[char]) -> (r: Vec<char>)
    ensures
        r@ == trim_leading_preamble_spec(input@),
{
    let ls = split_lines(input);
    let ghost all = views(ls@);
    let mut i: usize = 0;
    while i < ls.len() && i < 80
        invariant
            0 <= i <= ls@.len(),
            all == views(ls@),
            all == lines(input@),
            all.len() == ls@.len(),
            first_heading_from(all, 0) == first_heading_from(all, i as int),
        decreases ls@.len() - i,
    {
        assert(all[i as int] == ls@[i as int]@);
        if i + 1 < ls.len() {
            assert(all[i + 1] == ls@[i + 1]@);
        }
        let t = trim_chars(ls[i].as_slice());
        let hash_heading = starts_with_str(t.as_slice(), "# ");
        let setext = i + 1 < ls.len() && is_setext_underline(ls[i + 1].as_slice());
        if hash_heading || setext {
            let mut rest: Vec<Vec<char>> = Vec::new();
            let mut j: usize = i;
            while j < ls.len()
                invariant
                    i <= j <= ls@.len(),
                    all == views(ls@),
                    views(rest@) == all.subrange(i as int, j as int),
                decreases ls@.len() - j,
            {
                let l = slice_to_vec(ls[j].as_slice(), 0, ls[j].len());
                assert(l@ =~= all[j as int]);
                proof {
                    lemma_views_push(rest@, l);
                }
                rest.push(l);
                assert(views(rest@) =~= all.subrange(i as int, j + 1));
                j = j + 1;
            }
            assert(all.skip(i as int) =~= all.subrange(i as int, all.len() as int));
            let nl = to_chars("\n");
            return join_chars(&rest, nl.as_slice());
        }
        i = i + 1;
    }
    slice_to_vec(input, 0, input.len())
}

// ---------------------------------------------------------------- block syntax

pub open spec fn gitbook_blocks_spec(s: Seq<char>) -> Seq<char> {
    let a = rewrite_all(HINT_PATTERN@, s, Rewrite::GitBookHint);
    let b = replace(a, "{% tabs %}"@, seq![]);
    let c = replace(b, "{% endtabs %}"@, seq![]);
    let d = replace(c, "{% endtab %}"@, seq![]);
    rewrite_all(TAB_OPEN_PATTERN@, d, Rewrite::GitBookTab)
}

/// GitBook hints become quoted alerts; tab markers go, tab titles become headings.
pub fn normalize_gitbook_blocks(input: &[char]) -> (r: Vec<char>)
    ensures
        r@ == gitbook_blocks_spec(input@),
{
    let a = rewrite_all_exec(HINT_PATTERN, input, Rewrite::GitBookHint);
    proof {
        reveal_strlit("{% tabs %}");
        reveal_strlit("{% endtabs %}");
        reveal_strlit("{% endtab %}");
        reveal_strlit("");
    }
    let b = replace_str(a.as_slice(), "{% tabs %}", "");
    let c = replace_str(b.as_slice(), "{% endtabs %}", "");
    let d = replace_str(c.as_slice(), "{% endtab %}", "");
    assert(""@ =~= Seq::<char>::empty());
    rewrite_all_exec(TAB_OPEN_PATTERN, d.as_slice(), Rewrite::GitBookTab)
}

/// Docusaurus `:::kind ... :::` admonitions become quoted alerts.
pub fn normalize_docusaurus_blocks(input: &[char]) -> (r: Vec<char>)
    ensures
        r@ == rewrite_all(ADMONITION_PATTERN@, input@, Rewrite::Callout),
{
    rewrite_all_exec(ADMONITION_PATTERN, input, Rewrite::Callout)
}

/// VitePress `::: kind ... :::` containers become quoted alerts.
pub fn normalize_vitepress_blocks(input: &[char]) -> (r: Vec<char>)
    ensures
        r@ == rewrite_all(CONTAINER_PATTERN@, input@, Rewrite::Callout),
{
    rewrite_all_exec(CONTAINER_PATTERN, input, Rewrite::Callout)
}

/// Nextra `<Callout type="...">` elements become quoted alerts.
pub fn normalize_nextra_blocks(input: &[char]) -> (r: Vec<char>)
    ensures
        r@ == rewrite_all(CALLOUT_PATTERN@, input@, Rewrite::Callout),
{
    rewrite_all_exec(CALLOUT_PATTERN, input, Rewrite::Callout)
}

/// Material table wrapper `<div>`s are replaced by their content.
pub fn strip_material_table_wrappers(input: &[char]) -> (r: Vec<char>)
    ensures
        r@ == rewrite_all(TABLE_WRAPPER_PATTERN@, input@, Rewrite::FirstGroup),
{
    rewrite_all_exec(TABLE_WRAPPER_PATTERN, input, Rewrite::FirstGroup)
}

/// The state of the Material content-tab rewriter between lines.
pub struct TabState {
    pub out: Seq<char>,
    pub tab: Option<Seq<char>>,
    pub body: Seq<Seq<char>>,
}

/// The title after an opening `=== "` (or escaped `\=== "`), if the trimmed line is one.
pub open spec fn tab_title_rest(t: Seq<char>) -> Option<Seq<char>> {
    if starts_with(t, "=== \""@) {
        Some(t.skip(5))
    } else if starts_with(t, "\\=== \""@) {
        Some(t.skip(6))
    } else {
        None
    }
}

/// `str::trim_end_matches('"')`.
pub open spec fn trim_end_quotes(t: Seq<char>) -> Seq<char>
    decreases t.len(),
{
    if t.len() > 0 && t.last() == '"' {
        trim_end_quotes(t.drop_last())
    } else {
        t
    }
}

/// Emits the open tab (if any) as a `### title` section.
pub open spec fn flush_tab(st: TabState) -> TabState {
    match st.tab {
        Some(title) => {
            let body = trim(join(st.body, "\n"@));
            let out1 = if st.out.len() > 0 && !ends_with(st.out, "\n\n"@) {
                st.out.push('\n')
            } else {
                st.out
            };
            TabState { out: out1 + "### "@ + title + "\n\n"@ + trim(body) + "\n\n"@, tab: None, body: seq![] }
        },
        None => st,
    }
}

pub open spec fn tab_step(st: TabState, line: Seq<char>) -> TabState {
    match tab_title_rest(trim(line)) {
        Some(rest) => {
            let f = flush_tab(st);
            TabState { out: f.out, tab: Some(trim_end_quotes(rest)), body: f.body }
        },
        None => if st.tab is Some {
            TabState { out: st.out, tab: st.tab, body: st.body.push(line) }
        } else {
            TabState { out: st.out + line + "\n"@, tab: st.tab, body: st.body }
        },
    }
}

pub open spec fn tab_fold(ls: Seq<Seq<char>>) -> TabState
    decreases ls.len(),
{
    if ls.len() == 0 {
        TabState { out: seq![], tab: None, body: seq![] }
    } else {
        tab_step(tab_fold(ls.drop_last()), ls.last())
    }
}

pub open spec fn mkdocs_blocks_spec(s: Seq<char>) -> Seq<char> {
    rewrite_all(
        TABLE_WRAPPER_PATTERN@,
        trim_end(flush_tab(tab_fold(lines(s))).out),
        Rewrite::FirstGroup,
    )
}

fn trim_end_quotes_exec(t: &[char]) -> (r: Vec<char>)
    ensures
        r@ == trim_end_quotes(t@),
{
    let mut n: usize = t.len();
    assert(t@.take(t@.len() as int) =~= t@);
    while n > 0 && t[n - 1] == '"'
        invariant
            0 <= n <= t@.len(),
            trim_end_quotes(t@) == trim_end_quotes(t@.take(n as int)),
        decreases n,
    {
        assert(t@.take(n as int).drop_last() =~= t@.take(n - 1));
        n = n - 1;
    }
    let r = slice_to_vec(t, 0, n);
    assert(r@ =~= t@.take(n as int));
    r
}

fn tab_title_rest_exec(t: &[char]) -> (r: Option<Vec<char>>)
    ensures
        match r {
            Some(v) => tab_title_rest(t@) == Some(v@),
            None => tab_title_rest(t@) is None,
        },
{
    proof {
        reveal_strlit("=== \"");
        reveal_strlit("\\=== \"");
    }
    if starts_with_str(t, "=== \"") {
        Some(slice_to_vec(t, 5, t.len()))
    } else if starts_with_str(t, "\\=== \"") {
        Some(slice_to_vec(t, 6, t.len()))
    } else {
        None
    }
}

/// Executable state of the tab rewriter.
struct TabRun {
    out: Vec<char>,
    tab: Option<Vec<char>>,
    body: Vec<Vec<char>>,
}

spec fn run_view(r: TabRun) -> TabState {
    TabState {
        out: r.out@,
        tab: match r.tab {
            Some(t) => Some(t@),
            None => None,
        },
        body: views(r.body@),
    }
}

fn flush_tab_exec(run: TabRun) -> (r: TabRun)
    ensures
        run_view(r) == flush_tab(run_view(run)),
{
    let TabRun { out, tab, body } = run;
    match tab {
        Some(title) => {
            let nl = to_chars("\n");
            let joined = join_chars(&body, nl.as_slice());
            let b = trim_chars(joined.as_slice());
            let mut out = out;
            if out.len() > 0 && !ends_with_str(out.as_slice(), "\n\n") {
                out.push('\n');
            }
            append_str(&mut out, "### ");
            append_chars(&mut out, title.as_slice());
            append_str(&mut out, "\n\n");
            let bt = trim_chars(b.as_slice());
            append_chars(&mut out, bt.as_slice());
            append_str(&mut out, "\n\n");
            let r = TabRun { out, tab: None, body: Vec::new() };
            assert(views(r.body@) =~= Seq::<Seq<char>>::empty());
            r
        },
        None => TabRun { out, tab: None, body },
    }
}

/// Material content tabs (`=== "Title"`) become `### Title` sections, then
/// table wrapper `<div>`s are replaced by their content.
pub fn normalize_mkdocs_material_blocks(input: &[char]) -> (r: Vec<char>)
    ensures
        r@ == mkdocs_blocks_spec(input@),
{
    let ls = split_lines(input);
    let ghost all = views(ls@);
    let mut run = TabRun { out: Vec::new(), tab: None, body: Vec::new() };
    assert(views(run.body@) =~= Seq::<Seq<char>>::empty());
    assert(run_view(run) == tab_fold(all.take(0)));
    let mut i: usize = 0;
    while i < ls.len()
        invariant
            0 <= i <= ls@.len(),
            all == views(ls@),
            all == lines(input@),
            run_view(run) == tab_fold(all.take(i as int)),
        decreases ls@.len() - i,
    {
        assert(all.take(i + 1).drop_last() =~= all.take(i as int));
        assert(all[i as int] == ls@[i as int]@);
        let line = ls[i].as_slice();
        let t = trim_chars(line);
        let ghost before = run_view(run);
        proof {
            reveal_strlit("\n");
        }
        match tab_title_rest_exec(t.as_slice()) {
            Some(rest) => {
                let f = flush_tab_exec(run);
                let title = trim_end_quotes_exec(rest.as_slice());
                run = TabRun { out: f.out, tab: Some(title), body: f.body };
            },
            None => {
                if run.tab.is_some() {
                    let l = slice_to_vec(line, 0, line.len());
                    assert(l@ =~= line@);
                    proof {
                        lemma_views_push(run.body@, l);
                    }
                    run.body.push(l);
                    assert(run_view(run).body =~= before.body.push(line@));
                    assert(run_view(run) == tab_step(before, line@));
                } else {
                    append_chars(&mut run.out, line);
                    run.out.push('\n');
                    assert(run.out@ =~= before.out + line@ + "\n"@);
                    assert(run_view(run) == tab_step(before, line@));
                }
            },
        }
        i = i + 1;
    }
    assert(all.take(ls@.len() as int) =~= all);
    let f = flush_tab_exec(run);
    let trimmed = trim_end_chars(f.out.as_slice());
    strip_material_table_wrappers(trimmed.as_slice())
}

// ---------------------------------------------------------------- whole pipeline

pub open spec fn strip_inline_chrome_spec(s: Seq<char>) -> Seq<char> {
    let a = rewrite_all(EMPTY_LINK_PATTERN@, s, Rewrite::Delete);
    let b = rewrite_all(ANCHOR_GLYPH_PATTERN@, a, Rewrite::Delete);
    rewrite_all(LLMS_BANNER_PATTERN@, b, Rewrite::Delete)
}

/// Removes empty links, anchor glyph links and the "Are you an LLM?" banner.
pub fn strip_inline_chrome(input: &[char]) -> (r: Vec<char>)
    ensures
        r@ == strip_inline_chrome_spec(input@),
{
    let a = rewrite_all_exec(EMPTY_LINK_PATTERN, input, Rewrite::Delete);
    let b = rewrite_all_exec(ANCHOR_GLYPH_PATTERN, a.as_slice(), Rewrite::Delete);
    rewrite_all_exec(LLMS_BANNER_PATTERN, b.as_slice(), Rewrite::Delete)
}

/// The framework-specific block rewriting.
pub open spec fn framework_blocks_spec(s: Seq<char>, framework: Framework) -> Seq<char> {
    match framework {
        Framework::GitBookModern | Framework::GitBookClassic => gitbook_blocks_spec(s),
        Framework::Docusaurus => rewrite_all(ADMONITION_PATTERN@, s, Rewrite::Callout),
        Framework::MkDocsMaterial => mkdocs_blocks_spec(s),
        Framework::VitePress => rewrite_all(CONTAINER_PATTERN@, s, Rewrite::Callout),
        Framework::Nextra => rewrite_all(CALLOUT_PATTERN@, s, Rewrite::Callout),
        Framework::GenericDocsFallback => s,
    }
}

/// Everything before the final trim: block syntax, chrome, noise, preamble and
/// collapsed blank-line runs.
pub open spec fn normalized_body(input: Seq<char>, framework: Framework) -> Seq<char> {
    let a = replace(input, "\r\n"@, "\n"@);
    let b = framework_blocks_spec(a, framework);
    let c = strip_inline_chrome_spec(b);
    let d = strip_bootstrap_noise_spec(c);
    let e = strip_common_chrome_spec(d);
    let f = trim_leading_preamble_spec(e);
    rewrite_all(MULTI_NEWLINE_PATTERN@, f, Rewrite::ParagraphBreak)
}

/// The normalized Markdown: the trimmed body followed by one newline.
pub open spec fn normalized_markdown(input: Seq<char>, framework: Framework) -> Seq<char> {
    trim(normalized_body(input, framework)).push('\n')
}

/// Normalized Markdown ends with exactly one newline: it is never empty, its
/// last character is `\n`, and the text before that newline (when there is
/// any) neither starts nor ends with whitespace.
pub proof fn lemma_normalized_shape(input: Seq<char>, framework: Framework)
    ensures
        normalized_markdown(input, framework).len() >= 1,
        normalized_markdown(input, framework).last() == '\n',
        normalized_markdown(input, framework).len() > 1 ==> !is_ws(
            normalized_markdown(input, framework)[0],
        ) && !is_ws(
            normalized_markdown(input, framework)[normalized_markdown(input, framework).len() - 2],
        ),
{
    lemma_trim_shape(normalized_body(input, framework));
}

fn framework_blocks(input: &[char], framework: Framework) -> (r: Vec<char>)
    ensures
        r@ == framework_blocks_spec(input@, framework),
{
    match framework {
        Framework::GitBookModern | Framework::GitBookClassic => normalize_gitbook_blocks(input),
        Framework::Docusaurus => normalize_docusaurus_blocks(input),
        Framework::MkDocsMaterial => normalize_mkdocs_material_blocks(input),
        Framework::VitePress => normalize_vitepress_blocks(input),
        Framework::Nextra => normalize_nextra_blocks(input),
        Framework::GenericDocsFallback => slice_to_vec(input, 0, input.len()),
    }
}

/// Normalizes Markdown for the given framework (see `normalized_markdown`).
pub fn normalize_markdown_chars(input: &[char], framework: &Framework) -> (r: Vec<char>)
    ensures
        r@ == normalized_markdown(input@, *framework),
{
    proof {
        reveal_strlit("\r\n");
    }
    let a = replace_str(input, "\r\n", "\n");
    let b = framework_blocks(a.as_slice(), *framework);
    let c = strip_inline_chrome(b.as_slice());
    let d = strip_bootstrap_noise(c.as_slice());
    let e = strip_common_chrome(d.as_slice());
    let f = trim_leading_preamble(e.as_slice());
    let g = rewrite_all_exec(MULTI_NEWLINE_PATTERN, f.as_slice(), Rewrite::ParagraphBreak);
    let mut t = trim_chars(g.as_slice());
    t.push('\n');
    t
}

/// Normalizes Markdown for the given framework (see `normalized_markdown`).
pub fn normalize_markdown(input: &str, framework: &Framework) -> (r: String)
    ensures
        r@ == normalized_markdown(input@, *framework),
{
    let v = to_chars(input);
    let n = normalize_markdown_chars(v.as_slice(), framework);
    from_chars(n.as_slice())
}

// ---------------------------------------------------------------- HTML

/// Whitespace runs collapsed to single spaces, ends trimmed.
pub open spec fn clean_whitespace_spec(s: Seq<char>) -> Seq<char> {
    trim(join(words(s), " "@))
}

pub fn clean_whitespace(input: &[char]) -> (r: Vec<char>)
    ensures
        r@ == clean_whitespace_spec(input@),
{
    let ws = split_whitespace(input);
    let sp = to_chars(" ");
    let j = join_chars(&ws, sp.as_slice());
    trim_chars(j.as_slice())
}

/// The cleaned text of a first match, if non-empty.
pub open spec fn cleaned_match(m: Option<Seq<Seq<char>>>) -> Option<Seq<char>> {
    match m {
        Some(texts) => {
            let t = clean_whitespace_spec(join(texts, " "@));
            if t.len() > 0 {
                Some(t)
            } else {
                None
            }
        },
        None => None,
    }
}

/// The page title: the cleaned text of the first `h1`, else of `title`;
/// `None` when neither gives non-empty text (or a selector does not parse).
pub open spec fn title_from_html(html: Seq<char>) -> Option<Seq<char>> {
    match html_first_match_texts(html, "h1"@) {
        None => None,
        Some(m) => match cleaned_match(m) {
            Some(t) => Some(t),
            None => match html_first_match_texts(html, "title"@) {
                None => None,
                Some(m2) => cleaned_match(m2),
            },
        },
    }
}

pub fn strings_to_chars(v: &Vec<String>) -> (r: Vec<Vec<char>>)
    ensures
        views(r@) == v.deep_view(),
{
    let mut r: Vec<Vec<char>> = Vec::new();
    let mut i: usize = 0;
    while i < v.len()
        invariant
            0 <= i <= v@.len(),
            views(r@) == v.deep_view().take(i as int),
        decreases v@.len() - i,
    {
        let c = to_chars(v[i].as_str());
        proof {
            lemma_views_push(r@, c);
        }
        r.push(c);
        assert(views(r@) =~= v.deep_view().take(i + 1));
        i = i + 1;
    }
    assert(v.deep_view().take(v@.len() as int) =~= v.deep_view());
    r
}

fn cleaned_match_exec(m: Option<Vec<String>>) -> (r: Option<String>)
    ensures
        opt_chars(r) == cleaned_match(
            match m {
                Some(v) => Some(v.deep_view()),
                None => None,
            },
        ),
{
    match m {
        Some(texts) => {
            let parts = strings_to_chars(&texts);
            let sp = to_chars(" ");
            let joined = join_chars(&parts, sp.as_slice());
            let t = clean_whitespace(joined.as_slice());
            if t.len() > 0 {
                Some(from_chars(t.as_slice()))
            } else {
                None
            }
        },
        None => None,
    }
}

pub open spec fn opt_chars(o: Option<String>) -> Option<Seq<char>> {
    match o {
        Some(s) => Some(s@),
        None => None,
    }
}

/// The title of an HTML page (see `title_from_html`).
pub fn extract_title_from_html(html: &str) -> (r: Option<String>)
    ensures
        opt_chars(r) == title_from_html(html@),
{
    match first_match_texts(html, "h1") {
        None => None,
        Some(m) => match cleaned_match_exec(m) {
            Some(t) => Some(t),
            None => match first_match_texts(html, "title") {
                None => None,
                Some(m2) => cleaned_match_exec(m2),
            },
        },
    }
}

/// The text of the first element that `sel` matches, with its whitespace runs
/// collapsed to single spaces and trimmed; `None` when nothing matches or the
/// text is blank.
pub open spec fn first_element_text(html: Seq<char>, sel: Seq<char>) -> Option<Seq<char>> {
    match html_first_match_texts(html, sel) {
        Some(Some(texts)) => {
            let t = clean_whitespace_spec(join(texts, " "@));
            if t.len() > 0 {
                Some(t)
            } else {
                None
            }
        },
        _ => None,
    }
}

/// The first `h1` wins: when the page's first `h1` has text that is not
/// blank, the title is that text; the `title` element gives the title only
/// when there is no such `h1`.
pub proof fn lemma_title_prefers_h1(html: Seq<char>)
    ensures
        first_element_text(html, "h1"@) matches Some(t) ==> title_from_html(html) == Some(t),
        html_first_match_texts(html, "h1"@) is Some && first_element_text(html, "h1"@) is None
            ==> title_from_html(html) == first_element_text(html, "title"@),
{
}

pub open spec fn str_views(v: Seq<&str>) -> Seq<Seq<char>> {
    Seq::new(v.len(), |i: int| v[i]@)
}

/// The content fragment: the outer HTML of the first match of the first
/// selector (in order) whose match is not blank; the whole page when none is.
/// A selector that does not parse is passed over.
pub open spec fn main_html_from(html: Seq<char>, sels: Seq<Seq<char>>, i: int) -> Seq<char>
    decreases sels.len() - i,
{
    if i < 0 || i >= sels.len() {
        html
    } else {
        match html_first_match_html(html, sels[i]) {
            Some(Some(frag)) => if trim(frag).len() > 0 {
                frag
            } else {
                main_html_from(html, sels, i + 1)
            },
            _ => main_html_from(html, sels, i + 1),
        }
    }
}

pub fn extract_main_html(html: &str, selectors: &[&str]) -> (r: String)
    ensures
        r@ == main_html_from(html@, str_views(selectors@), 0),
{
    let ghost sels = str_views(selectors@);
    let mut i: usize = 0;
    while i < selectors.len()
        invariant
            0 <= i <= selectors@.len(),
            sels == str_views(selectors@),
            main_html_from(html@, sels, 0) == main_html_from(html@, sels, i as int),
        decreases selectors@.len() - i,
    {
        assert(sels[i as int] == selectors@[i as int]@);
        match first_match_html(html, selectors[i]) {
            Some(Some(frag)) => {
                let fc = to_chars(frag.as_str());
                let t = trim_chars(fc.as_slice());
                if t.len() > 0 {
                    return frag;
                }
            },
            _ => {},
        }
        i = i + 1;
    }
    html.to_owned()
}

/// HTML to normalized Markdown: content fragment, `html2md`, normalization.
pub open spec fn html_markdown_with(html: Seq<char>, framework: Framework, sels: Seq<Seq<char>>) -> Seq<char> {
    normalized_markdown(html2md_markdown(main_html_from(html, sels, 0)), framework)
}

/// html2md can convert the page's content fragment (see `html2md_accepts`).
pub open spec fn html_convertible(html: Seq<char>, sels: Seq<Seq<char>>) -> bool {
    html2md_accepts(html2md_dom(main_html_from(html, sels, 0)))
}

/// Whether `html_to_markdown_with_selectors` can convert this page.
pub fn can_convert_html(html: &str, selectors: &[&str]) -> (r: bool)
    ensures
        r == html_convertible(html@, str_views(selectors@)),
{
    let fragment = extract_main_html(html, selectors);
    html2md_can_convert(fragment.as_str())
}

pub fn html_to_markdown_with_selectors(html: &str, framework: &Framework, selectors: &[&str]) -> (r:
    String)
    requires
        html_convertible(html@, str_views(selectors@)),
    ensures
        r@ == html_markdown_with(html@, *framework, str_views(selectors@)),
{
    let fragment = extract_main_html(html, selectors);
    let markdown = html2md_parse(fragment.as_str());
    normalize_markdown(markdown.as_str(), framework)
}

/// The content selectors tried when a framework names none of its own.
pub open spec fn default_content_selectors_spec() -> Seq<Seq<char>> {
    seq![
        "main"@,
        "[role='main']"@,
        "article"@,
        ".theme-doc-markdown"@,
        ".markdown"@,
        ".content"@,
        ".page"@,
        "body"@,
    ]
}

pub fn default_content_selectors() -> (r: Vec<&'static str>)
    ensures
        str_views(r@) == default_content_selectors_spec(),
{
    let r = vec![
        "main",
        "[role='main']",
        "article",
        ".theme-doc-markdown",
        ".markdown",
        ".content",
        ".page",
        "body",
    ];
    assert(str_views(r@) =~= default_content_selectors_spec());
    r
}

pub fn html_to_markdown(html: &str, framework: &Framework) -> (r: String)
    requires
        html_convertible(html@, default_content_selectors_spec()),
    ensures
        r@ == html_markdown_with(html@, *framework, default_content_selectors_spec()),
{
    let sels = default_content_selectors();
    html_to_markdown_with_selectors(html, framework, sels.as_slice())
}

} // verus!
