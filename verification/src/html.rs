//! HTML access through `scraper` and `html2md`: selector queries report plain
//! values (texts, fragments, link targets) that the library then works on.
use html5ever::tendril::TendrilSink;
use vstd::prelude::*;

verus! {

/// What a CSS selector query on a parsed HTML document reports for the first
/// matching element: `None` when the selector does not parse, `Some(None)` when
/// no element matches, otherwise the element's text nodes in document order.
pub uninterp spec fn html_first_match_texts(html: Seq<char>, selector: Seq<char>) -> Option<
    Option<Seq<Seq<char>>>,
>;

/// What a CSS selector query reports for the first matching element's outer
/// HTML: `None` when the selector does not parse, `Some(None)` when nothing matches.
pub uninterp spec fn html_first_match_html(html: Seq<char>, selector: Seq<char>) -> Option<
    Option<Seq<char>>,
>;

/// What a CSS selector query reports for every matching element, in document
/// order: its `href` attribute (if any) and its text nodes. `None` when the
/// selector does not parse.
pub uninterp spec fn html_anchor_matches(html: Seq<char>, selector: Seq<char>) -> Option<
    Seq<(Option<Seq<char>>, Seq<Seq<char>>)>,
>;

/// What `html2md::parse_html` returns for an HTML text.
pub uninterp spec fn html2md_markdown(html: Seq<char>) -> Seq<char>;

/// A matched element as the library sees it.
pub struct Anchor {
    pub href: Option<String>,
    pub texts: Vec<String>,
}

pub open spec fn anchor_view(a: Anchor) -> (Option<Seq<char>>, Seq<Seq<char>>) {
    (
        match a.href {
            Some(h) => Some(h@),
            None => None,
        },
        a.texts.deep_view(),
    )
}

pub open spec fn anchors_view(v: Seq<Anchor>) -> Seq<(Option<Seq<char>>, Seq<Seq<char>>)> {
    Seq::new(v.len(), |i: int| anchor_view(v[i]))
}

/// `scraper::Selector::parse`, `scraper::Html::parse_document`, `Html::select`
/// and `ElementRef::text` for the first match; the contract names the result.
#[verifier::external_body]
pub(crate) fn first_match_texts(html: &str, selector: &str) -> (r: Option<Option<Vec<String>>>)
    ensures
        html_first_match_texts(html@, selector@) == match r {
            None => None,
            Some(None) => Some(None),
            Some(Some(v)) => Some(Some(v.deep_view())),
        },
{
    let selector = scraper::Selector::parse(selector).ok()?;
    let document = scraper::Html::parse_document(html);
    Some(document.select(&selector).next().map(|e| e.text().map(|t| t.to_string()).collect()))
}

/// `scraper::Selector::parse`, `scraper::Html::parse_document`, `Html::select`
/// and `ElementRef::html` for the first match; the contract names the result.
#[verifier::external_body]
pub(crate) fn first_match_html(html: &str, selector: &str) -> (r: Option<Option<String>>)
    ensures
        html_first_match_html(html@, selector@) == match r {
            None => None,
            Some(None) => Some(None),
            Some(Some(s)) => Some(Some(s@)),
        },
{
    let selector = scraper::Selector::parse(selector).ok()?;
    let document = scraper::Html::parse_document(html);
    Some(document.select(&selector).next().map(|e| e.html()))
}

/// `scraper::Selector::parse`, `scraper::Html::parse_document`, `Html::select`,
/// `ElementRef::attr("href")` and `ElementRef::text` for every match; the
/// contract names the result.
#[verifier::external_body]
pub(crate) fn anchor_matches(html: &str, selector: &str) -> (r: Option<Vec<Anchor>>)
    ensures
        html_anchor_matches(html@, selector@) == match r {
            None => None,
            Some(v) => Some(anchors_view(v@)),
        },
{
    let selector = scraper::Selector::parse(selector).ok()?;
    let document = scraper::Html::parse_document(html);
    Some(
        document.select(&selector).map(
            |e| Anchor {
                href: e.attr("href").map(|h| h.to_string()),
                texts: e.text().map(|t| t.to_string()).collect(),
            },
        ).collect(),
    )
}

/// The document tree that `html2md::parse_html` builds from an HTML text
/// (`html5ever::parse_document` into an `RcDom`, default options), as a list of
/// nodes in document order: each node's element name (`None` for the document,
/// text, comments and the like) and the index of its parent (`usize::MAX` for
/// the document node).
pub uninterp spec fn html2md_dom(html: Seq<char>) -> Seq<(Option<Seq<char>>, usize)>;

pub open spec fn node_views(v: Seq<(Option<String>, usize)>) -> Seq<(Option<Seq<char>>, usize)> {
    Seq::new(
        v.len(),
        |i: int|
            (
                match v[i].0 {
                    Some(n) => Some(n@),
                    None => None,
                },
                v[i].1,
            ),
    )
}

/// Parses `html` exactly as `html2md::parse_html` does (html5ever's
/// `parse_document` into an `RcDom` with default options, read from the UTF-8
/// bytes) and lists the tree's nodes depth-first, each with its element name
/// and its parent's index; the contract names the result.
#[verifier::external_body]
fn dom_nodes(html: &str) -> (r: Vec<(Option<String>, usize)>)
    ensures
        node_views(r@) == html2md_dom(html@),
{
    let sink = html2md::RcDom::default();
    let dom = html5ever::parse_document(sink, Default::default()).from_utf8().read_from(&mut html.as_bytes()).unwrap();
    let mut out = Vec::new();
    let mut stack = vec![(dom.document.clone(), usize::MAX)];
    while let Some((node, parent)) = stack.pop() {
        let here = out.len();
        let name = match &node.data { html2md::NodeData::Element { name, .. } => Some(name.local.to_string()), _ => None };
        out.push((name, parent));
        for child in node.children.borrow().iter().rev() {
            stack.push((child.clone(), here));
        }
    }
    out
}

pub open spec fn node_named(nodes: Seq<(Option<Seq<char>>, usize)>, j: int, name: Seq<char>) -> bool {
    0 <= j < nodes.len() && nodes[j].0 == Some(name)
}

/// A `ul`, `ol` or `menu` element.
pub open spec fn is_list_node(nodes: Seq<(Option<Seq<char>>, usize)>, j: int) -> bool {
    node_named(nodes, j, "ul"@) || node_named(nodes, j, "ol"@) || node_named(nodes, j, "menu"@)
}

/// A table cell as html2md's tables convert it on its own: a `td` or `th`
/// whose parent is a `tr`.
pub open spec fn is_cell_node(nodes: Seq<(Option<Seq<char>>, usize)>, j: int) -> bool {
    (node_named(nodes, j, "td"@) || node_named(nodes, j, "th"@)) && node_named(
        nodes,
        nodes[j].1 as int,
        "tr"@,
    )
}

/// Going up from node `j` (at most `steps` nodes), a list element comes before
/// any table cell and before the top.
pub open spec fn list_above(nodes: Seq<(Option<Seq<char>>, usize)>, j: int, steps: nat) -> bool
    decreases steps,
{
    if steps == 0 || j < 0 || j >= nodes.len() {
        false
    } else if is_list_node(nodes, j) {
        true
    } else if is_cell_node(nodes, j) {
        false
    } else {
        list_above(nodes, nodes[j].1 as int, (steps - 1) as nat)
    }
}

/// An element whose html2md handler records a position in the output and
/// later inserts or slices there: a link (`a`), emphasis (`b`, `strong`, `i`,
/// `em`, `s`, `del`) or a quote (`q`, `cite`, `blockquote`). (`u` and `ins`
/// get no handler of their own in html2md's tree walk, and an `li` above an
/// `li` that is outside any list is itself outside any list and records
/// position 0, where nothing can be left behind.)
pub open spec fn is_marking_node(nodes: Seq<(Option<Seq<char>>, usize)>, j: int) -> bool {
    ||| node_named(nodes, j, "a"@)
    ||| node_named(nodes, j, "b"@)
    ||| node_named(nodes, j, "strong"@)
    ||| node_named(nodes, j, "i"@)
    ||| node_named(nodes, j, "em"@)
    ||| node_named(nodes, j, "s"@)
    ||| node_named(nodes, j, "del"@)
    ||| node_named(nodes, j, "q"@)
    ||| node_named(nodes, j, "cite"@)
    ||| node_named(nodes, j, "blockquote"@)
}

/// Going up from node `j` to the top, some element records a position (when
/// more than `steps` nodes would be needed, assume one does).
pub open spec fn marker_above(nodes: Seq<(Option<Seq<char>>, usize)>, j: int, steps: nat) -> bool
    decreases steps,
{
    if j < 0 || j >= nodes.len() {
        false
    } else if steps == 0 || is_marking_node(nodes, j) {
        true
    } else {
        marker_above(nodes, nodes[j].1 as int, (steps - 1) as nat)
    }
}

/// html2md cannot be shown to convert the tree without panicking when some
/// `li` element is outside any list (`ul`, `ol`, `menu`) within its own table
/// cell, if any, and also lies under an element that records a position.
/// html2md handles such an `li` by trimming whitespace at the start of its
/// whole output, which can leave that element's recorded position past the
/// text or inside a character, where inserting or slicing panics. Every other
/// tree is accepted, `li` outside lists included.
pub open spec fn html2md_accepts(nodes: Seq<(Option<Seq<char>>, usize)>) -> bool {
    forall|i: int|
        #![trigger nodes[i]]
        0 <= i < nodes.len() && nodes[i].0 == Some("li"@) ==> list_above(
            nodes,
            nodes[i].1 as int,
            nodes.len(),
        ) || !marker_above(nodes, nodes[i].1 as int, nodes.len())
}

fn named(nodes: &Vec<(Option<String>, usize)>, j: usize, name: &str) -> (r: bool)
    ensures
        r == node_named(node_views(nodes@), j as int, name@),
{
    if j >= nodes.len() {
        return false;
    }
    match &nodes[j].0 {
        Some(n) => {
            let c = crate::text::to_chars(n.as_str());
            crate::text::eq_str(c.as_slice(), name)
        },
        None => false,
    }
}

fn list_above_exec(nodes: &Vec<(Option<String>, usize)>, j: usize) -> (r: bool)
    ensures
        r == list_above(node_views(nodes@), j as int, nodes@.len() as nat),
{
    let ghost nv = node_views(nodes@);
    let mut k = j;
    let mut steps: usize = nodes.len();
    while steps > 0
        invariant
            nv == node_views(nodes@),
            steps <= nodes@.len(),
            list_above(nv, j as int, nodes@.len() as nat) == list_above(nv, k as int, steps as nat),
        decreases steps,
    {
        if k >= nodes.len() {
            return false;
        }
        if named(nodes, k, "ul") || named(nodes, k, "ol") || named(nodes, k, "menu") {
            return true;
        }
        if (named(nodes, k, "td") || named(nodes, k, "th")) && named(nodes, nodes[k].1, "tr") {
            return false;
        }
        k = nodes[k].1;
        steps = steps - 1;
    }
    false
}

fn marking(nodes: &Vec<(Option<String>, usize)>, k: usize) -> (r: bool)
    ensures
        r == is_marking_node(node_views(nodes@), k as int),
{
    named(nodes, k, "a") || named(nodes, k, "b") || named(nodes, k, "strong") || named(nodes, k, "i")
        || named(nodes, k, "em") || named(nodes, k, "s") || named(nodes, k, "del") || named(
        nodes,
        k,
        "q",
    ) || named(nodes, k, "cite") || named(nodes, k, "blockquote")
}

fn marker_above_exec(nodes: &Vec<(Option<String>, usize)>, j: usize) -> (r: bool)
    ensures
        r == marker_above(node_views(nodes@), j as int, nodes@.len() as nat),
{
    let ghost nv = node_views(nodes@);
    let mut k = j;
    let mut steps: usize = nodes.len();
    loop
        invariant
            nv == node_views(nodes@),
            steps <= nodes@.len(),
            marker_above(nv, j as int, nodes@.len() as nat) == marker_above(nv, k as int, steps as nat),
        decreases steps,
    {
        if k >= nodes.len() {
            return false;
        }
        if steps == 0 || marking(nodes, k) {
            return true;
        }
        k = nodes[k].1;
        steps = steps - 1;
    }
}

/// Whether html2md can convert this HTML text (see `html2md_accepts`).
pub fn html2md_can_convert(html: &str) -> (r: bool)
    ensures
        r == html2md_accepts(html2md_dom(html@)),
{
    let nodes = dom_nodes(html);
    let ghost nv = node_views(nodes@);
    let mut i: usize = 0;
    while i < nodes.len()
        invariant
            0 <= i <= nodes@.len(),
            nv == node_views(nodes@),
            nv == html2md_dom(html@),
            forall|k: int|
                #![trigger nv[k]]
                0 <= k < i && nv[k].0 == Some("li"@) ==> list_above(nv, nv[k].1 as int, nv.len())
                    || !marker_above(nv, nv[k].1 as int, nv.len()),
        decreases nodes@.len() - i,
    {
        if named(&nodes, i, "li") && !list_above_exec(&nodes, nodes[i].1) && marker_above_exec(
            &nodes,
            nodes[i].1,
        ) {
            assert(nv[i as int].0 == Some("li"@));
            return false;
        }
        i = i + 1;
    }
    true
}

/// Calls `html2md::parse_html`; the contract names its result. It is only
/// called on texts whose tree `html2md_accepts`, as html2md can panic on an
/// `li` outside any list that lies under a link, emphasis or quote. What is left unsaid: html2md
/// walks the tree recursively, so a tree nested deeper than the thread's stack
/// allows is not excluded.
#[verifier::external_body]
pub(crate) fn html2md_parse(html: &str) -> (r: String)
    requires
        html2md_accepts(html2md_dom(html@)),
    ensures
        r@ == html2md_markdown(html@),
{
    html2md::parse_html(html)
}

} // verus!
