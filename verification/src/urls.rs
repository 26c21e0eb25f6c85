//! URLs as plain values: the `url` crate parses and resolves; normalization,
//! scoping, depth and output paths are computed here.
use vstd::prelude::*;

use crate::error::{DocsiteError, DocsiteErrorView};

use crate::text::{
    append_chars, append_str, contains, contains_chars, ends_with, ends_with_str, from_chars,
    slice_to_vec, starts_with, starts_with_chars, to_chars,
};

verus! {

/// The parts of a parsed URL that the library reads.
pub struct UrlParts {
    /// `Url::as_str`
    pub serialization: String,
    pub scheme: String,
    /// `Url::host_str`
    pub host: Option<String>,
    /// `Url::domain` (no domain for IP hosts)
    pub domain: Option<String>,
    /// `Url::port` (none for the scheme's default port)
    pub port: Option<u16>,
    pub path: String,
    pub cannot_be_a_base: bool,
}

pub struct UrlView {
    pub serialization: Seq<char>,
    pub scheme: Seq<char>,
    pub host: Option<Seq<char>>,
    pub domain: Option<Seq<char>>,
    pub port: Option<u16>,
    pub path: Seq<char>,
    pub cannot_be_a_base: bool,
}

impl View for UrlParts {
    type V = UrlView;

    open spec fn view(&self) -> UrlView {
        UrlView {
            serialization: self.serialization@,
            scheme: self.scheme@,
            host: match self.host {
                Some(h) => Some(h@),
                None => None,
            },
            domain: match self.domain {
                Some(d) => Some(d@),
                None => None,
            },
            port: self.port,
            path: self.path@,
            cannot_be_a_base: self.cannot_be_a_base,
        }
    }
}

/// What `url::Url::parse` yields for a text: the parsed URL, or the message
/// (`Display`) of the parse error when it rejects the text.
pub uninterp spec fn url_parse(s: Seq<char>) -> Result<UrlView, Seq<char>>;

/// What resolving `href` against the URL `base` yields once its query and
/// fragment are cleared (`None` when `base` or the resolution is rejected).
pub uninterp spec fn url_join_clean(base: Seq<char>, href: Seq<char>) -> Option<UrlView>;

/// Calls `url::Url::parse` and reads the parsed URL's parts, or the parse
/// error's message.
#[verifier::external_body]
pub(crate) fn parse_url(s: &str) -> (r: Result<UrlParts, String>)
    ensures
        match r {
            Ok(u) => url_parse(s@) == Ok::<UrlView, Seq<char>>(u@),
            Err(m) => url_parse(s@) == Err::<UrlView, Seq<char>>(m@),
        },
{
    let u = url::Url::parse(s).map_err(|e| e.to_string())?;
    Ok(UrlParts {
        serialization: u.as_str().to_string(),
        scheme: u.scheme().to_string(),
        host: u.host_str().map(|h| h.to_string()),
        domain: u.domain().map(|d| d.to_string()),
        port: u.port(),
        path: u.path().to_string(),
        cannot_be_a_base: u.cannot_be_a_base(),
    })
}

/// Calls `url::Url::parse(base)`, `Url::join(href)`, then `Url::set_fragment(None)`
/// and `Url::set_query(None)`, and reads the resulting URL's parts.
#[verifier::external_body]
pub(crate) fn join_url_clean(base: &str, href: &str) -> (r: Option<UrlParts>)
    ensures
        match r {
            Some(u) => url_join_clean(base@, href@) == Some(u@),
            None => url_join_clean(base@, href@) is None,
        },
{
    let mut u = url::Url::parse(base).ok()?.join(href).ok()?;
    u.set_fragment(None);
    u.set_query(None);
    Some(UrlParts {
        serialization: u.as_str().to_string(),
        scheme: u.scheme().to_string(),
        host: u.host_str().map(|h| h.to_string()),
        domain: u.domain().map(|d| d.to_string()),
        port: u.port(),
        path: u.path().to_string(),
        cannot_be_a_base: u.cannot_be_a_base(),
    })
}

/// Parses a URL; a rejected text is a URL error carrying the parse error's
/// message.
pub fn parse_page_url(s: &str) -> (r: Result<UrlParts, DocsiteError>)
    ensures
        match r {
            Ok(u) => url_parse(s@) == Ok::<UrlView, Seq<char>>(u@),
            Err(e) => url_parse(s@) matches Err(m) && e@ == DocsiteErrorView::Url(m),
        },
{
    match parse_url(s) {
        Ok(u) => Ok(u),
        Err(m) => Err(DocsiteError::Url(m)),
    }
}

// ---------------------------------------------------------------- small text helpers

/// `str::trim_end_matches(c)`.
pub open spec fn trim_end_char(s: Seq<char>, c: char) -> Seq<char>
    decreases s.len(),
{
    if s.len() > 0 && s.last() == c {
        trim_end_char(s.drop_last(), c)
    } else {
        s
    }
}

/// `str::trim_start_matches(c)`.
pub open spec fn trim_start_char(s: Seq<char>, c: char) -> Seq<char>
    decreases s.len(),
{
    if s.len() > 0 && s[0] == c {
        trim_start_char(s.drop_first(), c)
    } else {
        s
    }
}

pub fn trim_end_char_exec(s: &[char], c: char) -> (r: Vec<char>)
    ensures
        r@ == trim_end_char(s@, c),
{
    let mut n: usize = s.len();
    assert(s@.take(s@.len() as int) =~= s@);
    while n > 0 && s[n - 1] == c
        invariant
            0 <= n <= s@.len(),
            trim_end_char(s@, c) == trim_end_char(s@.take(n as int), c),
        decreases n,
    {
        assert(s@.take(n as int).drop_last() =~= s@.take(n - 1));
        n = n - 1;
    }
    let r = slice_to_vec(s, 0, n);
    assert(r@ =~= s@.take(n as int));
    r
}

pub fn trim_start_char_exec(s: &[char], c: char) -> (r: Vec<char>)
    ensures
        r@ == trim_start_char(s@, c),
{
    let mut k: usize = 0;
    assert(s@.skip(0) =~= s@);
    while k < s.len() && s[k] == c
        invariant
            0 <= k <= s@.len(),
            trim_start_char(s@, c) == trim_start_char(s@.skip(k as int), c),
        decreases s@.len() - k,
    {
        assert(s@.skip(k as int).drop_first() =~= s@.skip(k + 1));
        k = k + 1;
    }
    let r = slice_to_vec(s, k, s.len());
    assert(r@ =~= s@.skip(k as int));
    r
}

/// The text is empty once every leading and trailing `/` is removed, that is,
/// it consists of slashes only (`str::trim_matches('/').is_empty()`).
pub open spec fn only_slashes(s: Seq<char>) -> bool {
    forall|k: int| 0 <= k < s.len() ==> s[k] == '/'
}

pub fn only_slashes_exec(s: &[char]) -> (r: bool)
    ensures
        r == only_slashes(s@),
{
    let mut k: usize = 0;
    while k < s.len()
        invariant
            0 <= k <= s@.len(),
            forall|j: int| 0 <= j < k ==> s@[j] == '/',
        decreases s@.len() - k,
    {
        if s[k] != '/' {
            return false;
        }
        k = k + 1;
    }
    true
}

/// Decimal digits of a number (no leading zeros; `"0"` for zero).
pub open spec fn decimal(n: nat) -> Seq<char>
    decreases n,
{
    if n < 10 {
        seq![digit_char(n)]
    } else {
        decimal(n / 10).push(digit_char(n % 10))
    }
}

pub open spec fn digit_char(d: nat) -> char {
    if d == 0 {
        '0'
    } else if d == 1 {
        '1'
    } else if d == 2 {
        '2'
    } else if d == 3 {
        '3'
    } else if d == 4 {
        '4'
    } else if d == 5 {
        '5'
    } else if d == 6 {
        '6'
    } else if d == 7 {
        '7'
    } else if d == 8 {
        '8'
    } else {
        '9'
    }
}

fn digit_char_exec(d: u64) -> (c: char)
    requires
        d < 10,
    ensures
        c == digit_char(d as nat),
{
    if d == 0 {
        '0'
    } else if d == 1 {
        '1'
    } else if d == 2 {
        '2'
    } else if d == 3 {
        '3'
    } else if d == 4 {
        '4'
    } else if d == 5 {
        '5'
    } else if d == 6 {
        '6'
    } else if d == 7 {
        '7'
    } else if d == 8 {
        '8'
    } else {
        '9'
    }
}

pub fn decimal_exec(n: u64) -> (r: Vec<char>)
    ensures
        r@ == decimal(n as nat),
    decreases n,
{
    if n < 10 {
        let mut r = Vec::new();
        r.push(digit_char_exec(n));
        assert(r@ =~= seq![digit_char(n as nat)]);
        r
    } else {
        let mut r = decimal_exec(n / 10);
        r.push(digit_char_exec(n % 10));
        r
    }
}

// ---------------------------------------------------------------- page URLs

/// `scheme://host` + path (+ `:port` when not the default), trailing `/`s removed.
pub open spec fn normalized_page_url(u: UrlView) -> Seq<char> {
    let base = u.scheme + "://"@ + (match u.host {
        Some(h) => h,
        None => seq![],
    }) + u.path;
    let with_port = match u.port {
        Some(p) => base + ":"@ + decimal(p as nat),
        None => base,
    };
    trim_end_char(with_port, '/')
}

pub fn normalize_page_url(u: &UrlParts) -> (r: String)
    ensures
        r@ == normalized_page_url(u@),
{
    let mut s = to_chars(u.scheme.as_str());
    append_str(&mut s, "://");
    match &u.host {
        Some(h) => append_str(&mut s, h.as_str()),
        None => {},
    }
    append_str(&mut s, u.path.as_str());
    match u.port {
        Some(p) => {
            append_str(&mut s, ":");
            let d = decimal_exec(p as u64);
            append_chars(&mut s, d.as_slice());
        },
        None => {},
    }
    let t = trim_end_char_exec(s.as_slice(), '/');
    from_chars(t.as_slice())
}

/// The URL text without trailing `/`s.
pub fn url_without_trailing_slash(u: &UrlParts) -> (r: String)
    ensures
        r@ == trim_end_char(u@.serialization, '/'),
{
    let s = to_chars(u.serialization.as_str());
    let t = trim_end_char_exec(s.as_slice(), '/');
    from_chars(t.as_slice())
}

/// Number of non-empty `/`-separated segments of a path.
pub open spec fn segment_count(p: Seq<char>) -> nat
    decreases p.len(),
{
    if p.len() == 0 {
        0
    } else {
        segment_count(p.drop_last()) + if p.last() != '/' && (p.len() == 1 || p[p.len() - 2]
            == '/') {
            1nat
        } else {
            0nat
        }
    }
}

pub proof fn lemma_segment_count_bound(p: Seq<char>)
    ensures
        segment_count(p) <= p.len(),
    decreases p.len(),
{
    if p.len() > 0 {
        lemma_segment_count_bound(p.drop_last());
    }
}

/// Depth of a page: its count of non-empty path segments (0 when the URL has no
/// hierarchical path).
pub open spec fn page_depth(u: UrlView) -> nat {
    if u.cannot_be_a_base {
        0
    } else {
        segment_count(u.path)
    }
}

pub fn segment_count_exec(p: &[char]) -> (n: usize)
    ensures
        n == segment_count(p@),
{
    let mut n: usize = 0;
    let mut k: usize = 0;
    assert(p@.take(0) =~= Seq::<char>::empty());
    while k < p.len()
        invariant
            0 <= k <= p@.len(),
            n == segment_count(p@.take(k as int)),
            n <= k,
        decreases p@.len() - k,
    {
        assert(p@.take(k + 1).drop_last() =~= p@.take(k as int));
        if p[k] != '/' && (k == 0 || p[k - 1] == '/') {
            n = n + 1;
        }
        k = k + 1;
    }
    assert(p@.take(p@.len() as int) =~= p@);
    n
}

pub fn page_depth_exec(u: &UrlParts) -> (n: usize)
    ensures
        n == page_depth(u@),
{
    if u.cannot_be_a_base {
        0
    } else {
        let p = to_chars(u.path.as_str());
        segment_count_exec(p.as_slice())
    }
}

/// The first non-empty path segment (empty when there is none).
pub open spec fn first_segment(p: Seq<char>) -> Seq<char> {
    let q = trim_start_char(p, '/');
    q.take(first_slash(q))
}

/// Index of the first `/`, or the length.
pub open spec fn first_slash(q: Seq<char>) -> int
    decreases q.len(),
{
    if q.len() == 0 || q[0] == '/' {
        0
    } else {
        1 + first_slash(q.drop_first())
    }
}

pub proof fn lemma_first_slash(q: Seq<char>)
    ensures
        0 <= first_slash(q) <= q.len(),
    decreases q.len(),
{
    if q.len() > 0 && q[0] != '/' {
        lemma_first_slash(q.drop_first());
    }
}

pub fn first_segment_exec(p: &[char]) -> (r: Vec<char>)
    ensures
        r@ == first_segment(p@),
{
    let q = trim_start_char_exec(p, '/');
    let mut k: usize = 0;
    assert(q@.skip(0) =~= q@);
    while k < q.len() && q[k] != '/'
        invariant
            0 <= k <= q@.len(),
            first_slash(q@) == k + first_slash(q@.skip(k as int)),
        decreases q@.len() - k,
    {
        assert(q@.skip(k as int).drop_first() =~= q@.skip(k + 1));
        k = k + 1;
    }
    proof {
        lemma_first_slash(q@);
    }
    let r = slice_to_vec(q.as_slice(), 0, k);
    assert(r@ =~= q@.take(k as int));
    r
}

} // verus!
