//! Character-level text utilities: whitespace, trimming, searching, lines,
//! joining and replacing, all over sequences of `char`.
use vstd::prelude::*;

verus! {

/// Unicode `White_Space` code points (the property that `char::is_whitespace` tests).
pub open spec fn is_ws(c: char) -> bool {
    let u = c as u32;
    ||| 0x09 <= u <= 0x0D
    ||| u == 0x20
    ||| u == 0x85
    ||| u == 0xA0
    ||| u == 0x1680
    ||| 0x2000 <= u <= 0x200A
    ||| u == 0x2028
    ||| u == 0x2029
    ||| u == 0x202F
    ||| u == 0x205F
    ||| u == 0x3000
}

pub fn is_whitespace(c: char) -> (r: bool)
    ensures
        r == is_ws(c),
{
    let u = c as u32;
    (0x09 <= u && u <= 0x0D) || u == 0x20 || u == 0x85 || u == 0xA0 || u == 0x1680 || (0x2000
        <= u && u <= 0x200A) || u == 0x2028 || u == 0x2029 || u == 0x202F || u == 0x205F || u
        == 0x3000
}

/// Number of whitespace characters starting at index `i`.
pub open spec fn ws_run_from(s: Seq<char>, i: int) -> nat
    decreases s.len() - i,
{
    if 0 <= i < s.len() && is_ws(s[i]) {
        1 + ws_run_from(s, i + 1)
    } else {
        0
    }
}

/// Number of whitespace characters ending just before index `j`.
pub open spec fn ws_run_before(s: Seq<char>, j: int) -> nat
    decreases j,
{
    if 0 < j <= s.len() && is_ws(s[j - 1]) {
        1 + ws_run_before(s, j - 1)
    } else {
        0
    }
}

pub open spec fn trim_start(s: Seq<char>) -> Seq<char> {
    s.skip(ws_run_from(s, 0) as int)
}

pub open spec fn trim_end(s: Seq<char>) -> Seq<char> {
    s.take(s.len() - ws_run_before(s, s.len() as int))
}

/// `str::trim`: both leading and trailing whitespace removed.
pub open spec fn trim(s: Seq<char>) -> Seq<char> {
    trim_end(trim_start(s))
}

pub proof fn lemma_ws_run_from_bound(s: Seq<char>, i: int)
    requires
        0 <= i <= s.len(),
    ensures
        i + ws_run_from(s, i) <= s.len(),
        forall|k: int| i <= k < i + ws_run_from(s, i) ==> is_ws(#[trigger] s[k]),
        i + ws_run_from(s, i) < s.len() ==> !is_ws(s[i + ws_run_from(s, i)]),
    decreases s.len() - i,
{
    if i < s.len() && is_ws(s[i]) {
        lemma_ws_run_from_bound(s, i + 1);
    }
}

pub proof fn lemma_ws_run_before_bound(s: Seq<char>, j: int)
    requires
        0 <= j <= s.len(),
    ensures
        ws_run_before(s, j) <= j,
        forall|k: int| j - ws_run_before(s, j) <= k < j ==> is_ws(#[trigger] s[k]),
        j - ws_run_before(s, j) > 0 ==> !is_ws(s[j - ws_run_before(s, j) - 1]),
    decreases j,
{
    if 0 < j && is_ws(s[j - 1]) {
        lemma_ws_run_before_bound(s, j - 1);
    }
}

/// Trimmed text starts and ends with a non-whitespace character (or is empty).
pub proof fn lemma_trim_shape(s: Seq<char>)
    ensures
        trim(s).len() > 0 ==> !is_ws(trim(s)[0]) && !is_ws(trim(s).last()),
        trim(s).len() <= s.len(),
{
    lemma_ws_run_from_bound(s, 0);
    let t = trim_start(s);
    lemma_ws_run_before_bound(t, t.len() as int);
    let r = trim(s);
    if r.len() > 0 {
        assert(r[0] == t[0]);
        assert(r.last() == t[r.len() - 1]);
    }
}

/// Index of the first whitespace-free position.
fn leading_ws(s: &[char]) -> (i: usize)
    ensures
        i == ws_run_from(s@, 0),
        i <= s@.len(),
{
    let mut i: usize = 0;
    while i < s.len() && is_whitespace(s[i])
        invariant
            0 <= i <= s@.len(),
            ws_run_from(s@, 0) == i + ws_run_from(s@, i as int),
        decreases s@.len() - i,
    {
        i = i + 1;
    }
    i
}

fn trailing_ws(s: &[char]) -> (n: usize)
    ensures
        n == ws_run_before(s@, s@.len() as int),
        n <= s@.len(),
{
    let mut j: usize = s.len();
    while j > 0 && is_whitespace(s[j - 1])
        invariant
            0 <= j <= s@.len(),
            ws_run_before(s@, s@.len() as int) == (s@.len() - j) + ws_run_before(s@, j as int),
        decreases j,
    {
        j = j - 1;
    }
    s.len() - j
}

/// Copies `s[from..to]`.
pub fn slice_to_vec(s: &[char], from: usize, to: usize) -> (r: Vec<char>)
    requires
        from <= to <= s@.len(),
    ensures
        r@ == s@.subrange(from as int, to as int),
{
    let mut r: Vec<char> = Vec::new();
    let mut k = from;
    while k < to
        invariant
            from <= k <= to <= s@.len(),
            r@ == s@.subrange(from as int, k as int),
        decreases to - k,
    {
        r.push(s[k]);
        k = k + 1;
        assert(r@ =~= s@.subrange(from as int, k as int));
    }
    r
}

pub fn trim_chars(s: &[char]) -> (r: Vec<char>)
    ensures
        r@ == trim(s@),
{
    let a = leading_ws(s);
    let t = slice_to_vec(s, a, s.len());
    assert(t@ =~= trim_start(s@));
    let b = trailing_ws(t.as_slice());
    let r = slice_to_vec(t.as_slice(), 0, t.len() - b);
    assert(r@ =~= trim(s@));
    r
}

pub fn trim_end_chars(s: &[char]) -> (r: Vec<char>)
    ensures
        r@ == trim_end(s@),
{
    let b = trailing_ws(s);
    let r = slice_to_vec(s, 0, s.len() - b);
    assert(r@ =~= trim_end(s@));
    r
}

pub fn trim_start_chars(s: &[char]) -> (r: Vec<char>)
    ensures
        r@ == trim_start(s@),
{
    let a = leading_ws(s);
    let r = slice_to_vec(s, a, s.len());
    assert(r@ =~= trim_start(s@));
    r
}

/// `needle` occurs in `s` at index `i`.
pub open spec fn occurs_at(s: Seq<char>, needle: Seq<char>, i: int) -> bool {
    &&& 0 <= i
    &&& i + needle.len() <= s.len()
    &&& forall|k: int| 0 <= k < needle.len() ==> #[trigger] s[i + k] == needle[k]
}

pub open spec fn contains(s: Seq<char>, needle: Seq<char>) -> bool {
    exists|i: int| occurs_at(s, needle, i)
}

pub open spec fn starts_with(s: Seq<char>, prefix: Seq<char>) -> bool {
    occurs_at(s, prefix, 0)
}

pub open spec fn ends_with(s: Seq<char>, suffix: Seq<char>) -> bool {
    occurs_at(s, suffix, s.len() - suffix.len())
}

pub fn occurs_at_exec(s: &[char], needle: &[char], i: usize) -> (r: bool)
    ensures
        r == occurs_at(s@, needle@, i as int),
{
    if needle.len() > s.len() || i > s.len() - needle.len() {
        return false;
    }
    let mut k: usize = 0;
    while k < needle.len()
        invariant
            i + needle@.len() <= s@.len(),
            0 <= k <= needle@.len(),
            forall|j: int| 0 <= j < k ==> #[trigger] s@[i + j] == needle@[j],
        decreases needle@.len() - k,
    {
        assert(i + k < s.len());
        let idx: usize = i + k;
        if s[idx] != needle[k] {
            return false;
        }
        k = k + 1;
    }
    true
}

/// First index at or after `from` where `needle` occurs.
pub open spec fn first_occurrence_from(s: Seq<char>, needle: Seq<char>, from: int) -> Option<int>
    decreases s.len() - from,
{
    if from < 0 || from + needle.len() > s.len() {
        None
    } else if occurs_at(s, needle, from) {
        Some(from)
    } else {
        first_occurrence_from(s, needle, from + 1)
    }
}

pub proof fn lemma_first_occurrence(s: Seq<char>, needle: Seq<char>, from: int)
    requires
        0 <= from,
    ensures
        first_occurrence_from(s, needle, from) matches Some(i) ==> {
            &&& from <= i
            &&& occurs_at(s, needle, i)
            &&& forall|j: int| from <= j < i ==> !occurs_at(s, needle, j)
        },
        first_occurrence_from(s, needle, from) is None ==> forall|j: int|
            from <= j ==> !occurs_at(s, needle, j),
    decreases s.len() - from,
{
    if from + needle.len() <= s.len() && !occurs_at(s, needle, from) {
        lemma_first_occurrence(s, needle, from + 1);
    }
}

pub fn find_from(s: &[char], needle: &[char], from: usize) -> (r: Option<usize>)
    ensures
        r matches Some(i) ==> first_occurrence_from(s@, needle@, from as int) == Some(i as int),
        r is None ==> first_occurrence_from(s@, needle@, from as int) is None,
{
    if needle.len() > s.len() {
        return None;
    }
    let last = s.len() - needle.len();
    let mut i = from;
    while i <= last
        invariant
            from <= i,
            last == s@.len() - needle@.len(),
            first_occurrence_from(s@, needle@, from as int) == first_occurrence_from(
                s@,
                needle@,
                i as int,
            ),
        decreases last + 1 - i,
    {
        if occurs_at_exec(s, needle, i) {
            return Some(i);
        }
        if i == last {
            assert(first_occurrence_from(s@, needle@, i as int + 1) is None);
            return None;
        }
        i = i + 1;
    }
    None
}

pub fn contains_chars(s: &[char], needle: &[char]) -> (r: bool)
    ensures
        r == contains(s@, needle@),
{
    let f = find_from(s, needle, 0);
    proof {
        lemma_first_occurrence(s@, needle@, 0);
    }
    f.is_some()
}

pub fn starts_with_chars(s: &[char], prefix: &[char]) -> (r: bool)
    ensures
        r == starts_with(s@, prefix@),
{
    occurs_at_exec(s, prefix, 0)
}

pub fn ends_with_chars(s: &[char], suffix: &[char]) -> (r: bool)
    ensures
        r == ends_with(s@, suffix@),
{
    if suffix.len() > s.len() {
        return false;
    }
    occurs_at_exec(s, suffix, s.len() - suffix.len())
}

/// `str::contains` over a `str` haystack and a `str` needle.
pub fn str_contains(s: &str, needle: &str) -> (r: bool)
    ensures
        r == contains(s@, needle@),
{
    let a = to_chars(s);
    let b = to_chars(needle);
    contains_chars(a.as_slice(), b.as_slice())
}

/// `str::ends_with` over `str` values.
pub fn str_ends_with(s: &str, suffix: &str) -> (r: bool)
    ensures
        r == ends_with(s@, suffix@),
{
    let a = to_chars(s);
    let b = to_chars(suffix);
    ends_with_chars(a.as_slice(), b.as_slice())
}

/// `str::starts_with` over `str` values.
pub fn str_starts_with(s: &str, prefix: &str) -> (r: bool)
    ensures
        r == starts_with(s@, prefix@),
{
    let a = to_chars(s);
    let b = to_chars(prefix);
    starts_with_chars(a.as_slice(), b.as_slice())
}

/// The characters of a string.
pub fn to_chars(s: &str) -> (r: Vec<char>)
    ensures
        r@ == s@,
{
    let mut r: Vec<char> = Vec::new();
    for c in it: s.chars()
        invariant
            r@ == it.seq().take(it.index() as int),
            it.seq() == s@,
    {
        r.push(c);
    }
    r
}

#[verifier::external_body]
/// `String::push`: appends one character.
fn push_char(s: &mut String, c: char)
    ensures
        final(s)@ == old(s)@.push(c),
{
    s.push(c);
}

/// A `String` holding the given characters.
pub fn from_chars(v: &[char]) -> (r: String)
    ensures
        r@ == v@,
{
    let mut r = String::new();
    let mut k: usize = 0;
    while k < v.len()
        invariant
            0 <= k <= v@.len(),
            r@ == v@.take(k as int),
        decreases v@.len() - k,
    {
        push_char(&mut r, v[k]);
        k = k + 1;
        assert(r@ =~= v@.take(k as int));
    }
    assert(v@.take(v@.len() as int) =~= v@);
    r
}

pub fn append_chars(dst: &mut Vec<char>, src: &[char])
    ensures
        final(dst)@ == old(dst)@ + src@,
{
    let ghost start = dst@;
    let mut k: usize = 0;
    while k < src.len()
        invariant
            0 <= k <= src@.len(),
            dst@ == start + src@.take(k as int),
        decreases src@.len() - k,
    {
        dst.push(src[k]);
        k = k + 1;
        assert(dst@ =~= start + src@.take(k as int));
    }
    assert(src@.take(src@.len() as int) =~= src@);
}

pub fn append_str(dst: &mut Vec<char>, src: &str)
    ensures
        final(dst)@ == old(dst)@ + src@,
{
    let v = to_chars(src);
    append_chars(dst, v.as_slice());
}

/// The character sequences held by a sequence of character vectors.
pub open spec fn views(v: Seq<Vec<char>>) -> Seq<Seq<char>> {
    Seq::new(v.len(), |i: int| v[i]@)
}

pub proof fn lemma_views_push(v: Seq<Vec<char>>, x: Vec<char>)
    ensures
        views(v.push(x)) == views(v).push(x@),
{
    assert(views(v.push(x)) =~= views(v).push(x@));
}

/// Index of the first `'\n'` at or after `i`, or `s.len()`.
pub open spec fn next_newline(s: Seq<char>, i: int) -> int
    decreases s.len() - i,
{
    if i < 0 || i >= s.len() {
        s.len() as int
    } else if s[i] == '\n' {
        i
    } else {
        next_newline(s, i + 1)
    }
}

pub proof fn lemma_next_newline(s: Seq<char>, i: int)
    requires
        0 <= i <= s.len(),
    ensures
        i <= next_newline(s, i) <= s.len(),
        next_newline(s, i) < s.len() ==> s[next_newline(s, i)] == '\n',
        forall|k: int| i <= k < next_newline(s, i) ==> s[k] != '\n',
    decreases s.len() - i,
{
    if i < s.len() && s[i] != '\n' {
        lemma_next_newline(s, i + 1);
    }
}

pub open spec fn strip_cr(x: Seq<char>) -> Seq<char> {
    if x.len() > 0 && x.last() == '\r' {
        x.drop_last()
    } else {
        x
    }
}

/// The lines of `s[i..]` as `str::lines` yields them.
pub open spec fn lines_from(s: Seq<char>, i: int) -> Seq<Seq<char>>
    decreases s.len() - i,
{
    if i < 0 || i >= s.len() {
        seq![]
    } else {
        let j = next_newline(s, i);
        if j >= s.len() {
            seq![s.subrange(i, s.len() as int)]
        } else {
            proof {
                lemma_next_newline(s, i);
            }
            seq![strip_cr(s.subrange(i, j))] + lines_from(s, j + 1)
        }
    }
}

/// `str::lines`: split at `'\n'` (dropping a `'\r'` before it); no empty final line.
pub open spec fn lines(s: Seq<char>) -> Seq<Seq<char>> {
    lines_from(s, 0)
}

fn next_newline_exec(s: &[char], i: usize) -> (j: usize)
    requires
        i <= s@.len(),
    ensures
        j == next_newline(s@, i as int),
{
    let mut j = i;
    while j < s.len() && s[j] != '\n'
        invariant
            i <= j <= s@.len(),
            next_newline(s@, i as int) == next_newline(s@, j as int),
        decreases s@.len() - j,
    {
        j = j + 1;
    }
    j
}

fn strip_cr_exec(x: Vec<char>) -> (r: Vec<char>)
    ensures
        r@ == strip_cr(x@),
{
    let mut x = x;
    if x.len() > 0 && x[x.len() - 1] == '\r' {
        x.pop();
    }
    x
}

pub fn split_lines(s: &[char]) -> (r: Vec<Vec<char>>)
    ensures
        views(r@) == lines(s@),
{
    let mut r: Vec<Vec<char>> = Vec::new();
    let mut i: usize = 0;
    while i < s.len()
        invariant
            0 <= i <= s@.len(),
            lines(s@) == views(r@) + lines_from(s@, i as int),
        decreases s@.len() - i,
    {
        let j = next_newline_exec(s, i);
        proof {
            lemma_next_newline(s@, i as int);
        }
        let piece = slice_to_vec(s, i, j);
        if j >= s.len() {
            proof {
                lemma_views_push(r@, piece);
            }
            let ghost before = views(r@);
            r.push(piece);
            assert(views(r@) =~= before + seq![s@.subrange(i as int, s@.len() as int)]);
            assert(lines_from(s@, s@.len() as int) =~= seq![]);
            assert(lines(s@) =~= views(r@) + lines_from(s@, s@.len() as int));
            i = s.len();
        } else {
            let line = strip_cr_exec(piece);
            proof {
                lemma_views_push(r@, line);
            }
            let ghost before = views(r@);
            r.push(line);
            assert(views(r@) =~= before + seq![strip_cr(s@.subrange(i as int, j as int))]);
            assert(lines(s@) =~= views(r@) + lines_from(s@, j + 1));
            i = j + 1;
        }
    }
    assert(lines_from(s@, i as int) =~= seq![]);
    assert(lines(s@) =~= views(r@));
    r
}

/// Parts joined with `sep` between neighbours (`[T]::join`).
pub open spec fn join(parts: Seq<Seq<char>>, sep: Seq<char>) -> Seq<char>
    decreases parts.len(),
{
    if parts.len() == 0 {
        seq![]
    } else if parts.len() == 1 {
        parts[0]
    } else {
        join(parts.drop_last(), sep) + sep + parts.last()
    }
}

pub fn join_chars(parts: &Vec<Vec<char>>, sep: &[char]) -> (r: Vec<char>)
    ensures
        r@ == join(views(parts@), sep@),
{
    let mut r: Vec<char> = Vec::new();
    let mut i: usize = 0;
    let ghost dv = views(parts@);
    while i < parts.len()
        invariant
            0 <= i <= parts@.len(),
            dv == views(parts@),
            dv.len() == parts@.len(),
            r@ == join(dv.take(i as int), sep@),
        decreases parts@.len() - i,
    {
        assert(dv[i as int] == parts@[i as int]@);
        if i > 0 {
            append_chars(&mut r, sep);
        }
        append_chars(&mut r, parts[i].as_slice());
        assert(dv.take(i + 1).drop_last() =~= dv.take(i as int));
        if i == 0 {
            assert(r@ =~= join(dv.take(1), sep@));
        }
        i = i + 1;
    }
    assert(dv.take(parts@.len() as int) =~= dv);
    r
}

/// `str::replace` with a non-empty pattern, from index `i` on.
pub open spec fn replace_from(s: Seq<char>, pat: Seq<char>, to: Seq<char>, i: int) -> Seq<char>
    decreases s.len() - i,
{
    if pat.len() == 0 || i < 0 || i > s.len() {
        seq![]
    } else {
        match first_occurrence_from(s, pat, i) {
            Some(j) => {
                proof {
                    lemma_first_occurrence(s, pat, i);
                }
                s.subrange(i, j) + to + replace_from(s, pat, to, j + pat.len())
            },
            None => s.subrange(i, s.len() as int),
        }
    }
}

pub open spec fn replace(s: Seq<char>, pat: Seq<char>, to: Seq<char>) -> Seq<char> {
    replace_from(s, pat, to, 0)
}

pub fn replace_chars(s: &[char], pat: &[char], to: &[char]) -> (r: Vec<char>)
    requires
        pat@.len() > 0,
    ensures
        r@ == replace(s@, pat@, to@),
{
    let mut r: Vec<char> = Vec::new();
    let mut i: usize = 0;
    loop
        invariant
            0 <= i <= s@.len(),
            pat@.len() > 0,
            replace(s@, pat@, to@) == r@ + replace_from(s@, pat@, to@, i as int),
        decreases s@.len() - i,
    {
        let f = find_from(s, pat, i);
        proof {
            lemma_first_occurrence(s@, pat@, i as int);
        }
        match f {
            Some(j) => {
                let piece = slice_to_vec(s, i, j);
                append_chars(&mut r, piece.as_slice());
                append_chars(&mut r, to);
                assert(j + pat.len() <= s.len());
                i = j + pat.len();
            },
            None => {
                let piece = slice_to_vec(s, i, s.len());
                append_chars(&mut r, piece.as_slice());
                return r;
            },
        }
    }
}

pub fn replace_str(s: &[char], pat: &str, to: &str) -> (r: Vec<char>)
    requires
        pat@.len() > 0,
    ensures
        r@ == replace(s@, pat@, to@),
{
    let p = to_chars(pat);
    let t = to_chars(to);
    replace_chars(s, p.as_slice(), t.as_slice())
}

/// End of the non-whitespace run starting at `a`.
pub open spec fn word_end(s: Seq<char>, a: int) -> int
    decreases s.len() - a,
{
    if a < 0 || a >= s.len() || is_ws(s[a]) {
        a
    } else {
        word_end(s, a + 1)
    }
}

pub proof fn lemma_word_end(s: Seq<char>, a: int)
    requires
        0 <= a <= s.len(),
    ensures
        a <= word_end(s, a) <= s.len(),
        forall|k: int| a <= k < word_end(s, a) ==> !is_ws(#[trigger] s[k]),
        word_end(s, a) < s.len() ==> is_ws(s[word_end(s, a)]),
    decreases s.len() - a,
{
    if a < s.len() && !is_ws(s[a]) {
        lemma_word_end(s, a + 1);
    }
}

/// Maximal whitespace-free runs of `s[i..]` (`str::split_whitespace`).
pub open spec fn words_from(s: Seq<char>, i: int) -> Seq<Seq<char>>
    decreases s.len() - i,
{
    if i < 0 || i >= s.len() {
        seq![]
    } else {
        let a = i + ws_run_from(s, i);
        if a >= s.len() {
            seq![]
        } else {
            proof {
                lemma_ws_run_from_bound(s, i);
                lemma_word_end(s, a);
            }
            seq![s.subrange(a, word_end(s, a))] + words_from(s, word_end(s, a))
        }
    }
}

pub open spec fn words(s: Seq<char>) -> Seq<Seq<char>> {
    words_from(s, 0)
}

pub fn split_whitespace(s: &[char]) -> (r: Vec<Vec<char>>)
    ensures
        views(r@) == words(s@),
{
    let mut r: Vec<Vec<char>> = Vec::new();
    let mut i: usize = 0;
    while i < s.len()
        invariant
            0 <= i <= s@.len(),
            words(s@) == views(r@) + words_from(s@, i as int),
        decreases s@.len() - i,
    {
        let mut a = i;
        while a < s.len() && is_whitespace(s[a])
            invariant
                i <= a <= s@.len(),
                ws_run_from(s@, i as int) == (a - i) + ws_run_from(s@, a as int),
            decreases s@.len() - a,
        {
            a = a + 1;
        }
        proof {
            lemma_ws_run_from_bound(s@, i as int);
            lemma_ws_run_from_bound(s@, a as int);
        }
        if a >= s.len() {
            assert(words_from(s@, i as int) =~= seq![]);
            assert(words_from(s@, s@.len() as int) =~= seq![]);
            i = s.len();
        } else {
            let mut b = a;
            while b < s.len() && !is_whitespace(s[b])
                invariant
                    a <= b <= s@.len(),
                    word_end(s@, a as int) == word_end(s@, b as int),
                decreases s@.len() - b,
            {
                b = b + 1;
            }
            proof {
                lemma_word_end(s@, a as int);
            }
            let w = slice_to_vec(s, a, b);
            proof {
                lemma_views_push(r@, w);
            }
            let ghost before = views(r@);
            r.push(w);
            assert(views(r@) =~= before + seq![s@.subrange(a as int, b as int)]);
            assert(words(s@) =~= views(r@) + words_from(s@, b as int));
            i = b;
        }
    }
    assert(words_from(s@, i as int) =~= seq![]);
    assert(words(s@) =~= views(r@));
    r
}

pub fn eq_chars(a: &[char], b: &[char]) -> (r: bool)
    ensures
        r == (a@ == b@),
{
    if a.len() != b.len() {
        return false;
    }
    let mut k: usize = 0;
    while k < a.len()
        invariant
            a@.len() == b@.len(),
            0 <= k <= a@.len(),
            forall|j: int| 0 <= j < k ==> a@[j] == b@[j],
        decreases a@.len() - k,
    {
        if a[k] != b[k] {
            return false;
        }
        k = k + 1;
    }
    assert(a@ =~= b@);
    true
}

pub fn eq_str(a: &[char], b: &str) -> (r: bool)
    ensures
        r == (a@ == b@),
{
    let v = to_chars(b);
    eq_chars(a, v.as_slice())
}

pub fn contains_str(s: &[char], needle: &str) -> (r: bool)
    ensures
        r == contains(s@, needle@),
{
    let v = to_chars(needle);
    contains_chars(s, v.as_slice())
}

pub fn starts_with_str(s: &[char], prefix: &str) -> (r: bool)
    ensures
        r == starts_with(s@, prefix@),
{
    let v = to_chars(prefix);
    starts_with_chars(s, v.as_slice())
}

pub fn ends_with_str(s: &[char], suffix: &str) -> (r: bool)
    ensures
        r == ends_with(s@, suffix@),
{
    let v = to_chars(suffix);
    ends_with_chars(s, v.as_slice())
}

/// One step of a left-to-right filter over a prefix.
pub proof fn lemma_filter_take_step(s: Seq<Seq<char>>, p: spec_fn(Seq<char>) -> bool, i: int)
    requires
        0 <= i < s.len(),
    ensures
        s.take(i + 1).filter(p) == (if p(s[i]) {
            s.take(i).filter(p).push(s[i])
        } else {
            s.take(i).filter(p)
        }),
{
    reveal_with_fuel(Seq::filter, 1);
    assert(s.take(i + 1).drop_last() =~= s.take(i));
}

/// What `str::to_uppercase` returns (Unicode upper-case mapping).
pub uninterp spec fn spec_to_uppercase(s: Seq<char>) -> Seq<char>;

/// What `str::to_lowercase` returns (Unicode lower-case mapping).
pub uninterp spec fn spec_to_lowercase(s: Seq<char>) -> Seq<char>;

/// Calls `str::to_uppercase`; the contract names its result.
#[verifier::external_body]
pub(crate) fn to_uppercase(s: &str) -> (r: String)
    ensures
        r@ == spec_to_uppercase(s@),
{
    s.to_uppercase()
}

/// Calls `str::to_lowercase`; the contract names its result.
#[verifier::external_body]
pub(crate) fn to_lowercase(s: &str) -> (r: String)
    ensures
        r@ == spec_to_lowercase(s@),
{
    s.to_lowercase()
}

} // verus!
