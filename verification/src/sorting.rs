//! Stable sorting by a key of (bucket, depth, text), where text compares as
//! Rust compares strings (code point by code point).
use vstd::prelude::*;

verus! {

/// Lexicographic order of character sequences (the order of `str::cmp`:
/// UTF-8 byte order is code point order).
pub open spec fn seq_lt(a: Seq<char>, b: Seq<char>) -> bool
    decreases a.len(),
{
    if a.len() == 0 {
        b.len() > 0
    } else if b.len() == 0 {
        false
    } else if (a[0] as u32) < (b[0] as u32) {
        true
    } else if a[0] == b[0] {
        seq_lt(a.drop_first(), b.drop_first())
    } else {
        false
    }
}

pub type KeyView = (int, int, Seq<char>);

pub open spec fn key_lt(a: KeyView, b: KeyView) -> bool {
    a.0 < b.0 || (a.0 == b.0 && (a.1 < b.1 || (a.1 == b.1 && seq_lt(a.2, b.2))))
}

pub proof fn lemma_seq_lt_irreflexive(a: Seq<char>)
    ensures
        !seq_lt(a, a),
    decreases a.len(),
{
    if a.len() > 0 {
        lemma_seq_lt_irreflexive(a.drop_first());
    }
}

pub proof fn lemma_seq_lt_transitive(a: Seq<char>, b: Seq<char>, c: Seq<char>)
    requires
        seq_lt(a, b),
        seq_lt(b, c),
    ensures
        seq_lt(a, c),
    decreases a.len(),
{
    if a.len() > 0 && b.len() > 0 && c.len() > 0 && a[0] == b[0] && b[0] == c[0] {
        lemma_seq_lt_transitive(a.drop_first(), b.drop_first(), c.drop_first());
    }
}

pub proof fn lemma_seq_lt_total(a: Seq<char>, b: Seq<char>)
    ensures
        seq_lt(a, b) || seq_lt(b, a) || a == b,
    decreases a.len(),
{
    if a.len() == 0 && b.len() == 0 {
        assert(a =~= b);
    } else if a.len() > 0 && b.len() > 0 && a[0] == b[0] {
        lemma_seq_lt_total(a.drop_first(), b.drop_first());
        if a.drop_first() == b.drop_first() {
            assert(a =~= seq![a[0]] + a.drop_first());
            assert(b =~= seq![b[0]] + b.drop_first());
        }
    } else if a.len() > 0 && b.len() > 0 {
        vstd::utf8::char_u32_cast(a[0], a[0] as u32);
        vstd::utf8::char_u32_cast(b[0], b[0] as u32);
    }
}

pub proof fn lemma_key_order()
    ensures
        forall|a: KeyView| !key_lt(a, a),
        forall|a: KeyView, b: KeyView, c: KeyView|
            key_lt(a, b) && key_lt(b, c) ==> key_lt(a, c),
        forall|a: KeyView, b: KeyView| key_lt(a, b) || key_lt(b, a) || a == b,
{
    assert forall|a: KeyView| !key_lt(a, a) by {
        lemma_seq_lt_irreflexive(a.2);
    }
    assert forall|a: KeyView, b: KeyView, c: KeyView|
        key_lt(a, b) && key_lt(b, c) implies key_lt(a, c) by {
        if a.0 == b.0 && b.0 == c.0 && a.1 == b.1 && b.1 == c.1 {
            lemma_seq_lt_transitive(a.2, b.2, c.2);
        }
    }
    assert forall|a: KeyView, b: KeyView| key_lt(a, b) || key_lt(b, a) || a == b by {
        lemma_seq_lt_total(a.2, b.2);
    }
}

/// Where an element with key `k` goes: before the first element whose key is
/// not smaller than `k`.
pub open spec fn insertion_point<T>(list: Seq<(T, KeyView)>, k: KeyView) -> int
    decreases list.len(),
{
    if list.len() == 0 {
        0
    } else if !key_lt(list[0].1, k) {
        0
    } else {
        1 + insertion_point(list.drop_first(), k)
    }
}

pub open spec fn insert_sorted<T>(list: Seq<(T, KeyView)>, x: (T, KeyView)) -> Seq<(T, KeyView)> {
    let j = insertion_point(list, x.1);
    list.take(j) + seq![x] + list.skip(j)
}

/// Stable sort by key: equal keys keep their relative order.
pub open spec fn stable_sort<T>(s: Seq<(T, KeyView)>) -> Seq<(T, KeyView)>
    decreases s.len(),
{
    if s.len() == 0 {
        s
    } else {
        insert_sorted(stable_sort(s.drop_first()), s[0])
    }
}

pub open spec fn sorted_by_key<T>(s: Seq<(T, KeyView)>) -> bool {
    forall|i: int, j: int| 0 <= i < j < s.len() ==> !key_lt(s[j].1, s[i].1)
}

pub proof fn lemma_insertion_point<T>(list: Seq<(T, KeyView)>, k: KeyView)
    ensures
        0 <= insertion_point(list, k) <= list.len(),
        forall|i: int| 0 <= i < insertion_point(list, k) ==> key_lt(#[trigger] list[i].1, k),
        insertion_point(list, k) < list.len() ==> !key_lt(list[insertion_point(list, k)].1, k),
    decreases list.len(),
{
    if list.len() > 0 && key_lt(list[0].1, k) {
        lemma_insertion_point(list.drop_first(), k);
        let j = insertion_point(list, k);
        assert forall|i: int| 0 <= i < j implies key_lt(#[trigger] list[i].1, k) by {
            if i > 0 {
                assert(list[i] == list.drop_first()[i - 1]);
            }
        }
    }
}

pub proof fn lemma_insert_sorted<T>(list: Seq<(T, KeyView)>, x: (T, KeyView))
    requires
        sorted_by_key(list),
    ensures
        sorted_by_key(insert_sorted(list, x)),
        insert_sorted(list, x).to_multiset() == list.to_multiset().insert(x),
        insert_sorted(list, x).len() == list.len() + 1,
{
    lemma_key_order();
    lemma_insertion_point(list, x.1);
    let j = insertion_point(list, x.1);
    let r = insert_sorted(list, x);
    assert forall|a: int, b: int| 0 <= a < b < r.len() implies !key_lt(r[b].1, r[a].1) by {
        if b < j {
            assert(r[a] == list[a] && r[b] == list[b]);
        } else if b == j {
            assert(r[b] == x);
            assert(r[a] == list[a]);
        } else if a == j {
            assert(r[a] == x);
            assert(r[b] == list[b - 1]);
            assert(!key_lt(list[j].1, x.1));
            if b - 1 > j {
                assert(!key_lt(list[b - 1].1, list[j].1));
            }
        } else if a < j {
            assert(r[a] == list[a]);
            assert(r[b] == list[b - 1]);
        } else {
            assert(r[a] == list[a - 1]);
            assert(r[b] == list[b - 1]);
        }
    }
    broadcast use vstd::multiset::group_multiset_axioms;

    assert(list.take(j) + seq![x] =~= list.take(j).push(x));
    vstd::seq_lib::to_multiset_build(list.take(j), x);
    vstd::seq_lib::lemma_multiset_commutative(list.take(j).push(x), list.skip(j));
    vstd::seq_lib::lemma_multiset_commutative(list.take(j), list.skip(j));
    assert(list.take(j) + list.skip(j) =~= list);
    assert(r.to_multiset() =~= list.to_multiset().insert(x));
}

/// The stable sort orders by key and keeps every element.
pub proof fn lemma_stable_sort<T>(s: Seq<(T, KeyView)>)
    ensures
        sorted_by_key(stable_sort(s)),
        stable_sort(s).to_multiset() == s.to_multiset(),
        stable_sort(s).len() == s.len(),
    decreases s.len(),
{
    if s.len() > 0 {
        lemma_stable_sort(s.drop_first());
        lemma_insert_sorted(stable_sort(s.drop_first()), s[0]);
        broadcast use vstd::multiset::group_multiset_axioms;
        broadcast use vstd::seq_lib::group_to_multiset_ensures;

        assert(s.remove(0) =~= s.drop_first());
        assert(s.contains(s[0]));
        assert(s.to_multiset() =~= s.drop_first().to_multiset().insert(s[0]));
    } else {
        assert(sorted_by_key(s));
    }
}

/// An executable sort key.
pub struct SortKey {
    pub bucket: u64,
    pub depth: u64,
    pub text: Vec<char>,
}

pub open spec fn key_view(k: SortKey) -> KeyView {
    (k.bucket as int, k.depth as int, k.text@)
}

pub open spec fn keyed_view<T: View>(s: Seq<(T, SortKey)>) -> Seq<(T::V, KeyView)> {
    Seq::new(s.len(), |i: int| (s[i].0@, key_view(s[i].1)))
}

pub fn seq_lt_exec(a: &[char], b: &[char]) -> (r: bool)
    ensures
        r == seq_lt(a@, b@),
{
    let mut k: usize = 0;
    assert(a@.skip(0) =~= a@);
    assert(b@.skip(0) =~= b@);
    loop
        invariant
            0 <= k <= a@.len(),
            k <= b@.len(),
            seq_lt(a@, b@) == seq_lt(a@.skip(k as int), b@.skip(k as int)),
        decreases a@.len() - k,
    {
        if k == a.len() {
            return k < b.len();
        }
        if k == b.len() {
            return false;
        }
        assert(a@.skip(k as int).drop_first() =~= a@.skip(k + 1));
        assert(b@.skip(k as int).drop_first() =~= b@.skip(k + 1));
        if (a[k] as u32) < (b[k] as u32) {
            return true;
        }
        if a[k] != b[k] {
            return false;
        }
        k = k + 1;
    }
}

pub fn key_lt_exec(a: &SortKey, b: &SortKey) -> (r: bool)
    ensures
        r == key_lt(key_view(*a), key_view(*b)),
{
    if a.bucket != b.bucket {
        return a.bucket < b.bucket;
    }
    if a.depth != b.depth {
        return a.depth < b.depth;
    }
    seq_lt_exec(a.text.as_slice(), b.text.as_slice())
}

/// Sorts by key, keeping equal keys in their original order.
pub fn sort_by_key<T: View>(items: Vec<(T, SortKey)>) -> (r: Vec<(T, SortKey)>)
    ensures
        keyed_view(r@) == stable_sort(keyed_view(items@)),
{
    let mut items = items;
    let ghost orig = keyed_view(items@);
    let mut out: Vec<(T, SortKey)> = Vec::new();
    assert(orig.skip(orig.len() as int) =~= Seq::<(T::V, KeyView)>::empty());
    assert(keyed_view(out@) =~= stable_sort(orig.skip(orig.len() as int)));
    while items.len() > 0
        invariant
            items@.len() <= orig.len(),
            keyed_view(items@) == orig.take(items@.len() as int),
            keyed_view(out@) == stable_sort(orig.skip(items@.len() as int)),
        decreases items@.len(),
    {
        let ghost n = items@.len() as int;
        let x = items.pop().unwrap();
        assert(keyed_view(items@) =~= orig.take(n - 1));
        assert(orig.take(n)[n - 1] == (x.0@, key_view(x.1)));
        let ghost xv = (x.0@, key_view(x.1));
        assert(orig[n - 1] == xv);
        assert(orig.skip(n - 1).drop_first() =~= orig.skip(n));
        assert(orig.skip(n - 1)[0] == xv);
        let mut j: usize = 0;
        assert(keyed_view(out@).skip(0) =~= keyed_view(out@));
        while j < out.len() && key_lt_exec(&out[j].1, &x.1)
            invariant
                0 <= j <= out@.len(),
                insertion_point(keyed_view(out@), xv.1) == j + insertion_point(
                    keyed_view(out@).skip(j as int),
                    xv.1,
                ),
                xv.1 == key_view(x.1),
            decreases out@.len() - j,
        {
            assert(keyed_view(out@).skip(j as int).drop_first() =~= keyed_view(out@).skip(j + 1));
            j = j + 1;
        }
        let ghost before = keyed_view(out@);
        assert(insertion_point(before, xv.1) == j) by {
            assert(before.skip(j as int).len() == 0 || !key_lt(before.skip(j as int)[0].1, xv.1));
        }
        out.insert(j, x);
        assert(keyed_view(out@) =~= insert_sorted(before, xv));
    }
    assert(orig.skip(0) =~= orig);
    out
}

} // verus!
