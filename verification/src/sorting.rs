//! Stable ordering of records by a key, and sorted lists of distinct texts.
//!
//! A stable sort by a key places each record after every earlier record that does not
//! sort after it; `stable_sorted` states that outcome as the insertion of each record,
//! in input order, before the first already placed record that it sorts before.

use crate::text::{
    lemma_text_lt_irreflexive, lemma_text_lt_total, lemma_text_lt_transitive, str_eq, str_lt,
    text_lt,
};
use vstd::prelude::*;

verus! {

/// A record with a strict "sorts before" relation on the view of its key.
pub trait SortKey: Sized + View {
    spec fn key_before(a: Self::V, b: Self::V) -> bool;

    /// No key sorts before itself.
    proof fn lemma_key_before_irreflexive(a: Self::V)
        ensures
            !Self::key_before(a, a),
    ;

    /// Sorting before is transitive.
    proof fn lemma_key_before_transitive(a: Self::V, b: Self::V, c: Self::V)
        requires
            Self::key_before(a, b),
            Self::key_before(b, c),
        ensures
            Self::key_before(a, c),
    ;

    fn precedes(&self, other: &Self) -> (b: bool)
        ensures
            b == Self::key_before(self@, other@),
    ;
}

pub open spec fn record_views<T: SortKey>(s: Seq<T>) -> Seq<T::V> {
    s.map_values(|x: T| x@)
}

/// The index of the first element of `s` that `x` sorts before, or `s.len()`.
pub open spec fn first_after<T: SortKey>(s: Seq<T::V>, x: T::V) -> int
    decreases s.len(),
{
    if s.len() == 0 {
        0
    } else if T::key_before(x, s[0]) {
        0
    } else {
        1 + first_after::<T>(s.drop_first(), x)
    }
}

/// `x` placed after every element of `s` that it does not sort before.
pub open spec fn insert_stable<T: SortKey>(s: Seq<T::V>, x: T::V) -> Seq<T::V> {
    s.insert(first_after::<T>(s, x), x)
}

/// The records of `s` in stable order of their keys.
pub open spec fn stable_sorted<T: SortKey>(s: Seq<T::V>) -> Seq<T::V>
    decreases s.len(),
{
    if s.len() == 0 {
        s
    } else {
        insert_stable::<T>(stable_sorted::<T>(s.drop_last()), s.last())
    }
}

pub proof fn lemma_first_after_bounds<T: SortKey>(s: Seq<T::V>, x: T::V)
    ensures
        0 <= first_after::<T>(s, x) <= s.len(),
    decreases s.len(),
{
    if s.len() > 0 {
        lemma_first_after_bounds::<T>(s.drop_first(), x);
    }
}

proof fn lemma_first_after_at<T: SortKey>(s: Seq<T::V>, x: T::V, p: int)
    requires
        0 <= p <= s.len(),
        forall|j: int| 0 <= j < p ==> !T::key_before(x, #[trigger] s[j]),
        p < s.len() ==> T::key_before(x, s[p]),
    ensures
        first_after::<T>(s, x) == p,
    decreases p,
{
    if p > 0 {
        assert(!T::key_before(x, s[0]));
        assert forall|j: int| 0 <= j < p - 1 implies !T::key_before(
            x,
            #[trigger] s.drop_first()[j],
        ) by {
            assert(s.drop_first()[j] == s[j + 1]);
        }
        if p < s.len() {
            assert(s.drop_first()[p - 1] == s[p]);
        }
        lemma_first_after_at::<T>(s.drop_first(), x, p - 1);
    }
}

pub proof fn lemma_stable_sorted_len<T: SortKey>(s: Seq<T::V>)
    ensures
        stable_sorted::<T>(s).len() == s.len(),
    decreases s.len(),
{
    if s.len() > 0 {
        lemma_stable_sorted_len::<T>(s.drop_last());
        lemma_first_after_bounds::<T>(stable_sorted::<T>(s.drop_last()), s.last());
    }
}

/// A stable sort keeps every record, each as often: it only reorders them.
pub proof fn lemma_stable_sorted_is_a_permutation<T: SortKey>(s: Seq<T::V>)
    ensures
        stable_sorted::<T>(s).to_multiset() == s.to_multiset(),
    decreases s.len(),
{
    broadcast use vstd::seq_lib::group_to_multiset_ensures;

    if s.len() > 0 {
        let prev = stable_sorted::<T>(s.drop_last());
        lemma_stable_sorted_is_a_permutation::<T>(s.drop_last());
        lemma_first_after_bounds::<T>(prev, s.last());
        vstd::seq_lib::to_multiset_insert(prev, first_after::<T>(prev, s.last()), s.last());
        vstd::seq_lib::to_multiset_build(s.drop_last(), s.last());
        assert(s.drop_last().push(s.last()) =~= s);
    }
}

proof fn lemma_first_after_props<T: SortKey>(s: Seq<T::V>, x: T::V)
    ensures
        forall|q: int| 0 <= q < first_after::<T>(s, x) ==> !T::key_before(x, #[trigger] s[q]),
        first_after::<T>(s, x) < s.len() ==> T::key_before(x, s[first_after::<T>(s, x)]),
    decreases s.len(),
{
    lemma_first_after_bounds::<T>(s, x);
    if s.len() > 0 && !T::key_before(x, s[0]) {
        let t = s.drop_first();
        lemma_first_after_props::<T>(t, x);
        lemma_first_after_bounds::<T>(t, x);
        assert forall|q: int| 0 <= q < first_after::<T>(s, x) implies !T::key_before(x, #[trigger] s[q]) by {
            if q > 0 {
                assert(s[q] == t[q - 1]);
            }
        }
        if first_after::<T>(s, x) < s.len() {
            assert(s[first_after::<T>(s, x)] == t[first_after::<T>(t, x)]);
        }
    }
}

/// A stable sort leaves no record after a record that it sorts before: the records
/// come out in order of their keys.
pub proof fn lemma_stable_sorted_is_sorted<T: SortKey>(s: Seq<T::V>)
    ensures
        forall|i: int, j: int|
            0 <= i < j < stable_sorted::<T>(s).len() ==> !T::key_before(
                #[trigger] stable_sorted::<T>(s)[j],
                #[trigger] stable_sorted::<T>(s)[i],
            ),
    decreases s.len(),
{
    if s.len() > 0 {
        let prev = stable_sorted::<T>(s.drop_last());
        let x = s.last();
        lemma_stable_sorted_is_sorted::<T>(s.drop_last());
        lemma_first_after_bounds::<T>(prev, x);
        lemma_first_after_props::<T>(prev, x);
        let p = first_after::<T>(prev, x);
        let r = prev.insert(p, x);
        assert(stable_sorted::<T>(s) == r);
        assert forall|i: int, j: int| 0 <= i < j < r.len() implies !T::key_before(
            #[trigger] r[j],
            #[trigger] r[i],
        ) by {
            if j < p {
                assert(r[i] == prev[i] && r[j] == prev[j]);
            } else if j == p {
                assert(r[i] == prev[i] && r[j] == x);
            } else if i < p {
                assert(r[i] == prev[i] && r[j] == prev[j - 1]);
            } else if i == p {
                assert(r[i] == x && r[j] == prev[j - 1]);
                if T::key_before(prev[j - 1], x) {
                    T::lemma_key_before_transitive(prev[j - 1], x, prev[p]);
                    if j - 1 == p {
                        T::lemma_key_before_irreflexive(prev[p]);
                    }
                }
            } else {
                assert(r[i] == prev[i - 1] && r[j] == prev[j - 1]);
            }
        }
    }
}

/// The text order as a key order: irreflexive.
pub proof fn lemma_text_key_irreflexive(a: Seq<char>)
    ensures
        !text_lt(a, a),
{
    lemma_text_lt_irreflexive(a);
}

/// The order of pairs of texts, by the first then the second: irreflexive and transitive.
pub proof fn lemma_text_pair_order(a: (Seq<char>, Seq<char>), b: (Seq<char>, Seq<char>), c: (Seq<char>, Seq<char>))
    ensures
        !(text_lt(a.0, a.0) || (a.0 == a.0 && text_lt(a.1, a.1))),
        (text_lt(a.0, b.0) || (a.0 == b.0 && text_lt(a.1, b.1))) && (text_lt(b.0, c.0) || (b.0 == c.0
            && text_lt(b.1, c.1))) ==> (text_lt(a.0, c.0) || (a.0 == c.0 && text_lt(a.1, c.1))),
{
    lemma_text_lt_irreflexive(a.0);
    lemma_text_lt_irreflexive(a.1);
    if text_lt(a.0, b.0) && text_lt(b.0, c.0) {
        lemma_text_lt_transitive(a.0, b.0, c.0);
    }
    if text_lt(a.1, b.1) && text_lt(b.1, c.1) {
        lemma_text_lt_transitive(a.1, b.1, c.1);
    }
}

fn insert_in_order<T: SortKey>(r: &mut Vec<T>, x: T)
    ensures
        record_views(final(r)@) == insert_stable::<T>(record_views(old(r)@), x@),
{
    let mut p: usize = 0;
    while p < r.len() && !x.precedes(&r[p])
        invariant
            p <= r@.len(),
            forall|j: int| 0 <= j < p ==> !T::key_before(x@, #[trigger] record_views(r@)[j]),
        decreases r@.len() - p,
    {
        assert(record_views(r@)[p as int] == r@[p as int]@);
        p = p + 1;
    }
    proof {
        if p < r@.len() {
            assert(record_views(r@)[p as int] == r@[p as int]@);
        }
        lemma_first_after_at::<T>(record_views(r@), x@, p as int);
    }
    let ghost before = record_views(r@);
    r.insert(p, x);
    assert(record_views(r@) =~= before.insert(p as int, x@));
}

/// The records in stable order of their keys.
pub fn sort_stable<T: SortKey>(v: Vec<T>) -> (r: Vec<T>)
    ensures
        record_views(r@) == stable_sorted::<T>(record_views(v@)),
{
    let ghost orig = record_views(v@);
    let _n = v.len();
    let mut rest = v;
    let mut r: Vec<T> = Vec::new();
    let mut i: usize = 0;
    assert(orig.take(0) =~= Seq::<T::V>::empty());
    assert(record_views(r@) =~= stable_sorted::<T>(orig.take(0)));
    assert(record_views(rest@) =~= orig.skip(0));
    while rest.len() > 0
        invariant
            i <= orig.len(),
            orig.len() <= usize::MAX,
            rest@.len() == orig.len() - i,
            record_views(rest@) == orig.skip(i as int),
            record_views(r@) == stable_sorted::<T>(orig.take(i as int)),
        decreases rest@.len(),
    {
        let ghost before_rest = rest@;
        let x = rest.remove(0);
        assert(x@ == record_views(before_rest)[0]);
        assert(record_views(rest@) =~= record_views(before_rest).skip(1));
        assert(orig.take(i + 1).drop_last() =~= orig.take(i as int));
        assert(orig.take(i + 1).last() == orig[i as int]);
        assert(record_views(rest@) =~= orig.skip(i + 1));
        insert_in_order(&mut r, x);
        i = i + 1;
    }
    assert(orig.take(i as int) =~= orig);
    r
}

/// The distinct texts of `s` in increasing order: what sorting and then removing
/// adjacent repeats gives.
pub open spec fn sorted_distinct(s: Seq<Seq<char>>) -> Seq<Seq<char>>
    decreases s.len(),
{
    if s.len() == 0 {
        seq![]
    } else {
        let r = sorted_distinct(s.drop_last());
        if r.contains(s.last()) {
            r
        } else {
            r.insert(first_text_after(r, s.last()), s.last())
        }
    }
}

/// The index of the first text of `s` that `x` comes before, or `s.len()`.
pub open spec fn first_text_after(s: Seq<Seq<char>>, x: Seq<char>) -> int
    decreases s.len(),
{
    if s.len() == 0 {
        0
    } else if text_lt(x, s[0]) {
        0
    } else {
        1 + first_text_after(s.drop_first(), x)
    }
}

pub open spec fn views(s: Seq<String>) -> Seq<Seq<char>> {
    s.map_values(|x: String| x@)
}

proof fn lemma_first_text_after_at(s: Seq<Seq<char>>, x: Seq<char>, p: int)
    requires
        0 <= p <= s.len(),
        forall|j: int| 0 <= j < p ==> !text_lt(x, #[trigger] s[j]),
        p < s.len() ==> text_lt(x, s[p]),
    ensures
        first_text_after(s, x) == p,
    decreases p,
{
    if p > 0 {
        assert(!text_lt(x, s[0]));
        assert forall|j: int| 0 <= j < p - 1 implies !text_lt(x, #[trigger] s.drop_first()[j]) by {
            assert(s.drop_first()[j] == s[j + 1]);
        }
        if p < s.len() {
            assert(s.drop_first()[p - 1] == s[p]);
        }
        lemma_first_text_after_at(s.drop_first(), x, p - 1);
    }
}

proof fn lemma_first_text_after_props(s: Seq<Seq<char>>, x: Seq<char>)
    ensures
        0 <= first_text_after(s, x) <= s.len(),
        forall|q: int| 0 <= q < first_text_after(s, x) ==> !text_lt(x, #[trigger] s[q]),
        first_text_after(s, x) < s.len() ==> text_lt(x, s[first_text_after(s, x)]),
    decreases s.len(),
{
    if s.len() > 0 && !text_lt(x, s[0]) {
        let t = s.drop_first();
        lemma_first_text_after_props(t, x);
        assert forall|q: int| 0 <= q < first_text_after(s, x) implies !text_lt(x, #[trigger] s[q]) by {
            if q > 0 {
                assert(s[q] == t[q - 1]);
            }
        }
        if first_text_after(s, x) < s.len() {
            assert(s[first_text_after(s, x)] == t[first_text_after(t, x)]);
        }
    }
}

/// Sorting texts and removing repeats gives each text of the input exactly once, in
/// strictly increasing order.
pub proof fn lemma_sorted_distinct_props(s: Seq<Seq<char>>)
    ensures
        forall|i: int, j: int|
            0 <= i < j < sorted_distinct(s).len() ==> text_lt(
                #[trigger] sorted_distinct(s)[i],
                #[trigger] sorted_distinct(s)[j],
            ),
        forall|x: Seq<char>| sorted_distinct(s).contains(x) <==> s.contains(x),
    decreases s.len(),
{
    if s.len() > 0 {
        let prev = sorted_distinct(s.drop_last());
        let x = s.last();
        lemma_sorted_distinct_props(s.drop_last());
        assert forall|y: Seq<char>| s.contains(y) <==> (s.drop_last().contains(y) || y == x) by {
            if s.contains(y) {
                let k = choose|k: int| 0 <= k < s.len() && s[k] == y;
                if k < s.len() - 1 {
                    assert(s.drop_last()[k] == y);
                }
            }
            if s.drop_last().contains(y) {
                let k = choose|k: int| 0 <= k < s.drop_last().len() && s.drop_last()[k] == y;
                assert(s[k] == y);
            }
            if y == x {
                assert(s[s.len() - 1] == y);
            }
        }
        if !prev.contains(x) {
            lemma_first_text_after_props(prev, x);
            let p = first_text_after(prev, x);
            let r = prev.insert(p, x);
            assert(sorted_distinct(s) == r);
            assert forall|i: int, j: int| 0 <= i < j < r.len() implies text_lt(
                #[trigger] r[i],
                #[trigger] r[j],
            ) by {
                if j < p {
                    assert(r[i] == prev[i] && r[j] == prev[j]);
                } else if j == p {
                    assert(r[i] == prev[i] && r[j] == x);
                    assert(prev[i] != x);
                    lemma_text_lt_total(prev[i], x);
                } else if i < p {
                    assert(r[i] == prev[i] && r[j] == prev[j - 1]);
                } else if i == p {
                    assert(r[i] == x && r[j] == prev[j - 1]);
                    if j - 1 > p {
                        lemma_text_lt_transitive(x, prev[p], prev[j - 1]);
                    }
                } else {
                    assert(r[i] == prev[i - 1] && r[j] == prev[j - 1]);
                }
            }
            assert forall|y: Seq<char>| r.contains(y) <==> (prev.contains(y) || y == x) by {
                if r.contains(y) {
                    let k = choose|k: int| 0 <= k < r.len() && r[k] == y;
                    if k < p {
                        assert(prev[k] == y);
                    } else if k > p {
                        assert(prev[k - 1] == y);
                    }
                }
                if prev.contains(y) {
                    let k = choose|k: int| 0 <= k < prev.len() && prev[k] == y;
                    if k < p {
                        assert(r[k] == y);
                    } else {
                        assert(r[k + 1] == y);
                    }
                }
                if y == x {
                    assert(r[p] == y);
                }
            }
        }
    }
}

fn contains_text(r: &Vec<String>, x: &String) -> (b: bool)
    ensures
        b == views(r@).contains(x@),
{
    let mut k: usize = 0;
    while k < r.len()
        invariant
            k <= r@.len(),
            forall|j: int| 0 <= j < k ==> (#[trigger] r@[j])@ != x@,
        decreases r@.len() - k,
    {
        if str_eq(r[k].as_str(), x.as_str()) {
            assert(views(r@)[k as int] == x@);
            return true;
        }
        k = k + 1;
    }
    assert forall|j: int| 0 <= j < views(r@).len() implies views(r@)[j] != x@ by {
        assert(views(r@)[j] == r@[j]@);
    }
    false
}

/// The distinct texts in increasing order (sort, then remove adjacent repeats).
pub fn sort_distinct(v: Vec<String>) -> (r: Vec<String>)
    ensures
        views(r@) == sorted_distinct(views(v@)),
{
    let ghost orig = views(v@);
    let _n = v.len();
    let mut rest = v;
    assert(views(rest@).len() == rest@.len());
    let mut r: Vec<String> = Vec::new();
    let mut i: usize = 0;
    assert(orig.take(0) =~= Seq::<Seq<char>>::empty());
    assert(views(r@) =~= sorted_distinct(orig.take(0)));
    assert(views(rest@) =~= orig.skip(0));
    while rest.len() > 0
        invariant
            i <= orig.len(),
            orig.len() <= usize::MAX,
            rest@.len() == orig.len() - i,
            views(rest@) == orig.skip(i as int),
            views(r@) == sorted_distinct(orig.take(i as int)),
        decreases rest@.len(),
    {
        let ghost before_rest = rest@;
        let x = rest.remove(0);
        assert(x@ == views(before_rest)[0]);
        assert(views(rest@) =~= views(before_rest).skip(1));
        assert(orig.take(i + 1).drop_last() =~= orig.take(i as int));
        assert(orig.take(i + 1).last() == orig[i as int]);
        assert(views(rest@) =~= orig.skip(i + 1));
        if !contains_text(&r, &x) {
            let mut p: usize = 0;
            while p < r.len() && !str_lt(x.as_str(), r[p].as_str())
                invariant
                    p <= r@.len(),
                    forall|j: int| 0 <= j < p ==> !text_lt(x@, #[trigger] views(r@)[j]),
                decreases r@.len() - p,
            {
                assert(views(r@)[p as int] == r@[p as int]@);
                p = p + 1;
            }
            proof {
                if p < r@.len() {
                    assert(views(r@)[p as int] == r@[p as int]@);
                }
                lemma_first_text_after_at(views(r@), x@, p as int);
            }
            let ghost old_r = views(r@);
            r.insert(p, x);
            assert(views(r@) =~= old_r.insert(p as int, x@));
        }
        i = i + 1;
    }
    assert(orig.take(i as int) =~= orig);
    r
}

/// A copy of a list of texts.
pub fn copy_texts(v: &Vec<String>) -> (r: Vec<String>)
    ensures
        views(r@) == views(v@),
{
    let mut r: Vec<String> = Vec::new();
    let mut k: usize = 0;
    while k < v.len()
        invariant
            k <= v@.len(),
            views(r@) == views(v@).take(k as int),
        decreases v@.len() - k,
    {
        let ghost before = views(r@);
        r.push(v[k].clone());
        assert(views(r@) =~= before.push(v@[k as int]@));
        assert(views(v@).take(k + 1) =~= views(v@).take(k as int).push(v@[k as int]@));
        k = k + 1;
    }
    assert(views(v@).take(k as int) =~= views(v@));
    r
}

/// Lexicographic order of lists of texts (the order of `Vec<String>`).
pub open spec fn texts_lt(a: Seq<Seq<char>>, b: Seq<Seq<char>>) -> bool
    decreases a.len(),
{
    if a.len() == 0 {
        b.len() > 0
    } else if b.len() == 0 {
        false
    } else if a[0] != b[0] {
        text_lt(a[0], b[0])
    } else {
        texts_lt(a.drop_first(), b.drop_first())
    }
}

/// No list of texts comes before itself.
pub proof fn lemma_texts_lt_irreflexive(a: Seq<Seq<char>>)
    ensures
        !texts_lt(a, a),
    decreases a.len(),
{
    if a.len() > 0 {
        lemma_texts_lt_irreflexive(a.drop_first());
    }
}

/// The order of lists of texts is transitive.
pub proof fn lemma_texts_lt_transitive(a: Seq<Seq<char>>, b: Seq<Seq<char>>, c: Seq<Seq<char>>)
    requires
        texts_lt(a, b),
        texts_lt(b, c),
    ensures
        texts_lt(a, c),
    decreases a.len(),
{
    if a.len() > 0 && b.len() > 0 && c.len() > 0 {
        if a[0] == b[0] && b[0] == c[0] {
            lemma_texts_lt_transitive(a.drop_first(), b.drop_first(), c.drop_first());
        } else {
            lemma_text_lt_irreflexive(a[0]);
            if a[0] != b[0] && b[0] != c[0] {
                lemma_text_lt_transitive(a[0], b[0], c[0]);
            }
        }
    }
}

proof fn lemma_texts_lt_from(a: Seq<Seq<char>>, b: Seq<Seq<char>>, k: int)
    requires
        0 <= k <= a.len(),
        k <= b.len(),
        a.subrange(0, k) == b.subrange(0, k),
    ensures
        texts_lt(a, b) == texts_lt(a.subrange(k, a.len() as int), b.subrange(k, b.len() as int)),
    decreases k,
{
    if k > 0 {
        assert(a[0] == a.subrange(0, k)[0]);
        assert(b[0] == b.subrange(0, k)[0]);
        assert(a.drop_first().subrange(0, k - 1) =~= a.subrange(1, k));
        assert(b.drop_first().subrange(0, k - 1) =~= b.subrange(1, k));
        assert(a.subrange(1, k) =~= a.subrange(0, k).drop_first());
        assert(b.subrange(1, k) =~= b.subrange(0, k).drop_first());
        lemma_texts_lt_from(a.drop_first(), b.drop_first(), k - 1);
        assert(a.drop_first().subrange(k - 1, a.drop_first().len() as int) =~= a.subrange(
            k,
            a.len() as int,
        ));
        assert(b.drop_first().subrange(k - 1, b.drop_first().len() as int) =~= b.subrange(
            k,
            b.len() as int,
        ));
    } else {
        assert(a.subrange(0, a.len() as int) =~= a);
        assert(b.subrange(0, b.len() as int) =~= b);
    }
}

/// Whether the first list of texts comes before the second.
pub fn texts_before(a: &Vec<String>, b: &Vec<String>) -> (r: bool)
    ensures
        r == texts_lt(views(a@), views(b@)),
{
    let ghost va = views(a@);
    let ghost vb = views(b@);
    let n = a.len();
    let m = b.len();
    let mut k: usize = 0;
    while k < n && k < m
        invariant
            n == va.len(),
            m == vb.len(),
            va == views(a@),
            vb == views(b@),
            k <= n,
            k <= m,
            va.subrange(0, k as int) == vb.subrange(0, k as int),
        decreases n - k,
    {
        assert(va[k as int] == a@[k as int]@);
        assert(vb[k as int] == b@[k as int]@);
        if !str_eq(a[k].as_str(), b[k].as_str()) {
            proof {
                lemma_texts_lt_from(va, vb, k as int);
                let ra = va.subrange(k as int, n as int);
                let rb = vb.subrange(k as int, m as int);
                assert(ra[0] == va[k as int]);
                assert(rb[0] == vb[k as int]);
            }
            return str_lt(a[k].as_str(), b[k].as_str());
        }
        assert(va.subrange(0, k + 1) =~= vb.subrange(0, k + 1)) by {
            assert(va.subrange(0, k + 1) =~= va.subrange(0, k as int).push(va[k as int]));
            assert(vb.subrange(0, k + 1) =~= vb.subrange(0, k as int).push(vb[k as int]));
        }
        k = k + 1;
    }
    proof {
        lemma_texts_lt_from(va, vb, k as int);
    }
    n < m
}

/// Whether two lists of texts are equal.
pub fn texts_equal(a: &Vec<String>, b: &Vec<String>) -> (r: bool)
    ensures
        r == (views(a@) == views(b@)),
{
    if a.len() != b.len() {
        assert(views(a@).len() != views(b@).len());
        return false;
    }
    let mut k: usize = 0;
    while k < a.len()
        invariant
            a@.len() == b@.len(),
            k <= a@.len(),
            forall|j: int| 0 <= j < k ==> views(a@)[j] == views(b@)[j],
        decreases a@.len() - k,
    {
        if !str_eq(a[k].as_str(), b[k].as_str()) {
            assert(views(a@)[k as int] != views(b@)[k as int]);
            return false;
        }
        k = k + 1;
    }
    assert(views(a@) =~= views(b@));
    true
}

/// The number of occurrences of a text in a list.
fn count_text(v: &Vec<String>, x: &String) -> (n: usize)
    ensures
        n == views(v@).to_multiset().count(x@),
{
    broadcast use vstd::seq_lib::group_to_multiset_ensures;
    broadcast use vstd::multiset::group_multiset_axioms;

    let mut n: usize = 0;
    let mut k: usize = 0;
    assert(views(v@).take(0) =~= Seq::<Seq<char>>::empty());
    while k < v.len()
        invariant
            k <= v@.len(),
            n <= k,
            n == views(v@).take(k as int).to_multiset().count(x@),
        decreases v@.len() - k,
    {
        let ghost prev = views(v@).take(k as int);
        assert(views(v@).take(k + 1) =~= prev.push(v@[k as int]@));
        proof {
            vstd::seq_lib::to_multiset_build(prev, v@[k as int]@);
        }
        if str_eq(v[k].as_str(), x.as_str()) {
            n = n + 1;
        }
        k = k + 1;
    }
    assert(views(v@).take(k as int) =~= views(v@));
    n
}

/// Whether two lists hold the same texts, each as often (equal once sorted).
pub fn same_texts(a: &Vec<String>, b: &Vec<String>) -> (r: bool)
    ensures
        r == (views(a@).to_multiset() == views(b@).to_multiset()),
{
    broadcast use vstd::seq_lib::group_to_multiset_ensures;

    let ghost ma = views(a@).to_multiset();
    let ghost mb = views(b@).to_multiset();
    let mut k: usize = 0;
    while k < a.len()
        invariant
            k <= a@.len(),
            ma == views(a@).to_multiset(),
            mb == views(b@).to_multiset(),
            forall|j: int| 0 <= j < k ==> ma.count(#[trigger] views(a@)[j]) == mb.count(
                views(a@)[j],
            ),
        decreases a@.len() - k,
    {
        assert(views(a@)[k as int] == a@[k as int]@);
        if count_text(a, &a[k]) != count_text(b, &a[k]) {
            return false;
        }
        k = k + 1;
    }
    let mut k: usize = 0;
    while k < b.len()
        invariant
            k <= b@.len(),
            ma == views(a@).to_multiset(),
            mb == views(b@).to_multiset(),
            forall|j: int| 0 <= j < a@.len() ==> ma.count(#[trigger] views(a@)[j]) == mb.count(
                views(a@)[j],
            ),
            forall|j: int| 0 <= j < k ==> ma.count(#[trigger] views(b@)[j]) == mb.count(
                views(b@)[j],
            ),
        decreases b@.len() - k,
    {
        assert(views(b@)[k as int] == b@[k as int]@);
        if count_text(a, &b[k]) != count_text(b, &b[k]) {
            return false;
        }
        k = k + 1;
    }
    assert forall|x: Seq<char>| ma.count(x) == mb.count(x) by {
        if views(a@).contains(x) {
            let j = choose|j: int| 0 <= j < views(a@).len() && views(a@)[j] == x;
            assert(ma.count(views(a@)[j]) == mb.count(views(a@)[j]));
        } else if views(b@).contains(x) {
            let j = choose|j: int| 0 <= j < views(b@).len() && views(b@)[j] == x;
            assert(ma.count(views(b@)[j]) == mb.count(views(b@)[j]));
        }
    }
    assert(ma =~= mb);
    true
}

} // verus!
