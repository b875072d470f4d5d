//! Facts about sequences that the rest of the crate leans on: the first
//! element that meets a predicate, what filtering keeps, and keys that occur
//! once.

use vstd::prelude::*;

verus! {

/// The view of each element, in order.
pub open spec fn views<T: View>(s: Seq<T>) -> Seq<T::V> {
    s.map_values(|x: T| x@)
}

/// Whether some element of `s` meets `p`.
pub open spec fn any_meets<A>(s: Seq<A>, p: spec_fn(A) -> bool) -> bool {
    exists|i: int| 0 <= i < s.len() && p(#[trigger] s[i])
}

/// Whether `i` is the position of the first element of `s` that meets `p`.
pub open spec fn is_first<A>(s: Seq<A>, p: spec_fn(A) -> bool, i: int) -> bool {
    &&& 0 <= i < s.len()
    &&& p(s[i])
    &&& forall|j: int| 0 <= j < i ==> !p(#[trigger] s[j])
}

/// The position of the first element of `s` that meets `p`, if there is one.
pub open spec fn first_index<A>(s: Seq<A>, p: spec_fn(A) -> bool) -> Option<int> {
    if any_meets(s, p) {
        Some(choose|i: int| is_first(s, p, i))
    } else {
        None
    }
}

/// The first element of `s` that meets `p`, if there is one.
pub open spec fn first_match<A>(s: Seq<A>, p: spec_fn(A) -> bool) -> Option<A> {
    match first_index(s, p) {
        Some(i) => Some(s[i]),
        None => None,
    }
}

/// How many elements of `s` meet `p`.
pub open spec fn count<A>(s: Seq<A>, p: spec_fn(A) -> bool) -> nat {
    s.filter(p).len()
}

/// Whether no two elements of `s` share a key.
pub open spec fn distinct_by<A, K>(s: Seq<A>, key: spec_fn(A) -> K) -> bool {
    forall|i: int, j: int| 0 <= i < j < s.len() ==> key(#[trigger] s[i]) != key(#[trigger] s[j])
}

proof fn lemma_least_exists<A>(s: Seq<A>, p: spec_fn(A) -> bool, k: int)
    requires
        0 <= k < s.len(),
        p(s[k]),
    ensures
        exists|i: int| is_first(s, p, i),
    decreases k,
{
    if exists|j: int| 0 <= j < k && p(#[trigger] s[j]) {
        let j = choose|j: int| 0 <= j < k && p(#[trigger] s[j]);
        lemma_least_exists(s, p, j);
    } else {
        assert(is_first(s, p, k));
    }
}

/// `first_index` is `Some(i)` exactly for the first position that meets `p`.
pub proof fn lemma_first_index_some<A>(s: Seq<A>, p: spec_fn(A) -> bool, i: int)
    requires
        is_first(s, p, i),
    ensures
        first_index(s, p) == Some(i),
        first_match(s, p) == Some(s[i]),
{
    assert(any_meets(s, p));
    let c = choose|c: int| is_first(s, p, c);
    assert(is_first(s, p, c));
    if c < i {
        assert(!p(s[c]));
    }
    if i < c {
        assert(!p(s[i]));
    }
}

/// `first_index` is `None` exactly when no element meets `p`.
pub proof fn lemma_first_index_none<A>(s: Seq<A>, p: spec_fn(A) -> bool)
    requires
        forall|j: int| 0 <= j < s.len() ==> !p(#[trigger] s[j]),
    ensures
        first_index(s, p) == None::<int>,
        first_match(s, p) == None::<A>,
{
}

/// What `first_index` returns, read the other way round.
pub proof fn lemma_first_index_is_first<A>(s: Seq<A>, p: spec_fn(A) -> bool)
    ensures
        match first_index(s, p) {
            Some(i) => is_first(s, p, i),
            None => forall|j: int| 0 <= j < s.len() ==> !p(#[trigger] s[j]),
        },
{
    if any_meets(s, p) {
        let k = choose|k: int| 0 <= k < s.len() && p(#[trigger] s[k]);
        lemma_least_exists(s, p, k);
    }
}

/// Filtering one element more either appends it or changes nothing.
pub proof fn lemma_filter_next<A>(s: Seq<A>, p: spec_fn(A) -> bool, i: int)
    requires
        0 <= i < s.len(),
    ensures
        s.take(i + 1).filter(p) == if p(s[i]) {
            s.take(i).filter(p).push(s[i])
        } else {
            s.take(i).filter(p)
        },
{
    reveal(Seq::filter);
    assert(s.take(i + 1).drop_last() =~= s.take(i));
}

/// Filtering a sequence with one element appended.
pub proof fn lemma_filter_push<A>(s: Seq<A>, p: spec_fn(A) -> bool, x: A)
    ensures
        s.push(x).filter(p) == if p(x) {
            s.filter(p).push(x)
        } else {
            s.filter(p)
        },
{
    reveal(Seq::filter);
    assert(s.push(x).drop_last() =~= s);
}

/// An element is kept by a filter exactly when it was there and meets the
/// predicate.
pub proof fn lemma_filter_members<A>(s: Seq<A>, p: spec_fn(A) -> bool)
    ensures
        forall|x: A| #[trigger] s.filter(p).contains(x) <==> (s.contains(x) && p(x)),
        forall|i: int| 0 <= i < s.filter(p).len() ==> p(#[trigger] s.filter(p)[i]),
    decreases s.len(),
{
    reveal(Seq::filter);
    if s.len() > 0 {
        let init = s.drop_last();
        lemma_filter_members(init, p);
        let f = s.filter(p);
        assert forall|x: A| #[trigger] f.contains(x) <==> (s.contains(x) && p(x)) by {
            if f.contains(x) {
                let k = choose|k: int| 0 <= k < f.len() && f[k] == x;
                if k < init.filter(p).len() {
                    assert(init.filter(p).contains(x));
                    let m = choose|m: int| 0 <= m < init.len() && init[m] == x;
                    assert(s[m] == x);
                } else {
                    assert(x == s.last());
                    assert(s[s.len() - 1] == x);
                }
            }
            if s.contains(x) && p(x) {
                let m = choose|m: int| 0 <= m < s.len() && s[m] == x;
                if m < init.len() {
                    assert(init[m] == x);
                    assert(init.contains(x));
                    assert(init.filter(p).contains(x));
                    let k = choose|k: int| 0 <= k < init.filter(p).len() && init.filter(p)[k] == x;
                    assert(f[k] == x);
                } else {
                    assert(f[f.len() - 1] == x);
                }
            }
        }
    }
}

/// A filter that every element passes changes nothing.
pub proof fn lemma_filter_all<A>(s: Seq<A>, p: spec_fn(A) -> bool)
    requires
        forall|i: int| 0 <= i < s.len() ==> p(#[trigger] s[i]),
    ensures
        s.filter(p) == s,
    decreases s.len(),
{
    reveal(Seq::filter);
    if s.len() > 0 {
        let init = s.drop_last();
        assert forall|i: int| 0 <= i < init.len() implies p(#[trigger] init[i]) by {
            assert(init[i] == s[i]);
        }
        lemma_filter_all(init, p);
        assert(init.push(s.last()) =~= s);
    } else {
        assert(s.filter(p) =~= s);
    }
}

/// A filter that no element passes leaves nothing.
pub proof fn lemma_filter_none<A>(s: Seq<A>, p: spec_fn(A) -> bool)
    requires
        forall|i: int| 0 <= i < s.len() ==> !p(#[trigger] s[i]),
    ensures
        s.filter(p) == Seq::<A>::empty(),
    decreases s.len(),
{
    reveal(Seq::filter);
    if s.len() > 0 {
        let init = s.drop_last();
        assert forall|i: int| 0 <= i < init.len() implies !p(#[trigger] init[i]) by {
            assert(init[i] == s[i]);
        }
        lemma_filter_none(init, p);
    } else {
        assert(s.filter(p) =~= Seq::<A>::empty());
    }
}

/// Filtering keeps keys distinct.
pub proof fn lemma_filter_distinct<A, K>(s: Seq<A>, p: spec_fn(A) -> bool, key: spec_fn(A) -> K)
    requires
        distinct_by(s, key),
    ensures
        distinct_by(s.filter(p), key),
    decreases s.len(),
{
    reveal(Seq::filter);
    if s.len() > 0 {
        let init = s.drop_last();
        assert(distinct_by(init, key)) by {
            assert forall|i: int, j: int| 0 <= i < j < init.len() implies key(#[trigger] init[i])
                != key(#[trigger] init[j]) by {
                assert(init[i] == s[i] && init[j] == s[j]);
            }
        }
        lemma_filter_distinct(init, p, key);
        lemma_filter_members(init, p);
        let g = init.filter(p);
        let f = s.filter(p);
        assert forall|i: int, j: int| 0 <= i < j < f.len() implies key(#[trigger] f[i]) != key(
            #[trigger] f[j],
        ) by {
            if j < g.len() {
                assert(f[i] == g[i] && f[j] == g[j]);
            } else {
                assert(f[j] == s.last());
                assert(f[i] == g[i]);
                assert(g.contains(g[i]));
                assert(init.contains(g[i]));
                let m = choose|m: int| 0 <= m < init.len() && init[m] == g[i];
                assert(s[m] == g[i]);
                assert(key(s[m]) != key(s[s.len() - 1]));
            }
        }
    }
}

/// Filtering a concatenation filters each part.
pub proof fn lemma_filter_concat<A>(a: Seq<A>, b: Seq<A>, p: spec_fn(A) -> bool)
    ensures
        (a + b).filter(p) == a.filter(p) + b.filter(p),
{
    Seq::filter_distributes_over_add(a, b, p);
}

/// Taking one element out changes a filter by that element alone.
pub proof fn lemma_filter_remove<A>(s: Seq<A>, p: spec_fn(A) -> bool, i: int)
    requires
        0 <= i < s.len(),
    ensures
        p(s[i]) ==> s.remove(i).filter(p).len() == s.filter(p).len() - 1,
        !p(s[i]) ==> s.remove(i).filter(p) == s.filter(p),
{
    let a = s.subrange(0, i);
    let b = s.subrange(i + 1, s.len() as int);
    let one = Seq::<A>::empty().push(s[i]);
    assert(s =~= (a + one) + b);
    assert(s.remove(i) =~= a + b);
    lemma_filter_concat(a + one, b, p);
    lemma_filter_concat(a, one, p);
    lemma_filter_concat(a, b, p);
    lemma_filter_push(Seq::<A>::empty(), p, s[i]);
    lemma_filter_none(Seq::<A>::empty(), p);
    if !p(s[i]) {
        assert(a.filter(p) + Seq::<A>::empty() =~= a.filter(p));
    }
}

/// A filter after a wider filter is the narrower filter alone.
pub proof fn lemma_filter_narrowed<A>(s: Seq<A>, wide: spec_fn(A) -> bool, narrow: spec_fn(A) -> bool)
    requires
        forall|x: A| #[trigger] narrow(x) ==> wide(x),
    ensures
        s.filter(wide).filter(narrow) == s.filter(narrow),
    decreases s.len(),
{
    reveal(Seq::filter);
    if s.len() > 0 {
        let init = s.drop_last();
        let last = s.last();
        lemma_filter_narrowed(init, wide, narrow);
        assert(init.push(last) =~= s);
        lemma_filter_push(init, wide, last);
        lemma_filter_push(init, narrow, last);
        lemma_filter_push(init.filter(wide), narrow, last);
    } else {
        assert(s.filter(wide) =~= s);
    }
}

/// What a wider filter keeps still holds every element that meets the
/// narrower predicate.
pub proof fn lemma_any_meets_narrowed<A>(
    s: Seq<A>,
    wide: spec_fn(A) -> bool,
    narrow: spec_fn(A) -> bool,
)
    requires
        forall|x: A| #[trigger] narrow(x) ==> wide(x),
    ensures
        any_meets(s.filter(wide), narrow) == any_meets(s, narrow),
{
    lemma_filter_members(s, wide);
    let f = s.filter(wide);
    if any_meets(s, narrow) {
        let i = choose|i: int| 0 <= i < s.len() && narrow(#[trigger] s[i]);
        assert(s.contains(s[i]));
        assert(f.contains(s[i]));
        let k = choose|k: int| 0 <= k < f.len() && f[k] == s[i];
        assert(narrow(f[k]));
    }
    if any_meets(f, narrow) {
        let k = choose|k: int| 0 <= k < f.len() && narrow(#[trigger] f[k]);
        assert(f.contains(f[k]));
        assert(s.contains(f[k]));
        let i = choose|i: int| 0 <= i < s.len() && s[i] == f[k];
        assert(narrow(s[i]));
    }
}

/// Changing one element in place leaves a count as it is, where the new
/// element meets the predicate exactly if the old one did.
pub proof fn lemma_count_changed<A>(s: Seq<A>, p: spec_fn(A) -> bool, i: int, x: A)
    requires
        0 <= i < s.len(),
        p(x) == p(s[i]),
    ensures
        count(s.update(i, x), p) == count(s, p),
{
    let a = s.subrange(0, i);
    let b = s.subrange(i + 1, s.len() as int);
    let was = Seq::<A>::empty().push(s[i]);
    let now = Seq::<A>::empty().push(x);
    assert(s =~= (a + was) + b);
    assert(s.update(i, x) =~= (a + now) + b);
    lemma_filter_concat(a + was, b, p);
    lemma_filter_concat(a, was, p);
    lemma_filter_concat(a + now, b, p);
    lemma_filter_concat(a, now, p);
    lemma_filter_push(Seq::<A>::empty(), p, s[i]);
    lemma_filter_push(Seq::<A>::empty(), p, x);
}

/// Two elements that meet a predicate make a count of two at least.
pub proof fn lemma_two_meet<A>(s: Seq<A>, p: spec_fn(A) -> bool, i: int, j: int)
    requires
        0 <= i < s.len(),
        0 <= j < s.len(),
        i != j,
        p(s[i]),
        p(s[j]),
    ensures
        count(s, p) >= 2,
{
    lemma_filter_remove(s, p, j);
    let rest = s.remove(j);
    let i0 = if i < j { i } else { i - 1 };
    assert(rest[i0] == s[i]);
    lemma_filter_members(rest, p);
    assert(rest.contains(rest[i0]));
    assert(rest.filter(p).contains(rest[i0]));
}

} // verus!
