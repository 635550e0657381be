//! Stable sorting, and the order of texts.

use vstd::prelude::*;

verus! {

/// `x` put into `s` behind everything that may stand before it.
pub open spec fn insert_stable<T>(s: Seq<T>, x: T, leq: spec_fn(T, T) -> bool) -> Seq<T>
    decreases s.len(),
{
    if s.len() == 0 || leq(s.last(), x) {
        s.push(x)
    } else {
        insert_stable(s.drop_last(), x, leq).push(s.last())
    }
}

/// `s` in ascending order; items of equal rank keep their order.
pub open spec fn sort_stable<T>(s: Seq<T>, leq: spec_fn(T, T) -> bool) -> Seq<T>
    decreases s.len(),
{
    if s.len() == 0 {
        s
    } else {
        insert_stable(sort_stable(s.drop_last(), leq), s.last(), leq)
    }
}

/// Whether any two items can be compared, and comparison is transitive.
pub open spec fn total_preorder<T>(leq: spec_fn(T, T) -> bool) -> bool {
    &&& forall|a: T, b: T| #[trigger] leq(a, b) || leq(b, a)
    &&& forall|a: T, b: T, c: T| #[trigger] leq(a, b) && #[trigger] leq(b, c) ==> leq(a, c)
}

/// Whether `s` ascends.
pub open spec fn ascending<T>(s: Seq<T>, leq: spec_fn(T, T) -> bool) -> bool {
    forall|i: int, j: int| 0 <= i < j < s.len() ==> leq(#[trigger] s[i], #[trigger] s[j])
}

/// The items of `s` of the rank of `k`, in their order.
pub open spec fn ranked<T>(s: Seq<T>, leq: spec_fn(T, T) -> bool, k: T) -> Seq<T>
    decreases s.len(),
{
    if s.len() == 0 {
        s
    } else if leq(s.last(), k) && leq(k, s.last()) {
        ranked(s.drop_last(), leq, k).push(s.last())
    } else {
        ranked(s.drop_last(), leq, k)
    }
}

/// Where an item goes: behind one that may stand before it, and before all
/// that may not.
pub proof fn lemma_insert_at<T>(s: Seq<T>, x: T, leq: spec_fn(T, T) -> bool, p: int)
    requires
        0 <= p <= s.len(),
        p > 0 ==> leq(s[p - 1], x),
        forall|j: int| p <= j < s.len() ==> !leq(#[trigger] s[j], x),
    ensures
        insert_stable(s, x, leq) == s.insert(p, x),
    decreases s.len(),
{
    if p == s.len() {
        assert(s.push(x) == s.insert(p, x));
    } else {
        assert(!leq(s.last(), x));
        assert forall|j: int| p <= j < s.drop_last().len() implies !leq(
            #[trigger] s.drop_last()[j],
            x,
        ) by {
            assert(s.drop_last()[j] == s[j]);
        }
        lemma_insert_at(s.drop_last(), x, leq, p);
        assert(s.drop_last().insert(p, x).push(s.last()) == s.insert(p, x));
    }
}

/// Puts an item behind the last that may stand before it. Items are compared by
/// what `view` gives of them.
pub(crate) fn insert_sorted<T, V, F: Fn(&T, &T) -> bool>(
    v: &mut Vec<T>,
    x: T,
    le: F,
    Ghost(view): Ghost<spec_fn(T) -> V>,
    Ghost(leq): Ghost<spec_fn(V, V) -> bool>,
)
    requires
        forall|a: &T, b: &T| call_requires(le, (a, b)),
        forall|a: &T, b: &T, r: bool|
            call_ensures(le, (a, b), r) ==> r == leq(view(*a), view(*b)),
    ensures
        final(v)@.map_values(view) == insert_stable(old(v)@.map_values(view), view(x), leq),
{
    let ghost sorted = v@.map_values(view);
    let mut p: usize = v.len();
    while p > 0
        invariant_except_break
            p <= v@.len(),
            v@ == old(v)@,
            sorted == v@.map_values(view),
            forall|a: &T, b: &T| call_requires(le, (a, b)),
            forall|a: &T, b: &T, r: bool|
                call_ensures(le, (a, b), r) ==> r == leq(view(*a), view(*b)),
            forall|j: int| p <= j < v@.len() ==> !leq(#[trigger] sorted[j], view(x)),
        ensures
            p <= v@.len(),
            v@ == old(v)@,
            p > 0 ==> leq(sorted[p - 1], view(x)),
            forall|j: int| p <= j < v@.len() ==> !leq(#[trigger] sorted[j], view(x)),
        decreases p,
    {
        if le(&v[p - 1], &x) {
            break;
        }
        p = p - 1;
    }
    let ghost y = view(x);
    v.insert(p, x);
    proof {
        lemma_insert_at(sorted, y, leq, p as int);
        assert(v@.map_values(view) == sorted.insert(p as int, y));
    }
}

proof fn lemma_insert_sorts<T>(s: Seq<T>, x: T, leq: spec_fn(T, T) -> bool)
    requires
        total_preorder(leq),
        ascending(s, leq),
    ensures
        ascending(insert_stable(s, x, leq), leq),
        insert_stable(s, x, leq).len() == s.len() + 1,
        insert_stable(s, x, leq).to_multiset() == s.to_multiset().insert(x),
        forall|y: T|
            (s.len() > 0 ==> leq(s.last(), y)) && #[trigger] leq(x, y) ==> leq(
                insert_stable(s, x, leq).last(),
                y,
            ),
        forall|k: T| #[trigger]
            ranked(insert_stable(s, x, leq), leq, k) == (if leq(x, k) && leq(k, x) {
                ranked(s, leq, k).push(x)
            } else {
                ranked(s, leq, k)
            }),
    decreases s.len(),
{
    broadcast use vstd::seq_lib::group_to_multiset_ensures;

    let r = insert_stable(s, x, leq);
    if s.len() == 0 || leq(s.last(), x) {
        assert(r == s.push(x));
        assert(r.drop_last() == s);
        assert forall|i: int, j: int| 0 <= i < j < r.len() implies leq(
            #[trigger] r[i],
            #[trigger] r[j],
        ) by {
            if j == s.len() {
                if i < s.len() - 1 {
                    assert(leq(s[i], s[s.len() - 1]));
                }
                assert(leq(s[s.len() - 1], x));
            }
        }
    } else {
        let front = s.drop_last();
        let last = s.last();
        assert(leq(x, last));
        assert forall|i: int, j: int| 0 <= i < j < front.len() implies leq(
            #[trigger] front[i],
            #[trigger] front[j],
        ) by {
            assert(front[i] == s[i] && front[j] == s[j]);
        }
        lemma_insert_sorts(front, x, leq);
        let m = insert_stable(front, x, leq);
        assert(r == m.push(last));
        assert(r.drop_last() == m);
        assert(s == front.push(last));
        if front.len() > 0 {
            assert(front.last() == s[s.len() - 2]);
            assert(leq(s[s.len() - 2], s[s.len() - 1]));
        }
        assert(leq(m.last(), last));
        assert forall|i: int, j: int| 0 <= i < j < r.len() implies leq(
            #[trigger] r[i],
            #[trigger] r[j],
        ) by {
            if j == m.len() {
                if i < m.len() - 1 {
                    assert(leq(m[i], m[m.len() - 1]));
                }
                assert(leq(m[m.len() - 1], last));
            }
        }
        assert(front.to_multiset().insert(x).insert(last) =~= front.to_multiset().insert(
            last,
        ).insert(x));
        assert forall|k: T| #[trigger] ranked(r, leq, k) == (if leq(x, k) && leq(k, x) {
            ranked(s, leq, k).push(x)
        } else {
            ranked(s, leq, k)
        }) by {
            assert(ranked(m, leq, k) == (if leq(x, k) && leq(k, x) {
                ranked(front, leq, k).push(x)
            } else {
                ranked(front, leq, k)
            }));
            if leq(x, k) && leq(k, x) && leq(last, k) && leq(k, last) {
                // `last` would then be of the rank of `x`, and stand before it.
                assert(leq(last, x));
            }
        }
    }
}

/// A stable sort keeps the items, puts them in ascending order, and leaves
/// items of equal rank in the order in which they stood.
pub proof fn sorting_is_stable<T>(s: Seq<T>, leq: spec_fn(T, T) -> bool)
    requires
        total_preorder(leq),
    ensures
        sort_stable(s, leq).len() == s.len(),
        sort_stable(s, leq).to_multiset() == s.to_multiset(),
        ascending(sort_stable(s, leq), leq),
        forall|k: T| #[trigger] ranked(sort_stable(s, leq), leq, k) == ranked(s, leq, k),
    decreases s.len(),
{
    broadcast use vstd::seq_lib::group_to_multiset_ensures;

    if s.len() > 0 {
        let front = s.drop_last();
        sorting_is_stable(front, leq);
        lemma_insert_sorts(sort_stable(front, leq), s.last(), leq);
        assert(s == front.push(s.last()));
        assert forall|k: T| #[trigger] ranked(sort_stable(s, leq), leq, k) == ranked(
            s,
            leq,
            k,
        ) by {
            assert(ranked(sort_stable(front, leq), leq, k) == ranked(front, leq, k));
        }
    }
}

/// Sorting what is in order already changes nothing.
pub proof fn sorted_stays<T>(s: Seq<T>, leq: spec_fn(T, T) -> bool)
    requires
        ascending(s, leq),
    ensures
        sort_stable(s, leq) == s,
    decreases s.len(),
{
    if s.len() > 0 {
        let front = s.drop_last();
        assert forall|i: int, j: int| 0 <= i < j < front.len() implies leq(
            #[trigger] front[i],
            #[trigger] front[j],
        ) by {
            assert(front[i] == s[i] && front[j] == s[j]);
        }
        sorted_stays(front, leq);
        if front.len() > 0 {
            assert(leq(s[s.len() - 2], s[s.len() - 1]));
        }
        assert(front.push(s.last()) == s);
    }
}

/// Whether items of one rank are equal.
pub open spec fn ranks_differ<T>(s: Seq<T>, leq: spec_fn(T, T) -> bool) -> bool {
    forall|i: int, j: int|
        0 <= i < s.len() && 0 <= j < s.len() && leq(#[trigger] s[i], #[trigger] s[j]) && leq(
            s[j],
            s[i],
        ) ==> s[i] == s[j]
}

/// Items that are told apart by their rank can be put in order in one way only.
pub proof fn order_is_unique<T>(a: Seq<T>, b: Seq<T>, leq: spec_fn(T, T) -> bool)
    requires
        ascending(a, leq),
        ascending(b, leq),
        a.to_multiset() == b.to_multiset(),
        ranks_differ(a, leq),
    ensures
        a == b,
    decreases a.len(),
{
    a.to_multiset_ensures();
    b.to_multiset_ensures();
    if a.len() > 0 {
        let x = a.last();
        let y = b.last();
        assert(a.contains(x));
        assert(b.contains(y));
        assert(b.to_multiset().count(x) > 0);
        assert(a.to_multiset().count(y) > 0);
        assert(b.contains(x));
        assert(a.contains(y));
        let i = choose|i: int| 0 <= i < b.len() && b[i] == x;
        let j = choose|j: int| 0 <= j < a.len() && a[j] == y;
        if i < b.len() - 1 && j < a.len() - 1 {
            assert(leq(b[i], b[b.len() - 1]));
            assert(leq(a[j], a[a.len() - 1]));
            assert(a[j] == a[a.len() - 1]);
        }
        assert(x == y);
        let fa = a.drop_last();
        let fb = b.drop_last();
        fa.to_multiset_ensures();
        fb.to_multiset_ensures();
        assert(a == fa.push(x));
        assert(b == fb.push(x));
        assert(fa.push(x).to_multiset() =~= fa.to_multiset().insert(x));
        assert(fb.push(x).to_multiset() =~= fb.to_multiset().insert(x));
        assert(fa.to_multiset() =~= fa.to_multiset().insert(x).remove(x));
        assert(fb.to_multiset() =~= fb.to_multiset().insert(x).remove(x));
        order_is_unique(fa, fb, leq);
    }
}

/// Whether text `a` stands before `b` or is equal to it: by code points, from
/// the front, a prefix before what it is a prefix of.
pub open spec fn text_le(a: Seq<char>, b: Seq<char>) -> bool
    decreases a.len(),
{
    if a.len() == 0 {
        true
    } else if b.len() == 0 {
        false
    } else if a[0] != b[0] {
        a[0] < b[0]
    } else {
        text_le(a.drop_first(), b.drop_first())
    }
}

/// Whether an optional text stands before another or is equal to it; none is
/// the smallest.
pub open spec fn opt_text_le(a: Option<Seq<char>>, b: Option<Seq<char>>) -> bool {
    match (a, b) {
        (None, _) => true,
        (Some(_), None) => false,
        (Some(x), Some(y)) => text_le(x, y),
    }
}

/// Whether an optional number stands before another or is equal to it; none
/// is the smallest.
pub open spec fn opt_num_le(a: Option<u32>, b: Option<u32>) -> bool {
    match (a, b) {
        (None, _) => true,
        (Some(_), None) => false,
        (Some(x), Some(y)) => x <= y,
    }
}

/// Texts are totally ordered.
pub proof fn text_order_is_total(a: Seq<char>, b: Seq<char>)
    ensures
        text_le(a, b) || text_le(b, a),
        text_le(a, b) && text_le(b, a) ==> a == b,
    decreases a.len(),
{
    if a.len() > 0 && b.len() > 0 && a[0] == b[0] {
        text_order_is_total(a.drop_first(), b.drop_first());
        if a.drop_first() == b.drop_first() {
            assert(a == seq![a[0]] + a.drop_first());
            assert(b == seq![b[0]] + b.drop_first());
        }
    } else if a.len() == 0 && b.len() == 0 {
        assert(a == b);
    }
}

pub proof fn text_order_is_transitive(a: Seq<char>, b: Seq<char>, c: Seq<char>)
    requires
        text_le(a, b),
        text_le(b, c),
    ensures
        text_le(a, c),
    decreases a.len(),
{
    if a.len() > 0 && b.len() > 0 && c.len() > 0 && a[0] == b[0] && b[0] == c[0] {
        text_order_is_transitive(a.drop_first(), b.drop_first(), c.drop_first());
    }
}

/// Whether the characters of `a` stand before those of `b` or equal them.
pub fn chars_le(a: &[char], b: &[char]) -> (r: bool)
    ensures
        r == text_le(a@, b@),
{
    let mut i: usize = 0;
    assert(a@.subrange(0, a@.len() as int) == a@);
    assert(b@.subrange(0, b@.len() as int) == b@);
    while i < a.len() && i < b.len()
        invariant
            i <= a.len(),
            i <= b.len(),
            text_le(a@, b@) == text_le(
                a@.subrange(i as int, a@.len() as int),
                b@.subrange(i as int, b@.len() as int),
            ),
        decreases a.len() - i,
    {
        if a[i] != b[i] {
            return a[i] < b[i];
        }
        assert(a@.subrange(i as int, a@.len() as int).drop_first() == a@.subrange(
            i + 1,
            a@.len() as int,
        ));
        assert(b@.subrange(i as int, b@.len() as int).drop_first() == b@.subrange(
            i + 1,
            b@.len() as int,
        ));
        i = i + 1;
    }
    i >= a.len()
}

/// `slice::swap` exchanges two items.
pub assume_specification<Elem>[ <[Elem]>::swap ](slice: &mut [Elem], a: usize, b: usize)
    requires
        a < old(slice)@.len(),
        b < old(slice)@.len(),
    ensures
        final(slice)@ == old(slice)@.update(a as int, old(slice)@[b as int]).update(
            b as int,
            old(slice)@[a as int],
        ),
;

/// One step of the xorshift64* generator.
pub open spec fn xorshift(s: u64) -> u64 {
    let a = s ^ (s >> 12u64);
    let b = a ^ (a << 25u64);
    b ^ (b >> 27u64)
}

/// `v` with the items from `i` down exchanged with ones drawn by the generator
/// in state `s`.
pub open spec fn shuffled_from<T>(v: Seq<T>, s: u64, i: int) -> Seq<T>
    decreases i,
{
    if i <= 0 || i >= v.len() {
        v
    } else {
        let t = xorshift(s);
        let j = t.wrapping_mul(0x2545F4914F6CDD1D) as int % (i + 1);
        shuffled_from(v.update(i, v[j]).update(j, v[i]), t, i - 1)
    }
}

/// `v` shuffled with a seed.
pub open spec fn shuffled<T>(v: Seq<T>, seed: u64) -> Seq<T> {
    shuffled_from(v, seed | 1, v.len() - 1)
}

/// A shuffle moves items around; it neither adds nor loses any.
pub proof fn shuffle_is_permutation<T>(v: Seq<T>, s: u64, i: int)
    ensures
        shuffled_from(v, s, i).to_multiset() == v.to_multiset(),
        shuffled_from(v, s, i).len() == v.len(),
    decreases i,
{
    if 0 < i && i < v.len() {
        let t = xorshift(s);
        let j = t.wrapping_mul(0x2545F4914F6CDD1D) as int % (i + 1);
        let w = v.update(i, v[j]).update(j, v[i]);
        shuffle_is_permutation(w, t, i - 1);
        lemma_swap_multiset(v, i, j);
    }
}

proof fn lemma_swap_multiset<T>(v: Seq<T>, i: int, j: int)
    requires
        0 <= i < v.len(),
        0 <= j < v.len(),
    ensures
        v.update(i, v[j]).update(j, v[i]).to_multiset() == v.to_multiset(),
{
    broadcast use vstd::seq_lib::group_to_multiset_ensures;

    let a = v.update(i, v[j]);
    vstd::seq_lib::to_multiset_update(v, i, v[j]);
    vstd::seq_lib::to_multiset_update(a, j, v[i]);
    assert(a[j] == v[j]);
    assert(v.to_multiset().contains(v[i]));
    assert(v.to_multiset().insert(v[j]).remove(v[i]).insert(v[i]).remove(v[j])
        =~= v.to_multiset());
}

/// xorshift64*: good enough for queue shuffles, no extra dependency.
pub fn shuffle_in_place<T>(v: &mut Vec<T>, seed: u64)
    ensures
        final(v)@ == shuffled(old(v)@, seed),
        final(v)@.to_multiset() == old(v)@.to_multiset(),
{
    let ghost before = v@;
    let mut s: u64 = seed | 1;
    let n: usize = v.len();
    if n > 1 {
        let mut i: usize = n - 1;
        while i > 0
            invariant
                i < n,
                n == v@.len(),
                shuffled(before, seed) == shuffled_from(v@, s, i as int),
            decreases i,
        {
            let a: u64 = s ^ (s >> 12u64);
            let b: u64 = a ^ (a << 25u64);
            s = b ^ (b >> 27u64);
            let j: usize = (s.wrapping_mul(0x2545F4914F6CDD1D) % (i as u64 + 1)) as usize;
            v.swap(i, j);
            i = i - 1;
        }
    }
    proof {
        shuffle_is_permutation(before, seed | 1, before.len() - 1);
    }
}

/// Texts go by their first difference, and a text before those that it begins.
pub proof fn texts_go_by_the_first_difference(p: Seq<char>, a: Seq<char>, b: Seq<char>)
    ensures
        a.len() > 0 && b.len() > 0 && a[0] < b[0] ==> text_le(p + a, p + b) && !text_le(
            p + b,
            p + a,
        ),
        text_le(p, p + a),
        a.len() > 0 ==> !text_le(p + a, p),
    decreases p.len(),
{
    if p.len() > 0 {
        let q = p.drop_first();
        assert((p + a).drop_first() == q + a);
        assert((p + b).drop_first() == q + b);
        assert((p + a)[0] == p[0] && (p + b)[0] == p[0]);
        texts_go_by_the_first_difference(q, a, b);
    } else {
        assert(p + a == a);
        assert(p + b == b);
    }
}

/// What is not known goes before what is.
pub proof fn the_unknown_goes_first(x: Seq<char>, y: Seq<char>, m: u32, n: u32)
    ensures
        opt_text_le(None, Some(x)) && !opt_text_le(Some(x), None),
        opt_text_le(Some(x), Some(y)) == text_le(x, y),
        opt_num_le(None, Some(n)) && !opt_num_le(Some(n), None),
        opt_num_le(Some(m), Some(n)) <==> m <= n,
{
}

/// In ascending order nothing stands before what goes before it.
pub proof fn ascending_goes_up<T>(s: Seq<T>, leq: spec_fn(T, T) -> bool, i: int, j: int)
    requires
        ascending(s, leq),
        0 <= i < j < s.len(),
    ensures
        leq(s[i], s[j]),
{
}

} // verus!
