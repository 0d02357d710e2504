//! Orders used for sorting: lexicographic order on text (the order of Rust
//! strings), and a generic verified insertion sort.
use vstd::prelude::*;
use vstd::string::*;
use vstd::relations::{total_ordering, sorted_by};
use vstd::multiset::Multiset;

verus! {

broadcast use vstd::seq_lib::group_to_multiset_ensures;

/// Lexicographic order on character sequences by code point (the order of
/// Rust strings).
pub open spec fn lex_le(a: Seq<char>, b: Seq<char>) -> bool
    decreases a.len(),
{
    if a.len() == 0 {
        true
    } else if b.len() == 0 {
        false
    } else if a[0] != b[0] {
        (a[0] as int) < (b[0] as int)
    } else {
        lex_le(a.drop_first(), b.drop_first())
    }
}

pub proof fn lemma_lex_refl(a: Seq<char>)
    ensures
        lex_le(a, a),
    decreases a.len(),
{
    if a.len() > 0 {
        lemma_lex_refl(a.drop_first());
    }
}

pub proof fn lemma_lex_antisym(a: Seq<char>, b: Seq<char>)
    requires
        lex_le(a, b),
        lex_le(b, a),
    ensures
        a == b,
    decreases a.len(),
{
    if a.len() > 0 && b.len() > 0 {
        if a[0] == b[0] {
            lemma_lex_antisym(a.drop_first(), b.drop_first());
            assert(a =~= seq![a[0]] + a.drop_first());
            assert(b =~= seq![b[0]] + b.drop_first());
        } else {
            assert((a[0] as int) != (b[0] as int));
        }
    } else {
        assert(a =~= b);
    }
}

pub proof fn lemma_lex_trans(a: Seq<char>, b: Seq<char>, c: Seq<char>)
    requires
        lex_le(a, b),
        lex_le(b, c),
    ensures
        lex_le(a, c),
    decreases a.len(),
{
    if a.len() > 0 && b.len() > 0 && c.len() > 0 {
        if a[0] == b[0] && b[0] == c[0] {
            lemma_lex_trans(a.drop_first(), b.drop_first(), c.drop_first());
        } else if a[0] == c[0] {
            assert((a[0] as int) != (b[0] as int) || (b[0] as int) != (c[0] as int));
        }
    }
}

pub proof fn lemma_lex_total(a: Seq<char>, b: Seq<char>)
    ensures
        lex_le(a, b) || lex_le(b, a),
    decreases a.len(),
{
    if a.len() > 0 && b.len() > 0 {
        if a[0] == b[0] {
            lemma_lex_total(a.drop_first(), b.drop_first());
        } else {
            assert((a[0] as int) != (b[0] as int));
        }
    }
}

/// Lexicographic comparison of two strings (`a <= b` as Rust orders them).
pub fn str_lex_le(a: &str, b: &str) -> (r: bool)
    ensures
        r == lex_le(a@, b@),
{
    let n = a.unicode_len();
    let m = b.unicode_len();
    let mut i: usize = 0;
    assert(a@.skip(0) =~= a@);
    assert(b@.skip(0) =~= b@);
    while i < n && i < m
        invariant
            n == a@.len(),
            m == b@.len(),
            i <= n,
            i <= m,
            a@.subrange(0, i as int) == b@.subrange(0, i as int),
            lex_le(a@, b@) == lex_le(a@.skip(i as int), b@.skip(i as int)),
        decreases n - i,
    {
        let x = a.get_char(i);
        let y = b.get_char(i);
        if x != y {
            proof {
                assert(a@.skip(i as int)[0] == x);
                assert(b@.skip(i as int)[0] == y);
            }
            let r = (x as u32) < (y as u32);
            assert(r == ((x as int) < (y as int)));
            return r;
        }
        proof {
            assert(a@.skip(i as int).drop_first() =~= a@.skip(i as int + 1));
            assert(b@.skip(i as int).drop_first() =~= b@.skip(i as int + 1));
            assert(a@.subrange(0, i as int + 1) =~= a@.subrange(0, i as int).push(x));
            assert(b@.subrange(0, i as int + 1) =~= b@.subrange(0, i as int).push(y));
        }
        i = i + 1;
    }
    proof {
        if i == n {
            assert(a@.skip(i as int).len() == 0);
        } else {
            assert(b@.skip(i as int).len() == 0);
        }
    }
    i == n
}

pub open spec fn views<T: View>(s: Seq<T>) -> Seq<T::V> {
    s.map_values(|x: T| x@)
}

proof fn lemma_insert_multiset<A>(s: Seq<A>, p: int, x: A)
    requires
        0 <= p <= s.len(),
    ensures
        s.insert(p, x).to_multiset() =~= s.to_multiset().insert(x),
{
    let a = s.take(p);
    let b = s.skip(p);
    assert(s =~= a + b);
    assert(s.insert(p, x) =~= a.push(x) + b);
    vstd::seq_lib::lemma_multiset_commutative(a, b);
    vstd::seq_lib::lemma_multiset_commutative(a.push(x), b);
}

/// Sort `v` by a total order on the items' models. The result is the
/// sorted arrangement that `Seq::sort_by` describes.
pub fn insertion_sort<T: View, F: Fn(&T, &T) -> bool>(v: Vec<T>, leq: Ghost<spec_fn(T::V, T::V) -> bool>, le_fn: F) -> (r: Vec<T>)
    requires
        total_ordering(leq@),
        forall|a: &T, b: &T| #[trigger] le_fn.requires((a, b)),
        forall|a: &T, b: &T, res: bool| le_fn.ensures((a, b), res) ==> res == leq@(a@, b@),
    ensures
        views(r@) == views(v@).sort_by(leq@),
{
    let ghost lq = leq@;
    let ghost all = views(v@);
    let mut rest = v;
    let mut out: Vec<T> = Vec::new();
    let n = rest.len();
    let mut t: usize = 0;
    while t < n
        invariant
            lq == leq@,
            total_ordering(lq),
            forall|a: &T, b: &T| #[trigger] le_fn.requires((a, b)),
            forall|a: &T, b: &T, res: bool| le_fn.ensures((a, b), res) ==> res == lq(a@, b@),
            n == all.len(),
            t <= n,
            rest@.len() == n - t,
            forall|k: int| 0 <= k < rest@.len() ==> #[trigger] rest@[k]@ == all[t + k],
            sorted_by(views(out@), lq),
            views(out@).to_multiset() == all.take(t as int).to_multiset(),
        decreases n - t,
    {
        let ghost rv = views(rest@);
        let x = rest.remove(0);
        proof { assert(x@ == rv[0]); }
        let ghost xv = x@;
        let mut p: usize = 0;
        while p < out.len() && le_fn(&out[p], &x)
            invariant
                lq == leq@,
                forall|a: &T, b: &T| #[trigger] le_fn.requires((a, b)),
                forall|a: &T, b: &T, res: bool| le_fn.ensures((a, b), res) ==> res == lq(a@, b@),
                p <= out@.len(),
                xv == x@,
                forall|k: int| 0 <= k < p ==> #[trigger] lq(out@[k]@, xv),
            decreases out@.len() - p,
        {
            p = p + 1;
        }
        let ghost before = views(out@);
        proof {
            assert forall|k: int| p <= k < before.len() implies #[trigger] lq(xv, before[k]) by {
                if !lq(xv, before[k]) {
                    assert(lq(before[k], xv) || lq(xv, before[k]));
                    assert(lq(before[p as int], before[k]));
                    if p < out@.len() {
                        assert(!lq(out@[p as int]@, xv));
                    }
                }
            }
        }
        out.insert(p, x);
        proof {
            assert(views(out@) =~= before.insert(p as int, xv));
            assert forall|i: int, j: int| 0 <= i < j < views(out@).len() implies #[trigger] lq(views(out@)[i], views(out@)[j]) by {
                let o = views(out@);
                if j < p {
                    assert(o[i] == before[i] && o[j] == before[j]);
                } else if j == p {
                    assert(o[i] == before[i]);
                } else if i == p {
                    assert(o[j] == before[j - 1]);
                } else if i < p {
                    assert(o[i] == before[i] && o[j] == before[j - 1]);
                    assert(lq(before[i], xv));
                    assert(lq(xv, before[j - 1]));
                } else {
                    assert(o[i] == before[i - 1] && o[j] == before[j - 1]);
                }
            }
            lemma_insert_multiset(before, p as int, xv);
            assert(all.take(t as int + 1) =~= all.take(t as int).push(xv));
            assert forall|k: int| 0 <= k < rest@.len() implies #[trigger] rest@[k]@ == all[t + 1 + k] by {
                assert(rest@[k]@ == rv[k + 1]);
            }
        }
        t = t + 1;
    }
    proof {
        assert(all.take(n as int) =~= all);
        all.lemma_sort_by_ensures(lq);
        vstd::seq_lib::lemma_sorted_unique(views(out@), all.sort_by(lq), lq);
    }
    out
}

} // verus!
