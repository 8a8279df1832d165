//! A stable sort by a key made of a small rank and a text, the order in which
//! browser lists are shown.
use vstd::prelude::*;
use crate::text::{lex_lt, lex_lt_exec};

verus! {

/// The key of one element: first a rank, then a text compared by code point.
pub struct SortKey {
    pub rank: u8,
    pub text: Vec<char>,
}

/// The mathematical value of a key.
pub open spec fn key_view(k: SortKey) -> (u8, Seq<char>) {
    (k.rank, k.text@)
}

/// Strict order on keys: by rank, then by text.
pub open spec fn key_lt(a: (u8, Seq<char>), b: (u8, Seq<char>)) -> bool {
    a.0 < b.0 || (a.0 == b.0 && lex_lt(a.1, b.1))
}

/// `s` is in ascending key order.
pub open spec fn sorted_by<T>(s: Seq<T>, kf: spec_fn(T) -> (u8, Seq<char>)) -> bool {
    forall|i: int, j: int| 0 <= i < j < s.len() ==> !key_lt(kf(s[j]), kf(s[i]))
}

/// The elements whose key is `k`.
pub open spec fn key_class<T>(kf: spec_fn(T) -> (u8, Seq<char>), k: (u8, Seq<char>)) -> spec_fn(
    T,
) -> bool {
    |x: T| kf(x) == k
}

/// For every key, the elements with that key come in the same order in `a`
/// as in `b`: together with `sorted_by`, this says that `a` is the stable
/// sort of `b`.
pub open spec fn same_order_per_key<T>(
    a: Seq<T>,
    b: Seq<T>,
    kf: spec_fn(T) -> (u8, Seq<char>),
) -> bool {
    forall|k: (u8, Seq<char>)| #[trigger] a.filter(key_class(kf, k)) == b.filter(key_class(kf, k))
}

pub proof fn lemma_lex_irreflexive(a: Seq<char>)
    ensures
        !lex_lt(a, a),
    decreases a.len(),
{
    if a.len() > 0 {
        lemma_lex_irreflexive(a.drop_first());
    }
}

pub proof fn lemma_lex_asymmetric(a: Seq<char>, b: Seq<char>)
    requires
        lex_lt(a, b),
    ensures
        !lex_lt(b, a),
    decreases a.len(),
{
    if a.len() > 0 && b.len() > 0 && (a[0] as int) == (b[0] as int) {
        lemma_lex_asymmetric(a.drop_first(), b.drop_first());
    }
}

pub proof fn lemma_lex_transitive(a: Seq<char>, b: Seq<char>, c: Seq<char>)
    requires
        lex_lt(a, b),
        lex_lt(b, c),
    ensures
        lex_lt(a, c),
    decreases a.len(),
{
    if a.len() > 0 && b.len() > 0 && c.len() > 0 && (a[0] as int) == (b[0] as int) && (b[0] as int)
        == (c[0] as int) {
        lemma_lex_transitive(a.drop_first(), b.drop_first(), c.drop_first());
    }
}

pub proof fn lemma_lex_total(a: Seq<char>, b: Seq<char>)
    requires
        !lex_lt(a, b),
        !lex_lt(b, a),
    ensures
        a == b,
    decreases a.len(),
{
    if a.len() > 0 && b.len() > 0 {
        lemma_lex_total(a.drop_first(), b.drop_first());
        assert(a[0] == b[0]);
        assert(a =~= seq![a[0]] + a.drop_first());
        assert(b =~= seq![b[0]] + b.drop_first());
    } else {
        assert(a =~= b);
    }
}

pub proof fn lemma_key_facts(a: (u8, Seq<char>), b: (u8, Seq<char>), c: (u8, Seq<char>))
    ensures
        !key_lt(a, a),
        key_lt(a, b) ==> !key_lt(b, a),
        key_lt(a, b) && key_lt(b, c) ==> key_lt(a, c),
        !key_lt(a, b) && !key_lt(b, a) ==> a == b,
{
    lemma_lex_irreflexive(a.1);
    if key_lt(a, b) && a.0 == b.0 {
        lemma_lex_asymmetric(a.1, b.1);
    }
    if key_lt(a, b) && key_lt(b, c) && a.0 == b.0 && b.0 == c.0 {
        lemma_lex_transitive(a.1, b.1, c.1);
    }
    if !key_lt(a, b) && !key_lt(b, a) {
        lemma_lex_total(a.1, b.1);
    }
}

/// Whether key `a` comes strictly before key `b`.
pub fn sort_key_lt(a: &SortKey, b: &SortKey) -> (r: bool)
    ensures
        r == key_lt(key_view(*a), key_view(*b)),
{
    if a.rank < b.rank {
        true
    } else if a.rank > b.rank {
        false
    } else {
        lex_lt_exec(&a.text, &b.text)
    }
}

proof fn lemma_filter_single<T>(x: T, pred: spec_fn(T) -> bool)
    ensures
        seq![x].filter(pred) == if pred(x) {
            seq![x]
        } else {
            Seq::<T>::empty()
        },
{
    reveal(Seq::filter);
    assert(seq![x].drop_last() =~= Seq::<T>::empty());
    assert(Seq::<T>::empty().filter(pred) =~= Seq::<T>::empty());
}

proof fn lemma_insert_keeps_order<T>(
    s: Seq<T>,
    x: T,
    p: int,
    kf: spec_fn(T) -> (u8, Seq<char>),
)
    requires
        sorted_by(s, kf),
        0 <= p <= s.len(),
        forall|j: int| 0 <= j < p ==> !key_lt(kf(x), kf(s[j])),
        p < s.len() ==> key_lt(kf(x), kf(s[p])),
    ensures
        sorted_by(s.insert(p, x), kf),
        forall|j: int| p <= j < s.len() ==> key_lt(kf(x), kf(s[j])),
        forall|k: (u8, Seq<char>)|
            #[trigger] s.insert(p, x).filter(key_class(kf, k)) == if kf(x) == k {
                s.filter(key_class(kf, k)).push(x)
            } else {
                s.filter(key_class(kf, k))
            },
{
    assert forall|j: int| p <= j < s.len() implies key_lt(kf(x), kf(s[j])) by {
        if j > p {
            lemma_key_facts(kf(x), kf(s[p]), kf(s[j]));
            lemma_key_facts(kf(s[p]), kf(s[j]), kf(x));
        }
    }
    let t = s.insert(p, x);
    assert forall|i: int, j: int| 0 <= i < j < t.len() implies !key_lt(kf(t[j]), kf(t[i])) by {
        if i < p && j == p {
            lemma_key_facts(kf(x), kf(s[i]), kf(x));
        } else if i == p {
            lemma_key_facts(kf(x), kf(s[j - 1]), kf(x));
        } else if i < p && j > p {
            assert(t[j] == s[j - 1]);
        } else if i > p {
            assert(t[i] == s[i - 1]);
            assert(t[j] == s[j - 1]);
        }
    }
    assert(t =~= s.take(p) + seq![x] + s.skip(p));
    assert(s =~= s.take(p) + s.skip(p));
    assert forall|k: (u8, Seq<char>)|
        #[trigger] t.filter(key_class(kf, k)) == if kf(x) == k {
            s.filter(key_class(kf, k)).push(x)
        } else {
            s.filter(key_class(kf, k))
        } by {
        let pred = key_class(kf, k);
        Seq::filter_distributes_over_add(s.take(p) + seq![x], s.skip(p), pred);
        Seq::filter_distributes_over_add(s.take(p), seq![x], pred);
        Seq::filter_distributes_over_add(s.take(p), s.skip(p), pred);
        lemma_filter_single(x, pred);
        if kf(x) == k {
            assert forall|j: int| 0 <= j < s.skip(p).len() implies !pred(s.skip(p)[j]) by {
                assert(s.skip(p)[j] == s[p + j]);
                lemma_key_facts(kf(x), kf(s[p + j]), kf(x));
            }
            assert(s.skip(p).all(|y: T| !pred(y)));
            s.skip(p).lemma_all_neg_filter_empty(pred);
            assert(s.skip(p).filter(pred) =~= Seq::<T>::empty());
            assert(s.take(p).filter(pred) + seq![x] =~= (s.take(p).filter(pred) + Seq::<
                T,
            >::empty()).push(x));
            assert(s.take(p).filter(pred) + Seq::<T>::empty() =~= s.take(p).filter(pred));
        } else {
            assert(s.take(p).filter(pred) + Seq::<T>::empty() =~= s.take(p).filter(pred));
        }
    }
}

/// The elements of `items` in ascending key order, elements with equal keys
/// in the order they had (a stable sort). `keys[i]` is the key of `items[i]`.
pub fn stable_sort<T>(
    items: Vec<T>,
    keys: Vec<SortKey>,
    Ghost(kf): Ghost<spec_fn(T) -> (u8, Seq<char>)>,
) -> (r: Vec<T>)
    requires
        items.len() == keys.len(),
        forall|i: int| 0 <= i < items.len() ==> kf(items@[i]) == key_view(keys@[i]),
    ensures
        r.len() == items.len(),
        sorted_by(r@, kf),
        same_order_per_key(r@, items@, kf),
{
    let ghost orig = items@;
    let mut items = items;
    let mut keys = keys;
    let mut out: Vec<T> = Vec::new();
    let mut out_keys: Vec<SortKey> = Vec::new();
    let ghost mut i: int = 0;
    assert(orig.skip(0) =~= orig);
    assert forall|k: (u8, Seq<char>)|
        #[trigger] out@.filter(key_class(kf, k)) == orig.take(0).filter(key_class(kf, k)) by {
        reveal(Seq::filter);
        assert(orig.take(0) =~= out@);
    }
    while items.len() > 0
        invariant
            0 <= i <= orig.len(),
            items@ == orig.skip(i),
            items.len() == keys.len(),
            forall|j: int| 0 <= j < items.len() ==> kf(items@[j]) == key_view(keys@[j]),
            out.len() == out_keys.len(),
            out.len() == i,
            forall|j: int| 0 <= j < out.len() ==> kf(out@[j]) == key_view(out_keys@[j]),
            sorted_by(out@, kf),
            forall|k: (u8, Seq<char>)|
                #[trigger] out@.filter(key_class(kf, k)) == orig.take(i).filter(key_class(kf, k)),
        decreases items.len(),
    {
        let ghost x_key = kf(items@[0]);
        assert(x_key == key_view(keys@[0]));
        let x = items.remove(0);
        let kx = keys.remove(0);
        assert(x == orig[i]);
        assert(kf(x) == key_view(kx));
        let mut p: usize = 0;
        while p < out_keys.len()
            invariant
                p <= out_keys.len(),
                forall|j: int| 0 <= j < p ==> !key_lt(key_view(kx), key_view(out_keys@[j])),
            ensures
                p <= out_keys.len(),
                forall|j: int| 0 <= j < p ==> !key_lt(key_view(kx), key_view(out_keys@[j])),
                p < out_keys.len() ==> key_lt(key_view(kx), key_view(out_keys@[p as int])),
            decreases out_keys.len() - p,
        {
            if sort_key_lt(&kx, &out_keys[p]) {
                break;
            }
            p = p + 1;
        }
        proof {
            assert forall|j: int| 0 <= j < p implies !key_lt(kf(x), kf(out@[j])) by {
                assert(kf(out@[j]) == key_view(out_keys@[j]));
            }
            if p < out.len() {
                assert(kf(out@[p as int]) == key_view(out_keys@[p as int]));
            }
            lemma_insert_keeps_order(out@, x, p as int, kf);
        }
        let ghost old_out = out@;
        let ghost old_keys = out_keys@;
        out.insert(p, x);
        out_keys.insert(p, kx);
        proof {
            assert forall|j: int| 0 <= j < out.len() implies kf(out@[j]) == key_view(
                out_keys@[j],
            ) by {
                if j < p {
                    assert(out@[j] == old_out[j]);
                } else if j > p {
                    assert(out@[j] == old_out[j - 1]);
                    assert(out_keys@[j] == old_keys[j - 1]);
                }
            }
            assert(orig.take(i + 1) =~= orig.take(i).push(x));
            assert forall|k: (u8, Seq<char>)|
                #[trigger] out@.filter(key_class(kf, k)) == orig.take(i + 1).filter(
                    key_class(kf, k),
                ) by {
                orig.take(i).lemma_filter_push(x, key_class(kf, k));
            }
            assert(items@ =~= orig.skip(i + 1));
            i = i + 1;
        }
    }
    assert(orig.take(i) =~= orig);
    out
}

/// A stable sort of values is a stable sort of their views, for a key that
/// depends on the view alone.
pub proof fn lemma_stable_sort_view<S: View>(
    r: Seq<S>,
    input: Seq<S>,
    kf: spec_fn(S) -> (u8, Seq<char>),
    vkf: spec_fn(S::V) -> (u8, Seq<char>),
)
    requires
        forall|x: S| #[trigger] kf(x) == vkf(x.view()),
        sorted_by(r, kf),
        same_order_per_key(r, input, kf),
    ensures
        sorted_by(r.map_values(|x: S| x.view()), vkf),
        same_order_per_key(r.map_values(|x: S| x.view()), input.map_values(|x: S| x.view()), vkf),
{
    let rv = r.map_values(|x: S| x.view());
    assert forall|i: int, j: int| 0 <= i < j < rv.len() implies !key_lt(vkf(rv[j]), vkf(rv[i])) by {
        assert(kf(r[i]) == vkf(rv[i]));
        assert(kf(r[j]) == vkf(rv[j]));
    }
    assert forall|k: (u8, Seq<char>)|
        #[trigger] rv.filter(key_class(vkf, k)) == input.map_values(|x: S| x.view()).filter(
            key_class(vkf, k),
        ) by {
        assert forall|x: S| key_class(kf, k)(x) <==> key_class(vkf, k)(x.view()) by {
            assert(kf(x) == vkf(x.view()));
        }
        vstd::seq_lib::lemma_filter_view_commute(r, key_class(kf, k), key_class(vkf, k));
        vstd::seq_lib::lemma_filter_view_commute(input, key_class(kf, k), key_class(vkf, k));
        assert(r.filter(key_class(kf, k)) == input.filter(key_class(kf, k)));
    }
}

/// Two lists with the same elements per key hold the same elements.
pub proof fn lemma_same_order_contains<T>(
    a: Seq<T>,
    b: Seq<T>,
    kf: spec_fn(T) -> (u8, Seq<char>),
    x: T,
)
    requires
        same_order_per_key(a, b, kf),
        b.contains(x),
    ensures
        a.contains(x),
{
    let class = key_class(kf, kf(x));
    let j = choose|j: int| 0 <= j < b.len() && b[j] == x;
    b.lemma_filter_contains(class, j);
    assert(a.filter(class) == b.filter(class));
    a.lemma_filter_contains_rev(class, x);
}

} // verus!
