use vstd::prelude::*;

verus! {

broadcast use vstd::seq_lib::group_seq_properties;

/// A value that a stable sort orders by an integer key.
pub trait SortKey: Sized {
    /// The key by which values are ordered.
    spec fn sort_key(&self) -> int;

    /// Computes the key.
    fn key(&self) -> (k: u64)
        ensures
            k as int == self.sort_key(),
    ;
}

/// Keys never increase from front to back.
pub open spec fn sorted_desc<T: SortKey>(s: Seq<T>) -> bool {
    forall|i: int, j: int| 0 <= i < j < s.len() ==> #[trigger] s[i].sort_key() >= #[trigger] s[j].sort_key()
}

/// Holds of the values whose key is `k`.
pub open spec fn key_is<T: SortKey>(k: int) -> spec_fn(T) -> bool {
    |x: T| x.sort_key() == k
}

/// The values whose key is `k`, in their order in `s`.
pub open spec fn with_key<T: SortKey>(s: Seq<T>, k: int) -> Seq<T> {
    s.filter(key_is::<T>(k))
}

/// `output` is what a stable sort of `input` by descending key gives: the keys
/// never increase, and the values of each key keep their order from `input`.
pub open spec fn stable_sorted_desc<T: SortKey>(input: Seq<T>, output: Seq<T>) -> bool {
    &&& sorted_desc(output)
    &&& forall|k: int| #[trigger] with_key(output, k) == with_key(input, k)
}

proof fn lemma_filter_all_fail<T>(s: Seq<T>, pred: spec_fn(T) -> bool)
    requires
        forall|i: int| 0 <= i < s.len() ==> !pred(#[trigger] s[i]),
    ensures
        s.filter(pred) == Seq::<T>::empty(),
    decreases s.len(),
{
    reveal(Seq::filter);
    if s.len() > 0 {
        lemma_filter_all_fail(s.drop_last(), pred);
    }
}

proof fn lemma_filter_single<T>(x: T, pred: spec_fn(T) -> bool)
    ensures
        seq![x].filter(pred) == (if pred(x) { seq![x] } else { Seq::<T>::empty() }),
{
    reveal(Seq::filter);
    assert(seq![x].drop_last() =~= Seq::<T>::empty());
    assert(Seq::<T>::empty().filter(pred) == Seq::<T>::empty());
}

/// Inserting `x` where the keys drop below its own key keeps the order of
/// each key's values, with `x` last among its key.
proof fn lemma_insert_keeps_key_order<T: SortKey>(s: Seq<T>, p: int, x: T, k: int)
    requires
        0 <= p <= s.len(),
        forall|i: int| p <= i < s.len() ==> #[trigger] s[i].sort_key() < x.sort_key(),
    ensures
        with_key(s.insert(p, x), k) == if x.sort_key() == k {
            with_key(s, k).push(x)
        } else {
            with_key(s, k)
        },
{
    let pred = key_is::<T>(k);
    let a = s.take(p);
    let b = s.skip(p);
    assert(s == a + b);
    assert(s.insert(p, x) == a + seq![x] + b);
    Seq::filter_distributes_over_add(a + seq![x], b, pred);
    Seq::filter_distributes_over_add(a, seq![x], pred);
    Seq::filter_distributes_over_add(a, b, pred);
    lemma_filter_single(x, pred);
    if x.sort_key() == k {
        assert forall|i: int| 0 <= i < b.len() implies !pred(#[trigger] b[i]) by {
            assert(b[i] == s[p + i]);
        }
        lemma_filter_all_fail(b, pred);
        assert(a.filter(pred) + seq![x] + b.filter(pred) == (a.filter(pred) + b.filter(pred)).push(x));
    } else {
        assert(a.filter(pred) + Seq::<T>::empty() == a.filter(pred));
    }
}

/// Sorts by descending key; values with equal keys keep their order.
pub fn stable_sort_desc<T: SortKey>(items: Vec<T>) -> (res: Vec<T>)
    ensures
        stable_sorted_desc(items@, res@),
        res@.to_multiset() == items@.to_multiset(),
{
    let ghost input = items@;
    let total = items.len();
    assert(input.len() == total);
    let mut rest = items;
    let mut res: Vec<T> = Vec::new();
    let mut n: usize = 0;
    while rest.len() > 0
        invariant
            n + rest@.len() == input.len(),
            input.len() <= usize::MAX,
            rest@ == input.skip(n as int),
            sorted_desc(res@),
            forall|k: int| #[trigger] with_key(res@, k) == with_key(input.take(n as int), k),
            res@.to_multiset() == input.take(n as int).to_multiset(),
        decreases rest@.len(),
    {
        let x = rest.remove(0);
        assert(x == input[n as int]);
        let kx = x.key();
        let mut p: usize = 0;
        while p < res.len() && res[p].key() >= kx
            invariant
                p <= res.len(),
                kx as int == x.sort_key(),
                forall|i: int| 0 <= i < p ==> #[trigger] res@[i].sort_key() >= x.sort_key(),
            decreases res.len() - p,
        {
            p += 1;
        }
        assert forall|i: int| p <= i < res@.len() implies #[trigger] res@[i].sort_key() < x.sort_key() by {
            assert(res@[p as int].sort_key() < x.sort_key());
            if i > p {
                assert(res@[p as int].sort_key() >= res@[i].sort_key());
            }
        }
        let ghost before = res@;
        res.insert(p, x);
        assert(input.take(n + 1) == input.take(n as int).push(x));
        assert forall|k: int| #[trigger] with_key(res@, k) == with_key(input.take(n + 1), k) by {
            lemma_insert_keeps_key_order(before, p as int, x, k);
            input.take(n as int).lemma_filter_push(x, key_is::<T>(k));
        }
        assert forall|i: int, j: int| 0 <= i < j < res@.len() implies #[trigger] res@[i].sort_key() >= #[trigger] res@[j].sort_key() by {
            if j < p {
                assert(res@[i] == before[i] && res@[j] == before[j]);
            } else if j == p {
                assert(res@[i] == before[i]);
            } else if i == p {
                assert(res@[j] == before[j - 1]);
            } else if i < p {
                assert(res@[i] == before[i] && res@[j] == before[j - 1]);
            } else {
                assert(res@[i] == before[i - 1] && res@[j] == before[j - 1]);
            }
        }
        proof {
            vstd::seq_lib::to_multiset_insert(before, p as int, x);
            vstd::seq_lib::to_multiset_build(input.take(n as int), x);
        }
        n += 1;
        assert(rest@ == input.skip(n as int));
    }
    assert(input.take(n as int) == input);
    res
}

} // verus!
