use vstd::prelude::*;

verus! {

/// Lexicographic order on integer triples; the one sort key of this crate.
/// Ranks use `(rank, 0, 0)`, dates use `(year, month, day)`.
pub open spec fn le3(a: (int, int, int), b: (int, int, int)) -> bool {
    ||| a.0 < b.0
    ||| (a.0 == b.0 && a.1 < b.1)
    ||| (a.0 == b.0 && a.1 == b.1 && a.2 <= b.2)
}

pub open spec fn sorted_by<T>(s: Seq<T>, key: spec_fn(T) -> (int, int, int)) -> bool {
    forall|i: int, j: int| 0 <= i <= j < s.len() ==> le3(key(s[i]), key(s[j]))
}

/// The subsequence of `s` whose elements share the key `k`, in order.
pub open spec fn key_class<T>(s: Seq<T>, key: spec_fn(T) -> (int, int, int), k: (int, int, int)) -> Seq<
    T,
> {
    s.filter(|t: T| key(t) == k)
}

/// Inserting `x` right after every element with key at most `key(x)` keeps a
/// sorted sequence sorted and appends `x` to its own key class while leaving
/// every other key class alone. This is the one step of a stable insertion
/// sort.
pub proof fn lemma_stable_insert<T>(
    s: Seq<T>,
    x: T,
    j: int,
    key: spec_fn(T) -> (int, int, int),
)
    requires
        sorted_by(s, key),
        0 <= j <= s.len(),
        forall|i: int| 0 <= i < j ==> le3(key(s[i]), key(x)),
        forall|i: int| j <= i < s.len() ==> !le3(key(s[i]), key(x)),
    ensures
        sorted_by(s.insert(j, x), key),
        s.insert(j, x).len() == s.len() + 1,
        forall|k: (int, int, int)|
            #[trigger] key_class(s.insert(j, x), key, k) == if k == key(x) {
                key_class(s, key, k).push(x)
            } else {
                key_class(s, key, k)
            },
{
    let s2 = s.insert(j, x);
    let pre = s.subrange(0, j);
    let post = s.subrange(j, s.len() as int);
    assert(s2 =~= pre + seq![x] + post);
    assert(s =~= pre + post);
    assert forall|i1: int, i2: int| 0 <= i1 <= i2 < s2.len() implies le3(key(s2[i1]), key(s2[i2])) by {
        if i1 < j && i2 == j {
            assert(le3(key(s[i1]), key(x)));
        } else if i1 == j && i2 > j {
            assert(!le3(key(s[i2 - 1]), key(x)));
        }
    }
    assert forall|k: (int, int, int)|
        #[trigger] key_class(s2, key, k) == if k == key(x) {
            key_class(s, key, k).push(x)
        } else {
            key_class(s, key, k)
        } by {
        let pred = |t: T| key(t) == k;
        Seq::filter_distributes_over_add(pre + seq![x], post, pred);
        Seq::filter_distributes_over_add(pre, seq![x], pred);
        Seq::filter_distributes_over_add(pre, post, pred);
        reveal_with_fuel(Seq::filter, 2);
        assert(seq![x].drop_last() =~= Seq::<T>::empty());
        if k == key(x) {
            assert(seq![x].filter(pred) =~= seq![x]);
            assert forall|i: int| 0 <= i < post.len() implies !pred(post[i]) by {
                assert(!le3(key(s[j + i]), key(x)));
            }
            post.lemma_all_neg_filter_empty(pred);
            assert(key_class(s2, key, k) =~= key_class(s, key, k).push(x));
        } else {
            assert(seq![x].filter(pred) =~= Seq::<T>::empty());
            assert(key_class(s2, key, k) =~= key_class(s, key, k));
        }
    }
}

/// Appending `x` appends it to its own key class and leaves every other key
/// class alone.
pub proof fn lemma_class_push<T>(s: Seq<T>, x: T, key: spec_fn(T) -> (int, int, int))
    ensures
        forall|k: (int, int, int)|
            #[trigger] key_class(s.push(x), key, k) == if k == key(x) {
                key_class(s, key, k).push(x)
            } else {
                key_class(s, key, k)
            },
{
    assert forall|k: (int, int, int)|
        #[trigger] key_class(s.push(x), key, k) == if k == key(x) {
            key_class(s, key, k).push(x)
        } else {
            key_class(s, key, k)
        } by {
        s.lemma_filter_push(x, |t: T| key(t) == k);
    }
}

/// A sequence sorted by key in which every key class is the key class of
/// `orig`: exactly what a stable sort of `orig` leaves behind.
pub open spec fn is_stable_sort_of<T>(
    s: Seq<T>,
    orig: Seq<T>,
    key: spec_fn(T) -> (int, int, int),
) -> bool {
    &&& sorted_by(s, key)
    &&& s.len() == orig.len()
    &&& forall|k: (int, int, int)|
        #[trigger] key_class(s, key, k) == key_class(orig, key, k)
}

} // verus!
