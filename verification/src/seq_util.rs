use vstd::prelude::*;

verus! {

/// `a` is what is left of `b` after taking some of its items out: the same
/// items, in the same order.
pub open spec fn is_subsequence<T>(a: Seq<T>, b: Seq<T>) -> bool
    decreases b.len(),
{
    if a.len() == 0 {
        true
    } else if b.len() == 0 {
        false
    } else {
        (a[0] == b[0] && is_subsequence(a.drop_first(), b.drop_first())) || is_subsequence(
            a,
            b.drop_first(),
        )
    }
}

/// The items of `s` whose position is marked in `mask`, in the same order.
pub open spec fn keep<T>(s: Seq<T>, mask: Seq<bool>) -> Seq<T>
    decreases s.len(),
{
    if s.len() == 0 || mask.len() == 0 {
        Seq::empty()
    } else if mask[0] {
        seq![s[0]] + keep(s.drop_first(), mask.drop_first())
    } else {
        keep(s.drop_first(), mask.drop_first())
    }
}

/// Every sequence is a subsequence of itself.
pub proof fn lemma_subsequence_refl<T>(a: Seq<T>)
    ensures
        is_subsequence(a, a),
    decreases a.len(),
{
    if a.len() > 0 {
        lemma_subsequence_refl(a.drop_first());
    }
}

/// A subsequence of the tail is a subsequence of the whole.
pub proof fn lemma_subsequence_of_tail<T>(a: Seq<T>, b: Seq<T>)
    requires
        b.len() > 0,
        is_subsequence(a, b.drop_first()),
    ensures
        is_subsequence(a, b),
{
}

/// Taking one more item out keeps a subsequence a subsequence.
pub proof fn lemma_subsequence_remove<T>(a: Seq<T>, b: Seq<T>, i: int)
    requires
        is_subsequence(a, b),
        0 <= i < a.len(),
    ensures
        is_subsequence(a.remove(i), b),
    decreases b.len(),
{
    if a[0] == b[0] && is_subsequence(a.drop_first(), b.drop_first()) {
        if i == 0 {
            assert(a.remove(0) =~= a.drop_first());
            lemma_subsequence_of_tail(a.remove(i), b);
        } else {
            lemma_subsequence_remove(a.drop_first(), b.drop_first(), i - 1);
            assert(a.remove(i).drop_first() =~= a.drop_first().remove(i - 1));
            assert(a.remove(i)[0] == a[0]);
        }
    } else {
        lemma_subsequence_remove(a, b.drop_first(), i);
        lemma_subsequence_of_tail(a.remove(i), b);
    }
}

/// What a mask keeps is a subsequence.
pub proof fn lemma_keep_is_subsequence<T>(s: Seq<T>, mask: Seq<bool>)
    ensures
        is_subsequence(keep(s, mask), s),
    decreases s.len(),
{
    if s.len() == 0 || mask.len() == 0 {
    } else {
        lemma_keep_is_subsequence(s.drop_first(), mask.drop_first());
        if mask[0] {
            assert(keep(s, mask).drop_first() =~= keep(s.drop_first(), mask.drop_first()));
        } else {
            lemma_subsequence_of_tail(keep(s, mask), s);
        }
    }
}

/// A mask keeps something exactly when it marks some position.
pub proof fn lemma_keep_nonempty<T>(s: Seq<T>, mask: Seq<bool>)
    requires
        s.len() == mask.len(),
    ensures
        keep(s, mask).len() > 0 <==> exists|i: int| 0 <= i < mask.len() && mask[i],
        keep(s, mask).len() <= s.len(),
    decreases s.len(),
{
    if s.len() == 0 {
    } else {
        lemma_keep_nonempty(s.drop_first(), mask.drop_first());
        if mask[0] {
        } else {
            if keep(s, mask).len() > 0 {
                let j = choose|j: int| 0 <= j < mask.drop_first().len() && mask.drop_first()[j];
                assert(mask[j + 1]);
            }
            if exists|i: int| 0 <= i < mask.len() && mask[i] {
                let i = choose|i: int| 0 <= i < mask.len() && mask[i];
                assert(mask.drop_first()[i - 1]);
            }
        }
    }
}

/// A subsequence of a subsequence is a subsequence.
pub proof fn lemma_subsequence_trans<T>(a: Seq<T>, b: Seq<T>, c: Seq<T>)
    requires
        is_subsequence(a, b),
        is_subsequence(b, c),
    ensures
        is_subsequence(a, c),
    decreases c.len(), b.len(),
{
    if a.len() == 0 {
    } else if b[0] == c[0] && is_subsequence(b.drop_first(), c.drop_first()) {
        if a[0] == b[0] && is_subsequence(a.drop_first(), b.drop_first()) {
            lemma_subsequence_trans(a.drop_first(), b.drop_first(), c.drop_first());
        } else {
            lemma_subsequence_trans(a, b.drop_first(), c.drop_first());
            lemma_subsequence_of_tail(a, c);
        }
    } else {
        lemma_subsequence_trans(a, b, c.drop_first());
        lemma_subsequence_of_tail(a, c);
    }
}

/// Number of positions that a mask marks.
pub open spec fn marked(mask: Seq<bool>) -> nat
    decreases mask.len(),
{
    if mask.len() == 0 {
        0
    } else if mask[0] {
        1 + marked(mask.drop_first())
    } else {
        marked(mask.drop_first())
    }
}

/// A mask keeps one item for each position that it marks.
pub proof fn lemma_keep_marked<T>(s: Seq<T>, mask: Seq<bool>)
    requires
        s.len() == mask.len(),
    ensures
        keep(s, mask).len() == marked(mask),
    decreases s.len(),
{
    if s.len() > 0 {
        lemma_keep_marked(s.drop_first(), mask.drop_first());
    }
}

} // verus!
