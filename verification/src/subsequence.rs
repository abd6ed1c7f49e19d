use vstd::prelude::*;

verus! {

/// `a` is `b` with some elements left out (order kept).
pub open spec fn is_subsequence<T>(a: Seq<T>, b: Seq<T>) -> bool
    decreases b.len(),
{
    if a.len() == 0 {
        true
    } else if b.len() == 0 {
        false
    } else if a[0] == b[0] {
        is_subsequence(a.drop_first(), b.drop_first())
    } else {
        is_subsequence(a, b.drop_first())
    }
}

/// Leaving out the first element keeps a subsequence.
pub proof fn lemma_subsequence_drop_first<T>(a: Seq<T>, b: Seq<T>)
    requires
        a.len() > 0,
        is_subsequence(a, b),
    ensures
        is_subsequence(a.drop_first(), b),
    decreases b.len(), a.len(),
{
    if b.len() > 0 {
        if a[0] == b[0] {
            lemma_subsequence_of_tail(a.drop_first(), b);
        } else {
            lemma_subsequence_drop_first(a, b.drop_first());
            lemma_subsequence_of_tail(a.drop_first(), b);
        }
    }
}

/// A subsequence of the tail of `b` is a subsequence of `b`.
pub proof fn lemma_subsequence_of_tail<T>(a: Seq<T>, b: Seq<T>)
    requires
        b.len() > 0,
        is_subsequence(a, b.drop_first()),
    ensures
        is_subsequence(a, b),
    decreases b.len(), a.len(),
{
    if a.len() > 0 && a[0] == b[0] {
        lemma_subsequence_drop_first(a, b.drop_first());
    }
}

/// Every sequence is a subsequence of itself.
pub proof fn lemma_subsequence_reflexive<T>(a: Seq<T>)
    ensures
        is_subsequence(a, a),
    decreases a.len(),
{
    if a.len() > 0 {
        lemma_subsequence_reflexive(a.drop_first());
    }
}

/// A subsequence of a subsequence is a subsequence.
pub proof fn lemma_subsequence_transitive<T>(a: Seq<T>, b: Seq<T>, c: Seq<T>)
    requires
        is_subsequence(a, b),
        is_subsequence(b, c),
    ensures
        is_subsequence(a, c),
    decreases c.len(),
{
    if a.len() == 0 {
    } else if b.len() == 0 {
    } else if c.len() == 0 {
    } else if b[0] == c[0] {
        if a[0] == b[0] {
            lemma_subsequence_transitive(a.drop_first(), b.drop_first(), c.drop_first());
        } else {
            lemma_subsequence_transitive(a, b.drop_first(), c.drop_first());
            lemma_subsequence_of_tail(a, c);
        }
    } else {
        lemma_subsequence_transitive(a, b, c.drop_first());
        lemma_subsequence_of_tail(a, c);
    }
}

/// A subsequence is no longer than the sequence, and as long only when
/// equal to it.
pub proof fn lemma_subsequence_len<T>(a: Seq<T>, b: Seq<T>)
    requires
        is_subsequence(a, b),
    ensures
        a.len() <= b.len(),
        a.len() == b.len() ==> a == b,
    decreases b.len(),
{
    if a.len() == 0 {
        if b.len() == 0 {
            assert(a =~= b);
        }
    } else if b.len() > 0 {
        if a[0] == b[0] {
            lemma_subsequence_len(a.drop_first(), b.drop_first());
            if a.len() == b.len() {
                assert(a =~= seq![a[0]] + a.drop_first());
                assert(b =~= seq![b[0]] + b.drop_first());
            }
        } else {
            lemma_subsequence_len(a, b.drop_first());
        }
    }
}

/// Every element of a subsequence is an element of the sequence.
pub proof fn lemma_subsequence_elements<T>(a: Seq<T>, b: Seq<T>)
    requires
        is_subsequence(a, b),
    ensures
        forall|i: int| 0 <= i < a.len() ==> b.contains(#[trigger] a[i]),
    decreases b.len(),
{
    if a.len() > 0 && b.len() > 0 {
        if a[0] == b[0] {
            lemma_subsequence_elements(a.drop_first(), b.drop_first());
            assert forall|i: int| 0 <= i < a.len() implies b.contains(#[trigger] a[i]) by {
                if i == 0 {
                    assert(b[0] == a[0]);
                } else {
                    assert(a[i] == a.drop_first()[i - 1]);
                    let k = choose|k: int| 0 <= k < b.drop_first().len() && b.drop_first()[k] == a[i];
                    assert(b[k + 1] == a[i]);
                }
            }
        } else {
            lemma_subsequence_elements(a, b.drop_first());
            assert forall|i: int| 0 <= i < a.len() implies b.contains(#[trigger] a[i]) by {
                let k = choose|k: int| 0 <= k < b.drop_first().len() && b.drop_first()[k] == a[i];
                assert(b[k + 1] == a[i]);
            }
        }
    }
}

} // verus!
