use vstd::prelude::*;

verus! {

/// A type whose values can be put in rank order: `precedes` says that one
/// value goes strictly before another. Equal-ranked values keep the order
/// they came in (a stable sort).
pub trait Ranked: Sized {
    spec fn precedes(self, other: Self) -> bool;

    /// Nothing precedes a value that it precedes.
    proof fn lemma_precedes_asymmetric(a: Self, b: Self)
        requires
            a.precedes(b),
        ensures
            !b.precedes(a),
    ;

    /// "Does not precede" is transitive.
    proof fn lemma_not_precedes_transitive(a: Self, b: Self, c: Self)
        requires
            !a.precedes(b),
            !b.precedes(c),
        ensures
            !a.precedes(c),
    ;

    fn goes_before(&self, other: &Self) -> (r: bool)
        ensures
            r == self.precedes(*other),
    ;
}

/// `x` inserted into `s` after every element that it does not precede.
pub open spec fn insert_ranked<T: Ranked>(s: Seq<T>, x: T) -> Seq<T>
    decreases s.len(),
{
    if s.len() > 0 && x.precedes(s.last()) {
        insert_ranked(s.drop_last(), x).push(s.last())
    } else {
        s.push(x)
    }
}

/// The stable rank order of `s`: each element in turn inserted after
/// everything before it that it does not precede.
pub open spec fn ranked<T: Ranked>(s: Seq<T>) -> Seq<T>
    decreases s.len(),
{
    if s.len() == 0 {
        s
    } else {
        insert_ranked(ranked(s.drop_last()), s.last())
    }
}

/// No element of `s` precedes one that stands before it.
pub open spec fn is_ranked<T: Ranked>(s: Seq<T>) -> bool {
    forall|i: int, j: int| 0 <= i < j < s.len() ==> !s[j].precedes(s[i])
}

proof fn lemma_insert_at<T: Ranked>(s: Seq<T>, x: T, j: int)
    requires
        0 <= j <= s.len(),
        forall|k: int| j <= k < s.len() ==> x.precedes(#[trigger] s[k]),
        j == 0 || !x.precedes(s[j - 1]),
    ensures
        insert_ranked(s, x) == s.take(j).push(x) + s.skip(j),
    decreases s.len(),
{
    if j < s.len() {
        let t = s.drop_last();
        assert forall|k: int| j <= k < t.len() implies x.precedes(#[trigger] t[k]) by {
            assert(t[k] == s[k]);
        }
        lemma_insert_at(t, x, j);
        assert(s.take(j).push(x) + s.skip(j) =~= (t.take(j).push(x) + t.skip(j)).push(s.last()));
    } else {
        assert(s.skip(j) =~= Seq::<T>::empty());
        assert(s.take(j) =~= s);
        assert(s.take(j).push(x) + s.skip(j) =~= s.push(x));
    }
}

proof fn lemma_insert_multiset<T: Ranked>(s: Seq<T>, x: T)
    ensures
        insert_ranked(s, x).to_multiset() =~= s.to_multiset().insert(x),
        insert_ranked(s, x).len() == s.len() + 1,
    decreases s.len(),
{
    broadcast use vstd::seq_lib::group_to_multiset_ensures;

    if s.len() > 0 && x.precedes(s.last()) {
        let t = s.drop_last();
        lemma_insert_multiset(t, x);
        assert(s == t.push(s.last()));
    }
}

proof fn lemma_insert_element<T: Ranked>(s: Seq<T>, x: T, k: int) -> (j: int)
    requires
        0 <= k <= s.len(),
    ensures
        0 <= j <= s.len(),
        insert_ranked(s, x) == s.take(j).push(x) + s.skip(j),
        forall|m: int| j <= m < s.len() ==> x.precedes(#[trigger] s[m]),
        j == 0 || !x.precedes(s[j - 1]),
    decreases s.len(),
{
    if s.len() > 0 && x.precedes(s.last()) {
        let t = s.drop_last();
        let j0 = lemma_insert_element(t, x, 0);
        assert forall|m: int| j0 <= m < s.len() implies x.precedes(#[trigger] s[m]) by {
            if m < t.len() {
                assert(t[m] == s[m]);
            }
        }
        if j0 > 0 {
            assert(t[j0 - 1] == s[j0 - 1]);
        }
        lemma_insert_at(s, x, j0);
        j0
    } else {
        let j = s.len() as int;
        lemma_insert_at(s, x, j);
        j
    }
}

proof fn lemma_insert_keeps_ranked<T: Ranked>(s: Seq<T>, x: T)
    requires
        is_ranked(s),
    ensures
        is_ranked(insert_ranked(s, x)),
{
    let j = lemma_insert_element(s, x, 0);
    let r = insert_ranked(s, x);
    assert forall|a: int, b: int| 0 <= a < b < r.len() implies !r[b].precedes(r[a]) by {
        if a < j && b < j {
            assert(r[a] == s[a] && r[b] == s[b]);
        } else if a < j && b == j {
            assert(r[a] == s[a] && r[b] == x);
            // s[a] does not follow s[j - 1], and x does not precede s[j - 1]
            if a < j - 1 {
                assert(!s[j - 1].precedes(s[a]));
                T::lemma_not_precedes_transitive(x, s[j - 1], s[a]);
            }
        } else if a < j && b > j {
            assert(r[a] == s[a] && r[b] == s[b - 1]);
        } else if a == j {
            assert(r[a] == x && r[b] == s[b - 1]);
            assert(x.precedes(s[b - 1]));
            T::lemma_precedes_asymmetric(x, s[b - 1]);
        } else {
            assert(r[a] == s[a - 1] && r[b] == s[b - 1]);
        }
    }
}

/// The rank order of `s` is ranked and holds the same elements as `s`.
pub proof fn lemma_ranked<T: Ranked>(s: Seq<T>)
    ensures
        is_ranked(ranked(s)),
        ranked(s).to_multiset() =~= s.to_multiset(),
        ranked(s).len() == s.len(),
    decreases s.len(),
{
    broadcast use vstd::seq_lib::group_to_multiset_ensures;

    if s.len() > 0 {
        let t = s.drop_last();
        lemma_ranked(t);
        lemma_insert_keeps_ranked(ranked(t), s.last());
        lemma_insert_multiset(ranked(t), s.last());
        assert(s == t.push(s.last()));
    }
}

/// The elements of `v` in stable rank order.
pub fn rank<T: Ranked>(v: Vec<T>) -> (r: Vec<T>)
    ensures
        r@ == ranked(v@),
{
    let ghost orig = v@;
    let mut rest = v;
    let mut out: Vec<T> = Vec::new();
    let ghost mut i: int = 0;
    assert(orig.skip(0) =~= orig);
    while rest.len() > 0
        invariant
            0 <= i <= orig.len(),
            rest@ == orig.skip(i),
            out@ == ranked(orig.take(i)),
        decreases rest.len(),
    {
        let x = rest.remove(0);
        proof {
            assert(x == orig[i]);
            assert(orig.skip(i).drop_first() =~= orig.skip(i + 1));
            lemma_insert_multiset(out@, x);
        }
        let mut j: usize = out.len();
        while j > 0 && x.goes_before(&out[j - 1])
            invariant
                j <= out.len(),
                forall|k: int| j <= k < out.len() ==> x.precedes(#[trigger] out@[k]),
            decreases j,
        {
            j = j - 1;
        }
        proof {
            lemma_insert_at(out@, x, j as int);
            assert(orig.take(i + 1).drop_last() =~= orig.take(i));
            assert(orig.take(i + 1).last() == x);
        }
        let ghost before = out@;
        out.insert(j, x);
        assert(out@ =~= before.take(j as int).push(x) + before.skip(j as int));
        proof {
            i = i + 1;
        }
    }
    assert(orig.take(i) =~= orig);
    out
}

} // verus!
