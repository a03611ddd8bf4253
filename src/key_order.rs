use vstd::prelude::*;
use crate::key::{key_lt, key_inc, key_can_inc};

verus! {

/// Past a common prefix of length `i`, the order is decided by what follows.
pub proof fn lemma_lt_skip(a: Seq<usize>, b: Seq<usize>, i: int)
    requires
        0 <= i <= a.len(),
        i <= b.len(),
        forall|j: int| 0 <= j < i ==> a[j] == b[j],
    ensures
        key_lt(a, b) == key_lt(a.skip(i), b.skip(i)),
    decreases i,
{
    if i > 0 {
        lemma_lt_skip(a.drop_first(), b.drop_first(), i - 1);
        assert(a.drop_first().skip(i - 1) =~= a.skip(i));
        assert(b.drop_first().skip(i - 1) =~= b.skip(i));
    } else {
        assert(a.skip(0) =~= a);
        assert(b.skip(0) =~= b);
    }
}

/// No key comes before itself.
pub proof fn lemma_key_lt_irreflexive(a: Seq<usize>)
    ensures
        !key_lt(a, a),
    decreases a.len(),
{
    if a.len() > 0 {
        lemma_key_lt_irreflexive(a.drop_first());
    }
}

/// The order is transitive.
pub proof fn lemma_key_lt_transitive(a: Seq<usize>, b: Seq<usize>, c: Seq<usize>)
    requires
        key_lt(a, b),
        key_lt(b, c),
    ensures
        key_lt(a, c),
    decreases a.len(),
{
    if c.len() > 0 && a[0] == b[0] && b[0] == c[0] {
        lemma_key_lt_transitive(a.drop_first(), b.drop_first(), c.drop_first());
    }
}

/// Two distinct keys are always ordered one way or the other.
pub proof fn lemma_key_lt_total(a: Seq<usize>, b: Seq<usize>)
    ensures
        a != b ==> (key_lt(a, b) || key_lt(b, a)),
    decreases a.len(),
{
    if a.len() > 0 && b.len() > 0 && a[0] == b[0] {
        lemma_key_lt_total(a.drop_first(), b.drop_first());
        if a.drop_first() == b.drop_first() {
            assert(a =~= seq![a[0]] + a.drop_first());
            assert(b =~= seq![b[0]] + b.drop_first());
        }
    } else if a.len() == 0 && b.len() == 0 {
        assert(a =~= b);
    }
}

/// The order is asymmetric.
pub proof fn lemma_key_lt_asymmetric(a: Seq<usize>, b: Seq<usize>)
    ensures
        !(key_lt(a, b) && key_lt(b, a)),
{
    if key_lt(a, b) && key_lt(b, a) {
        lemma_key_lt_transitive(a, b, a);
        lemma_key_lt_irreflexive(a);
    }
}

/// A key that strictly extends another comes before it.
pub proof fn lemma_extension_lt(p: Seq<usize>, d: Seq<usize>)
    requires
        d.len() > p.len(),
        d.subrange(0, p.len() as int) == p,
    ensures
        key_lt(d, p),
{
    lemma_lt_skip(d, p, p.len() as int);
    assert(p.skip(p.len() as int) =~= Seq::<usize>::empty());
}

/// Every key that extends the next sibling position of `k` lies after `k`.
pub proof fn lemma_after_frame(k: Seq<usize>, d: Seq<usize>)
    requires
        key_can_inc(k),
        d.len() >= k.len(),
        d.subrange(0, k.len() as int) == key_inc(k),
    ensures
        key_lt(k, d),
{
    let n = k.len() - 1;
    assert forall|j: int| 0 <= j < n implies k[j] == d[j] by {
        assert(d[j] == d.subrange(0, k.len() as int)[j]);
    }
    lemma_lt_skip(k, d, n);
    assert(d[n] == d.subrange(0, k.len() as int)[n]);
}

} // verus!
