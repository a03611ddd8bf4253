use vstd::prelude::*;

verus! {

/// Position of an emission point in the depth-first order of a serial walk.
///
/// Each hand-off to another worker opens a new level (`push`); each emission
/// point after it on the same level takes the next counter (`inc`).
#[derive(Clone, Debug)]
pub struct ReorderKey(pub Vec<usize>);

impl View for ReorderKey {
    type V = Seq<usize>;

    open spec fn view(&self) -> Seq<usize> {
        self.0@
    }
}

/// Subtree-first order on keys: lexicographic over the common prefix, and a
/// key that strictly extends another (a descendant) comes before it.
pub open spec fn key_lt(a: Seq<usize>, b: Seq<usize>) -> bool
    decreases a.len(),
{
    if a.len() == 0 {
        false
    } else if b.len() == 0 {
        true
    } else if a[0] != b[0] {
        a[0] < b[0]
    } else {
        key_lt(a.drop_first(), b.drop_first())
    }
}

/// The key of the next sibling position: the last counter plus one.
pub open spec fn key_inc(k: Seq<usize>) -> Seq<usize>
    recommends
        k.len() > 0,
        k.last() < usize::MAX,
{
    k.update(k.len() - 1, (k.last() + 1) as usize)
}

/// The key of the first child position: a fresh level starting at zero.
pub open spec fn key_push(k: Seq<usize>) -> Seq<usize> {
    k.push(0)
}

/// A key whose last counter can still advance.
pub open spec fn key_can_inc(k: Seq<usize>) -> bool {
    k.len() > 0 && k.last() < usize::MAX
}

impl ReorderKey {
    /// The key of the root task of a traversal.
    pub fn root() -> (r: ReorderKey)
        ensures
            r@ == seq![0usize],
    {
        let mut v: Vec<usize> = Vec::new();
        v.push(0);
        ReorderKey(v)
    }

    /// A copy of this key.
    pub fn duplicate(&self) -> (r: ReorderKey)
        ensures
            r@ == self@,
    {
        let mut v: Vec<usize> = Vec::new();
        let mut i: usize = 0;
        while i < self.0.len()
            invariant
                0 <= i <= self@.len(),
                v@ == self@.subrange(0, i as int),
            decreases self@.len() - i,
        {
            v.push(self.0[i]);
            i = i + 1;
        }
        assert(v@ =~= self@);
        ReorderKey(v)
    }

    /// Moves to the next sibling position.
    pub fn inc(&mut self)
        requires
            key_can_inc(old(self)@),
        ensures
            final(self)@ == key_inc(old(self)@),
    {
        let len = self.0.len();
        let last = self.0[len - 1];
        self.0.set(len - 1, last + 1);
    }

    /// Opens a child level under the current position.
    pub fn push(&mut self)
        ensures
            final(self)@ == key_push(old(self)@),
    {
        self.0.push(0);
    }

    /// Whether `inc` may be applied.
    pub fn can_inc(&self) -> (r: bool)
        ensures
            r == key_can_inc(self@),
    {
        self.0.len() > 0 && self.0[self.0.len() - 1] < usize::MAX
    }

    /// Strict comparison in the subtree-first order.
    pub fn lt(&self, other: &ReorderKey) -> (r: bool)
        ensures
            r == key_lt(self@, other@),
    {
        let mut i: usize = 0;
        while i < self.0.len() && i < other.0.len()
            invariant
                0 <= i <= self@.len(),
                i <= other@.len(),
                forall|j: int| 0 <= j < i ==> self@[j] == other@[j],
            decreases self@.len() - i,
        {
            if self.0[i] != other.0[i] {
                proof {
                    crate::key_order::lemma_lt_skip(self@, other@, i as int);
                    assert(self@.skip(i as int)[0] == self@[i as int]);
                    assert(other@.skip(i as int)[0] == other@[i as int]);
                }
                return self.0[i] < other.0[i];
            }
            i = i + 1;
        }
        proof {
            crate::key_order::lemma_lt_skip(self@, other@, i as int);
        }
        // the shorter one is a prefix of the longer one
        i < self.0.len()
    }

    /// Three-way comparison in the subtree-first order.
    pub fn compare(&self, other: &ReorderKey) -> (r: std::cmp::Ordering)
        ensures
            (r == std::cmp::Ordering::Less) == key_lt(self@, other@),
            (r == std::cmp::Ordering::Equal) == (self@ == other@),
            (r == std::cmp::Ordering::Greater) == key_lt(other@, self@),
    {
        proof {
            crate::key_order::lemma_key_lt_irreflexive(self@);
            crate::key_order::lemma_key_lt_total(self@, other@);
            crate::key_order::lemma_key_lt_asymmetric(self@, other@);
        }
        if self.lt(other) {
            std::cmp::Ordering::Less
        } else if other.lt(self) {
            std::cmp::Ordering::Greater
        } else {
            std::cmp::Ordering::Equal
        }
    }
}

/// The subtree-first comparison of keys is a strict total order.
pub proof fn key_order_is_total(a: Seq<usize>, b: Seq<usize>, c: Seq<usize>)
    ensures
        !key_lt(a, a),
        key_lt(a, b) && key_lt(b, c) ==> key_lt(a, c),
        a != b ==> (key_lt(a, b) || key_lt(b, a)),
        !(key_lt(a, b) && key_lt(b, a)),
{
    crate::key_order::lemma_key_lt_irreflexive(a);
    if key_lt(a, b) && key_lt(b, c) {
        crate::key_order::lemma_key_lt_transitive(a, b, c);
    }
    crate::key_order::lemma_key_lt_total(a, b);
    crate::key_order::lemma_key_lt_asymmetric(a, b);
}

/// Keys handed out at a frame keyed `k` come in increasing order: the next
/// frame `key_inc(k)` comes after `k`, and every key of the subtree handed off
/// in between (a strict extension of `key_inc(k)`, such as the child key
/// `key_push(key_inc(k))`) lies strictly between the two.
pub proof fn handoff_keys_between(k: Seq<usize>, d: Seq<usize>)
    requires
        key_can_inc(k),
        d.len() > k.len(),
        d.subrange(0, k.len() as int) == key_inc(k),
    ensures
        key_lt(k, key_inc(k)),
        key_lt(k, d),
        key_lt(d, key_inc(k)),
{
    assert(key_inc(k).subrange(0, k.len() as int) =~= key_inc(k));
    crate::key_order::lemma_after_frame(k, key_inc(k));
    crate::key_order::lemma_after_frame(k, d);
    crate::key_order::lemma_extension_lt(key_inc(k), d);
}

/// The child key handed off at a frame keyed `k` extends the next frame key.
pub proof fn child_key_extends_next(k: Seq<usize>)
    requires
        key_can_inc(k),
    ensures
        key_push(key_inc(k)).len() > k.len(),
        key_push(key_inc(k)).subrange(0, k.len() as int) == key_inc(k),
{
    assert(key_push(key_inc(k)).subrange(0, k.len() as int) =~= key_inc(k));
}

} // verus!
