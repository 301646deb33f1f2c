//! Addresses of nodes in a tree, as paths of child offsets from the root.

use std::cmp::Ordering;
use vstd::prelude::*;
use vstd::std_specs::cmp::{PartialEqSpecImpl, PartialOrdSpecImpl};

verus! {

/// The offsets of an index as mathematical integers.
pub open spec fn offsets(index: Seq<usize>) -> Seq<nat> {
    index.map_values(|offset: usize| offset as nat)
}

/// The lexicographic order on addresses: a proper prefix comes first, and
/// otherwise the first differing offset decides.
pub open spec fn index_less(a: Seq<nat>, b: Seq<nat>) -> bool
    decreases a.len(),
{
    if b.len() == 0 {
        false
    } else if a.len() == 0 {
        true
    } else if a[0] != b[0] {
        a[0] < b[0]
    } else {
        index_less(a.drop_first(), b.drop_first())
    }
}

/// The address of a node: the offset of the child to descend into at each
/// depth, starting from the root. The empty sequence addresses the root.
#[derive(Clone, Debug, Default, Eq)]
pub struct TreeIndex {
    pub index: Vec<usize>,
}

impl View for TreeIndex {
    type V = Seq<nat>;

    open spec fn view(&self) -> Seq<nat> {
        offsets(self.index@)
    }
}

impl TreeIndex {
    /// The index made of the given offsets.
    pub fn new(index: Vec<usize>) -> (r: Self)
        ensures
            r.index == index,
    {
        Self { index }
    }

    /// The index of the root: no offsets.
    pub fn root() -> (r: Self)
        ensures
            r@ == Seq::<nat>::empty(),
    {
        let r = Self { index: Vec::new() };
        assert(r@ =~= Seq::<nat>::empty());
        r
    }

    /// The index of the child at `offset` below the node of this index.
    pub fn child(&self, offset: usize) -> (r: Self)
        ensures
            r@ == self@.push(offset as nat),
    {
        let mut index: Vec<usize> = Vec::new();
        let mut i: usize = 0;
        while i < self.index.len()
            invariant
                i <= self.index@.len(),
                index@ == self.index@.take(i as int),
            decreases self.index@.len() - i,
        {
            index.push(self.index[i]);
            assert(index@ =~= self.index@.take(i + 1));
            i += 1;
        }
        assert(self.index@.take(i as int) =~= self.index@);
        index.push(offset);
        let r = Self { index };
        assert(r@ =~= self@.push(offset as nat));
        r
    }

    /// The number of offsets, which is the depth of the addressed node.
    pub fn depth(&self) -> (d: usize)
        ensures
            d == self@.len(),
    {
        self.index.len()
    }

    /// How many leading offsets the two indices share.
    fn shared_depth(&self, other: &Self) -> (n: usize)
        ensures
            n <= self@.len(),
            n <= other@.len(),
            self@.take(n as int) == other@.take(n as int),
            n < self@.len() && n < other@.len() ==> self@[n as int] != other@[n as int],
    {
        let mut n: usize = 0;
        while n < self.index.len() && n < other.index.len() && self.index[n] == other.index[n]
            invariant
                n <= self.index@.len(),
                n <= other.index@.len(),
                self@.take(n as int) =~= other@.take(n as int),
            decreases self.index@.len() - n,
        {
            n += 1;
        }
        n
    }

    /// Indices that share `n` leading offsets are in the order of what
    /// follows those.
    pub proof fn lemma_index_less_skip(a: Seq<nat>, b: Seq<nat>, n: int)
        requires
            0 <= n <= a.len(),
            n <= b.len(),
            a.take(n) == b.take(n),
        ensures
            index_less(a, b) == index_less(a.skip(n), b.skip(n)),
            (a == b) == (a.skip(n) == b.skip(n)),
        decreases n,
    {
        if n > 0 {
            assert(a[0] == a.take(n)[0] && b[0] == b.take(n)[0]);
            assert(a.drop_first().take(n - 1) =~= a.take(n).drop_first());
            assert(b.drop_first().take(n - 1) =~= b.take(n).drop_first());
            Self::lemma_index_less_skip(a.drop_first(), b.drop_first(), n - 1);
            assert(a.drop_first().skip(n - 1) =~= a.skip(n));
            assert(b.drop_first().skip(n - 1) =~= b.skip(n));
            if a.skip(n) == b.skip(n) {
                assert(a =~= a.take(n) + a.skip(n));
                assert(b =~= b.take(n) + b.skip(n));
            }
        } else {
            assert(a.skip(0) =~= a);
            assert(b.skip(0) =~= b);
        }
    }

    /// Whether this index comes before `other` in the lexicographic order.
    pub fn precedes(&self, other: &Self) -> (r: bool)
        ensures
            r == index_less(self@, other@),
    {
        let n = self.shared_depth(other);
        proof {
            Self::lemma_index_less_skip(self@, other@, n as int);
        }
        if n == other.index.len() {
            false
        } else if n == self.index.len() {
            true
        } else {
            self.index[n] < other.index[n]
        }
    }
}

impl PartialEq for TreeIndex {
    fn eq(&self, other: &Self) -> (r: bool) {
        let n = self.shared_depth(other);
        proof {
            Self::lemma_index_less_skip(self@, other@, n as int);
            if n == self@.len() && n == other@.len() {
                assert(self@.skip(n as int) =~= other@.skip(n as int));
            }
        }
        n == self.index.len() && n == other.index.len()
    }
}

impl PartialEqSpecImpl for TreeIndex {
    open spec fn obeys_eq_spec() -> bool {
        true
    }

    open spec fn eq_spec(&self, other: &Self) -> bool {
        self@ == other@
    }
}

impl PartialOrd for TreeIndex {
    fn partial_cmp(&self, other: &Self) -> (r: Option<Ordering>) {
        if self.eq(other) {
            Some(Ordering::Equal)
        } else if self.precedes(other) {
            Some(Ordering::Less)
        } else {
            Some(Ordering::Greater)
        }
    }
}

impl PartialOrdSpecImpl for TreeIndex {
    open spec fn obeys_partial_cmp_spec() -> bool {
        true
    }

    open spec fn partial_cmp_spec(&self, other: &Self) -> Option<Ordering> {
        if self@ == other@ {
            Some(Ordering::Equal)
        } else if index_less(self@, other@) {
            Some(Ordering::Less)
        } else {
            Some(Ordering::Greater)
        }
    }
}

} // verus!
