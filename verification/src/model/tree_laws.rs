//! What holds of every tree: addresses of rows resolve to their nodes,
//! expanding and collapsing keep the tree well formed, and a collapse undoes
//! an expansion.

use crate::model::listing::Entry;
use crate::model::tree_model::{Tree, Visit};
use vstd::prelude::*;

verus! {

impl Tree {
    /// Each visit of a walk from `at` has an address that starts with `at`
    /// and leads from `self` to the visited node.
    pub proof fn lemma_walk_addresses(self, at: Seq<nat>, r: int)
        requires
            0 <= r < self.walk(at).len(),
        ensures
            self.walk(at)[r].index.len() >= at.len(),
            self.walk(at)[r].index.subrange(0, at.len() as int) == at,
            self.node_at(self.walk(at)[r].index.skip(at.len() as int)) == Some(
                self.walk(at)[r].node,
            ),
        decreases self, 0nat, 0nat,
    {
        let v = self.walk(at)[r];
        if r == 0 {
            assert(v.index.subrange(0, at.len() as int) =~= at);
            assert(v.index.skip(at.len() as int) =~= Seq::<nat>::empty());
        } else {
            let below = Self::walk_children(self.children, self.children.len(), at);
            assert(v == below[r - 1]);
            Self::lemma_walk_children_addresses(self.children, self.children.len(), at, r - 1);
            let rest = v.index.skip(at.len() as int);
            assert(rest[0] == v.index[at.len() as int]);
            assert(rest.drop_first() =~= v.index.skip(at.len() as int + 1));
        }
    }

    /// Each visit of the walk of the first `n` siblings has an address that
    /// starts with `at`, goes on with the offset of one of them, and leads
    /// from that sibling to the visited node.
    pub proof fn lemma_walk_children_addresses(
        siblings: Seq<Tree>,
        n: nat,
        at: Seq<nat>,
        r: int,
    )
        requires
            n <= siblings.len(),
            0 <= r < Self::walk_children(siblings, n, at).len(),
        ensures
            Self::walk_children(siblings, n, at)[r].index.len() > at.len(),
            Self::walk_children(siblings, n, at)[r].index.subrange(0, at.len() as int) == at,
            (Self::walk_children(siblings, n, at)[r].index[at.len() as int] as int) < n,
            siblings[Self::walk_children(siblings, n, at)[r].index[at.len() as int] as int].node_at(
                Self::walk_children(siblings, n, at)[r].index.skip(at.len() as int + 1),
            ) == Some(Self::walk_children(siblings, n, at)[r].node),
        decreases siblings, n, 1nat,
    {
        let before = Self::walk_children(siblings, (n - 1) as nat, at);
        if r < before.len() {
            Self::lemma_walk_children_addresses(siblings, (n - 1) as nat, at, r);
        } else {
            let deeper = at.push((n - 1) as nat);
            let v = Self::walk_children(siblings, n, at)[r];
            assert(v == siblings[n - 1].walk(deeper)[r - before.len()]);
            siblings[n - 1].lemma_walk_addresses(deeper, r - before.len());
            assert(v.index.subrange(0, deeper.len() as int) == deeper);
            assert(v.index[at.len() as int] == deeper[at.len() as int]);
            assert(v.index.subrange(0, at.len() as int) =~= deeper.subrange(0, at.len() as int));
            assert(deeper.subrange(0, at.len() as int) =~= at);
            assert(v.index.skip(at.len() as int + 1) =~= v.index.skip(deeper.len() as int));
        }
    }

    /// The address on each row of the listing resolves to the node on that
    /// row.
    pub proof fn law_row_address_resolves(self, r: int)
        requires
            0 <= r < self.rows().len(),
        ensures
            self.node_at(self.rows()[r].index) == Some(self.rows()[r].node),
    {
        self.lemma_walk_addresses(Seq::empty(), r);
        assert(self.rows()[r].index.skip(0) =~= self.rows()[r].index);
    }

    /// The listing always has a first row, which is the root.
    pub proof fn lemma_rows_start_with_root(self)
        ensures
            self.rows().len() >= 1,
            self.rows()[0] == (Visit { index: Seq::empty(), node: self }),
    {
    }

    /// A node of a well-formed tree is well formed.
    pub proof fn lemma_node_at_wf(self, index: Seq<nat>)
        requires
            self.wf(),
            self.node_at(index) is Some,
        ensures
            self.node_at(index)->0.wf(),
        decreases index.len(),
    {
        if index.len() > 0 {
            self.children[index[0] as int].lemma_node_at_wf(index.drop_first());
        }
    }

    /// Putting a well-formed node in the place of a node keeps the tree
    /// well formed.
    pub proof fn lemma_replace_at_wf(self, index: Seq<nat>, node: Tree)
        requires
            self.wf(),
            node.wf(),
        ensures
            self.replace_at(index, node).wf(),
        decreases index.len(),
    {
        if index.len() > 0 && index[0] < self.children.len() {
            let k = index[0] as int;
            self.children[k].lemma_replace_at_wf(index.drop_first(), node);
            let after = self.replace_at(index, node);
            assert forall|i: int| 0 <= i < after.children.len() implies (
            #[trigger] after.children[i]).wf() by {
                if i != k {
                    assert(after.children[i] == self.children[i]);
                }
            }
        }
    }

    /// Expanding keeps a tree well formed.
    pub proof fn lemma_expand_at_wf(self, index: Seq<nat>, entries: Seq<Entry>)
        requires
            self.wf(),
        ensures
            self.expand_at(index, entries).wf(),
    {
        if let Some(node) = self.node_at(index) {
            if node.is_dir && !node.is_expanded {
                let kids = Self::fresh_all(node.path, entries);
                let grown = node.expanded(kids);
                assert forall|i: int| 0 <= i < kids.len() implies (#[trigger] kids[i]).wf() by {
                    assert(kids[i] == Self::fresh(node.path, entries[i]));
                }
                assert(grown.wf());
                self.lemma_replace_at_wf(index, grown);
            }
        }
    }

    /// Collapsing keeps a tree well formed.
    pub proof fn lemma_collapse_at_wf(self, index: Seq<nat>)
        requires
            self.wf(),
        ensures
            self.collapse_at(index).wf(),
    {
        if let Some(node) = self.node_at(index) {
            if node.is_expanded {
                self.lemma_node_at_wf(index);
                assert(node.collapsed().wf());
                self.lemma_replace_at_wf(index, node.collapsed());
            }
        }
    }

    /// After a replacement the address leads to the new node.
    pub proof fn lemma_node_at_replaced(self, index: Seq<nat>, node: Tree)
        requires
            self.node_at(index) is Some,
        ensures
            self.replace_at(index, node).node_at(index) == Some(node),
        decreases index.len(),
    {
        if index.len() > 0 {
            self.children[index[0] as int].lemma_node_at_replaced(index.drop_first(), node);
        }
    }

    /// Of two replacements at one address only the second counts.
    pub proof fn lemma_replace_at_twice(self, index: Seq<nat>, first: Tree, second: Tree)
        ensures
            self.replace_at(index, first).replace_at(index, second) == self.replace_at(
                index,
                second,
            ),
        decreases index.len(),
    {
        if index.len() > 0 && index[0] < self.children.len() {
            let k = index[0] as int;
            self.children[k].lemma_replace_at_twice(index.drop_first(), first, second);
            assert(self.replace_at(index, first).replace_at(index, second).children
                =~= self.replace_at(index, second).children);
        }
    }

    /// Replacing a node by itself changes nothing.
    pub proof fn lemma_replace_at_same(self, index: Seq<nat>)
        requires
            self.node_at(index) is Some,
        ensures
            self.replace_at(index, self.node_at(index)->0) == self,
        decreases index.len(),
    {
        if index.len() > 0 {
            let k = index[0] as int;
            self.children[k].lemma_replace_at_same(index.drop_first());
            assert(self.replace_at(index, self.node_at(index)->0).children =~= self.children);
        }
    }

    /// The number of rows of a walk does not depend on where it starts.
    pub proof fn lemma_walk_len(self, a: Seq<nat>, b: Seq<nat>)
        ensures
            self.walk(a).len() == self.walk(b).len(),
        decreases self, 0nat, 0nat,
    {
        if self.shows_children() {
            Self::lemma_walk_children_len(self.children, self.children, self.children.len(), a, b);
        }
    }

    /// Siblings that walk to as many rows each, walk to as many rows
    /// together.
    pub proof fn lemma_walk_children_len(
        left: Seq<Tree>,
        right: Seq<Tree>,
        n: nat,
        a: Seq<nat>,
        b: Seq<nat>,
    )
        requires
            left.len() == right.len(),
            n <= left.len(),
            forall|i: int, x: Seq<nat>, y: Seq<nat>|
                0 <= i < n && right[i] != left[i] ==> (#[trigger] left[i].walk(x)).len() == (
                #[trigger] right[i].walk(y)).len(),
        ensures
            Self::walk_children(left, n, a).len() == Self::walk_children(right, n, b).len(),
        decreases left, n, 1nat,
    {
        if n > 0 {
            Self::lemma_walk_children_len(left, right, (n - 1) as nat, a, b);
            let x = a.push((n - 1) as nat);
            let y = b.push((n - 1) as nat);
            if right[n - 1] == left[n - 1] {
                left[n - 1].lemma_walk_len(x, y);
            } else {
                assert(left[n - 1].walk(x).len() == right[n - 1].walk(y).len());
            }
        }
    }

    /// Replacing a node by one that walks to as many rows keeps the number
    /// of rows of the tree.
    pub proof fn lemma_replace_at_walk_len(self, index: Seq<nat>, node: Tree, at: Seq<nat>)
        requires
            self.node_at(index) is Some,
            self.node_at(index)->0.walk(Seq::empty()).len() == node.walk(Seq::empty()).len(),
        ensures
            self.replace_at(index, node).walk(at).len() == self.walk(at).len(),
        decreases index.len(),
    {
        let old_node = self.node_at(index)->0;
        if index.len() == 0 {
            self.lemma_walk_len(at, Seq::empty());
            node.lemma_walk_len(at, Seq::empty());
        } else {
            let k = index[0] as int;
            let child = self.children[k];
            let changed = child.replace_at(index.drop_first(), node);
            let after = self.replace_at(index, node);
            assert forall|i: int, x: Seq<nat>, y: Seq<nat>|
                0 <= i < self.children.len() && after.children[i] != self.children[i] implies (
            #[trigger] self.children[i].walk(x)).len() == (#[trigger] after.children[i].walk(
                y,
            )).len() by {
                assert(i == k);
                child.lemma_replace_at_walk_len(index.drop_first(), node, y);
                child.lemma_walk_len(x, y);
            }
            if self.shows_children() {
                Self::lemma_walk_children_len(
                    self.children,
                    after.children,
                    self.children.len(),
                    at,
                    at,
                );
            }
        }
    }

    /// Expanding a collapsed node and collapsing it again leaves as many
    /// rows as there were.
    pub proof fn law_collapse_undoes_expand_rows(self, index: Seq<nat>, entries: Seq<Entry>)
        requires
            self.node_at(index) is Some ==> !self.node_at(index)->0.is_expanded,
        ensures
            self.expand_at(index, entries).collapse_at(index).rows().len() == self.rows().len(),
    {
        if let Some(node) = self.node_at(index) {
            if node.is_dir {
                let grown = node.expanded(Self::fresh_all(node.path, entries));
                self.lemma_node_at_replaced(index, grown);
                self.lemma_replace_at_twice(index, grown, grown.collapsed());
                assert(grown.collapsed() == node.collapsed());
                self.lemma_replace_at_walk_len(index, node.collapsed(), Seq::empty());
            }
        }
    }

    /// Expanding a collapsed node of a well-formed tree and collapsing it
    /// again gives back the tree.
    pub proof fn law_collapse_undoes_expand(self, index: Seq<nat>, entries: Seq<Entry>)
        requires
            self.wf(),
            self.node_at(index) is Some ==> !self.node_at(index)->0.is_expanded,
        ensures
            self.expand_at(index, entries).collapse_at(index) == self,
    {
        if let Some(node) = self.node_at(index) {
            if node.is_dir {
                let grown = node.expanded(Self::fresh_all(node.path, entries));
                self.lemma_node_at_replaced(index, grown);
                self.lemma_replace_at_twice(index, grown, grown.collapsed());
                self.lemma_node_at_wf(index);
                assert(node.children =~= Seq::<Tree>::empty());
                assert(grown.collapsed() == node);
                self.lemma_replace_at_same(index);
            }
        }
    }

    /// Collapsing a directory and expanding it again shows the listed
    /// entries and nothing below them, whatever was expanded before.
    pub proof fn law_expand_after_collapse_is_shallow(
        self,
        index: Seq<nat>,
        entries: Seq<Entry>,
    )
        requires
            self.node_at(index) is Some,
            self.node_at(index)->0.is_dir,
        ensures
            self.collapse_at(index).expand_at(index, entries).node_at(index) == Some(
                self.node_at(index)->0.expanded(
                    Self::fresh_all(self.node_at(index)->0.path, entries),
                ),
            ),
            self.collapse_at(index).expand_at(index, entries).node_at(index)->0.walk(
                Seq::empty(),
            ).len() == 1 + entries.len(),
    {
        let node = self.node_at(index)->0;
        let closed = self.collapse_at(index);
        if node.is_expanded {
            self.lemma_node_at_replaced(index, node.collapsed());
        }
        assert(closed.node_at(index) is Some);
        let shut = closed.node_at(index)->0;
        assert(shut.path == node.path && shut.is_dir && !shut.is_expanded);
        let kids = Self::fresh_all(node.path, entries);
        closed.lemma_node_at_replaced(index, shut.expanded(kids));
        assert(shut.expanded(kids) == node.expanded(kids));
        Self::lemma_fresh_walk(node.path, entries, entries.len(), Seq::empty());
    }

    /// Freshly listed entries walk to one row each.
    pub proof fn lemma_fresh_walk(parent: Seq<char>, entries: Seq<Entry>, n: nat, at: Seq<nat>)
        requires
            n <= entries.len(),
        ensures
            Self::walk_children(Self::fresh_all(parent, entries), n, at).len() == n,
        decreases n,
    {
        if n > 0 {
            Self::lemma_fresh_walk(parent, entries, (n - 1) as nat, at);
            let kid = Self::fresh_all(parent, entries)[n - 1];
            assert(kid == Self::fresh(parent, entries[n - 1]));
            assert(kid.walk(at.push((n - 1) as nat)).len() == 1);
        }
    }
}

} // verus!
