//! The mathematical model of the directory tree: what a tree is, which of its
//! nodes are visible, in which order they appear as rows, and how a tree
//! index resolves to a node.

use crate::model::listing::Entry;
use vstd::prelude::*;

verus! {

/// The path of the entry `name` in the directory `parent`: the two joined
/// by one separator, which is left out where `parent` is empty or already
/// ends in one.
pub open spec fn join_path(parent: Seq<char>, name: Seq<char>) -> Seq<char> {
    if parent.len() == 0 || parent.last() == '/' {
        parent + name
    } else {
        parent + seq!['/'] + name
    }
}

/// A directory tree as a mathematical value.
pub ghost struct Tree {
    /// The full path of the entry.
    pub path: Seq<char>,
    /// The text shown for the entry: its name in the parent directory, or
    /// the whole path for a root.
    pub name: Seq<char>,
    pub is_dir: bool,
    pub is_expanded: bool,
    pub children: Seq<Tree>,
}

/// One step of the depth-first walk: a visible node and its address.
pub ghost struct Visit {
    pub index: Seq<nat>,
    pub node: Tree,
}

impl Tree {
    /// A directory shows its children exactly when it is expanded.
    pub open spec fn shows_children(self) -> bool {
        self.is_dir && self.is_expanded
    }

    /// The invariant of a lazily expanded tree: only expanded directories
    /// hold children, and every child obeys the same rule.
    pub open spec fn wf(self) -> bool
        decreases self,
    {
        &&& (self.is_expanded ==> self.is_dir)
        &&& (!self.is_expanded ==> self.children.len() == 0)
        &&& forall|i: int| 0 <= i < self.children.len() ==> (#[trigger] self.children[i]).wf()
    }

    /// The visible nodes below and including `self`, in display order: the
    /// node itself, then, if it shows its children, the walk of each child in
    /// sibling order. `at` is the address of `self`.
    pub open spec fn walk(self, at: Seq<nat>) -> Seq<Visit>
        decreases self, 0nat,
    {
        let own = seq![Visit { index: at, node: self }];
        if self.shows_children() {
            own + Self::walk_children(self.children, self.children.len(), at)
        } else {
            own
        }
    }

    /// The walks of the first `n` trees of `siblings`, one after the other.
    /// `at` is the address of their parent.
    pub open spec fn walk_children(siblings: Seq<Tree>, n: nat, at: Seq<nat>) -> Seq<Visit>
        decreases siblings, n,
    {
        if n == 0 || n > siblings.len() {
            Seq::empty()
        } else {
            Self::walk_children(siblings, (n - 1) as nat, at) + siblings[n - 1].walk(
                at.push((n - 1) as nat),
            )
        }
    }

    /// The rows of the listing when `self` is the root.
    pub open spec fn rows(self) -> Seq<Visit> {
        self.walk(Seq::empty())
    }

    /// The node that `index` addresses below `self`: descend into the child
    /// at each offset in turn. `None` when an offset has no child.
    pub open spec fn node_at(self, index: Seq<nat>) -> Option<Tree>
        decreases index.len(),
    {
        if index.len() == 0 {
            Some(self)
        } else if index[0] < self.children.len() {
            self.children[index[0] as int].node_at(index.drop_first())
        } else {
            None
        }
    }

    /// `self` with the node that `index` addresses replaced by `node`;
    /// unchanged when `index` addresses nothing.
    pub open spec fn replace_at(self, index: Seq<nat>, node: Tree) -> Tree
        decreases index.len(),
    {
        if index.len() == 0 {
            node
        } else if index[0] < self.children.len() {
            Tree {
                children: self.children.update(
                    index[0] as int,
                    self.children[index[0] as int].replace_at(index.drop_first(), node),
                ),
                ..self
            }
        } else {
            self
        }
    }

    /// The node for a listed entry of the directory `parent`: collapsed and
    /// without children.
    pub open spec fn fresh(parent: Seq<char>, e: Entry) -> Tree {
        Tree {
            path: join_path(parent, e.name),
            name: e.name,
            is_dir: e.is_dir,
            is_expanded: false,
            children: Seq::empty(),
        }
    }

    /// The nodes for the listed entries of the directory `parent`, in the
    /// order of the listing.
    pub open spec fn fresh_all(parent: Seq<char>, entries: Seq<Entry>) -> Seq<Tree> {
        Seq::new(entries.len(), |i: int| Self::fresh(parent, entries[i]))
    }

    /// The root node for `path`: collapsed, and shown by its whole path.
    pub open spec fn root(path: Seq<char>, is_dir: bool) -> Tree {
        Tree { path, name: path, is_dir, is_expanded: false, children: Seq::empty() }
    }

    /// The tree after the directory at `index` has been expanded with the
    /// `entries` read from it, given in display order. Nothing changes when
    /// `index` addresses nothing, a file, or a directory that is expanded
    /// already.
    pub open spec fn expand_at(self, index: Seq<nat>, entries: Seq<Entry>) -> Tree {
        match self.node_at(index) {
            Some(node) => if node.is_dir && !node.is_expanded {
                self.replace_at(index, node.expanded(Self::fresh_all(node.path, entries)))
            } else {
                self
            },
            None => self,
        }
    }

    /// The tree after the node at `index` has been collapsed. Nothing
    /// changes when `index` addresses nothing or a node that is not
    /// expanded.
    pub open spec fn collapse_at(self, index: Seq<nat>) -> Tree {
        match self.node_at(index) {
            Some(node) => if node.is_expanded {
                self.replace_at(index, node.collapsed())
            } else {
                self
            },
            None => self,
        }
    }

    /// `self` as a collapsed node: no children are kept.
    pub open spec fn collapsed(self) -> Tree {
        Tree { is_expanded: false, children: Seq::empty(), ..self }
    }

    /// `self` as an expanded node that holds `children`.
    pub open spec fn expanded(self, children: Seq<Tree>) -> Tree {
        Tree { is_expanded: true, children, ..self }
    }

    /// The walk of the first `n` siblings opens the walk of the first `m`,
    /// for `n <= m`.
    pub proof fn lemma_walk_children_prefix(siblings: Seq<Tree>, n: nat, m: nat, at: Seq<nat>)
        requires
            n <= m <= siblings.len(),
        ensures
            Self::walk_children(siblings, n, at).len() <= Self::walk_children(
                siblings,
                m,
                at,
            ).len(),
            Self::walk_children(siblings, m, at).subrange(
                0,
                Self::walk_children(siblings, n, at).len() as int,
            ) == Self::walk_children(siblings, n, at),
        decreases m,
    {
        let short = Self::walk_children(siblings, n, at);
        let long = Self::walk_children(siblings, m, at);
        if n == m {
            assert(long.subrange(0, short.len() as int) =~= short);
        } else {
            Self::lemma_walk_children_prefix(siblings, n, (m - 1) as nat, at);
            let mid = Self::walk_children(siblings, (m - 1) as nat, at);
            assert(long == mid + siblings[m - 1].walk(at.push((m - 1) as nat)));
            assert(long.subrange(0, short.len() as int) =~= mid.subrange(0, short.len() as int));
        }
    }
}

} // verus!
