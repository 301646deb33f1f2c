//! The lazily expanded directory tree.

use crate::model::listing::{listing_view, DirEntry, PathNodeSort};
use crate::model::tree_index::{offsets, TreeIndex};
use crate::model::tree_model::{join_path, Tree, Visit};
use vstd::prelude::*;

verus! {

/// Why an operation on the tree was abandoned.
#[derive(Clone, Copy, Debug, PartialEq, Eq, Structural)]
pub enum PathError {
    /// The path does not exist.
    PathNotFound,
    /// The path exists but could not be read.
    PathUnreadable,
    /// A tree index has an offset that no child answers to.
    StaleIndex,
}

/// One filesystem entry, with the children that were read when it was
/// expanded.
#[derive(Debug)]
pub struct PathNode {
    pub absolute_path: String,
    /// The text shown for the entry: its name in the parent directory, or
    /// the whole path for a root.
    pub display_text: String,
    pub is_dir: bool,
    pub is_expanded: bool,
    pub children: Vec<PathNode>,
}

/// The tree that a node and its descendants stand for.
pub open spec fn tree_of(node: PathNode) -> Tree
    decreases node,
{
    Tree {
        path: node.absolute_path@,
        name: node.display_text@,
        is_dir: node.is_dir,
        is_expanded: node.is_expanded,
        children: Seq::new(
            node.children@.len(),
            |i: int|
                if 0 <= i < node.children@.len() {
                    tree_of(node.children@[i])
                } else {
                    arbitrary()
                },
        ),
    }
}

/// The trees that a sequence of sibling nodes stands for.
pub open spec fn forest_of(nodes: Seq<PathNode>) -> Seq<Tree> {
    Seq::new(nodes.len(), |i: int| tree_of(nodes[i]))
}

impl View for PathNode {
    type V = Tree;

    open spec fn view(&self) -> Tree {
        tree_of(*self)
    }
}

impl PathNode {
    /// Only expanded directories hold children.
    pub open spec fn wf(&self) -> bool {
        self@.wf()
    }

    /// The model of a node holds the models of its children, in order.
    pub proof fn lemma_view_children(&self)
        ensures
            self@.children.len() == self.children@.len(),
            forall|i: int|
                0 <= i < self.children@.len() ==> #[trigger] self@.children[i]
                    == self.children@[i]@,
            self@.path == self.absolute_path@,
            self@.name == self.display_text@,
            self@.is_dir == self.is_dir,
            self@.is_expanded == self.is_expanded,
    {
        assert(self@.children.len() == self.children@.len());
    }

    /// The root node for `path`, collapsed. `is_dir` is what the filesystem
    /// said of the path: whether it is a directory, or why it could not be
    /// looked at, which is then the error.
    pub fn new(path: &str, is_dir: Result<bool, PathError>) -> (r: Result<PathNode, PathError>)
        ensures
            match is_dir {
                Ok(d) => r is Ok && r->Ok_0@ == Tree::root(path@, d) && r->Ok_0.wf(),
                Err(e) => r == Err::<PathNode, PathError>(e),
            },
    {
        match is_dir {
            Ok(d) => {
                let node = PathNode {
                    absolute_path: String::from_str(path),
                    display_text: String::from_str(path),
                    is_dir: d,
                    is_expanded: false,
                    children: Vec::new(),
                };
                assert(node@.children =~= Seq::<Tree>::empty());
                Ok(node)
            },
            Err(e) => Err(e),
        }
    }

    /// The path of the entry.
    pub fn get_absolute_path(&self) -> (path: String)
        ensures
            path@ == self@.path,
    {
        self.absolute_path.clone()
    }

    /// The node that `tree_index` addresses, found by descending into the
    /// child at each offset; `StaleIndex` when an offset has no child.
    pub fn get_child_path_node(&self, tree_index: &TreeIndex) -> (r: Result<&PathNode, PathError>)
        ensures
            match self@.node_at(tree_index@) {
                Some(node) => r is Ok && r->Ok_0@ == node,
                None => r == Err::<&PathNode, PathError>(PathError::StaleIndex),
            },
    {
        let mut node = self;
        let mut depth: usize = 0;
        assert(tree_index@.skip(0) =~= tree_index@);
        while depth < tree_index.index.len()
            invariant
                depth <= tree_index@.len(),
                self@.node_at(tree_index@) == node@.node_at(tree_index@.skip(depth as int)),
            decreases tree_index@.len() - depth,
        {
            let offset = tree_index.index[depth];
            let ghost rest = tree_index@.skip(depth as int);
            assert(rest[0] == offset as nat);
            assert(rest.drop_first() =~= tree_index@.skip(depth + 1));
            proof {
                node.lemma_view_children();
            }
            if offset >= node.children.len() {
                return Err(PathError::StaleIndex);
            }
            node = &node.children[offset];
            depth += 1;
        }
        Ok(node)
    }

    /// Walks the visible nodes below and including `self` until row
    /// `remaining` is reached. `path` holds the address of `self` on entry
    /// and the address of the row on success; on failure `remaining` has
    /// been lowered by the rows passed.
    fn locate_row(&self, remaining: &mut usize, path: &mut Vec<usize>) -> (found: bool)
        ensures
            found == (*old(remaining) < self@.walk(offsets(old(path)@)).len()),
            found ==> offsets(final(path)@) == self@.walk(offsets(old(path)@))[*old(
                remaining,
            ) as int].index,
            !found ==> final(path)@ == old(path)@ && *final(remaining) == *old(remaining)
                - self@.walk(offsets(old(path)@)).len(),
        decreases self,
    {
        let ghost at = offsets(path@);
        let ghost way = path@;
        let ghost start = *remaining;
        proof {
            self.lemma_view_children();
        }
        if *remaining == 0 {
            return true;
        }
        *remaining -= 1;
        if !(self.is_dir && self.is_expanded) {
            return false;
        }
        let mut i: usize = 0;
        while i < self.children.len()
            invariant
                i <= self.children@.len(),
                self@.children.len() == self.children@.len(),
                forall|k: int|
                    0 <= k < self.children@.len() ==> #[trigger] self@.children[k]
                        == self.children@[k]@,
                path@ == way,
                old(path)@ == way,
                at == offsets(way),
                *old(remaining) == start,
                start >= 1,
                self@.shows_children(),
                *remaining == start - 1 - Tree::walk_children(self@.children, i as nat, at).len(),
            decreases self.children@.len() - i,
        {
            let ghost before = Tree::walk_children(self@.children, i as nat, at);
            let ghost child = self@.children[i as int].walk(at.push(i as nat));
            assert(Tree::walk_children(self@.children, (i + 1) as nat, at) == before + child);
            path.push(i);
            assert(offsets(path@) =~= at.push(i as nat));
            if self.children[i].locate_row(remaining, path) {
                proof {
                    let all = Tree::walk_children(
                        self@.children,
                        self@.children.len(),
                        at,
                    );
                    Tree::lemma_walk_children_prefix(
                        self@.children,
                        (i + 1) as nat,
                        self@.children.len(),
                        at,
                    );
                    let upto = Tree::walk_children(self@.children, (i + 1) as nat, at);
                    let r = start - 1 - before.len();
                    assert(all.subrange(0, upto.len() as int)[start - 1] == all[start - 1]);
                    assert(upto[start - 1] == child[r]);
                    assert(self@.walk(at) == seq![Visit { index: at, node: self@ }] + all);
                    assert(self@.walk(at)[start as int] == all[start - 1]);
                }
                return true;
            }
            path.pop();
            assert(path@ =~= way);
            i += 1;
        }
        assert(self@.walk(at) == seq![Visit { index: at, node: self@ }] + Tree::walk_children(
            self@.children,
            self@.children.len(),
            at,
        ));
        false
    }

    /// The address of the node on row `flat_index` of the listing.
    pub fn flat_index_to_tree_index(&self, flat_index: usize) -> (r: TreeIndex)
        requires
            flat_index < self@.rows().len(),
        ensures
            r@ == self@.rows()[flat_index as int].index,
    {
        let mut remaining = flat_index;
        let mut path: Vec<usize> = Vec::new();
        assert(offsets(path@) =~= Seq::<nat>::empty());
        self.locate_row(&mut remaining, &mut path);
        TreeIndex::new(path)
    }

    /// Gives the node at `index`, from offset `depth` on, the given expand
    /// state and children.
    fn set_children_at(
        &mut self,
        index: &Vec<usize>,
        depth: usize,
        is_expanded: bool,
        children: Vec<PathNode>,
    )
        requires
            depth <= index@.len(),
            old(self)@.node_at(offsets(index@).skip(depth as int)) is Some,
        ensures
            final(self)@ == old(self)@.replace_at(
                offsets(index@).skip(depth as int),
                (Tree {
                    is_expanded,
                    children: forest_of(children@),
                    ..old(self)@.node_at(offsets(index@).skip(depth as int))->0
                }),
            ),
        decreases index@.len() - depth,
    {
        let ghost rest = offsets(index@).skip(depth as int);
        let ghost before = self@;
        proof {
            self.lemma_view_children();
        }
        if depth == index.len() {
            self.is_expanded = is_expanded;
            self.children = children;
            proof {
                self.lemma_view_children();
                assert(self@.children =~= forest_of(children@));
            }
        } else {
            let offset = index[depth];
            assert(rest[0] == offset as nat);
            assert(rest.drop_first() =~= offsets(index@).skip(depth + 1));
            let ghost kids = self.children@;
            let child = &mut self.children[offset];
            child.set_children_at(index, depth + 1, is_expanded, children);
            proof {
                self.lemma_view_children();
                assert(self.children@ == kids.update(offset as int, self.children@[offset as int]));
                let expected = before.children.update(
                    offset as int,
                    self.children@[offset as int]@,
                );
                assert(self@.children =~= expected);
            }
        }
    }

    /// The nodes for the entries of a listing of the directory `parent`,
    /// in the order of the listing, each collapsed.
    fn fresh_children(parent: &str, entries: &Vec<DirEntry>) -> (r: Vec<PathNode>)
        ensures
            forest_of(r@) == Tree::fresh_all(parent@, listing_view(entries@)),
    {
        let mut nodes: Vec<PathNode> = Vec::new();
        let mut i: usize = 0;
        while i < entries.len()
            invariant
                i <= entries@.len(),
                nodes@.len() == i,
                forall|k: int|
                    0 <= k < i ==> tree_of(#[trigger] nodes@[k]) == Tree::fresh(
                        parent@,
                        entries@[k]@,
                    ),
            decreases entries@.len() - i,
        {
            let e = &entries[i];
            let node = PathNode {
                absolute_path: join(parent, e.name.as_str()),
                display_text: e.name.clone(),
                is_dir: e.is_dir,
                is_expanded: false,
                children: Vec::new(),
            };
            assert(node@.children =~= Seq::<Tree>::empty());
            nodes.push(node);
            i += 1;
        }
        assert(forest_of(nodes@) =~= Tree::fresh_all(parent@, listing_view(entries@)));
        nodes
    }

    /// Expands the directory at `tree_index` with the listing that the
    /// filesystem reader gave for it, shown in the order of `sort`. A node
    /// that is no directory or is expanded already is left as it is, whatever
    /// the listing. A failed read is handed back and changes nothing.
    pub fn expand_dir(
        &mut self,
        tree_index: &TreeIndex,
        listing: Result<Vec<DirEntry>, PathError>,
        sort: PathNodeSort,
    ) -> (r: Result<(), PathError>)
        ensures
            match old(self)@.node_at(tree_index@) {
                None => r == Err::<(), PathError>(PathError::StaleIndex) && final(self)@ == old(
                    self,
                )@,
                Some(node) => if !node.is_dir || node.is_expanded {
                    r == Ok::<(), PathError>(()) && final(self)@ == old(self)@
                } else {
                    match listing {
                        Err(e) => r == Err::<(), PathError>(e) && final(self)@ == old(self)@,
                        Ok(entries) => r == Ok::<(), PathError>(()) && final(self)@ == old(
                            self,
                        )@.expand_at(tree_index@, sort.sorted(listing_view(entries@))),
                    }
                },
            },
            old(self).wf() ==> final(self).wf(),
    {
        let children = match self.get_child_path_node(tree_index) {
            Err(e) => {
                return Err(e);
            },
            Ok(node) => {
                if !node.is_dir || node.is_expanded {
                    return Ok(());
                }
                match listing {
                    Err(e) => {
                        return Err(e);
                    },
                    Ok(entries) => {
                        let sorted = sort.sort(entries);
                        Self::fresh_children(node.absolute_path.as_str(), &sorted)
                    },
                }
            },
        };
        assert(tree_index@.skip(0) =~= tree_index@);
        proof {
            if self.wf() {
                self@.lemma_expand_at_wf(tree_index@, sort.sorted(listing_view(listing->Ok_0@)));
            }
        }
        self.set_children_at(&tree_index.index, 0, true, children);
        Ok(())
    }

    /// Collapses the node at `tree_index`: its children, and all that was
    /// expanded below them, are dropped. A node that is not expanded is left
    /// as it is.
    pub fn collapse_dir(&mut self, tree_index: &TreeIndex) -> (r: Result<(), PathError>)
        ensures
            final(self)@ == old(self)@.collapse_at(tree_index@),
            r == (if old(self)@.node_at(tree_index@) is Some {
                Ok::<(), PathError>(())
            } else {
                Err::<(), PathError>(PathError::StaleIndex)
            }),
            old(self).wf() ==> final(self).wf(),
    {
        match self.get_child_path_node(tree_index) {
            Err(e) => {
                return Err(e);
            },
            Ok(node) => {
                if !node.is_expanded {
                    return Ok(());
                }
            },
        }
        assert(tree_index@.skip(0) =~= tree_index@);
        proof {
            if self.wf() {
                self@.lemma_collapse_at_wf(tree_index@);
            }
        }
        self.set_children_at(&tree_index.index, 0, false, Vec::new());
        assert(forest_of(Seq::<PathNode>::empty()) =~= Seq::<Tree>::empty());
        Ok(())
    }
}

/// The path of the entry `name` in the directory `parent`.
pub fn join(parent: &str, name: &str) -> (r: String)
    ensures
        r@ == join_path(parent@, name@),
{
    let n = parent.unicode_len();
    let mut path = String::from_str(parent);
    if n > 0 && parent.get_char(n - 1) != '/' {
        proof {
            reveal_strlit("/");
            assert("/"@ =~= seq!['/']);
        }
        path.append("/");
    }
    path.append(name);
    path
}

} // verus!
