//! The flattening of the tree into rows of text.

use crate::model::config::{Composition, Config};
use crate::model::path_node::PathNode;
use crate::model::tree_index::offsets;
use crate::model::tree_model::{Tree, Visit};
use vstd::prelude::*;

verus! {

/// One row of the listing.
#[derive(Clone, Debug)]
pub struct DisplayRow {
    /// The name of the entry; for the root, its path.
    pub name: String,
    /// How many directories lie between the root and the entry.
    pub depth: usize,
    pub is_dir: bool,
    /// The text to draw: indent, marker, name and, for a directory, a slash.
    pub text: String,
}

/// A row as a mathematical value.
pub ghost struct Row {
    pub name: Seq<char>,
    pub depth: nat,
    pub is_dir: bool,
    pub text: Seq<char>,
}

impl View for DisplayRow {
    type V = Row;

    open spec fn view(&self) -> Row {
        Row { name: self.name@, depth: self.depth as nat, is_dir: self.is_dir, text: self.text@ }
    }
}

/// The rows as mathematical values, in the same order.
pub open spec fn rows_view(rows: Seq<DisplayRow>) -> Seq<Row> {
    rows.map_values(|r: DisplayRow| r@)
}

impl Composition {
    /// The character that opens each level of indent.
    pub open spec fn guide(self) -> char {
        if !self.show_indent {
            ' '
        } else if self.use_utf8 {
            '·'
        } else {
            '-'
        }
    }

    /// One level of indent: the guide and then spaces, `indent` characters
    /// in all; nothing when `indent` is not positive.
    pub open spec fn indent_unit(self) -> Seq<char> {
        if self.indent <= 0 {
            Seq::empty()
        } else {
            seq![self.guide()] + Seq::new((self.indent - 1) as nat, |i: int| ' ')
        }
    }

    /// The indent of a row at `depth`: one unit for each level.
    pub open spec fn indent_text(self, depth: nat) -> Seq<char>
        decreases depth,
    {
        if depth == 0 {
            Seq::empty()
        } else {
            self.indent_text((depth - 1) as nat) + self.indent_unit()
        }
    }

    /// The marker in front of a name: for a directory a glyph that tells
    /// whether it is expanded, for a file blanks of the same width.
    pub open spec fn marker(self, is_dir: bool, is_expanded: bool) -> Seq<char> {
        if !is_dir {
            seq![' ', ' ']
        } else if self.use_utf8 {
            if is_expanded {
                seq!['▼', ' ']
            } else {
                seq!['▶', ' ']
            }
        } else {
            if is_expanded {
                seq!['v', ' ']
            } else {
                seq!['>', ' ']
            }
        }
    }

    /// What follows a name: a slash for a directory.
    pub open spec fn suffix(is_dir: bool) -> Seq<char> {
        if is_dir {
            seq!['/']
        } else {
            Seq::empty()
        }
    }

    /// The row for a visited node: its depth is the length of its address.
    pub open spec fn row(self, v: Visit) -> Row {
        Row {
            name: v.node.name,
            depth: v.index.len(),
            is_dir: v.node.is_dir,
            text: self.indent_text(v.index.len()) + self.marker(v.node.is_dir, v.node.is_expanded)
                + v.node.name + Self::suffix(v.node.is_dir),
        }
    }

    /// The rows for a walk, in its order.
    pub open spec fn rows(self, walk: Seq<Visit>) -> Seq<Row> {
        walk.map_values(|v: Visit| self.row(v))
    }

    /// One level of indent.
    fn make_indent_unit(&self) -> (unit: String)
        ensures
            unit@ == self.indent_unit(),
    {
        let mut unit = String::new();
        if self.indent <= 0 {
            return unit;
        }
        proof {
            reveal_strlit(" ");
            reveal_strlit("·");
            reveal_strlit("-");
            assert(" "@ =~= seq![' ']);
            assert("·"@ =~= seq!['·']);
            assert("-"@ =~= seq!['-']);
        }
        if !self.show_indent {
            unit.append(" ");
        } else if self.use_utf8 {
            unit.append("·");
        } else {
            unit.append("-");
        }
        assert(unit@ =~= seq![self.guide()]);
        let mut i: i32 = 1;
        while i < self.indent
            invariant
                1 <= i <= self.indent,
                " "@ == seq![' '],
                unit@ == seq![self.guide()] + Seq::new((i - 1) as nat, |k: int| ' '),
            decreases self.indent - i,
        {
            unit.append(" ");
            assert(unit@ =~= seq![self.guide()] + Seq::new(i as nat, |k: int| ' '));
            i += 1;
        }
        unit
    }

    /// The marker in front of a name.
    fn make_marker(&self, is_dir: bool, is_expanded: bool) -> (marker: &'static str)
        ensures
            marker@ == self.marker(is_dir, is_expanded),
    {
        proof {
            reveal_strlit("  ");
            reveal_strlit("▼ ");
            reveal_strlit("▶ ");
            reveal_strlit("v ");
            reveal_strlit("> ");
            assert("  "@ =~= seq![' ', ' ']);
            assert("▼ "@ =~= seq!['▼', ' ']);
            assert("▶ "@ =~= seq!['▶', ' ']);
            assert("v "@ =~= seq!['v', ' ']);
            assert("> "@ =~= seq!['>', ' ']);
        }
        if !is_dir {
            "  "
        } else if self.use_utf8 {
            if is_expanded {
                "▼ "
            } else {
                "▶ "
            }
        } else {
            if is_expanded {
                "v "
            } else {
                "> "
            }
        }
    }
}

/// Turns the tree into rows, as the settings say.
#[derive(Clone, Debug)]
pub struct Composer {
    pub config: Config,
}

impl Composer {
    pub fn new(config: Config) -> (r: Self)
        ensures
            r.config == config,
    {
        Composer { config }
    }

    /// The rows that this composer makes of a tree: one for each visible
    /// node, in the order of the depth-first walk.
    pub open spec fn composed(&self, tree: Tree) -> Seq<Row> {
        self.config.composition.rows(tree.rows())
    }

    /// The row at each position of the listing is made of the node that the
    /// address of that position resolves to, at the depth that the address
    /// gives.
    pub proof fn law_row_shows_addressed_node(&self, tree: Tree, r: int)
        requires
            0 <= r < tree.rows().len(),
        ensures
            self.composed(tree).len() == tree.rows().len(),
            tree.node_at(tree.rows()[r].index) is Some,
            self.composed(tree)[r] == self.config.composition.row(
                Visit {
                    index: tree.rows()[r].index,
                    node: tree.node_at(tree.rows()[r].index)->0,
                },
            ),
    {
        tree.law_row_address_resolves(r);
    }

    /// Two listings composed of one tree hold the same rows in the same
    /// order.
    pub proof fn law_composed_alike(&self, tree: Tree, first: Seq<DisplayRow>, second: Seq<DisplayRow>)
        requires
            rows_view(first) == self.composed(tree),
            rows_view(second) == self.composed(tree),
        ensures
            first.len() == second.len(),
            forall|r: int| 0 <= r < first.len() ==> (#[trigger] first[r])@ == second[r]@,
    {
        assert(rows_view(first).len() == first.len());
        assert(rows_view(second).len() == second.len());
        assert forall|r: int| 0 <= r < first.len() implies (#[trigger] first[r])@ == second[r]@ by {
            assert(rows_view(first)[r] == first[r]@);
            assert(rows_view(second)[r] == second[r]@);
        }
    }

    /// The rows of the listing for the tree below `path_node`, which is
    /// shown as the first row.
    pub fn compose_path_node(&self, path_node: &PathNode) -> (rows: Vec<DisplayRow>)
        ensures
            rows_view(rows@) == self.composed(path_node@),
    {
        let mut rows: Vec<DisplayRow> = Vec::new();
        let mut path: Vec<usize> = Vec::new();
        assert(offsets(path@) =~= Seq::<nat>::empty());
        let unit = self.config.composition.make_indent_unit();
        let indent = String::new();
        assert(indent@ =~= self.config.composition.indent_text(0));
        self.compose_into(path_node, &mut path, indent.as_str(), unit.as_str(), &mut rows);
        assert(rows_view(rows@) =~= self.composed(path_node@));
        rows
    }

    /// Appends the rows of the visible nodes below and including `node` to
    /// `rows`. `path` is the address of `node`, `indent` the indent of its
    /// depth and `unit` one level of indent.
    fn compose_into(
        &self,
        node: &PathNode,
        path: &mut Vec<usize>,
        indent: &str,
        unit: &str,
        rows: &mut Vec<DisplayRow>,
    )
        requires
            unit@ == self.config.composition.indent_unit(),
            indent@ == self.config.composition.indent_text(old(path)@.len()),
        ensures
            final(path)@ == old(path)@,
            rows_view(final(rows)@) == rows_view(old(rows)@) + self.config.composition.rows(
                node@.walk(offsets(old(path)@)),
            ),
        decreases node,
    {
        let ghost at = offsets(path@);
        let ghost way = path@;
        let ghost c = self.config.composition;
        let ghost front = rows_view(rows@);
        let ghost own = Visit { index: at, node: node@ };
        proof {
            node.lemma_view_children();
            reveal_strlit("/");
            assert("/"@ =~= seq!['/']);
        }
        let mut text = String::from_str(indent);
        text.append(self.config.composition.make_marker(node.is_dir, node.is_expanded));
        text.append(node.display_text.as_str());
        if node.is_dir {
            text.append("/");
        }
        assert(text@ =~= c.row(own).text);
        let row = DisplayRow {
            name: node.display_text.clone(),
            depth: path.len(),
            is_dir: node.is_dir,
            text,
        };
        assert(row@ == c.row(own));
        rows.push(row);
        assert(rows_view(rows@) =~= front + c.rows(seq![own]));
        if !(node.is_dir && node.is_expanded) {
            return ;
        }
        let mut deeper = String::from_str(indent);
        deeper.append(unit);
        assert(deeper@ == c.indent_text((at.len() + 1) as nat));
        let mut i: usize = 0;
        assert(c.rows(seq![own]) + c.rows(Tree::walk_children(node@.children, 0, at)) =~= c.rows(
            seq![own],
        ));
        while i < node.children.len()
            invariant
                i <= node.children@.len(),
                node@.children.len() == node.children@.len(),
                forall|k: int|
                    0 <= k < node.children@.len() ==> #[trigger] node@.children[k]
                        == node.children@[k]@,
                node@.shows_children(),
                path@ == way,
                old(path)@ == way,
                at == offsets(way),
                front == rows_view(old(rows)@),
                own == (Visit { index: at, node: node@ }),
                c == self.config.composition,
                unit@ == c.indent_unit(),
                deeper@ == c.indent_text((at.len() + 1) as nat),
                rows_view(rows@) == front + c.rows(seq![own]) + c.rows(
                    Tree::walk_children(node@.children, i as nat, at),
                ),
            decreases node.children@.len() - i,
        {
            let ghost before = Tree::walk_children(node@.children, i as nat, at);
            let ghost child = node@.children[i as int].walk(at.push(i as nat));
            assert(Tree::walk_children(node@.children, (i + 1) as nat, at) == before + child);
            assert(c.rows(before + child) =~= c.rows(before) + c.rows(child));
            path.push(i);
            assert(offsets(path@) =~= at.push(i as nat));
            self.compose_into(&node.children[i], path, deeper.as_str(), unit, rows);
            path.pop();
            assert(path@ =~= way);
            i += 1;
        }
        assert(node@.walk(at) == seq![own] + Tree::walk_children(
            node@.children,
            node@.children.len(),
            at,
        ));
        assert(c.rows(node@.walk(at)) =~= c.rows(seq![own]) + c.rows(
            Tree::walk_children(node@.children, node@.children.len(), at),
        ));
    }
}

} // verus!
