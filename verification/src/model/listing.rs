//! Directory listings as the filesystem reader hands them over, and the
//! order in which the entries of one directory are shown.

use crate::text::{
    lemma_lex_less_total, lemma_lex_less_transitive, lex_less, str_eq, str_less,
};
use vstd::prelude::*;
use vstd::seq_lib::to_multiset_insert;

verus! {

/// One entry of a directory, as read from the filesystem.
#[derive(Clone, Debug)]
pub struct DirEntry {
    pub name: String,
    pub is_dir: bool,
}

/// A directory entry as a mathematical value.
pub ghost struct Entry {
    pub name: Seq<char>,
    pub is_dir: bool,
}

impl View for DirEntry {
    type V = Entry;

    open spec fn view(&self) -> Entry {
        Entry { name: self.name@, is_dir: self.is_dir }
    }
}

/// The entries of a listing as mathematical values, in the same order.
pub open spec fn listing_view(entries: Seq<DirEntry>) -> Seq<Entry> {
    entries.map_values(|e: DirEntry| e@)
}

/// The order in which the children of a directory are shown.
#[derive(Clone, Copy, Debug, PartialEq, Eq, Structural)]
pub enum PathNodeSort {
    /// Directories first, then files; each group by name.
    DirsTop,
    /// Files first, then directories; each group by name.
    DirsBot,
    /// By name alone.
    Name,
    /// In the order in which the directory was read.
    Unsorted,
}

impl PathNodeSort {
    /// The group that an entry belongs to; lower groups are shown first.
    pub open spec fn rank(self, is_dir: bool) -> int {
        match self {
            PathNodeSort::DirsTop => if is_dir { 0 } else { 1 },
            PathNodeSort::DirsBot => if is_dir { 1 } else { 0 },
            PathNodeSort::Name => 0,
            PathNodeSort::Unsorted => 0,
        }
    }

    /// Whether `a` has to be shown before `b`: it is in a lower group, or in
    /// the same group with a name that comes first. `Unsorted` puts no entry
    /// before another.
    pub open spec fn less(self, a: Entry, b: Entry) -> bool {
        self != PathNodeSort::Unsorted && (self.rank(a.is_dir) < self.rank(b.is_dir) || (self.rank(
            a.is_dir,
        ) == self.rank(b.is_dir) && lex_less(a.name, b.name)))
    }

    /// No entry of `entries` has to be shown before an earlier one.
    pub open spec fn is_sorted(self, entries: Seq<Entry>) -> bool {
        forall|i: int, j: int|
            0 <= i < j < entries.len() ==> !self.less(#[trigger] entries[j], #[trigger] entries[i])
    }

    /// Where `e` goes in `sorted`: behind the leading entries that have to be
    /// shown before it.
    pub open spec fn insert_point(self, sorted: Seq<Entry>, e: Entry) -> nat
        decreases sorted.len(),
    {
        if sorted.len() == 0 || !self.less(sorted[0], e) {
            0
        } else {
            1 + self.insert_point(sorted.drop_first(), e)
        }
    }

    /// The entries in the order of the policy. Entries that the policy does
    /// not tell apart keep the order in which they were read.
    pub open spec fn sorted(self, entries: Seq<Entry>) -> Seq<Entry>
        decreases entries.len(),
    {
        if entries.len() == 0 {
            Seq::empty()
        } else {
            let rest = self.sorted(entries.drop_first());
            rest.insert(self.insert_point(rest, entries[0]) as int, entries[0])
        }
    }

    /// Whether `a` has to be shown before `b`.
    pub fn comes_before(self, a: &DirEntry, b: &DirEntry) -> (r: bool)
        ensures
            r == self.less(a@, b@),
    {
        match self {
            PathNodeSort::Unsorted => false,
            PathNodeSort::Name => str_less(a.name.as_str(), b.name.as_str()),
            PathNodeSort::DirsTop => {
                if a.is_dir != b.is_dir {
                    a.is_dir
                } else {
                    str_less(a.name.as_str(), b.name.as_str())
                }
            },
            PathNodeSort::DirsBot => {
                if a.is_dir != b.is_dir {
                    b.is_dir
                } else {
                    str_less(a.name.as_str(), b.name.as_str())
                }
            },
        }
    }

    /// The insert point is the one position with only earlier entries in
    /// front of it and none right behind it.
    pub proof fn lemma_insert_point(self, sorted: Seq<Entry>, e: Entry, p: int)
        requires
            0 <= p <= sorted.len(),
            forall|j: int| 0 <= j < p ==> self.less(#[trigger] sorted[j], e),
            p < sorted.len() ==> !self.less(sorted[p], e),
        ensures
            self.insert_point(sorted, e) == p,
        decreases sorted.len(),
    {
        if p > 0 {
            let rest = sorted.drop_first();
            assert forall|j: int| 0 <= j < p - 1 implies self.less(#[trigger] rest[j], e) by {
                assert(rest[j] == sorted[j + 1]);
            }
            self.lemma_insert_point(rest, e, p - 1);
        }
    }

    /// Sorts a listing by the policy. Entries that the policy does not tell
    /// apart keep their order.
    pub fn sort(self, entries: Vec<DirEntry>) -> (r: Vec<DirEntry>)
        ensures
            listing_view(r@) == self.sorted(listing_view(entries@)),
    {
        let ghost all = listing_view(entries@);
        let mut entries = entries;
        let mut out: Vec<DirEntry> = Vec::new();
        assert(all.skip(all.len() as int) =~= Seq::<Entry>::empty());
        assert(listing_view(out@) =~= Seq::<Entry>::empty());
        while entries.len() > 0
            invariant
                entries@.len() <= all.len(),
                listing_view(entries@) == all.take(entries@.len() as int),
                listing_view(out@) == self.sorted(all.skip(entries@.len() as int)),
            decreases entries@.len(),
        {
            let ghost k = entries@.len() as int;
            let ghost before = listing_view(out@);
            let ghost last = listing_view(entries@)[k - 1];
            assert(last == all[k - 1]);
            let e = entries.pop().unwrap();
            assert(e@ == last);
            let mut p: usize = 0;
            while p < out.len() && self.comes_before(&out[p], &e)
                invariant
                    p <= out@.len(),
                    before == listing_view(out@),
                    forall|j: int| 0 <= j < p ==> self.less(#[trigger] before[j], e@),
                decreases out@.len() - p,
            {
                p += 1;
            }
            proof {
                self.lemma_insert_point(before, e@, p as int);
                let tail = all.skip(k - 1);
                assert(tail.drop_first() =~= all.skip(k));
                assert(tail[0] == e@);
                assert(self.sorted(tail) == before.insert(p as int, e@));
            }
            out.insert(p, e);
            assert(listing_view(out@) =~= before.insert(p as int, e@));
            assert(listing_view(entries@) =~= all.take(k - 1));
        }
        assert(all.skip(0) =~= all);
        out
    }

    /// No two entries have to be shown before each other.
    pub proof fn lemma_less_asymmetric(self, a: Entry, b: Entry)
        requires
            self.less(a, b),
        ensures
            !self.less(b, a),
    {
        lemma_lex_less_total(a.name, b.name);
    }

    /// Where `b` need not come before `a`, nor `c` before `b`, `c` need not
    /// come before `a`.
    pub proof fn lemma_not_less_transitive(self, a: Entry, b: Entry, c: Entry)
        requires
            !self.less(b, a),
            !self.less(c, b),
        ensures
            !self.less(c, a),
    {
        lemma_lex_less_total(c.name, b.name);
        if lex_less(b.name, c.name) && lex_less(c.name, a.name) {
            lemma_lex_less_transitive(b.name, c.name, a.name);
        }
    }

    /// The insert point lies within the sequence, behind entries that come
    /// before `e` and in front of one that does not.
    pub proof fn lemma_insert_point_bounds(self, sorted: Seq<Entry>, e: Entry)
        ensures
            self.insert_point(sorted, e) <= sorted.len(),
            forall|j: int|
                0 <= j < self.insert_point(sorted, e) ==> self.less(#[trigger] sorted[j], e),
            self.insert_point(sorted, e) < sorted.len() ==> !self.less(
                sorted[self.insert_point(sorted, e) as int],
                e,
            ),
        decreases sorted.len(),
    {
        if sorted.len() > 0 && self.less(sorted[0], e) {
            let rest = sorted.drop_first();
            self.lemma_insert_point_bounds(rest, e);
            let p = self.insert_point(rest, e);
            assert forall|j: int| 0 <= j < p + 1 implies self.less(#[trigger] sorted[j], e) by {
                if j > 0 {
                    assert(sorted[j] == rest[j - 1]);
                }
            }
            if p < rest.len() {
                assert(sorted[p as int + 1] == rest[p as int]);
            }
        }
    }

    /// What `sorted` gives is in the order of the policy.
    pub proof fn law_sorted_is_sorted(self, entries: Seq<Entry>)
        ensures
            self.is_sorted(self.sorted(entries)),
        decreases entries.len(),
    {
        if entries.len() > 0 {
            let rest = self.sorted(entries.drop_first());
            let e = entries[0];
            let p = self.insert_point(rest, e) as int;
            self.law_sorted_is_sorted(entries.drop_first());
            self.lemma_insert_point_bounds(rest, e);
            let out = rest.insert(p, e);
            assert forall|i: int, j: int| 0 <= i < j < out.len() implies !self.less(
                #[trigger] out[j],
                #[trigger] out[i],
            ) by {
                if j < p {
                    assert(out[i] == rest[i] && out[j] == rest[j]);
                } else if j == p {
                    assert(out[i] == rest[i]);
                    self.lemma_less_asymmetric(rest[i], e);
                } else if i < p {
                    assert(out[i] == rest[i] && out[j] == rest[j - 1]);
                } else if i == p {
                    assert(out[j] == rest[j - 1]);
                    if j - 1 > p {
                        assert(!self.less(rest[j - 1], rest[p]));
                        self.lemma_not_less_transitive(e, rest[p], rest[j - 1]);
                    }
                } else {
                    assert(out[i] == rest[i - 1] && out[j] == rest[j - 1]);
                }
            }
        }
    }

    /// What `sorted` gives holds the same entries, each as often as before.
    pub proof fn law_sorted_is_permutation(self, entries: Seq<Entry>)
        ensures
            self.sorted(entries).to_multiset() == entries.to_multiset(),
            self.sorted(entries).len() == entries.len(),
        decreases entries.len(),
    {
        if entries.len() > 0 {
            let tail = entries.drop_first();
            let rest = self.sorted(tail);
            let e = entries[0];
            self.law_sorted_is_permutation(tail);
            self.lemma_insert_point_bounds(rest, e);
            to_multiset_insert(rest, self.insert_point(rest, e) as int, e);
            to_multiset_insert(tail, 0, e);
            assert(tail.insert(0, e) =~= entries);
        } else {
            assert(entries =~= Seq::<Entry>::empty());
        }
    }

    /// `Unsorted` keeps the order in which the directory was read.
    pub proof fn law_unsorted_keeps_order(entries: Seq<Entry>)
        ensures
            PathNodeSort::Unsorted.sorted(entries) == entries,
        decreases entries.len(),
    {
        if entries.len() > 0 {
            Self::law_unsorted_keeps_order(entries.drop_first());
            assert(entries.drop_first().insert(0, entries[0]) =~= entries);
        } else {
            assert(entries =~= Seq::<Entry>::empty());
        }
    }

    /// The policy that a setting names: `dirs_bot_simple`, `name` or `none`,
    /// and `DirsTop` for every other name.
    pub open spec fn named(name: Seq<char>) -> PathNodeSort {
        if name == "dirs_bot_simple"@ {
            PathNodeSort::DirsBot
        } else if name == "name"@ {
            PathNodeSort::Name
        } else if name == "none"@ {
            PathNodeSort::Unsorted
        } else {
            PathNodeSort::DirsTop
        }
    }

    /// The policy that a setting names.
    pub fn from_name(name: &str) -> (r: PathNodeSort)
        ensures
            r == Self::named(name@),
    {
        if str_eq(name, "dirs_bot_simple") {
            PathNodeSort::DirsBot
        } else if str_eq(name, "name") {
            PathNodeSort::Name
        } else if str_eq(name, "none") {
            PathNodeSort::Unsorted
        } else {
            PathNodeSort::DirsTop
        }
    }
}

} // verus!
