//! Inserted and deleted line counts of a change, split into the lines of
//! source files and the lines of all files.
use vstd::prelude::*;

use crate::source_path::{classify_path, extensions, filenames, is_source, string_views};

verus! {

/// Inserted and deleted lines.
#[derive(Debug, Clone, Copy, PartialEq, Eq, Structural)]
pub struct LineCounts {
    pub insertions: u32,
    pub deletions: u32,
}

impl Default for LineCounts {
    fn default() -> (r: Self)
        ensures
            r == (LineCounts { insertions: 0, deletions: 0 }),
    {
        LineCounts { insertions: 0, deletions: 0 }
    }
}

/// The lines a change adds and removes: in source files, and in all files.
#[derive(Debug, Clone, Copy, PartialEq, Eq, Structural)]
pub struct ChangeLineCounts {
    pub source: LineCounts,
    pub total: LineCounts,
}

impl Default for ChangeLineCounts {
    fn default() -> (r: Self)
        ensures
            r == (ChangeLineCounts {
                source: LineCounts { insertions: 0, deletions: 0 },
                total: LineCounts { insertions: 0, deletions: 0 },
            }),
    {
        ChangeLineCounts { source: LineCounts::default(), total: LineCounts::default() }
    }
}

/// The line statistics of one file of a diff.
#[derive(Debug, PartialEq, Eq)]
pub struct FileDiffStats {
    pub path: String,
    pub insertions: u32,
    pub deletions: u32,
}

/// A file's path with its inserted and deleted lines.
pub type PathStat = (Seq<char>, u32, u32);

/// `x + y`, held at `u32::MAX` when it does not fit, as `u32::saturating_add`
/// returns it.
pub open spec fn saturating(x: u32, y: u32) -> u32 {
    if x + y > u32::MAX {
        u32::MAX
    } else {
        (x + y) as u32
    }
}

/// `n`, or `u32::MAX` when `n` does not fit in a `u32`.
pub open spec fn capped(n: nat) -> u32 {
    if n > u32::MAX {
        u32::MAX
    } else {
        n as u32
    }
}

/// The lines inserted in the files of `files` whose path is `counted`.
pub open spec fn inserted_lines(files: Seq<PathStat>, counted: spec_fn(Seq<char>) -> bool) -> nat
    decreases files.len(),
{
    if files.len() == 0 {
        0
    } else {
        inserted_lines(files.drop_last(), counted) + if counted(files.last().0) {
            files.last().1 as nat
        } else {
            0
        }
    }
}

/// The lines deleted in the files of `files` whose path is `counted`.
pub open spec fn deleted_lines(files: Seq<PathStat>, counted: spec_fn(Seq<char>) -> bool) -> nat
    decreases files.len(),
{
    if files.len() == 0 {
        0
    } else {
        deleted_lines(files.drop_last(), counted) + if counted(files.last().0) {
            files.last().2 as nat
        } else {
            0
        }
    }
}

/// The line counts of the files of `files` whose path is `counted`, each
/// held at `u32::MAX`.
pub open spec fn counts_where(files: Seq<PathStat>, counted: spec_fn(Seq<char>) -> bool) -> LineCounts {
    LineCounts {
        insertions: capped(inserted_lines(files, counted)),
        deletions: capped(deleted_lines(files, counted)),
    }
}

/// Every path.
pub open spec fn any_path() -> spec_fn(Seq<char>) -> bool {
    |p: Seq<char>| true
}

/// The paths of source files.
pub open spec fn source_paths() -> spec_fn(Seq<char>) -> bool {
    |p: Seq<char>| is_source(p)
}

/// The line counts of a change made of `files`.
pub open spec fn change_counts(files: Seq<PathStat>) -> ChangeLineCounts {
    ChangeLineCounts {
        source: counts_where(files, source_paths()),
        total: counts_where(files, any_path()),
    }
}

/// The path statistics of borrowed triples.
pub open spec fn path_stats_view(files: Seq<(&str, u32, u32)>) -> Seq<PathStat> {
    files.map_values(|f: (&str, u32, u32)| (f.0@, f.1, f.2))
}

/// The path statistics of file statistics.
pub open spec fn file_stats_view(files: Seq<FileDiffStats>) -> Seq<PathStat> {
    files.map_values(|f: FileDiffStats| (f.path@, f.insertions, f.deletions))
}

/// What the extra counts of a change are: its totals where they differ from
/// its source counts.
pub open spec fn extra_of(c: ChangeLineCounts) -> Option<LineCounts> {
    if c.source == c.total {
        None
    } else {
        Some(c.total)
    }
}

/// Adding to a held sum holds the sum of all.
proof fn lemma_saturating_capped(n: nat, y: u32)
    ensures
        saturating(capped(n), y) == capped(n + y as nat),
{
}

/// Counting the lines of fewer paths never counts more lines.
proof fn lemma_fewer_paths_fewer_lines(files: Seq<PathStat>)
    ensures
        inserted_lines(files, source_paths()) <= inserted_lines(files, any_path()),
        deleted_lines(files, source_paths()) <= deleted_lines(files, any_path()),
    decreases files.len(),
{
    if files.len() > 0 {
        lemma_fewer_paths_fewer_lines(files.drop_last());
    }
}

/// When every path is a source path, both ways of counting agree.
proof fn lemma_all_paths_source(files: Seq<PathStat>)
    requires
        forall|i: int| 0 <= i < files.len() ==> is_source(#[trigger] files[i].0),
    ensures
        inserted_lines(files, source_paths()) == inserted_lines(files, any_path()),
        deleted_lines(files, source_paths()) == deleted_lines(files, any_path()),
    decreases files.len(),
{
    if files.len() > 0 {
        assert(is_source(files[files.len() - 1].0));
        lemma_all_paths_source(files.drop_last());
    }
}

/// When no path is a source path, no source line is counted.
proof fn lemma_no_source_paths(files: Seq<PathStat>)
    requires
        forall|i: int| 0 <= i < files.len() ==> !is_source(#[trigger] files[i].0),
    ensures
        inserted_lines(files, source_paths()) == 0,
        deleted_lines(files, source_paths()) == 0,
    decreases files.len(),
{
    if files.len() > 0 {
        assert(!is_source(files[files.len() - 1].0));
        lemma_no_source_paths(files.drop_last());
    }
}

/// The source counts of a change never exceed its totals.
pub proof fn law_source_within_total(files: Seq<PathStat>)
    ensures
        change_counts(files).source.insertions <= change_counts(files).total.insertions,
        change_counts(files).source.deletions <= change_counts(files).total.deletions,
{
    lemma_fewer_paths_fewer_lines(files);
}

/// A change that touches only source files has no extra totals.
pub proof fn law_source_only_change_has_no_extra(files: Seq<PathStat>)
    requires
        forall|i: int| 0 <= i < files.len() ==> is_source(#[trigger] files[i].0),
    ensures
        change_counts(files).source == change_counts(files).total,
        extra_of(change_counts(files)) is None,
{
    lemma_all_paths_source(files);
}

/// A change that touches no source file counts no source lines, and its
/// totals are extra as soon as it inserts or deletes a line.
pub proof fn law_data_only_change_is_all_extra(files: Seq<PathStat>)
    requires
        forall|i: int| 0 <= i < files.len() ==> !is_source(#[trigger] files[i].0),
    ensures
        change_counts(files).source == (LineCounts { insertions: 0, deletions: 0 }),
        !(change_counts(files).total == (LineCounts { insertions: 0, deletions: 0 })) ==> extra_of(
            change_counts(files),
        ) == Some(change_counts(files).total),
{
    lemma_no_source_paths(files);
}

/// A file with no inserted and no deleted line changes no count.
pub proof fn law_file_without_lines_changes_nothing(files: Seq<PathStat>, path: Seq<char>)
    ensures
        change_counts(files.push((path, 0, 0))) == change_counts(files),
{
    assert(files.push((path, 0u32, 0u32)).drop_last() =~= files);
}

/// The lines `file` adds to the count of `counted` paths.
pub open spec fn counted_insertions(file: PathStat, counted: spec_fn(Seq<char>) -> bool) -> nat {
    if counted(file.0) {
        file.1 as nat
    } else {
        0
    }
}

/// The lines `file` removes, in the count of `counted` paths.
pub open spec fn counted_deletions(file: PathStat, counted: spec_fn(Seq<char>) -> bool) -> nat {
    if counted(file.0) {
        file.2 as nat
    } else {
        0
    }
}

/// Taking one file out of a list takes its lines out of the sums.
proof fn lemma_remove_file(files: Seq<PathStat>, j: int, counted: spec_fn(Seq<char>) -> bool)
    requires
        0 <= j < files.len(),
    ensures
        inserted_lines(files, counted) == inserted_lines(files.remove(j), counted)
            + counted_insertions(files[j], counted),
        deleted_lines(files, counted) == deleted_lines(files.remove(j), counted)
            + counted_deletions(files[j], counted),
    decreases files.len(),
{
    if j == files.len() - 1 {
        assert(files.remove(j) =~= files.drop_last());
    } else {
        let rest = files.remove(j);
        assert(rest.drop_last() =~= files.drop_last().remove(j));
        assert(rest.last() == files.last());
        lemma_remove_file(files.drop_last(), j, counted);
    }
}

/// Sums over two lists that hold the same files, in any order, are equal.
proof fn lemma_reordered_files(
    files: Seq<PathStat>,
    reordered: Seq<PathStat>,
    counted: spec_fn(Seq<char>) -> bool,
)
    requires
        files.to_multiset() == reordered.to_multiset(),
    ensures
        inserted_lines(files, counted) == inserted_lines(reordered, counted),
        deleted_lines(files, counted) == deleted_lines(reordered, counted),
    decreases files.len(),
{
    broadcast use vstd::seq_lib::group_to_multiset_ensures, vstd::multiset::group_multiset_axioms;

    if files.len() == 0 {
        assert(reordered.to_multiset().len() == 0);
        assert(reordered =~= Seq::<PathStat>::empty());
    } else {
        let x = files.last();
        let pre = files.drop_last();
        assert(pre.push(x) =~= files);
        assert(files.to_multiset() =~= pre.to_multiset().insert(x));
        assert(reordered.to_multiset().count(x) > 0);
        assert(reordered.contains(x));
        let j = choose|j: int| 0 <= j < reordered.len() && reordered[j] == x;
        assert(reordered.remove(j).to_multiset() =~= reordered.to_multiset().remove(x));
        assert(pre.to_multiset() =~= pre.to_multiset().insert(x).remove(x));
        lemma_reordered_files(pre, reordered.remove(j), counted);
        lemma_remove_file(reordered, j, counted);
    }
}

/// The line counts of a change do not depend on the order of its files.
pub proof fn law_file_order_does_not_matter(files: Seq<PathStat>, reordered: Seq<PathStat>)
    requires
        files.to_multiset() == reordered.to_multiset(),
    ensures
        change_counts(files) == change_counts(reordered),
{
    lemma_reordered_files(files, reordered, source_paths());
    lemma_reordered_files(files, reordered, any_path());
}

/// Whether `file` leaves the source counts equal to the totals: it is a
/// source file, or it adds and removes no line.
pub open spec fn counted_as_source(file: PathStat) -> bool {
    is_source(file.0) || (file.1 == 0 && file.2 == 0)
}

/// Both ways of counting agree exactly when every file is a source file or
/// changes no line.
proof fn lemma_equal_sums(files: Seq<PathStat>)
    ensures
        (inserted_lines(files, source_paths()) == inserted_lines(files, any_path())
            && deleted_lines(files, source_paths()) == deleted_lines(files, any_path())) <==> (
        forall|i: int| 0 <= i < files.len() ==> counted_as_source(#[trigger] files[i])),
    decreases files.len(),
{
    if files.len() > 0 {
        let pre = files.drop_last();
        lemma_equal_sums(pre);
        lemma_fewer_paths_fewer_lines(pre);
        if forall|i: int| 0 <= i < files.len() ==> counted_as_source(#[trigger] files[i]) {
            assert(counted_as_source(files[files.len() - 1]));
            assert forall|i: int| 0 <= i < pre.len() implies counted_as_source(#[trigger] pre[i]) by {
                assert(pre[i] == files[i]);
            }
        } else {
            let k = choose|k: int| 0 <= k < files.len() && !counted_as_source(#[trigger] files[k]);
            if k < files.len() - 1 {
                assert(pre[k] == files[k]);
            }
        }
    }
}

/// When no sum of lines exceeds `u32::MAX`, a change has no extra totals
/// exactly when each of its files is a source file or changes no line; when
/// it has them, they are its totals.
pub proof fn law_extra_only_from_other_files(files: Seq<PathStat>)
    requires
        inserted_lines(files, any_path()) <= u32::MAX,
        deleted_lines(files, any_path()) <= u32::MAX,
    ensures
        extra_of(change_counts(files)) is None <==> (forall|i: int|
            0 <= i < files.len() ==> counted_as_source(#[trigger] files[i])),
        extra_of(change_counts(files)) matches Some(t) ==> t == change_counts(files).total,
{
    lemma_fewer_paths_fewer_lines(files);
    lemma_equal_sums(files);
}

impl LineCounts {
    /// Whether no line was inserted or deleted.
    pub fn is_zero(self) -> (r: bool)
        ensures
            r == (self.insertions == 0 && self.deletions == 0),
    {
        self.insertions == 0 && self.deletions == 0
    }

    /// Adds a file's lines, each count held at `u32::MAX`.
    fn add(&mut self, insertions: u32, deletions: u32)
        ensures
            final(self).insertions == saturating(old(self).insertions, insertions),
            final(self).deletions == saturating(old(self).deletions, deletions),
    {
        self.insertions = self.insertions.saturating_add(insertions);
        self.deletions = self.deletions.saturating_add(deletions);
    }
}

impl ChangeLineCounts {
    /// Counts the lines of each file into the totals, and those of source
    /// files into the source counts; each count stops at `u32::MAX`.
    pub fn from_path_stats(files: &[(&str, u32, u32)]) -> (r: Self)
        ensures
            r == change_counts(path_stats_view(files@)),
    {
        let exts = extensions();
        let names = filenames();
        let mut counts = ChangeLineCounts::default();
        let ghost all = path_stats_view(files@);
        let n = files.len();
        for k in 0..n
            invariant
                n == files@.len(),
                all == path_stats_view(files@),
                string_views(exts@) == crate::source_path::table_entries(
                    crate::source_path::EXTENSION_TABLE@,
                ),
                string_views(names@) == crate::source_path::table_entries(
                    crate::source_path::FILENAME_TABLE@,
                ),
                counts == change_counts(all.take(k as int)),
        {
            let (path, insertions, deletions) = files[k];
            proof {
                let pre = all.take(k as int);
                let post = all.take(k + 1);
                assert(post.drop_last() =~= pre);
                assert(post.last() == (path@, insertions, deletions));
                lemma_saturating_capped(inserted_lines(pre, any_path()), insertions);
                lemma_saturating_capped(deleted_lines(pre, any_path()), deletions);
                lemma_saturating_capped(inserted_lines(pre, source_paths()), insertions);
                lemma_saturating_capped(deleted_lines(pre, source_paths()), deletions);
            }
            counts.total.add(insertions, deletions);
            if classify_path(path, &exts, &names) {
                counts.source.add(insertions, deletions);
            }
        }
        assert(all.take(n as int) =~= all);
        counts
    }

    /// `from_path_stats` over the paths and counts of `files`.
    pub fn from_file_stats(files: &[FileDiffStats]) -> (r: Self)
        ensures
            r == change_counts(file_stats_view(files@)),
    {
        let mut triples: Vec<(&str, u32, u32)> = Vec::new();
        let n = files.len();
        for k in 0..n
            invariant
                n == files@.len(),
                path_stats_view(triples@) =~= file_stats_view(files@.take(k as int)),
        {
            let file = &files[k];
            let path = file.path.as_str();
            let ghost before = triples@;
            triples.push((path, file.insertions, file.deletions));
            assert(files@.take(k + 1) =~= files@.take(k as int).push(*file));
            assert(triples@ =~= before.push((path, file.insertions, file.deletions)));
            assert(path_stats_view(triples@) =~= path_stats_view(before).push(
                (path@, file.insertions, file.deletions),
            ));
        }
        assert(files@.take(n as int) =~= files@);
        Self::from_path_stats(triples.as_slice())
    }

    /// The totals, when they hold lines that the source counts do not.
    pub fn extra_total(self) -> (r: Option<LineCounts>)
        ensures
            r == extra_of(self),
    {
        if self.source != self.total {
            Some(self.total)
        } else {
            None
        }
    }
}

} // verus!
