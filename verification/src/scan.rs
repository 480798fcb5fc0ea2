//! Aggregating a directory walk: sizes per directory, bytes per category,
//! the largest files, and the listing of one directory.

use vstd::prelude::*;
use crate::apps::InstalledApps;
use crate::category::{real_categories, clearable_seq, Category};
use crate::classify::{classify_entry, classify_spec, probe_path, PathProbes};
use crate::dirmap::{empty_info, DirInfo, DirMap};
use crate::order::{
    copy_all, lemma_sort_desc_multiset, lemma_sort_desc_sorted, prefix, sort_by_size_desc, sort_desc,
    sorted_desc, top_by_size, Weighed,
};
use crate::paths::{
    child_path, dir_path, final_component, is_same_path, lemma_parent_of_child,
    lemma_parent_shorter, lemma_trim_tail, parent_path, parent_rel, path_file_name, path_parent,
    relative_path, same_path, trim_tail,
};
use crate::text::chars_of;

verus! {

broadcast use vstd::seq_lib::group_seq_properties;

/// Files above this many bytes are remembered individually.
pub const LARGE_FILE_BYTES: u64 = 10_000_000;

/// How many of the largest files a snapshot keeps.
pub const TOP_FILES: usize = 100;

/// `q` and its ancestors, nearest first, ending at `root` (or at the top
/// when `root` is not among them).
pub open spec fn chain_from(q: Seq<char>, root: Seq<char>) -> Seq<Seq<char>>
    decreases q.len(),
{
    if same_path(q, root) {
        seq![q]
    } else {
        match parent_path(q) {
            Some(r) => {
                proof {
                    lemma_parent_shorter(q);
                }
                seq![q] + chain_from(r, root)
            },
            None => seq![q],
        }
    }
}

/// The directories whose size a file at `p` counts towards: its ancestors,
/// nearest first, up to and including `root`.
pub open spec fn upward(p: Seq<char>, root: Seq<char>) -> Seq<Seq<char>> {
    match parent_path(p) {
        Some(q) => chain_from(q, root),
        None => Seq::empty(),
    }
}

/// The paths consulted, in order, to decide a file's category: the file,
/// then its ancestors up to `root`.
pub open spec fn attribution_chain(p: Seq<char>, root: Seq<char>) -> Seq<Seq<char>> {
    seq![p] + upward(p, root)
}

/// The final component of `p`, or the empty name.
pub open spec fn entry_name(p: Seq<char>) -> Seq<char> {
    match final_component(p) {
        Some(c) => c,
        None => Seq::empty(),
    }
}

/// The category of the first path of `chain` from position `j` on that
/// classifies as anything, `answers[i]` being what the file system said
/// about `chain[i]`.
pub open spec fn first_category(
    chain: Seq<Seq<char>>,
    names: Set<Seq<char>>,
    ids: Set<Seq<char>>,
    answers: Seq<PathProbes>,
    j: int,
) -> Category
    decreases chain.len() - j,
{
    if j < 0 || j >= chain.len() {
        Category::Uncategorized
    } else {
        let c = classify_spec(chain[j], entry_name(chain[j]), names, ids, answers[j]);
        if c != Category::Uncategorized {
            c
        } else {
            first_category(chain, names, ids, answers, j + 1)
        }
    }
}

/// Each path of a chain is strictly shorter than the ones before it.
pub proof fn lemma_chain_shrinks(q: Seq<char>, root: Seq<char>)
    ensures
        chain_from(q, root).len() >= 1,
        chain_from(q, root)[0] == q,
        forall|i: int, j: int|
            0 <= i < j < chain_from(q, root).len() ==> #[trigger] chain_from(q, root)[i].len()
                > #[trigger] chain_from(q, root)[j].len(),
    decreases q.len(),
{
    if !same_path(q, root) {
        lemma_parent_shorter(q);
        if let Some(r) = parent_path(q) {
            lemma_chain_shrinks(r, root);
            let c = chain_from(q, root);
            let t = chain_from(r, root);
            assert(c == seq![q] + t);
            assert forall|i: int, j: int| 0 <= i < j < c.len() implies #[trigger] c[i].len()
                > #[trigger] c[j].len() by {
                if i == 0 {
                    assert(c[j] == t[j - 1]);
                    if j - 1 > 0 {
                        assert(t[0].len() > t[j - 1].len());
                    }
                } else {
                    assert(c[i] == t[i - 1] && c[j] == t[j - 1]);
                }
            }
        }
    }
}

/// The directories of a chain are distinct.
pub proof fn lemma_upward_distinct(p: Seq<char>, root: Seq<char>)
    ensures
        forall|i: int, j: int|
            0 <= i < upward(p, root).len() && 0 <= j < upward(p, root).len() && i != j
                ==> #[trigger] upward(p, root)[i] != #[trigger] upward(p, root)[j],
{
    if let Some(q) = parent_path(p) {
        lemma_chain_shrinks(q, root);
        let c = upward(p, root);
        assert forall|i: int, j: int|
            0 <= i < c.len() && 0 <= j < c.len() && i != j implies #[trigger] c[i]
            != #[trigger] c[j] by {
            if i < j {
                assert(c[i].len() > c[j].len());
            } else {
                assert(c[j].len() > c[i].len());
            }
        }
    }
}

/// Position of a category in the per-category tallies.
pub open spec fn cat_index(c: Category) -> int {
    match c {
        Category::Cache => 0,
        Category::BuildArtifact => 1,
        Category::Docker => 2,
        Category::Simulator => 3,
        Category::Messages => 4,
        Category::ICloud => 5,
        Category::AppData => 6,
        Category::OrphanedAppData => 7,
        Category::Downloads => 8,
        Category::Trash => 9,
        Category::NodeModules => 10,
        Category::PackageCache => 11,
        Category::Xcode => 12,
        Category::Logs => 13,
        Category::VirtualMachine => 14,
        Category::BrowserData => 15,
        Category::Mail => 16,
        Category::Photos => 17,
        Category::MusicMedia => 18,
        Category::Backup => 19,
        Category::Python => 20,
        Category::AndroidSdk => 21,
        Category::Uncategorized => 22,
    }
}

fn category_index(c: Category) -> (i: usize)
    ensures
        i == cat_index(c),
{
    match c {
        Category::Cache => 0,
        Category::BuildArtifact => 1,
        Category::Docker => 2,
        Category::Simulator => 3,
        Category::Messages => 4,
        Category::ICloud => 5,
        Category::AppData => 6,
        Category::OrphanedAppData => 7,
        Category::Downloads => 8,
        Category::Trash => 9,
        Category::NodeModules => 10,
        Category::PackageCache => 11,
        Category::Xcode => 12,
        Category::Logs => 13,
        Category::VirtualMachine => 14,
        Category::BrowserData => 15,
        Category::Mail => 16,
        Category::Photos => 17,
        Category::MusicMedia => 18,
        Category::Backup => 19,
        Category::Python => 20,
        Category::AndroidSdk => 21,
        Category::Uncategorized => 22,
    }
}

/// Sum of a sequence of byte counts.
pub open spec fn sum_u64(s: Seq<u64>) -> int
    decreases s.len(),
{
    if s.len() == 0 {
        0
    } else {
        sum_u64(s.drop_last()) + s.last()
    }
}

proof fn lemma_sum_update(s: Seq<u64>, i: int, v: u64)
    requires
        0 <= i < s.len(),
    ensures
        sum_u64(s.update(i, v)) == sum_u64(s) - s[i] + v,
        s[i] <= sum_u64(s),
        sum_u64(s) >= 0,
    decreases s.len(),
{
    if i < s.len() - 1 {
        assert(s.update(i, v).drop_last() =~= s.drop_last().update(i, v));
        lemma_sum_update(s.drop_last(), i, v);
    } else {
        assert(s.update(i, v).drop_last() =~= s.drop_last());
        lemma_sum_nonneg(s.drop_last());
    }
}

proof fn lemma_sum_nonneg(s: Seq<u64>)
    ensures
        sum_u64(s) >= 0,
    decreases s.len(),
{
    if s.len() > 0 {
        lemma_sum_nonneg(s.drop_last());
    }
}

/// The record of `k` in `m`, or the empty record.
pub open spec fn info_in(m: Map<Seq<char>, DirInfo>, k: Seq<char>) -> DirInfo {
    if m.contains_key(k) {
        m[k]
    } else {
        empty_info()
    }
}

/// A file remembered for being large.
#[derive(Clone)]
pub struct FileSize {
    pub path: String,
    pub size: u64,
}

impl Weighed for FileSize {
    open spec fn weight(&self) -> u64 {
        self.size
    }

    fn bytes(&self) -> (r: u64) {
        self.size
    }

    fn duplicate(&self) -> (r: Self) {
        FileSize { path: self.path.clone(), size: self.size }
    }
}

/// Everything a walk has learned so far.
#[derive(Clone)]
pub struct ScanState {
    root: String,
    dirs: DirMap,
    cat_sizes: Vec<u64>,
    cat_seen: Vec<bool>,
    large_files: Vec<FileSize>,
    total_size: u64,
    entries_seen: usize,
}

impl ScanState {
    /// The directory the walk started from.
    pub closed spec fn root_path(&self) -> Seq<char> {
        self.root@
    }

    /// What was learned per directory.
    pub closed spec fn dirs_view(&self) -> Map<Seq<char>, DirInfo> {
        self.dirs@
    }

    /// Bytes of all regular files recorded.
    pub closed spec fn total(&self) -> u64 {
        self.total_size
    }

    /// Files and directories recorded.
    pub closed spec fn seen(&self) -> usize {
        self.entries_seen
    }

    /// Bytes attributed to category `c`.
    pub closed spec fn category_total(&self, c: Category) -> u64 {
        if c == Category::Uncategorized {
            0
        } else {
            self.cat_sizes@[cat_index(c)]
        }
    }

    /// Some file was attributed to category `c` (possibly an empty one).
    pub closed spec fn category_recorded(&self, c: Category) -> bool {
        c != Category::Uncategorized && self.cat_seen@[cat_index(c)]
    }

    /// The large files recorded, in the order they were met.
    pub closed spec fn large_seq(&self) -> Seq<FileSize> {
        self.large_files@
    }

    /// Path and size of the large files recorded, in the order they were met.
    pub open spec fn large_pairs(&self) -> Seq<(Seq<char>, u64)> {
        self.large_seq().map_values(|f: FileSize| (f.path@, f.size))
    }

    /// The tallies are consistent: 22 category slots, no directory or
    /// category total above the overall total, and only large files remembered.
    pub closed spec fn wf(&self) -> bool {
        &&& self.dirs.wf()
        &&& self.cat_sizes@.len() == 22
        &&& self.cat_seen@.len() == 22
        &&& forall|k: Seq<char>|
            #[trigger] self.dirs@.contains_key(k) ==> self.dirs@[k].size <= self.total_size
                && self.dirs@[k].children <= self.entries_seen
        &&& sum_u64(self.cat_sizes@) <= self.total_size
        &&& forall|i: int|
            0 <= i < self.large_files@.len() ==> #[trigger] self.large_files@[i].size
                > LARGE_FILE_BYTES
    }

    /// Nothing recorded yet for a walk of `root`.
    pub fn new(root: &str) -> (r: Self)
        ensures
            r.wf(),
            r.root_path() == root@,
            r.dirs_view() == Map::<Seq<char>, DirInfo>::empty(),
            r.total() == 0,
            r.seen() == 0,
            r.large_seq() == Seq::<FileSize>::empty(),
            forall|c: Category| r.category_total(c) == 0 && !r.category_recorded(c),
    {
        let mut cat_sizes: Vec<u64> = Vec::new();
        let mut cat_seen: Vec<bool> = Vec::new();
        let mut i: usize = 0;
        while i < 22
            invariant
                i <= 22,
                cat_sizes@.len() == i,
                cat_seen@.len() == i,
                forall|j: int| 0 <= j < i ==> cat_sizes@[j] == 0 && !cat_seen@[j],
                sum_u64(cat_sizes@) == 0,
            decreases 22 - i,
        {
            proof {
                assert(cat_sizes@.push(0).drop_last() =~= cat_sizes@);
            }
            cat_sizes.push(0);
            cat_seen.push(false);
            i = i + 1;
        }
        let r = ScanState {
            root: root.to_owned(),
            dirs: DirMap::new(),
            cat_sizes,
            cat_seen,
            large_files: Vec::new(),
            total_size: 0,
            entries_seen: 0,
        };
        r
    }

    /// The directory the walk started from.
    pub fn root(&self) -> (r: &str)
        ensures
            r@ == self.root_path(),
    {
        self.root.as_str()
    }

    /// Bytes of all regular files recorded.
    pub fn total_size(&self) -> (r: u64)
        ensures
            r == self.total(),
    {
        self.total_size
    }

    /// Files and directories recorded so far.
    pub fn entries_seen(&self) -> (r: usize)
        ensures
            r == self.seen(),
    {
        self.entries_seen
    }

    /// What the walk learned about the directory `path`.
    pub fn dir_info(&self, path: &str) -> (r: DirInfo)
        requires
            self.wf(),
        ensures
            r == info_in(self.dirs_view(), path@),
    {
        let pc = chars_of(path);
        self.dirs.get_or_empty(pc.as_slice())
    }

    /// Bytes attributed to category `c`.
    pub fn category_bytes(&self, c: Category) -> (r: u64)
        requires
            self.wf(),
        ensures
            r == self.category_total(c),
    {
        if c == Category::Uncategorized {
            0
        } else {
            self.cat_sizes[category_index(c)]
        }
    }

    /// Whether some file was attributed to category `c`.
    pub fn has_category(&self, c: Category) -> (r: bool)
        requires
            self.wf(),
        ensures
            r == self.category_recorded(c),
    {
        if c == Category::Uncategorized {
            false
        } else {
            self.cat_seen[category_index(c)]
        }
    }

    /// Adds one child to the record of `dir`.
    fn count_child(&mut self, dir: &str)
        requires
            old(self).wf(),
            old(self).entries_seen < usize::MAX,
        ensures
            final(self).wf(),
            final(self).dirs@ == old(self).dirs@.insert(
                dir@,
                DirInfo {
                    children: (info_in(old(self).dirs@, dir@).children + 1) as usize,
                    ..info_in(old(self).dirs@, dir@)
                },
            ),
            final(self).entries_seen == old(self).entries_seen + 1,
            final(self).total_size == old(self).total_size,
            final(self).cat_sizes == old(self).cat_sizes,
            final(self).cat_seen == old(self).cat_seen,
            final(self).large_files == old(self).large_files,
            final(self).root == old(self).root,
    {
        let dc = chars_of(dir);
        let info = self.dirs.get_or_empty(dc.as_slice());
        self.dirs.put(dc, DirInfo { children: info.children + 1, ..info });
        self.entries_seen = self.entries_seen + 1;
        assert forall|k: Seq<char>| #[trigger] self.dirs@.contains_key(k) implies self.dirs@[k].size
            <= self.total_size && self.dirs@[k].children <= self.entries_seen by {
            if k != dir@ {
                assert(old(self).dirs@.contains_key(k));
            }
        }
    }

    /// A directory met by the walk: it counts as a child of its parent,
    /// unless it is the root itself.
    pub fn record_dir(&mut self, path: &str)
        requires
            old(self).wf(),
            old(self).seen() < usize::MAX,
        ensures
            final(self).wf(),
            final(self).root_path() == old(self).root_path(),
            final(self).total() == old(self).total(),
            final(self).large_seq() == old(self).large_seq(),
            forall|c: Category|
                final(self).category_total(c) == old(self).category_total(c)
                    && final(self).category_recorded(c) == old(self).category_recorded(c),
            final(self).dirs_view() == (match parent_path(path@) {
                Some(q) => if same_path(path@, old(self).root_path()) {
                    old(self).dirs_view()
                } else {
                    old(self).dirs_view().insert(
                        q,
                        DirInfo {
                            children: (info_in(old(self).dirs_view(), q).children + 1) as usize,
                            ..info_in(old(self).dirs_view(), q)
                        },
                    )
                },
                None => old(self).dirs_view(),
            }),
    {
        if let Some(parent) = path_parent(path) {
            if !is_same_path(path, self.root.as_str()) {
                self.count_child(parent);
            }
        }
    }

    /// An entry whose metadata could not be read: its parent is marked.
    pub fn record_unreadable(&mut self, path: &str)
        requires
            old(self).wf(),
        ensures
            final(self).wf(),
            final(self).root_path() == old(self).root_path(),
            final(self).total() == old(self).total(),
            final(self).seen() == old(self).seen(),
            final(self).large_seq() == old(self).large_seq(),
            forall|c: Category|
                final(self).category_total(c) == old(self).category_total(c)
                    && final(self).category_recorded(c) == old(self).category_recorded(c),
            final(self).dirs_view() == (match parent_path(path@) {
                Some(q) => old(self).dirs_view().insert(
                    q,
                    DirInfo { error: true, ..info_in(old(self).dirs_view(), q) },
                ),
                None => old(self).dirs_view(),
            }),
    {
        if let Some(parent) = path_parent(path) {
            let dc = chars_of(parent);
            let info = self.dirs.get_or_empty(dc.as_slice());
            self.dirs.put(dc, DirInfo { error: true, ..info });
            assert forall|k: Seq<char>| #[trigger] self.dirs@.contains_key(k) implies self.dirs@[k].size
                <= self.total_size && self.dirs@[k].children <= self.entries_seen by {
                if k != parent@ {
                    assert(old(self).dirs@.contains_key(k));
                }
            }
        }
    }

    /// Adds `size` bytes to each directory of `chain`.
    fn add_size_along(&mut self, chain: &Vec<&str>, size: u64)
        requires
            old(self).wf(),
            old(self).total_size + size <= u64::MAX,
            forall|i: int, j: int|
                0 <= i < chain@.len() && 0 <= j < chain@.len() && i != j ==> #[trigger] chain@[i]@
                    != #[trigger] chain@[j]@,
        ensures
            final(self).wf(),
            final(self).total_size == old(self).total_size + size,
            final(self).entries_seen == old(self).entries_seen,
            final(self).cat_sizes == old(self).cat_sizes,
            final(self).cat_seen == old(self).cat_seen,
            final(self).large_files == old(self).large_files,
            final(self).root == old(self).root,
            final(self).dirs@.dom() == old(self).dirs@.dom().union(
                chain@.map_values(|s: &str| s@).to_set(),
            ),
            forall|k: Seq<char>|
                #[trigger] info_in(final(self).dirs@, k) == (if chain@.map_values(
                    |s: &str| s@,
                ).contains(k) {
                    DirInfo {
                        size: (info_in(old(self).dirs@, k).size + size) as u64,
                        ..info_in(old(self).dirs@, k)
                    }
                } else {
                    info_in(old(self).dirs@, k)
                }),
    {
        let ghost cv = chain@.map_values(|s: &str| s@);
        let ghost d0 = self.dirs@;
        let ghost t0 = self.total_size;
        self.total_size = self.total_size + size;
        let mut i: usize = 0;
        while i < chain.len()
            invariant
                i <= chain@.len(),
                cv == chain@.map_values(|s: &str| s@),
                forall|a: int, b: int|
                    0 <= a < chain@.len() && 0 <= b < chain@.len() && a != b ==> #[trigger] chain@[a]@
                        != #[trigger] chain@[b]@,
                self.dirs.wf(),
                self.cat_sizes@.len() == 22,
                self.cat_seen@.len() == 22,
                self.cat_sizes == old(self).cat_sizes,
                self.cat_seen == old(self).cat_seen,
                self.large_files == old(self).large_files,
                self.root == old(self).root,
                self.entries_seen == old(self).entries_seen,
                self.total_size == t0 + size,
                sum_u64(self.cat_sizes@) <= t0,
                forall|k: Seq<char>|
                    #[trigger] d0.contains_key(k) ==> d0[k].size <= t0 && d0[k].children
                        <= self.entries_seen,
                self.dirs@.dom() == d0.dom().union(cv.take(i as int).to_set()),
                forall|k: Seq<char>|
                    #[trigger] info_in(self.dirs@, k) == (if cv.take(i as int).contains(k) {
                        DirInfo { size: (info_in(d0, k).size + size) as u64, ..info_in(d0, k) }
                    } else {
                        info_in(d0, k)
                    }),
            decreases chain@.len() - i,
        {
            let q = chain[i];
            let qc = chars_of(q);
            proof {
                assert(cv[i as int] == q@);
                if cv.take(i as int).contains(q@) {
                    let a = choose|a: int| 0 <= a < i && cv.take(i as int)[a] == q@;
                    assert(chain@[a]@ == chain@[i as int]@);
                }
            }
            let info = self.dirs.get_or_empty(qc.as_slice());
            assert(info == info_in(self.dirs@, q@));
            assert(info == info_in(d0, q@));
            let ghost dm = self.dirs@;
            self.dirs.put(qc, DirInfo { size: info.size + size, ..info });
            i = i + 1;
            proof {
                assert(cv.take(i as int) =~= cv.take(i - 1).push(q@));
                assert(self.dirs@.dom() =~= d0.dom().union(cv.take(i as int).to_set()));
                assert forall|k: Seq<char>| #[trigger] info_in(self.dirs@, k) == (if cv.take(
                    i as int,
                ).contains(k) {
                    DirInfo { size: (info_in(d0, k).size + size) as u64, ..info_in(d0, k) }
                } else {
                    info_in(d0, k)
                }) by {
                    if k != q@ {
                        assert(info_in(self.dirs@, k) == info_in(dm, k));
                        assert(cv.take(i as int).contains(k) == cv.take(i - 1).contains(k));
                    } else {
                        assert(cv.take(i as int)[i - 1] == k);
                    }
                }
            }
        }
        proof {
            assert(cv.take(chain@.len() as int) =~= cv);
            assert forall|k: Seq<char>| #[trigger] self.dirs@.contains_key(k) implies self.dirs@[k].size
                <= self.total_size && self.dirs@[k].children <= self.entries_seen by {
                assert(info_in(self.dirs@, k) == self.dirs@[k]);
            }
        }
    }

    /// Decides the category a file counts towards: the first of the file
    /// and `chain` that classifies as anything.
    fn attribute(path: &str, chain: &Vec<&str>, installed: &InstalledApps) -> (r: (
        Category,
        Ghost<Seq<PathProbes>>,
    ))
        ensures
            r.0 == first_category(
                seq![path@] + chain@.map_values(|s: &str| s@),
                installed.name_set(),
                installed.bundle_id_set(),
                r.1@,
                0,
            ),
    {
        let ghost ach = seq![path@] + chain@.map_values(|s: &str| s@);
        let ghost names = installed.name_set();
        let ghost ids = installed.bundle_id_set();
        let ghost mut answers: Seq<PathProbes> = Seq::empty();
        let n = chain.len();
        let mut j: usize = 0;
        loop
            invariant
                j <= n,
                n == chain@.len(),
                ach == seq![path@] + chain@.map_values(|s: &str| s@),
                names == installed.name_set(),
                ids == installed.bundle_id_set(),
                answers.len() == j,
                forall|a: Seq<PathProbes>|
                    a.len() >= j && a.take(j as int) == answers ==> #[trigger] first_category(
                        ach,
                        names,
                        ids,
                        a,
                        0,
                    ) == first_category(ach, names, ids, a, j as int),
            decreases n - j,
        {
            let q: &str = if j == 0 {
                path
            } else {
                chain[j - 1]
            };
            assert(ach[j as int] == q@);
            let name: &str = match path_file_name(q) {
                Some(c) => c,
                None => {
                    let e = "";
                    proof {
                        reveal_strlit("");
                    }
                    assert(e@ =~= Seq::<char>::empty());
                    e
                },
            };
            assert(name@ == entry_name(q@));
            let fs = probe_path(q, name);
            let c = classify_entry(q, name, installed, &fs);
            let ghost prev = answers;
            proof {
                answers = answers.push(fs);
                assert forall|a: Seq<PathProbes>|
                    a.len() >= j + 1 && a.take(j + 1) == answers implies #[trigger] first_category(
                    ach,
                    names,
                    ids,
                    a,
                    0,
                ) == (if c != Category::Uncategorized {
                    c
                } else {
                    first_category(ach, names, ids, a, j + 1)
                }) by {
                    assert(a.take(j as int) =~= prev);
                    assert(a[j as int] == a.take(j + 1)[j as int]);
                }
            }
            if c != Category::Uncategorized {
                proof {
                    assert(answers.take(j + 1) =~= answers);
                }
                return (c, Ghost(answers));
            }
            if j == n {
                proof {
                    assert(answers.take(j + 1) =~= answers);
                }
                return (Category::Uncategorized, Ghost(answers));
            }
            j = j + 1;
        }
    }

    /// Adds `size` bytes to category `c` and marks it recorded.
    fn add_to_category(&mut self, c: Category, size: u64)
        requires
            old(self).wf(),
            c != Category::Uncategorized,
            sum_u64(old(self).cat_sizes@) + size <= old(self).total_size,
        ensures
            final(self).wf(),
            final(self).total_size == old(self).total_size,
            final(self).entries_seen == old(self).entries_seen,
            final(self).dirs@ == old(self).dirs@,
            final(self).large_files == old(self).large_files,
            final(self).root == old(self).root,
            forall|d: Category|
                final(self).category_total(d) == old(self).category_total(d) + (if d == c {
                    size
                } else {
                    0
                }) && final(self).category_recorded(d) == (old(self).category_recorded(d) || d
                    == c),
    {
        let i = category_index(c);
        proof {
            lemma_sum_update(self.cat_sizes@, i as int, (self.cat_sizes@[i as int] + size) as u64);
        }
        let v = self.cat_sizes[i];
        self.cat_sizes.set(i, v + size);
        self.cat_seen.set(i, true);
    }

    /// A regular file of `size` bytes met by the walk.  Its bytes count
    /// towards the total, towards every directory from its parent up to the
    /// root, and towards the category of the first of the file and those
    /// directories that classifies as anything (whatever the file system
    /// answers the classification's questions); the file counts as a child
    /// of its parent; files over 10 MB are remembered.
    pub fn record_file(&mut self, path: &str, size: u64, installed: &InstalledApps)
        requires
            old(self).wf(),
            old(self).total() + size <= u64::MAX,
            old(self).seen() < usize::MAX,
        ensures
            final(self).wf(),
            final(self).root_path() == old(self).root_path(),
            final(self).total() == old(self).total() + size,
            final(self).seen() == old(self).seen() + 1,
            final(self).dirs_view().dom() == old(self).dirs_view().dom().union(
                upward(path@, old(self).root_path()).to_set(),
            ),
            forall|k: Seq<char>|
                #[trigger] info_in(final(self).dirs_view(), k) == (DirInfo {
                    size: (info_in(old(self).dirs_view(), k).size + (if upward(
                        path@,
                        old(self).root_path(),
                    ).contains(k) {
                        size as int
                    } else {
                        0int
                    })) as u64,
                    children: (info_in(old(self).dirs_view(), k).children + (if parent_path(path@)
                        == Some(k) {
                        1int
                    } else {
                        0int
                    })) as usize,
                    error: info_in(old(self).dirs_view(), k).error,
                }),
            final(self).large_pairs() == (if size > LARGE_FILE_BYTES {
                old(self).large_pairs().push((path@, size))
            } else {
                old(self).large_pairs()
            }),
            exists|answers: Seq<PathProbes>|
                {
                    let c = #[trigger] first_category(
                        attribution_chain(path@, old(self).root_path()),
                        installed.name_set(),
                        installed.bundle_id_set(),
                        answers,
                        0,
                    );
                    forall|d: Category|
                        final(self).category_total(d) == old(self).category_total(d) + (if d == c
                            && c != Category::Uncategorized {
                            size
                        } else {
                            0
                        }) && final(self).category_recorded(d) == (old(self).category_recorded(d)
                            || (d == c && c != Category::Uncategorized))
                },
    {
        let ghost root = self.root@;
        let ghost d0 = self.dirs@;
        let chain = upward_chain(path, self.root.as_str());
        proof {
            lemma_upward_distinct(path@, root);
            let cv = chain@.map_values(|s: &str| s@);
            assert forall|i: int, j: int|
                0 <= i < chain@.len() && 0 <= j < chain@.len() && i != j implies #[trigger] chain@[i]@
                != #[trigger] chain@[j]@ by {
                assert(cv[i] == chain@[i]@ && cv[j] == chain@[j]@);
            }
        }
        self.add_size_along(&chain, size);
        let ghost d1 = self.dirs@;
        match path_parent(path) {
            Some(parent) => {
                proof {
                    lemma_chain_shrinks(parent@, root);
                    assert(chain@.map_values(|s: &str| s@)[0] == parent@);
                }
                self.count_child(parent);
            },
            None => {
                self.entries_seen = self.entries_seen + 1;
            },
        }
        proof {
            let cv = chain@.map_values(|s: &str| s@);
            assert(cv == upward(path@, root));
            assert forall|k: Seq<char>| #[trigger] info_in(self.dirs@, k) == (DirInfo {
                size: (info_in(d0, k).size + (if upward(path@, root).contains(k) {
                    size as int
                } else {
                    0int
                })) as u64,
                children: (info_in(d0, k).children + (if parent_path(path@) == Some(k) {
                    1int
                } else {
                    0int
                })) as usize,
                error: info_in(d0, k).error,
            }) by {
                assert(info_in(d1, k) == (if cv.contains(k) {
                    DirInfo { size: (info_in(d0, k).size + size) as u64, ..info_in(d0, k) }
                } else {
                    info_in(d0, k)
                }));
                if parent_path(path@) == Some(k) {
                    assert(cv.contains(k)) by {
                        assert(cv[0] == k);
                    }
                }
            }
            assert(self.dirs@.dom() =~= d0.dom().union(upward(path@, root).to_set()));
        }
        if size > LARGE_FILE_BYTES {
            self.large_files.push(FileSize { path: path.to_owned(), size });
            proof {
                assert(self.large_pairs() =~= old(self).large_pairs().push((path@, size)));
            }
        }
        let (c, answers) = Self::attribute(path, &chain, installed);
        proof {
            assert(seq![path@] + chain@.map_values(|s: &str| s@) == attribution_chain(path@, root));
        }
        if c != Category::Uncategorized {
            self.add_to_category(c, size);
        }
        proof {
            let c0 = first_category(
                attribution_chain(path@, old(self).root_path()),
                installed.name_set(),
                installed.bundle_id_set(),
                answers@,
                0,
            );
            assert(c0 == c);
            assert(forall|d: Category|
                self.category_total(d) == old(self).category_total(d) + (if d == c0 && c0
                    != Category::Uncategorized {
                    size
                } else {
                    0
                }) && self.category_recorded(d) == (old(self).category_recorded(d) || (d == c0
                    && c0 != Category::Uncategorized)));
        }
    }
}

/// The ancestors of `path`, nearest first, up to and including `root`.
pub fn upward_chain<'a>(path: &'a str, root: &str) -> (r: Vec<&'a str>)
    ensures
        r@.map_values(|s: &str| s@) == upward(path@, root@),
{
    let mut out: Vec<&'a str> = Vec::new();
    let mut cur = path_parent(path);
    proof {
        lemma_parent_shorter(path@);
    }
    loop
        invariant
            upward(path@, root@) == out@.map_values(|s: &str| s@) + match cur {
                Some(q) => chain_from(q@, root@),
                None => Seq::<Seq<char>>::empty(),
            },
        decreases match cur {
            Some(q) => q@.len() + 1,
            None => 0,
        },
    {
        match cur {
            None => {
                assert(out@.map_values(|s: &str| s@) + Seq::<Seq<char>>::empty() =~= out@.map_values(
                    |s: &str| s@,
                ));
                return out;
            },
            Some(q) => {
                let ghost before = out@.map_values(|s: &str| s@);
                out.push(q);
                assert(out@.map_values(|s: &str| s@) =~= before.push(q@));
                if is_same_path(q, root) {
                    assert(before + chain_from(q@, root@) =~= before.push(q@));
                    assert(out@.map_values(|s: &str| s@) + Seq::<Seq<char>>::empty() =~= before.push(
                        q@,
                    ));
                    return out;
                }
                proof {
                    lemma_parent_shorter(q@);
                }
                let next = path_parent(q);
                proof {
                    match next {
                        Some(r) => {
                            assert(chain_from(q@, root@) == seq![q@] + chain_from(r@, root@));
                            assert(before + chain_from(q@, root@) =~= before.push(q@)
                                + chain_from(r@, root@));
                        },
                        None => {
                            assert(chain_from(q@, root@) == seq![q@]);
                            assert(before + chain_from(q@, root@) =~= before.push(q@)
                                + Seq::<Seq<char>>::empty());
                        },
                    }
                }
                cur = next;
            },
        }
    }
}

/// One entry of a directory listing, as read from the file system (symbolic
/// links and unreadable entries already left out).
pub struct RawEntry {
    pub name: String,
    pub path: String,
    pub is_dir: bool,
    /// Length reported by the file system (used for files).
    pub len: u64,
}

/// One entry of a directory listing, with what the scan knows about it.
#[derive(Clone)]
pub struct DirEntry {
    pub name: String,
    pub path: String,
    pub size: u64,
    pub is_dir: bool,
    pub category: Category,
    pub children_count: usize,
    pub error: bool,
}

impl Weighed for DirEntry {
    open spec fn weight(&self) -> u64 {
        self.size
    }

    fn bytes(&self) -> (r: u64) {
        self.size
    }

    fn duplicate(&self) -> (r: Self) {
        DirEntry {
            name: self.name.clone(),
            path: self.path.clone(),
            size: self.size,
            is_dir: self.is_dir,
            category: self.category,
            children_count: self.children_count,
            error: self.error,
        }
    }
}

/// The listing entry for `raw`: directories take their size and child count
/// from the scan, files their own length; `fs` is what the file system said
/// about the entry's neighbourhood.
pub open spec fn entry_of(
    raw: RawEntry,
    m: Map<Seq<char>, DirInfo>,
    names: Set<Seq<char>>,
    ids: Set<Seq<char>>,
    fs: PathProbes,
) -> DirEntry {
    DirEntry {
        name: raw.name,
        path: raw.path,
        size: if raw.is_dir {
            info_in(m, raw.path@).size
        } else {
            raw.len
        },
        is_dir: raw.is_dir,
        category: classify_spec(raw.path@, raw.name@, names, ids, fs),
        children_count: if raw.is_dir {
            info_in(m, raw.path@).children
        } else {
            0
        },
        error: info_in(m, raw.path@).error,
    }
}

/// The entries of a listing, in listing order.
pub open spec fn listing_entries(
    raws: Seq<RawEntry>,
    m: Map<Seq<char>, DirInfo>,
    names: Set<Seq<char>>,
    ids: Set<Seq<char>>,
    answers: Seq<PathProbes>,
) -> Seq<DirEntry> {
    Seq::new(raws.len(), |i: int| entry_of(raws[i], m, names, ids, answers[i]))
}

/// Whether space in category `c` can be reclaimed.
pub open spec fn clearable(c: Category) -> bool {
    clearable_seq().contains(c)
}

/// Whether space in category `c` can be reclaimed.
pub fn is_clearable(c: Category) -> (r: bool)
    ensures
        r == clearable(c),
{
    let r = match c {
        Category::Cache | Category::BuildArtifact | Category::Docker | Category::Simulator
        | Category::NodeModules | Category::PackageCache | Category::Trash | Category::Logs
        | Category::Xcode | Category::OrphanedAppData | Category::Python
        | Category::AndroidSdk => true,
        _ => false,
    };
    proof {
        let cs = clearable_seq();
        if r {
            assert(cs[0] == Category::Cache && cs[1] == Category::BuildArtifact && cs[2]
                == Category::Docker && cs[3] == Category::Simulator && cs[4]
                == Category::NodeModules && cs[5] == Category::PackageCache && cs[6]
                == Category::Trash && cs[7] == Category::Logs && cs[8] == Category::Xcode && cs[9]
                == Category::OrphanedAppData && cs[10] == Category::Python && cs[11]
                == Category::AndroidSdk);
        }
    }
    r
}

impl ScanState {
    /// The entries of one directory listing, largest first (stably), with
    /// sizes, child counts and error marks from the scan and a category for
    /// whatever the file system answers the classification's questions.
    pub fn build_entries(&self, listing: Vec<RawEntry>, installed: &InstalledApps) -> (r: Vec<
        DirEntry,
    >)
        requires
            self.wf(),
        ensures
            exists|answers: Seq<PathProbes>|
                answers.len() == listing@.len() && r@ == sort_desc(
                    #[trigger] listing_entries(
                        listing@,
                        self.dirs_view(),
                        installed.name_set(),
                        installed.bundle_id_set(),
                        answers,
                    ),
                ),
    {
        let ghost raws = listing@;
        let ghost m = self.dirs_view();
        let ghost names = installed.name_set();
        let ghost ids = installed.bundle_id_set();
        let ghost mut answers: Seq<PathProbes> = Seq::empty();
        let mut entries: Vec<DirEntry> = Vec::new();
        for raw in it: listing
            invariant
                it.seq() == raws,
                self.wf(),
                m == self.dirs_view(),
                names == installed.name_set(),
                ids == installed.bundle_id_set(),
                answers.len() == it.index(),
                entries@ == listing_entries(raws.take(it.index() as int), m, names, ids, answers),
        {
            let ghost k = it.index() as int;
            let ghost raw0 = raw;
            let info = self.dir_info(raw.path.as_str());
            let fs = probe_path(raw.path.as_str(), raw.name.as_str());
            let category = classify_entry(raw.path.as_str(), raw.name.as_str(), installed, &fs);
            let size = if raw.is_dir {
                info.size
            } else {
                raw.len
            };
            let children_count = if raw.is_dir {
                info.children
            } else {
                0
            };
            let e = DirEntry {
                name: raw.name,
                path: raw.path,
                size,
                is_dir: raw.is_dir,
                category,
                children_count,
                error: info.error,
            };
            proof {
                assert(raws[k] == raw0);
                assert(e == entry_of(raw0, m, names, ids, fs));
            }
            entries.push(e);
            proof {
                let prev = answers;
                answers = answers.push(fs);
                assert(entries@ =~= listing_entries(raws.take(k + 1), m, names, ids, answers)) by {
                    assert forall|i: int| 0 <= i < k implies entries@[i] == entry_of(
                        raws.take(k + 1)[i],
                        m,
                        names,
                        ids,
                        answers[i],
                    ) by {
                        assert(raws.take(k + 1)[i] == raws.take(k)[i]);
                        assert(answers[i] == prev[i]);
                    }
                }
            }
        }
        proof {
            assert(raws.take(raws.len() as int) =~= raws);
        }
        sort_by_size_desc(entries)
    }

    /// The (at most 100) largest files recorded, largest first; files of
    /// equal size in the order they were met.
    pub fn top_files(&self) -> (r: Vec<FileSize>)
        requires
            self.wf(),
        ensures
            r@ == prefix(sort_desc(self.large_seq()), TOP_FILES as int),
    {
        top_by_size(&self.large_files, TOP_FILES)
    }
}

/// Each category of [`real_categories`] sits at its own tally position.
pub proof fn lemma_real_category_index()
    ensures
        real_categories().len() == 22,
        forall|i: int| 0 <= i < 22 ==> cat_index(#[trigger] real_categories()[i]) == i,
        forall|i: int| 0 <= i < 22 ==> #[trigger] real_categories()[i] != Category::Uncategorized,
{
}

impl ScanState {
    /// The recorded categories of `cs`, in that order, with their byte totals.
    pub open spec fn recorded_from(&self, cs: Seq<Category>) -> Seq<(Category, u64)>
        decreases cs.len(),
    {
        if cs.len() == 0 {
            Seq::empty()
        } else {
            let rest = self.recorded_from(cs.drop_first());
            if self.category_recorded(cs[0]) {
                seq![(cs[0], self.category_total(cs[0]))] + rest
            } else {
                rest
            }
        }
    }

    /// Bytes of the recorded categories among the first `n` of
    /// [`real_categories`]; only of the clearable ones when `only_clearable`.
    pub open spec fn tally_upto(&self, n: int, only_clearable: bool) -> int
        decreases n,
    {
        if n <= 0 {
            0
        } else {
            let c = real_categories()[n - 1];
            self.tally_upto(n - 1, only_clearable) + if (clearable(c) || !only_clearable)
                && self.category_recorded(c) {
                self.category_total(c) as int
            } else {
                0
            }
        }
    }

    /// Every recorded category with its byte total, in declaration order.
    pub fn category_totals(&self) -> (r: Vec<(Category, u64)>)
        requires
            self.wf(),
        ensures
            r@ == self.recorded_from(real_categories()),
    {
        let all = vec![
            Category::Cache,
            Category::BuildArtifact,
            Category::Docker,
            Category::Simulator,
            Category::Messages,
            Category::ICloud,
            Category::AppData,
            Category::OrphanedAppData,
            Category::Downloads,
            Category::Trash,
            Category::NodeModules,
            Category::PackageCache,
            Category::Xcode,
            Category::Logs,
            Category::VirtualMachine,
            Category::BrowserData,
            Category::Mail,
            Category::Photos,
            Category::MusicMedia,
            Category::Backup,
            Category::Python,
            Category::AndroidSdk,
        ];
        assert(all@ =~= real_categories());
        let mut r: Vec<(Category, u64)> = Vec::new();
        let mut i: usize = 0;
        assert(all@.skip(0) =~= all@);
        assert(r@ + self.recorded_from(all@.skip(0)) =~= self.recorded_from(all@));
        while i < all.len()
            invariant
                self.wf(),
                i <= all@.len(),
                all@ == real_categories(),
                r@ + self.recorded_from(all@.skip(i as int)) == self.recorded_from(all@),
            decreases all@.len() - i,
        {
            let c = all[i];
            let ghost cur = all@.skip(i as int);
            let ghost next = all@.skip(i + 1);
            proof {
                assert(cur.drop_first() =~= next);
                assert(cur[0] == c);
                assert(self.recorded_from(cur) == (if self.category_recorded(c) {
                    seq![(c, self.category_total(c))] + self.recorded_from(next)
                } else {
                    self.recorded_from(next)
                }));
            }
            let ghost before = r@;
            if self.has_category(c) {
                let t = self.category_bytes(c);
                r.push((c, t));
                proof {
                    assert(r@ =~= before + seq![(c, t)]);
                    vstd::seq_lib::lemma_concat_associative(before, seq![(c, t)], self.recorded_from(next));
                }
            }
            i = i + 1;
        }
        assert(r@ + self.recorded_from(all@.skip(i as int)) =~= r@);
        r
    }

    /// A tally never exceeds the sum of the per-category totals it draws on.
    proof fn lemma_tally_bound(&self, n: int, only_clearable: bool)
        requires
            self.wf(),
            0 <= n <= 22,
        ensures
            0 <= self.tally_upto(n, only_clearable) <= sum_u64(self.cat_sizes@.take(n)),
        decreases n,
    {
        lemma_real_category_index();
        if n > 0 {
            self.lemma_tally_bound(n - 1, only_clearable);
            assert(self.cat_sizes@.take(n).drop_last() =~= self.cat_sizes@.take(n - 1));
            let c = real_categories()[n - 1];
            assert(self.category_total(c) == self.cat_sizes@[n - 1]);
        }
    }

    proof fn lemma_tally_monotone(&self, a: int, b: int, only_clearable: bool)
        requires
            0 <= a <= b,
        ensures
            self.tally_upto(a, only_clearable) <= self.tally_upto(b, only_clearable),
        decreases b,
    {
        if b > a {
            self.lemma_tally_monotone(a, b - 1, only_clearable);
        }
    }

    /// Bytes in the recorded categories, only the clearable ones when
    /// `only_clearable`.
    fn tally(&self, only_clearable: bool) -> (r: u64)
        requires
            self.wf(),
        ensures
            r == self.tally_upto(22, only_clearable),
    {
        let all = vec![
            Category::Cache,
            Category::BuildArtifact,
            Category::Docker,
            Category::Simulator,
            Category::Messages,
            Category::ICloud,
            Category::AppData,
            Category::OrphanedAppData,
            Category::Downloads,
            Category::Trash,
            Category::NodeModules,
            Category::PackageCache,
            Category::Xcode,
            Category::Logs,
            Category::VirtualMachine,
            Category::BrowserData,
            Category::Mail,
            Category::Photos,
            Category::MusicMedia,
            Category::Backup,
            Category::Python,
            Category::AndroidSdk,
        ];
        assert(all@ =~= real_categories());
        proof {
            self.lemma_tally_bound(22, only_clearable);
            assert(self.cat_sizes@.take(22) =~= self.cat_sizes@);
        }
        let mut acc: u64 = 0;
        let mut i: usize = 0;
        while i < all.len()
            invariant
                self.wf(),
                i <= all@.len(),
                all@ == real_categories(),
                acc == self.tally_upto(i as int, only_clearable),
                self.tally_upto(22, only_clearable) <= self.total(),
            decreases all@.len() - i,
        {
            let c = all[i];
            proof {
                self.lemma_tally_bound(i + 1, only_clearable);
                self.lemma_tally_monotone(i + 1, 22, only_clearable);
            }
            if (is_clearable(c) || !only_clearable) && self.has_category(c) {
                acc = acc + self.category_bytes(c);
            }
            i = i + 1;
        }
        acc
    }

    /// Bytes in the recorded categories whose space can be reclaimed.
    pub fn clearable_bytes(&self) -> (r: u64)
        requires
            self.wf(),
        ensures
            r == self.tally_upto(22, true),
    {
        self.tally(true)
    }

    /// Bytes in all recorded categories.
    pub fn categorized_bytes(&self) -> (r: u64)
        requires
            self.wf(),
        ensures
            r == self.tally_upto(22, false),
    {
        self.tally(false)
    }
}

/// The recorded categories of a sequence are at most as many as it has.
pub proof fn lemma_recorded_len(st: &ScanState, cs: Seq<Category>)
    ensures
        st.recorded_from(cs).len() <= cs.len(),
    decreases cs.len(),
{
    if cs.len() > 0 {
        lemma_recorded_len(st, cs.drop_first());
    }
}

/// What the interface shows of a scan: the listing of the root, the total,
/// the largest files and the bytes per category.
pub struct ScanResult {
    entries: Vec<DirEntry>,
    total_size: u64,
    largest_files: Vec<FileSize>,
    categories: Vec<(Category, u64)>,
    categorized: u64,
    clearable: u64,
}

impl Weighed for (Category, u64) {
    open spec fn weight(&self) -> u64 {
        self.1
    }

    fn bytes(&self) -> (r: u64) {
        self.1
    }

    fn duplicate(&self) -> (r: Self) {
        *self
    }
}

impl ScanResult {
    /// The listing of the scanned root.
    pub closed spec fn entries_seq(&self) -> Seq<DirEntry> {
        self.entries@
    }

    /// Bytes of all regular files scanned.
    pub closed spec fn total(&self) -> u64 {
        self.total_size
    }

    /// The largest files, largest first.
    pub closed spec fn largest_seq(&self) -> Seq<FileSize> {
        self.largest_files@
    }

    /// The recorded categories with their byte totals.
    pub closed spec fn categories_seq(&self) -> Seq<(Category, u64)> {
        self.categories@
    }

    /// Bytes in all recorded categories.
    pub closed spec fn categorized_total(&self) -> u64 {
        self.categorized
    }

    /// Bytes in the recorded categories whose space can be reclaimed.
    pub closed spec fn clearable_total(&self) -> u64 {
        self.clearable
    }

    /// There is at most one row per category.
    #[verifier::type_invariant]
    spec fn one_row_per_category(&self) -> bool {
        self.categories@.len() <= 22
    }

    /// There is at most one row per category.
    pub fn category_rows(&self) -> (r: usize)
        ensures
            r == self.categories_seq().len(),
            r <= 22,
    {
        proof {
            use_type_invariant(self);
        }
        self.categories.len()
    }

    /// The listing of the scanned root, largest first.
    pub fn entries(&self) -> (r: &Vec<DirEntry>)
        ensures
            r@ == self.entries_seq(),
    {
        &self.entries
    }

    /// Bytes of all regular files scanned.
    pub fn total_size(&self) -> (r: u64)
        ensures
            r == self.total(),
    {
        self.total_size
    }

    /// The largest files, largest first.
    pub fn largest_files(&self) -> (r: &Vec<FileSize>)
        ensures
            r@ == self.largest_seq(),
    {
        &self.largest_files
    }

    /// The recorded categories with their byte totals.
    pub fn categories(&self) -> (r: &Vec<(Category, u64)>)
        ensures
            r@ == self.categories_seq(),
    {
        &self.categories
    }

    /// The recorded categories, largest first; categories of equal size in
    /// declaration order.
    pub fn categories_by_size(&self) -> (r: Vec<(Category, u64)>)
        ensures
            r@ == sort_desc(self.categories_seq()),
    {
        sort_by_size_desc(copy_all(&self.categories))
    }

    /// Bytes in all recorded categories.
    pub fn categorized_bytes(&self) -> (r: u64)
        ensures
            r == self.categorized_total(),
    {
        self.categorized
    }

    /// Bytes in the recorded categories whose space can be reclaimed.
    pub fn clearable_bytes(&self) -> (r: u64)
        ensures
            r == self.clearable_total(),
    {
        self.clearable
    }
}

impl Clone for ScanResult {
    fn clone(&self) -> (r: Self)
        ensures
            r.entries_seq() == self.entries_seq(),
            r.total() == self.total(),
            r.largest_seq() == self.largest_seq(),
            r.categories_seq() == self.categories_seq(),
            r.categorized_total() == self.categorized_total(),
            r.clearable_total() == self.clearable_total(),
    {
        proof {
            use_type_invariant(self);
        }
        ScanResult {
            entries: copy_all(&self.entries),
            total_size: self.total_size,
            largest_files: copy_all(&self.largest_files),
            categories: copy_all(&self.categories),
            categorized: self.categorized,
            clearable: self.clearable,
        }
    }
}

impl ScanState {
    /// What the interface shows of the scan so far, given the listing of
    /// the root directory.
    pub fn snapshot(&self, root_listing: Vec<RawEntry>, installed: &InstalledApps) -> (r:
        ScanResult)
        requires
            self.wf(),
        ensures
            exists|answers: Seq<PathProbes>|
                answers.len() == root_listing@.len() && r.entries_seq() == sort_desc(
                    #[trigger] listing_entries(
                        root_listing@,
                        self.dirs_view(),
                        installed.name_set(),
                        installed.bundle_id_set(),
                        answers,
                    ),
                ),
            r.total() == self.total(),
            r.largest_seq() == prefix(sort_desc(self.large_seq()), TOP_FILES as int),
            r.categories_seq() == self.recorded_from(real_categories()),
            r.categorized_total() == self.tally_upto(22, false),
            r.clearable_total() == self.tally_upto(22, true),
    {
        let entries = self.build_entries(root_listing, installed);
        let largest_files = self.top_files();
        let categories = self.category_totals();
        let categorized = self.categorized_bytes();
        let clearable = self.clearable_bytes();
        proof {
            lemma_recorded_len(self, real_categories());
        }
        ScanResult {
            entries,
            total_size: self.total_size,
            largest_files,
            categories,
            categorized,
            clearable,
        }
    }
}


/// However a walk goes, no directory and no category holds more bytes than
/// the walk has recorded in all, and neither do all categories together,
/// nor the reclaimable ones.
pub proof fn law_tallies_within_total(st: &ScanState)
    requires
        st.wf(),
    ensures
        forall|k: Seq<char>|
            #[trigger] st.dirs_view().contains_key(k) ==> st.dirs_view()[k].size <= st.total(),
        forall|c: Category| #[trigger] st.category_total(c) <= st.total(),
        st.tally_upto(22, true) <= st.total(),
        st.tally_upto(22, false) <= st.total(),
{
    assert forall|c: Category| #[trigger] st.category_total(c) <= st.total() by {
        if c != Category::Uncategorized {
            let i = cat_index(c);
            lemma_sum_update(st.cat_sizes@, i, st.cat_sizes@[i]);
        }
    }
    st.lemma_tally_bound(22, true);
    st.lemma_tally_bound(22, false);
    assert(st.cat_sizes@.take(22) =~= st.cat_sizes@);
}

/// The largest-files list holds a hundred files, or every large file when
/// fewer were recorded, largest first, each over 10 MB and each one that the
/// walk recorded; no recorded file left out is larger than one kept.
pub proof fn law_top_files(st: &ScanState)
    requires
        st.wf(),
    ensures
        prefix(sort_desc(st.large_seq()), TOP_FILES as int).len() <= TOP_FILES,
        prefix(sort_desc(st.large_seq()), TOP_FILES as int).len() == (if st.large_seq().len()
            < TOP_FILES {
            st.large_seq().len() as int
        } else {
            TOP_FILES as int
        }),
        prefix(sort_desc(st.large_seq()), TOP_FILES as int).to_multiset().subset_of(
            st.large_seq().to_multiset(),
        ),
        forall|x: FileSize, i: int|
            #![trigger st.large_seq().to_multiset().count(x), prefix(
                sort_desc(st.large_seq()),
                TOP_FILES as int,
            )[i]]
            st.large_seq().to_multiset().count(x) > prefix(
                sort_desc(st.large_seq()),
                TOP_FILES as int,
            ).to_multiset().count(x) && 0 <= i < prefix(
                sort_desc(st.large_seq()),
                TOP_FILES as int,
            ).len() ==> x.size <= prefix(sort_desc(st.large_seq()), TOP_FILES as int)[i].size,
        sorted_desc(prefix(sort_desc(st.large_seq()), TOP_FILES as int)),
        forall|i: int|
            0 <= i < prefix(sort_desc(st.large_seq()), TOP_FILES as int).len() ==> {
                let f = #[trigger] prefix(sort_desc(st.large_seq()), TOP_FILES as int)[i];
                st.large_seq().contains(f) && f.size > LARGE_FILE_BYTES
            },
{
    broadcast use vstd::seq_lib::group_to_multiset_ensures;

    let s = st.large_seq();
    let sorted = sort_desc(s);
    let top = prefix(sorted, TOP_FILES as int);
    lemma_sort_desc_sorted(s);
    lemma_sort_desc_multiset(s);
    assert forall|i: int| 0 <= i < top.len() implies s.contains(#[trigger] top[i]) && top[i].size
        > LARGE_FILE_BYTES by {
        assert(top[i] == sorted[i]);
        assert(sorted.to_multiset().count(sorted[i]) > 0);
        assert(s.to_multiset().count(sorted[i]) > 0);
        assert(s.contains(sorted[i]));
        let j = choose|j: int| 0 <= j < s.len() && s[j] == sorted[i];
        assert(st.large_files@[j].size > LARGE_FILE_BYTES);
    }
    let k = TOP_FILES as int;
    if k < sorted.len() {
        let rest = sorted.skip(k);
        assert(sorted =~= top + rest);
        vstd::seq_lib::lemma_multiset_commutative(top, rest);
        assert forall|x: FileSize, i: int|
            #![trigger s.to_multiset().count(x), top[i]]
            s.to_multiset().count(x) > top.to_multiset().count(x) && 0 <= i < top.len() implies x.size
            <= top[i].size by {
            assert(rest.to_multiset().count(x) > 0);
            assert(rest.contains(x));
            let j = choose|j: int| 0 <= j < rest.len() && rest[j] == x;
            assert(sorted[k + j] == x);
            assert(top[i] == sorted[i]);
        }
        assert(top.to_multiset().subset_of(s.to_multiset()));
    } else {
        assert(top == sorted);
    }
}


/// Walking up from a path below `root` reaches `root`.
proof fn lemma_chain_reaches_root(root: Seq<char>, rel: Seq<char>)
    requires
        dir_path(root),
        relative_path(rel),
    ensures
        chain_from(child_path(root, rel), root).contains(root),
    decreases rel.len(),
{
    let p = child_path(root, rel);
    lemma_parent_of_child(root, rel);
    lemma_trim_tail(root);
    assert(p.len() > root.len());
    assert(!same_path(p, root)) by {
        if root == seq!['/'] {
            assert(seq!['/'].drop_last() =~= Seq::<char>::empty());
            assert(trim_tail(Seq::<char>::empty()).len() == 0);
            assert(trim_tail(root).len() == 0);
        }
    }
    assert(same_path(root, root));
    assert(chain_from(root, root) == seq![root]);
    match parent_rel(rel) {
        None => {
            assert(chain_from(p, root) == seq![p] + seq![root]);
            assert(chain_from(p, root)[1] == root);
        },
        Some(shorter) => {
            lemma_chain_reaches_root(root, shorter);
            let rest = chain_from(child_path(root, shorter), root);
            assert(chain_from(p, root) == seq![p] + rest);
            let k = choose|k: int| 0 <= k < rest.len() && rest[k] == root;
            assert(chain_from(p, root)[k + 1] == root);
        },
    }
}

/// A file anywhere below the root counts towards the root's size: the root
/// is among the directories that [`ScanState::record_file`] adds the file's
/// bytes to.  So a walk that records only files below its root keeps the
/// root's size equal to the total it recorded.
pub proof fn law_files_below_root_reach_it(root: Seq<char>, rel: Seq<char>)
    requires
        dir_path(root),
        relative_path(rel),
    ensures
        upward(child_path(root, rel), root).contains(root),
{
    lemma_parent_of_child(root, rel);
    assert(same_path(root, root));
    assert(chain_from(root, root) == seq![root]);
    match parent_rel(rel) {
        None => {
            assert(upward(child_path(root, rel), root) == seq![root]);
            assert(upward(child_path(root, rel), root)[0] == root);
        },
        Some(shorter) => {
            lemma_chain_reaches_root(root, shorter);
        },
    }
}


/// Bytes in a list of category rows.
pub open spec fn rows_total(rows: Seq<(Category, u64)>) -> int
    decreases rows.len(),
{
    if rows.len() == 0 {
        0
    } else {
        rows[0].1 + rows_total(rows.drop_first())
    }
}

impl ScanState {
    /// Bytes of the recorded categories among `cs`.
    pub open spec fn recorded_bytes(&self, cs: Seq<Category>) -> int
        decreases cs.len(),
    {
        if cs.len() == 0 {
            0
        } else {
            (if self.category_recorded(cs[0]) {
                self.category_total(cs[0]) as int
            } else {
                0
            }) + self.recorded_bytes(cs.drop_first())
        }
    }

    proof fn lemma_rows_of(&self, cs: Seq<Category>)
        ensures
            rows_total(self.recorded_from(cs)) == self.recorded_bytes(cs),
            forall|i: int|
                0 <= i < self.recorded_from(cs).len() ==> cs.contains(
                    #[trigger] self.recorded_from(cs)[i].0,
                ),
        decreases cs.len(),
    {
        if cs.len() > 0 {
            let rest = cs.drop_first();
            self.lemma_rows_of(rest);
            let rows = self.recorded_from(cs);
            let tail = self.recorded_from(rest);
            if self.category_recorded(cs[0]) {
                assert(rows.drop_first() =~= tail);
            }
            assert forall|i: int| 0 <= i < rows.len() implies cs.contains(#[trigger] rows[i].0) by {
                if self.category_recorded(cs[0]) && i == 0 {
                    assert(cs[0] == rows[0].0);
                } else {
                    let j = if self.category_recorded(cs[0]) {
                        i - 1
                    } else {
                        i
                    };
                    assert(rows[i] == tail[j]);
                    let k = choose|k: int| 0 <= k < rest.len() && rest[k] == tail[j].0;
                    assert(cs[k + 1] == rest[k]);
                }
            }
        }
    }

    proof fn lemma_recorded_bytes_push(&self, cs: Seq<Category>, c: Category)
        ensures
            self.recorded_bytes(cs.push(c)) == self.recorded_bytes(cs) + (if self.category_recorded(c) {
                self.category_total(c) as int
            } else {
                0
            }),
        decreases cs.len(),
    {
        if cs.len() > 0 {
            assert(cs.push(c).drop_first() =~= cs.drop_first().push(c));
            self.lemma_recorded_bytes_push(cs.drop_first(), c);
        } else {
            assert(cs.push(c).drop_first() =~= Seq::<Category>::empty());
        }
    }

    proof fn lemma_tally_is_recorded_bytes(&self, n: int)
        requires
            0 <= n <= 22,
        ensures
            self.tally_upto(n, false) == self.recorded_bytes(real_categories().take(n)),
        decreases n,
    {
        if n == 0 {
            assert(real_categories().take(0) =~= Seq::<Category>::empty());
        } else {
            self.lemma_tally_is_recorded_bytes(n - 1);
            assert(real_categories().take(n) =~= real_categories().take(n - 1).push(
                real_categories()[n - 1],
            ));
            self.lemma_recorded_bytes_push(real_categories().take(n - 1), real_categories()[n - 1]);
        }
    }
}

/// The category rows of a scan add up to the bytes of all recorded
/// categories (each file counts towards one category at most), and each row
/// names a real category, never [`Category::Uncategorized`].
pub proof fn law_rows_add_up(st: &ScanState)
    ensures
        rows_total(st.recorded_from(real_categories())) == st.tally_upto(22, false),
        forall|i: int|
            0 <= i < st.recorded_from(real_categories()).len() ==> #[trigger] st.recorded_from(
                real_categories(),
            )[i].0 != Category::Uncategorized,
{
    st.lemma_rows_of(real_categories());
    st.lemma_tally_is_recorded_bytes(22);
    assert(real_categories().take(22) =~= real_categories());
    lemma_real_category_index();
    assert forall|i: int| 0 <= i < st.recorded_from(real_categories()).len() implies #[trigger] st.recorded_from(
        real_categories(),
    )[i].0 != Category::Uncategorized by {
        let c = st.recorded_from(real_categories())[i].0;
        let k = choose|k: int| 0 <= k < real_categories().len() && real_categories()[k] == c;
    }
}


/// A file's bytes go to the category of the file itself when it has one;
/// otherwise to that of its nearest ancestor that has one (up to the root);
/// and to no category when none of them has one.
pub proof fn law_nearest_category_wins(
    chain: Seq<Seq<char>>,
    names: Set<Seq<char>>,
    ids: Set<Seq<char>>,
    answers: Seq<PathProbes>,
    j: int,
)
    requires
        0 <= j < chain.len(),
        answers.len() == chain.len(),
        forall|i: int|
            0 <= i < j ==> #[trigger] classify_spec(
                chain[i],
                entry_name(chain[i]),
                names,
                ids,
                answers[i],
            ) == Category::Uncategorized,
    ensures
        classify_spec(chain[j], entry_name(chain[j]), names, ids, answers[j])
            != Category::Uncategorized ==> first_category(chain, names, ids, answers, 0)
            == classify_spec(chain[j], entry_name(chain[j]), names, ids, answers[j]),
        (forall|i: int|
            0 <= i < chain.len() ==> #[trigger] classify_spec(
                chain[i],
                entry_name(chain[i]),
                names,
                ids,
                answers[i],
            ) == Category::Uncategorized) ==> first_category(chain, names, ids, answers, 0)
            == Category::Uncategorized,
    decreases chain.len() - j,
{
    lemma_first_category_skips(chain, names, ids, answers, j);
    if j + 1 < chain.len() {
        if classify_spec(chain[j], entry_name(chain[j]), names, ids, answers[j])
            == Category::Uncategorized {
            law_nearest_category_wins(chain, names, ids, answers, j + 1);
        }
    } else {
        assert(first_category(chain, names, ids, answers, j + 1) == Category::Uncategorized);
    }
}

/// Uncategorized paths at the front of a chain are passed over.
proof fn lemma_first_category_skips(
    chain: Seq<Seq<char>>,
    names: Set<Seq<char>>,
    ids: Set<Seq<char>>,
    answers: Seq<PathProbes>,
    j: int,
)
    requires
        0 <= j <= chain.len(),
        forall|i: int|
            0 <= i < j ==> #[trigger] classify_spec(
                chain[i],
                entry_name(chain[i]),
                names,
                ids,
                answers[i],
            ) == Category::Uncategorized,
    ensures
        first_category(chain, names, ids, answers, 0) == first_category(
            chain,
            names,
            ids,
            answers,
            j,
        ),
    decreases j,
{
    if j > 0 {
        lemma_first_category_skips(chain, names, ids, answers, j - 1);
        assert(classify_spec(
            chain[j - 1],
            entry_name(chain[j - 1]),
            names,
            ids,
            answers[j - 1],
        ) == Category::Uncategorized);
    }
}

} // verus!
