//! '/'-separated paths: parent, final component, joining, and which paths a
//! whole-disk scan leaves out.

use vstd::prelude::*;
use vstd::string::StringExecFns;
use crate::text::{char_prefix, char_suffix, chars_of, contains_seq, contains_str, starts_with_str};

verus! {

broadcast use vstd::seq_lib::group_seq_properties;

/// `s` ends in a `.` component after a separator ("/.").
pub open spec fn ends_in_dot(s: Seq<char>) -> bool {
    s.len() >= 2 && s.last() == '.' && s[s.len() - 2] == '/'
}

/// `s` without what names no further component at its end: trailing '/'
/// characters and `.` components after a separator.
pub open spec fn trim_tail(s: Seq<char>) -> Seq<char>
    decreases s.len(),
{
    if (s.len() > 0 && s.last() == '/') || ends_in_dot(s) {
        trim_tail(s.drop_last())
    } else {
        s
    }
}

/// Index of the last '/' in `s`.
pub open spec fn last_slash(s: Seq<char>) -> Option<int>
    decreases s.len(),
{
    if s.len() == 0 {
        None
    } else if s.last() == '/' {
        Some(s.len() - 1)
    } else {
        last_slash(s.drop_last())
    }
}

/// The path without its final component: `None` for the root and the empty
/// path, the empty path for a single relative component, the root for a
/// top-level entry.  Repeated and trailing separators are not components,
/// nor is a `.` after a separator.
pub open spec fn parent_path(p: Seq<char>) -> Option<Seq<char>> {
    let q = trim_tail(p);
    if q.len() == 0 {
        None
    } else {
        match last_slash(q) {
            None => Some(Seq::<char>::empty()),
            Some(k) => {
                let r = trim_tail(q.take(k));
                if r.len() == 0 {
                    Some(seq!['/'])
                } else {
                    Some(r)
                }
            },
        }
    }
}

/// The final component of the path, if it names an entry (not `.` or `..`).
pub open spec fn final_component(p: Seq<char>) -> Option<Seq<char>> {
    let q = trim_tail(p);
    if q.len() == 0 {
        None
    } else {
        let c = match last_slash(q) {
            None => q,
            Some(k) => q.skip(k + 1),
        };
        if c == "."@ || c == ".."@ {
            None
        } else {
            Some(c)
        }
    }
}

/// `dir` with the relative entry `name` appended, a '/' between them when needed.
pub open spec fn child_path(dir: Seq<char>, name: Seq<char>) -> Seq<char> {
    if dir.len() == 0 || dir.last() == '/' {
        dir + name
    } else {
        dir + seq!['/'] + name
    }
}

/// Trimming keeps a prefix, which ends neither with '/' nor with "/.".
pub proof fn lemma_trim_tail(s: Seq<char>)
    ensures
        trim_tail(s).len() <= s.len(),
        trim_tail(s) == s.take(trim_tail(s).len() as int),
        trim_tail(s).len() > 0 ==> trim_tail(s).last() != '/',
        !ends_in_dot(trim_tail(s)),
    decreases s.len(),
{
    if (s.len() > 0 && s.last() == '/') || ends_in_dot(s) {
        lemma_trim_tail(s.drop_last());
        let t = trim_tail(s.drop_last());
        assert(s.drop_last().take(t.len() as int) =~= s.take(t.len() as int));
    } else {
        assert(s.take(s.len() as int) =~= s);
    }
}

/// The last '/' is inside the sequence.
pub proof fn lemma_last_slash(s: Seq<char>)
    ensures
        last_slash(s) matches Some(k) ==> 0 <= k < s.len() && s[k] == '/',
    decreases s.len(),
{
    if s.len() > 0 && s.last() != '/' {
        lemma_last_slash(s.drop_last());
    }
}

/// A parent is strictly shorter than its child.
pub proof fn lemma_parent_shorter(p: Seq<char>)
    ensures
        parent_path(p) matches Some(q) ==> q.len() < p.len(),
{
    let q = trim_tail(p);
    lemma_trim_tail(p);
    if q.len() > 0 {
        lemma_last_slash(q);
        if let Some(k) = last_slash(q) {
            lemma_trim_tail(q.take(k));
        }
    }
}

/// Paths that name the same location: equal once trimmed with [`trim_tail`].
pub open spec fn same_path(a: Seq<char>, b: Seq<char>) -> bool {
    trim_tail(a) == trim_tail(b)
}

/// Whether `a` and `b` name the same location.
pub fn is_same_path(a: &str, b: &str) -> (r: bool)
    ensures
        r == same_path(a@, b@),
{
    let ac = chars_of(a);
    let bc = chars_of(b);
    let m = trimmed_len(ac.as_slice(), ac.len());
    let n = trimmed_len(bc.as_slice(), bc.len());
    assert(ac@.take(ac@.len() as int) =~= a@);
    assert(bc@.take(bc@.len() as int) =~= b@);
    assert(trim_tail(a@) == ac@.take(m as int));
    assert(trim_tail(b@) == bc@.take(n as int));
    if m != n {
        assert(ac@.take(m as int).len() != bc@.take(n as int).len());
        return false;
    }
    let mut i: usize = 0;
    while i < m
        invariant
            i <= m,
            m == n,
            m <= ac@.len(),
            n <= bc@.len(),
            forall|j: int| 0 <= j < i ==> ac@[j] == bc@[j],
            trim_tail(a@) == ac@.take(m as int),
            trim_tail(b@) == bc@.take(n as int),
        decreases m - i,
    {
        if ac[i] != bc[i] {
            assert(ac@.take(m as int)[i as int] != bc@.take(n as int)[i as int]);
            return false;
        }
        i = i + 1;
    }
    assert(ac@.take(m as int) =~= bc@.take(n as int));
    true
}

/// Length of `s.take(n)` once trimmed with [`trim_tail`].
fn trimmed_len(s: &[char], n: usize) -> (k: usize)
    requires
        n <= s@.len(),
    ensures
        k <= n,
        s@.take(k as int) == trim_tail(s@.take(n as int)),
{
    let mut k = n;
    while k > 0 && (s[k - 1] == '/' || (k >= 2 && s[k - 1] == '.' && s[k - 2] == '/'))
        invariant
            k <= n <= s@.len(),
            trim_tail(s@.take(k as int)) == trim_tail(s@.take(n as int)),
        decreases k,
    {
        assert(s@.take(k as int).drop_last() =~= s@.take(k - 1));
        k = k - 1;
    }
    k
}

/// Index of the last '/' in `s.take(n)`.
fn find_last_slash(s: &[char], n: usize) -> (r: Option<usize>)
    requires
        n <= s@.len(),
    ensures
        match r {
            Some(k) => last_slash(s@.take(n as int)) == Some(k as int) && k < n,
            None => last_slash(s@.take(n as int)) is None,
        },
{
    let mut k = n;
    while k > 0 && s[k - 1] != '/'
        invariant
            k <= n <= s@.len(),
            last_slash(s@.take(k as int)) == last_slash(s@.take(n as int)),
        decreases k,
    {
        assert(s@.take(k as int).drop_last() =~= s@.take(k - 1));
        k = k - 1;
    }
    if k == 0 {
        None
    } else {
        Some(k - 1)
    }
}

/// The parent directory of `p`.
#[verifier::rlimit(30)]
pub fn path_parent(p: &str) -> (r: Option<&str>)
    ensures
        match r {
            Some(q) => parent_path(p@) == Some(q@),
            None => parent_path(p@) is None,
        },
{
    let cs = chars_of(p);
    let n = trimmed_len(cs.as_slice(), cs.len());
    assert(cs@.take(cs@.len() as int) =~= p@);
    if n == 0 {
        return None;
    }
    match find_last_slash(cs.as_slice(), n) {
        None => {
            let e = char_prefix(p, 0);
            assert(e@ =~= Seq::<char>::empty());
            Some(e)
        },
        Some(k) => {
            assert(cs@.take(n as int).take(k as int) =~= cs@.take(k as int));
            let m = trimmed_len(cs.as_slice(), k);
            if m == 0 {
                let root = "/";
                proof {
                    reveal_strlit("/");
                }
                assert(root@ =~= seq!['/']);
                Some(root)
            } else {
                Some(char_prefix(p, m))
            }
        },
    }
}

/// The final component of `p`, when it names an entry.
pub fn path_file_name(p: &str) -> (r: Option<&str>)
    ensures
        match r {
            Some(c) => final_component(p@) == Some(c@),
            None => final_component(p@) is None,
        },
{
    let cs = chars_of(p);
    let n = trimmed_len(cs.as_slice(), cs.len());
    assert(cs@.take(cs@.len() as int) =~= p@);
    if n == 0 {
        return None;
    }
    let q = char_prefix(p, n);
    let c = match find_last_slash(cs.as_slice(), n) {
        None => q,
        Some(k) => char_suffix(q, k + 1),
    };
    let cc = chars_of(c);
    if crate::text::eq_str(cc.as_slice(), ".") || crate::text::eq_str(cc.as_slice(), "..") {
        None
    } else {
        Some(c)
    }
}

/// `dir` joined with the relative entry name `name`.
pub fn path_child(dir: &str, name: &str) -> (r: String)
    ensures
        r@ == child_path(dir@, name@),
{
    let cs = chars_of(dir);
    let mut r = dir.to_owned();
    if cs.len() > 0 && cs[cs.len() - 1] != '/' {
        r.append("/");
        proof {
            reveal_strlit("/");
        }
    }
    r.append(name);
    proof {
        if dir@.len() > 0 && dir@.last() != '/' {
            assert(r@ =~= dir@ + seq!['/'] + name@);
        }
    }
    r
}

/// Calls `std::path::Path::exists` on `p`.  The answer depends on the file
/// system at the time of the call, so nothing is promised of it.
#[verifier::external_body]
pub(crate) fn path_exists(p: &str) -> bool {
    std::path::Path::new(p).exists()
}

/// Prefixes of volume mounts and snapshot stores that a whole-disk scan leaves out.
pub open spec fn skipped_system_path(p: Seq<char>) -> bool {
    ||| "/System/Volumes/Data"@.is_prefix_of(p)
    ||| "/System/Volumes/Preboot"@.is_prefix_of(p)
    ||| "/System/Volumes/Recovery"@.is_prefix_of(p)
    ||| "/System/Volumes/Update"@.is_prefix_of(p)
    ||| "/System/Volumes/VM"@.is_prefix_of(p)
    ||| "/System/Volumes/xarts"@.is_prefix_of(p)
    ||| "/System/Volumes/iSCPreboot"@.is_prefix_of(p)
    ||| "/System/Volumes/Hardware"@.is_prefix_of(p)
    ||| contains_seq(p, "/.MobileBackups"@)
    ||| contains_seq(p, "/.Spotlight-V100"@)
    ||| contains_seq(p, "/.fseventsd"@)
    ||| "/Volumes/com.apple.TimeMachine"@.is_prefix_of(p)
    ||| "/dev"@.is_prefix_of(p)
    ||| "/proc"@.is_prefix_of(p)
}

/// A scan rooted inside a home directory skips nothing; any other scan
/// skips the duplicated system volumes, snapshots and device trees.
pub open spec fn skip_path(p: Seq<char>, root: Seq<char>) -> bool {
    if "/Users/"@.is_prefix_of(root) || "/home/"@.is_prefix_of(root) {
        false
    } else {
        skipped_system_path(p)
    }
}

/// Paths to skip when scanning from / on macOS to avoid double-counting
/// and infinite traversal of virtual/snapshot filesystems.
pub fn should_skip_path(path: &str, root: &str) -> (r: bool)
    ensures
        r == skip_path(path@, root@),
{
    let rc = chars_of(root);
    if starts_with_str(rc.as_slice(), "/Users/") || starts_with_str(rc.as_slice(), "/home/") {
        return false;
    }
    let pc = chars_of(path);
    let p = pc.as_slice();
    starts_with_str(p, "/System/Volumes/Data") || starts_with_str(p, "/System/Volumes/Preboot")
        || starts_with_str(p, "/System/Volumes/Recovery") || starts_with_str(
        p,
        "/System/Volumes/Update",
    ) || starts_with_str(p, "/System/Volumes/VM") || starts_with_str(p, "/System/Volumes/xarts")
        || starts_with_str(p, "/System/Volumes/iSCPreboot") || starts_with_str(
        p,
        "/System/Volumes/Hardware",
    ) || contains_str(p, "/.MobileBackups") || contains_str(p, "/.Spotlight-V100")
        || contains_str(p, "/.fseventsd") || starts_with_str(p, "/Volumes/com.apple.TimeMachine")
        || starts_with_str(p, "/dev") || starts_with_str(p, "/proc")
}


/// A scan rooted in a home directory skips nothing, while a scan of anything
/// else always leaves out the duplicated system volumes and snapshots.
pub proof fn law_home_scans_skip_nothing(p: Seq<char>, root: Seq<char>)
    ensures
        "/Users/"@.is_prefix_of(root) || "/home/"@.is_prefix_of(root) ==> !skip_path(p, root),
        !("/Users/"@.is_prefix_of(root) || "/home/"@.is_prefix_of(root)) ==> (skip_path(p, root)
            <==> skipped_system_path(p)),
{
}


/// The last '/' of `a + b` is the last of `b` when `b` has one, else the last of `a`.
proof fn lemma_last_slash_concat(a: Seq<char>, b: Seq<char>)
    ensures
        last_slash(a + b) == (match last_slash(b) {
            Some(j) => Some(a.len() + j),
            None => last_slash(a),
        }),
    decreases b.len(),
{
    if b.len() == 0 {
        assert(a + b =~= a);
    } else {
        assert((a + b).drop_last() =~= a + b.drop_last());
        lemma_last_slash_concat(a, b.drop_last());
    }
}

/// Trimming `a + b` may as well start from `b` trimmed.
proof fn lemma_trim_tail_inner(a: Seq<char>, b: Seq<char>)
    ensures
        trim_tail(a + b) == trim_tail(a + trim_tail(b)),
    decreases b.len(),
{
    if (b.len() > 0 && b.last() == '/') || ends_in_dot(b) {
        assert((a + b).drop_last() =~= a + b.drop_last());
        assert(ends_in_dot(b) ==> ends_in_dot(a + b));
        lemma_trim_tail_inner(a, b.drop_last());
    }
}

/// What trimming removes from `a + b` comes from `b` alone when `b` trims
/// to something other than a lone `.`.
proof fn lemma_trim_tail_concat(a: Seq<char>, b: Seq<char>)
    requires
        trim_tail(b).len() > 0,
        trim_tail(b) != seq!['.'],
    ensures
        trim_tail(a + b) == a + trim_tail(b),
{
    let t = trim_tail(b);
    lemma_trim_tail_inner(a, b);
    lemma_trim_tail(b);
    let s = a + t;
    assert(s.last() == t.last());
    if t.len() >= 2 {
        assert(s[s.len() - 2] == t[t.len() - 2]);
    } else if t[0] == '.' {
        assert(t =~= seq!['.']);
    }
    assert(!ends_in_dot(s));
}

/// Trimming leaves something of a sequence that does not start with '/',
/// beginning with the same character.
proof fn lemma_trim_keeps_first(s: Seq<char>)
    requires
        s.len() > 0,
        s[0] != '/',
    ensures
        trim_tail(s).len() > 0,
        trim_tail(s)[0] == s[0],
    decreases s.len(),
{
    lemma_trim_tail(s);
    if (s.len() > 0 && s.last() == '/') || ends_in_dot(s) {
        assert(s.len() > 1);
        lemma_trim_keeps_first(s.drop_last());
    }
}

/// Trimming a trimmed sequence leaves it as it is.
proof fn lemma_trim_tail_idempotent(s: Seq<char>)
    ensures
        trim_tail(trim_tail(s)) == trim_tail(s),
{
    lemma_trim_tail(s);
}

/// A relative path of named components, written without separators or a
/// `.` component at either end.
pub open spec fn relative_path(rel: Seq<char>) -> bool {
    &&& rel.len() > 0
    &&& rel[0] != '/'
    &&& trim_tail(rel) == rel
    &&& rel != seq!['.']
}

/// A directory path without trailing separators or `.` component, or the
/// file-system root.
pub open spec fn dir_path(d: Seq<char>) -> bool {
    d == seq!['/'] || (d.len() > 0 && trim_tail(d) == d)
}

/// The relative part of the parent of `child_path(d, rel)`, when that parent
/// is still below `d`.
pub open spec fn parent_rel(rel: Seq<char>) -> Option<Seq<char>> {
    match last_slash(rel) {
        Some(j) => if trim_tail(rel.take(j)) == seq!['.'] {
            None
        } else {
            Some(trim_tail(rel.take(j)))
        },
        None => None,
    }
}

/// The parent of a path below a directory is that directory, or again a
/// path below it with a shorter relative part.
pub proof fn lemma_parent_of_child(d: Seq<char>, rel: Seq<char>)
    requires
        dir_path(d),
        relative_path(rel),
    ensures
        trim_tail(child_path(d, rel)) == child_path(d, rel),
        parent_rel(rel) is None ==> parent_path(child_path(d, rel)) == Some(d),
        parent_rel(rel) matches Some(shorter) ==> {
            &&& relative_path(shorter)
            &&& shorter.len() < rel.len()
            &&& parent_path(child_path(d, rel)) == Some(child_path(d, shorter))
        },
{
    let sep = if d == seq!['/'] {
        Seq::<char>::empty()
    } else {
        d
    };
    let p = child_path(d, rel);
    let pre = sep + seq!['/'];
    lemma_trim_tail(d);
    assert(p =~= pre + rel);
    lemma_trim_tail_concat(pre, rel);
    assert(trim_tail(p) == p);
    lemma_last_slash_concat(pre, rel);
    lemma_last_slash_concat(sep, seq!['/']);
    assert(seq!['/'].drop_last() =~= Seq::<char>::empty());
    lemma_last_slash(rel);
    assert(pre.drop_last() =~= sep);
    assert(trim_tail(pre) == trim_tail(sep));
    assert(trim_tail(Seq::<char>::empty()).len() == 0);
    match last_slash(rel) {
        None => {
            assert(last_slash(p) == Some(sep.len() as int));
            assert(p.take(sep.len() as int) =~= sep);
        },
        Some(j) => {
            assert(j > 0);
            let head = rel.take(j);
            assert(head[0] == rel[0]);
            lemma_trim_keeps_first(head);
            lemma_trim_tail(head);
            lemma_trim_tail_idempotent(head);
            let shorter = trim_tail(head);
            assert(p.take(sep.len() + 1 + j) =~= pre + head);
            lemma_trim_tail_inner(pre, head);
            if shorter == seq!['.'] {
                assert(pre + shorter =~= sep + seq!['/', '.']);
                assert((pre + shorter).drop_last() =~= pre);
                assert(ends_in_dot(pre + shorter));
                assert(trim_tail(pre + shorter) == trim_tail(pre));
            } else {
                lemma_trim_tail_concat(pre, head);
                assert(child_path(d, shorter) =~= pre + shorter);
                assert(shorter != seq!['.']);
            }
        },
    }
}


/// A scan of anything but a home directory leaves out every path under
/// the system volumes that duplicate the data volume (`Data`, `Preboot`,
/// `Recovery`, `Update`, `VM`, `xarts`, `iSCPreboot`, `Hardware`), the Time
/// Machine snapshots, `/dev` and `/proc`, and every path through a backup,
/// Spotlight or file-system-events store.
pub proof fn law_whole_disk_scans_skip_system_volumes(p: Seq<char>, root: Seq<char>)
    requires
        !"/Users/"@.is_prefix_of(root),
        !"/home/"@.is_prefix_of(root),
        ({
            ||| "/System/Volumes/Data"@.is_prefix_of(p)
            ||| "/System/Volumes/Preboot"@.is_prefix_of(p)
            ||| "/System/Volumes/Recovery"@.is_prefix_of(p)
            ||| "/System/Volumes/Update"@.is_prefix_of(p)
            ||| "/System/Volumes/VM"@.is_prefix_of(p)
            ||| "/System/Volumes/xarts"@.is_prefix_of(p)
            ||| "/System/Volumes/iSCPreboot"@.is_prefix_of(p)
            ||| "/System/Volumes/Hardware"@.is_prefix_of(p)
            ||| "/Volumes/com.apple.TimeMachine"@.is_prefix_of(p)
            ||| "/dev"@.is_prefix_of(p)
            ||| "/proc"@.is_prefix_of(p)
            ||| contains_seq(p, "/.MobileBackups"@)
            ||| contains_seq(p, "/.Spotlight-V100"@)
            ||| contains_seq(p, "/.fseventsd"@)
        }),
    ensures
        skip_path(p, root),
{
}

} // verus!
