//! Which applications are installed, and what bundle identifiers look like.

use vstd::prelude::*;
use crate::text::{
    ascii_lowercase, ascii_only, chars_of, count_char, count_occurrences, eq_str, has_char,
    law_ascii_lowercase_stable, lemma_str_len, lowercase_of, seq_ends_with, seq_eq,
    seq_starts_with, starts_with_str, to_lower, utf8_len, utf8_len_of,
};

verus! {

broadcast use vstd::seq_lib::group_seq_properties;

/// A lower-cased identifier of an Apple-owned OS service.
pub open spec fn apple_bundle_lowered(l: Seq<char>) -> bool {
    ||| "com.apple."@.is_prefix_of(l)
    ||| "com.apple.dt."@.is_prefix_of(l)
    ||| l == "systempreferencesextension"@
}

/// Apple-owned bundle identifiers that are OS services, not user-installed apps.
pub open spec fn apple_system_bundle(id: Seq<char>) -> bool {
    apple_bundle_lowered(lowercase_of(id))
}

/// A reverse-DNS looking identifier: at least two dots, more than eight bytes
/// of UTF-8, and no space.
pub open spec fn bundle_id_like(s: Seq<char>) -> bool {
    &&& count_char(s, '.') >= 2
    &&& utf8_len(s) > 8
    &&& !s.contains(' ')
}

/// Folder names inside `Application Support` that belong to Apple system services.
pub open spec fn apple_system_folder(name: Seq<char>) -> bool {
    ||| name == "Apple"@
    ||| name == "AddressBook"@
    ||| name == "CallHistoryDB"@
    ||| name == "CallHistoryTransactions"@
    ||| name == "CloudDocs"@
    ||| name == "CrashReporter"@
    ||| name == "Dock"@
    ||| name == "FaceTime"@
    ||| name == "iCloud"@
    ||| name == "Knowledge"@
    ||| name == "networkserviceproxy"@
    ||| name == "NGL"@
    ||| name == "NotificationCenter"@
    ||| name == "osanalyticshelper"@
    ||| name == "Preferences"@
    ||| name == "Safari"@
    ||| name == "Spaces"@
    ||| name == "SyncServices"@
    ||| name == "Ticket Viewer"@
    ||| name == "TV"@
    ||| "com.apple."@.is_prefix_of(name)
}

/// Index of the first `c` in `s`, if any.
pub open spec fn first_index(s: Seq<char>, c: char) -> Option<int>
    decreases s.len(),
{
    if s.len() == 0 {
        None
    } else if s[0] == c {
        Some(0)
    } else {
        match first_index(s.drop_first(), c) {
            Some(i) => Some(i + 1),
            None => None,
        }
    }
}

/// What `splitn(2, '.').nth(1)` yields: everything after the first dot.
pub open spec fn after_first_dot(s: Seq<char>) -> Option<Seq<char>> {
    match first_index(s, '.') {
        Some(i) => Some(s.skip(i + 1)),
        None => None,
    }
}

/// Whether a (lower-cased) bundle identifier matches an installed one,
/// directly, after removing a team-ID prefix, or by suffix / prefix.
pub open spec fn bundle_matches(ids: Set<Seq<char>>, lower: Seq<char>) -> bool {
    ||| ids.contains(lower)
    ||| match after_first_dot(lower) {
        Some(rest) => {
            ||| ids.contains(rest)
            ||| exists|bid: Seq<char>|
                #[trigger] ids.contains(bid) && ((seq!['.'] + rest).is_suffix_of(bid)
                    || bid.is_prefix_of(rest))
        },
        None => false,
    }
}

/// True for Apple-owned bundle IDs that are OS services, not user-installed apps.
pub fn is_apple_system_bundle(id: &str) -> (r: bool)
    ensures
        r == apple_system_bundle(id@),
        ascii_only(id@) ==> r == apple_bundle_lowered(ascii_lowercase(id@)),
{
    let l = to_lower(id);
    let lc = chars_of(l.as_str());
    starts_with_str(lc.as_slice(), "com.apple.") || starts_with_str(lc.as_slice(), "com.apple.dt.")
        || eq_str(lc.as_slice(), "systempreferencesextension")
}

/// [`looks_like_bundle_id`] on a character sequence.
pub(crate) fn bundle_id_like_chars(s: &[char]) -> (r: bool)
    requires
        utf8_len(s@) <= usize::MAX,
    ensures
        r == bundle_id_like(s@),
{
    let dots = count_occurrences(s, '.');
    let bytes = utf8_len_of(s);
    dots >= 2 && bytes > 8 && !has_char(s, ' ')
}

/// True if the string looks like a reverse-DNS bundle identifier.
pub fn looks_like_bundle_id(s: &str) -> (r: bool)
    ensures
        r == bundle_id_like(s@),
{
    let cs = chars_of(s);
    let total = s.as_bytes().len();
    proof {
        lemma_str_len(s);
    }
    bundle_id_like_chars(cs.as_slice())
}

/// [`is_apple_system_folder`] on a character sequence.
pub(crate) fn apple_system_folder_chars(n: &[char]) -> (r: bool)
    ensures
        r == apple_system_folder(n@),
{
    eq_str(n, "Apple") || eq_str(n, "AddressBook") || eq_str(n, "CallHistoryDB") || eq_str(
        n,
        "CallHistoryTransactions",
    ) || eq_str(n, "CloudDocs") || eq_str(n, "CrashReporter") || eq_str(n, "Dock") || eq_str(
        n,
        "FaceTime",
    ) || eq_str(n, "iCloud") || eq_str(n, "Knowledge") || eq_str(n, "networkserviceproxy")
        || eq_str(n, "NGL") || eq_str(n, "NotificationCenter") || eq_str(n, "osanalyticshelper")
        || eq_str(n, "Preferences") || eq_str(n, "Safari") || eq_str(n, "Spaces") || eq_str(
        n,
        "SyncServices",
    ) || eq_str(n, "Ticket Viewer") || eq_str(n, "TV") || starts_with_str(n, "com.apple.")
}

/// Folders inside Application Support that are Apple system services, not user apps.
pub fn is_apple_system_folder(name: &str) -> (r: bool)
    ensures
        r == apple_system_folder(name@),
{
    let cs = chars_of(name);
    apple_system_folder_chars(cs.as_slice())
}

/// Position of the first `c` in `s`.
fn find_first(s: &[char], c: char) -> (r: Option<usize>)
    ensures
        match r {
            Some(i) => first_index(s@, c) == Some(i as int) && i < s@.len(),
            None => first_index(s@, c) is None,
        },
{
    let mut i: usize = 0;
    while i < s.len()
        invariant
            i <= s@.len(),
            forall|k: int| 0 <= k < i ==> s@[k] != c,
            first_index(s@, c) == match first_index(s@.skip(i as int), c) {
                Some(j) => Some(j + i),
                None => None::<int>,
            },
        decreases s@.len() - i,
    {
        assert(s@.skip(i as int).drop_first() =~= s@.skip(i + 1));
        if s[i] == c {
            return Some(i);
        }
        i = i + 1;
    }
    None
}

/// The applications currently installed: lower-cased display names and
/// lower-cased bundle identifiers.
pub struct InstalledApps {
    names: Vec<String>,
    bundle_ids: Vec<String>,
}

impl InstalledApps {
    /// The lower-cased display names.
    pub closed spec fn name_set(&self) -> Set<Seq<char>> {
        Set::new(|s: Seq<char>| exists|i: int| 0 <= i < self.names@.len() && #[trigger] self.names@[i]@ == s)
    }

    /// The lower-cased bundle identifiers.
    pub closed spec fn bundle_id_set(&self) -> Set<Seq<char>> {
        Set::new(|s: Seq<char>| exists|i: int| 0 <= i < self.bundle_ids@.len() && #[trigger] self.bundle_ids@[i]@ == s)
    }

    /// No application at all.
    pub fn new() -> (r: Self)
        ensures
            r.name_set() == Set::<Seq<char>>::empty(),
            r.bundle_id_set() == Set::<Seq<char>>::empty(),
    {
        let r = InstalledApps { names: Vec::new(), bundle_ids: Vec::new() };
        assert(r.name_set() =~= Set::<Seq<char>>::empty());
        assert(r.bundle_id_set() =~= Set::<Seq<char>>::empty());
        r
    }

    /// Whether `v` holds a string equal to `s`.
    fn vec_has(v: &Vec<String>, s: &[char]) -> (r: bool)
        ensures
            r == exists|i: int| 0 <= i < v@.len() && #[trigger] v@[i]@ == s@,
    {
        let mut i: usize = 0;
        while i < v.len()
            invariant
                i <= v@.len(),
                forall|k: int| 0 <= k < i ==> #[trigger] v@[k]@ != s@,
            decreases v@.len() - i,
        {
            let cs = chars_of(v[i].as_str());
            if seq_eq(cs.as_slice(), s) {
                return true;
            }
            i = i + 1;
        }
        false
    }

    /// Records an installed application's display name (stored lower-cased).
    pub fn insert_name(&mut self, name: &str)
        ensures
            final(self).name_set() == old(self).name_set().insert(lowercase_of(name@)),
            ascii_only(name@) ==> final(self).name_set() == old(self).name_set().insert(
                ascii_lowercase(name@),
            ),
            final(self).bundle_id_set() == old(self).bundle_id_set(),
    {
        let l = to_lower(name);
        let lc = chars_of(l.as_str());
        if !Self::vec_has(&self.names, lc.as_slice()) {
            self.names.push(l);
            proof {
                let n = self.names@.len() - 1;
                assert(self.names@[n]@ == lowercase_of(name@));
            }
        }
        proof {
            let lower = lowercase_of(name@);
            assert forall|x: Seq<char>|
                self.name_set().contains(x) <==> old(self).name_set().insert(lower).contains(x) by {
                if old(self).name_set().contains(x) {
                    let i = choose|i: int|
                        0 <= i < old(self).names@.len() && #[trigger] old(self).names@[i]@ == x;
                    assert(self.names@[i]@ == x);
                }
                if x == lower && old(self).names@.len() == self.names@.len() {
                    let i = choose|i: int| 0 <= i < self.names@.len() && #[trigger] self.names@[i]@ == lc@;
                    assert(old(self).names@[i]@ == x);
                }
                if x == lower && old(self).names@.len() < self.names@.len() {
                    assert(self.names@[old(self).names@.len() as int]@ == x);
                }
                if self.name_set().contains(x) {
                    let i = choose|i: int| 0 <= i < self.names@.len() && #[trigger] self.names@[i]@ == x;
                    if i < old(self).names@.len() {
                        assert(old(self).names@[i]@ == x);
                    }
                }
            }
        }
        assert(self.name_set() =~= old(self).name_set().insert(lowercase_of(name@)));
        assert(self.bundle_id_set() =~= old(self).bundle_id_set());
    }

    /// Records an installed application's bundle identifier (stored lower-cased).
    pub fn insert_bundle_id(&mut self, id: &str)
        ensures
            final(self).bundle_id_set() == old(self).bundle_id_set().insert(lowercase_of(id@)),
            ascii_only(id@) ==> final(self).bundle_id_set() == old(self).bundle_id_set().insert(
                ascii_lowercase(id@),
            ),
            final(self).name_set() == old(self).name_set(),
    {
        let l = to_lower(id);
        let lc = chars_of(l.as_str());
        if !Self::vec_has(&self.bundle_ids, lc.as_slice()) {
            self.bundle_ids.push(l);
            proof {
                let n = self.bundle_ids@.len() - 1;
                assert(self.bundle_ids@[n]@ == lowercase_of(id@));
            }
        }
        proof {
            let lower = lowercase_of(id@);
            assert forall|x: Seq<char>|
                self.bundle_id_set().contains(x) <==> old(self).bundle_id_set().insert(lower).contains(x) by {
                if old(self).bundle_id_set().contains(x) {
                    let i = choose|i: int|
                        0 <= i < old(self).bundle_ids@.len() && #[trigger] old(self).bundle_ids@[i]@ == x;
                    assert(self.bundle_ids@[i]@ == x);
                }
                if x == lower && old(self).bundle_ids@.len() == self.bundle_ids@.len() {
                    let i = choose|i: int| 0 <= i < self.bundle_ids@.len() && #[trigger] self.bundle_ids@[i]@ == lc@;
                    assert(old(self).bundle_ids@[i]@ == x);
                }
                if x == lower && old(self).bundle_ids@.len() < self.bundle_ids@.len() {
                    assert(self.bundle_ids@[old(self).bundle_ids@.len() as int]@ == x);
                }
                if self.bundle_id_set().contains(x) {
                    let i = choose|i: int| 0 <= i < self.bundle_ids@.len() && #[trigger] self.bundle_ids@[i]@ == x;
                    if i < old(self).bundle_ids@.len() {
                        assert(old(self).bundle_ids@[i]@ == x);
                    }
                }
            }
        }
        assert(self.bundle_id_set() =~= old(self).bundle_id_set().insert(lowercase_of(id@)));
        assert(self.name_set() =~= old(self).name_set());
    }

    /// True if an app with this display-name folder is currently installed.
    pub fn has_name(&self, name: &str) -> (r: bool)
        ensures
            r == self.name_set().contains(lowercase_of(name@)),
            ascii_only(name@) ==> r == self.name_set().contains(ascii_lowercase(name@)),
    {
        let l = to_lower(name);
        let lc = chars_of(l.as_str());
        Self::vec_has(&self.names, lc.as_slice())
    }

    /// True if a bundle-id is currently installed (also strips team-ID prefix).
    pub fn has_bundle_id(&self, id: &str) -> (r: bool)
        ensures
            r == bundle_matches(self.bundle_id_set(), lowercase_of(id@)),
            ascii_only(id@) ==> r == bundle_matches(self.bundle_id_set(), ascii_lowercase(id@)),
    {
        let lower = to_lower(id);
        let lc = chars_of(lower.as_str());
        if Self::vec_has(&self.bundle_ids, lc.as_slice()) {
            return true;
        }
        match find_first(lc.as_slice(), '.') {
            None => false,
            Some(d) => {
                assert(d < lc.len());
                let rest = char_prefix_skip(&lc, d + 1);
                if Self::vec_has(&self.bundle_ids, rest.as_slice()) {
                    return true;
                }
                let mut dotted: Vec<char> = Vec::new();
                dotted.push('.');
                let mut k: usize = 0;
                while k < rest.len()
                    invariant
                        k <= rest@.len(),
                        dotted@ == seq!['.'] + rest@.take(k as int),
                    decreases rest@.len() - k,
                {
                    dotted.push(rest[k]);
                    k = k + 1;
                    assert(dotted@ =~= seq!['.'] + rest@.take(k as int));
                }
                assert(rest@.take(rest@.len() as int) =~= rest@);
                let mut i: usize = 0;
                while i < self.bundle_ids.len()
                    invariant
                        i <= self.bundle_ids@.len(),
                        dotted@ == seq!['.'] + rest@,
                        rest@ == lc@.skip(d + 1),
                        first_index(lc@, '.') == Some(d as int),
                        lc@ == lowercase_of(id@),
                        ascii_only(id@) ==> lc@ == ascii_lowercase(id@),
                        forall|j: int|
                            0 <= j < i ==> !((seq!['.'] + rest@).is_suffix_of(
                                #[trigger] self.bundle_ids@[j]@,
                            ) || self.bundle_ids@[j]@.is_prefix_of(rest@)),
                    decreases self.bundle_ids@.len() - i,
                {
                    let bc = chars_of(self.bundle_ids[i].as_str());
                    if seq_ends_with(bc.as_slice(), dotted.as_slice()) || seq_starts_with(
                        rest.as_slice(),
                        bc.as_slice(),
                    ) {
                        assert(self.bundle_ids@[i as int]@ == bc@);
                        assert(self.bundle_id_set().contains(bc@));
                        assert(after_first_dot(lc@) == Some(rest@));
                        assert((seq!['.'] + rest@).is_suffix_of(bc@) || bc@.is_prefix_of(rest@));
                        return true;
                    }
                    i = i + 1;
                }
                proof {
                    assert forall|bid: Seq<char>| #[trigger]
                        self.bundle_id_set().contains(bid) implies !((seq!['.']
                        + rest@).is_suffix_of(bid) || bid.is_prefix_of(rest@)) by {
                        let j = choose|j: int|
                            0 <= j < self.bundle_ids@.len() && #[trigger] self.bundle_ids@[j]@
                                == bid;
                        assert(self.bundle_ids@[j]@ == bid);
                    }
                }
                false
            },
        }
    }

    /// Records one `.app` bundle: its folder stem and the display names and
    /// bundle identifier found in its `Info.plist` bytes, when readable.
    pub fn record_app(&mut self, stem: &str, info_plist: Option<&[u8]>)
        ensures
            final(self).name_set() == old(self).name_set().insert(lowercase_of(stem@)).union(
                plist_names(info_plist),
            ),
            final(self).bundle_id_set() == old(self).bundle_id_set().union(
                plist_bundle_ids(info_plist),
            ),
            ascii_only(stem@) ==> final(self).name_set().contains(ascii_lowercase(stem@)),
    {
        self.insert_name(stem);
        match info_plist {
            None => {
                assert(self.name_set() =~= old(self).name_set().insert(lowercase_of(stem@)).union(
                    plist_names(info_plist),
                ));
                assert(self.bundle_id_set() =~= old(self).bundle_id_set().union(
                    plist_bundle_ids(info_plist),
                ));
            },
            Some(bytes) => {
                let ghost after_stem = self.name_set();
                let ghost ids0 = self.bundle_id_set();
                if let Some(bid) = plist_string(bytes, "CFBundleIdentifier") {
                    self.insert_bundle_id(bid.as_str());
                }
                if let Some(bname) = plist_string(bytes, "CFBundleName") {
                    self.insert_name(bname.as_str());
                }
                if let Some(dname) = plist_string(bytes, "CFBundleDisplayName") {
                    self.insert_name(dname.as_str());
                }
                assert(self.name_set() =~= old(self).name_set().insert(lowercase_of(stem@)).union(
                    plist_names(info_plist),
                ));
                assert(self.bundle_id_set() =~= old(self).bundle_id_set().union(
                    plist_bundle_ids(info_plist),
                ));
            },
        }
    }
}

/// The characters of `s` from position `k` on.
fn char_prefix_skip(s: &Vec<char>, k: usize) -> (r: Vec<char>)
    requires
        k <= s@.len(),
    ensures
        r@ == s@.skip(k as int),
{
    let mut r: Vec<char> = Vec::new();
    let mut i: usize = k;
    while i < s.len()
        invariant
            k <= i <= s@.len(),
            r@ == s@.subrange(k as int, i as int),
        decreases s@.len() - i,
    {
        r.push(s[i]);
        i = i + 1;
        assert(r@ =~= s@.subrange(k as int, i as int));
    }
    assert(r@ =~= s@.skip(k as int));
    r
}

/// The string stored under `key` in the top-level dictionary of a property
/// list, as the `plist` crate decodes it (XML or binary).
pub uninterp spec fn plist_string_entry(bytes: Seq<u8>, key: Seq<char>) -> Option<Seq<char>>;

/// Calls `plist::Value::from_reader` on the bytes, then `as_dictionary`,
/// `Dictionary::get(key)` and `as_string` on what it returns.  The contract
/// only names the result; the decoding rules of the format are not restated.
#[verifier::external_body]
fn plist_string(bytes: &[u8], key: &str) -> (r: Option<String>)
    ensures
        match r {
            Some(s) => plist_string_entry(bytes@, key@) == Some(s@),
            None => plist_string_entry(bytes@, key@) is None,
        },
{
    let value = plist::Value::from_reader(std::io::Cursor::new(bytes)).ok()?;
    let text = value.as_dictionary()?.get(key)?.as_string()?;
    Some(text.to_string())
}

/// The lower-cased value under `key` of a property list, as a set of at most one element.
pub open spec fn plist_lowered(info_plist: Option<&[u8]>, key: Seq<char>) -> Set<Seq<char>> {
    match info_plist {
        Some(b) => match plist_string_entry(b@, key) {
            Some(v) => set![lowercase_of(v)],
            None => Set::empty(),
        },
        None => Set::empty(),
    }
}

/// Display names that an `Info.plist` contributes (`CFBundleName`, `CFBundleDisplayName`).
pub open spec fn plist_names(info_plist: Option<&[u8]>) -> Set<Seq<char>> {
    plist_lowered(info_plist, "CFBundleName"@).union(plist_lowered(info_plist, "CFBundleDisplayName"@))
}

/// Bundle identifiers that an `Info.plist` contributes (`CFBundleIdentifier`).
pub open spec fn plist_bundle_ids(info_plist: Option<&[u8]>) -> Set<Seq<char>> {
    plist_lowered(info_plist, "CFBundleIdentifier"@)
}

/// Index of the last '.' in `s`.
pub open spec fn last_dot(s: Seq<char>) -> Option<int>
    decreases s.len(),
{
    if s.len() == 0 {
        None
    } else if s.last() == '.' {
        Some(s.len() - 1)
    } else {
        last_dot(s.drop_last())
    }
}

/// The stem of an application bundle's folder name (`Name.app` gives
/// `Name`): the part before the last '.', when that dot is not the first
/// character and "app" follows it.
pub open spec fn app_stem(name: Seq<char>) -> Option<Seq<char>> {
    match last_dot(name) {
        Some(k) => if k > 0 && name.skip(k + 1) == "app"@ {
            Some(name.take(k))
        } else {
            None
        },
        None => None,
    }
}

/// The display name an application folder stands for, when its extension is `app`.
pub fn app_bundle_stem(file_name: &str) -> (r: Option<&str>)
    ensures
        match r {
            Some(s) => app_stem(file_name@) == Some(s@),
            None => app_stem(file_name@) is None,
        },
{
    let cs = chars_of(file_name);
    let mut k: usize = cs.len();
    while k > 0 && cs[k - 1] != '.'
        invariant
            k <= cs@.len(),
            cs@ == file_name@,
            last_dot(cs@.take(k as int)) == last_dot(file_name@),
        decreases k,
    {
        assert(cs@.take(k as int).drop_last() =~= cs@.take(k - 1));
        k = k - 1;
    }
    proof {
        assert(cs@.take(cs@.len() as int) =~= cs@);
    }
    if k <= 1 {
        return None;
    }
    let dot = k - 1;
    let (stem, ext) = crate::text::char_split(file_name, dot);
    let after = crate::text::char_suffix(ext, 1);
    assert(after@ =~= file_name@.skip(dot + 1));
    let ac = chars_of(after);
    if eq_str(ac.as_slice(), "app") {
        Some(stem)
    } else {
        None
    }
}


/// Recording a display name makes exactly that name (compared lower-cased)
/// known in addition to those known before: `has_name` after `insert_name`.
pub proof fn law_name_known_after_insert(before: Set<Seq<char>>, recorded: Seq<char>, asked: Seq<char>)
    ensures
        before.insert(lowercase_of(recorded)).contains(lowercase_of(asked)) == (before.contains(
            lowercase_of(asked),
        ) || lowercase_of(asked) == lowercase_of(recorded)),
{
}

/// A recorded bundle identifier is found again when asked for in any
/// letter case: `has_bundle_id` after `insert_bundle_id`.
pub proof fn law_bundle_id_known_after_insert(
    before: Set<Seq<char>>,
    recorded: Seq<char>,
    asked: Seq<char>,
)
    requires
        lowercase_of(asked) == lowercase_of(recorded),
    ensures
        bundle_matches(before.insert(lowercase_of(recorded)), lowercase_of(asked)),
{
}

/// The first `c` of `a + b`, when `a` holds none, is the first `c` of `b`,
/// shifted by the length of `a`.
proof fn lemma_first_index_concat(a: Seq<char>, b: Seq<char>, c: char)
    requires
        !a.contains(c),
    ensures
        first_index(a + b, c) == (match first_index(b, c) {
            Some(i) => Some(i + a.len()),
            None => None::<int>,
        }),
    decreases a.len(),
{
    if a.len() == 0 {
        assert(a + b =~= b);
    } else {
        assert((a + b).drop_first() =~= a.drop_first() + b);
        assert(!a.drop_first().contains(c)) by {
            if a.drop_first().contains(c) {
                let k = choose|k: int| 0 <= k < a.drop_first().len() && a.drop_first()[k] == c;
                assert(a[k + 1] == c);
            }
        }
        assert((a + b)[0] == a[0]);
        lemma_first_index_concat(a.drop_first(), b, c);
    }
}

/// An identifier prefixed with a team ID (a first component without dots)
/// matches the installed identifier it prefixes, as Group Containers name
/// them (`TEAMID.com.vendor.app`).
pub proof fn law_team_prefix_matches(ids: Set<Seq<char>>, team: Seq<char>, id: Seq<char>)
    requires
        ids.contains(id),
        !team.contains('.'),
    ensures
        bundle_matches(ids, team + seq!['.'] + id),
{
    let s = team + seq!['.'] + id;
    assert(s =~= team + (seq!['.'] + id));
    lemma_first_index_concat(team, seq!['.'] + id, '.');
    assert(first_index(seq!['.'] + id, '.') == Some(0int));
    assert(s.skip(team.len() as int + 1) =~= id);
    assert(after_first_dot(s) == Some(id));
}

/// A name or identifier recorded from ASCII text is stored as its ASCII
/// lower-case form: ASCII again, and left as it is by lowering it again.
pub proof fn law_ascii_records_stored_lowercase(recorded: Seq<char>)
    requires
        ascii_only(recorded),
    ensures
        ascii_only(ascii_lowercase(recorded)),
        ascii_lowercase(ascii_lowercase(recorded)) == ascii_lowercase(recorded),
{
    law_ascii_lowercase_stable(recorded);
}


/// How an asked-for identifier (already lower-cased) matches the installed
/// ones: exactly; or, once the part up to its first dot (a team ID) is
/// dropped, exactly, as the last dot-separated part of an installed
/// identifier, or by starting with an installed identifier.  An identifier
/// without a dot matches only exactly.
pub proof fn law_bundle_match_rules(ids: Set<Seq<char>>, team: Seq<char>, rest: Seq<char>, bid: Seq<char>)
    requires
        !team.contains('.'),
    ensures
        ids.contains(team + seq!['.'] + rest) ==> bundle_matches(ids, team + seq!['.'] + rest),
        ids.contains(rest) ==> bundle_matches(ids, team + seq!['.'] + rest),
        ids.contains(bid) && (seq!['.'] + rest).is_suffix_of(bid) ==> bundle_matches(
            ids,
            team + seq!['.'] + rest,
        ),
        ids.contains(bid) && bid.is_prefix_of(rest) ==> bundle_matches(ids, team + seq!['.'] + rest),
        !ids.contains(team) ==> !bundle_matches(ids, team),
{
    let s = team + seq!['.'] + rest;
    assert(s =~= team + (seq!['.'] + rest));
    lemma_first_index_concat(team, seq!['.'] + rest, '.');
    assert(first_index(seq!['.'] + rest, '.') == Some(0int));
    assert(s.skip(team.len() as int + 1) =~= rest);
    assert(after_first_dot(s) == Some(rest));
    lemma_first_index_concat(team, Seq::<char>::empty(), '.');
    assert(team + Seq::<char>::empty() =~= team);
}

} // verus!
