//! Deciding which category a path belongs to.

use vstd::prelude::*;
use crate::apps::{
    after_first_dot, apple_bundle_lowered, apple_system_bundle, apple_system_folder, bundle_id_like, bundle_matches,
    is_apple_system_bundle, is_apple_system_folder, looks_like_bundle_id, InstalledApps,
};
use crate::category::Category;
use crate::paths::{
    child_path, final_component, parent_path, path_child, path_exists, path_file_name, path_parent,
};
use crate::text::{
    chars_of, contains_seq, contains_str, ends_with_str, eq_str, lowercase_of, trim_end_all,
    trim_end_matches,
};

verus! {

/// What the file system said about the neighbourhood of a path: the only
/// facts classification needs beyond the path's text.
#[derive(Clone, Copy, Debug)]
pub struct PathProbes {
    /// `<path>/debug` or `<path>/release` exists.
    pub target_has_profile: bool,
    /// The parent holds `build.gradle`, `build.gradle.kts` or `CMakeLists.txt`.
    pub parent_has_build_script: bool,
    /// The parent holds `package.json`.
    pub parent_has_package_json: bool,
    /// `<path>/pyvenv.cfg` exists.
    pub has_pyvenv_cfg: bool,
}

/// The path text contains `s`.
pub open spec fn has(p: Seq<char>, s: &str) -> bool {
    contains_seq(p, s@)
}

/// The trash, or something inside it.
pub open spec fn trash_path(p: Seq<char>, n: Seq<char>) -> bool {
    n == ".Trash"@ || has(p, "/.Trash/")
}

/// iOS device backups.
pub open spec fn backup_path(p: Seq<char>) -> bool {
    has(p, "/MobileSync/Backup") || has(p, "Application Support/MobileSync")
}

/// Android SDKs, emulator images and their caches.
pub open spec fn android_path(p: Seq<char>, n: Seq<char>) -> bool {
    ||| has(p, "/Library/Android/")
    ||| has(p, "/.android/avd")
    ||| has(p, "/.android/cache")
    ||| (n == ".android"@ && has(p, "/Users/"))
}

/// iOS simulator devices and caches.
pub open spec fn simulator_path(p: Seq<char>) -> bool {
    has(p, "/CoreSimulator/Devices") || has(p, "/CoreSimulator/Caches")
}

/// Xcode's developer folders and its derived data.
pub open spec fn xcode_path(p: Seq<char>, n: Seq<char>) -> bool {
    ||| has(p, "/Developer/Xcode")
    ||| has(p, "/Developer/CoreSimulator")
    ||| n == "DerivedData"@
    ||| (n == "Xcode"@ && has(p, "/Developer/"))
}

/// Caches of the system and of package managers.
pub open spec fn cache_path(p: Seq<char>, n: Seq<char>) -> bool {
    ||| has(p, "/Library/Caches")
    ||| has(p, "/.cache")
    ||| n == "Cache"@
    ||| n == "Caches"@
    ||| has(p, "/.npm/_cacache")
    ||| has(p, "/.yarn/cache")
    ||| has(p, "/pip/cache")
    ||| has(p, "/.cargo/registry")
    ||| has(p, "/.cargo/git")
}

/// Build output, where the neighbourhood shows the build tool that made it.
pub open spec fn build_artifact(n: Seq<char>, fs: PathProbes) -> bool {
    ||| n == ".gradle"@
    ||| n == ".grails"@
    ||| n == ".m2"@
    ||| (n == "target"@ && fs.target_has_profile)
    ||| (n == "build"@ && fs.parent_has_build_script)
    ||| (n == ".next"@ && fs.parent_has_package_json)
    ||| (n == "dist"@ && fs.parent_has_package_json)
    ||| n == "__pycache__"@
    ||| n == ".turbo"@
    ||| n == ".parcel-cache"@
}

/// The usual names of Python virtual environments.
pub open spec fn venv_name(n: Seq<char>) -> bool {
    n == ".venv"@ || n == "venv"@ || n == "env"@ || n == ".env"@
}

/// Python virtual environments, pyenv versions and tox environments.
pub open spec fn python_path(p: Seq<char>, n: Seq<char>, fs: PathProbes) -> bool {
    ||| (venv_name(n) && fs.has_pyvenv_cfg)
    ||| has(p, "/.pyenv/versions/")
    ||| has(p, "/pyenv/versions/")
    ||| n == ".tox"@
    ||| has(p, "/.tox/")
}

/// Docker images and volumes.
pub open spec fn docker_path(p: Seq<char>) -> bool {
    has(p, "/.docker") || has(p, "/Docker.app") || (has(p, "/Containers/") && has(p, "com.docker"))
}

/// Virtual machine bundles and disk images.
pub open spec fn vm_path(p: Seq<char>, n: Seq<char>) -> bool {
    ||| ".vmwarevm"@.is_suffix_of(n)
    ||| ".parallels"@.is_suffix_of(n)
    ||| ".utm"@.is_suffix_of(n)
    ||| ".vmdk"@.is_suffix_of(n)
    ||| ".vdi"@.is_suffix_of(n)
    ||| ".qcow2"@.is_suffix_of(n)
    ||| ".vbox"@.is_suffix_of(n)
    ||| has(p, "/Parallels/")
    ||| has(p, "/UTM/")
    ||| (has(p, "/Containers/") && has(p, "com.utmapp"))
    ||| (has(p, "/Containers/") && has(p, "com.parallels"))
}

/// Browser profiles.
pub open spec fn browser_path(p: Seq<char>) -> bool {
    ||| has(p, "/Application Support/Google/Chrome")
    ||| has(p, "/Application Support/BraveSoftware")
    ||| has(p, "/Application Support/Firefox")
    ||| has(p, "/Application Support/Microsoft Edge")
    ||| has(p, "/Application Support/Chromium")
    ||| has(p, "/Application Support/Vivaldi")
    ||| has(p, "/Application Support/Arc")
    ||| has(p, "/Application Support/Opera")
    ||| has(p, "/Library/Safari")
}

/// The Mail message store.
pub open spec fn mail_path(p: Seq<char>) -> bool {
    has(p, "/Library/Mail") || (has(p, "/Containers/") && has(p, "com.apple.mail"))
}

/// Photos libraries.
pub open spec fn photos_path(p: Seq<char>, n: Seq<char>) -> bool {
    ||| ".photoslibrary"@.is_suffix_of(n)
    ||| has(p, "/Pictures/Photos Library")
    ||| (has(p, "/Containers/") && has(p, "com.apple.Photos"))
    ||| (has(p, "/Containers/") && has(p, "com.apple.photos"))
}

/// Music and iTunes media.
pub open spec fn music_path(p: Seq<char>) -> bool {
    ||| has(p, "/Music/Music/Media")
    ||| has(p, "/Music/iTunes")
    ||| (has(p, "/Containers/") && has(p, "com.apple.Music"))
}

/// Message attachments.
pub open spec fn messages_path(p: Seq<char>, n: Seq<char>) -> bool {
    has(p, "/Messages/Attachments") || (has(p, "/Messages/") && n == "Attachments"@)
}

/// iCloud Drive documents.
pub open spec fn icloud_path(p: Seq<char>) -> bool {
    has(p, "/Mobile Documents") || has(p, "iCloud~")
}

/// Package manager stores (npm, yarn, pnpm, nvm, bun).
pub open spec fn package_cache_path(p: Seq<char>) -> bool {
    has(p, "/.npm") || has(p, "/.yarn") || has(p, "/.pnpm") || has(p, "/.nvm") || has(p, "/.bun")
}

/// Log folders.
pub open spec fn logs_path(p: Seq<char>, n: Seq<char>) -> bool {
    n == "Logs"@ || n == "logs"@ || has(p, "/Library/Logs")
}

/// A user's Downloads folder.
pub open spec fn downloads_path(p: Seq<char>, n: Seq<char>) -> bool {
    n == "Downloads"@ && has(p, "/Users/")
}

/// Application data folders.
pub open spec fn app_data_path(p: Seq<char>) -> bool {
    has(p, "/Application Support/") || has(p, "/Containers/") || has(p, "/Group Containers/")
}

/// Name of the directory that holds `p`; empty when there is none.
pub open spec fn parent_name(p: Seq<char>) -> Seq<char> {
    match parent_path(p) {
        Some(q) => match final_component(q) {
            Some(c) => c,
            None => Seq::empty(),
        },
        None => Seq::empty(),
    }
}

/// An app with display name `n` is installed.
pub open spec fn named_app_installed(names: Set<Seq<char>>, n: Seq<char>) -> bool {
    names.contains(lowercase_of(n))
}

/// An app with bundle identifier `id` is installed.
pub open spec fn bundle_installed(ids: Set<Seq<char>>, id: Seq<char>) -> bool {
    bundle_matches(ids, lowercase_of(id))
}

/// A bundle-id-named folder of a third-party app that is not installed.
pub open spec fn stale_bundle(ids: Set<Seq<char>>, b: Seq<char>) -> bool {
    bundle_id_like(b) && !apple_system_bundle(b) && !bundle_installed(ids, b)
}

/// A name-keyed item of a third-party app that is not installed.
pub open spec fn stale_named(names: Set<Seq<char>>, b: Seq<char>) -> bool {
    !named_app_installed(names, b) && !apple_system_folder(b)
}

/// An entry named `n` in a directory named `pn` is data left behind by an
/// app that is no longer installed.
pub open spec fn orphan_under(
    pn: Seq<char>,
    n: Seq<char>,
    names: Set<Seq<char>>,
    ids: Set<Seq<char>>,
) -> bool {
    if pn == "Application Support"@ {
        !apple_system_folder(n) && ((!named_app_installed(names, n) && !bundle_id_like(n))
            || stale_bundle(ids, n))
    } else if pn == "Containers"@ || pn == "Group Containers"@ {
        stale_bundle(ids, n)
    } else if pn == "Saved Application State"@ {
        stale_bundle(ids, trim_end_all(n, ".savedState"@))
    } else if pn == "WebKit"@ || pn == "HTTPStorages"@ {
        stale_bundle(ids, n)
    } else if pn == "PreferencePanes"@ {
        stale_named(names, trim_end_all(n, ".prefPane"@))
    } else if pn == "Internet Plug-Ins"@ || pn == "QuickLook"@ {
        stale_named(names, trim_end_all(trim_end_all(n, ".plugin"@), ".qlgenerator"@))
    } else if pn == "Screen Savers"@ {
        stale_named(names, trim_end_all(n, ".saver"@))
    } else {
        false
    }
}

/// The category of the entry at path `p` named `n`, the first rule that
/// matches winning.
pub open spec fn classify_spec(
    p: Seq<char>,
    n: Seq<char>,
    names: Set<Seq<char>>,
    ids: Set<Seq<char>>,
    fs: PathProbes,
) -> Category {
    if trash_path(p, n) {
        Category::Trash
    } else if backup_path(p) {
        Category::Backup
    } else if android_path(p, n) {
        Category::AndroidSdk
    } else if simulator_path(p) {
        Category::Simulator
    } else if xcode_path(p, n) {
        Category::Xcode
    } else if cache_path(p, n) {
        Category::Cache
    } else if n == "node_modules"@ {
        Category::NodeModules
    } else if build_artifact(n, fs) {
        Category::BuildArtifact
    } else if python_path(p, n, fs) {
        Category::Python
    } else if docker_path(p) {
        Category::Docker
    } else if vm_path(p, n) {
        Category::VirtualMachine
    } else if browser_path(p) {
        Category::BrowserData
    } else if mail_path(p) {
        Category::Mail
    } else if photos_path(p, n) {
        Category::Photos
    } else if music_path(p) {
        Category::MusicMedia
    } else if messages_path(p, n) {
        Category::Messages
    } else if icloud_path(p) {
        Category::ICloud
    } else if package_cache_path(p) {
        Category::PackageCache
    } else if logs_path(p, n) {
        Category::Logs
    } else if downloads_path(p, n) {
        Category::Downloads
    } else if orphan_under(parent_name(p), n, names, ids) {
        Category::OrphanedAppData
    } else if app_data_path(p) {
        Category::AppData
    } else {
        Category::Uncategorized
    }
}

fn early_category(p: &[char], n: &[char]) -> (r: Option<Category>)
    ensures
        r == (if trash_path(p@, n@) {
            Some(Category::Trash)
        } else if backup_path(p@) {
            Some(Category::Backup)
        } else if android_path(p@, n@) {
            Some(Category::AndroidSdk)
        } else if simulator_path(p@) {
            Some(Category::Simulator)
        } else if xcode_path(p@, n@) {
            Some(Category::Xcode)
        } else if cache_path(p@, n@) {
            Some(Category::Cache)
        } else if n@ == "node_modules"@ {
            Some(Category::NodeModules)
        } else {
            None::<Category>
        }),
{
    if eq_str(n, ".Trash") || contains_str(p, "/.Trash/") {
        return Some(Category::Trash);
    }
    if contains_str(p, "/MobileSync/Backup") || contains_str(p, "Application Support/MobileSync") {
        return Some(Category::Backup);
    }
    if contains_str(p, "/Library/Android/") || contains_str(p, "/.android/avd") || contains_str(
        p,
        "/.android/cache",
    ) || (eq_str(n, ".android") && contains_str(p, "/Users/")) {
        return Some(Category::AndroidSdk);
    }
    if contains_str(p, "/CoreSimulator/Devices") || contains_str(p, "/CoreSimulator/Caches") {
        return Some(Category::Simulator);
    }
    if contains_str(p, "/Developer/Xcode") || contains_str(p, "/Developer/CoreSimulator") || eq_str(
        n,
        "DerivedData",
    ) || (eq_str(n, "Xcode") && contains_str(p, "/Developer/")) {
        return Some(Category::Xcode);
    }
    if contains_str(p, "/Library/Caches") || contains_str(p, "/.cache") || eq_str(n, "Cache")
        || eq_str(n, "Caches") || contains_str(p, "/.npm/_cacache") || contains_str(
        p,
        "/.yarn/cache",
    ) || contains_str(p, "/pip/cache") || contains_str(p, "/.cargo/registry") || contains_str(
        p,
        "/.cargo/git",
    ) {
        return Some(Category::Cache);
    }
    if eq_str(n, "node_modules") {
        return Some(Category::NodeModules);
    }
    None
}

fn is_build_artifact(n: &[char], fs: &PathProbes) -> (r: bool)
    ensures
        r == build_artifact(n@, *fs),
{
    eq_str(n, ".gradle") || eq_str(n, ".grails") || eq_str(n, ".m2") || (eq_str(n, "target")
        && fs.target_has_profile) || (eq_str(n, "build") && fs.parent_has_build_script) || (eq_str(
        n,
        ".next",
    ) && fs.parent_has_package_json) || (eq_str(n, "dist") && fs.parent_has_package_json)
        || eq_str(n, "__pycache__") || eq_str(n, ".turbo") || eq_str(n, ".parcel-cache")
}

fn is_venv_name(n: &[char]) -> (r: bool)
    ensures
        r == venv_name(n@),
{
    eq_str(n, ".venv") || eq_str(n, "venv") || eq_str(n, "env") || eq_str(n, ".env")
}

fn is_python(p: &[char], n: &[char], fs: &PathProbes) -> (r: bool)
    ensures
        r == python_path(p@, n@, *fs),
{
    (is_venv_name(n) && fs.has_pyvenv_cfg) || contains_str(p, "/.pyenv/versions/") || contains_str(
        p,
        "/pyenv/versions/",
    ) || eq_str(n, ".tox") || contains_str(p, "/.tox/")
}

fn is_vm(p: &[char], n: &[char]) -> (r: bool)
    ensures
        r == vm_path(p@, n@),
{
    ends_with_str(n, ".vmwarevm") || ends_with_str(n, ".parallels") || ends_with_str(n, ".utm")
        || ends_with_str(n, ".vmdk") || ends_with_str(n, ".vdi") || ends_with_str(n, ".qcow2")
        || ends_with_str(n, ".vbox") || contains_str(p, "/Parallels/") || contains_str(p, "/UTM/")
        || (contains_str(p, "/Containers/") && contains_str(p, "com.utmapp")) || (contains_str(
        p,
        "/Containers/",
    ) && contains_str(p, "com.parallels"))
}

fn is_browser(p: &[char]) -> (r: bool)
    ensures
        r == browser_path(p@),
{
    contains_str(p, "/Application Support/Google/Chrome") || contains_str(
        p,
        "/Application Support/BraveSoftware",
    ) || contains_str(p, "/Application Support/Firefox") || contains_str(
        p,
        "/Application Support/Microsoft Edge",
    ) || contains_str(p, "/Application Support/Chromium") || contains_str(
        p,
        "/Application Support/Vivaldi",
    ) || contains_str(p, "/Application Support/Arc") || contains_str(
        p,
        "/Application Support/Opera",
    ) || contains_str(p, "/Library/Safari")
}

fn media_category(p: &[char], n: &[char]) -> (r: Option<Category>)
    ensures
        r == (if docker_path(p@) {
            Some(Category::Docker)
        } else if vm_path(p@, n@) {
            Some(Category::VirtualMachine)
        } else if browser_path(p@) {
            Some(Category::BrowserData)
        } else if mail_path(p@) {
            Some(Category::Mail)
        } else if photos_path(p@, n@) {
            Some(Category::Photos)
        } else if music_path(p@) {
            Some(Category::MusicMedia)
        } else if messages_path(p@, n@) {
            Some(Category::Messages)
        } else if icloud_path(p@) {
            Some(Category::ICloud)
        } else if package_cache_path(p@) {
            Some(Category::PackageCache)
        } else if logs_path(p@, n@) {
            Some(Category::Logs)
        } else if downloads_path(p@, n@) {
            Some(Category::Downloads)
        } else {
            None::<Category>
        }),
{
    if contains_str(p, "/.docker") || contains_str(p, "/Docker.app") || (contains_str(
        p,
        "/Containers/",
    ) && contains_str(p, "com.docker")) {
        return Some(Category::Docker);
    }
    if is_vm(p, n) {
        return Some(Category::VirtualMachine);
    }
    if is_browser(p) {
        return Some(Category::BrowserData);
    }
    if contains_str(p, "/Library/Mail") || (contains_str(p, "/Containers/") && contains_str(
        p,
        "com.apple.mail",
    )) {
        return Some(Category::Mail);
    }
    if ends_with_str(n, ".photoslibrary") || contains_str(p, "/Pictures/Photos Library") || (
    contains_str(p, "/Containers/") && contains_str(p, "com.apple.Photos")) || (contains_str(
        p,
        "/Containers/",
    ) && contains_str(p, "com.apple.photos")) {
        return Some(Category::Photos);
    }
    if contains_str(p, "/Music/Music/Media") || contains_str(p, "/Music/iTunes") || (contains_str(
        p,
        "/Containers/",
    ) && contains_str(p, "com.apple.Music")) {
        return Some(Category::MusicMedia);
    }
    if contains_str(p, "/Messages/Attachments") || (contains_str(p, "/Messages/") && eq_str(
        n,
        "Attachments",
    )) {
        return Some(Category::Messages);
    }
    if contains_str(p, "/Mobile Documents") || contains_str(p, "iCloud~") {
        return Some(Category::ICloud);
    }
    if contains_str(p, "/.npm") || contains_str(p, "/.yarn") || contains_str(p, "/.pnpm")
        || contains_str(p, "/.nvm") || contains_str(p, "/.bun") {
        return Some(Category::PackageCache);
    }
    if eq_str(n, "Logs") || eq_str(n, "logs") || contains_str(p, "/Library/Logs") {
        return Some(Category::Logs);
    }
    if eq_str(n, "Downloads") && contains_str(p, "/Users/") {
        return Some(Category::Downloads);
    }
    None
}

/// The name of the directory holding `path`; empty when there is none.
pub fn parent_dir_name(path: &str) -> (r: &str)
    ensures
        r@ == parent_name(path@),
{
    match path_parent(path) {
        Some(q) => match path_file_name(q) {
            Some(c) => c,
            None => {
                let e = "";
                proof {
                    reveal_strlit("");
                }
                assert(e@ =~= Seq::<char>::empty());
                e
            },
        },
        None => {
            let e = "";
            proof {
                reveal_strlit("");
            }
            assert(e@ =~= Seq::<char>::empty());
            e
        },
    }
}

fn is_stale_bundle(installed: &InstalledApps, b: &str) -> (r: bool)
    ensures
        r == stale_bundle(installed.bundle_id_set(), b@),
{
    looks_like_bundle_id(b) && !is_apple_system_bundle(b) && !installed.has_bundle_id(b)
}

fn is_stale_named(installed: &InstalledApps, b: &str) -> (r: bool)
    ensures
        r == stale_named(installed.name_set(), b@),
{
    !installed.has_name(b) && !is_apple_system_folder(b)
}

/// Whether the entry `name` inside the directory called `pn` is data of an
/// app that is no longer installed.
pub fn is_orphaned(pn: &str, name: &str, installed: &InstalledApps) -> (r: bool)
    ensures
        r == orphan_under(pn@, name@, installed.name_set(), installed.bundle_id_set()),
{
    let pc = chars_of(pn);
    let p = pc.as_slice();
    if eq_str(p, "Application Support") {
        !is_apple_system_folder(name) && ((!installed.has_name(name) && !looks_like_bundle_id(name))
            || is_stale_bundle(installed, name))
    } else if eq_str(p, "Containers") || eq_str(p, "Group Containers") {
        is_stale_bundle(installed, name)
    } else if eq_str(p, "Saved Application State") {
        let base = trim_end_matches(name, ".savedState");
        is_stale_bundle(installed, base)
    } else if eq_str(p, "WebKit") || eq_str(p, "HTTPStorages") {
        is_stale_bundle(installed, name)
    } else if eq_str(p, "PreferencePanes") {
        let base = trim_end_matches(name, ".prefPane");
        is_stale_named(installed, base)
    } else if eq_str(p, "Internet Plug-Ins") || eq_str(p, "QuickLook") {
        let base = trim_end_matches(trim_end_matches(name, ".plugin"), ".qlgenerator");
        is_stale_named(installed, base)
    } else if eq_str(p, "Screen Savers") {
        let base = trim_end_matches(name, ".saver");
        is_stale_named(installed, base)
    } else {
        false
    }
}

/// The category of the entry at `path` named `name`, given what the file
/// system said about its neighbourhood.
pub fn classify_entry(path: &str, name: &str, installed: &InstalledApps, fs: &PathProbes) -> (r:
    Category)
    ensures
        r == classify_spec(path@, name@, installed.name_set(), installed.bundle_id_set(), *fs),
{
    let pc = chars_of(path);
    let nc = chars_of(name);
    let p = pc.as_slice();
    let n = nc.as_slice();
    if let Some(c) = early_category(p, n) {
        return c;
    }
    if is_build_artifact(n, fs) {
        return Category::BuildArtifact;
    }
    if is_python(p, n, fs) {
        return Category::Python;
    }
    if let Some(c) = media_category(p, n) {
        return c;
    }
    let pn = parent_dir_name(path);
    if is_orphaned(pn, name, installed) {
        return Category::OrphanedAppData;
    }
    if contains_str(p, "/Application Support/") || contains_str(p, "/Containers/") || contains_str(
        p,
        "/Group Containers/",
    ) {
        return Category::AppData;
    }
    Category::Uncategorized
}

/// The paths whose existence decides each answer of [`PathProbes`] for
/// the entry `name` at `path`: none for an answer the name makes irrelevant.
pub struct ProbeTargets {
    /// `<path>/debug` and `<path>/release`, for `target`.
    pub profile: Vec<String>,
    /// The build scripts beside a `build` folder.
    pub build_scripts: Vec<String>,
    /// `package.json` beside a `.next` or `dist` folder.
    pub package_json: Vec<String>,
    /// `<path>/pyvenv.cfg`, for a virtual environment's usual names.
    pub pyvenv_cfg: Vec<String>,
}

/// The paths named `files` inside the directory `dir`.
pub open spec fn children_of(dir: Seq<char>, files: Seq<Seq<char>>) -> Seq<Seq<char>> {
    files.map_values(|f: Seq<char>| child_path(dir, f))
}

/// The files beside `path` (in its parent) named `files`; none when `path`
/// has no parent.
pub open spec fn siblings_of(path: Seq<char>, files: Seq<Seq<char>>) -> Seq<Seq<char>> {
    match parent_path(path) {
        Some(par) => children_of(par, files),
        None => Seq::empty(),
    }
}

impl ProbeTargets {
    /// The four lists of paths, as character sequences.
    pub open spec fn lists(&self) -> (Seq<Seq<char>>, Seq<Seq<char>>, Seq<Seq<char>>, Seq<Seq<char>>) {
        (
            self.profile@.map_values(|p: String| p@),
            self.build_scripts@.map_values(|p: String| p@),
            self.package_json@.map_values(|p: String| p@),
            self.pyvenv_cfg@.map_values(|p: String| p@),
        )
    }
}

/// The paths asked about for the entry `name` at `path`.
pub open spec fn probe_targets_of(path: Seq<char>, name: Seq<char>) -> (
    Seq<Seq<char>>,
    Seq<Seq<char>>,
    Seq<Seq<char>>,
    Seq<Seq<char>>,
) {
    (
        if name == "target"@ {
            children_of(path, seq!["debug"@, "release"@])
        } else {
            Seq::empty()
        },
        if name == "build"@ {
            siblings_of(path, seq!["build.gradle"@, "build.gradle.kts"@, "CMakeLists.txt"@])
        } else {
            Seq::empty()
        },
        if name == ".next"@ || name == "dist"@ {
            siblings_of(path, seq!["package.json"@])
        } else {
            Seq::empty()
        },
        if venv_name(name) {
            children_of(path, seq!["pyvenv.cfg"@])
        } else {
            Seq::empty()
        },
    )
}

/// The paths whose existence classifying the entry `name` at `path` asks about.
pub fn probe_targets(path: &str, name: &str) -> (r: ProbeTargets)
    ensures
        r.lists() == probe_targets_of(path@, name@),
{
    let nc = chars_of(name);
    let n = nc.as_slice();
    let mut profile: Vec<String> = Vec::new();
    if eq_str(n, "target") {
        profile.push(path_child(path, "debug"));
        profile.push(path_child(path, "release"));
    }
    let mut build_scripts: Vec<String> = Vec::new();
    let mut package_json: Vec<String> = Vec::new();
    let wants_scripts = eq_str(n, "build");
    let wants_package = eq_str(n, ".next") || eq_str(n, "dist");
    if wants_scripts || wants_package {
        if let Some(par) = path_parent(path) {
            if wants_scripts {
                build_scripts.push(path_child(par, "build.gradle"));
                build_scripts.push(path_child(par, "build.gradle.kts"));
                build_scripts.push(path_child(par, "CMakeLists.txt"));
            }
            if wants_package {
                package_json.push(path_child(par, "package.json"));
            }
        }
    }
    let mut pyvenv_cfg: Vec<String> = Vec::new();
    if is_venv_name(n) {
        pyvenv_cfg.push(path_child(path, "pyvenv.cfg"));
    }
    let r = ProbeTargets { profile, build_scripts, package_json, pyvenv_cfg };
    proof {
        let want = probe_targets_of(path@, name@);
        assert(r.lists().0 =~= want.0);
        assert(r.lists().1 =~= want.1);
        assert(r.lists().2 =~= want.2);
        assert(r.lists().3 =~= want.3);
    }
    r
}

/// Whether any of `paths` exists, asked in order until one does.
fn any_exists(paths: &Vec<String>) -> (r: bool)
    ensures
        paths@.len() == 0 ==> !r,
{
    let mut i: usize = 0;
    while i < paths.len()
        invariant
            i <= paths@.len(),
        decreases paths@.len() - i,
    {
        if path_exists(paths[i].as_str()) {
            return true;
        }
        i = i + 1;
    }
    false
}

/// Asks the file system the questions that classifying `path` (named
/// `name`) can depend on: whether any of the paths of [`probe_targets`]
/// exists, for each answer; those the name makes irrelevant ask about no
/// path and are answered `false`.
pub fn probe_path(path: &str, name: &str) -> (r: PathProbes)
    ensures
        !(name@ == "target"@) ==> !r.target_has_profile,
        !(name@ == "build"@) ==> !r.parent_has_build_script,
        !(name@ == ".next"@ || name@ == "dist"@) ==> !r.parent_has_package_json,
        !venv_name(name@) ==> !r.has_pyvenv_cfg,
        parent_path(path@) is None ==> !r.parent_has_build_script && !r.parent_has_package_json,
        probe_targets_of(path@, name@).0.len() == 0 ==> !r.target_has_profile,
        probe_targets_of(path@, name@).1.len() == 0 ==> !r.parent_has_build_script,
        probe_targets_of(path@, name@).2.len() == 0 ==> !r.parent_has_package_json,
        probe_targets_of(path@, name@).3.len() == 0 ==> !r.has_pyvenv_cfg,
{
    let targets = probe_targets(path, name);
    proof {
        let want = probe_targets_of(path@, name@);
        assert(targets.profile@.len() == want.0.len());
        assert(targets.build_scripts@.len() == want.1.len());
        assert(targets.package_json@.len() == want.2.len());
        assert(targets.pyvenv_cfg@.len() == want.3.len());
    }
    PathProbes {
        target_has_profile: any_exists(&targets.profile),
        parent_has_build_script: any_exists(&targets.build_scripts),
        parent_has_package_json: any_exists(&targets.package_json),
        has_pyvenv_cfg: any_exists(&targets.pyvenv_cfg),
    }
}

/// The category of the entry at `path` named `name`.  The file-system
/// questions are asked on the spot; whatever they answer, the result is the
/// rule-based category for those answers.
pub fn classify_path(path: &str, name: &str, installed: &InstalledApps) -> (r: Category)
    ensures
        exists|fs: PathProbes|
            {
                &&& (!(name@ == "target"@) ==> !fs.target_has_profile)
                &&& (!(name@ == "build"@) ==> !fs.parent_has_build_script)
                &&& (!(name@ == ".next"@ || name@ == "dist"@) ==> !fs.parent_has_package_json)
                &&& (!venv_name(name@) ==> !fs.has_pyvenv_cfg)
                &&& r == #[trigger] classify_spec(
                    path@,
                    name@,
                    installed.name_set(),
                    installed.bundle_id_set(),
                    fs,
                )
            },
{
    let fs = probe_path(path, name);
    classify_entry(path, name, installed, &fs)
}


/// Whatever lies in the trash, or is the trash itself, is classified as
/// trash, whatever else its path says and whatever is installed.
pub proof fn law_trash_wins(
    p: Seq<char>,
    n: Seq<char>,
    names: Set<Seq<char>>,
    ids: Set<Seq<char>>,
    fs: PathProbes,
)
    requires
        n == ".Trash"@ || contains_seq(p, "/.Trash/"@),
    ensures
        classify_spec(p, n, names, ids, fs) == Category::Trash,
{
}

/// Knowing more installed bundle identifiers never makes one less match.
proof fn lemma_bundle_matches_grows(ids: Set<Seq<char>>, more: Set<Seq<char>>, l: Seq<char>)
    requires
        ids.subset_of(more),
        bundle_matches(ids, l),
    ensures
        bundle_matches(more, l),
{
    if !ids.contains(l) {
        if let Some(rest) = after_first_dot(l) {
            if !ids.contains(rest) {
                let bid = choose|bid: Seq<char>|
                    #[trigger] ids.contains(bid) && ((seq!['.'] + rest).is_suffix_of(bid)
                        || bid.is_prefix_of(rest));
                assert(more.contains(bid));
            }
        }
    }
}

/// Installing more applications never makes data look orphaned: whatever
/// is orphaned with more apps installed is orphaned with fewer.
pub proof fn law_orphans_shrink_as_apps_install(
    pn: Seq<char>,
    n: Seq<char>,
    names: Set<Seq<char>>,
    ids: Set<Seq<char>>,
    more_names: Set<Seq<char>>,
    more_ids: Set<Seq<char>>,
)
    requires
        names.subset_of(more_names),
        ids.subset_of(more_ids),
        orphan_under(pn, n, more_names, more_ids),
    ensures
        orphan_under(pn, n, names, ids),
{
    let bases = seq![
        n,
        trim_end_all(n, ".savedState"@),
        trim_end_all(n, ".prefPane"@),
        trim_end_all(trim_end_all(n, ".plugin"@), ".qlgenerator"@),
        trim_end_all(n, ".saver"@),
    ];
    assert forall|i: int| 0 <= i < bases.len() && bundle_installed(ids, #[trigger] bases[i]) implies bundle_installed(
        more_ids,
        bases[i],
    ) by {
        lemma_bundle_matches_grows(ids, more_ids, lowercase_of(bases[i]));
    }
    assert(bases[0] == n);
    assert(bases[1] == trim_end_all(n, ".savedState"@));
}


/// Whatever lies in the Mail store (`…/Library/Mail…`) is classified as
/// mail, unless a rule that comes first claims it: the trash, backups,
/// Android, the simulator, Xcode, caches, `node_modules`, build output,
/// Python, Docker, virtual machines or browsers.
pub proof fn law_mail_store_is_mail(
    p: Seq<char>,
    n: Seq<char>,
    names: Set<Seq<char>>,
    ids: Set<Seq<char>>,
    fs: PathProbes,
)
    requires
        contains_seq(p, "/Library/Mail"@),
        !trash_path(p, n),
        !backup_path(p),
        !android_path(p, n),
        !simulator_path(p),
        !xcode_path(p, n),
        !cache_path(p, n),
        n != "node_modules"@,
        !build_artifact(n, fs),
        !python_path(p, n, fs),
        !docker_path(p),
        !vm_path(p, n),
        !browser_path(p),
    ensures
        classify_spec(p, n, names, ids, fs) == Category::Mail,
{
}

/// A folder directly inside `Application Support` that is named by a bundle
/// identifier of an installed application is never taken for data left
/// behind by a removed one, whatever names are installed.
pub proof fn law_installed_bundle_not_orphaned(
    p: Seq<char>,
    n: Seq<char>,
    names: Set<Seq<char>>,
    ids: Set<Seq<char>>,
    fs: PathProbes,
)
    requires
        parent_name(p) == "Application Support"@,
        bundle_id_like(n),
        bundle_matches(ids, lowercase_of(n)),
    ensures
        !orphan_under(parent_name(p), n, names, ids),
        classify_spec(p, n, names, ids, fs) != Category::OrphanedAppData,
{
}


/// Where a category's rule stands in the order in which the rules are tried.
pub open spec fn rule_rank(c: Category) -> int {
    match c {
        Category::Trash => 0,
        Category::Backup => 1,
        Category::AndroidSdk => 2,
        Category::Simulator => 3,
        Category::Xcode => 4,
        Category::Cache => 5,
        Category::NodeModules => 6,
        Category::BuildArtifact => 7,
        Category::Python => 8,
        Category::Docker => 9,
        Category::VirtualMachine => 10,
        Category::BrowserData => 11,
        Category::Mail => 12,
        Category::Photos => 13,
        Category::MusicMedia => 14,
        Category::Messages => 15,
        Category::ICloud => 16,
        Category::PackageCache => 17,
        Category::Logs => 18,
        Category::Downloads => 19,
        Category::OrphanedAppData => 20,
        Category::AppData => 21,
        Category::Uncategorized => 22,
    }
}

/// Classification takes the first rule that matches, in this order: the
/// trash, iOS backups, Android, the iOS simulator, Xcode, caches,
/// `node_modules`, build output, Python environments, Docker, virtual
/// machines, browsers, Mail, Photos, Music, Messages, iCloud, package
/// stores, logs, Downloads, orphaned app data, app data.  Each clause below
/// gives what makes a rule match: a path that matches a rule gets that
/// category or one whose rule comes before it, and a path gets a category
/// only when that category's rule matches (no rule: uncategorized).
pub proof fn law_first_matching_rule(
    p: Seq<char>,
    n: Seq<char>,
    names: Set<Seq<char>>,
    ids: Set<Seq<char>>,
    fs: PathProbes,
)
    ensures
        ({
            let r = classify_spec(p, n, names, ids, fs);
            &&& rule_rank(r) <= rule_rank(Category::Uncategorized)
            &&& (n == ".Trash"@ || has(p, "/.Trash/")) ==>
                rule_rank(r) <= rule_rank(Category::Trash)
            &&& (has(p, "/MobileSync/Backup") || has(p, "Application Support/MobileSync")) ==>
                rule_rank(r) <= rule_rank(Category::Backup)
            &&& (
                    has(p, "/Library/Android/")
                    || has(p, "/.android/avd")
                    || has(p, "/.android/cache")
                    || (n == ".android"@ && has(p, "/Users/"))
                ) ==> rule_rank(r) <= rule_rank(Category::AndroidSdk)
            &&& (has(p, "/CoreSimulator/Devices") || has(p, "/CoreSimulator/Caches")) ==>
                rule_rank(r) <= rule_rank(Category::Simulator)
            &&& (
                    has(p, "/Developer/Xcode")
                    || has(p, "/Developer/CoreSimulator")
                    || n == "DerivedData"@
                    || (n == "Xcode"@ && has(p, "/Developer/"))
                ) ==> rule_rank(r) <= rule_rank(Category::Xcode)
            &&& (
                    has(p, "/Library/Caches")
                    || has(p, "/.cache")
                    || n == "Cache"@
                    || n == "Caches"@
                    || has(p, "/.npm/_cacache")
                    || has(p, "/.yarn/cache")
                    || has(p, "/pip/cache")
                    || has(p, "/.cargo/registry")
                    || has(p, "/.cargo/git")
                ) ==> rule_rank(r) <= rule_rank(Category::Cache)
            &&& (n == "node_modules"@) ==> rule_rank(r) <= rule_rank(Category::NodeModules)
            &&& (
                    n == ".gradle"@
                    || n == ".grails"@
                    || n == ".m2"@
                    || n == "__pycache__"@
                    || n == ".turbo"@
                    || n == ".parcel-cache"@
                    || (n == "target"@ && fs.target_has_profile)
                    || (n == "build"@ && fs.parent_has_build_script)
                    || ((n == ".next"@ || n == "dist"@) && fs.parent_has_package_json)
                ) ==> rule_rank(r) <= rule_rank(Category::BuildArtifact)
            &&& (
                    ((n == ".venv"@ || n == "venv"@ || n == "env"@ || n == ".env"@) && fs.has_pyvenv_cfg)
                    || has(p, "/.pyenv/versions/")
                    || has(p, "/pyenv/versions/")
                    || n == ".tox"@
                    || has(p, "/.tox/")
                ) ==> rule_rank(r) <= rule_rank(Category::Python)
            &&& (
                    has(p, "/.docker")
                    || has(p, "/Docker.app")
                    || (has(p, "/Containers/") && has(p, "com.docker"))
                ) ==> rule_rank(r) <= rule_rank(Category::Docker)
            &&& (
                    ".vmwarevm"@.is_suffix_of(n)
                    || ".parallels"@.is_suffix_of(n)
                    || ".utm"@.is_suffix_of(n)
                    || ".vmdk"@.is_suffix_of(n)
                    || ".vdi"@.is_suffix_of(n)
                    || ".qcow2"@.is_suffix_of(n)
                    || ".vbox"@.is_suffix_of(n)
                    || has(p, "/Parallels/")
                    || has(p, "/UTM/")
                    || (has(p, "/Containers/") && has(p, "com.utmapp"))
                    || (has(p, "/Containers/") && has(p, "com.parallels"))
                ) ==> rule_rank(r) <= rule_rank(Category::VirtualMachine)
            &&& (
                    has(p, "/Application Support/Google/Chrome")
                    || has(p, "/Application Support/BraveSoftware")
                    || has(p, "/Application Support/Firefox")
                    || has(p, "/Application Support/Microsoft Edge")
                    || has(p, "/Application Support/Chromium")
                    || has(p, "/Application Support/Vivaldi")
                    || has(p, "/Application Support/Arc")
                    || has(p, "/Application Support/Opera")
                    || has(p, "/Library/Safari")
                ) ==> rule_rank(r) <= rule_rank(Category::BrowserData)
            &&& (
                    has(p, "/Library/Mail")
                    || (has(p, "/Containers/") && has(p, "com.apple.mail"))
                ) ==> rule_rank(r) <= rule_rank(Category::Mail)
            &&& (
                    ".photoslibrary"@.is_suffix_of(n)
                    || has(p, "/Pictures/Photos Library")
                    || (has(p, "/Containers/") && has(p, "com.apple.Photos"))
                    || (has(p, "/Containers/") && has(p, "com.apple.photos"))
                ) ==> rule_rank(r) <= rule_rank(Category::Photos)
            &&& (
                    has(p, "/Music/Music/Media")
                    || has(p, "/Music/iTunes")
                    || (has(p, "/Containers/") && has(p, "com.apple.Music"))
                ) ==> rule_rank(r) <= rule_rank(Category::MusicMedia)
            &&& (
                    has(p, "/Messages/Attachments")
                    || (has(p, "/Messages/") && n == "Attachments"@)
                ) ==> rule_rank(r) <= rule_rank(Category::Messages)
            &&& (has(p, "/Mobile Documents") || has(p, "iCloud~")) ==>
                rule_rank(r) <= rule_rank(Category::ICloud)
            &&& (
                    has(p, "/.npm")
                    || has(p, "/.yarn")
                    || has(p, "/.pnpm")
                    || has(p, "/.nvm")
                    || has(p, "/.bun")
                ) ==> rule_rank(r) <= rule_rank(Category::PackageCache)
            &&& (n == "Logs"@ || n == "logs"@ || has(p, "/Library/Logs")) ==>
                rule_rank(r) <= rule_rank(Category::Logs)
            &&& ((n == "Downloads"@ && has(p, "/Users/"))) ==>
                rule_rank(r) <= rule_rank(Category::Downloads)
            &&& (orphan_under(parent_name(p), n, names, ids)) ==>
                rule_rank(r) <= rule_rank(Category::OrphanedAppData)
            &&& (
                    has(p, "/Application Support/")
                    || has(p, "/Containers/")
                    || has(p, "/Group Containers/")
                ) ==> rule_rank(r) <= rule_rank(Category::AppData)
            &&& r == Category::Trash ==> (n == ".Trash"@ || has(p, "/.Trash/"))
            &&& r == Category::Backup ==>
                (has(p, "/MobileSync/Backup") || has(p, "Application Support/MobileSync"))
            &&& r == Category::AndroidSdk ==> (
                    has(p, "/Library/Android/")
                    || has(p, "/.android/avd")
                    || has(p, "/.android/cache")
                    || (n == ".android"@ && has(p, "/Users/"))
                )
            &&& r == Category::Simulator ==>
                (has(p, "/CoreSimulator/Devices") || has(p, "/CoreSimulator/Caches"))
            &&& r == Category::Xcode ==> (
                    has(p, "/Developer/Xcode")
                    || has(p, "/Developer/CoreSimulator")
                    || n == "DerivedData"@
                    || (n == "Xcode"@ && has(p, "/Developer/"))
                )
            &&& r == Category::Cache ==> (
                    has(p, "/Library/Caches")
                    || has(p, "/.cache")
                    || n == "Cache"@
                    || n == "Caches"@
                    || has(p, "/.npm/_cacache")
                    || has(p, "/.yarn/cache")
                    || has(p, "/pip/cache")
                    || has(p, "/.cargo/registry")
                    || has(p, "/.cargo/git")
                )
            &&& r == Category::NodeModules ==> (n == "node_modules"@)
            &&& r == Category::BuildArtifact ==> (
                    n == ".gradle"@
                    || n == ".grails"@
                    || n == ".m2"@
                    || n == "__pycache__"@
                    || n == ".turbo"@
                    || n == ".parcel-cache"@
                    || (n == "target"@ && fs.target_has_profile)
                    || (n == "build"@ && fs.parent_has_build_script)
                    || ((n == ".next"@ || n == "dist"@) && fs.parent_has_package_json)
                )
            &&& r == Category::Python ==> (
                    ((n == ".venv"@ || n == "venv"@ || n == "env"@ || n == ".env"@) && fs.has_pyvenv_cfg)
                    || has(p, "/.pyenv/versions/")
                    || has(p, "/pyenv/versions/")
                    || n == ".tox"@
                    || has(p, "/.tox/")
                )
            &&& r == Category::Docker ==> (
                    has(p, "/.docker")
                    || has(p, "/Docker.app")
                    || (has(p, "/Containers/") && has(p, "com.docker"))
                )
            &&& r == Category::VirtualMachine ==> (
                    ".vmwarevm"@.is_suffix_of(n)
                    || ".parallels"@.is_suffix_of(n)
                    || ".utm"@.is_suffix_of(n)
                    || ".vmdk"@.is_suffix_of(n)
                    || ".vdi"@.is_suffix_of(n)
                    || ".qcow2"@.is_suffix_of(n)
                    || ".vbox"@.is_suffix_of(n)
                    || has(p, "/Parallels/")
                    || has(p, "/UTM/")
                    || (has(p, "/Containers/") && has(p, "com.utmapp"))
                    || (has(p, "/Containers/") && has(p, "com.parallels"))
                )
            &&& r == Category::BrowserData ==> (
                    has(p, "/Application Support/Google/Chrome")
                    || has(p, "/Application Support/BraveSoftware")
                    || has(p, "/Application Support/Firefox")
                    || has(p, "/Application Support/Microsoft Edge")
                    || has(p, "/Application Support/Chromium")
                    || has(p, "/Application Support/Vivaldi")
                    || has(p, "/Application Support/Arc")
                    || has(p, "/Application Support/Opera")
                    || has(p, "/Library/Safari")
                )
            &&& r == Category::Mail ==> (
                    has(p, "/Library/Mail")
                    || (has(p, "/Containers/") && has(p, "com.apple.mail"))
                )
            &&& r == Category::Photos ==> (
                    ".photoslibrary"@.is_suffix_of(n)
                    || has(p, "/Pictures/Photos Library")
                    || (has(p, "/Containers/") && has(p, "com.apple.Photos"))
                    || (has(p, "/Containers/") && has(p, "com.apple.photos"))
                )
            &&& r == Category::MusicMedia ==> (
                    has(p, "/Music/Music/Media")
                    || has(p, "/Music/iTunes")
                    || (has(p, "/Containers/") && has(p, "com.apple.Music"))
                )
            &&& r == Category::Messages ==> (
                    has(p, "/Messages/Attachments")
                    || (has(p, "/Messages/") && n == "Attachments"@)
                )
            &&& r == Category::ICloud ==> (has(p, "/Mobile Documents") || has(p, "iCloud~"))
            &&& r == Category::PackageCache ==> (
                    has(p, "/.npm")
                    || has(p, "/.yarn")
                    || has(p, "/.pnpm")
                    || has(p, "/.nvm")
                    || has(p, "/.bun")
                )
            &&& r == Category::Logs ==> (n == "Logs"@ || n == "logs"@ || has(p, "/Library/Logs"))
            &&& r == Category::Downloads ==> ((n == "Downloads"@ && has(p, "/Users/")))
            &&& r == Category::OrphanedAppData ==> (orphan_under(parent_name(p), n, names, ids))
            &&& r == Category::AppData ==> (
                    has(p, "/Application Support/")
                    || has(p, "/Containers/")
                    || has(p, "/Group Containers/")
                )
        }),
{
}



/// Which folders count as left behind by removed applications, by the
/// folder that holds them (`l` is the lower-cased name looked up):
/// - in `Application Support`: not Apple's; then, for a name shaped like a
///   bundle identifier, one that is not Apple's and that no installed app
///   has, and for any other name, one that no installed app shows;
/// - in `Containers`, `Group Containers`, `WebKit` and `HTTPStorages`: a
///   bundle identifier that is not Apple's and that no installed app has;
/// - in `Saved Application State`: the same, of the name without its
///   `.savedState` endings;
/// - in `PreferencePanes`, `Internet Plug-Ins`, `QuickLook` and `Screen
///   Savers`: a name, without its `.prefPane`, `.plugin` / `.qlgenerator`
///   or `.saver` endings, that no installed app shows and that is not an
///   Apple folder;
/// - anywhere else: never.
pub proof fn law_orphan_rules(pn: Seq<char>, n: Seq<char>, names: Set<Seq<char>>, ids: Set<Seq<char>>)
    ensures
        pn == "Application Support"@ ==> (orphan_under(pn, n, names, ids) == (!apple_system_folder(n)
            && if bundle_id_like(n) {
            !apple_bundle_lowered(lowercase_of(n)) && !bundle_matches(ids, lowercase_of(n))
        } else {
            !names.contains(lowercase_of(n))
        })),
        (pn == "Containers"@ || pn == "Group Containers"@ || pn == "WebKit"@ || pn
            == "HTTPStorages"@) ==> (orphan_under(pn, n, names, ids) == (bundle_id_like(n)
            && !apple_bundle_lowered(lowercase_of(n)) && !bundle_matches(ids, lowercase_of(n)))),
        pn == "Saved Application State"@ ==> ({
            let b = trim_end_all(n, ".savedState"@);
            orphan_under(pn, n, names, ids) == (bundle_id_like(b) && !apple_bundle_lowered(
                lowercase_of(b),
            ) && !bundle_matches(ids, lowercase_of(b)))
        }),
        pn == "PreferencePanes"@ ==> ({
            let b = trim_end_all(n, ".prefPane"@);
            orphan_under(pn, n, names, ids) == (!names.contains(lowercase_of(b))
                && !apple_system_folder(b))
        }),
        (pn == "Internet Plug-Ins"@ || pn == "QuickLook"@) ==> ({
            let b = trim_end_all(trim_end_all(n, ".plugin"@), ".qlgenerator"@);
            orphan_under(pn, n, names, ids) == (!names.contains(lowercase_of(b))
                && !apple_system_folder(b))
        }),
        pn == "Screen Savers"@ ==> ({
            let b = trim_end_all(n, ".saver"@);
            orphan_under(pn, n, names, ids) == (!names.contains(lowercase_of(b))
                && !apple_system_folder(b))
        }),
        !(pn == "Application Support"@ || pn == "Containers"@ || pn == "Group Containers"@ || pn
            == "WebKit"@ || pn == "HTTPStorages"@ || pn == "Saved Application State"@ || pn
            == "PreferencePanes"@ || pn == "Internet Plug-Ins"@ || pn == "QuickLook"@ || pn
            == "Screen Savers"@) ==> !orphan_under(pn, n, names, ids),
{
    // The parent names have ten different lengths, which tells them apart.
    reveal_strlit("Application Support");
    assert("Application Support"@.len() == 19);
    reveal_strlit("Containers");
    assert("Containers"@.len() == 10);
    reveal_strlit("Group Containers");
    assert("Group Containers"@.len() == 16);
    reveal_strlit("WebKit");
    assert("WebKit"@.len() == 6);
    reveal_strlit("HTTPStorages");
    assert("HTTPStorages"@.len() == 12);
    reveal_strlit("Saved Application State");
    assert("Saved Application State"@.len() == 23);
    reveal_strlit("PreferencePanes");
    assert("PreferencePanes"@.len() == 15);
    reveal_strlit("Internet Plug-Ins");
    assert("Internet Plug-Ins"@.len() == 17);
    reveal_strlit("QuickLook");
    assert("QuickLook"@.len() == 9);
    reveal_strlit("Screen Savers");
    assert("Screen Savers"@.len() == 13);
}

} // verus!
