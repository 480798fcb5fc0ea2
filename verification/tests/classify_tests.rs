use diskspace::apps::{
    app_bundle_stem, InstalledApps, is_apple_system_bundle, is_apple_system_folder, looks_like_bundle_id,
};
use diskspace::category::{Category, Color};
use diskspace::classify::{
    classify_entry, classify_path, is_orphaned, parent_dir_name, probe_path, probe_targets, PathProbes,
};
use diskspace::display::{
    clearable_summary, dir_tail, file_and_dir, file_emoji, row_name, size_color, tree_title,
};
use diskspace::paths::{is_same_path, path_child, path_file_name, path_parent, should_skip_path};
use diskspace::text::{byte_prefix, byte_suffix};

fn empty_installed() -> InstalledApps {
    InstalledApps::new()
}

fn installed_with(names: &[&str], bundle_ids: &[&str]) -> InstalledApps {
    let mut apps = InstalledApps::new();
    for n in names {
        apps.insert_name(n);
    }
    for b in bundle_ids {
        apps.insert_bundle_id(b);
    }
    apps
}

fn no_probes() -> PathProbes {
    PathProbes {
        target_has_profile: false,
        parent_has_build_script: false,
        parent_has_package_json: false,
        has_pyvenv_cfg: false,
    }
}

// ── looks_like_bundle_id ─────────────────────────────────

#[test]
fn test_looks_like_bundle_id_valid() {
    assert!(looks_like_bundle_id("com.apple.mail"));
    assert!(looks_like_bundle_id("com.tinyspeck.slackmacgap"));
    assert!(looks_like_bundle_id("org.mozilla.firefox"));
}

#[test]
fn test_looks_like_bundle_id_invalid() {
    assert!(!looks_like_bundle_id("Slack"));
    assert!(!looks_like_bundle_id("a.b"));
    assert!(!looks_like_bundle_id("short.id"));
    assert!(!looks_like_bundle_id("has spaces.in.it"));
}

// ── is_apple_system_bundle ───────────────────────────────

#[test]
fn test_apple_system_bundle() {
    assert!(is_apple_system_bundle("com.apple.mail"));
    assert!(is_apple_system_bundle("com.apple.dt.Xcode"));
    assert!(is_apple_system_bundle("COM.APPLE.Safari"));
}

#[test]
fn test_not_apple_system_bundle() {
    assert!(!is_apple_system_bundle("com.tinyspeck.slackmacgap"));
    assert!(!is_apple_system_bundle("org.mozilla.firefox"));
}

// ── is_apple_system_folder ───────────────────────────────

#[test]
fn test_apple_system_folder() {
    assert!(is_apple_system_folder("Apple"));
    assert!(is_apple_system_folder("Dock"));
    assert!(is_apple_system_folder("Safari"));
    assert!(is_apple_system_folder("com.apple.something"));
}

#[test]
fn test_not_apple_system_folder() {
    assert!(!is_apple_system_folder("Slack"));
    assert!(!is_apple_system_folder("Firefox"));
}

// ── should_skip_path ─────────────────────────────────────

#[test]
fn test_skip_system_volumes() {
    let root = "/";
    assert!(should_skip_path("/System/Volumes/Data", root));
    assert!(should_skip_path("/System/Volumes/VM", root));
    assert!(should_skip_path("/dev", root));
    assert!(should_skip_path("/proc", root));
}

#[test]
fn test_no_skip_under_home() {
    let root = "/Users/testuser";
    assert!(!should_skip_path("/Users/testuser/Library", root));
}

#[test]
fn test_skip_time_machine() {
    let root = "/";
    assert!(should_skip_path("/Volumes/com.apple.TimeMachine.localsnapshots", root));
}

// ── classify_path ────────────────────────────────────────

#[test]
fn test_classify_trash() {
    let installed = empty_installed();
    assert_eq!(classify_path("/Users/me/.Trash", ".Trash", &installed), Category::Trash);
}

#[test]
fn test_classify_grails_cache() {
    let installed = empty_installed();
    assert_eq!(
        classify_path("/Users/me/.grails", ".grails", &installed),
        Category::BuildArtifact
    );
}

#[test]
fn test_classify_node_modules() {
    let installed = empty_installed();
    assert_eq!(
        classify_path("/Users/me/project/node_modules", "node_modules", &installed),
        Category::NodeModules
    );
}

#[test]
fn test_classify_nvm_cache() {
    let installed = empty_installed();
    assert_eq!(
        classify_path("/Users/me/.nvm/versions/node/v20", "v20", &installed),
        Category::PackageCache
    );
}

#[test]
fn test_classify_bun_cache() {
    let installed = empty_installed();
    assert_eq!(
        classify_path("/Users/me/.bun/install/cache", "cache", &installed),
        Category::PackageCache
    );
}

#[test]
fn test_classify_cache() {
    let installed = empty_installed();
    assert_eq!(
        classify_path("/Users/me/Library/Caches/something", "something", &installed),
        Category::Cache
    );
}

#[test]
fn test_classify_docker() {
    let installed = empty_installed();
    assert_eq!(classify_path("/Users/me/.docker", ".docker", &installed), Category::Docker);
}

#[test]
fn test_classify_ios_simulator() {
    let installed = empty_installed();
    assert_eq!(
        classify_path("/Users/me/Library/Developer/CoreSimulator/Devices", "Devices", &installed),
        Category::Simulator
    );
}

#[test]
fn test_classify_android_sdk() {
    let installed = empty_installed();
    assert_eq!(
        classify_path("/Users/me/Library/Android/sdk", "sdk", &installed),
        Category::AndroidSdk
    );
}

#[test]
fn test_classify_android_avd() {
    let installed = empty_installed();
    assert_eq!(
        classify_path("/Users/me/.android/avd/Pixel_9_Pro.avd", "Pixel_9_Pro.avd", &installed),
        Category::AndroidSdk
    );
}

#[test]
fn test_classify_xcode() {
    let installed = empty_installed();
    assert_eq!(
        classify_path("/Users/me/Library/Developer/Xcode", "Xcode", &installed),
        Category::Xcode
    );
}

#[test]
fn test_classify_vm_files() {
    let installed = empty_installed();
    assert_eq!(
        classify_path("/Users/me/VMs/test.vmwarevm", "test.vmwarevm", &installed),
        Category::VirtualMachine
    );
    assert_eq!(
        classify_path("/Users/me/VMs/test.qcow2", "test.qcow2", &installed),
        Category::VirtualMachine
    );
}

#[test]
fn test_classify_browser_data() {
    let installed = empty_installed();
    assert_eq!(
        classify_path("/Users/me/Library/Application Support/Google/Chrome", "Chrome", &installed),
        Category::BrowserData
    );
}

#[test]
fn test_classify_icloud() {
    let installed = empty_installed();
    assert_eq!(
        classify_path("/Users/me/Library/Mobile Documents", "Mobile Documents", &installed),
        Category::ICloud
    );
}

#[test]
fn test_classify_downloads() {
    let installed = empty_installed();
    assert_eq!(
        classify_path("/Users/me/Downloads", "Downloads", &installed),
        Category::Downloads
    );
}

#[test]
fn test_classify_backup() {
    let installed = empty_installed();
    assert_eq!(
        classify_path(
            "/Users/me/Library/Application Support/MobileSync/Backup",
            "Backup",
            &installed
        ),
        Category::Backup
    );
}

#[test]
fn test_classify_messages() {
    let installed = empty_installed();
    assert_eq!(
        classify_path("/Users/me/Library/Messages/Attachments", "Attachments", &installed),
        Category::Messages
    );
}

#[test]
fn test_classify_logs() {
    let installed = empty_installed();
    assert_eq!(classify_path("/Users/me/Library/Logs", "Logs", &installed), Category::Logs);
}

#[test]
fn test_classify_uncategorized() {
    let installed = empty_installed();
    assert_eq!(
        classify_path("/Users/me/Documents", "Documents", &installed),
        Category::Uncategorized
    );
}

// ── InstalledApps ────────────────────────────────────────

#[test]
fn test_installed_apps_has_name() {
    let apps = installed_with(&["slack", "zoom"], &[]);
    assert!(apps.has_name("Slack"));
    assert!(apps.has_name("slack"));
    assert!(!apps.has_name("Firefox"));
}

#[test]
fn test_installed_apps_has_bundle_id() {
    let apps = installed_with(&[], &["com.tinyspeck.slackmacgap"]);
    assert!(apps.has_bundle_id("com.tinyspeck.slackmacgap"));
    assert!(apps.has_bundle_id("COM.TINYSPECK.SLACKMACGAP"));
    assert!(!apps.has_bundle_id("org.mozilla.firefox"));
}

// ── Category methods ─────────────────────────────────────

#[test]
fn test_all_categories_have_labels() {
    let categories = [
        Category::Cache,
        Category::BuildArtifact,
        Category::Docker,
        Category::Simulator,
        Category::Messages,
        Category::ICloud,
        Category::AppData,
        Category::OrphanedAppData,
        Category::Downloads,
        Category::Trash,
        Category::NodeModules,
        Category::PackageCache,
        Category::Xcode,
        Category::Logs,
        Category::VirtualMachine,
        Category::BrowserData,
        Category::Mail,
        Category::Photos,
        Category::MusicMedia,
        Category::Backup,
        Category::Python,
        Category::AndroidSdk,
    ];
    for cat in &categories {
        assert!(!cat.emoji().is_empty(), "Missing emoji for {:?}", cat);
        assert!(!cat.label().is_empty(), "Missing label for {:?}", cat);
    }
}

#[test]
fn test_category_none_has_empty_label() {
    assert_eq!(Category::Uncategorized.label(), "");
}

// ── file_emoji ───────────────────────────────────────────

#[test]
fn test_file_emoji() {
    assert_eq!(file_emoji("archive.zip"), "📦");
    assert_eq!(file_emoji("disk.dmg"), "💿");
    assert_eq!(file_emoji("movie.mp4"), "🎬");
    assert_eq!(file_emoji("song.mp3"), "🎵");
    assert_eq!(file_emoji("photo.jpg"), "🖼️ ");
    assert_eq!(file_emoji("document.pdf"), "📄");
    assert_eq!(file_emoji("unknown.xyz"), "📄");
}

// ── further cases ────────────────────────────────────────

#[test]
fn file_emoji_ignores_case_and_knows_more_kinds() {
    assert_eq!(file_emoji("ARCHIVE.ZIP"), "📦");
    assert_eq!(file_emoji("Photo.HEIC"), "🖼️ ");
    assert_eq!(file_emoji("Tool.app"), "🚀");
    assert_eq!(file_emoji("system.log"), "📝");
    assert_eq!(file_emoji("data.sqlite3"), "🗃️ ");
    assert_eq!(file_emoji("noextension"), "📄");
}

#[test]
fn trash_name_is_trash_wherever_it_stands() {
    let apps = installed_with(&["slack"], &["com.tinyspeck.slackmacgap"]);
    assert_eq!(classify_path("/Volumes/X/.Trash", ".Trash", &apps), Category::Trash);
    assert_eq!(classify_path(".Trash", ".Trash", &apps), Category::Trash);
    assert_eq!(classify_path("/Users/me/.Trash/old.zip", "old.zip", &apps), Category::Trash);
}

#[test]
fn classify_entry_uses_the_probe_answers() {
    let installed = empty_installed();
    let mut fs = no_probes();
    assert_eq!(
        classify_entry("/Users/me/proj/target", "target", &installed, &fs),
        Category::Uncategorized
    );
    fs.target_has_profile = true;
    assert_eq!(
        classify_entry("/Users/me/proj/target", "target", &installed, &fs),
        Category::BuildArtifact
    );
    let mut fs = no_probes();
    fs.has_pyvenv_cfg = true;
    assert_eq!(classify_entry("/Users/me/proj/venv", "venv", &installed, &fs), Category::Python);
    let mut fs = no_probes();
    fs.parent_has_package_json = true;
    assert_eq!(
        classify_entry("/Users/me/site/dist", "dist", &installed, &fs),
        Category::BuildArtifact
    );
    let mut fs = no_probes();
    fs.parent_has_build_script = true;
    assert_eq!(
        classify_entry("/Users/me/app/build", "build", &installed, &fs),
        Category::BuildArtifact
    );
}

#[test]
fn classify_orphaned_and_installed_app_data() {
    let none = empty_installed();
    assert_eq!(
        classify_path("/Users/me/Library/Application Support/OldTool", "OldTool", &none),
        Category::OrphanedAppData
    );
    let installed = installed_with(&["OldTool"], &[]);
    assert_eq!(
        classify_path("/Users/me/Library/Application Support/OldTool", "OldTool", &installed),
        Category::AppData
    );
    assert_eq!(
        classify_path(
            "/Users/me/Library/Containers/com.example.gone",
            "com.example.gone",
            &none
        ),
        Category::OrphanedAppData
    );
    let with_id = installed_with(&[], &["com.example.gone"]);
    assert_eq!(
        classify_path(
            "/Users/me/Library/Containers/com.example.gone",
            "com.example.gone",
            &with_id
        ),
        Category::AppData
    );
}

#[test]
fn is_orphaned_by_parent_folder() {
    let none = empty_installed();
    assert!(is_orphaned("Application Support", "OldTool", &none));
    assert!(!is_orphaned("Application Support", "Apple", &none));
    assert!(is_orphaned("Saved Application State", "com.example.tool.savedState", &none));
    assert!(!is_orphaned("Saved Application State", "com.apple.finder.savedState", &none));
    assert!(is_orphaned("PreferencePanes", "Gone.prefPane", &none));
    assert!(is_orphaned("Screen Savers", "Flurry2.saver", &none));
    assert!(!is_orphaned("Documents", "OldTool", &none));
    let apps = installed_with(&["Gone"], &[]);
    assert!(!is_orphaned("PreferencePanes", "Gone.prefPane", &apps));
}

#[test]
fn bundle_id_with_team_prefix_matches() {
    let apps = installed_with(&[], &["com.example.tool"]);
    assert!(apps.has_bundle_id("ABCDE12345.com.example.tool"));
    assert!(apps.has_bundle_id("ABCDE12345.com.example.tool.helper"));
    assert!(!apps.has_bundle_id("ABCDE12345.org.other.tool"));
}

#[test]
fn parent_dir_name_cases() {
    assert_eq!(parent_dir_name("/Users/me/Library/Caches/x"), "Caches");
    assert_eq!(parent_dir_name("/top"), "");
    assert_eq!(parent_dir_name("/"), "");
}

#[test]
fn category_attributes() {
    assert_eq!(Category::Cache.color(), Color::Green);
    assert_eq!(Category::OrphanedAppData.color(), Color::Rgb(255, 100, 200));
    assert_eq!(Category::Uncategorized.color(), Color::Reset);
    assert_eq!(Category::Cache.hint(), "⚡ Safe to clear");
    assert_eq!(Category::Mail.hint(), "");
    assert_eq!(Category::Uncategorized.emoji(), "📁");
    assert_eq!(Category::Simulator.label(), "iOS SIM");
}

#[test]
fn from_label_finds_each_category() {
    let all = [
        Category::Cache,
        Category::BuildArtifact,
        Category::Docker,
        Category::Simulator,
        Category::Messages,
        Category::ICloud,
        Category::AppData,
        Category::OrphanedAppData,
        Category::Downloads,
        Category::Trash,
        Category::NodeModules,
        Category::PackageCache,
        Category::Xcode,
        Category::Logs,
        Category::VirtualMachine,
        Category::BrowserData,
        Category::Mail,
        Category::Photos,
        Category::MusicMedia,
        Category::Backup,
        Category::Python,
        Category::AndroidSdk,
    ];
    for c in all {
        assert_eq!(Category::from_label(c.label()), c);
    }
    assert_eq!(Category::from_label("NOT A LABEL"), Category::Uncategorized);
    assert_eq!(Category::from_label(""), Category::Uncategorized);
}

#[test]
fn all_clearable_list() {
    let c = Category::all_clearable();
    assert_eq!(c.len(), 12);
    assert_eq!(c[0], Category::Cache);
    assert_eq!(c[11], Category::AndroidSdk);
    assert!(!c.contains(&Category::Downloads));
    assert!(!c.contains(&Category::Uncategorized));
}

#[test]
fn size_color_tiers() {
    assert_eq!(size_color(20_000_000_000), Color::Rgb(255, 80, 80));
    assert_eq!(size_color(10_000_000_000), Color::Rgb(255, 180, 60));
    assert_eq!(size_color(2_000_000_000), Color::Rgb(255, 180, 60));
    assert_eq!(size_color(500_000_000), Color::Yellow);
    assert_eq!(size_color(100_000_000), Color::Rgb(180, 180, 180));
    assert_eq!(size_color(0), Color::Rgb(180, 180, 180));
}

#[test]
fn clearable_summary_texts() {
    assert_eq!(clearable_summary(0), "");
    assert_eq!(clearable_summary(500), "  🧹 500 B clearable");
    assert_eq!(clearable_summary(1500), "  🧹 1.5 KB clearable");
    assert_eq!(clearable_summary(2_000_000_000), "  🧹 2.0 GB clearable");
}

#[test]
fn tree_title_texts() {
    assert_eq!(tree_title("/Users/me", false, ""), " 📂 /Users/me");
    assert_eq!(
        tree_title("/Users/me/x", true, "  🧹 500 B clearable"),
        " 📂 /Users/me/x (⌫ back)  🧹 500 B clearable"
    );
}

#[test]
fn app_bundle_stems() {
    assert_eq!(app_bundle_stem("Slack.app"), Some("Slack"));
    assert_eq!(app_bundle_stem("Visual Studio Code.app"), Some("Visual Studio Code"));
    assert_eq!(app_bundle_stem("Foo.bar.app"), Some("Foo.bar"));
    assert_eq!(app_bundle_stem(".app"), None);
    assert_eq!(app_bundle_stem("Notes.txt"), None);
    assert_eq!(app_bundle_stem("README"), None);
}

#[test]
fn record_app_reads_the_property_list() {
    let plist = br#"<?xml version="1.0" encoding="UTF-8"?>
<!DOCTYPE plist PUBLIC "-//Apple//DTD PLIST 1.0//EN" "http://www.apple.com/DTDs/PropertyList-1.0.dtd">
<plist version="1.0">
<dict>
    <key>CFBundleIdentifier</key>
    <string>com.Example.Tool</string>
    <key>CFBundleName</key>
    <string>ToolName</string>
    <key>CFBundleDisplayName</key>
    <string>Tool Display</string>
</dict>
</plist>"#;
    let mut apps = InstalledApps::new();
    apps.record_app("ToolFolder", Some(&plist[..]));
    assert!(apps.has_name("toolfolder"));
    assert!(apps.has_name("TOOLNAME"));
    assert!(apps.has_name("tool display"));
    assert!(apps.has_bundle_id("com.example.tool"));
    assert!(!apps.has_name("com.example.tool"));

    let mut bare = InstalledApps::new();
    bare.record_app("Other", Some(&b"not a property list"[..]));
    assert!(bare.has_name("other"));
    assert!(!bare.has_bundle_id("not a property list"));
    bare.record_app("Third", None);
    assert!(bare.has_name("Third"));
}

#[test]
fn paths_agree_with_std_on_plain_paths() {
    for p in [
        "/a/b",
        "/a/b/",
        "/a",
        "a/b",
        "a",
        "/a//b",
        "/Users/me/Library",
        "foo.txt/.",
        "/a/b/.",
        "/a/b/./",
        "/.",
        ".",
        "./x",
        "a/./b",
        "a/..",
    ] {
        let std_parent = std::path::Path::new(p).parent().map(|q| q.to_str().unwrap().to_owned());
        assert_eq!(path_parent(p).map(|q| q.to_owned()), std_parent, "parent of {}", p);
        let std_name = std::path::Path::new(p)
            .file_name()
            .map(|q| q.to_str().unwrap().to_owned());
        assert_eq!(path_file_name(p).map(|q| q.to_owned()), std_name, "name of {}", p);
    }
    assert_eq!(path_parent("/"), None);
    assert_eq!(path_parent(""), None);
    assert_eq!(path_file_name("/"), None);
    assert_eq!(path_file_name("/a/.."), None);
}

#[test]
fn path_child_and_same_path() {
    assert_eq!(path_child("/a", "b"), "/a/b");
    assert_eq!(path_child("/a/", "b"), "/a/b");
    assert_eq!(path_child("/", "b"), "/b");
    assert!(is_same_path("/a/b/", "/a/b"));
    assert!(is_same_path("/a/b/.", "/a/b"));
    assert!(!is_same_path("/a/b", "/a/c"));
}

#[test]
fn skip_rules_for_whole_disk_scans() {
    assert!(should_skip_path("/Volumes/Ext/.Spotlight-V100/x", "/"));
    assert!(should_skip_path("/x/.fseventsd", "/Volumes/Ext"));
    assert!(!should_skip_path("/Applications", "/"));
    assert!(!should_skip_path("/dev", "/home/user"));
    assert!(!should_skip_path("/System/Volumes/Data", "/Users/x"));
}

#[test]
fn row_names_are_cut_to_the_room_left() {
    assert_eq!(row_name("notes.txt", false, 100), "notes.txt");
    assert_eq!(row_name("Library", true, 100), "Library/");
    // 52 columns leave 7 bytes: "Library/" is 8, cut to 6 and an ellipsis.
    assert_eq!(row_name("Library", true, 52), "Librar…");
    // A room of three bytes or less is never cut into.
    assert_eq!(row_name("Library", true, 48), "Library/");
    assert_eq!(row_name("Library", true, 10), "Library/");
    // Multi-byte names are cut on character boundaries.
    assert_eq!(row_name("ééééé", false, 50), "éé…");
}

#[test]
fn dir_tails_keep_the_end() {
    assert_eq!(dir_tail("/Users/me", 20), "/Users/me");
    assert_eq!(dir_tail("/Users/me/Downloads", 10), "…Downloads");
    assert_eq!(dir_tail("/Users/me/Downloads", 3), "/Users/me/Downloads");
}

#[test]
fn file_and_dir_split() {
    assert_eq!(file_and_dir("/Users/me/movie.mkv"), ("movie.mkv", "/Users/me"));
    assert_eq!(file_and_dir("/"), ("", ""));
    assert_eq!(file_and_dir("top"), ("top", ""));
}

#[test]
fn byte_prefix_and_suffix() {
    assert_eq!(byte_prefix("héllo", 3), "hé");
    assert_eq!(byte_suffix("héllo", 3), "llo");
    assert_eq!(byte_prefix("abc", 0), "");
    assert_eq!(byte_suffix("abc", 3), "");
}

#[test]
fn probe_targets_name_the_paths_asked_about() {
    let t = probe_targets("/p/target", "target");
    assert_eq!(t.profile, vec!["/p/target/debug".to_owned(), "/p/target/release".to_owned()]);
    assert!(t.build_scripts.is_empty() && t.package_json.is_empty() && t.pyvenv_cfg.is_empty());
    let b = probe_targets("/p/build", "build");
    assert_eq!(
        b.build_scripts,
        vec![
            "/p/build.gradle".to_owned(),
            "/p/build.gradle.kts".to_owned(),
            "/p/CMakeLists.txt".to_owned()
        ]
    );
    let d = probe_targets("/site/dist", "dist");
    assert_eq!(d.package_json, vec!["/site/package.json".to_owned()]);
    let v = probe_targets("/p/.venv", ".venv");
    assert_eq!(v.pyvenv_cfg, vec!["/p/.venv/pyvenv.cfg".to_owned()]);
    let none = probe_targets("/p/notes", "notes");
    assert!(none.profile.is_empty() && none.build_scripts.is_empty());
    let p = probe_path("/no/such/dir/target", "target");
    assert!(!p.target_has_profile && !p.parent_has_build_script);
}

#[test]
fn ascii_lowering_matches_in_any_case() {
    let apps = installed_with(&["Visual Studio Code"], &["COM.Microsoft.VSCode"]);
    assert!(apps.has_name("visual studio code"));
    assert!(apps.has_name("VISUAL STUDIO CODE"));
    assert!(apps.has_bundle_id("com.microsoft.vscode"));
}

#[test]
fn ascii_apple_bundles_and_icons_ignore_case() {
    assert!(is_apple_system_bundle("Com.Apple.Finder"));
    assert!(is_apple_system_bundle("SystemPreferencesExtension"));
    assert_eq!(file_emoji("Movie.MKV"), "🎬");
    assert_eq!(file_emoji("Backup.DB"), "🗃️ ");
}
