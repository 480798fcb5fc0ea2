use diskspace::apps::InstalledApps;
use diskspace::category::Category;
use diskspace::display::{entry_icon, segment_label};
use diskspace::nav::{Action, Browser, Key, Tab};
use diskspace::order::{sort_by_size_desc, top_by_size};
use diskspace::scan::{DirEntry, FileSize, is_clearable, RawEntry, ScanState, upward_chain};

fn raw(name: &str, path: &str, is_dir: bool, len: u64) -> RawEntry {
    RawEntry { name: name.to_owned(), path: path.to_owned(), is_dir, len }
}

fn entry(name: &str, size: u64, is_dir: bool) -> DirEntry {
    DirEntry {
        name: name.to_owned(),
        path: format!("/r/{}", name),
        size,
        is_dir,
        category: Category::Uncategorized,
        children_count: 0,
        error: false,
    }
}

#[test]
fn upward_chain_runs_from_parent_to_root() {
    assert_eq!(upward_chain("/r/a/b/f", "/r"), vec!["/r/a/b", "/r/a", "/r"]);
    assert_eq!(upward_chain("/r/f", "/r/"), vec!["/r"]);
    assert_eq!(upward_chain("/x/f", "/r"), vec!["/x", "/"]);
    assert!(upward_chain("/", "/").is_empty());
}

#[test]
fn record_file_counts_towards_every_ancestor() {
    let apps = InstalledApps::new();
    let mut st = ScanState::new("/r");
    st.record_dir("/r");
    st.record_dir("/r/a");
    st.record_file("/r/a/f1", 300, &apps);
    st.record_file("/r/a/b/f2", 20_000_000, &apps);
    st.record_file("/r/g", 5, &apps);
    assert_eq!(st.total_size(), 20_000_305);
    assert_eq!(st.entries_seen(), 4);
    assert_eq!(st.dir_info("/r").size, 20_000_305);
    assert_eq!(st.dir_info("/r").children, 2);
    assert_eq!(st.dir_info("/r/a").size, 20_000_300);
    assert_eq!(st.dir_info("/r/a").children, 1);
    assert_eq!(st.dir_info("/r/a/b").size, 20_000_000);
    assert_eq!(st.dir_info("/r/a/b").children, 1);
    assert_eq!(st.dir_info("/elsewhere").size, 0);
    assert_eq!(st.root(), "/r");
    let top = st.top_files();
    assert_eq!(top.len(), 1);
    assert_eq!(top[0].path, "/r/a/b/f2");
    assert_eq!(top[0].size, 20_000_000);
}

#[test]
fn record_file_attributes_to_the_first_categorized_ancestor() {
    let apps = InstalledApps::new();
    let mut st = ScanState::new("/Users/me");
    st.record_file("/Users/me/Library/Caches/app/blob", 1000, &apps);
    st.record_file("/Users/me/Documents/notes.txt", 50, &apps);
    st.record_file("/Users/me/.Trash/old.zip", 70, &apps);
    assert_eq!(st.category_bytes(Category::Cache), 1000);
    assert!(st.has_category(Category::Cache));
    assert_eq!(st.category_bytes(Category::Trash), 70);
    assert_eq!(st.category_bytes(Category::Uncategorized), 0);
    assert!(!st.has_category(Category::Uncategorized));
    assert!(!st.has_category(Category::Docker));
    assert_eq!(st.clearable_bytes(), 1070);
    let totals = st.category_totals();
    assert_eq!(totals, vec![(Category::Cache, 1000), (Category::Trash, 70)]);
}

#[test]
fn record_unreadable_marks_the_parent() {
    let mut st = ScanState::new("/r");
    st.record_unreadable("/r/a/secret");
    assert!(st.dir_info("/r/a").error);
    assert!(!st.dir_info("/r").error);
    assert_eq!(st.entries_seen(), 0);
}

#[test]
fn build_entries_sorts_largest_first_and_takes_dir_sizes() {
    let apps = InstalledApps::new();
    let mut st = ScanState::new("/r");
    st.record_dir("/r/big");
    st.record_file("/r/big/x", 900, &apps);
    st.record_file("/r/small.txt", 10, &apps);
    st.record_file("/r/mid.txt", 100, &apps);
    let listing = vec![
        raw("small.txt", "/r/small.txt", false, 10),
        raw("big", "/r/big", true, 4096),
        raw("mid.txt", "/r/mid.txt", false, 100),
        raw("tie.txt", "/r/tie.txt", false, 100),
    ];
    let es = st.build_entries(listing, &apps);
    let names: Vec<&str> = es.iter().map(|e| e.name.as_str()).collect();
    assert_eq!(names, vec!["big", "mid.txt", "tie.txt", "small.txt"]);
    assert_eq!(es[0].size, 900);
    assert_eq!(es[0].children_count, 1);
    assert!(es[0].is_dir);
    assert_eq!(es[1].children_count, 0);
}

#[test]
fn snapshot_reports_what_was_recorded() {
    let apps = InstalledApps::new();
    let mut st = ScanState::new("/Users/me");
    st.record_file("/Users/me/Downloads/movie.mkv", 30_000_000, &apps);
    st.record_file("/Users/me/Downloads/clip.mp4", 12_000_000, &apps);
    st.record_file("/Users/me/a.txt", 3, &apps);
    let snap = st.snapshot(
        vec![
            raw("Downloads", "/Users/me/Downloads", true, 0),
            raw("a.txt", "/Users/me/a.txt", false, 3),
        ],
        &apps,
    );
    assert_eq!(snap.total_size(), 42_000_003);
    assert_eq!(snap.entries().len(), 2);
    assert_eq!(snap.entries()[0].name, "Downloads");
    assert_eq!(snap.entries()[0].category, Category::Downloads);
    assert_eq!(snap.entries()[0].size, 42_000_000);
    assert_eq!(snap.largest_files().len(), 2);
    assert_eq!(snap.largest_files()[0].size, 30_000_000);
    assert_eq!(snap.largest_files()[1].size, 12_000_000);
    assert_eq!(snap.categories(), &vec![(Category::Downloads, 42_000_000)]);
}

#[test]
fn top_files_keeps_a_hundred_largest() {
    let apps = InstalledApps::new();
    let mut st = ScanState::new("/r");
    for i in 0..150u64 {
        st.record_file(&format!("/r/f{}", i), 10_000_001 + i, &apps);
    }
    st.record_file("/r/small", 10_000_000, &apps);
    let top = st.top_files();
    assert_eq!(top.len(), 100);
    assert_eq!(top[0].size, 10_000_150);
    assert_eq!(top[99].size, 10_000_051);
    for w in top.windows(2) {
        assert!(w[0].size >= w[1].size);
    }
}

#[test]
fn ordering_helpers() {
    let files = vec![
        FileSize { path: "a".into(), size: 5 },
        FileSize { path: "b".into(), size: 9 },
        FileSize { path: "c".into(), size: 5 },
        FileSize { path: "d".into(), size: 1 },
    ];
    let top = top_by_size(&files, 3);
    let paths: Vec<&str> = top.iter().map(|f| f.path.as_str()).collect();
    assert_eq!(paths, vec!["b", "a", "c"]);
    let sorted = sort_by_size_desc(files);
    let paths: Vec<&str> = sorted.iter().map(|f| f.path.as_str()).collect();
    assert_eq!(paths, vec!["b", "a", "c", "d"]);
    assert!(top_by_size(&Vec::<FileSize>::new(), 5).is_empty());
}

#[test]
fn clearable_categories() {
    assert!(is_clearable(Category::Cache));
    assert!(is_clearable(Category::AndroidSdk));
    assert!(!is_clearable(Category::Downloads));
    assert!(!is_clearable(Category::Uncategorized));
}

fn browser_with(entries: Vec<DirEntry>) -> Browser {
    let mut b = Browser::new("/r".to_owned());
    b.selected = if entries.is_empty() { None } else { Some(0) };
    b.entries = entries;
    b
}

#[test]
fn browser_moves_and_wraps() {
    let mut b = browser_with(vec![entry("a", 3, true), entry("b", 2, false), entry("c", 1, false)]);
    assert!(matches!(b.handle_key(Key::Up), Action::Redraw));
    assert_eq!(b.selected, Some(2));
    b.handle_key(Key::Down);
    assert_eq!(b.selected, Some(0));
    b.handle_key(Key::Char('j', false));
    assert_eq!(b.selected, Some(1));
    b.handle_key(Key::End);
    assert_eq!(b.selected, Some(2));
    b.handle_key(Key::Home);
    assert_eq!(b.selected, Some(0));
    b.handle_key(Key::PageDown);
    assert_eq!(b.selected, Some(2));
    b.handle_key(Key::PageUp);
    assert_eq!(b.selected, Some(0));
}

#[test]
fn browser_down_then_up_restores_selection() {
    let mut b = browser_with(vec![entry("a", 3, true), entry("b", 2, false), entry("c", 1, false)]);
    for start in 0..3usize {
        b.selected = Some(start);
        b.handle_key(Key::Down);
        b.handle_key(Key::Up);
        assert_eq!(b.selected, Some(start));
    }
}

#[test]
fn browser_tabs_cycle() {
    let mut b = browser_with(vec![]);
    b.handle_key(Key::Tab);
    assert_eq!(b.active_tab, Tab::TopFiles);
    b.handle_key(Key::Tab);
    assert_eq!(b.active_tab, Tab::Categories);
    b.handle_key(Key::Tab);
    assert_eq!(b.active_tab, Tab::Tree);
    b.handle_key(Key::BackTab);
    assert_eq!(b.active_tab, Tab::Categories);
    b.handle_key(Key::Tab);
    assert_eq!(b.active_tab, Tab::Tree);
}

#[test]
fn browser_enter_and_back() {
    let mut b = browser_with(vec![entry("dir", 3, true), entry("file", 2, false)]);
    match b.handle_key(Key::Enter) {
        Action::Enter(p) => {
            assert_eq!(p, "/r/dir");
            b.complete_enter(p, vec![entry("inner", 1, false)]);
        }
        _ => panic!("expected to enter the directory"),
    }
    assert_eq!(b.current_path, "/r/dir");
    assert_eq!(b.path_stack, vec!["/r".to_owned()]);
    assert_eq!(b.selected, Some(0));
    match b.handle_key(Key::Backspace) {
        Action::Back(prev) => {
            assert_eq!(prev, "/r");
            b.complete_back(prev, vec![entry("dir", 3, true)]);
        }
        _ => panic!("expected to go back"),
    }
    assert_eq!(b.current_path, "/r");
    assert!(b.path_stack.is_empty());
    assert!(matches!(b.handle_key(Key::Backspace), Action::Redraw));
    b.handle_key(Key::Down);
    b.entries = vec![entry("dir", 3, true), entry("file", 2, false)];
    b.selected = Some(1);
    assert!(matches!(b.handle_key(Key::Right), Action::Redraw));
}

#[test]
fn browser_search_filters_ignoring_case() {
    let mut b = browser_with(vec![
        entry("Photos", 3, true),
        entry("notes.txt", 2, false),
        entry("photo.jpg", 1, false),
    ]);
    b.handle_key(Key::Char('/', false));
    assert!(b.search_mode);
    b.handle_key(Key::Char('P', false));
    b.handle_key(Key::Char('h', false));
    assert_eq!(b.search_query, "Ph");
    assert_eq!(b.filtered_indices, vec![0, 2]);
    assert_eq!(b.visible_entries_len(), 2);
    b.handle_key(Key::Down);
    assert_eq!(b.selected, Some(1));
    b.handle_key(Key::Char('z', false));
    assert!(b.filtered_indices.is_empty());
    assert_eq!(b.selected, None);
    b.handle_key(Key::Backspace);
    assert_eq!(b.search_query, "Ph");
    assert_eq!(b.filtered_indices, vec![0, 2]);
    b.handle_key(Key::Enter);
    assert!(!b.search_mode);
    assert_eq!(b.search_query, "Ph");
    b.handle_key(Key::Char('/', false));
    b.handle_key(Key::Char('x', false));
    b.handle_key(Key::Esc);
    assert!(!b.search_mode);
    assert!(b.search_query.is_empty());
    assert_eq!(b.selected, Some(0));
}

#[test]
fn browser_quit_and_rescan() {
    let mut b = browser_with(vec![entry("a", 1, false)]);
    assert!(matches!(b.handle_key(Key::Char('q', false)), Action::Quit));
    assert!(matches!(b.handle_key(Key::Char('c', true)), Action::Quit));
    assert!(matches!(b.handle_key(Key::Char('c', false)), Action::Redraw));
    match b.handle_key(Key::Char('r', false)) {
        Action::Rescan(p) => assert_eq!(p, "/r"),
        _ => panic!("expected a rescan"),
    }
    assert!(b.entries.is_empty());
    assert_eq!(b.selected, None);
}

#[test]
fn browser_takes_snapshots_at_the_root_only() {
    let apps = InstalledApps::new();
    let mut st = ScanState::new("/r");
    st.record_file("/r/x", 7, &apps);
    let snap = st.snapshot(vec![raw("x", "/r/x", false, 7)], &apps);
    let mut b = Browser::new("/r".to_owned());
    b.apply_snapshot(snap.clone());
    assert_eq!(b.entries.len(), 1);
    assert_eq!(b.selected, Some(0));
    assert!(b.scan_result.is_some());
    b.complete_enter("/r/sub".to_owned(), vec![]);
    assert_eq!(b.selected, None);
    b.apply_snapshot(snap);
    assert!(b.entries.is_empty());
}

#[test]
fn icons_and_segment_labels() {
    let mut d = entry("Caches", 1500, true);
    assert_eq!(entry_icon(&d), "📁");
    d.category = Category::Cache;
    assert_eq!(entry_icon(&d), "🧹");
    let f = entry("movie.mp4", 500, false);
    assert_eq!(entry_icon(&f), "🎬");
    assert_eq!(segment_label(&d), "🧹 Caches 1.5 KB");
    let long = entry("a_rather_long_folder_name", 500, true);
    assert_eq!(segment_label(&long), "📁 a_rather_lon 500 B");
}

#[test]
fn snapshot_category_views() {
    let apps = InstalledApps::new();
    let mut st = ScanState::new("/Users/me");
    st.record_file("/Users/me/.Trash/a", 70, &apps);
    st.record_file("/Users/me/Library/Caches/b", 30, &apps);
    st.record_file("/Users/me/Downloads/c", 500, &apps);
    st.record_file("/Users/me/Library/Logs/d", 30, &apps);
    assert_eq!(st.categorized_bytes(), 630);
    assert_eq!(st.clearable_bytes(), 130);
    let snap = st.snapshot(vec![], &apps);
    assert_eq!(snap.categorized_bytes(), 630);
    assert_eq!(snap.clearable_bytes(), 130);
    assert_eq!(
        snap.categories_by_size(),
        vec![
            (Category::Downloads, 500),
            (Category::Trash, 70),
            (Category::Cache, 30),
            (Category::Logs, 30),
        ]
    );
}

#[test]
fn root_size_equals_total_for_files_below_it() {
    let apps = InstalledApps::new();
    let mut st = ScanState::new("/");
    st.record_file("/x/y/z", 5, &apps);
    st.record_file("/top", 7, &apps);
    assert_eq!(st.dir_info("/").size, st.total_size());
    let mut nested = ScanState::new("/Users/me/proj");
    nested.record_dir("/Users/me/proj");
    nested.record_file("/Users/me/proj/src/deep/main.rs", 11, &apps);
    nested.record_file("/Users/me/proj/README", 4, &apps);
    assert_eq!(nested.dir_info("/Users/me/proj").size, 15);
    assert_eq!(nested.dir_info("/Users/me").size, 0);
}

#[test]
fn tallies_stay_within_the_total() {
    let apps = InstalledApps::new();
    let mut st = ScanState::new("/Users/me");
    st.record_file("/Users/me/Library/Caches/a", 40, &apps);
    st.record_file("/Users/me/Downloads/b", 60, &apps);
    st.record_file("/Users/me/c", 100, &apps);
    assert_eq!(st.total_size(), 200);
    assert!(st.categorized_bytes() <= st.total_size());
    assert_eq!(st.categorized_bytes(), 100);
    assert!(st.clearable_bytes() <= st.categorized_bytes());
    assert_eq!(st.clearable_bytes(), 40);
    assert!(st.dir_info("/Users/me/Library").size <= st.total_size());
}

#[test]
fn drawing_keeps_the_selection_within_the_rows() {
    let apps = InstalledApps::new();
    let mut b = browser_with(vec![entry("a", 3, true), entry("b", 2, false), entry("c", 1, false)]);
    b.selected = Some(2);
    let mut st = ScanState::new("/r");
    st.record_file("/r/x", 7, &apps);
    let snap = st.snapshot(vec![raw("x", "/r/x", false, 7)], &apps);
    b.apply_snapshot(snap);
    assert_eq!(b.selected, Some(2));
    assert_eq!(b.drawn_rows(), 1);
    b.mark_drawn();
    assert_eq!(b.selected, Some(0));
    b.handle_key(Key::Up);
    assert_eq!(b.selected, Some(0));
    b.entries.clear();
    b.mark_drawn();
    assert_eq!(b.selected, None);
    b.handle_key(Key::Tab);
    assert_eq!(b.drawn_rows(), 0);
    b.handle_key(Key::Tab);
    b.cat_selected = Some(9);
    // A summary row and a blank row: no category, nothing clearable.
    assert_eq!(b.drawn_rows(), 2);
    b.mark_drawn();
    assert_eq!(b.cat_selected, Some(1));
}

#[test]
fn category_rows_add_up_to_the_categorized_total() {
    let apps = InstalledApps::new();
    let mut st = ScanState::new("/Users/me");
    st.record_file("/Users/me/Downloads/a", 11, &apps);
    st.record_file("/Users/me/Library/Caches/b", 22, &apps);
    st.record_file("/Users/me/plain", 33, &apps);
    let snap = st.snapshot(vec![], &apps);
    let sum: u64 = snap.categories().iter().map(|(_, s)| *s).sum();
    assert_eq!(sum, snap.categorized_bytes());
    assert_eq!(sum, 33);
    assert!(snap.categories().iter().all(|(c, _)| *c != Category::Uncategorized));
}
