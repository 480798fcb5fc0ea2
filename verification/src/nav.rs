//! The interactive browser: which directory is shown, what is selected,
//! the search filter, and how each key press changes them.

use vstd::prelude::*;
use vstd::string::StringExecFns;
use crate::order::copy_all;
use crate::scan::{DirEntry, ScanResult};
use crate::text::{chars_of, char_prefix, contains_seq, lowercase_of, seq_contains, to_lower};

verus! {

broadcast use vstd::seq_lib::group_seq_properties;

/// The three views of the browser.
#[derive(Clone, Copy, Debug, PartialEq, Eq, Structural)]
pub enum Tab {
    Tree,
    TopFiles,
    Categories,
}

/// A key press, as far as the browser distinguishes them.
#[derive(Clone, Copy, Debug, PartialEq, Eq, Structural)]
pub enum Key {
    Up,
    Down,
    Left,
    Right,
    Enter,
    Backspace,
    Tab,
    BackTab,
    Home,
    End,
    PageUp,
    PageDown,
    Esc,
    /// A character, and whether Control was held.
    Char(char, bool),
    Other,
}

/// What the caller has to do after a key press.
pub enum Action {
    /// Nothing beyond redrawing.
    Redraw,
    /// Leave the program.
    Quit,
    /// List the directory at this path and hand it to [`Browser::complete_enter`].
    Enter(String),
    /// The previous directory, popped from the history: list it and hand it
    /// to [`Browser::complete_back`].
    Back(String),
    /// Start a new scan of this path.
    Rescan(String),
}

/// [`Action`] in terms of paths as character sequences.
pub enum Step {
    Redraw,
    Quit,
    Enter(Seq<char>),
    Back(Seq<char>),
    Rescan(Seq<char>),
}

impl Action {
    /// The action with its paths as character sequences.
    pub open spec fn step(&self) -> Step {
        match self {
            Action::Redraw => Step::Redraw,
            Action::Quit => Step::Quit,
            Action::Enter(p) => Step::Enter(p@),
            Action::Back(p) => Step::Back(p@),
            Action::Rescan(p) => Step::Rescan(p@),
        }
    }
}

/// The browser's state, with strings as character sequences.
pub struct BrowserView {
    pub current: Seq<char>,
    pub stack: Seq<Seq<char>>,
    pub entries: Seq<DirEntry>,
    pub selected: Option<usize>,
    pub file_selected: Option<usize>,
    pub cat_selected: Option<usize>,
    pub tab: Tab,
    pub result: Option<ScanResult>,
    pub search_mode: bool,
    pub query: Seq<char>,
    pub filtered: Seq<usize>,
}

/// The selected row, or the first when none is.
pub open spec fn sel_or_first(s: Option<usize>) -> int {
    match s {
        Some(i) => i as int,
        None => 0,
    }
}

/// Moving up in a list of `len` rows, wrapping to the bottom.
pub open spec fn prev_wrap(s: Option<usize>, len: int) -> Option<usize> {
    if len > 0 {
        let i = sel_or_first(s);
        Some((if i > 0 {
            i - 1
        } else {
            len - 1
        }) as usize)
    } else {
        s
    }
}

/// Moving down in a list of `len` rows, wrapping to the top.
pub open spec fn next_wrap(s: Option<usize>, len: int) -> Option<usize> {
    if len > 0 {
        let i = sel_or_first(s);
        Some((if i < len - 1 {
            i + 1
        } else {
            0
        }) as usize)
    } else {
        s
    }
}

/// A page (20 rows) down, stopping at the last row.
pub open spec fn page_down_sel(s: Option<usize>, len: int) -> Option<usize> {
    if len > 0 {
        let i = sel_or_first(s) + 20;
        Some((if i < len - 1 {
            i
        } else {
            len - 1
        }) as usize)
    } else {
        s
    }
}

/// A page (20 rows) up, stopping at the first row.
pub open spec fn page_up_sel(s: Option<usize>, len: int) -> Option<usize> {
    if len > 0 {
        let i = sel_or_first(s) - 20;
        Some((if i > 0 {
            i
        } else {
            0
        }) as usize)
    } else {
        s
    }
}

/// The last of `len` rows.
pub open spec fn last_sel(s: Option<usize>, len: int) -> Option<usize> {
    if len > 0 {
        Some((len - 1) as usize)
    } else {
        s
    }
}

/// Whether the entry's name contains the query, ignoring case.
pub open spec fn name_matches(e: DirEntry, q: Seq<char>) -> bool {
    contains_seq(lowercase_of(e.name@), lowercase_of(q))
}

/// Positions, among the first `n` entries, of those whose name matches `q`.
pub open spec fn matching(entries: Seq<DirEntry>, q: Seq<char>, n: int) -> Seq<usize>
    decreases n,
{
    if n <= 0 {
        Seq::empty()
    } else if name_matches(entries[n - 1], q) {
        matching(entries, q, n - 1).push((n - 1) as usize)
    } else {
        matching(entries, q, n - 1)
    }
}

/// The first selection of a list: its first row, or nothing when empty.
pub open spec fn first_or_none(len: int) -> Option<usize> {
    if len > 0 {
        Some(0)
    } else {
        None
    }
}

/// A selection kept within a list of `rows` rows, as the list widget keeps
/// it when drawing: nothing when there are no rows, the last row when the
/// selection is past the end.
pub open spec fn clamp_sel(s: Option<usize>, rows: int) -> Option<usize> {
    if rows <= 0 {
        None
    } else {
        match s {
            Some(i) => if i >= rows {
                Some((rows - 1) as usize)
            } else {
                s
            },
            None => None,
        }
    }
}

impl BrowserView {
    /// Rows the list of the view shown has when drawn: the tree's visible
    /// rows; up to 50 largest files; for the categories a summary row, a
    /// row on what can be reclaimed when anything can, a blank row and one
    /// row per category.  Before any scan result, the top-files and
    /// categories lists hold a single "Scanning..." row.
    pub open spec fn drawn_rows(self) -> int {
        match self.tab {
            Tab::Tree => self.visible_len(),
            Tab::TopFiles => match self.result {
                Some(_) => self.top_len(),
                None => 1,
            },
            Tab::Categories => match self.result {
                Some(r) => r.categories_seq().len() + 2 + (if r.clearable_total() > 0 {
                    1int
                } else {
                    0int
                }),
                None => 1,
            },
        }
    }

    /// The state once the list of the view shown was drawn: its selection
    /// kept within its rows.
    pub open spec fn drawn(self) -> BrowserView {
        match self.tab {
            Tab::Tree => BrowserView { selected: clamp_sel(self.selected, self.drawn_rows()), ..self },
            Tab::TopFiles => BrowserView {
                file_selected: clamp_sel(self.file_selected, self.drawn_rows()),
                ..self
            },
            Tab::Categories => BrowserView {
                cat_selected: clamp_sel(self.cat_selected, self.drawn_rows()),
                ..self
            },
        }
    }

    /// Rows shown in the tree view.
    pub open spec fn visible_len(self) -> int {
        if self.search_mode && self.query.len() > 0 {
            self.filtered.len() as int
        } else {
            self.entries.len() as int
        }
    }

    /// Rows of the top-files view.
    pub open spec fn top_len(self) -> int {
        match self.result {
            Some(r) => if r.largest_seq().len() < 50 {
                r.largest_seq().len() as int
            } else {
                50
            },
            None => 0,
        }
    }

    /// Rows of the categories view (three header rows and one per category).
    pub open spec fn cat_len(self) -> int {
        match self.result {
            Some(r) => r.categories_seq().len() + 3int,
            None => 0,
        }
    }

    /// The state after refiltering with query `q`.
    pub open spec fn refiltered(self, q: Seq<char>) -> BrowserView {
        let f = matching(self.entries, q, self.entries.len() as int);
        BrowserView { query: q, filtered: f, selected: first_or_none(f.len() as int), ..self }
    }

    /// The state with the search closed and cleared.
    pub open spec fn search_cleared(self) -> BrowserView {
        BrowserView { search_mode: false, query: Seq::empty(), filtered: Seq::empty(), ..self }
    }

    /// The state after showing the directory `path`, listed as `listing`,
    /// with the current one remembered to go back to.
    pub open spec fn entered(self, path: Seq<char>, listing: Seq<DirEntry>) -> BrowserView {
        BrowserView {
            stack: self.stack.push(self.current),
            current: path,
            entries: listing,
            selected: first_or_none(listing.len() as int),
            ..self.search_cleared()
        }
    }

    /// The state after showing the directory `prev`, just taken from the
    /// history, listed as `listing`.
    pub open spec fn returned(self, prev: Seq<char>, listing: Seq<DirEntry>) -> BrowserView {
        BrowserView {
            current: prev,
            entries: listing,
            selected: first_or_none(listing.len() as int),
            ..self.search_cleared()
        }
    }

    /// The directory that Enter would open: the selected entry (through the
    /// filter when one is active) when it is a directory.
    pub open spec fn enter_target(self) -> Option<Seq<char>> {
        match self.selected {
            None => None,
            Some(i) => {
                if self.search_mode && self.filtered.len() > 0 {
                    if i >= self.filtered.len() {
                        None
                    } else {
                        let e = self.entries[self.filtered[i as int] as int];
                        if e.is_dir {
                            Some(e.path@)
                        } else {
                            None
                        }
                    }
                } else {
                    if i >= self.entries.len() {
                        None
                    } else {
                        let e = self.entries[i as int];
                        if e.is_dir {
                            Some(e.path@)
                        } else {
                            None
                        }
                    }
                }
            },
        }
    }

    /// A key press never overflows: Page Down moves at most to the last
    /// row, but adds its 20 rows first.
    pub open spec fn key_ok(self, key: Key) -> bool {
        !self.search_mode && key is PageDown ==> match self.tab {
            Tab::Tree => self.visible_len() > 0 ==> sel_or_first(self.selected) + 20
                <= usize::MAX,
            Tab::TopFiles => self.top_len() > 0 ==> sel_or_first(self.file_selected) + 20
                <= usize::MAX,
            Tab::Categories => true,
        }
    }

    /// The state a key press in search mode leads to.
    pub open spec fn search_key(self, key: Key) -> BrowserView {
        match key {
            Key::Esc => BrowserView {
                selected: if self.entries.len() > 0 {
                    Some(0)
                } else {
                    self.selected
                },
                ..self.search_cleared()
            },
            Key::Enter => BrowserView {
                search_mode: false,
                query: if self.filtered.len() == 0 {
                    Seq::empty()
                } else {
                    self.query
                },
                ..self
            },
            Key::Backspace => {
                let q = if self.query.len() > 0 {
                    self.query.drop_last()
                } else {
                    self.query
                };
                if q.len() == 0 {
                    BrowserView {
                        query: q,
                        filtered: Seq::empty(),
                        selected: if self.entries.len() > 0 {
                            Some(0)
                        } else {
                            self.selected
                        },
                        ..self
                    }
                } else {
                    self.refiltered(q)
                }
            },
            Key::Char(c, _) => self.refiltered(self.query.push(c)),
            Key::Up => BrowserView { selected: prev_wrap(self.selected, self.visible_len()), ..self },
            Key::Down => BrowserView {
                selected: next_wrap(self.selected, self.visible_len()),
                ..self
            },
            _ => self,
        }
    }

    /// The state a key press outside search mode leads to, and what the
    /// caller has to do.
    pub open spec fn normal_key(self, key: Key) -> (BrowserView, Step) {
        if key == Key::Char('q', false) || key == Key::Char('q', true) || key == Key::Char(
            'Q',
            false,
        ) || key == Key::Char('Q', true) || key == Key::Char('c', true) {
            (self, Step::Quit)
        } else if key is Up || key == Key::Char('k', false) || key == Key::Char('k', true) {
            (
                match self.tab {
                    Tab::Tree => BrowserView {
                        selected: prev_wrap(self.selected, self.visible_len()),
                        ..self
                    },
                    Tab::TopFiles => BrowserView {
                        file_selected: prev_wrap(self.file_selected, self.top_len()),
                        ..self
                    },
                    Tab::Categories => BrowserView {
                        cat_selected: prev_wrap(self.cat_selected, self.cat_len()),
                        ..self
                    },
                },
                Step::Redraw,
            )
        } else if key is Down || key == Key::Char('j', false) || key == Key::Char('j', true) {
            (
                match self.tab {
                    Tab::Tree => BrowserView {
                        selected: next_wrap(self.selected, self.visible_len()),
                        ..self
                    },
                    Tab::TopFiles => BrowserView {
                        file_selected: next_wrap(self.file_selected, self.top_len()),
                        ..self
                    },
                    Tab::Categories => BrowserView {
                        cat_selected: next_wrap(self.cat_selected, self.cat_len()),
                        ..self
                    },
                },
                Step::Redraw,
            )
        } else if key is Enter || key is Right || key == Key::Char('l', false) || key == Key::Char(
            'l',
            true,
        ) {
            if self.tab == Tab::Tree {
                match self.enter_target() {
                    Some(p) => (self, Step::Enter(p)),
                    None => (self, Step::Redraw),
                }
            } else {
                (self, Step::Redraw)
            }
        } else if key is Backspace || key is Left || key == Key::Char('h', false) || key
            == Key::Char('h', true) {
            if self.tab == Tab::Tree && self.stack.len() > 0 {
                (
                    BrowserView { stack: self.stack.drop_last(), ..self },
                    Step::Back(self.stack.last()),
                )
            } else {
                (self, Step::Redraw)
            }
        } else if key is Tab {
            (
                BrowserView {
                    tab: match self.tab {
                        Tab::Tree => Tab::TopFiles,
                        Tab::TopFiles => Tab::Categories,
                        Tab::Categories => Tab::Tree,
                    },
                    ..self
                },
                Step::Redraw,
            )
        } else if key is BackTab {
            (
                BrowserView {
                    tab: match self.tab {
                        Tab::Tree => Tab::Categories,
                        Tab::TopFiles => Tab::Tree,
                        Tab::Categories => Tab::TopFiles,
                    },
                    ..self
                },
                Step::Redraw,
            )
        } else if key == Key::Char('/', false) || key == Key::Char('/', true) {
            if self.tab == Tab::Tree {
                (
                    BrowserView {
                        search_mode: true,
                        query: Seq::empty(),
                        filtered: Seq::empty(),
                        ..self
                    },
                    Step::Redraw,
                )
            } else {
                (self, Step::Redraw)
            }
        } else if key == Key::Char('r', false) || key == Key::Char('r', true) || key == Key::Char(
            'R',
            false,
        ) || key == Key::Char('R', true) {
            (
                BrowserView {
                    result: None,
                    entries: Seq::empty(),
                    stack: Seq::empty(),
                    selected: None,
                    ..self
                },
                Step::Rescan(self.current),
            )
        } else if key is Home || key == Key::Char('g', false) || key == Key::Char('g', true) {
            (
                match self.tab {
                    Tab::Tree => BrowserView { selected: Some(0), ..self },
                    Tab::TopFiles => BrowserView { file_selected: Some(0), ..self },
                    Tab::Categories => BrowserView { cat_selected: Some(0), ..self },
                },
                Step::Redraw,
            )
        } else if key is End || key == Key::Char('G', false) || key == Key::Char('G', true) {
            (
                match self.tab {
                    Tab::Tree => BrowserView {
                        selected: last_sel(self.selected, self.visible_len()),
                        ..self
                    },
                    Tab::TopFiles => BrowserView {
                        file_selected: last_sel(self.file_selected, self.top_len()),
                        ..self
                    },
                    Tab::Categories => BrowserView {
                        cat_selected: last_sel(self.cat_selected, self.cat_len()),
                        ..self
                    },
                },
                Step::Redraw,
            )
        } else if key is PageDown {
            (
                match self.tab {
                    Tab::Tree => BrowserView {
                        selected: page_down_sel(self.selected, self.visible_len()),
                        ..self
                    },
                    Tab::TopFiles => BrowserView {
                        file_selected: page_down_sel(self.file_selected, self.top_len()),
                        ..self
                    },
                    Tab::Categories => self,
                },
                Step::Redraw,
            )
        } else if key is PageUp {
            (
                match self.tab {
                    Tab::Tree => BrowserView {
                        selected: page_up_sel(self.selected, self.visible_len()),
                        ..self
                    },
                    Tab::TopFiles => BrowserView {
                        file_selected: page_up_sel(self.file_selected, self.top_len()),
                        ..self
                    },
                    Tab::Categories => self,
                },
                Step::Redraw,
            )
        } else {
            (self, Step::Redraw)
        }
    }

    /// The state a key press leads to, and what the caller has to do.
    pub open spec fn key_step(self, key: Key) -> (BrowserView, Step) {
        if self.search_mode {
            (self.search_key(key), Step::Redraw)
        } else {
            self.normal_key(key)
        }
    }
}

/// Calls `String::push`, which appends `c` to `s`.
#[verifier::external_body]
fn push_char(s: &mut String, c: char)
    ensures
        final(s)@ == old(s)@.push(c),
{
    s.push(c)
}

/// The browser's state.
pub struct Browser {
    pub current_path: String,
    pub path_stack: Vec<String>,
    pub entries: Vec<DirEntry>,
    pub selected: Option<usize>,
    pub file_selected: Option<usize>,
    pub cat_selected: Option<usize>,
    pub active_tab: Tab,
    pub scan_result: Option<ScanResult>,
    pub search_mode: bool,
    pub search_query: String,
    pub filtered_indices: Vec<usize>,
}

impl Browser {
    /// The state with its strings as character sequences.
    pub open spec fn view(&self) -> BrowserView {
        BrowserView {
            current: self.current_path@,
            stack: self.path_stack@.map_values(|s: String| s@),
            entries: self.entries@,
            selected: self.selected,
            file_selected: self.file_selected,
            cat_selected: self.cat_selected,
            tab: self.active_tab,
            result: self.scan_result,
            search_mode: self.search_mode,
            query: self.search_query@,
            filtered: self.filtered_indices@,
        }
    }

    /// The browser at `root`, before any scan result arrived.
    pub fn new(root: String) -> (r: Self)
        ensures
            r@ == (BrowserView {
                current: root@,
                stack: Seq::empty(),
                entries: Seq::empty(),
                selected: None,
                file_selected: None,
                cat_selected: None,
                tab: Tab::Tree,
                result: None,
                search_mode: false,
                query: Seq::empty(),
                filtered: Seq::empty(),
            }),
    {
        let r = Browser {
            current_path: root,
            path_stack: Vec::new(),
            entries: Vec::new(),
            selected: None,
            file_selected: None,
            cat_selected: None,
            active_tab: Tab::Tree,
            scan_result: None,
            search_mode: false,
            search_query: String::new(),
            filtered_indices: Vec::new(),
        };
        assert(r@.stack =~= Seq::<Seq<char>>::empty());
        r
    }

    /// Rows shown in the tree view.
    pub fn visible_entries_len(&self) -> (r: usize)
        ensures
            r == self@.visible_len(),
    {
        if self.search_mode && !self.search_query.as_str().is_empty() {
            self.filtered_indices.len()
        } else {
            self.entries.len()
        }
    }

    /// Refilters the entries with the current query (ignoring case) and
    /// selects the first match.
    pub fn update_search(&mut self)
        ensures
            final(self)@ == old(self)@.refiltered(old(self)@.query),
    {
        let q = to_lower(self.search_query.as_str());
        let qc = chars_of(q.as_str());
        let mut out: Vec<usize> = Vec::new();
        let mut i: usize = 0;
        while i < self.entries.len()
            invariant
                i <= self.entries@.len(),
                self@ == old(self)@,
                qc@ == lowercase_of(self.search_query@),
                out@ == matching(self.entries@, self.search_query@, i as int),
            decreases self.entries@.len() - i,
        {
            let n = to_lower(self.entries[i].name.as_str());
            let nc = chars_of(n.as_str());
            if seq_contains(nc.as_slice(), qc.as_slice()) {
                out.push(i);
            }
            i = i + 1;
        }
        self.filtered_indices = out;
        if self.filtered_indices.len() > 0 {
            self.selected = Some(0);
        } else {
            self.selected = None;
        }
    }

    /// Clears and closes the search.
    fn clear_search(&mut self)
        ensures
            final(self)@ == old(self)@.search_cleared(),
    {
        self.search_mode = false;
        self.search_query = String::new();
        self.filtered_indices = Vec::new();
    }

    /// The directory the selection would open, when it is one.
    pub fn enter_target(&self) -> (r: Option<String>)
        requires
            self@.selected matches Some(i) ==> (self.search_mode && self.filtered_indices@.len()
                > 0 && i < self.filtered_indices@.len() ==> self.filtered_indices@[i as int]
                < self.entries@.len()),
        ensures
            match r {
                Some(p) => self@.enter_target() == Some(p@),
                None => self@.enter_target() is None,
            },
    {
        let selected = match self.selected {
            Some(i) => i,
            None => {
                return None;
            },
        };
        let entry = if self.search_mode && self.filtered_indices.len() > 0 {
            if selected >= self.filtered_indices.len() {
                return None;
            }
            &self.entries[self.filtered_indices[selected]]
        } else {
            if selected >= self.entries.len() {
                return None;
            }
            &self.entries[selected]
        };
        if !entry.is_dir {
            return None;
        }
        Some(entry.path.clone())
    }

    /// Shows the directory `new_path`, listed as `new_entries`, remembering
    /// the current one to go back to.
    pub fn complete_enter(&mut self, new_path: String, new_entries: Vec<DirEntry>)
        ensures
            final(self)@ == old(self)@.entered(new_path@, new_entries@),
    {
        let mut prev = new_path;
        std::mem::swap(&mut prev, &mut self.current_path);
        let ghost before = self.path_stack@;
        self.path_stack.push(prev);
        assert(self.path_stack@.map_values(|s: String| s@) =~= before.map_values(|s: String| s@).push(
            old(self)@.current,
        ));
        self.entries = new_entries;
        self.selected = if self.entries.len() == 0 {
            None
        } else {
            Some(0)
        };
        self.clear_search();
    }

    /// Shows the directory `prev` (just popped from the history), listed as
    /// `new_entries`.
    pub fn complete_back(&mut self, prev: String, new_entries: Vec<DirEntry>)
        ensures
            final(self)@ == old(self)@.returned(prev@, new_entries@),
    {
        self.current_path = prev;
        self.entries = new_entries;
        self.selected = if self.entries.len() == 0 {
            None
        } else {
            Some(0)
        };
        self.clear_search();
    }

    /// Takes in the latest scan result.  At the scan root the listing is
    /// replaced too (selecting the first row if nothing was selected);
    /// further down only the result is.
    pub fn apply_snapshot(&mut self, snap: ScanResult)
        ensures
            final(self)@ == (if old(self)@.stack.len() == 0 {
                BrowserView {
                    entries: snap.entries_seq(),
                    result: Some(snap),
                    selected: if old(self)@.selected is None && snap.entries_seq().len() > 0 {
                        Some(0)
                    } else {
                        old(self)@.selected
                    },
                    ..old(self)@
                }
            } else {
                BrowserView { result: Some(snap), ..old(self)@ }
            }),
    {
        if self.path_stack.len() == 0 {
            let had_selection = self.selected.is_some();
            self.entries = copy_all(snap.entries());
            self.scan_result = Some(snap);
            if !had_selection && self.entries.len() > 0 {
                self.selected = Some(0);
            }
        } else {
            self.scan_result = Some(snap);
        }
    }

    fn top_len(&self) -> (r: usize)
        ensures
            r == self@.top_len(),
    {
        match &self.scan_result {
            Some(r) => if r.largest_files().len() < 50 {
                r.largest_files().len()
            } else {
                50
            },
            None => 0,
        }
    }

    fn cat_len(&self) -> (r: usize)
        ensures
            r == self@.cat_len(),
    {
        match &self.scan_result {
            Some(r) => r.category_rows() + 3,
            None => 0,
        }
    }

    /// Rows the list of the view shown has when drawn.
    pub fn drawn_rows(&self) -> (r: usize)
        ensures
            r == self@.drawn_rows(),
    {
        match self.active_tab {
            Tab::Tree => self.visible_entries_len(),
            Tab::TopFiles => match &self.scan_result {
                Some(_) => self.top_len(),
                None => 1,
            },
            Tab::Categories => match &self.scan_result {
                Some(r) => r.category_rows() + 2 + if r.clearable_bytes() > 0 {
                    1
                } else {
                    0
                },
                None => 1,
            },
        }
    }

    /// The list of the view shown has been drawn: its selection is kept
    /// within its rows, as the list widget keeps it.
    pub fn mark_drawn(&mut self)
        ensures
            final(self)@ == old(self)@.drawn(),
    {
        let rows = self.drawn_rows();
        match self.active_tab {
            Tab::Tree => self.selected = clamp_index(self.selected, rows),
            Tab::TopFiles => self.file_selected = clamp_index(self.file_selected, rows),
            Tab::Categories => self.cat_selected = clamp_index(self.cat_selected, rows),
        }
    }
}

impl Browser {
    /// Drops the last character of the query.
    fn pop_query_char(&mut self)
        ensures
            final(self)@ == (BrowserView {
                query: if old(self)@.query.len() > 0 {
                    old(self)@.query.drop_last()
                } else {
                    old(self)@.query
                },
                ..old(self)@
            }),
    {
        let qc = chars_of(self.search_query.as_str());
        if qc.len() > 0 {
            let shorter = char_prefix(self.search_query.as_str(), qc.len() - 1).to_owned();
            self.search_query = shorter;
        }
    }

    /// A key press while the search is open.
    fn search_key(&mut self, key: Key)
        ensures
            final(self)@ == old(self)@.search_key(key),
    {
        match key {
            Key::Esc => {
                self.clear_search();
                if self.entries.len() > 0 {
                    self.selected = Some(0);
                }
            },
            Key::Enter => {
                self.search_mode = false;
                if self.filtered_indices.len() == 0 {
                    self.search_query = String::new();
                }
            },
            Key::Backspace => {
                self.pop_query_char();
                if self.search_query.as_str().is_empty() {
                    self.filtered_indices = Vec::new();
                    if self.entries.len() > 0 {
                        self.selected = Some(0);
                    }
                } else {
                    self.update_search();
                }
            },
            Key::Char(c, _) => {
                push_char(&mut self.search_query, c);
                self.update_search();
            },
            Key::Up => {
                let len = self.visible_entries_len();
                self.selected = prev_index(self.selected, len);
            },
            Key::Down => {
                let len = self.visible_entries_len();
                self.selected = next_index(self.selected, len);
            },
            _ => {},
        }
    }

    /// Handles one key press: updates the state and says what the caller
    /// has to do.
    pub fn handle_key(&mut self, key: Key) -> (r: Action)
        requires
            old(self)@.key_ok(key),
        ensures
            (final(self)@, r.step()) == old(self)@.key_step(key),
    {
        if self.search_mode {
            self.search_key(key);
            return Action::Redraw;
        }
        match key {
            Key::Char('q', _) | Key::Char('Q', _) | Key::Char('c', true) => Action::Quit,
            Key::Up | Key::Char('k', _) => {
                match self.active_tab {
                    Tab::Tree => {
                        let len = self.visible_entries_len();
                        self.selected = prev_index(self.selected, len);
                    },
                    Tab::TopFiles => {
                        let len = self.top_len();
                        self.file_selected = prev_index(self.file_selected, len);
                    },
                    Tab::Categories => {
                        let len = self.cat_len();
                        self.cat_selected = prev_index(self.cat_selected, len);
                    },
                }
                Action::Redraw
            },
            Key::Down | Key::Char('j', _) => {
                match self.active_tab {
                    Tab::Tree => {
                        let len = self.visible_entries_len();
                        self.selected = next_index(self.selected, len);
                    },
                    Tab::TopFiles => {
                        let len = self.top_len();
                        self.file_selected = next_index(self.file_selected, len);
                    },
                    Tab::Categories => {
                        let len = self.cat_len();
                        self.cat_selected = next_index(self.cat_selected, len);
                    },
                }
                Action::Redraw
            },
            Key::Enter | Key::Right | Key::Char('l', _) => {
                if self.active_tab == Tab::Tree {
                    match self.enter_target() {
                        Some(p) => Action::Enter(p),
                        None => Action::Redraw,
                    }
                } else {
                    Action::Redraw
                }
            },
            Key::Backspace | Key::Left | Key::Char('h', _) => {
                if self.active_tab == Tab::Tree {
                    let ghost before = self.path_stack@;
                    match self.path_stack.pop() {
                        Some(prev) => {
                            assert(self.path_stack@.map_values(|s: String| s@) =~= before.map_values(
                                |s: String| s@,
                            ).drop_last());
                            Action::Back(prev)
                        },
                        None => Action::Redraw,
                    }
                } else {
                    Action::Redraw
                }
            },
            Key::Tab => {
                self.active_tab = match self.active_tab {
                    Tab::Tree => Tab::TopFiles,
                    Tab::TopFiles => Tab::Categories,
                    Tab::Categories => Tab::Tree,
                };
                Action::Redraw
            },
            Key::BackTab => {
                self.active_tab = match self.active_tab {
                    Tab::Tree => Tab::Categories,
                    Tab::TopFiles => Tab::Tree,
                    Tab::Categories => Tab::TopFiles,
                };
                Action::Redraw
            },
            Key::Char('/', _) => {
                if self.active_tab == Tab::Tree {
                    self.search_mode = true;
                    self.search_query = String::new();
                    self.filtered_indices = Vec::new();
                }
                Action::Redraw
            },
            Key::Char('r', _) | Key::Char('R', _) => {
                let path = self.current_path.clone();
                self.scan_result = None;
                self.entries = Vec::new();
                self.path_stack = Vec::new();
                self.selected = None;
                assert(self@.stack =~= Seq::<Seq<char>>::empty());
                Action::Rescan(path)
            },
            Key::Home | Key::Char('g', _) => {
                match self.active_tab {
                    Tab::Tree => self.selected = Some(0),
                    Tab::TopFiles => self.file_selected = Some(0),
                    Tab::Categories => self.cat_selected = Some(0),
                }
                Action::Redraw
            },
            Key::End | Key::Char('G', _) => {
                match self.active_tab {
                    Tab::Tree => {
                        let len = self.visible_entries_len();
                        self.selected = last_index(self.selected, len);
                    },
                    Tab::TopFiles => {
                        let len = self.top_len();
                        self.file_selected = last_index(self.file_selected, len);
                    },
                    Tab::Categories => {
                        let len = self.cat_len();
                        self.cat_selected = last_index(self.cat_selected, len);
                    },
                }
                Action::Redraw
            },
            Key::PageDown => {
                match self.active_tab {
                    Tab::Tree => {
                        let len = self.visible_entries_len();
                        self.selected = page_down_index(self.selected, len);
                    },
                    Tab::TopFiles => {
                        let len = self.top_len();
                        self.file_selected = page_down_index(self.file_selected, len);
                    },
                    Tab::Categories => {},
                }
                Action::Redraw
            },
            Key::PageUp => {
                match self.active_tab {
                    Tab::Tree => {
                        let len = self.visible_entries_len();
                        self.selected = page_up_index(self.selected, len);
                    },
                    Tab::TopFiles => {
                        let len = self.top_len();
                        self.file_selected = page_up_index(self.file_selected, len);
                    },
                    Tab::Categories => {},
                }
                Action::Redraw
            },
            _ => Action::Redraw,
        }
    }
}

/// A selection kept within a list of `rows` rows.
fn clamp_index(s: Option<usize>, rows: usize) -> (r: Option<usize>)
    ensures
        r == clamp_sel(s, rows as int),
{
    if rows == 0 {
        None
    } else {
        match s {
            Some(i) => if i >= rows {
                Some(rows - 1)
            } else {
                s
            },
            None => None,
        }
    }
}

/// Moving up in a list of `len` rows, wrapping to the bottom.
fn prev_index(s: Option<usize>, len: usize) -> (r: Option<usize>)
    ensures
        r == prev_wrap(s, len as int),
{
    if len > 0 {
        let i = match s {
            Some(i) => i,
            None => 0,
        };
        Some(
            if i > 0 {
                i - 1
            } else {
                len - 1
            },
        )
    } else {
        s
    }
}

/// Moving down in a list of `len` rows, wrapping to the top.
fn next_index(s: Option<usize>, len: usize) -> (r: Option<usize>)
    ensures
        r == next_wrap(s, len as int),
{
    if len > 0 {
        let i = match s {
            Some(i) => i,
            None => 0,
        };
        Some(
            if i < len - 1 {
                i + 1
            } else {
                0
            },
        )
    } else {
        s
    }
}

/// A page down in a list of `len` rows.
fn page_down_index(s: Option<usize>, len: usize) -> (r: Option<usize>)
    requires
        len > 0 ==> sel_or_first(s) + 20 <= usize::MAX,
    ensures
        r == page_down_sel(s, len as int),
{
    if len > 0 {
        let i = match s {
            Some(i) => i,
            None => 0,
        };
        let j = i + 20;
        Some(
            if j < len - 1 {
                j
            } else {
                len - 1
            },
        )
    } else {
        s
    }
}

/// A page up in a list of `len` rows.
fn page_up_index(s: Option<usize>, len: usize) -> (r: Option<usize>)
    ensures
        r == page_up_sel(s, len as int),
{
    if len > 0 {
        let i = match s {
            Some(i) => i,
            None => 0,
        };
        Some(i.saturating_sub(20))
    } else {
        s
    }
}

/// The last of `len` rows.
fn last_index(s: Option<usize>, len: usize) -> (r: Option<usize>)
    ensures
        r == last_sel(s, len as int),
{
    if len > 0 {
        Some(len - 1)
    } else {
        s
    }
}


/// Tab walks the three views in a cycle: three presses come back to the
/// view one started from, and Shift+Tab undoes Tab, with nothing else
/// changed on the way.
pub proof fn law_tab_cycle(v: BrowserView)
    requires
        !v.search_mode,
    ensures
        v.key_step(Key::Tab).1 is Redraw,
        v.key_step(Key::Tab).0.key_step(Key::BackTab).0 == v,
        v.key_step(Key::BackTab).0.key_step(Key::Tab).0 == v,
        v.key_step(Key::Tab).0.key_step(Key::Tab).0.key_step(Key::Tab).0 == v,
{
}

/// The selection and the length of the list of the view shown.
pub open spec fn view_selection(v: BrowserView) -> (Option<usize>, int) {
    match v.tab {
        Tab::Tree => (v.selected, v.visible_len()),
        Tab::TopFiles => (v.file_selected, v.top_len()),
        Tab::Categories => (v.cat_selected, v.cat_len()),
    }
}

/// Moving down and then up (or up and then down) comes back to the row one
/// started from, in every view, the bottom and top rows wrapping around.
pub proof fn law_down_then_up(v: BrowserView)
    requires
        !v.search_mode || v.tab == Tab::Tree,
        view_selection(v).0 matches Some(i) && i < view_selection(v).1,
        view_selection(v).1 <= usize::MAX,
    ensures
        v.key_step(Key::Down).0.key_step(Key::Up).0 == v,
        v.key_step(Key::Up).0.key_step(Key::Down).0 == v,
{
    let (s, len) = view_selection(v);
    assert(prev_wrap(next_wrap(s, len), len) == s);
    assert(next_wrap(prev_wrap(s, len), len) == s);
}

/// Drilling into the selected directory and going back returns to the
/// directory one was in, with the history as it was: Enter asks for the
/// selected directory (outside a search, on the tree, where Enter opens
/// directories), and once it is shown, Backspace hands back the directory
/// one came from; shown again, it has the listing handed in, the first row
/// selected, no search, and the same view and scan result.
pub proof fn law_enter_then_back(v: BrowserView, listing: Seq<DirEntry>, back_listing: Seq<DirEntry>)
    requires
        !v.search_mode,
        v.tab == Tab::Tree,
        v.enter_target() is Some,
    ensures
        v.key_step(Key::Enter) == (v, Step::Enter(v.enter_target()->0)),
        ({
            let inside = v.entered(v.enter_target()->0, listing);
            let (after, step) = inside.key_step(Key::Backspace);
            let back = after.returned(v.current, back_listing);
            &&& step == Step::Back(v.current)
            &&& back.current == v.current
            &&& back.stack == v.stack
            &&& back.entries == back_listing
            &&& back.selected == first_or_none(back_listing.len() as int)
            &&& !back.search_mode
            &&& back.query == Seq::<char>::empty()
            &&& back.filtered == Seq::<usize>::empty()
            &&& back.tab == v.tab
            &&& back.result == v.result
        }),
{
    let inside = v.entered(v.enter_target()->0, listing);
    assert(inside.stack.drop_last() =~= v.stack);
}

/// The positions a search keeps are exactly those, in increasing order, of
/// the entries whose name contains the query, ignoring case.
pub proof fn law_matching_exact(entries: Seq<DirEntry>, q: Seq<char>, n: int)
    requires
        0 <= n <= entries.len(),
        entries.len() <= usize::MAX,
    ensures
        forall|i: int|
            0 <= i < n ==> (matching(entries, q, n).contains(i as usize) <==> name_matches(
                #[trigger] entries[i],
                q,
            )),
        forall|k: int|
            0 <= k < matching(entries, q, n).len() ==> #[trigger] matching(entries, q, n)[k] < n,
        forall|a: int, b: int|
            0 <= a < b < matching(entries, q, n).len() ==> #[trigger] matching(entries, q, n)[a]
                < #[trigger] matching(entries, q, n)[b],
    decreases n,
{
    if n > 0 {
        law_matching_exact(entries, q, n - 1);
        let prev = matching(entries, q, n - 1);
        let cur = matching(entries, q, n);
        let last = (n - 1) as usize;
        assert(last as int == n - 1);
        if name_matches(entries[n - 1], q) {
            assert(cur == prev.push(last));
            assert forall|i: int| 0 <= i < n implies (cur.contains(i as usize) <==> name_matches(
                #[trigger] entries[i],
                q,
            )) by {
                if i == n - 1 {
                    assert(cur[cur.len() - 1] == last);
                } else {
                    if cur.contains(i as usize) {
                        let k = choose|k: int| 0 <= k < cur.len() && cur[k] == i as usize;
                        assert(k < prev.len());
                        assert(prev[k] == i as usize);
                    }
                    if prev.contains(i as usize) {
                        let k = choose|k: int| 0 <= k < prev.len() && prev[k] == i as usize;
                        assert(cur[k] == i as usize);
                    }
                }
            }
        } else {
            assert(cur == prev);
            assert forall|i: int| 0 <= i < n implies (cur.contains(i as usize) <==> name_matches(
                #[trigger] entries[i],
                q,
            )) by {
                if i == n - 1 && cur.contains(i as usize) {
                    let k = choose|k: int| 0 <= k < cur.len() && cur[k] == i as usize;
                    assert(prev[k] < n - 1);
                }
            }
        }
    }
}


/// In a search, typing a character and erasing it again gives back the
/// query and the filtered rows one had (with the first match selected).
pub proof fn law_type_then_erase(v: BrowserView, c: char, mods: bool)
    requires
        v.search_mode,
        v.query.len() > 0,
    ensures
        v.key_step(Key::Char(c, mods)).0.key_step(Key::Backspace).0 == v.refiltered(v.query),
{
    assert(v.query.push(c).drop_last() =~= v.query);
}

/// Leaving a search with Esc shows every entry again, with the first one
/// selected when there is any.
pub proof fn law_escape_shows_all(v: BrowserView)
    requires
        v.search_mode,
    ensures
        !v.key_step(Key::Esc).0.search_mode,
        v.key_step(Key::Esc).0.visible_len() == v.entries.len(),
        v.entries.len() > 0 ==> v.key_step(Key::Esc).0.selected == Some(0usize),
        v.key_step(Key::Esc).0.entries == v.entries,
{
}


/// Once drawn, the selection of the view shown lies within its rows (or is
/// gone when it has none), and drawing again changes nothing.
pub proof fn law_drawn_selection_in_range(v: BrowserView)
    ensures
        v.drawn().drawn_rows() == v.drawn_rows(),
        view_selection(v.drawn()).0 matches Some(i) ==> i < v.drawn_rows(),
        v.drawn_rows() <= 0 ==> view_selection(v.drawn()).0 is None,
        v.drawn().drawn() == v.drawn(),
{
}


/// Page Down moves the selection of the view shown 20 rows down, or to the
/// last row when fewer than 20 rows follow; Page Up moves it 20 rows up, or
/// to the first row.  No selection counts as the first row.
pub proof fn law_page_moves_twenty_rows(v: BrowserView)
    requires
        !v.search_mode,
        v.tab != Tab::Categories,
        view_selection(v).1 > 0,
        view_selection(v).1 <= usize::MAX,
        v.key_ok(Key::PageDown),
    ensures
        ({
            let (s, len) = view_selection(v);
            let i: int = match s {
                Some(k) => k as int,
                None => 0,
            };
            let down = view_selection(v.key_step(Key::PageDown).0).0;
            let up = view_selection(v.key_step(Key::PageUp).0).0;
            &&& down is Some
            &&& (i + 20 <= len - 1 ==> down->0 == i + 20)
            &&& (i + 20 > len - 1 ==> down->0 == len - 1)
            &&& down->0 <= i + 20
            &&& up is Some
            &&& (i >= 20 ==> up->0 == i - 20)
            &&& (i < 20 ==> up->0 == 0)
        }),
        v.key_step(Key::PageDown).0.tab == v.tab,
        v.key_step(Key::PageDown).1 is Redraw,
{
}

/// Up and Down move the selection of the view shown by one row, Down from
/// the last row going to the first and Up from the first to the last;
/// Home selects the first row and End the last.
pub proof fn law_single_row_moves(v: BrowserView)
    requires
        !v.search_mode,
        view_selection(v).1 > 0,
        view_selection(v).1 <= usize::MAX,
    ensures
        ({
            let (s, len) = view_selection(v);
            let i: int = match s {
                Some(k) => k as int,
                None => 0,
            };
            let down = view_selection(v.key_step(Key::Down).0).0;
            let up = view_selection(v.key_step(Key::Up).0).0;
            &&& (i < len - 1 ==> down == Some((i + 1) as usize))
            &&& (i >= len - 1 ==> down == Some(0usize))
            &&& (i > 0 ==> up == Some((i - 1) as usize))
            &&& (i == 0 ==> up == Some((len - 1) as usize))
            &&& view_selection(v.key_step(Key::Home).0).0 == Some(0usize)
            &&& view_selection(v.key_step(Key::End).0).0 == Some((len - 1) as usize)
        }),
{
}

/// A search keeps exactly the entries whose lower-cased name holds the
/// lower-cased query somewhere as a run of characters, at its start or
/// anywhere else, in the order of the listing.
pub proof fn law_search_finds_substrings(v: BrowserView, q: Seq<char>)
    requires
        v.entries.len() <= usize::MAX,
    ensures
        forall|i: int|
            #![trigger v.entries[i]]
            0 <= i < v.entries.len() ==> (v.refiltered(q).filtered.contains(i as usize) <==> exists|
                k: int,
            |
                0 <= k && k + lowercase_of(q).len() <= lowercase_of(v.entries[i].name@).len()
                    && #[trigger] lowercase_of(v.entries[i].name@).subrange(
                    k,
                    k + lowercase_of(q).len(),
                ) == lowercase_of(q)),
        forall|a: int, b: int|
            0 <= a < b < v.refiltered(q).filtered.len() ==> #[trigger] v.refiltered(q).filtered[a]
                < #[trigger] v.refiltered(q).filtered[b],
        forall|a: int|
            0 <= a < v.refiltered(q).filtered.len() ==> #[trigger] v.refiltered(q).filtered[a]
                < v.entries.len(),
{
    law_matching_exact(v.entries, q, v.entries.len() as int);
}


/// Rescanning restarts from the directory shown: it asks for a scan of
/// that directory and forgets the listing, the history, the selection and
/// the previous result, staying on the same view.
pub proof fn law_rescan_restarts_here(v: BrowserView)
    requires
        !v.search_mode,
    ensures
        v.key_step(Key::Char('r', false)).1 == Step::Rescan(v.current),
        v.key_step(Key::Char('R', false)).1 == Step::Rescan(v.current),
        ({
            let w = v.key_step(Key::Char('r', false)).0;
            &&& w.current == v.current
            &&& w.entries.len() == 0
            &&& w.stack.len() == 0
            &&& w.selected is None
            &&& w.result is None
            &&& w.tab == v.tab
        }),
{
}

/// The quit keys (`q`, `Q`, Control-C) end the program outside a search;
/// inside one they are typed into the query.
pub proof fn law_quit_keys(v: BrowserView)
    ensures
        !v.search_mode ==> v.key_step(Key::Char('q', false)).1 is Quit,
        !v.search_mode ==> v.key_step(Key::Char('Q', false)).1 is Quit,
        !v.search_mode ==> v.key_step(Key::Char('c', true)).1 is Quit,
        !v.search_mode ==> v.key_step(Key::Char('c', false)).1 is Redraw,
        v.search_mode ==> v.key_step(Key::Char('q', false)).1 is Redraw,
        v.search_mode ==> v.key_step(Key::Char('q', false)).0.query == v.query.push('q'),
{
}

} // verus!
