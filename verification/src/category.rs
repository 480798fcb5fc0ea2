//! The categories a path can fall into, with their display attributes.

use vstd::prelude::*;
use crate::text::chars_of;

verus! {

/// What a file or folder is, as far as reclaiming space goes.
#[derive(Clone, Copy, Debug, PartialEq, Eq, Structural)]
pub enum Category {
    Cache,
    BuildArtifact,
    Docker,
    Simulator,
    Messages,
    ICloud,
    AppData,
    /// Leftover data from deleted apps.
    OrphanedAppData,
    Downloads,
    Trash,
    NodeModules,
    PackageCache,
    Xcode,
    Logs,
    VirtualMachine,
    BrowserData,
    Mail,
    Photos,
    MusicMedia,
    Backup,
    Python,
    AndroidSdk,
    Uncategorized,
}

/// A terminal colour: one of the named palette entries, or 24-bit RGB.
#[derive(Clone, Copy, Debug, PartialEq, Eq, Structural)]
pub enum Color {
    Reset,
    Green,
    Magenta,
    Blue,
    Cyan,
    Yellow,
    White,
    Gray,
    DarkGray,
    Red,
    LightCyan,
    LightMagenta,
    LightYellow,
    LightBlue,
    Rgb(u8, u8, u8),
}

/// The emoji shown for a category.
pub open spec fn emoji_text(c: Category) -> Seq<char> {
    match c {
        Category::Cache => "🧹"@,
        Category::BuildArtifact => "🔨"@,
        Category::Docker => "🐳"@,
        Category::Simulator => "📱"@,
        Category::Messages => "💬"@,
        Category::ICloud => "☁️ "@,
        Category::AppData => "🗄️ "@,
        Category::OrphanedAppData => "👻"@,
        Category::Downloads => "📥"@,
        Category::Trash => "🗑️ "@,
        Category::NodeModules => "📦"@,
        Category::PackageCache => "📦"@,
        Category::Xcode => "🔧"@,
        Category::Logs => "📝"@,
        Category::VirtualMachine => "🖥️ "@,
        Category::BrowserData => "🌐"@,
        Category::Mail => "📧"@,
        Category::Photos => "📸"@,
        Category::MusicMedia => "🎵"@,
        Category::Backup => "💾"@,
        Category::Python => "🐍"@,
        Category::AndroidSdk => "🤖"@,
        Category::Uncategorized => "📁"@,
    }
}

/// The badge text of a category; empty for [`Category::Uncategorized`].
pub open spec fn label_text(c: Category) -> Seq<char> {
    match c {
        Category::Cache => "CACHE"@,
        Category::BuildArtifact => "BUILD"@,
        Category::Docker => "DOCKER"@,
        Category::Simulator => "iOS SIM"@,
        Category::Messages => "MESSAGES"@,
        Category::ICloud => "iCLOUD"@,
        Category::AppData => "APP DATA"@,
        Category::OrphanedAppData => "ORPHANED"@,
        Category::Downloads => "DOWNLOADS"@,
        Category::Trash => "TRASH"@,
        Category::NodeModules => "NODE_MODULES"@,
        Category::PackageCache => "PKG CACHE"@,
        Category::Xcode => "XCODE"@,
        Category::Logs => "LOGS"@,
        Category::VirtualMachine => "VM"@,
        Category::BrowserData => "BROWSER"@,
        Category::Mail => "MAIL"@,
        Category::Photos => "PHOTOS"@,
        Category::MusicMedia => "MUSIC"@,
        Category::Backup => "BACKUP"@,
        Category::Python => "PYTHON"@,
        Category::AndroidSdk => "ANDROID SDK"@,
        Category::Uncategorized => ""@,
    }
}

/// The advice shown next to a category; empty where there is none.
pub open spec fn hint_text(c: Category) -> Seq<char> {
    match c {
        Category::Cache => "⚡ Safe to clear"@,
        Category::BuildArtifact => "♻️  Rebuild anytime"@,
        Category::Docker => "🐳 docker system prune"@,
        Category::Simulator => "📱 xcrun simctl delete unavailable"@,
        Category::NodeModules => "📦 rm -rf & npm install"@,
        Category::PackageCache => "⚡ Safe to clear"@,
        Category::Trash => "🗑️  Empty trash to reclaim"@,
        Category::Logs => "⚡ Usually safe to clear"@,
        Category::Xcode => "🔧 Xcode → Preferences → Locations"@,
        Category::OrphanedAppData => "👻 App deleted — leftovers safe to remove"@,
        Category::VirtualMachine => "🖥️  VM disk images — large but intentional"@,
        Category::BrowserData => "🌐 Browser profiles/cache"@,
        Category::Backup => "💾 iOS backups — check iTunes/Finder"@,
        Category::Python => "🐍 venvs/pyenv — rm -rf to reclaim"@,
        Category::AndroidSdk => "🤖 Android Studio → SDK Manager / AVD Manager"@,
        _ => ""@,
    }
}

/// The badge colour of a category.
pub open spec fn color_of(c: Category) -> Color {
    match c {
        Category::Cache => Color::Green,
        Category::BuildArtifact => Color::Magenta,
        Category::Docker => Color::Blue,
        Category::Simulator => Color::Cyan,
        Category::Messages => Color::Yellow,
        Category::ICloud => Color::White,
        Category::AppData => Color::Gray,
        Category::OrphanedAppData => Color::Rgb(255, 100, 200),
        Category::Downloads => Color::LightCyan,
        Category::Trash => Color::Red,
        Category::NodeModules => Color::LightMagenta,
        Category::PackageCache => Color::LightYellow,
        Category::Xcode => Color::LightBlue,
        Category::Logs => Color::DarkGray,
        Category::VirtualMachine => Color::Rgb(255, 160, 60),
        Category::BrowserData => Color::Rgb(100, 180, 255),
        Category::Mail => Color::Rgb(255, 220, 100),
        Category::Photos => Color::Rgb(255, 140, 200),
        Category::MusicMedia => Color::Rgb(160, 120, 255),
        Category::Backup => Color::Rgb(100, 220, 180),
        Category::Python => Color::Rgb(80, 180, 80),
        Category::AndroidSdk => Color::Rgb(100, 200, 80),
        Category::Uncategorized => Color::Reset,
    }
}

/// The categories whose space can be reclaimed, in display order.
pub open spec fn clearable_seq() -> Seq<Category> {
    seq![
        Category::Cache,
        Category::BuildArtifact,
        Category::Docker,
        Category::Simulator,
        Category::NodeModules,
        Category::PackageCache,
        Category::Trash,
        Category::Logs,
        Category::Xcode,
        Category::OrphanedAppData,
        Category::Python,
        Category::AndroidSdk,
    ]
}

/// Every category but [`Category::Uncategorized`], in declaration order.
pub open spec fn real_categories() -> Seq<Category> {
    seq![
        Category::Cache,
        Category::BuildArtifact,
        Category::Docker,
        Category::Simulator,
        Category::Messages,
        Category::ICloud,
        Category::AppData,
        Category::OrphanedAppData,
        Category::Downloads,
        Category::Trash,
        Category::NodeModules,
        Category::PackageCache,
        Category::Xcode,
        Category::Logs,
        Category::VirtualMachine,
        Category::BrowserData,
        Category::Mail,
        Category::Photos,
        Category::MusicMedia,
        Category::Backup,
        Category::Python,
        Category::AndroidSdk,
    ]
}

/// The first category of `cs` whose badge reads `l`, or
/// [`Category::Uncategorized`] when none does.
pub open spec fn find_by_label(cs: Seq<Category>, l: Seq<char>) -> Category
    decreases cs.len(),
{
    if cs.len() == 0 {
        Category::Uncategorized
    } else if label_text(cs[0]) == l {
        cs[0]
    } else {
        find_by_label(cs.drop_first(), l)
    }
}

impl Category {
    /// The emoji shown beside the category.
    pub fn emoji(&self) -> (r: &'static str)
        ensures
            r@ == emoji_text(*self),
    {
        match self {
            Category::Cache => "🧹",
            Category::BuildArtifact => "🔨",
            Category::Docker => "🐳",
            Category::Simulator => "📱",
            Category::Messages => "💬",
            Category::ICloud => "☁️ ",
            Category::AppData => "🗄️ ",
            Category::OrphanedAppData => "👻",
            Category::Downloads => "📥",
            Category::Trash => "🗑️ ",
            Category::NodeModules => "📦",
            Category::PackageCache => "📦",
            Category::Xcode => "🔧",
            Category::Logs => "📝",
            Category::VirtualMachine => "🖥️ ",
            Category::BrowserData => "🌐",
            Category::Mail => "📧",
            Category::Photos => "📸",
            Category::MusicMedia => "🎵",
            Category::Backup => "💾",
            Category::Python => "🐍",
            Category::AndroidSdk => "🤖",
            Category::Uncategorized => "📁",
        }
    }

    /// The badge text of the category; empty for [`Category::Uncategorized`].
    pub fn label(&self) -> (r: &'static str)
        ensures
            r@ == label_text(*self),
    {
        match self {
            Category::Cache => "CACHE",
            Category::BuildArtifact => "BUILD",
            Category::Docker => "DOCKER",
            Category::Simulator => "iOS SIM",
            Category::Messages => "MESSAGES",
            Category::ICloud => "iCLOUD",
            Category::AppData => "APP DATA",
            Category::OrphanedAppData => "ORPHANED",
            Category::Downloads => "DOWNLOADS",
            Category::Trash => "TRASH",
            Category::NodeModules => "NODE_MODULES",
            Category::PackageCache => "PKG CACHE",
            Category::Xcode => "XCODE",
            Category::Logs => "LOGS",
            Category::VirtualMachine => "VM",
            Category::BrowserData => "BROWSER",
            Category::Mail => "MAIL",
            Category::Photos => "PHOTOS",
            Category::MusicMedia => "MUSIC",
            Category::Backup => "BACKUP",
            Category::Python => "PYTHON",
            Category::AndroidSdk => "ANDROID SDK",
            Category::Uncategorized => "",
        }
    }

    /// The badge colour of the category.
    pub fn color(&self) -> (r: Color)
        ensures
            r == color_of(*self),
    {
        match self {
            Category::Cache => Color::Green,
            Category::BuildArtifact => Color::Magenta,
            Category::Docker => Color::Blue,
            Category::Simulator => Color::Cyan,
            Category::Messages => Color::Yellow,
            Category::ICloud => Color::White,
            Category::AppData => Color::Gray,
            Category::OrphanedAppData => Color::Rgb(255, 100, 200),
            Category::Downloads => Color::LightCyan,
            Category::Trash => Color::Red,
            Category::NodeModules => Color::LightMagenta,
            Category::PackageCache => Color::LightYellow,
            Category::Xcode => Color::LightBlue,
            Category::Logs => Color::DarkGray,
            Category::VirtualMachine => Color::Rgb(255, 160, 60),
            Category::BrowserData => Color::Rgb(100, 180, 255),
            Category::Mail => Color::Rgb(255, 220, 100),
            Category::Photos => Color::Rgb(255, 140, 200),
            Category::MusicMedia => Color::Rgb(160, 120, 255),
            Category::Backup => Color::Rgb(100, 220, 180),
            Category::Python => Color::Rgb(80, 180, 80),
            Category::AndroidSdk => Color::Rgb(100, 200, 80),
            Category::Uncategorized => Color::Reset,
        }
    }

    /// The advice shown next to the category; empty where there is none.
    pub fn hint(&self) -> (r: &'static str)
        ensures
            r@ == hint_text(*self),
    {
        match self {
            Category::Cache => "⚡ Safe to clear",
            Category::BuildArtifact => "♻️  Rebuild anytime",
            Category::Docker => "🐳 docker system prune",
            Category::Simulator => "📱 xcrun simctl delete unavailable",
            Category::NodeModules => "📦 rm -rf & npm install",
            Category::PackageCache => "⚡ Safe to clear",
            Category::Trash => "🗑️  Empty trash to reclaim",
            Category::Logs => "⚡ Usually safe to clear",
            Category::Xcode => "🔧 Xcode → Preferences → Locations",
            Category::OrphanedAppData => "👻 App deleted — leftovers safe to remove",
            Category::VirtualMachine => "🖥️  VM disk images — large but intentional",
            Category::BrowserData => "🌐 Browser profiles/cache",
            Category::Backup => "💾 iOS backups — check iTunes/Finder",
            Category::Python => "🐍 venvs/pyenv — rm -rf to reclaim",
            Category::AndroidSdk => "🤖 Android Studio → SDK Manager / AVD Manager",
            _ => "",
        }
    }

    /// The category whose badge reads `l` (searched in declaration order),
    /// or [`Category::Uncategorized`] when no category has that badge.
    pub fn from_label(l: &str) -> (r: Category)
        ensures
            r == find_by_label(real_categories(), l@),
    {
        let all = vec![
            Category::Cache,
            Category::BuildArtifact,
            Category::Docker,
            Category::Simulator,
            Category::Messages,
            Category::ICloud,
            Category::AppData,
            Category::OrphanedAppData,
            Category::Downloads,
            Category::Trash,
            Category::NodeModules,
            Category::PackageCache,
            Category::Xcode,
            Category::Logs,
            Category::VirtualMachine,
            Category::BrowserData,
            Category::Mail,
            Category::Photos,
            Category::MusicMedia,
            Category::Backup,
            Category::Python,
            Category::AndroidSdk,
        ];
        assert(all@ =~= real_categories());
        let lc = chars_of(l);
        let mut i: usize = 0;
        assert(all@.skip(0) =~= all@);
        while i < all.len()
            invariant
                i <= all@.len(),
                all@ == real_categories(),
                lc@ == l@,
                find_by_label(all@, l@) == find_by_label(all@.skip(i as int), l@),
            decreases all@.len() - i,
        {
            assert(all@.skip(i as int).drop_first() =~= all@.skip(i + 1));
            let c = all[i];
            assert(all@.skip(i as int)[0] == c);
            let cl = c.label();
            let cc = chars_of(cl);
            if crate::text::seq_eq(cc.as_slice(), lc.as_slice()) {
                return c;
            }
            i = i + 1;
        }
        Category::Uncategorized
    }

    /// The categories whose space can be reclaimed, in display order.
    pub fn all_clearable() -> (r: Vec<Category>)
        ensures
            r@ == clearable_seq(),
    {
        let r = vec![
            Category::Cache,
            Category::BuildArtifact,
            Category::Docker,
            Category::Simulator,
            Category::NodeModules,
            Category::PackageCache,
            Category::Trash,
            Category::Logs,
            Category::Xcode,
            Category::OrphanedAppData,
            Category::Python,
            Category::AndroidSdk,
        ];
        assert(r@ =~= clearable_seq());
        r
    }
}


/// Every category has an emoji, every category but
/// [`Category::Uncategorized`] has a non-empty badge, and
/// [`Category::Uncategorized`] has the empty badge.
pub proof fn law_category_badges(c: Category)
    ensures
        emoji_text(c).len() > 0,
        c != Category::Uncategorized ==> label_text(c).len() > 0,
        c == Category::Uncategorized ==> label_text(c).len() == 0,
{
    match c {
        Category::Cache => {
            reveal_strlit("🧹");
            reveal_strlit("CACHE");
        },
        Category::BuildArtifact => {
            reveal_strlit("🔨");
            reveal_strlit("BUILD");
        },
        Category::Docker => {
            reveal_strlit("🐳");
            reveal_strlit("DOCKER");
        },
        Category::Simulator => {
            reveal_strlit("📱");
            reveal_strlit("iOS SIM");
        },
        Category::Messages => {
            reveal_strlit("💬");
            reveal_strlit("MESSAGES");
        },
        Category::ICloud => {
            reveal_strlit("☁️ ");
            reveal_strlit("iCLOUD");
        },
        Category::AppData => {
            reveal_strlit("🗄️ ");
            reveal_strlit("APP DATA");
        },
        Category::OrphanedAppData => {
            reveal_strlit("👻");
            reveal_strlit("ORPHANED");
        },
        Category::Downloads => {
            reveal_strlit("📥");
            reveal_strlit("DOWNLOADS");
        },
        Category::Trash => {
            reveal_strlit("🗑️ ");
            reveal_strlit("TRASH");
        },
        Category::NodeModules => {
            reveal_strlit("📦");
            reveal_strlit("NODE_MODULES");
        },
        Category::PackageCache => {
            reveal_strlit("📦");
            reveal_strlit("PKG CACHE");
        },
        Category::Xcode => {
            reveal_strlit("🔧");
            reveal_strlit("XCODE");
        },
        Category::Logs => {
            reveal_strlit("📝");
            reveal_strlit("LOGS");
        },
        Category::VirtualMachine => {
            reveal_strlit("🖥️ ");
            reveal_strlit("VM");
        },
        Category::BrowserData => {
            reveal_strlit("🌐");
            reveal_strlit("BROWSER");
        },
        Category::Mail => {
            reveal_strlit("📧");
            reveal_strlit("MAIL");
        },
        Category::Photos => {
            reveal_strlit("📸");
            reveal_strlit("PHOTOS");
        },
        Category::MusicMedia => {
            reveal_strlit("🎵");
            reveal_strlit("MUSIC");
        },
        Category::Backup => {
            reveal_strlit("💾");
            reveal_strlit("BACKUP");
        },
        Category::Python => {
            reveal_strlit("🐍");
            reveal_strlit("PYTHON");
        },
        Category::AndroidSdk => {
            reveal_strlit("🤖");
            reveal_strlit("ANDROID SDK");
        },
        Category::Uncategorized => {
            reveal_strlit("📁");
            reveal_strlit("");
        },
    }
}

/// Length and first two characters of a category's badge, which already
/// tell the badges apart.
spec fn badge_key(c: Category) -> (int, char, char) {
    match c {
        Category::Cache => (5, 'C', 'A'),
        Category::BuildArtifact => (5, 'B', 'U'),
        Category::Docker => (6, 'D', 'O'),
        Category::Simulator => (7, 'i', 'O'),
        Category::Messages => (8, 'M', 'E'),
        Category::ICloud => (6, 'i', 'C'),
        Category::AppData => (8, 'A', 'P'),
        Category::OrphanedAppData => (8, 'O', 'R'),
        Category::Downloads => (9, 'D', 'O'),
        Category::Trash => (5, 'T', 'R'),
        Category::NodeModules => (12, 'N', 'O'),
        Category::PackageCache => (9, 'P', 'K'),
        Category::Xcode => (5, 'X', 'C'),
        Category::Logs => (4, 'L', 'O'),
        Category::VirtualMachine => (2, 'V', 'M'),
        Category::BrowserData => (7, 'B', 'R'),
        Category::Mail => (4, 'M', 'A'),
        Category::Photos => (6, 'P', 'H'),
        Category::MusicMedia => (5, 'M', 'U'),
        Category::Backup => (6, 'B', 'A'),
        Category::Python => (6, 'P', 'Y'),
        Category::AndroidSdk => (11, 'A', 'N'),
        Category::Uncategorized => (0, ' ', ' '),
    }
}

proof fn lemma_badge_key(c: Category)
    ensures
        label_text(c).len() == badge_key(c).0,
        label_text(c).len() >= 2 ==> label_text(c)[0] == badge_key(c).1 && label_text(c)[1]
            == badge_key(c).2,
{
    reveal_strlit("CACHE");
    reveal_strlit("BUILD");
    reveal_strlit("DOCKER");
    reveal_strlit("iOS SIM");
    reveal_strlit("MESSAGES");
    reveal_strlit("iCLOUD");
    reveal_strlit("APP DATA");
    reveal_strlit("ORPHANED");
    reveal_strlit("DOWNLOADS");
    reveal_strlit("TRASH");
    reveal_strlit("NODE_MODULES");
    reveal_strlit("PKG CACHE");
    reveal_strlit("XCODE");
    reveal_strlit("LOGS");
    reveal_strlit("VM");
    reveal_strlit("BROWSER");
    reveal_strlit("MAIL");
    reveal_strlit("PHOTOS");
    reveal_strlit("MUSIC");
    reveal_strlit("BACKUP");
    reveal_strlit("PYTHON");
    reveal_strlit("ANDROID SDK");
    reveal_strlit("");
    match c {
        Category::Cache => {},
        Category::BuildArtifact => {},
        Category::Docker => {},
        Category::Simulator => {},
        Category::Messages => {},
        Category::ICloud => {},
        Category::AppData => {},
        Category::OrphanedAppData => {},
        Category::Downloads => {},
        Category::Trash => {},
        Category::NodeModules => {},
        Category::PackageCache => {},
        Category::Xcode => {},
        Category::Logs => {},
        Category::VirtualMachine => {},
        Category::BrowserData => {},
        Category::Mail => {},
        Category::Photos => {},
        Category::MusicMedia => {},
        Category::Backup => {},
        Category::Python => {},
        Category::AndroidSdk => {},
        Category::Uncategorized => {},
    }
}

/// No two categories share a badge.
proof fn lemma_label_injective(a: Category, b: Category)
    requires
        label_text(a) == label_text(b),
    ensures
        a == b,
{
    lemma_badge_key(a);
    lemma_badge_key(b);
    assert(badge_key(a) == badge_key(b));
}

/// Looking up the badge of a category that `cs` holds finds that category.
proof fn lemma_find_label(cs: Seq<Category>, c: Category)
    requires
        cs.contains(c),
    ensures
        find_by_label(cs, label_text(c)) == c,
    decreases cs.len(),
{
    if cs[0] != c {
        if label_text(cs[0]) == label_text(c) {
            lemma_label_injective(cs[0], c);
        }
        let k = choose|k: int| 0 <= k < cs.len() && cs[k] == c;
        assert(cs.drop_first()[k - 1] == c);
        lemma_find_label(cs.drop_first(), c);
    }
}

/// Reading a category back from its badge gives the category again
/// (`Category::from_label(c.label()) == c`), for every category but
/// [`Category::Uncategorized`], which no lookup returns by its badge.
pub proof fn law_label_round_trip(c: Category)
    requires
        c != Category::Uncategorized,
    ensures
        find_by_label(real_categories(), label_text(c)) == c,
{
    let cs = real_categories();
    assert(cs.contains(c)) by {
        assert(cs[0] == Category::Cache && cs[1] == Category::BuildArtifact && cs[2]
            == Category::Docker && cs[3] == Category::Simulator && cs[4] == Category::Messages
            && cs[5] == Category::ICloud && cs[6] == Category::AppData && cs[7]
            == Category::OrphanedAppData && cs[8] == Category::Downloads && cs[9]
            == Category::Trash && cs[10] == Category::NodeModules && cs[11]
            == Category::PackageCache && cs[12] == Category::Xcode && cs[13] == Category::Logs
            && cs[14] == Category::VirtualMachine && cs[15] == Category::BrowserData && cs[16]
            == Category::Mail && cs[17] == Category::Photos && cs[18] == Category::MusicMedia
            && cs[19] == Category::Backup && cs[20] == Category::Python && cs[21]
            == Category::AndroidSdk);
    }
    lemma_find_label(cs, c);
}

} // verus!
