//! Icons and colours chosen from names and sizes.

use vstd::prelude::*;
use crate::category::{emoji_text, Category, Color};
use crate::paths::{final_component, parent_path, path_file_name, path_parent};
use crate::scan::DirEntry;
use vstd::string::StringExecFns;
use crate::text::{
    ascii_lowercase, ascii_only, at_char_boundary, byte_prefix, byte_skip, byte_suffix, byte_take,
    chars_of, ends_with_str, lemma_str_len, lowercase_of, to_lower, utf8_len,
};

verus! {

/// The icon shown for a file whose lower-cased name is `l`, chosen by its extension.
pub open spec fn icon_for_lowered(l: Seq<char>) -> Seq<char> {
    if ".zip"@.is_suffix_of(l) || ".tar"@.is_suffix_of(l) || ".gz"@.is_suffix_of(l)
        || ".7z"@.is_suffix_of(l) || ".rar"@.is_suffix_of(l) {
        "📦"@
    } else if ".dmg"@.is_suffix_of(l) || ".iso"@.is_suffix_of(l) || ".img"@.is_suffix_of(l) {
        "💿"@
    } else if ".mp4"@.is_suffix_of(l) || ".mov"@.is_suffix_of(l) || ".avi"@.is_suffix_of(l)
        || ".mkv"@.is_suffix_of(l) {
        "🎬"@
    } else if ".mp3"@.is_suffix_of(l) || ".wav"@.is_suffix_of(l) || ".flac"@.is_suffix_of(l)
        || ".aac"@.is_suffix_of(l) {
        "🎵"@
    } else if ".jpg"@.is_suffix_of(l) || ".jpeg"@.is_suffix_of(l) || ".png"@.is_suffix_of(l)
        || ".gif"@.is_suffix_of(l) || ".webp"@.is_suffix_of(l) || ".heic"@.is_suffix_of(l) {
        "🖼️ "@
    } else if ".pdf"@.is_suffix_of(l) {
        "📄"@
    } else if ".app"@.is_suffix_of(l) {
        "🚀"@
    } else if ".log"@.is_suffix_of(l) {
        "📝"@
    } else if ".db"@.is_suffix_of(l) || ".sqlite"@.is_suffix_of(l) || ".sqlite3"@.is_suffix_of(l) {
        "🗃️ "@
    } else {
        "📄"@
    }
}

/// The icon shown for a file, chosen by its (case-insensitive) extension.
pub open spec fn file_icon(name: Seq<char>) -> Seq<char> {
    icon_for_lowered(lowercase_of(name))
}

/// The icon shown for a file, chosen by its (case-insensitive) extension.
pub fn file_emoji(name: &str) -> (r: &'static str)
    ensures
        r@ == file_icon(name@),
        ascii_only(name@) ==> r@ == icon_for_lowered(ascii_lowercase(name@)),
{
    let lower = to_lower(name);
    let lc = chars_of(lower.as_str());
    let l = lc.as_slice();
    if ends_with_str(l, ".zip") || ends_with_str(l, ".tar") || ends_with_str(l, ".gz")
        || ends_with_str(l, ".7z") || ends_with_str(l, ".rar") {
        "📦"
    } else if ends_with_str(l, ".dmg") || ends_with_str(l, ".iso") || ends_with_str(l, ".img") {
        "💿"
    } else if ends_with_str(l, ".mp4") || ends_with_str(l, ".mov") || ends_with_str(l, ".avi")
        || ends_with_str(l, ".mkv") {
        "🎬"
    } else if ends_with_str(l, ".mp3") || ends_with_str(l, ".wav") || ends_with_str(l, ".flac")
        || ends_with_str(l, ".aac") {
        "🎵"
    } else if ends_with_str(l, ".jpg") || ends_with_str(l, ".jpeg") || ends_with_str(l, ".png")
        || ends_with_str(l, ".gif") || ends_with_str(l, ".webp") || ends_with_str(l, ".heic") {
        "🖼️ "
    } else if ends_with_str(l, ".pdf") {
        "📄"
    } else if ends_with_str(l, ".app") {
        "🚀"
    } else if ends_with_str(l, ".log") {
        "📝"
    } else if ends_with_str(l, ".db") || ends_with_str(l, ".sqlite") || ends_with_str(
        l,
        ".sqlite3",
    ) {
        "🗃️ "
    } else {
        "📄"
    }
}

/// Size tiers: over 10 GB bright red, over 1 GB orange, over 100 MB yellow,
/// otherwise dim grey.
pub open spec fn size_tier_color(size: u64) -> Color {
    if size > 10_000_000_000 {
        Color::Rgb(255, 80, 80)
    } else if size > 1_000_000_000 {
        Color::Rgb(255, 180, 60)
    } else if size > 100_000_000 {
        Color::Yellow
    } else {
        Color::Rgb(180, 180, 180)
    }
}

/// The colour in which a size is printed.
pub fn size_color(size: u64) -> (r: Color)
    ensures
        r == size_tier_color(size),
{
    if size > 10_000_000_000 {
        Color::Rgb(255, 80, 80)
    } else if size > 1_000_000_000 {
        Color::Rgb(255, 180, 60)
    } else if size > 100_000_000 {
        Color::Yellow
    } else {
        Color::Rgb(180, 180, 180)
    }
}

/// The decimal digit for `d` (below ten).
pub open spec fn digit_char(d: nat) -> char {
    ('0' as nat + d) as char
}

/// `n` written in decimal, without leading zeros.
pub open spec fn decimal(n: nat) -> Seq<char>
    decreases n,
{
    if n < 10 {
        seq![digit_char(n)]
    } else {
        decimal(n / 10).push(digit_char(n % 10))
    }
}

/// The text `bytesize` prints for a byte count (`ByteSize`'s `Display`).
pub uninterp spec fn byte_size_text(bytes: u64) -> Seq<char>;

/// Calls `bytesize::ByteSize(bytes).to_string()`.  Below 1000 bytes the
/// crate prints the count in decimal and " B"; from 1000 on, a figure with
/// one decimal and a unit (KB, MB, GB, ...) that it computes in floating
/// point, which the contract only names.
#[verifier::external_body]
pub(crate) fn human_size(bytes: u64) -> (r: String)
    ensures
        r@ == byte_size_text(bytes),
        bytes < 1000 ==> r@ == decimal(bytes as nat) + " B"@,
{
    bytesize::ByteSize(bytes).to_string()
}

/// The note on reclaimable space in the tree view's title; empty when
/// nothing can be reclaimed.
pub fn clearable_summary(bytes: u64) -> (r: String)
    ensures
        r@ == (if bytes > 0 {
            "  🧹 "@ + byte_size_text(bytes) + " clearable"@
        } else {
            Seq::<char>::empty()
        }),
        0 < bytes < 1000 ==> r@ == "  🧹 "@ + decimal(bytes as nat) + " B"@ + " clearable"@,
{
    if bytes > 0 {
        let mut r = "  🧹 ".to_owned();
        let size = human_size(bytes);
        r.append(size.as_str());
        r.append(" clearable");
        r
    } else {
        String::new()
    }
}

/// The tree view's title: the directory shown, a reminder that Backspace
/// goes back when there is somewhere to go back to, and the note on
/// reclaimable space.
pub fn tree_title(path: &str, can_go_back: bool, summary: &str) -> (r: String)
    ensures
        r@ == " 📂 "@ + path@ + (if can_go_back {
            " (⌫ back)"@
        } else {
            Seq::<char>::empty()
        }) + summary@,
{
    let mut r = " 📂 ".to_owned();
    r.append(path);
    if can_go_back {
        r.append(" (⌫ back)");
    }
    r.append(summary);
    proof {
        if !can_go_back {
            assert(" 📂 "@ + path@ + Seq::<char>::empty() =~= " 📂 "@ + path@);
        }
    }
    r
}


/// The icon of a listing row: a directory shows the emoji of its category,
/// or a folder when it has none; a file the icon of its extension.
pub open spec fn row_icon(e: DirEntry) -> Seq<char> {
    if e.is_dir {
        if e.category != Category::Uncategorized {
            emoji_text(e.category)
        } else {
            "📁"@
        }
    } else {
        file_icon(e.name@)
    }
}

/// The icon of a listing row.
pub fn entry_icon(entry: &DirEntry) -> (r: &'static str)
    ensures
        r@ == row_icon(*entry),
{
    if entry.is_dir {
        if entry.category != Category::Uncategorized {
            entry.category.emoji()
        } else {
            "📁"
        }
    } else {
        file_emoji(entry.name.as_str())
    }
}

/// The name a listing row shows before shortening: directories end in '/'.
pub open spec fn row_label(name: Seq<char>, is_dir: bool) -> Seq<char> {
    if is_dir {
        name + seq!['/']
    } else {
        name
    }
}

/// Bytes left for the name in a row `width` columns wide, after the size,
/// the bar, the share and the badge.
pub open spec fn name_room(width: int) -> int {
    if width > 45 {
        width - 45
    } else {
        0
    }
}

/// Whether `label` has to be shortened to fit `room` bytes (short rooms
/// are never shortened into).
pub open spec fn too_long(label: Seq<char>, room: int) -> bool {
    utf8_len(label) > room && room > 3
}

/// The name shown in a listing row `width` columns wide: the row label,
/// or, when it is too long, its first `room - 1` bytes and an ellipsis.
pub fn row_name(name: &str, is_dir: bool, width: usize) -> (r: String)
    requires
        too_long(row_label(name@, is_dir), name_room(width as int)) ==> at_char_boundary(
            row_label(name@, is_dir),
            name_room(width as int) - 1,
        ),
    ensures
        !too_long(row_label(name@, is_dir), name_room(width as int)) ==> r@ == row_label(
            name@,
            is_dir,
        ),
        too_long(row_label(name@, is_dir), name_room(width as int)) ==> r@ == byte_take(
            row_label(name@, is_dir),
            name_room(width as int) - 1,
        ) + "…"@,
{
    let mut label = name.to_owned();
    if is_dir {
        label.append("/");
        proof {
            reveal_strlit("/");
            assert(label@ =~= row_label(name@, is_dir));
        }
    }
    let room = width.saturating_sub(45);
    let ls = label.as_str();
    let bytes = ls.as_bytes().len();
    proof {
        lemma_str_len(ls);
    }
    if bytes > room && room > 3 {
        let head = byte_prefix(ls, room - 1);
        let mut r = head.to_owned();
        r.append("…");
        r
    } else {
        label
    }
}

/// The directory shown beside a large file, kept to `room` bytes: when it is
/// longer (and `room` is more than three), an ellipsis and its last
/// `room - 1` bytes.
pub fn dir_tail(dir: &str, room: usize) -> (r: String)
    requires
        too_long(dir@, room as int) ==> at_char_boundary(dir@, utf8_len(dir@) - room + 1),
    ensures
        !too_long(dir@, room as int) ==> r@ == dir@,
        too_long(dir@, room as int) ==> r@ == "…"@ + byte_skip(dir@, utf8_len(dir@) - room + 1),
{
    let bytes = dir.as_bytes().len();
    proof {
        lemma_str_len(dir);
    }
    if bytes > room && room > 3 {
        let tail = byte_suffix(dir, bytes - room + 1);
        let mut r = "…".to_owned();
        r.append(tail);
        r
    } else {
        dir.to_owned()
    }
}

/// The final component of `path`, or the empty name.
pub open spec fn name_or_empty(path: Seq<char>) -> Seq<char> {
    match final_component(path) {
        Some(c) => c,
        None => Seq::empty(),
    }
}

/// The directory holding `path`, or the empty path.
pub open spec fn parent_or_empty(path: Seq<char>) -> Seq<char> {
    match parent_path(path) {
        Some(q) => q,
        None => Seq::empty(),
    }
}

/// A large file's name and the directory holding it, each empty when the
/// path has none.
pub fn file_and_dir(path: &str) -> (r: (&str, &str))
    ensures
        r.0@ == name_or_empty(path@),
        r.1@ == parent_or_empty(path@),
{
    let empty = "";
    proof {
        reveal_strlit("");
        assert(empty@ =~= Seq::<char>::empty());
    }
    let name = match path_file_name(path) {
        Some(n) => n,
        None => empty,
    };
    let dir = match path_parent(path) {
        Some(d) => d,
        None => empty,
    };
    (name, dir)
}

/// The label of a space-map segment: the category's emoji, the name cut to
/// its first twelve bytes, and the size.
pub fn segment_label(entry: &DirEntry) -> (r: String)
    requires
        utf8_len(entry.name@) > 12 ==> at_char_boundary(entry.name@, 12),
    ensures
        r@ == emoji_text(entry.category) + " "@ + (if utf8_len(entry.name@) > 12 {
            byte_take(entry.name@, 12)
        } else {
            entry.name@
        }) + " "@ + byte_size_text(entry.size),
{
    let name = entry.name.as_str();
    let bytes = name.as_bytes().len();
    proof {
        lemma_str_len(name);
    }
    let short = if bytes > 12 {
        byte_prefix(name, 12)
    } else {
        name
    };
    let mut r = entry.category.emoji().to_owned();
    r.append(" ");
    r.append(short);
    r.append(" ");
    let size = human_size(entry.size);
    r.append(size.as_str());
    proof {
        assert(r@ =~= emoji_text(entry.category) + " "@ + short@ + " "@ + byte_size_text(
            entry.size,
        ));
    }
    r
}

} // verus!
