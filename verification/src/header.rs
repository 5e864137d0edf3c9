//! The header above the diff's file list: what it says and which buttons it
//! offers.
use vstd::prelude::*;

use crate::glyph::Glyph;
use crate::theme::{toggle_colors, toggle_colors_of, ThemeColor};
use crate::text::{decimal, digit_char, usize_to_decimal};

verus! {

/// A small icon button that is on or off, drawn in the toggle colors of
/// its state.
#[derive(Debug, PartialEq, Eq)]
pub struct IconToggle {
    pub id: String,
    pub icon: Glyph,
    pub active: bool,
    pub background: ThemeColor,
    pub foreground: ThemeColor,
}

/// Whether `b` is the icon button `id` with icon `icon` in state `active`.
pub open spec fn is_icon_toggle(b: IconToggle, id: Seq<char>, icon: Glyph, active: bool) -> bool {
    &&& b.id@ == id
    &&& b.icon == icon
    &&& b.active == active
    &&& (b.background, b.foreground) == toggle_colors_of(active)
}

/// The icon button `id` with icon `icon` in state `active`.
pub fn icon_toggle_button(id: &str, icon: Glyph, active: bool) -> (b: IconToggle)
    ensures
        is_icon_toggle(b, id@, icon, active),
{
    let (background, foreground) = toggle_colors(active);
    IconToggle { id: id.to_owned(), icon, active, background, foreground }
}

/// What the header of the file list shows.
#[derive(Debug, PartialEq, Eq)]
pub struct FileColumnHeader {
    /// The count of files, or the loading notice.
    pub label: String,
    /// The button that hides reviewed files, when offered.
    pub hide_reviewed_button: Option<IconToggle>,
    /// The element id of the tree/flat switch.
    pub tree_id: String,
    /// Whether the tree/flat switch is on (the list is a tree).
    pub tree_active: bool,
    /// The icon of the tree/flat switch.
    pub tree_glyph: Glyph,
    /// The label of the tree/flat switch.
    pub tree_label: String,
}

/// The label of the header.
pub open spec fn header_label(reviewed: usize, count: usize, loading: bool, show_review: bool) -> Seq<char> {
    if loading {
        "Loading…"@
    } else if count == 0 {
        "0 files"@
    } else if show_review {
        decimal(reviewed as nat) + " / "@ + decimal(count as nat) + " reviewed"@
    } else {
        decimal(count as nat) + " files"@
    }
}

/// While review is shown and the list is loaded and not empty, the label is
/// the reviewed count over the file count, whatever the reviewed count is
/// (none reviewed included); without review it is the file count alone.
pub proof fn law_header_label_counts(reviewed: usize, count: usize)
    requires
        count > 0,
    ensures
        header_label(reviewed, count, false, true) == decimal(reviewed as nat) + " / "@ + decimal(
            count as nat,
        ) + " reviewed"@,
        header_label(0, count, false, true) == "0 / "@ + decimal(count as nat) + " reviewed"@,
        header_label(reviewed, count, false, false) == decimal(count as nat) + " files"@,
        header_label(reviewed, 0, false, true) == "0 files"@,
        header_label(reviewed, count, true, true) == "Loading…"@,
{
    reveal_strlit("0 / ");
    reveal_strlit(" / ");
    assert(digit_char(0) == '0');
    assert(decimal(0) =~= seq!['0']);
    assert(decimal(0) + " / "@ =~= "0 / "@);
}

/// The header of a list of `count` files, `reviewed` of them reviewed.
pub fn file_column_header(
    reviewed: usize,
    count: usize,
    loading: bool,
    show_review: bool,
    hide_reviewed: bool,
    tree_mode: bool,
) -> (h: FileColumnHeader)
    ensures
        h.label@ == header_label(reviewed, count, loading, show_review),
        h.hide_reviewed_button is Some <==> show_review && reviewed > 0,
        h.hide_reviewed_button matches Some(b) ==> is_icon_toggle(
            b,
            "file-hide-reviewed"@,
            if hide_reviewed {
                Glyph::EyeOff
            } else {
                Glyph::Eye
            },
            hide_reviewed,
        ),
        h.tree_id@ == "file-tree"@,
        h.tree_active == tree_mode,
        h.tree_glyph == if tree_mode { Glyph::Folder } else { Glyph::Rows },
        h.tree_label@ == if tree_mode { "Tree"@ } else { "Flat"@ },
{
    let label = if loading {
        "Loading…".to_owned()
    } else if count == 0 {
        "0 files".to_owned()
    } else if show_review {
        usize_to_decimal(reviewed).concat(" / ").concat(usize_to_decimal(count).as_str()).concat(
            " reviewed",
        )
    } else {
        usize_to_decimal(count).concat(" files")
    };
    let (tree_glyph, tree_label) = if tree_mode {
        (Glyph::Folder, "Tree".to_owned())
    } else {
        (Glyph::Rows, "Flat".to_owned())
    };
    let hide_reviewed_button = if show_review && reviewed > 0 {
        let icon = if hide_reviewed {
            Glyph::EyeOff
        } else {
            Glyph::Eye
        };
        Some(icon_toggle_button("file-hide-reviewed", icon, hide_reviewed))
    } else {
        None
    };
    FileColumnHeader {
        label,
        hide_reviewed_button,
        tree_id: "file-tree".to_owned(),
        tree_active: tree_mode,
        tree_glyph,
        tree_label,
    }
}

} // verus!
