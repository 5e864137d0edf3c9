//! The colors of the theme that the settings window and the diff view pick
//! by state.
use vstd::prelude::*;

verus! {

/// A color role of the theme.
#[derive(Debug, Clone, Copy, PartialEq, Eq, Structural)]
pub enum ThemeColor {
    FgDim,
    FgFaint,
    TagAddedFg,
    ToggleActiveBg,
    ToggleActiveFg,
    ToggleInactiveBg,
    ToggleInactiveFg,
}

/// The background and foreground of a toggle that is on or off.
pub open spec fn toggle_colors_of(active: bool) -> (ThemeColor, ThemeColor) {
    if active {
        (ThemeColor::ToggleActiveBg, ThemeColor::ToggleActiveFg)
    } else {
        (ThemeColor::ToggleInactiveBg, ThemeColor::ToggleInactiveFg)
    }
}

/// The background and foreground of a toggle that is on or off.
pub fn toggle_colors(active: bool) -> (r: (ThemeColor, ThemeColor))
    ensures
        r == toggle_colors_of(active),
{
    if active {
        (ThemeColor::ToggleActiveBg, ThemeColor::ToggleActiveFg)
    } else {
        (ThemeColor::ToggleInactiveBg, ThemeColor::ToggleInactiveFg)
    }
}

} // verus!
