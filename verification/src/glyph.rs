//! The icons the settings and diff views draw.
use vstd::prelude::*;

verus! {

/// An icon of the icon font.
#[derive(Debug, Clone, Copy, PartialEq, Eq, Structural)]
pub enum Glyph {
    ArrowCircleRight,
    CaretDown,
    Check,
    Copy,
    Dot,
    Eye,
    EyeOff,
    FileCode,
    Folder,
    Gear,
    GitBranch,
    GitMerge,
    Info,
    Package,
    PencilCircle,
    Rows,
    Search,
    Sparkle,
    Tag,
    Terminal,
    XCircle,
}

} // verus!
