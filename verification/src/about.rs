//! The about part of the settings window.
use vstd::prelude::*;

use crate::app_config::AppConfig;
use crate::glyph::Glyph;
use crate::theme::{toggle_colors, toggle_colors_of, ThemeColor};

verus! {

/// The app's name.
pub const APP_NAME: &'static str = "JayJay";

/// The line under the app's name.
pub const TAGLINE: &'static str = "A native GUI for Jujutsu";

/// Where to sponsor the project.
pub const SPONSOR_URL: &'static str = "https://github.com/sponsors/hewigovens";

/// The project's repository.
pub const GITHUB_URL: &'static str = "https://github.com/hewigovens/jayjay";

/// The version line of the about section for the package version `version`.
pub fn about_version_label(version: &str) -> (r: String)
    ensures
        r@ == "Version "@ + version@ + " (GPUI Alpha)"@,
{
    "Version ".to_owned().concat(version).concat(" (GPUI Alpha)")
}

/// What a switch of the about section shows.
#[derive(Debug, PartialEq, Eq)]
pub struct AboutToggle {
    /// The element id of the row, also its debug selector.
    pub id: String,
    /// The element id of the switch itself.
    pub switch_id: String,
    /// The caption beside the switch.
    pub label: String,
    /// Whether the switch is on.
    pub active: bool,
    pub background: ThemeColor,
    pub foreground: ThemeColor,
    pub icon: Glyph,
    pub state_label: String,
}

/// Whether `t` is the switch captioned `label` in state `active`, in the
/// row `about-telemetry`: toggle colors of its state, a check mark and `On`
/// when on, a dot and `Off` when off.
pub open spec fn is_about_toggle(t: AboutToggle, label: Seq<char>, active: bool) -> bool {
    &&& t.id@ == "about-telemetry"@
    &&& t.switch_id@ == "about-telemetry-toggle"@
    &&& t.label@ == label
    &&& t.active == active
    &&& (t.background, t.foreground) == toggle_colors_of(active)
    &&& t.icon == if active {
        Glyph::Check
    } else {
        Glyph::Dot
    }
    &&& t.state_label@ == if active {
        "On"@
    } else {
        "Off"@
    }
}

/// The switch captioned `label` in state `active`.
pub fn about_toggle(label: &str, active: bool) -> (t: AboutToggle)
    ensures
        is_about_toggle(t, label@, active),
{
    let (background, foreground) = toggle_colors(active);
    let (icon, state_label) = if active {
        (Glyph::Check, "On")
    } else {
        (Glyph::Dot, "Off")
    };
    AboutToggle {
        id: "about-telemetry".to_owned(),
        switch_id: "about-telemetry-toggle".to_owned(),
        label: label.to_owned(),
        active,
        background,
        foreground,
        icon,
        state_label: state_label.to_owned(),
    }
}

/// A button that opens a web page.
#[derive(Debug, PartialEq, Eq)]
pub struct LinkButton {
    /// The button's element id.
    pub id: String,
    pub label: String,
    pub icon: Glyph,
    pub url: String,
}

/// Whether `b` is the button `id` labelled `label` with icon `icon` that
/// opens `url`.
pub open spec fn is_link(b: LinkButton, id: Seq<char>, label: Seq<char>, icon: Glyph, url: Seq<char>) -> bool {
    b.id@ == id && b.label@ == label && b.icon == icon && b.url@ == url
}

/// What the about section shows, top to bottom after the app's icon.
#[derive(Debug, PartialEq, Eq)]
pub struct AboutSection {
    pub app_name: String,
    pub tagline: String,
    pub version_line: String,
    pub telemetry: AboutToggle,
    pub links: Vec<LinkButton>,
}

/// The caption of the usage-statistics switch.
pub const TELEMETRY_CAPTION: &'static str = "Send anonymous usage stats";

/// What the about section shows for `cfg` and the package version
/// `version`: name, tagline, version line, the usage-statistics switch in the
/// configured state, and the buttons to sponsor the project and to star it.
pub fn about_section(cfg: &AppConfig, version: &str) -> (r: AboutSection)
    ensures
        r.app_name@ == APP_NAME@,
        r.tagline@ == TAGLINE@,
        r.version_line@ == "Version "@ + version@ + " (GPUI Alpha)"@,
        is_about_toggle(r.telemetry, TELEMETRY_CAPTION@, cfg.telemetry.enabled),
        r.links@.len() == 2,
        is_link(r.links@[0], "tb-sponsor"@, "Sponsor"@, Glyph::Sparkle, SPONSOR_URL@),
        is_link(r.links@[1], "tb-github"@, "Star on GitHub"@, Glyph::ArrowCircleRight, GITHUB_URL@),
{
    let mut links: Vec<LinkButton> = Vec::new();
    links.push(
        LinkButton {
            id: "tb-sponsor".to_owned(),
            label: "Sponsor".to_owned(),
            icon: Glyph::Sparkle,
            url: SPONSOR_URL.to_owned(),
        },
    );
    links.push(
        LinkButton {
            id: "tb-github".to_owned(),
            label: "Star on GitHub".to_owned(),
            icon: Glyph::ArrowCircleRight,
            url: GITHUB_URL.to_owned(),
        },
    );
    AboutSection {
        app_name: APP_NAME.to_owned(),
        tagline: TAGLINE.to_owned(),
        version_line: about_version_label(version),
        telemetry: about_toggle(TELEMETRY_CAPTION, cfg.telemetry.enabled),
        links,
    }
}

} // verus!
