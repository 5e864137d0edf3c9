//! The tools part of the settings window: external programs and the
//! command-line tools that the app relies on.
use vstd::prelude::*;

use crate::app_config::AppConfig;
use crate::glyph::Glyph;
use crate::text::str_equals;
use crate::theme::ThemeColor;

verus! {

/// Whether a command-line tool is installed, where, and at which version.
#[derive(Clone, Debug, PartialEq, Eq)]
pub struct CliStatus {
    pub is_installed: bool,
    pub path: String,
    pub version: String,
}

/// A setting's value as the settings window shows it: `(none)` for an empty
/// value.
pub fn setting_value(value: &str) -> (r: &str)
    ensures
        r@ == if value@.len() == 0 {
            "(none)"@
        } else {
            value@
        },
{
    if value.is_empty() {
        "(none)"
    } else {
        value
    }
}

/// The label of the first option whose id is `current`, if any.
pub open spec fn option_label(options: Seq<(&str, &str)>, current: Seq<char>) -> Option<Seq<char>>
    decreases options.len(),
{
    if options.len() == 0 {
        None
    } else if options[0].0@ == current {
        Some(options[0].1@)
    } else {
        option_label(options.drop_first(), current)
    }
}

/// What a drop-down shows for the chosen id: the label of the first option
/// with that id, or the id itself.
pub fn dropdown_label<'a>(options: &[(&'a str, &'a str)], current: &'a str) -> (r: &'a str)
    ensures
        r@ == match option_label(options@, current@) {
            Some(l) => l,
            None => current@,
        },
{
    let n = options.len();
    assert(options@.skip(0) =~= options@);
    for i in 0..n
        invariant
            n == options@.len(),
            option_label(options@, current@) == option_label(options@.skip(i as int), current@),
    {
        assert(options@.skip(i as int).drop_first() =~= options@.skip(i + 1));
        if str_equals(options[i].0, current) {
            return options[i].1;
        }
    }
    assert(options@.skip(n as int) =~= Seq::<(&str, &str)>::empty());
    current
}

/// The detail of a command-line tool's row: its path, or its name and
/// version when the path is unknown, or `Not installed`.
pub fn cli_row_detail(name: &str, status: &CliStatus) -> (r: String)
    ensures
        r@ == if !status.is_installed {
            "Not installed"@
        } else if status.path@.len() == 0 {
            name@ + " "@ + status.version@
        } else {
            status.path@
        },
{
    if status.is_installed {
        if status.path.as_str().is_empty() {
            name.to_owned().concat(" ").concat(status.version.as_str())
        } else {
            status.path.clone()
        }
    } else {
        "Not installed".to_owned()
    }
}

/// The detail of a program's row: the installed label when the program was
/// found, the missing label otherwise.
pub fn binary_row_detail(
    installed: bool,
    installed_label: &'static str,
    missing_label: &'static str,
) -> (r: &'static str)
    ensures
        r == if installed {
            installed_label
        } else {
            missing_label
        },
{
    if installed {
        installed_label
    } else {
        missing_label
    }
}

/// A tool's row: its icon and name, the detail on the right, and the icon
/// that ends it, each drawn in the color its state calls for.
#[derive(Debug, PartialEq, Eq)]
pub struct StatusRow {
    /// The row's debug selector, `settings-tool-row-` and the name.
    pub selector: String,
    pub name: String,
    pub icon: Glyph,
    pub detail: String,
    pub installed: bool,
    pub detail_color: ThemeColor,
    pub status_icon: Glyph,
    pub status_color: ThemeColor,
}

/// Whether `r` is the row of tool `name` with icon `icon` and detail
/// `detail`: the detail is dim when installed and faint otherwise, and the
/// row ends in a green check mark when installed and a faint crossed circle
/// otherwise.
pub open spec fn is_status_row(
    r: StatusRow,
    name: Seq<char>,
    icon: Glyph,
    detail: Seq<char>,
    installed: bool,
) -> bool {
    &&& r.selector@ == "settings-tool-row-"@ + name
    &&& r.name@ == name
    &&& r.icon == icon
    &&& r.detail@ == detail
    &&& r.installed == installed
    &&& r.detail_color == if installed {
        ThemeColor::FgDim
    } else {
        ThemeColor::FgFaint
    }
    &&& r.status_icon == if installed {
        Glyph::Check
    } else {
        Glyph::XCircle
    }
    &&& r.status_color == if installed {
        ThemeColor::TagAddedFg
    } else {
        ThemeColor::FgFaint
    }
}

/// The row of tool `name` with icon `icon`, detail `detail` and the given
/// state.
pub fn status_row(name: &str, icon: Glyph, detail: String, installed: bool) -> (r: StatusRow)
    ensures
        is_status_row(r, name@, icon, detail@, installed),
{
    let (detail_color, status_color) = if installed {
        (ThemeColor::FgDim, ThemeColor::TagAddedFg)
    } else {
        (ThemeColor::FgFaint, ThemeColor::FgFaint)
    };
    StatusRow {
        selector: "settings-tool-row-".to_owned().concat(name),
        name: name.to_owned(),
        icon,
        detail,
        installed,
        detail_color,
        status_icon: status_row_glyph(installed),
        status_color,
    }
}

/// The row of a program found (or not) on the search path.
pub fn binary_row(
    name: &str,
    icon: Glyph,
    installed: bool,
    installed_label: &'static str,
    missing_label: &'static str,
) -> (r: StatusRow)
    ensures
        is_status_row(
            r,
            name@,
            icon,
            if installed {
                installed_label@
            } else {
                missing_label@
            },
            installed,
        ),
{
    status_row(name, icon, binary_row_detail(installed, installed_label, missing_label).to_owned(), installed)
}

/// The detail of a command-line tool's row (see `cli_row_detail`).
pub open spec fn cli_detail(name: Seq<char>, status: CliStatus) -> Seq<char> {
    if !status.is_installed {
        "Not installed"@
    } else if status.path@.len() == 0 {
        name + " "@ + status.version@
    } else {
        status.path@
    }
}

/// The row of a command-line tool with its status.
pub fn cli_row(name: &str, icon: Glyph, status: &CliStatus) -> (r: StatusRow)
    ensures
        is_status_row(r, name@, icon, cli_detail(name@, *status), status.is_installed),
{
    status_row(name, icon, cli_row_detail(name, status), status.is_installed)
}

/// A titled group of tool rows.
#[derive(Debug, PartialEq, Eq)]
pub struct ToolGroup {
    pub title: String,
    pub rows: Vec<StatusRow>,
}

/// What the app found out about the tools: whether each program answers,
/// and the status of each command-line tool.
#[derive(Clone, Debug, PartialEq, Eq)]
pub struct ToolChecks {
    pub codex: bool,
    pub assistant: bool,
    pub jayjay: bool,
    pub jj: CliStatus,
    pub gh: CliStatus,
    pub glab: CliStatus,
}

/// Whether `g` is the group of programs that write commit messages: Codex
/// CLI and the assistant captioned `assistant`, each shown `Installed` or
/// `Not found`.
pub open spec fn is_ai_tools(g: ToolGroup, checks: ToolChecks, assistant: Seq<char>) -> bool {
    &&& g.title@ == "AI Commit Message"@
    &&& g.rows@.len() == 2
    &&& is_status_row(
        g.rows@[0],
        "Codex CLI"@,
        Glyph::FileCode,
        if checks.codex {
            "Installed"@
        } else {
            "Not found"@
        },
        checks.codex,
    )
    &&& is_status_row(
        g.rows@[1],
        assistant,
        Glyph::Sparkle,
        if checks.assistant {
            "Installed"@
        } else {
            "Not found"@
        },
        checks.assistant,
    )
}

/// The group of programs that write commit messages; the second row is
/// captioned `assistant`.
pub fn ai_tools(checks: &ToolChecks, assistant: &str) -> (g: ToolGroup)
    ensures
        is_ai_tools(g, *checks, assistant@),
{
    let mut rows: Vec<StatusRow> = Vec::new();
    rows.push(binary_row("Codex CLI", Glyph::FileCode, checks.codex, "Installed", "Not found"));
    rows.push(binary_row(assistant, Glyph::Sparkle, checks.assistant, "Installed", "Not found"));
    ToolGroup { title: "AI Commit Message".to_owned(), rows }
}

/// Whether `g` is the group of command-line tools: jayjay, shown
/// `Installed` or `Not installed`, then jj, gh and glab with their status.
pub open spec fn is_cli_tools(g: ToolGroup, checks: ToolChecks) -> bool {
    &&& g.title@ == "CLI"@
    &&& g.rows@.len() == 4
    &&& is_status_row(
        g.rows@[0],
        "jayjay"@,
        Glyph::Info,
        if checks.jayjay {
            "Installed"@
        } else {
            "Not installed"@
        },
        checks.jayjay,
    )
    &&& is_status_row(g.rows@[1], "jj"@, Glyph::GitBranch, cli_detail("jj"@, checks.jj), checks.jj.is_installed)
    &&& is_status_row(g.rows@[2], "gh"@, Glyph::GitMerge, cli_detail("gh"@, checks.gh), checks.gh.is_installed)
    &&& is_status_row(
        g.rows@[3],
        "glab"@,
        Glyph::GitMerge,
        cli_detail("glab"@, checks.glab),
        checks.glab.is_installed,
    )
}

/// The group of command-line tools.
pub fn cli_tools(checks: &ToolChecks) -> (g: ToolGroup)
    ensures
        is_cli_tools(g, *checks),
{
    let mut rows: Vec<StatusRow> = Vec::new();
    rows.push(binary_row("jayjay", Glyph::Info, checks.jayjay, "Installed", "Not installed"));
    rows.push(cli_row("jj", Glyph::GitBranch, &checks.jj));
    rows.push(cli_row("gh", Glyph::GitMerge, &checks.gh));
    rows.push(cli_row("glab", Glyph::GitMerge, &checks.glab));
    ToolGroup { title: "CLI".to_owned(), rows }
}

/// What a setting's row shows on its right.
#[derive(Debug, PartialEq, Eq)]
pub enum FieldValue {
    /// A drop-down for the setting `field_id`, with element id `element_id`,
    /// showing the chosen option's label and its icon; pressing it opens the
    /// choices of `field_id`.
    Dropdown { field_id: String, element_id: String, label: String, icon: Glyph },
    /// The setting's value as text.
    Text(String),
}

/// A setting's row: caption, value and hint.
#[derive(Debug, PartialEq, Eq)]
pub struct FieldRow {
    pub caption: String,
    pub value: FieldValue,
    pub hint: String,
}

/// Whether `f` is a drop-down row with the given caption, label and hint,
/// for the setting `field_id`: the drop-down's element id is `dd-btn-` and
/// the field id, and it ends in a caret.
pub open spec fn is_dropdown_row(
    f: FieldRow,
    caption: Seq<char>,
    field_id: Seq<char>,
    label: Seq<char>,
    hint: Seq<char>,
) -> bool {
    &&& f.caption@ == caption
    &&& f.hint@ == hint
    &&& f.value matches FieldValue::Dropdown { field_id: id, element_id, label: l, icon }
        && id@ == field_id && element_id@ == "dd-btn-"@ + field_id && l@ == label && icon
        == Glyph::CaretDown
}

/// Whether `f` is a text row with the given caption, text and hint.
pub open spec fn is_text_row(f: FieldRow, caption: Seq<char>, text: Seq<char>, hint: Seq<char>) -> bool {
    &&& f.caption@ == caption
    &&& f.hint@ == hint
    &&& f.value matches FieldValue::Text(t) && t@ == text
}

/// The value shown for a setting (see `setting_value`).
pub open spec fn shown_value(value: Seq<char>) -> Seq<char> {
    if value.len() == 0 {
        "(none)"@
    } else {
        value
    }
}

/// The label a drop-down shows for `current` (see `dropdown_label`).
pub open spec fn shown_label(options: Seq<(&str, &str)>, current: Seq<char>) -> Seq<char> {
    match option_label(options, current) {
        Some(l) => l,
        None => current,
    }
}

/// The drop-down row of a setting.
fn dropdown_row(
    caption: &str,
    field_id: &str,
    options: &[(&str, &str)],
    current: &str,
    hint: &str,
) -> (f: FieldRow)
    ensures
        is_dropdown_row(f, caption@, field_id@, shown_label(options@, current@), hint@),
{
    FieldRow {
        caption: caption.to_owned(),
        value: FieldValue::Dropdown {
            field_id: field_id.to_owned(),
            element_id: "dd-btn-".to_owned().concat(field_id),
            label: dropdown_label(options, current).to_owned(),
            icon: Glyph::CaretDown,
        },
        hint: hint.to_owned(),
    }
}

/// The text row of a setting, `(none)` for an empty value.
fn text_row(caption: &str, value: &str, hint: &str) -> (f: FieldRow)
    ensures
        is_text_row(f, caption@, shown_value(value@), hint@),
{
    FieldRow {
        caption: caption.to_owned(),
        value: FieldValue::Text(setting_value(value).to_owned()),
        hint: hint.to_owned(),
    }
}

/// What the tools section shows.
#[derive(Debug, PartialEq, Eq)]
pub struct ToolsSection {
    pub title: String,
    pub fields: Vec<FieldRow>,
    pub ai_tools: ToolGroup,
    pub cli_tools: ToolGroup,
}

/// What the tools section shows for `cfg`: the title, the editor's
/// drop-down (setting `editor`), the custom editor command when the editor
/// is `custom`, the terminal's drop-down (setting `terminal`), the custom
/// terminal command (under the platform's caption and hint) when the
/// terminal is `custom`, then the programs that write commit messages (the
/// second captioned `assistant`) and the command-line tools.
pub fn tools_section(
    cfg: &AppConfig,
    editor_options: &[(&str, &str)],
    terminal_options: &[(&str, &str)],
    custom_terminal_label: &str,
    custom_terminal_hint: &str,
    checks: &ToolChecks,
    assistant: &str,
) -> (r: ToolsSection)
    ensures
        r.title@ == "Tools"@,
        ({
            let e: int = if cfg.tools.external_editor@ == "custom"@ { 1 } else { 0 };
            let t: int = if cfg.tools.terminal@ == "custom"@ { 1 } else { 0 };
            &&& r.fields@.len() == 2 + e + t
            &&& is_dropdown_row(
                r.fields@[0],
                "External editor"@,
                "editor"@,
                shown_label(editor_options@, cfg.tools.external_editor@),
                "Used by 'Open in Editor' actions."@,
            )
            &&& e == 1 ==> is_text_row(
                r.fields@[1],
                "Command"@,
                shown_value(cfg.tools.custom_editor_command@),
                "e.g. code, nvim"@,
            )
            &&& is_dropdown_row(
                r.fields@[1 + e],
                "Terminal"@,
                "terminal"@,
                shown_label(terminal_options@, cfg.tools.terminal@),
                "Used by 'Open in Terminal'."@,
            )
            &&& t == 1 ==> is_text_row(
                r.fields@[2 + e],
                custom_terminal_label@,
                shown_value(cfg.tools.custom_terminal_command@),
                custom_terminal_hint@,
            )
        }),
        is_ai_tools(r.ai_tools, *checks, assistant@),
        is_cli_tools(r.cli_tools, *checks),
{
    let mut fields: Vec<FieldRow> = Vec::new();
    fields.push(
        dropdown_row(
            "External editor",
            "editor",
            editor_options,
            cfg.tools.external_editor.as_str(),
            "Used by 'Open in Editor' actions.",
        ),
    );
    if str_equals(cfg.tools.external_editor.as_str(), "custom") {
        fields.push(text_row("Command", cfg.tools.custom_editor_command.as_str(), "e.g. code, nvim"));
    }
    fields.push(
        dropdown_row(
            "Terminal",
            "terminal",
            terminal_options,
            cfg.tools.terminal.as_str(),
            "Used by 'Open in Terminal'.",
        ),
    );
    if str_equals(cfg.tools.terminal.as_str(), "custom") {
        fields.push(
            text_row(custom_terminal_label, cfg.tools.custom_terminal_command.as_str(), custom_terminal_hint),
        );
    }
    let ai = ai_tools(checks, assistant);
    let cli = cli_tools(checks);
    ToolsSection { title: "Tools".to_owned(), fields, ai_tools: ai, cli_tools: cli }
}

/// The icon that ends a tool's row: a check mark when installed, a crossed
/// circle otherwise.
pub fn status_row_glyph(installed: bool) -> (g: Glyph)
    ensures
        g == if installed {
            Glyph::Check
        } else {
            Glyph::XCircle
        },
{
    if installed {
        Glyph::Check
    } else {
        Glyph::XCircle
    }
}

} // verus!
