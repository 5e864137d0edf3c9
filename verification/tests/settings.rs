use jayjay::about::{
    about_section, about_toggle, about_version_label, APP_NAME, GITHUB_URL, SPONSOR_URL, TAGLINE,
    TELEMETRY_CAPTION,
};
use jayjay::app_config::{
    current, toggle_telemetry, toggle_tree_file_list, update, AppConfig, AppConfigStore,
    DiffConfig, TelemetryConfig, ToolsConfig,
};
use jayjay::glyph::Glyph;
use jayjay::header::{file_column_header, icon_toggle_button};
use jayjay::theme::ThemeColor;
use jayjay::tools::{
    ai_tools, binary_row_detail, cli_row_detail, cli_tools, dropdown_label, setting_value,
    status_row, status_row_glyph, tools_section, CliStatus, FieldValue, StatusRow, ToolChecks,
};

fn config() -> AppConfig {
    AppConfig {
        diff: DiffConfig { tree_file_list: false },
        telemetry: TelemetryConfig { enabled: true },
        tools: ToolsConfig {
            external_editor: "custom".to_string(),
            custom_editor_command: String::new(),
            terminal: "ghostty".to_string(),
            custom_terminal_command: "kitty".to_string(),
        },
    }
}

#[test]
fn ephemeral_store_updates_without_saving() {
    let mut store = AppConfigStore::new_ephemeral(config());
    assert!(!store.persist());
    let mut next = (*current(&store)).clone();
    toggle_tree_file_list(&mut next);
    assert!(!update(&mut store, next));
    assert!(current(&store).diff.tree_file_list);
}

#[test]
fn persistent_store_asks_to_save() {
    let mut store = AppConfigStore::new(config());
    assert!(store.persist());
    let mut next = (*current(&store)).clone();
    toggle_telemetry(&mut next);
    assert!(update(&mut store, next));
    assert!(!current(&store).telemetry.enabled);
}

#[test]
fn toggling_twice_restores_the_config() {
    let mut c = config();
    toggle_tree_file_list(&mut c);
    toggle_tree_file_list(&mut c);
    toggle_telemetry(&mut c);
    toggle_telemetry(&mut c);
    assert_eq!(c, config());
}

#[test]
fn header_labels() {
    assert_eq!(file_column_header(0, 5, true, true, false, false).label, "Loading…");
    assert_eq!(file_column_header(0, 0, false, true, false, false).label, "0 files");
    assert_eq!(file_column_header(3, 12, false, true, false, false).label, "3 / 12 reviewed");
    assert_eq!(file_column_header(3, 12, false, false, false, false).label, "12 files");
    assert_eq!(file_column_header(0, 100, false, false, false, false).label, "100 files");
}

#[test]
fn header_buttons() {
    let h = file_column_header(2, 4, false, true, true, true);
    assert_eq!(h.hide_reviewed_button.as_ref().map(|b| b.icon), Some(Glyph::EyeOff));
    let b = h.hide_reviewed_button.unwrap();
    assert_eq!(b.id, "file-hide-reviewed");
    assert!(b.active);
    assert_eq!((b.background, b.foreground), (ThemeColor::ToggleActiveBg, ThemeColor::ToggleActiveFg));
    assert_eq!(h.tree_glyph, Glyph::Folder);
    assert_eq!(h.tree_id, "file-tree");
    assert!(h.tree_active);
    assert_eq!(h.tree_label, "Tree");
    let h = file_column_header(2, 4, false, true, false, false);
    assert_eq!(h.hide_reviewed_button.as_ref().map(|b| b.icon), Some(Glyph::Eye));
    assert_eq!(h.hide_reviewed_button.as_ref().map(|b| b.active), Some(false));
    assert_eq!(h.tree_glyph, Glyph::Rows);
    assert!(!h.tree_active);
    assert_eq!(h.tree_label, "Flat");
    assert_eq!(file_column_header(0, 4, false, true, false, false).hide_reviewed_button.is_none(), true);
    assert_eq!(file_column_header(2, 4, false, false, false, false).hide_reviewed_button.is_none(), true);
}

#[test]
fn setting_values_show_none_when_empty() {
    assert_eq!(setting_value(""), "(none)");
    assert_eq!(setting_value("nvim"), "nvim");
}

#[test]
fn dropdown_shows_option_label_or_id() {
    let options = [("code", "VS Code"), ("zed", "Zed"), ("code", "Other")];
    assert_eq!(dropdown_label(&options, "code"), "VS Code");
    assert_eq!(dropdown_label(&options, "zed"), "Zed");
    assert_eq!(dropdown_label(&options, "helix"), "helix");
}

fn status(is_installed: bool, path: &str, version: &str) -> CliStatus {
    CliStatus { is_installed, path: path.to_string(), version: version.to_string() }
}

fn checks() -> ToolChecks {
    ToolChecks {
        codex: true,
        assistant: false,
        jayjay: false,
        jj: status(true, "/usr/bin/jj", "0.30"),
        gh: status(true, "", "2.1"),
        glab: status(false, "", ""),
    }
}

fn dropdown(field: &str, label: &str) -> FieldValue {
    FieldValue::Dropdown {
        field_id: field.to_string(),
        element_id: format!("dd-btn-{field}"),
        label: label.to_string(),
        icon: Glyph::CaretDown,
    }
}

fn row_text(r: &StatusRow) -> (String, Glyph, String, bool) {
    (r.name.clone(), r.icon, r.detail.clone(), r.installed)
}

#[test]
fn tools_section_shows_custom_commands() {
    let editors = [("code", "VS Code"), ("custom", "Custom")];
    let terminals = [("ghostty", "Ghostty"), ("custom", "Custom")];
    let s = tools_section(&config(), &editors, &terminals, "Command", "e.g. kitty", &checks(), "Assistant CLI");
    assert_eq!(s.title, "Tools");
    assert_eq!(s.fields.len(), 3);
    assert_eq!(s.fields[0].caption, "External editor");
    assert_eq!(
        s.fields[0].value,
        dropdown("editor", "Custom")
    );
    assert_eq!(s.fields[0].hint, "Used by 'Open in Editor' actions.");
    assert_eq!(s.fields[1].caption, "Command");
    assert_eq!(s.fields[1].value, FieldValue::Text("(none)".to_string()));
    assert_eq!(s.fields[1].hint, "e.g. code, nvim");
    assert_eq!(s.fields[2].caption, "Terminal");
    assert_eq!(
        s.fields[2].value,
        dropdown("terminal", "Ghostty")
    );
    assert_eq!(s.fields[2].hint, "Used by 'Open in Terminal'.");
    assert_eq!(s.ai_tools.title, "AI Commit Message");
    assert_eq!(s.cli_tools.title, "CLI");
}

#[test]
fn tools_section_shows_custom_terminal() {
    let mut cfg = config();
    cfg.tools.external_editor = "code".to_string();
    cfg.tools.terminal = "custom".to_string();
    let editors = [("code", "VS Code"), ("custom", "Custom")];
    let s = tools_section(&cfg, &editors, &[], "Command", "e.g. kitty", &checks(), "Assistant CLI");
    assert_eq!(s.fields.len(), 3);
    assert_eq!(
        s.fields[0].value,
        dropdown("editor", "VS Code")
    );
    assert_eq!(
        s.fields[1].value,
        dropdown("terminal", "custom")
    );
    assert_eq!(s.fields[2].caption, "Command");
    assert_eq!(s.fields[2].value, FieldValue::Text("kitty".to_string()));
    assert_eq!(s.fields[2].hint, "e.g. kitty");
}

#[test]
fn ai_tool_rows() {
    let g = ai_tools(&checks(), "Assistant CLI");
    assert_eq!(g.title, "AI Commit Message");
    assert_eq!(g.rows.len(), 2);
    assert_eq!(row_text(&g.rows[0]), ("Codex CLI".to_string(), Glyph::FileCode, "Installed".to_string(), true));
    assert_eq!(row_text(&g.rows[1]), ("Assistant CLI".to_string(), Glyph::Sparkle, "Not found".to_string(), false));
}

#[test]
fn cli_tool_rows() {
    let g = cli_tools(&checks());
    assert_eq!(g.title, "CLI");
    assert_eq!(g.rows.len(), 4);
    assert_eq!(g.rows[0].selector, "settings-tool-row-jayjay");
    assert_eq!(g.rows[3].selector, "settings-tool-row-glab");
    assert_eq!(row_text(&g.rows[0]), ("jayjay".to_string(), Glyph::Info, "Not installed".to_string(), false));
    assert_eq!(row_text(&g.rows[1]), ("jj".to_string(), Glyph::GitBranch, "/usr/bin/jj".to_string(), true));
    assert_eq!(row_text(&g.rows[2]), ("gh".to_string(), Glyph::GitMerge, "gh 2.1".to_string(), true));
    assert_eq!(row_text(&g.rows[3]), ("glab".to_string(), Glyph::GitMerge, "Not installed".to_string(), false));
}

#[test]
fn status_row_colors_follow_state() {
    let on = status_row("jj", Glyph::GitBranch, "x".to_string(), true);
    assert_eq!((on.detail_color, on.status_icon, on.status_color), (ThemeColor::FgDim, Glyph::Check, ThemeColor::TagAddedFg));
    let off = status_row("jj", Glyph::GitBranch, "x".to_string(), false);
    assert_eq!((off.detail_color, off.status_icon, off.status_color), (ThemeColor::FgFaint, Glyph::XCircle, ThemeColor::FgFaint));
}

#[test]
fn icon_toggle_colors_follow_state() {
    let b = icon_toggle_button("x", Glyph::Eye, false);
    assert_eq!((b.background, b.foreground), (ThemeColor::ToggleInactiveBg, ThemeColor::ToggleInactiveFg));
    assert_eq!(b.id, "x");
}

#[test]
fn cli_rows_show_path_or_version() {
    let installed = CliStatus { is_installed: true, path: "/usr/bin/jj".to_string(), version: "0.30".to_string() };
    assert_eq!(cli_row_detail("jj", &installed), "/usr/bin/jj");
    let on_path = CliStatus { is_installed: true, path: String::new(), version: "2.1".to_string() };
    assert_eq!(cli_row_detail("gh", &on_path), "gh 2.1");
    let missing = CliStatus { is_installed: false, path: "/x".to_string(), version: String::new() };
    assert_eq!(cli_row_detail("glab", &missing), "Not installed");
    assert_eq!(binary_row_detail(true, "Installed", "Not found"), "Installed");
    assert_eq!(binary_row_detail(false, "Installed", "Not found"), "Not found");
    assert_eq!(status_row_glyph(true), Glyph::Check);
    assert_eq!(status_row_glyph(false), Glyph::XCircle);
}

#[test]
fn about_section_labels() {
    assert_eq!(about_version_label("0.4.1"), "Version 0.4.1 (GPUI Alpha)");
    let on = about_toggle("Caption", true);
    assert_eq!((on.icon, on.state_label.as_str()), (Glyph::Check, "On"));
    assert_eq!(on.label, "Caption");
    let off = about_toggle("Caption", false);
    assert_eq!((off.icon, off.state_label.as_str()), (Glyph::Dot, "Off"));
    assert_eq!((off.background, off.foreground), (ThemeColor::ToggleInactiveBg, ThemeColor::ToggleInactiveFg));
}

#[test]
fn about_section_contents() {
    let s = about_section(&config(), "1.2.3");
    assert_eq!(s.app_name, APP_NAME);
    assert_eq!(s.app_name, "JayJay");
    assert_eq!(s.tagline, TAGLINE);
    assert_eq!(s.version_line, "Version 1.2.3 (GPUI Alpha)");
    assert_eq!(s.telemetry.label, TELEMETRY_CAPTION);
    assert_eq!(s.telemetry.label, "Send anonymous usage stats");
    assert_eq!(s.telemetry.id, "about-telemetry");
    assert_eq!(s.telemetry.switch_id, "about-telemetry-toggle");
    assert_eq!((s.links[0].id.as_str(), s.links[1].id.as_str()), ("tb-sponsor", "tb-github"));
    assert!(s.telemetry.active);
    assert_eq!(s.links.len(), 2);
    assert_eq!((s.links[0].label.as_str(), s.links[0].icon, s.links[0].url.as_str()), ("Sponsor", Glyph::Sparkle, SPONSOR_URL));
    assert_eq!(
        (s.links[1].label.as_str(), s.links[1].icon, s.links[1].url.as_str()),
        ("Star on GitHub", Glyph::ArrowCircleRight, GITHUB_URL)
    );
    let mut cfg = config();
    cfg.telemetry.enabled = false;
    assert!(!about_section(&cfg, "1.2.3").telemetry.active);
}
