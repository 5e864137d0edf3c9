use jayjay::glyph::Glyph;
use jayjay::jj_config::{
    command_output_text, config_path_row, entry_icon, jj_config_binary, jj_config_snapshot,
    jujutsu_section, parse_config_sections, working_directory, ConfigRow, JjConfigSnapshot,
    JujutsuContent,
};
use jayjay::tools::CliStatus;

#[test]
fn parse_config_sections_groups_by_prefix() {
    let sections = parse_config_sections(
        "user.name = Alice\nuser.email = a@example.com\nui.diff = split\n",
    );

    assert_eq!(sections.len(), 2);
    assert_eq!(sections[0].name, "user");
    assert_eq!(sections[0].entries[0].key, "name");
    assert_eq!(sections[0].entries[1].value, "a@example.com");
    assert_eq!(sections[1].name, "ui");
    assert_eq!(sections[1].entries[0].value, "split");
}

#[test]
fn keys_without_dot_go_to_general() {
    let sections = parse_config_sections("editor = vim\n  pager=less  \r\n");
    assert_eq!(sections.len(), 1);
    assert_eq!(sections[0].name, "general");
    assert_eq!(sections[0].entries[0].key, "editor");
    assert_eq!(sections[0].entries[0].value, "vim");
    assert_eq!(sections[0].entries[1].key, "pager");
    assert_eq!(sections[0].entries[1].value, "less");
}

#[test]
fn lines_without_equals_are_skipped() {
    let sections = parse_config_sections("just text\n\nui.color = always\n# note\n");
    assert_eq!(sections.len(), 1);
    assert_eq!(sections[0].name, "ui");
    assert_eq!(sections[0].entries.len(), 1);
    assert_eq!(sections[0].entries[0].key, "color");
    assert_eq!(sections[0].entries[0].value, "always");
    assert_eq!(
        parse_config_sections("user.name = A\r\r\nnoise\nuser.email = b"),
        parse_config_sections("user.name = A\r\nuser.email = b")
    );
    assert!(parse_config_sections("").is_empty());
}

#[test]
fn only_the_first_dot_and_equals_split() {
    let sections = parse_config_sections("a.b.c = x = y\n");
    assert_eq!(sections[0].name, "a");
    assert_eq!(sections[0].entries[0].key, "b.c");
    assert_eq!(sections[0].entries[0].value, "x = y");
}

#[test]
fn a_returning_section_starts_a_new_group() {
    let sections = parse_config_sections("a.x=1\nb.y=2\na.z=3\n");
    assert_eq!(sections.len(), 3);
    assert_eq!(sections[0].name, "a");
    assert_eq!(sections[1].name, "b");
    assert_eq!(sections[2].name, "a");
    assert_eq!(sections[2].entries[0].key, "z");
}

#[test]
fn command_output_is_trimmed_or_dropped() {
    assert_eq!(command_output_text(true, "  /home/u/.config/jj/config.toml\n"), "/home/u/.config/jj/config.toml");
    assert_eq!(command_output_text(false, "error text"), "");
}

fn status(installed: bool, path: &str) -> CliStatus {
    CliStatus { is_installed: installed, path: path.to_string(), version: "0.30.0".to_string() }
}

#[test]
fn jj_binary_follows_the_status() {
    assert_eq!(jj_config_binary(&status(false, "/bin/jj")), None);
    assert_eq!(jj_config_binary(&status(true, "")), Some("jj".to_string()));
    assert_eq!(jj_config_binary(&status(true, "/opt/jj")), Some("/opt/jj".to_string()));
}

#[test]
fn snapshot_reports_missing_jj() {
    let s = jj_config_snapshot(&status(false, ""), String::new(), "");
    assert_eq!(s.error, Some("jj is not installed.".to_string()));
    assert!(s.sections.is_empty());
    assert_eq!(s.path, "");
    let s = jj_config_snapshot(&status(true, ""), "/c.toml".to_string(), "ui.pager = less\n");
    assert_eq!(s.error, None);
    assert_eq!(s.path, "/c.toml");
    assert_eq!(s.sections.len(), 1);
}

fn content(snapshot: Option<&JjConfigSnapshot>, loading: bool) -> JujutsuContent {
    let section = jujutsu_section(snapshot, loading);
    assert_eq!(section.title, "Jujutsu");
    section.content
}

#[test]
fn jujutsu_section_shows_status_or_config() {
    assert_eq!(content(None, true), JujutsuContent::Message("Loading jj config...".to_string()));
    assert_eq!(
        content(None, false),
        JujutsuContent::Message("jj config has not been loaded.".to_string())
    );
    let failed = JjConfigSnapshot { path: String::new(), sections: Vec::new(), error: Some("boom".to_string()) };
    assert_eq!(content(Some(&failed), false), JujutsuContent::Message("boom".to_string()));
    assert_eq!(content(Some(&failed), true), JujutsuContent::Message("Loading jj config...".to_string()));
    let loaded = JjConfigSnapshot { path: "/c.toml".to_string(), sections: Vec::new(), error: None };
    match content(Some(&loaded), false) {
        JujutsuContent::Config { path_row, sections } => {
            let row = path_row.expect("path row");
            assert_eq!(row.path, "/c.toml");
            assert_eq!(row.open_id, "jj-config-open");
            assert_eq!(row.working_directory, "/");
            assert!(sections.is_empty());
        }
        other => panic!("unexpected {other:?}"),
    }
    let no_path = JjConfigSnapshot { path: String::new(), sections: Vec::new(), error: None };
    assert_eq!(content(Some(&no_path), false), JujutsuContent::Config { path_row: None, sections: Vec::new() });
}

#[test]
fn jujutsu_section_lists_sections_in_order() {
    let snapshot = jj_config_snapshot(
        &status(true, ""),
        String::new(),
        "user.name = Alice\nui.pager = less\nui.diff.tool = difft\n",
    );
    match content(Some(&snapshot), false) {
        JujutsuContent::Config { path_row, sections } => {
            assert!(path_row.is_none());
            assert_eq!(sections.len(), 2);
            assert_eq!(sections[0].name, "user");
            assert_eq!(
                sections[0].rows,
                vec![ConfigRow { icon: Glyph::Info, key: "name".to_string(), value: "Alice".to_string() }]
            );
            assert_eq!(sections[1].name, "ui");
            assert_eq!(sections[1].rows.len(), 2);
            assert_eq!(sections[1].rows[0].key, "pager");
            assert_eq!(sections[1].rows[1].key, "diff.tool");
            assert_eq!(sections[1].rows[1].value, "difft");
            assert_eq!(sections[1].rows[1].icon, Glyph::Gear);
        }
        other => panic!("unexpected {other:?}"),
    }
}

#[test]
fn config_path_row_opens_in_parent_directory() {
    let row = config_path_row("/home/a/.config/jj/config.toml");
    assert_eq!(row.path, "/home/a/.config/jj/config.toml");
    assert_eq!(row.open_label, "Open");
    assert_eq!(row.working_directory, "/home/a/.config/jj");
    assert_eq!(row.fallback_url, "file:///home/a/.config/jj/config.toml");
    assert_eq!(row.copy_icon, Glyph::Copy);
    assert_eq!(row.copy_value, "/home/a/.config/jj/config.toml");
    assert_eq!(config_path_row("").working_directory, ".");
    assert_eq!(config_path_row("/").working_directory, ".");
    assert_eq!(working_directory(None), ".");
    assert_eq!(working_directory(Some("/tmp".to_string())), "/tmp");
}

#[test]
fn lines_without_equals_do_not_split_sections() {
    let with_noise = parse_config_sections("user.name = A\n[user]\n\nuser.email = b\n");
    let without = parse_config_sections("user.name = A\nuser.email = b\n");
    assert_eq!(with_noise, without);
    assert_eq!(with_noise.len(), 1);
    assert_eq!(with_noise[0].entries.len(), 2);
    assert_eq!(
        parse_config_sections("user.name = A\r\r\nnoise\nuser.email = b"),
        parse_config_sections("user.name = A\r\nuser.email = b")
    );
    assert!(parse_config_sections("").is_empty());
    assert!(parse_config_sections("no equals\n[table]\n").is_empty());
}

#[test]
fn entry_icons_follow_keys() {
    assert_eq!(entry_icon("name"), Glyph::Info);
    assert_eq!(entry_icon("email"), Glyph::Tag);
    assert_eq!(entry_icon("hostname"), Glyph::Terminal);
    assert_eq!(entry_icon("username"), Glyph::Info);
    assert_eq!(entry_icon("backend"), Glyph::Package);
    assert_eq!(entry_icon("behavior"), Glyph::PencilCircle);
    assert_eq!(entry_icon("key"), Glyph::Gear);
    assert_eq!(entry_icon("diff-command"), Glyph::Terminal);
    assert_eq!(entry_icon("ignore-pattern"), Glyph::Search);
    assert_eq!(entry_icon("sign-on-push"), Glyph::PencilCircle);
    assert_eq!(entry_icon("pager"), Glyph::Gear);
}
