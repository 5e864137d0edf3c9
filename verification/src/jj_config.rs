//! The Jujutsu configuration shown in the settings window: `jj config list`
//! output grouped into sections, and what the section shows.
use vstd::prelude::*;

use crate::glyph::Glyph;
use crate::text::{
    chars_of, contains_seq, find_char, find_in_range, join_lines, lemma_find_char,
    lemma_find_char_at, lemma_find_char_none, lemma_text_lines_no_newline, lemma_text_lines_single,
    lemma_text_lines_step, lemma_trim_push_cr, line_ranges, no_newline, str_contains, str_equals,
    string_of_range, strip_cr, text_lines, trim, trim_range,
};
use crate::tools::CliStatus;

verus! {

/// One `key = value` setting.
#[derive(Clone, Debug, PartialEq, Eq)]
pub struct JjConfigEntry {
    pub key: String,
    pub value: String,
}

/// Consecutive settings that share a section name.
#[derive(Clone, Debug, PartialEq, Eq)]
pub struct JjConfigSection {
    pub name: String,
    pub entries: Vec<JjConfigEntry>,
}

/// What was read of the user's Jujutsu configuration.
#[derive(Clone, Debug, PartialEq, Eq)]
pub struct JjConfigSnapshot {
    pub path: String,
    pub sections: Vec<JjConfigSection>,
    pub error: Option<String>,
}

/// A setting: key and value.
pub type EntryModel = (Seq<char>, Seq<char>);

/// A section: name and settings.
pub type SectionModel = (Seq<char>, Seq<EntryModel>);

/// A setting with its section: section, key and value.
pub type ConfigLine = (Seq<char>, Seq<char>, Seq<char>);

impl View for JjConfigEntry {
    type V = EntryModel;

    open spec fn view(&self) -> EntryModel {
        (self.key@, self.value@)
    }
}

/// The models of `entries`.
pub open spec fn entries_view(entries: Seq<JjConfigEntry>) -> Seq<EntryModel> {
    entries.map_values(|e: JjConfigEntry| e@)
}

impl View for JjConfigSection {
    type V = SectionModel;

    open spec fn view(&self) -> SectionModel {
        (self.name@, entries_view(self.entries@))
    }
}

/// The models of `sections`.
pub open spec fn sections_view(sections: Seq<JjConfigSection>) -> Seq<SectionModel> {
    sections.map_values(|s: JjConfigSection| s@)
}

/// The setting a line of `jj config list` states, if it has a `=`: the
/// trimmed text before the first `=` is the full key, the trimmed text after
/// it the value; the full key splits at its first `.` into section and key,
/// and a full key without `.` belongs to the section `general`.
pub open spec fn config_line(line: Seq<char>) -> Option<ConfigLine> {
    match find_char(line, '=') {
        None => None,
        Some(i) => {
            let full_key = trim(line.take(i));
            let value = trim(line.skip(i + 1));
            match find_char(full_key, '.') {
                Some(j) => Some((full_key.take(j), full_key.skip(j + 1), value)),
                None => Some(("general"@, full_key, value)),
            }
        },
    }
}

/// The settings that `lines` state, in order.
pub open spec fn config_lines(lines: Seq<Seq<char>>) -> Seq<ConfigLine>
    decreases lines.len(),
{
    if lines.len() == 0 {
        seq![]
    } else {
        let before = config_lines(lines.drop_last());
        match config_line(lines.last()) {
            Some(e) => before.push(e),
            None => before,
        }
    }
}

/// `settings` grouped into runs of consecutive settings with the same
/// section name.
pub open spec fn group_sections(settings: Seq<ConfigLine>) -> Seq<SectionModel>
    decreases settings.len(),
{
    if settings.len() == 0 {
        seq![]
    } else {
        let g = group_sections(settings.drop_last());
        let e = settings.last();
        if g.len() > 0 && g.last().0 == e.0 {
            g.update(g.len() - 1, (e.0, g.last().1.push((e.1, e.2))))
        } else {
            g.push((e.0, seq![(e.1, e.2)]))
        }
    }
}

/// The sections of `jj config list` output `raw`.
pub open spec fn parse_config(raw: Seq<char>) -> Seq<SectionModel> {
    group_sections(config_lines(text_lines(raw)))
}

/// The settings of `sections`, each with its section name, in order.
pub open spec fn flatten_sections(sections: Seq<SectionModel>) -> Seq<ConfigLine>
    decreases sections.len(),
{
    if sections.len() == 0 {
        seq![]
    } else {
        let s = sections.last();
        flatten_sections(sections.drop_last()) + s.1.map_values(
            |kv: EntryModel| (s.0, kv.0, kv.1),
        )
    }
}

/// The setting of the line `cs[lo..hi]`, if it has one.
fn parse_line(cs: &Vec<char>, lo: usize, hi: usize) -> (r: Option<(String, String, String)>)
    requires
        lo <= hi <= cs@.len(),
    ensures
        match r {
            None => config_line(cs@.subrange(lo as int, hi as int)) is None,
            Some(t) => config_line(cs@.subrange(lo as int, hi as int)) == Some(
                (t.0@, t.1@, t.2@),
            ),
        },
{
    let ghost line = cs@.subrange(lo as int, hi as int);
    match find_in_range(cs, lo, hi, '=') {
        None => None,
        Some(i) => {
            assert(line.take(i - lo) =~= cs@.subrange(lo as int, i as int));
            assert(line.skip(i - lo + 1) =~= cs@.subrange(i + 1, hi as int));
            let (a, b) = trim_range(cs, lo, i);
            let (c, d) = trim_range(cs, i + 1, hi);
            let value = string_of_range(cs, c, d);
            let ghost full_key = cs@.subrange(a as int, b as int);
            match find_in_range(cs, a, b, '.') {
                Some(j) => {
                    assert(full_key.take(j - a) =~= cs@.subrange(a as int, j as int));
                    assert(full_key.skip(j - a + 1) =~= cs@.subrange(j + 1, b as int));
                    let section = string_of_range(cs, a, j);
                    let key = string_of_range(cs, j + 1, b);
                    Some((section, key, value))
                },
                None => {
                    let section = "general".to_owned();
                    let key = string_of_range(cs, a, b);
                    Some((section, key, value))
                },
            }
        },
    }
}

/// Groups the settings of `jj config list` output by section: the part of
/// each key before its first `.` (or `general`), keeping runs of
/// consecutive settings of one section together, in order.
pub fn parse_config_sections(raw: &str) -> (sections: Vec<JjConfigSection>)
    ensures
        sections_view(sections@) == parse_config(raw@),
{
    let cs = chars_of(raw);
    let ranges = line_ranges(&cs);
    let ghost lines = text_lines(cs@);
    let mut grouped: Vec<JjConfigSection> = Vec::new();
    let mut current_name = String::new();
    let mut current_entries: Vec<JjConfigEntry> = Vec::new();
    let n = ranges.len();
    for k in 0..n
        invariant
            n == ranges@.len(),
            n == lines.len(),
            lines == text_lines(cs@),
            cs@ == raw@,
            forall|j: int| 0 <= j < n ==> #[trigger] ranges@[j].0 <= ranges@[j].1 <= cs@.len(),
            forall|j: int|
                0 <= j < n ==> #[trigger] lines[j] == cs@.subrange(
                    ranges@[j].0 as int,
                    ranges@[j].1 as int,
                ),
            current_entries@.len() == 0 ==> {
                &&& config_lines(lines.take(k as int)).len() == 0
                &&& grouped@.len() == 0
                &&& current_name@ == Seq::<char>::empty()
            },
            current_entries@.len() > 0 ==> group_sections(config_lines(lines.take(k as int)))
                == sections_view(grouped@).push((current_name@, entries_view(current_entries@))),
    {
        let (lo, hi) = ranges[k];
        let ghost es = config_lines(lines.take(k as int));
        proof {
            assert(lines.take(k + 1).drop_last() =~= lines.take(k as int));
            assert(lines.take(k + 1).last() == cs@.subrange(lo as int, hi as int));
        }
        match parse_line(&cs, lo, hi) {
            None => {
                assert(config_lines(lines.take(k + 1)) == es);
            },
            Some((section, key, value)) => {
                let ghost e = (section@, key@, value@);
                let ghost old_grouped = sections_view(grouped@);
                let ghost old_name = current_name@;
                let ghost old_entries = entries_view(current_entries@);
                assert(es.push(e).drop_last() =~= es);
                if !(section == current_name) {
                    if current_entries.len() > 0 {
                        let finished = JjConfigSection { name: current_name, entries: current_entries };
                        grouped.push(finished);
                        assert(sections_view(grouped@) =~= old_grouped.push((old_name, old_entries)));
                        current_entries = Vec::new();
                    }
                    current_name = section;
                }
                let entry = JjConfigEntry { key, value };
                let ghost before = current_entries@;
                current_entries.push(entry);
                assert(entries_view(current_entries@) =~= entries_view(before).push(
                    (key@, value@),
                ));
                proof {
                    assert(config_lines(lines.take(k + 1)) == es.push(e));
                    if old_entries.len() > 0 && old_name == e.0 {
                        assert(group_sections(es.push(e)) =~= old_grouped.push(
                            (old_name, old_entries.push((e.1, e.2))),
                        ));
                    } else if old_entries.len() > 0 {
                        assert(group_sections(es.push(e)) =~= old_grouped.push(
                            (old_name, old_entries),
                        ).push((e.0, seq![(e.1, e.2)])));
                    } else {
                        assert(es.len() == 0);
                        assert(group_sections(es) =~= Seq::<SectionModel>::empty());
                        assert(group_sections(es.push(e)) =~= seq![(e.0, seq![(e.1, e.2)])]);
                    }
                    assert(entries_view(current_entries@) =~= if old_entries.len() > 0 && old_name == e.0 { old_entries.push((e.1, e.2)) } else { seq![(e.1, e.2)] });
                }
            },
        }
    }
    assert(lines.take(n as int) =~= lines);
    if current_entries.len() > 0 {
        let ghost old_grouped = sections_view(grouped@);
        let last = JjConfigSection { name: current_name, entries: current_entries };
        grouped.push(last);
        assert(sections_view(grouped@) =~= old_grouped.push(last@));
    }
    grouped
}

/// Grouping keeps every setting, in order, under its own section name; no
/// section is empty, and neighbouring sections have different names.
pub proof fn law_grouping_keeps_settings(settings: Seq<ConfigLine>)
    ensures
        flatten_sections(group_sections(settings)) == settings,
        forall|i: int|
            0 <= i < group_sections(settings).len() ==> #[trigger] group_sections(
                settings,
            )[i].1.len() > 0,
        forall|i: int|
            0 < i < group_sections(settings).len() ==> #[trigger] group_sections(settings)[i].0
                != group_sections(settings)[i - 1].0,
    decreases settings.len(),
{
    if settings.len() > 0 {
        let rest = settings.drop_last();
        let g = group_sections(rest);
        let e = settings.last();
        law_grouping_keeps_settings(rest);
        assert(rest.push(e) =~= settings);
        if g.len() > 0 && g.last().0 == e.0 {
            let s = g.last();
            let g2 = g.update(g.len() - 1, (e.0, s.1.push((e.1, e.2))));
            assert(g2.drop_last() =~= g.drop_last());
            assert(s.1.push((e.1, e.2)).map_values(|kv: EntryModel| (e.0, kv.0, kv.1))
                =~= s.1.map_values(|kv: EntryModel| (s.0, kv.0, kv.1)).push(e));
            assert(flatten_sections(g2) =~= flatten_sections(g) + seq![e]);
            assert(forall|i: int| 0 <= i < g.len() - 1 ==> g2[i] == g[i]);
        } else {
            let g2 = g.push((e.0, seq![(e.1, e.2)]));
            assert(g2.drop_last() =~= g);
            assert(seq![(e.1, e.2)].map_values(|kv: EntryModel| (e.0, kv.0, kv.1)) =~= seq![e]);
            assert(forall|i: int| 0 <= i < g.len() ==> g2[i] == g[i]);
        }
        assert(rest + seq![e] =~= settings);
    }
}

/// Whether `line` states a setting: it has a `=`.
pub open spec fn has_setting(line: Seq<char>) -> bool {
    find_char(line, '=') is Some
}

/// The lines of `lines` that state settings, in order.
pub open spec fn setting_lines(lines: Seq<Seq<char>>) -> Seq<Seq<char>> {
    lines.filter(|l: Seq<char>| has_setting(l))
}

/// Dropping the lines that state no setting keeps every setting.
proof fn lemma_settings_of_setting_lines(lines: Seq<Seq<char>>)
    ensures
        config_lines(setting_lines(lines)) == config_lines(lines),
    decreases lines.len(),
{
    reveal(Seq::filter);
    if lines.len() > 0 {
        let f = setting_lines(lines);
        let g = setting_lines(lines.drop_last());
        lemma_settings_of_setting_lines(lines.drop_last());
        if has_setting(lines.last()) {
            assert(f == g.push(lines.last()));
            assert(f.drop_last() =~= g);
        } else {
            assert(f == g);
        }
    }
}

/// Lines without a `=` are ignored and do not split a run of settings: the
/// sections are those of the lines that state settings alone.
pub proof fn law_lines_without_settings_are_ignored(lines: Seq<Seq<char>>)
    ensures
        group_sections(config_lines(lines)) == group_sections(
            config_lines(setting_lines(lines)),
        ),
{
    lemma_settings_of_setting_lines(lines);
}

/// Lines none of which holds a `=` state no setting.
proof fn lemma_no_settings(lines: Seq<Seq<char>>)
    requires
        forall|i: int| 0 <= i < lines.len() ==> !has_setting(#[trigger] lines[i]),
    ensures
        config_lines(lines) == Seq::<ConfigLine>::empty(),
    decreases lines.len(),
{
    if lines.len() > 0 {
        assert(!has_setting(lines[lines.len() - 1]));
        assert forall|i: int| 0 <= i < lines.len() - 1 implies !has_setting(#[trigger] lines.drop_last()[i]) by {
            assert(lines.drop_last()[i] == lines[i]);
        }
        lemma_no_settings(lines.drop_last());
    }
}

/// Output none of whose lines holds a `=` has no sections; empty output in
/// particular.
pub proof fn law_output_without_settings_is_empty(raw: Seq<char>)
    requires
        forall|i: int| 0 <= i < text_lines(raw).len() ==> !has_setting(#[trigger] text_lines(raw)[i]),
    ensures
        parse_config(raw) == Seq::<SectionModel>::empty(),
{
    lemma_no_settings(text_lines(raw));
    assert(group_sections(Seq::<ConfigLine>::empty()) == Seq::<SectionModel>::empty());
}

/// A `'\r'` at the end of a line changes nothing of its setting.
proof fn lemma_config_line_strip_cr(line: Seq<char>)
    ensures
        config_line(strip_cr(line)) == config_line(line),
{
    if line.len() > 0 && line.last() == '\r' {
        let m = line.drop_last();
        assert(m.push('\r') =~= line);
        lemma_find_char(m, '=');
        match find_char(m, '=') {
            Some(i) => {
                assert(line[i] == m[i]);
                assert forall|j: int| 0 <= j < i implies line[j] != '=' by {
                    assert(line[j] == m[j]);
                }
                lemma_find_char_at(line, '=', i);
                assert(line.take(i) =~= m.take(i));
                assert(line.skip(i + 1) =~= m.skip(i + 1).push('\r'));
                lemma_trim_push_cr(m.skip(i + 1));
            },
            None => {
                assert forall|j: int| 0 <= j < line.len() implies line[j] != '=' by {
                    if j < m.len() {
                        assert(line[j] == m[j]);
                    }
                }
                lemma_find_char_none(line, '=');
            },
        }
    }
}

/// The settings of two runs of lines are those of the first, then those of
/// the second.
proof fn lemma_config_lines_concat(a: Seq<Seq<char>>, b: Seq<Seq<char>>)
    ensures
        config_lines(a + b) == config_lines(a) + config_lines(b),
    decreases b.len(),
{
    if b.len() == 0 {
        assert(a + b =~= a);
        assert(config_lines(a) + config_lines(b) =~= config_lines(a));
    } else {
        assert((a + b).drop_last() =~= a + b.drop_last());
        assert((a + b).last() == b.last());
        lemma_config_lines_concat(a, b.drop_last());
        match config_line(b.last()) {
            Some(e) => {
                assert(config_lines(a) + config_lines(b.drop_last()).push(e) =~= (config_lines(a)
                    + config_lines(b.drop_last())).push(e));
            },
            None => {},
        }
    }
}

/// Lines without `'\n'`, joined with `'\n'` and split again, state the same
/// settings.
proof fn lemma_config_lines_of_join(lines: Seq<Seq<char>>)
    requires
        forall|i: int| 0 <= i < lines.len() ==> no_newline(#[trigger] lines[i]),
    ensures
        config_lines(text_lines(join_lines(lines))) == config_lines(lines),
    decreases lines.len(),
{
    if lines.len() == 1 {
        assert(no_newline(lines[0]));
        lemma_text_lines_single(lines[0]);
        if lines[0].len() == 0 {
            assert(config_lines(seq![lines[0]].drop_last()) == Seq::<ConfigLine>::empty());
            assert(seq![lines[0]].drop_last() =~= Seq::<Seq<char>>::empty());
            assert(lines =~= seq![lines[0]]);
        } else {
            assert(lines =~= seq![lines[0]]);
        }
    } else if lines.len() > 1 {
        let first = lines[0];
        let rest = lines.drop_first();
        assert(no_newline(first));
        assert forall|i: int| 0 <= i < rest.len() implies no_newline(#[trigger] rest[i]) by {
            assert(rest[i] == lines[i + 1]);
        }
        lemma_config_lines_of_join(rest);
        lemma_text_lines_step(first, join_lines(rest));
        lemma_config_lines_concat(seq![strip_cr(first)], text_lines(join_lines(rest)));
        lemma_config_lines_concat(seq![first], rest);
        assert(seq![first] + rest =~= lines);
        lemma_config_line_strip_cr(first);
        assert(seq![strip_cr(first)].drop_last() =~= Seq::<Seq<char>>::empty());
        assert(seq![first].drop_last() =~= Seq::<Seq<char>>::empty());
    }
}

/// The lines that state settings hold no `'\n'` when all lines hold none.
proof fn lemma_setting_lines_no_newline(lines: Seq<Seq<char>>)
    requires
        forall|i: int| 0 <= i < lines.len() ==> no_newline(#[trigger] lines[i]),
    ensures
        forall|i: int|
            0 <= i < setting_lines(lines).len() ==> no_newline(
                #[trigger] setting_lines(lines)[i],
            ),
    decreases lines.len(),
{
    reveal(Seq::filter);
    if lines.len() > 0 {
        let pre = lines.drop_last();
        assert forall|i: int| 0 <= i < pre.len() implies no_newline(#[trigger] pre[i]) by {
            assert(pre[i] == lines[i]);
        }
        assert(no_newline(lines[lines.len() - 1]));
        lemma_setting_lines_no_newline(pre);
        let f = setting_lines(lines);
        let g = setting_lines(pre);
        if has_setting(lines.last()) {
            assert(f == g.push(lines.last()));
            assert forall|i: int| 0 <= i < f.len() implies no_newline(#[trigger] f[i]) by {
                if i < g.len() {
                    assert(f[i] == g[i]);
                }
            }
        } else {
            assert(f == g);
        }
    }
}

/// Keeping only the lines of `jj config list` output that hold a `=`, and
/// joining them with `'\n'`, gives output with the same sections.
pub proof fn law_output_of_setting_lines_has_same_sections(raw: Seq<char>)
    ensures
        parse_config(join_lines(setting_lines(text_lines(raw))))
            == parse_config(raw),
{
    let lines = text_lines(raw);
    let kept = setting_lines(lines);
    lemma_text_lines_no_newline(raw);
    lemma_setting_lines_no_newline(lines);
    lemma_config_lines_of_join(kept);
    lemma_settings_of_setting_lines(lines);
}

/// What a command printed, as the settings window keeps it: the trimmed
/// output of a command that succeeded, and nothing otherwise.
pub fn command_output_text(succeeded: bool, stdout: &str) -> (r: String)
    ensures
        r@ == if succeeded {
            trim(stdout@)
        } else {
            Seq::<char>::empty()
        },
{
    if !succeeded {
        return String::new();
    }
    let cs = chars_of(stdout);
    let (a, b) = trim_range(&cs, 0, cs.len());
    assert(cs@.subrange(0, cs@.len() as int) =~= cs@);
    string_of_range(&cs, a, b)
}

/// The command that reads the configuration: `jj` on the search path when
/// the status gives no path, the given path otherwise; none when `jj` is not
/// installed.
pub fn jj_config_binary(status: &CliStatus) -> (r: Option<String>)
    ensures
        match r {
            None => !status.is_installed,
            Some(b) => status.is_installed && b@ == if status.path@.len() == 0 {
                "jj"@
            } else {
                status.path@
            },
        },
{
    if !status.is_installed {
        None
    } else if status.path.as_str().is_empty() {
        Some("jj".to_owned())
    } else {
        Some(status.path.clone())
    }
}

/// The snapshot of the configuration: an error when `jj` is not installed,
/// and otherwise the configuration file's path (the output of
/// `jj config path --user`) with the sections of `jj config list` output.
pub fn jj_config_snapshot(status: &CliStatus, path_output: String, list_output: &str) -> (r:
    JjConfigSnapshot)
    ensures
        !status.is_installed ==> {
            &&& r.path@ == Seq::<char>::empty()
            &&& r.sections@.len() == 0
            &&& r.error matches Some(e) && e@ == "jj is not installed."@
        },
        status.is_installed ==> {
            &&& r.path@ == path_output@
            &&& sections_view(r.sections@) == parse_config(list_output@)
            &&& r.error is None
        },
{
    if !status.is_installed {
        return JjConfigSnapshot {
            path: String::new(),
            sections: Vec::new(),
            error: Some("jj is not installed.".to_owned()),
        };
    }
    JjConfigSnapshot {
        path: path_output,
        sections: parse_config_sections(list_output),
        error: None,
    }
}

/// A setting's row as the Jujutsu section shows it: the icon its key calls
/// for, the key and the value.
#[derive(Debug, PartialEq, Eq)]
pub struct ConfigRow {
    pub icon: Glyph,
    pub key: String,
    pub value: String,
}

/// A group of the Jujutsu section: the section's name over its settings.
#[derive(Debug, PartialEq, Eq)]
pub struct ShownSection {
    pub name: String,
    pub rows: Vec<ConfigRow>,
}

/// Whether `row` shows the setting `entry`.
pub open spec fn shows_entry(row: ConfigRow, entry: JjConfigEntry) -> bool {
    &&& row.key@ == entry.key@
    &&& row.value@ == entry.value@
    &&& row.icon == entry_glyph(entry.key@)
}

/// Whether `shown` shows the section `section`: its name, then one row per
/// setting, in order.
pub open spec fn shows_section(shown: ShownSection, section: JjConfigSection) -> bool {
    &&& shown.name@ == section.name@
    &&& shown.rows@.len() == section.entries@.len()
    &&& forall|j: int|
        0 <= j < shown.rows@.len() ==> shows_entry(#[trigger] shown.rows@[j], section.entries@[j])
}

/// Whether `shown` shows the sections `sections`, one group each, in order.
pub open spec fn shows_sections(shown: Seq<ShownSection>, sections: Seq<JjConfigSection>) -> bool {
    &&& shown.len() == sections.len()
    &&& forall|i: int| 0 <= i < shown.len() ==> shows_section(#[trigger] shown[i], sections[i])
}

/// What the Jujutsu section shows.
#[derive(Debug, PartialEq, Eq)]
pub enum JujutsuContent {
    /// A status line instead of settings.
    Message(String),
    /// The row of the configuration path, when there is a path, then the
    /// snapshot's sections.
    Config { path_row: Option<ConfigPathRow>, sections: Vec<ShownSection> },
}

/// The status line the Jujutsu section shows instead of settings, if any:
/// while loading, when nothing was loaded, or the snapshot's error.
pub open spec fn shown_message(snapshot: Option<&JjConfigSnapshot>, loading: bool) -> Option<
    Seq<char>,
> {
    if loading {
        Some("Loading jj config..."@)
    } else {
        match snapshot {
            None => Some("jj config has not been loaded."@),
            Some(s) => match s.error {
                Some(e) => Some(e@),
                None => None,
            },
        }
    }
}

/// Whether `c` is what the Jujutsu section shows under its title.
pub open spec fn is_jujutsu_content(c: JujutsuContent, snapshot: Option<&JjConfigSnapshot>, loading: bool) -> bool {
    match c {
        JujutsuContent::Message(m) => shown_message(snapshot, loading) == Some(m@),
        JujutsuContent::Config { path_row, sections } => {
            &&& shown_message(snapshot, loading) is None
            &&& (path_row is Some <==> snapshot.unwrap().path@.len() != 0)
            &&& path_row matches Some(r) ==> is_config_path_row(r, snapshot.unwrap().path@)
            &&& shows_sections(sections@, snapshot.unwrap().sections@)
        },
    }
}

/// The Jujutsu section: its title and what it shows.
#[derive(Debug, PartialEq, Eq)]
pub struct JujutsuSection {
    pub title: String,
    pub content: JujutsuContent,
}

/// What the Jujutsu section shows for a snapshot that may still be loading.
pub fn jujutsu_section(snapshot: Option<&JjConfigSnapshot>, loading: bool) -> (r: JujutsuSection)
    ensures
        r.title@ == "Jujutsu"@,
        is_jujutsu_content(r.content, snapshot, loading),
{
    let content = jujutsu_content(snapshot, loading);
    JujutsuSection { title: "Jujutsu".to_owned(), content }
}

/// The row of the setting `entry`.
fn config_row(entry: &JjConfigEntry) -> (r: ConfigRow)
    ensures
        shows_entry(r, *entry),
{
    ConfigRow { icon: entry_icon(entry.key.as_str()), key: entry.key.clone(), value: entry.value.clone() }
}

/// The group of the section `section`.
fn config_section(section: &JjConfigSection) -> (r: ShownSection)
    ensures
        shows_section(r, *section),
{
    let mut rows: Vec<ConfigRow> = Vec::new();
    let n = section.entries.len();
    for j in 0..n
        invariant
            n == section.entries@.len(),
            rows@.len() == j,
            forall|k: int| 0 <= k < j ==> shows_entry(#[trigger] rows@[k], section.entries@[k]),
    {
        rows.push(config_row(&section.entries[j]));
    }
    ShownSection { name: section.name.clone(), rows }
}

/// The groups of `sections`, in order.
fn config_sections(sections: &Vec<JjConfigSection>) -> (r: Vec<ShownSection>)
    ensures
        shows_sections(r@, sections@),
{
    let mut shown: Vec<ShownSection> = Vec::new();
    let n = sections.len();
    for i in 0..n
        invariant
            n == sections@.len(),
            shown@.len() == i,
            forall|k: int| 0 <= k < i ==> shows_section(#[trigger] shown@[k], sections@[k]),
    {
        shown.push(config_section(&sections[i]));
    }
    shown
}

/// What the Jujutsu section shows under its title.
fn jujutsu_content(snapshot: Option<&JjConfigSnapshot>, loading: bool) -> (r: JujutsuContent)
    ensures
        is_jujutsu_content(r, snapshot, loading),
{
    if loading {
        return JujutsuContent::Message("Loading jj config...".to_owned());
    }
    match snapshot {
        None => JujutsuContent::Message("jj config has not been loaded.".to_owned()),
        Some(s) => match &s.error {
            Some(e) => JujutsuContent::Message(e.clone()),
            None => {
                let path_row = if s.path.as_str().is_empty() {
                    None
                } else {
                    Some(config_path_row(s.path.as_str()))
                };
                JujutsuContent::Config { path_row, sections: config_sections(&s.sections) }
            },
        },
    }
}

/// The directory that contains `path`, by std's `Path::parent` (and
/// `to_str`). The contract claims what the documentation and the way `parent`
/// slices its argument give: an empty path has no parent, and a parent is a
/// beginning of the path. Which beginning depends on the platform's path
/// syntax and is left unsaid.
#[verifier::external_body]
fn path_parent(path: &str) -> (r: Option<String>)
    ensures
        path@.len() == 0 ==> r is None,
        r matches Some(p) ==> p@.len() <= path@.len() && p@ == path@.take(p@.len() as int),
{
    match std::path::Path::new(path).parent() {
        Some(p) => match p.to_str() {
            Some(s) => Some(s.to_owned()),
            None => None,
        },
        None => None,
    }
}

/// The directory an editor opens the configuration in: the file's parent,
/// or the current directory `.` when it has none.
pub fn working_directory(parent: Option<String>) -> (r: String)
    ensures
        r@ == match parent {
            Some(p) => p@,
            None => "."@,
        },
{
    match parent {
        Some(p) => p,
        None => ".".to_owned(),
    }
}

/// The row of the configuration file's path.
#[derive(Debug, PartialEq, Eq)]
pub struct ConfigPathRow {
    /// The path shown.
    pub path: String,
    /// The element id of the button that opens the file.
    pub open_id: String,
    /// The caption of the button that opens the file.
    pub open_label: String,
    /// Where the editor is started to open the file.
    pub working_directory: String,
    /// What is opened instead when no editor opens the file.
    pub fallback_url: String,
    /// The element id of the button that copies the path.
    pub copy_id: String,
    /// The icon of the button that copies the path.
    pub copy_icon: Glyph,
    /// What that button copies.
    pub copy_value: String,
}

/// Whether `r` is the row of the configuration file at `path`: the path, an
/// `Open` button whose editor starts in `.` or in a directory that begins the
/// path (`.` when the path is empty), a `file://` URL as fallback, and a
/// button that copies the path.
pub open spec fn is_config_path_row(r: ConfigPathRow, path: Seq<char>) -> bool {
    &&& r.path@ == path
    &&& r.open_id@ == "jj-config-open"@
    &&& r.open_label@ == "Open"@
    &&& r.fallback_url@ == "file://"@ + path
    &&& r.copy_id@ == "jj-config-copy-path"@
    &&& r.copy_icon == Glyph::Copy
    &&& r.copy_value@ == path
    &&& path.len() == 0 ==> r.working_directory@ == "."@
    &&& r.working_directory@ == "."@ || (r.working_directory@.len() <= path.len()
        && r.working_directory@ == path.take(r.working_directory@.len() as int))
}

/// The row of the configuration file at `path`; the editor starts in the
/// file's directory as `working_directory` gives it.
pub fn config_path_row(path: &str) -> (r: ConfigPathRow)
    ensures
        is_config_path_row(r, path@),
{
    let dir = working_directory(path_parent(path));
    ConfigPathRow {
        path: path.to_owned(),
        open_id: "jj-config-open".to_owned(),
        open_label: "Open".to_owned(),
        working_directory: dir,
        fallback_url: "file://".to_owned().concat(path),
        copy_id: "jj-config-copy-path".to_owned(),
        copy_icon: Glyph::Copy,
        copy_value: path.to_owned(),
    }
}

/// The icon of a setting, chosen by its key.
pub open spec fn entry_glyph(key: Seq<char>) -> Glyph {
    if key == "name"@ {
        Glyph::Info
    } else if key == "email"@ {
        Glyph::Tag
    } else if key == "hostname"@ {
        Glyph::Terminal
    } else if key == "username"@ {
        Glyph::Info
    } else if key == "backend"@ {
        Glyph::Package
    } else if key == "behavior"@ {
        Glyph::PencilCircle
    } else if key == "key"@ {
        Glyph::Gear
    } else if contains_seq(key, "command"@) {
        Glyph::Terminal
    } else if contains_seq(key, "pattern"@) {
        Glyph::Search
    } else if contains_seq(key, "sign"@) {
        Glyph::PencilCircle
    } else {
        Glyph::Gear
    }
}

/// The icon of a setting, chosen by its key.
pub fn entry_icon(key: &str) -> (g: Glyph)
    ensures
        g == entry_glyph(key@),
{
    if str_equals(key, "name") {
        Glyph::Info
    } else if str_equals(key, "email") {
        Glyph::Tag
    } else if str_equals(key, "hostname") {
        Glyph::Terminal
    } else if str_equals(key, "username") {
        Glyph::Info
    } else if str_equals(key, "backend") {
        Glyph::Package
    } else if str_equals(key, "behavior") {
        Glyph::PencilCircle
    } else if str_equals(key, "key") {
        Glyph::Gear
    } else if str_contains(key, "command") {
        Glyph::Terminal
    } else if str_contains(key, "pattern") {
        Glyph::Search
    } else if str_contains(key, "sign") {
        Glyph::PencilCircle
    } else {
        Glyph::Gear
    }
}

} // verus!
