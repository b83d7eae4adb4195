//! The launcher's configuration file: sections of `key=value` lines, in
//! which a key may stand more than once.

use vstd::prelude::*;
use crate::text::{
    append_str, chars_of, chars_views, find_from, find_last, index_from, last_index,
    lemma_views_push, lines_of, replace_chars, replaced, same_chars, split_lines, string_of,
    sub_chars, trim, trimmed, views,
};

verus! {

/// The entries of a configuration, one after the other: section, key and
/// value.
pub type ConfigLog = Seq<(Seq<char>, Seq<char>, Seq<char>)>;

/// One `key=value` line and the section that it stands in.
#[derive(Debug)]
pub struct ConfigEntry {
    pub section: String,
    pub key: String,
    pub value: String,
}

/// A configuration: its entries in the order of the file.
#[derive(Debug)]
pub struct JPackageLaunchConfig {
    pub entries: Vec<ConfigEntry>,
}

/// Why a configuration could not be read.
#[derive(Debug)]
pub enum ConfigError {
    /// This line opens a section and does not close it.
    InvalidLine(String),
}

/// The directories that a configuration may speak of by a token.
#[derive(Debug)]
pub struct ImageDirs {
    /// Stands for `$APPDIR`.
    pub app_dir: String,
    /// Stands for `$ROOTDIR`.
    pub root_dir: String,
    /// Stands for `$BINDIR`.
    pub bin_dir: String,
}

/// The entries as texts.
pub open spec fn entry_log(entries: Seq<ConfigEntry>) -> ConfigLog {
    entries.map_values(|e: ConfigEntry| (e.section@, e.key@, e.value@))
}

impl View for JPackageLaunchConfig {
    type V = ConfigLog;

    open spec fn view(&self) -> ConfigLog {
        entry_log(self.entries@)
    }
}

/// The values that `log` gives to `key` in `section`, in their order.
pub open spec fn values_of(log: ConfigLog, section: Seq<char>, key: Seq<char>) -> Seq<Seq<char>>
    decreases log.len(),
{
    if log.len() == 0 {
        Seq::empty()
    } else if log.last().0 == section && log.last().1 == key {
        values_of(log.drop_last(), section, key).push(log.last().2)
    } else {
        values_of(log.drop_last(), section, key)
    }
}

/// Whether `log` has an entry in `section`.
pub open spec fn has_section(log: ConfigLog, section: Seq<char>) -> bool {
    exists|i: int| 0 <= i < log.len() && (#[trigger] log[i]).0 == section
}

/// A line as it is read: without the white space around it, and with the
/// directories in place of their tokens.
pub open spec fn expanded(line: Seq<char>, app_dir: Seq<char>, root_dir: Seq<char>, bin_dir: Seq<
    char,
>) -> Seq<char> {
    replaced(
        replaced(replaced(trimmed(line), "$APPDIR"@, app_dir), "$ROOTDIR"@, root_dir),
        "$BINDIR"@,
        bin_dir,
    )
}

/// What is known in the middle of a configuration: the open section and the
/// entries so far.
pub struct ConfigScan {
    pub section: Seq<char>,
    pub entries: ConfigLog,
}

/// The state after one more line, given as it is read; none where the line
/// is invalid.
///
/// An empty line and one that begins with `#` or `;` count for nothing. A
/// line that begins with `[` opens the section whose name stands between
/// that bracket and the last `]` of the line, and is invalid without one.
/// Any other line with `=` is an entry of the open section: the key stands
/// before the first `=`, the value behind it, both without the white space
/// around them. A line without `=` counts for nothing.
pub open spec fn config_line(state: ConfigScan, line: Seq<char>) -> Option<ConfigScan> {
    let eq = index_from(line, 0, '=');
    if line.len() == 0 || line[0] == '#' || line[0] == ';' {
        Some(state)
    } else if line[0] == '[' {
        if last_index(line, ']') >= 1 {
            Some(ConfigScan { section: line.subrange(1, last_index(line, ']')), ..state })
        } else {
            None
        }
    } else if eq < line.len() {
        Some(
            ConfigScan {
                entries: state.entries.push(
                    (state.section, trimmed(line.take(eq)), trimmed(line.skip(eq + 1))),
                ),
                ..state
            },
        )
    } else {
        Some(state)
    }
}

/// The state after all of `lines`, or the first line that is invalid, as it
/// is read.
pub open spec fn config_lines(
    state: ConfigScan,
    lines: Seq<Seq<char>>,
    app_dir: Seq<char>,
    root_dir: Seq<char>,
    bin_dir: Seq<char>,
) -> Result<ConfigScan, Seq<char>>
    decreases lines.len(),
{
    if lines.len() == 0 {
        Ok(state)
    } else {
        let line = expanded(lines[0], app_dir, root_dir, bin_dir);
        match config_line(state, line) {
            Some(next) => config_lines(next, lines.drop_first(), app_dir, root_dir, bin_dir),
            None => Err(line),
        }
    }
}

/// The entries of the configuration with the content `text`, or its first
/// invalid line. Entries before the first section header stand in the
/// section `default`.
pub open spec fn config_of(text: Seq<char>, app_dir: Seq<char>, root_dir: Seq<char>, bin_dir: Seq<
    char,
>) -> Result<ConfigLog, Seq<char>> {
    match config_lines(
        ConfigScan { section: "default"@, entries: Seq::empty() },
        lines_of(text),
        app_dir,
        root_dir,
        bin_dir,
    ) {
        Ok(state) => Ok(state.entries),
        Err(line) => Err(line),
    }
}

fn push_entry(entries: &mut Vec<ConfigEntry>, section: String, key: String, value: String)
    ensures
        entry_log(final(entries)@) == entry_log(old(entries)@).push((section@, key@, value@)),
{
    let entry = ConfigEntry { section, key, value };
    proof {
        assert(entry_log(entries@.push(entry)) =~= entry_log(entries@).push(
            (entry.section@, entry.key@, entry.value@),
        ));
    }
    entries.push(entry);
}

fn expand(line: &Vec<char>, dirs: &ImageDirs) -> (out: Vec<char>)
    ensures
        out@ == expanded(line@, dirs.app_dir@, dirs.root_dir@, dirs.bin_dir@),
{
    let bare = trim(line);
    let a = replace_chars(&bare, &chars_of("$APPDIR"), &chars_of(dirs.app_dir.as_str()));
    let b = replace_chars(&a, &chars_of("$ROOTDIR"), &chars_of(dirs.root_dir.as_str()));
    replace_chars(&b, &chars_of("$BINDIR"), &chars_of(dirs.bin_dir.as_str()))
}

/// Reads the configuration with the content `text`. A line that opens a
/// section without closing it makes the whole configuration invalid; the
/// error carries the first such line.
pub fn parse_config(text: &str, dirs: &ImageDirs) -> (config: Result<
    JPackageLaunchConfig,
    ConfigError,
>)
    ensures
        match config_of(text@, dirs.app_dir@, dirs.root_dir@, dirs.bin_dir@) {
            Ok(log) => config matches Ok(c) && c@ == log,
            Err(line) => config matches Err(ConfigError::InvalidLine(l)) && l@ == line,
        },
{
    let lines = split_lines(text);
    let ghost all = chars_views(lines@);
    let mut entries: Vec<ConfigEntry> = Vec::new();
    let mut section: Vec<char> = chars_of("default");
    let mut i: usize = 0;
    proof {
        assert(entry_log(entries@) =~= Seq::empty());
        assert(all.skip(0) == all);
    }
    while i < lines.len()
        invariant
            i <= lines.len(),
            all == chars_views(lines@),
            all == lines_of(text@),
            config_lines(
                ConfigScan { section: section@, entries: entry_log(entries@) },
                all.skip(i as int),
                dirs.app_dir@,
                dirs.root_dir@,
                dirs.bin_dir@,
            ) == config_lines(
                ConfigScan { section: "default"@, entries: Seq::empty() },
                all,
                dirs.app_dir@,
                dirs.root_dir@,
                dirs.bin_dir@,
            ),
        decreases lines.len() - i,
    {
        proof {
            assert(all.skip(i as int)[0] == lines@[i as int]@);
            assert(all.skip(i as int).drop_first() == all.skip(i + 1));
        }
        let line = expand(&lines[i], dirs);
        if line.len() == 0 || line[0] == '#' || line[0] == ';' {
        } else if line[0] == '[' {
            match find_last(&line, ']') {
                Some(end) => {
                    section = sub_chars(&line, 1, end);
                },
                None => {
                    return Err(ConfigError::InvalidLine(string_of(&line)));
                },
            }
        } else {
            let eq = find_from(&line, 0, '=');
            if eq < line.len() {
                let key = trim(&sub_chars(&line, 0, eq));
                let value = trim(&sub_chars(&line, eq + 1, line.len()));
                proof {
                    assert(line@.subrange(0, eq as int) == line@.take(eq as int));
                    assert(line@.subrange(eq + 1, line.len() as int) == line@.skip(eq + 1));
                }
                push_entry(&mut entries, string_of(&section), string_of(&key), string_of(&value));
            }
        }
        i += 1;
    }
    Ok(JPackageLaunchConfig { entries })
}

/// The entries of `primary` with those of `secondary` behind them, but for
/// the entries of `secondary` that give a key a value that it has by then.
pub open spec fn merged(primary: ConfigLog, secondary: ConfigLog) -> ConfigLog
    decreases secondary.len(),
{
    if secondary.len() == 0 {
        primary
    } else {
        let before = merged(primary, secondary.drop_last());
        if before.contains(secondary.last()) {
            before
        } else {
            before.push(secondary.last())
        }
    }
}

/// A merged configuration begins with the entries of `primary`, in their
/// order; it holds every entry of `secondary`; and it holds nothing that
/// neither of the two holds.
pub proof fn lemma_merged_holds_both(primary: ConfigLog, secondary: ConfigLog)
    ensures
        primary.is_prefix_of(merged(primary, secondary)),
        forall|i: int|
            0 <= i < secondary.len() ==> merged(primary, secondary).contains(
                #[trigger] secondary[i],
            ),
        forall|i: int|
            0 <= i < merged(primary, secondary).len() ==> primary.contains(
                #[trigger] merged(primary, secondary)[i],
            ) || secondary.contains(merged(primary, secondary)[i]),
    decreases secondary.len(),
{
    let all = merged(primary, secondary);
    if secondary.len() == 0 {
        assert(primary.is_prefix_of(all));
    } else {
        let earlier = secondary.drop_last();
        let before = merged(primary, earlier);
        lemma_merged_holds_both(primary, earlier);
        assert forall|i: int| 0 <= i < secondary.len() implies all.contains(
            #[trigger] secondary[i],
        ) by {
            if i < earlier.len() {
                assert(earlier[i] == secondary[i]);
                let k = choose|k: int| 0 <= k < before.len() && before[k] == earlier[i];
                assert(all[k] == secondary[i]);
            } else if before.contains(secondary.last()) {
            } else {
                assert(all[before.len() as int] == secondary.last());
            }
        }
        assert forall|i: int| 0 <= i < all.len() implies primary.contains(#[trigger] all[i])
            || secondary.contains(all[i]) by {
            if i < before.len() {
                assert(all[i] == before[i]);
                if !primary.contains(before[i]) {
                    let k = choose|k: int| 0 <= k < earlier.len() && earlier[k] == before[i];
                    assert(secondary[k] == all[i]);
                }
            } else {
                assert(secondary[secondary.len() - 1] == all[i]);
            }
        }
    }
}

fn same_text(a: &String, b: &String) -> (eq: bool)
    ensures
        eq == (a@ == b@),
{
    let x = chars_of(a.as_str());
    let y = chars_of(b.as_str());
    same_chars(&x, &y)
}

fn holds_entry(entries: &Vec<ConfigEntry>, entry: &ConfigEntry) -> (b: bool)
    ensures
        b == entry_log(entries@).contains((entry.section@, entry.key@, entry.value@)),
{
    let ghost log = entry_log(entries@);
    let ghost wanted = (entry.section@, entry.key@, entry.value@);
    let mut i: usize = 0;
    while i < entries.len()
        invariant
            i <= entries.len(),
            log == entry_log(entries@),
            wanted == (entry.section@, entry.key@, entry.value@),
            forall|k: int| 0 <= k < i ==> log[k] != wanted,
        decreases entries.len() - i,
    {
        let e = &entries[i];
        if same_text(&e.section, &entry.section) && same_text(&e.key, &entry.key) && same_text(
            &e.value,
            &entry.value,
        ) {
            proof {
                assert(log[i as int] == wanted);
            }
            return true;
        }
        i += 1;
    }
    false
}

/// Lays `secondary` over `primary`: every key keeps the values that
/// `primary` gives it and gets those of `secondary` behind them, but for the
/// values that it has already.
pub fn merge_configs(primary: JPackageLaunchConfig, secondary: &JPackageLaunchConfig) -> (out:
    JPackageLaunchConfig)
    ensures
        out@ == merged(primary@, secondary@),
{
    let mut entries = primary.entries;
    let ghost first = entry_log(entries@);
    let ghost second = secondary@;
    let mut i: usize = 0;
    proof {
        assert(second.take(0) =~= Seq::empty());
    }
    while i < secondary.entries.len()
        invariant
            i <= secondary.entries.len(),
            second == secondary@,
            entry_log(entries@) == merged(first, second.take(i as int)),
        decreases secondary.entries.len() - i,
    {
        let e = &secondary.entries[i];
        proof {
            assert(second.take(i + 1).drop_last() == second.take(i as int));
            assert(second.take(i + 1).last() == (e.section@, e.key@, e.value@));
        }
        if !holds_entry(&entries, e) {
            push_entry(&mut entries, e.section.clone(), e.key.clone(), e.value.clone());
        }
        i += 1;
    }
    proof {
        assert(second.take(secondary.entries.len() as int) == second);
    }
    JPackageLaunchConfig { entries }
}

impl JPackageLaunchConfig {
    /// The values that the configuration gives to `key` in `section`, in
    /// their order.
    pub fn values(&self, section: &str, key: &str) -> (out: Vec<String>)
        ensures
            views(out@) == values_of(self@, section@, key@),
    {
        let s = chars_of(section);
        let k = chars_of(key);
        let ghost log = self@;
        let mut out: Vec<String> = Vec::new();
        let mut i: usize = 0;
        proof {
            assert(views(out@) =~= Seq::<Seq<char>>::empty());
            assert(log.take(0) =~= Seq::empty());
        }
        while i < self.entries.len()
            invariant
                i <= self.entries.len(),
                log == self@,
                s@ == section@,
                k@ == key@,
                views(out@) == values_of(log.take(i as int), section@, key@),
            decreases self.entries.len() - i,
        {
            let e = &self.entries[i];
            proof {
                assert(log.take(i + 1).drop_last() == log.take(i as int));
                assert(log.take(i + 1).last() == (e.section@, e.key@, e.value@));
            }
            if same_chars(&chars_of(e.section.as_str()), &s) && same_chars(
                &chars_of(e.key.as_str()),
                &k,
            ) {
                let value = e.value.clone();
                proof {
                    lemma_views_push(out@, value);
                }
                out.push(value);
            }
            i += 1;
        }
        proof {
            assert(log.take(self.entries.len() as int) == log);
        }
        out
    }

    /// Tells whether the configuration has an entry in `section`.
    pub fn has_section(&self, section: &str) -> (b: bool)
        ensures
            b == has_section(self@, section@),
    {
        let s = chars_of(section);
        let ghost log = self@;
        let mut i: usize = 0;
        while i < self.entries.len()
            invariant
                i <= self.entries.len(),
                log == self@,
                s@ == section@,
                forall|k: int| 0 <= k < i ==> (#[trigger] log[k]).0 != section@,
            decreases self.entries.len() - i,
        {
            if same_chars(&chars_of(self.entries[i].section.as_str()), &s) {
                proof {
                    assert(log[i as int].0 == section@);
                }
                return true;
            }
            i += 1;
        }
        false
    }
}

/// The text of the error.
pub open spec fn config_error_text(line: Seq<char>) -> Seq<char> {
    "Invalid config line: "@ + line
}

impl ConfigError {
    /// The error as a sentence.
    pub fn message(&self) -> (text: String)
        ensures
            text@ == (match self {
                ConfigError::InvalidLine(line) => config_error_text(line@),
            }),
    {
        match self {
            ConfigError::InvalidLine(line) => {
                let mut out = chars_of("Invalid config line: ");
                append_str(&mut out, line.as_str());
                string_of(&out)
            },
        }
    }
}

} // verus!
