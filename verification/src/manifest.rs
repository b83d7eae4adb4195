//! The manifest of a Java archive: its sections and their headers.

use vstd::prelude::*;
use crate::text::{
    append_chars, append_str, chars_of, chars_views, lines_of, same_chars, split_lines, string_of,
    sub_chars, text_of,
};

verus! {

/// The headers of a section as they were set, one after the other: name and
/// value. A later header replaces an earlier one of the same name.
pub type HeaderLog = Seq<(Seq<char>, Seq<char>)>;

/// The sections of a manifest as they were closed, one after the other: the
/// name, none for the main section, and the headers. A later section
/// replaces an earlier one of the same name.
pub type SectionLog = Seq<(Option<Seq<char>>, HeaderLog)>;

/// One header.
#[derive(Debug)]
pub struct Header {
    pub name: String,
    pub value: String,
}

/// One section: its name, none for the main section, and its headers in the
/// order in which they were set.
#[derive(Debug)]
pub struct ManifestSection {
    pub name: Option<String>,
    pub headers: Vec<Header>,
}

/// A manifest: its sections in the order in which they were closed.
#[derive(Debug)]
pub struct Manifest {
    pub sections: Vec<ManifestSection>,
}

/// Why a manifest could not be read.
#[derive(Debug)]
pub enum ManifestError {
    /// This line is no header, no continuation and not empty.
    MalformedLine(String),
}

/// The headers as names and values.
pub open spec fn header_log(headers: Seq<Header>) -> HeaderLog {
    headers.map_values(|h: Header| (h.name@, h.value@))
}

/// The sections as names and header logs.
pub open spec fn section_log(sections: Seq<ManifestSection>) -> SectionLog {
    sections.map_values(|s: ManifestSection| (text_of(s.name), header_log(s.headers@)))
}

impl View for Manifest {
    type V = SectionLog;

    open spec fn view(&self) -> SectionLog {
        section_log(self.sections@)
    }
}

/// The value that the headers give to `name`: that of the last header of
/// this name, none where there is no such header.
pub open spec fn header_value(log: HeaderLog, name: Seq<char>) -> Option<Seq<char>>
    decreases log.len(),
{
    if log.len() == 0 {
        None
    } else if log.last().0 == name {
        Some(log.last().1)
    } else {
        header_value(log.drop_last(), name)
    }
}

/// The headers of the section `name`: those of the last section of this
/// name, none where there is no such section.
pub open spec fn section_headers(log: SectionLog, name: Option<Seq<char>>) -> Option<HeaderLog>
    decreases log.len(),
{
    if log.len() == 0 {
        None
    } else if log.last().0 == name {
        Some(log.last().1)
    } else {
        section_headers(log.drop_last(), name)
    }
}

/// The headers as a map from names to values.
pub open spec fn header_map(log: HeaderLog) -> Map<Seq<char>, Seq<char>>
    decreases log.len(),
{
    if log.len() == 0 {
        Map::empty()
    } else {
        header_map(log.drop_last()).insert(log.last().0, log.last().1)
    }
}

/// Looking a header up in the log gives what the map of the headers holds.
pub proof fn lemma_header_value_is_map_entry(log: HeaderLog, name: Seq<char>)
    ensures
        header_value(log, name) is Some == header_map(log).contains_key(name),
        header_value(log, name) matches Some(v) ==> header_map(log)[name] == v,
    decreases log.len(),
{
    if log.len() > 0 {
        lemma_header_value_is_map_entry(log.drop_last(), name);
    }
}

/// The index of the first `: ` in `line` at or after `from`, or the length
/// of `line` where there is none.
pub open spec fn separator_from(line: Seq<char>, from: int) -> int
    decreases line.len() - from,
{
    if from + 1 >= line.len() {
        line.len() as int
    } else if line[from] == ':' && line[from + 1] == ' ' {
        from
    } else {
        separator_from(line, from + 1)
    }
}

/// What is known in the middle of a manifest.
pub struct ManifestScan {
    /// The sections that were closed.
    pub sections: SectionLog,
    /// The name of the open section.
    pub name: Option<Seq<char>>,
    /// The headers of the open section that are complete.
    pub headers: HeaderLog,
    /// The name of the header that is being read, where one is.
    pub key: Option<Seq<char>>,
    /// Its value so far.
    pub value: Seq<char>,
}

/// The headers of the open section with the header that is being read.
pub open spec fn with_pending(state: ManifestScan) -> HeaderLog {
    match state.key {
        Some(key) => state.headers.push((key, state.value)),
        None => state.headers,
    }
}

/// The state after one more line, or none where the line is malformed.
///
/// An empty line completes the header that is being read and closes the
/// section. A line that begins with a space continues the value of the
/// header that is being read, and counts for nothing where none is. Any
/// other line must hold `: `; it completes the header that is being read,
/// unless that is the header `Name`, and begins a new one, whose name stands
/// before the first `: ` and whose value stands behind it. A header `Name`
/// names the open section.
pub open spec fn scan_line(state: ManifestScan, line: Seq<char>) -> Option<ManifestScan> {
    let at = separator_from(line, 0);
    if line.len() == 0 {
        Some(
            ManifestScan {
                sections: state.sections.push((state.name, with_pending(state))),
                name: None,
                headers: Seq::empty(),
                key: None,
                value: Seq::empty(),
            },
        )
    } else if line[0] == ' ' {
        Some(
            ManifestScan {
                value: if state.key is Some {
                    state.value + line.skip(1)
                } else {
                    state.value
                },
                ..state
            },
        )
    } else if at < line.len() {
        let key = line.take(at);
        let value = line.skip(at + 2);
        Some(
            ManifestScan {
                sections: state.sections,
                name: if key == "Name"@ {
                    Some(value)
                } else {
                    state.name
                },
                headers: if state.key == Some("Name"@) {
                    state.headers
                } else {
                    with_pending(state)
                },
                key: Some(key),
                value,
            },
        )
    } else {
        None
    }
}

/// The state after all of `lines`, or the first line that is malformed.
pub open spec fn scan_lines(state: ManifestScan, lines: Seq<Seq<char>>) -> Result<
    ManifestScan,
    Seq<char>,
>
    decreases lines.len(),
{
    if lines.len() == 0 {
        Ok(state)
    } else {
        match scan_line(state, lines[0]) {
            Some(next) => scan_lines(next, lines.drop_first()),
            None => Err(lines[0]),
        }
    }
}

/// The sections at the end of the manifest: the open section is closed where
/// a header is being read or one is complete.
pub open spec fn scan_end(state: ManifestScan) -> SectionLog {
    if state.key is Some || state.headers.len() > 0 {
        state.sections.push((state.name, with_pending(state)))
    } else {
        state.sections
    }
}

/// The state before the first line.
pub open spec fn scan_start() -> ManifestScan {
    ManifestScan {
        sections: Seq::empty(),
        name: None,
        headers: Seq::empty(),
        key: None,
        value: Seq::empty(),
    }
}

/// The sections of the manifest with the content `text`, or its first
/// malformed line.
pub open spec fn manifest_of(text: Seq<char>) -> Result<SectionLog, Seq<char>> {
    match scan_lines(scan_start(), lines_of(text)) {
        Ok(state) => Ok(scan_end(state)),
        Err(line) => Err(line),
    }
}

/// What is known in the middle of a manifest, as it is held while reading.
struct Scanner {
    sections: Vec<ManifestSection>,
    name: Option<String>,
    headers: Vec<Header>,
    key: Option<String>,
    value: Vec<char>,
}

impl Scanner {
    spec fn view(&self) -> ManifestScan {
        ManifestScan {
            sections: section_log(self.sections@),
            name: text_of(self.name),
            headers: header_log(self.headers@),
            key: text_of(self.key),
            value: self.value@,
        }
    }
}

fn find_separator(line: &Vec<char>) -> (at: usize)
    ensures
        at == separator_from(line@, 0),
        at <= line.len(),
        at < line.len() ==> at + 2 <= line.len(),
{
    let mut i: usize = 0;
    while i < line.len() && i + 1 < line.len()
        invariant
            i <= line.len(),
            separator_from(line@, i as int) == separator_from(line@, 0),
        decreases line.len() - i,
    {
        if line[i] == ':' && line[i + 1] == ' ' {
            return i;
        }
        i += 1;
    }
    line.len()
}

fn push_header(headers: &mut Vec<Header>, name: String, value: String)
    ensures
        header_log(final(headers)@) == header_log(old(headers)@).push((name@, value@)),
{
    let header = Header { name, value };
    proof {
        assert(header_log(headers@.push(header)) =~= header_log(headers@).push(
            (header.name@, header.value@),
        ));
    }
    headers.push(header);
}

fn push_section(sections: &mut Vec<ManifestSection>, name: Option<String>, headers: Vec<Header>)
    ensures
        section_log(final(sections)@) == section_log(old(sections)@).push(
            (text_of(name), header_log(headers@)),
        ),
{
    let section = ManifestSection { name, headers };
    proof {
        assert(section_log(sections@.push(section)) =~= section_log(sections@).push(
            (text_of(section.name), header_log(section.headers@)),
        ));
    }
    sections.push(section);
}

fn is_name_header(key: &String) -> (b: bool)
    ensures
        b == (key@ == "Name"@),
{
    let a = chars_of(key.as_str());
    let n = chars_of("Name");
    same_chars(&a, &n)
}

fn scan(state: Scanner, line: &Vec<char>) -> (next: Option<Scanner>)
    ensures
        next is Some == scan_line(state@, line@) is Some,
        next matches Some(n) ==> scan_line(state@, line@) == Some(n@),
{
    let Scanner { mut sections, name, mut headers, key, mut value } = state;
    if line.len() == 0 {
        match key {
            Some(k) => {
                push_header(&mut headers, k, string_of(&value));
            },
            None => {},
        }
        push_section(&mut sections, name, headers);
        let fresh: Vec<Header> = Vec::new();
        proof {
            assert(header_log(fresh@) =~= Seq::empty());
        }
        return Some(
            Scanner { sections, name: None, headers: fresh, key: None, value: Vec::new() },
        );
    }
    if line[0] == ' ' {
        if key.is_some() {
            let rest = sub_chars(line, 1, line.len());
            proof {
                assert(line@.subrange(1, line.len() as int) == line@.skip(1));
            }
            append_chars(&mut value, &rest);
        }
        return Some(Scanner { sections, name, headers, key, value });
    }
    let at = find_separator(line);
    if at == line.len() {
        return None;
    }
    let new_key = string_of(&sub_chars(line, 0, at));
    let new_value = sub_chars(line, at + 2, line.len());
    proof {
        assert(line@.subrange(0, at as int) == line@.take(at as int));
        assert(line@.subrange(at + 2, line.len() as int) == line@.skip(at + 2));
    }
    match key {
        Some(k) => {
            if !is_name_header(&k) {
                push_header(&mut headers, k, string_of(&value));
            }
        },
        None => {},
    }
    let new_name = if is_name_header(&new_key) {
        Some(string_of(&new_value))
    } else {
        name
    };
    Some(Scanner { sections, name: new_name, headers, key: Some(new_key), value: new_value })
}

/// Reads the manifest with the content `text`. A line that is not empty,
/// does not begin with a space and holds no `: ` makes the whole manifest
/// malformed; the error carries the first such line.
pub fn parse_manifest(text: &str) -> (manifest: Result<Manifest, ManifestError>)
    ensures
        match manifest_of(text@) {
            Ok(sections) => manifest matches Ok(m) && m@ == sections,
            Err(line) => manifest matches Err(ManifestError::MalformedLine(l)) && l@ == line,
        },
{
    let lines = split_lines(text);
    let ghost all = chars_views(lines@);
    let sections: Vec<ManifestSection> = Vec::new();
    let headers: Vec<Header> = Vec::new();
    proof {
        assert(section_log(sections@) =~= Seq::empty());
        assert(header_log(headers@) =~= Seq::empty());
        assert(all.skip(0) == all);
    }
    let mut state = Scanner { sections, name: None, headers, key: None, value: Vec::new() };
    let mut i: usize = 0;
    while i < lines.len()
        invariant
            i <= lines.len(),
            all == chars_views(lines@),
            all == lines_of(text@),
            scan_lines(state@, all.skip(i as int)) == scan_lines(scan_start(), all),
        decreases lines.len() - i,
    {
        proof {
            assert(all.skip(i as int)[0] == lines@[i as int]@);
            assert(all.skip(i as int).drop_first() == all.skip(i + 1));
        }
        match scan(state, &lines[i]) {
            Some(next) => {
                state = next;
            },
            None => {
                return Err(ManifestError::MalformedLine(string_of(&lines[i])));
            },
        }
        i += 1;
    }
    let Scanner { mut sections, name, mut headers, key, value } = state;
    if key.is_some() || headers.len() > 0 {
        match key {
            Some(k) => {
                push_header(&mut headers, k, string_of(&value));
            },
            None => {},
        }
        push_section(&mut sections, name, headers);
    }
    Ok(Manifest { sections })
}

impl ManifestSection {
    /// The value of the header `name`, where the section has one.
    pub fn get(&self, name: &str) -> (value: Option<&String>)
        ensures
            value is Some == header_value(header_log(self.headers@), name@) is Some,
            value matches Some(v) ==> header_value(header_log(self.headers@), name@) == Some(v@),
    {
        let wanted = chars_of(name);
        let ghost log = header_log(self.headers@);
        let mut n: usize = self.headers.len();
        proof {
            assert(log.take(n as int) == log);
        }
        while n > 0
            invariant
                n <= self.headers.len(),
                log == header_log(self.headers@),
                wanted@ == name@,
                header_value(log.take(n as int), name@) == header_value(log, name@),
            decreases n,
        {
            let header = &self.headers[n - 1];
            proof {
                assert(log.take(n as int).last() == log[n - 1]);
                assert(log.take(n as int).drop_last() == log.take(n - 1));
            }
            let this = chars_of(header.name.as_str());
            if same_chars(&this, &wanted) {
                return Some(&header.value);
            }
            n -= 1;
        }
        None
    }
}

impl Manifest {
    /// The section `name`, where the manifest has one; `None` asks for the
    /// main section.
    pub fn section(&self, name: Option<&str>) -> (found: Option<&ManifestSection>)
        ensures
            found is Some == section_headers(
                self@,
                match name {
                    Some(n) => Some(n@),
                    None => None,
                },
            ) is Some,
            found matches Some(s) ==> section_headers(
                self@,
                match name {
                    Some(n) => Some(n@),
                    None => None,
                },
            ) == Some(header_log(s.headers@)),
    {
        let ghost log = self@;
        let ghost wanted: Option<Seq<char>> = match name {
            Some(n) => Some(n@),
            None => None,
        };
        let mut n: usize = self.sections.len();
        proof {
            assert(log.take(n as int) == log);
        }
        while n > 0
            invariant
                n <= self.sections.len(),
                log == self@,
                wanted == (match name {
                    Some(n) => Some(n@),
                    None => None,
                }),
                section_headers(log.take(n as int), wanted) == section_headers(log, wanted),
            decreases n,
        {
            let section = &self.sections[n - 1];
            proof {
                assert(log.take(n as int).last() == log[n - 1]);
                assert(log.take(n as int).drop_last() == log.take(n - 1));
            }
            let same = match (&section.name, name) {
                (Some(a), Some(b)) => {
                    let x = chars_of(a.as_str());
                    let y = chars_of(b);
                    same_chars(&x, &y)
                },
                (None, None) => true,
                _ => false,
            };
            if same {
                return Some(section);
            }
            n -= 1;
        }
        None
    }
}

/// The text of the error.
pub open spec fn manifest_error_text(line: Seq<char>) -> Seq<char> {
    "Malformed manifest line: '"@ + line + "'"@
}

impl ManifestError {
    /// The error as a sentence.
    pub fn message(&self) -> (text: String)
        ensures
            text@ == (match self {
                ManifestError::MalformedLine(line) => manifest_error_text(line@),
            }),
    {
        match self {
            ManifestError::MalformedLine(line) => {
                let mut out = chars_of("Malformed manifest line: '");
                append_str(&mut out, line.as_str());
                append_str(&mut out, "'");
                string_of(&out)
            },
        }
    }
}

} // verus!
