//! The `release` file of a Java installation: where it lies, which version
//! it declares, and whether that version meets a requirement.

use vstd::prelude::*;
use crate::decimal::{i32_of, parse_i32};
use crate::paths::{ancestor_of, join_chars, join_of, parent_chars, Platform};
use crate::text::{
    chars_of, chars_views, lemma_views_push, lines_of, split_lines, starts_with, string_of,
    sub_chars, take_up_to, up_to, views,
};

verus! {

/// How many directories above the one that holds the library are searched
/// for the `release` file.
pub const MAX_RELEASE_HOPS: usize = 4;

/// `s` without the run of `c` at its start.
pub open spec fn without_leading(s: Seq<char>, c: char) -> Seq<char>
    decreases s.len(),
{
    if s.len() > 0 && s[0] == c {
        without_leading(s.drop_first(), c)
    } else {
        s
    }
}

/// `s` without the run of `c` at its end.
pub open spec fn without_trailing(s: Seq<char>, c: char) -> Seq<char>
    decreases s.len(),
{
    if s.len() > 0 && s.last() == c {
        without_trailing(s.drop_last(), c)
    } else {
        s
    }
}

/// The major version that one line declares. The line must begin with
/// `JAVA_VERSION=`. Its value is what follows, up to the next `=`, without
/// the double quotes around it; the major version is the value up to its
/// first `.`, read as a 32-bit integer.
pub open spec fn version_in_line(line: Seq<char>) -> Option<i32> {
    if "JAVA_VERSION="@.is_prefix_of(line) {
        let field = up_to(line.skip("JAVA_VERSION="@.len() as int), '=');
        let value = without_trailing(without_leading(field, '"'), '"');
        i32_of(up_to(value, '.'))
    } else {
        None
    }
}

/// The major version that the first of `lines` that declares one gives;
/// lines that declare nothing readable are passed over.
pub open spec fn first_version(lines: Seq<Seq<char>>) -> Option<i32>
    decreases lines.len(),
{
    if lines.len() == 0 {
        None
    } else {
        match version_in_line(lines[0]) {
            Some(v) => Some(v),
            None => first_version(lines.drop_first()),
        }
    }
}

/// The major version that a `release` file with the content `text` declares.
pub open spec fn release_version(text: Seq<char>) -> Option<i32> {
    first_version(lines_of(text))
}

/// The major version known of an installation: none where no `release` file
/// was found, else what the file declares.
pub open spec fn declared_version(release: Option<Seq<char>>) -> Option<i32> {
    match release {
        Some(text) => release_version(text),
        None => None,
    }
}

/// The places where the `release` file of the installation that holds the
/// library `jvm_path` may lie, nearest first: the file `release` in each of
/// the first `levels` directories above the library, as far as they exist.
pub open spec fn release_search_paths(platform: Platform, jvm_path: Seq<char>, levels: nat) -> Seq<
    Seq<char>,
>
    decreases levels,
{
    if levels == 0 {
        Seq::empty()
    } else {
        let nearer = release_search_paths(platform, jvm_path, (levels - 1) as nat);
        match ancestor_of(platform, jvm_path, levels) {
            Some(dir) => nearer.push(join_of(platform, dir, "release"@)),
            None => nearer,
        }
    }
}

/// The places to look for the `release` file of the installation that holds
/// the library `jvm_path`, nearest first: the directory of the library, then
/// up to four directories above it.
pub fn release_file_paths(platform: Platform, jvm_path: &str) -> (paths: Vec<String>)
    ensures
        views(paths@) == release_search_paths(
            platform,
            jvm_path@,
            (MAX_RELEASE_HOPS + 1) as nat,
        ),
{
    let name = chars_of("release");
    let mut paths: Vec<String> = Vec::new();
    let mut current = chars_of(jvm_path);
    let mut level: usize = 0;
    proof {
        assert(views(paths@) =~= Seq::<Seq<char>>::empty());
    }
    while level <= MAX_RELEASE_HOPS
        invariant
            level <= MAX_RELEASE_HOPS + 1,
            name@ == "release"@,
            ancestor_of(platform, jvm_path@, level as nat) == Some(current@),
            views(paths@) == release_search_paths(platform, jvm_path@, level as nat),
        decreases MAX_RELEASE_HOPS + 1 - level,
    {
        match parent_chars(platform, &current) {
            Some(dir) => {
                let file = string_of(&join_chars(platform, &dir, &name));
                proof {
                    lemma_views_push(paths@, file);
                }
                paths.push(file);
                current = dir;
            },
            None => {
                proof {
                    lemma_search_ends(
                        platform,
                        jvm_path@,
                        (level + 1) as nat,
                        (MAX_RELEASE_HOPS + 1) as nat,
                    );
                }
                return paths;
            },
        }
        level += 1;
    }
    paths
}

/// Where a path has no ancestor `low` levels up, the search list is the
/// same for every number of levels from `low - 1` on.
pub proof fn lemma_search_ends(platform: Platform, jvm_path: Seq<char>, low: nat, high: nat)
    requires
        1 <= low <= high,
        ancestor_of(platform, jvm_path, low) is None,
    ensures
        release_search_paths(platform, jvm_path, high) == release_search_paths(
            platform,
            jvm_path,
            (low - 1) as nat,
        ),
    decreases high,
{
    if low < high {
        lemma_search_ends(platform, jvm_path, low, (high - 1) as nat);
        crate::paths::lemma_no_ancestor_beyond(platform, jvm_path, low, high);
    }
}

/// Picks the place whose `release` file is read: the first that exists.
/// `present` tells of each place, nearest first, whether a file lies there.
pub fn first_existing(present: &Vec<bool>) -> (at: Option<usize>)
    ensures
        match at {
            Some(i) => i < present@.len() && present@[i as int] && forall|j: int|
                0 <= j < i ==> !present@[j],
            None => forall|j: int| 0 <= j < present@.len() ==> !present@[j],
        },
{
    let mut i: usize = 0;
    while i < present.len()
        invariant
            i <= present.len(),
            forall|j: int| 0 <= j < i ==> !present@[j],
        decreases present.len() - i,
    {
        if present[i] {
            return Some(i);
        }
        i += 1;
    }
    None
}

/// The search looks at no more places than the levels that it may climb.
pub proof fn lemma_search_is_bounded(platform: Platform, jvm_path: Seq<char>, levels: nat)
    ensures
        release_search_paths(platform, jvm_path, levels).len() <= levels,
    decreases levels,
{
    if levels > 0 {
        lemma_search_is_bounded(platform, jvm_path, (levels - 1) as nat);
    }
}

/// What the release information says of an installation, held against a
/// required major version.
#[derive(Debug, Clone, Copy, PartialEq, Eq)]
pub enum Compatibility {
    /// The installation declares a version that is high enough.
    Compatible,
    /// The installation declares a version that is too low.
    Incompatible,
    /// No version could be read.
    Unknown,
}

/// The verdict on an installation that declares `declared`, where `required`
/// is asked for.
pub open spec fn verdict(declared: Option<i32>, required: i32) -> Compatibility {
    match declared {
        Some(found) => if found >= required {
            Compatibility::Compatible
        } else {
            Compatibility::Incompatible
        },
        None => Compatibility::Unknown,
    }
}

/// Whether a candidate with the verdict `c` may be started where `required`
/// is asked for: a compatible one always, one of unknown version only where
/// nothing is required.
pub open spec fn passes_gate(c: Compatibility, required: i32) -> bool {
    c is Compatible || (c is Unknown && required == 0)
}

fn trim_both(s: &Vec<char>, c: char) -> (out: Vec<char>)
    ensures
        out@ == without_trailing(without_leading(s@, c), c),
{
    let mut lo: usize = 0;
    proof {
        assert(s@.skip(0) == s@);
    }
    while lo < s.len() && s[lo] == c
        invariant
            lo <= s.len(),
            without_leading(s@.skip(lo as int), c) == without_leading(s@, c),
        decreases s.len() - lo,
    {
        proof {
            assert(s@.skip(lo as int).drop_first() == s@.skip(lo + 1));
        }
        lo += 1;
    }
    let mut hi: usize = s.len();
    proof {
        assert(s@.subrange(lo as int, hi as int) == s@.skip(lo as int));
        assert(without_leading(s@, c) == s@.skip(lo as int));
    }
    while hi > lo && s[hi - 1] == c
        invariant
            lo <= hi <= s.len(),
            without_leading(s@, c) == s@.skip(lo as int),
            without_trailing(s@.subrange(lo as int, hi as int), c) == without_trailing(
                s@.skip(lo as int),
                c,
            ),
        decreases hi,
    {
        proof {
            assert(s@.subrange(lo as int, hi as int).drop_last() == s@.subrange(
                lo as int,
                hi - 1,
            ));
        }
        hi -= 1;
    }
    sub_chars(s, lo, hi)
}

fn line_version(line: &Vec<char>) -> (version: Option<i32>)
    ensures
        version == version_in_line(line@),
{
    let key = chars_of("JAVA_VERSION=");
    if !starts_with(line, &key) {
        return None;
    }
    let rest = sub_chars(line, key.len(), line.len());
    proof {
        assert(line@.subrange(key.len() as int, line.len() as int) == line@.skip(
            key.len() as int,
        ));
    }
    let field = take_up_to(&rest, '=');
    let value = trim_both(&field, '"');
    let major = take_up_to(&value, '.');
    parse_i32(&major)
}

/// Reads the major version that a `release` file with the content `text`
/// declares.
pub fn read_release_version(text: &str) -> (version: Option<i32>)
    ensures
        version == release_version(text@),
{
    let lines = split_lines(text);
    let ghost all = chars_views(lines@);
    let mut i: usize = 0;
    proof {
        assert(all.skip(0) == all);
    }
    while i < lines.len()
        invariant
            i <= lines.len(),
            all == chars_views(lines@),
            all == lines_of(text@),
            first_version(all.skip(i as int)) == first_version(all),
        decreases lines.len() - i,
    {
        proof {
            assert(all.skip(i as int)[0] == lines@[i as int]@);
            assert(all.skip(i as int).drop_first() == all.skip(i + 1));
        }
        match line_version(&lines[i]) {
            Some(v) => {
                return Some(v);
            },
            None => {},
        }
        i += 1;
    }
    None
}

/// Judges an installation against the major version `req_ver`. `release` is
/// the content of its `release` file, or `None` where it has none that could
/// be read. The answer is `Compatible` where the file declares a version of
/// at least `req_ver`, `Incompatible` where it declares a lower one, and
/// `Unknown` where it declares none.
pub fn compatible_java_version(release: Option<&str>, req_ver: i32) -> (c: Compatibility)
    ensures
        c == verdict(
            declared_version(
                match release {
                    Some(text) => Some(text@),
                    None => None,
                },
            ),
            req_ver,
        ),
{
    match release {
        None => Compatibility::Unknown,
        Some(text) => match read_release_version(text) {
            Some(found) => if found >= req_ver {
                Compatibility::Compatible
            } else {
                Compatibility::Incompatible
            },
            None => Compatibility::Unknown,
        },
    }
}

/// Tells whether a candidate with the verdict `c` may be started where the
/// major version `required` is asked for, 0 standing for no requirement.
pub fn accepts_candidate(c: Compatibility, required: u16) -> (ok: bool)
    ensures
        ok == passes_gate(c, required as i32),
{
    match c {
        Compatibility::Compatible => true,
        Compatibility::Unknown => required == 0,
        Compatibility::Incompatible => false,
    }
}

/// The verdict is `Compatible` exactly where a version is declared and is at
/// least the required one, `Unknown` exactly where none is declared, and
/// `Incompatible` in every other case.
pub proof fn lemma_verdict(declared: Option<i32>, required: i32)
    ensures
        verdict(declared, required) is Compatible <==> (declared matches Some(w) && w >= required),
        verdict(declared, required) is Unknown <==> declared is None,
        verdict(declared, required) is Incompatible <==> (declared matches Some(w) && w
            < required),
{
}

/// An installation of unknown version is let in only where nothing is
/// required, and one that is too old never is.
pub proof fn lemma_gate(declared: Option<i32>, required: i32)
    ensures
        passes_gate(verdict(declared, required), required) <==> ((declared matches Some(w) && w
            >= required) || (declared is None && required == 0)),
{
}

} // verus!
