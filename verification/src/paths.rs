//! File-system paths as text: separators, parents, joins and the layout of an
//! application image on each platform. Nothing here touches the file system.

use vstd::prelude::*;
use crate::text::{append_chars, chars_of, string_of, sub_chars};

verus! {

/// The platforms that the launcher runs on.
#[derive(Debug, Clone, Copy, PartialEq, Eq)]
pub enum Platform {
    Windows,
    MacOs,
    Linux,
}

/// Whether `c` parts the components of a path on `platform`: `/` everywhere,
/// and `\` on Windows too.
pub open spec fn is_separator(platform: Platform, c: char) -> bool {
    c == '/' || (platform is Windows && c == '\\')
}

/// The separator that `platform` writes between components.
pub open spec fn main_separator(platform: Platform) -> char {
    if platform is Windows {
        '\\'
    } else {
        '/'
    }
}

/// `path` without the separators at its end; a path of one character is left
/// as it is, so that the root stays the root.
pub open spec fn without_trailing_separators(platform: Platform, path: Seq<char>) -> Seq<char>
    decreases path.len(),
{
    if path.len() > 1 && is_separator(platform, path.last()) {
        without_trailing_separators(platform, path.drop_last())
    } else {
        path
    }
}

/// The index of the last separator in `path`, or -1 where it has none.
pub open spec fn last_separator(platform: Platform, path: Seq<char>) -> int
    decreases path.len(),
{
    if path.len() == 0 {
        -1
    } else if is_separator(platform, path.last()) {
        path.len() - 1
    } else {
        last_separator(platform, path.drop_last())
    }
}

/// The directory that holds `path`. The empty path and the root have none.
/// A path of one component has the empty path as its parent. Separators at
/// the end of `path`, and those that end the parent, do not count.
pub open spec fn parent_of(platform: Platform, path: Seq<char>) -> Option<Seq<char>> {
    let trimmed = without_trailing_separators(platform, path);
    if trimmed.len() == 0 || (trimmed.len() == 1 && is_separator(platform, trimmed[0])) {
        None
    } else {
        Some(
            without_trailing_separators(
                platform,
                trimmed.take(last_separator(platform, trimmed) + 1),
            ),
        )
    }
}

/// The ancestor of `path` that is `hops` levels up: `path` itself for 0.
pub open spec fn ancestor_of(platform: Platform, path: Seq<char>, hops: nat) -> Option<Seq<char>>
    decreases hops,
{
    if hops == 0 {
        Some(path)
    } else {
        match ancestor_of(platform, path, (hops - 1) as nat) {
            Some(p) => parent_of(platform, p),
            None => None,
        }
    }
}

/// `child` below `base`: an empty base, or one that ends in a separator,
/// takes the child as it is; any other base takes the platform's separator
/// first. A child that begins with a separator stands alone.
pub open spec fn join_of(platform: Platform, base: Seq<char>, child: Seq<char>) -> Seq<char> {
    if child.len() > 0 && is_separator(platform, child[0]) {
        child
    } else if base.len() == 0 || is_separator(platform, base.last()) {
        base + child
    } else {
        base.push(main_separator(platform)) + child
    }
}

/// Whether the last components of `path` are those of `suffix`: `path` ends
/// in the text of `suffix`, and that text is all of `path` or stands right
/// behind a separator.
pub open spec fn ends_with_components(platform: Platform, path: Seq<char>, suffix: Seq<char>) -> bool {
    &&& suffix.len() <= path.len()
    &&& path.skip(path.len() - suffix.len()) == suffix
    &&& (suffix.len() == path.len() || is_separator(
        platform,
        path[path.len() - suffix.len() - 1],
    ))
}

impl Platform {
    /// Tells whether `c` parts the components of a path.
    pub fn is_separator(self, c: char) -> (b: bool)
        ensures
            b == is_separator(self, c),
    {
        c == '/' || (matches!(self, Platform::Windows) && c == '\\')
    }

    /// The separator written between the components of a path.
    pub fn main_separator(self) -> (c: char)
        ensures
            c == main_separator(self),
    {
        match self {
            Platform::Windows => '\\',
            _ => '/',
        }
    }
}

fn trimmed_len(platform: Platform, path: &Vec<char>, len: usize) -> (n: usize)
    requires
        len <= path.len(),
    ensures
        n <= len,
        path@.take(n as int) == without_trailing_separators(platform, path@.take(len as int)),
{
    let mut n: usize = len;
    while n > 1 && platform.is_separator(path[n - 1])
        invariant
            n <= len <= path.len(),
            without_trailing_separators(platform, path@.take(n as int))
                == without_trailing_separators(platform, path@.take(len as int)),
        decreases n,
    {
        proof {
            assert(path@.take(n as int).drop_last() == path@.take(n - 1));
        }
        n -= 1;
    }
    n
}

fn last_separator_before(platform: Platform, path: &Vec<char>, len: usize) -> (at: Option<usize>)
    requires
        len <= path.len(),
    ensures
        match at {
            Some(i) => i < len && i == last_separator(platform, path@.take(len as int)),
            None => last_separator(platform, path@.take(len as int)) == -1,
        },
{
    let mut n: usize = len;
    while n > 0
        invariant
            n <= len <= path.len(),
            last_separator(platform, path@.take(n as int)) == last_separator(
                platform,
                path@.take(len as int),
            ),
        decreases n,
    {
        if platform.is_separator(path[n - 1]) {
            return Some(n - 1);
        }
        proof {
            assert(path@.take(n as int).drop_last() == path@.take(n - 1));
        }
        n -= 1;
    }
    None
}

/// The last component of `path`: what stands behind its last separator,
/// separators at the end of `path` not counted.
pub open spec fn file_name_of(platform: Platform, path: Seq<char>) -> Seq<char> {
    let trimmed = without_trailing_separators(platform, path);
    trimmed.skip(last_separator(platform, trimmed) + 1)
}

/// The last component of `path`, on character vectors.
pub fn file_name_chars(platform: Platform, path: &Vec<char>) -> (name: Vec<char>)
    ensures
        name@ == file_name_of(platform, path@),
{
    proof {
        assert(path@.take(path.len() as int) == path@);
    }
    let n = trimmed_len(platform, path, path.len());
    let from: usize = match last_separator_before(platform, path, n) {
        Some(i) => i + 1,
        None => 0,
    };
    let name = sub_chars(path, from, n);
    proof {
        assert(path@.subrange(from as int, n as int) == path@.take(n as int).skip(from as int));
    }
    name
}

/// The directory that holds `path`, on character vectors.
pub fn parent_chars(platform: Platform, path: &Vec<char>) -> (parent: Option<Vec<char>>)
    ensures
        parent is Some == parent_of(platform, path@) is Some,
        parent matches Some(p) ==> parent_of(platform, path@) == Some(p@),
{
    proof {
        assert(path@.take(path.len() as int) == path@);
    }
    let n = trimmed_len(platform, path, path.len());
    if n == 0 || (n == 1 && platform.is_separator(path[0])) {
        return None;
    }
    let cut: usize = match last_separator_before(platform, path, n) {
        Some(i) => i + 1,
        None => 0,
    };
    proof {
        assert(path@.take(n as int).take(cut as int) == path@.take(cut as int));
    }
    let m = trimmed_len(platform, path, cut);
    let out = sub_chars(path, 0, m);
    proof {
        assert(path@.subrange(0, m as int) == path@.take(m as int));
    }
    Some(out)
}

/// The directory that holds `path`; see [`parent_of`].
pub fn parent_path(platform: Platform, path: &str) -> (parent: Option<String>)
    ensures
        parent is Some == parent_of(platform, path@) is Some,
        parent matches Some(p) ==> parent_of(platform, path@) == Some(p@),
{
    let chars = chars_of(path);
    match parent_chars(platform, &chars) {
        Some(p) => Some(string_of(&p)),
        None => None,
    }
}

/// The ancestor of `path` that is `hops` levels up; see [`ancestor_of`].
pub fn ancestor_path(platform: Platform, path: &str, hops: usize) -> (ancestor: Option<String>)
    ensures
        ancestor is Some == ancestor_of(platform, path@, hops as nat) is Some,
        ancestor matches Some(p) ==> ancestor_of(platform, path@, hops as nat) == Some(p@),
{
    let mut current = chars_of(path);
    let mut done: usize = 0;
    while done < hops
        invariant
            done <= hops,
            ancestor_of(platform, path@, done as nat) == Some(current@),
        decreases hops - done,
    {
        match parent_chars(platform, &current) {
            Some(p) => {
                current = p;
            },
            None => {
                proof {
                    lemma_no_ancestor_beyond(platform, path@, (done + 1) as nat, hops as nat);
                }
                return None;
            },
        }
        done += 1;
    }
    Some(string_of(&current))
}

/// Once a path has no ancestor at some level, it has none further up.
pub proof fn lemma_no_ancestor_beyond(platform: Platform, path: Seq<char>, low: nat, high: nat)
    requires
        low <= high,
        ancestor_of(platform, path, low) is None,
    ensures
        ancestor_of(platform, path, high) is None,
    decreases high,
{
    if low < high {
        lemma_no_ancestor_beyond(platform, path, low, (high - 1) as nat);
    }
}

/// `child` below `base`, on character vectors.
pub fn join_chars(platform: Platform, base: &Vec<char>, child: &Vec<char>) -> (joined: Vec<char>)
    ensures
        joined@ == join_of(platform, base@, child@),
{
    let mut out: Vec<char> = Vec::new();
    if child.len() > 0 && platform.is_separator(child[0]) {
        append_chars(&mut out, child);
        return out;
    }
    append_chars(&mut out, base);
    if base.len() > 0 && !platform.is_separator(base[base.len() - 1]) {
        out.push(platform.main_separator());
    }
    append_chars(&mut out, child);
    out
}

/// `child` below `base`; see [`join_of`].
pub fn join_path(platform: Platform, base: &str, child: &str) -> (joined: String)
    ensures
        joined@ == join_of(platform, base@, child@),
{
    let b = chars_of(base);
    let c = chars_of(child);
    string_of(&join_chars(platform, &b, &c))
}

/// Tells whether the last components of `path` are those of `suffix`, on
/// character vectors.
pub fn chars_end_with(platform: Platform, path: &Vec<char>, suffix: &Vec<char>) -> (b: bool)
    ensures
        b == ends_with_components(platform, path@, suffix@),
{
    if suffix.len() > path.len() {
        return false;
    }
    let at: usize = path.len() - suffix.len();
    let same = crate::text::matches_at(path, at, suffix);
    proof {
        assert(path@.subrange(at as int, at + suffix.len()) == path@.skip(at as int));
    }
    same && (at == 0 || platform.is_separator(path[at - 1]))
}

/// Tells whether the last components of `path` are those of `suffix`; see
/// [`ends_with_components`].
pub fn path_ends_with(platform: Platform, path: &str, suffix: &str) -> (b: bool)
    ensures
        b == ends_with_components(platform, path@, suffix@),
{
    let p = chars_of(path);
    let s = chars_of(suffix);
    chars_end_with(platform, &p, &s)
}

/// Whether `name` is one component: not empty, and without a separator.
pub open spec fn is_component(platform: Platform, name: Seq<char>) -> bool {
    &&& name.len() > 0
    &&& forall|i: int| 0 <= i < name.len() ==> !is_separator(platform, #[trigger] name[i])
}

/// Behind a separator, a text without separators does not move the last
/// separator.
proof fn lemma_last_separator_before_component(
    platform: Platform,
    head: Seq<char>,
    name: Seq<char>,
)
    requires
        head.len() > 0,
        is_separator(platform, head.last()),
        forall|i: int| 0 <= i < name.len() ==> !is_separator(platform, #[trigger] name[i]),
    ensures
        last_separator(platform, head + name) == head.len() - 1,
    decreases name.len(),
{
    if name.len() == 0 {
        assert(head + name == head);
    } else {
        let whole = head + name;
        assert(whole.last() == name.last());
        assert(whole.drop_last() == head + name.drop_last());
        assert forall|i: int| 0 <= i < name.drop_last().len() implies !is_separator(
            platform,
            #[trigger] name.drop_last()[i],
        ) by {
            assert(name.drop_last()[i] == name[i]);
        }
        lemma_last_separator_before_component(platform, head, name.drop_last());
    }
}

/// The parent of a component joined to a directory is that directory: for
/// every directory that is written without separators at its end, the root
/// among them, and every single component.
pub proof fn lemma_parent_of_joined(platform: Platform, base: Seq<char>, name: Seq<char>)
    requires
        base.len() > 0,
        base.len() == 1 || !is_separator(platform, base.last()),
        is_component(platform, name),
    ensures
        parent_of(platform, join_of(platform, base, name)) == Some(base),
{
    let head = if is_separator(platform, base.last()) {
        base
    } else {
        base.push(main_separator(platform))
    };
    let joined = join_of(platform, base, name);
    assert(!is_separator(platform, name[0]));
    assert(joined == head + name);
    assert(joined.last() == name.last());
    assert(without_trailing_separators(platform, joined) == joined);
    lemma_last_separator_before_component(platform, head, name);
    assert(joined.take(head.len() as int) == head);
    if !is_separator(platform, base.last()) {
        assert(head.drop_last() == base);
        assert(without_trailing_separators(platform, base) == base);
    }
}

} // verus!
