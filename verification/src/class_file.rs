//! The header of a compiled Java class, and the Java release that the class
//! was compiled for.

use vstd::prelude::*;
use crate::text::{append_str, chars_of, string_of};

verus! {

/// Number of header bytes that tell the class-file version.
pub const CLASS_HEADER_LEN: usize = 8;

/// The lowest major version that a class file can carry.
pub const FIRST_CLASS_MAJOR: u16 = 45;

/// Whether `header` begins with the four bytes `CA FE BA BE`.
pub open spec fn has_class_magic(header: Seq<u8>) -> bool {
    &&& header.len() >= 4
    &&& header[0] == 0xCA
    &&& header[1] == 0xFE
    &&& header[2] == 0xBA
    &&& header[3] == 0xBE
}

/// The major version in bytes 6 and 7 of `header`, high byte first.
pub open spec fn class_major(header: Seq<u8>) -> int {
    header[6] as int * 256 + header[7] as int
}

/// The Java release that a class with this header needs: the major version
/// less 44, for a header of at least eight bytes that begins with the magic
/// number and has a major version of 45 or more. `None` for any other bytes.
pub open spec fn java_version_of_header(header: Seq<u8>) -> Option<u16> {
    if header.len() >= CLASS_HEADER_LEN && has_class_magic(header) && class_major(header)
        >= FIRST_CLASS_MAJOR {
        Some((class_major(header) - 44) as u16)
    } else {
        None
    }
}

/// Reads the Java release that a class needs from the first bytes of its
/// file. Fewer than eight bytes, a wrong magic number or a major version
/// under 45 give `None`.
pub fn read_class_version_to_java(header: &[u8]) -> (version: Option<u16>)
    ensures
        version == java_version_of_header(header@),
{
    if header.len() < CLASS_HEADER_LEN {
        return None;
    }
    if header[0] != 0xCA || header[1] != 0xFE || header[2] != 0xBA || header[3] != 0xBE {
        return None;
    }
    let high: u16 = header[6] as u16;
    let low: u16 = header[7] as u16;
    let major: u16 = high * 256 + low;
    if major >= FIRST_CLASS_MAJOR {
        Some(major - 44)
    } else {
        None
    }
}

/// Bytes that do not begin with the magic number give no version, whatever
/// follows them.
pub proof fn lemma_wrong_magic_gives_none(header: Seq<u8>)
    requires
        !has_class_magic(header),
    ensures
        java_version_of_header(header) is None,
{
}

/// The version depends on the first eight bytes alone: two byte sequences
/// that agree on them give the same answer, and reading the same bytes again
/// gives the same answer again.
pub proof fn lemma_version_depends_on_header_only(a: Seq<u8>, b: Seq<u8>)
    requires
        a.len() >= CLASS_HEADER_LEN,
        b.len() >= CLASS_HEADER_LEN,
        a.take(CLASS_HEADER_LEN as int) == b.take(CLASS_HEADER_LEN as int),
    ensures
        java_version_of_header(a) == java_version_of_header(b),
        java_version_of_header(a) == java_version_of_header(a.take(CLASS_HEADER_LEN as int)),
{
    let n = CLASS_HEADER_LEN as int;
    assert forall|i: int| 0 <= i < n implies a[i] == b[i] by {
        assert(a.take(n)[i] == b.take(n)[i]);
    }
    assert forall|i: int| 0 <= i < n implies a[i] == a.take(n)[i] by {}
}

/// A header with the magic number and major version `major` of 45 or more
/// gives the release `major - 44`, and one with a lower major version gives
/// none.
pub proof fn lemma_major_version_mapping(header: Seq<u8>)
    requires
        header.len() >= CLASS_HEADER_LEN,
        has_class_magic(header),
    ensures
        class_major(header) >= 45 ==> java_version_of_header(header) == Some(
            (class_major(header) - 44) as u16,
        ),
        class_major(header) < 45 ==> java_version_of_header(header) is None,
{
}

/// `name` with every `.` turned into `/`.
pub open spec fn dots_to_slashes(name: Seq<char>) -> Seq<char> {
    Seq::new(
        name.len(),
        |i: int|
            if name[i] == '.' {
                '/'
            } else {
                name[i]
            },
    )
}

/// The name under which the virtual machine knows the class `main_class`:
/// the dotted name with `/` for each `.`.
pub fn internal_class_name(main_class: &str) -> (name: String)
    ensures
        name@ == dots_to_slashes(main_class@),
{
    let chars = chars_of(main_class);
    let out = slashed(&chars);
    string_of(&out)
}

fn slashed(chars: &Vec<char>) -> (out: Vec<char>)
    ensures
        out@ == dots_to_slashes(chars@),
{
    let mut out: Vec<char> = Vec::new();
    let mut i: usize = 0;
    while i < chars.len()
        invariant
            i <= chars.len(),
            out@ == dots_to_slashes(chars@).take(i as int),
        decreases chars.len() - i,
    {
        let c = chars[i];
        out.push(
            if c == '.' {
                '/'
            } else {
                c
            },
        );
        proof {
            let all = dots_to_slashes(chars@);
            assert(all.take(i + 1) == all.take(i as int).push(all[i as int]));
        }
        i += 1;
    }
    proof {
        let all = dots_to_slashes(chars@);
        assert(all.take(chars.len() as int) == all);
    }
    out
}

/// The path of the compiled class `main_class` below a classpath entry.
pub open spec fn class_file_path(main_class: Seq<char>) -> Seq<char> {
    dots_to_slashes(main_class) + ".class"@
}

/// The path of the compiled class `main_class` below a classpath entry:
/// `/` for each `.` of the dotted name, then `.class`.
pub fn class_file_name(main_class: &str) -> (path: String)
    ensures
        path@ == class_file_path(main_class@),
{
    let chars = chars_of(main_class);
    let mut out = slashed(&chars);
    append_str(&mut out, ".class");
    string_of(&out)
}

/// What the search for the entry point under one classpath entry gave.
#[derive(Debug)]
pub enum ClasspathProbe {
    /// The entry does not exist, or holds no such class.
    Absent,
    /// The entry holds the class; these are the bytes read from its start,
    /// eight at most.
    Artifact(Vec<u8>),
}

/// The index of the first probe that found a class, or the number of probes
/// where none did.
pub open spec fn first_artifact(probes: Seq<ClasspathProbe>) -> int
    decreases probes.len(),
{
    if probes.len() == 0 {
        0
    } else if probes[0] is Artifact {
        0
    } else {
        1 + first_artifact(probes.drop_first())
    }
}

/// The Java release that the entry point needs, as far as the classpath
/// tells: with no entry point named there is none; otherwise the first
/// classpath entry that holds the class decides, by its header, and the
/// entries after it are not looked at.
pub open spec fn java_version_of_main(has_main: bool, probes: Seq<ClasspathProbe>) -> Option<u16> {
    let at = first_artifact(probes);
    if has_main && at < probes.len() {
        java_version_of_header(probes[at]->Artifact_0@)
    } else {
        None
    }
}

/// `first_artifact` is the least index of a probe that found a class.
pub proof fn lemma_first_artifact(probes: Seq<ClasspathProbe>)
    ensures
        0 <= first_artifact(probes) <= probes.len(),
        first_artifact(probes) < probes.len() ==> probes[first_artifact(probes)] is Artifact,
        forall|i: int| 0 <= i < first_artifact(probes) ==> #[trigger] probes[i] is Absent,
    decreases probes.len(),
{
    if probes.len() > 0 && !(probes[0] is Artifact) {
        let rest = probes.drop_first();
        lemma_first_artifact(rest);
        assert forall|i: int| 0 <= i < first_artifact(probes) implies #[trigger] probes[i]
            is Absent by {
            if i > 0 {
                assert(probes[i] == rest[i - 1]);
            }
        }
    }
}

/// Appending probes does not move the first artifact once there is one.
proof fn lemma_first_artifact_stays(probes: Seq<ClasspathProbe>, more: Seq<ClasspathProbe>)
    requires
        first_artifact(probes) < probes.len(),
    ensures
        first_artifact(probes + more) == first_artifact(probes),
    decreases probes.len(),
{
    let all = probes + more;
    assert(all[0] == probes[0]);
    if !(probes[0] is Artifact) {
        assert(all.drop_first() == probes.drop_first() + more);
        lemma_first_artifact_stays(probes.drop_first(), more);
    }
}

/// Once a classpath entry holds the class, the entries behind it do not
/// count: whatever is found under them, the answer stays the same.
pub proof fn lemma_later_probes_do_not_count(
    has_main: bool,
    probes: Seq<ClasspathProbe>,
    more: Seq<ClasspathProbe>,
)
    requires
        first_artifact(probes) < probes.len(),
    ensures
        java_version_of_main(has_main, probes + more) == java_version_of_main(has_main, probes),
{
    lemma_first_artifact(probes);
    lemma_first_artifact_stays(probes, more);
    assert((probes + more)[first_artifact(probes)] == probes[first_artifact(probes)]);
}

/// Tells whether one of the probes found the class, so that no further
/// classpath entry needs to be searched.
pub fn is_settled(probes: &Vec<ClasspathProbe>) -> (settled: bool)
    ensures
        settled == (first_artifact(probes@) < probes@.len()),
{
    let mut i: usize = 0;
    proof {
        assert(probes@.skip(0) == probes@);
    }
    while i < probes.len()
        invariant
            i <= probes.len(),
            first_artifact(probes@) == i + first_artifact(probes@.skip(i as int)),
        decreases probes.len() - i,
    {
        proof {
            assert(probes@.skip(i as int)[0] == probes@[i as int]);
            assert(probes@.skip(i as int).drop_first() == probes@.skip(i + 1));
        }
        match &probes[i] {
            ClasspathProbe::Artifact(_) => {
                return true;
            },
            ClasspathProbe::Absent => {},
        }
        i += 1;
    }
    proof {
        assert(probes@.skip(probes.len() as int).len() == 0);
    }
    false
}

/// The Java release that the entry point `main_class` needs. `probes` holds,
/// for each classpath entry in order, what the search for the class there
/// gave.
pub fn get_java_version_of_main(main_class: &Option<String>, probes: &Vec<ClasspathProbe>) -> (version:
    Option<u16>)
    ensures
        version == java_version_of_main(main_class is Some, probes@),
{
    if main_class.is_none() {
        return None;
    }
    let mut i: usize = 0;
    proof {
        assert(probes@.skip(0) == probes@);
    }
    while i < probes.len()
        invariant
            i <= probes.len(),
            main_class is Some,
            first_artifact(probes@) == i + first_artifact(probes@.skip(i as int)),
        decreases probes.len() - i,
    {
        let ghost rest = probes@.skip(i as int);
        proof {
            assert(rest[0] == probes@[i as int]);
            assert(rest.drop_first() == probes@.skip(i + 1));
        }
        match &probes[i] {
            ClasspathProbe::Artifact(header) => {
                return read_class_version_to_java(header.as_slice());
            },
            ClasspathProbe::Absent => {},
        }
        i += 1;
    }
    proof {
        assert(probes@.skip(probes.len() as int).len() == 0);
    }
    None
}

} // verus!
