use java_launcher::class_file::{
    class_file_name, get_java_version_of_main, internal_class_name, is_settled,
    read_class_version_to_java, ClasspathProbe,
};

fn header(major: u16) -> Vec<u8> {
    let m = major.to_be_bytes();
    vec![0xCA, 0xFE, 0xBA, 0xBE, 0x00, 0x00, m[0], m[1]]
}

#[test]
fn major_44_is_no_class() {
    assert_eq!(read_class_version_to_java(&header(44)), None);
}

#[test]
fn major_45_is_java_1() {
    assert_eq!(read_class_version_to_java(&header(45)), Some(1));
}

#[test]
fn major_61_is_java_17() {
    assert_eq!(read_class_version_to_java(&header(61)), Some(17));
}

#[test]
fn major_52_is_java_8() {
    assert_eq!(read_class_version_to_java(&header(52)), Some(8));
}

#[test]
fn highest_major_is_mapped_without_overflow() {
    assert_eq!(read_class_version_to_java(&header(u16::MAX)), Some(u16::MAX - 44));
}

#[test]
fn major_field_is_read_high_byte_first() {
    let bytes = [0xCA, 0xFE, 0xBA, 0xBE, 0xFF, 0xFF, 0x01, 0x00];
    assert_eq!(read_class_version_to_java(&bytes), Some(256 - 44));
}

#[test]
fn wrong_magic_gives_none_whatever_follows() {
    for first in [0x00u8, 0xCB, 0xFF] {
        let mut bytes = header(61);
        bytes[0] = first;
        assert_eq!(read_class_version_to_java(&bytes), None);
    }
    for at in 1..4 {
        let mut bytes = header(61);
        bytes[at] ^= 0x01;
        assert_eq!(read_class_version_to_java(&bytes), None);
    }
    assert_eq!(read_class_version_to_java(&[0xBE, 0xBA, 0xFE, 0xCA, 0, 0, 0, 61]), None);
}

#[test]
fn short_header_gives_none() {
    assert_eq!(read_class_version_to_java(&[]), None);
    assert_eq!(read_class_version_to_java(&[0xCA, 0xFE, 0xBA, 0xBE]), None);
    assert_eq!(read_class_version_to_java(&header(61)[..7]), None);
}

#[test]
fn bytes_after_the_header_do_not_count() {
    let mut bytes = header(55);
    bytes.extend_from_slice(&[1, 2, 3, 4, 5]);
    assert_eq!(read_class_version_to_java(&bytes), Some(11));
}

#[test]
fn reading_the_same_header_twice_gives_the_same() {
    let bytes = header(61);
    let first = read_class_version_to_java(&bytes);
    let second = read_class_version_to_java(&bytes);
    assert_eq!(first, second);
    let broken = [1u8, 2, 3, 4, 5, 6, 7, 8];
    assert_eq!(read_class_version_to_java(&broken), read_class_version_to_java(&broken));
}

#[test]
fn class_file_name_follows_the_packages() {
    assert_eq!(class_file_name("com.example.Main"), "com/example/Main.class");
    assert_eq!(class_file_name("Main"), "Main.class");
    assert_eq!(class_file_name(""), ".class");
}

#[test]
fn internal_class_name_uses_slashes() {
    assert_eq!(internal_class_name("com.example.Main"), "com/example/Main");
    assert_eq!(internal_class_name("a..b"), "a//b");
    assert_eq!(internal_class_name("Main"), "Main");
}

#[test]
fn version_of_main_takes_the_first_artifact() {
    let main = Some("com.example.Main".to_string());
    let probes = vec![
        ClasspathProbe::Absent,
        ClasspathProbe::Artifact(header(52)),
        ClasspathProbe::Artifact(header(61)),
    ];
    assert_eq!(get_java_version_of_main(&main, &probes), Some(8));
}

#[test]
fn version_of_main_stops_at_an_unreadable_artifact() {
    let main = Some("com.example.Main".to_string());
    let probes = vec![
        ClasspathProbe::Artifact(vec![0xCA, 0xFE]),
        ClasspathProbe::Artifact(header(61)),
    ];
    assert_eq!(get_java_version_of_main(&main, &probes), None);
}

#[test]
fn version_of_main_without_main_class_or_artifact() {
    let probes = vec![ClasspathProbe::Artifact(header(61))];
    assert_eq!(get_java_version_of_main(&None, &probes), None);
    let main = Some("Main".to_string());
    assert_eq!(get_java_version_of_main(&main, &vec![]), None);
    assert_eq!(
        get_java_version_of_main(&main, &vec![ClasspathProbe::Absent, ClasspathProbe::Absent]),
        None
    );
}

#[test]
fn probes_are_settled_by_the_first_artifact() {
    assert!(!is_settled(&vec![]));
    assert!(!is_settled(&vec![ClasspathProbe::Absent, ClasspathProbe::Absent]));
    assert!(is_settled(&vec![ClasspathProbe::Absent, ClasspathProbe::Artifact(vec![])]));
    let main = Some("Main".to_string());
    let short = vec![ClasspathProbe::Absent, ClasspathProbe::Artifact(header(55))];
    let long = vec![
        ClasspathProbe::Absent,
        ClasspathProbe::Artifact(header(55)),
        ClasspathProbe::Artifact(header(61)),
        ClasspathProbe::Absent,
    ];
    assert_eq!(get_java_version_of_main(&main, &short), Some(11));
    assert_eq!(get_java_version_of_main(&main, &long), Some(11));
}
