use java_launcher::paths::Platform;
use java_launcher::release::{
    accepts_candidate, compatible_java_version, first_existing, read_release_version,
    release_file_paths, Compatibility,
};

#[test]
fn release_version_is_the_number_before_the_first_dot() {
    assert_eq!(read_release_version("JAVA_VERSION=\"17.0.2\"\n"), Some(17));
    assert_eq!(read_release_version("JAVA_VERSION=\"1.8.0_292\"\n"), Some(1));
    assert_eq!(read_release_version("JAVA_VERSION=21"), Some(21));
    assert_eq!(read_release_version("JAVA_VERSION=11.0.1"), Some(11));
}

#[test]
fn release_version_is_found_among_other_lines() {
    let text = "IMPLEMENTOR=\"Eclipse Adoptium\"\nIMPLEMENTOR_VERSION=\"Temurin-17.0.2+8\"\nJAVA_VERSION=\"17.0.2\"\nJAVA_VERSION_DATE=\"2022-01-18\"\nOS_ARCH=\"x86_64\"\n";
    assert_eq!(read_release_version(text), Some(17));
}

#[test]
fn release_version_with_windows_line_ends() {
    assert_eq!(read_release_version("OS_NAME=\"Windows\"\r\nJAVA_VERSION=\"11\"\r\nX=1\r\n"), Some(11));
}

#[test]
fn release_version_passes_over_unreadable_lines() {
    assert_eq!(read_release_version("JAVA_VERSION=abc\nJAVA_VERSION=\"9\"\n"), Some(9));
    assert_eq!(read_release_version("JAVA_VERSION=\nJAVA_VERSION=12\n"), Some(12));
}

#[test]
fn release_version_takes_the_first_readable_line() {
    assert_eq!(read_release_version("JAVA_VERSION=8\nJAVA_VERSION=17\n"), Some(8));
}

#[test]
fn release_without_version_declares_none() {
    assert_eq!(read_release_version(""), None);
    assert_eq!(read_release_version("\n\n"), None);
    assert_eq!(read_release_version("IMPLEMENTOR=\"x\"\n"), None);
    assert_eq!(read_release_version(" JAVA_VERSION=17\n"), None);
    assert_eq!(read_release_version("JAVA_VERSION_DATE=\"2022-01-18\"\n"), None);
    assert_eq!(read_release_version("JAVA_VERSION=\"seventeen\"\n"), None);
    assert_eq!(read_release_version("JAVA_VERSION= 17\n"), None);
    assert_eq!(read_release_version("JAVA_VERSION=99999999999\n"), None);
}

#[test]
fn release_value_ends_at_the_next_equals_sign() {
    assert_eq!(read_release_version("JAVA_VERSION=17=18\n"), Some(17));
    assert_eq!(read_release_version("JAVA_VERSION=\"\"\"17\"\"\n"), Some(17));
    assert_eq!(read_release_version("JAVA_VERSION=+17.1\n"), Some(17));
    assert_eq!(read_release_version("JAVA_VERSION=-3.1\n"), Some(-3));
}

#[test]
fn oracle_is_compatible_exactly_from_the_required_version_up() {
    for required in [0, 1, 8, 11, 17, 21, 40] {
        for declared in [1, 8, 11, 16, 17, 18, 21, 39, 40, 41] {
            let text = format!("JAVA_VERSION=\"{}.0.1\"\n", declared);
            let verdict = compatible_java_version(Some(text.as_str()), required);
            if declared >= required {
                assert_eq!(verdict, Compatibility::Compatible);
            } else {
                assert_eq!(verdict, Compatibility::Incompatible);
            }
        }
    }
}

#[test]
fn oracle_is_unknown_without_readable_metadata() {
    for required in [0, 8, 17] {
        assert_eq!(compatible_java_version(None, required), Compatibility::Unknown);
        assert_eq!(compatible_java_version(Some(""), required), Compatibility::Unknown);
        assert_eq!(
            compatible_java_version(Some("JAVA_VERSION=abc\n"), required),
            Compatibility::Unknown
        );
        assert_eq!(compatible_java_version(Some("OS=linux\n"), required), Compatibility::Unknown);
    }
}

#[test]
fn oracle_at_the_boundary() {
    assert_eq!(compatible_java_version(Some("JAVA_VERSION=17"), 17), Compatibility::Compatible);
    assert_eq!(compatible_java_version(Some("JAVA_VERSION=16"), 17), Compatibility::Incompatible);
    assert_eq!(compatible_java_version(Some("JAVA_VERSION=0"), 0), Compatibility::Compatible);
    assert_eq!(compatible_java_version(Some("JAVA_VERSION=-1"), 0), Compatibility::Incompatible);
}

#[test]
fn gate_lets_unknown_in_only_without_requirement() {
    assert!(accepts_candidate(Compatibility::Compatible, 0));
    assert!(accepts_candidate(Compatibility::Compatible, 17));
    assert!(accepts_candidate(Compatibility::Unknown, 0));
    assert!(!accepts_candidate(Compatibility::Unknown, 1));
    assert!(!accepts_candidate(Compatibility::Unknown, 17));
    assert!(!accepts_candidate(Compatibility::Incompatible, 0));
    assert!(!accepts_candidate(Compatibility::Incompatible, 17));
}

#[test]
fn release_file_is_sought_in_five_directories() {
    let paths = release_file_paths(Platform::Linux, "/usr/lib/jvm/jdk-17/lib/server/libjvm.so");
    assert_eq!(
        paths,
        vec![
            "/usr/lib/jvm/jdk-17/lib/server/release",
            "/usr/lib/jvm/jdk-17/lib/release",
            "/usr/lib/jvm/jdk-17/release",
            "/usr/lib/jvm/release",
            "/usr/lib/release",
        ]
    );
}

#[test]
fn release_file_search_ends_at_the_root() {
    assert_eq!(
        release_file_paths(Platform::Linux, "/opt/java/libjvm.so"),
        vec!["/opt/java/release", "/opt/release", "/release"]
    );
    assert_eq!(release_file_paths(Platform::Linux, "libjvm.so"), vec!["release"]);
    assert_eq!(release_file_paths(Platform::Linux, "/"), Vec::<String>::new());
    assert_eq!(release_file_paths(Platform::Linux, ""), Vec::<String>::new());
}

#[test]
fn release_file_search_on_windows() {
    assert_eq!(
        release_file_paths(Platform::Windows, "C:\\jdk\\bin\\server\\jvm.dll"),
        vec!["C:\\jdk\\bin\\server\\release", "C:\\jdk\\bin\\release", "C:\\jdk\\release", "C:\\release", "release"]
    );
}

#[test]
fn first_existing_place_is_the_nearest() {
    assert_eq!(first_existing(&vec![]), None);
    assert_eq!(first_existing(&vec![false, false, false]), None);
    assert_eq!(first_existing(&vec![true]), Some(0));
    assert_eq!(first_existing(&vec![false, true, true]), Some(1));
    assert_eq!(first_existing(&vec![false, false, false, false, true]), Some(4));
    assert_eq!(first_existing(&vec![true, false, true]), Some(0));
}
