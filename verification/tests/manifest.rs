use java_launcher::manifest::{parse_manifest, Manifest, ManifestError};

fn parsed(text: &str) -> Manifest {
    match parse_manifest(text) {
        Ok(m) => m,
        Err(e) => panic!("{}", e.message()),
    }
}

fn main_value(m: &Manifest, name: &str) -> Option<String> {
    m.section(None).and_then(|s| s.get(name).cloned())
}

#[test]
fn main_section_headers_are_read() {
    let m = parsed("Manifest-Version: 1.0\nMain-Class: com.example.Main\nClass-Path: a.jar b.jar\n");
    assert_eq!(main_value(&m, "Manifest-Version").as_deref(), Some("1.0"));
    assert_eq!(main_value(&m, "Main-Class").as_deref(), Some("com.example.Main"));
    assert_eq!(main_value(&m, "Class-Path").as_deref(), Some("a.jar b.jar"));
    assert_eq!(main_value(&m, "Missing"), None);
    assert_eq!(m.sections.len(), 1);
}

#[test]
fn continuation_lines_extend_the_value() {
    let m = parsed("Class-Path: one.jar two.j\n ar three.jar\n  four.jar\nMain-Class: M\n");
    assert_eq!(main_value(&m, "Class-Path").as_deref(), Some("one.jar two.jar three.jar four.jar"));
    assert_eq!(main_value(&m, "Main-Class").as_deref(), Some("M"));
}

#[test]
fn continuation_without_header_counts_for_nothing() {
    let m = parsed(" stray\nMain-Class: M\n");
    assert_eq!(main_value(&m, "Main-Class").as_deref(), Some("M"));
    assert_eq!(m.sections[0].headers.len(), 1);
}

#[test]
fn value_begins_behind_the_first_separator() {
    let m = parsed("Key: a: b\nOther:  x\n");
    assert_eq!(main_value(&m, "Key").as_deref(), Some("a: b"));
    assert_eq!(main_value(&m, "Other").as_deref(), Some(" x"));
}

#[test]
fn later_header_replaces_earlier() {
    let m = parsed("Main-Class: A\nMain-Class: B\n");
    assert_eq!(main_value(&m, "Main-Class").as_deref(), Some("B"));
}

#[test]
fn named_sections_are_kept_by_name() {
    let m = parsed("Main-Class: M\n\nName: com/example/\nSealed: true\n\nName: other/\nSealed: false\n");
    assert_eq!(main_value(&m, "Main-Class").as_deref(), Some("M"));
    let a = m.section(Some("com/example/")).expect("section");
    assert_eq!(a.get("Sealed").map(String::as_str), Some("true"));
    assert_eq!(a.get("Name"), None);
    let b = m.section(Some("other/")).expect("section");
    assert_eq!(b.get("Sealed").map(String::as_str), Some("false"));
    assert!(m.section(Some("missing/")).is_none());
    assert_eq!(m.sections.len(), 3);
}

#[test]
fn name_as_last_header_of_a_section_is_kept_at_a_blank_line() {
    let m = parsed("Name: solo/\n\n");
    let s = m.section(Some("solo/")).expect("section");
    assert_eq!(s.get("Name").map(String::as_str), Some("solo/"));
}

#[test]
fn second_blank_line_closes_an_empty_main_section() {
    let m = parsed("Main-Class: M\n\n\n");
    assert_eq!(m.sections.len(), 2);
    assert_eq!(main_value(&m, "Main-Class"), None);
}

#[test]
fn windows_line_ends_are_understood() {
    let m = parsed("Manifest-Version: 1.0\r\nMain-Class: M\r\n\r\n");
    assert_eq!(main_value(&m, "Main-Class").as_deref(), Some("M"));
}

#[test]
fn empty_manifest_has_no_section() {
    let m = parsed("");
    assert!(m.sections.is_empty());
    assert!(m.section(None).is_none());
}

#[test]
fn malformed_line_is_reported() {
    match parse_manifest("Main-Class: M\nthis is no header\nOther: x\nnor this\n") {
        Err(ManifestError::MalformedLine(line)) => assert_eq!(line, "this is no header"),
        Ok(_) => panic!("the manifest was accepted"),
    }
    match parse_manifest("Key:value\n") {
        Err(e) => assert_eq!(e.message(), "Malformed manifest line: 'Key:value'"),
        Ok(_) => panic!("the manifest was accepted"),
    }
    assert!(parse_manifest("Key:\n").is_err());
    assert!(parse_manifest("Key: \n").is_ok());
}
