use java_launcher::app_image::{
    dynamic_library_lookup_loc, get_app_dir_path, get_app_image_root, get_default_runtime_path,
};
use java_launcher::paths::{ancestor_path, join_path, parent_path, path_ends_with, Platform};

fn some(s: &str) -> Option<String> {
    Some(s.to_string())
}

#[test]
fn parent_of_plain_paths() {
    assert_eq!(parent_path(Platform::Linux, "/a/b/c"), some("/a/b"));
    assert_eq!(parent_path(Platform::Linux, "/a"), some("/"));
    assert_eq!(parent_path(Platform::Linux, "a/b"), some("a"));
    assert_eq!(parent_path(Platform::Linux, "a"), some(""));
}

#[test]
fn parent_of_root_and_empty_is_none() {
    assert_eq!(parent_path(Platform::Linux, "/"), None);
    assert_eq!(parent_path(Platform::Linux, ""), None);
    assert_eq!(parent_path(Platform::Windows, "\\"), None);
    assert_eq!(parent_path(Platform::Linux, "///"), None);
}

#[test]
fn parent_passes_over_repeated_separators() {
    assert_eq!(parent_path(Platform::Linux, "/a/b/"), some("/a"));
    assert_eq!(parent_path(Platform::Linux, "/a//b"), some("/a"));
    assert_eq!(parent_path(Platform::Linux, "//b"), some("/"));
    assert_eq!(parent_path(Platform::Linux, "a/b///"), some("a"));
}

#[test]
fn backslash_parts_components_on_windows_only() {
    assert_eq!(parent_path(Platform::Windows, "C:\\a\\b"), some("C:\\a"));
    assert_eq!(parent_path(Platform::Windows, "C:/a/b"), some("C:/a"));
    assert_eq!(parent_path(Platform::Linux, "a\\b"), some(""));
    assert_eq!(parent_path(Platform::MacOs, "/x/a\\b"), some("/x"));
}

#[test]
fn ancestors_count_levels() {
    assert_eq!(ancestor_path(Platform::Linux, "/a/b/c", 0), some("/a/b/c"));
    assert_eq!(ancestor_path(Platform::Linux, "/a/b/c", 2), some("/a"));
    assert_eq!(ancestor_path(Platform::Linux, "/a/b/c", 3), some("/"));
    assert_eq!(ancestor_path(Platform::Linux, "/a/b/c", 4), None);
    assert_eq!(ancestor_path(Platform::Linux, "/a/b/c", 9), None);
}

#[test]
fn join_puts_one_separator_between() {
    assert_eq!(join_path(Platform::Linux, "/a", "b"), "/a/b");
    assert_eq!(join_path(Platform::Linux, "/a/", "b"), "/a/b");
    assert_eq!(join_path(Platform::Linux, "", "b"), "b");
    assert_eq!(join_path(Platform::Linux, "/", "b"), "/b");
    assert_eq!(join_path(Platform::Windows, "C:\\a", "b"), "C:\\a\\b");
    assert_eq!(join_path(Platform::Windows, "C:/a/", "b"), "C:/a/b");
    assert_eq!(join_path(Platform::Linux, "/a", ""), "/a/");
}

#[test]
fn join_with_a_rooted_child_gives_the_child() {
    assert_eq!(join_path(Platform::Linux, "/a", "/b"), "/b");
    assert_eq!(join_path(Platform::Windows, "C:\\a", "\\b"), "\\b");
    assert_eq!(join_path(Platform::Linux, "/a", "\\b"), "/a/\\b");
}

#[test]
fn path_ends_with_whole_components() {
    assert!(path_ends_with(Platform::Linux, "/jdk/lib/server/libjvm.so", "libjvm.so"));
    assert!(path_ends_with(Platform::Linux, "/jdk/lib/server/libjvm.so", "server/libjvm.so"));
    assert!(path_ends_with(Platform::Linux, "libjvm.so", "libjvm.so"));
    assert!(!path_ends_with(Platform::Linux, "/jdk/lib/server/xlibjvm.so", "libjvm.so"));
    assert!(!path_ends_with(Platform::Linux, "jvm.so", "libjvm.so"));
    assert!(!path_ends_with(Platform::Linux, "/jdk/libjvm.so/x", "libjvm.so"));
    assert!(path_ends_with(Platform::Windows, "C:\\jdk\\bin\\server\\jvm.dll", "jvm.dll"));
    assert!(!path_ends_with(Platform::Linux, "C:\\jdk\\bin\\server\\jvm.dll", "jvm.dll"));
}

#[test]
fn image_root_per_platform() {
    assert_eq!(get_app_image_root(Platform::Windows, "C:\\apps\\demo\\demo.exe"), some("C:\\apps\\demo"));
    assert_eq!(get_app_image_root(Platform::Linux, "/opt/demo/bin/demo"), some("/opt/demo"));
    assert_eq!(
        get_app_image_root(Platform::MacOs, "/Applications/Demo.app/Contents/MacOS/Demo"),
        some("/Applications/Demo.app")
    );
    assert_eq!(get_app_image_root(Platform::Linux, "/demo"), None);
    assert_eq!(get_app_image_root(Platform::MacOs, "/a/b"), None);
}

#[test]
fn app_dir_per_platform() {
    assert_eq!(get_app_dir_path(Platform::Windows, "C:\\apps\\demo"), "C:\\apps\\demo\\app");
    assert_eq!(get_app_dir_path(Platform::Linux, "/opt/demo"), "/opt/demo/lib/app");
    assert_eq!(
        get_app_dir_path(Platform::MacOs, "/Applications/Demo.app"),
        "/Applications/Demo.app/Contents/app"
    );
}

#[test]
fn default_runtime_per_platform() {
    assert_eq!(get_default_runtime_path(Platform::Windows, "C:\\apps\\demo"), "C:\\apps\\demo\\runtime");
    assert_eq!(get_default_runtime_path(Platform::Linux, "/opt/demo"), "/opt/demo/lib/runtime");
    assert_eq!(
        get_default_runtime_path(Platform::MacOs, "/Applications/Demo.app"),
        "/Applications/Demo.app/Contents/runtime"
    );
}

#[test]
fn library_lookup_dir_is_for_windows_only() {
    assert_eq!(
        dynamic_library_lookup_loc(Platform::Windows, "C:\\jdk\\bin\\server\\jvm.dll"),
        some("C:\\jdk\\bin")
    );
    assert_eq!(dynamic_library_lookup_loc(Platform::Windows, "jvm.dll"), None);
    assert_eq!(dynamic_library_lookup_loc(Platform::Linux, "/jdk/lib/server/libjvm.so"), None);
    assert_eq!(dynamic_library_lookup_loc(Platform::MacOs, "/jdk/lib/server/libjvm.dylib"), None);
}

#[test]
fn parent_agrees_with_the_standard_library_on_unix_paths() {
    if std::path::MAIN_SEPARATOR != '/' {
        return;
    }
    for path in [
        "/a/b/c", "/a", "a/b", "a", "/", "", "/a/b/", "/a//b", "//b", "a/b///", "/usr/lib/jvm/jdk-17/lib/server/libjvm.so",
        "relative/dir/file.txt", "///", "a/",
    ] {
        let expected = std::path::Path::new(path).parent().map(|p| p.to_path_buf());
        let found = parent_path(Platform::Linux, path).map(std::path::PathBuf::from);
        assert_eq!(found, expected);
    }
}

#[test]
fn join_agrees_with_the_standard_library_on_unix_paths() {
    if std::path::MAIN_SEPARATOR != '/' {
        return;
    }
    for (base, child) in [
        ("/a", "b"), ("/a/", "b"), ("", "b"), ("/", "b"), ("/a", "/b"), ("a/b", "c/d"), ("/opt/demo", "lib"),
        ("/opt/demo/lib", "app"), ("a", ""),
    ] {
        let expected = std::path::Path::new(base).join(child);
        assert_eq!(std::path::PathBuf::from(join_path(Platform::Linux, base, child)), expected);
    }
}

#[test]
fn ends_with_agrees_with_the_standard_library_on_unix_paths() {
    if std::path::MAIN_SEPARATOR != '/' {
        return;
    }
    for (path, suffix) in [
        ("/jdk/lib/server/libjvm.so", "libjvm.so"),
        ("/jdk/lib/server/libjvm.so", "server/libjvm.so"),
        ("/jdk/lib/server/xlibjvm.so", "libjvm.so"),
        ("libjvm.so", "libjvm.so"),
        ("jvm.so", "libjvm.so"),
        ("/a/b", "a/b"),
        ("/a/b", "/a/b"),
        ("/a/b", "b/a"),
        ("/cp/com/example/Main.class", "com/example/Main.class"),
    ] {
        let expected = std::path::Path::new(path).ends_with(suffix);
        assert_eq!(path_ends_with(Platform::Linux, path, suffix), expected);
    }
}
