use java_launcher::arguments::LaunchOpts;
use java_launcher::launch_config::LaunchConfig;
use java_launcher::paths::Platform;
use java_launcher::resolver::{
    find_file, get_jvm_paths, is_hidden, platform_profile, process_path, strategy_root,
    valid_path, Strategy, WalkEntry, MAX_SEARCH_DEPTH, MAX_STRATEGIES, RUNTIME_HOME_VARIABLE,
};

fn opts(runtime: Option<&str>, environment: bool, common: bool) -> LaunchOpts {
    LaunchOpts {
        config: LaunchConfig {
            main_class: Some("Main".to_string()),
            runtime: runtime.map(|s| s.to_string()),
            min_java: None,
            java_opts: vec![],
            classpath: vec!["app.jar".to_string()],
            program_opts: vec![],
            allow_environment_lookup: environment,
            allow_common_location_lookup: common,
            memory_fraction: None,
        },
        jvm_opts: vec![],
        program_opts: vec![],
    }
}

fn tags(strategies: &Vec<Strategy>) -> Vec<String> {
    strategies
        .iter()
        .map(|s| match s {
            Strategy::Explicit(p) => format!("explicit:{}", p),
            Strategy::WorkingDirectory => "cwd".to_string(),
            Strategy::Environment => "env".to_string(),
            Strategy::CommonLocation(q) => format!("common:{}", q),
        })
        .collect()
}

#[test]
fn constants_of_the_search() {
    assert_eq!(MAX_SEARCH_DEPTH, 5);
    assert_eq!(MAX_STRATEGIES, 4);
    assert_eq!(RUNTIME_HOME_VARIABLE, "JAVA_HOME");
}

#[test]
fn profile_names_the_library_of_each_platform() {
    assert_eq!(platform_profile(Platform::Windows).lib_name, "jvm.dll");
    assert_eq!(platform_profile(Platform::MacOs).lib_name, "libjvm.dylib");
    assert_eq!(platform_profile(Platform::Linux).lib_name, "libjvm.so");
    assert_eq!(platform_profile(Platform::Windows).path_separator, ';');
    assert_eq!(platform_profile(Platform::MacOs).path_separator, ':');
    assert_eq!(platform_profile(Platform::Linux).path_separator, ':');
}

#[test]
fn only_macos_parks_the_main_thread() {
    assert!(platform_profile(Platform::MacOs).park_main_thread);
    assert!(!platform_profile(Platform::Linux).park_main_thread);
    assert!(!platform_profile(Platform::Windows).park_main_thread);
}

#[test]
fn profile_lists_the_usual_directories() {
    assert_eq!(
        platform_profile(Platform::Linux).candidate_roots,
        vec!["$USER$/.gradle/jdks", "/usr/lib/jvm", "/usr/java", "/usr/local/java"]
    );
    assert_eq!(
        platform_profile(Platform::MacOs).candidate_roots,
        vec![
            "$USER$/.gradle/jdks",
            "/usr/lib/jvm",
            "/usr/java",
            "/usr/local/java",
            "/Library/Java/JavaVirtualMachines",
            "/System/Library/Java/JavaVirtualMachines",
        ]
    );
    let windows = platform_profile(Platform::Windows).candidate_roots;
    assert_eq!(windows.len(), 11);
    assert_eq!(windows[0], "$USER$/.gradle/jdks");
    assert_eq!(windows[1], "C:/Program Files/Java");
    assert_eq!(windows[10], "C:/Program Files/Azul Systems/Zulu");
}

#[test]
fn explicit_path_comes_first() {
    let profile = platform_profile(Platform::Linux);
    let strategies = get_jvm_paths(&opts(Some("/opt/app/runtime"), true, true), &profile);
    assert_eq!(
        tags(&strategies),
        vec!["explicit:/opt/app/runtime", "env", "common:$USER$/.gradle/jdks", "common:/usr/lib/jvm"]
    );
}

#[test]
fn working_directory_stands_in_for_a_missing_path() {
    let profile = platform_profile(Platform::Linux);
    let strategies = get_jvm_paths(&opts(None, true, true), &profile);
    assert_eq!(
        tags(&strategies),
        vec!["cwd", "env", "common:$USER$/.gradle/jdks", "common:/usr/lib/jvm"]
    );
}

#[test]
fn lookups_can_be_switched_off() {
    let profile = platform_profile(Platform::Linux);
    assert_eq!(tags(&get_jvm_paths(&opts(None, false, false), &profile)), vec!["cwd"]);
    assert_eq!(tags(&get_jvm_paths(&opts(None, true, false), &profile)), vec!["cwd", "env"]);
    assert_eq!(
        tags(&get_jvm_paths(&opts(Some("/r"), false, true), &profile)),
        vec!["explicit:/r", "common:$USER$/.gradle/jdks", "common:/usr/lib/jvm", "common:/usr/java"]
    );
}

#[test]
fn never_more_than_four_places() {
    for platform in [Platform::Windows, Platform::MacOs, Platform::Linux] {
        let profile = platform_profile(platform);
        for environment in [false, true] {
            for common in [false, true] {
                let n = get_jvm_paths(&opts(None, environment, common), &profile).len();
                assert!(1 <= n && n <= 4);
            }
        }
    }
}

#[test]
fn hidden_names_begin_with_a_dot() {
    assert!(is_hidden(".git"));
    assert!(is_hidden("."));
    assert!(is_hidden(".."));
    assert!(!is_hidden("jdk"));
    assert!(!is_hidden("a.b"));
    assert!(!is_hidden(""));
}

#[test]
fn home_token_is_replaced_everywhere() {
    assert_eq!(process_path("$USER$/.gradle/jdks", "/home/ann"), "/home/ann/.gradle/jdks");
    assert_eq!(process_path("/usr/lib/jvm", "/home/ann"), "/usr/lib/jvm");
    assert_eq!(process_path("$USER$$USER$", "x"), "xx");
    assert_eq!(process_path("a$USER$b$USER$", "-"), "a-b-");
    assert_eq!(process_path("$USER$", ""), "");
    assert_eq!(process_path("$USER", "x"), "$USER");
    assert_eq!(process_path("$$USER$", "x"), "$x");
    assert_eq!(process_path("", "x"), "");
}

fn walk(entries: &[(&str, usize)]) -> Vec<WalkEntry> {
    entries.iter().map(|(path, depth)| WalkEntry { path: path.to_string(), depth: *depth }).collect()
}

#[test]
fn find_file_takes_the_last_match_of_the_walk() {
    let walked = walk(&[
        ("/jvm", 0),
        ("/jvm/jdk-8", 1),
        ("/jvm/jdk-8/lib", 2),
        ("/jvm/jdk-8/lib/server", 3),
        ("/jvm/jdk-8/lib/server/libjvm.so", 4),
        ("/jvm/jdk-17", 1),
        ("/jvm/jdk-17/lib", 2),
        ("/jvm/jdk-17/lib/server", 3),
        ("/jvm/jdk-17/lib/server/libjvm.so", 4),
        ("/jvm/jdk-17/release", 2),
    ]);
    assert_eq!(
        find_file(Platform::Linux, "/jvm", "libjvm.so", &walked),
        Some("/jvm/jdk-17/lib/server/libjvm.so".to_string())
    );
}

#[test]
fn find_file_takes_the_root_that_names_the_file() {
    let walked = walk(&[("/other/libjvm.so", 1)]);
    assert_eq!(
        find_file(Platform::Linux, "/jdk/lib/server/libjvm.so", "libjvm.so", &walked),
        Some("/jdk/lib/server/libjvm.so".to_string())
    );
}

#[test]
fn find_file_without_match_gives_none() {
    let walked = walk(&[("/jvm", 0), ("/jvm/xlibjvm.so", 1), ("/jvm/libjvm.so.bak", 1)]);
    assert_eq!(find_file(Platform::Linux, "/jvm", "libjvm.so", &walked), None);
    assert_eq!(find_file(Platform::Linux, "/jvm", "libjvm.so", &vec![]), None);
}

#[test]
fn find_file_matches_a_relative_path_by_its_components() {
    let walked = walk(&[
        ("/cp", 0),
        ("/cp/com", 1),
        ("/cp/com/example", 2),
        ("/cp/com/example/Main.class", 3),
        ("/cp/org", 1),
        ("/cp/org/example", 2),
        ("/cp/org/example/Main.class", 3),
    ]);
    assert_eq!(
        find_file(Platform::Linux, "/cp", "com/example/Main.class", &walked),
        Some("/cp/com/example/Main.class".to_string())
    );
}

#[test]
fn find_file_goes_five_levels_deep_and_no_deeper() {
    let at_five = walk(&[("/r", 0), ("/r/1/2/3/4/libjvm.so", 5)]);
    assert_eq!(
        find_file(Platform::Linux, "/r", "libjvm.so", &at_five),
        Some("/r/1/2/3/4/libjvm.so".to_string())
    );
    let at_six = walk(&[("/r", 0), ("/r/1/2/3/4/5/libjvm.so", 6)]);
    assert_eq!(find_file(Platform::Linux, "/r", "libjvm.so", &at_six), None);
    let both = walk(&[("/r", 0), ("/r/a/libjvm.so", 2), ("/r/1/2/3/4/5/libjvm.so", 6)]);
    assert_eq!(
        find_file(Platform::Linux, "/r", "libjvm.so", &both),
        Some("/r/a/libjvm.so".to_string())
    );
}

#[test]
fn find_file_skips_hidden_entries_and_what_lies_below() {
    let walked = walk(&[
        ("/r", 0),
        ("/r/jdk", 1),
        ("/r/jdk/libjvm.so", 2),
        ("/r/.cache", 1),
        ("/r/.cache/jdk", 2),
        ("/r/.cache/jdk/libjvm.so", 3),
        ("/r/.cache/.deep", 2),
        ("/r/.cache/.deep/libjvm.so", 3),
        ("/r/.cache/libjvm.so", 2),
    ]);
    assert_eq!(
        find_file(Platform::Linux, "/r", "libjvm.so", &walked),
        Some("/r/jdk/libjvm.so".to_string())
    );
}

#[test]
fn find_file_looks_again_once_the_hidden_directory_is_left() {
    let walked = walk(&[
        ("/r", 0),
        ("/r/.hidden", 1),
        ("/r/.hidden/libjvm.so", 2),
        ("/r/after", 1),
        ("/r/after/libjvm.so", 2),
    ]);
    assert_eq!(
        find_file(Platform::Linux, "/r", "libjvm.so", &walked),
        Some("/r/after/libjvm.so".to_string())
    );
    let nested = walk(&[
        ("/r", 0),
        ("/r/a", 1),
        ("/r/a/.h", 2),
        ("/r/a/.h/x", 3),
        ("/r/a/.h/x/libjvm.so", 4),
        ("/r/a/b", 2),
        ("/r/a/b/libjvm.so", 3),
        ("/r/.h2", 1),
        ("/r/.h2/libjvm.so", 2),
    ]);
    assert_eq!(
        find_file(Platform::Linux, "/r", "libjvm.so", &nested),
        Some("/r/a/b/libjvm.so".to_string())
    );
}

#[test]
fn find_file_below_a_hidden_root_finds_nothing() {
    let walked = walk(&[("/home/ann/.jdks", 0), ("/home/ann/.jdks/17", 1), ("/home/ann/.jdks/17/libjvm.so", 2)]);
    assert_eq!(find_file(Platform::Linux, "/home/ann/.jdks", "libjvm.so", &walked), None);
    let dot = walk(&[(".", 0), ("./libjvm.so", 1)]);
    assert_eq!(find_file(Platform::Linux, ".", "libjvm.so", &dot), None);
}

#[test]
fn find_file_passes_over_a_hidden_file_of_the_right_path() {
    let walked = walk(&[("/r", 0), ("/r/.libjvm.so", 1)]);
    assert_eq!(find_file(Platform::Linux, "/r", ".libjvm.so", &walked), None);
}

#[test]
fn strategy_root_of_each_kind() {
    let explicit = Strategy::Explicit("/opt/rt".to_string());
    assert_eq!(strategy_root(&explicit, None, None, ""), Some("/opt/rt".to_string()));
    assert_eq!(
        strategy_root(&Strategy::WorkingDirectory, Some("/work"), Some("/jdk"), "/home/ann"),
        Some("/work".to_string())
    );
    assert_eq!(strategy_root(&Strategy::WorkingDirectory, None, Some("/jdk"), "/home/ann"), None);
    assert_eq!(
        strategy_root(&Strategy::Environment, Some("/work"), Some("/jdk"), "/home/ann"),
        Some("/jdk".to_string())
    );
    assert_eq!(strategy_root(&Strategy::Environment, Some("/work"), Some(""), "/home/ann"), None);
    assert_eq!(strategy_root(&Strategy::Environment, Some("/work"), None, "/home/ann"), None);
    let common = Strategy::CommonLocation("$USER$/.gradle/jdks".to_string());
    assert_eq!(
        strategy_root(&common, None, None, "/home/ann"),
        Some("/home/ann/.gradle/jdks".to_string())
    );
}

#[test]
fn valid_path_keeps_what_exists() {
    assert_eq!(valid_path(Some("/a".to_string()), true), Some("/a".to_string()));
    assert_eq!(valid_path(Some("/a".to_string()), false), None);
    assert_eq!(valid_path(None, true), None);
    assert_eq!(valid_path(None, false), None);
}
