use java_launcher::arguments::{
    build_launch_opts, heap_kilobytes, join_entries, sanitize_options, Notice,
};
use java_launcher::launch_config::LaunchConfig;

fn strings(list: &[&str]) -> Vec<String> {
    list.iter().map(|s| s.to_string()).collect()
}

fn config(java_opts: &[&str], classpath: &[&str], fraction: Option<u32>) -> LaunchConfig {
    LaunchConfig {
        main_class: Some("Main".to_string()),
        runtime: None,
        min_java: None,
        java_opts: strings(java_opts),
        classpath: strings(classpath),
        program_opts: strings(&["--from-config"]),
        allow_environment_lookup: true,
        allow_common_location_lookup: true,
        memory_fraction: fraction,
    }
}

fn millionths(fraction: f64) -> u32 {
    if fraction.is_finite() && fraction >= 0.0 && fraction <= 4000.0 {
        (fraction * 1_000_000.0).round() as u32
    } else {
        0
    }
}

#[test]
fn add_opens_with_a_space_is_rewritten_with_one_notice() {
    let (options, notices) =
        sanitize_options(&strings(&["--add-opens java.base/java.lang ALL-UNNAMED"]));
    assert_eq!(options, strings(&["--add-opens=java.base/java.lang ALL-UNNAMED"]));
    assert_eq!(notices.len(), 1);
    match &notices[0] {
        Notice::Rewritten { configured, corrected } => {
            assert_eq!(configured, "--add-opens java.base/java.lang ALL-UNNAMED");
            assert_eq!(corrected, "--add-opens=java.base/java.lang ALL-UNNAMED");
        }
        Notice::Dropped { .. } => panic!("the option was dropped"),
    }
}

#[test]
fn every_module_option_is_rewritten() {
    for flag in [
        "--add-opens",
        "--add-exports",
        "--add-reads",
        "--add-modules",
        "--patch-module",
        "--limit-modules",
        "--module-path",
        "--upgrade-module-path",
        "--enable-native-access",
    ] {
        let (options, notices) = sanitize_options(&vec![format!("{} value", flag)]);
        assert_eq!(options, vec![format!("{}=value", flag)]);
        assert_eq!(notices.len(), 1);
    }
}

#[test]
fn well_written_options_are_forwarded_verbatim() {
    let raw = strings(&[
        "--add-opens=java.base/java.lang=ALL-UNNAMED",
        "-Dfoo=bar baz",
        "-Xmx512m",
        "-Xss1m",
        "--add-opens",
        "--add-opensx y",
        "-XX:+UseG1GC",
        "",
        "-m",
    ]);
    let (options, notices) = sanitize_options(&raw);
    assert_eq!(options, raw);
    assert!(notices.is_empty());
}

#[test]
fn sized_option_without_a_digit_is_dropped() {
    let (options, notices) =
        sanitize_options(&strings(&["-Xmx", "-Xms=64m", "-Xssbig", "-Xmn 1g", "-Xmx1g", "-Da=b"]));
    assert_eq!(options, strings(&["-Xmx1g", "-Da=b"]));
    assert_eq!(notices.len(), 4);
    let dropped: Vec<&str> = notices
        .iter()
        .map(|n| match n {
            Notice::Dropped { configured } => configured.as_str(),
            Notice::Rewritten { .. } => panic!("nothing is rewritten here"),
        })
        .collect();
    assert_eq!(dropped, vec!["-Xmx", "-Xms=64m", "-Xssbig", "-Xmn 1g"]);
}

#[test]
fn notices_keep_the_order_of_the_options() {
    let (options, notices) =
        sanitize_options(&strings(&["-Xms", "--module-path a:b", "-Dx=1", "-Xmx"]));
    assert_eq!(options, strings(&["--module-path=a:b", "-Dx=1"]));
    assert_eq!(notices.len(), 3);
    assert!(matches!(&notices[0], Notice::Dropped { configured } if configured == "-Xms"));
    assert!(matches!(&notices[1], Notice::Rewritten { corrected, .. } if corrected == "--module-path=a:b"));
    assert!(matches!(&notices[2], Notice::Dropped { configured } if configured == "-Xmx"));
}

#[test]
fn notice_messages_name_the_option() {
    let (_, notices) = sanitize_options(&strings(&["--add-reads a=b", "-Xmx"]));
    assert_eq!(
        notices[0].message(),
        "Option '--add-reads a=b' must give its value behind '='; it is passed as '--add-reads=a=b'."
    );
    assert_eq!(
        notices[1].message(),
        "Option '-Xmx' must give a number right behind its name; it is left out."
    );
}

#[test]
fn heap_is_half_of_eight_million_kilobytes() {
    assert_eq!(heap_kilobytes(8_000_000, millionths(0.5)), 4_000_000);
}

#[test]
fn heap_fraction_out_of_range_falls_back_to_a_fifth() {
    assert_eq!(heap_kilobytes(8_000_000, millionths(0.0)), 1_600_000);
    assert_eq!(heap_kilobytes(8_000_000, millionths(1.5)), 1_600_000);
    assert_eq!(heap_kilobytes(8_000_000, millionths(0.2)), 1_600_000);
    assert_eq!(heap_kilobytes(8_000_000, millionths(0.009)), 1_600_000);
    assert_eq!(heap_kilobytes(8_000_000, u32::MAX), 1_600_000);
}

#[test]
fn heap_fraction_at_its_bounds() {
    assert_eq!(heap_kilobytes(8_000_000, millionths(0.01)), 80_000);
    assert_eq!(heap_kilobytes(8_000_000, millionths(1.0)), 8_000_000);
    assert_eq!(heap_kilobytes(8_000_000, 1_000_001), 1_600_000);
    assert_eq!(heap_kilobytes(8_000_000, 9_999), 1_600_000);
}

#[test]
fn heap_is_rounded_down_and_never_overflows() {
    assert_eq!(heap_kilobytes(3, 500_000), 1);
    assert_eq!(heap_kilobytes(0, 500_000), 0);
    assert_eq!(heap_kilobytes(u64::MAX, 1_000_000), u64::MAX);
    assert_eq!(heap_kilobytes(u64::MAX, 500_000), u64::MAX / 2);
}

#[test]
fn join_entries_puts_the_separator_between() {
    assert_eq!(join_entries(&strings(&["a.jar", "b.jar", "c"]), ':'), "a.jar:b.jar:c");
    assert_eq!(join_entries(&strings(&["a.jar"]), ';'), "a.jar");
    assert_eq!(join_entries(&strings(&[]), ';'), "");
    assert_eq!(join_entries(&strings(&["", ""]), ';'), ";");
}

#[test]
fn builder_adds_classpath_and_heap() {
    let (opts, notices) = build_launch_opts(
        config(&["-Dfoo=bar"], &["lib/a.jar", "lib/b.jar"], Some(500_000)),
        strings(&["--cli"]),
        Some(8_000_000),
        ':',
    );
    assert_eq!(
        opts.jvm_opts,
        strings(&["-Dfoo=bar", "-Djava.class.path=lib/a.jar:lib/b.jar", "-Xmx4000000k"])
    );
    assert_eq!(opts.program_opts, strings(&["--cli", "--from-config"]));
    assert!(notices.is_empty());
    assert_eq!(opts.config.java_opts, strings(&["-Dfoo=bar"]));
    assert_eq!(opts.config.classpath, strings(&["lib/a.jar", "lib/b.jar"]));
}

#[test]
fn builder_leaves_an_empty_classpath_out() {
    let (opts, _) = build_launch_opts(config(&["-Da=b"], &[], None), vec![], Some(1000), ';');
    assert_eq!(opts.jvm_opts, strings(&["-Da=b"]));
    assert_eq!(opts.program_opts, strings(&["--from-config"]));
}

#[test]
fn builder_respects_an_explicit_heap_option() {
    let (opts, _) = build_launch_opts(
        config(&["-Xmx1g"], &["a.jar"], Some(500_000)),
        vec![],
        Some(8_000_000),
        ';',
    );
    assert_eq!(opts.jvm_opts, strings(&["-Xmx1g", "-Djava.class.path=a.jar"]));
}

#[test]
fn builder_counts_a_dropped_heap_option_as_explicit() {
    let (opts, notices) = build_launch_opts(
        config(&["-Xmx"], &["a.jar"], Some(500_000)),
        vec![],
        Some(8_000_000),
        ';',
    );
    assert_eq!(opts.jvm_opts, strings(&["-Djava.class.path=a.jar"]));
    assert_eq!(notices.len(), 1);
}

#[test]
fn builder_without_memory_size_or_fraction_adds_no_heap() {
    let (a, _) = build_launch_opts(config(&[], &["a.jar"], Some(500_000)), vec![], None, ';');
    assert_eq!(a.jvm_opts, strings(&["-Djava.class.path=a.jar"]));
    let (b, _) = build_launch_opts(config(&[], &["a.jar"], None), vec![], Some(8_000_000), ';');
    assert_eq!(b.jvm_opts, strings(&["-Djava.class.path=a.jar"]));
}

#[test]
fn builder_falls_back_to_a_fifth_of_the_memory() {
    let (opts, _) =
        build_launch_opts(config(&[], &[], Some(0)), vec![], Some(8_000_000), ';');
    assert_eq!(opts.jvm_opts, strings(&["-Xmx1600000k"]));
    let (opts, _) =
        build_launch_opts(config(&[], &[], Some(1_500_000)), vec![], Some(8_000_000), ';');
    assert_eq!(opts.jvm_opts, strings(&["-Xmx1600000k"]));
}

#[test]
fn builder_rewrites_and_reports() {
    let (opts, notices) = build_launch_opts(
        config(&["--add-opens java.base/java.lang ALL-UNNAMED", "-Xss"], &["a.jar"], None),
        vec![],
        None,
        ':',
    );
    assert_eq!(
        opts.jvm_opts,
        strings(&["--add-opens=java.base/java.lang ALL-UNNAMED", "-Djava.class.path=a.jar"])
    );
    assert_eq!(notices.len(), 2);
}
