use java_launcher::arguments::LaunchOpts;
use java_launcher::jvm_args::{make_jvm_args, JNI_VERSION};
use java_launcher::launch_config::LaunchConfig;

fn opts(jvm_opts: &[&str]) -> LaunchOpts {
    LaunchOpts {
        config: LaunchConfig {
            main_class: Some("Main".to_string()),
            runtime: None,
            min_java: None,
            java_opts: vec![],
            classpath: vec![],
            program_opts: vec![],
            allow_environment_lookup: true,
            allow_common_location_lookup: true,
            memory_fraction: None,
        },
        jvm_opts: jvm_opts.iter().map(|s| s.to_string()).collect(),
        program_opts: vec![],
    }
}

#[test]
fn version_asked_for_is_jni_1_2() {
    assert_eq!(JNI_VERSION, 0x0001_0002);
}

#[test]
fn no_option_always_builds() {
    assert!(make_jvm_args(&opts(&[])).is_ok());
}

#[test]
fn plain_options_build() {
    assert!(make_jvm_args(&opts(&["-Xmx512m", "-Dfoo=bar", "-Djava.class.path=a.jar:b.jar"])).is_ok());
}

#[test]
fn option_with_inner_nul_gives_an_error() {
    assert!(make_jvm_args(&opts(&["-Dfoo=\0bar"])).is_err());
    assert!(make_jvm_args(&opts(&["-Xmx1g", "-D\0x", "-Dx=y"])).is_err());
    assert!(make_jvm_args(&opts(&["a\0\0"])).is_err());
}

#[test]
fn option_with_a_nul_at_its_end_builds() {
    assert!(make_jvm_args(&opts(&["-Xmx1g", "-Dx=y\0"])).is_ok());
}

#[test]
fn error_names_the_first_bad_option() {
    match make_jvm_args(&opts(&["-Dok=1", "-Dbad=\0x", "-Dworse=\0\0y"])) {
        Err(error) => assert_eq!(error.opt_string(), Some("-Dbad=\0x")),
        Ok(_) => panic!("the options were accepted"),
    }
}

#[test]
fn options_that_need_no_encoding_always_build() {
    assert!(make_jvm_args(&opts(&["", "vfprintf", "\0", "abort", "exit"])).is_ok());
    assert!(make_jvm_args(&opts(&["exit"])).is_ok());
}

#[test]
fn error_names_the_option_as_it_was_given() {
    match make_jvm_args(&opts(&["vfprintf", "", "-Dx=\0y\0"])) {
        Err(error) => assert_eq!(error.opt_string(), Some("-Dx=\0y\0")),
        Ok(_) => panic!("the options were accepted"),
    }
}

#[test]
fn a_held_error_is_kept_over_later_options() {
    match make_jvm_args(&opts(&["-Da=\0b", "-Dfine=1", "exit", ""])) {
        Err(error) => assert_eq!(error.opt_string(), Some("-Da=\0b")),
        Ok(_) => panic!("the options were accepted"),
    }
}
