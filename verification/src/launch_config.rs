//! The launch configuration and the version requirement drawn from it.

use vstd::prelude::*;
use crate::arguments::{join_entries, joined};
use crate::config_file::{values_of, ConfigLog, JPackageLaunchConfig};
use crate::manifest::{
    header_log, header_value, section_headers, HeaderLog, Manifest, ManifestSection, SectionLog,
};
use crate::text::{
    append_str, chars_of, chars_views, pieces_of, push_text, push_texts, same_chars,
    split_at_each, string_of, text_of, views,
};

verus! {

/// What is known of the application before it is started.
#[derive(Debug)]
pub struct LaunchConfig {
    /// The dotted name of the class whose `main` is called.
    pub main_class: Option<String>,
    /// The directory of the Java installation to use, where one is named.
    pub runtime: Option<String>,
    /// The lowest Java release that may run the application.
    pub min_java: Option<u16>,
    /// The options for the virtual machine, as configured.
    pub java_opts: Vec<String>,
    /// The archives and directories that hold the application's classes.
    pub classpath: Vec<String>,
    /// The arguments that the configuration hands to the application.
    pub program_opts: Vec<String>,
    /// Whether the installation named by the environment may be used.
    pub allow_environment_lookup: bool,
    /// Whether the usual installation directories may be searched.
    pub allow_common_location_lookup: bool,
    /// The share of the machine's memory, in millionths, that the heap may
    /// take, where one is configured.
    pub memory_fraction: Option<u32>,
}

impl LaunchConfig {
    /// Whether the configuration names what a launch cannot do without: an
    /// entry point, and at least one classpath entry.
    pub open spec fn launchable(&self) -> bool {
        &&& self.main_class matches Some(name) && name@.len() > 0
        &&& self.classpath@.len() > 0
    }

    /// The major version that is asked for, 0 where none is.
    pub open spec fn required(&self) -> u16 {
        match self.min_java {
            Some(v) => v,
            None => 0,
        }
    }

    /// Tells whether the configuration names an entry point and at least one
    /// classpath entry.
    pub fn is_launchable(&self) -> (ok: bool)
        ensures
            ok == self.launchable(),
    {
        match &self.main_class {
            Some(name) => !name.as_str().is_empty() && self.classpath.len() > 0,
            None => false,
        }
    }

    /// The major version that is asked for, 0 where none is.
    pub fn required_version(&self) -> (v: u16)
        ensures
            v == self.required(),
    {
        match self.min_java {
            Some(v) => v,
            None => 0,
        }
    }
}

/// The requirement that holds where the configuration declares `declared` and
/// the entry point needs `derived`: the greater where both are there, the one
/// that is there where one is, none where neither is.
pub open spec fn merged_requirement(declared: Option<u16>, derived: Option<u16>) -> Option<u16> {
    match (declared, derived) {
        (Some(a), Some(b)) => Some(if a >= b {
            a
        } else {
            b
        }),
        (Some(a), None) => Some(a),
        (None, Some(b)) => Some(b),
        (None, None) => None,
    }
}

/// Merges the minimum version that the configuration declares with the one
/// that the entry point needs.
pub fn merge_requirement(declared: Option<u16>, derived: Option<u16>) -> (merged: Option<u16>)
    ensures
        merged == merged_requirement(declared, derived),
{
    match (declared, derived) {
        (Some(a), Some(b)) => Some(if a >= b {
            a
        } else {
            b
        }),
        (Some(a), None) => Some(a),
        (None, Some(b)) => Some(b),
        (None, None) => None,
    }
}

/// The merged requirement is met exactly by the versions that meet both
/// requirements, and it does not depend on which of the two is named first.
pub proof fn lemma_merged_requirement(declared: Option<u16>, derived: Option<u16>, version: int)
    ensures
        merged_requirement(declared, derived) == merged_requirement(derived, declared),
        merged_requirement(declared, derived) is None <==> (declared is None && derived is None),
        (merged_requirement(declared, derived) matches Some(m) ==> version >= m) <==> ((declared
            matches Some(a) ==> version >= a) && (derived matches Some(b) ==> version >= b)),
{
}

/// A launch configuration, with its texts as sequences of characters.
pub struct LaunchConfigView {
    pub main_class: Option<Seq<char>>,
    pub runtime: Option<Seq<char>>,
    pub min_java: Option<u16>,
    pub java_opts: Seq<Seq<char>>,
    pub classpath: Seq<Seq<char>>,
    pub program_opts: Seq<Seq<char>>,
    pub allow_environment_lookup: bool,
    pub allow_common_location_lookup: bool,
    pub memory_fraction: Option<u32>,
}

impl View for LaunchConfig {
    type V = LaunchConfigView;

    open spec fn view(&self) -> LaunchConfigView {
        LaunchConfigView {
            main_class: text_of(self.main_class),
            runtime: text_of(self.runtime),
            min_java: self.min_java,
            java_opts: views(self.java_opts@),
            classpath: views(self.classpath@),
            program_opts: views(self.program_opts@),
            allow_environment_lookup: self.allow_environment_lookup,
            allow_common_location_lookup: self.allow_common_location_lookup,
            memory_fraction: self.memory_fraction,
        }
    }
}

/// For each of `targets`, in their order: `flag`, then the target with
/// `=ALL-UNNAMED` behind it.
pub open spec fn opened_to_all(flag: Seq<char>, targets: Seq<Seq<char>>) -> Seq<Seq<char>>
    decreases targets.len(),
{
    if targets.len() == 0 {
        Seq::empty()
    } else {
        opened_to_all(flag, targets.drop_last()).push(flag).push(
            targets.last() + "=ALL-UNNAMED"@,
        )
    }
}

/// The options that the main section of the main archive's manifest asks
/// for: its exports, its opens, and native access where it is granted to all
/// unnamed modules.
pub open spec fn manifest_options(headers: HeaderLog) -> Seq<Seq<char>> {
    (match header_value(headers, "Add-Exports"@) {
        Some(v) => opened_to_all("--add-exports"@, pieces_of(v, ' ')),
        None => Seq::empty(),
    }) + (match header_value(headers, "Add-Opens"@) {
        Some(v) => opened_to_all("--add-opens"@, pieces_of(v, ' ')),
        None => Seq::empty(),
    }) + (if header_value(headers, "Enable-Native-Access"@) == Some("ALL-UNNAMED"@) {
        seq!["--enable-native-access=ALL-UNNAMED"@]
    } else {
        Seq::empty()
    })
}

/// The classpath entries that the manifest names.
pub open spec fn manifest_classpath(headers: HeaderLog) -> Seq<Seq<char>> {
    match header_value(headers, "Class-Path"@) {
        Some(v) => pieces_of(v, ' '),
        None => Seq::empty(),
    }
}

/// The headers of the main section of the main archive's manifest, as far
/// as they count: none where the configuration names no main archive or its
/// manifest could not be read, and no header where the manifest has no main
/// section.
pub open spec fn main_headers(cfg: ConfigLog, manifest: Option<SectionLog>) -> Option<HeaderLog> {
    if values_of(cfg, "Application"@, "app.mainjar"@).len() == 0 {
        None
    } else {
        match manifest {
            Some(sections) => Some(
                match section_headers(sections, None) {
                    Some(h) => h,
                    None => Seq::empty(),
                },
            ),
            None => None,
        }
    }
}

/// The options for the virtual machine that a configuration gives: its own,
/// those of the manifest, the main module, the module path, and the path of
/// the launcher.
pub open spec fn config_options(
    cfg: ConfigLog,
    headers: Option<HeaderLog>,
    exec_path: Seq<char>,
    sep: char,
) -> Seq<Seq<char>> {
    let module = values_of(cfg, "Application"@, "app.mainmodule"@);
    let module_dirs = values_of(cfg, "Application"@, "app.modulepath"@);
    values_of(cfg, "JavaOptions"@, "java-options"@) + (match headers {
        Some(h) => manifest_options(h),
        None => Seq::empty(),
    }) + (if module.len() > 0 {
        seq!["-m"@] + module
    } else {
        Seq::empty()
    }) + (if module_dirs.len() > 0 {
        seq!["--module-path"@, joined(module_dirs, sep)]
    } else {
        Seq::empty()
    }) + seq!["-Djpackage.app-path="@ + exec_path]
}

/// The classpath that a configuration gives: its own entries, those of the
/// manifest, and the main archive.
pub open spec fn config_classpath(cfg: ConfigLog, headers: Option<HeaderLog>) -> Seq<Seq<char>> {
    let main_jar = values_of(cfg, "Application"@, "app.mainjar"@);
    values_of(cfg, "Application"@, "app.classpath"@) + (match headers {
        Some(h) => manifest_classpath(h),
        None => Seq::empty(),
    }) + (if main_jar.len() > 0 {
        seq![main_jar[0]]
    } else {
        Seq::empty()
    })
}

/// The entry point that a configuration gives: the last `app.mainclass`,
/// else the `Main-Class` of the manifest.
pub open spec fn config_main_class(cfg: ConfigLog, headers: Option<HeaderLog>) -> Option<Seq<char>> {
    let named = values_of(cfg, "Application"@, "app.mainclass"@);
    if named.len() > 0 {
        Some(named.last())
    } else {
        match headers {
            Some(h) => header_value(h, "Main-Class"@),
            None => None,
        }
    }
}

/// The runtime that a configuration gives: none without an `Application`
/// section; else the last `app.runtime`, or the runtime that ships with the
/// image.
pub open spec fn config_runtime(cfg: ConfigLog, default_runtime: Seq<char>) -> Option<Seq<char>> {
    let named = values_of(cfg, "Application"@, "app.runtime"@);
    if !crate::config_file::has_section(cfg, "Application"@) {
        None
    } else if named.len() > 0 {
        Some(named.last())
    } else {
        Some(default_runtime)
    }
}

/// Where the entry point is looked for: in the main archive where one is
/// named, else in the whole classpath.
pub open spec fn config_lookup_path(cfg: ConfigLog, headers: Option<HeaderLog>) -> Seq<Seq<char>> {
    let main_jar = values_of(cfg, "Application"@, "app.mainjar"@);
    if main_jar.len() > 0 {
        seq![main_jar[0]]
    } else {
        config_classpath(cfg, headers)
    }
}

/// The launch configuration that the configuration file `cfg` gives. It
/// declares no minimum version, lets every place be searched and asks for
/// no share of the memory.
pub open spec fn processed(
    cfg: ConfigLog,
    manifest: Option<SectionLog>,
    exec_path: Seq<char>,
    default_runtime: Seq<char>,
    sep: char,
) -> LaunchConfigView {
    let headers = main_headers(cfg, manifest);
    LaunchConfigView {
        main_class: config_main_class(cfg, headers),
        runtime: config_runtime(cfg, default_runtime),
        min_java: None,
        java_opts: config_options(cfg, headers, exec_path, sep),
        classpath: config_classpath(cfg, headers),
        program_opts: values_of(cfg, "ArgOptions"@, "arguments"@),
        allow_environment_lookup: true,
        allow_common_location_lookup: true,
        memory_fraction: None,
    }
}

/// A launch configuration, and where to look for its entry point.
#[derive(Debug)]
pub struct ProcessedConfig {
    pub config: LaunchConfig,
    pub lookup_path: Vec<String>,
}

/// The path of the main archive, whose manifest is to be read: the last
/// `app.mainjar` of the configuration, where it has one.
pub fn main_jar_of(cfg: &JPackageLaunchConfig) -> (path: Option<String>)
    ensures
        text_of(path) == (if values_of(cfg@, "Application"@, "app.mainjar"@).len() > 0 {
            Some(values_of(cfg@, "Application"@, "app.mainjar"@).last())
        } else {
            None
        }),
{
    let mut jars = cfg.values("Application", "app.mainjar");
    let ghost all = views(jars@);
    match jars.pop() {
        Some(last) => {
            proof {
                assert(all.last() == last@);
            }
            Some(last)
        },
        None => None,
    }
}

fn last_text(values: &Vec<String>) -> (last: String)
    requires
        values.len() > 0,
    ensures
        last@ == views(values@).last(),
{
    values[values.len() - 1].clone()
}

fn push_pieces(list: &mut Vec<String>, value: &str)
    ensures
        views(final(list)@) == views(old(list)@) + pieces_of(value@, ' '),
{
    let pieces = split_at_each(&chars_of(value), ' ');
    let ghost all = chars_views(pieces@);
    let mut i: usize = 0;
    proof {
        assert(views(list@) + all.take(0) =~= views(list@));
    }
    while i < pieces.len()
        invariant
            i <= pieces.len(),
            all == chars_views(pieces@),
            views(list@) == views(old(list)@) + all.take(i as int),
        decreases pieces.len() - i,
    {
        let text = string_of(&pieces[i]);
        proof {
            assert(views(old(list)@) + all.take(i + 1) =~= (views(old(list)@) + all.take(
                i as int,
            )).push(pieces@[i as int]@));
        }
        push_text(list, text.as_str());
        i += 1;
    }
    proof {
        assert(all.take(pieces.len() as int) == all);
    }
}

fn push_opened(list: &mut Vec<String>, flag: &str, value: &str)
    ensures
        views(final(list)@) == views(old(list)@) + opened_to_all(flag@, pieces_of(value@, ' ')),
{
    let pieces = split_at_each(&chars_of(value), ' ');
    let ghost all = chars_views(pieces@);
    let mut i: usize = 0;
    proof {
        assert(all.take(0) =~= Seq::<Seq<char>>::empty());
        assert(views(list@) + opened_to_all(flag@, all.take(0)) =~= views(list@));
    }
    while i < pieces.len()
        invariant
            i <= pieces.len(),
            all == chars_views(pieces@),
            views(list@) == views(old(list)@) + opened_to_all(flag@, all.take(i as int)),
        decreases pieces.len() - i,
    {
        let mut target = pieces[i].clone();
        append_str(&mut target, "=ALL-UNNAMED");
        let ghost before = views(list@);
        proof {
            assert(all.take(i + 1).drop_last() == all.take(i as int));
            assert(all.take(i + 1).last() == pieces@[i as int]@);
        }
        push_text(list, flag);
        push_text(list, string_of(&target).as_str());
        proof {
            assert(views(list@) =~= views(old(list)@) + opened_to_all(flag@, all.take(i + 1)));
        }
        i += 1;
    }
    proof {
        assert(all.take(pieces.len() as int) == all);
    }
}

fn is_text(value: &String, text: &str) -> (b: bool)
    ensures
        b == (value@ == text@),
{
    same_chars(&chars_of(value.as_str()), &chars_of(text))
}

/// The headers of a section, where there is one.
pub open spec fn headers_of(section: Option<&ManifestSection>) -> Option<HeaderLog> {
    match section {
        Some(s) => Some(header_log(s.headers@)),
        None => None,
    }
}

/// The sections of a manifest, where there is one.
pub open spec fn sections_of(manifest: Option<&Manifest>) -> Option<SectionLog> {
    match manifest {
        Some(m) => Some(m@),
        None => None,
    }
}

fn manifest_options_of(main: &ManifestSection) -> (options: Vec<String>)
    ensures
        views(options@) == manifest_options(header_log(main.headers@)),
{
    let mut options: Vec<String> = Vec::new();
    proof {
        assert(views(options@) =~= Seq::<Seq<char>>::empty());
    }
    let ghost o0 = views(options@);
    match main.get("Add-Exports") {
        Some(value) => {
            push_opened(&mut options, "--add-exports", value.as_str());
        },
        None => {},
    }
    let ghost o1 = views(options@);
    match main.get("Add-Opens") {
        Some(value) => {
            push_opened(&mut options, "--add-opens", value.as_str());
        },
        None => {},
    }
    let ghost o2 = views(options@);
    match main.get("Enable-Native-Access") {
        Some(value) => {
            if is_text(value, "ALL-UNNAMED") {
                push_text(&mut options, "--enable-native-access=ALL-UNNAMED");
            }
        },
        None => {},
    }
    proof {
        let h = header_log(main.headers@);
        let a = match header_value(h, "Add-Exports"@) {
            Some(v) => opened_to_all("--add-exports"@, pieces_of(v, ' ')),
            None => Seq::empty(),
        };
        let b = match header_value(h, "Add-Opens"@) {
            Some(v) => opened_to_all("--add-opens"@, pieces_of(v, ' ')),
            None => Seq::empty(),
        };
        assert(o1 =~= a);
        assert(o2 =~= a + b);
        assert(views(options@) =~= manifest_options(h));
    }
    options
}

fn options_of(
    cfg: &JPackageLaunchConfig,
    section: Option<&ManifestSection>,
    exec_path: &str,
    path_separator: char,
) -> (options: Vec<String>)
    ensures
        views(options@) == config_options(cfg@, headers_of(section), exec_path@, path_separator),
{
    let mut options = cfg.values("JavaOptions", "java-options");
    let ghost p0 = views(options@);
    match section {
        Some(main) => {
            let more = manifest_options_of(main);
            push_texts(&mut options, &more);
        },
        None => {
            proof {
                assert(p0 + Seq::<Seq<char>>::empty() =~= p0);
            }
        },
    }
    let ghost p1 = views(options@);
    let module = cfg.values("Application", "app.mainmodule");
    if module.len() > 0 {
        push_text(&mut options, "-m");
        push_texts(&mut options, &module);
    }
    let ghost p2 = views(options@);
    proof {
        assert(p2 =~= p1 + (if module@.len() > 0 {
            seq!["-m"@] + views(module@)
        } else {
            Seq::empty()
        }));
    }
    let module_dirs = cfg.values("Application", "app.modulepath");
    if module_dirs.len() > 0 {
        push_text(&mut options, "--module-path");
        push_text(&mut options, join_entries(&module_dirs, path_separator).as_str());
    }
    let ghost p3 = views(options@);
    proof {
        assert(p3 =~= p2 + (if module_dirs@.len() > 0 {
            seq!["--module-path"@, joined(views(module_dirs@), path_separator)]
        } else {
            Seq::empty()
        }));
    }
    let mut app_path = chars_of("-Djpackage.app-path=");
    append_str(&mut app_path, exec_path);
    push_text(&mut options, string_of(&app_path).as_str());
    proof {
        assert(views(options@) =~= p3 + seq!["-Djpackage.app-path="@ + exec_path@]);
    }
    options
}

fn classpath_of(cfg: &JPackageLaunchConfig, section: Option<&ManifestSection>) -> (classpath: Vec<
    String,
>)
    ensures
        views(classpath@) == config_classpath(cfg@, headers_of(section)),
{
    let mut classpath = cfg.values("Application", "app.classpath");
    let ghost c0 = views(classpath@);
    match section {
        Some(main) => {
            match main.get("Class-Path") {
                Some(value) => {
                    push_pieces(&mut classpath, value.as_str());
                },
                None => {
                    proof {
                        assert(c0 + Seq::<Seq<char>>::empty() =~= c0);
                    }
                },
            }
        },
        None => {
            proof {
                assert(c0 + Seq::<Seq<char>>::empty() =~= c0);
            }
        },
    }
    let ghost c1 = views(classpath@);
    let main_jar = cfg.values("Application", "app.mainjar");
    if main_jar.len() > 0 {
        push_text(&mut classpath, main_jar[0].as_str());
        proof {
            assert(views(main_jar@)[0] == main_jar@[0]@);
            assert(views(classpath@) =~= c1 + seq![views(main_jar@)[0]]);
        }
    } else {
        proof {
            assert(c1 + Seq::<Seq<char>>::empty() =~= c1);
        }
    }
    classpath
}

fn main_class_of(cfg: &JPackageLaunchConfig, section: Option<&ManifestSection>) -> (main_class:
    Option<String>)
    ensures
        text_of(main_class) == config_main_class(cfg@, headers_of(section)),
{
    let named = cfg.values("Application", "app.mainclass");
    if named.len() > 0 {
        return Some(last_text(&named));
    }
    match section {
        Some(main) => match main.get("Main-Class") {
            Some(name) => Some(name.clone()),
            None => None,
        },
        None => None,
    }
}

fn runtime_of(cfg: &JPackageLaunchConfig, default_runtime: &str) -> (runtime: Option<String>)
    ensures
        text_of(runtime) == config_runtime(cfg@, default_runtime@),
{
    let named = cfg.values("Application", "app.runtime");
    if !cfg.has_section("Application") {
        None
    } else if named.len() > 0 {
        Some(last_text(&named))
    } else {
        Some(default_runtime.to_owned())
    }
}

fn lookup_path_of(cfg: &JPackageLaunchConfig, classpath: &Vec<String>) -> (lookup: Vec<String>)
    ensures
        views(lookup@) == (if values_of(cfg@, "Application"@, "app.mainjar"@).len() > 0 {
            seq![values_of(cfg@, "Application"@, "app.mainjar"@)[0]]
        } else {
            views(classpath@)
        }),
{
    let main_jar = cfg.values("Application", "app.mainjar");
    let mut lookup: Vec<String> = Vec::new();
    proof {
        assert(views(lookup@) =~= Seq::<Seq<char>>::empty());
    }
    if main_jar.len() > 0 {
        push_text(&mut lookup, main_jar[0].as_str());
        proof {
            assert(views(main_jar@)[0] == main_jar@[0]@);
            assert(views(lookup@) =~= seq![views(main_jar@)[0]]);
        }
    } else {
        push_texts(&mut lookup, classpath);
        proof {
            assert(views(lookup@) =~= views(classpath@));
        }
    }
    lookup
}

/// Draws the launch configuration from the configuration file `cfg`.
/// `manifest` is the manifest of the main archive, none where the
/// configuration names no such archive or its manifest could not be read;
/// `exec_path` is the path of the launcher, `default_runtime` that of the
/// runtime that ships with the image, and `path_separator` the character
/// between the entries of a module path.
pub fn process_config(
    cfg: &JPackageLaunchConfig,
    manifest: Option<&Manifest>,
    exec_path: &str,
    default_runtime: &str,
    path_separator: char,
) -> (out: ProcessedConfig)
    ensures
        out.config@ == processed(
            cfg@,
            sections_of(manifest),
            exec_path@,
            default_runtime@,
            path_separator,
        ),
        views(out.lookup_path@) == config_lookup_path(
            cfg@,
            main_headers(cfg@, sections_of(manifest)),
        ),
{
    let none = ManifestSection { name: None, headers: Vec::new() };
    proof {
        assert(header_log(none.headers@) =~= Seq::empty());
    }
    let main_jar = cfg.values("Application", "app.mainjar");
    let section: Option<&ManifestSection> = if main_jar.len() == 0 {
        None
    } else {
        match manifest {
            Some(m) => match m.section(None) {
                Some(main) => Some(main),
                None => Some(&none),
            },
            None => None,
        }
    };
    assert(headers_of(section) == main_headers(cfg@, sections_of(manifest)));
    let java_opts = options_of(cfg, section, exec_path, path_separator);
    let classpath = classpath_of(cfg, section);
    let lookup_path = lookup_path_of(cfg, &classpath);
    let main_class = main_class_of(cfg, section);
    let runtime = runtime_of(cfg, default_runtime);
    let program_opts = cfg.values("ArgOptions", "arguments");
    ProcessedConfig {
        config: LaunchConfig {
            main_class,
            runtime,
            min_java: None,
            java_opts,
            classpath,
            program_opts,
            allow_environment_lookup: true,
            allow_common_location_lookup: true,
            memory_fraction: None,
        },
        lookup_path,
    }
}

} // verus!
