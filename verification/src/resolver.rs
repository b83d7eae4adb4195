//! Where to look for a Java installation, in which order, and which of the
//! files that a search came across is the one.

use vstd::prelude::*;
use crate::arguments::LaunchOpts;
use crate::paths::{
    chars_end_with, ends_with_components, file_name_chars, file_name_of, Platform,
};
use crate::text::{
    chars_of, push_text, replace_chars, replaced, string_of, text_of, views,
};

verus! {

/// How deep below its root a search goes.
pub const MAX_SEARCH_DEPTH: usize = 5;

/// How many places are tried at most.
pub const MAX_STRATEGIES: usize = 4;

/// The environment variable that names the home of a Java installation.
pub const RUNTIME_HOME_VARIABLE: &'static str = "JAVA_HOME";

/// What the search needs to know of the platform.
#[derive(Debug)]
pub struct PlatformProfile {
    /// The platform itself.
    pub platform: Platform,
    /// The file name of the virtual machine's shared library.
    pub lib_name: String,
    /// The usual installation directories, most likely first; `$USER$`
    /// stands for the user's home directory.
    pub candidate_roots: Vec<String>,
    /// The character between the entries of a classpath.
    pub path_separator: char,
    /// Whether the launch must run on a thread of its own, while the first
    /// thread of the process serves the events of the platform.
    pub park_main_thread: bool,
}

/// The file name of the virtual machine's shared library on `platform`.
pub open spec fn library_name(platform: Platform) -> Seq<char> {
    match platform {
        Platform::Windows => "jvm.dll"@,
        Platform::MacOs => "libjvm.dylib"@,
        Platform::Linux => "libjvm.so"@,
    }
}

/// The character between the entries of a classpath on `platform`.
pub open spec fn classpath_separator(platform: Platform) -> char {
    if platform is Windows {
        ';'
    } else {
        ':'
    }
}

/// Whether the first thread of the process must be left to the events of
/// the platform: on macOS, where windows are served from it.
pub open spec fn parks_main_thread(platform: Platform) -> bool {
    platform is MacOs
}

/// The usual installation directories on `platform`, most likely first.
pub open spec fn common_locations(platform: Platform) -> Seq<Seq<char>> {
    match platform {
        Platform::Windows => seq![
            "$USER$/.gradle/jdks"@,
            "C:/Program Files/Java"@,
            "C:/Program Files/AdoptOpenJDK"@,
            "C:/Program Files/JavaSoft/Java Runtime Environment"@,
            "C:/Program Files/JavaSoft/Java Development Kit"@,
            "C:/Program Files/JavaSoft/JRE"@,
            "C:/Program Files/JavaSoft/JDK"@,
            "C:/Program Files/Eclipse Foundation/JDK"@,
            "C:/Program Files/Eclipse Adoptium/JDK"@,
            "C:/Program Files/Eclipse Adoptium/JRE"@,
            "C:/Program Files/Azul Systems/Zulu"@,
        ],
        Platform::MacOs => seq![
            "$USER$/.gradle/jdks"@,
            "/usr/lib/jvm"@,
            "/usr/java"@,
            "/usr/local/java"@,
            "/Library/Java/JavaVirtualMachines"@,
            "/System/Library/Java/JavaVirtualMachines"@,
        ],
        Platform::Linux => seq![
            "$USER$/.gradle/jdks"@,
            "/usr/lib/jvm"@,
            "/usr/java"@,
            "/usr/local/java"@,
        ],
    }
}

impl PlatformProfile {
    /// Whether the profile is the one of its platform.
    pub open spec fn wf(&self) -> bool {
        &&& self.lib_name@ == library_name(self.platform)
        &&& views(self.candidate_roots@) == common_locations(self.platform)
        &&& self.path_separator == classpath_separator(self.platform)
        &&& self.park_main_thread == parks_main_thread(self.platform)
    }
}

/// The profile of `platform`.
pub fn platform_profile(platform: Platform) -> (profile: PlatformProfile)
    ensures
        profile.platform == platform,
        profile.wf(),
{
    let mut roots: Vec<String> = Vec::new();
    proof {
        assert(views(roots@) =~= Seq::<Seq<char>>::empty());
    }
    push_text(&mut roots, "$USER$/.gradle/jdks");
    match platform {
        Platform::Windows => {
            push_text(&mut roots, "C:/Program Files/Java");
            push_text(&mut roots, "C:/Program Files/AdoptOpenJDK");
            push_text(&mut roots, "C:/Program Files/JavaSoft/Java Runtime Environment");
            push_text(&mut roots, "C:/Program Files/JavaSoft/Java Development Kit");
            push_text(&mut roots, "C:/Program Files/JavaSoft/JRE");
            push_text(&mut roots, "C:/Program Files/JavaSoft/JDK");
            push_text(&mut roots, "C:/Program Files/Eclipse Foundation/JDK");
            push_text(&mut roots, "C:/Program Files/Eclipse Adoptium/JDK");
            push_text(&mut roots, "C:/Program Files/Eclipse Adoptium/JRE");
            push_text(&mut roots, "C:/Program Files/Azul Systems/Zulu");
        },
        Platform::MacOs => {
            push_text(&mut roots, "/usr/lib/jvm");
            push_text(&mut roots, "/usr/java");
            push_text(&mut roots, "/usr/local/java");
            push_text(&mut roots, "/Library/Java/JavaVirtualMachines");
            push_text(&mut roots, "/System/Library/Java/JavaVirtualMachines");
        },
        Platform::Linux => {
            push_text(&mut roots, "/usr/lib/jvm");
            push_text(&mut roots, "/usr/java");
            push_text(&mut roots, "/usr/local/java");
        },
    }
    let lib_name = match platform {
        Platform::Windows => "jvm.dll".to_owned(),
        Platform::MacOs => "libjvm.dylib".to_owned(),
        Platform::Linux => "libjvm.so".to_owned(),
    };
    let path_separator = match platform {
        Platform::Windows => ';',
        _ => ':',
    };
    proof {
        assert(views(roots@) =~= common_locations(platform));
    }
    let park_main_thread = matches!(platform, Platform::MacOs);
    PlatformProfile { platform, lib_name, candidate_roots: roots, path_separator, park_main_thread }
}

/// Whether a directory entry with this name is hidden: its name begins with
/// a dot.
pub open spec fn hidden(name: Seq<char>) -> bool {
    name.len() > 0 && name[0] == '.'
}

/// Tells whether a directory entry with this name is hidden. A search does
/// not look at hidden entries, nor below them.
pub fn is_hidden(name: &str) -> (b: bool)
    ensures
        b == hidden(name@),
{
    let chars = chars_of(name);
    chars.len() > 0 && chars[0] == '.'
}

/// The directory that the query `path` stands for where the user's home
/// directory is `home`.
pub open spec fn home_substituted(path: Seq<char>, home: Seq<char>) -> Seq<char> {
    replaced(path, "$USER$"@, home)
}

/// The directory that the query `path` stands for: `path` with the home
/// directory `home` in place of each `$USER$`.
pub fn process_path(path: &str, home: &str) -> (out: String)
    ensures
        out@ == home_substituted(path@, home@),
{
    let s = chars_of(path);
    let token = chars_of("$USER$");
    let with = chars_of(home);
    string_of(&replace_chars(&s, &token, &with))
}

/// One place to look for a Java installation.
#[derive(Debug)]
pub enum Strategy {
    /// Below the directory that the configuration names.
    Explicit(String),
    /// Below the working directory.
    WorkingDirectory,
    /// Below the directory that the environment names.
    Environment,
    /// Below one of the usual installation directories, in which `$USER$`
    /// stands for the user's home directory.
    CommonLocation(String),
}

/// A strategy, with its text as a sequence of characters.
pub enum StrategyView {
    Explicit(Seq<char>),
    WorkingDirectory,
    Environment,
    CommonLocation(Seq<char>),
}

impl View for Strategy {
    type V = StrategyView;

    open spec fn view(&self) -> StrategyView {
        match self {
            Strategy::Explicit(root) => StrategyView::Explicit(root@),
            Strategy::WorkingDirectory => StrategyView::WorkingDirectory,
            Strategy::Environment => StrategyView::Environment,
            Strategy::CommonLocation(query) => StrategyView::CommonLocation(query@),
        }
    }
}

/// The directory that a strategy searches, where `working_dir` is the
/// working directory, `runtime_home` the directory that the environment
/// names, each where it is known, and `user_home` the user's home
/// directory. An empty name in the environment counts as none.
pub open spec fn search_root(
    strategy: StrategyView,
    working_dir: Option<Seq<char>>,
    runtime_home: Option<Seq<char>>,
    user_home: Seq<char>,
) -> Option<Seq<char>> {
    match strategy {
        StrategyView::Explicit(root) => Some(root),
        StrategyView::WorkingDirectory => working_dir,
        StrategyView::Environment => match runtime_home {
            Some(home) => if home.len() > 0 {
                Some(home)
            } else {
                None
            },
            None => None,
        },
        StrategyView::CommonLocation(query) => Some(home_substituted(query, user_home)),
    }
}

/// The text of an optional string slice.
pub open spec fn slice_text(s: Option<&str>) -> Option<Seq<char>> {
    match s {
        Some(t) => Some(t@),
        None => None,
    }
}

/// The directory that `strategy` searches; see [`search_root`].
pub fn strategy_root(
    strategy: &Strategy,
    working_dir: Option<&str>,
    runtime_home: Option<&str>,
    user_home: &str,
) -> (root: Option<String>)
    ensures
        text_of(root) == search_root(
            strategy@,
            slice_text(working_dir),
            slice_text(runtime_home),
            user_home@,
        ),
{
    match strategy {
        Strategy::Explicit(root) => Some(root.clone()),
        Strategy::WorkingDirectory => match working_dir {
            Some(dir) => Some(dir.to_owned()),
            None => None,
        },
        Strategy::Environment => match runtime_home {
            Some(home) => if home.is_empty() {
                None
            } else {
                Some(home.to_owned())
            },
            None => None,
        },
        Strategy::CommonLocation(query) => Some(process_path(query.as_str(), user_home)),
    }
}

/// A file that is taken for the library of a Java installation, and the
/// place whose search gave it.
#[derive(Debug)]
pub struct RuntimeCandidate {
    pub path: String,
    pub strategy: Strategy,
}

/// A candidate, with its texts as sequences of characters.
pub struct CandidateView {
    pub path: Seq<char>,
    pub strategy: StrategyView,
}

impl View for RuntimeCandidate {
    type V = CandidateView;

    open spec fn view(&self) -> CandidateView {
        CandidateView { path: self.path@, strategy: self.strategy@ }
    }
}

/// The views of a sequence of strategies.
pub open spec fn strategy_views(strategies: Seq<Strategy>) -> Seq<StrategyView> {
    strategies.map_values(|s: Strategy| s@)
}

/// The place that is tried first: the directory that the configuration
/// names, or the working directory where it names none.
pub open spec fn first_strategy(runtime: Option<Seq<char>>) -> StrategyView {
    match runtime {
        Some(root) => StrategyView::Explicit(root),
        None => StrategyView::WorkingDirectory,
    }
}

/// How many of the usual installation directories are tried: all that fit
/// under the limit of `MAX_STRATEGIES` places, none where they may not be
/// searched.
pub open spec fn common_count(allow_environment: bool, allow_common: bool, roots: nat) -> nat {
    let before: nat = if allow_environment {
        2
    } else {
        1
    };
    if !allow_common {
        0
    } else if roots <= MAX_STRATEGIES - before {
        roots
    } else {
        (MAX_STRATEGIES - before) as nat
    }
}

/// The places to try, in the order in which they are tried: first the
/// directory that the configuration names, or the working directory; then
/// the directory that the environment names, where that may be used; then
/// the usual installation directories, as many as `common_count` says.
pub open spec fn planned_strategies(
    runtime: Option<Seq<char>>,
    allow_environment: bool,
    allow_common: bool,
    roots: Seq<Seq<char>>,
) -> Seq<StrategyView> {
    let head = if allow_environment {
        seq![first_strategy(runtime), StrategyView::Environment]
    } else {
        seq![first_strategy(runtime)]
    };
    head + Seq::new(
        common_count(allow_environment, allow_common, roots.len()),
        |i: int| StrategyView::CommonLocation(roots[i]),
    )
}

/// The plan holds one place at least and `MAX_STRATEGIES` at most. It begins
/// with the directory that the configuration names, or the working
/// directory; the directory that the environment names comes right behind
/// it; and the usual directories come last, in the order of the platform's
/// list.
pub proof fn lemma_plan_order(
    runtime: Option<Seq<char>>,
    allow_environment: bool,
    allow_common: bool,
    roots: Seq<Seq<char>>,
)
    ensures
        1 <= planned_strategies(runtime, allow_environment, allow_common, roots).len()
            <= MAX_STRATEGIES,
        planned_strategies(runtime, allow_environment, allow_common, roots)[0] == first_strategy(
            runtime,
        ),
        allow_environment ==> planned_strategies(runtime, allow_environment, allow_common, roots)[1]
            == StrategyView::Environment,
        forall|i: int|
            (if allow_environment {
                2int
            } else {
                1int
            }) <= i < planned_strategies(runtime, allow_environment, allow_common, roots).len()
                ==> #[trigger] planned_strategies(runtime, allow_environment, allow_common, roots)[i]
                == StrategyView::CommonLocation(
                roots[i - (if allow_environment {
                    2int
                } else {
                    1int
                })],
            ),
        !allow_common ==> planned_strategies(runtime, allow_environment, allow_common, roots).len()
            == (if allow_environment {
            2int
        } else {
            1int
        }),
{
}

/// The places to look for a Java installation for this launch, in the order
/// in which they are to be tried.
pub fn get_jvm_paths(launch_opts: &LaunchOpts, profile: &PlatformProfile) -> (strategies: Vec<
    Strategy,
>)
    ensures
        strategy_views(strategies@) == planned_strategies(
            text_of(launch_opts.config.runtime),
            launch_opts.config.allow_environment_lookup,
            launch_opts.config.allow_common_location_lookup,
            views(profile.candidate_roots@),
        ),
        1 <= strategies.len() <= MAX_STRATEGIES,
{
    let config = &launch_opts.config;
    let mut strategies: Vec<Strategy> = Vec::new();
    match &config.runtime {
        Some(root) => strategies.push(Strategy::Explicit(root.clone())),
        None => strategies.push(Strategy::WorkingDirectory),
    }
    if config.allow_environment_lookup {
        strategies.push(Strategy::Environment);
    }
    let ghost head = strategy_views(strategies@);
    let ghost roots = views(profile.candidate_roots@);
    let before: usize = strategies.len();
    proof {
        assert(head =~= if config.allow_environment_lookup {
            seq![first_strategy(text_of(config.runtime)), StrategyView::Environment]
        } else {
            seq![first_strategy(text_of(config.runtime))]
        });
    }
    let mut i: usize = 0;
    if config.allow_common_location_lookup {
        while i < profile.candidate_roots.len() && strategies.len() < MAX_STRATEGIES
            invariant
                i <= profile.candidate_roots.len(),
                roots == views(profile.candidate_roots@),
                strategies.len() == before + i,
                strategies.len() <= MAX_STRATEGIES,
                1 <= before <= 2,
                strategy_views(strategies@) == head + Seq::new(
                    i as nat,
                    |k: int| StrategyView::CommonLocation(roots[k]),
                ),
            decreases profile.candidate_roots.len() - i,
        {
            let query = profile.candidate_roots[i].clone();
            let ghost old_views = strategy_views(strategies@);
            strategies.push(Strategy::CommonLocation(query));
            i += 1;
            proof {
                assert(strategy_views(strategies@) =~= old_views.push(
                    StrategyView::CommonLocation(roots[i - 1]),
                ));
                assert(strategy_views(strategies@) =~= head + Seq::new(
                    i as nat,
                    |k: int| StrategyView::CommonLocation(roots[k]),
                ));
            }
        }
    }
    proof {
        assert(strategy_views(strategies@) =~= head + Seq::new(
            i as nat,
            |k: int| StrategyView::CommonLocation(roots[k]),
        ));
    }
    strategies
}

/// One entry that a walk of a directory came across: its path, and how many
/// levels below the root of the walk it lies, the root itself at 0. A walk
/// lists a directory before what lies in it.
#[derive(Debug)]
pub struct WalkEntry {
    pub path: String,
    pub depth: usize,
}

/// The entries of a walk as paths and depths.
pub type WalkLog = Seq<(Seq<char>, nat)>;

/// The entries as paths and depths.
pub open spec fn walk_log(entries: Seq<WalkEntry>) -> WalkLog {
    entries.map_values(|e: WalkEntry| (e.path@, e.depth as nat))
}

/// Whether the entry at `j` is hidden.
pub open spec fn hidden_at(platform: Platform, walk: WalkLog, j: int) -> bool {
    hidden(file_name_of(platform, walk[j].0))
}

/// Whether every entry after `j` and before `i` lies deeper than the entry
/// at `j`: then all of them lie below it.
pub open spec fn deeper_between(walk: WalkLog, j: int, i: int) -> bool {
    forall|k: int| j < k < i ==> (#[trigger] walk[k]).1 > walk[j].1
}

/// Whether the entry at `i` lies below a hidden one.
pub open spec fn below_hidden(platform: Platform, walk: WalkLog, i: int) -> bool {
    exists|j: int|
        0 <= j < i && hidden_at(platform, walk, j) && #[trigger] deeper_between(walk, j, i + 1)
}

/// Whether a search looks at the entry at `i`: it lies at most
/// `MAX_SEARCH_DEPTH` levels below the root, is not hidden and lies below no
/// hidden entry.
pub open spec fn searched(platform: Platform, walk: WalkLog, i: int) -> bool {
    &&& walk[i].1 <= MAX_SEARCH_DEPTH
    &&& !hidden_at(platform, walk, i)
    &&& !below_hidden(platform, walk, i)
}

/// Whether the entry at `i` is one that the search is for: the search looks
/// at it, and the last components of its path are those of `file`.
pub open spec fn matches_file(platform: Platform, walk: WalkLog, file: Seq<char>, i: int) -> bool {
    searched(platform, walk, i) && ends_with_components(platform, walk[i].0, file)
}

/// The index of the last entry among the first `n` that the search is for,
/// or -1 where there is none.
pub open spec fn last_match(platform: Platform, walk: WalkLog, file: Seq<char>, n: int) -> int
    decreases n,
{
    if n <= 0 {
        -1
    } else if matches_file(platform, walk, file, n - 1) {
        n - 1
    } else {
        last_match(platform, walk, file, n - 1)
    }
}

/// The file that a search below `root` settles on, where `walk` holds what
/// lies below the root: the root itself where it already names the file;
/// else the last entry of the walk that the search is for; else nothing.
pub open spec fn found_file(platform: Platform, root: Seq<char>, file: Seq<char>, walk: WalkLog) -> Option<
    Seq<char>,
> {
    if ends_with_components(platform, root, file) {
        Some(root)
    } else if last_match(platform, walk, file, walk.len() as int) >= 0 {
        Some(walk[last_match(platform, walk, file, walk.len() as int)].0)
    } else {
        None
    }
}

/// `last_match` is the greatest index of an entry that the search is for.
pub proof fn lemma_last_match(platform: Platform, walk: WalkLog, file: Seq<char>, n: int)
    requires
        0 <= n <= walk.len(),
    ensures
        -1 <= last_match(platform, walk, file, n) < n,
        last_match(platform, walk, file, n) >= 0 ==> matches_file(
            platform,
            walk,
            file,
            last_match(platform, walk, file, n),
        ),
        forall|i: int|
            last_match(platform, walk, file, n) < i < n ==> !matches_file(platform, walk, file, i),
    decreases n,
{
    if n > 0 && !matches_file(platform, walk, file, n - 1) {
        lemma_last_match(platform, walk, file, n - 1);
    }
}

fn entry_hidden(platform: Platform, entry: &WalkEntry) -> (b: bool)
    ensures
        b == hidden(file_name_of(platform, entry.path@)),
{
    let name = file_name_chars(platform, &chars_of(entry.path.as_str()));
    name.len() > 0 && name[0] == '.'
}

/// Picks the file named `file` from what lies below `root`. `walk` lists the
/// entries below the root as a walk comes across them, each directory before
/// what lies in it. Entries deeper than `MAX_SEARCH_DEPTH`, hidden entries
/// and what lies below hidden entries are not looked at; of the others, the
/// last whose path ends in the components of `file` is taken. A root that
/// names the file itself is taken without a look at the walk.
pub fn find_file(platform: Platform, root: &str, file: &str, walk: &Vec<WalkEntry>) -> (found:
    Option<String>)
    ensures
        text_of(found) == found_file(platform, root@, file@, walk_log(walk@)),
{
    let name = chars_of(file);
    if chars_end_with(platform, &chars_of(root), &name) {
        return Some(root.to_owned());
    }
    let ghost log = walk_log(walk@);
    let mut best: Option<usize> = None;
    let mut hidden_depth: Option<usize> = None;
    let ghost mut cover: int = 0;
    let mut i: usize = 0;
    while i < walk.len()
        invariant
            i <= walk.len(),
            log == walk_log(walk@),
            name@ == file@,
            !ends_with_components(platform, root@, file@),
            match best {
                Some(b) => b < i && b == last_match(platform, log, file@, i as int),
                None => last_match(platform, log, file@, i as int) == -1,
            },
            hidden_depth matches Some(d) ==> 0 <= cover < i && hidden_at(platform, log, cover)
                && log[cover].1 == d && deeper_between(log, cover, i as int),
            forall|j: int|
                0 <= j < i && hidden_at(platform, log, j) ==> !(#[trigger] deeper_between(
                    log,
                    j,
                    i as int,
                )) || (hidden_depth matches Some(d) && d <= log[j].1),
        decreases walk.len() - i,
    {
        let entry = &walk[i];
        let ghost before = hidden_depth;
        assert(log[i as int] == (entry.path@, entry.depth as nat));
        let below = match hidden_depth {
            Some(d) => entry.depth > d,
            None => false,
        };
        proof {
            // What the loop knows of the hidden entries so far decides
            // whether this entry lies below one of them.
            if below {
                assert(deeper_between(log, cover, i + 1));
            } else if below_hidden(platform, log, i as int) {
                let j = choose|j: int|
                    0 <= j < i && hidden_at(platform, log, j) && #[trigger] deeper_between(
                        log,
                        j,
                        i + 1,
                    );
                assert(log[i as int].1 > log[j].1);
                assert(deeper_between(log, j, i as int));
            }
            assert(below == below_hidden(platform, log, i as int));
        }
        if !below {
            hidden_depth = None;
        }
        let is_hidden_entry = entry_hidden(platform, entry);
        if !below && is_hidden_entry {
            hidden_depth = Some(entry.depth);
            proof {
                cover = i as int;
            }
        }
        if !below && !is_hidden_entry && entry.depth <= MAX_SEARCH_DEPTH {
            if chars_end_with(platform, &chars_of(entry.path.as_str()), &name) {
                best = Some(i);
            }
        }
        proof {
            assert forall|j: int|
                0 <= j < i + 1 && hidden_at(platform, log, j) implies !(#[trigger] deeper_between(
                log,
                j,
                i + 1,
            )) || (hidden_depth matches Some(d) && d <= log[j].1) by {
                if j < i {
                    if !deeper_between(log, j, i as int) {
                        let k = choose|k: int| j < k < i && !((#[trigger] log[k]).1 > log[j].1);
                        assert(!(log[k].1 > log[j].1));
                    } else if !below {
                        // The entry closes every hidden one that was open.
                        assert(before matches Some(d) && d <= log[j].1);
                        assert(!(log[i as int].1 > log[j].1));
                    }
                }
            }
            if hidden_depth is Some {
                assert(deeper_between(log, cover, i + 1));
            }
        }
        i += 1;
    }
    match best {
        Some(b) => {
            proof {
                assert(log[b as int].0 == walk@[b as int].path@);
            }
            Some(walk[b].path.clone())
        },
        None => None,
    }
}

/// The path itself where it names something that exists, else nothing.
pub fn valid_path(path: Option<String>, exists: bool) -> (valid: Option<String>)
    ensures
        valid == (if exists {
            path
        } else {
            None
        }),
{
    if exists {
        path
    } else {
        None
    }
}

} // verus!
