//! The course of a launch: which place is searched next, which candidate is
//! started, what follows each success and each failure, and how the launch
//! ends. The launcher decides; its caller does the work and reports back.

use vstd::prelude::*;
use crate::arguments::LaunchOpts;
use crate::class_file::{dots_to_slashes, internal_class_name};
use crate::decimal::{decimal_text, push_decimal};
use crate::release::{
    accepts_candidate, compatible_java_version, declared_version, passes_gate, verdict,
};
use crate::resolver::{
    get_jvm_paths, planned_strategies, strategy_views, CandidateView, PlatformProfile,
    RuntimeCandidate, Strategy, StrategyView,
};
use crate::text::{append_str, string_of, text_of, views};

verus! {

/// How a launch ended, or how one attempt within it did.
#[derive(Debug, Clone, Copy, PartialEq, Eq)]
pub enum LaunchOutcome {
    /// A virtual machine was started, and the entry point ran and returned.
    Started,
    /// The configuration names no entry point or no classpath.
    ConfigurationInvalid,
    /// No place held a Java installation that could be started.
    NoCandidateFound,
    /// An installation was found, but none of a version that is known to be
    /// high enough.
    CandidateIncompatible,
    /// One candidate could not be started. The launch goes on with the next
    /// place and never ends with this.
    InitializationFailed,
    /// The virtual machine was created, but the thread could not attach.
    AttachFailed,
    /// The entry point could not be called, or it failed.
    InvocationFailed,
}

/// Where a launch stands.
#[derive(Debug, Clone, Copy, PartialEq, Eq)]
pub enum Phase {
    /// A search is under way.
    Resolving,
    /// A virtual machine is being created from a candidate.
    Attempting,
    /// A virtual machine was created, and the thread is attaching to it.
    Started,
    /// The entry point is running.
    Invoking,
    /// The virtual machine is being destroyed.
    ShuttingDown(LaunchOutcome),
    /// The launch is over.
    Finished(LaunchOutcome),
}

/// What the caller reports back.
#[derive(Debug)]
pub enum LaunchEvent {
    /// The search found the library at `path`; `release` is the content of
    /// the installation's `release` file, where one was found and read.
    Located { path: String, release: Option<String> },
    /// The search found nothing.
    NotFound,
    /// The work that was asked for is done.
    Succeeded,
    /// The work that was asked for failed.
    Failed,
}

/// What the caller is to do next.
#[derive(Debug)]
pub enum LaunchAction {
    /// Search this place for the library.
    Locate(Strategy),
    /// Create a virtual machine from the library of this candidate.
    Create(RuntimeCandidate),
    /// Attach the thread to the virtual machine.
    Attach,
    /// Call `main` of the class `class_name`.
    Invoke { class_name: String },
    /// Destroy the virtual machine.
    Destroy,
    /// Show `message`, where there is one, and end.
    Finish { outcome: LaunchOutcome, message: Option<String> },
}

/// An event, with its texts as sequences of characters.
pub enum EventView {
    Located { path: Seq<char>, release: Option<Seq<char>> },
    NotFound,
    Succeeded,
    Failed,
}

/// An action, with its texts as sequences of characters.
pub enum ActionView {
    Locate(StrategyView),
    Create(CandidateView),
    Attach,
    Invoke { class_name: Seq<char> },
    Destroy,
    Finish { outcome: LaunchOutcome, message: Option<Seq<char>> },
}

impl View for LaunchEvent {
    type V = EventView;

    open spec fn view(&self) -> EventView {
        match self {
            LaunchEvent::Located { path, release } => EventView::Located {
                path: path@,
                release: text_of(*release),
            },
            LaunchEvent::NotFound => EventView::NotFound,
            LaunchEvent::Succeeded => EventView::Succeeded,
            LaunchEvent::Failed => EventView::Failed,
        }
    }
}

impl View for LaunchAction {
    type V = ActionView;

    open spec fn view(&self) -> ActionView {
        match self {
            LaunchAction::Locate(strategy) => ActionView::Locate(strategy@),
            LaunchAction::Create(candidate) => ActionView::Create(candidate@),
            LaunchAction::Attach => ActionView::Attach,
            LaunchAction::Invoke { class_name } => ActionView::Invoke { class_name: class_name@ },
            LaunchAction::Destroy => ActionView::Destroy,
            LaunchAction::Finish { outcome, message } => ActionView::Finish {
                outcome: *outcome,
                message: text_of(*message),
            },
        }
    }
}

/// What is shown to the operator where a launch ends with `outcome` and the
/// major version `required` was asked for, 0 standing for none.
pub open spec fn diagnostic_text(outcome: LaunchOutcome, required: u16) -> Option<Seq<char>> {
    match outcome {
        LaunchOutcome::Started => None,
        LaunchOutcome::ConfigurationInvalid => Some(
            "The launch configuration names no main class or no classpath. Please contact the developers or undo any changes to the configuration."@,
        ),
        LaunchOutcome::NoCandidateFound => if required == 0 {
            Some("No valid Java installations found. Please install any Java version."@)
        } else {
            Some(
                "No valid Java installations found. Please install Java "@ + decimal_text(
                    required as nat,
                ) + " or newer."@,
            )
        },
        LaunchOutcome::CandidateIncompatible => Some(
            "A minimum of Java "@ + decimal_text(required as nat)
                + " or newer is required. Please install an appropriate version."@,
        ),
        LaunchOutcome::InitializationFailed => Some(
            "Java was found, but it could not be started."@,
        ),
        LaunchOutcome::AttachFailed => Some(
            "Java started successfully, but attaching failed. Please contact the developers."@,
        ),
        LaunchOutcome::InvocationFailed => Some(
            "Failed to start the app. Ensure the classname is valid and available on the classpath."@,
        ),
    }
}

/// The message for the operator where a launch ends with `outcome`; see
/// [`diagnostic_text`].
pub fn diagnostic(outcome: LaunchOutcome, required: u16) -> (message: Option<String>)
    ensures
        text_of(message) == diagnostic_text(outcome, required),
{
    let mut out: Vec<char> = Vec::new();
    match outcome {
        LaunchOutcome::Started => {
            return None;
        },
        LaunchOutcome::ConfigurationInvalid => {
            append_str(
                &mut out,
                "The launch configuration names no main class or no classpath. Please contact the developers or undo any changes to the configuration.",
            );
        },
        LaunchOutcome::NoCandidateFound => {
            if required == 0 {
                append_str(
                    &mut out,
                    "No valid Java installations found. Please install any Java version.",
                );
            } else {
                append_str(&mut out, "No valid Java installations found. Please install Java ");
                push_decimal(&mut out, required as u64);
                append_str(&mut out, " or newer.");
            }
        },
        LaunchOutcome::CandidateIncompatible => {
            append_str(&mut out, "A minimum of Java ");
            push_decimal(&mut out, required as u64);
            append_str(&mut out, " or newer is required. Please install an appropriate version.");
        },
        LaunchOutcome::InitializationFailed => {
            append_str(&mut out, "Java was found, but it could not be started.");
        },
        LaunchOutcome::AttachFailed => {
            append_str(
                &mut out,
                "Java started successfully, but attaching failed. Please contact the developers.",
            );
        },
        LaunchOutcome::InvocationFailed => {
            append_str(
                &mut out,
                "Failed to start the app. Ensure the classname is valid and available on the classpath.",
            );
        },
    }
    proof {
        assert(Some(out@) =~= diagnostic_text(outcome, required));
    }
    Some(string_of(&out))
}

/// The state of a launch.
#[derive(Debug)]
pub struct Launcher {
    /// Where the launch stands.
    pub phase: Phase,
    /// The places to search, in the order in which they are tried.
    pub strategies: Vec<Strategy>,
    /// The index of the place that is being tried.
    pub next: usize,
    /// The major version that is asked for, 0 standing for none.
    pub required: u16,
    /// The name under which the virtual machine knows the entry point.
    pub main_class: String,
    /// Whether a candidate was found and turned away for its version.
    pub rejected: bool,
}

/// The state of a launch, with its texts as sequences of characters.
pub struct LauncherView {
    pub phase: Phase,
    pub strategies: Seq<StrategyView>,
    pub next: int,
    pub required: u16,
    pub main_class: Seq<char>,
    pub rejected: bool,
}

impl View for Launcher {
    type V = LauncherView;

    open spec fn view(&self) -> LauncherView {
        LauncherView {
            phase: self.phase,
            strategies: strategy_views(self.strategies@),
            next: self.next as int,
            required: self.required,
            main_class: self.main_class@,
            rejected: self.rejected,
        }
    }
}

/// The end of a launch with `outcome`: the state, and the action that shows
/// the message.
pub open spec fn finish(pre: LauncherView, outcome: LaunchOutcome) -> (LauncherView, ActionView) {
    (
        LauncherView { phase: Phase::Finished(outcome), ..pre },
        ActionView::Finish { outcome, message: diagnostic_text(outcome, pre.required) },
    )
}

/// What follows where the place that is being tried gave nothing to run:
/// the next place is searched, and where none is left the launch ends. It
/// ends with `CandidateIncompatible` where a candidate was turned away for
/// its version, else with `NoCandidateFound`.
pub open spec fn advance(pre: LauncherView) -> (LauncherView, ActionView) {
    let next = if pre.next < pre.strategies.len() {
        pre.next + 1
    } else {
        pre.next
    };
    let moved = LauncherView { next, ..pre };
    if 0 <= next < pre.strategies.len() {
        (LauncherView { phase: Phase::Resolving, ..moved }, ActionView::Locate(pre.strategies[next]))
    } else if pre.rejected {
        finish(moved, LaunchOutcome::CandidateIncompatible)
    } else {
        finish(moved, LaunchOutcome::NoCandidateFound)
    }
}

/// Whether the candidate that a search reported may be started: its release
/// information must let it through the version gate.
pub open spec fn admitted(release: Option<Seq<char>>, required: u16) -> bool {
    passes_gate(verdict(declared_version(release), required as i32), required as i32)
}

/// The state after `event`, and the action that the caller is to take.
///
/// While a search is under way, a candidate that the version gate lets in is
/// started, tagged with the place that gave it; one that it turns away is
/// noted, and the next place is searched, as it is where nothing was found.
/// A candidate that cannot be started sends the launch on to the next place
/// as well. Once a virtual machine exists, no other candidate is tried:
/// attaching and calling the entry point follow, and whether they succeed or
/// fail, the virtual machine is destroyed before the launch ends.
pub open spec fn step_of(pre: LauncherView, event: EventView) -> (LauncherView, ActionView) {
    match pre.phase {
        Phase::Resolving => match event {
            EventView::Located { path, release } => if !admitted(release, pre.required) {
                advance(LauncherView { rejected: true, ..pre })
            } else if 0 <= pre.next < pre.strategies.len() {
                (
                    LauncherView { phase: Phase::Attempting, ..pre },
                    ActionView::Create(CandidateView { path, strategy: pre.strategies[pre.next] }),
                )
            } else {
                advance(pre)
            },
            _ => advance(pre),
        },
        Phase::Attempting => match event {
            EventView::Succeeded => (
                LauncherView { phase: Phase::Started, ..pre },
                ActionView::Attach,
            ),
            _ => advance(pre),
        },
        Phase::Started => match event {
            EventView::Succeeded => (
                LauncherView { phase: Phase::Invoking, ..pre },
                ActionView::Invoke { class_name: pre.main_class },
            ),
            _ => (
                LauncherView { phase: Phase::ShuttingDown(LaunchOutcome::AttachFailed), ..pre },
                ActionView::Destroy,
            ),
        },
        Phase::Invoking => match event {
            EventView::Succeeded => (
                LauncherView { phase: Phase::ShuttingDown(LaunchOutcome::Started), ..pre },
                ActionView::Destroy,
            ),
            _ => (
                LauncherView {
                    phase: Phase::ShuttingDown(LaunchOutcome::InvocationFailed),
                    ..pre
                },
                ActionView::Destroy,
            ),
        },
        Phase::ShuttingDown(outcome) => finish(pre, outcome),
        Phase::Finished(outcome) => finish(pre, outcome),
    }
}

/// The state in which a launch from this configuration begins, and its first
/// action. A configuration that cannot be launched ends the launch at once,
/// with no place to search; any other begins with the search of the first
/// place.
pub open spec fn initial(
    launchable: bool,
    strategies: Seq<StrategyView>,
    required: u16,
    main_class: Seq<char>,
) -> (LauncherView, ActionView) {
    if launchable && strategies.len() > 0 {
        (
            LauncherView {
                phase: Phase::Resolving,
                strategies,
                next: 0,
                required,
                main_class,
                rejected: false,
            },
            ActionView::Locate(strategies[0]),
        )
    } else {
        finish(
            LauncherView {
                phase: Phase::Resolving,
                strategies: Seq::empty(),
                next: 0,
                required,
                main_class,
                rejected: false,
            },
            LaunchOutcome::ConfigurationInvalid,
        )
    }
}

/// The name under which the virtual machine knows the entry point of a
/// configuration; empty where none is configured.
pub open spec fn entry_point(main_class: Option<String>) -> Seq<char> {
    match main_class {
        Some(name) => dots_to_slashes(name@),
        None => Seq::empty(),
    }
}

fn copy_strategy(strategy: &Strategy) -> (copy: Strategy)
    ensures
        copy@ == strategy@,
{
    match strategy {
        Strategy::Explicit(root) => Strategy::Explicit(root.clone()),
        Strategy::WorkingDirectory => Strategy::WorkingDirectory,
        Strategy::Environment => Strategy::Environment,
        Strategy::CommonLocation(query) => Strategy::CommonLocation(query.clone()),
    }
}

impl Launcher {
    /// Begins a launch: returns its state and the first action. Where the
    /// configuration names no entry point or no classpath, the launch is over
    /// at once with `ConfigurationInvalid`, and nothing is searched.
    pub fn new(launch_opts: &LaunchOpts, profile: &PlatformProfile) -> (out: (Launcher, LaunchAction))
        ensures
            (out.0@, out.1@) == initial(
                launch_opts.config.launchable(),
                planned_strategies(
                    text_of(launch_opts.config.runtime),
                    launch_opts.config.allow_environment_lookup,
                    launch_opts.config.allow_common_location_lookup,
                    views(profile.candidate_roots@),
                ),
                launch_opts.config.required(),
                entry_point(launch_opts.config.main_class),
            ),
    {
        let required = launch_opts.config.required_version();
        let main_class = match &launch_opts.config.main_class {
            Some(name) => internal_class_name(name.as_str()),
            None => String::new(),
        };
        if !launch_opts.config.is_launchable() {
            let strategies: Vec<Strategy> = Vec::new();
            proof {
                assert(strategy_views(strategies@) =~= Seq::<StrategyView>::empty());
            }
            let outcome = LaunchOutcome::ConfigurationInvalid;
            let launcher = Launcher {
                phase: Phase::Finished(outcome),
                strategies,
                next: 0,
                required,
                main_class,
                rejected: false,
            };
            return (launcher, LaunchAction::Finish { outcome, message: diagnostic(outcome, required) });
        }
        let strategies = get_jvm_paths(launch_opts, profile);
        let first = copy_strategy(&strategies[0]);
        let launcher = Launcher {
            phase: Phase::Resolving,
            strategies,
            next: 0,
            required,
            main_class,
            rejected: false,
        };
        (launcher, LaunchAction::Locate(first))
    }

    fn finish(&mut self, outcome: LaunchOutcome) -> (action: LaunchAction)
        ensures
            (final(self)@, action@) == finish(old(self)@, outcome),
    {
        self.phase = Phase::Finished(outcome);
        LaunchAction::Finish { outcome, message: diagnostic(outcome, self.required) }
    }

    fn advance(&mut self) -> (action: LaunchAction)
        ensures
            (final(self)@, action@) == advance(old(self)@),
    {
        if self.next < self.strategies.len() {
            self.next = self.next + 1;
        }
        if self.next < self.strategies.len() {
            self.phase = Phase::Resolving;
            LaunchAction::Locate(copy_strategy(&self.strategies[self.next]))
        } else if self.rejected {
            self.finish(LaunchOutcome::CandidateIncompatible)
        } else {
            self.finish(LaunchOutcome::NoCandidateFound)
        }
    }

    /// Takes in what the caller reports and tells what to do next; see
    /// [`step_of`].
    pub fn step(&mut self, event: LaunchEvent) -> (action: LaunchAction)
        ensures
            (final(self)@, action@) == step_of(old(self)@, event@),
    {
        match self.phase {
            Phase::Resolving => match event {
                LaunchEvent::Located { path, release } => {
                    let found = match &release {
                        Some(text) => compatible_java_version(Some(text.as_str()), self.required as i32),
                        None => compatible_java_version(None, self.required as i32),
                    };
                    if !accepts_candidate(found, self.required) {
                        self.rejected = true;
                        self.advance()
                    } else if self.next < self.strategies.len() {
                        self.phase = Phase::Attempting;
                        let strategy = copy_strategy(&self.strategies[self.next]);
                        LaunchAction::Create(RuntimeCandidate { path, strategy })
                    } else {
                        self.advance()
                    }
                },
                _ => self.advance(),
            },
            Phase::Attempting => match event {
                LaunchEvent::Succeeded => {
                    self.phase = Phase::Started;
                    LaunchAction::Attach
                },
                _ => self.advance(),
            },
            Phase::Started => match event {
                LaunchEvent::Succeeded => {
                    self.phase = Phase::Invoking;
                    LaunchAction::Invoke { class_name: self.main_class.clone() }
                },
                _ => {
                    self.phase = Phase::ShuttingDown(LaunchOutcome::AttachFailed);
                    LaunchAction::Destroy
                },
            },
            Phase::Invoking => match event {
                LaunchEvent::Succeeded => {
                    self.phase = Phase::ShuttingDown(LaunchOutcome::Started);
                    LaunchAction::Destroy
                },
                _ => {
                    self.phase = Phase::ShuttingDown(LaunchOutcome::InvocationFailed);
                    LaunchAction::Destroy
                },
            },
            Phase::ShuttingDown(outcome) => self.finish(outcome),
            Phase::Finished(outcome) => self.finish(outcome),
        }
    }

    /// The outcome of the launch, once it is over.
    pub fn outcome(&self) -> (outcome: Option<LaunchOutcome>)
        ensures
            outcome == (match self.phase {
                Phase::Finished(o) => Some(o),
                _ => None,
            }),
    {
        match self.phase {
            Phase::Finished(o) => Some(o),
            _ => None,
        }
    }
}

} // verus!
