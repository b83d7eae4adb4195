//! What holds of every launch, whatever the caller reports.

use vstd::prelude::*;
use crate::launcher::{
    admitted, initial, step_of, ActionView, EventView, LaunchOutcome, LauncherView, Phase,
};
use crate::resolver::{CandidateView, StrategyView};

verus! {

/// Whether the state is one that a launch can be in: the place that is being
/// tried is one of the places, as long as the search goes on; a virtual
/// machine is destroyed only with an outcome that needs one; and no launch
/// is over with the failure of a single candidate.
pub open spec fn well_formed(state: LauncherView) -> bool {
    &&& 0 <= state.next <= state.strategies.len()
    &&& (state.phase is Resolving || state.phase is Attempting) ==> state.next
        < state.strategies.len()
    &&& state.phase matches Phase::ShuttingDown(outcome) ==> outcome is Started || outcome
        is AttachFailed || outcome is InvocationFailed
    &&& state.phase matches Phase::Finished(outcome) ==> !(outcome is InitializationFailed)
}

/// Whether a virtual machine exists that has not been destroyed.
pub open spec fn machine_live(phase: Phase) -> bool {
    phase is Started || phase is Invoking
}

/// How far a launch is from its end at most, in steps.
pub open spec fn steps_left(state: LauncherView) -> int {
    6 * (state.strategies.len() - state.next) + match state.phase {
        Phase::Resolving => 5int,
        Phase::Attempting => 4,
        Phase::Started => 3,
        Phase::Invoking => 2,
        Phase::ShuttingDown(_) => 1,
        Phase::Finished(_) => 0,
    }
}

/// A configuration that names no entry point or no classpath ends the launch
/// at once with `ConfigurationInvalid`: the first action is the last, and no
/// place is searched.
pub proof fn lemma_invalid_configuration_ends_at_once(
    strategies: Seq<StrategyView>,
    required: u16,
    main_class: Seq<char>,
)
    ensures
        initial(false, strategies, required, main_class).0.phase == Phase::Finished(
            LaunchOutcome::ConfigurationInvalid,
        ),
        initial(false, strategies, required, main_class).1 matches ActionView::Finish {
            outcome,
            ..
        } && outcome == LaunchOutcome::ConfigurationInvalid,
        initial(false, strategies, required, main_class).0.strategies.len() == 0,
{
}

/// A launch that is over stays over: whatever is reported, the state does
/// not change and the only action is to end with the same outcome.
pub proof fn lemma_finished_is_final(pre: LauncherView, event: EventView)
    requires
        pre.phase is Finished,
    ensures
        step_of(pre, event).0 == pre,
        step_of(pre, event).1 matches ActionView::Finish { outcome, .. } && pre.phase
            == Phase::Finished(outcome),
{
}

/// A launch begins in a state that it can be in, and every step leaves it in
/// one. The places to search, the requirement and the entry point never
/// change.
pub proof fn lemma_steps_keep_well_formed(pre: LauncherView, event: EventView)
    requires
        well_formed(pre),
    ensures
        well_formed(step_of(pre, event).0),
        step_of(pre, event).0.strategies == pre.strategies,
        step_of(pre, event).0.required == pre.required,
        step_of(pre, event).0.main_class == pre.main_class,
{
}

/// The state in which a launch begins is one that it can be in.
pub proof fn lemma_initial_well_formed(
    launchable: bool,
    strategies: Seq<StrategyView>,
    required: u16,
    main_class: Seq<char>,
)
    ensures
        well_formed(initial(launchable, strategies, required, main_class).0),
{
}

/// The places are searched strictly in their order: each search is for the
/// place right after the one that was tried before, and a launch begins with
/// the first.
pub proof fn lemma_places_in_order(pre: LauncherView, event: EventView)
    requires
        well_formed(pre),
        step_of(pre, event).1 is Locate,
    ensures
        step_of(pre, event).0.next == pre.next + 1,
        step_of(pre, event).0.phase is Resolving,
        step_of(pre, event).1 == ActionView::Locate(pre.strategies[pre.next + 1]),
{
}

/// The version gate stands before every attempt: a virtual machine is
/// created only from the candidate that a search has just reported, tagged
/// with the place that was searched, and only where its release information
/// lets it in.
pub proof fn lemma_gate_before_create(pre: LauncherView, event: EventView)
    requires
        step_of(pre, event).1 is Create,
    ensures
        pre.phase is Resolving,
        0 <= pre.next < pre.strategies.len(),
        event matches EventView::Located { path, release } && admitted(release, pre.required)
            && step_of(pre, event).1 == ActionView::Create(
            CandidateView { path, strategy: pre.strategies[pre.next] },
        ),
{
}

/// A virtual machine that was created is destroyed exactly once, on every
/// path. While it exists, no other place is searched and no other candidate
/// is started; the only way out is to destroy it. It is destroyed only where
/// it exists, and after that the launch ends with the outcome that was
/// settled when the order to destroy was given.
pub proof fn lemma_machine_destroyed_once(pre: LauncherView, event: EventView)
    ensures
        machine_live(pre.phase) ==> !(step_of(pre, event).1 is Locate) && !(step_of(
            pre,
            event,
        ).1 is Create) && !(step_of(pre, event).1 is Finish),
        machine_live(pre.phase) ==> machine_live(step_of(pre, event).0.phase) || (step_of(
            pre,
            event,
        ).0.phase is ShuttingDown && step_of(pre, event).1 is Destroy),
        step_of(pre, event).1 is Destroy ==> machine_live(pre.phase) && step_of(
            pre,
            event,
        ).0.phase is ShuttingDown,
        machine_live(step_of(pre, event).0.phase) ==> machine_live(pre.phase) || (pre.phase
            is Attempting && event is Succeeded),
        pre.phase matches Phase::ShuttingDown(outcome) ==> step_of(pre, event).0.phase
            == Phase::Finished(outcome) && !(step_of(pre, event).1 is Destroy),
{
}

/// Every step brings a launch nearer to its end: no launch goes on for ever,
/// and one over `n` places takes `6 n + 5` steps at most.
pub proof fn lemma_launch_terminates(pre: LauncherView, event: EventView)
    requires
        well_formed(pre),
        !(pre.phase is Finished),
    ensures
        0 <= steps_left(step_of(pre, event).0) < steps_left(pre),
{
}

/// How a launch can end. A search that runs out of places ends with
/// `CandidateIncompatible` where a candidate was turned away for its
/// version, and with `NoCandidateFound` where none was. No launch ends with
/// `InitializationFailed`: a candidate that cannot be started only sends the
/// search on. `Started`, `AttachFailed` and `InvocationFailed` come only
/// after a virtual machine was created, and `ConfigurationInvalid` never
/// comes from a step.
pub proof fn lemma_how_a_launch_ends(pre: LauncherView, event: EventView)
    requires
        well_formed(pre),
        !(pre.phase is Finished),
        step_of(pre, event).0.phase is Finished,
    ensures
        (pre.phase is Resolving || pre.phase is Attempting) ==> pre.next + 1
            == pre.strategies.len() && step_of(pre, event).0.phase == Phase::Finished(
            if step_of(pre, event).0.rejected {
                LaunchOutcome::CandidateIncompatible
            } else {
                LaunchOutcome::NoCandidateFound
            },
        ),
        !(pre.phase is Resolving || pre.phase is Attempting) ==> pre.phase is ShuttingDown,
        step_of(pre, event).0.phase != Phase::Finished(LaunchOutcome::InitializationFailed),
        step_of(pre, event).0.phase != Phase::Finished(LaunchOutcome::ConfigurationInvalid),
        (step_of(pre, event).0.phase == Phase::Finished(LaunchOutcome::Started) || step_of(
            pre,
            event,
        ).0.phase == Phase::Finished(LaunchOutcome::AttachFailed) || step_of(pre, event).0.phase
            == Phase::Finished(LaunchOutcome::InvocationFailed)) <==> pre.phase is ShuttingDown,
{
}

/// The outcome that is settled when a virtual machine is ordered destroyed:
/// `Started` exactly where the entry point ran and returned, `AttachFailed`
/// where attaching failed, `InvocationFailed` where the entry point did.
pub proof fn lemma_outcome_after_create(pre: LauncherView, event: EventView)
    requires
        step_of(pre, event).1 is Destroy,
    ensures
        step_of(pre, event).0.phase == Phase::ShuttingDown(
            if pre.phase is Started {
                LaunchOutcome::AttachFailed
            } else if event is Succeeded {
                LaunchOutcome::Started
            } else {
                LaunchOutcome::InvocationFailed
            },
        ),
        pre.phase is Started ==> !(event is Succeeded),
{
}

/// A candidate that was turned away is not forgotten, and one is noted as
/// turned away only where a search reported it and its version did not let
/// it in.
pub proof fn lemma_rejection_is_remembered(pre: LauncherView, event: EventView)
    ensures
        pre.rejected ==> step_of(pre, event).0.rejected,
        step_of(pre, event).0.rejected && !pre.rejected ==> pre.phase is Resolving && (event
            matches EventView::Located { release, .. } && !admitted(release, pre.required)),
{
}

} // verus!
