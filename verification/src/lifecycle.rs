//! Building an environment or reusing one: the decisions, step by step.
//!
//! The cache holds one directory for each fingerprint. A directory that is
//! there is ready: it was put there by one rename, after it had been built
//! in full somewhere else. The machine in this file decides what is to be
//! done next. Its caller does it, on the file system and with subprocesses,
//! and reports what happened.

use crate::manifest::{manifest_path, manifest_text, Manifest, ManifestView};
use crate::order::sorted_members;
use crate::paths::{join, joined_path};
use crate::fingerprint::{fingerprint, text_of};
use crate::reqs::Requirements;
use crate::venv::{
    copy_selector, create_command, install_command, text_of_string, Command, CommandView, Venv,
    VenvView,
};
use vstd::prelude::*;
use vstd::string::StringExecFns;

verus! {

/// The part of a build that can fail.
#[derive(Clone, Copy, Debug, PartialEq, Eq)]
pub enum Phase {
    /// Creating the cache root and the directory for scratch work in it.
    PrepareRoot,
    /// Making a scratch directory of one's own.
    MakeScratch,
    /// Finding the builder.
    LocateBuilder,
    /// Running the builder to create the environment.
    CreateEnvironment,
    /// Writing the manifest.
    WriteManifest,
    /// Running the builder to install what the manifest lists.
    Install,
    /// Moving the finished environment to its place in the cache.
    Publish,
}

/// What the caller reports after it has done what it was asked to do.
#[derive(Debug)]
pub enum Event {
    /// The directory asked about is there.
    Present,
    /// The directory asked about is not there.
    Absent,
    /// The directory was created, the file written, the rename or the
    /// removal done.
    Done,
    /// A scratch directory was made: its path.
    Scratch(String),
    /// The builder was found: its path.
    Builder(String),
    /// The subprocess ran and ended: its exit status, or `None` if a signal
    /// ended it.
    Exited(Option<i32>),
    /// What was asked for could not be done.
    Failed,
}

/// What an `Event` says, as plain text.
pub enum EventView {
    Present,
    Absent,
    Done,
    Scratch(Seq<char>),
    Builder(Seq<char>),
    Exited(Option<i32>),
    Failed,
}

impl View for Event {
    type V = EventView;

    open spec fn view(&self) -> EventView {
        match self {
            Event::Present => EventView::Present,
            Event::Absent => EventView::Absent,
            Event::Done => EventView::Done,
            Event::Scratch(path) => EventView::Scratch(path@),
            Event::Builder(path) => EventView::Builder(path@),
            Event::Exited(status) => EventView::Exited(*status),
            Event::Failed => EventView::Failed,
        }
    }
}

/// Where a build stands: what the caller was last asked to do.
#[derive(Debug)]
pub enum Step {
    /// Creating the directory for scratch work.
    Root,
    /// Making the scratch directory.
    Scratch,
    /// Finding the builder.
    Locate { scratch: String },
    /// Creating the environment in the scratch directory.
    Create { scratch: String, builder: String },
    /// Writing the manifest into the scratch directory.
    Manifest { scratch: String, builder: String },
    /// Installing what the manifest lists.
    Install { scratch: String, builder: String },
    /// Moving the scratch directory to its place in the cache.
    Publish { scratch: String },
    /// Removing the scratch directory after `phase` failed.
    Discard { phase: Phase },
}

/// What a `Step` says, as plain text.
pub enum StepView {
    Root,
    Scratch,
    Locate { scratch: Seq<char> },
    Create { scratch: Seq<char>, builder: Seq<char> },
    Manifest { scratch: Seq<char>, builder: Seq<char> },
    Install { scratch: Seq<char>, builder: Seq<char> },
    Publish { scratch: Seq<char> },
    Discard { phase: Phase },
}

impl View for Step {
    type V = StepView;

    open spec fn view(&self) -> StepView {
        match self {
            Step::Root => StepView::Root,
            Step::Scratch => StepView::Scratch,
            Step::Locate { scratch } => StepView::Locate { scratch: scratch@ },
            Step::Create { scratch, builder } => StepView::Create {
                scratch: scratch@,
                builder: builder@,
            },
            Step::Manifest { scratch, builder } => StepView::Manifest {
                scratch: scratch@,
                builder: builder@,
            },
            Step::Install { scratch, builder } => StepView::Install {
                scratch: scratch@,
                builder: builder@,
            },
            Step::Publish { scratch } => StepView::Publish { scratch: scratch@ },
            Step::Discard { phase } => StepView::Discard { phase: *phase },
        }
    }
}

/// The state of one run over one fingerprint.
#[derive(Debug)]
pub enum State {
    /// It is not known yet whether the environment is in the cache.
    Unknown,
    /// The environment was in the cache and is used as it is.
    Reused,
    /// The environment is being built.
    Building(Step),
    /// The environment was built and moved to its place in the cache.
    Published,
    /// The build failed in the given phase. Nothing was put in the
    /// environment's place in the cache.
    FailedCleaned(Phase),
}

/// What a `State` says, as plain text.
pub enum StateView {
    Unknown,
    Reused,
    Building(StepView),
    Published,
    FailedCleaned(Phase),
}

impl View for State {
    type V = StateView;

    open spec fn view(&self) -> StateView {
        match self {
            State::Unknown => StateView::Unknown,
            State::Reused => StateView::Reused,
            State::Building(step) => StateView::Building(step@),
            State::Published => StateView::Published,
            State::FailedCleaned(phase) => StateView::FailedCleaned(*phase),
        }
    }
}

/// What the caller is asked to do next.
#[derive(Debug)]
pub enum Action {
    /// Find out whether the directory `path` exists, and report `Present` or
    /// `Absent`.
    Probe { path: String },
    /// Create the directory `path` and the directories above it; that they
    /// exist already is no failure. Report `Done` or `Failed`.
    CreateDirs { path: String },
    /// Make a new directory under `parent`, with a name that nobody else
    /// uses. Report `Scratch` with its path, or `Failed`.
    MakeScratch { parent: String },
    /// Find the executable `program` on the search path. Report `Builder`
    /// with its path, or `Failed`.
    Locate { program: String },
    /// Run the command and wait for it. Report `Exited`, or `Failed` if it
    /// could not be started.
    Run(Command),
    /// Create the file anew with these contents; that it exists already is a
    /// failure. Report `Done` or `Failed`.
    WriteNew(Manifest),
    /// Move the directory `from` to `to` in one rename. Report `Done` or
    /// `Failed`.
    Rename { from: String, to: String },
    /// Remove the directory `path` and all that it holds. Report `Done` or
    /// `Failed`; a failure here is worth a warning and no more.
    Remove { path: String },
    /// The environment is ready. Nothing is left to do but to start it.
    Ready(Venv),
    /// The build failed in this phase. Nothing is left to do but to tell.
    Abort(Phase),
}

/// What an `Action` says, as plain text.
pub enum ActionView {
    Probe { path: Seq<char> },
    CreateDirs { path: Seq<char> },
    MakeScratch { parent: Seq<char> },
    Locate { program: Seq<char> },
    Run(CommandView),
    WriteNew(ManifestView),
    Rename { from: Seq<char>, to: Seq<char> },
    Remove { path: Seq<char> },
    Ready(VenvView),
    Abort(Phase),
}

impl View for Action {
    type V = ActionView;

    open spec fn view(&self) -> ActionView {
        match self {
            Action::Probe { path } => ActionView::Probe { path: path@ },
            Action::CreateDirs { path } => ActionView::CreateDirs { path: path@ },
            Action::MakeScratch { parent } => ActionView::MakeScratch { parent: parent@ },
            Action::Locate { program } => ActionView::Locate { program: program@ },
            Action::Run(command) => ActionView::Run(command@),
            Action::WriteNew(file) => ActionView::WriteNew(file@),
            Action::Rename { from, to } => ActionView::Rename { from: from@, to: to@ },
            Action::Remove { path } => ActionView::Remove { path: path@ },
            Action::Ready(venv) => ActionView::Ready(venv@),
            Action::Abort(phase) => ActionView::Abort(*phase),
        }
    }
}

/// What is fixed for a run: where the environment belongs, where scratch
/// work is done, and what the environment is to hold.
pub struct Plan {
    entry: String,
    scratch_root: String,
    python: Option<String>,
    offline: bool,
    manifest: Option<String>,
}

/// What a `Plan` says, as plain text.
pub struct PlanView {
    /// The environment's place in the cache.
    pub entry: Seq<char>,
    /// The directory under which scratch directories are made.
    pub scratch_root: Seq<char>,
    /// The interpreter selector, if any.
    pub python: Option<Seq<char>>,
    /// Whether the network is not to be used.
    pub offline: bool,
    /// The text of the manifest; `None` if nothing is to be installed.
    pub manifest: Option<Seq<char>>,
}

impl View for Plan {
    type V = PlanView;

    closed spec fn view(&self) -> PlanView {
        PlanView {
            entry: self.entry@,
            scratch_root: self.scratch_root@,
            python: text_of_string(self.python),
            offline: self.offline,
            manifest: text_of_string(self.manifest),
        }
    }
}

/// The cache root of the home directory `home`: `.spyn` in it.
pub open spec fn cache_root_of(home: Seq<char>) -> Seq<char> {
    joined_path(home, ".spyn"@)
}

/// The cache root of the home directory `home`.
pub fn cache_root(home: &str) -> (root: String)
    ensures
        root@ == cache_root_of(home@),
{
    join(home, ".spyn")
}

/// The plan for the cache root `root`, a requirement set and a selector.
///
/// The environment belongs in the directory of `root` that is named by the
/// fingerprint. Scratch work is done under `tmp` in `root`. The manifest
/// lists the members in ascending order; an empty set has none.
pub open spec fn plan_for(
    root: Seq<char>,
    members: Set<Seq<char>>,
    python: Option<Seq<char>>,
    offline: bool,
) -> PlanView {
    PlanView {
        entry: joined_path(root, fingerprint(members, python)),
        scratch_root: joined_path(root, "tmp"@),
        python,
        offline,
        manifest: if members == Set::<Seq<char>>::empty() {
            None
        } else {
            Some(manifest_text(sorted_members(members)))
        },
    }
}

/// The environment that a plan ends in.
pub open spec fn ready(plan: PlanView) -> ActionView {
    ActionView::Ready(VenvView { path: plan.entry, python: plan.python })
}

/// What follows a failure in `phase`: the scratch directory is removed
/// first, if one was made.
pub open spec fn give_up(scratch: Option<Seq<char>>, phase: Phase) -> (StateView, ActionView) {
    match scratch {
        Some(path) => (
            StateView::Building(StepView::Discard { phase }),
            ActionView::Remove { path },
        ),
        None => (StateView::FailedCleaned(phase), ActionView::Abort(phase)),
    }
}

/// What follows the last successful build step: the rename that puts the
/// environment in its place.
pub open spec fn publish(plan: PlanView, scratch: Seq<char>) -> (StateView, ActionView) {
    (
        StateView::Building(StepView::Publish { scratch }),
        ActionView::Rename { from: scratch, to: plan.entry },
    )
}

/// The state after `event` was reported in `state`, and what is to be done
/// next.
///
/// A directory that is found present is reused as it is. On any other
/// report of the first look a build begins: what cannot be seen is taken
/// to be absent. A build goes through its steps in order, each step on the success of the one before:
/// the directory for scratch work, a scratch directory, the builder, the
/// environment, the manifest and the installation (both only if there is
/// something to install), the rename. A subprocess succeeds if it exits
/// with status 0. Any other report ends the build: the scratch directory is
/// removed if there is one, and whatever is reported of the removal, the
/// run ends as failed in the phase that failed. A run that has ended stays
/// ended.
pub open spec fn advance(plan: PlanView, state: StateView, event: EventView) -> (
    StateView,
    ActionView,
) {
    match state {
        StateView::Unknown => match event {
            EventView::Present => (StateView::Reused, ready(plan)),
            _ => (
                StateView::Building(StepView::Root),
                ActionView::CreateDirs { path: plan.scratch_root },
            ),
        },
        StateView::Reused => (StateView::Reused, ready(plan)),
        StateView::Published => (StateView::Published, ready(plan)),
        StateView::FailedCleaned(phase) => (
            StateView::FailedCleaned(phase),
            ActionView::Abort(phase),
        ),
        StateView::Building(step) => match step {
            StepView::Root => match event {
                EventView::Done => (
                    StateView::Building(StepView::Scratch),
                    ActionView::MakeScratch { parent: plan.scratch_root },
                ),
                _ => give_up(None, Phase::PrepareRoot),
            },
            StepView::Scratch => match event {
                EventView::Scratch(scratch) => (
                    StateView::Building(StepView::Locate { scratch }),
                    ActionView::Locate { program: "uv"@ },
                ),
                _ => give_up(None, Phase::MakeScratch),
            },
            StepView::Locate { scratch } => match event {
                EventView::Builder(builder) => (
                    StateView::Building(StepView::Create { scratch, builder }),
                    ActionView::Run(create_command(builder, plan.offline, plan.python, scratch)),
                ),
                _ => give_up(Some(scratch), Phase::LocateBuilder),
            },
            StepView::Create { scratch, builder } => if event == EventView::Exited(Some(0i32)) {
                match plan.manifest {
                    Some(contents) => (
                        StateView::Building(StepView::Manifest { scratch, builder }),
                        ActionView::WriteNew(
                            ManifestView { path: manifest_path(scratch), contents },
                        ),
                    ),
                    None => publish(plan, scratch),
                }
            } else {
                give_up(Some(scratch), Phase::CreateEnvironment)
            },
            StepView::Manifest { scratch, builder } => match event {
                EventView::Done => (
                    StateView::Building(StepView::Install { scratch, builder }),
                    ActionView::Run(
                        install_command(builder, plan.offline, scratch, manifest_path(scratch)),
                    ),
                ),
                _ => give_up(Some(scratch), Phase::WriteManifest),
            },
            StepView::Install { scratch, builder } => if event == EventView::Exited(Some(0i32)) {
                publish(plan, scratch)
            } else {
                give_up(Some(scratch), Phase::Install)
            },
            StepView::Publish { scratch } => match event {
                EventView::Done => (StateView::Published, ready(plan)),
                _ => give_up(Some(scratch), Phase::Publish),
            },
            StepView::Discard { phase } => (
                StateView::FailedCleaned(phase),
                ActionView::Abort(phase),
            ),
        },
    }
}

/// The state that a run reaches from `state` when `events` are reported one
/// after the other, and the actions that it asks for on the way.
pub open spec fn run(plan: PlanView, state: StateView, events: Seq<EventView>) -> (
    StateView,
    Seq<ActionView>,
)
    decreases events.len(),
{
    if events.len() == 0 {
        (state, Seq::empty())
    } else {
        let (next, action) = advance(plan, state, events.first());
        let (last, actions) = run(plan, next, events.drop_first());
        (last, seq![action] + actions)
    }
}

/// Whether a run in `state` has failed in `phase`: it has ended so, or only
/// the removal of the scratch directory is still under way.
pub open spec fn failed_in(state: StateView, phase: Phase) -> bool {
    state == StateView::FailedCleaned(phase) || state == StateView::Building(
        StepView::Discard { phase },
    )
}

/// An environment that is ready stays ready: whatever is reported to a run
/// that has reused or published its environment, the run stays where it is
/// and asks for nothing but the start of the environment.
pub proof fn law_success_is_final(plan: PlanView, state: StateView, events: Seq<EventView>)
    requires
        state == StateView::Reused || state == StateView::Published,
    ensures
        run(plan, state, events).0 == state,
        run(plan, state, events).1.len() == events.len(),
        forall|i: int| 0 <= i < events.len() ==> run(plan, state, events).1[i] == ready(plan),
    decreases events.len(),
{
    if events.len() > 0 {
        law_success_is_final(plan, state, events.drop_first());
    }
}

/// A failure is final: whatever is reported to a run that has failed in some
/// phase, the run never asks for anything but to tell of that failure, and
/// after the first report it has ended as failed in that phase. It never
/// asks for a rename, so nothing is put in the environment's place.
pub proof fn law_failure_is_final(
    plan: PlanView,
    state: StateView,
    phase: Phase,
    events: Seq<EventView>,
)
    requires
        failed_in(state, phase),
    ensures
        failed_in(run(plan, state, events).0, phase),
        events.len() > 0 ==> run(plan, state, events).0 == StateView::FailedCleaned(phase),
        run(plan, state, events).1.len() == events.len(),
        forall|i: int|
            0 <= i < events.len() ==> run(plan, state, events).1[i] == ActionView::Abort(phase),
    decreases events.len(),
{
    if events.len() > 0 {
        law_failure_is_final(plan, StateView::FailedCleaned(phase), phase, events.drop_first());
    }
}

/// A directory that is found in the cache is reused as it is: the run asks
/// for no directory, no subprocess, no file and no rename, only for the start
/// of the environment in that directory.
pub proof fn law_present_is_reused(plan: PlanView, events: Seq<EventView>)
    requires
        events.len() > 0,
        events[0] == EventView::Present,
    ensures
        run(plan, StateView::Unknown, events).0 == StateView::Reused,
        run(plan, StateView::Unknown, events).1.len() == events.len(),
        forall|i: int|
            0 <= i < events.len() ==> run(plan, StateView::Unknown, events).1[i] == ready(plan),
{
    law_success_is_final(plan, StateView::Reused, events.drop_first());
}

/// The rename that puts an environment in its place is asked for only when
/// the last build step has succeeded: when the installer has exited with
/// status 0, or, where nothing is to be installed, when the builder has.
/// It moves the scratch directory of that build, and moves it to the place
/// that the plan names.
pub proof fn law_publish_needs_success(plan: PlanView, state: StateView, event: EventView)
    requires
        advance(plan, state, event).1 is Rename,
    ensures
        event == EventView::Exited(Some(0i32)),
        state matches StateView::Building(step) && match step {
            StepView::Install { scratch, builder } => advance(plan, state, event).1 == (
            ActionView::Rename { from: scratch, to: plan.entry }),
            StepView::Create { scratch, builder } => plan.manifest is None && advance(
                plan,
                state,
                event,
            ).1 == (ActionView::Rename { from: scratch, to: plan.entry }),
            _ => false,
        },
{
}

/// A run reaches `Published` in one way only: by the report that the rename
/// was done.
pub proof fn law_published_after_rename(plan: PlanView, state: StateView, event: EventView)
    requires
        state != StateView::Published,
        advance(plan, state, event).0 == StateView::Published,
    ensures
        state matches StateView::Building(StepView::Publish { scratch }),
        event == EventView::Done,
{
}

/// An installer that fails leaves nothing in the cache: the scratch
/// directory is removed, the run ends as failed in the install phase, and no
/// rename is ever asked for.
pub proof fn law_failed_install(
    plan: PlanView,
    scratch: Seq<char>,
    builder: Seq<char>,
    events: Seq<EventView>,
)
    requires
        events.len() > 0,
        events[0] != EventView::Exited(Some(0i32)),
    ensures
        ({
            let (end, actions) = run(
                plan,
                StateView::Building(StepView::Install { scratch, builder }),
                events,
            );
            &&& actions.len() == events.len()
            &&& actions[0] == (ActionView::Remove { path: scratch })
            &&& forall|i: int|
                1 <= i < events.len() ==> actions[i] == ActionView::Abort(Phase::Install)
            &&& forall|i: int| 0 <= i < events.len() ==> !(actions[i] is Rename)
            &&& failed_in(end, Phase::Install)
            &&& events.len() > 1 ==> end == StateView::FailedCleaned(Phase::Install)
        }),
{
    let start = StateView::Building(StepView::Install { scratch, builder });
    let next = StateView::Building(StepView::Discard { phase: Phase::Install });
    assert(advance(plan, start, events[0]) == (next, ActionView::Remove { path: scratch }));
    law_failure_is_final(plan, next, Phase::Install, events.drop_first());
    let (end, actions) = run(plan, start, events);
    let rest = run(plan, next, events.drop_first()).1;
    assert(actions == seq![ActionView::Remove { path: scratch }] + rest);
    assert forall|i: int| 1 <= i < events.len() implies actions[i] == ActionView::Abort(
        Phase::Install,
    ) by {
        assert(actions[i] == rest[i - 1]);
    }
}

/// The reports of a build in which every step succeeds and there is
/// something to install.
pub open spec fn smooth_build(scratch: Seq<char>, builder: Seq<char>) -> Seq<EventView> {
    seq![
        EventView::Absent,
        EventView::Done,
        EventView::Scratch(scratch),
        EventView::Builder(builder),
        EventView::Exited(Some(0i32)),
        EventView::Done,
        EventView::Exited(Some(0i32)),
        EventView::Done,
    ]
}

/// The reports of a build in which every step succeeds and there is nothing
/// to install.
pub open spec fn smooth_bare_build(scratch: Seq<char>, builder: Seq<char>) -> Seq<EventView> {
    seq![
        EventView::Absent,
        EventView::Done,
        EventView::Scratch(scratch),
        EventView::Builder(builder),
        EventView::Exited(Some(0i32)),
        EventView::Done,
    ]
}

/// One step of a run.
proof fn lemma_run_step(plan: PlanView, state: StateView, events: Seq<EventView>)
    requires
        events.len() > 0,
    ensures
        run(plan, state, events) == ({
            let (next, action) = advance(plan, state, events.first());
            let (last, actions) = run(plan, next, events.drop_first());
            (last, seq![action] + actions)
        }),
{
}

/// A build in which every step succeeds ends as `Published`. On the way the
/// scratch root is created, a scratch directory made, the builder found and
/// run, the manifest written into the scratch directory, the installer run
/// there, and last of all the scratch directory moved to the environment's
/// place.
pub proof fn law_smooth_build(
    plan: PlanView,
    contents: Seq<char>,
    scratch: Seq<char>,
    builder: Seq<char>,
)
    requires
        plan.manifest == Some(contents),
    ensures
        run(plan, StateView::Unknown, smooth_build(scratch, builder)) == (
            StateView::Published,
            seq![
                ActionView::CreateDirs { path: plan.scratch_root },
                ActionView::MakeScratch { parent: plan.scratch_root },
                ActionView::Locate { program: "uv"@ },
                ActionView::Run(create_command(builder, plan.offline, plan.python, scratch)),
                ActionView::WriteNew(ManifestView { path: manifest_path(scratch), contents }),
                ActionView::Run(
                    install_command(builder, plan.offline, scratch, manifest_path(scratch)),
                ),
                ActionView::Rename { from: scratch, to: plan.entry },
                ready(plan),
            ],
        ),
{
    let events = smooth_build(scratch, builder);
    let s1 = StateView::Building(StepView::Root);
    let s2 = StateView::Building(StepView::Scratch);
    let s3 = StateView::Building(StepView::Locate { scratch });
    let s4 = StateView::Building(StepView::Create { scratch, builder });
    let s5 = StateView::Building(StepView::Manifest { scratch, builder });
    let s6 = StateView::Building(StepView::Install { scratch, builder });
    let s7 = StateView::Building(StepView::Publish { scratch });
    lemma_run_step(plan, StateView::Unknown, events);
    lemma_run_step(plan, s1, events.skip(1));
    lemma_run_step(plan, s2, events.skip(2));
    lemma_run_step(plan, s3, events.skip(3));
    lemma_run_step(plan, s4, events.skip(4));
    lemma_run_step(plan, s5, events.skip(5));
    lemma_run_step(plan, s6, events.skip(6));
    lemma_run_step(plan, s7, events.skip(7));
    assert(events.drop_first() =~= events.skip(1));
    assert forall|k: int| 1 <= k < 8 implies (#[trigger] events.skip(k)).drop_first()
        == events.skip(k + 1) by {
        assert(events.skip(k).drop_first() =~= events.skip(k + 1));
    }
    assert(run(plan, StateView::Unknown, events).1 =~= seq![
        ActionView::CreateDirs { path: plan.scratch_root },
        ActionView::MakeScratch { parent: plan.scratch_root },
        ActionView::Locate { program: "uv"@ },
        ActionView::Run(create_command(builder, plan.offline, plan.python, scratch)),
        ActionView::WriteNew(ManifestView { path: manifest_path(scratch), contents }),
        ActionView::Run(install_command(builder, plan.offline, scratch, manifest_path(scratch))),
        ActionView::Rename { from: scratch, to: plan.entry },
        ready(plan),
    ]);
}

/// Where nothing is to be installed, a build in which every step succeeds
/// writes no manifest and runs no installer: the rename follows the creation
/// of the environment.
pub proof fn law_smooth_bare_build(plan: PlanView, scratch: Seq<char>, builder: Seq<char>)
    requires
        plan.manifest is None,
    ensures
        run(plan, StateView::Unknown, smooth_bare_build(scratch, builder)) == (
            StateView::Published,
            seq![
                ActionView::CreateDirs { path: plan.scratch_root },
                ActionView::MakeScratch { parent: plan.scratch_root },
                ActionView::Locate { program: "uv"@ },
                ActionView::Run(create_command(builder, plan.offline, plan.python, scratch)),
                ActionView::Rename { from: scratch, to: plan.entry },
                ready(plan),
            ],
        ),
{
    let events = smooth_bare_build(scratch, builder);
    let s1 = StateView::Building(StepView::Root);
    let s2 = StateView::Building(StepView::Scratch);
    let s3 = StateView::Building(StepView::Locate { scratch });
    let s4 = StateView::Building(StepView::Create { scratch, builder });
    let s5 = StateView::Building(StepView::Publish { scratch });
    lemma_run_step(plan, StateView::Unknown, events);
    lemma_run_step(plan, s1, events.skip(1));
    lemma_run_step(plan, s2, events.skip(2));
    lemma_run_step(plan, s3, events.skip(3));
    lemma_run_step(plan, s4, events.skip(4));
    lemma_run_step(plan, s5, events.skip(5));
    assert(events.drop_first() =~= events.skip(1));
    assert forall|k: int| 1 <= k < 6 implies (#[trigger] events.skip(k)).drop_first()
        == events.skip(k + 1) by {
        assert(events.skip(k).drop_first() =~= events.skip(k + 1));
    }
    assert(run(plan, StateView::Unknown, events).1 =~= seq![
        ActionView::CreateDirs { path: plan.scratch_root },
        ActionView::MakeScratch { parent: plan.scratch_root },
        ActionView::Locate { program: "uv"@ },
        ActionView::Run(create_command(builder, plan.offline, plan.python, scratch)),
        ActionView::Rename { from: scratch, to: plan.entry },
        ready(plan),
    ]);
}

/// The start of an environment is asked for only when it is in the cache:
/// when its directory was found present, when the rename was reported done,
/// or when the run had ended so before.
pub proof fn law_ready_means_in_cache(plan: PlanView, state: StateView, event: EventView)
    requires
        advance(plan, state, event).1 is Ready,
    ensures
        advance(plan, state, event).1 == ready(plan),
        advance(plan, state, event).0 == StateView::Reused || advance(plan, state, event).0
            == StateView::Published,
        ({
            ||| state == StateView::Unknown && event == EventView::Present
            ||| state matches StateView::Building(StepView::Publish { scratch }) && event
                == EventView::Done
            ||| state == StateView::Reused
            ||| state == StateView::Published
        }),
{
}

/// The end of a run that goes on from its `k`-th report is the end of the
/// run that takes that report and goes on from the next.
proof fn lemma_run_from(plan: PlanView, state: StateView, events: Seq<EventView>, k: int)
    requires
        0 <= k <= events.len(),
    ensures
        k == events.len() ==> run(plan, state, events.skip(k)).0 == state,
        k < events.len() ==> run(plan, state, events.skip(k)).0 == run(
            plan,
            advance(plan, state, events[k]).0,
            events.skip(k + 1),
        ).0,
{
    if k < events.len() {
        assert(events.skip(k).drop_first() =~= events.skip(k + 1));
        assert(events.skip(k).first() == events[k]);
    }
}

/// A run that has failed never ends as `Published`.
proof fn lemma_failed_run(
    plan: PlanView,
    outcome: (StateView, ActionView),
    scratch: Option<Seq<char>>,
    phase: Phase,
    events: Seq<EventView>,
)
    requires
        outcome == give_up(scratch, phase),
    ensures
        run(plan, outcome.0, events).0 != StateView::Published,
{
    law_failure_is_final(plan, outcome.0, phase, events);
}

/// Nothing is published unless every step has succeeded.
///
/// If a run ends as `Published`, then the directory was not found present,
/// the scratch root was created, a scratch directory was made, the builder
/// was found and exited with status 0, and the rename was done; and where
/// there is something to install, the manifest was written and the
/// installer exited with status 0 before the rename. A failure at any step,
/// whatever is reported afterwards, keeps the run from ever being published.
pub proof fn law_published_only_by_success(plan: PlanView, events: Seq<EventView>)
    requires
        run(plan, StateView::Unknown, events).0 == StateView::Published,
    ensures
        events.len() >= 6,
        events[0] != EventView::Present,
        events[1] == EventView::Done,
        events[2] is Scratch,
        events[3] is Builder,
        events[4] == EventView::Exited(Some(0i32)),
        events[5] == EventView::Done,
        plan.manifest is Some ==> events.len() >= 8 && events[6] == EventView::Exited(Some(0i32))
            && events[7] == EventView::Done,
{
    let n = events.len() as int;
    assert(events.skip(0) =~= events);
    lemma_run_from(plan, StateView::Unknown, events, 0);
    assert(n >= 1);
    if events[0] == EventView::Present {
        law_success_is_final(plan, StateView::Reused, events.skip(1));
    }
    let s1 = StateView::Building(StepView::Root);
    lemma_run_from(plan, s1, events, 1);
    assert(n >= 2);
    lemma_failed_run(plan, give_up(None, Phase::PrepareRoot), None, Phase::PrepareRoot, events.skip(2));
    assert(events[1] == EventView::Done);
    let s2 = StateView::Building(StepView::Scratch);
    lemma_run_from(plan, s2, events, 2);
    assert(n >= 3);
    lemma_failed_run(plan, give_up(None, Phase::MakeScratch), None, Phase::MakeScratch, events.skip(3));
    assert(events[2] is Scratch);
    let scratch = events[2]->Scratch_0;
    let s3 = StateView::Building(StepView::Locate { scratch });
    lemma_run_from(plan, s3, events, 3);
    assert(n >= 4);
    lemma_failed_run(
        plan,
        give_up(Some(scratch), Phase::LocateBuilder),
        Some(scratch),
        Phase::LocateBuilder,
        events.skip(4),
    );
    assert(events[3] is Builder);
    let builder = events[3]->Builder_0;
    let s4 = StateView::Building(StepView::Create { scratch, builder });
    lemma_run_from(plan, s4, events, 4);
    assert(n >= 5);
    lemma_failed_run(
        plan,
        give_up(Some(scratch), Phase::CreateEnvironment),
        Some(scratch),
        Phase::CreateEnvironment,
        events.skip(5),
    );
    assert(events[4] == EventView::Exited(Some(0i32)));
    let s_publish = StateView::Building(StepView::Publish { scratch });
    match plan.manifest {
        None => {
            lemma_run_from(plan, s_publish, events, 5);
            assert(n >= 6);
            lemma_failed_run(
                plan,
                give_up(Some(scratch), Phase::Publish),
                Some(scratch),
                Phase::Publish,
                events.skip(6),
            );
            assert(events[5] == EventView::Done);
        },
        Some(contents) => {
            let s5 = StateView::Building(StepView::Manifest { scratch, builder });
            lemma_run_from(plan, s5, events, 5);
            assert(n >= 6);
            lemma_failed_run(
                plan,
                give_up(Some(scratch), Phase::WriteManifest),
                Some(scratch),
                Phase::WriteManifest,
                events.skip(6),
            );
            assert(events[5] == EventView::Done);
            let s6 = StateView::Building(StepView::Install { scratch, builder });
            lemma_run_from(plan, s6, events, 6);
            assert(n >= 7);
            lemma_failed_run(
                plan,
                give_up(Some(scratch), Phase::Install),
                Some(scratch),
                Phase::Install,
                events.skip(7),
            );
            assert(events[6] == EventView::Exited(Some(0i32)));
            lemma_run_from(plan, s_publish, events, 7);
            assert(n >= 8);
            lemma_failed_run(
                plan,
                give_up(Some(scratch), Phase::Publish),
                Some(scratch),
                Phase::Publish,
                events.skip(8),
            );
            assert(events[7] == EventView::Done);
        },
    }
}

/// Where an environment belongs is a matter of its members and its selector
/// alone: two runs over the same cache root with the same members and the
/// same selector look for it in the same place.
pub proof fn law_same_inputs_same_entry(
    root: Seq<char>,
    first: Set<Seq<char>>,
    second: Set<Seq<char>>,
    python: Option<Seq<char>>,
    first_offline: bool,
    second_offline: bool,
)
    requires
        first =~= second,
    ensures
        plan_for(root, first, python, first_offline).entry == plan_for(
            root,
            second,
            python,
            second_offline,
        ).entry,
{
}

/// One run over one fingerprint: the plan, and how far the run has come.
pub struct Lifecycle {
    plan: Plan,
    state: State,
}

impl View for Lifecycle {
    type V = StateView;

    closed spec fn view(&self) -> StateView {
        self.state@
    }
}

/// The text of an optional borrowed string.
pub open spec fn selector_text(python: Option<&String>) -> Option<Seq<char>> {
    match python {
        Some(p) => Some(p@),
        None => None,
    }
}

/// An optional string as an optional string slice.
fn as_slice(python: Option<&String>) -> (r: Option<&str>)
    ensures
        text_of(r) == selector_text(python),
{
    match python {
        Some(p) => Some(p.as_str()),
        None => None,
    }
}

impl Plan {
    /// The action that ends a run in success.
    fn ready(&self) -> (action: Action)
        ensures
            action@ == ready(self@),
    {
        Action::Ready(Venv::new(self.entry.as_str(), self.python.as_ref()))
    }

    /// State and action after a failure in `phase`.
    fn give_up(scratch: Option<String>, phase: Phase) -> (r: (State, Action))
        ensures
            (r.0@, r.1@) == give_up(text_of_string(scratch), phase),
    {
        match scratch {
            Some(path) => (State::Building(Step::Discard { phase }), Action::Remove { path }),
            None => (State::FailedCleaned(phase), Action::Abort(phase)),
        }
    }

    /// State and action after the last successful build step.
    fn publish(&self, scratch: String) -> (r: (State, Action))
        ensures
            (r.0@, r.1@) == publish(self@, scratch@),
    {
        let from = scratch.clone();
        (
            State::Building(Step::Publish { scratch }),
            Action::Rename { from, to: self.entry.clone() },
        )
    }

    /// State and action after `event` was reported in `state`.
    fn advance(&self, state: State, event: Event) -> (r: (State, Action))
        ensures
            (r.0@, r.1@) == advance(self@, state@, event@),
    {
        match state {
            State::Unknown => match event {
                Event::Present => (State::Reused, self.ready()),
                _ => (
                    State::Building(Step::Root),
                    Action::CreateDirs { path: self.scratch_root.clone() },
                ),
            },
            State::Reused => (State::Reused, self.ready()),
            State::Published => (State::Published, self.ready()),
            State::FailedCleaned(phase) => (State::FailedCleaned(phase), Action::Abort(phase)),
            State::Building(step) => match step {
                Step::Root => match event {
                    Event::Done => (
                        State::Building(Step::Scratch),
                        Action::MakeScratch { parent: self.scratch_root.clone() },
                    ),
                    _ => Plan::give_up(None, Phase::PrepareRoot),
                },
                Step::Scratch => match event {
                    Event::Scratch(scratch) => (
                        State::Building(Step::Locate { scratch }),
                        Action::Locate { program: String::from_str("uv") },
                    ),
                    _ => Plan::give_up(None, Phase::MakeScratch),
                },
                Step::Locate { scratch } => match event {
                    Event::Builder(builder) => {
                        let venv = Venv::new(scratch.as_str(), self.python.as_ref());
                        let command = venv.create_command(builder.as_str(), self.offline);
                        (State::Building(Step::Create { scratch, builder }), Action::Run(command))
                    },
                    _ => Plan::give_up(Some(scratch), Phase::LocateBuilder),
                },
                Step::Create { scratch, builder } => match event {
                    Event::Exited(Some(0)) => match &self.manifest {
                        Some(contents) => {
                            let file = Manifest::in_dir(scratch.as_str(), contents.clone());
                            (
                                State::Building(Step::Manifest { scratch, builder }),
                                Action::WriteNew(file),
                            )
                        },
                        None => self.publish(scratch),
                    },
                    _ => Plan::give_up(Some(scratch), Phase::CreateEnvironment),
                },
                Step::Manifest { scratch, builder } => match event {
                    Event::Done => {
                        let venv = Venv::new(scratch.as_str(), self.python.as_ref());
                        let file = join(scratch.as_str(), "requirements.txt");
                        let command = venv.install_command(
                            builder.as_str(),
                            self.offline,
                            file.as_str(),
                        );
                        (State::Building(Step::Install { scratch, builder }), Action::Run(command))
                    },
                    _ => Plan::give_up(Some(scratch), Phase::WriteManifest),
                },
                Step::Install { scratch, builder } => match event {
                    Event::Exited(Some(0)) => self.publish(scratch),
                    _ => Plan::give_up(Some(scratch), Phase::Install),
                },
                Step::Publish { scratch } => match event {
                    Event::Done => (State::Published, self.ready()),
                    _ => Plan::give_up(Some(scratch), Phase::Publish),
                },
                Step::Discard { phase } => (State::FailedCleaned(phase), Action::Abort(phase)),
            },
        }
    }
}

impl Lifecycle {
    /// The plan of this run. It never changes.
    pub closed spec fn plan(&self) -> PlanView {
        self.plan@
    }

    /// Begins a run for the cache root `root`. Nothing is known yet; the
    /// first thing asked is whether the environment's directory exists.
    pub fn start(
        root: &str,
        requirements: &Requirements,
        python: Option<&String>,
        offline: bool,
    ) -> (r: (Lifecycle, Action))
        requires
            requirements.wf(),
        ensures
            r.0.plan() == plan_for(root@, requirements@, selector_text(python), offline),
            r.0@ == StateView::Unknown,
            r.1@ == (ActionView::Probe { path: r.0.plan().entry }),
    {
        let name = requirements.hash(as_slice(python));
        let entry = join(root, name.as_str());
        let scratch_root = join(root, "tmp");
        let manifest = requirements.manifest();
        let path = entry.clone();
        let plan = Plan { entry, scratch_root, python: copy_selector(python), offline, manifest };
        (Lifecycle { plan, state: State::Unknown }, Action::Probe { path })
    }

    /// Takes the report of what was done and says what is to be done next.
    pub fn step(self, event: Event) -> (r: (Lifecycle, Action))
        ensures
            r.0.plan() == self.plan(),
            (r.0@, r.1@) == advance(self.plan(), self@, event@),
    {
        let Lifecycle { plan, state } = self;
        let (state, action) = plan.advance(state, event);
        (Lifecycle { plan, state }, action)
    }

    /// How far the run has come.
    pub fn state(&self) -> (state: &State)
        ensures
            state@ == self@,
    {
        &self.state
    }
}

} // verus!
