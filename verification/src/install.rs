use vstd::prelude::*;
use vstd::string::StringExecFns;
use crate::args::InstallArgs;
use crate::config::ConfigItem;
use crate::errors::{Error, HookExecutionError};
use crate::utils::{
    absolute_path, has_home_prefix, spec_expand_home, spec_first_index, spec_resolve,
    split_mapping,
};

verus! {

// ---------------------------------------------------------------------------
// Resolution helpers shared by the linker's contract and the step machine
// ---------------------------------------------------------------------------

/// The view of an optional borrowed string.
pub open spec fn opt_str_view(o: Option<&str>) -> Option<Seq<char>> {
    match o {
        None => None,
        Some(s) => Some(s@),
    }
}

/// Resolution of `path` cannot even start: it uses the home shorthand and no
/// home directory is known.
pub open spec fn resolve_fails_home(path: Seq<char>, home: Option<Seq<char>>) -> bool {
    has_home_prefix(path) && home is None
}

/// `path` after home expansion; meaningful when resolution does not fail on a
/// missing home directory.
pub open spec fn spec_expanded(path: Seq<char>, home: Option<Seq<char>>) -> Seq<char> {
    if has_home_prefix(path) {
        spec_expand_home(path, home.unwrap())
    } else {
        path
    }
}

/// What `absolute_path` returns for `path`: its lexical resolution after home
/// expansion, `None` when normalization pops above the root.
pub open spec fn spec_abs_path(path: Seq<char>, home: Option<Seq<char>>, cwd: Seq<char>) -> Option<
    Seq<char>,
> {
    spec_resolve(spec_expanded(path, home), cwd)
}

// ---------------------------------------------------------------------------
// The mathematical model of the engine
// ---------------------------------------------------------------------------

/// A model-level error, carrying what the engine's contracts pin down. The
/// advisory message of an `Error::Unexpected` is not part of the model.
pub enum ErrorModel {
    Io(Seq<char>),
    Mapping(Seq<char>),
    Version(u16),
    Hook { code: Option<i32>, command: Seq<char>, stderr: Seq<char> },
    Path(Seq<char>),
    Item(Seq<char>),
    HomeMissing,
}

/// The model of an `Error` value.
pub open spec fn error_model(e: Error) -> ErrorModel {
    match e {
        Error::IoError(s) => ErrorModel::Io(s@),
        Error::FileMappingError(s) => ErrorModel::Mapping(s@),
        Error::InvalidConfigVersion(v) => ErrorModel::Version(v),
        Error::HookExecutionError(h) => ErrorModel::Hook {
            code: h.status,
            command: h.command@,
            stderr: h.stderr@,
        },
        Error::InvalidPath(p) => ErrorModel::Path(p@),
        Error::InvalidItem(s) => ErrorModel::Item(s@),
        Error::Unexpected(_) => ErrorModel::HomeMissing,
    }
}

/// The model of a link plan.
pub struct LinkPlanModel {
    pub origin_abs: Seq<char>,
    pub dest_abs: Seq<char>,
    pub make_parent: bool,
    pub force: bool,
}

/// What the linker decides for one origin/destination pair: nothing to do
/// under dry-run, a failed resolution, or the plan the filesystem collaborator
/// must apply.
pub open spec fn spec_create_link(
    origin: Seq<char>,
    dst: Seq<char>,
    dry_run: bool,
    parent: bool,
    force: bool,
    home: Option<Seq<char>>,
    cwd: Seq<char>,
) -> Result<Option<LinkPlanModel>, ErrorModel> {
    if dry_run {
        Ok(None)
    } else if resolve_fails_home(dst, home) {
        Err(ErrorModel::HomeMissing)
    } else {
        match spec_abs_path(dst, home, cwd) {
            None => Err(ErrorModel::Path(dst)),
            Some(d) => if resolve_fails_home(origin, home) {
                Err(ErrorModel::HomeMissing)
            } else {
                match spec_abs_path(origin, home, cwd) {
                    None => Err(ErrorModel::Path(origin)),
                    Some(o) => Ok(
                        Some(
                            LinkPlanModel {
                                origin_abs: o,
                                dest_abs: d,
                                make_parent: parent,
                                force: force,
                            },
                        ),
                    ),
                }
            },
        }
    }
}

// ---------------------------------------------------------------------------
// The linker
// ---------------------------------------------------------------------------

/// What the filesystem collaborator must do to create one link: create the
/// destination's parent directories when asked, remove an existing
/// destination when forcing, then place a symbolic link at `dest_abs`
/// pointing to `origin_abs`.
#[derive(Debug, Clone)]
pub struct LinkPlan {
    pub origin_abs: String,
    pub dest_abs: String,
    pub make_parent: bool,
    pub force: bool,
}

impl LinkPlan {
    pub open spec fn model(self) -> LinkPlanModel {
        LinkPlanModel {
            origin_abs: self.origin_abs@,
            dest_abs: self.dest_abs@,
            make_parent: self.make_parent,
            force: self.force,
        }
    }
}

/// The model of the linker's result.
pub open spec fn link_result_model(r: Result<Option<LinkPlan>, Error>) -> Result<
    Option<LinkPlanModel>,
    ErrorModel,
> {
    match r {
        Ok(None) => Ok(None),
        Ok(Some(plan)) => Ok(Some(plan.model())),
        Err(e) => Err(error_model(e)),
    }
}

/// Decides how to create the link `origin -> dst`. Under dry-run it succeeds
/// immediately with nothing to do, without even resolving the paths; else it
/// resolves the destination, then the origin, and hands back the plan the
/// filesystem must apply. Purely lexical: the filesystem is not consulted.
pub fn create_link(
    origin: &str,
    dst: &str,
    args: &InstallArgs,
    home: Option<&str>,
    cwd: &str,
) -> (r: Result<Option<LinkPlan>, Error>)
    ensures
        link_result_model(r) == spec_create_link(
            origin@,
            dst@,
            args.dry_run,
            args.parent,
            args.force,
            opt_str_view(home),
            cwd@,
        ),
{
    if args.dry_run {
        return Ok(None);
    }
    let dst_path = match absolute_path(dst, home, cwd) {
        Err(e) => return Err(e),
        Ok(p) => p,
    };
    let origin_path = match absolute_path(origin, home, cwd) {
        Err(e) => return Err(e),
        Ok(p) => p,
    };
    Ok(
        Some(
            LinkPlan {
                origin_abs: origin_path,
                dest_abs: dst_path,
                make_parent: args.parent,
                force: args.force,
            },
        ),
    )
}

// ---------------------------------------------------------------------------
// The per-item step machine
// ---------------------------------------------------------------------------

/// Where the engine stands inside one item's install protocol.
#[derive(Debug, Clone, Copy)]
pub enum Phase {
    /// Running the `before` hooks; `index` is the next hook.
    PreHooks { index: usize },
    /// Creating links; `index` is the next mapping.
    Links { index: usize },
    /// Running the `after` hooks; `index` is the next hook.
    PostHooks { index: usize },
    /// Every step succeeded.
    Done,
    /// A step failed; the machine holds the first error.
    Failed,
}

/// Model-level phase; a failed machine carries its error's model.
pub enum PhaseModel {
    PreHooks(int),
    Links(int),
    PostHooks(int),
    Done,
    Failed(ErrorModel),
}

/// The whole engine state, over sequences and plain values.
pub struct InstallerModel {
    pub mappings: Seq<Seq<char>>,
    pub before: Seq<Seq<char>>,
    pub after: Seq<Seq<char>>,
    pub force: bool,
    pub parent: bool,
    pub dry_run: bool,
    pub skip_hooks: bool,
    pub home: Option<Seq<char>>,
    pub cwd: Seq<char>,
    pub phase: PhaseModel,
}

/// Hooks are executed only when neither dry-run nor skip-hooks is set.
pub open spec fn should_execute_hooks(dry_run: bool, skip_hooks: bool) -> bool {
    !dry_run && !skip_hooks
}

/// What the driver must do next, as the model sees it.
pub enum ActionModel {
    Hook { hook: Seq<char>, pre: bool, execute: bool },
    Link { origin: Seq<char>, dest: Seq<char>, plan: Option<LinkPlanModel> },
    Done,
    Failed,
}

/// The outcome of one hook, as the model sees it.
pub enum HookOutcomeModel {
    Skipped,
    Finished { code: Option<i32>, stderr: Seq<char> },
}

/// A hook outcome counts as success when the hook was skipped or exited zero;
/// a non-zero exit or a signal termination (no code) is a failure.
pub open spec fn hook_outcome_ok(o: HookOutcomeModel) -> bool {
    match o {
        HookOutcomeModel::Skipped => true,
        HookOutcomeModel::Finished { code, .. } => code == Some(0i32),
    }
}

/// The outcome of applying a link plan, as the model sees it.
pub enum LinkOutcomeModel {
    Created,
    Failed { message: Seq<char> },
}

pub open spec fn phase_model_rank(p: PhaseModel) -> nat {
    match p {
        PhaseModel::PreHooks(_) => 3,
        PhaseModel::Links(_) => 2,
        PhaseModel::PostHooks(_) => 1,
        PhaseModel::Done => 0,
        PhaseModel::Failed(_) => 0,
    }
}

/// The engine's next step. Hook and (non-dry-run) link steps leave the phase
/// in place until their outcome is fed back; exhausted phases advance; a
/// malformed mapping or a failed resolution moves the machine to its failed
/// state. A finished machine only reports how it finished.
pub open spec fn spec_next(m: InstallerModel) -> (InstallerModel, ActionModel)
    decreases phase_model_rank(m.phase),
{
    match m.phase {
        PhaseModel::Done => (m, ActionModel::Done),
        PhaseModel::Failed(_) => (m, ActionModel::Failed),
        PhaseModel::PreHooks(i) => if i < m.before.len() {
            (
                m,
                ActionModel::Hook {
                    hook: m.before[i],
                    pre: true,
                    execute: should_execute_hooks(m.dry_run, m.skip_hooks),
                },
            )
        } else {
            spec_next(InstallerModel { phase: PhaseModel::Links(0), ..m })
        },
        PhaseModel::Links(j) => if j < m.mappings.len() {
            let raw = m.mappings[j];
            let ci = spec_first_index(raw, ':');
            if ci < 0 {
                (
                    InstallerModel { phase: PhaseModel::Failed(ErrorModel::Mapping(raw)), ..m },
                    ActionModel::Failed,
                )
            } else {
                let src = raw.take(ci);
                let dst = raw.skip(ci + 1);
                match spec_create_link(src, dst, m.dry_run, m.parent, m.force, m.home, m.cwd) {
                    Err(em) => (
                        InstallerModel { phase: PhaseModel::Failed(em), ..m },
                        ActionModel::Failed,
                    ),
                    Ok(None) => (
                        InstallerModel { phase: PhaseModel::Links(j + 1), ..m },
                        ActionModel::Link { origin: src, dest: dst, plan: None },
                    ),
                    Ok(Some(plan)) => (
                        m,
                        ActionModel::Link { origin: src, dest: dst, plan: Some(plan) },
                    ),
                }
            }
        } else {
            spec_next(InstallerModel { phase: PhaseModel::PostHooks(0), ..m })
        },
        PhaseModel::PostHooks(k) => if k < m.after.len() {
            (
                m,
                ActionModel::Hook {
                    hook: m.after[k],
                    pre: false,
                    execute: should_execute_hooks(m.dry_run, m.skip_hooks),
                },
            )
        } else {
            (InstallerModel { phase: PhaseModel::Done, ..m }, ActionModel::Done)
        },
    }
}

/// The machine sits at a hook whose outcome it expects.
pub open spec fn awaiting_hook(m: InstallerModel) -> bool {
    match m.phase {
        PhaseModel::PreHooks(i) => i < m.before.len(),
        PhaseModel::PostHooks(k) => k < m.after.len(),
        _ => false,
    }
}

/// The hook the machine is waiting on.
pub open spec fn awaited_hook(m: InstallerModel) -> Seq<char> {
    match m.phase {
        PhaseModel::PreHooks(i) => m.before[i],
        PhaseModel::PostHooks(k) => m.after[k],
        _ => Seq::empty(),
    }
}

/// The machine sits at a mapping whose link outcome it expects.
pub open spec fn awaiting_link(m: InstallerModel) -> bool {
    match m.phase {
        PhaseModel::Links(j) => j < m.mappings.len(),
        _ => false,
    }
}

/// Feeding a hook outcome: success moves to the next hook of the phase; a
/// failure moves the machine to its failed state, carrying the exit code, the
/// hook text and the captured stderr. Fail-fast: nothing else changes.
pub open spec fn spec_feed_hook(m: InstallerModel, o: HookOutcomeModel) -> InstallerModel {
    if !hook_outcome_ok(o) {
        let (code, stderr) = match o {
            HookOutcomeModel::Finished { code, stderr } => (code, stderr),
            HookOutcomeModel::Skipped => (None, Seq::empty()),
        };
        InstallerModel {
            phase: PhaseModel::Failed(
                ErrorModel::Hook { code, command: awaited_hook(m), stderr },
            ),
            ..m
        }
    } else {
        match m.phase {
            PhaseModel::PreHooks(i) => InstallerModel { phase: PhaseModel::PreHooks(i + 1), ..m },
            PhaseModel::PostHooks(k) => InstallerModel {
                phase: PhaseModel::PostHooks(k + 1),
                ..m
            },
            _ => m,
        }
    }
}

/// Feeding a link outcome: a created link moves to the next mapping; a
/// filesystem failure moves the machine to its failed state.
pub open spec fn spec_feed_link(m: InstallerModel, o: LinkOutcomeModel) -> InstallerModel {
    match o {
        LinkOutcomeModel::Created => match m.phase {
            PhaseModel::Links(j) => InstallerModel { phase: PhaseModel::Links(j + 1), ..m },
            _ => m,
        },
        LinkOutcomeModel::Failed { message } => InstallerModel {
            phase: PhaseModel::Failed(ErrorModel::Io(message)),
            ..m
        },
    }
}

// ---------------------------------------------------------------------------
// The executable machine
// ---------------------------------------------------------------------------

/// The outcome of one hook invocation, handed back by the driver.
#[derive(Debug)]
pub enum HookOutcome {
    /// The hook was not run (dry-run, or hooks skipped) and counts as success.
    Skipped,
    /// The hook process finished with `code` (`None` when terminated by a
    /// signal) and this captured stderr.
    Finished { code: Option<i32>, stderr: String },
}

impl HookOutcome {
    pub open spec fn model(self) -> HookOutcomeModel {
        match self {
            HookOutcome::Skipped => HookOutcomeModel::Skipped,
            HookOutcome::Finished { code, stderr } => HookOutcomeModel::Finished {
                code,
                stderr: stderr@,
            },
        }
    }
}

/// The outcome of applying a link plan, handed back by the driver.
#[derive(Debug)]
pub enum LinkOutcome {
    Created,
    /// The filesystem refused; carries the reported cause.
    Failed { message: String },
}

impl LinkOutcome {
    pub open spec fn model(self) -> LinkOutcomeModel {
        match self {
            LinkOutcome::Created => LinkOutcomeModel::Created,
            LinkOutcome::Failed { message } => LinkOutcomeModel::Failed { message: message@ },
        }
    }
}

/// What the driver must do next.
#[derive(Debug)]
pub enum Action {
    /// Report the hook as running; when `execute` is set, run it through the
    /// shell and feed the outcome back, else feed `HookOutcome::Skipped`.
    Hook { hook: String, pre: bool, execute: bool },
    /// The link for one mapping: report it; when `plan` is present, apply it
    /// and feed the outcome back (under dry-run there is no plan and nothing
    /// to feed).
    Link { origin: String, dest: String, plan: Option<LinkPlan> },
    /// The item finished successfully.
    Done,
    /// The item failed; `into_result` has the first error.
    Failed,
}

impl Action {
    pub open spec fn model(self) -> ActionModel {
        match self {
            Action::Hook { hook, pre, execute } => ActionModel::Hook { hook: hook@, pre, execute },
            Action::Link { origin, dest, plan } => ActionModel::Link {
                origin: origin@,
                dest: dest@,
                plan: match plan {
                    None => None,
                    Some(p) => Some(p.model()),
                },
            },
            Action::Done => ActionModel::Done,
            Action::Failed => ActionModel::Failed,
        }
    }
}

pub open spec fn phase_rank(p: Phase) -> nat {
    match p {
        Phase::PreHooks { .. } => 3,
        Phase::Links { .. } => 2,
        Phase::PostHooks { .. } => 1,
        Phase::Done => 0,
        Phase::Failed => 0,
    }
}

/// One item's install protocol, step by step: the `before` hooks in order,
/// then the links in mapping order, then the `after` hooks in order, stopping
/// at the first failure. The machine decides every step; the driver only
/// performs the process and filesystem work and feeds the outcomes back.
pub struct ItemInstaller {
    pub item: ConfigItem,
    pub args: InstallArgs,
    pub home: Option<String>,
    pub cwd: String,
    pub phase: Phase,
    pub error: Option<Error>,
}

impl ItemInstaller {
    /// The hook lists, with an absent list read as empty.
    pub open spec fn before_view(self) -> Seq<Seq<char>> {
        match self.item.before {
            None => Seq::empty(),
            Some(v) => v.deep_view(),
        }
    }

    pub open spec fn after_view(self) -> Seq<Seq<char>> {
        match self.item.after {
            None => Seq::empty(),
            Some(v) => v.deep_view(),
        }
    }

    /// The machine's model.
    pub open spec fn model(self) -> InstallerModel {
        InstallerModel {
            mappings: self.item.mappings.deep_view(),
            before: self.before_view(),
            after: self.after_view(),
            force: self.args.force,
            parent: self.args.parent,
            dry_run: self.args.dry_run,
            skip_hooks: self.args.skip_hooks,
            home: match self.home {
                None => None,
                Some(h) => Some(h@),
            },
            cwd: self.cwd@,
            phase: match self.phase {
                Phase::PreHooks { index } => PhaseModel::PreHooks(index as int),
                Phase::Links { index } => PhaseModel::Links(index as int),
                Phase::PostHooks { index } => PhaseModel::PostHooks(index as int),
                Phase::Done => PhaseModel::Done,
                Phase::Failed => PhaseModel::Failed(
                    match self.error {
                        Some(e) => error_model(e),
                        None => ErrorModel::HomeMissing,
                    },
                ),
            },
        }
    }

    /// Indexes stay in bounds and an error is held exactly in the failed
    /// state.
    pub open spec fn wf(self) -> bool {
        &&& (self.phase matches Phase::PreHooks { index } ==> index <= self.before_view().len())
        &&& (self.phase matches Phase::Links { index } ==> index
            <= self.item.mappings.deep_view().len())
        &&& (self.phase matches Phase::PostHooks { index } ==> index <= self.after_view().len())
        &&& (self.error is Some <==> self.phase is Failed)
    }

    /// A fresh machine for one item, about to run the first `before` hook.
    pub fn new(item: ConfigItem, args: InstallArgs, home: Option<String>, cwd: String) -> (m: Self)
        ensures
            m.wf(),
            m.item == item,
            m.args == args,
            m.home == home,
            m.cwd == cwd,
            m.model().phase == PhaseModel::PreHooks(0),
    {
        ItemInstaller { item, args, home, cwd, phase: Phase::PreHooks { index: 0 }, error: None }
    }

    pub fn is_finished(&self) -> (b: bool)
        ensures
            b == (self.model().phase is Done || self.model().phase is Failed),
    {
        match self.phase {
            Phase::Done => true,
            Phase::Failed => true,
            _ => false,
        }
    }

    /// The item's outcome, once the machine reports `Done` or `Failed`.
    pub fn into_result(self) -> (r: Result<(), Error>)
        requires
            self.wf(),
            self.model().phase is Done || self.model().phase is Failed,
        ensures
            self.model().phase is Done ==> r is Ok,
            (self.model().phase matches PhaseModel::Failed(em) ==> r matches Err(e)
                && error_model(e) == em),
    {
        match self.error {
            None => Ok(()),
            Some(e) => Err(e),
        }
    }

    /// The engine's next step; see `spec_next` for the protocol.
    pub fn next_action(&mut self) -> (a: Action)
        requires
            old(self).wf(),
        ensures
            final(self).wf(),
            final(self).model() == spec_next(old(self).model()).0,
            a.model() == spec_next(old(self).model()).1,
        decreases phase_rank(self.phase),
    {
        let ghost m0 = self.model();
        match self.phase {
            Phase::Done => Action::Done,
            Phase::Failed => Action::Failed,
            Phase::PreHooks { index } => {
                let hooks_len = match &self.item.before {
                    None => 0,
                    Some(v) => v.len(),
                };
                if index < hooks_len {
                    let hook = match &self.item.before {
                        None => String::new(),
                        Some(v) => v[index].clone(),
                    };
                    assert(hook@ == m0.before[index as int]);
                    Action::Hook {
                        hook,
                        pre: true,
                        execute: !self.args.dry_run && !self.args.skip_hooks,
                    }
                } else {
                    self.phase = Phase::Links { index: 0 };
                    assert(self.model() == InstallerModel {
                        phase: PhaseModel::Links(0),
                        ..m0
                    });
                    self.next_action()
                }
            },
            Phase::PostHooks { index } => {
                let hooks_len = match &self.item.after {
                    None => 0,
                    Some(v) => v.len(),
                };
                if index < hooks_len {
                    let hook = match &self.item.after {
                        None => String::new(),
                        Some(v) => v[index].clone(),
                    };
                    assert(hook@ == m0.after[index as int]);
                    Action::Hook {
                        hook,
                        pre: false,
                        execute: !self.args.dry_run && !self.args.skip_hooks,
                    }
                } else {
                    self.phase = Phase::Done;
                    assert(self.model() == InstallerModel { phase: PhaseModel::Done, ..m0 });
                    Action::Done
                }
            },
            Phase::Links { index } => {
                let mlen = self.item.mappings.len();
                if index < mlen {
                    assert(self.item.mappings.deep_view()[index as int]
                        == self.item.mappings@[index as int]@);
                    let home_ref: Option<&str> = match &self.home {
                        None => None,
                        Some(h) => Some(h.as_str()),
                    };
                    let split = split_mapping(self.item.mappings[index].as_str());
                    match split {
                        Err(e) => {
                            self.error = Some(e);
                            self.phase = Phase::Failed;
                            Action::Failed
                        },
                        Ok((src, dst)) => {
                            if self.args.dry_run {
                                let origin = String::from_str(src);
                                let dest = String::from_str(dst);
                                self.phase = Phase::Links { index: index + 1 };
                                assert(self.model() == InstallerModel {
                                    phase: PhaseModel::Links(index + 1),
                                    ..m0
                                });
                                Action::Link { origin, dest, plan: None }
                            } else {
                                match create_link(
                                    src,
                                    dst,
                                    &self.args,
                                    home_ref,
                                    self.cwd.as_str(),
                                ) {
                                    Err(e) => {
                                        self.error = Some(e);
                                        self.phase = Phase::Failed;
                                        Action::Failed
                                    },
                                    Ok(None) => {
                                        // unreachable: only dry-run yields no plan
                                        assert(false);
                                        Action::Failed
                                    },
                                    Ok(Some(plan)) => {
                                        let origin = String::from_str(src);
                                        let dest = String::from_str(dst);
                                        Action::Link { origin, dest, plan: Some(plan) }
                                    },
                                }
                            }
                        },
                    }
                } else {
                    self.phase = Phase::PostHooks { index: 0 };
                    assert(self.model() == InstallerModel {
                        phase: PhaseModel::PostHooks(0),
                        ..m0
                    });
                    self.next_action()
                }
            },
        }
    }

    /// Feeds the outcome of the hook the machine is waiting on; see
    /// `spec_feed_hook`.
    pub fn feed_hook(&mut self, outcome: HookOutcome)
        requires
            old(self).wf(),
            awaiting_hook(old(self).model()),
        ensures
            final(self).wf(),
            final(self).model() == spec_feed_hook(old(self).model(), outcome.model()),
    {
        let ok = match &outcome {
            HookOutcome::Skipped => true,
            HookOutcome::Finished { code, .. } => match code {
                Some(c) => *c == 0,
                None => false,
            },
        };
        if ok {
            match self.phase {
                Phase::PreHooks { index } => {
                    proof {
                        assert(match self.item.before {
                            Some(v) => index < v@.len() && v.len() == v@.len(),
                            None => false,
                        });
                    }
                    self.phase = Phase::PreHooks { index: index + 1 };
                },
                Phase::PostHooks { index } => {
                    proof {
                        assert(match self.item.after {
                            Some(v) => index < v@.len() && v.len() == v@.len(),
                            None => false,
                        });
                    }
                    self.phase = Phase::PostHooks { index: index + 1 };
                },
                _ => {
                    assert(false);
                },
            }
        } else {
            let (code, stderr) = match outcome {
                HookOutcome::Finished { code, stderr } => (code, stderr),
                HookOutcome::Skipped => (None, String::new()),
            };
            let hook = match self.phase {
                Phase::PreHooks { index } => match &self.item.before {
                    None => String::new(),
                    Some(v) => v[index].clone(),
                },
                Phase::PostHooks { index } => match &self.item.after {
                    None => String::new(),
                    Some(v) => v[index].clone(),
                },
                _ => String::new(),
            };
            assert(hook@ == awaited_hook(self.model()));
            self.error = Some(
                Error::HookExecutionError(HookExecutionError::new(code, hook, stderr)),
            );
            self.phase = Phase::Failed;
        }
    }

    /// Feeds the outcome of the link plan the machine is waiting on; see
    /// `spec_feed_link`.
    pub fn feed_link(&mut self, outcome: LinkOutcome)
        requires
            old(self).wf(),
            awaiting_link(old(self).model()),
        ensures
            final(self).wf(),
            final(self).model() == spec_feed_link(old(self).model(), outcome.model()),
    {
        match outcome {
            LinkOutcome::Created => {
                match self.phase {
                    Phase::Links { index } => {
                        proof {
                            assert(index < self.item.mappings@.len());
                            assert(self.item.mappings.len() == self.item.mappings@.len());
                        }
                        self.phase = Phase::Links { index: index + 1 };
                    },
                    _ => {
                        assert(false);
                    },
                }
            },
            LinkOutcome::Failed { message } => {
                self.error = Some(Error::IoError(message));
                self.phase = Phase::Failed;
            },
        }
    }
}

// ---------------------------------------------------------------------------
// Laws of the install protocol
// ---------------------------------------------------------------------------

/// Law: under dry-run or skip-hooks the engine never asks the driver to
/// execute a hook process: every hook action it emits carries
/// `execute == false`. The hook is still reported, so it stays visible.
pub proof fn lemma_hooks_never_executed_when_skipped(m: InstallerModel)
    requires
        m.dry_run || m.skip_hooks,
    ensures
        spec_next(m).1 matches ActionModel::Hook { execute, .. } ==> !execute,
    decreases phase_model_rank(m.phase),
{
    match m.phase {
        PhaseModel::PreHooks(i) => {
            if i >= m.before.len() {
                lemma_hooks_never_executed_when_skipped(
                    InstallerModel { phase: PhaseModel::Links(0), ..m },
                );
            }
        },
        PhaseModel::Links(j) => {
            if j >= m.mappings.len() {
                lemma_hooks_never_executed_when_skipped(
                    InstallerModel { phase: PhaseModel::PostHooks(0), ..m },
                );
            }
        },
        _ => {},
    }
}

/// Law: a skipped hook counts as vacuously successful: feeding `Skipped`
/// never fails the machine, it only advances past the hook.
pub proof fn lemma_skipped_hook_succeeds(m: InstallerModel)
    requires
        awaiting_hook(m),
    ensures
        !(spec_feed_hook(m, HookOutcomeModel::Skipped).phase is Failed),
{
}

/// Law: a finished machine is final: its next step only reports how the item
/// ended and changes nothing, so after a failure no later hook is asked for
/// and no later mapping is attempted.
pub proof fn lemma_finished_is_final(m: InstallerModel)
    requires
        m.phase is Done || m.phase is Failed,
    ensures
        spec_next(m).0 == m,
        m.phase is Done ==> spec_next(m).1 is Done,
        m.phase is Failed ==> spec_next(m).1 is Failed,
{
}

/// Law (fail-fast hooks): a hook that exits non-zero or dies by a signal
/// fails the whole item at once: the machine moves to its failed state
/// carrying that hook's text, code and stderr, and -- by
/// `lemma_finished_is_final` -- performs no further step.
pub proof fn lemma_failing_hook_aborts(m: InstallerModel, o: HookOutcomeModel)
    requires
        awaiting_hook(m),
        !hook_outcome_ok(o),
    ensures
        ({
            let m2 = spec_feed_hook(m, o);
            &&& m2.phase matches PhaseModel::Failed(em) && em matches ErrorModel::Hook {
                command,
                ..
            } && command == awaited_hook(m)
            &&& spec_next(m2) == (m2, ActionModel::Failed)
        }),
{
}

/// Law (fail-fast links): a link the filesystem refused fails the whole item
/// at once; later mappings of the item are never attempted.
pub proof fn lemma_failing_link_aborts(m: InstallerModel, message: Seq<char>)
    requires
        awaiting_link(m),
    ensures
        ({
            let m2 = spec_feed_link(m, LinkOutcomeModel::Failed { message });
            &&& m2.phase == PhaseModel::Failed(ErrorModel::Io(message))
            &&& spec_next(m2) == (m2, ActionModel::Failed)
        }),
{
}

/// Law: under dry-run the linker always succeeds with nothing to do -- no
/// path is resolved and no filesystem work is requested, even for an origin
/// that does not exist.
pub proof fn lemma_dry_run_link_is_noop(
    origin: Seq<char>,
    dst: Seq<char>,
    parent: bool,
    force: bool,
    home: Option<Seq<char>>,
    cwd: Seq<char>,
)
    ensures
        spec_create_link(origin, dst, true, parent, force, home, cwd) == Ok::<
            Option<LinkPlanModel>,
            ErrorModel,
        >(None),
{
}


/// Law: a dry run performs no effects at all: the engine never asks the
/// driver to execute a hook process and never hands it a link plan to apply,
/// so the filesystem is untouched and no process is spawned.
pub proof fn lemma_dry_run_requests_no_effects(m: InstallerModel)
    requires
        m.dry_run,
    ensures
        (spec_next(m).1 matches ActionModel::Hook { execute, .. } ==> !execute),
        (spec_next(m).1 matches ActionModel::Link { plan, .. } ==> plan is None),
    decreases phase_model_rank(m.phase),
{
    match m.phase {
        PhaseModel::PreHooks(i) => {
            if i >= m.before.len() {
                lemma_dry_run_requests_no_effects(
                    InstallerModel { phase: PhaseModel::Links(0), ..m },
                );
            }
        },
        PhaseModel::Links(j) => {
            if j >= m.mappings.len() {
                lemma_dry_run_requests_no_effects(
                    InstallerModel { phase: PhaseModel::PostHooks(0), ..m },
                );
            }
        },
        _ => {},
    }
}


} // verus!
