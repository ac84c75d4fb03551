//! The system's Wine installation and the prefixes it runs things in.
//!
//! Detecting Wine and running things inside a prefix are separate
//! concerns: [`Wine`] only knows where the wine binary is, [`WinePrefix`]
//! knows which `WINEPREFIX` to run it with.
use vstd::prelude::*;

use crate::error::{outcome, ErrorView, ExitView, WireBoxError};
use crate::process::{
    answer, answer_of, io_done, io_done_of, located, located_path, ran, ran_of, result_move,
    started, started_of, which, which_command, CommandSpec, CommandView, Event, EventView, Move,
    Next, Op, OpView,
};
use crate::text::{join_path, path_join};

use crate::paths::{show_path, shown_path};

verus! {

/// The system's Wine installation: where the wine binary is.
#[derive(Debug, Clone, PartialEq, Eq)]
pub struct Wine {
    executable: String,
}

/// The mathematical value of a [`Wine`]: the path of its binary.
pub struct WineView {
    pub executable: Seq<char>,
}

impl View for Wine {
    type V = WineView;

    closed spec fn view(&self) -> WineView {
        WineView { executable: self.executable@ }
    }
}

/// A single `WINEPREFIX`: the sandboxed "Windows install" a compatible
/// application runs inside, and the wine binary that runs it.
#[derive(Debug, Clone, PartialEq, Eq)]
pub struct WinePrefix {
    wine: String,
    path: String,
}

/// The mathematical value of a [`WinePrefix`].
pub struct PrefixView {
    pub wine: Seq<char>,
    pub path: Seq<char>,
}

impl View for WinePrefix {
    type V = PrefixView;

    closed spec fn view(&self) -> PrefixView {
        PrefixView { wine: self.wine@, path: self.path@ }
    }
}

/// The `drive_c` directory of a prefix, whose existence marks an
/// initialized prefix.
pub open spec fn drive_c(prefix: Seq<char>) -> Seq<char> {
    path_join(prefix, "drive_c"@)
}

/// The environment every command in a prefix runs with: the prefix, a
/// 64-bit Windows, and no desktop menu entries from `winemenubuilder`.
pub open spec fn wine_env(prefix: Seq<char>) -> Seq<(Seq<char>, Seq<char>)> {
    seq![
        ("WINEPREFIX"@, prefix),
        ("WINEARCH"@, "win64"@),
        ("WINEDLLOVERRIDES"@, "winemenubuilder.exe=d"@),
    ]
}

/// `wine <arg>` in the prefix `p`.
pub open spec fn wine_command(p: PrefixView, arg: Seq<char>) -> CommandView {
    CommandView { program: p.wine, args: seq![arg], env: wine_env(p.path) }
}

/// The outcome of a command that must exit successfully; `label` names it
/// in errors.
pub open spec fn checked(label: Seq<char>, r: Result<ExitView, Seq<char>>) -> Result<(), ErrorView> {
    match r {
        Err(reason) => Err(ErrorView::Spawn { command: label, reason }),
        Ok(st) => if st.success {
            Ok(())
        } else {
            Err(ErrorView::NonZeroExit { command: label, status: st })
        },
    }
}

/// Turns the result of running a command into the engine's result.
pub fn check_status(label: String, r: Result<crate::error::ExitInfo, String>) -> (out: Result<
    (),
    WireBoxError,
>)
    ensures
        outcome(out) == checked(label@, crate::process::reason_view(r)),
{
    match r {
        Err(reason) => Err(WireBoxError::Spawn { command: label, reason }),
        Ok(st) => if st.success {
            Ok(())
        } else {
            Err(WireBoxError::NonZeroExit { command: label, status: st })
        },
    }
}

// ---------------------------------------------------------------------
// Detecting Wine
// ---------------------------------------------------------------------

/// A search for Wine on `$PATH`: `wine` first, then `wine64`.
pub struct DetectWine {
    tried_wine64: bool,
}

/// The mathematical value of a [`DetectWine`]: whether `wine64` is the
/// lookup it waits for.
pub struct DetectView {
    pub tried_wine64: bool,
}

impl View for DetectWine {
    type V = DetectView;

    closed spec fn view(&self) -> DetectView {
        DetectView { tried_wine64: self.tried_wine64 }
    }
}

/// How Wine detection starts: looking up `wine`.
pub open spec fn detect_start() -> (DetectView, OpView) {
    (DetectView { tried_wine64: false }, OpView::Capture(which_command("wine"@)))
}

/// Wine detection's move on the answer to its lookup.
pub open spec fn detect_next(v: DetectView, ev: EventView) -> Move<
    DetectView,
    Result<WineView, ErrorView>,
> {
    match located(ev) {
        Some(p) => Move::Done(Ok(WineView { executable: p })),
        None => if v.tried_wine64 {
            Move::Done(Err(ErrorView::WineNotInstalled))
        } else {
            Move::Continue(DetectView { tried_wine64: true }, OpView::Capture(which_command("wine64"@)))
        },
    }
}

impl DetectWine {
    /// Resumes detection with what the lookup produced.
    pub fn resume(self, ev: Event) -> (r: Next<DetectWine, Result<Wine, WireBoxError>>)
        ensures
            result_move(r) == detect_next(self@, ev@),
    {
        match located_path(ev) {
            Some(p) => Next::Done(Ok(Wine { executable: p })),
            None => if self.tried_wine64 {
                Next::Done(Err(WireBoxError::WineNotInstalled))
            } else {
                let op = which("wine64");
                Next::Continue(DetectWine { tried_wine64: true }, op)
            },
        }
    }
}

impl Wine {
    /// Looks for `wine` or `wine64` on `$PATH` (answered through
    /// [`DetectWine::resume`]).
    pub fn detect() -> (r: (DetectWine, Op))
        ensures
            (r.0@, r.1@) == detect_start(),
    {
        (DetectWine { tried_wine64: false }, which("wine"))
    }

    /// Where the wine binary is.
    pub fn executable(&self) -> (r: &String)
        ensures
            r@ == self@.executable,
    {
        &self.executable
    }

    /// Opens a handle to a prefix at `path`. Doesn't touch disk: call
    /// `ensure_initialized()` on the result before using it.
    pub fn prefix(&self, path: String) -> (r: WinePrefix)
        ensures
            r@ == (PrefixView { wine: self@.executable, path: path@ }),
    {
        WinePrefix { wine: self.executable.clone(), path }
    }
}

// ---------------------------------------------------------------------
// Initializing a prefix
// ---------------------------------------------------------------------

/// The steps of initializing a prefix.
#[derive(Debug, Clone, Copy, PartialEq, Eq, Structural)]
pub enum InitPhase {
    /// Waiting to hear whether `drive_c` exists.
    Checking,
    /// Waiting for the prefix directory to be created.
    Creating,
    /// Waiting for `wineboot` to finish.
    Booting,
}

/// Making sure a prefix is initialized.
pub struct PrefixInit {
    prefix: WinePrefix,
    phase: InitPhase,
}

/// The mathematical value of a [`PrefixInit`].
pub struct InitView {
    pub prefix: PrefixView,
    pub phase: InitPhase,
}

impl View for PrefixInit {
    type V = InitView;

    closed spec fn view(&self) -> InitView {
        InitView { prefix: self.prefix@, phase: self.phase }
    }
}

/// How initializing `p` starts: asking whether its `drive_c` exists.
pub open spec fn init_start(p: PrefixView) -> (InitView, OpView) {
    (InitView { prefix: p, phase: InitPhase::Checking }, OpView::IsDir(drive_c(p.path)))
}

/// Initialization's move: an existing `drive_c` means the prefix is ready;
/// otherwise the prefix directory is created and `wineboot` run in it.
pub open spec fn init_next(v: InitView, ev: EventView) -> Move<InitView, Result<(), ErrorView>> {
    match v.phase {
        InitPhase::Checking => if answer(ev) {
            Move::Done(Ok(()))
        } else {
            Move::Continue(
                InitView { prefix: v.prefix, phase: InitPhase::Creating },
                OpView::CreateDirAll(v.prefix.path),
            )
        },
        InitPhase::Creating => match io_done(ev) {
            Ok(_) => Move::Continue(
                InitView { prefix: v.prefix, phase: InitPhase::Booting },
                OpView::Run(wine_command(v.prefix, "wineboot"@)),
            ),
            Err(reason) => Move::Done(Err(ErrorView::CreateDir { path: v.prefix.path, reason })),
        },
        InitPhase::Booting => Move::Done(checked("wineboot"@, ran(ev))),
    }
}

impl WinePrefix {
    /// A copy of this handle.
    pub fn duplicate(&self) -> (r: WinePrefix)
        ensures
            r@ == self@,
    {
        WinePrefix { wine: self.wine.clone(), path: self.path.clone() }
    }

    /// The prefix directory.
    pub fn path(&self) -> (r: &String)
        ensures
            r@ == self@.path,
    {
        &self.path
    }

    /// The `drive_c` directory of this prefix.
    pub fn drive_c(&self) -> (r: String)
        ensures
            r@ == drive_c(self@.path),
    {
        join_path(self.path.as_str(), "drive_c")
    }

    /// `wine <arg>` in this prefix.
    pub fn command(&self, arg: String) -> (r: CommandSpec)
        ensures
            r@ == wine_command(self@, arg@),
    {
        let mut args: Vec<String> = Vec::new();
        args.push(arg);
        let mut env: Vec<(String, String)> = Vec::new();
        env.push((String::from_str("WINEPREFIX"), self.path.clone()));
        env.push((String::from_str("WINEARCH"), String::from_str("win64")));
        env.push(
            (String::from_str("WINEDLLOVERRIDES"), String::from_str("winemenubuilder.exe=d")),
        );
        let r = CommandSpec { program: self.wine.clone(), args, env };
        assert(r@.args =~= seq![arg@]);
        assert(r@.env =~= wine_env(self@.path));
        r
    }

    /// Whether the prefix has been initialized: asks whether `drive_c`
    /// exists (answered through [`crate::process::Question::finish`]).
    pub fn is_initialized(&self) -> (r: (crate::process::Question, Op))
        ensures
            r.1@ == OpView::IsDir(drive_c(self@.path)),
    {
        (crate::process::Question {  }, Op::IsDir(self.drive_c()))
    }

    /// Makes sure the prefix is initialized, creating it with `wineboot`
    /// when its `drive_c` is missing.
    pub fn ensure_initialized(&self) -> (r: (PrefixInit, Op))
        ensures
            (r.0@, r.1@) == init_start(self@),
    {
        let op = Op::IsDir(self.drive_c());
        (PrefixInit { prefix: self.duplicate(), phase: InitPhase::Checking }, op)
    }

    /// Opens Wine's configuration UI for this prefix (audio/graphics/etc).
    pub fn winecfg(&self) -> (r: (InPrefix, Op))
        ensures
            (r.0@, r.1@) == in_prefix_start(self@, "winecfg"@, false, false),
    {
        InPrefix::start(self.duplicate(), String::from_str("winecfg"), false, false)
    }

    /// Launches an executable inside this prefix and returns as soon as it
    /// has started. Use this for running the actual application once it's
    /// installed.
    pub fn spawn_app(&self, executable: String) -> (r: (InPrefix, Op))
        ensures
            (r.0@, r.1@) == in_prefix_start(self@, executable@, true, false),
    {
        InPrefix::start(self.duplicate(), executable, true, false)
    }

    /// Runs an executable inside this prefix and waits until it exits.
    /// Meant for installers, which are interactive and need to finish
    /// before WireBox goes looking for the result.
    pub fn run_to_completion(&self, executable: String) -> (r: (InPrefix, Op))
        ensures
            (r.0@, r.1@) == in_prefix_start(self@, executable@, true, true),
    {
        InPrefix::start(self.duplicate(), executable, true, true)
    }
}

impl PrefixInit {
    /// Resumes initialization with what its last operation produced.
    pub fn resume(self, ev: Event) -> (r: Next<PrefixInit, Result<(), WireBoxError>>)
        ensures
            result_move(r) == init_next(self@, ev@),
    {
        match self.phase {
            InitPhase::Checking => if answer_of(&ev) {
                Next::Done(Ok(()))
            } else {
                let op = Op::CreateDirAll(self.prefix.path.clone());
                Next::Continue(PrefixInit { prefix: self.prefix, phase: InitPhase::Creating }, op)
            },
            InitPhase::Creating => match io_done_of(ev) {
                Ok(_) => {
                    let op = Op::Run(self.prefix.command(String::from_str("wineboot")));
                    Next::Continue(PrefixInit { prefix: self.prefix, phase: InitPhase::Booting }, op)
                },
                Err(reason) => Next::Done(
                    Err(WireBoxError::CreateDir { path: self.prefix.path, reason }),
                ),
            },
            InitPhase::Booting => Next::Done(check_status(String::from_str("wineboot"), ran_of(ev))),
        }
    }
}

// ---------------------------------------------------------------------
// Running something in a prefix
// ---------------------------------------------------------------------

/// The steps of running something in a prefix.
pub enum InPrefixPhase {
    /// Waiting to hear whether the executable is a file.
    CheckingFile,
    /// Making sure the prefix is initialized.
    Initializing(PrefixInit),
    /// Waiting for the command to start (or, when waiting, to finish).
    Running,
}

/// The mathematical value of an [`InPrefixPhase`].
pub enum InPrefixPhaseView {
    CheckingFile,
    Initializing(InitView),
    Running,
}

/// Running `wine <target>` in a prefix once it is initialized. When
/// `require_file` is set, `target` must be an existing file; when `wait` is
/// set, the command must also exit successfully.
pub struct InPrefix {
    prefix: WinePrefix,
    target: String,
    require_file: bool,
    wait: bool,
    phase: InPrefixPhase,
}

/// The mathematical value of an [`InPrefix`].
pub struct InPrefixView {
    pub prefix: PrefixView,
    pub target: Seq<char>,
    pub require_file: bool,
    pub wait: bool,
    pub phase: InPrefixPhaseView,
}

impl View for InPrefix {
    type V = InPrefixView;

    closed spec fn view(&self) -> InPrefixView {
        InPrefixView {
            prefix: self.prefix@,
            target: self.target@,
            require_file: self.require_file,
            wait: self.wait,
            phase: match self.phase {
                InPrefixPhase::CheckingFile => InPrefixPhaseView::CheckingFile,
                InPrefixPhase::Initializing(i) => InPrefixPhaseView::Initializing(i@),
                InPrefixPhase::Running => InPrefixPhaseView::Running,
            },
        }
    }
}

/// How running `target` in `p` starts: checking the file if required, else
/// initializing the prefix.
pub open spec fn in_prefix_start(p: PrefixView, target: Seq<char>, require_file: bool, wait: bool) -> (
    InPrefixView,
    OpView,
) {
    if require_file {
        (
            InPrefixView {
                prefix: p,
                target,
                require_file,
                wait,
                phase: InPrefixPhaseView::CheckingFile,
            },
            OpView::IsFile(target),
        )
    } else {
        (
            InPrefixView {
                prefix: p,
                target,
                require_file,
                wait,
                phase: InPrefixPhaseView::Initializing(init_start(p).0),
            },
            init_start(p).1,
        )
    }
}

/// The operation that runs the target: started, or run to completion.
pub open spec fn target_op(v: InPrefixView) -> OpView {
    if v.wait {
        OpView::Run(wine_command(v.prefix, v.target))
    } else {
        OpView::Spawn(wine_command(v.prefix, v.target))
    }
}

/// The move of running something in a prefix: a missing file is an error;
/// the prefix is initialized first (its errors are the result); then the
/// command runs, and a failure to run it (or, when waiting, an unsuccessful
/// exit) is an error that names the target.
pub open spec fn in_prefix_next(v: InPrefixView, ev: EventView) -> Move<
    InPrefixView,
    Result<(), ErrorView>,
> {
    match v.phase {
        InPrefixPhaseView::CheckingFile => if answer(ev) {
            Move::Continue(
                InPrefixView { phase: InPrefixPhaseView::Initializing(init_start(v.prefix).0), ..v },
                init_start(v.prefix).1,
            )
        } else {
            Move::Done(Err(ErrorView::NotFound(v.target)))
        },
        InPrefixPhaseView::Initializing(i) => match init_next(i, ev) {
            Move::Continue(i2, op) => Move::Continue(
                InPrefixView { phase: InPrefixPhaseView::Initializing(i2), ..v },
                op,
            ),
            Move::Done(Err(e)) => Move::Done(Err(e)),
            Move::Done(Ok(_)) => Move::Continue(
                InPrefixView { phase: InPrefixPhaseView::Running, ..v },
                target_op(v),
            ),
        },
        InPrefixPhaseView::Running => if v.wait {
            Move::Done(checked(shown_path(v.target), ran(ev)))
        } else {
            match started(ev) {
                Ok(_) => Move::Done(Ok(())),
                Err(reason) => Move::Done(
                    Err(ErrorView::Spawn { command: shown_path(v.target), reason }),
                ),
            }
        },
    }
}

impl InPrefix {
    /// Starts running `target` in `prefix` (see [`in_prefix_start`]).
    pub fn start(prefix: WinePrefix, target: String, require_file: bool, wait: bool) -> (r: (
        InPrefix,
        Op,
    ))
        ensures
            (r.0@, r.1@) == in_prefix_start(prefix@, target@, require_file, wait),
    {
        if require_file {
            let op = Op::IsFile(target.clone());
            (InPrefix { prefix, target, require_file, wait, phase: InPrefixPhase::CheckingFile }, op)
        } else {
            let (init, op) = prefix.ensure_initialized();
            (
                InPrefix {
                    prefix,
                    target,
                    require_file,
                    wait,
                    phase: InPrefixPhase::Initializing(init),
                },
                op,
            )
        }
    }

    /// The operation that runs the target.
    fn target_op(&self) -> (r: Op)
        ensures
            r@ == target_op(self@),
    {
        let cmd = self.prefix.command(self.target.clone());
        if self.wait {
            Op::Run(cmd)
        } else {
            Op::Spawn(cmd)
        }
    }

    /// Resumes with what the last operation produced.
    pub fn resume(self, ev: Event) -> (r: Next<InPrefix, Result<(), WireBoxError>>)
        ensures
            result_move(r) == in_prefix_next(self@, ev@),
    {
        let InPrefix { prefix, target, require_file, wait, phase } = self;
        match phase {
            InPrefixPhase::CheckingFile => if answer_of(&ev) {
                let (init, op) = prefix.ensure_initialized();
                Next::Continue(
                    InPrefix {
                        prefix,
                        target,
                        require_file,
                        wait,
                        phase: InPrefixPhase::Initializing(init),
                    },
                    op,
                )
            } else {
                Next::Done(Err(WireBoxError::NotFound(target)))
            },
            InPrefixPhase::Initializing(init) => match init.resume(ev) {
                Next::Continue(i2, op) => Next::Continue(
                    InPrefix {
                        prefix,
                        target,
                        require_file,
                        wait,
                        phase: InPrefixPhase::Initializing(i2),
                    },
                    op,
                ),
                Next::Done(Err(e)) => Next::Done(Err(e)),
                Next::Done(Ok(_)) => {
                    let next = InPrefix {
                        prefix,
                        target,
                        require_file,
                        wait,
                        phase: InPrefixPhase::Running,
                    };
                    let op = next.target_op();
                    Next::Continue(next, op)
                },
            },
            InPrefixPhase::Running => if wait {
                Next::Done(check_status(show_path(target.as_str()), ran_of(ev)))
            } else {
                match started_of(ev) {
                    Ok(_) => Next::Done(Ok(())),
                    Err(reason) => Next::Done(
                        Err(WireBoxError::Spawn { command: show_path(target.as_str()), reason }),
                    ),
                }
            },
        }
    }
}

/// The initialization a run in a prefix waits for is that of the same
/// prefix.
pub open spec fn in_prefix_wf(v: InPrefixView) -> bool {
    v.phase matches InPrefixPhaseView::Initializing(i) ==> i.prefix == v.prefix
}

/// Every command Wine runs in a prefix carries that prefix as
/// `WINEPREFIX`, a 64-bit `WINEARCH`, and the `winemenubuilder` override,
/// whatever the running workflow has seen so far; and the workflow stays
/// well formed.
pub proof fn prefix_commands_carry_environment(v: InPrefixView, ev: EventView)
    requires
        in_prefix_wf(v),
    ensures
        in_prefix_next(v, ev) matches Move::Continue(w, _) ==> in_prefix_wf(w),
        in_prefix_next(v, ev) matches Move::Continue(_, op) ==> match op {
            OpView::Run(c) => c.env == wine_env(v.prefix.path) && c.program == v.prefix.wine,
            OpView::Spawn(c) => c.env == wine_env(v.prefix.path) && c.program == v.prefix.wine,
            _ => true,
        },
{
}

/// A run in a prefix starts well formed.
pub proof fn in_prefix_start_wf(p: PrefixView, target: Seq<char>, require_file: bool, wait: bool)
    ensures
        in_prefix_wf(in_prefix_start(p, target, require_file, wait).0),
{
}

/// An already-initialized prefix is left alone: when `drive_c` exists,
/// initialization finishes at once without creating anything or running
/// `wineboot`.
pub proof fn initialized_prefix_is_left_alone(p: PrefixView)
    ensures
        init_next(init_start(p).0, EventView::Answer(true)) == Move::<InitView, Result<(), ErrorView>>::Done(Ok(())),
{
}

} // verus!
