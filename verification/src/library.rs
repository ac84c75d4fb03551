//! WireBox's Wine environment: one shared prefix.
//!
//! IK Product Manager is one shared gateway to a single IK Multimedia
//! account, and TONEX/AmpliTube 5 both get installed through it, so there
//! is one shared prefix: Product Manager lives there once, and whichever
//! apps are installed through it land there too. TONEX and AmpliTube then
//! share one Wine environment instead of being isolated from each other.
use vstd::prelude::*;

use crate::bootstrap::{
    boot_next, boot_start, cache_dir_in, cache_directory_in, BootPhaseView, BootView,
    CachedInstaller,
};
use crate::catalog::{all_applications, Application};
use crate::dependencies::{
    asio_verbs, base_verbs, ensure_asio_bridge, ensure_base_dependencies, tricks_next,
    tricks_start, winetricks_command, TricksView, Winetricks,
};
use crate::error::{outcome, ErrorView, WireBoxError};
use crate::process::{
    answer, answer_of, io_done, io_done_of, located, result_move, which_command, CommandView,
    EntryView, Event, EventView, Move, Next, Op, OpView,
};
use crate::search::{
    cost, dir_cost, found_below, meaning, search_finds_only_reachable_matches, rest, search_dir, search_next, search_ok, search_start,
    search_step_keeps_meaning, search_step_lowers_cost, stack_cost, Matcher, MatcherView,
    RulesView, Search, SearchRules, SearchView, Tree,
};
use crate::paths::{optional_path_text, path_texts};
use crate::text::{join_path, path_join};
use crate::world::{
    below, disk_effect, disk_wf, drive, drive_disk, ops_asked, spawns_only, spawns_only_after,
    replay, replay_shape, system_answer, tree_answer, within, Disk,
};
use crate::wine::{
    detect_next, detect_start, drive_c, in_prefix_next, in_prefix_start, init_next, init_start,
    target_op, wine_command, wine_env, DetectView, DetectWine, InPrefix, InPrefixPhaseView, InPrefixView, InitPhase,
    InitView, PrefixInit, PrefixView, Wine, WinePrefix,
};

verus! {

/// Where an application currently stands: the executable WireBox found
/// for it (if any) inside the shared prefix.
#[derive(Debug, Clone, PartialEq, Eq)]
pub struct AppState {
    pub application: Application,
    pub executable: Option<String>,
}

/// The mathematical value of an [`AppState`].
pub struct AppStateView {
    pub application: Application,
    pub executable: Option<Seq<char>>,
}

impl View for AppState {
    type V = AppStateView;

    open spec fn view(&self) -> AppStateView {
        AppStateView { application: self.application, executable: self.executable.deep_view() }
    }
}

impl AppState {
    /// Whether an executable was found.
    pub fn is_installed(&self) -> (r: bool)
        ensures
            r == self.executable is Some,
    {
        self.executable.is_some()
    }
}

/// WireBox's Wine environment, rooted at `root`.
#[derive(Debug, Clone, PartialEq, Eq)]
pub struct Library {
    root: String,
}

/// The mathematical value of a [`Library`]: its root directory.
pub struct LibraryView {
    pub root: Seq<char>,
}

impl View for Library {
    type V = LibraryView;

    closed spec fn view(&self) -> LibraryView {
        LibraryView { root: self.root@ }
    }
}

/// The library root for a home directory (the current directory when
/// there is none): `<home>/.local/share/wirebox`.
pub open spec fn library_root_in(home: Option<Seq<char>>) -> Seq<char> {
    let base = match home {
        Some(h) => h,
        None => "."@,
    };
    path_join(path_join(path_join(base, ".local"@), "share"@), "wirebox"@)
}

/// The single Wine prefix everything lives in: `<root>/hub`.
pub open spec fn hub(root: Seq<char>) -> Seq<char> {
    path_join(root, "hub"@)
}

/// The deepest level below `drive_c` that searches look at.
pub open spec fn search_depth() -> int {
    8
}

/// How an application's executable is looked for: any of its executable
/// names, ignoring case, within eight levels, not inside `windows`.
pub open spec fn executable_rules(app: Application) -> RulesView {
    RulesView {
        matcher: MatcherView::AnyName(app.spec_executable_names()),
        max_depth: search_depth(),
        skip_windows: true,
        descend_unnamed: false,
    }
}

/// How IK Product Manager is looked for: an `.exe` whose name contains
/// "product manager", ignoring case, within eight levels, not inside
/// `windows`.
pub open spec fn product_manager_rules() -> RulesView {
    RulesView {
        matcher: MatcherView::ExeContaining("product manager"@),
        max_depth: search_depth(),
        skip_windows: true,
        descend_unnamed: false,
    }
}

/// The user's home directory as `dirs::home_dir` reports it (from `$HOME`,
/// or else the password database), as the bytes of the path (on Unix, the
/// path's own bytes). Assumed: a reported directory is never the empty
/// path. Not stated: which directory is reported; that depends on the
/// environment.
#[verifier::external_body]
fn home_dir() -> (r: Option<Vec<u8>>)
    ensures
        r matches Some(d) ==> d@.len() > 0,
{
    match dirs::home_dir() {
        Some(p) => Some(p.into_os_string().into_encoded_bytes()),
        None => None,
    }
}

/// The names as owned strings.
fn owned_names(names: &[&str]) -> (r: Vec<String>)
    ensures
        r.deep_view() == names@.map_values(|s: &str| s@),
{
    let mut r: Vec<String> = Vec::new();
    let n = names.len();
    for i in 0..n
        invariant
            n == names@.len(),
            r.deep_view() =~= names@.map_values(|s: &str| s@).take(i as int),
    {
        let ghost before = r.deep_view();
        let name = String::from_str(names[i]);
        r.push(name);
        assert(r.deep_view() =~= before.push(name@));
        assert(r.deep_view() =~= names@.map_values(|s: &str| s@).take(i + 1));
    }
    assert(names@.map_values(|s: &str| s@).take(n as int) =~= names@.map_values(|s: &str| s@));
    r
}

fn executable_search_rules(app: Application) -> (r: SearchRules)
    ensures
        r@ == executable_rules(app),
{
    SearchRules {
        matcher: Matcher::AnyName(owned_names(app.executable_names())),
        max_depth: 8,
        skip_windows: true,
        descend_unnamed: false,
    }
}

fn product_manager_search_rules() -> (r: SearchRules)
    ensures
        r@ == product_manager_rules(),
{
    SearchRules {
        matcher: Matcher::ExeContaining(String::from_str("product manager")),
        max_depth: 8,
        skip_windows: true,
        descend_unnamed: false,
    }
}

// ---------------------------------------------------------------------
// Looking for installed applications
// ---------------------------------------------------------------------

/// Looking for an application's executable in the shared prefix.
pub struct StateProbe {
    application: Application,
    search: Search,
}

/// The mathematical value of a [`StateProbe`].
pub struct StateView {
    pub application: Application,
    pub search: SearchView,
}

impl View for StateProbe {
    type V = StateView;

    closed spec fn view(&self) -> StateView {
        StateView { application: self.application, search: self.search@ }
    }
}

/// How looking for `app` under `root` starts: listing `drive_c`.
pub open spec fn state_start(root: Seq<char>, app: Application) -> (StateView, OpView) {
    (
        StateView {
            application: app,
            search: search_start(executable_rules(app), drive_c(hub(root))),
        },
        OpView::ReadDir(drive_c(hub(root))),
    )
}

/// The move of looking for an application: the search's, and its result is
/// the application's state.
pub open spec fn state_next(v: StateView, ev: EventView) -> Move<StateView, AppStateView> {
    match search_next(v.search, ev) {
        Move::Continue(s, op) => Move::Continue(StateView { search: s, ..v }, op),
        Move::Done(x) => Move::Done(AppStateView { application: v.application, executable: x }),
    }
}

/// The view of a move of looking for an application.
pub open spec fn state_move(n: Next<StateProbe, AppState>) -> Move<StateView, AppStateView> {
    match n {
        Next::Continue(m, op) => Move::Continue(m@, op@),
        Next::Done(s) => Move::Done(s@),
    }
}

impl StateProbe {
    /// Resumes with the listing of the directory the search waits for.
    pub fn resume(self, ev: Event) -> (r: Next<StateProbe, AppState>)
        ensures
            state_move(r) == state_next(self@, ev@),
    {
        let StateProbe { application, search } = self;
        match search.resume(ev) {
            Next::Continue(s, op) => Next::Continue(StateProbe { application, search: s }, op),
            Next::Done(x) => Next::Done(AppState { application, executable: x }),
        }
    }
}

/// Looking for every application of the catalog, in catalog order.
pub struct AllStates {
    root: String,
    done: Vec<AppState>,
    current: StateProbe,
}

/// The mathematical value of an [`AllStates`].
pub struct AllView {
    pub root: Seq<char>,
    pub done: Seq<AppStateView>,
    pub current: StateView,
}

impl View for AllStates {
    type V = AllView;

    closed spec fn view(&self) -> AllView {
        AllView {
            root: self.root@,
            done: self.done@.map_values(|s: AppState| s@),
            current: self.current@,
        }
    }
}

/// How looking for every application starts: with the first one.
pub open spec fn all_start(root: Seq<char>) -> (AllView, OpView) {
    let (c, op) = state_start(root, all_applications()[0]);
    (AllView { root, done: Seq::empty(), current: c }, op)
}

/// The move of looking for every application: each is looked for in turn,
/// and the result lists their states in catalog order.
pub open spec fn all_next(v: AllView, ev: EventView) -> Move<AllView, Seq<AppStateView>> {
    match state_next(v.current, ev) {
        Move::Continue(c, op) => Move::Continue(AllView { current: c, ..v }, op),
        Move::Done(st) => {
            let done = v.done.push(st);
            if done.len() < all_applications().len() {
                let (c, op) = state_start(v.root, all_applications()[done.len() as int]);
                Move::Continue(AllView { root: v.root, done, current: c }, op)
            } else {
                Move::Done(done)
            }
        },
    }
}

/// The view of a move of looking for every application.
pub open spec fn all_move(n: Next<AllStates, Vec<AppState>>) -> Move<AllView, Seq<AppStateView>> {
    match n {
        Next::Continue(m, op) => Move::Continue(m@, op@),
        Next::Done(v) => Move::Done(v@.map_values(|s: AppState| s@)),
    }
}

impl AllStates {
    /// Resumes with the listing of the directory the current search waits
    /// for.
    pub fn resume(self, ev: Event) -> (r: Next<AllStates, Vec<AppState>>)
        ensures
            all_move(r) == all_next(self@, ev@),
    {
        let AllStates { root, mut done, current } = self;
        let ghost old_done = done@;
        match current.resume(ev) {
            Next::Continue(c, op) => Next::Continue(AllStates { root, done, current: c }, op),
            Next::Done(st) => {
                let ghost stv = st@;
                done.push(st);
                assert(done@.map_values(|s: AppState| s@) =~= old_done.map_values(
                    |s: AppState| s@,
                ).push(stv));
                if done.len() < 2 {
                    let all = Application::all();
                    let app = all[done.len()];
                    let lib = Library { root };
                    let (c, op) = lib.state(app);
                    Next::Continue(AllStates { root: lib.root, done, current: c }, op)
                } else {
                    Next::Done(done)
                }
            },
        }
    }
}

/// Looking for IK Product Manager in the shared prefix.
pub struct ProductManagerProbe {
    search: Search,
}

impl View for ProductManagerProbe {
    type V = SearchView;

    closed spec fn view(&self) -> SearchView {
        self.search@
    }
}

/// The move of looking for Product Manager: the search's, and its result
/// is whether it found anything.
pub open spec fn pm_probe_next(v: SearchView, ev: EventView) -> Move<SearchView, bool> {
    match search_next(v, ev) {
        Move::Continue(s, op) => Move::Continue(s, op),
        Move::Done(x) => Move::Done(x is Some),
    }
}

/// The view of a move of looking for Product Manager.
pub open spec fn pm_probe_move(n: Next<ProductManagerProbe, bool>) -> Move<SearchView, bool> {
    match n {
        Next::Continue(m, op) => Move::Continue(m@, op@),
        Next::Done(b) => Move::Done(b),
    }
}

impl ProductManagerProbe {
    /// Resumes with the listing of the directory the search waits for.
    pub fn resume(self, ev: Event) -> (r: Next<ProductManagerProbe, bool>)
        ensures
            pm_probe_move(r) == pm_probe_next(self@, ev@),
            r matches Next::Done(b) ==> (search_next(self@, ev@) matches Move::Done(x) && b == x is Some),
            r matches Next::Continue(m, op) ==> search_next(self@, ev@) == Move::<
                SearchView,
                Option<Seq<char>>,
            >::Continue(m@, op@),
    {
        match self.search.resume(ev) {
            Next::Continue(s, op) => Next::Continue(ProductManagerProbe { search: s }, op),
            Next::Done(x) => Next::Done(x.is_some()),
        }
    }
}

// ---------------------------------------------------------------------
// Preparing and resetting the prefix
// ---------------------------------------------------------------------

/// Creating the shared prefix directory.
pub struct EnsureReady {
    path: String,
}

impl View for EnsureReady {
    type V = Seq<char>;

    closed spec fn view(&self) -> Seq<char> {
        self.path@
    }
}

/// The result of creating the directory `path`.
pub open spec fn created(path: Seq<char>, ev: EventView) -> Result<(), ErrorView> {
    match io_done(ev) {
        Ok(_) => Ok(()),
        Err(reason) => Err(ErrorView::CreateDir { path, reason }),
    }
}

impl EnsureReady {
    /// The result, given what creating the directory produced.
    pub fn finish(self, ev: Event) -> (r: Result<(), WireBoxError>)
        ensures
            outcome(r) == created(self@, ev@),
    {
        match io_done_of(ev) {
            Ok(_) => Ok(()),
            Err(reason) => Err(WireBoxError::CreateDir { path: self.path, reason }),
        }
    }
}

/// The steps of resetting the prefix.
#[derive(Debug, Clone, Copy, PartialEq, Eq, Structural)]
pub enum ResetPhase {
    Checking,
    Removing,
    Creating,
}

/// Deleting and recreating the shared prefix.
pub struct Reset {
    path: String,
    phase: ResetPhase,
}

/// The mathematical value of a [`Reset`].
pub struct ResetView {
    pub path: Seq<char>,
    pub phase: ResetPhase,
}

impl View for Reset {
    type V = ResetView;

    closed spec fn view(&self) -> ResetView {
        ResetView { path: self.path@, phase: self.phase }
    }
}

/// How resetting the prefix at `path` starts: asking whether it exists.
pub open spec fn reset_start(path: Seq<char>) -> (ResetView, OpView) {
    (ResetView { path, phase: ResetPhase::Checking }, OpView::IsDir(path))
}

/// The move of resetting: an existing prefix is removed (a failure is an
/// error), then the prefix directory is created again.
pub open spec fn reset_next(v: ResetView, ev: EventView) -> Move<ResetView, Result<(), ErrorView>> {
    match v.phase {
        ResetPhase::Checking => if answer(ev) {
            Move::Continue(
                ResetView { phase: ResetPhase::Removing, ..v },
                OpView::RemoveDirAll(v.path),
            )
        } else {
            Move::Continue(
                ResetView { phase: ResetPhase::Creating, ..v },
                OpView::CreateDirAll(v.path),
            )
        },
        ResetPhase::Removing => match io_done(ev) {
            Err(reason) => Move::Done(Err(ErrorView::RemoveDir { path: v.path, reason })),
            Ok(_) => Move::Continue(
                ResetView { phase: ResetPhase::Creating, ..v },
                OpView::CreateDirAll(v.path),
            ),
        },
        ResetPhase::Creating => Move::Done(created(v.path, ev)),
    }
}

impl Reset {
    /// Resumes with what the last operation produced.
    pub fn resume(self, ev: Event) -> (r: Next<Reset, Result<(), WireBoxError>>)
        ensures
            result_move(r) == reset_next(self@, ev@),
    {
        match self.phase {
            ResetPhase::Checking => if answer_of(&ev) {
                let op = Op::RemoveDirAll(self.path.clone());
                Next::Continue(Reset { path: self.path, phase: ResetPhase::Removing }, op)
            } else {
                let op = Op::CreateDirAll(self.path.clone());
                Next::Continue(Reset { path: self.path, phase: ResetPhase::Creating }, op)
            },
            ResetPhase::Removing => match io_done_of(ev) {
                Err(reason) => Next::Done(Err(WireBoxError::RemoveDir { path: self.path, reason })),
                Ok(_) => {
                    let op = Op::CreateDirAll(self.path.clone());
                    Next::Continue(Reset { path: self.path, phase: ResetPhase::Creating }, op)
                },
            },
            ResetPhase::Creating => Next::Done(EnsureReady { path: self.path }.finish(ev)),
        }
    }
}


// ---------------------------------------------------------------------
// Launching an application
// ---------------------------------------------------------------------

/// The steps of launching an application.
pub enum LaunchPhase {
    /// Looking for the executable.
    Searching(Search),
    /// Looking for Wine, with the executable found.
    Detecting(String, DetectWine),
    /// Starting the executable in the prefix.
    Running(InPrefix),
}

/// The mathematical value of a [`LaunchPhase`].
pub enum LaunchPhaseView {
    Searching(SearchView),
    Detecting(Seq<char>, DetectView),
    Running(InPrefixView),
}

/// Launching an installed application from the shared prefix.
pub struct Launch {
    root: String,
    phase: LaunchPhase,
}

/// The mathematical value of a [`Launch`].
pub struct LaunchView {
    pub root: Seq<char>,
    pub phase: LaunchPhaseView,
}

impl View for Launch {
    type V = LaunchView;

    closed spec fn view(&self) -> LaunchView {
        LaunchView {
            root: self.root@,
            phase: match self.phase {
                LaunchPhase::Searching(s) => LaunchPhaseView::Searching(s@),
                LaunchPhase::Detecting(e, d) => LaunchPhaseView::Detecting(e@, d@),
                LaunchPhase::Running(i) => LaunchPhaseView::Running(i@),
            },
        }
    }
}

/// The shared prefix run by the Wine found at `wine`.
pub open spec fn hub_prefix(root: Seq<char>, wine: Seq<char>) -> PrefixView {
    PrefixView { wine, path: hub(root) }
}

/// How launching `app` starts: looking for its executable.
pub open spec fn launch_start(root: Seq<char>, app: Application) -> (LaunchView, OpView) {
    (
        LaunchView {
            root,
            phase: LaunchPhaseView::Searching(
                search_start(executable_rules(app), drive_c(hub(root))),
            ),
        },
        OpView::ReadDir(drive_c(hub(root))),
    )
}

/// The move of launching: an application that is not installed is an error
/// naming the prefix; then Wine must be found; then the executable is
/// started in the shared prefix.
pub open spec fn launch_next(v: LaunchView, ev: EventView) -> Move<LaunchView, Result<(), ErrorView>> {
    match v.phase {
        LaunchPhaseView::Searching(s) => match search_next(s, ev) {
            Move::Continue(s2, op) => Move::Continue(
                LaunchView { phase: LaunchPhaseView::Searching(s2), ..v },
                op,
            ),
            Move::Done(None) => Move::Done(Err(ErrorView::NotFound(hub(v.root)))),
            Move::Done(Some(exe)) => Move::Continue(
                LaunchView { phase: LaunchPhaseView::Detecting(exe, detect_start().0), ..v },
                detect_start().1,
            ),
        },
        LaunchPhaseView::Detecting(exe, d) => match detect_next(d, ev) {
            Move::Continue(d2, op) => Move::Continue(
                LaunchView { phase: LaunchPhaseView::Detecting(exe, d2), ..v },
                op,
            ),
            Move::Done(Err(e)) => Move::Done(Err(e)),
            Move::Done(Ok(w)) => {
                let (i, op) = in_prefix_start(hub_prefix(v.root, w.executable), exe, true, false);
                Move::Continue(LaunchView { phase: LaunchPhaseView::Running(i), ..v }, op)
            },
        },
        LaunchPhaseView::Running(i) => match in_prefix_next(i, ev) {
            Move::Continue(i2, op) => Move::Continue(
                LaunchView { phase: LaunchPhaseView::Running(i2), ..v },
                op,
            ),
            Move::Done(r) => Move::Done(r),
        },
    }
}

impl Launch {
    /// Resumes with what the last operation produced.
    pub fn resume(self, ev: Event) -> (r: Next<Launch, Result<(), WireBoxError>>)
        ensures
            result_move(r) == launch_next(self@, ev@),
    {
        let Launch { root, phase } = self;
        match phase {
            LaunchPhase::Searching(s) => match s.resume(ev) {
                Next::Continue(s2, op) => Next::Continue(
                    Launch { root, phase: LaunchPhase::Searching(s2) },
                    op,
                ),
                Next::Done(None) => {
                    let lib = Library { root };
                    Next::Done(Err(WireBoxError::NotFound(lib.prefix_path())))
                },
                Next::Done(Some(exe)) => {
                    let (d, op) = Wine::detect();
                    Next::Continue(Launch { root, phase: LaunchPhase::Detecting(exe, d) }, op)
                },
            },
            LaunchPhase::Detecting(exe, d) => match d.resume(ev) {
                Next::Continue(d2, op) => Next::Continue(
                    Launch { root, phase: LaunchPhase::Detecting(exe, d2) },
                    op,
                ),
                Next::Done(Err(e)) => Next::Done(Err(e)),
                Next::Done(Ok(w)) => {
                    let lib = Library { root };
                    let prefix = w.prefix(lib.prefix_path());
                    let (i, op) = prefix.spawn_app(exe);
                    Next::Continue(Launch { root: lib.root, phase: LaunchPhase::Running(i) }, op)
                },
            },
            LaunchPhase::Running(i) => match i.resume(ev) {
                Next::Continue(i2, op) => Next::Continue(
                    Launch { root, phase: LaunchPhase::Running(i2) },
                    op,
                ),
                Next::Done(r) => Next::Done(r),
            },
        }
    }
}

// ---------------------------------------------------------------------
// Setting up audio
// ---------------------------------------------------------------------

/// The steps of setting up audio.
pub enum AudioPhase {
    Detecting(DetectWine),
    Initializing(PrefixInit),
    Registering(Winetricks),
}

/// The mathematical value of an [`AudioPhase`].
pub enum AudioPhaseView {
    Detecting(DetectView),
    Initializing(InitView),
    Registering(TricksView),
}

/// Registering WineASIO in the shared prefix.
pub struct SetUpAudio {
    root: String,
    phase: AudioPhase,
}

/// The mathematical value of a [`SetUpAudio`].
pub struct AudioSetupView {
    pub root: Seq<char>,
    pub phase: AudioPhaseView,
}

impl View for SetUpAudio {
    type V = AudioSetupView;

    closed spec fn view(&self) -> AudioSetupView {
        AudioSetupView {
            root: self.root@,
            phase: match self.phase {
                AudioPhase::Detecting(d) => AudioPhaseView::Detecting(d@),
                AudioPhase::Initializing(i) => AudioPhaseView::Initializing(i@),
                AudioPhase::Registering(t) => AudioPhaseView::Registering(t@),
            },
        }
    }
}

/// How setting up audio starts: looking for Wine.
pub open spec fn audio_start(root: Seq<char>) -> (AudioSetupView, OpView) {
    (
        AudioSetupView { root, phase: AudioPhaseView::Detecting(detect_start().0) },
        detect_start().1,
    )
}

/// The move of setting up audio: Wine must be found, the shared prefix
/// initialized, then WineASIO registered in it with winetricks; the first
/// error is the result.
pub open spec fn audio_next(v: AudioSetupView, ev: EventView) -> Move<
    AudioSetupView,
    Result<(), ErrorView>,
> {
    match v.phase {
        AudioPhaseView::Detecting(d) => match detect_next(d, ev) {
            Move::Continue(d2, op) => Move::Continue(
                AudioSetupView { phase: AudioPhaseView::Detecting(d2), ..v },
                op,
            ),
            Move::Done(Err(e)) => Move::Done(Err(e)),
            Move::Done(Ok(w)) => {
                let (i, op) = init_start(hub_prefix(v.root, w.executable));
                Move::Continue(AudioSetupView { phase: AudioPhaseView::Initializing(i), ..v }, op)
            },
        },
        AudioPhaseView::Initializing(i) => match init_next(i, ev) {
            Move::Continue(i2, op) => Move::Continue(
                AudioSetupView { phase: AudioPhaseView::Initializing(i2), ..v },
                op,
            ),
            Move::Done(Err(e)) => Move::Done(Err(e)),
            Move::Done(Ok(_)) => {
                let (t, op) = tricks_start(hub(v.root), asio_verbs());
                Move::Continue(AudioSetupView { phase: AudioPhaseView::Registering(t), ..v }, op)
            },
        },
        AudioPhaseView::Registering(t) => match tricks_next(t, ev) {
            Move::Continue(t2, op) => Move::Continue(
                AudioSetupView { phase: AudioPhaseView::Registering(t2), ..v },
                op,
            ),
            Move::Done(r) => Move::Done(r),
        },
    }
}

impl SetUpAudio {
    /// Resumes with what the last operation produced.
    pub fn resume(self, ev: Event) -> (r: Next<SetUpAudio, Result<(), WireBoxError>>)
        ensures
            result_move(r) == audio_next(self@, ev@),
    {
        let SetUpAudio { root, phase } = self;
        match phase {
            AudioPhase::Detecting(d) => match d.resume(ev) {
                Next::Continue(d2, op) => Next::Continue(
                    SetUpAudio { root, phase: AudioPhase::Detecting(d2) },
                    op,
                ),
                Next::Done(Err(e)) => Next::Done(Err(e)),
                Next::Done(Ok(w)) => {
                    let lib = Library { root };
                    let prefix = w.prefix(lib.prefix_path());
                    let (i, op) = prefix.ensure_initialized();
                    Next::Continue(SetUpAudio { root: lib.root, phase: AudioPhase::Initializing(i) }, op)
                },
            },
            AudioPhase::Initializing(i) => match i.resume(ev) {
                Next::Continue(i2, op) => Next::Continue(
                    SetUpAudio { root, phase: AudioPhase::Initializing(i2) },
                    op,
                ),
                Next::Done(Err(e)) => Next::Done(Err(e)),
                Next::Done(Ok(_)) => {
                    let lib = Library { root };
                    let (t, op) = ensure_asio_bridge(lib.prefix_path());
                    Next::Continue(SetUpAudio { root: lib.root, phase: AudioPhase::Registering(t) }, op)
                },
            },
            AudioPhase::Registering(t) => match t.resume(ev) {
                Next::Continue(t2, op) => Next::Continue(
                    SetUpAudio { root, phase: AudioPhase::Registering(t2) },
                    op,
                ),
                Next::Done(r) => Next::Done(r),
            },
        }
    }
}

// ---------------------------------------------------------------------
// Installing IK Product Manager
// ---------------------------------------------------------------------

/// The steps of installing and opening IK Product Manager.
pub enum InstallPhase {
    /// Creating the prefix directory.
    MakingPrefix,
    /// Looking for Wine.
    Detecting(DetectWine),
    /// Making sure the prefix is initialized.
    Initializing(WinePrefix, PrefixInit),
    /// Installing the base runtime components (best effort).
    BaseComponents(WinePrefix, Winetricks),
    /// Warning that the base components could not be installed.
    Warning(WinePrefix),
    /// Looking for Product Manager; `true` once its setup has run.
    Finding(WinePrefix, Search, bool),
    /// Fetching the setup program.
    Fetching(WinePrefix, CachedInstaller),
    /// Running the setup program to completion.
    RunningSetup(WinePrefix, InPrefix),
    /// Opening Product Manager.
    Opening(InPrefix),
}

/// The mathematical value of an [`InstallPhase`].
pub enum InstallPhaseView {
    MakingPrefix,
    Detecting(DetectView),
    Initializing(PrefixView, InitView),
    BaseComponents(PrefixView, TricksView),
    Warning(PrefixView),
    Finding(PrefixView, SearchView, bool),
    Fetching(PrefixView, BootView),
    RunningSetup(PrefixView, InPrefixView),
    Opening(InPrefixView),
}

/// Making sure IK Product Manager is installed in the shared prefix, then
/// opening it. `cache` is where its installer is cached.
pub struct InstallProductManager {
    root: String,
    cache: String,
    phase: InstallPhase,
}

/// The mathematical value of an [`InstallProductManager`].
pub struct InstallView {
    pub root: Seq<char>,
    pub cache: Seq<char>,
    pub phase: InstallPhaseView,
}

impl View for InstallProductManager {
    type V = InstallView;

    closed spec fn view(&self) -> InstallView {
        InstallView {
            root: self.root@,
            cache: self.cache@,
            phase: match self.phase {
                InstallPhase::MakingPrefix => InstallPhaseView::MakingPrefix,
                InstallPhase::Detecting(d) => InstallPhaseView::Detecting(d@),
                InstallPhase::Initializing(p, i) => InstallPhaseView::Initializing(p@, i@),
                InstallPhase::BaseComponents(p, t) => InstallPhaseView::BaseComponents(p@, t@),
                InstallPhase::Warning(p) => InstallPhaseView::Warning(p@),
                InstallPhase::Finding(p, s, again) => InstallPhaseView::Finding(p@, s@, again),
                InstallPhase::Fetching(p, b) => InstallPhaseView::Fetching(p@, b@),
                InstallPhase::RunningSetup(p, i) => InstallPhaseView::RunningSetup(p@, i@),
                InstallPhase::Opening(i) => InstallPhaseView::Opening(i@),
            },
        }
    }
}

/// How installing Product Manager starts: creating the prefix directory.
pub open spec fn install_start(root: Seq<char>, cache: Seq<char>) -> (InstallView, OpView) {
    (InstallView { root, cache, phase: InstallPhaseView::MakingPrefix }, OpView::CreateDirAll(hub(root)))
}

/// The state that looks for Product Manager in the prefix `p`.
pub open spec fn find_product_manager(v: InstallView, p: PrefixView, again: bool) -> Move<
    InstallView,
    Result<(), ErrorView>,
> {
    Move::Continue(
        InstallView {
            phase: InstallPhaseView::Finding(
                p,
                search_start(product_manager_rules(), drive_c(p.path)),
                again,
            ),
            ..v
        },
        OpView::ReadDir(drive_c(p.path)),
    )
}

/// The move of installing Product Manager. The prefix directory is
/// created, Wine found and the prefix initialized (each failure is the
/// result). The base runtime components are installed next, but their
/// failure only produces a warning. Product Manager already in the prefix
/// is simply opened; otherwise its installer is fetched and run to
/// completion, and Product Manager must then be found (else
/// `ProductManagerMissing`) and is opened.
pub open spec fn install_next(v: InstallView, ev: EventView) -> Move<
    InstallView,
    Result<(), ErrorView>,
> {
    match v.phase {
        InstallPhaseView::MakingPrefix => match io_done(ev) {
            Err(reason) => Move::Done(Err(ErrorView::CreateDir { path: hub(v.root), reason })),
            Ok(_) => Move::Continue(
                InstallView { phase: InstallPhaseView::Detecting(detect_start().0), ..v },
                detect_start().1,
            ),
        },
        InstallPhaseView::Detecting(d) => match detect_next(d, ev) {
            Move::Continue(d2, op) => Move::Continue(
                InstallView { phase: InstallPhaseView::Detecting(d2), ..v },
                op,
            ),
            Move::Done(Err(e)) => Move::Done(Err(e)),
            Move::Done(Ok(w)) => {
                let p = hub_prefix(v.root, w.executable);
                Move::Continue(
                    InstallView { phase: InstallPhaseView::Initializing(p, init_start(p).0), ..v },
                    init_start(p).1,
                )
            },
        },
        InstallPhaseView::Initializing(p, i) => match init_next(i, ev) {
            Move::Continue(i2, op) => Move::Continue(
                InstallView { phase: InstallPhaseView::Initializing(p, i2), ..v },
                op,
            ),
            Move::Done(Err(e)) => Move::Done(Err(e)),
            Move::Done(Ok(_)) => {
                let (t, op) = tricks_start(p.path, base_verbs());
                Move::Continue(
                    InstallView { phase: InstallPhaseView::BaseComponents(p, t), ..v },
                    op,
                )
            },
        },
        InstallPhaseView::BaseComponents(p, t) => match tricks_next(t, ev) {
            Move::Continue(t2, op) => Move::Continue(
                InstallView { phase: InstallPhaseView::BaseComponents(p, t2), ..v },
                op,
            ),
            Move::Done(Err(e)) => Move::Continue(
                InstallView { phase: InstallPhaseView::Warning(p), ..v },
                OpView::Warn(e),
            ),
            Move::Done(Ok(_)) => find_product_manager(v, p, false),
        },
        InstallPhaseView::Warning(p) => find_product_manager(v, p, false),
        InstallPhaseView::Finding(p, s, again) => match search_next(s, ev) {
            Move::Continue(s2, op) => Move::Continue(
                InstallView { phase: InstallPhaseView::Finding(p, s2, again), ..v },
                op,
            ),
            Move::Done(Some(pm)) => {
                let (i, op) = in_prefix_start(p, pm, true, false);
                Move::Continue(InstallView { phase: InstallPhaseView::Opening(i), ..v }, op)
            },
            Move::Done(None) => if again {
                Move::Done(Err(ErrorView::ProductManagerMissing))
            } else {
                let (b, op) = boot_start(v.cache);
                Move::Continue(InstallView { phase: InstallPhaseView::Fetching(p, b), ..v }, op)
            },
        },
        InstallPhaseView::Fetching(p, b) => match boot_next(b, ev) {
            Move::Continue(b2, op) => Move::Continue(
                InstallView { phase: InstallPhaseView::Fetching(p, b2), ..v },
                op,
            ),
            Move::Done(Err(e)) => Move::Done(Err(e)),
            Move::Done(Ok(setup)) => {
                let (i, op) = in_prefix_start(p, setup, true, true);
                Move::Continue(InstallView { phase: InstallPhaseView::RunningSetup(p, i), ..v }, op)
            },
        },
        InstallPhaseView::RunningSetup(p, i) => match in_prefix_next(i, ev) {
            Move::Continue(i2, op) => Move::Continue(
                InstallView { phase: InstallPhaseView::RunningSetup(p, i2), ..v },
                op,
            ),
            Move::Done(Err(e)) => Move::Done(Err(e)),
            Move::Done(Ok(_)) => find_product_manager(v, p, true),
        },
        InstallPhaseView::Opening(i) => match in_prefix_next(i, ev) {
            Move::Continue(i2, op) => Move::Continue(
                InstallView { phase: InstallPhaseView::Opening(i2), ..v },
                op,
            ),
            Move::Done(r) => Move::Done(r),
        },
    }
}

/// The state that looks for Product Manager in `prefix`.
fn finding_product_manager(root: String, cache: String, prefix: WinePrefix, again: bool) -> (r: Next<
    InstallProductManager,
    Result<(), WireBoxError>,
>)
    ensures
        result_move(r) == find_product_manager(
            InstallView { root: root@, cache: cache@, phase: InstallPhaseView::MakingPrefix },
            prefix@,
            again,
        ),
{
    let (s, op) = Search::start(prefix.drive_c(), product_manager_search_rules());
    Next::Continue(
        InstallProductManager { root, cache, phase: InstallPhase::Finding(prefix, s, again) },
        op,
    )
}

impl InstallProductManager {
    /// Resumes with what the last operation produced.
    pub fn resume(self, ev: Event) -> (r: Next<InstallProductManager, Result<(), WireBoxError>>)
        ensures
            result_move(r) == install_next(self@, ev@),
    {
        let InstallProductManager { root, cache, phase } = self;
        match phase {
            InstallPhase::MakingPrefix => match io_done_of(ev) {
                Err(reason) => {
                    let lib = Library { root };
                    Next::Done(Err(WireBoxError::CreateDir { path: lib.prefix_path(), reason }))
                },
                Ok(_) => {
                    let (d, op) = Wine::detect();
                    Next::Continue(
                        InstallProductManager { root, cache, phase: InstallPhase::Detecting(d) },
                        op,
                    )
                },
            },
            InstallPhase::Detecting(d) => match d.resume(ev) {
                Next::Continue(d2, op) => Next::Continue(
                    InstallProductManager { root, cache, phase: InstallPhase::Detecting(d2) },
                    op,
                ),
                Next::Done(Err(e)) => Next::Done(Err(e)),
                Next::Done(Ok(w)) => {
                    let lib = Library { root };
                    let p = w.prefix(lib.prefix_path());
                    let (i, op) = p.ensure_initialized();
                    Next::Continue(
                        InstallProductManager {
                            root: lib.root,
                            cache,
                            phase: InstallPhase::Initializing(p, i),
                        },
                        op,
                    )
                },
            },
            InstallPhase::Initializing(p, i) => match i.resume(ev) {
                Next::Continue(i2, op) => Next::Continue(
                    InstallProductManager { root, cache, phase: InstallPhase::Initializing(p, i2) },
                    op,
                ),
                Next::Done(Err(e)) => Next::Done(Err(e)),
                Next::Done(Ok(_)) => {
                    let (t, op) = ensure_base_dependencies(p.path().clone());
                    Next::Continue(
                        InstallProductManager {
                            root,
                            cache,
                            phase: InstallPhase::BaseComponents(p, t),
                        },
                        op,
                    )
                },
            },
            InstallPhase::BaseComponents(p, t) => match t.resume(ev) {
                Next::Continue(t2, op) => Next::Continue(
                    InstallProductManager {
                        root,
                        cache,
                        phase: InstallPhase::BaseComponents(p, t2),
                    },
                    op,
                ),
                Next::Done(Err(e)) => Next::Continue(
                    InstallProductManager { root, cache, phase: InstallPhase::Warning(p) },
                    Op::Warn(e),
                ),
                Next::Done(Ok(_)) => finding_product_manager(root, cache, p, false),
            },
            InstallPhase::Warning(p) => finding_product_manager(root, cache, p, false),
            InstallPhase::Finding(p, s, again) => match s.resume(ev) {
                Next::Continue(s2, op) => Next::Continue(
                    InstallProductManager { root, cache, phase: InstallPhase::Finding(p, s2, again) },
                    op,
                ),
                Next::Done(Some(pm)) => {
                    let (i, op) = p.spawn_app(pm);
                    Next::Continue(
                        InstallProductManager { root, cache, phase: InstallPhase::Opening(i) },
                        op,
                    )
                },
                Next::Done(None) => if again {
                    Next::Done(Err(WireBoxError::ProductManagerMissing))
                } else {
                    let (b, op) = CachedInstaller::start(cache.clone());
                    Next::Continue(
                        InstallProductManager { root, cache, phase: InstallPhase::Fetching(p, b) },
                        op,
                    )
                },
            },
            InstallPhase::Fetching(p, b) => match b.resume(ev) {
                Next::Continue(b2, op) => Next::Continue(
                    InstallProductManager { root, cache, phase: InstallPhase::Fetching(p, b2) },
                    op,
                ),
                Next::Done(Err(e)) => Next::Done(Err(e)),
                Next::Done(Ok(setup)) => {
                    let (i, op) = p.run_to_completion(setup);
                    Next::Continue(
                        InstallProductManager { root, cache, phase: InstallPhase::RunningSetup(p, i) },
                        op,
                    )
                },
            },
            InstallPhase::RunningSetup(p, i) => match i.resume(ev) {
                Next::Continue(i2, op) => Next::Continue(
                    InstallProductManager {
                        root,
                        cache,
                        phase: InstallPhase::RunningSetup(p, i2),
                    },
                    op,
                ),
                Next::Done(Err(e)) => Next::Done(Err(e)),
                Next::Done(Ok(_)) => finding_product_manager(root, cache, p, true),
            },
            InstallPhase::Opening(i) => match i.resume(ev) {
                Next::Continue(i2, op) => Next::Continue(
                    InstallProductManager { root, cache, phase: InstallPhase::Opening(i2) },
                    op,
                ),
                Next::Done(r) => Next::Done(r),
            },
        }
    }
}

// ---------------------------------------------------------------------
// The library itself
// ---------------------------------------------------------------------

impl Library {
    /// The library rooted under `home`, given as path text (see
    /// [`library_root_in`] and [`crate::paths`]).
    pub fn from_home(home: Option<String>) -> (r: Library)
        ensures
            r@.root == library_root_in(home.deep_view()),
    {
        let base = match home {
            Some(h) => h,
            None => String::from_str("."),
        };
        let local = join_path(base.as_str(), ".local");
        let share = join_path(local.as_str(), "share");
        Library { root: join_path(share.as_str(), "wirebox") }
    }

    /// The library under the user's home directory.
    pub fn new() -> (r: Library)
        ensures
            exists|home: Option<Seq<u8>>|
                (home matches Some(h) ==> h.len() > 0) && r@.root == library_root_in(
                    path_texts(home),
                ),
    {
        let bytes = home_dir();
        let ghost home = bytes.deep_view();
        let r = Self::from_home(optional_path_text(bytes));
        assert(r@.root == library_root_in(path_texts(home)));
        r
    }

    /// The library root.
    pub fn root(&self) -> (r: &String)
        ensures
            r@ == self@.root,
    {
        &self.root
    }

    /// The single Wine prefix everything lives in.
    pub fn prefix_path(&self) -> (r: String)
        ensures
            r@ == hub(self@.root),
    {
        join_path(self.root.as_str(), "hub")
    }

    /// Creates the shared prefix directory (answered through
    /// [`EnsureReady::finish`]).
    pub fn ensure_ready(&self) -> (r: (EnsureReady, Op))
        ensures
            r.0@ == hub(self@.root),
            r.1@ == OpView::CreateDirAll(hub(self@.root)),
    {
        let path = self.prefix_path();
        let op = Op::CreateDirAll(path.clone());
        (EnsureReady { path }, op)
    }

    /// Inspects disk to determine whether `application` is installed.
    pub fn state(&self, application: Application) -> (r: (StateProbe, Op))
        ensures
            (r.0@, r.1@) == state_start(self@.root, application),
    {
        let prefix = self.prefix_path();
        let drive = join_path(prefix.as_str(), "drive_c");
        let (search, op) = Search::start(drive, executable_search_rules(application));
        (StateProbe { application, search }, op)
    }

    /// The state of every application, in catalog order.
    pub fn all_states(&self) -> (r: (AllStates, Op))
        ensures
            (r.0@, r.1@) == all_start(self@.root),
    {
        let (current, op) = self.state(Application::Tonex);
        let r = AllStates { root: self.root.clone(), done: Vec::new(), current };
        assert(r@.done =~= Seq::<AppStateView>::empty());
        (r, op)
    }

    /// Whether IK Product Manager itself is installed in the shared prefix.
    pub fn product_manager_installed(&self) -> (r: (ProductManagerProbe, Op))
        ensures
            r.0@ == search_start(product_manager_rules(), drive_c(hub(self@.root))),
            r.1@ == OpView::ReadDir(drive_c(hub(self@.root))),
    {
        let prefix = self.prefix_path();
        let drive = join_path(prefix.as_str(), "drive_c");
        let (search, op) = Search::start(drive, product_manager_search_rules());
        (ProductManagerProbe { search }, op)
    }

    /// Launches an already-installed application. The result is an error
    /// if it isn't installed or Wine isn't available.
    pub fn launch(&self, application: Application) -> (r: (Launch, Op))
        ensures
            (r.0@, r.1@) == launch_start(self@.root, application),
    {
        let prefix = self.prefix_path();
        let drive = join_path(prefix.as_str(), "drive_c");
        let (search, op) = Search::start(drive, executable_search_rules(application));
        (Launch { root: self.root.clone(), phase: LaunchPhase::Searching(search) }, op)
    }

    /// Makes sure IK Product Manager is installed in the shared prefix,
    /// then opens it, caching its installer under `cache`. This does not
    /// install TONEX or AmpliTube by itself: the user still logs into their
    /// own IK Multimedia account and picks the products inside Product
    /// Manager's window; poll `state()` afterward to notice them.
    pub fn install_product_manager_with_cache(&self, cache: String) -> (r: (InstallProductManager, Op))
        ensures
            (r.0@, r.1@) == install_start(self@.root, cache@),
    {
        let op = Op::CreateDirAll(self.prefix_path());
        (
            InstallProductManager {
                root: self.root.clone(),
                cache,
                phase: InstallPhase::MakingPrefix,
            },
            op,
        )
    }

    /// Makes sure IK Product Manager is installed in the shared prefix,
    /// then opens it; its installer is cached in the user's cache
    /// directory. No installer file is needed from the user.
    pub fn install_product_manager(&self) -> (r: (InstallProductManager, Op))
        ensures
            exists|d: Option<Seq<u8>>|
                (d matches Some(c) ==> c.len() > 0) && (r.0@, r.1@) == install_start(
                    self@.root,
                    cache_dir_in(path_texts(d)),
                ),
    {
        let bytes = crate::bootstrap::user_cache_dir();
        let ghost d = bytes.deep_view();
        let r = self.install_product_manager_with_cache(
            cache_directory_in(optional_path_text(bytes)),
        );
        assert((r.0@, r.1@) == install_start(self@.root, cache_dir_in(path_texts(d))));
        r
    }

    /// Registers WineASIO in the shared prefix so anything running there
    /// can see a real, low-latency audio device.
    pub fn set_up_audio(&self) -> (r: (SetUpAudio, Op))
        ensures
            (r.0@, r.1@) == audio_start(self@.root),
    {
        let (d, op) = Wine::detect();
        (SetUpAudio { root: self.root.clone(), phase: AudioPhase::Detecting(d) }, op)
    }

    /// Deletes and recreates the shared prefix from scratch: the fix for a
    /// prefix that has gotten into a bad state. It wipes Product Manager,
    /// TONEX and AmpliTube together, since they all live there.
    pub fn reset(&self) -> (r: (Reset, Op))
        ensures
            (r.0@, r.1@) == reset_start(hub(self@.root)),
    {
        let path = self.prefix_path();
        let op = Op::IsDir(path.clone());
        (Reset { path, phase: ResetPhase::Checking }, op)
    }
}

impl Default for Library {
    /// The library under the user's home directory (see [`Library::new`]).
    fn default() -> (r: Library)
        ensures
            exists|home: Option<Seq<u8>>|
                (home matches Some(h) ==> h.len() > 0) && r@.root == library_root_in(
                    path_texts(home),
                ),
    {
        Library::new()
    }
}

// ---------------------------------------------------------------------
// Laws
// ---------------------------------------------------------------------

/// The states gathered so far belong to the first applications of the
/// catalog, in order, and the one being looked for is the next.
pub open spec fn all_states_wf(v: AllView) -> bool {
    &&& v.done.len() < all_applications().len()
    &&& forall|i: int| 0 <= i < v.done.len() ==> #[trigger] v.done[i].application == all_applications()[i]
    &&& v.current.application == all_applications()[v.done.len() as int]
}

/// Gathering every application's state starts well formed.
pub proof fn all_states_start_wf(root: Seq<char>)
    ensures
        all_states_wf(all_start(root).0),
{
}

/// Every step of gathering states keeps it well formed, and its result
/// has one state per application, in catalog order.
pub proof fn all_states_in_catalog_order(v: AllView, ev: EventView)
    requires
        all_states_wf(v),
    ensures
        match all_next(v, ev) {
            Move::Continue(w, _) => all_states_wf(w),
            Move::Done(states) => states.len() == all_applications().len() && forall|i: int|
                0 <= i < states.len() ==> #[trigger] states[i].application == all_applications()[i],
        },
{
    match state_next(v.current, ev) {
        Move::Continue(c, op) => {},
        Move::Done(st) => {
            let done = v.done.push(st);
            assert forall|i: int| 0 <= i < done.len() implies #[trigger] done[i].application
                == all_applications()[i] by {
                if i < v.done.len() {
                    assert(done[i] == v.done[i]);
                }
            }
        },
    }
}

/// What looking for `app` under `root` finds in the tree `t`.
pub open spec fn state_in(t: Tree, root: Seq<char>, app: Application) -> AppStateView {
    AppStateView {
        application: app,
        executable: search_dir(t, executable_rules(app), drive_c(hub(root)), 0),
    }
}

/// The steps looking for `app` under `root` takes at most in the tree `t`.
pub open spec fn state_fuel(t: Tree, root: Seq<char>, app: Application) -> nat {
    dir_cost(t, executable_rules(app), drive_c(hub(root)), 0) + 1
}

proof fn lemma_state_drive(t: Tree, v: StateView, fuel: nat)
    requires
        search_ok(v.search),
        fuel > cost(t, v.search),
    ensures
        drive(
            |s: StateView, e: EventView| state_next(s, e),
            tree_answer(t),
            v,
            OpView::ReadDir(v.search.pending),
            fuel,
        ) == Some(AppStateView { application: v.application, executable: meaning(t, v.search) }),
    decreases fuel,
{
    let ev = EventView::Listing(t(v.search.pending));
    assert(tree_answer(t)(OpView::ReadDir(v.search.pending)) == ev);
    search_step_keeps_meaning(t, v.search, ev);
    search_step_lowers_cost(t, v.search, ev);
    match search_next(v.search, ev) {
        Move::Done(x) => {},
        Move::Continue(w, op) => {
            lemma_state_drive(t, StateView { search: w, ..v }, (fuel - 1) as nat);
        },
    }
}

proof fn lemma_all_last(t: Tree, v: AllView, fuel: nat)
    requires
        v.done.len() == 1,
        search_ok(v.current.search),
        fuel > cost(t, v.current.search),
    ensures
        drive(
            |s: AllView, e: EventView| all_next(s, e),
            tree_answer(t),
            v,
            OpView::ReadDir(v.current.search.pending),
            fuel,
        ) == Some(
            v.done.push(
                AppStateView {
                    application: v.current.application,
                    executable: meaning(t, v.current.search),
                },
            ),
        ),
    decreases fuel,
{
    let ev = EventView::Listing(t(v.current.search.pending));
    assert(tree_answer(t)(OpView::ReadDir(v.current.search.pending)) == ev);
    search_step_keeps_meaning(t, v.current.search, ev);
    search_step_lowers_cost(t, v.current.search, ev);
    match search_next(v.current.search, ev) {
        Move::Done(x) => {},
        Move::Continue(w, op) => {
            lemma_all_last(
                t,
                AllView { current: StateView { search: w, ..v.current }, ..v },
                (fuel - 1) as nat,
            );
        },
    }
}

proof fn lemma_all_first(t: Tree, v: AllView, fuel: nat)
    requires
        v.done.len() == 0,
        search_ok(v.current.search),
        fuel > cost(t, v.current.search) + state_fuel(t, v.root, all_applications()[1]),
    ensures
        drive(
            |s: AllView, e: EventView| all_next(s, e),
            tree_answer(t),
            v,
            OpView::ReadDir(v.current.search.pending),
            fuel,
        ) == Some(
            seq![
                AppStateView {
                    application: v.current.application,
                    executable: meaning(t, v.current.search),
                },
                state_in(t, v.root, all_applications()[1]),
            ],
        ),
    decreases fuel,
{
    let ev = EventView::Listing(t(v.current.search.pending));
    assert(tree_answer(t)(OpView::ReadDir(v.current.search.pending)) == ev);
    search_step_keeps_meaning(t, v.current.search, ev);
    search_step_lowers_cost(t, v.current.search, ev);
    match search_next(v.current.search, ev) {
        Move::Done(x) => {
            let st = AppStateView { application: v.current.application, executable: x };
            let app = all_applications()[1];
            let (c, op) = state_start(v.root, app);
            let w = AllView { root: v.root, done: v.done.push(st), current: c };
            let s0 = c.search;
            assert(stack_cost(t, s0.rules, s0.stack) == 0);
            lemma_all_last(t, w, (fuel - 1) as nat);
            assert(rest(t, s0.rules, s0.stack) == None::<Seq<char>>);
            assert(w.done.push(state_in(t, v.root, app)) =~= seq![st, state_in(t, v.root, app)]);
        },
        Move::Continue(w, op) => {
            lemma_all_first(
                t,
                AllView { current: StateView { search: w, ..v.current }, ..v },
                (fuel - 1) as nat,
            );
        },
    }
}

/// Answered from any fixed tree, looking for one application finishes with
/// what its search of the shared prefix finds, and gathering every
/// application's state finishes with exactly those separate states, one
/// per application in catalog order.
pub proof fn all_states_are_the_separate_states(t: Tree, root: Seq<char>, app: Application)
    ensures
        drive(
            |s: StateView, e: EventView| state_next(s, e),
            tree_answer(t),
            state_start(root, app).0,
            state_start(root, app).1,
            state_fuel(t, root, app),
        ) == Some(state_in(t, root, app)),
        drive(
            |s: AllView, e: EventView| all_next(s, e),
            tree_answer(t),
            all_start(root).0,
            all_start(root).1,
            state_fuel(t, root, all_applications()[0]) + state_fuel(t, root, all_applications()[1]),
        ) == Some(
            seq![
                state_in(t, root, all_applications()[0]),
                state_in(t, root, all_applications()[1]),
            ],
        ),
{
    let v = state_start(root, app).0;
    assert(stack_cost(t, v.search.rules, v.search.stack) == 0);
    assert(rest(t, v.search.rules, v.search.stack) == None::<Seq<char>>);
    lemma_state_drive(t, v, state_fuel(t, root, app));
    let a = all_start(root).0;
    let s0 = a.current.search;
    assert(stack_cost(t, s0.rules, s0.stack) == 0);
    assert(rest(t, s0.rules, s0.stack) == None::<Seq<char>>);
    lemma_all_first(
        t,
        a,
        state_fuel(t, root, all_applications()[0]) + state_fuel(t, root, all_applications()[1]),
    );
}

/// Every application is looked for in the same place: the `drive_c` of
/// the one shared prefix under the library root.
pub proof fn applications_share_one_prefix(root: Seq<char>, a: Application, b: Application)
    ensures
        state_start(root, a).1 == state_start(root, b).1,
        state_start(root, a).1 == OpView::ReadDir(drive_c(hub(root))),
        launch_start(root, a).1 == state_start(root, a).1,
{
}

/// Answered from any fixed tree, looking for an application finds the
/// first file of the shared prefix's `drive_c`, in listing order, within
/// eight levels and outside directories named `windows`, whose name is one
/// of the application's executable names ignoring ASCII case.
pub proof fn state_finds_first_executable(
    t: crate::search::Tree,
    root: Seq<char>,
    app: Application,
    fuel: nat,
)
    ensures
        crate::search::run(t, state_start(root, app).0.search, fuel) matches Some(x) ==> x
            == crate::search::search_dir(t, executable_rules(app), drive_c(hub(root)), 0),
{
    crate::search::search_run_finds_first_match(t, executable_rules(app), drive_c(hub(root)), fuel);
}

/// Launching an application that is not installed fails with `NotFound`
/// naming the shared prefix, without looking for Wine or starting
/// anything.
pub proof fn launch_of_missing_application_fails(v: LaunchView, s: SearchView, ev: EventView)
    requires
        v.phase == LaunchPhaseView::Searching(s),
        search_next(s, ev) == Move::<SearchView, Option<Seq<char>>>::Done(None),
    ensures
        launch_next(v, ev) == Move::<LaunchView, Result<(), ErrorView>>::Done(
            Err(ErrorView::NotFound(hub(v.root))),
        ),
{
}

/// Launching starts the executable that was found, in the shared prefix,
/// with the Wine that was found, and nothing else.
pub proof fn launch_starts_found_executable(
    v: LaunchView,
    exe: Seq<char>,
    d: DetectView,
    ev: EventView,
    wine: Seq<char>,
)
    requires
        v.phase == LaunchPhaseView::Detecting(exe, d),
        detect_next(d, ev) == Move::<DetectView, Result<crate::wine::WineView, ErrorView>>::Done(
            Ok(crate::wine::WineView { executable: wine }),
        ),
    ensures
        launch_next(v, ev) matches Move::Continue(w, op) && w.phase == LaunchPhaseView::Running(
            in_prefix_start(hub_prefix(v.root, wine), exe, true, false).0,
        ) && op == OpView::IsFile(exe),
{
}

/// A failure to install the base runtime components never aborts the
/// install: it becomes a warning, after which Product Manager is looked for
/// as if the components had been installed.
pub proof fn base_component_failure_only_warns(
    v: InstallView,
    p: PrefixView,
    t: TricksView,
    ev: EventView,
    e: ErrorView,
    ev2: EventView,
)
    requires
        v.phase == InstallPhaseView::BaseComponents(p, t),
        tricks_next(t, ev) == Move::<TricksView, Result<(), ErrorView>>::Done(Err(e)),
    ensures
        install_next(v, ev) matches Move::Continue(w, op) && op == OpView::Warn(e) && install_next(
            w,
            ev2,
        ) == find_product_manager(v, p, false),
{
}

/// Product Manager that is already in the prefix is opened again instead
/// of being downloaded and set up a second time.
pub proof fn installed_product_manager_is_reopened(
    v: InstallView,
    p: PrefixView,
    s: SearchView,
    ev: EventView,
    pm: Seq<char>,
)
    requires
        v.phase == InstallPhaseView::Finding(p, s, false),
        search_next(s, ev) == Move::<SearchView, Option<Seq<char>>>::Done(Some(pm)),
    ensures
        install_next(v, ev) matches Move::Continue(w, op) && w.phase == InstallPhaseView::Opening(
            in_prefix_start(p, pm, true, false).0,
        ) && op == OpView::IsFile(pm),
{
}

/// A reset only succeeds by creating the prefix directory afresh: its
/// successful end always follows `CreateDirAll` of the prefix.
pub proof fn reset_ends_with_fresh_prefix(v: ResetView, ev: EventView)
    ensures
        reset_next(v, ev) == Move::<ResetView, Result<(), ErrorView>>::Done(Ok(())) ==> v.phase
            == ResetPhase::Creating,
        v.phase == ResetPhase::Removing && io_done(ev) is Ok ==> (reset_next(v, ev) matches Move::Continue(_, op) && op == OpView::CreateDirAll(v.path)),
{
}

/// The moves of resetting, as a function.
pub open spec fn reset_steps() -> spec_fn(ResetView, EventView) -> Move<
    ResetView,
    Result<(), ErrorView>,
> {
    |v: ResetView, e: EventView| reset_next(v, e)
}

/// What a reset leaves of the disk `before` in `after`, for the prefix
/// `h`: the prefix is a directory with nothing inside it that lists
/// nothing; every path outside it is the file it was and lists what it
/// listed, and is a directory exactly when it was one or lies above the
/// prefix.
pub open spec fn fresh_prefix(before: Disk, after: Disk, h: Seq<char>) -> bool {
    &&& after.dirs.contains(h)
    &&& (after.tree)(h) == Seq::<EntryView>::empty()
    &&& forall|q: Seq<char>|
        #[trigger] below(h, q) ==> !after.dirs.contains(q) && !after.files.contains(q) && (
        after.tree)(q) == Seq::<EntryView>::empty()
    &&& forall|q: Seq<char>|
        !within(h, q) ==> (#[trigger] after.files.contains(q) == before.files.contains(q)) && (
        after.tree)(q) == (before.tree)(q) && after.dirs.contains(q) == (before.dirs.contains(q)
            || (q.len() > 0 && below(q, h)))
}

/// A reset leaves the shared prefix an empty directory and touches nothing
/// else. Run on any disk as a file system has it, it succeeds within three
/// steps and leaves a [`fresh_prefix`]; so afterwards no search of the
/// prefix's `drive_c` finds anything, whatever it looks for: Product
/// Manager is not installed, and no application has an executable.
pub proof fn reset_leaves_empty_prefix(d: Disk, root: Seq<char>)
    requires
        disk_wf(d),
    ensures
        drive_disk(reset_steps(), d, reset_start(hub(root)).0, reset_start(hub(root)).1, 3) matches Some((r, after)) && r == Ok::<(), ErrorView>(())
            && fresh_prefix(d, after, hub(root)) && forall|rules: RulesView|
            #[trigger] search_dir(after.tree, rules, drive_c(hub(root)), 0) == None::<Seq<char>>,
{
    let h = hub(root);
    reveal_strlit("hub");
    reveal_strlit("drive_c");
    assert(h.len() > 0 && h.last() == 'b');
    let dc = drive_c(h);
    assert(dc == h + seq!['/'] + "drive_c"@);
    assert(dc.subrange(0, h.len() as int) =~= h);
    assert(below(h, dc));
    let (v0, op0) = reset_start(h);
    let created_disk = |base: Disk| disk_effect(base, OpView::CreateDirAll(h));
    let after = if d.dirs.contains(h) {
        let d1 = disk_effect(d, OpView::RemoveDirAll(h));
        let v1 = ResetView { phase: ResetPhase::Removing, ..v0 };
        let v2 = ResetView { phase: ResetPhase::Creating, ..v0 };
        assert(drive_disk(reset_steps(), d, v0, op0, 3) == drive_disk(
            reset_steps(),
            d,
            v1,
            OpView::RemoveDirAll(h),
            2,
        ));
        assert(drive_disk(reset_steps(), d, v1, OpView::RemoveDirAll(h), 2) == drive_disk(
            reset_steps(),
            d1,
            v2,
            OpView::CreateDirAll(h),
            1,
        ));
        created_disk(d1)
    } else {
        let v2 = ResetView { phase: ResetPhase::Creating, ..v0 };
        assert(drive_disk(reset_steps(), d, v0, op0, 3) == drive_disk(
            reset_steps(),
            d,
            v2,
            OpView::CreateDirAll(h),
            2,
        ));
        assert forall|q: Seq<char>| #[trigger] below(h, q) implies !d.dirs.contains(q)
            && !d.files.contains(q) by {
            if d.dirs.contains(q) || d.files.contains(q) {
                assert(d.dirs.contains(h));
            }
        }
        created_disk(d)
    };
    assert(drive_disk(reset_steps(), d, v0, op0, 3) == Some(
        (Ok::<(), ErrorView>(()), after),
    ));
    assert forall|q: Seq<char>| #[trigger] below(h, q) implies !after.dirs.contains(q)
        && !after.files.contains(q) && (after.tree)(q) == Seq::<EntryView>::empty() by {
        assert(!(q.len() > 0 && below(q, h)));
        if !d.dirs.contains(h) {
            assert(!d.dirs.contains(q));
        }
    }
    assert(fresh_prefix(d, after, h));
    assert((after.tree)(dc) == Seq::<EntryView>::empty());
    assert forall|rules: RulesView|
        #[trigger] search_dir(after.tree, rules, dc, 0) == None::<Seq<char>> by {
        assert((after.tree)(dc) == Seq::<EntryView>::empty());
    }
}

/// The moves of launching, as a function.
pub open spec fn launch_steps() -> spec_fn(LaunchView, EventView) -> Move<
    LaunchView,
    Result<(), ErrorView>,
> {
    |v: LaunchView, e: EventView| launch_next(v, e)
}

/// Where lookups answered by `capture` find Wine: `wine`, else `wine64`.
pub open spec fn wine_found(capture: spec_fn(CommandView) -> EventView) -> Option<Seq<char>> {
    match located(capture(which_command("wine"@))) {
        Some(p) => Some(p),
        None => located(capture(which_command("wine64"@))),
    }
}

/// How launching ends, given what its search found, where Wine was found
/// and the files of the disk, and the one process it starts, if any.
pub open spec fn launch_outcome(
    found: Option<Seq<char>>,
    wine: Option<Seq<char>>,
    files: Set<Seq<char>>,
    root: Seq<char>,
) -> (Result<(), ErrorView>, Option<CommandView>) {
    match found {
        None => (Err(ErrorView::NotFound(hub(root))), None),
        Some(exe) => match wine {
            None => (Err(ErrorView::WineNotInstalled), None),
            Some(w) => if files.contains(exe) {
                (Ok(()), Some(wine_command(hub_prefix(root, w), exe)))
            } else {
                (Err(ErrorView::NotFound(exe)), None)
            },
        },
    }
}

/// The steps launching `app` takes at most in the tree `t`.
pub open spec fn launch_fuel(t: Tree, root: Seq<char>, app: Application) -> nat {
    dir_cost(t, executable_rules(app), drive_c(hub(root)), 0) + 8
}

proof fn lemma_launch_spawn(
    files: Set<Seq<char>>,
    dirs: Set<Seq<char>>,
    t: Tree,
    capture: spec_fn(CommandView) -> EventView,
    root: Seq<char>,
    p: PrefixView,
    exe: Seq<char>,
    fuel: nat,
)
    requires
        fuel >= 1,
    ensures
        ({
            let v = LaunchView {
                root,
                phase: LaunchPhaseView::Running(
                    InPrefixView {
                        prefix: p,
                        target: exe,
                        require_file: true,
                        wait: false,
                        phase: InPrefixPhaseView::Running,
                    },
                ),
            };
            let op = OpView::Spawn(wine_command(p, exe));
            let w = system_answer(files, dirs, t, capture);
            &&& drive(launch_steps(), w, v, op, fuel) == Some(Ok::<(), ErrorView>(()))
            &&& spawns_only(ops_asked(launch_steps(), w, v, op, fuel), Some(wine_command(p, exe)))
        }),
{
}

proof fn lemma_launch_init(
    files: Set<Seq<char>>,
    dirs: Set<Seq<char>>,
    t: Tree,
    capture: spec_fn(CommandView) -> EventView,
    root: Seq<char>,
    p: PrefixView,
    exe: Seq<char>,
    fuel: nat,
)
    requires
        fuel >= 4,
    ensures
        ({
            let v = LaunchView {
                root,
                phase: LaunchPhaseView::Running(
                    InPrefixView {
                        prefix: p,
                        target: exe,
                        require_file: true,
                        wait: false,
                        phase: InPrefixPhaseView::Initializing(init_start(p).0),
                    },
                ),
            };
            let op = init_start(p).1;
            let w = system_answer(files, dirs, t, capture);
            &&& drive(launch_steps(), w, v, op, fuel) == Some(Ok::<(), ErrorView>(()))
            &&& spawns_only(ops_asked(launch_steps(), w, v, op, fuel), Some(wine_command(p, exe)))
        }),
{
    let w = system_answer(files, dirs, t, capture);
    let i0 = InPrefixView {
        prefix: p,
        target: exe,
        require_file: true,
        wait: false,
        phase: InPrefixPhaseView::Initializing(init_start(p).0),
    };
    let v = LaunchView { root, phase: LaunchPhaseView::Running(i0) };
    let op = init_start(p).1;
    let run = LaunchView {
        root,
        phase: LaunchPhaseView::Running(InPrefixView { phase: InPrefixPhaseView::Running, ..i0 }),
    };
    let spawn = OpView::Spawn(wine_command(p, exe));
    if dirs.contains(drive_c(p.path)) {
        lemma_launch_spawn(files, dirs, t, capture, root, p, exe, (fuel - 1) as nat);
        assert(launch_next(v, w(op)) == Move::<LaunchView, Result<(), ErrorView>>::Continue(run, spawn));
        spawns_only_after(op, ops_asked(launch_steps(), w, run, spawn, (fuel - 1) as nat), Some(wine_command(p, exe)));
    } else {
        let v1 = LaunchView {
            root,
            phase: LaunchPhaseView::Running(
                InPrefixView {
                    phase: InPrefixPhaseView::Initializing(
                        InitView { prefix: p, phase: InitPhase::Creating },
                    ),
                    ..i0
                },
            ),
        };
        let op1 = OpView::CreateDirAll(p.path);
        let v2 = LaunchView {
            root,
            phase: LaunchPhaseView::Running(
                InPrefixView {
                    phase: InPrefixPhaseView::Initializing(
                        InitView { prefix: p, phase: InitPhase::Booting },
                    ),
                    ..i0
                },
            ),
        };
        let op2 = OpView::Run(wine_command(p, "wineboot"@));
        assert(launch_next(v, w(op)) == Move::<LaunchView, Result<(), ErrorView>>::Continue(v1, op1));
        assert(launch_next(v1, w(op1)) == Move::<LaunchView, Result<(), ErrorView>>::Continue(v2, op2));
        assert(launch_next(v2, w(op2)) == Move::<LaunchView, Result<(), ErrorView>>::Continue(run, spawn));
        lemma_launch_spawn(files, dirs, t, capture, root, p, exe, (fuel - 3) as nat);
        let tail = ops_asked(launch_steps(), w, run, spawn, (fuel - 3) as nat);
        spawns_only_after(op2, tail, Some(wine_command(p, exe)));
        spawns_only_after(op1, seq![op2] + tail, Some(wine_command(p, exe)));
        spawns_only_after(op, seq![op1] + (seq![op2] + tail), Some(wine_command(p, exe)));
        assert(ops_asked(launch_steps(), w, v2, op2, (fuel - 2) as nat) == seq![op2] + tail);
        assert(ops_asked(launch_steps(), w, v1, op1, (fuel - 1) as nat) == seq![op1] + (seq![op2]
            + tail));
        assert(ops_asked(launch_steps(), w, v, op, fuel) == seq![op] + (seq![op1] + (seq![op2]
            + tail)));
        assert(drive(launch_steps(), w, v2, op2, (fuel - 2) as nat) == drive(
            launch_steps(),
            w,
            run,
            spawn,
            (fuel - 3) as nat,
        ));
        assert(drive(launch_steps(), w, v1, op1, (fuel - 1) as nat) == drive(
            launch_steps(),
            w,
            v2,
            op2,
            (fuel - 2) as nat,
        ));
        assert(drive(launch_steps(), w, v, op, fuel) == drive(
            launch_steps(),
            w,
            v1,
            op1,
            (fuel - 1) as nat,
        ));
    }
}

proof fn lemma_launch_check(
    files: Set<Seq<char>>,
    dirs: Set<Seq<char>>,
    t: Tree,
    capture: spec_fn(CommandView) -> EventView,
    root: Seq<char>,
    wine: Seq<char>,
    exe: Seq<char>,
    fuel: nat,
)
    requires
        fuel >= 5,
    ensures
        ({
            let p = hub_prefix(root, wine);
            let (i, op) = in_prefix_start(p, exe, true, false);
            let v = LaunchView { root, phase: LaunchPhaseView::Running(i) };
            let w = system_answer(files, dirs, t, capture);
            let out = launch_outcome(Some(exe), Some(wine), files, root);
            &&& drive(launch_steps(), w, v, op, fuel) == Some(out.0)
            &&& spawns_only(ops_asked(launch_steps(), w, v, op, fuel), out.1)
        }),
{
    let p = hub_prefix(root, wine);
    let (i, op) = in_prefix_start(p, exe, true, false);
    let v = LaunchView { root, phase: LaunchPhaseView::Running(i) };
    let w = system_answer(files, dirs, t, capture);
    if files.contains(exe) {
        let i1 = InPrefixView { phase: InPrefixPhaseView::Initializing(init_start(p).0), ..i };
        let v1 = LaunchView { root, phase: LaunchPhaseView::Running(i1) };
        assert(launch_next(v, w(op)) == Move::<LaunchView, Result<(), ErrorView>>::Continue(
            v1,
            init_start(p).1,
        ));
        lemma_launch_init(files, dirs, t, capture, root, p, exe, (fuel - 1) as nat);
        spawns_only_after(
            op,
            ops_asked(launch_steps(), w, v1, init_start(p).1, (fuel - 1) as nat),
            Some(wine_command(p, exe)),
        );
    }
}

proof fn lemma_launch_detect(
    files: Set<Seq<char>>,
    dirs: Set<Seq<char>>,
    t: Tree,
    capture: spec_fn(CommandView) -> EventView,
    root: Seq<char>,
    exe: Seq<char>,
    fuel: nat,
)
    requires
        fuel >= 7,
    ensures
        ({
            let v = LaunchView { root, phase: LaunchPhaseView::Detecting(exe, detect_start().0) };
            let op = detect_start().1;
            let w = system_answer(files, dirs, t, capture);
            let out = launch_outcome(Some(exe), wine_found(capture), files, root);
            &&& drive(launch_steps(), w, v, op, fuel) == Some(out.0)
            &&& spawns_only(ops_asked(launch_steps(), w, v, op, fuel), out.1)
        }),
{
    let v = LaunchView { root, phase: LaunchPhaseView::Detecting(exe, detect_start().0) };
    let op = detect_start().1;
    let w = system_answer(files, dirs, t, capture);
    let out = launch_outcome(Some(exe), wine_found(capture), files, root);
    match located(capture(which_command("wine"@))) {
        Some(found) => {
            let (i, op1) = in_prefix_start(hub_prefix(root, found), exe, true, false);
            let v1 = LaunchView { root, phase: LaunchPhaseView::Running(i) };
            assert(launch_next(v, w(op)) == Move::<LaunchView, Result<(), ErrorView>>::Continue(v1, op1));
            lemma_launch_check(files, dirs, t, capture, root, found, exe, (fuel - 1) as nat);
            spawns_only_after(op, ops_asked(launch_steps(), w, v1, op1, (fuel - 1) as nat), out.1);
        },
        None => {
            let v1 = LaunchView {
                root,
                phase: LaunchPhaseView::Detecting(exe, DetectView { tried_wine64: true }),
            };
            let op1 = OpView::Capture(which_command("wine64"@));
            assert(launch_next(v, w(op)) == Move::<LaunchView, Result<(), ErrorView>>::Continue(v1, op1));
            match located(capture(which_command("wine64"@))) {
                Some(found) => {
                    let (i, op2) = in_prefix_start(hub_prefix(root, found), exe, true, false);
                    let v2 = LaunchView { root, phase: LaunchPhaseView::Running(i) };
                    assert(launch_next(v1, w(op1)) == Move::<LaunchView, Result<(), ErrorView>>::Continue(v2, op2));
                    lemma_launch_check(files, dirs, t, capture, root, found, exe, (fuel - 2) as nat);
                    let tail = ops_asked(launch_steps(), w, v2, op2, (fuel - 2) as nat);
                    spawns_only_after(op1, tail, out.1);
                    spawns_only_after(op, seq![op1] + tail, out.1);
                    assert(ops_asked(launch_steps(), w, v1, op1, (fuel - 1) as nat) == seq![op1]
                        + tail);
                    assert(ops_asked(launch_steps(), w, v, op, fuel) == seq![op] + (seq![op1]
                        + tail));
                    assert(drive(launch_steps(), w, v1, op1, (fuel - 1) as nat) == drive(
                        launch_steps(),
                        w,
                        v2,
                        op2,
                        (fuel - 2) as nat,
                    ));
                },
                None => {
                    assert(ops_asked(launch_steps(), w, v1, op1, (fuel - 1) as nat) == seq![op1]);
                    assert(ops_asked(launch_steps(), w, v, op, fuel) == seq![op] + seq![op1]);
                    spawns_only_after(op1, Seq::empty(), out.1);
                    assert(seq![op1] + Seq::<OpView>::empty() =~= seq![op1]);
                    spawns_only_after(op, seq![op1], out.1);
                },
            }
        },
    }
}

proof fn lemma_launch_search(
    files: Set<Seq<char>>,
    dirs: Set<Seq<char>>,
    t: Tree,
    capture: spec_fn(CommandView) -> EventView,
    root: Seq<char>,
    s: SearchView,
    fuel: nat,
)
    requires
        search_ok(s),
        fuel > cost(t, s) + 7,
    ensures
        ({
            let v = LaunchView { root, phase: LaunchPhaseView::Searching(s) };
            let op = OpView::ReadDir(s.pending);
            let w = system_answer(files, dirs, t, capture);
            let out = launch_outcome(meaning(t, s), wine_found(capture), files, root);
            &&& drive(launch_steps(), w, v, op, fuel) == Some(out.0)
            &&& spawns_only(ops_asked(launch_steps(), w, v, op, fuel), out.1)
        }),
    decreases fuel,
{
    let v = LaunchView { root, phase: LaunchPhaseView::Searching(s) };
    let op = OpView::ReadDir(s.pending);
    let w = system_answer(files, dirs, t, capture);
    let out = launch_outcome(meaning(t, s), wine_found(capture), files, root);
    let ev = EventView::Listing(t(s.pending));
    assert(w(op) == ev);
    search_step_keeps_meaning(t, s, ev);
    search_step_lowers_cost(t, s, ev);
    match search_next(s, ev) {
        Move::Continue(s2, op2) => {
            let v2 = LaunchView { root, phase: LaunchPhaseView::Searching(s2) };
            lemma_launch_search(files, dirs, t, capture, root, s2, (fuel - 1) as nat);
            spawns_only_after(op, ops_asked(launch_steps(), w, v2, op2, (fuel - 1) as nat), out.1);
        },
        Move::Done(None) => {
            spawns_only_after(op, Seq::empty(), out.1);
            assert(seq![op] + Seq::<OpView>::empty() =~= seq![op]);
        },
        Move::Done(Some(exe)) => {
            let v2 = LaunchView { root, phase: LaunchPhaseView::Detecting(exe, detect_start().0) };
            lemma_launch_detect(files, dirs, t, capture, root, exe, (fuel - 1) as nat);
            spawns_only_after(
                op,
                ops_asked(launch_steps(), w, v2, detect_start().1, (fuel - 1) as nat),
                out.1,
            );
        },
    }
}

/// Launching starts exactly the executable its search finds, and nothing
/// else. Answered by a system whose disk does not change under it, whose
/// lookups on `$PATH` answer as `capture`, and on which commands succeed:
/// when the search of the shared prefix finds nothing, the launch fails
/// with `NotFound` naming the prefix; when Wine is found neither as `wine`
/// nor as `wine64`, it fails with `WineNotInstalled`; when what was found
/// is not a file, it fails with `NotFound` naming it; otherwise it
/// succeeds, and the one process it starts, by its last operation, is the
/// found executable under the found Wine in the shared prefix. A failed
/// launch starts nothing.
pub proof fn launch_starts_only_the_found_executable(
    files: Set<Seq<char>>,
    dirs: Set<Seq<char>>,
    t: Tree,
    capture: spec_fn(CommandView) -> EventView,
    root: Seq<char>,
    app: Application,
)
    ensures
        ({
            let (v, op) = launch_start(root, app);
            let w = system_answer(files, dirs, t, capture);
            let out = launch_outcome(
                search_dir(t, executable_rules(app), drive_c(hub(root)), 0),
                wine_found(capture),
                files,
                root,
            );
            &&& drive(launch_steps(), w, v, op, launch_fuel(t, root, app)) == Some(out.0)
            &&& spawns_only(ops_asked(launch_steps(), w, v, op, launch_fuel(t, root, app)), out.1)
        }),
{
    let (v, op) = launch_start(root, app);
    let s = search_start(executable_rules(app), drive_c(hub(root)));
    assert(stack_cost(t, s.rules, s.stack) == 0);
    assert(rest(t, s.rules, s.stack) == None::<Seq<char>>);
    lemma_launch_search(files, dirs, t, capture, root, s, launch_fuel(t, root, app));
}

/// The moves of setting up audio, as a function.
pub open spec fn audio_steps() -> spec_fn(AudioSetupView, EventView) -> Move<
    AudioSetupView,
    Result<(), ErrorView>,
> {
    |v: AudioSetupView, e: EventView| audio_next(v, e)
}

/// Among `ops`, answered by `answers`, is a run of `winetricks -q
/// wineasio` in the shared prefix under `root` that exited successfully.
pub open spec fn asio_registered(root: Seq<char>, ops: Seq<OpView>, answers: Seq<EventView>) -> bool {
    exists|j: int|
        0 <= j < ops.len() && j < answers.len() && (#[trigger] ops[j] matches OpView::Run(c) && c
            == winetricks_command(c.program, hub(root), asio_verbs()))
            && (answers[j] matches EventView::Exited(st) && st.success)
}

/// Setting up audio under `root` is under way and asks next for `op`.
pub open spec fn audio_ok(root: Seq<char>, v: AudioSetupView, op: OpView) -> bool {
    &&& v.root == root
    &&& v.phase matches AudioPhaseView::Registering(t) ==> {
        &&& t.prefix == hub(root)
        &&& t.verbs == asio_verbs()
        &&& t.running ==> (op matches OpView::Run(c) && c == winetricks_command(
            c.program,
            hub(root),
            asio_verbs(),
        ))
    }
}

proof fn lemma_audio_registers(
    root: Seq<char>,
    v: AudioSetupView,
    op: OpView,
    answers: Seq<EventView>,
)
    requires
        audio_ok(root, v, op),
    ensures
        replay(audio_steps(), answers, v, op).1 == Some(Ok::<(), ErrorView>(())) ==> asio_registered(
            root,
            replay(audio_steps(), answers, v, op).0,
            answers,
        ),
    decreases answers.len(),
{
    if answers.len() > 0 {
        let ev = answers[0];
        let ops = replay(audio_steps(), answers, v, op).0;
        match audio_next(v, ev) {
            Move::Done(r) => {
                if r == Ok::<(), ErrorView>(()) {
                    assert(ops[0] == op);
                    assert(asio_registered(root, ops, answers));
                }
            },
            Move::Continue(w, op2) => {
                assert(audio_ok(root, w, op2));
                let rest = answers.drop_first();
                lemma_audio_registers(root, w, op2, rest);
                let sub = replay(audio_steps(), rest, w, op2).0;
                assert(ops == seq![op] + sub);
                if replay(audio_steps(), answers, v, op).1 == Some(Ok::<(), ErrorView>(())) {
                    let j = choose|j: int|
                        0 <= j < sub.len() && j < rest.len() && (#[trigger] sub[j] matches OpView::Run(
                            c,
                        ) && c == winetricks_command(c.program, hub(root), asio_verbs()))
                            && (rest[j] matches EventView::Exited(st) && st.success);
                    assert(ops[j + 1] == sub[j]);
                    assert(answers[j + 1] == rest[j]);
                    assert(asio_registered(root, ops, answers));
                }
            },
        }
    }
}

/// Setting up audio succeeds only by registering WineASIO: whatever the
/// system answers to its operations, a run that ends `Ok` asked for
/// `winetricks -q wineasio` in the shared prefix, and that run exited
/// successfully. An already initialized prefix only spares `wineboot`.
pub proof fn audio_setup_runs_wineasio(root: Seq<char>, answers: Seq<EventView>)
    ensures
        replay(audio_steps(), answers, audio_start(root).0, audio_start(root).1).1 == Some(
            Ok::<(), ErrorView>(()),
        ) ==> asio_registered(
            root,
            replay(audio_steps(), answers, audio_start(root).0, audio_start(root).1).0,
            answers,
        ),
{
    lemma_audio_registers(root, audio_start(root).0, audio_start(root).1, answers);
}

/// The moves of installing Product Manager, as a function.
pub open spec fn install_steps() -> spec_fn(InstallView, EventView) -> Move<
    InstallView,
    Result<(), ErrorView>,
> {
    |v: InstallView, e: EventView| install_next(v, e)
}

/// The lookup of winetricks.
pub open spec fn winetricks_lookup() -> OpView {
    OpView::Capture(which_command("winetricks"@))
}

/// A command run in the shared prefix under `root` (Wine's environment for
/// it), answered by an exit that succeeded.
pub open spec fn ran_in_prefix(root: Seq<char>, op: OpView, answer: EventView) -> bool {
    &&& op matches OpView::Run(c) && c.env == wine_env(hub(root))
    &&& answer matches EventView::Exited(st) && st.success
}

/// Among `ops`, answered by `answers`, winetricks was looked up for the base
/// components, and, where it was found, run next with them in the shared
/// prefix.
pub open spec fn base_components_tried(root: Seq<char>, ops: Seq<OpView>, answers: Seq<EventView>) -> bool {
    exists|i: int|
        0 <= i < ops.len() && i < answers.len() && #[trigger] ops[i] == winetricks_lookup() && (
        located(answers[i]) matches Some(w) ==> i + 1 < ops.len() && ops[i + 1] == OpView::Run(
            winetricks_command(w, hub(root), base_verbs()),
        ))
}

/// Among `ops`, answered by `answers`, a command ran successfully in the
/// shared prefix after winetricks was looked up for the base components.
pub open spec fn setup_ran_after_base(root: Seq<char>, ops: Seq<OpView>, answers: Seq<EventView>) -> bool {
    exists|i: int, j: int|
        0 <= i < j < ops.len() && j < answers.len() && #[trigger] ops[i] == winetricks_lookup()
            && #[trigger] ran_in_prefix(root, ops[j], answers[j])
}

/// A command ran successfully in the shared prefix among `ops`.
pub open spec fn setup_ran(root: Seq<char>, ops: Seq<OpView>, answers: Seq<EventView>) -> bool {
    exists|j: int| 0 <= j < ops.len() && j < answers.len() && #[trigger] ran_in_prefix(root, ops[j], answers[j])
}

/// Installing Product Manager under `root` is under way and asks next for
/// `op`: everything runs in the shared prefix, and a command that is
/// running is the one it asked for.
pub open spec fn install_ok(root: Seq<char>, v: InstallView, op: OpView) -> bool {
    &&& v.root == root
    &&& v.phase matches InstallPhaseView::Initializing(p, _) ==> p.path == hub(root)
    &&& v.phase matches InstallPhaseView::BaseComponents(p, t) ==> {
        &&& p.path == hub(root)
        &&& t.prefix == hub(root)
        &&& t.verbs == base_verbs()
        &&& !t.running ==> op == winetricks_lookup()
    }
    &&& v.phase matches InstallPhaseView::Warning(p) ==> p.path == hub(root)
    &&& v.phase matches InstallPhaseView::Finding(p, _, _) ==> p.path == hub(root)
    &&& v.phase matches InstallPhaseView::Fetching(p, b) ==> {
        &&& p.path == hub(root)
        &&& !(b.phase matches BootPhaseView::DiscardingArchive(e) && e
            == ErrorView::ProductManagerMissing)
        &&& !(b.phase matches BootPhaseView::Cleaning(e) && e == ErrorView::ProductManagerMissing)
    }
    &&& v.phase matches InstallPhaseView::RunningSetup(p, i) ==> {
        &&& p.path == hub(root)
        &&& i.prefix.path == hub(root)
        &&& i.wait
        &&& i.phase is Running ==> op == target_op(i)
    }
    &&& v.phase matches InstallPhaseView::Opening(i) ==> {
        &&& i.prefix.path == hub(root)
        &&& !i.wait
        &&& i.phase is Running ==> op == target_op(i)
    }
}

proof fn lemma_install_step(root: Seq<char>, v: InstallView, op: OpView, ev: EventView)
    requires
        install_ok(root, v, op),
    ensures
        install_next(v, ev) matches Move::Continue(w, op2) ==> install_ok(root, w, op2),
{
}

/// The install is before its lookup of winetricks for the base components.
pub open spec fn before_base(v: InstallView) -> bool {
    match v.phase {
        InstallPhaseView::MakingPrefix => true,
        InstallPhaseView::Detecting(_) => true,
        InstallPhaseView::Initializing(_, _) => true,
        InstallPhaseView::BaseComponents(_, t) => !t.running,
        _ => false,
    }
}

proof fn lemma_install_after_base(
    root: Seq<char>,
    v: InstallView,
    op: OpView,
    answers: Seq<EventView>,
)
    requires
        install_ok(root, v, op),
        !before_base(v),
        !(v.phase matches InstallPhaseView::Finding(_, _, again) && again),
    ensures
        replay(install_steps(), answers, v, op).1 == Some(
            Err::<(), ErrorView>(ErrorView::ProductManagerMissing),
        ) ==> setup_ran(root, replay(install_steps(), answers, v, op).0, answers),
    decreases answers.len(),
{
    if answers.len() > 0 {
        let ev = answers[0];
        let ops = replay(install_steps(), answers, v, op).0;
        lemma_install_step(root, v, op, ev);
        match install_next(v, ev) {
            Move::Done(r) => {},
            Move::Continue(w, op2) => {
                let rest = answers.drop_first();
                let sub = replay(install_steps(), rest, w, op2).0;
                assert(ops == seq![op] + sub);
                if v.phase is RunningSetup && w.phase is Finding {
                    assert(ran_in_prefix(root, ops[0], answers[0]));
                    assert(setup_ran(root, ops, answers));
                } else {
                    lemma_install_after_base(root, w, op2, rest);
                    if replay(install_steps(), answers, v, op).1 == Some(
                        Err::<(), ErrorView>(ErrorView::ProductManagerMissing),
                    ) {
                        let j = choose|j: int|
                            0 <= j < sub.len() && j < rest.len() && #[trigger] ran_in_prefix(
                                root,
                                sub[j],
                                rest[j],
                            );
                        assert(ops[j + 1] == sub[j] && answers[j + 1] == rest[j]);
                        assert(ran_in_prefix(root, ops[j + 1], answers[j + 1]));
                    }
                }
            },
        }
    }
}

proof fn lemma_install_before_base(
    root: Seq<char>,
    v: InstallView,
    op: OpView,
    answers: Seq<EventView>,
)
    requires
        install_ok(root, v, op),
        before_base(v),
    ensures
        replay(install_steps(), answers, v, op).1 == Some(Ok::<(), ErrorView>(()))
            ==> base_components_tried(root, replay(install_steps(), answers, v, op).0, answers),
        replay(install_steps(), answers, v, op).1 == Some(
            Err::<(), ErrorView>(ErrorView::ProductManagerMissing),
        ) ==> setup_ran_after_base(root, replay(install_steps(), answers, v, op).0, answers),
    decreases answers.len(),
{
    if answers.len() > 0 {
        let ev = answers[0];
        let ops = replay(install_steps(), answers, v, op).0;
        lemma_install_step(root, v, op, ev);
        match install_next(v, ev) {
            Move::Done(r) => {},
            Move::Continue(w, op2) => {
                let rest = answers.drop_first();
                let sub = replay(install_steps(), rest, w, op2).0;
                assert(ops == seq![op] + sub);
                if v.phase is BaseComponents {
                    replay_shape(install_steps(), rest, w, op2);
                    lemma_install_after_base(root, w, op2, rest);
                    assert(ops[0] == winetricks_lookup());
                    if replay(install_steps(), answers, v, op).1 is Some {
                        assert(base_components_tried(root, ops, answers));
                    }
                    if replay(install_steps(), answers, v, op).1 == Some(
                        Err::<(), ErrorView>(ErrorView::ProductManagerMissing),
                    ) {
                        let j = choose|j: int|
                            0 <= j < sub.len() && j < rest.len() && #[trigger] ran_in_prefix(
                                root,
                                sub[j],
                                rest[j],
                            );
                        assert(ops[j + 1] == sub[j] && answers[j + 1] == rest[j]);
                        assert(ran_in_prefix(root, ops[j + 1], answers[j + 1]));
                        assert(setup_ran_after_base(root, ops, answers));
                    }
                } else {
                    lemma_install_before_base(root, w, op2, rest);
                    if replay(install_steps(), answers, v, op).1 == Some(Ok::<(), ErrorView>(())) {
                        let i = choose|i: int|
                            0 <= i < sub.len() && i < rest.len() && #[trigger] sub[i]
                                == winetricks_lookup() && (located(rest[i]) matches Some(w)
                                ==> i + 1 < sub.len() && sub[i + 1] == OpView::Run(
                                winetricks_command(w, hub(root), base_verbs()),
                            ));
                        assert(ops[i + 1] == sub[i] && answers[i + 1] == rest[i]);
                        assert(i + 1 < sub.len() ==> ops[i + 2] == sub[i + 1]);
                        assert(base_components_tried(root, ops, answers));
                    }
                    if replay(install_steps(), answers, v, op).1 == Some(
                        Err::<(), ErrorView>(ErrorView::ProductManagerMissing),
                    ) {
                        let (i, j) = choose|i: int, j: int|
                            0 <= i < j < sub.len() && j < rest.len() && #[trigger] sub[i]
                                == winetricks_lookup() && #[trigger] ran_in_prefix(
                                root,
                                sub[j],
                                rest[j],
                            );
                        assert(ops[i + 1] == sub[i]);
                        assert(ops[j + 1] == sub[j] && answers[j + 1] == rest[j]);
                        assert(ran_in_prefix(root, ops[j + 1], answers[j + 1]));
                        assert(setup_ran_after_base(root, ops, answers));
                    }
                }
            },
        }
    }
}

proof fn lemma_install_opens(root: Seq<char>, v: InstallView, op: OpView, answers: Seq<EventView>)
    requires
        install_ok(root, v, op),
    ensures
        replay(install_steps(), answers, v, op).1 == Some(Ok::<(), ErrorView>(())) ==> (replay(
            install_steps(),
            answers,
            v,
            op,
        ).0.last() matches OpView::Spawn(c) && c.env == wine_env(hub(root))),
    decreases answers.len(),
{
    if answers.len() > 0 {
        let ev = answers[0];
        let ops = replay(install_steps(), answers, v, op).0;
        lemma_install_step(root, v, op, ev);
        match install_next(v, ev) {
            Move::Done(r) => {},
            Move::Continue(w, op2) => {
                let rest = answers.drop_first();
                let sub = replay(install_steps(), rest, w, op2).0;
                assert(ops == seq![op] + sub);
                lemma_install_opens(root, w, op2, rest);
                replay_shape(install_steps(), rest, w, op2);
                if replay(install_steps(), answers, v, op).1 is Some {
                    assert(ops.last() == sub.last());
                }
            },
        }
    }
}

/// Installing Product Manager goes through the base components and the
/// setup before it can end, whatever the system answers to its
/// operations, and whether or not the prefix had to be booted first:
/// a run that ends `Ok` looked up winetricks for the base components (and
/// ran it with them in the shared prefix where it was found), and its last
/// operation starts a program in the shared prefix; a run that ends with
/// `ProductManagerMissing` did so only after that lookup and after a command
/// (the setup) ran successfully in the shared prefix.
pub proof fn install_goes_through_base_and_setup(
    root: Seq<char>,
    cache: Seq<char>,
    answers: Seq<EventView>,
)
    ensures
        ({
            let (v, op) = install_start(root, cache);
            let (ops, r) = replay(install_steps(), answers, v, op);
            &&& r == Some(Ok::<(), ErrorView>(())) ==> base_components_tried(root, ops, answers)
                && (ops.last() matches OpView::Spawn(c) && c.env == wine_env(hub(root)))
            &&& r == Some(Err::<(), ErrorView>(ErrorView::ProductManagerMissing))
                ==> setup_ran_after_base(root, ops, answers)
        }),
{
    let (v, op) = install_start(root, cache);
    lemma_install_before_base(root, v, op, answers);
    lemma_install_opens(root, v, op, answers);
}

/// The moves of looking for Product Manager, as a function.
pub open spec fn pm_probe_steps() -> spec_fn(SearchView, EventView) -> Move<SearchView, bool> {
    |v: SearchView, e: EventView| pm_probe_next(v, e)
}

proof fn lemma_pm_probe_drive(t: Tree, v: SearchView, fuel: nat)
    requires
        search_ok(v),
        fuel > cost(t, v),
    ensures
        drive(pm_probe_steps(), tree_answer(t), v, OpView::ReadDir(v.pending), fuel) == Some(
            meaning(t, v) is Some,
        ),
    decreases fuel,
{
    let ev = EventView::Listing(t(v.pending));
    assert(tree_answer(t)(OpView::ReadDir(v.pending)) == ev);
    search_step_keeps_meaning(t, v, ev);
    search_step_lowers_cost(t, v, ev);
    match search_next(v, ev) {
        Move::Done(x) => {},
        Move::Continue(w, op) => {
            lemma_pm_probe_drive(t, w, (fuel - 1) as nat);
        },
    }
}

/// Answered from any fixed tree, asking whether Product Manager is
/// installed finishes, and answers yes exactly when some file the search
/// looks for (an `.exe` whose name contains "product manager", ignoring
/// case) lies in the shared prefix's `drive_c`, in any folder the search
/// enters within eight levels, its own folder included.
pub proof fn product_manager_installed_iff_present(t: Tree, root: Seq<char>)
    ensures
        drive(
            pm_probe_steps(),
            tree_answer(t),
            search_start(product_manager_rules(), drive_c(hub(root))),
            OpView::ReadDir(drive_c(hub(root))),
            dir_cost(t, product_manager_rules(), drive_c(hub(root)), 0) + 1,
        ) == Some(
            exists|p: Seq<char>|
                #[trigger] found_below(t, product_manager_rules(), drive_c(hub(root)), 0, p),
        ),
{
    let r = product_manager_rules();
    let d = drive_c(hub(root));
    let v = search_start(r, d);
    assert(stack_cost(t, v.rules, v.stack) == 0);
    assert(rest(t, v.rules, v.stack) == None::<Seq<char>>);
    lemma_pm_probe_drive(t, v, dir_cost(t, r, d, 0) + 1);
    search_finds_only_reachable_matches(t, r, d);
    match search_dir(t, r, d, 0) {
        Some(p) => {
            assert(found_below(t, r, d, 0, p));
        },
        None => {},
    }
}

} // verus!
