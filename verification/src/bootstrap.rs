//! IK Product Manager, fetched once into a shared cache.
//!
//! IK Multimedia's public, no-account-required download for their Product
//! Manager app is the one piece of software in this ecosystem that isn't
//! gated behind a login. Product Manager is what actually knows how to
//! register, authorize, and download TONEX/AmpliTube 5 against the user's
//! own account, so WireBox bootstraps it instead of asking the user for an
//! installer file.
use vstd::prelude::*;

use crate::error::{outcome, ErrorView, ExitView, WireBoxError};
use crate::process::{
    answer, answer_of, io_done, io_done_of, ran, ran_of, CommandSpec, CommandView, Event,
    EventView, Move, Next, Op, OpView,
};
use crate::search::{
    cost, dir_cost, meaning, rest, search_dir, search_ok, search_step_keeps_meaning,
    search_step_lowers_cost, stack_cost, Tree, search_next, search_start, Matcher, MatcherView, RulesView, Search, SearchRules, SearchView,
};
use crate::paths::{optional_path_text, path_texts};
use crate::text::{join_path, path_join};
use crate::wine::{check_status, checked};
use crate::world::{disk_answer, drive, ops_asked};

verus! {

/// Where the Product Manager archive is downloaded from.
pub open spec fn product_manager_url() -> Seq<char> {
    "https://g1.ikmultimedia.com/plugins/ProductManager/ik_product_manager_1.1.12.zip"@
}

/// The cache directory for Product Manager, given the user's cache
/// directory (the current directory when there is none).
pub open spec fn cache_dir_in(user_cache: Option<Seq<char>>) -> Seq<char> {
    let base = match user_cache {
        Some(d) => d,
        None => "."@,
    };
    path_join(path_join(base, "wirebox"@), "product-manager"@)
}

/// Where the downloaded archive is kept in the cache.
pub open spec fn archive_in(cache: Seq<char>) -> Seq<char> {
    path_join(cache, "ik_product_manager.zip"@)
}

/// Where the archive is extracted in the cache.
pub open spec fn extracted_in(cache: Seq<char>) -> Seq<char> {
    path_join(cache, "extracted"@)
}

/// `curl -L --fail -o <archive> <url>`.
pub open spec fn download_command(archive: Seq<char>) -> CommandView {
    CommandView {
        program: "curl"@,
        args: seq!["-L"@, "--fail"@, "-o"@, archive, product_manager_url()],
        env: Seq::empty(),
    }
}

/// `bsdtar -xf <archive> -C <dest>` (bsdtar reads zip natively).
pub open spec fn extract_command(archive: Seq<char>, dest: Seq<char>) -> CommandView {
    CommandView { program: "bsdtar"@, args: seq!["-xf"@, archive, "-C"@, dest], env: Seq::empty() }
}

/// How the setup program is found in the extracted archive: the first
/// file with an `exe` extension, at any depth.
pub open spec fn setup_rules() -> RulesView {
    RulesView {
        matcher: MatcherView::ExeExtension,
        max_depth: usize::MAX as int,
        skip_windows: false,
        descend_unnamed: true,
    }
}

/// The steps of fetching the installer.
pub enum BootPhase {
    MakingCache,
    CheckingArchive,
    Downloading,
    /// A failed download is being removed before reporting its error.
    DiscardingArchive(WireBoxError),
    CheckingExtracted,
    MakingExtracted,
    Extracting,
    /// A failed extraction is being removed before reporting its error.
    Cleaning(WireBoxError),
    Finding(Search),
}

/// The mathematical value of a [`BootPhase`].
pub enum BootPhaseView {
    MakingCache,
    CheckingArchive,
    Downloading,
    DiscardingArchive(ErrorView),
    CheckingExtracted,
    MakingExtracted,
    Extracting,
    Cleaning(ErrorView),
    Finding(SearchView),
}

/// Fetching (once) and extracting IK Product Manager into the cache
/// directory `cache`.
pub struct CachedInstaller {
    cache: String,
    phase: BootPhase,
}

/// The mathematical value of a [`CachedInstaller`].
pub struct BootView {
    pub cache: Seq<char>,
    pub phase: BootPhaseView,
}

impl View for CachedInstaller {
    type V = BootView;

    closed spec fn view(&self) -> BootView {
        BootView {
            cache: self.cache@,
            phase: match self.phase {
                BootPhase::MakingCache => BootPhaseView::MakingCache,
                BootPhase::CheckingArchive => BootPhaseView::CheckingArchive,
                BootPhase::Downloading => BootPhaseView::Downloading,
                BootPhase::DiscardingArchive(e) => BootPhaseView::DiscardingArchive(e@),
                BootPhase::CheckingExtracted => BootPhaseView::CheckingExtracted,
                BootPhase::MakingExtracted => BootPhaseView::MakingExtracted,
                BootPhase::Extracting => BootPhaseView::Extracting,
                BootPhase::Cleaning(e) => BootPhaseView::Cleaning(e@),
                BootPhase::Finding(s) => BootPhaseView::Finding(s@),
            },
        }
    }
}

/// How fetching the installer into `cache` starts: creating the cache.
pub open spec fn boot_start(cache: Seq<char>) -> (BootView, OpView) {
    (BootView { cache, phase: BootPhaseView::MakingCache }, OpView::CreateDirAll(cache))
}

/// The state that waits for the answer to whether the archive is already
/// extracted.
pub open spec fn check_extracted(cache: Seq<char>) -> Move<BootView, Result<Seq<char>, ErrorView>> {
    Move::Continue(
        BootView { cache, phase: BootPhaseView::CheckingExtracted },
        OpView::IsDir(extracted_in(cache)),
    )
}

/// The state that searches the extracted archive for the setup program.
pub open spec fn find_setup(cache: Seq<char>) -> Move<BootView, Result<Seq<char>, ErrorView>> {
    Move::Continue(
        BootView {
            cache,
            phase: BootPhaseView::Finding(search_start(setup_rules(), extracted_in(cache))),
        },
        OpView::ReadDir(extracted_in(cache)),
    )
}

/// The move of fetching the installer. The archive is downloaded only when
/// it is not already in the cache, and extracted only when the extracted
/// directory is missing; a failed download is removed, and a failed
/// extraction is removed, before the error is reported (whether the removal
/// works does not matter); the result is the first `.exe` in the
/// extracted tree.
pub open spec fn boot_next(v: BootView, ev: EventView) -> Move<BootView, Result<Seq<char>, ErrorView>> {
    let c = v.cache;
    match v.phase {
        BootPhaseView::MakingCache => match io_done(ev) {
            Err(reason) => Move::Done(Err(ErrorView::CreateDir { path: c, reason })),
            Ok(_) => Move::Continue(
                BootView { cache: c, phase: BootPhaseView::CheckingArchive },
                OpView::IsFile(archive_in(c)),
            ),
        },
        BootPhaseView::CheckingArchive => if answer(ev) {
            check_extracted(c)
        } else {
            Move::Continue(
                BootView { cache: c, phase: BootPhaseView::Downloading },
                OpView::Run(download_command(archive_in(c))),
            )
        },
        BootPhaseView::Downloading => match ran(ev) {
            Err(reason) => Move::Done(Err(ErrorView::Spawn { command: "curl"@, reason })),
            Ok(st) => if st.success {
                check_extracted(c)
            } else {
                Move::Continue(
                    BootView {
                        cache: c,
                        phase: BootPhaseView::DiscardingArchive(
                            ErrorView::NonZeroExit {
                                command: "curl -L "@ + product_manager_url(),
                                status: st,
                            },
                        ),
                    },
                    OpView::RemoveFile(archive_in(c)),
                )
            },
        },
        BootPhaseView::DiscardingArchive(e) => Move::Done(Err(e)),
        BootPhaseView::CheckingExtracted => if answer(ev) {
            find_setup(c)
        } else {
            Move::Continue(
                BootView { cache: c, phase: BootPhaseView::MakingExtracted },
                OpView::CreateDirAll(extracted_in(c)),
            )
        },
        BootPhaseView::MakingExtracted => match io_done(ev) {
            Err(reason) => Move::Continue(
                BootView {
                    cache: c,
                    phase: BootPhaseView::Cleaning(
                        ErrorView::CreateDir { path: extracted_in(c), reason },
                    ),
                },
                OpView::RemoveDirAll(extracted_in(c)),
            ),
            Ok(_) => Move::Continue(
                BootView { cache: c, phase: BootPhaseView::Extracting },
                OpView::Run(extract_command(archive_in(c), extracted_in(c))),
            ),
        },
        BootPhaseView::Extracting => match checked("bsdtar"@, ran(ev)) {
            Err(e) => Move::Continue(
                BootView { cache: c, phase: BootPhaseView::Cleaning(e) },
                OpView::RemoveDirAll(extracted_in(c)),
            ),
            Ok(_) => find_setup(c),
        },
        BootPhaseView::Cleaning(e) => Move::Done(Err(e)),
        BootPhaseView::Finding(s) => match search_next(s, ev) {
            Move::Continue(s2, op) => Move::Continue(
                BootView { cache: c, phase: BootPhaseView::Finding(s2) },
                op,
            ),
            Move::Done(Some(p)) => Move::Done(Ok(p)),
            Move::Done(None) => Move::Done(Err(ErrorView::NoExecutableFound(extracted_in(c)))),
        },
    }
}

/// The view of a move of fetching the installer.
pub open spec fn boot_move(n: Next<CachedInstaller, Result<String, WireBoxError>>) -> Move<
    BootView,
    Result<Seq<char>, ErrorView>,
> {
    match n {
        Next::Continue(m, op) => Move::Continue(m@, op@),
        Next::Done(r) => Move::Done(outcome(r)),
    }
}

/// The user's cache directory as `dirs::cache_dir` reports it (an
/// absolute `$XDG_CACHE_HOME`, or else `.cache` under the home directory),
/// as the bytes of the path (on Unix, the path's own bytes). Assumed: a
/// reported directory is never the empty path. Not stated: which directory
/// is reported; that depends on the environment.
#[verifier::external_body]
pub(crate) fn user_cache_dir() -> (r: Option<Vec<u8>>)
    ensures
        r matches Some(d) ==> d@.len() > 0,
{
    match dirs::cache_dir() {
        Some(p) => Some(p.into_os_string().into_encoded_bytes()),
        None => None,
    }
}

/// The cache directory for Product Manager under `user_cache`.
pub fn cache_directory_in(user_cache: Option<String>) -> (r: String)
    ensures
        r@ == cache_dir_in(user_cache.deep_view()),
{
    let base = match user_cache {
        Some(d) => d,
        None => String::from_str("."),
    };
    let dir = join_path(base.as_str(), "wirebox");
    join_path(dir.as_str(), "product-manager")
}

/// The rules for finding the setup program.
fn setup_search_rules() -> (r: SearchRules)
    ensures
        r@ == setup_rules(),
{
    SearchRules {
        matcher: Matcher::ExeExtension,
        max_depth: usize::MAX,
        skip_windows: false,
        descend_unnamed: true,
    }
}

/// Downloads (once) and extracts IK Product Manager into the user's shared
/// cache; the result is the path to its setup `.exe`. Safe to call
/// repeatedly: it only hits the network the first time.
pub fn cached_installer() -> (r: (CachedInstaller, Op))
    ensures
        exists|d: Option<Seq<u8>>|
            (d matches Some(c) ==> c.len() > 0) && (r.0@, r.1@) == boot_start(
                cache_dir_in(path_texts(d)),
            ),
{
    let bytes = user_cache_dir();
    let ghost d = bytes.deep_view();
    let dir = optional_path_text(bytes);
    let r = CachedInstaller::start(cache_directory_in(dir));
    assert((r.0@, r.1@) == boot_start(cache_dir_in(path_texts(d))));
    r
}

impl CachedInstaller {
    /// Fetches the installer into the cache directory `cache`.
    pub fn start(cache: String) -> (r: (CachedInstaller, Op))
        ensures
            (r.0@, r.1@) == boot_start(cache@),
    {
        let op = Op::CreateDirAll(cache.clone());
        (CachedInstaller { cache, phase: BootPhase::MakingCache }, op)
    }

    /// Resumes with what the last operation produced.
    pub fn resume(self, ev: Event) -> (r: Next<CachedInstaller, Result<String, WireBoxError>>)
        ensures
            boot_move(r) == boot_next(self@, ev@),
    {
        let CachedInstaller { cache, phase } = self;
        match phase {
            BootPhase::MakingCache => match io_done_of(ev) {
                Err(reason) => Next::Done(Err(WireBoxError::CreateDir { path: cache, reason })),
                Ok(_) => {
                    let op = Op::IsFile(archive_path(&cache));
                    Next::Continue(CachedInstaller { cache, phase: BootPhase::CheckingArchive }, op)
                },
            },
            BootPhase::CheckingArchive => if answer_of(&ev) {
                checking_extracted(cache)
            } else {
                let cmd = download_cmd(archive_path(&cache));
                Next::Continue(CachedInstaller { cache, phase: BootPhase::Downloading }, Op::Run(cmd))
            },
            BootPhase::Downloading => match ran_of(ev) {
                Err(reason) => Next::Done(
                    Err(WireBoxError::Spawn { command: String::from_str("curl"), reason }),
                ),
                Ok(st) => if st.success {
                    checking_extracted(cache)
                } else {
                    let command = String::from_str("curl -L ").concat(PRODUCT_MANAGER_URL);
                    let op = Op::RemoveFile(archive_path(&cache));
                    let e = WireBoxError::NonZeroExit { command, status: st };
                    Next::Continue(
                        CachedInstaller { cache, phase: BootPhase::DiscardingArchive(e) },
                        op,
                    )
                },
            },
            BootPhase::DiscardingArchive(e) => Next::Done(Err(e)),
            BootPhase::CheckingExtracted => if answer_of(&ev) {
                finding_setup(cache)
            } else {
                let op = Op::CreateDirAll(extracted_path(&cache));
                Next::Continue(CachedInstaller { cache, phase: BootPhase::MakingExtracted }, op)
            },
            BootPhase::MakingExtracted => match io_done_of(ev) {
                Err(reason) => {
                    let dest = extracted_path(&cache);
                    let op = Op::RemoveDirAll(dest.clone());
                    let e = WireBoxError::CreateDir { path: dest, reason };
                    Next::Continue(CachedInstaller { cache, phase: BootPhase::Cleaning(e) }, op)
                },
                Ok(_) => {
                    let cmd = extract_cmd(archive_path(&cache), extracted_path(&cache));
                    Next::Continue(CachedInstaller { cache, phase: BootPhase::Extracting }, Op::Run(cmd))
                },
            },
            BootPhase::Extracting => match check_status(String::from_str("bsdtar"), ran_of(ev)) {
                Err(e) => {
                    let op = Op::RemoveDirAll(extracted_path(&cache));
                    Next::Continue(CachedInstaller { cache, phase: BootPhase::Cleaning(e) }, op)
                },
                Ok(_) => finding_setup(cache),
            },
            BootPhase::Cleaning(e) => Next::Done(Err(e)),
            BootPhase::Finding(s) => match s.resume(ev) {
                Next::Continue(s2, op) => Next::Continue(
                    CachedInstaller { cache, phase: BootPhase::Finding(s2) },
                    op,
                ),
                Next::Done(Some(p)) => Next::Done(Ok(p)),
                Next::Done(None) => Next::Done(Err(WireBoxError::NoExecutableFound(extracted_path(&cache)))),
            },
        }
    }
}

/// Where the archive is kept in the cache `cache`.
fn archive_path(cache: &String) -> (r: String)
    ensures
        r@ == archive_in(cache@),
{
    join_path(cache.as_str(), "ik_product_manager.zip")
}

/// Where the archive is extracted in the cache `cache`.
fn extracted_path(cache: &String) -> (r: String)
    ensures
        r@ == extracted_in(cache@),
{
    join_path(cache.as_str(), "extracted")
}

/// Waiting to hear whether the archive is already extracted.
fn checking_extracted(cache: String) -> (r: Next<CachedInstaller, Result<String, WireBoxError>>)
    ensures
        boot_move(r) == check_extracted(cache@),
{
    let op = Op::IsDir(extracted_path(&cache));
    Next::Continue(CachedInstaller { cache, phase: BootPhase::CheckingExtracted }, op)
}

/// Searching the extracted archive for the setup program.
fn finding_setup(cache: String) -> (r: Next<CachedInstaller, Result<String, WireBoxError>>)
    ensures
        boot_move(r) == find_setup(cache@),
{
    let (s, op) = Search::start(extracted_path(&cache), setup_search_rules());
    Next::Continue(CachedInstaller { cache, phase: BootPhase::Finding(s) }, op)
}

/// Where the Product Manager archive is downloaded from.
pub const PRODUCT_MANAGER_URL: &'static str =
    "https://g1.ikmultimedia.com/plugins/ProductManager/ik_product_manager_1.1.12.zip";

/// `curl -L --fail -o <archive> <url>`.
fn download_cmd(archive: String) -> (r: CommandSpec)
    ensures
        r@ == download_command(archive@),
{
    let mut args: Vec<String> = Vec::new();
    args.push(String::from_str("-L"));
    args.push(String::from_str("--fail"));
    args.push(String::from_str("-o"));
    args.push(archive);
    args.push(String::from_str(PRODUCT_MANAGER_URL));
    let r = CommandSpec { program: String::from_str("curl"), args, env: Vec::new() };
    assert(r@.args =~= download_command(archive@).args);
    assert(r@.env =~= download_command(archive@).env);
    r
}

/// `bsdtar -xf <archive> -C <dest>`.
fn extract_cmd(archive: String, dest: String) -> (r: CommandSpec)
    ensures
        r@ == extract_command(archive@, dest@),
{
    let mut args: Vec<String> = Vec::new();
    args.push(String::from_str("-xf"));
    args.push(archive);
    args.push(String::from_str("-C"));
    args.push(dest);
    let r = CommandSpec { program: String::from_str("bsdtar"), args, env: Vec::new() };
    assert(r@.args =~= extract_command(archive@, dest@).args);
    assert(r@.env =~= extract_command(archive@, dest@).env);
    r
}

/// A cached archive is never downloaded again: when the archive is already
/// in the cache, the next step is to look for the extracted copy.
pub proof fn cached_archive_is_not_downloaded(cache: Seq<char>)
    ensures
        boot_next(BootView { cache, phase: BootPhaseView::CheckingArchive }, EventView::Answer(true))
            == check_extracted(cache),
{
}

/// A failed download never stays in the cache to be mistaken for a good
/// archive: an unsuccessful `curl` leads to removing the archive, and the
/// error is reported after that, whatever the removal gave.
pub proof fn failed_download_is_discarded(cache: Seq<char>, st: ExitView, ev: EventView)
    requires
        !st.success,
    ensures
        boot_next(BootView { cache, phase: BootPhaseView::Downloading }, EventView::Exited(st)) matches Move::Continue(w, op)
            && op == OpView::RemoveFile(archive_in(cache))
            && boot_next(w, ev) == Move::<BootView, Result<Seq<char>, ErrorView>>::Done(
                Err(ErrorView::NonZeroExit { command: "curl -L "@ + product_manager_url(), status: st }),
            ),
{
}

/// A failed extraction never leaves a half-extracted directory behind to be
/// mistaken for a good cache: every error of the extraction step is
/// reported only after the extracted directory has been asked to be
/// removed.
pub proof fn failed_extraction_is_cleaned_up(v: BootView, ev: EventView)
    requires
        v.phase is MakingExtracted || v.phase is Extracting,
    ensures
        boot_next(v, ev) is Continue,
        boot_next(v, ev) matches Move::Continue(w, op) ==> (w.phase is Cleaning ==> op
            == OpView::RemoveDirAll(extracted_in(v.cache))),
{
}

/// The moves of fetching the installer, as a function.
pub open spec fn boot_steps() -> spec_fn(BootView, EventView) -> Move<
    BootView,
    Result<Seq<char>, ErrorView>,
> {
    |b: BootView, e: EventView| boot_next(b, e)
}

/// What fetching the installer into `cache` returns once the extracted
/// archive lists as the tree `t` has it: its first `.exe`.
pub open spec fn setup_in(t: Tree, cache: Seq<char>) -> Result<Seq<char>, ErrorView> {
    match search_dir(t, setup_rules(), extracted_in(cache), 0) {
        Some(p) => Ok(p),
        None => Err(ErrorView::NoExecutableFound(extracted_in(cache))),
    }
}

/// The steps fetching the installer takes at most over a cache that is
/// already complete.
pub open spec fn reuse_fuel(t: Tree, cache: Seq<char>) -> nat {
    dir_cost(t, setup_rules(), extracted_in(cache), 0) + 4
}

/// A search for the setup program is under way and asks for its next
/// listing with `op`.
pub open spec fn boot_ok(t: Tree, v: BootView, op: OpView) -> bool {
    v.phase matches BootPhaseView::Finding(s) ==> {
        &&& search_ok(s)
        &&& s.rules == setup_rules()
        &&& meaning(t, s) == search_dir(t, setup_rules(), extracted_in(v.cache), 0)
        &&& op == OpView::ReadDir(s.pending)
    }
}

proof fn lemma_boot_result(
    files: Set<Seq<char>>,
    dirs: Set<Seq<char>>,
    t: Tree,
    ok: bool,
    v: BootView,
    op: OpView,
    fuel: nat,
)
    requires
        boot_ok(t, v, op),
    ensures
        drive(boot_steps(), disk_answer(files, dirs, t, ok), v, op, fuel)
            matches Some(Ok(p)) ==> setup_in(t, v.cache) == Ok::<Seq<char>, ErrorView>(p),
    decreases fuel,
{
    if fuel > 0 {
        let ev = disk_answer(files, dirs, t, ok)(op);
        let c = v.cache;
        let s0 = search_start(setup_rules(), extracted_in(c));
        assert(rest(t, s0.rules, s0.stack) == None::<Seq<char>>);
        match v.phase {
            BootPhaseView::Finding(s) => {
                search_step_keeps_meaning(t, s, ev);
                match search_next(s, ev) {
                    Move::Continue(s2, op2) => {
                        lemma_boot_result(
                            files,
                            dirs,
                            t,
                            ok,
                            BootView { cache: c, phase: BootPhaseView::Finding(s2) },
                            op2,
                            (fuel - 1) as nat,
                        );
                    },
                    Move::Done(_) => {},
                }
            },
            _ => {
                match boot_next(v, ev) {
                    Move::Continue(w, op2) => {
                        lemma_boot_result(files, dirs, t, ok, w, op2, (fuel - 1) as nat);
                    },
                    Move::Done(_) => {},
                }
            },
        }
    }
}

proof fn lemma_boot_finding(
    files: Set<Seq<char>>,
    dirs: Set<Seq<char>>,
    t: Tree,
    ok: bool,
    c: Seq<char>,
    s: SearchView,
    fuel: nat,
)
    requires
        search_ok(s),
        s.rules == setup_rules(),
        meaning(t, s) == search_dir(t, setup_rules(), extracted_in(c), 0),
        fuel > cost(t, s),
    ensures
        drive(
            boot_steps(),
            disk_answer(files, dirs, t, ok),
            BootView { cache: c, phase: BootPhaseView::Finding(s) },
            OpView::ReadDir(s.pending),
            fuel,
        ) == Some(setup_in(t, c)),
        forall|i: int|
            0 <= i < ops_asked(
                boot_steps(),
                disk_answer(files, dirs, t, ok),
                BootView { cache: c, phase: BootPhaseView::Finding(s) },
                OpView::ReadDir(s.pending),
                fuel,
            ).len() ==> #[trigger] ops_asked(
                boot_steps(),
                disk_answer(files, dirs, t, ok),
                BootView { cache: c, phase: BootPhaseView::Finding(s) },
                OpView::ReadDir(s.pending),
                fuel,
            )[i] is ReadDir,
    decreases fuel,
{
    let ev = EventView::Listing(t(s.pending));
    assert(disk_answer(files, dirs, t, ok)(OpView::ReadDir(s.pending)) == ev);
    search_step_keeps_meaning(t, s, ev);
    search_step_lowers_cost(t, s, ev);
    match search_next(s, ev) {
        Move::Done(x) => {},
        Move::Continue(s2, op2) => {
            let f = (fuel - 1) as nat;
            lemma_boot_finding(files, dirs, t, ok, c, s2, f);
            let later = ops_asked(
                boot_steps(),
                disk_answer(files, dirs, t, ok),
                BootView { cache: c, phase: BootPhaseView::Finding(s2) },
                OpView::ReadDir(s2.pending),
                f,
            );
            let all = seq![OpView::ReadDir(s.pending)] + later;
            assert forall|i: int| 0 <= i < all.len() implies #[trigger] all[i] is ReadDir by {
                if i > 0 {
                    assert(all[i] == later[i - 1]);
                }
            }
        },
    }
}

/// Fetching the installer never downloads or extracts again over a cache
/// that is already complete. Whatever a disk answers (and whether commands
/// succeed), a run that returns a path returns the first `.exe` of the
/// extracted archive as the disk lists it. When the archive is a file of
/// the cache and the extracted directory exists, the run asks for no
/// command at all and returns exactly that. So a second run over a cache
/// that has not changed since a first run returned a path runs neither
/// `curl` nor `bsdtar` and returns the same path.
pub proof fn complete_cache_is_reused(
    files: Set<Seq<char>>,
    dirs: Set<Seq<char>>,
    t: Tree,
    commands_succeed: bool,
    cache: Seq<char>,
)
    ensures
        forall|fuel: nat|
            #[trigger] drive(
                boot_steps(),
                disk_answer(files, dirs, t, commands_succeed),
                boot_start(cache).0,
                boot_start(cache).1,
                fuel,
            ) matches Some(Ok(p)) ==> setup_in(t, cache) == Ok::<Seq<char>, ErrorView>(p),
        files.contains(archive_in(cache)) && dirs.contains(extracted_in(cache)) ==> {
            &&& drive(
                boot_steps(),
                disk_answer(files, dirs, t, commands_succeed),
                boot_start(cache).0,
                boot_start(cache).1,
                reuse_fuel(t, cache),
            ) == Some(setup_in(t, cache))
            &&& forall|i: int|
                0 <= i < ops_asked(
                    boot_steps(),
                    disk_answer(files, dirs, t, commands_succeed),
                    boot_start(cache).0,
                    boot_start(cache).1,
                    reuse_fuel(t, cache),
                ).len() ==> !(#[trigger] ops_asked(
                    boot_steps(),
                    disk_answer(files, dirs, t, commands_succeed),
                    boot_start(cache).0,
                    boot_start(cache).1,
                    reuse_fuel(t, cache),
                )[i] is Run)
        },
{
    let next = boot_steps();
    let world = disk_answer(files, dirs, t, commands_succeed);
    let (v0, op0) = boot_start(cache);
    assert forall|fuel: nat|
        (#[trigger] drive(next, world, v0, op0, fuel) matches Some(Ok(p)) ==> setup_in(t, cache)
            == Ok::<Seq<char>, ErrorView>(p)) by {
        lemma_boot_result(files, dirs, t, commands_succeed, v0, op0, fuel);
    }
    if files.contains(archive_in(cache)) && dirs.contains(extracted_in(cache)) {
        let f = reuse_fuel(t, cache);
        let v1 = BootView { cache, phase: BootPhaseView::CheckingArchive };
        let op1 = OpView::IsFile(archive_in(cache));
        let v2 = BootView { cache, phase: BootPhaseView::CheckingExtracted };
        let op2 = OpView::IsDir(extracted_in(cache));
        let s = search_start(setup_rules(), extracted_in(cache));
        let v3 = BootView { cache, phase: BootPhaseView::Finding(s) };
        let op3 = OpView::ReadDir(extracted_in(cache));
        assert(world(op0) == EventView::Done);
        assert(boot_next(v0, world(op0)) == Move::<BootView, Result<Seq<char>, ErrorView>>::Continue(v1, op1));
        assert(world(op1) == EventView::Answer(true));
        assert(boot_next(v1, world(op1)) == Move::<BootView, Result<Seq<char>, ErrorView>>::Continue(v2, op2));
        assert(world(op2) == EventView::Answer(true));
        assert(boot_next(v2, world(op2)) == Move::<BootView, Result<Seq<char>, ErrorView>>::Continue(v3, op3));
        let f3 = (f - 3) as nat;
        assert(stack_cost(t, s.rules, s.stack) == 0);
        assert(rest(t, s.rules, s.stack) == None::<Seq<char>>);
        lemma_boot_finding(files, dirs, t, commands_succeed, cache, s, f3);
        assert(drive(next, world, v2, op2, (f - 2) as nat) == drive(next, world, v3, op3, f3));
        assert(drive(next, world, v1, op1, (f - 1) as nat) == drive(next, world, v2, op2, (f - 2) as nat));
        assert(drive(next, world, v0, op0, f) == drive(next, world, v1, op1, (f - 1) as nat));
        let tail = ops_asked(next, world, v3, op3, f3);
        assert(ops_asked(next, world, v2, op2, (f - 2) as nat) == seq![op2] + tail);
        assert(ops_asked(next, world, v1, op1, (f - 1) as nat) == seq![op1] + (seq![op2] + tail));
        let all = ops_asked(next, world, v0, op0, f);
        assert(all == seq![op0] + (seq![op1] + (seq![op2] + tail)));
        assert forall|i: int| 0 <= i < all.len() implies !(#[trigger] all[i] is Run) by {
            if i >= 3 {
                assert(all[i] == tail[i - 3]);
            }
        }
    }
}

} // verus!
