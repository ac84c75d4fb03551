//! Windows runtime components installed into a prefix with `winetricks`.
use vstd::prelude::*;

use crate::error::{ErrorView, WireBoxError};
use crate::process::{
    located, located_path, ran, ran_of, result_move, which, which_command, CommandSpec,
    CommandView, Event, EventView, Move, Next, Op, OpView,
};

verus! {

/// Windows runtime components IK Multimedia's installers commonly expect.
/// Best-effort: run this before Product Manager's setup wizard, since
/// missing these is a common (and confusing) cause of installers failing
/// partway through with no clear error.
pub open spec fn base_verbs() -> Seq<Seq<char>> {
    seq!["corefonts"@, "vcrun2019"@]
}

/// The winetricks verb that registers WineASIO - a low-latency ASIO
/// driver DLL - into a prefix. This is what lets a Wine application see a
/// real, low-latency audio device (via PipeWire's JACK compatibility
/// layer) instead of falling back to Wine's default audio path.
pub open spec fn asio_verbs() -> Seq<Seq<char>> {
    seq!["wineasio"@]
}

/// The words joined with single spaces.
pub open spec fn join_words(words: Seq<Seq<char>>) -> Seq<char>
    decreases words.len(),
{
    if words.len() == 0 {
        Seq::empty()
    } else if words.len() == 1 {
        words[0]
    } else {
        join_words(words.drop_last()) + " "@ + words.last()
    }
}

/// `winetricks -q <verbs>` (unattended: no picker window) for the prefix.
pub open spec fn winetricks_command(
    program: Seq<char>,
    prefix: Seq<char>,
    verbs: Seq<Seq<char>>,
) -> CommandView {
    CommandView {
        program,
        args: seq!["-q"@] + verbs,
        env: seq![("WINEPREFIX"@, prefix), ("WINEARCH"@, "win64"@)],
    }
}

/// Installing winetricks verbs into a prefix: waiting for the lookup of
/// winetricks, or for winetricks itself.
pub struct Winetricks {
    prefix: String,
    verbs: Vec<String>,
    running: bool,
}

/// The mathematical value of a [`Winetricks`].
pub struct TricksView {
    pub prefix: Seq<char>,
    pub verbs: Seq<Seq<char>>,
    pub running: bool,
}

impl View for Winetricks {
    type V = TricksView;

    closed spec fn view(&self) -> TricksView {
        TricksView { prefix: self.prefix@, verbs: self.verbs.deep_view(), running: self.running }
    }
}

/// How installing `verbs` into `prefix` starts: looking up winetricks.
pub open spec fn tricks_start(prefix: Seq<char>, verbs: Seq<Seq<char>>) -> (TricksView, OpView) {
    (
        TricksView { prefix, verbs, running: false },
        OpView::Capture(which_command("winetricks"@)),
    )
}

/// The move of installing verbs: no winetricks is an error; otherwise it
/// runs, and a failure to start it or an unsuccessful exit is an error.
pub open spec fn tricks_next(v: TricksView, ev: EventView) -> Move<TricksView, Result<(), ErrorView>> {
    if !v.running {
        match located(ev) {
            None => Move::Done(Err(ErrorView::WinetricksNotInstalled)),
            Some(p) => Move::Continue(
                TricksView { running: true, ..v },
                OpView::Run(winetricks_command(p, v.prefix, v.verbs)),
            ),
        }
    } else {
        match ran(ev) {
            Err(reason) => Move::Done(Err(ErrorView::Spawn { command: "winetricks"@, reason })),
            Ok(st) => if st.success {
                Move::Done(Ok(()))
            } else {
                Move::Done(
                    Err(
                        ErrorView::NonZeroExit {
                            command: "winetricks "@ + join_words(v.verbs),
                            status: st,
                        },
                    ),
                )
            },
        }
    }
}

/// The words joined with single spaces.
pub fn join_verbs(words: &Vec<String>) -> (r: String)
    ensures
        r@ == join_words(words.deep_view()),
{
    let ghost ws = words.deep_view();
    let mut r = String::new();
    let n = words.len();
    for i in 0..n
        invariant
            n == words@.len(),
            ws == words.deep_view(),
            r@ == join_words(ws.take(i as int)),
    {
        proof {
            assert(ws.take(i + 1).drop_last() =~= ws.take(i as int));
            assert(ws.take(i + 1).last() == words@[i as int]@);
        }
        if i == 0 {
            r = words[i].clone();
            assert(ws.take(1) =~= seq![ws[0]]);
        } else {
            r = r.concat(" ").concat(words[i].as_str());
            proof {
                reveal_strlit(" ");
            }
        }
    }
    assert(ws.take(n as int) =~= ws);
    r
}

/// The base verbs as a list of strings.
fn base_verb_list() -> (r: Vec<String>)
    ensures
        r.deep_view() == base_verbs(),
{
    let mut r: Vec<String> = Vec::new();
    r.push(String::from_str("corefonts"));
    r.push(String::from_str("vcrun2019"));
    assert(r.deep_view() =~= base_verbs());
    r
}

/// The audio-bridge verb as a list of strings.
fn asio_verb_list() -> (r: Vec<String>)
    ensures
        r.deep_view() == asio_verbs(),
{
    let mut r: Vec<String> = Vec::new();
    r.push(String::from_str("wineasio"));
    assert(r.deep_view() =~= asio_verbs());
    r
}

impl Winetricks {
    /// Starts installing `verbs` into `prefix`.
    pub fn start(prefix: String, verbs: Vec<String>) -> (r: (Winetricks, Op))
        ensures
            (r.0@, r.1@) == tricks_start(prefix@, verbs.deep_view()),
    {
        (Winetricks { prefix, verbs, running: false }, which("winetricks"))
    }

    /// Resumes with what the last operation produced.
    pub fn resume(self, ev: Event) -> (r: Next<Winetricks, Result<(), WireBoxError>>)
        ensures
            result_move(r) == tricks_next(self@, ev@),
    {
        if !self.running {
            match located_path(ev) {
                None => Next::Done(Err(WireBoxError::WinetricksNotInstalled)),
                Some(p) => {
                    let mut args: Vec<String> = Vec::new();
                    args.push(String::from_str("-q"));
                    let n = self.verbs.len();
                    for i in 0..n
                        invariant
                            n == self.verbs@.len(),
                            args.deep_view() =~= seq!["-q"@] + self.verbs.deep_view().take(
                                i as int,
                            ),
                    {
                        let ghost before = args.deep_view();
                        let v = self.verbs[i].clone();
                        args.push(v);
                        assert(args.deep_view() =~= before.push(v@));
                        assert(self.verbs.deep_view()[i as int] == v@);
                        assert(args.deep_view() =~= seq!["-q"@] + self.verbs.deep_view().take(
                            i + 1,
                        ));
                    }
                    assert(self.verbs.deep_view().take(n as int) =~= self.verbs.deep_view());
                    let mut env: Vec<(String, String)> = Vec::new();
                    env.push((String::from_str("WINEPREFIX"), self.prefix.clone()));
                    env.push((String::from_str("WINEARCH"), String::from_str("win64")));
                    let cmd = CommandSpec { program: p, args, env };
                    assert(cmd@.env =~= winetricks_command(cmd@.program, self@.prefix, self@.verbs).env);
                    Next::Continue(Winetricks { running: true, ..self }, Op::Run(cmd))
                },
            }
        } else {
            match ran_of(ev) {
                Err(reason) => Next::Done(
                    Err(WireBoxError::Spawn { command: String::from_str("winetricks"), reason }),
                ),
                Ok(st) => if st.success {
                    Next::Done(Ok(()))
                } else {
                    let command = String::from_str("winetricks ").concat(
                        join_verbs(&self.verbs).as_str(),
                    );
                    Next::Done(Err(WireBoxError::NonZeroExit { command, status: st }))
                },
            }
        }
    }
}

/// Installs the base runtime components (`corefonts`, `vcrun2019`) into
/// `prefix`. Safe to call repeatedly: winetricks skips verbs that are
/// already installed. Not fatal to the overall install flow if this
/// fails; callers should warn and continue rather than abort.
pub fn ensure_base_dependencies(prefix: String) -> (r: (Winetricks, Op))
    ensures
        (r.0@, r.1@) == tricks_start(prefix@, base_verbs()),
{
    Winetricks::start(prefix, base_verb_list())
}

/// Registers WineASIO in `prefix`. This is the audio-bridge step, meant
/// to be triggered explicitly (e.g. from a "Set Up Audio" button) once
/// the target application is actually installed, not bundled silently
/// into the install flow.
pub fn ensure_asio_bridge(prefix: String) -> (r: (Winetricks, Op))
    ensures
        (r.0@, r.1@) == tricks_start(prefix@, asio_verbs()),
{
    Winetricks::start(prefix, asio_verb_list())
}

/// Winetricks always runs unattended (`-q`), in the given prefix, for a
/// 64-bit Windows, with exactly the verbs asked for.
pub proof fn winetricks_runs_unattended(v: TricksView, ev: EventView)
    ensures
        tricks_next(v, ev) matches Move::Continue(_, op) ==> (op matches OpView::Run(c) && c.args[0]
            == "-q"@ && c.args.drop_first() == v.verbs && c.env.contains(("WINEPREFIX"@, v.prefix))
            && c.env.contains(("WINEARCH"@, "win64"@))),
{
    if let Move::Continue(_, op) = tricks_next(v, ev) {
        if let OpView::Run(c) = op {
            assert(c.args.drop_first() =~= v.verbs);
            assert(c.env[0] == ("WINEPREFIX"@, v.prefix));
            assert(c.env[1] == ("WINEARCH"@, "win64"@));
        }
    }
}

} // verus!
