//! The vocabulary between the engine and the code that touches the system.
//!
//! The engine never runs a process or reads the disk itself. Each workflow
//! is a state machine: it hands out an [`Op`] to perform, is resumed with
//! the [`Event`] that performing it produced, and either asks for the next
//! operation or finishes with its result ([`Next`]).
use vstd::prelude::*;

use crate::error::{outcome, ErrorView, ExitInfo, ExitView, WireBoxError};
use crate::paths::{path_text, path_text_of};
use crate::text::{chars_of, trim, trimmed};

verus! {

/// A process to start: program, arguments, and environment variables set
/// on top of the inherited environment.
#[derive(Debug, Clone, PartialEq, Eq)]
pub struct CommandSpec {
    pub program: String,
    pub args: Vec<String>,
    pub env: Vec<(String, String)>,
}

/// The mathematical value of a [`CommandSpec`].
pub struct CommandView {
    pub program: Seq<char>,
    pub args: Seq<Seq<char>>,
    pub env: Seq<(Seq<char>, Seq<char>)>,
}

impl View for CommandSpec {
    type V = CommandView;

    open spec fn view(&self) -> CommandView {
        CommandView {
            program: self.program@,
            args: self.args.deep_view(),
            env: self.env.deep_view(),
        }
    }
}

/// What a directory entry turned out to be when it was inspected
/// (following symbolic links).
#[derive(Debug, Clone, Copy, PartialEq, Eq, Structural)]
pub enum EntryKind {
    File,
    Directory,
    Other,
}

/// One entry of a directory listing: its full path (as the text that
/// stands for its bytes, see [`crate::paths`]), its file name when that
/// is valid Unicode, the extension of its path (as `Path::extension` gives
/// it) when that is valid Unicode, and its kind. A name that is not valid
/// Unicode may still have an extension that is.
#[derive(Debug, Clone, PartialEq, Eq)]
pub struct DirEntry {
    pub path: String,
    pub name: Option<String>,
    pub extension: Option<String>,
    pub kind: EntryKind,
}

/// The mathematical value of a [`DirEntry`].
pub struct EntryView {
    pub path: Seq<char>,
    pub name: Option<Seq<char>>,
    pub extension: Option<Seq<char>>,
    pub kind: EntryKind,
}

impl View for DirEntry {
    type V = EntryView;

    open spec fn view(&self) -> EntryView {
        EntryView {
            path: self.path@,
            name: self.name.deep_view(),
            extension: self.extension.deep_view(),
            kind: self.kind,
        }
    }
}

/// The view of a listing.
pub open spec fn entries_view(v: Seq<DirEntry>) -> Seq<EntryView> {
    v.map_values(|e: DirEntry| e@)
}

/// An operation on the system that a workflow asks for.
#[derive(Debug, Clone, PartialEq, Eq)]
pub enum Op {
    /// Run a command and wait for it to exit: answered by `Exited` or `Failed`.
    Run(CommandSpec),
    /// Start a command without waiting: answered by `Started` or `Failed`.
    Spawn(CommandSpec),
    /// Run a command, collecting its standard output: answered by `Output`
    /// or `Failed`.
    Capture(CommandSpec),
    /// Create a directory and its parents: answered by `Done` or `Failed`.
    CreateDirAll(String),
    /// Remove a directory and everything in it: answered by `Done` or `Failed`.
    RemoveDirAll(String),
    /// Remove a file: answered by `Done` or `Failed`.
    RemoveFile(String),
    /// Whether a path is an existing regular file: answered by `Answer`.
    IsFile(String),
    /// Whether a path is an existing directory: answered by `Answer`.
    IsDir(String),
    /// List a directory: answered by `Listing` or `Failed`.
    ReadDir(String),
    /// Warn the user that the base Windows runtime components could not be
    /// installed, because of this error, and that the install continues
    /// anyway: answered by `Done`.
    Warn(WireBoxError),
}

/// The mathematical value of an [`Op`].
pub enum OpView {
    Run(CommandView),
    Spawn(CommandView),
    Capture(CommandView),
    CreateDirAll(Seq<char>),
    RemoveDirAll(Seq<char>),
    RemoveFile(Seq<char>),
    IsFile(Seq<char>),
    IsDir(Seq<char>),
    ReadDir(Seq<char>),
    Warn(ErrorView),
}

impl View for Op {
    type V = OpView;

    open spec fn view(&self) -> OpView {
        match self {
            Op::Run(c) => OpView::Run(c@),
            Op::Spawn(c) => OpView::Spawn(c@),
            Op::Capture(c) => OpView::Capture(c@),
            Op::CreateDirAll(p) => OpView::CreateDirAll(p@),
            Op::RemoveDirAll(p) => OpView::RemoveDirAll(p@),
            Op::RemoveFile(p) => OpView::RemoveFile(p@),
            Op::IsFile(p) => OpView::IsFile(p@),
            Op::IsDir(p) => OpView::IsDir(p@),
            Op::ReadDir(p) => OpView::ReadDir(p@),
            Op::Warn(e) => OpView::Warn(e@),
        }
    }
}

/// What performing an [`Op`] produced.
#[derive(Debug, Clone, PartialEq, Eq)]
pub enum Event {
    /// The command ran and exited.
    Exited(ExitInfo),
    /// The command ran; its exit status and standard output.
    Output { success: bool, stdout: Vec<u8> },
    /// The command was started.
    Started,
    /// The operation completed.
    Done,
    /// The operation could not be carried out; the system's reason.
    Failed(String),
    /// The answer to a yes/no question.
    Answer(bool),
    /// The entries of a directory, in the order the system listed them.
    Listing(Vec<DirEntry>),
}

/// The mathematical value of an [`Event`].
pub enum EventView {
    Exited(ExitView),
    Output { success: bool, stdout: Seq<u8> },
    Started,
    Done,
    Failed(Seq<char>),
    Answer(bool),
    Listing(Seq<EntryView>),
}

impl View for Event {
    type V = EventView;

    open spec fn view(&self) -> EventView {
        match self {
            Event::Exited(e) => EventView::Exited(e@),
            Event::Output { success, stdout } => EventView::Output {
                success: *success,
                stdout: stdout@,
            },
            Event::Started => EventView::Started,
            Event::Done => EventView::Done,
            Event::Failed(r) => EventView::Failed(r@),
            Event::Answer(b) => EventView::Answer(*b),
            Event::Listing(v) => EventView::Listing(entries_view(v@)),
        }
    }
}

/// The reason an event gives for a failure: the text of `Failed`, and empty
/// for an event that does not answer the operation at all.
pub open spec fn failure_text(ev: EventView) -> Seq<char> {
    match ev {
        EventView::Failed(r) => r,
        _ => Seq::empty(),
    }
}

/// How an event answers `Run`: the exit status, or the reason the command
/// could not be run. Any other event counts as a failure.
pub open spec fn ran(ev: EventView) -> Result<ExitView, Seq<char>> {
    match ev {
        EventView::Exited(st) => Ok(st),
        _ => Err(failure_text(ev)),
    }
}

/// How an event answers `Spawn`.
pub open spec fn started(ev: EventView) -> Result<(), Seq<char>> {
    match ev {
        EventView::Started => Ok(()),
        _ => Err(failure_text(ev)),
    }
}

/// How an event answers an operation on the file system.
pub open spec fn io_done(ev: EventView) -> Result<(), Seq<char>> {
    match ev {
        EventView::Done => Ok(()),
        _ => Err(failure_text(ev)),
    }
}

/// How an event answers a yes/no question; any other event counts as "no".
pub open spec fn answer(ev: EventView) -> bool {
    match ev {
        EventView::Answer(b) => b,
        _ => false,
    }
}

/// How an event answers `ReadDir`: the listing, or `None` when the
/// directory could not be read.
pub open spec fn listing(ev: EventView) -> Option<Seq<EntryView>> {
    match ev {
        EventView::Listing(v) => Some(v),
        _ => None,
    }
}

/// The view of a result whose error is a system reason.
pub open spec fn reason_view<T: View>(r: Result<T, String>) -> Result<T::V, Seq<char>> {
    match r {
        Ok(t) => Ok(t@),
        Err(e) => Err(e@),
    }
}

/// The reason carried by an event (see [`failure_text`]).
pub fn failure_of(ev: Event) -> (r: String)
    ensures
        r@ == failure_text(ev@),
{
    match ev {
        Event::Failed(r) => r,
        _ => String::new(),
    }
}

/// How an event answers `Run` (see [`ran`]).
pub fn ran_of(ev: Event) -> (r: Result<ExitInfo, String>)
    ensures
        reason_view(r) == ran(ev@),
{
    match ev {
        Event::Exited(st) => Ok(st),
        _ => Err(failure_of(ev)),
    }
}

/// How an event answers `Spawn` (see [`started`]).
pub fn started_of(ev: Event) -> (r: Result<(), String>)
    ensures
        reason_view(r) == started(ev@),
{
    match ev {
        Event::Started => Ok(()),
        _ => Err(failure_of(ev)),
    }
}

/// How an event answers an operation on the file system (see [`io_done`]).
pub fn io_done_of(ev: Event) -> (r: Result<(), String>)
    ensures
        reason_view(r) == io_done(ev@),
{
    match ev {
        Event::Done => Ok(()),
        _ => Err(failure_of(ev)),
    }
}

/// How an event answers a yes/no question (see [`answer`]).
pub fn answer_of(ev: &Event) -> (r: bool)
    ensures
        r == answer(ev@),
{
    match ev {
        Event::Answer(b) => *b,
        _ => false,
    }
}

/// What a workflow does next: ask for another operation (keeping its new
/// state), or finish with its result.
pub enum Next<M, T> {
    Continue(M, Op),
    Done(T),
}

/// The mathematical value of a [`Next`].
pub enum Move<M, T> {
    Continue(M, OpView),
    Done(T),
}

/// The view of a [`Next`] whose result is viewed by `f`.
pub open spec fn next_view<M: View, T, R>(n: Next<M, T>, f: spec_fn(T) -> R) -> Move<M::V, R> {
    match n {
        Next::Continue(m, op) => Move::Continue(m@, op@),
        Next::Done(t) => Move::Done(f(t)),
    }
}

/// The view of a move whose result is a result of the engine.
pub open spec fn result_move<M: View, T: View>(n: Next<M, Result<T, WireBoxError>>) -> Move<
    M::V,
    Result<T::V, ErrorView>,
> {
    match n {
        Next::Continue(m, op) => Move::Continue(m@, op@),
        Next::Done(r) => Move::Done(outcome(r)),
    }
}

/// A yes/no question put to the system, waiting for its answer.
pub struct Question {}

impl Question {
    /// The answer the event gives (see [`answer`]).
    pub fn finish(self, ev: &Event) -> (r: bool)
        ensures
            r == answer(ev@),
    {
        answer_of(ev)
    }
}

/// The text `String::from_utf8_lossy` makes of some bytes.
pub uninterp spec fn lossy_utf8(bytes: Seq<u8>) -> Seq<char>;

/// Decodes bytes as UTF-8 with `String::from_utf8_lossy`. Assumed: the
/// result is determined by the bytes (named [`lossy_utf8`]), and valid UTF-8
/// decodes to exactly the characters it encodes. What replaces invalid
/// sequences is not stated.
#[verifier::external_body]
pub(crate) fn decode_lossy(bytes: &[u8]) -> (s: String)
    ensures
        s@ == lossy_utf8(bytes@),
        vstd::utf8::valid_utf8(bytes@) ==> s@ == vstd::utf8::decode_utf8(bytes@),
{
    String::from_utf8_lossy(bytes).into_owned()
}

/// The command that asks the shell where a program lives:
/// `sh -c "command -v <binary>"`.
pub open spec fn which_command(binary: Seq<char>) -> CommandView {
    CommandView {
        program: "sh"@,
        args: seq!["-c"@, "command -v "@ + binary],
        env: Seq::empty(),
    }
}

/// The path named by the shell's answer: the path whose bytes are the
/// UTF-8 of its output trimmed, if the output is not blank.
pub open spec fn path_from_output(text: Seq<char>) -> Option<Seq<char>> {
    if trimmed(text).len() == 0 {
        None
    } else {
        Some(path_text_of(vstd::utf8::encode_utf8(trimmed(text))))
    }
}

/// Where the lookup found the program, given what running the lookup
/// command produced.
pub open spec fn located(ev: EventView) -> Option<Seq<char>> {
    match ev {
        EventView::Output { success, stdout } => if success {
            path_from_output(lossy_utf8(stdout))
        } else {
            None
        },
        _ => None,
    }
}

/// The lookup of a program on `$PATH` (what `command -v` finds).
pub fn which(binary: &str) -> (op: Op)
    ensures
        op@ == OpView::Capture(which_command(binary@)),
{
    let mut args: Vec<String> = Vec::new();
    args.push(String::from_str("-c"));
    args.push(String::from_str("command -v ").concat(binary));
    let cmd = CommandSpec { program: String::from_str("sh"), args, env: Vec::new() };
    proof {
        reveal_strlit("sh");
        reveal_strlit("-c");
        reveal_strlit("command -v ");
        assert(cmd@.args =~= which_command(binary@).args);
        assert(cmd@.env =~= which_command(binary@).env);
    }
    Op::Capture(cmd)
}

/// The path named by a shell's textual answer (see [`path_from_output`]).
pub fn path_from_text(text: &str) -> (r: Option<String>)
    ensures
        r.deep_view() == path_from_output(text@),
{
    let t = trim(text);
    let n = chars_of(t.as_str()).len();
    if n == 0 {
        None
    } else {
        Some(path_text(t.as_str().as_bytes()))
    }
}

/// Where the lookup started by [`which`] found the program.
pub fn located_path(ev: Event) -> (r: Option<String>)
    ensures
        r.deep_view() == located(ev@),
{
    match ev {
        Event::Output { success, stdout } => {
            if success {
                let text = decode_lossy(stdout.as_slice());
                path_from_text(text.as_str())
            } else {
                None
            }
        },
        _ => None,
    }
}

} // verus!
