//! Every failure mode the engine can produce. Kept flat and specific on
//! purpose: callers (the CLI today, a GTK front end later) match on
//! variants instead of grepping error strings.
use vstd::prelude::*;

verus! {

/// How a finished process ended: whether it reported success, and the
/// status as the operating system describes it (for messages).
#[derive(Debug, Clone, PartialEq, Eq)]
pub struct ExitInfo {
    pub success: bool,
    pub text: String,
}

/// The mathematical value of an [`ExitInfo`].
pub struct ExitView {
    pub success: bool,
    pub text: Seq<char>,
}

impl View for ExitInfo {
    type V = ExitView;

    open spec fn view(&self) -> ExitView {
        ExitView { success: self.success, text: self.text@ }
    }
}

/// The engine's errors. Where the operating system reported a reason, it is
/// kept as its text in `reason`.
#[derive(Debug, Clone, PartialEq, Eq)]
pub enum WireBoxError {
    WineNotInstalled,
    Spawn { command: String, reason: String },
    NonZeroExit { command: String, status: ExitInfo },
    NotFound(String),
    CreateDir { path: String, reason: String },
    InstallVerificationFailed { application: String },
    ProductManagerMissing,
    NoExecutableFound(String),
    RemoveDir { path: String, reason: String },
    WinetricksNotInstalled,
    ConfigRead { path: String, reason: String },
    ConfigParse { path: String, reason: String },
    ConfigSerialize { reason: String },
    ConfigWrite { path: String, reason: String },
    PipeWire(String),
}

/// The mathematical value of a [`WireBoxError`].
pub enum ErrorView {
    WineNotInstalled,
    Spawn { command: Seq<char>, reason: Seq<char> },
    NonZeroExit { command: Seq<char>, status: ExitView },
    NotFound(Seq<char>),
    CreateDir { path: Seq<char>, reason: Seq<char> },
    InstallVerificationFailed { application: Seq<char> },
    ProductManagerMissing,
    NoExecutableFound(Seq<char>),
    RemoveDir { path: Seq<char>, reason: Seq<char> },
    WinetricksNotInstalled,
    ConfigRead { path: Seq<char>, reason: Seq<char> },
    ConfigParse { path: Seq<char>, reason: Seq<char> },
    ConfigSerialize { reason: Seq<char> },
    ConfigWrite { path: Seq<char>, reason: Seq<char> },
    PipeWire(Seq<char>),
}

impl View for WireBoxError {
    type V = ErrorView;

    open spec fn view(&self) -> ErrorView {
        match self {
            WireBoxError::WineNotInstalled => ErrorView::WineNotInstalled,
            WireBoxError::Spawn { command, reason } => ErrorView::Spawn {
                command: command@,
                reason: reason@,
            },
            WireBoxError::NonZeroExit { command, status } => ErrorView::NonZeroExit {
                command: command@,
                status: status@,
            },
            WireBoxError::NotFound(p) => ErrorView::NotFound(p@),
            WireBoxError::CreateDir { path, reason } => ErrorView::CreateDir {
                path: path@,
                reason: reason@,
            },
            WireBoxError::InstallVerificationFailed { application } =>
                ErrorView::InstallVerificationFailed { application: application@ },
            WireBoxError::ProductManagerMissing => ErrorView::ProductManagerMissing,
            WireBoxError::NoExecutableFound(p) => ErrorView::NoExecutableFound(p@),
            WireBoxError::RemoveDir { path, reason } => ErrorView::RemoveDir {
                path: path@,
                reason: reason@,
            },
            WireBoxError::WinetricksNotInstalled => ErrorView::WinetricksNotInstalled,
            WireBoxError::ConfigRead { path, reason } => ErrorView::ConfigRead {
                path: path@,
                reason: reason@,
            },
            WireBoxError::ConfigParse { path, reason } => ErrorView::ConfigParse {
                path: path@,
                reason: reason@,
            },
            WireBoxError::ConfigSerialize { reason } => ErrorView::ConfigSerialize {
                reason: reason@,
            },
            WireBoxError::ConfigWrite { path, reason } => ErrorView::ConfigWrite {
                path: path@,
                reason: reason@,
            },
            WireBoxError::PipeWire(m) => ErrorView::PipeWire(m@),
        }
    }
}

/// The mathematical value of a result of the engine.
pub open spec fn outcome<T: View>(r: Result<T, WireBoxError>) -> Result<T::V, ErrorView> {
    match r {
        Ok(t) => Ok(t@),
        Err(e) => Err(e@),
    }
}

} // verus!
