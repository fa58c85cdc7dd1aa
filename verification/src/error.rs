//! Failures of terminal operations, and the texts they are reported with.
use vstd::prelude::*;
use vstd::string::*;

verus! {

/// The three classes a failure falls into.
#[derive(Clone, Copy, Debug, PartialEq, Eq, Structural)]
pub enum ErrorKind {
    /// A pseudoterminal or a shell process could not be had; only the one
    /// spawn call is affected.
    Resource,
    /// An operation named an id that the registry does not hold.
    NotFound,
    /// Writing, flushing or resizing failed on a session that is registered.
    IoFailure,
}

/// Why a terminal operation failed. Every variant but `NotFound` carries the
/// cause as the operating system worded it; `NotFound` carries the id asked
/// for.
#[derive(Debug)]
pub enum TerminalError {
    PtyOpen(String),
    Spawn(String),
    CloneReader(String),
    TakeWriter(String),
    NotFound(String),
    Write(String),
    Flush(String),
    Resize(String),
}

/// Why the input sink of a session did not take what it was given.
#[derive(Debug)]
pub enum SinkFailure {
    /// Not all bytes could be written.
    Write(String),
    /// The bytes were written but could not be flushed.
    Flush(String),
}

/// The step at which starting a session failed.
#[derive(Debug)]
pub enum SpawnFailure {
    /// No pseudoterminal pair could be opened.
    PtyOpen(String),
    /// The shell could not be started on the slave side.
    Spawn(String),
    /// The master side gave no handle to read from.
    CloneReader(String),
    /// The master side gave no handle to write to.
    TakeWriter(String),
}

/// A `TerminalError` with its text as a sequence of characters.
pub enum TerminalErrorView {
    PtyOpen(Seq<char>),
    Spawn(Seq<char>),
    CloneReader(Seq<char>),
    TakeWriter(Seq<char>),
    NotFound(Seq<char>),
    Write(Seq<char>),
    Flush(Seq<char>),
    Resize(Seq<char>),
}

impl TerminalErrorView {
    /// The error that reports a failure of a session's input sink.
    pub open spec fn of_sink(failure: SinkFailure) -> TerminalErrorView {
        match failure {
            SinkFailure::Write(cause) => TerminalErrorView::Write(cause@),
            SinkFailure::Flush(cause) => TerminalErrorView::Flush(cause@),
        }
    }

    /// The error that reports why a session could not be started.
    pub open spec fn of_spawn(failure: SpawnFailure) -> TerminalErrorView {
        match failure {
            SpawnFailure::PtyOpen(cause) => TerminalErrorView::PtyOpen(cause@),
            SpawnFailure::Spawn(cause) => TerminalErrorView::Spawn(cause@),
            SpawnFailure::CloneReader(cause) => TerminalErrorView::CloneReader(cause@),
            SpawnFailure::TakeWriter(cause) => TerminalErrorView::TakeWriter(cause@),
        }
    }

    /// The class of the failure.
    pub open spec fn kind(self) -> ErrorKind {
        match self {
            TerminalErrorView::PtyOpen(_) => ErrorKind::Resource,
            TerminalErrorView::Spawn(_) => ErrorKind::Resource,
            TerminalErrorView::CloneReader(_) => ErrorKind::Resource,
            TerminalErrorView::TakeWriter(_) => ErrorKind::Resource,
            TerminalErrorView::NotFound(_) => ErrorKind::NotFound,
            TerminalErrorView::Write(_) => ErrorKind::IoFailure,
            TerminalErrorView::Flush(_) => ErrorKind::IoFailure,
            TerminalErrorView::Resize(_) => ErrorKind::IoFailure,
        }
    }

    /// The text shown to the caller: a fixed phrase around the cause or id.
    pub open spec fn message(self) -> Seq<char> {
        match self {
            TerminalErrorView::PtyOpen(cause) => "Failed to create PTY: "@ + cause,
            TerminalErrorView::Spawn(cause) => "Failed to spawn shell: "@ + cause,
            TerminalErrorView::CloneReader(cause) => "Failed to clone reader: "@ + cause,
            TerminalErrorView::TakeWriter(cause) => "Failed to get writer: "@ + cause,
            TerminalErrorView::NotFound(id) => "Terminal "@ + id + " not found"@,
            TerminalErrorView::Write(cause) => "Failed to write to terminal: "@ + cause,
            TerminalErrorView::Flush(cause) => "Failed to flush terminal: "@ + cause,
            TerminalErrorView::Resize(cause) => "Failed to resize terminal: "@ + cause,
        }
    }
}

impl View for TerminalError {
    type V = TerminalErrorView;

    open spec fn view(&self) -> TerminalErrorView {
        match *self {
            TerminalError::PtyOpen(cause) => TerminalErrorView::PtyOpen(cause@),
            TerminalError::Spawn(cause) => TerminalErrorView::Spawn(cause@),
            TerminalError::CloneReader(cause) => TerminalErrorView::CloneReader(cause@),
            TerminalError::TakeWriter(cause) => TerminalErrorView::TakeWriter(cause@),
            TerminalError::NotFound(id) => TerminalErrorView::NotFound(id@),
            TerminalError::Write(cause) => TerminalErrorView::Write(cause@),
            TerminalError::Flush(cause) => TerminalErrorView::Flush(cause@),
            TerminalError::Resize(cause) => TerminalErrorView::Resize(cause@),
        }
    }
}

/// The failure a reply reports, if it reports one.
pub open spec fn failure_of(reply: Result<(), TerminalError>) -> Option<TerminalErrorView> {
    match reply {
        Ok(_) => None,
        Err(error) => Some(error@),
    }
}

/// The failure to report for what a session's input sink answered.
pub open spec fn sink_verdict(sent: Result<(), SinkFailure>) -> Option<TerminalErrorView> {
    match sent {
        Ok(_) => None,
        Err(failure) => Some(TerminalErrorView::of_sink(failure)),
    }
}

/// The failure to report for what a resize of a terminal answered.
pub open spec fn resize_verdict(applied: Result<(), String>) -> Option<TerminalErrorView> {
    match applied {
        Ok(_) => None,
        Err(cause) => Some(TerminalErrorView::Resize(cause@)),
    }
}

impl TerminalError {
    /// The error that reports a failure of a session's input sink.
    pub fn from_sink(failure: SinkFailure) -> (error: TerminalError)
        ensures
            error@ == TerminalErrorView::of_sink(failure),
            error@.kind() == ErrorKind::IoFailure,
    {
        match failure {
            SinkFailure::Write(cause) => TerminalError::Write(cause),
            SinkFailure::Flush(cause) => TerminalError::Flush(cause),
        }
    }

    /// The error that reports why a session could not be started.
    pub fn from_spawn(failure: SpawnFailure) -> (error: TerminalError)
        ensures
            error@ == TerminalErrorView::of_spawn(failure),
            error@.kind() == ErrorKind::Resource,
    {
        match failure {
            SpawnFailure::PtyOpen(cause) => TerminalError::PtyOpen(cause),
            SpawnFailure::Spawn(cause) => TerminalError::Spawn(cause),
            SpawnFailure::CloneReader(cause) => TerminalError::CloneReader(cause),
            SpawnFailure::TakeWriter(cause) => TerminalError::TakeWriter(cause),
        }
    }

    /// The class of this failure.
    pub fn kind(&self) -> (kind: ErrorKind)
        ensures
            kind == self@.kind(),
    {
        match self {
            TerminalError::PtyOpen(_) => ErrorKind::Resource,
            TerminalError::Spawn(_) => ErrorKind::Resource,
            TerminalError::CloneReader(_) => ErrorKind::Resource,
            TerminalError::TakeWriter(_) => ErrorKind::Resource,
            TerminalError::NotFound(_) => ErrorKind::NotFound,
            TerminalError::Write(_) => ErrorKind::IoFailure,
            TerminalError::Flush(_) => ErrorKind::IoFailure,
            TerminalError::Resize(_) => ErrorKind::IoFailure,
        }
    }

    /// The text this failure is reported with.
    pub fn message(&self) -> (text: String)
        ensures
            text@ == self@.message(),
    {
        match self {
            TerminalError::PtyOpen(cause) => prefixed("Failed to create PTY: ", cause),
            TerminalError::Spawn(cause) => prefixed("Failed to spawn shell: ", cause),
            TerminalError::CloneReader(cause) => prefixed("Failed to clone reader: ", cause),
            TerminalError::TakeWriter(cause) => prefixed("Failed to get writer: ", cause),
            TerminalError::NotFound(id) => prefixed("Terminal ", id).concat(" not found"),
            TerminalError::Write(cause) => prefixed("Failed to write to terminal: ", cause),
            TerminalError::Flush(cause) => prefixed("Failed to flush terminal: ", cause),
            TerminalError::Resize(cause) => prefixed("Failed to resize terminal: ", cause),
        }
    }
}

/// `phrase` followed by `rest`.
fn prefixed(phrase: &str, rest: &String) -> (text: String)
    ensures
        text@ == phrase@ + rest@,
{
    String::from_str(phrase).concat(rest.as_str())
}

} // verus!
