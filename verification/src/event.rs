//! What the library tells its subscriber: the description of a session that
//! was started, and the two notifications a running session gives rise to.
use vstd::prelude::*;

verus! {

/// A session that was started: its id and the shell that runs in it.
#[derive(Debug, Clone, PartialEq, Eq)]
pub struct TerminalInfo {
    pub id: String,
    pub shell: String,
}

pub struct TerminalInfoView {
    pub id: Seq<char>,
    pub shell: Seq<char>,
}

impl View for TerminalInfo {
    type V = TerminalInfoView;

    open spec fn view(&self) -> TerminalInfoView {
        TerminalInfoView { id: self.id@, shell: self.shell@ }
    }
}

/// Bytes that the shell of session `id` produced, exactly as they were read.
#[derive(Debug, Clone, PartialEq, Eq)]
pub struct TerminalOutput {
    pub id: String,
    pub data: Vec<u8>,
}

pub struct TerminalOutputView {
    pub id: Seq<char>,
    pub data: Seq<u8>,
}

impl View for TerminalOutput {
    type V = TerminalOutputView;

    open spec fn view(&self) -> TerminalOutputView {
        TerminalOutputView { id: self.id@, data: self.data@ }
    }
}

/// A notification for the subscriber.
#[derive(Debug, Clone, PartialEq, Eq)]
pub enum TerminalEvent {
    /// The session produced output.
    Output(TerminalOutput),
    /// The session with this id has ended.
    Closed(String),
}

pub enum TerminalEventView {
    Output(TerminalOutputView),
    Closed(Seq<char>),
}

impl TerminalEventView {
    /// The session the notification is about.
    pub open spec fn id(self) -> Seq<char> {
        match self {
            TerminalEventView::Output(output) => output.id,
            TerminalEventView::Closed(id) => id,
        }
    }

    /// The bytes the notification carries; none for `Closed`.
    pub open spec fn payload(self) -> Seq<u8> {
        match self {
            TerminalEventView::Output(output) => output.data,
            TerminalEventView::Closed(_) => Seq::empty(),
        }
    }

    /// The name under which the notification is published.
    pub open spec fn channel(self) -> Seq<char> {
        match self {
            TerminalEventView::Output(_) => "terminal-output"@,
            TerminalEventView::Closed(_) => "terminal-closed"@,
        }
    }
}

impl View for TerminalEvent {
    type V = TerminalEventView;

    open spec fn view(&self) -> TerminalEventView {
        match *self {
            TerminalEvent::Output(output) => TerminalEventView::Output(output@),
            TerminalEvent::Closed(id) => TerminalEventView::Closed(id@),
        }
    }
}

impl TerminalEvent {
    /// The name under which this notification is published.
    pub fn channel(&self) -> (name: &'static str)
        ensures
            name@ == self@.channel(),
    {
        match self {
            TerminalEvent::Output(_) => "terminal-output",
            TerminalEvent::Closed(_) => "terminal-closed",
        }
    }
}

} // verus!
