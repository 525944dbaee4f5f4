//! What a session is told and what it asks for in return.

use crate::command::{Command, CommandView};
use crate::message::{DccOffer, Message, MessageView, OfferView};
use vstd::prelude::*;
use vstd::string::StringExecFns;

verus! {

/// The kinds of fatal error.
#[derive(Clone, Copy, Debug, PartialEq, Eq, Structural)]
pub enum ErrorKind {
    /// A socket could not be connected, read or written.
    Network,
    /// The peer sent what the protocol does not allow.
    Protocol,
    /// The server or the bot kept silent for too long.
    Timeout,
    /// The target file could not be opened, extended or flushed.
    File,
}

/// The words for a kind of error.
pub open spec fn error_text(kind: ErrorKind) -> Seq<char> {
    match kind {
        ErrorKind::Network => "The connection failed"@,
        ErrorKind::Protocol => "The peer broke the protocol"@,
        ErrorKind::Timeout => "Timed out"@,
        ErrorKind::File => "The file could not be written"@,
    }
}

impl ErrorKind {
    /// The words for this kind of error.
    pub fn text(&self) -> (s: String)
        ensures
            s@ == error_text(*self),
    {
        match self {
            ErrorKind::Network => String::from_str("The connection failed"),
            ErrorKind::Protocol => String::from_str("The peer broke the protocol"),
            ErrorKind::Timeout => String::from_str("Timed out"),
            ErrorKind::File => String::from_str("The file could not be written"),
        }
    }
}

/// A line of status for the user.
#[derive(Debug, PartialEq, Eq)]
pub enum Status {
    Connecting,
    Connected,
    /// A transfer of the named file begins.
    NowDownloading(String),
    EpisodeFinished,
    Success,
    /// A deadline passed without a reply.
    TimeoutWarning,
    /// A worker ended with an error of this kind.
    WorkerFailed(ErrorKind),
}

/// What a `Status` holds, as mathematical values.
pub enum StatusView {
    Connecting,
    Connected,
    NowDownloading(Seq<char>),
    EpisodeFinished,
    Success,
    TimeoutWarning,
    WorkerFailed(ErrorKind),
}

impl View for Status {
    type V = StatusView;

    open spec fn view(&self) -> StatusView {
        match self {
            Status::Connecting => StatusView::Connecting,
            Status::Connected => StatusView::Connected,
            Status::NowDownloading(name) => StatusView::NowDownloading(name@),
            Status::EpisodeFinished => StatusView::EpisodeFinished,
            Status::Success => StatusView::Success,
            Status::TimeoutWarning => StatusView::TimeoutWarning,
            Status::WorkerFailed(kind) => StatusView::WorkerFailed(*kind),
        }
    }
}

/// The words of a status.
pub open spec fn status_text(status: StatusView) -> Seq<char> {
    match status {
        StatusView::Connecting => "Connecting"@,
        StatusView::Connected => "Connected"@,
        StatusView::NowDownloading(name) => "Now downloading "@ + name,
        StatusView::EpisodeFinished => "Episode Finished Downloading"@,
        StatusView::Success => "Success"@,
        StatusView::TimeoutWarning => "Timed out waiting for a reply"@,
        StatusView::WorkerFailed(kind) => "Download failed: "@ + error_text(kind),
    }
}

impl Status {
    /// The words of this status.
    pub fn text(&self) -> (s: String)
        ensures
            s@ == status_text(self@),
    {
        match self {
            Status::Connecting => String::from_str("Connecting"),
            Status::Connected => String::from_str("Connected"),
            Status::NowDownloading(name) => {
                let mut s = String::from_str("Now downloading ");
                s.append(name.as_str());
                s
            },
            Status::EpisodeFinished => String::from_str("Episode Finished Downloading"),
            Status::Success => String::from_str("Success"),
            Status::TimeoutWarning => String::from_str("Timed out waiting for a reply"),
            Status::WorkerFailed(kind) => {
                let mut s = String::from_str("Download failed: ");
                s.append(kind.text().as_str());
                s
            },
        }
    }
}

/// What happened since the session was last told anything.
#[derive(Debug, PartialEq, Eq)]
pub enum Event {
    /// A line arrived, and was classified.
    Message(Message),
    /// No line is waiting.
    Idle,
    /// The answer to a `Probe`: the length of the file, or `None` where
    /// there is no such file.
    FileLength(Option<u64>),
    /// The connection to the server is lost.
    Disconnected,
}

/// What an `Event` holds, as mathematical values.
pub enum EventView {
    Message(MessageView),
    Idle,
    FileLength(Option<u64>),
    Disconnected,
}

impl View for Event {
    type V = EventView;

    open spec fn view(&self) -> EventView {
        match self {
            Event::Message(m) => EventView::Message(m@),
            Event::Idle => EventView::Idle,
            Event::FileLength(n) => EventView::FileLength(*n),
            Event::Disconnected => EventView::Disconnected,
        }
    }
}

/// What the session asks its driver to do. Actions are carried out in the
/// order in which they are given.
#[derive(Debug, PartialEq, Eq)]
pub enum Action {
    /// Write the line of this command to the server.
    Send(Command),
    /// Look up the named file in the target directory and answer with
    /// `Event::FileLength`.
    Probe(String),
    /// Wait so many milliseconds.
    Sleep(u64),
    /// Start a worker that fetches this offer.
    Spawn(DccOffer),
    /// Show this status.
    Report(Status),
    /// Close the connection to the server, both directions.
    Close,
    /// Wait for every worker to end.
    JoinWorkers,
}

/// What an `Action` holds, as mathematical values.
pub enum ActionView {
    Send(CommandView),
    Probe(Seq<char>),
    Sleep(u64),
    Spawn(OfferView),
    Report(StatusView),
    Close,
    JoinWorkers,
}

impl View for Action {
    type V = ActionView;

    open spec fn view(&self) -> ActionView {
        match self {
            Action::Send(command) => ActionView::Send(command@),
            Action::Probe(name) => ActionView::Probe(name@),
            Action::Sleep(ms) => ActionView::Sleep(*ms),
            Action::Spawn(offer) => ActionView::Spawn(offer@),
            Action::Report(status) => ActionView::Report(status@),
            Action::Close => ActionView::Close,
            Action::JoinWorkers => ActionView::JoinWorkers,
        }
    }
}

impl DeepView for Action {
    type V = ActionView;

    open spec fn deep_view(&self) -> ActionView {
        self@
    }
}

/// No action.
pub fn nothing() -> (actions: Vec<Action>)
    ensures
        actions.deep_view() == Seq::<ActionView>::empty(),
{
    let actions: Vec<Action> = Vec::new();
    assert(actions.deep_view() =~= Seq::<ActionView>::empty());
    actions
}

/// The actions of `first`, then `action`.
pub fn and_then(first: Vec<Action>, action: Action) -> (actions: Vec<Action>)
    ensures
        actions.deep_view() == first.deep_view().push(action@),
{
    let mut actions = first;
    actions.push(action);
    assert(actions.deep_view() =~= first.deep_view().push(action@));
    actions
}

/// The actions of `first`, then those of `second`.
pub fn followed_by(first: Vec<Action>, second: Vec<Action>) -> (actions: Vec<Action>)
    ensures
        actions.deep_view() == first.deep_view() + second.deep_view(),
{
    let mut actions = first;
    let mut rest = second;
    actions.append(&mut rest);
    assert(actions.deep_view() =~= first.deep_view() + second.deep_view());
    actions
}

} // verus!
