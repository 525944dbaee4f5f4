//! The session controller: logs in, asks for each pack in turn, and hands
//! every offer to a worker.
//!
//! A `Session` owns no socket and no file. Its driver tells it what
//! happened, and carries out the actions that it answers with.

use crate::command::{nickname, random_suffix, Command, CommandView};
use crate::event::{
    and_then, followed_by, nothing, Action, ActionView, ErrorKind, Event, EventView, Status,
    StatusView,
};
use crate::machine::{
    is_partial, lemma_started, lemma_step, started, Phase, SessionView, LATEST_MS, LOGIN_TICK_MS,
    POLL_MS, REPLY_TICK_MS, TIMEOUT_THRESHOLD,
};
use crate::message::{classify, dcc_send_groups, message_of, mode_matches, DccOffer, Message};
use crate::request::IRCRequest;
use vstd::prelude::*;

verus! {

/// The state of a session.
#[derive(Debug, PartialEq, Eq)]
pub struct Session {
    request: IRCRequest,
    phase: Phase,
    has_joined: bool,
    resume_pending: bool,
    cursor: usize,
    offers: Vec<DccOffer>,
    deadline_ms: u64,
    timeouts: u64,
}

impl View for Session {
    type V = SessionView;

    closed spec fn view(&self) -> SessionView {
        SessionView {
            request: self.request@,
            phase: self.phase,
            has_joined: self.has_joined,
            resume_pending: self.resume_pending,
            cursor: self.cursor as nat,
            offers: self.offers.deep_view(),
            deadline: self.deadline_ms,
            timeouts: self.timeouts as nat,
        }
    }
}

impl Session {
    /// Starts a session for `request` at time `now_ms`, under the nickname
    /// with the given suffix, or `None` where the request is not valid.
    pub fn start_with(request: IRCRequest, suffix: u16, now_ms: u64) -> (r: Option<
        (Session, Vec<Action>),
    >)
        requires
            now_ms <= LATEST_MS,
        ensures
            r is Some <==> request@.is_valid(),
            r matches Some((session, actions)) ==> {
                &&& session@.wf()
                &&& (session@, actions.deep_view()) == started(request@, suffix, now_ms)
            },
    {
        if !request.is_valid() {
            return None;
        }
        let name = nickname(request.nickname.as_str(), suffix);
        let actions = and_then(
            and_then(
                and_then(nothing(), Action::Report(Status::Connecting)),
                Action::Send(Command::Nick(name.clone())),
            ),
            Action::Send(Command::User(name)),
        );
        let session = Session {
            request: request,
            phase: Phase::LoggingIn,
            has_joined: false,
            resume_pending: false,
            cursor: 0,
            offers: Vec::new(),
            deadline_ms: now_ms + LOGIN_TICK_MS,
            timeouts: 0,
        };
        proof {
            lemma_started(request@, suffix, now_ms);
            assert(session@.offers =~= Seq::empty());
            assert(actions.deep_view() =~= started(request@, suffix, now_ms).1);
        }
        Some((session, actions))
    }

    /// Starts a session for `request` at time `now_ms`, under a nickname
    /// with a suffix drawn at random.
    pub fn start(request: IRCRequest, now_ms: u64) -> (r: Option<(Session, Vec<Action>)>)
        requires
            now_ms <= LATEST_MS,
        ensures
            r is Some <==> request@.is_valid(),
            r matches Some((session, actions)) ==> {
                &&& session@.wf()
                &&& exists|suffix: u16|
                    (session@, actions.deep_view()) == started(request@, suffix, now_ms)
            },
    {
        let suffix = random_suffix();
        Session::start_with(request, suffix, now_ms)
    }

    /// What the session is doing.
    pub fn phase(&self) -> (phase: Phase)
        ensures
            phase == self@.phase,
    {
        self.phase
    }

    /// Whether the channel is joined.
    pub fn has_joined(&self) -> (b: bool)
        ensures
            b == self@.has_joined,
    {
        self.has_joined
    }

    /// Whether a resume went out and its acceptance has not come in.
    pub fn resume_pending(&self) -> (b: bool)
        ensures
            b == self@.resume_pending,
    {
        self.resume_pending
    }

    /// Whether the session waits for the previous file to be whole.
    pub fn wait_for_previous(&self) -> (b: bool)
        ensures
            b == self@.wait_for_previous(),
    {
        match self.phase {
            Phase::WaitingForPrevious => true,
            _ => false,
        }
    }

    /// The index of the pack that is being asked for.
    pub fn cursor(&self) -> (i: usize)
        ensures
            i == self@.cursor,
    {
        self.cursor
    }

    /// The offers received so far.
    pub fn offers(&self) -> (offers: &Vec<DccOffer>)
        ensures
            offers.deep_view() == self@.offers,
    {
        &self.offers
    }

    /// The end of the current tick, in milliseconds.
    pub fn deadline_ms(&self) -> (ms: u64)
        ensures
            ms == self@.deadline,
    {
        self.deadline_ms
    }

    /// The silent ticks counted so far.
    pub fn timeouts(&self) -> (n: u64)
        ensures
            n == self@.timeouts,
    {
        self.timeouts
    }

    /// The error that ended the session, if one did.
    pub fn error(&self) -> (e: Option<ErrorKind>)
        ensures
            e == match self@.phase {
                Phase::Failed(kind) => Some(kind),
                _ => None,
            },
    {
        match self.phase {
            Phase::Failed(kind) => Some(kind),
            _ => None,
        }
    }

    /// Whether the session is over, well or badly.
    pub fn is_over(&self) -> (b: bool)
        ensures
            b == (self@.phase is ShuttingDown || self@.phase is Failed),
    {
        match self.phase {
            Phase::ShuttingDown | Phase::Failed(_) => true,
            _ => false,
        }
    }

    fn fail(&mut self, kind: ErrorKind) -> (actions: Vec<Action>)
        ensures
            (final(self)@, actions.deep_view()) == old(self)@.fail(kind),
    {
        self.phase = Phase::Failed(kind);
        nothing()
    }

    fn join_action(&self) -> (action: Action)
        ensures
            action@ == ActionView::Send(CommandView::Join(self@.request.channel)),
    {
        Action::Send(Command::Join(self.request.channel.clone()))
    }

    fn current_bot(&self) -> (bot: String)
        requires
            self@.cursor < self@.request.bot.len(),
        ensures
            bot@ == self@.bot(),
    {
        assert(self.request.bot.deep_view()[self.cursor as int] == self.request.bot@[self.cursor as int]@);
        self.request.bot[self.cursor].clone()
    }

    fn current_pack(&self) -> (pack: String)
        requires
            self@.cursor < self@.request.packages.len(),
        ensures
            pack@ == self@.pack(),
    {
        assert(self.request.packages.deep_view()[self.cursor as int]
            == self.request.packages@[self.cursor as int]@);
        self.request.packages[self.cursor].clone()
    }

    fn previous_probe(&self) -> (action: Action)
        requires
            0 < self@.cursor <= self@.offers.len(),
        ensures
            action@ == ActionView::Probe(self@.previous().filename),
    {
        assert(self.offers.deep_view()[self.cursor - 1] == self.offers@[self.cursor - 1]@);
        Action::Probe(self.offers[self.cursor - 1].filename.clone())
    }

    fn previous_size(&self) -> (size: u64)
        requires
            0 < self@.cursor <= self@.offers.len(),
        ensures
            size == self@.previous().size_bytes,
    {
        assert(self.offers.deep_view()[self.cursor - 1] == self.offers@[self.cursor - 1]@);
        self.offers[self.cursor - 1].size_bytes
    }

    fn request_next(&mut self, now_ms: u64) -> (actions: Vec<Action>)
        requires
            now_ms <= LATEST_MS,
            old(self)@.request.is_valid(),
        ensures
            (final(self)@, actions.deep_view()) == old(self)@.request_next(now_ms),
    {
        if self.cursor >= self.request.packages.len() {
            self.phase = Phase::ShuttingDown;
            let actions = and_then(
                and_then(
                    and_then(and_then(nothing(), Action::Send(Command::Quit)), Action::Close),
                    Action::JoinWorkers,
                ),
                Action::Report(Status::Success),
            );
            assert(actions.deep_view() =~= old(self)@.request_next(now_ms).1);
            actions
        } else {
            let actions = if self.resume_pending {
                nothing()
            } else {
                let send = Action::Send(
                    Command::XdccSend { bot: self.current_bot(), pack: self.current_pack() },
                );
                and_then(nothing(), send)
            };
            self.phase = Phase::WaitingForReply;
            self.deadline_ms = now_ms + REPLY_TICK_MS;
            self.timeouts = 0;
            assert(actions.deep_view() =~= old(self)@.request_next(now_ms).1);
            actions
        }
    }

    fn dispatch(&mut self, now_ms: u64) -> (actions: Vec<Action>)
        requires
            now_ms <= LATEST_MS,
            old(self)@.request.is_valid(),
            old(self)@.cursor < old(self)@.offers.len(),
        ensures
            (final(self)@, actions.deep_view()) == old(self)@.dispatch(now_ms),
    {
        assert(self.offers.deep_view()[self.cursor as int] == self.offers@[self.cursor as int]@);
        let offer = self.offers[self.cursor].clone();
        let first = and_then(
            and_then(nothing(), Action::Report(Status::NowDownloading(offer.filename.clone()))),
            Action::Spawn(offer),
        );
        assert(self.cursor < self.offers.len());
        self.cursor = self.cursor + 1;
        self.resume_pending = false;
        let more = self.request_next(now_ms);
        let actions = followed_by(first, more);
        assert(first.deep_view() =~= seq![
            ActionView::Report(StatusView::NowDownloading(old(self)@.current().filename)),
            ActionView::Spawn(old(self)@.current()),
        ]);
        actions
    }

    fn login_tick(&mut self, now_ms: u64) -> (actions: Vec<Action>)
        requires
            now_ms <= LATEST_MS,
            old(self)@.timeouts <= TIMEOUT_THRESHOLD,
        ensures
            (final(self)@, actions.deep_view()) == old(self)@.login_tick(now_ms),
    {
        if self.timeouts + 1 > TIMEOUT_THRESHOLD {
            self.fail(ErrorKind::Timeout)
        } else {
            let actions = and_then(
                and_then(nothing(), Action::Report(Status::TimeoutWarning)),
                self.join_action(),
            );
            self.deadline_ms = now_ms + LOGIN_TICK_MS;
            self.timeouts = self.timeouts + 1;
            assert(actions.deep_view() =~= old(self)@.login_tick(now_ms).1);
            actions
        }
    }

    fn reply_tick(&mut self, now_ms: u64) -> (actions: Vec<Action>)
        requires
            now_ms <= LATEST_MS,
            old(self)@.timeouts <= TIMEOUT_THRESHOLD,
        ensures
            (final(self)@, actions.deep_view()) == old(self)@.reply_tick(now_ms),
    {
        if self.timeouts + 1 > TIMEOUT_THRESHOLD {
            self.fail(ErrorKind::Timeout)
        } else {
            self.phase = Phase::WaitingForReply;
            self.deadline_ms = now_ms + REPLY_TICK_MS;
            self.timeouts = self.timeouts + 1;
            let actions = and_then(nothing(), Action::Report(Status::TimeoutWarning));
            assert(actions.deep_view() =~= old(self)@.reply_tick(now_ms).1);
            actions
        }
    }

    fn login_step(&mut self, event: Event, now_ms: u64) -> (actions: Vec<Action>)
        requires
            now_ms <= LATEST_MS,
            old(self)@.wf(),
        ensures
            (final(self)@, actions.deep_view()) == old(self)@.login_step(event@, now_ms),
    {
        match event {
            Event::Message(Message::Ping(token)) => {
                let actions = and_then(
                    and_then(nothing(), Action::Send(Command::Pong(token))),
                    self.join_action(),
                );
                assert(actions.deep_view() =~= old(self)@.login_step(event@, now_ms).1);
                actions
            },
            Event::Message(Message::Mode) => {
                let actions = and_then(nothing(), self.join_action());
                assert(actions.deep_view() =~= old(self)@.login_step(event@, now_ms).1);
                actions
            },
            Event::Message(Message::Join) => {
                self.has_joined = true;
                let first = and_then(nothing(), Action::Report(Status::Connected));
                let more = self.request_next(now_ms);
                assert(first.deep_view() =~= seq![
                    ActionView::Report(StatusView::Connected),
                ]);
                followed_by(first, more)
            },
            Event::Idle => {
                if now_ms >= self.deadline_ms {
                    self.login_tick(now_ms)
                } else {
                    nothing()
                }
            },
            _ => nothing(),
        }
    }

    fn reply_step(&mut self, event: Event, now_ms: u64) -> (actions: Vec<Action>)
        requires
            now_ms <= LATEST_MS,
            old(self)@.wf(),
            old(self)@.phase is WaitingForReply,
        ensures
            (final(self)@, actions.deep_view()) == old(self)@.reply_step(event@, now_ms),
    {
        match event {
            Event::Message(Message::DccSend(offer)) => {
                if self.resume_pending {
                    nothing()
                } else {
                    let actions = and_then(nothing(), Action::Probe(offer.filename.clone()));
                    self.offers.push(offer);
                    self.phase = Phase::CheckingOffer;
                    assert(self.offers.deep_view() =~= old(self).offers.deep_view().push(offer@));
                    assert(actions.deep_view() =~= old(self)@.reply_step(event@, now_ms).1);
                    actions
                }
            },
            Event::Message(Message::BadOffer(_)) => self.fail(ErrorKind::Protocol),
            Event::Message(Message::DccAccept) => {
                if self.resume_pending {
                    self.dispatch(now_ms)
                } else {
                    nothing()
                }
            },
            Event::Message(Message::QueueFull) => {
                if self.cursor > 0 {
                    let actions = and_then(nothing(), self.previous_probe());
                    self.phase = Phase::WaitingForPrevious;
                    assert(actions.deep_view() =~= old(self)@.reply_step(event@, now_ms).1);
                    actions
                } else {
                    self.request_next(now_ms)
                }
            },
            Event::Message(Message::Duplicate) => {
                let remove = Action::Send(
                    Command::XdccRemove { bot: self.current_bot(), pack: self.current_pack() },
                );
                let cancel = Action::Send(Command::XdccCancel { bot: self.current_bot() });
                let first = and_then(and_then(nothing(), remove), cancel);
                let more = self.request_next(now_ms);
                assert(first.deep_view() =~= seq![remove@, cancel@]);
                followed_by(first, more)
            },
            Event::Idle => {
                if now_ms < self.deadline_ms {
                    nothing()
                } else if self.cursor > 0 {
                    let actions = and_then(nothing(), self.previous_probe());
                    self.phase = Phase::CheckingProgress;
                    assert(actions.deep_view() =~= old(self)@.reply_step(event@, now_ms).1);
                    actions
                } else {
                    self.reply_tick(now_ms)
                }
            },
            _ => nothing(),
        }
    }

    fn offer_checked(&mut self, found: Option<u64>, now_ms: u64) -> (actions: Vec<Action>)
        requires
            now_ms <= LATEST_MS,
            old(self)@.wf(),
            old(self)@.phase is CheckingOffer,
        ensures
            (final(self)@, actions.deep_view()) == old(self)@.offer_checked(found, now_ms),
    {
        assert(self.offers.deep_view()[self.cursor as int] == self.offers@[self.cursor as int]@);
        let partial = match found {
            Some(length) => length < self.offers[self.cursor].size_bytes,
            None => false,
        };
        assert(partial == is_partial(found, self@.current()));
        if partial {
            let offer = &self.offers[self.cursor];
            let resume = Action::Send(
                Command::DccResume {
                    bot: self.current_bot(),
                    filename: offer.filename.clone(),
                    port: offer.peer_port.clone(),
                    offset: found.unwrap(),
                },
            );
            let actions = and_then(nothing(), resume);
            self.phase = Phase::WaitingForReply;
            self.resume_pending = true;
            assert(actions.deep_view() =~= old(self)@.offer_checked(found, now_ms).1);
            actions
        } else {
            self.dispatch(now_ms)
        }
    }

    fn progress_checked(&mut self, found: Option<u64>, now_ms: u64) -> (actions: Vec<Action>)
        requires
            now_ms <= LATEST_MS,
            old(self)@.wf(),
            old(self)@.phase is CheckingProgress,
        ensures
            (final(self)@, actions.deep_view()) == old(self)@.progress_checked(found, now_ms),
    {
        let size = self.previous_size();
        let partial = match found {
            Some(length) => length < size,
            None => false,
        };
        if partial {
            self.phase = Phase::WaitingForReply;
            nothing()
        } else {
            self.reply_tick(now_ms)
        }
    }

    fn previous_checked(&mut self, found: Option<u64>, now_ms: u64) -> (actions: Vec<Action>)
        requires
            now_ms <= LATEST_MS,
            old(self)@.wf(),
            old(self)@.phase is WaitingForPrevious,
        ensures
            (final(self)@, actions.deep_view()) == old(self)@.previous_checked(found, now_ms),
    {
        let size = self.previous_size();
        let whole = match found {
            Some(length) => length >= size,
            None => false,
        };
        if whole {
            self.request_next(now_ms)
        } else {
            let actions = and_then(
                and_then(nothing(), Action::Sleep(POLL_MS)),
                self.previous_probe(),
            );
            assert(actions.deep_view() =~= old(self)@.previous_checked(found, now_ms).1);
            actions
        }
    }

    /// Tells the session of an event at time `now_ms`, and returns what it
    /// asks for in return, in the order in which it is to be done.
    pub fn step(&mut self, event: Event, now_ms: u64) -> (actions: Vec<Action>)
        requires
            old(self)@.wf(),
            now_ms <= LATEST_MS,
        ensures
            final(self)@.wf(),
            (final(self)@, actions.deep_view()) == old(self)@.step(event@, now_ms),
    {
        proof {
            lemma_step(self@, event@, now_ms);
        }
        match self.phase {
            Phase::ShuttingDown | Phase::Failed(_) => nothing(),
            Phase::LoggingIn => match event {
                Event::Disconnected => self.fail(ErrorKind::Network),
                _ => self.login_step(event, now_ms),
            },
            Phase::WaitingForReply => match event {
                Event::Disconnected => self.fail(ErrorKind::Network),
                _ => self.reply_step(event, now_ms),
            },
            Phase::CheckingOffer => match event {
                Event::Disconnected => self.fail(ErrorKind::Network),
                Event::FileLength(found) => self.offer_checked(found, now_ms),
                _ => nothing(),
            },
            Phase::CheckingProgress => match event {
                Event::Disconnected => self.fail(ErrorKind::Network),
                Event::FileLength(found) => self.progress_checked(found, now_ms),
                _ => nothing(),
            },
            Phase::WaitingForPrevious => match event {
                Event::Disconnected => self.fail(ErrorKind::Network),
                Event::FileLength(found) => self.previous_checked(found, now_ms),
                _ => nothing(),
            },
        }
    }

    /// Tells the session of a line that arrived at time `now_ms`: the line
    /// is classified, and the session takes the step of its message.
    pub fn on_line(&mut self, line: &str, now_ms: u64) -> (actions: Vec<Action>)
        requires
            old(self)@.wf(),
            now_ms <= LATEST_MS,
        ensures
            final(self)@.wf(),
            (final(self)@, actions.deep_view()) == old(self)@.step(
                EventView::Message(
                    message_of(line@, mode_matches(line@), dcc_send_groups(line@)),
                ),
                now_ms,
            ),
    {
        let message = classify(line);
        self.step(Event::Message(message), now_ms)
    }
}

} // verus!
