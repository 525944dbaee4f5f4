//! The session as a state machine over mathematical values: what each event
//! does to the state, which actions it calls for, and what holds of every
//! run.

use crate::command::{nickname_text, CommandView};
use crate::event::{ActionView, ErrorKind, EventView, StatusView};
use crate::message::{MessageView, OfferView};
use crate::request::RequestView;
use vstd::prelude::*;

verus! {

/// The time between two attempts to join, in milliseconds.
pub const LOGIN_TICK_MS: u64 = 500;

/// The time a bot is given to reply before the silence is counted, in
/// milliseconds.
pub const REPLY_TICK_MS: u64 = 3000;

/// The time between two looks at the previous file, in milliseconds.
pub const POLL_MS: u64 = 1000;

/// The number of silent ticks that a session bears; one more ends it.
pub const TIMEOUT_THRESHOLD: u64 = 5;

/// The latest time, in milliseconds, that a session can be told: later ones
/// leave no room for a deadline.
pub const LATEST_MS: u64 = 0xffff_ffff_ffff_f447;

/// What a session is doing.
#[derive(Clone, Copy, Debug, PartialEq, Eq, Structural)]
pub enum Phase {
    /// Registered with the server; waiting for the channel to be joined.
    LoggingIn,
    /// A request or a resume went out; waiting for the bot's reply.
    WaitingForReply,
    /// An offer came in; waiting to learn how much of its file is on disk.
    CheckingOffer,
    /// The bot is silent; waiting to learn whether the previous file still
    /// grows.
    CheckingProgress,
    /// The bot's queue is full; waiting for the previous file to be whole.
    WaitingForPrevious,
    /// Every pack went to a worker and the server was left.
    ShuttingDown,
    /// The session ended with an error.
    Failed(ErrorKind),
}

/// The state of a session.
pub struct SessionView {
    /// What was asked for.
    pub request: RequestView,
    pub phase: Phase,
    /// The channel is joined.
    pub has_joined: bool,
    /// A resume went out and its acceptance has not come in.
    pub resume_pending: bool,
    /// The index of the pack that is being asked for. Packs before it went
    /// to a worker.
    pub cursor: nat,
    /// The offers received, `offers[i]` for pack `i`.
    pub offers: Seq<OfferView>,
    /// The end of the current tick, in milliseconds.
    pub deadline: u64,
    /// The silent ticks counted so far.
    pub timeouts: nat,
}

/// An event, and the time at which the session is told it.
pub struct Input {
    pub event: EventView,
    pub now: u64,
}

/// What leaving the server takes, in order.
pub open spec fn shutdown_actions() -> Seq<ActionView> {
    seq![
        ActionView::Send(CommandView::Quit),
        ActionView::Close,
        ActionView::JoinWorkers,
        ActionView::Report(StatusView::Success),
    ]
}

/// Whether a file of the given length, if there is one, is a part of what
/// `offer` declares.
pub open spec fn is_partial(found: Option<u64>, offer: OfferView) -> bool {
    found matches Some(length) && length < offer.size_bytes
}

/// Whether a file of the given length, if there is one, is all of what
/// `offer` declares.
pub open spec fn is_whole(found: Option<u64>, offer: OfferView) -> bool {
    found matches Some(length) && length >= offer.size_bytes
}

/// The session that registers under the nickname with `suffix` at time
/// `now`, and what it sends to do so.
pub open spec fn started(request: RequestView, suffix: u16, now: u64) -> (
    SessionView,
    Seq<ActionView>,
) {
    let name = nickname_text(request.nickname, suffix);
    (
        SessionView {
            request: request,
            phase: Phase::LoggingIn,
            has_joined: false,
            resume_pending: false,
            cursor: 0,
            offers: Seq::empty(),
            deadline: (now + LOGIN_TICK_MS) as u64,
            timeouts: 0,
        },
        seq![
            ActionView::Report(StatusView::Connecting),
            ActionView::Send(CommandView::Nick(name)),
            ActionView::Send(CommandView::User(name)),
        ],
    )
}

impl SessionView {
    /// The invariant of a session.
    pub open spec fn wf(self) -> bool {
        let packs = self.request.packages.len();
        &&& self.request.is_valid()
        &&& self.cursor <= packs
        &&& self.timeouts <= TIMEOUT_THRESHOLD
        &&& self.cursor <= self.offers.len() <= self.cursor + 1
        &&& self.resume_pending ==> self.cursor < packs && self.offers.len() == self.cursor + 1
        &&& match self.phase {
            Phase::LoggingIn => !self.has_joined && self.cursor == 0 && self.offers.len() == 0,
            Phase::WaitingForReply => self.has_joined && self.cursor < packs && (
            !self.resume_pending ==> self.offers.len() == self.cursor),
            Phase::CheckingOffer => self.has_joined && self.cursor < packs && !self.resume_pending
                && self.offers.len() == self.cursor + 1,
            Phase::CheckingProgress => self.has_joined && 0 < self.cursor < packs && (
            !self.resume_pending ==> self.offers.len() == self.cursor),
            Phase::WaitingForPrevious => self.has_joined && 0 < self.cursor < packs && (
            !self.resume_pending ==> self.offers.len() == self.cursor),
            Phase::ShuttingDown => self.has_joined && self.cursor == packs && self.offers.len()
                == self.cursor,
            Phase::Failed(_) => true,
        }
    }

    /// The bot queue is full and the previous file is awaited.
    pub open spec fn wait_for_previous(self) -> bool {
        self.phase is WaitingForPrevious
    }

    /// The bot of the current pack.
    pub open spec fn bot(self) -> Seq<char> {
        self.request.bot[self.cursor as int]
    }

    /// The number of the current pack.
    pub open spec fn pack(self) -> Seq<char> {
        self.request.packages[self.cursor as int]
    }

    /// The offer of the current pack.
    pub open spec fn current(self) -> OfferView {
        self.offers[self.cursor as int]
    }

    /// The offer of the pack before the current one.
    pub open spec fn previous(self) -> OfferView {
        self.offers[self.cursor - 1]
    }

    /// Nothing changes and nothing is to be done.
    pub open spec fn stay(self) -> (SessionView, Seq<ActionView>) {
        (self, Seq::empty())
    }

    /// The session ends with an error.
    pub open spec fn fail(self, kind: ErrorKind) -> (SessionView, Seq<ActionView>) {
        (SessionView { phase: Phase::Failed(kind), ..self }, Seq::empty())
    }

    /// Turns to the current pack: asks for it, unless a resume is pending,
    /// and gives the bot a fresh tick and a fresh count; or, with no pack
    /// left, leaves the server.
    pub open spec fn request_next(self, now: u64) -> (SessionView, Seq<ActionView>) {
        if self.cursor >= self.request.packages.len() {
            (SessionView { phase: Phase::ShuttingDown, ..self }, shutdown_actions())
        } else {
            (
                SessionView {
                    phase: Phase::WaitingForReply,
                    deadline: (now + REPLY_TICK_MS) as u64,
                    timeouts: 0,
                    ..self
                },
                if self.resume_pending {
                    Seq::empty()
                } else {
                    seq![
                        ActionView::Send(CommandView::XdccSend { bot: self.bot(), pack: self.pack() }),
                    ]
                },
            )
        }
    }

    /// Hands the current offer to a worker, moves the cursor past it, and
    /// turns to the next pack.
    pub open spec fn dispatch(self, now: u64) -> (SessionView, Seq<ActionView>) {
        let offer = self.current();
        let moved = SessionView { cursor: self.cursor + 1, resume_pending: false, ..self };
        let (next, more) = moved.request_next(now);
        (
            next,
            seq![
                ActionView::Report(StatusView::NowDownloading(offer.filename)),
                ActionView::Spawn(offer),
            ] + more,
        )
    }

    /// A tick of the login passed in silence: one more than the threshold
    /// ends the session; else the channel is asked for again.
    pub open spec fn login_tick(self, now: u64) -> (SessionView, Seq<ActionView>) {
        if self.timeouts + 1 > TIMEOUT_THRESHOLD {
            self.fail(ErrorKind::Timeout)
        } else {
            (
                SessionView {
                    deadline: (now + LOGIN_TICK_MS) as u64,
                    timeouts: self.timeouts + 1,
                    ..self
                },
                seq![
                    ActionView::Report(StatusView::TimeoutWarning),
                    ActionView::Send(CommandView::Join(self.request.channel)),
                ],
            )
        }
    }

    /// A tick of waiting for the bot passed in silence, with no transfer
    /// under way: one more than the threshold ends the session.
    pub open spec fn reply_tick(self, now: u64) -> (SessionView, Seq<ActionView>) {
        if self.timeouts + 1 > TIMEOUT_THRESHOLD {
            self.fail(ErrorKind::Timeout)
        } else {
            (
                SessionView {
                    phase: Phase::WaitingForReply,
                    deadline: (now + REPLY_TICK_MS) as u64,
                    timeouts: self.timeouts + 1,
                    ..self
                },
                seq![ActionView::Report(StatusView::TimeoutWarning)],
            )
        }
    }

    /// An event while logging in.
    pub open spec fn login_step(self, event: EventView, now: u64) -> (
        SessionView,
        Seq<ActionView>,
    ) {
        match event {
            EventView::Message(MessageView::Ping(token)) => (
                self,
                seq![
                    ActionView::Send(CommandView::Pong(token)),
                    ActionView::Send(CommandView::Join(self.request.channel)),
                ],
            ),
            EventView::Message(MessageView::Mode) => (
                self,
                seq![ActionView::Send(CommandView::Join(self.request.channel))],
            ),
            EventView::Message(MessageView::Join) => {
                let joined = SessionView { has_joined: true, ..self };
                let (next, more) = joined.request_next(now);
                (next, seq![ActionView::Report(StatusView::Connected)] + more)
            },
            EventView::Idle => if now >= self.deadline {
                self.login_tick(now)
            } else {
                self.stay()
            },
            _ => self.stay(),
        }
    }

    /// An event while waiting for the bot's reply.
    pub open spec fn reply_step(self, event: EventView, now: u64) -> (
        SessionView,
        Seq<ActionView>,
    ) {
        match event {
            EventView::Message(MessageView::DccSend(offer)) => if self.resume_pending {
                self.stay()
            } else {
                (
                    SessionView {
                        phase: Phase::CheckingOffer,
                        offers: self.offers.push(offer),
                        ..self
                    },
                    seq![ActionView::Probe(offer.filename)],
                )
            },
            EventView::Message(MessageView::BadOffer(_)) => self.fail(ErrorKind::Protocol),
            EventView::Message(MessageView::DccAccept) => if self.resume_pending {
                self.dispatch(now)
            } else {
                self.stay()
            },
            EventView::Message(MessageView::QueueFull) => if self.cursor > 0 {
                (
                    SessionView { phase: Phase::WaitingForPrevious, ..self },
                    seq![ActionView::Probe(self.previous().filename)],
                )
            } else {
                self.request_next(now)
            },
            EventView::Message(MessageView::Duplicate) => {
                let (next, more) = self.request_next(now);
                (
                    next,
                    seq![
                        ActionView::Send(
                            CommandView::XdccRemove { bot: self.bot(), pack: self.pack() },
                        ),
                        ActionView::Send(CommandView::XdccCancel { bot: self.bot() }),
                    ] + more,
                )
            },
            EventView::Idle => if now < self.deadline {
                self.stay()
            } else if self.cursor > 0 {
                (
                    SessionView { phase: Phase::CheckingProgress, ..self },
                    seq![ActionView::Probe(self.previous().filename)],
                )
            } else {
                self.reply_tick(now)
            },
            _ => self.stay(),
        }
    }

    /// The length of the offered file's part on disk is known: a part
    /// shorter than the offer is resumed, anything else goes to a worker as
    /// it is.
    pub open spec fn offer_checked(self, found: Option<u64>, now: u64) -> (
        SessionView,
        Seq<ActionView>,
    ) {
        if is_partial(found, self.current()) {
            (
                SessionView { phase: Phase::WaitingForReply, resume_pending: true, ..self },
                seq![
                    ActionView::Send(
                        CommandView::DccResume {
                            bot: self.bot(),
                            filename: self.current().filename,
                            port: self.current().peer_port,
                            offset: found->0,
                        },
                    ),
                ],
            )
        } else {
            self.dispatch(now)
        }
    }

    /// The length of the previous file is known, after a silent tick: while
    /// that file still grows the silence is not counted.
    pub open spec fn progress_checked(self, found: Option<u64>, now: u64) -> (
        SessionView,
        Seq<ActionView>,
    ) {
        if is_partial(found, self.previous()) {
            (SessionView { phase: Phase::WaitingForReply, ..self }, Seq::empty())
        } else {
            self.reply_tick(now)
        }
    }

    /// The length of the previous file is known, with the bot's queue full:
    /// once the file is whole the pack is asked for again; until then the
    /// file is looked at once per poll.
    pub open spec fn previous_checked(self, found: Option<u64>, now: u64) -> (
        SessionView,
        Seq<ActionView>,
    ) {
        if is_whole(found, self.previous()) {
            self.request_next(now)
        } else {
            (self, seq![ActionView::Sleep(POLL_MS), ActionView::Probe(self.previous().filename)])
        }
    }

    /// What one event does: the state after it, and the actions it calls
    /// for. A session that is over takes no notice of anything; a lost
    /// connection ends any other; an event that the phase does not wait for
    /// changes nothing.
    pub open spec fn step(self, event: EventView, now: u64) -> (SessionView, Seq<ActionView>) {
        match self.phase {
            Phase::ShuttingDown | Phase::Failed(_) => self.stay(),
            _ => match event {
                EventView::Disconnected => self.fail(ErrorKind::Network),
                _ => match self.phase {
                    Phase::LoggingIn => self.login_step(event, now),
                    Phase::WaitingForReply => self.reply_step(event, now),
                    Phase::CheckingOffer => match event {
                        EventView::FileLength(found) => self.offer_checked(found, now),
                        _ => self.stay(),
                    },
                    Phase::CheckingProgress => match event {
                        EventView::FileLength(found) => self.progress_checked(found, now),
                        _ => self.stay(),
                    },
                    Phase::WaitingForPrevious => match event {
                        EventView::FileLength(found) => self.previous_checked(found, now),
                        _ => self.stay(),
                    },
                    _ => self.stay(),
                },
            },
        }
    }

    /// What a run of events does, one step after the other: the state at
    /// its end, and all the actions it called for, in order.
    pub open spec fn run(self, inputs: Seq<Input>) -> (SessionView, Seq<ActionView>)
        decreases inputs.len(),
    {
        if inputs.len() == 0 {
            (self, Seq::empty())
        } else {
            let (before, earlier) = self.run(inputs.drop_last());
            let (after, last) = before.step(inputs.last().event, inputs.last().now);
            (after, earlier + last)
        }
    }

    /// Whether this event is the acceptance that a pending resume waits for.
    pub open spec fn takes_accept(self, event: EventView) -> bool {
        &&& self.phase is WaitingForReply
        &&& self.resume_pending
        &&& event == EventView::Message(MessageView::DccAccept)
    }

    /// The number of acceptances that a run takes.
    pub open spec fn accepts_taken(self, inputs: Seq<Input>) -> nat
        decreases inputs.len(),
    {
        if inputs.len() == 0 {
            0
        } else {
            let (before, _) = self.run(inputs.drop_last());
            self.accepts_taken(inputs.drop_last()) + if before.takes_accept(inputs.last().event) {
                1nat
            } else {
                0nat
            }
        }
    }
}

/// The offers that `actions` hand to workers, in order.
pub open spec fn spawned(actions: Seq<ActionView>) -> Seq<OfferView>
    decreases actions.len(),
{
    if actions.len() == 0 {
        Seq::empty()
    } else {
        match actions.last() {
            ActionView::Spawn(offer) => spawned(actions.drop_last()).push(offer),
            _ => spawned(actions.drop_last()),
        }
    }
}

/// The number of resumes that `actions` send.
pub open spec fn resumes_sent(actions: Seq<ActionView>) -> nat
    decreases actions.len(),
{
    if actions.len() == 0 {
        0
    } else {
        resumes_sent(actions.drop_last()) + match actions.last() {
            ActionView::Send(CommandView::DccResume { .. }) => 1nat,
            _ => 0nat,
        }
    }
}

/// One as a number where `b` holds, zero where it does not.
pub open spec fn count(b: bool) -> nat {
    if b {
        1
    } else {
        0
    }
}

/// What `spawned` and `resumes_sent` make of one more action.
pub proof fn lemma_counts_push(actions: Seq<ActionView>, action: ActionView)
    ensures
        spawned(actions.push(action)) == match action {
            ActionView::Spawn(offer) => spawned(actions).push(offer),
            _ => spawned(actions),
        },
        resumes_sent(actions.push(action)) == resumes_sent(actions) + match action {
            ActionView::Send(CommandView::DccResume { .. }) => 1nat,
            _ => 0nat,
        },
{
    assert(actions.push(action).drop_last() =~= actions);
}

/// What `spawned` and `resumes_sent` make of one run of actions after
/// another.
pub proof fn lemma_counts_concat(first: Seq<ActionView>, second: Seq<ActionView>)
    ensures
        spawned(first + second) == spawned(first) + spawned(second),
        resumes_sent(first + second) == resumes_sent(first) + resumes_sent(second),
    decreases second.len(),
{
    if second.len() == 0 {
        assert(first + second =~= first);
        assert(spawned(first) + spawned(second) =~= spawned(first));
    } else {
        let head = second.drop_last();
        lemma_counts_concat(first, head);
        assert((first + second).drop_last() =~= first + head);
        assert((first + second).last() == second.last());
        match second.last() {
            ActionView::Spawn(offer) => {
                assert((spawned(first) + spawned(head)).push(offer) =~= spawned(first) + spawned(
                    head,
                ).push(offer));
            },
            _ => {},
        }
    }
}

/// `request_next` hands nothing to a worker and sends no resume; it leaves
/// the server exactly when no pack is left.
pub proof fn lemma_request_next(s: SessionView, now: u64)
    ensures
        ({
            let (t, a) = s.request_next(now);
            &&& spawned(a) == Seq::<OfferView>::empty()
            &&& resumes_sent(a) == 0
            &&& t.cursor == s.cursor
            &&& t.offers == s.offers
            &&& t.request == s.request
            &&& t.resume_pending == s.resume_pending
            &&& t.has_joined == s.has_joined
            &&& if s.cursor >= s.request.packages.len() {
                t.phase is ShuttingDown && a == shutdown_actions()
            } else {
                t.phase is WaitingForReply && t.timeouts == 0
            }
        }),
{
    let (t, a) = s.request_next(now);
    let none = Seq::<ActionView>::empty();
    if s.cursor >= s.request.packages.len() {
        let a1 = none.push(ActionView::Send(CommandView::Quit));
        let a2 = a1.push(ActionView::Close);
        let a3 = a2.push(ActionView::JoinWorkers);
        lemma_counts_push(none, ActionView::Send(CommandView::Quit));
        lemma_counts_push(a1, ActionView::Close);
        lemma_counts_push(a2, ActionView::JoinWorkers);
        lemma_counts_push(a3, ActionView::Report(StatusView::Success));
        assert(a =~= a3.push(ActionView::Report(StatusView::Success)));
    } else if !s.resume_pending {
        lemma_counts_push(
            none,
            ActionView::Send(CommandView::XdccSend { bot: s.bot(), pack: s.pack() }),
        );
        assert(a =~= none.push(
            ActionView::Send(CommandView::XdccSend { bot: s.bot(), pack: s.pack() }),
        ));
    }
}

/// `dispatch` hands the current offer, and nothing else, to a worker.
pub proof fn lemma_dispatch(s: SessionView, now: u64)
    ensures
        ({
            let (t, a) = s.dispatch(now);
            &&& spawned(a) == seq![s.current()]
            &&& resumes_sent(a) == 0
            &&& t.cursor == s.cursor + 1
            &&& t.offers == s.offers
            &&& t.request == s.request
            &&& !t.resume_pending
            &&& t.has_joined == s.has_joined
            &&& if s.cursor + 1 >= s.request.packages.len() {
                &&& t.phase is ShuttingDown
                &&& a.len() >= 4
                &&& a.subrange(a.len() - 4, a.len() as int) == shutdown_actions()
            } else {
                t.phase is WaitingForReply && t.timeouts == 0
            }
        }),
{
    let offer = s.current();
    let moved = SessionView { cursor: s.cursor + 1, resume_pending: false, ..s };
    let (next, more) = moved.request_next(now);
    lemma_request_next(moved, now);
    let none = Seq::<ActionView>::empty();
    let report = ActionView::Report(StatusView::NowDownloading(offer.filename));
    let a1 = none.push(report);
    let a2 = a1.push(ActionView::Spawn(offer));
    lemma_counts_push(none, report);
    lemma_counts_push(a1, ActionView::Spawn(offer));
    lemma_counts_concat(a2, more);
    let (t, a) = s.dispatch(now);
    assert(a =~= a2 + more);
    assert(spawned(a2) =~= seq![offer]);
    assert(spawned(a) =~= seq![offer]);
    if s.cursor + 1 >= s.request.packages.len() {
        assert(a.subrange(a.len() - 4, a.len() as int) =~= more);
    }
}

/// What one step keeps and counts, whatever the event. The state stays
/// well-formed and the request and the offers of the packs behind the
/// cursor are kept. The cursor moves by the number of offers handed to
/// workers, and those are the offers that it moves past. A resume goes out
/// only with none pending, and a pending one ends only with its acceptance.
/// The server is left only with every pack handed out, and by the shutdown
/// actions.
pub proof fn lemma_step(s: SessionView, event: EventView, now: u64)
    requires
        s.wf(),
    ensures
        ({
            let (t, a) = s.step(event, now);
            &&& t.wf()
            &&& t.request == s.request
            &&& s.cursor <= t.cursor <= t.offers.len()
            &&& t.offers.take(s.cursor as int) == s.offers.take(s.cursor as int)
            &&& spawned(a) == t.offers.subrange(s.cursor as int, t.cursor as int)
            &&& count(s.resume_pending) + resumes_sent(a) == count(t.resume_pending) + count(
                s.takes_accept(event),
            )
            &&& s.has_joined ==> t.has_joined
            &&& (s.phase is ShuttingDown || s.phase is Failed) ==> t == s && a.len() == 0
            &&& t.phase is ShuttingDown && !(s.phase is ShuttingDown) ==> {
                &&& t.cursor == t.request.packages.len()
                &&& a.len() >= 4
                &&& a.subrange(a.len() - 4, a.len() as int) == shutdown_actions()
            }
        }),
{
    let (t, a) = s.step(event, now);
    let none = Seq::<ActionView>::empty();
    lemma_request_next(s, now);
    lemma_request_next(SessionView { has_joined: true, ..s }, now);
    lemma_dispatch(s, now);
    assert(s.offers.subrange(s.cursor as int, s.cursor as int) =~= Seq::<OfferView>::empty());
    match s.phase {
        Phase::ShuttingDown | Phase::Failed(_) => {},
        _ => match event {
            EventView::Disconnected => {},
            _ => match s.phase {
                Phase::LoggingIn => {
                    let join = ActionView::Send(CommandView::Join(s.request.channel));
                    match event {
                        EventView::Message(MessageView::Ping(token)) => {
                            let pong = ActionView::Send(CommandView::Pong(token));
                            lemma_counts_push(none, pong);
                            lemma_counts_push(none.push(pong), join);
                            assert(a =~= none.push(pong).push(join));
                        },
                        EventView::Message(MessageView::Mode) => {
                            lemma_counts_push(none, join);
                            assert(a =~= none.push(join));
                        },
                        EventView::Message(MessageView::Join) => {
                            let joined = SessionView { has_joined: true, ..s };
                            let (next, more) = joined.request_next(now);
                            let report = ActionView::Report(StatusView::Connected);
                            lemma_counts_push(none, report);
                            lemma_counts_concat(none.push(report), more);
                            assert(a =~= none.push(report) + more);
                            assert(spawned(none.push(report)) + spawned(more) =~= Seq::<OfferView>::empty());
                        },
                        EventView::Idle => {
                            if now >= s.deadline && s.timeouts + 1 <= TIMEOUT_THRESHOLD {
                                let warn = ActionView::Report(StatusView::TimeoutWarning);
                                lemma_counts_push(none, warn);
                                lemma_counts_push(none.push(warn), join);
                                assert(a =~= none.push(warn).push(join));
                            }
                        },
                        _ => {},
                    }
                },
                Phase::WaitingForReply => {
                    match event {
                        EventView::Message(MessageView::DccSend(offer)) => {
                            if !s.resume_pending {
                                let probe = ActionView::Probe(offer.filename);
                                lemma_counts_push(none, probe);
                                assert(a =~= none.push(probe));
                                assert(t.offers.take(s.cursor as int) =~= s.offers.take(
                                    s.cursor as int,
                                ));
                                assert(t.offers.subrange(s.cursor as int, t.cursor as int)
                                    =~= Seq::<OfferView>::empty());
                            }
                        },
                        EventView::Message(MessageView::DccAccept) => {
                            if s.resume_pending {
                                assert(t.offers.subrange(s.cursor as int, t.cursor as int)
                                    =~= seq![s.current()]);
                            }
                        },
                        EventView::Message(MessageView::QueueFull) => {
                            if s.cursor > 0 {
                                let probe = ActionView::Probe(s.previous().filename);
                                lemma_counts_push(none, probe);
                                assert(a =~= none.push(probe));
                            }
                        },
                        EventView::Message(MessageView::Duplicate) => {
                            let (next, more) = s.request_next(now);
                            let remove = ActionView::Send(
                                CommandView::XdccRemove { bot: s.bot(), pack: s.pack() },
                            );
                            let cancel = ActionView::Send(CommandView::XdccCancel { bot: s.bot() });
                            lemma_counts_push(none, remove);
                            lemma_counts_push(none.push(remove), cancel);
                            lemma_counts_concat(none.push(remove).push(cancel), more);
                            assert(a =~= none.push(remove).push(cancel) + more);
                            assert(spawned(none.push(remove).push(cancel)) + spawned(more)
                                =~= Seq::<OfferView>::empty());
                        },
                        EventView::Idle => {
                            if now >= s.deadline {
                                if s.cursor > 0 {
                                    let probe = ActionView::Probe(s.previous().filename);
                                    lemma_counts_push(none, probe);
                                    assert(a =~= none.push(probe));
                                } else if s.timeouts + 1 <= TIMEOUT_THRESHOLD {
                                    let warn = ActionView::Report(StatusView::TimeoutWarning);
                                    lemma_counts_push(none, warn);
                                    assert(a =~= none.push(warn));
                                }
                            }
                        },
                        _ => {},
                    }
                },
                Phase::CheckingOffer => {
                    match event {
                        EventView::FileLength(found) => {
                            if is_partial(found, s.current()) {
                                let resume = ActionView::Send(
                                    CommandView::DccResume {
                                        bot: s.bot(),
                                        filename: s.current().filename,
                                        port: s.current().peer_port,
                                        offset: found->0,
                                    },
                                );
                                lemma_counts_push(none, resume);
                                assert(a =~= none.push(resume));
                            } else {
                                assert(t.offers.subrange(s.cursor as int, t.cursor as int)
                                    =~= seq![s.current()]);
                            }
                        },
                        _ => {},
                    }
                },
                Phase::CheckingProgress => {
                    match event {
                        EventView::FileLength(found) => {
                            if !is_partial(found, s.previous()) && s.timeouts + 1
                                <= TIMEOUT_THRESHOLD {
                                let warn = ActionView::Report(StatusView::TimeoutWarning);
                                lemma_counts_push(none, warn);
                                assert(a =~= none.push(warn));
                            }
                        },
                        _ => {},
                    }
                },
                Phase::WaitingForPrevious => {
                    match event {
                        EventView::FileLength(found) => {
                            if !is_whole(found, s.previous()) {
                                let sleep = ActionView::Sleep(POLL_MS);
                                let probe = ActionView::Probe(s.previous().filename);
                                lemma_counts_push(none, sleep);
                                lemma_counts_push(none.push(sleep), probe);
                                assert(a =~= none.push(sleep).push(probe));
                            }
                        },
                        _ => {},
                    }
                },
                _ => {},
            },
        },
    }
}


/// What a run keeps and counts: the facts of `lemma_step`, carried from
/// step to step.
pub proof fn lemma_run(s: SessionView, inputs: Seq<Input>)
    requires
        s.wf(),
    ensures
        ({
            let (t, a) = s.run(inputs);
            &&& t.wf()
            &&& t.request == s.request
            &&& s.cursor <= t.cursor <= t.offers.len()
            &&& t.offers.take(s.cursor as int) == s.offers.take(s.cursor as int)
            &&& spawned(a) == t.offers.subrange(s.cursor as int, t.cursor as int)
            &&& count(s.resume_pending) + resumes_sent(a) == count(t.resume_pending)
                + s.accepts_taken(inputs)
            &&& s.has_joined ==> t.has_joined
            &&& t.phase is ShuttingDown && !(s.phase is ShuttingDown) ==> {
                &&& t.cursor == t.request.packages.len()
                &&& a.len() >= 4
                &&& a.subrange(a.len() - 4, a.len() as int) == shutdown_actions()
            }
        }),
    decreases inputs.len(),
{
    if inputs.len() == 0 {
        assert(s.offers.subrange(s.cursor as int, s.cursor as int) =~= Seq::<OfferView>::empty());
    } else {
        let (m, a1) = s.run(inputs.drop_last());
        let (t, a2) = m.step(inputs.last().event, inputs.last().now);
        lemma_run(s, inputs.drop_last());
        lemma_step(m, inputs.last().event, inputs.last().now);
        lemma_counts_concat(a1, a2);
        assert(t.offers.take(s.cursor as int) =~= t.offers.take(m.cursor as int).take(
            s.cursor as int,
        ));
        assert(m.offers.take(s.cursor as int) =~= m.offers.take(m.cursor as int).take(
            s.cursor as int,
        ));
        assert(m.offers.subrange(s.cursor as int, m.cursor as int) =~= t.offers.take(
            m.cursor as int,
        ).subrange(s.cursor as int, m.cursor as int)) by {
            assert(m.offers.subrange(s.cursor as int, m.cursor as int) =~= m.offers.take(
                m.cursor as int,
            ).subrange(s.cursor as int, m.cursor as int));
        }
        assert(t.offers.subrange(s.cursor as int, t.cursor as int) =~= t.offers.take(
            m.cursor as int,
        ).subrange(s.cursor as int, m.cursor as int) + t.offers.subrange(
            m.cursor as int,
            t.cursor as int,
        ));
        if t.phase is ShuttingDown && !(s.phase is ShuttingDown) {
            let a = a1 + a2;
            if m.phase is ShuttingDown {
                assert(a =~= a1);
            } else {
                assert(a.subrange(a.len() - 4, a.len() as int) =~= a2.subrange(
                    a2.len() - 4,
                    a2.len() as int,
                ));
            }
        }
    }
}

/// The cursor never passes an offer that no worker got: after any run of a
/// session from its start, the offers handed to workers are the offers
/// behind the cursor, one for each pack and in the order of the packs.
pub proof fn lemma_cursor_follows_workers(
    request: RequestView,
    suffix: u16,
    now: u64,
    inputs: Seq<Input>,
)
    requires
        request.is_valid(),
    ensures
        ({
            let (s, first) = started(request, suffix, now);
            let (t, a) = s.run(inputs);
            &&& t.cursor <= t.offers.len()
            &&& spawned(first + a) == t.offers.take(t.cursor as int)
            &&& spawned(first + a).len() == t.cursor
        }),
{
    let (s, first) = started(request, suffix, now);
    let (t, a) = s.run(inputs);
    lemma_started(request, suffix, now);
    lemma_run(s, inputs);
    lemma_counts_concat(first, a);
    assert(spawned(first) + spawned(a) =~= spawned(a));
    assert(t.offers.subrange(0, t.cursor as int) =~= t.offers.take(t.cursor as int));
}

/// A pending resume is exactly one resume sent and not yet accepted: after
/// any run of a session from its start, the resumes sent are one more than
/// the acceptances taken while a resume is pending, and as many while none
/// is.
pub proof fn lemma_one_resume_outstanding(
    request: RequestView,
    suffix: u16,
    now: u64,
    inputs: Seq<Input>,
)
    requires
        request.is_valid(),
    ensures
        ({
            let (s, first) = started(request, suffix, now);
            let (t, a) = s.run(inputs);
            resumes_sent(first + a) == s.accepts_taken(inputs) + count(t.resume_pending)
        }),
{
    let (s, first) = started(request, suffix, now);
    let (t, a) = s.run(inputs);
    lemma_started(request, suffix, now);
    lemma_run(s, inputs);
    lemma_counts_concat(first, a);
}

/// A session that has shut down asked for the connection to be closed and
/// for every worker to be awaited, after the last thing it sent; by then a
/// worker had been started for every pack.
pub proof fn lemma_shutdown_closes_and_joins(
    request: RequestView,
    suffix: u16,
    now: u64,
    inputs: Seq<Input>,
)
    requires
        request.is_valid(),
    ensures
        ({
            let (s, first) = started(request, suffix, now);
            let (t, a) = s.run(inputs);
            t.phase is ShuttingDown ==> {
                &&& spawned(first + a).len() == request.packages.len()
                &&& a.len() >= 4
                &&& a.subrange(a.len() - 4, a.len() as int) == shutdown_actions()
            }
        }),
{
    let (s, first) = started(request, suffix, now);
    lemma_started(request, suffix, now);
    lemma_run(s, inputs);
    lemma_cursor_follows_workers(request, suffix, now, inputs);
}

/// A session starts well-formed, having handed out and resumed nothing.
pub proof fn lemma_started(request: RequestView, suffix: u16, now: u64)
    requires
        request.is_valid(),
    ensures
        started(request, suffix, now).0.wf(),
        spawned(started(request, suffix, now).1) == Seq::<OfferView>::empty(),
        resumes_sent(started(request, suffix, now).1) == 0,
{
    let none = Seq::<ActionView>::empty();
    let name = nickname_text(request.nickname, suffix);
    let a1 = none.push(ActionView::Report(StatusView::Connecting));
    let a2 = a1.push(ActionView::Send(CommandView::Nick(name)));
    lemma_counts_push(none, ActionView::Report(StatusView::Connecting));
    lemma_counts_push(a1, ActionView::Send(CommandView::Nick(name)));
    lemma_counts_push(a2, ActionView::Send(CommandView::User(name)));
    assert(started(request, suffix, now).1 =~= a2.push(ActionView::Send(CommandView::User(name))));
}

} // verus!
