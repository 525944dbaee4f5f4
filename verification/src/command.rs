//! Outgoing IRC commands, each as the exact text that goes on the wire.

use crate::decimal::{numeral, render};
use rand::Rng;
use vstd::prelude::*;
use vstd::string::StringExecFns;

verus! {

/// The nickname of a session: the wanted prefix, then a number.
pub open spec fn nickname_text(prefix: Seq<char>, suffix: u16) -> Seq<char> {
    prefix + numeral(suffix as nat)
}

/// `NICK <nick>`.
pub open spec fn nick_text(nick: Seq<char>) -> Seq<char> {
    "NICK "@ + nick + "\r\n"@
}

/// `USER <nick> 0 * <nick>`.
pub open spec fn user_text(nick: Seq<char>) -> Seq<char> {
    "USER "@ + nick + " 0 * "@ + nick + "\r\n"@
}

/// `JOIN #<channel>`.
pub open spec fn join_text(channel: Seq<char>) -> Seq<char> {
    "JOIN #"@ + channel + "\r\n"@
}

/// The answer to a `PING :<token>`: the same line with `PONG` for `PING`.
/// The token ends the line, so the answer ends as the line did.
pub open spec fn pong_text(token: Seq<char>) -> Seq<char> {
    "PONG :"@ + token
}

/// Asks `bot` for a pack.
pub open spec fn xdcc_send_text(bot: Seq<char>, pack: Seq<char>) -> Seq<char> {
    "PRIVMSG "@ + bot + " :xdcc send #"@ + pack + "\r\n"@
}

/// Takes a pack out of the queue of `bot`.
pub open spec fn xdcc_remove_text(bot: Seq<char>, pack: Seq<char>) -> Seq<char> {
    "PRIVMSG "@ + bot + " :xdcc remove #"@ + pack + "\r\n"@
}

/// Cancels what `bot` is sending.
pub open spec fn xdcc_cancel_text(bot: Seq<char>) -> Seq<char> {
    "PRIVMSG "@ + bot + " :\x01XDCC CANCEL\x01\r\n"@
}

/// Asks `bot` to restart the transfer of a file at `offset`.
pub open spec fn dcc_resume_text(
    bot: Seq<char>,
    filename: Seq<char>,
    port: Seq<char>,
    offset: u64,
) -> Seq<char> {
    "PRIVMSG "@ + bot + " :\x01DCC RESUME \""@ + filename + "\" "@ + port + " "@ + numeral(
        offset as nat,
    ) + "\x01\r\n"@
}

/// `QUIT`.
pub open spec fn quit_text() -> Seq<char> {
    "QUIT\r\n"@
}

/// A command for the server or, through it, for a bot.
#[derive(Debug, PartialEq, Eq)]
pub enum Command {
    /// Registers the nickname.
    Nick(String),
    /// Registers the user, under the nickname.
    User(String),
    /// Joins the channel, named without its `#`.
    Join(String),
    /// Answers a `PING` that carried this token.
    Pong(String),
    /// Asks a bot for a pack.
    XdccSend { bot: String, pack: String },
    /// Takes a pack out of a bot's queue.
    XdccRemove { bot: String, pack: String },
    /// Cancels what a bot is sending.
    XdccCancel { bot: String },
    /// Asks a bot to restart the transfer of a file at an offset.
    DccResume { bot: String, filename: String, port: String, offset: u64 },
    /// Leaves the server.
    Quit,
}

/// What a `Command` holds, as mathematical values.
pub enum CommandView {
    Nick(Seq<char>),
    User(Seq<char>),
    Join(Seq<char>),
    Pong(Seq<char>),
    XdccSend { bot: Seq<char>, pack: Seq<char> },
    XdccRemove { bot: Seq<char>, pack: Seq<char> },
    XdccCancel { bot: Seq<char> },
    DccResume { bot: Seq<char>, filename: Seq<char>, port: Seq<char>, offset: u64 },
    Quit,
}

impl View for Command {
    type V = CommandView;

    open spec fn view(&self) -> CommandView {
        match self {
            Command::Nick(name) => CommandView::Nick(name@),
            Command::User(name) => CommandView::User(name@),
            Command::Join(channel) => CommandView::Join(channel@),
            Command::Pong(token) => CommandView::Pong(token@),
            Command::XdccSend { bot, pack } => CommandView::XdccSend { bot: bot@, pack: pack@ },
            Command::XdccRemove { bot, pack } => CommandView::XdccRemove {
                bot: bot@,
                pack: pack@,
            },
            Command::XdccCancel { bot } => CommandView::XdccCancel { bot: bot@ },
            Command::DccResume { bot, filename, port, offset } => CommandView::DccResume {
                bot: bot@,
                filename: filename@,
                port: port@,
                offset: *offset,
            },
            Command::Quit => CommandView::Quit,
        }
    }
}

/// The line that goes on the wire for a command.
pub open spec fn line_text(command: CommandView) -> Seq<char> {
    match command {
        CommandView::Nick(name) => nick_text(name),
        CommandView::User(name) => user_text(name),
        CommandView::Join(channel) => join_text(channel),
        CommandView::Pong(token) => pong_text(token),
        CommandView::XdccSend { bot, pack } => xdcc_send_text(bot, pack),
        CommandView::XdccRemove { bot, pack } => xdcc_remove_text(bot, pack),
        CommandView::XdccCancel { bot } => xdcc_cancel_text(bot),
        CommandView::DccResume { bot, filename, port, offset } => dcc_resume_text(
            bot,
            filename,
            port,
            offset,
        ),
        CommandView::Quit => quit_text(),
    }
}

impl Command {
    /// The line that goes on the wire for this command.
    pub fn line(&self) -> (s: String)
        ensures
            s@ == line_text(self@),
    {
        match self {
            Command::Nick(name) => nick(name.as_str()),
            Command::User(name) => user(name.as_str()),
            Command::Join(channel) => join(channel.as_str()),
            Command::Pong(token) => pong(token.as_str()),
            Command::XdccSend { bot, pack } => xdcc_send(bot.as_str(), pack.as_str()),
            Command::XdccRemove { bot, pack } => xdcc_remove(bot.as_str(), pack.as_str()),
            Command::XdccCancel { bot } => xdcc_cancel(bot.as_str()),
            Command::DccResume { bot, filename, port, offset } => dcc_resume(
                bot.as_str(),
                filename.as_str(),
                port.as_str(),
                *offset,
            ),
            Command::Quit => quit(),
        }
    }
}

/// A number to tell this session's nickname from others.
///
/// Trusted: this is `rand::Rng::gen` on `rand::thread_rng()`. Nothing is
/// claimed of the number.
#[verifier::external_body]
pub(crate) fn random_suffix() -> u16 {
    rand::thread_rng().gen()
}

/// The nickname of a session.
pub fn nickname(prefix: &str, suffix: u16) -> (s: String)
    ensures
        s@ == nickname_text(prefix@, suffix),
{
    let mut s = String::from_str(prefix);
    s.append(render(suffix as u64).as_str());
    s
}

/// The `NICK` command.
pub fn nick(name: &str) -> (s: String)
    ensures
        s@ == nick_text(name@),
{
    let mut s = String::from_str("NICK ");
    s.append(name);
    s.append("\r\n");
    s
}

/// The `USER` command.
pub fn user(name: &str) -> (s: String)
    ensures
        s@ == user_text(name@),
{
    let mut s = String::from_str("USER ");
    s.append(name);
    s.append(" 0 * ");
    s.append(name);
    s.append("\r\n");
    s
}

/// The `JOIN` command.
pub fn join(channel: &str) -> (s: String)
    ensures
        s@ == join_text(channel@),
{
    let mut s = String::from_str("JOIN #");
    s.append(channel);
    s.append("\r\n");
    s
}

/// The answer to a `PING`.
pub fn pong(token: &str) -> (s: String)
    ensures
        s@ == pong_text(token@),
{
    let mut s = String::from_str("PONG :");
    s.append(token);
    s
}

/// The request for a pack.
pub fn xdcc_send(bot: &str, pack: &str) -> (s: String)
    ensures
        s@ == xdcc_send_text(bot@, pack@),
{
    let mut s = String::from_str("PRIVMSG ");
    s.append(bot);
    s.append(" :xdcc send #");
    s.append(pack);
    s.append("\r\n");
    s
}

/// The removal of a pack from the queue.
pub fn xdcc_remove(bot: &str, pack: &str) -> (s: String)
    ensures
        s@ == xdcc_remove_text(bot@, pack@),
{
    let mut s = String::from_str("PRIVMSG ");
    s.append(bot);
    s.append(" :xdcc remove #");
    s.append(pack);
    s.append("\r\n");
    s
}

/// The cancellation of the current transfer.
pub fn xdcc_cancel(bot: &str) -> (s: String)
    ensures
        s@ == xdcc_cancel_text(bot@),
{
    let mut s = String::from_str("PRIVMSG ");
    s.append(bot);
    s.append(" :\x01XDCC CANCEL\x01\r\n");
    s
}

/// The request to resume a transfer.
pub fn dcc_resume(bot: &str, filename: &str, port: &str, offset: u64) -> (s: String)
    ensures
        s@ == dcc_resume_text(bot@, filename@, port@, offset),
{
    let mut s = String::from_str("PRIVMSG ");
    s.append(bot);
    s.append(" :\x01DCC RESUME \"");
    s.append(filename);
    s.append("\" ");
    s.append(port);
    s.append(" ");
    s.append(render(offset).as_str());
    s.append("\x01\r\n");
    s
}

/// The `QUIT` command.
pub fn quit() -> (s: String)
    ensures
        s@ == quit_text(),
{
    String::from_str("QUIT\r\n")
}

} // verus!
