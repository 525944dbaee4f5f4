//! Incoming IRC lines: the few kinds of message that matter to a download,
//! and the offer that a DCC SEND carries.

use crate::decimal::{
    lemma_numeral_value, numeral, parse_bounded, parsed,
};
use crate::ipv4::{decode, lemma_number_decode, Ipv4};
use crate::pattern::{captures, is_match, regex_captures, regex_compiles, regex_is_match};
use crate::text::{
    begins_with, chars_of, contains, ends_with, holds, lemma_leading_is, lemma_trailing_is,
    starts_with, string_of_range, strip, stripped, trailing, trim_end, trimmed_ends_with,
};
use vstd::prelude::*;

verus! {

/// A file that a bot offers to send: where to fetch it and how long it is.
#[derive(Debug, PartialEq, Eq)]
pub struct DccOffer {
    /// The file's name, without the quotes that may surround it on the wire.
    pub filename: String,
    /// The sender's address.
    pub peer_addr: Ipv4,
    /// The sender's TCP port, as the decimal text of the offer.
    pub peer_port: String,
    /// The file's length in bytes.
    pub size_bytes: u64,
}

/// What a `DccOffer` holds, as mathematical values.
pub struct OfferView {
    pub filename: Seq<char>,
    pub peer_addr: Ipv4,
    pub peer_port: Seq<char>,
    pub size_bytes: u64,
}

impl View for DccOffer {
    type V = OfferView;

    open spec fn view(&self) -> OfferView {
        OfferView {
            filename: self.filename@,
            peer_addr: self.peer_addr,
            peer_port: self.peer_port@,
            size_bytes: self.size_bytes,
        }
    }
}

impl DeepView for DccOffer {
    type V = OfferView;

    open spec fn deep_view(&self) -> OfferView {
        self@
    }
}

impl Clone for DccOffer {
    fn clone(&self) -> (copy: DccOffer)
        ensures
            copy@ == self@,
    {
        DccOffer {
            filename: self.filename.clone(),
            peer_addr: self.peer_addr,
            peer_port: self.peer_port.clone(),
            size_bytes: self.size_bytes,
        }
    }
}

/// Why the groups of a DCC SEND match give no offer.
#[derive(Clone, Copy, Debug, PartialEq, Eq, Structural)]
pub enum OfferError {
    /// The line is no DCC SEND, or the match has not the four groups of one.
    NotAnOffer,
    /// The address field is no decimal number that fits 32 bits.
    BadAddress,
    /// The size field is no decimal number that fits 64 bits.
    BadSize,
}

/// One incoming line, classified.
#[derive(Debug, PartialEq, Eq)]
pub enum Message {
    /// A keep-alive from the server, with its token: what follows `PING :`.
    Ping(String),
    /// The server set our user mode: our identity is accepted.
    Mode,
    /// A channel was joined.
    Join,
    /// A bot offers a file.
    DccSend(DccOffer),
    /// A DCC SEND whose numbers cannot be read.
    BadOffer(OfferError),
    /// A bot agrees to resume a transfer.
    DccAccept,
    /// A bot refuses a request because too many are queued.
    QueueFull,
    /// A bot refuses a request because the pack was requested before.
    Duplicate,
    /// Anything else.
    Other,
}

/// What a `Message` holds, as mathematical values.
pub enum MessageView {
    Ping(Seq<char>),
    Mode,
    Join,
    DccSend(OfferView),
    BadOffer(OfferError),
    DccAccept,
    QueueFull,
    Duplicate,
    Other,
}

impl View for Message {
    type V = MessageView;

    open spec fn view(&self) -> MessageView {
        match self {
            Message::Ping(token) => MessageView::Ping(token@),
            Message::Mode => MessageView::Mode,
            Message::Join => MessageView::Join,
            Message::DccSend(offer) => MessageView::DccSend(offer@),
            Message::BadOffer(e) => MessageView::BadOffer(*e),
            Message::DccAccept => MessageView::DccAccept,
            Message::QueueFull => MessageView::QueueFull,
            Message::Duplicate => MessageView::Duplicate,
            Message::Other => MessageView::Other,
        }
    }
}

/// The expression that recognises a user-mode confirmation.
pub open spec fn mode_pattern() -> Seq<char> {
    "MODE .* :\\+.*"@
}

/// The expression that recognises a DCC SEND and captures its four fields:
/// file name, address, port and size.
pub open spec fn dcc_send_pattern() -> Seq<char> {
    "DCC SEND \"?(.*)\"? (\\d+) (\\d+) (\\d+)"@
}

/// Whether the mode expression matches `line`.
pub open spec fn mode_matches(line: Seq<char>) -> bool {
    regex_compiles(mode_pattern()) && regex_is_match(mode_pattern(), line)
}

/// The groups that the DCC SEND expression captures in `line`, if it
/// matches.
pub open spec fn dcc_send_groups(line: Seq<char>) -> Option<Seq<Option<Seq<char>>>> {
    if regex_compiles(dcc_send_pattern()) {
        regex_captures(dcc_send_pattern(), line)
    } else {
        None
    }
}

/// The offer that the groups of a DCC SEND match denote: group 1 is the file
/// name, still with any quotes at its ends; group 2 the address as a decimal
/// 32-bit number; group 3 the port; group 4 the size in decimal.
pub open spec fn offer_of(groups: Seq<Option<Seq<char>>>) -> Result<OfferView, OfferError> {
    if groups.len() != 5 || groups[1] is None || groups[2] is None || groups[3] is None
        || groups[4] is None {
        Err(OfferError::NotAnOffer)
    } else {
        match parsed(groups[2]->0, u32::MAX as nat) {
            None => Err(OfferError::BadAddress),
            Some(address) => match parsed(groups[4]->0, u64::MAX as nat) {
                None => Err(OfferError::BadSize),
                Some(size) => Ok(
                    OfferView {
                        filename: strip(groups[1]->0, '"'),
                        peer_addr: decode(address as u32),
                        peer_port: groups[3]->0,
                        size_bytes: size as u64,
                    },
                ),
            },
        }
    }
}

/// The kind of `line`, given what the two expressions found in it. The
/// checks are made in this order, and the first that holds decides.
pub open spec fn message_of(
    line: Seq<char>,
    mode_hit: bool,
    groups: Option<Seq<Option<Seq<char>>>>,
) -> MessageView {
    if starts_with(line, "PING :"@) {
        MessageView::Ping(line.skip(6))
    } else if mode_hit {
        MessageView::Mode
    } else if contains(line, "JOIN :#"@) {
        MessageView::Join
    } else if groups is Some {
        match offer_of(groups->0) {
            Ok(offer) => MessageView::DccSend(offer),
            Err(e) => MessageView::BadOffer(e),
        }
    } else if contains(line, "DCC ACCEPT "@) {
        MessageView::DccAccept
    } else if contains(line, " queued too many "@) {
        MessageView::QueueFull
    } else if contains(line, "NOTICE "@) && ends_with(trim_end(line), " You already requested"@) {
        MessageView::Duplicate
    } else {
        MessageView::Other
    }
}

/// A run of `n` double quotes.
pub open spec fn quotes(n: nat) -> Seq<char> {
    Seq::new(n, |i: int| '"')
}

/// Quotes around a name are stripped, however many, where the name itself
/// neither begins nor ends with one.
pub proof fn lemma_strip_quotes(name: Seq<char>, before: nat, after: nat)
    requires
        name.len() > 0 ==> name.first() != '"' && name.last() != '"',
    ensures
        strip(quotes(before) + name + quotes(after), '"') == name,
{
    let text = quotes(before) + name + quotes(after);
    if name.len() == 0 {
        lemma_leading_is(text, '"', text.len() as int);
        let rest = text.skip(text.len() as int);
        assert(rest.take(rest.len() - trailing(rest, '"')) =~= name);
    } else {
        assert(text[before as int] == name.first());
        lemma_leading_is(text, '"', before as int);
        let rest = text.skip(before as int);
        assert(rest =~= name + quotes(after));
        assert(rest[rest.len() - after - 1] == name.last());
        lemma_trailing_is(rest, '"', after as int);
        assert(rest.take(rest.len() - after) =~= name);
    }
}

/// Reading back what was written: the groups that a DCC SEND for `name`,
/// `peer_addr`, `port` and `size` would be matched into denote the offer of
/// just these four, with the quotes around the name gone.
pub proof fn lemma_offer_round_trip(
    whole: Seq<char>,
    name: Seq<char>,
    before: nat,
    after: nat,
    peer_addr: Ipv4,
    port: Seq<char>,
    size: u64,
)
    requires
        name.len() > 0 ==> name.first() != '"' && name.last() != '"',
    ensures
        offer_of(
            seq![
                Some(whole),
                Some(quotes(before) + name + quotes(after)),
                Some(numeral(peer_addr.number())),
                Some(port),
                Some(numeral(size as nat)),
            ],
        ) == Ok::<OfferView, OfferError>(
            OfferView { filename: name, peer_addr: peer_addr, peer_port: port, size_bytes: size },
        ),
{
    lemma_strip_quotes(name, before, after);
    lemma_numeral_value(peer_addr.number());
    lemma_numeral_value(size as nat);
    lemma_number_decode(peer_addr);
}

/// The offer that the groups of a DCC SEND match denote.
pub fn offer_from_groups(groups: &Vec<Option<String>>) -> (r: Result<DccOffer, OfferError>)
    ensures
        match r {
            Ok(offer) => offer_of(groups.deep_view()) == Ok::<OfferView, OfferError>(offer@),
            Err(e) => offer_of(groups.deep_view()) == Err::<OfferView, OfferError>(e),
        },
{
    if groups.len() != 5 {
        return Err(OfferError::NotAnOffer);
    }
    assert(groups.deep_view()[1] == groups@[1].deep_view());
    assert(groups.deep_view()[2] == groups@[2].deep_view());
    assert(groups.deep_view()[3] == groups@[3].deep_view());
    assert(groups.deep_view()[4] == groups@[4].deep_view());
    match (&groups[1], &groups[2], &groups[3], &groups[4]) {
        (Some(name), Some(address), Some(port), Some(size)) => {
            let address_chars = chars_of(address.as_str());
            let address = match parse_bounded(address_chars.as_slice(), 0xffff_ffff) {
                Some(n) => n,
                None => {
                    return Err(OfferError::BadAddress);
                },
            };
            let size_chars = chars_of(size.as_str());
            let size = match parse_bounded(size_chars.as_slice(), u64::MAX) {
                Some(n) => n,
                None => {
                    return Err(OfferError::BadSize);
                },
            };
            let name_chars = chars_of(name.as_str());
            Ok(
                DccOffer {
                    filename: stripped(name_chars.as_slice(), '"'),
                    peer_addr: Ipv4::from_number(address as u32),
                    peer_port: port.clone(),
                    size_bytes: size,
                },
            )
        },
        _ => Err(OfferError::NotAnOffer),
    }
}

/// The kind of `line`, given what the two expressions found in it.
pub fn classify_with(line: &str, mode_hit: bool, groups: Option<Vec<Option<String>>>) -> (m:
    Message)
    ensures
        m@ == message_of(line@, mode_hit, groups.deep_view()),
{
    let chars = chars_of(line);
    let text = chars.as_slice();
    proof {
        reveal_strlit("PING :");
    }
    if begins_with(text, chars_of("PING :").as_slice()) {
        let token = string_of_range(text, 6, text.len());
        return Message::Ping(token);
    }
    if mode_hit {
        return Message::Mode;
    }
    if holds(text, chars_of("JOIN :#").as_slice()) {
        return Message::Join;
    }
    if let Some(found) = groups {
        return match offer_from_groups(&found) {
            Ok(offer) => Message::DccSend(offer),
            Err(e) => Message::BadOffer(e),
        };
    }
    if holds(text, chars_of("DCC ACCEPT ").as_slice()) {
        return Message::DccAccept;
    }
    if holds(text, chars_of(" queued too many ").as_slice()) {
        return Message::QueueFull;
    }
    if holds(text, chars_of("NOTICE ").as_slice()) && trimmed_ends_with(
        text,
        chars_of(" You already requested").as_slice(),
    ) {
        return Message::Duplicate;
    }
    Message::Other
}

/// Whether `line` confirms our user mode.
pub fn is_mode_line(line: &str) -> (hit: bool)
    ensures
        hit == mode_matches(line@),
{
    match is_match("MODE .* :\\+.*", line) {
        Ok(hit) => hit,
        Err(_) => false,
    }
}

/// The groups of the DCC SEND in `line`, if it holds one.
pub fn find_dcc_send(line: &str) -> (groups: Option<Vec<Option<String>>>)
    ensures
        groups.deep_view() == dcc_send_groups(line@),
{
    match captures("DCC SEND \"?(.*)\"? (\\d+) (\\d+) (\\d+)", line) {
        Ok(found) => found,
        Err(_) => None,
    }
}

/// Classifies one incoming line.
pub fn classify(line: &str) -> (m: Message)
    ensures
        m@ == message_of(line@, mode_matches(line@), dcc_send_groups(line@)),
{
    let mode_hit = is_mode_line(line);
    let groups = find_dcc_send(line);
    classify_with(line, mode_hit, groups)
}

/// Reads the offer of a DCC SEND line.
pub fn parse_dcc_send(line: &str) -> (r: Result<DccOffer, OfferError>)
    ensures
        match r {
            Ok(offer) => dcc_send_groups(line@) is Some && offer_of(dcc_send_groups(line@)->0)
                == Ok::<OfferView, OfferError>(offer@),
            Err(e) => if dcc_send_groups(line@) is Some {
                offer_of(dcc_send_groups(line@)->0) == Err::<OfferView, OfferError>(e)
            } else {
                e == OfferError::NotAnOffer
            },
        },
{
    match find_dcc_send(line) {
        Some(groups) => offer_from_groups(&groups),
        None => Err(OfferError::NotAnOffer),
    }
}

} // verus!
