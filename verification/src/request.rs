//! What a download is asked for: the server, the channel, and the packs.

use crate::catalog::{DCCPackage, DCCPackageView};
use crate::decimal::{is_digit, is_numeral, numeral, render};
use crate::text::chars_of;
use vstd::prelude::*;
use vstd::string::StringExecFns;

verus! {

/// A request to download packs: pack `packages[i]` is served by `bot[i]`.
#[derive(Debug, PartialEq, Eq)]
pub struct IRCRequest {
    /// The server, as `host:port`.
    pub server: String,
    /// The channel to join, without its leading `#`.
    pub channel: String,
    /// The nickname to use; a number is put behind it.
    pub nickname: String,
    /// The nicknames of the bots.
    pub bot: Vec<String>,
    /// The pack numbers, in decimal.
    pub packages: Vec<String>,
}

/// What an `IRCRequest` holds, as mathematical values.
pub struct RequestView {
    pub server: Seq<char>,
    pub channel: Seq<char>,
    pub nickname: Seq<char>,
    pub bot: Seq<Seq<char>>,
    pub packages: Seq<Seq<char>>,
}

impl View for IRCRequest {
    type V = RequestView;

    open spec fn view(&self) -> RequestView {
        RequestView {
            server: self.server@,
            channel: self.channel@,
            nickname: self.nickname@,
            bot: self.bot.deep_view(),
            packages: self.packages.deep_view(),
        }
    }
}

impl RequestView {
    /// There is a pack to fetch, each pack has its bot, and each pack number
    /// is a decimal numeral.
    pub open spec fn is_valid(self) -> bool {
        &&& self.packages.len() > 0
        &&& self.bot.len() == self.packages.len()
        &&& forall|i: int| 0 <= i < self.packages.len() ==> is_numeral(#[trigger] self.packages[i])
    }
}

/// The text of a pack number: its decimal numeral, behind a minus sign where
/// it is negative.
pub open spec fn pack_number_text(number: i32) -> Seq<char> {
    if number < 0 {
        seq!['-'] + numeral((-number) as nat)
    } else {
        numeral(number as nat)
    }
}

/// The request for `packages` on the given server and channel.
pub open spec fn request_of(
    server: Seq<char>,
    channel: Seq<char>,
    nickname: Seq<char>,
    packages: Seq<DCCPackageView>,
) -> RequestView {
    RequestView {
        server: server,
        channel: channel,
        nickname: nickname,
        bot: Seq::new(packages.len(), |i: int| packages[i].bot),
        packages: Seq::new(packages.len(), |i: int| pack_number_text(packages[i].number)),
    }
}

/// Whether `text` is a decimal numeral.
pub fn is_number_text(text: &str) -> (b: bool)
    ensures
        b == is_numeral(text@),
{
    let chars = chars_of(text);
    if chars.len() == 0 {
        return false;
    }
    let mut i: usize = 0;
    while i < chars.len()
        invariant
            chars@ == text@,
            i <= chars@.len(),
            forall|k: int| 0 <= k < i ==> is_digit(#[trigger] chars@[k]),
        decreases chars@.len() - i,
    {
        let c = chars[i];
        if !('0' <= c && c <= '9') {
            assert(!is_digit(text@[i as int]));
            return false;
        }
        i += 1;
    }
    true
}

/// The text of a pack number.
pub fn pack_number(number: i32) -> (s: String)
    ensures
        s@ == pack_number_text(number),
{
    if number < 0 {
        let mut s = String::from_str("-");
        proof {
            reveal_strlit("-");
            assert("-"@ =~= seq!['-']);
        }
        s.append(render((-(number as i64)) as u64).as_str());
        s
    } else {
        render(number as u64)
    }
}

impl IRCRequest {
    /// Whether this request can be served: see `RequestView::is_valid`.
    pub fn is_valid(&self) -> (b: bool)
        ensures
            b == self@.is_valid(),
    {
        if self.packages.len() == 0 || self.bot.len() != self.packages.len() {
            return false;
        }
        let mut i: usize = 0;
        while i < self.packages.len()
            invariant
                i <= self.packages@.len(),
                forall|k: int| 0 <= k < i ==> is_numeral(#[trigger] self.packages.deep_view()[k]),
            decreases self.packages@.len() - i,
        {
            assert(self.packages.deep_view()[i as int] == self.packages@[i as int]@);
            if !is_number_text(self.packages[i].as_str()) {
                return false;
            }
            i += 1;
        }
        true
    }

    /// The request for `packages`, in their order.
    pub fn for_packages(server: &str, channel: &str, nickname: &str, packages: &Vec<DCCPackage>) -> (r:
        IRCRequest)
        ensures
            r@ == request_of(server@, channel@, nickname@, packages.deep_view()),
    {
        let mut bot: Vec<String> = Vec::new();
        let mut numbers: Vec<String> = Vec::new();
        let mut i: usize = 0;
        while i < packages.len()
            invariant
                i <= packages@.len(),
                bot@.len() == i,
                numbers@.len() == i,
                forall|k: int| 0 <= k < i ==> (#[trigger] bot@[k])@ == packages@[k].bot@,
                forall|k: int|
                    0 <= k < i ==> (#[trigger] numbers@[k])@ == pack_number_text(
                        packages@[k].number,
                    ),
            decreases packages@.len() - i,
        {
            bot.push(packages[i].bot.clone());
            numbers.push(pack_number(packages[i].number));
            i += 1;
        }
        let r = IRCRequest {
            server: String::from_str(server),
            channel: String::from_str(channel),
            nickname: String::from_str(nickname),
            bot: bot,
            packages: numbers,
        };
        proof {
            let want = request_of(server@, channel@, nickname@, packages.deep_view());
            assert(r@.bot =~= want.bot);
            assert(r@.packages =~= want.packages);
        }
        r
    }
}

} // verus!
