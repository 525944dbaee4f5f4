//! The pack catalog: what a search returns, and which pack of which bot to
//! ask for.

use crate::decimal::{numeral, render};
use crate::text::same_text;
use vstd::prelude::*;
use vstd::string::StringExecFns;

verus! {

/// A bot of the catalog.
#[derive(Debug, PartialEq, Eq)]
pub struct Bot {
    pub id: i64,
    pub name: String,
}

/// What a `Bot` holds, as mathematical values.
pub struct BotView {
    pub id: i64,
    pub name: Seq<char>,
}

impl View for Bot {
    type V = BotView;

    open spec fn view(&self) -> BotView {
        BotView { id: self.id, name: self.name@ }
    }
}

impl DeepView for Bot {
    type V = BotView;

    open spec fn deep_view(&self) -> BotView {
        self@
    }
}

/// One result of a search: a pack, by the bot that serves it.
#[derive(Debug, PartialEq, Eq)]
pub struct Package {
    pub bot_id: i64,
    pub number: i32,
    pub name: String,
}

/// What a `Package` holds, as mathematical values.
pub struct PackageView {
    pub bot_id: i64,
    pub number: i32,
    pub name: Seq<char>,
}

impl View for Package {
    type V = PackageView;

    open spec fn view(&self) -> PackageView {
        PackageView { bot_id: self.bot_id, number: self.number, name: self.name@ }
    }
}

impl DeepView for Package {
    type V = PackageView;

    open spec fn deep_view(&self) -> PackageView {
        self@
    }
}

/// A pack to download: its number, the nickname of its bot and the name of
/// its file.
#[derive(Debug, PartialEq, Eq)]
pub struct DCCPackage {
    pub number: i32,
    pub bot: String,
    pub filename: String,
}

/// What a `DCCPackage` holds, as mathematical values.
pub struct DCCPackageView {
    pub number: i32,
    pub bot: Seq<char>,
    pub filename: Seq<char>,
}

impl View for DCCPackage {
    type V = DCCPackageView;

    open spec fn view(&self) -> DCCPackageView {
        DCCPackageView { number: self.number, bot: self.bot@, filename: self.filename@ }
    }
}

impl DeepView for DCCPackage {
    type V = DCCPackageView;

    open spec fn deep_view(&self) -> DCCPackageView {
        self@
    }
}

impl Clone for DCCPackage {
    fn clone(&self) -> (copy: DCCPackage)
        ensures
            copy@ == self@,
    {
        DCCPackage {
            number: self.number,
            bot: self.bot.clone(),
            filename: self.filename.clone(),
        }
    }
}

/// Why a search gives no pack.
#[derive(Clone, Copy, Debug, PartialEq, Eq, Structural)]
pub enum FindError {
    /// The search found nothing.
    NoResult,
    /// The first result names a bot that the catalog does not list.
    UnknownBot,
}

/// The first bot of `bots` with the given id, if there is one.
pub open spec fn first_bot(bots: Seq<BotView>, id: i64) -> Option<BotView>
    decreases bots.len(),
{
    if bots.len() == 0 {
        None
    } else if bots.first().id == id {
        Some(bots.first())
    } else {
        first_bot(bots.drop_first(), id)
    }
}

/// The pack to ask for, given the results of a search and the bots of the
/// catalog: the first result, under the name of its bot.
pub open spec fn chosen_package(packages: Seq<PackageView>, bots: Seq<BotView>) -> Result<
    DCCPackageView,
    FindError,
> {
    if packages.len() == 0 {
        Err(FindError::NoResult)
    } else {
        match first_bot(bots, packages.first().bot_id) {
            None => Err(FindError::UnknownBot),
            Some(bot) => Ok(
                DCCPackageView {
                    number: packages.first().number,
                    bot: bot.name,
                    filename: packages.first().name,
                },
            ),
        }
    }
}

/// The address of the catalog.
pub open spec fn api_url() -> Seq<char> {
    "https://api.nibl.co.uk/nibl"@
}

/// The address that searches the catalog for `query`, and for one episode
/// where one is given.
pub open spec fn search_url_text(query: Seq<char>, episode: Option<u16>) -> Seq<char> {
    let base = api_url() + "/search?query="@ + query;
    match episode {
        Some(n) => base + "&episodeNumber="@ + numeral(n as nat),
        None => base,
    }
}

/// The address that lists the bots of the catalog.
pub open spec fn bots_url_text() -> Seq<char> {
    api_url() + "/bots"@
}

/// What `error` reads as.
pub open spec fn find_error_text(error: FindError) -> Seq<char> {
    match error {
        FindError::NoResult => "Could not find any result for this query."@,
        FindError::UnknownBot => "Results found, but unknown bot."@,
    }
}

impl FindError {
    /// The message of this error.
    pub fn message(&self) -> (s: String)
        ensures
            s@ == find_error_text(*self),
    {
        match self {
            FindError::NoResult => String::from_str("Could not find any result for this query."),
            FindError::UnknownBot => String::from_str("Results found, but unknown bot."),
        }
    }
}

/// The name of the bot with the given id: that of the first in `bots` that
/// has it.
pub fn find_bot_name(bots: &Vec<Bot>, id: i64) -> (r: Result<String, FindError>)
    ensures
        match r {
            Ok(name) => first_bot(bots.deep_view(), id) is Some && first_bot(
                bots.deep_view(),
                id,
            )->0.name == name@,
            Err(e) => first_bot(bots.deep_view(), id) is None && e == FindError::UnknownBot,
        },
{
    let mut i: usize = 0;
    assert(bots.deep_view().skip(0) =~= bots.deep_view());
    while i < bots.len()
        invariant
            i <= bots@.len(),
            first_bot(bots.deep_view(), id) == first_bot(bots.deep_view().skip(i as int), id),
        decreases bots@.len() - i,
    {
        let ghost rest = bots.deep_view().skip(i as int);
        assert(rest.first() == bots@[i as int]@);
        if bots[i].id == id {
            return Ok(bots[i].name.clone());
        }
        assert(rest.drop_first() =~= bots.deep_view().skip(i + 1));
        i += 1;
    }
    Err(FindError::UnknownBot)
}

/// The pack to ask for, given the results of a search and the bots of the
/// catalog.
pub fn find_package(packages: &Vec<Package>, bots: &Vec<Bot>) -> (r: Result<DCCPackage, FindError>)
    ensures
        match r {
            Ok(package) => chosen_package(packages.deep_view(), bots.deep_view()) == Ok::<
                DCCPackageView,
                FindError,
            >(package@),
            Err(e) => chosen_package(packages.deep_view(), bots.deep_view()) == Err::<
                DCCPackageView,
                FindError,
            >(e),
        },
{
    if packages.len() == 0 {
        return Err(FindError::NoResult);
    }
    let first = &packages[0];
    assert(packages.deep_view().first() == first@);
    match find_bot_name(bots, first.bot_id) {
        Ok(bot) => Ok(DCCPackage { number: first.number, bot: bot, filename: first.name.clone() }),
        Err(e) => Err(e),
    }
}

/// The address that searches the catalog.
pub fn search_url(query: &str, episode: Option<u16>) -> (s: String)
    ensures
        s@ == search_url_text(query@, episode),
{
    let mut s = String::from_str("https://api.nibl.co.uk/nibl");
    s.append("/search?query=");
    s.append(query);
    if let Some(n) = episode {
        s.append("&episodeNumber=");
        s.append(render(n as u64).as_str());
    }
    s
}

/// The address that lists the bots of the catalog.
pub fn bots_url() -> (s: String)
    ensures
        s@ == bots_url_text(),
{
    let mut s = String::from_str("https://api.nibl.co.uk/nibl");
    s.append("/bots");
    s
}

/// What a reply of the catalog comes to: nothing to report where its status
/// is `OK`, else `complaint` followed by the reply's message.
pub open spec fn reply_of(status: Seq<char>, message: Seq<char>, complaint: Seq<char>) -> Result<
    (),
    Seq<char>,
> {
    if status == "OK"@ {
        Ok(())
    } else {
        Err(complaint + message)
    }
}

/// The complaint about a search that the catalog refused.
pub open spec fn search_complaint() -> Seq<char> {
    "Could not search package: "@
}

/// The complaint about a list of bots that the catalog refused.
pub open spec fn bot_list_complaint() -> Seq<char> {
    "Could not fetch bot list: "@
}

/// What is said of a search that could not be made at all.
pub open spec fn fetch_failure_text(cause: Seq<char>) -> Seq<char> {
    "Error while fetching results: "@ + cause
}

fn reply(status: &str, message: &str, complaint: &str) -> (r: Result<(), String>)
    ensures
        match r {
            Ok(_) => reply_of(status@, message@, complaint@) is Ok,
            Err(e) => reply_of(status@, message@, complaint@) == Err::<(), Seq<char>>(e@),
        },
{
    if same_text(status, "OK") {
        Ok(())
    } else {
        let mut e = String::from_str(complaint);
        e.append(message);
        Err(e)
    }
}

/// What the reply to a search comes to, given its status and its message.
pub fn search_reply(status: &str, message: &str) -> (r: Result<(), String>)
    ensures
        match r {
            Ok(_) => reply_of(status@, message@, search_complaint()) is Ok,
            Err(e) => reply_of(status@, message@, search_complaint()) == Err::<(), Seq<char>>(
                e@,
            ),
        },
{
    reply(status, message, "Could not search package: ")
}

/// What the reply to a request for the bots comes to, given its status and
/// its message.
pub fn bot_list_reply(status: &str, message: &str) -> (r: Result<(), String>)
    ensures
        match r {
            Ok(_) => reply_of(status@, message@, bot_list_complaint()) is Ok,
            Err(e) => reply_of(status@, message@, bot_list_complaint()) == Err::<(), Seq<char>>(
                e@,
            ),
        },
{
    reply(status, message, "Could not fetch bot list: ")
}

/// What is said of a search that could not be made at all.
pub fn fetch_failure(cause: &str) -> (s: String)
    ensures
        s@ == fetch_failure_text(cause@),
{
    let mut s = String::from_str("Error while fetching results: ");
    s.append(cause);
    s
}

} // verus!
