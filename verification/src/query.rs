//! What the user asks for: numbers typed at a prompt or given as options,
//! the episodes to search for, and which files count as media.

use crate::decimal::{numeral, parse_bounded, parsed, render};
use crate::text::{chars_of, same_text, string_of};
use vstd::prelude::*;
use vstd::string::StringExecFns;

verus! {

/// The input holds digits that make no number up to 65535.
#[derive(Clone, Copy, Debug, PartialEq, Eq, Structural)]
pub struct NotNumeric;

/// Whether `char::is_numeric` holds of `c`: whether Unicode counts `c` among
/// its numeric characters.
pub uninterp spec fn char_is_numeric(c: char) -> bool;

/// Whether a character is numeric.
///
/// Trusted: this is `char::is_numeric` of std, whose answer depends on the
/// character alone. Nothing more is claimed of it.
#[verifier::external_body]
fn is_numeric(c: char) -> (b: bool)
    ensures
        b == char_is_numeric(c),
{
    c.is_numeric()
}

/// The numeric characters of `text`, in order.
pub open spec fn numeric_part(text: Seq<char>) -> Seq<char>
    decreases text.len(),
{
    if text.len() == 0 {
        Seq::empty()
    } else if char_is_numeric(text.last()) {
        numeric_part(text.drop_last()).push(text.last())
    } else {
        numeric_part(text.drop_last())
    }
}

/// The number that `text` gives once everything but its numeric characters
/// is dropped: none where nothing is left, an error where what is left is
/// no decimal numeral up to 65535.
pub open spec fn number_of(text: Seq<char>) -> Result<Option<u16>, NotNumeric> {
    let digits = numeric_part(text);
    if digits.len() == 0 {
        Ok(None)
    } else {
        match parsed(digits, u16::MAX as nat) {
            Some(n) => Ok(Some(n as u16)),
            None => Err(NotNumeric),
        }
    }
}

/// The resolution that an option value asks for: 720 where the option is
/// absent, none where it is `0`, else its number.
pub open spec fn option_resolution_of(value: Option<Seq<char>>) -> Result<Option<u16>, NotNumeric> {
    match value {
        None => Ok(Some(720u16)),
        Some(text) => if text == "0"@ {
            Ok(None)
        } else {
            number_of(text)
        },
    }
}

/// The resolution that a number typed at the prompt asks for: 1, 2 and 3
/// are short for 480, 720 and 1080.
pub open spec fn prompt_resolution_of(choice: Option<u16>) -> Option<u16> {
    match choice {
        Some(1) => Some(480u16),
        Some(2) => Some(720u16),
        Some(3) => Some(1080u16),
        other => other,
    }
}

/// The episodes to search for, first and last, both included.
#[derive(Clone, Copy, Debug, PartialEq, Eq, Structural)]
pub struct Episodes {
    pub first: u16,
    pub last: u16,
    /// Whether the search names an episode at all.
    pub numbered: bool,
}

/// The episodes that a start and an end ask for. An end before the start
/// swaps the two; a missing start is episode 1; a missing end is the start.
pub open spec fn episodes_of(start: Option<u16>, end: Option<u16>) -> Episodes {
    let swap = end is Some && end->0 < start.unwrap_or(1);
    let from = if swap {
        end
    } else {
        start
    };
    let to = if swap {
        start
    } else {
        end
    };
    Episodes {
        first: from.unwrap_or(1),
        last: to.unwrap_or(from.unwrap_or(1)),
        numbered: start is Some || end is Some,
    }
}

/// The query with the resolution behind it, where one is wanted.
pub open spec fn full_query_text(query: Seq<char>, resolution: Option<u16>) -> Seq<char> {
    match resolution {
        Some(r) => query + " "@ + numeral(r as nat),
        None => query,
    }
}

/// The file name extensions of audio files.
pub open spec fn audio_extensions() -> Seq<Seq<char>> {
    seq![
        "aif"@,
        "cda"@,
        "mid"@,
        "midi"@,
        "mp3"@,
        "mpa"@,
        "ogg"@,
        "wav"@,
        "wma"@,
        "wpl"@,
    ]
}

/// The file name extensions of video files.
pub open spec fn video_extensions() -> Seq<Seq<char>> {
    seq![
        "3g2"@,
        "3gp"@,
        "avi"@,
        "flv"@,
        "h264"@,
        "m4v"@,
        "mkv"@,
        "mov"@,
        "mp4"@,
        "mpg"@,
        "mpeg"@,
        "rm"@,
        "swf"@,
        "vob"@,
        "wmv"@,
    ]
}

/// What a file's extension says of the file.
#[derive(Clone, Copy, Debug, PartialEq, Eq, Structural)]
pub enum MediaCheck {
    /// An audio or a video file.
    Media,
    /// A file of another kind.
    NotMedia,
    /// A file without an extension.
    NoExtension,
}

/// What the extension of a file, if it has one, says of the file.
pub open spec fn media_check_of(extension: Option<Seq<char>>) -> MediaCheck {
    match extension {
        None => MediaCheck::NoExtension,
        Some(e) => if audio_extensions().contains(e) || video_extensions().contains(e) {
            MediaCheck::Media
        } else {
            MediaCheck::NotMedia
        },
    }
}

/// Whether a character ends no line: it is neither a line feed nor a
/// carriage return.
pub open spec fn is_no_line_break(c: char) -> bool {
    c != '\n' && c != '\r'
}

/// `text` without its line feeds and carriage returns.
pub open spec fn line_breaks_removed(text: Seq<char>) -> Seq<char> {
    text.filter(|c: char| is_no_line_break(c))
}

/// What was typed, without the line feeds and carriage returns that came
/// with it.
pub fn without_line_breaks(text: &str) -> (s: String)
    ensures
        s@ == line_breaks_removed(text@),
{
    let chars = chars_of(text);
    let mut kept: Vec<char> = Vec::new();
    let mut i: usize = 0;
    proof {
        reveal(Seq::filter);
        assert(chars@.take(0) =~= Seq::<char>::empty());
    }
    while i < chars.len()
        invariant
            i <= chars@.len(),
            kept@ == line_breaks_removed(chars@.take(i as int)),
        decreases chars@.len() - i,
    {
        proof {
            reveal(Seq::filter);
            assert(chars@.take(i + 1).drop_last() =~= chars@.take(i as int));
        }
        let c = chars[i];
        if c != '\n' && c != '\r' {
            kept.push(c);
        }
        i += 1;
    }
    assert(chars@.take(i as int) =~= chars@);
    string_of(kept.as_slice())
}

/// The number that `text` gives once everything but its numeric characters
/// is dropped.
pub fn parse_number(text: &str) -> (r: Result<Option<u16>, NotNumeric>)
    ensures
        r == number_of(text@),
{
    let chars = chars_of(text);
    let mut digits: Vec<char> = Vec::new();
    let mut i: usize = 0;
    assert(chars@.take(0) =~= Seq::<char>::empty());
    while i < chars.len()
        invariant
            i <= chars@.len(),
            digits@ == numeric_part(chars@.take(i as int)),
        decreases chars@.len() - i,
    {
        assert(chars@.take(i + 1).drop_last() =~= chars@.take(i as int));
        if is_numeric(chars[i]) {
            digits.push(chars[i]);
        }
        i += 1;
    }
    assert(chars@.take(i as int) =~= chars@);
    if digits.len() == 0 {
        return Ok(None);
    }
    match parse_bounded(digits.as_slice(), 0xffff) {
        Some(n) => Ok(Some(n as u16)),
        None => Err(NotNumeric),
    }
}

/// The resolution that an option value asks for.
pub fn option_resolution(value: Option<&str>) -> (r: Result<Option<u16>, NotNumeric>)
    ensures
        r == option_resolution_of(
            match value {
                Some(text) => Some(text@),
                None => None,
            },
        ),
{
    match value {
        None => Ok(Some(720)),
        Some(text) => if same_text(text, "0") {
            Ok(None)
        } else {
            parse_number(text)
        },
    }
}

/// The resolution that a number typed at the prompt asks for.
pub fn prompt_resolution(choice: Option<u16>) -> (r: Option<u16>)
    ensures
        r == prompt_resolution_of(choice),
{
    match choice {
        Some(1) => Some(480),
        Some(2) => Some(720),
        Some(3) => Some(1080),
        other => other,
    }
}

/// The episodes that a start and an end ask for.
pub fn episodes(start: Option<u16>, end: Option<u16>) -> (e: Episodes)
    ensures
        e == episodes_of(start, end),
        e.first <= e.last,
{
    let first_wanted: u16 = match start {
        Some(n) => n,
        None => 1,
    };
    let swap = match end {
        Some(t) => t < first_wanted,
        None => false,
    };
    let (from, to) = if swap {
        (end, start)
    } else {
        (start, end)
    };
    let first: u16 = match from {
        Some(n) => n,
        None => 1,
    };
    let last: u16 = match to {
        Some(n) => n,
        None => first,
    };
    Episodes { first: first, last: last, numbered: start.is_some() || end.is_some() }
}

/// The query with the resolution behind it, where one is wanted.
pub fn full_query(query: &str, resolution: Option<u16>) -> (s: String)
    ensures
        s@ == full_query_text(query@, resolution),
{
    let mut s = String::from_str(query);
    if let Some(r) = resolution {
        s.append(" ");
        s.append(render(r as u64).as_str());
    }
    s
}

/// Whether `extension` is one of `known`.
fn is_among(extension: &str, known: &Vec<&'static str>) -> (b: bool)
    ensures
        b == known.deep_view().contains(extension@),
{
    let mut i: usize = 0;
    while i < known.len()
        invariant
            i <= known@.len(),
            forall|k: int| 0 <= k < i ==> known.deep_view()[k] != extension@,
        decreases known@.len() - i,
    {
        assert(known.deep_view()[i as int] == known@[i as int]@);
        if same_text(extension, known[i]) {
            return true;
        }
        i += 1;
    }
    false
}

/// What the extension of a file, if it has one, says of the file.
pub fn media_check(extension: Option<&str>) -> (check: MediaCheck)
    ensures
        check == media_check_of(
            match extension {
                Some(text) => Some(text@),
                None => None,
            },
        ),
{
    match extension {
        None => MediaCheck::NoExtension,
        Some(e) => {
            let audio: Vec<&'static str> = vec![
                "aif",
                "cda",
                "mid",
                "midi",
                "mp3",
                "mpa",
                "ogg",
                "wav",
                "wma",
                "wpl",
            ];
            let video: Vec<&'static str> = vec![
                "3g2",
                "3gp",
                "avi",
                "flv",
                "h264",
                "m4v",
                "mkv",
                "mov",
                "mp4",
                "mpg",
                "mpeg",
                "rm",
                "swf",
                "vob",
                "wmv",
            ];
            assert(audio.deep_view() =~= audio_extensions());
            assert(video.deep_view() =~= video_extensions());
            if is_among(e, &audio) || is_among(e, &video) {
                MediaCheck::Media
            } else {
                MediaCheck::NotMedia
            }
        },
    }
}

} // verus!
