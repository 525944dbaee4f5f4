//! What the progress display is told: the label of a transfer's bar, what a
//! status does to the status bar, and how a session's outcome is settled.

use crate::event::{ErrorKind, Status, StatusView};
use crate::message::OfferError;
use crate::text::{chars_of, string_of_range};
use crate::transfer::TransferError;
use vstd::prelude::*;
use vstd::string::StringExecFns;

verus! {

/// What a status does to the status bar.
#[derive(Clone, Copy, Debug, PartialEq, Eq, Structural)]
pub enum StatusStep {
    /// One more file is whole: the bar moves on by one.
    Advance,
    /// The session is over: the bar is finished.
    Finish,
    /// The bar is drawn again with the new status.
    Tick,
}

/// The number of characters kept at the start of an elided name, for a
/// terminal of the given width: a quarter of the width.
pub open spec fn kept(width: u16) -> int {
    width as int / 2 / 2
}

/// The name as it stands on a bar: whole where it takes no more than half
/// the terminal's width, or where the width is unknown; else its first
/// `kept` characters, three dots, and its last `kept + 1`.
pub open spec fn elided(name: Seq<char>, width: Option<u16>) -> Seq<char> {
    match width {
        Some(w) => if name.len() > w as int / 2 {
            name.take(kept(w)) + "..."@ + name.skip(name.len() - kept(w) - 1)
        } else {
            name
        },
        None => name,
    }
}

/// The label of the bar of a file: its name, elided where it is too wide,
/// a colon and a space.
pub open spec fn label_text(name: Seq<char>, width: Option<u16>) -> Seq<char> {
    elided(name, width) + ": "@
}

/// What `status` does to the status bar.
pub open spec fn status_step_of(status: StatusView) -> StatusStep {
    match status {
        StatusView::EpisodeFinished => StatusStep::Advance,
        StatusView::Success => StatusStep::Finish,
        _ => StatusStep::Tick,
    }
}

/// The kind of error that ends a worker.
pub open spec fn transfer_error_kind(error: TransferError) -> ErrorKind {
    match error {
        TransferError::Oversized => ErrorKind::File,
        TransferError::PrematureEof => ErrorKind::Protocol,
        TransferError::Overrun => ErrorKind::Protocol,
    }
}

/// The last error among the workers' results, if any worker failed.
pub open spec fn last_error(results: Seq<Option<ErrorKind>>) -> Option<ErrorKind>
    decreases results.len(),
{
    if results.len() == 0 {
        None
    } else if results.last() is Some {
        results.last()
    } else {
        last_error(results.drop_last())
    }
}

/// How a session ended: with the controller's error where it has one, else
/// with the last error of a worker, else well.
pub open spec fn outcome_of(controller: Option<ErrorKind>, workers: Seq<Option<ErrorKind>>) -> Result<
    (),
    ErrorKind,
> {
    match controller {
        Some(e) => Err(e),
        None => match last_error(workers) {
            Some(e) => Err(e),
            None => Ok(()),
        },
    }
}

/// The label of the bar of the file `name`, on a terminal of the given
/// width.
pub fn bar_label(name: &str, width: Option<u16>) -> (s: String)
    ensures
        s@ == label_text(name@, width),
{
    let chars = chars_of(name);
    let mut s = match width {
        Some(w) => {
            let half: usize = (w / 2) as usize;
            if chars.len() > half {
                let keep: usize = half / 2;
                let mut s = string_of_range(chars.as_slice(), 0, keep);
                s.append("...");
                s.append(
                    string_of_range(
                        chars.as_slice(),
                        chars.len() - keep - 1,
                        chars.len(),
                    ).as_str(),
                );
                proof {
                    assert(name@.take(kept(w)) =~= chars@.subrange(0, keep as int));
                    assert(name@.skip(name@.len() - kept(w) - 1) =~= chars@.subrange(
                        chars@.len() - keep - 1,
                        chars@.len() as int,
                    ));
                }
                s
            } else {
                String::from_str(name)
            }
        },
        None => String::from_str(name),
    };
    s.append(": ");
    s
}

/// What `status` does to the status bar.
pub fn status_step(status: &Status) -> (step: StatusStep)
    ensures
        step == status_step_of(status@),
{
    match status {
        Status::EpisodeFinished => StatusStep::Advance,
        Status::Success => StatusStep::Finish,
        _ => StatusStep::Tick,
    }
}

impl TransferError {
    /// The kind of this error.
    pub fn kind(&self) -> (kind: ErrorKind)
        ensures
            kind == transfer_error_kind(*self),
    {
        match self {
            TransferError::Oversized => ErrorKind::File,
            TransferError::PrematureEof => ErrorKind::Protocol,
            TransferError::Overrun => ErrorKind::Protocol,
        }
    }
}

impl OfferError {
    /// The kind of this error: a malformed offer breaks the protocol.
    pub fn kind(&self) -> (kind: ErrorKind)
        ensures
            kind == ErrorKind::Protocol,
    {
        ErrorKind::Protocol
    }
}

/// How a session ended, given the controller's error, if it has one, and
/// each worker's, in the order in which the workers were started.
pub fn outcome(controller: Option<ErrorKind>, workers: &Vec<Option<ErrorKind>>) -> (r: Result<
    (),
    ErrorKind,
>)
    ensures
        r == outcome_of(controller, workers@),
{
    if let Some(e) = controller {
        return Err(e);
    }
    let mut i: usize = workers.len();
    assert(workers@.take(i as int) =~= workers@);
    while i > 0
        invariant
            controller is None,
            i <= workers@.len(),
            last_error(workers@) == last_error(workers@.take(i as int)),
        decreases i,
    {
        assert(workers@.take(i as int).drop_last() =~= workers@.take(i - 1));
        if let Some(e) = workers[i - 1] {
            return Err(e);
        }
        i -= 1;
    }
    Ok(())
}

/// The exit code of the program: zero for success, one for any failure.
pub fn exit_code(result: Result<(), ErrorKind>) -> (code: i32)
    ensures
        code == 0 <==> result is Ok,
        result is Err ==> code == 1,
{
    match result {
        Ok(_) => 0,
        Err(_) => 1,
    }
}

} // verus!
