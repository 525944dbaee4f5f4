//! The bookkeeping of one DCC download: how much of the file is on disk, how
//! much to read next, and when the transfer is over.
//!
//! The worker that owns the socket and the file asks `Transfer` what to do,
//! does it, and reports what a read returned.

use vstd::prelude::*;

verus! {

/// The most that one read asks for, in bytes.
pub const CHUNK: u64 = 4096;

/// The value that stands for "complete" where progress travels as a signed
/// number.
pub const COMPLETE_SIGNAL: i64 = -1;

/// Why a transfer ends before the file is whole.
#[derive(Clone, Copy, Debug, PartialEq, Eq, Structural)]
pub enum TransferError {
    /// The file on disk is already longer than the offer.
    Oversized,
    /// The sender closed the stream before the declared size was reached.
    PrematureEof,
    /// A read reported more bytes than were asked for.
    Overrun,
}

/// What a worker reports of its transfer.
#[derive(Clone, Copy, Debug, PartialEq, Eq, Structural)]
pub enum Progress {
    /// So many bytes of the file are on disk.
    Bytes(u64),
    /// The file is whole.
    Complete,
}

/// What the worker does next.
#[derive(Clone, Copy, Debug, PartialEq, Eq, Structural)]
pub enum Step {
    /// Read at most so many bytes from the sender and append them to the
    /// file.
    Read(u64),
    /// Report completion, close the stream and flush the file.
    Finish,
}

/// The state of one transfer.
#[derive(Clone, Copy, Debug)]
pub struct Transfer {
    size: u64,
    progress: u64,
}

/// What a `Transfer` holds: the declared size, and the bytes on disk.
pub struct TransferView {
    pub size: u64,
    pub progress: u64,
}

impl View for Transfer {
    type V = TransferView;

    closed spec fn view(&self) -> TransferView {
        TransferView { size: self.size, progress: self.progress }
    }
}

impl TransferView {
    /// Never more on disk than was offered.
    pub open spec fn wf(self) -> bool {
        self.progress <= self.size
    }

    /// The file is whole.
    pub open spec fn is_complete(self) -> bool {
        self.progress == self.size
    }

    /// What the worker does next: finish once the file is whole, else read
    /// what is missing, a chunk at most.
    pub open spec fn next(self) -> Step {
        if self.progress >= self.size {
            Step::Finish
        } else if self.size - self.progress < CHUNK {
            Step::Read((self.size - self.progress) as u64)
        } else {
            Step::Read(CHUNK)
        }
    }

    /// The transfer after a read that returned `count` bytes, all of them
    /// written to the file.
    pub open spec fn after_read(self, count: u64) -> Result<TransferView, TransferError> {
        if count == 0 {
            Err(TransferError::PrematureEof)
        } else if count > self.size - self.progress {
            Err(TransferError::Overrun)
        } else {
            Ok(TransferView { size: self.size, progress: (self.progress + count) as u64 })
        }
    }

    /// The transfer after the reads `counts`, in order, unless one of them
    /// ends it with an error.
    pub open spec fn after_reads(self, counts: Seq<u64>) -> Result<TransferView, TransferError>
        decreases counts.len(),
    {
        if counts.len() == 0 {
            Ok(self)
        } else {
            match self.after_reads(counts.drop_last()) {
                Ok(before) => before.after_read(counts.last()),
                Err(e) => Err(e),
            }
        }
    }
}

/// The transfer of a file of `size` bytes of which `existing` are on disk.
pub open spec fn begun(size: u64, existing: u64) -> Result<TransferView, TransferError> {
    if existing > size {
        Err(TransferError::Oversized)
    } else {
        Ok(TransferView { size: size, progress: existing })
    }
}

/// The sum of `counts`.
pub open spec fn total(counts: Seq<u64>) -> nat
    decreases counts.len(),
{
    if counts.len() == 0 {
        0
    } else {
        total(counts.drop_last()) + counts.last() as nat
    }
}

/// The progress that the signed number `signal` stands for: a number that
/// is not negative is a byte count, a negative one says that the file is
/// whole.
pub open spec fn progress_of(signal: i64) -> Progress {
    if signal >= 0 {
        Progress::Bytes(signal as u64)
    } else {
        Progress::Complete
    }
}

/// The signed number that stands for `progress`: the byte count, or `-1`
/// for completion. A count beyond the range of the signed number is given
/// as the largest one.
pub open spec fn signal_of(progress: Progress) -> i64 {
    match progress {
        Progress::Bytes(bytes) => if bytes <= i64::MAX {
            bytes as i64
        } else {
            i64::MAX
        },
        Progress::Complete => COMPLETE_SIGNAL,
    }
}

/// What is sent is what is received: a report comes back from its signal
/// unchanged, a byte count of zero included, as long as the count fits the
/// signed number; and only a negative signal finalizes.
pub proof fn lemma_signal_round_trip(progress: Progress, signal: i64)
    ensures
        progress is Complete ==> progress_of(signal_of(progress)) == progress,
        progress matches Progress::Bytes(bytes) ==> (bytes <= i64::MAX ==> progress_of(
            signal_of(progress),
        ) == progress),
        progress_of(signal) is Complete <==> signal < 0,
{
}

/// However the reads fall, a transfer that has not failed has on disk what
/// it began with and what it read, never more than the declared size; and
/// where it is complete, exactly the declared size.
pub proof fn lemma_transfer_reaches_size(size: u64, existing: u64, counts: Seq<u64>)
    requires
        begun(size, existing) is Ok,
    ensures
        match begun(size, existing)->Ok_0.after_reads(counts) {
            Ok(t) => {
                &&& t.wf()
                &&& t.size == size
                &&& t.progress == existing + total(counts)
                &&& t.is_complete() <==> existing + total(counts) == size
                &&& t.next() is Finish <==> t.is_complete()
            },
            Err(_) => true,
        },
    decreases counts.len(),
{
    if counts.len() > 0 {
        lemma_transfer_reaches_size(size, existing, counts.drop_last());
    }
}

impl Transfer {
    #[verifier::type_invariant]
    spec fn inv(self) -> bool {
        self.progress <= self.size
    }

    /// Begins the transfer of a file of `size` bytes of which `existing` are
    /// on disk already.
    pub fn begin(size: u64, existing: u64) -> (r: Result<Transfer, TransferError>)
        ensures
            match r {
                Ok(t) => begun(size, existing) == Ok::<TransferView, TransferError>(t@) && t@.wf(),
                Err(e) => begun(size, existing) == Err::<TransferView, TransferError>(e),
            },
    {
        if existing > size {
            Err(TransferError::Oversized)
        } else {
            Ok(Transfer { size, progress: existing })
        }
    }

    /// The declared size of the file.
    pub fn size(&self) -> (n: u64)
        ensures
            n == self@.size,
    {
        self.size
    }

    /// The bytes of the file that are on disk.
    pub fn progress(&self) -> (n: u64)
        ensures
            n == self@.progress,
    {
        self.progress
    }

    /// Whether the file is whole.
    pub fn is_complete(&self) -> (b: bool)
        ensures
            b == self@.is_complete(),
    {
        self.progress == self.size
    }

    /// What the worker does next.
    pub fn next(&self) -> (step: Step)
        ensures
            step == self@.next(),
    {
        if self.progress >= self.size {
            Step::Finish
        } else if self.size - self.progress < CHUNK {
            Step::Read(self.size - self.progress)
        } else {
            Step::Read(CHUNK)
        }
    }

    /// Takes note of a read that returned `count` bytes, all of them written
    /// to the file, and says what to report. On an error nothing changes.
    pub fn record(&mut self, count: u64) -> (r: Result<Progress, TransferError>)
        ensures
            old(self)@.wf(),
            match r {
                Ok(p) => old(self)@.after_read(count) == Ok::<TransferView, TransferError>(
                    final(self)@,
                ) && p == Progress::Bytes(final(self)@.progress) && final(self)@.wf(),
                Err(e) => old(self)@.after_read(count) == Err::<TransferView, TransferError>(e)
                    && final(self)@ == old(self)@,
            },
    {
        proof {
            use_type_invariant(&*self);
        }
        if count == 0 {
            Err(TransferError::PrematureEof)
        } else if count > self.size - self.progress {
            Err(TransferError::Overrun)
        } else {
            self.progress = self.progress + count;
            Ok(Progress::Bytes(self.progress))
        }
    }
}

impl Progress {
    /// This report as a signed number: the byte count, or `-1` for
    /// completion. A count too large for the number's range is reported as
    /// the largest one.
    pub fn signal(&self) -> (n: i64)
        ensures
            n == signal_of(*self),
    {
        match *self {
            Progress::Bytes(b) => if b <= 0x7fff_ffff_ffff_ffff {
                b as i64
            } else {
                0x7fff_ffff_ffff_ffff
            },
            Progress::Complete => COMPLETE_SIGNAL,
        }
    }

    /// The report that a signed number stands for.
    pub fn from_signal(signal: i64) -> (p: Progress)
        ensures
            p == progress_of(signal),
    {
        if signal >= 0 {
            Progress::Bytes(signal as u64)
        } else {
            Progress::Complete
        }
    }
}

} // verus!
