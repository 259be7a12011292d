//! The bookkeeping of one streamed download: whether the server's answer
//! lets it start, how much has arrived, and what to tell the progress sink.

use crate::error::InstallError;
use vstd::prelude::*;

verus! {

/// Whether an HTTP status code reports success: the codes 200 to 299.
pub open spec fn is_success(status: u16) -> bool {
    200 <= status < 300
}

/// What the progress sink is told.
#[derive(Debug, Clone, Copy, PartialEq, Eq, Structural)]
pub enum Progress {
    /// Nothing: the size of the whole is not known.
    Unknown,
    /// `received` bytes have arrived of `total`, which is above zero and
    /// not below `received`.
    Part { received: u64, total: u64 },
    /// Everything has arrived.
    Complete,
}

/// What has arrived of the body of the server's answer.
#[derive(Debug, Clone, Copy, PartialEq, Eq, Structural)]
pub enum BodyEvent {
    /// A chunk of `len` bytes.
    Chunk { len: u64 },
    /// The end of the body.
    End,
}

/// A download that the server has agreed to.
#[derive(Debug, Clone, Copy, PartialEq, Eq, Structural)]
pub struct Download {
    /// The announced size of the body in bytes; zero when none was announced.
    pub total: u64,
    /// The bytes that have arrived so far.
    pub received: u64,
}

impl Download {
    /// What is reported when `received` bytes have arrived of an announced
    /// `total`: the part that has arrived, never more than the whole, or
    /// nothing where no size was announced.
    pub open spec fn report(total: u64, received: u64) -> Progress {
        if total == 0 {
            Progress::Unknown
        } else if received < total {
            Progress::Part { received, total }
        } else {
            Progress::Part { received: total, total }
        }
    }

    /// Starts the bookkeeping from the server's answer: its status code and
    /// the body size it announced, if any. An answer that does not report
    /// success fails the download.
    pub fn begin(status: u16, content_length: Option<u64>) -> (r: Result<Download, InstallError>)
        ensures
            r == if is_success(status) {
                Ok::<Download, InstallError>(
                    Download {
                        total: match content_length {
                            Some(n) => n,
                            None => 0,
                        },
                        received: 0,
                    },
                )
            } else {
                Err::<Download, InstallError>(InstallError::DownloadFailed)
            },
    {
        if status < 200 || status >= 300 {
            return Err(InstallError::DownloadFailed);
        }
        let total: u64 = match content_length {
            Some(n) => n,
            None => 0,
        };
        Ok(Download { total, received: 0 })
    }

    /// The bookkeeping after `event`.
    pub open spec fn after(self, event: BodyEvent) -> Download {
        match event {
            BodyEvent::Chunk { len } => Download {
                received: (self.received + len) as u64,
                ..self
            },
            BodyEvent::End => self,
        }
    }

    /// Takes note of what has arrived of the body and says what to report:
    /// after a chunk how far the download is, if the size of the whole is
    /// known, and at the end completion, whether it is known or not.
    pub fn record(&mut self, event: BodyEvent) -> (progress: Progress)
        requires
            event matches BodyEvent::Chunk { len } ==> old(self).received + len <= u64::MAX,
        ensures
            *final(self) == old(self).after(event),
            progress == match event {
                BodyEvent::Chunk { .. } => Download::report(final(self).total, final(self).received),
                BodyEvent::End => Progress::Complete,
            },
            progress matches Progress::Part { received, total } ==> received <= total && 0 < total,
    {
        match event {
            BodyEvent::Chunk { len } => {
                self.received = self.received + len;
                if self.total == 0 {
                    Progress::Unknown
                } else if self.received < self.total {
                    Progress::Part { received: self.received, total: self.total }
                } else {
                    Progress::Part { received: self.total, total: self.total }
                }
            },
            BodyEvent::End => Progress::Complete,
        }
    }
}

/// How far a report says the download is, in parts of `scale`: nothing
/// for no report, all of `scale` for completion.
pub open spec fn reported(progress: Progress, scale: nat) -> Option<int> {
    match progress {
        Progress::Unknown => None,
        Progress::Part { received, total } => Some(received * scale / (total as int)),
        Progress::Complete => Some(scale as int),
    }
}

/// Every report lies between nothing and the whole, a later report of the
/// same download is not below an earlier one, and completion is the whole.
pub proof fn lemma_reports_rise_to_the_whole(total: u64, earlier: u64, later: u64, scale: nat)
    requires
        earlier <= later,
    ensures
        reported(Download::report(total, later), scale) matches Some(now) ==> {
            &&& 0 <= now <= scale
            &&& reported(Download::report(total, earlier), scale) matches Some(before)
            &&& before <= now
        },
        reported(Progress::Complete, scale) == Some(scale as int),
{
    if total > 0 {
        let a: int = if earlier < total { earlier as int } else { total as int };
        let b: int = if later < total { later as int } else { total as int };
        let t = total as int;
        let k = scale as int;
        assert(0 <= a * k <= b * k <= t * k) by (nonlinear_arith)
            requires
                0 <= a <= b <= t,
                0 <= k,
        ;
        assert(0 <= (a * k) / t <= (b * k) / t <= k) by (nonlinear_arith)
            requires
                0 <= a * k <= b * k <= t * k,
                t > 0,
        ;
    }
}

} // verus!
