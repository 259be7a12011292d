//! The install and the removal of one tool version, as machines that say
//! which operation comes next and take its outcome. The caller performs the
//! operations; every decision is made here.
//!
//! An install fetches the archive into a staging file, makes a directory
//! that was not there before, unpacks the archive into it, takes the first
//! directory among the unpacked entries as the payload, and puts the payload
//! under the destination root by the target's name, in place of whatever
//! held that name before. The payload is renamed into place, or copied where
//! renaming fails. Where the name for the directory is taken, the install
//! goes on to the next name, up to a limit.

use crate::archive::{
    detect_format, extraction_dir, extraction_dir_name, find_payload_root, format_of,
    payload_index, ArchiveFormat, DirEntry,
};
use crate::error::InstallError;
use crate::text::{last_segment, last_segment_of};
use vstd::prelude::*;
use vstd::string::*;

verus! {

/// How the operation that was asked for last has ended.
#[derive(Debug, Clone)]
pub enum Outcome {
    /// It succeeded.
    Done,
    /// It failed.
    Failed,
    /// The immediate children of the listed directory, in the order found.
    Listed(Vec<DirEntry>),
    /// Whether the probed path exists; for a directory that was to be
    /// made, that its name is taken.
    Exists(bool),
}

/// Where an install stands. `payload` is the position of the payload among
/// the unpacked entries.
#[derive(Debug, Clone, Copy, PartialEq, Eq)]
pub enum Phase {
    /// Nothing has been asked for yet.
    Idle,
    Downloading,
    /// Making the directory to unpack into.
    MakingDir,
    Extracting,
    Listing,
    CreatingRoot { payload: usize },
    Probing { payload: usize },
    /// Removing what holds the target's name.
    Clearing { payload: usize },
    Renaming { payload: usize },
    Copying { payload: usize },
    /// Removing the unpacked payload after it was copied.
    DroppingPayload,
    DroppingExtracted,
    DroppingArchive,
    /// The payload is in place.
    Installed,
    /// The install has failed.
    Failed(InstallError),
}

/// The operation that the caller is to perform next.
#[derive(Debug, Clone, PartialEq, Eq)]
pub enum Step {
    /// Stream the archive from the install's address into a staging file
    /// of the given name.
    Download { file_name: String },
    /// Make a new directory of the given name beside the staging file,
    /// and say so if the name is taken.
    MakeDir { dir_name: String },
    /// Unpack the archive into the directory of the given name, which was
    /// made last.
    Extract { format: ArchiveFormat, dir_name: String },
    /// List the immediate children of the extraction directory.
    ListExtracted,
    /// Create the destination root, with the directories above it.
    CreateRoot,
    /// Say whether the target exists under the destination root.
    ProbeTarget,
    /// Remove the target with all that it holds.
    RemoveTarget,
    /// Rename the unpacked entry at the given position to the target.
    Rename { payload: usize },
    /// Copy the unpacked entry at the given position to the target.
    Copy { payload: usize },
    /// Remove the unpacked entry at the given position.
    RemovePayload { payload: usize },
    /// Remove the extraction directory.
    RemoveExtracted,
    /// Remove the staging file.
    RemoveArchive,
    /// Nothing more: the payload is in place, or the target is removed.
    Finished,
    /// Nothing more: the install or removal has failed.
    Failed(InstallError),
}

/// The mathematical value of a [`Step`].
pub enum StepView {
    Download { file_name: Seq<char> },
    MakeDir { dir_name: Seq<char> },
    Extract { format: ArchiveFormat, dir_name: Seq<char> },
    ListExtracted,
    CreateRoot,
    ProbeTarget,
    RemoveTarget,
    Rename { payload: usize },
    Copy { payload: usize },
    RemovePayload { payload: usize },
    RemoveExtracted,
    RemoveArchive,
    Finished,
    Failed(InstallError),
}

impl View for Step {
    type V = StepView;

    open spec fn view(&self) -> StepView {
        match self {
            Step::Download { file_name } => StepView::Download { file_name: file_name@ },
            Step::MakeDir { dir_name } => StepView::MakeDir { dir_name: dir_name@ },
            Step::Extract { format, dir_name } => StepView::Extract {
                format: *format,
                dir_name: dir_name@,
            },
            Step::ListExtracted => StepView::ListExtracted,
            Step::CreateRoot => StepView::CreateRoot,
            Step::ProbeTarget => StepView::ProbeTarget,
            Step::RemoveTarget => StepView::RemoveTarget,
            Step::Rename { payload } => StepView::Rename { payload: *payload },
            Step::Copy { payload } => StepView::Copy { payload: *payload },
            Step::RemovePayload { payload } => StepView::RemovePayload { payload: *payload },
            Step::RemoveExtracted => StepView::RemoveExtracted,
            Step::RemoveArchive => StepView::RemoveArchive,
            Step::Finished => StepView::Finished,
            Step::Failed(error) => StepView::Failed(*error),
        }
    }
}

impl StepView {
    /// What the user is told when the step begins, for the steps that
    /// take long.
    pub open spec fn announcement(self) -> Option<Seq<char>> {
        match self {
            StepView::Download { .. } => Some("Downloading (0%)"@),
            StepView::Extract { .. } => Some("Extracting..."@),
            _ => None,
        }
    }
}

impl Step {
    /// The text to show when the step begins, if it is one that takes
    /// long.
    pub fn announcement(&self) -> (r: Option<&'static str>)
        ensures
            match r {
                Some(text) => self@.announcement() == Some(text@),
                None => self@.announcement() is None,
            },
    {
        match self {
            Step::Download { .. } => Some("Downloading (0%)"),
            Step::Extract { .. } => Some("Extracting..."),
            _ => None,
        }
    }
}

/// How many names an install tries for its extraction directory before
/// it gives up.
pub const MAX_ATTEMPTS: u64 = 16;

/// What an install is given and keeps throughout.
pub struct Job {
    /// Where the archive is fetched from; for a staged archive, where it
    /// lies.
    pub url: Seq<char>,
    /// What tells this install's extraction directory from those of others.
    pub token: u64,
    /// Whether the archive is already there, so that it is neither fetched
    /// nor removed.
    pub staged: bool,
}

impl Job {
    /// The name of the extraction directory after `attempt` names were
    /// found taken.
    pub open spec fn dir(self, attempt: u64) -> Seq<char> {
        extraction_dir(self.token as nat, attempt as nat)
    }
}

/// An install as it goes on: how many names for the extraction directory
/// were found taken, the phase, and the step to perform.
pub struct Move {
    pub attempt: u64,
    pub phase: Phase,
    pub step: StepView,
}

/// The failure of an install with the given error.
pub open spec fn fail(attempt: u64, error: InstallError) -> Move {
    Move { attempt, phase: Phase::Failed(error), step: StepView::Failed(error) }
}

/// What follows once the archive is there: the first try at making the
/// extraction directory, if the archive's file name has a supported suffix.
pub open spec fn with_archive(job: Job, attempt: u64) -> Move {
    if format_of(last_segment(job.url)) is Some {
        Move {
            attempt,
            phase: Phase::MakingDir,
            step: StepView::MakeDir { dir_name: job.dir(attempt) },
        }
    } else {
        fail(attempt, InstallError::UnsupportedFormat)
    }
}

/// What follows `phase` on `outcome`, for the install `job` that has found
/// `attempt` names taken.
pub open spec fn transition(job: Job, attempt: u64, phase: Phase, outcome: Outcome) -> Move {
    let go = |phase: Phase, step: StepView| Move { attempt, phase, step };
    match phase {
        Phase::Idle => if job.staged {
            with_archive(job, attempt)
        } else {
            go(Phase::Downloading, StepView::Download { file_name: last_segment(job.url) })
        },
        Phase::Downloading => if outcome is Done {
            with_archive(job, attempt)
        } else {
            fail(attempt, InstallError::DownloadFailed)
        },
        Phase::MakingDir => if outcome is Done {
            match format_of(last_segment(job.url)) {
                Some(format) => go(
                    Phase::Extracting,
                    StepView::Extract { format, dir_name: job.dir(attempt) },
                ),
                None => fail(attempt, InstallError::UnsupportedFormat),
            }
        } else if outcome == Outcome::Exists(true) && attempt + 1 < MAX_ATTEMPTS {
            Move {
                attempt: (attempt + 1) as u64,
                phase: Phase::MakingDir,
                step: StepView::MakeDir { dir_name: job.dir((attempt + 1) as u64) },
            }
        } else {
            fail(attempt, InstallError::Filesystem)
        },
        Phase::Extracting => if outcome is Done {
            go(Phase::Listing, StepView::ListExtracted)
        } else {
            fail(attempt, InstallError::Filesystem)
        },
        Phase::Listing => match outcome {
            Outcome::Listed(entries) => match payload_index(entries@) {
                Some(i) => go(Phase::CreatingRoot { payload: i as usize }, StepView::CreateRoot),
                None => fail(attempt, InstallError::NoPayloadDirectory),
            },
            _ => fail(attempt, InstallError::Filesystem),
        },
        Phase::CreatingRoot { payload } => if outcome is Done {
            go(Phase::Probing { payload }, StepView::ProbeTarget)
        } else {
            fail(attempt, InstallError::Filesystem)
        },
        Phase::Probing { payload } => if outcome == Outcome::Exists(true) {
            go(Phase::Clearing { payload }, StepView::RemoveTarget)
        } else {
            go(Phase::Renaming { payload }, StepView::Rename { payload })
        },
        Phase::Clearing { payload } => if outcome is Done {
            go(Phase::Renaming { payload }, StepView::Rename { payload })
        } else {
            fail(attempt, InstallError::Filesystem)
        },
        Phase::Renaming { payload } => if outcome is Done {
            go(Phase::DroppingExtracted, StepView::RemoveExtracted)
        } else {
            go(Phase::Copying { payload }, StepView::Copy { payload })
        },
        Phase::Copying { payload } => if outcome is Done {
            go(Phase::DroppingPayload, StepView::RemovePayload { payload })
        } else {
            fail(attempt, InstallError::Filesystem)
        },
        Phase::DroppingPayload => go(Phase::DroppingExtracted, StepView::RemoveExtracted),
        Phase::DroppingExtracted => if job.staged {
            go(Phase::Installed, StepView::Finished)
        } else {
            go(Phase::DroppingArchive, StepView::RemoveArchive)
        },
        Phase::DroppingArchive => go(Phase::Installed, StepView::Finished),
        Phase::Installed => go(Phase::Installed, StepView::Finished),
        Phase::Failed(error) => fail(attempt, error),
    }
}

/// The install of one archive under one name.
#[derive(Debug, Clone)]
pub struct Installer {
    /// Where the archive is fetched from; for a staged archive, where it
    /// lies.
    pub download_url: String,
    /// The name that the payload gets under the destination root.
    pub target_name: String,
    /// What tells this install's extraction directory from those of others.
    pub token: u64,
    /// Whether the archive is already there.
    pub staged: bool,
    /// How many names for the extraction directory were found taken.
    pub attempt: u64,
    pub phase: Phase,
}

impl Installer {
    /// What the install is given.
    pub open spec fn job(&self) -> Job {
        Job { url: self.download_url@, token: self.token, staged: self.staged }
    }

    /// Where the install stands, with `step` as the step to perform.
    pub open spec fn state(&self, step: StepView) -> Move {
        Move { attempt: self.attempt, phase: self.phase, step }
    }

    /// An install that has not started, of the archive to fetch from
    /// `download_url`.
    pub fn new(download_url: &str, target_name: &str, token: u64) -> (r: Installer)
        ensures
            r.job() == (Job { url: download_url@, token, staged: false }),
            r.target_name@ == target_name@,
            r.attempt == 0,
            r.phase == Phase::Idle,
    {
        Installer {
            download_url: String::from_str(download_url),
            target_name: String::from_str(target_name),
            token,
            staged: false,
            attempt: 0,
            phase: Phase::Idle,
        }
    }

    /// An install that has not started, of the archive that lies at
    /// `archive_path`: it is not fetched, and it is left where it is. Of the
    /// path only the file name is read, for the archive's format.
    pub fn staged(archive_path: &str, target_name: &str, token: u64) -> (r: Installer)
        ensures
            r.job() == (Job { url: archive_path@, token, staged: true }),
            r.target_name@ == target_name@,
            r.attempt == 0,
            r.phase == Phase::Idle,
    {
        Installer {
            download_url: String::from_str(archive_path),
            target_name: String::from_str(target_name),
            token,
            staged: true,
            attempt: 0,
            phase: Phase::Idle,
        }
    }

    /// Goes on to `phase`.
    fn go(&mut self, phase: Phase)
        ensures
            final(self).phase == phase,
            final(self).attempt == old(self).attempt,
            final(self).job() == old(self).job(),
            final(self).target_name == old(self).target_name,
    {
        self.phase = phase;
    }

    /// Ends the install with `error`.
    fn fail(&mut self, error: InstallError) -> (step: Step)
        ensures
            final(self).state(step@) == fail(old(self).attempt, error),
            final(self).job() == old(self).job(),
            final(self).target_name == old(self).target_name,
    {
        self.phase = Phase::Failed(error);
        Step::Failed(error)
    }

    /// Goes on with the archive there.
    fn with_archive(&mut self) -> (step: Step)
        ensures
            final(self).state(step@) == with_archive(old(self).job(), old(self).attempt),
            final(self).job() == old(self).job(),
            final(self).target_name == old(self).target_name,
    {
        let file_name = last_segment_of(self.download_url.as_str());
        match detect_format(file_name.as_str()) {
            Ok(_) => {
                self.phase = Phase::MakingDir;
                Step::MakeDir { dir_name: extraction_dir_name(self.token, self.attempt) }
            },
            Err(error) => self.fail(error),
        }
    }

    /// Takes the outcome of the step asked for last and says what to do
    /// next. The first call starts the install, whatever `outcome` is.
    pub fn advance(&mut self, outcome: Outcome) -> (step: Step)
        ensures
            final(self).state(step@) == transition(
                old(self).job(),
                old(self).attempt,
                old(self).phase,
                outcome,
            ),
            final(self).job() == old(self).job(),
            final(self).target_name == old(self).target_name,
    {
        match self.phase {
            Phase::Idle => {
                if self.staged {
                    self.with_archive()
                } else {
                    self.go(Phase::Downloading);
                    Step::Download { file_name: last_segment_of(self.download_url.as_str()) }
                }
            },
            Phase::Downloading => match outcome {
                Outcome::Done => self.with_archive(),
                _ => self.fail(InstallError::DownloadFailed),
            },
            Phase::MakingDir => match outcome {
                Outcome::Done => {
                    let file_name = last_segment_of(self.download_url.as_str());
                    match detect_format(file_name.as_str()) {
                        Ok(format) => {
                            self.go(Phase::Extracting);
                            Step::Extract {
                                format,
                                dir_name: extraction_dir_name(self.token, self.attempt),
                            }
                        },
                        Err(error) => self.fail(error),
                    }
                },
                Outcome::Exists(true) => {
                    if self.attempt < MAX_ATTEMPTS - 1 {
                        self.attempt = self.attempt + 1;
                        Step::MakeDir { dir_name: extraction_dir_name(self.token, self.attempt) }
                    } else {
                        self.fail(InstallError::Filesystem)
                    }
                },
                _ => self.fail(InstallError::Filesystem),
            },
            Phase::Extracting => match outcome {
                Outcome::Done => {
                    self.go(Phase::Listing);
                    Step::ListExtracted
                },
                _ => self.fail(InstallError::Filesystem),
            },
            Phase::Listing => match outcome {
                Outcome::Listed(entries) => match find_payload_root(&entries) {
                    Some(payload) => {
                        self.go(Phase::CreatingRoot { payload });
                        Step::CreateRoot
                    },
                    None => self.fail(InstallError::NoPayloadDirectory),
                },
                _ => self.fail(InstallError::Filesystem),
            },
            Phase::CreatingRoot { payload } => match outcome {
                Outcome::Done => {
                    self.go(Phase::Probing { payload });
                    Step::ProbeTarget
                },
                _ => self.fail(InstallError::Filesystem),
            },
            Phase::Probing { payload } => match outcome {
                Outcome::Exists(true) => {
                    self.go(Phase::Clearing { payload });
                    Step::RemoveTarget
                },
                _ => {
                    self.go(Phase::Renaming { payload });
                    Step::Rename { payload }
                },
            },
            Phase::Clearing { payload } => match outcome {
                Outcome::Done => {
                    self.go(Phase::Renaming { payload });
                    Step::Rename { payload }
                },
                _ => self.fail(InstallError::Filesystem),
            },
            Phase::Renaming { payload } => match outcome {
                Outcome::Done => {
                    self.go(Phase::DroppingExtracted);
                    Step::RemoveExtracted
                },
                _ => {
                    self.go(Phase::Copying { payload });
                    Step::Copy { payload }
                },
            },
            Phase::Copying { payload } => match outcome {
                Outcome::Done => {
                    self.go(Phase::DroppingPayload);
                    Step::RemovePayload { payload }
                },
                _ => self.fail(InstallError::Filesystem),
            },
            Phase::DroppingPayload => {
                self.go(Phase::DroppingExtracted);
                Step::RemoveExtracted
            },
            Phase::DroppingExtracted => {
                if self.staged {
                    self.go(Phase::Installed);
                    Step::Finished
                } else {
                    self.go(Phase::DroppingArchive);
                    Step::RemoveArchive
                }
            },
            Phase::DroppingArchive => {
                self.go(Phase::Installed);
                Step::Finished
            },
            Phase::Installed => Step::Finished,
            Phase::Failed(error) => Step::Failed(error),
        }
    }
}

/// How far an install is from its end, counted in steps, when `attempt`
/// names for its extraction directory were found taken.
pub open spec fn steps_left(attempt: u64, phase: Phase) -> nat {
    match phase {
        Phase::Idle => (13 + MAX_ATTEMPTS) as nat,
        Phase::Downloading => (12 + MAX_ATTEMPTS) as nat,
        Phase::MakingDir => if attempt < MAX_ATTEMPTS {
            (11 + MAX_ATTEMPTS - attempt) as nat
        } else {
            11
        },
        Phase::Extracting => 10,
        Phase::Listing => 9,
        Phase::CreatingRoot { .. } => 8,
        Phase::Probing { .. } => 7,
        Phase::Clearing { .. } => 6,
        Phase::Renaming { .. } => 5,
        Phase::Copying { .. } => 4,
        Phase::DroppingPayload => 3,
        Phase::DroppingExtracted => 2,
        Phase::DroppingArchive => 1,
        Phase::Installed => 0,
        Phase::Failed(_) => 0,
    }
}

/// Every step brings an install nearer to its end, and an install that
/// has ended stays as it is.
pub proof fn lemma_install_advances(job: Job, attempt: u64, phase: Phase, outcome: Outcome)
    ensures
        ({
            let next = transition(job, attempt, phase, outcome);
            &&& steps_left(attempt, phase) > 0 ==> steps_left(next.attempt, next.phase) < steps_left(
                attempt,
                phase,
            )
            &&& steps_left(attempt, phase) == 0 ==> next.phase == phase && next.attempt == attempt
        }),
{
}

/// Where an install stands after the outcomes `outcomes`, taken in order
/// from `phase` on.
pub open spec fn state_after(job: Job, attempt: u64, phase: Phase, outcomes: Seq<Outcome>) -> (
    u64,
    Phase,
)
    decreases outcomes.len(),
{
    if outcomes.len() == 0 {
        (attempt, phase)
    } else {
        let before = state_after(job, attempt, phase, outcomes.drop_last());
        let next = transition(job, before.0, before.1, outcomes.last());
        (next.attempt, next.phase)
    }
}

/// An install ends: after as many outcomes as it had steps left, whatever
/// they are, it has succeeded or failed.
pub proof fn lemma_install_ends(job: Job, attempt: u64, phase: Phase, outcomes: Seq<Outcome>)
    ensures
        ({
            let end = state_after(job, attempt, phase, outcomes);
            &&& steps_left(end.0, end.1) + outcomes.len() <= steps_left(attempt, phase)
                || steps_left(end.0, end.1) == 0
            &&& outcomes.len() >= 13 + MAX_ATTEMPTS ==> end.1 is Installed || end.1 is Failed
        }),
    decreases outcomes.len(),
{
    if outcomes.len() > 0 {
        lemma_install_ends(job, attempt, phase, outcomes.drop_last());
        let before = state_after(job, attempt, phase, outcomes.drop_last());
        lemma_install_advances(job, before.0, before.1, outcomes.last());
    }
}

/// Where a removal stands.
#[derive(Debug, Clone, Copy, PartialEq, Eq)]
pub enum RemovalPhase {
    /// Nothing has been asked for yet.
    Idle,
    Probing,
    Removing,
    /// The target is gone.
    Removed,
    /// The removal has failed.
    Failed(InstallError),
}

/// The phase that follows `phase` on `outcome` in a removal, and the step
/// to perform then.
pub open spec fn removal_transition(phase: RemovalPhase, outcome: Outcome) -> (
    RemovalPhase,
    StepView,
) {
    match phase {
        RemovalPhase::Idle => (RemovalPhase::Probing, StepView::ProbeTarget),
        RemovalPhase::Probing => if outcome == Outcome::Exists(true) {
            (RemovalPhase::Removing, StepView::RemoveTarget)
        } else {
            (
                RemovalPhase::Failed(InstallError::NotFound),
                StepView::Failed(InstallError::NotFound),
            )
        },
        RemovalPhase::Removing => if outcome is Done {
            (RemovalPhase::Removed, StepView::Finished)
        } else {
            (
                RemovalPhase::Failed(InstallError::Filesystem),
                StepView::Failed(InstallError::Filesystem),
            )
        },
        RemovalPhase::Removed => (RemovalPhase::Removed, StepView::Finished),
        RemovalPhase::Failed(error) => (RemovalPhase::Failed(error), StepView::Failed(error)),
    }
}

/// The removal of what is installed under one name.
#[derive(Debug, Clone)]
pub struct Uninstaller {
    /// The name under the install root of what is to be removed.
    pub target_name: String,
    pub phase: RemovalPhase,
}

impl Uninstaller {
    /// A removal that has not started.
    pub fn new(target_name: &str) -> (r: Uninstaller)
        ensures
            r.target_name@ == target_name@,
            r.phase == RemovalPhase::Idle,
    {
        Uninstaller { target_name: String::from_str(target_name), phase: RemovalPhase::Idle }
    }

    /// Takes the outcome of the step asked for last and says what to do
    /// next. The first call starts the removal, whatever `outcome` is.
    pub fn advance(&mut self, outcome: Outcome) -> (step: Step)
        ensures
            (final(self).phase, step@) == removal_transition(old(self).phase, outcome),
            final(self).target_name == old(self).target_name,
    {
        match self.phase {
            RemovalPhase::Idle => {
                self.phase = RemovalPhase::Probing;
                Step::ProbeTarget
            },
            RemovalPhase::Probing => match outcome {
                Outcome::Exists(true) => {
                    self.phase = RemovalPhase::Removing;
                    Step::RemoveTarget
                },
                _ => {
                    self.phase = RemovalPhase::Failed(InstallError::NotFound);
                    Step::Failed(InstallError::NotFound)
                },
            },
            RemovalPhase::Removing => match outcome {
                Outcome::Done => {
                    self.phase = RemovalPhase::Removed;
                    Step::Finished
                },
                _ => {
                    self.phase = RemovalPhase::Failed(InstallError::Filesystem);
                    Step::Failed(InstallError::Filesystem)
                },
            },
            RemovalPhase::Removed => Step::Finished,
            RemovalPhase::Failed(error) => Step::Failed(error),
        }
    }
}

} // verus!
