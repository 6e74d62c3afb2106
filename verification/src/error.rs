//! Why an operation stopped.
use vstd::prelude::*;
use crate::world::Need;

verus! {

/// A request the controller refuses, with what the user needs to know.
#[derive(Debug)]
pub enum Refusal {
    /// A repository path that is empty, absolute, or leaves the repository.
    UnsafePath(String),
    /// Paths whose changes overlap, in order; nothing was changed.
    Conflict(Vec<String>),
    /// The merge conflicts with the human's recorded choices.
    HumanConflict(Vec<String>),
    /// A revision changes what a human chose after an earlier application.
    RevisionOverlap(Vec<String>),
    /// A file on disk no longer holds what the operation started from; nothing was written.
    FileChanged(String),
    InvalidTree,
    EditorDisconnected,
    UnsavedBuffers(Vec<String>),
    MissingProposal,
    NoProposal,
    CompareWhileBusy,
    NoProposalToCompare,
    NoFileSelected,
    SaveBufferFirst,
    OutsideRepository,
    BinaryComparison,
    NotUtf8,
    TooLargeToCompare,
    NoChangeHere,
    InvalidHunk,
    NoIdleProposal,
    NoRefinement,
    NotRefinement,
    ChangedProposalNeedsTour,
    BeginWhileBusy,
    MissingPendingBaseline,
    NoBuildToFinish,
    MissingBuildStart,
    UntouredChange,
    NoBuildToComplete,
    MissingBuildBaseline,
    CannotSwitch,
    UnknownProposal,
    ApplyNeedsTour,
    MissingApplicationBaseline,
    RepositoryTourOutsideDiscuss,
    NoActiveTour,
    StaleTour,
    UnknownStop,
    ProposalTourOpen,
    RevertNeedsApplied,
    UnknownChange,
    NoAppliedProposal,
    TourUntitled,
    UnknownTourFile,
    /// A stop's reading range does not fit its file: the file, first and last line.
    RangeOutOfBounds(String, usize, usize),
    TourTooLarge,
    /// A recorded write differs from the one the operation orders.
    WorldMismatch,
    /// A number argument is not a decimal number that fits.
    InvalidNumber,
    /// An unknown `/` command.
    UnknownAction,
    AgentBusy,
    EmptyMessage,
    CancelBeforeShutdown,
    UnsupportedVersion(u32),
    InvalidFrame,
    /// A file list names a path that is not UTF-8.
    NotUtf8Filename,
    /// A tree listing entry that cannot be read.
    InvalidTreeListing,
    /// A tree entry that is not a file, such as a submodule.
    UnsupportedTreeEntry,
    /// A controller address or state that belongs to another checkout.
    ForeignController,
    ControllerRejected,
    ControllerWithoutState,
}

/// Why an operation did not finish: it lacks an answer, or it refuses.
#[derive(Debug)]
pub enum Fault {
    Need(Need),
    Refused(Refusal),
}

} // verus!
