//! Copying a checked image onto the selected boot volume without ever overwriting a file:
//! the decisions between the file operations, which the caller performs and reports back.
//! The image is written to a temporary file, renamed into place, and the directory is synced;
//! a dry run only checks that the destination is free.

use vstd::prelude::*;

use crate::image::error::ImageError;
use crate::text::{chars_to_string, push_str};

verus! {

/// The next file operation to perform, or the outcome.
pub enum CopyAction {
    /// Report whether the destination file exists.
    CheckDestination,
    /// Report whether the temporary file exists.
    CheckTemporary,
    /// Create the temporary file (it must not exist), write the image to it and sync it.
    WriteTemporary,
    /// Rename the temporary file to the destination, refusing to replace a file there.
    Rename,
    /// Remove the temporary file; its outcome is not used.
    RemoveTemporary,
    /// Sync the directory of the destination.
    SyncDirectory,
    /// The copy is complete (or, in a dry run, would be).
    Done,
    /// The copy failed with this error.
    Fail(ImageError),
}

/// The outcome of the last file operation.
pub enum CopyEvent {
    /// The checked file exists, or not.
    Exists(bool),
    /// The operation succeeded.
    Succeeded,
    /// The operation failed with this message.
    Failed(String),
}

/// What the copy waits for.
pub enum CopyPhase {
    AwaitDestination,
    AwaitTemporary,
    AwaitWrite,
    AwaitRename,
    AwaitRemove(String),
    AwaitSync,
    Finished,
}

pub enum CopyActionView {
    CheckDestination,
    CheckTemporary,
    WriteTemporary,
    Rename,
    RemoveTemporary,
    SyncDirectory,
    Done,
    Fail(Seq<char>),
}

pub enum CopyEventView {
    Exists(bool),
    Succeeded,
    Failed(Seq<char>),
}

pub enum CopyPhaseView {
    AwaitDestination,
    AwaitTemporary,
    AwaitWrite,
    AwaitRename,
    AwaitRemove(Seq<char>),
    AwaitSync,
    Finished,
}

/// The abstract state of a copy: its phase, whether it is a dry run, and the display texts of
/// the destination and temporary paths.
pub struct CopyView {
    pub phase: CopyPhaseView,
    pub dry_run: bool,
    pub destination: Seq<char>,
    pub temporary: Seq<char>,
}

impl View for CopyAction {
    type V = CopyActionView;

    open spec fn view(&self) -> CopyActionView {
        match self {
            CopyAction::CheckDestination => CopyActionView::CheckDestination,
            CopyAction::CheckTemporary => CopyActionView::CheckTemporary,
            CopyAction::WriteTemporary => CopyActionView::WriteTemporary,
            CopyAction::Rename => CopyActionView::Rename,
            CopyAction::RemoveTemporary => CopyActionView::RemoveTemporary,
            CopyAction::SyncDirectory => CopyActionView::SyncDirectory,
            CopyAction::Done => CopyActionView::Done,
            CopyAction::Fail(e) => CopyActionView::Fail(e@),
        }
    }
}

impl View for CopyEvent {
    type V = CopyEventView;

    open spec fn view(&self) -> CopyEventView {
        match self {
            CopyEvent::Exists(b) => CopyEventView::Exists(*b),
            CopyEvent::Succeeded => CopyEventView::Succeeded,
            CopyEvent::Failed(m) => CopyEventView::Failed(m@),
        }
    }
}

impl View for CopyPhase {
    type V = CopyPhaseView;

    open spec fn view(&self) -> CopyPhaseView {
        match self {
            CopyPhase::AwaitDestination => CopyPhaseView::AwaitDestination,
            CopyPhase::AwaitTemporary => CopyPhaseView::AwaitTemporary,
            CopyPhase::AwaitWrite => CopyPhaseView::AwaitWrite,
            CopyPhase::AwaitRename => CopyPhaseView::AwaitRename,
            CopyPhase::AwaitRemove(m) => CopyPhaseView::AwaitRemove(m@),
            CopyPhase::AwaitSync => CopyPhaseView::AwaitSync,
            CopyPhase::Finished => CopyPhaseView::Finished,
        }
    }
}

/// Whether `e` is an outcome of the operation that phase `p` waits for: an existence check
/// in the checking phases, success or failure otherwise.
pub open spec fn event_fits(p: CopyPhaseView, e: CopyEventView) -> bool {
    match p {
        CopyPhaseView::AwaitDestination | CopyPhaseView::AwaitTemporary => e is Exists,
        CopyPhaseView::Finished => false,
        _ => !(e is Exists),
    }
}

/// The state a copy starts in.
pub open spec fn copy_start(dry_run: bool, destination: Seq<char>, temporary: Seq<char>) -> CopyView {
    CopyView { phase: CopyPhaseView::AwaitDestination, dry_run, destination, temporary }
}

/// `s` in phase `p`.
pub open spec fn in_phase(s: CopyView, p: CopyPhaseView) -> CopyView {
    CopyView { phase: p, ..s }
}

/// The next state and action of the copy in state `s` on the outcome `e` of the operation it
/// waits for.
pub open spec fn copy_step(s: CopyView, e: CopyEventView) -> (CopyView, CopyActionView) {
    match s.phase {
        CopyPhaseView::AwaitDestination => match e {
            CopyEventView::Exists(true) => (
                in_phase(s, CopyPhaseView::Finished),
                CopyActionView::Fail("refusing to overwrite "@ + s.destination),
            ),
            _ => if s.dry_run {
                (in_phase(s, CopyPhaseView::Finished), CopyActionView::Done)
            } else {
                (in_phase(s, CopyPhaseView::AwaitTemporary), CopyActionView::CheckTemporary)
            },
        },
        CopyPhaseView::AwaitTemporary => match e {
            CopyEventView::Exists(true) => (
                in_phase(s, CopyPhaseView::Finished),
                CopyActionView::Fail("temporary file already exists: "@ + s.temporary),
            ),
            _ => (in_phase(s, CopyPhaseView::AwaitWrite), CopyActionView::WriteTemporary),
        },
        CopyPhaseView::AwaitWrite => match e {
            CopyEventView::Failed(m) => (
                in_phase(s, CopyPhaseView::Finished),
                CopyActionView::Fail(m),
            ),
            _ => (in_phase(s, CopyPhaseView::AwaitRename), CopyActionView::Rename),
        },
        CopyPhaseView::AwaitRename => match e {
            CopyEventView::Failed(m) => (
                in_phase(s, CopyPhaseView::AwaitRemove(m)),
                CopyActionView::RemoveTemporary,
            ),
            _ => (in_phase(s, CopyPhaseView::AwaitSync), CopyActionView::SyncDirectory),
        },
        CopyPhaseView::AwaitRemove(m) => (
            in_phase(s, CopyPhaseView::Finished),
            CopyActionView::Fail(m),
        ),
        CopyPhaseView::AwaitSync => match e {
            CopyEventView::Failed(m) => (
                in_phase(s, CopyPhaseView::Finished),
                CopyActionView::Fail(m),
            ),
            _ => (in_phase(s, CopyPhaseView::Finished), CopyActionView::Done),
        },
        CopyPhaseView::Finished => (s, CopyActionView::Done),
    }
}

/// A copy in progress.
pub struct CopySession {
    phase: CopyPhase,
    dry_run: bool,
    destination: String,
    temporary: String,
}

impl View for CopySession {
    type V = CopyView;

    closed spec fn view(&self) -> CopyView {
        CopyView {
            phase: self.phase@,
            dry_run: self.dry_run,
            destination: self.destination@,
            temporary: self.temporary@,
        }
    }
}

/// An error "{prefix}{text}".
fn prefixed(prefix: &str, text: &String) -> (e: ImageError)
    ensures
        e@ == prefix@ + text@,
{
    let mut out: Vec<char> = Vec::new();
    push_str(&mut out, prefix);
    push_str(&mut out, text.as_str());
    ImageError::new(chars_to_string(&out))
}

impl CopySession {
    /// Starts a copy to the destination and through the temporary file whose display texts
    /// are given; the first action checks the destination.
    pub fn new(dry_run: bool, destination: String, temporary: String) -> (r: (
        CopySession,
        CopyAction,
    ))
        ensures
            r.0@ == copy_start(dry_run, destination@, temporary@),
            r.1@ == CopyActionView::CheckDestination,
    {
        (CopySession { phase: CopyPhase::AwaitDestination, dry_run, destination, temporary }, CopyAction::CheckDestination)
    }

    /// Whether the copy has reached its outcome.
    pub fn is_finished(&self) -> (b: bool)
        ensures
            b == (self@.phase is Finished),
    {
        match self.phase {
            CopyPhase::Finished => true,
            _ => false,
        }
    }

    /// Advances the copy on the outcome of the operation it waited for and returns the next
    /// action.
    pub fn step(&mut self, event: CopyEvent) -> (a: CopyAction)
        requires
            event_fits(old(self)@.phase, event@),
        ensures
            (final(self)@, a@) == copy_step(old(self)@, event@),
    {
        let mut phase = CopyPhase::Finished;
        std::mem::swap(&mut phase, &mut self.phase);
        match phase {
            CopyPhase::AwaitDestination => match event {
                CopyEvent::Exists(true) => {
                    CopyAction::Fail(prefixed("refusing to overwrite ", &self.destination))
                },
                _ => if self.dry_run {
                    CopyAction::Done
                } else {
                    self.phase = CopyPhase::AwaitTemporary;
                    CopyAction::CheckTemporary
                },
            },
            CopyPhase::AwaitTemporary => match event {
                CopyEvent::Exists(true) => {
                    CopyAction::Fail(prefixed("temporary file already exists: ", &self.temporary))
                },
                _ => {
                    self.phase = CopyPhase::AwaitWrite;
                    CopyAction::WriteTemporary
                },
            },
            CopyPhase::AwaitWrite => match event {
                CopyEvent::Failed(m) => CopyAction::Fail(ImageError::new(m)),
                _ => {
                    self.phase = CopyPhase::AwaitRename;
                    CopyAction::Rename
                },
            },
            CopyPhase::AwaitRename => match event {
                CopyEvent::Failed(m) => {
                    self.phase = CopyPhase::AwaitRemove(m);
                    CopyAction::RemoveTemporary
                },
                _ => {
                    self.phase = CopyPhase::AwaitSync;
                    CopyAction::SyncDirectory
                },
            },
            CopyPhase::AwaitRemove(m) => CopyAction::Fail(ImageError::new(m)),
            CopyPhase::AwaitSync => match event {
                CopyEvent::Failed(m) => CopyAction::Fail(ImageError::new(m)),
                _ => CopyAction::Done,
            },
            CopyPhase::Finished => CopyAction::Done,
        }
    }
}

/// Whether action `a` changes files on the volume.
pub open spec fn changes_files(a: CopyActionView) -> bool {
    a is WriteTemporary || a is Rename || a is RemoveTemporary || a is SyncDirectory
}

/// A dry run checks that the destination is free and finishes: from its start, the step
/// on any outcome of the check finishes the copy without an action that changes files.
pub proof fn law_dry_run_changes_nothing(destination: Seq<char>, temporary: Seq<char>, e: CopyEventView)
    requires
        event_fits(copy_start(true, destination, temporary).phase, e),
    ensures
        ({
            let (next, action) = copy_step(copy_start(true, destination, temporary), e);
            &&& next.phase is Finished
            &&& !changes_files(action)
            &&& action is Done <==> e == CopyEventView::Exists(false)
        }),
{
}

/// The file operations of a copy come in order: the image is written only after both the
/// destination and the temporary file were found absent, renamed only after it was written,
/// and the directory synced only after the rename; a failed rename removes the temporary
/// file; and a real copy is done only after the sync succeeded.
pub proof fn law_copy_order(s: CopyView, e: CopyEventView)
    requires
        event_fits(s.phase, e),
    ensures
        ({
            let (next, action) = copy_step(s, e);
            &&& action is WriteTemporary ==> s.phase is AwaitTemporary && e == CopyEventView::Exists(
                false,
            )
            &&& action is CheckTemporary ==> s.phase is AwaitDestination && e == CopyEventView::Exists(
                false,
            ) && !s.dry_run
            &&& action is Rename ==> s.phase is AwaitWrite && e is Succeeded
            &&& action is SyncDirectory ==> s.phase is AwaitRename && e is Succeeded
            &&& action is RemoveTemporary ==> s.phase is AwaitRename && e is Failed
            &&& (action is Done && !s.dry_run) ==> s.phase is AwaitSync && e is Succeeded
            &&& next.dry_run == s.dry_run
        }),
{
}

/// A copy never replaces an existing file: when the destination exists, it fails with
/// "refusing to overwrite" and the destination's text, and performs nothing more.
pub proof fn law_refuses_existing_destination(s: CopyView)
    requires
        s.phase is AwaitDestination,
    ensures
        copy_step(s, CopyEventView::Exists(true)) == (
            in_phase(s, CopyPhaseView::Finished),
            CopyActionView::Fail("refusing to overwrite "@ + s.destination),
        ),
{
}

} // verus!
