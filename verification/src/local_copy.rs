//! Renames and copies of local files and directories.
use std::path::PathBuf;
use vstd::prelude::*;
use crate::error::{io_error, unit_view, ErrorView, IoFailure, VfsError};
use crate::local::FileMeta;
use crate::paths::path_of;
use crate::text::concat2;
use crate::uri::{display, UriView, VfsUri};

verus! {

/// The code of the operating system for a rename across devices.
pub const EXDEV: i32 = 18;

/// What the transfer of a file or directory asks for next.
#[derive(Clone, Copy, Debug, PartialEq, Eq, Structural)]
pub enum TransferAction {
    /// Look whether the target is there.
    LookForTarget,
    /// Rename the source to the target.
    Rename,
    /// Look up the metadata of the source, its links not followed.
    Examine,
    /// Copy the source, a file, to the target.
    CopyFile,
    /// Copy the source, a directory, to the target with all that is below it.
    CopyDirectory,
    /// Remove the source, a file.
    RemoveSource,
    /// The transfer is over.
    Finish,
}

/// What came of an action.
#[derive(Debug)]
pub enum TransferReply {
    /// It was done, or it failed.
    Done(Result<(), IoFailure>),
    /// The target is there or not; `None` where that could not be seen.
    Target(Option<bool>),
    /// The metadata of the source.
    Meta(Result<FileMeta, IoFailure>),
    /// The copy of a directory ended.
    Directory(Result<(), VfsError>),
}

pub enum TransferReplyView {
    Done(Result<(), IoFailure>),
    Target(Option<bool>),
    Meta(Result<FileMeta, IoFailure>),
    Directory(Result<(), ErrorView>),
}

impl View for TransferReply {
    type V = TransferReplyView;

    open spec fn view(&self) -> TransferReplyView {
        match self {
            TransferReply::Done(r) => TransferReplyView::Done(*r),
            TransferReply::Target(t) => TransferReplyView::Target(*t),
            TransferReply::Meta(m) => TransferReplyView::Meta(*m),
            TransferReply::Directory(r) => TransferReplyView::Directory(unit_view(*r)),
        }
    }
}

/// Where a transfer stands: what it waits for.
#[derive(Debug)]
pub enum TransferPhase {
    Looking,
    Renaming,
    Examining,
    CopyingFile,
    CopyingDirectory,
    RemovingSource,
    Ended(Result<(), VfsError>),
}

pub enum TransferPhaseView {
    Looking,
    Renaming,
    Examining,
    CopyingFile,
    CopyingDirectory,
    RemovingSource,
    Ended(Result<(), ErrorView>),
}

impl View for TransferPhase {
    type V = TransferPhaseView;

    open spec fn view(&self) -> TransferPhaseView {
        match self {
            TransferPhase::Looking => TransferPhaseView::Looking,
            TransferPhase::Renaming => TransferPhaseView::Renaming,
            TransferPhase::Examining => TransferPhaseView::Examining,
            TransferPhase::CopyingFile => TransferPhaseView::CopyingFile,
            TransferPhase::CopyingDirectory => TransferPhaseView::CopyingDirectory,
            TransferPhase::RemovingSource => TransferPhaseView::RemovingSource,
            TransferPhase::Ended(r) => TransferPhaseView::Ended(unit_view(*r)),
        }
    }
}

/// The rename or copy of a local file or directory.
#[derive(Debug)]
pub struct LocalTransfer {
    from: VfsUri,
    to: VfsUri,
    keep_source: bool,
    phase: TransferPhase,
}

#[verifier::ext_equal]
pub struct LocalTransferView {
    pub from: UriView,
    pub to: UriView,
    /// A copy keeps its source, a rename does not.
    pub keep_source: bool,
    pub phase: TransferPhaseView,
}

impl View for LocalTransfer {
    type V = LocalTransferView;

    closed spec fn view(&self) -> LocalTransferView {
        LocalTransferView {
            from: self.from@,
            to: self.to@,
            keep_source: self.keep_source,
            phase: self.phase@,
        }
    }
}

/// The message of a directory that cannot be renamed across devices.
pub open spec fn cross_device(from: UriView) -> ErrorView {
    ErrorView::Io {
        message: "cross-device rename of a directory is not supported for "@ + display(from),
    }
}

impl LocalTransferView {
    pub open spec fn at(self, phase: TransferPhaseView, action: TransferAction) -> (
        LocalTransferView,
        TransferAction,
    ) {
        (LocalTransferView { phase, ..self }, action)
    }

    pub open spec fn ends(self, r: Result<(), ErrorView>) -> (LocalTransferView, TransferAction) {
        self.at(TransferPhaseView::Ended(r), TransferAction::Finish)
    }

    /// A copy neither renames nor removes its source, and a rename copies no
    /// directory.
    pub open spec fn wf(self) -> bool {
        match self.phase {
            TransferPhaseView::Renaming => !self.keep_source,
            TransferPhaseView::RemovingSource => !self.keep_source,
            TransferPhaseView::CopyingDirectory => self.keep_source,
            _ => true,
        }
    }

    /// The transfer itself begins: a rename is tried, a copy looks at its
    /// source.
    pub open spec fn proceeds(self) -> (LocalTransferView, TransferAction) {
        if self.keep_source {
            self.at(TransferPhaseView::Examining, TransferAction::Examine)
        } else {
            self.at(TransferPhaseView::Renaming, TransferAction::Rename)
        }
    }

    /// The first action: a look at the target, where it must not be
    /// overwritten.
    pub open spec fn begun(self, overwrite: bool) -> (LocalTransferView, TransferAction) {
        if overwrite {
            self.proceeds()
        } else {
            self.at(TransferPhaseView::Looking, TransferAction::LookForTarget)
        }
    }

    /// The reply is one to what the transfer waits for.
    pub open spec fn awaits(self, reply: TransferReplyView) -> bool {
        match self.phase {
            TransferPhaseView::Looking => reply is Target,
            TransferPhaseView::Examining => reply is Meta,
            TransferPhaseView::CopyingDirectory => reply is Directory,
            TransferPhaseView::Ended(_) => false,
            _ => reply is Done,
        }
    }

    /// What follows from a reply.  A rename across devices is made by copying
    /// the file and removing its source.
    pub open spec fn stepped(self, reply: TransferReplyView) -> (
        LocalTransferView,
        TransferAction,
    ) {
        match (self.phase, reply) {
            (TransferPhaseView::Looking, TransferReplyView::Target(seen)) => if seen == Some(true) {
                self.ends(Err(ErrorView::AlreadyExists(self.to)))
            } else {
                self.proceeds()
            },
            (TransferPhaseView::Renaming, TransferReplyView::Done(Err(e))) => if e.raw_os_error
                == Some(EXDEV) {
                self.at(TransferPhaseView::Examining, TransferAction::Examine)
            } else {
                self.ends(Err(io_error(e, self.from)))
            },
            (TransferPhaseView::Examining, TransferReplyView::Meta(Err(e))) => self.ends(
                Err(io_error(e, self.from)),
            ),
            (TransferPhaseView::Examining, TransferReplyView::Meta(Ok(m))) => if !m.is_dir {
                self.at(TransferPhaseView::CopyingFile, TransferAction::CopyFile)
            } else if self.keep_source {
                self.at(TransferPhaseView::CopyingDirectory, TransferAction::CopyDirectory)
            } else {
                self.ends(Err(cross_device(self.from)))
            },
            (TransferPhaseView::CopyingFile, TransferReplyView::Done(Ok(()))) => if self.keep_source {
                self.ends(Ok(()))
            } else {
                self.at(TransferPhaseView::RemovingSource, TransferAction::RemoveSource)
            },
            (TransferPhaseView::CopyingDirectory, TransferReplyView::Directory(r)) => self.ends(r),
            (_, TransferReplyView::Done(Err(e))) => self.ends(Err(io_error(e, self.from))),
            _ => self.ends(Ok(())),
        }
    }
}

/// How a transfer begins: both uris name local paths, which come with it, or
/// the first that names none decides the error.
pub open spec fn begins(
    r: Result<(LocalTransfer, PathBuf, PathBuf, TransferAction), VfsError>,
    from: UriView,
    to: UriView,
    keep_source: bool,
    overwrite: bool,
) -> bool {
    match r {
        Ok((t, from_path, to_path, action)) => {
            &&& from.local_pieces() is Ok
            &&& from_path == path_of(from.local_pieces()->Ok_0)
            &&& to.local_pieces() is Ok
            &&& to_path == path_of(to.local_pieces()->Ok_0)
            &&& t@.wf()
            &&& (t@, action) == (LocalTransferView {
                from,
                to,
                keep_source,
                phase: TransferPhaseView::Looking,
            }).begun(overwrite)
        },
        Err(e) => match from.local_pieces() {
            Err(first) => e@ == first,
            Ok(_) => to.local_pieces() == Err::<Seq<Seq<char>>, ErrorView>(e@),
        },
    }
}

impl LocalTransfer {
    fn begin(from: &VfsUri, to: &VfsUri, keep_source: bool, overwrite: bool) -> (r: (
        LocalTransfer,
        TransferAction,
    ))
        ensures
            r.0@.wf(),
            (r.0@, r.1) == (LocalTransferView {
                from: from@,
                to: to@,
                keep_source,
                phase: TransferPhaseView::Looking,
            }).begun(overwrite),
    {
        let mut t = LocalTransfer {
            from: from.clone(),
            to: to.clone(),
            keep_source,
            phase: TransferPhase::Looking,
        };
        if overwrite {
            let action = t.proceed();
            (t, action)
        } else {
            (t, TransferAction::LookForTarget)
        }
    }

    fn locate(from: &VfsUri, to: &VfsUri, keep_source: bool, overwrite: bool) -> (r: Result<
        (LocalTransfer, PathBuf, PathBuf, TransferAction),
        VfsError,
    >)
        ensures
            begins(r, from@, to@, keep_source, overwrite),
    {
        match from.to_local_path() {
            Err(e) => Err(e),
            Ok(from_path) => match to.to_local_path() {
                Err(e) => Err(e),
                Ok(to_path) => {
                    let (t, action) = LocalTransfer::begin(from, to, keep_source, overwrite);
                    Ok((t, from_path, to_path, action))
                },
            },
        }
    }

    /// A rename, the paths of the source and the target, and the first action.
    pub fn rename(from: &VfsUri, to: &VfsUri, overwrite: bool) -> (r: Result<
        (LocalTransfer, PathBuf, PathBuf, TransferAction),
        VfsError,
    >)
        ensures
            begins(r, from@, to@, false, overwrite),
    {
        LocalTransfer::locate(from, to, false, overwrite)
    }

    /// A copy, the paths of the source and the target, and the first action.
    pub fn copy_within(from: &VfsUri, to: &VfsUri, overwrite: bool) -> (r: Result<
        (LocalTransfer, PathBuf, PathBuf, TransferAction),
        VfsError,
    >)
        ensures
            begins(r, from@, to@, true, overwrite),
    {
        LocalTransfer::locate(from, to, true, overwrite)
    }

    fn proceed(&mut self) -> (r: TransferAction)
        ensures
            (final(self)@, r) == old(self)@.proceeds(),
    {
        if self.keep_source {
            self.phase = TransferPhase::Examining;
            TransferAction::Examine
        } else {
            self.phase = TransferPhase::Renaming;
            TransferAction::Rename
        }
    }

    fn end(&mut self, result: Result<(), VfsError>) -> (r: TransferAction)
        ensures
            (final(self)@, r) == old(self)@.ends(unit_view(result)),
    {
        self.phase = TransferPhase::Ended(result);
        TransferAction::Finish
    }

    fn fail(&mut self, e: IoFailure) -> (r: TransferAction)
        ensures
            (final(self)@, r) == old(self)@.ends(Err(io_error(e, old(self)@.from))),
    {
        let error = VfsError::from_io(e, &self.from);
        self.end(Err(error))
    }

    /// Takes in what came of the last action and gives the next.
    pub fn step(&mut self, reply: TransferReply) -> (r: TransferAction)
        requires
            old(self)@.wf(),
            old(self)@.awaits(reply@),
        ensures
            final(self)@.wf(),
            (final(self)@, r) == old(self)@.stepped(reply@),
    {
        match (&self.phase, reply) {
            (TransferPhase::Looking, TransferReply::Target(seen)) => {
                let there = match seen {
                    Some(b) => b,
                    None => false,
                };
                if there {
                    let to = self.to.clone();
                    self.end(Err(VfsError::AlreadyExists(to)))
                } else {
                    self.proceed()
                }
            },
            (TransferPhase::Renaming, TransferReply::Done(Err(e))) => {
                let across = match e.raw_os_error {
                    Some(code) => code == EXDEV,
                    None => false,
                };
                if across {
                    self.phase = TransferPhase::Examining;
                    TransferAction::Examine
                } else {
                    self.fail(e)
                }
            },
            (TransferPhase::Examining, TransferReply::Meta(Err(e))) => self.fail(e),
            (TransferPhase::Examining, TransferReply::Meta(Ok(m))) => {
                if !m.is_dir {
                    self.phase = TransferPhase::CopyingFile;
                    TransferAction::CopyFile
                } else if self.keep_source {
                    self.phase = TransferPhase::CopyingDirectory;
                    TransferAction::CopyDirectory
                } else {
                    let text = self.from.to_string();
                    let message = concat2(
                        "cross-device rename of a directory is not supported for ",
                        text.as_str(),
                    );
                    self.end(Err(VfsError::Io { message }))
                }
            },
            (TransferPhase::CopyingFile, TransferReply::Done(Ok(()))) => {
                if self.keep_source {
                    self.end(Ok(()))
                } else {
                    self.phase = TransferPhase::RemovingSource;
                    TransferAction::RemoveSource
                }
            },
            (TransferPhase::CopyingDirectory, TransferReply::Directory(r)) => self.end(r),
            (_, TransferReply::Done(Err(e))) => self.fail(e),
            _ => self.end(Ok(())),
        }
    }

    /// How the transfer ended.
    pub fn finish(self) -> (r: Result<(), VfsError>)
        requires
            self@.phase is Ended,
        ensures
            self@.phase == TransferPhaseView::Ended(unit_view(r)),
    {
        match self.phase {
            TransferPhase::Ended(r) => r,
            _ => Ok(()),
        }
    }
}

/// The source of a rename is removed only after it was copied, and the source
/// of a copy never.
pub proof fn law_source_is_removed_only_after_its_copy(
    t: LocalTransferView,
    reply: TransferReplyView,
    overwrite: bool,
)
    requires
        t.wf(),
        t.awaits(reply),
    ensures
        t.stepped(reply).0.wf(),
        t.stepped(reply).1 == TransferAction::RemoveSource ==> t.phase is CopyingFile
            && !t.keep_source && (reply matches TransferReplyView::Done(r) && r is Ok),
        t.keep_source ==> t.stepped(reply).1 != TransferAction::Rename && t.stepped(reply).1
            != TransferAction::RemoveSource,
        t.keep_source ==> t.begun(overwrite).1 != TransferAction::Rename && t.begun(overwrite).1
            != TransferAction::RemoveSource,
{
}

/// Without `overwrite` a target that is there ends the transfer.
pub proof fn law_target_in_the_way_is_refused(t: LocalTransferView)
    ensures
        t.begun(false).1 == TransferAction::LookForTarget,
        t.begun(false).0.stepped(TransferReplyView::Target(Some(true))) == t.ends(
            Err(ErrorView::AlreadyExists(t.to)),
        ),
{
}

/// What the copy of a directory asks for next.
///
/// Each action but `Finish` is for what `place` names: the names that lead from
/// the directory that is copied to the entry in hand, and in the same way from
/// the target to the target of the entry.
#[derive(Clone, Copy, Debug, PartialEq, Eq, Structural)]
pub enum DirAction {
    /// Make the target of the directory in hand, with those above it.
    MakeDir,
    /// Open the directory in hand; it is the innermost now.
    OpenDir,
    /// Take the next entry of the innermost directory, which is in hand.
    NextEntry,
    /// See whether the entry in hand is a directory.
    Classify,
    /// Copy the entry in hand, a file, to its target.
    CopyFile,
    /// Close the innermost directory, which is in hand.
    CloseDir,
    /// The copy is over.
    Finish,
}

/// What came of an action; a failure comes with its message.
#[derive(Debug)]
pub enum DirReply<N> {
    /// It was done, or it failed.
    Done(Result<(), String>),
    /// There is an entry with the name or none is left; the copy may have been
    /// cancelled meanwhile.
    Entry { there: Result<Option<N>, String>, cancelled: bool },
    /// The entry is a directory or not.
    Class(Result<bool, String>),
}

/// Where the copy of a directory stands: what it waits for.
#[derive(Debug)]
pub enum DirPhase {
    Making,
    Opening,
    Reading,
    Classifying,
    Copying,
    Closing,
    Ended(Result<(), VfsError>),
}

pub enum DirPhaseView {
    Making,
    Opening,
    Reading,
    Classifying,
    Copying,
    Closing,
    Ended(Result<(), ErrorView>),
}

impl View for DirPhase {
    type V = DirPhaseView;

    open spec fn view(&self) -> DirPhaseView {
        match self {
            DirPhase::Making => DirPhaseView::Making,
            DirPhase::Opening => DirPhaseView::Opening,
            DirPhase::Reading => DirPhaseView::Reading,
            DirPhase::Classifying => DirPhaseView::Classifying,
            DirPhase::Copying => DirPhaseView::Copying,
            DirPhase::Closing => DirPhaseView::Closing,
            DirPhase::Ended(r) => DirPhaseView::Ended(unit_view(*r)),
        }
    }
}

/// The copy of a directory with all that is below it.  `N` is what the
/// operating system takes for the name of an entry.
#[derive(Debug)]
pub struct DirCopy<N> {
    place: Vec<N>,
    phase: DirPhase,
}

#[verifier::ext_equal]
pub struct DirCopyView<N> {
    /// The names from the directory that is copied down to what is in hand.
    pub place: Seq<N>,
    pub phase: DirPhaseView,
}

impl<N> View for DirCopy<N> {
    type V = DirCopyView<N>;

    closed spec fn view(&self) -> DirCopyView<N> {
        DirCopyView { place: self.place@, phase: self.phase@ }
    }
}

impl<N> DirCopyView<N> {
    pub open spec fn at(self, phase: DirPhaseView, action: DirAction) -> (
        DirCopyView<N>,
        DirAction,
    ) {
        (DirCopyView { phase, ..self }, action)
    }

    pub open spec fn fails(self, message: Seq<char>) -> (DirCopyView<N>, DirAction) {
        self.at(DirPhaseView::Ended(Err(ErrorView::Io { message })), DirAction::Finish)
    }

    /// The directory above the one in hand is read on.
    pub open spec fn rises(self) -> (DirCopyView<N>, DirAction) {
        (
            DirCopyView { place: self.place.drop_last(), phase: DirPhaseView::Reading },
            DirAction::NextEntry,
        )
    }

    /// A copy that is about to begin.
    pub open spec fn start() -> (DirCopyView<N>, DirAction) {
        (DirCopyView { place: Seq::empty(), phase: DirPhaseView::Making }, DirAction::MakeDir)
    }

    /// An entry in hand lies below the directory that is copied.
    pub open spec fn wf(self) -> bool {
        match self.phase {
            DirPhaseView::Classifying => self.place.len() > 0,
            DirPhaseView::Copying => self.place.len() > 0,
            _ => true,
        }
    }

    /// The reply is one to what the copy waits for.
    pub open spec fn awaits(self, reply: DirReply<N>) -> bool {
        match self.phase {
            DirPhaseView::Reading => reply is Entry,
            DirPhaseView::Classifying => reply is Class,
            DirPhaseView::Ended(_) => false,
            _ => reply is Done,
        }
    }

    /// What follows from a reply.
    pub open spec fn stepped(self, reply: DirReply<N>) -> (DirCopyView<N>, DirAction) {
        match (self.phase, reply) {
            (_, DirReply::Done(Err(message))) => self.fails(message@),
            (_, DirReply::Class(Err(message))) => self.fails(message@),
            (DirPhaseView::Making, _) => self.at(DirPhaseView::Opening, DirAction::OpenDir),
            (DirPhaseView::Opening, _) => self.at(DirPhaseView::Reading, DirAction::NextEntry),
            (DirPhaseView::Reading, DirReply::Entry { there, cancelled }) => match there {
                Err(message) => self.fails(message@),
                Ok(None) => self.at(DirPhaseView::Closing, DirAction::CloseDir),
                Ok(Some(name)) => if cancelled {
                    self.at(
                        DirPhaseView::Ended(Err(ErrorView::Cancelled)),
                        DirAction::Finish,
                    )
                } else {
                    (
                        DirCopyView {
                            place: self.place.push(name),
                            phase: DirPhaseView::Classifying,
                        },
                        DirAction::Classify,
                    )
                },
            },
            (DirPhaseView::Classifying, DirReply::Class(Ok(is_dir))) => if is_dir {
                self.at(DirPhaseView::Making, DirAction::MakeDir)
            } else {
                self.at(DirPhaseView::Copying, DirAction::CopyFile)
            },
            (DirPhaseView::Copying, _) => self.rises(),
            (DirPhaseView::Closing, _) => if self.place.len() == 0 {
                self.at(DirPhaseView::Ended(Ok(())), DirAction::Finish)
            } else {
                self.rises()
            },
            _ => (self, DirAction::Finish),
        }
    }
}

impl<N> DirCopy<N> {
    /// The copy of a directory, and its first action.
    pub fn begin() -> (r: (DirCopy<N>, DirAction))
        ensures
            (r.0@, r.1) == DirCopyView::<N>::start(),
            r.0@.wf(),
    {
        let d = DirCopy { place: Vec::new(), phase: DirPhase::Making };
        assert(d@ =~= DirCopyView::<N>::start().0);
        (d, DirAction::MakeDir)
    }

    /// The names that lead to what is in hand: from the directory that is
    /// copied to the entry, and from the target to the target of the entry.
    pub fn place(&self) -> (r: &Vec<N>)
        ensures
            r@ == self@.place,
    {
        &self.place
    }

    fn fail(&mut self, message: String) -> (r: DirAction)
        ensures
            (final(self)@, r) == old(self)@.fails(message@),
    {
        self.phase = DirPhase::Ended(Err(VfsError::Io { message }));
        DirAction::Finish
    }

    fn rise(&mut self) -> (r: DirAction)
        requires
            old(self)@.place.len() > 0,
        ensures
            (final(self)@, r) == old(self)@.rises(),
    {
        self.place.pop();
        self.phase = DirPhase::Reading;
        assert(self@ =~= old(self)@.rises().0);
        DirAction::NextEntry
    }

    /// Takes in what came of the last action and gives the next.
    pub fn step(&mut self, reply: DirReply<N>) -> (r: DirAction)
        requires
            old(self)@.wf(),
            old(self)@.awaits(reply),
        ensures
            final(self)@.wf(),
            (final(self)@, r) == old(self)@.stepped(reply),
    {
        match (&self.phase, reply) {
            (_, DirReply::Done(Err(message))) => self.fail(message),
            (_, DirReply::Class(Err(message))) => self.fail(message),
            (DirPhase::Making, _) => {
                self.phase = DirPhase::Opening;
                DirAction::OpenDir
            },
            (DirPhase::Opening, _) => {
                self.phase = DirPhase::Reading;
                DirAction::NextEntry
            },
            (DirPhase::Reading, DirReply::Entry { there, cancelled }) => match there {
                Err(message) => self.fail(message),
                Ok(None) => {
                    self.phase = DirPhase::Closing;
                    DirAction::CloseDir
                },
                Ok(Some(name)) => {
                    if cancelled {
                        self.phase = DirPhase::Ended(Err(VfsError::Cancelled));
                        return DirAction::Finish;
                    }
                    self.place.push(name);
                    self.phase = DirPhase::Classifying;
                    assert(self@.place =~= old(self)@.place.push(name));
                    DirAction::Classify
                },
            },
            (DirPhase::Classifying, DirReply::Class(Ok(is_dir))) => {
                if is_dir {
                    self.phase = DirPhase::Making;
                    DirAction::MakeDir
                } else {
                    self.phase = DirPhase::Copying;
                    DirAction::CopyFile
                }
            },
            (DirPhase::Copying, _) => self.rise(),
            (DirPhase::Closing, _) => {
                if self.place.len() == 0 {
                    self.phase = DirPhase::Ended(Ok(()));
                    DirAction::Finish
                } else {
                    self.rise()
                }
            },
            _ => DirAction::Finish,
        }
    }

    /// How the copy ended.
    pub fn finish(self) -> (r: Result<(), VfsError>)
        requires
            self@.phase is Ended,
        ensures
            self@.phase == DirPhaseView::Ended(unit_view(r)),
    {
        match self.phase {
            DirPhase::Ended(r) => r,
            _ => Ok(()),
        }
    }
}

/// A directory as its entries in a row: files, and directories.
pub enum DirTree<N> {
    Empty,
    /// A file, then the other entries.
    File(N, Box<DirTree<N>>),
    /// A directory, then the other entries.
    Dir(N, Box<DirTree<N>>, Box<DirTree<N>>),
}

/// What the copy asks for, and for which place, from the first entry of an open
/// directory to its closing.
pub open spec fn entry_actions<N>(tree: DirTree<N>, place: Seq<N>) -> Seq<(DirAction, Seq<N>)>
    decreases tree,
{
    match tree {
        DirTree::Empty => seq![(DirAction::NextEntry, place), (DirAction::CloseDir, place)],
        DirTree::File(name, rest) => seq![
            (DirAction::NextEntry, place),
            (DirAction::Classify, place.push(name)),
            (DirAction::CopyFile, place.push(name)),
        ] + entry_actions(*rest, place),
        DirTree::Dir(name, below, rest) => seq![
            (DirAction::NextEntry, place),
            (DirAction::Classify, place.push(name)),
            (DirAction::MakeDir, place.push(name)),
            (DirAction::OpenDir, place.push(name)),
        ] + entry_actions(*below, place.push(name)) + entry_actions(*rest, place),
    }
}

/// The replies of an operating system that holds the directory, on which
/// everything goes well, in the same order.
pub open spec fn entry_replies<N>(tree: DirTree<N>) -> Seq<DirReply<N>>
    decreases tree,
{
    match tree {
        DirTree::Empty => seq![
            DirReply::Entry { there: Ok(None), cancelled: false },
            DirReply::Done(Ok(())),
        ],
        DirTree::File(name, rest) => seq![
            DirReply::Entry { there: Ok(Some(name)), cancelled: false },
            DirReply::Class(Ok(false)),
            DirReply::Done(Ok(())),
        ] + entry_replies(*rest),
        DirTree::Dir(name, below, rest) => seq![
            DirReply::Entry { there: Ok(Some(name)), cancelled: false },
            DirReply::Class(Ok(true)),
            DirReply::Done(Ok(())),
            DirReply::Done(Ok(())),
        ] + entry_replies(*below) + entry_replies(*rest),
    }
}

/// What the copy asked for, and for which place, while it took in the replies,
/// and where it stands after them with what it asks for next.
pub open spec fn dir_run<N>(d: DirCopyView<N>, asked: DirAction, replies: Seq<DirReply<N>>) -> (
    Seq<(DirAction, Seq<N>)>,
    DirCopyView<N>,
    DirAction,
)
    decreases replies.len(),
{
    if replies.len() == 0 {
        (Seq::empty(), d, asked)
    } else {
        let (next, action) = d.stepped(replies[0]);
        let (more, end, last) = dir_run(next, action, replies.drop_first());
        (seq![(asked, d.place)] + more, end, last)
    }
}

proof fn lemma_run_on<N>(
    d: DirCopyView<N>,
    asked: DirAction,
    a: Seq<DirReply<N>>,
    b: Seq<DirReply<N>>,
)
    ensures
        ({
            let (first, mid, then) = dir_run(d, asked, a);
            let (second, end, last) = dir_run(mid, then, b);
            dir_run(d, asked, a + b) == (first + second, end, last)
        }),
    decreases a.len(),
{
    if a.len() == 0 {
        assert(a + b =~= b);
        let (second, end, last) = dir_run(d, asked, b);
        assert(Seq::<(DirAction, Seq<N>)>::empty() + second =~= second);
    } else {
        let (next, action) = d.stepped(a[0]);
        lemma_run_on(next, action, a.drop_first(), b);
        assert((a + b).drop_first() =~= a.drop_first() + b);
        let (f, mid, then) = dir_run(next, action, a.drop_first());
        let (second, end, last) = dir_run(mid, then, b);
        assert(seq![(asked, d.place)] + (f + second) =~= (seq![(asked, d.place)] + f) + second);
    }
}

/// The copy as it reads the directory at a place.
pub open spec fn reading<N>(place: Seq<N>) -> DirCopyView<N> {
    DirCopyView { place, phase: DirPhaseView::Reading }
}

/// Where the copy stands when it has closed the directory at a place.
pub open spec fn after_closing<N>(place: Seq<N>) -> (DirCopyView<N>, DirAction) {
    if place.len() == 0 {
        (DirCopyView { place, phase: DirPhaseView::Ended(Ok(())) }, DirAction::Finish)
    } else {
        (reading(place.drop_last()), DirAction::NextEntry)
    }
}

proof fn lemma_empty<N>(place: Seq<N>)
    ensures
        dir_run(reading(place), DirAction::NextEntry, entry_replies(DirTree::<N>::Empty)) == (
            entry_actions(DirTree::Empty, place),
            after_closing(place).0,
            after_closing(place).1,
        ),
{
    reveal_with_fuel(dir_run, 3);
    let replies = entry_replies(DirTree::<N>::Empty);
    let h1 = replies.drop_first();
    let h2 = h1.drop_first();
    assert(h2 =~= Seq::<DirReply<N>>::empty());
    assert(dir_run(reading(place), DirAction::NextEntry, replies).0 =~= entry_actions(
        DirTree::Empty,
        place,
    ));
}

proof fn lemma_file<N>(place: Seq<N>, name: N)
    ensures
        dir_run(
            reading(place),
            DirAction::NextEntry,
            seq![
                DirReply::Entry { there: Ok(Some(name)), cancelled: false },
                DirReply::Class(Ok(false)),
                DirReply::Done(Ok(())),
            ],
        ) == (
            seq![
                (DirAction::NextEntry, place),
                (DirAction::Classify, place.push(name)),
                (DirAction::CopyFile, place.push(name)),
            ],
            reading(place),
            DirAction::NextEntry,
        ),
{
    reveal_with_fuel(dir_run, 4);
    let head = seq![
        DirReply::Entry { there: Ok(Some(name)), cancelled: false },
        DirReply::Class(Ok(false)),
        DirReply::Done(Ok(())),
    ];
    let h1 = head.drop_first();
    let h2 = h1.drop_first();
    let h3 = h2.drop_first();
    assert(h3 =~= Seq::<DirReply<N>>::empty());
    assert(place.push(name).drop_last() =~= place);
    assert(dir_run(reading(place), DirAction::NextEntry, head).0 =~= seq![
        (DirAction::NextEntry, place),
        (DirAction::Classify, place.push(name)),
        (DirAction::CopyFile, place.push(name)),
    ]);
}

proof fn lemma_dir<N>(place: Seq<N>, name: N)
    ensures
        dir_run(
            reading(place),
            DirAction::NextEntry,
            seq![
                DirReply::Entry { there: Ok(Some(name)), cancelled: false },
                DirReply::Class(Ok(true)),
                DirReply::Done(Ok(())),
                DirReply::Done(Ok(())),
            ],
        ) == (
            seq![
                (DirAction::NextEntry, place),
                (DirAction::Classify, place.push(name)),
                (DirAction::MakeDir, place.push(name)),
                (DirAction::OpenDir, place.push(name)),
            ],
            reading(place.push(name)),
            DirAction::NextEntry,
        ),
{
    reveal_with_fuel(dir_run, 5);
    let head = seq![
        DirReply::Entry { there: Ok(Some(name)), cancelled: false },
        DirReply::Class(Ok(true)),
        DirReply::Done(Ok(())),
        DirReply::Done(Ok(())),
    ];
    let h1 = head.drop_first();
    let h2 = h1.drop_first();
    let h3 = h2.drop_first();
    let h4 = h3.drop_first();
    assert(h4 =~= Seq::<DirReply<N>>::empty());
    assert(dir_run(reading(place), DirAction::NextEntry, head).0 =~= seq![
        (DirAction::NextEntry, place),
        (DirAction::Classify, place.push(name)),
        (DirAction::MakeDir, place.push(name)),
        (DirAction::OpenDir, place.push(name)),
    ]);
}

proof fn lemma_entries<N>(place: Seq<N>, tree: DirTree<N>)
    ensures
        dir_run(reading(place), DirAction::NextEntry, entry_replies(tree)) == (
            entry_actions(tree, place),
            after_closing(place).0,
            after_closing(place).1,
        ),
    decreases tree,
{
    let d = reading(place);
    match tree {
        DirTree::Empty => {
            lemma_empty(place);
        },
        DirTree::File(name, rest) => {
            let head = seq![
                DirReply::Entry { there: Ok(Some(name)), cancelled: false },
                DirReply::Class(Ok(false)),
                DirReply::Done(Ok(())),
            ];
            lemma_file(place, name);
            lemma_entries(place, *rest);
            lemma_run_on(d, DirAction::NextEntry, head, entry_replies(*rest));
        },
        DirTree::Dir(name, below, rest) => {
            let head = seq![
                DirReply::Entry { there: Ok(Some(name)), cancelled: false },
                DirReply::Class(Ok(true)),
                DirReply::Done(Ok(())),
                DirReply::Done(Ok(())),
            ];
            lemma_dir(place, name);
            lemma_entries(place.push(name), *below);
            lemma_entries(place, *rest);
            lemma_run_on(d, DirAction::NextEntry, head, entry_replies(*below));
            lemma_run_on(
                d,
                DirAction::NextEntry,
                head + entry_replies(*below),
                entry_replies(*rest),
            );
            assert(place.push(name).drop_last() =~= place);
            assert(after_closing(place.push(name)) == (d, DirAction::NextEntry));
        },
    }
}

/// Where everything goes well, the copy of a directory makes and opens every
/// directory below it before it copies what is in it, copies every file, each
/// to the place that it has below the directory, closes every directory that it
/// opened, and ends well.
pub proof fn law_directory_copy_visits_everything<N>(tree: DirTree<N>)
    ensures
        ({
            let (d, asked) = DirCopyView::<N>::start();
            let top = Seq::<N>::empty();
            let replies = seq![DirReply::Done(Ok(())), DirReply::Done(Ok(()))] + entry_replies(
                tree,
            );
            dir_run(d, asked, replies) == (
                seq![(DirAction::MakeDir, top), (DirAction::OpenDir, top)] + entry_actions(
                    tree,
                    top,
                ),
                DirCopyView { place: top, phase: DirPhaseView::Ended(Ok(())) },
                DirAction::Finish,
            )
        }),
{
    reveal_with_fuel(dir_run, 4);
    let (d, asked) = DirCopyView::<N>::start();
    let top = Seq::<N>::empty();
    let head = seq![DirReply::<N>::Done(Ok(())), DirReply::<N>::Done(Ok(()))];
    let h1 = head.drop_first();
    let h2 = h1.drop_first();
    assert(h2 =~= Seq::<DirReply<N>>::empty());
    let (f, mid, then) = dir_run(d, asked, head);
    assert(f =~= seq![(DirAction::MakeDir, top), (DirAction::OpenDir, top)]);
    lemma_entries(top, tree);
    lemma_run_on(d, asked, head, entry_replies(tree));
}

/// The place of a copy changes by one name at a time: an entry is taken below
/// the directory in hand, and when it was dealt with the copy is back at that
/// directory.
pub proof fn law_directory_copy_keeps_its_place<N>(d: DirCopyView<N>, reply: DirReply<N>)
    requires
        d.wf(),
        d.awaits(reply),
    ensures
        ({
            let next = d.stepped(reply).0;
            ||| next.place == d.place
            ||| d.phase is Reading && (reply matches DirReply::Entry { there: Ok(Some(name)), .. }
                && next.place == d.place.push(name))
            ||| (d.phase is Copying || d.phase is Closing) && d.place.len() > 0 && next.place
                == d.place.drop_last()
        }),
{
}

} // verus!
