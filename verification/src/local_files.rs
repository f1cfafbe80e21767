//! Reads and deletions of local files.
use std::path::PathBuf;
use vstd::prelude::*;
use crate::error::{io_error, unit_view, ErrorView, IoFailure, VfsError};
use crate::local::FileMeta;
use crate::paths::path_of;
use crate::types::DeleteOpts;
use crate::uri::{UriView, VfsUri};

verus! {

/// How many bytes a chunk of a local file holds at most.
pub const READ_CHUNK: usize = 262144;

/// What a read asks for next.
#[derive(Clone, Copy, Debug, PartialEq, Eq)]
pub enum ReadAction {
    /// Look up the metadata of the file, its links followed.
    Examine,
    /// Open the file.
    Open,
    /// Go to the byte.
    Seek(u64),
    /// Hand out the bytes from there, at most so many where that is said.
    Stream(Option<u64>),
    /// The read has failed.
    Fail,
}

/// What came of an action.
#[derive(Debug)]
pub enum ReadReply {
    /// The metadata of the file.
    Meta(Result<FileMeta, IoFailure>),
    /// It was done, or it failed.
    Done(Result<(), IoFailure>),
}

/// Where a read stands: what it waits for.
#[derive(Debug)]
pub enum ReadPhase {
    Examining,
    Opening,
    Seeking,
    Streaming,
    Failed(VfsError),
}

pub enum ReadPhaseView {
    Examining,
    Opening,
    Seeking,
    Streaming,
    Failed(ErrorView),
}

impl View for ReadPhase {
    type V = ReadPhaseView;

    open spec fn view(&self) -> ReadPhaseView {
        match self {
            ReadPhase::Examining => ReadPhaseView::Examining,
            ReadPhase::Opening => ReadPhaseView::Opening,
            ReadPhase::Seeking => ReadPhaseView::Seeking,
            ReadPhase::Streaming => ReadPhaseView::Streaming,
            ReadPhase::Failed(e) => ReadPhaseView::Failed(e@),
        }
    }
}

/// The read of a local file, or of a range of it.
#[derive(Debug)]
pub struct LocalRead {
    uri: VfsUri,
    range: Option<(u64, u64)>,
    phase: ReadPhase,
}

pub struct LocalReadView {
    pub uri: UriView,
    pub range: Option<(u64, u64)>,
    pub phase: ReadPhaseView,
}

impl View for LocalRead {
    type V = LocalReadView;

    closed spec fn view(&self) -> LocalReadView {
        LocalReadView { uri: self.uri@, range: self.range, phase: self.phase@ }
    }
}

/// How many bytes lie between the two.
pub open spec fn span(start: u64, end: u64) -> u64 {
    if end >= start {
        (end - start) as u64
    } else {
        0
    }
}

impl LocalReadView {
    pub open spec fn at(self, phase: ReadPhaseView, action: ReadAction) -> (
        LocalReadView,
        ReadAction,
    ) {
        (LocalReadView { phase, ..self }, action)
    }

    pub open spec fn fails(self, e: ErrorView) -> (LocalReadView, ReadAction) {
        self.at(ReadPhaseView::Failed(e), ReadAction::Fail)
    }

    /// The reply is one to what the read waits for.
    pub open spec fn awaits(self, reply: ReadReply) -> bool {
        match self.phase {
            ReadPhaseView::Examining => reply is Meta,
            ReadPhaseView::Opening => reply is Done,
            ReadPhaseView::Seeking => reply is Done,
            _ => false,
        }
    }

    /// What follows from a reply: a directory is not read, and a range is read
    /// from its start on, as many bytes as it spans.
    pub open spec fn stepped(self, reply: ReadReply) -> (LocalReadView, ReadAction) {
        match (self.phase, reply) {
            (_, ReadReply::Meta(Err(e))) => self.fails(io_error(e, self.uri)),
            (_, ReadReply::Meta(Ok(m))) => if m.is_dir {
                self.fails(ErrorView::IsADirectory(self.uri))
            } else {
                self.at(ReadPhaseView::Opening, ReadAction::Open)
            },
            (_, ReadReply::Done(Err(e))) => self.fails(io_error(e, self.uri)),
            (ReadPhaseView::Opening, ReadReply::Done(Ok(()))) => match self.range {
                Some((start, _)) => self.at(ReadPhaseView::Seeking, ReadAction::Seek(start)),
                None => self.at(ReadPhaseView::Streaming, ReadAction::Stream(None)),
            },
            _ => self.at(
                ReadPhaseView::Streaming,
                ReadAction::Stream(
                    match self.range {
                        Some((start, end)) => Some(span(start, end)),
                        None => None,
                    },
                ),
            ),
        }
    }
}

impl LocalRead {
    /// The read of the file of a uri, the path of the file, and the first
    /// action, unless the read was cancelled.
    pub fn begin(uri: &VfsUri, range: Option<(u64, u64)>, cancelled: bool) -> (r: Result<
        (LocalRead, PathBuf, ReadAction),
        VfsError,
    >)
        ensures
            match r {
                Ok((read, path, action)) => {
                    &&& !cancelled
                    &&& uri@.local_pieces() is Ok
                    &&& path == path_of(uri@.local_pieces()->Ok_0)
                    &&& read@ == (LocalReadView {
                        uri: uri@,
                        range,
                        phase: ReadPhaseView::Examining,
                    })
                    &&& action == ReadAction::Examine
                },
                Err(e) => if cancelled {
                    e@ == ErrorView::Cancelled
                } else {
                    uri@.local_pieces() == Err::<Seq<Seq<char>>, ErrorView>(e@)
                },
            },
    {
        if cancelled {
            return Err(VfsError::Cancelled);
        }
        match uri.to_local_path() {
            Err(e) => Err(e),
            Ok(path) => Ok(
                (
                    LocalRead { uri: uri.clone(), range, phase: ReadPhase::Examining },
                    path,
                    ReadAction::Examine,
                ),
            ),
        }
    }

    fn fail(&mut self, e: VfsError) -> (r: ReadAction)
        ensures
            (final(self)@, r) == old(self)@.fails(e@),
    {
        self.phase = ReadPhase::Failed(e);
        ReadAction::Fail
    }

    fn fail_io(&mut self, e: IoFailure) -> (r: ReadAction)
        ensures
            (final(self)@, r) == old(self)@.fails(io_error(e, old(self)@.uri)),
    {
        let error = VfsError::from_io(e, &self.uri);
        self.fail(error)
    }

    /// Takes in what came of the last action and gives the next.
    pub fn step(&mut self, reply: ReadReply) -> (r: ReadAction)
        requires
            old(self)@.awaits(reply),
        ensures
            (final(self)@, r) == old(self)@.stepped(reply),
    {
        match (&self.phase, reply) {
            (_, ReadReply::Meta(Err(e))) => self.fail_io(e),
            (_, ReadReply::Meta(Ok(m))) => {
                if m.is_dir {
                    let uri = self.uri.clone();
                    self.fail(VfsError::IsADirectory(uri))
                } else {
                    self.phase = ReadPhase::Opening;
                    ReadAction::Open
                }
            },
            (_, ReadReply::Done(Err(e))) => self.fail_io(e),
            (ReadPhase::Opening, ReadReply::Done(Ok(()))) => match self.range {
                Some((start, _)) => {
                    self.phase = ReadPhase::Seeking;
                    ReadAction::Seek(start)
                },
                None => {
                    self.phase = ReadPhase::Streaming;
                    ReadAction::Stream(None)
                },
            },
            _ => {
                self.phase = ReadPhase::Streaming;
                match self.range {
                    Some((start, end)) => ReadAction::Stream(Some(end.saturating_sub(start))),
                    None => ReadAction::Stream(None),
                }
            },
        }
    }

    /// A chunk of the file, or the error of one that could not be read.
    pub fn chunk(&self, chunk: Result<Vec<u8>, IoFailure>) -> (r: Result<Vec<u8>, VfsError>)
        ensures
            match r {
                Ok(bytes) => chunk == Ok::<Vec<u8>, IoFailure>(bytes),
                Err(e) => chunk is Err && e@ == io_error(chunk->Err_0, self@.uri),
            },
    {
        match chunk {
            Ok(bytes) => Ok(bytes),
            Err(e) => Err(VfsError::from_io(e, &self.uri)),
        }
    }

    /// Why the read failed.
    pub fn failure(self) -> (r: VfsError)
        requires
            self@.phase is Failed,
        ensures
            self@.phase == ReadPhaseView::Failed(r@),
    {
        match self.phase {
            ReadPhase::Failed(e) => e,
            _ => VfsError::Cancelled,
        }
    }
}

/// A read that hands out bytes has opened a file that is no directory; of a
/// range it hands out no more bytes than the range spans, from its start.
pub proof fn law_read_stays_in_its_range(r: LocalReadView, reply: ReadReply)
    requires
        r.awaits(reply),
    ensures
        r.stepped(reply).1 matches ReadAction::Stream(limit) ==> match r.range {
            Some((start, end)) => r.phase is Seeking && limit == Some(span(start, end)),
            None => r.phase is Opening || r.phase is Seeking,
        },
        r.phase is Examining && !(reply->Meta_0 is Ok && !reply->Meta_0->Ok_0.is_dir)
            ==> r.stepped(reply).0.phase is Failed,
{
}

/// What a deletion asks for next.
#[derive(Clone, Copy, Debug, PartialEq, Eq, Structural)]
pub enum DeleteAction {
    /// Move it to the trash.
    Trash,
    /// Look up its metadata, its links not followed.
    Examine,
    /// Remove the directory with all that is below it.
    RemoveTree,
    /// Remove the directory, which must be empty.
    RemoveDir,
    /// Remove the file or link.
    RemoveFile,
    /// The deletion is over.
    Finish,
}

/// What came of an action.
#[derive(Debug)]
pub enum DeleteReply {
    /// The trash took it or refused; or the attempt itself failed.  A failure
    /// comes with its message.
    Trashed(Result<Result<(), String>, String>),
    /// The metadata.
    Meta(Result<FileMeta, IoFailure>),
    /// It was done, or it failed.
    Done(Result<(), IoFailure>),
}

/// Where a deletion stands: what it waits for.
#[derive(Debug)]
pub enum DeletePhase {
    Trashing,
    Examining,
    Removing,
    Ended(Result<(), VfsError>),
}

pub enum DeletePhaseView {
    Trashing,
    Examining,
    Removing,
    Ended(Result<(), ErrorView>),
}

impl View for DeletePhase {
    type V = DeletePhaseView;

    open spec fn view(&self) -> DeletePhaseView {
        match self {
            DeletePhase::Trashing => DeletePhaseView::Trashing,
            DeletePhase::Examining => DeletePhaseView::Examining,
            DeletePhase::Removing => DeletePhaseView::Removing,
            DeletePhase::Ended(r) => DeletePhaseView::Ended(unit_view(*r)),
        }
    }
}

/// The deletion of a local file or directory.
#[derive(Debug)]
pub struct LocalDelete {
    uri: VfsUri,
    recursive: bool,
    phase: DeletePhase,
}

pub struct LocalDeleteView {
    pub uri: UriView,
    pub recursive: bool,
    pub phase: DeletePhaseView,
}

impl View for LocalDelete {
    type V = LocalDeleteView;

    closed spec fn view(&self) -> LocalDeleteView {
        LocalDeleteView { uri: self.uri@, recursive: self.recursive, phase: self.phase@ }
    }
}

/// How a move to the trash ended: the attempt itself may have failed, or the
/// trash may have refused.
pub open spec fn trash_end(r: Result<Result<(), String>, String>) -> Result<(), ErrorView> {
    match r {
        Ok(Ok(())) => Ok(()),
        Ok(Err(message)) => Err(ErrorView::Provider { code: "trash"@, message: message@ }),
        Err(message) => Err(ErrorView::Io { message: message@ }),
    }
}

impl LocalDeleteView {
    pub open spec fn at(self, phase: DeletePhaseView, action: DeleteAction) -> (
        LocalDeleteView,
        DeleteAction,
    ) {
        (LocalDeleteView { phase, ..self }, action)
    }

    pub open spec fn ends(self, r: Result<(), ErrorView>) -> (LocalDeleteView, DeleteAction) {
        self.at(DeletePhaseView::Ended(r), DeleteAction::Finish)
    }

    /// A deletion that is about to begin, and its first action.
    pub open spec fn start(uri: UriView, opts: DeleteOpts) -> (LocalDeleteView, DeleteAction) {
        let d = LocalDeleteView {
            uri,
            recursive: opts.recursive,
            phase: DeletePhaseView::Trashing,
        };
        if opts.use_trash {
            (d, DeleteAction::Trash)
        } else {
            d.at(DeletePhaseView::Examining, DeleteAction::Examine)
        }
    }

    /// The reply is one to what the deletion waits for.
    pub open spec fn awaits(self, reply: DeleteReply) -> bool {
        match self.phase {
            DeletePhaseView::Trashing => reply is Trashed,
            DeletePhaseView::Examining => reply is Meta,
            DeletePhaseView::Removing => reply is Done,
            DeletePhaseView::Ended(_) => false,
        }
    }

    /// What follows from a reply.
    pub open spec fn stepped(self, reply: DeleteReply) -> (LocalDeleteView, DeleteAction) {
        match reply {
            DeleteReply::Trashed(r) => self.ends(trash_end(r)),
            DeleteReply::Meta(Err(e)) => self.ends(Err(io_error(e, self.uri))),
            DeleteReply::Meta(Ok(m)) => self.at(
                DeletePhaseView::Removing,
                if !m.is_dir {
                    DeleteAction::RemoveFile
                } else if self.recursive {
                    DeleteAction::RemoveTree
                } else {
                    DeleteAction::RemoveDir
                },
            ),
            DeleteReply::Done(Err(e)) => self.ends(Err(io_error(e, self.uri))),
            DeleteReply::Done(Ok(())) => self.ends(Ok(())),
        }
    }
}

impl LocalDelete {
    /// The deletion of the file of a uri, the path of the file, and the first
    /// action.
    pub fn begin(uri: &VfsUri, opts: DeleteOpts) -> (r: Result<
        (LocalDelete, PathBuf, DeleteAction),
        VfsError,
    >)
        ensures
            match r {
                Ok((d, path, action)) => {
                    &&& uri@.local_pieces() is Ok
                    &&& path == path_of(uri@.local_pieces()->Ok_0)
                    &&& (d@, action) == LocalDeleteView::start(uri@, opts)
                },
                Err(e) => uri@.local_pieces() == Err::<Seq<Seq<char>>, ErrorView>(e@),
            },
    {
        match uri.to_local_path() {
            Err(e) => Err(e),
            Ok(path) => {
                let uri = uri.clone();
                if opts.use_trash {
                    let d = LocalDelete {
                        uri,
                        recursive: opts.recursive,
                        phase: DeletePhase::Trashing,
                    };
                    Ok((d, path, DeleteAction::Trash))
                } else {
                    let d = LocalDelete {
                        uri,
                        recursive: opts.recursive,
                        phase: DeletePhase::Examining,
                    };
                    Ok((d, path, DeleteAction::Examine))
                }
            },
        }
    }

    fn end(&mut self, result: Result<(), VfsError>) -> (r: DeleteAction)
        ensures
            (final(self)@, r) == old(self)@.ends(unit_view(result)),
    {
        self.phase = DeletePhase::Ended(result);
        DeleteAction::Finish
    }

    /// Takes in what came of the last action and gives the next.
    pub fn step(&mut self, reply: DeleteReply) -> (r: DeleteAction)
        requires
            old(self)@.awaits(reply),
        ensures
            (final(self)@, r) == old(self)@.stepped(reply),
    {
        match reply {
            DeleteReply::Trashed(Ok(Ok(()))) => self.end(Ok(())),
            DeleteReply::Trashed(Ok(Err(message))) => self.end(
                Err(VfsError::Provider { code: "trash".to_owned(), message }),
            ),
            DeleteReply::Trashed(Err(message)) => self.end(Err(VfsError::Io { message })),
            DeleteReply::Meta(Err(e)) => {
                let error = VfsError::from_io(e, &self.uri);
                self.end(Err(error))
            },
            DeleteReply::Meta(Ok(m)) => {
                self.phase = DeletePhase::Removing;
                if !m.is_dir {
                    DeleteAction::RemoveFile
                } else if self.recursive {
                    DeleteAction::RemoveTree
                } else {
                    DeleteAction::RemoveDir
                }
            },
            DeleteReply::Done(Err(e)) => {
                let error = VfsError::from_io(e, &self.uri);
                self.end(Err(error))
            },
            DeleteReply::Done(Ok(())) => self.end(Ok(())),
        }
    }

    /// How the deletion ended.
    pub fn finish(self) -> (r: Result<(), VfsError>)
        requires
            self@.phase is Ended,
        ensures
            self@.phase == DeletePhaseView::Ended(unit_view(r)),
    {
        match self.phase {
            DeletePhase::Ended(r) => r,
            _ => Ok(()),
        }
    }
}

/// What is below a directory is removed only where that was asked for.
pub proof fn law_tree_is_removed_only_on_demand(d: LocalDeleteView, reply: DeleteReply)
    requires
        d.awaits(reply),
    ensures
        d.stepped(reply).1 == DeleteAction::RemoveTree ==> d.recursive && d.phase is Examining,
        d.phase is Trashing ==> d.stepped(reply).1 == DeleteAction::Finish,
{
}

} // verus!
