//! The write of a local file: into a temporary file beside it, which then takes
//! its place.
use std::path::PathBuf;
use vstd::prelude::*;
use crate::error::{io_error, unit_view, ErrorView, IoFailure, VfsError};
use crate::ids::{draw_id, id_text, is_random_uuid, temp_name, was_drawn};
use crate::paths::{components_of, has_parent, path_in, path_of, path_parent};
use crate::text::concat2;
use crate::types::WriteOpts;
use crate::uri::{display, UriView, VfsUri};

verus! {

/// What a write asks for next.
#[derive(Debug)]
pub enum WriteAction {
    /// Make the directory with those above it.
    MakeDirs(VfsUri),
    /// Look whether the target is there.
    LookForTarget,
    /// Create the temporary file, with the name, beside the target.
    CreateTemp(String),
    /// Take the next chunk of the stream.
    NextChunk,
    /// Write the chunk that was taken to the temporary file.
    WriteChunk,
    Flush,
    Sync,
    /// Close the temporary file and put it in the place of the target.
    ReplaceTarget,
    RemoveTemp,
    /// The write is over.
    Finish,
}

pub enum WriteActionView {
    MakeDirs(UriView),
    LookForTarget,
    CreateTemp(Seq<char>),
    NextChunk,
    WriteChunk,
    Flush,
    Sync,
    ReplaceTarget,
    RemoveTemp,
    Finish,
}

impl View for WriteAction {
    type V = WriteActionView;

    open spec fn view(&self) -> WriteActionView {
        match self {
            WriteAction::MakeDirs(u) => WriteActionView::MakeDirs(u@),
            WriteAction::LookForTarget => WriteActionView::LookForTarget,
            WriteAction::CreateTemp(name) => WriteActionView::CreateTemp(name@),
            WriteAction::NextChunk => WriteActionView::NextChunk,
            WriteAction::WriteChunk => WriteActionView::WriteChunk,
            WriteAction::Flush => WriteActionView::Flush,
            WriteAction::Sync => WriteActionView::Sync,
            WriteAction::ReplaceTarget => WriteActionView::ReplaceTarget,
            WriteAction::RemoveTemp => WriteActionView::RemoveTemp,
            WriteAction::Finish => WriteActionView::Finish,
        }
    }
}

/// What came of an action.
#[derive(Debug)]
pub enum WriteReply {
    /// It was done, or it failed.
    Done(Result<(), IoFailure>),
    /// The target is there or not; `None` where that could not be seen.
    Target(Option<bool>),
    /// The stream brought a chunk or failed, or is over; the write may have
    /// been cancelled meanwhile.
    Chunk { chunk: Option<Result<(), VfsError>>, cancelled: bool },
}

pub enum WriteReplyView {
    Done(Result<(), IoFailure>),
    Target(Option<bool>),
    Chunk { chunk: Option<Result<(), ErrorView>>, cancelled: bool },
}

impl View for WriteReply {
    type V = WriteReplyView;

    open spec fn view(&self) -> WriteReplyView {
        match self {
            WriteReply::Done(r) => WriteReplyView::Done(*r),
            WriteReply::Target(t) => WriteReplyView::Target(*t),
            WriteReply::Chunk { chunk, cancelled } => WriteReplyView::Chunk {
                chunk: match chunk {
                    Some(r) => Some(unit_view(*r)),
                    None => None,
                },
                cancelled: *cancelled,
            },
        }
    }
}

/// Where a write stands: what it waits for.
#[derive(Debug)]
pub enum WritePhase {
    MakingDirs(VfsUri),
    Looking,
    Creating,
    Pulling,
    Writing,
    Flushing,
    Syncing,
    Replacing,
    /// The temporary file is removed after a failure.
    Removing(VfsError),
    Ended(Result<(), VfsError>),
}

pub enum WritePhaseView {
    MakingDirs(UriView),
    Looking,
    Creating,
    Pulling,
    Writing,
    Flushing,
    Syncing,
    Replacing,
    Removing(ErrorView),
    Ended(Result<(), ErrorView>),
}

impl View for WritePhase {
    type V = WritePhaseView;

    open spec fn view(&self) -> WritePhaseView {
        match self {
            WritePhase::MakingDirs(u) => WritePhaseView::MakingDirs(u@),
            WritePhase::Looking => WritePhaseView::Looking,
            WritePhase::Creating => WritePhaseView::Creating,
            WritePhase::Pulling => WritePhaseView::Pulling,
            WritePhase::Writing => WritePhaseView::Writing,
            WritePhase::Flushing => WritePhaseView::Flushing,
            WritePhase::Syncing => WritePhaseView::Syncing,
            WritePhase::Replacing => WritePhaseView::Replacing,
            WritePhase::Removing(e) => WritePhaseView::Removing(e@),
            WritePhase::Ended(r) => WritePhaseView::Ended(unit_view(*r)),
        }
    }
}

/// The write of a local file.
#[derive(Debug)]
pub struct LocalWrite {
    uri: VfsUri,
    opts: WriteOpts,
    has_parent: bool,
    temp_id: u128,
    phase: WritePhase,
}

#[verifier::ext_equal]
pub struct LocalWriteView {
    pub uri: UriView,
    pub opts: WriteOpts,
    /// The file of the uri lies in a directory.
    pub has_parent: bool,
    /// The number that makes the name of the temporary file.
    pub temp_id: u128,
    pub phase: WritePhaseView,
}

impl View for LocalWrite {
    type V = LocalWriteView;

    closed spec fn view(&self) -> LocalWriteView {
        LocalWriteView {
            uri: self.uri@,
            opts: self.opts,
            has_parent: self.has_parent,
            temp_id: self.temp_id,
            phase: self.phase@,
        }
    }
}

impl LocalWriteView {
    pub open spec fn at(self, phase: WritePhaseView, action: WriteActionView) -> (
        LocalWriteView,
        WriteActionView,
    ) {
        (LocalWriteView { phase, ..self }, action)
    }

    pub open spec fn ends(self, r: Result<(), ErrorView>) -> (LocalWriteView, WriteActionView) {
        self.at(WritePhaseView::Ended(r), WriteActionView::Finish)
    }

    /// The write fails with a temporary file in place: that is removed first.
    pub open spec fn gives_up(self, e: ErrorView) -> (LocalWriteView, WriteActionView) {
        self.at(WritePhaseView::Removing(e), WriteActionView::RemoveTemp)
    }

    /// Goes on with the temporary file, where the target lies in a directory.
    pub open spec fn to_create(self) -> (LocalWriteView, WriteActionView) {
        if self.has_parent {
            self.at(
                WritePhaseView::Creating,
                WriteActionView::CreateTemp(".atomo-tmp-"@ + id_text(self.temp_id)),
            )
        } else {
            self.ends(
                Err(ErrorView::InvalidUri("uri has no parent directory: "@ + display(self.uri))),
            )
        }
    }

    /// Goes on with a look at the target, where it must not be overwritten.
    pub open spec fn to_look(self) -> (LocalWriteView, WriteActionView) {
        if self.opts.overwrite {
            self.to_create()
        } else {
            self.at(WritePhaseView::Looking, WriteActionView::LookForTarget)
        }
    }

    /// The first action: the directory of the target is made where asked for.
    pub open spec fn begun(self) -> (LocalWriteView, WriteActionView) {
        match self.uri.parent() {
            Some(p) => if !self.opts.create_parents {
                self.to_look()
            } else {
                match p.local_pieces() {
                    Err(e) => self.ends(Err(e)),
                    Ok(_) => self.at(WritePhaseView::MakingDirs(p), WriteActionView::MakeDirs(p)),
                }
            },
            None => self.to_look(),
        }
    }

    /// The reply is one to what the write waits for.
    pub open spec fn awaits(self, reply: WriteReplyView) -> bool {
        match self.phase {
            WritePhaseView::Looking => reply is Target,
            WritePhaseView::Pulling => reply is Chunk,
            WritePhaseView::Ended(_) => false,
            _ => reply is Done,
        }
    }

    /// What follows from a reply.
    pub open spec fn stepped(self, reply: WriteReplyView) -> (LocalWriteView, WriteActionView) {
        match (self.phase, reply) {
            (WritePhaseView::MakingDirs(p), WriteReplyView::Done(Err(e))) => self.ends(
                Err(io_error(e, p)),
            ),
            (WritePhaseView::MakingDirs(_), WriteReplyView::Done(Ok(()))) => self.to_look(),
            (WritePhaseView::Looking, WriteReplyView::Target(seen)) => if seen == Some(true) {
                self.ends(Err(ErrorView::AlreadyExists(self.uri)))
            } else {
                self.to_create()
            },
            (WritePhaseView::Creating, WriteReplyView::Done(Err(e))) => self.ends(
                Err(io_error(e, self.uri)),
            ),
            (WritePhaseView::Creating, WriteReplyView::Done(Ok(()))) => self.at(
                WritePhaseView::Pulling,
                WriteActionView::NextChunk,
            ),
            (WritePhaseView::Pulling, WriteReplyView::Chunk { chunk, cancelled }) => match chunk {
                None => self.at(WritePhaseView::Flushing, WriteActionView::Flush),
                Some(r) => if cancelled {
                    self.gives_up(ErrorView::Cancelled)
                } else {
                    match r {
                        Err(e) => self.gives_up(e),
                        Ok(()) => self.at(WritePhaseView::Writing, WriteActionView::WriteChunk),
                    }
                },
            },
            (WritePhaseView::Removing(e), WriteReplyView::Done(_)) => self.ends(Err(e)),
            (WritePhaseView::Replacing, WriteReplyView::Done(Ok(()))) => self.ends(Ok(())),
            (WritePhaseView::Writing, WriteReplyView::Done(Ok(()))) => self.at(
                WritePhaseView::Pulling,
                WriteActionView::NextChunk,
            ),
            (WritePhaseView::Flushing, WriteReplyView::Done(Ok(()))) => self.at(
                WritePhaseView::Syncing,
                WriteActionView::Sync,
            ),
            (WritePhaseView::Syncing, WriteReplyView::Done(Ok(()))) => self.at(
                WritePhaseView::Replacing,
                WriteActionView::ReplaceTarget,
            ),
            (_, WriteReplyView::Done(Err(e))) => self.gives_up(io_error(e, self.uri)),
            _ => self.ends(Ok(())),
        }
    }

    /// The temporary file may be there.
    pub open spec fn has_temp(self) -> bool {
        match self.phase {
            WritePhaseView::Pulling => true,
            WritePhaseView::Writing => true,
            WritePhaseView::Flushing => true,
            WritePhaseView::Syncing => true,
            WritePhaseView::Replacing => true,
            _ => false,
        }
    }
}

impl LocalWrite {
    /// The write of the file of a uri, the path of the file, the directory that
    /// the file lies in unless it is the top of the file system, and the first
    /// action.  The number for the name of the temporary file is drawn at random.
    pub fn begin(uri: &VfsUri, opts: WriteOpts) -> (r: Result<
        (LocalWrite, PathBuf, Option<PathBuf>, WriteAction),
        VfsError,
    >)
        ensures
            match r {
                Ok((w, path, dir, action)) => {
                    let parts = components_of(path_in(&path));
                    &&& uri@.local_pieces() is Ok
                    &&& path == path_of(uri@.local_pieces()->Ok_0)
                    &&& dir is Some == has_parent(parts)
                    &&& dir matches Some(d) ==> components_of(path_in(&d)) == parts.drop_last()
                    &&& was_drawn(w@.temp_id)
                    &&& is_random_uuid(w@.temp_id)
                    &&& (w@, action@) == (LocalWriteView {
                        uri: uri@,
                        opts,
                        has_parent: has_parent(parts),
                        temp_id: w@.temp_id,
                        phase: WritePhaseView::Creating,
                    }).begun()
                },
                Err(e) => uri@.local_pieces() == Err::<Seq<Seq<char>>, ErrorView>(e@),
            },
    {
        match uri.to_local_path() {
            Err(e) => Err(e),
            Ok(path) => {
                let dir = path_parent(path.as_path());
                let (w, action) = LocalWrite::begin_with(uri, opts, dir.is_some(), draw_id());
                Ok((w, path, dir, action))
            },
        }
    }

    /// The write and its first action, given whether the file lies in a
    /// directory and the number for the name of the temporary file.
    pub fn begin_with(uri: &VfsUri, opts: WriteOpts, has_parent: bool, temp_id: u128) -> (r: (
        LocalWrite,
        WriteAction,
    ))
        ensures
            r.0@.temp_id == temp_id,
            (r.0@, r.1@) == (LocalWriteView {
                uri: uri@,
                opts,
                has_parent,
                temp_id,
                phase: WritePhaseView::Creating,
            }).begun(),
    {
        let mut w = LocalWrite {
            uri: uri.clone(),
            opts,
            has_parent,
            temp_id,
            phase: WritePhase::Creating,
        };
        let action = match uri.parent() {
            Some(p) => if !opts.create_parents {
                w.look()
            } else {
                match p.local_pieces() {
                    Err(e) => w.end(Err(e)),
                    Ok(_) => {
                        w.phase = WritePhase::MakingDirs(p.clone());
                        WriteAction::MakeDirs(p)
                    },
                }
            },
            None => w.look(),
        };
        (w, action)
    }

    fn end(&mut self, result: Result<(), VfsError>) -> (r: WriteAction)
        ensures
            (final(self)@, r@) == old(self)@.ends(unit_view(result)),
    {
        self.phase = WritePhase::Ended(result);
        WriteAction::Finish
    }

    fn give_up(&mut self, e: VfsError) -> (r: WriteAction)
        ensures
            (final(self)@, r@) == old(self)@.gives_up(e@),
    {
        self.phase = WritePhase::Removing(e);
        WriteAction::RemoveTemp
    }

    fn create(&mut self) -> (r: WriteAction)
        ensures
            (final(self)@, r@) == old(self)@.to_create(),
    {
        if !self.has_parent {
            let text = self.uri.to_string();
            return self.end(
                Err(
                    VfsError::InvalidUri(
                        concat2("uri has no parent directory: ", text.as_str()),
                    ),
                ),
            );
        }
        self.phase = WritePhase::Creating;
        WriteAction::CreateTemp(temp_name(self.temp_id))
    }

    fn look(&mut self) -> (r: WriteAction)
        ensures
            (final(self)@, r@) == old(self)@.to_look(),
    {
        if self.opts.overwrite {
            return self.create();
        }
        self.phase = WritePhase::Looking;
        WriteAction::LookForTarget
    }

    /// Takes in what came of the last action and gives the next.
    pub fn step(&mut self, reply: WriteReply) -> (r: WriteAction)
        requires
            old(self)@.awaits(reply@),
        ensures
            (final(self)@, r@) == old(self)@.stepped(reply@),
    {
        match (&self.phase, reply) {
            (WritePhase::MakingDirs(p), WriteReply::Done(Err(e))) => {
                let error = VfsError::from_io(e, p);
                self.end(Err(error))
            },
            (WritePhase::MakingDirs(_), WriteReply::Done(Ok(()))) => self.look(),
            (WritePhase::Looking, WriteReply::Target(seen)) => {
                let there = match seen {
                    Some(b) => b,
                    None => false,
                };
                if there {
                    let uri = self.uri.clone();
                    self.end(Err(VfsError::AlreadyExists(uri)))
                } else {
                    self.create()
                }
            },
            (WritePhase::Creating, WriteReply::Done(Err(e))) => {
                let error = VfsError::from_io(e, &self.uri);
                self.end(Err(error))
            },
            (WritePhase::Creating, WriteReply::Done(Ok(()))) => {
                self.phase = WritePhase::Pulling;
                WriteAction::NextChunk
            },
            (WritePhase::Pulling, WriteReply::Chunk { chunk, cancelled }) => match chunk {
                None => {
                    self.phase = WritePhase::Flushing;
                    WriteAction::Flush
                },
                Some(r) => {
                    if cancelled {
                        return self.give_up(VfsError::Cancelled);
                    }
                    match r {
                        Err(e) => self.give_up(e),
                        Ok(()) => {
                            self.phase = WritePhase::Writing;
                            WriteAction::WriteChunk
                        },
                    }
                },
            },
            (WritePhase::Removing(e), WriteReply::Done(_)) => {
                let error = e.clone();
                self.end(Err(error))
            },
            (WritePhase::Replacing, WriteReply::Done(Ok(()))) => self.end(Ok(())),
            (WritePhase::Writing, WriteReply::Done(Ok(()))) => {
                self.phase = WritePhase::Pulling;
                WriteAction::NextChunk
            },
            (WritePhase::Flushing, WriteReply::Done(Ok(()))) => {
                self.phase = WritePhase::Syncing;
                WriteAction::Sync
            },
            (WritePhase::Syncing, WriteReply::Done(Ok(()))) => {
                self.phase = WritePhase::Replacing;
                WriteAction::ReplaceTarget
            },
            (_, WriteReply::Done(Err(e))) => {
                let error = VfsError::from_io(e, &self.uri);
                self.give_up(error)
            },
            _ => self.end(Ok(())),
        }
    }

    /// How the write ended.
    pub fn finish(self) -> (r: Result<(), VfsError>)
        requires
            self@.phase is Ended,
        ensures
            self@.phase == WritePhaseView::Ended(unit_view(r)),
    {
        match self.phase {
            WritePhase::Ended(r) => r,
            _ => Ok(()),
        }
    }
}

/// The target is replaced only by a temporary file to which the stream was
/// written to its end, and which was flushed and synced; nothing else touches
/// the target.  A write that succeeds has replaced it.
pub proof fn law_target_is_replaced_last(w: LocalWriteView, reply: WriteReplyView)
    requires
        w.awaits(reply),
    ensures
        w.stepped(reply).1 is ReplaceTarget ==> w.phase is Syncing,
        w.stepped(reply).1 is Sync ==> w.phase is Flushing,
        w.stepped(reply).1 is Flush ==> w.phase is Pulling && reply->chunk is None,
        w.stepped(reply).0.phase matches WritePhaseView::Ended(r) ==> (r is Ok
            ==> w.phase is Replacing),
{
}

/// A write that fails with a temporary file in place asks for its removal and
/// ends only after that.
pub proof fn law_no_temporary_file_is_left(w: LocalWriteView, reply: WriteReplyView)
    requires
        w.awaits(reply),
    ensures
        w.has_temp() ==> {
            let (next, action) = w.stepped(reply);
            ||| next.has_temp()
            ||| next.phase is Removing && action is RemoveTemp
            ||| next.phase is Ended && w.phase is Replacing && (
            reply matches WriteReplyView::Done(r) && r is Ok)
        },
        w.phase matches WritePhaseView::Removing(e) ==> w.stepped(reply) == w.ends(Err(e)),
{
}

/// Without `overwrite` a target that is there is not written.
pub proof fn law_existing_target_is_refused(w: LocalWriteView)
    requires
        !w.opts.overwrite,
    ensures
        w.to_look().1 is LookForTarget,
        w.to_look().0.stepped(WriteReplyView::Target(Some(true))) == w.ends(
            Err(ErrorView::AlreadyExists(w.uri)),
        ),
{
}

/// What a write asked for while it took in the replies, and where it stands
/// after them with what it asks for next.
pub open spec fn write_run(
    w: LocalWriteView,
    asked: WriteActionView,
    replies: Seq<WriteReplyView>,
) -> (Seq<WriteActionView>, LocalWriteView, WriteActionView)
    decreases replies.len(),
{
    if replies.len() == 0 {
        (Seq::empty(), w, asked)
    } else {
        let (next, action) = w.stepped(replies[0]);
        let (more, end, last) = write_run(next, action, replies.drop_first());
        (seq![asked] + more, end, last)
    }
}

/// A stream of so many chunks, each of which is taken and written.
pub open spec fn stream_replies(chunks: nat) -> Seq<WriteReplyView>
    decreases chunks,
{
    if chunks == 0 {
        seq![
            WriteReplyView::Chunk { chunk: None, cancelled: false },
            WriteReplyView::Done(Ok(())),
            WriteReplyView::Done(Ok(())),
            WriteReplyView::Done(Ok(())),
        ]
    } else {
        seq![
            WriteReplyView::Chunk { chunk: Some(Ok(())), cancelled: false },
            WriteReplyView::Done(Ok(())),
        ] + stream_replies((chunks - 1) as nat)
    }
}

/// What a write asks for from the first chunk of such a stream on.
pub open spec fn stream_actions(chunks: nat) -> Seq<WriteActionView>
    decreases chunks,
{
    if chunks == 0 {
        seq![
            WriteActionView::NextChunk,
            WriteActionView::Flush,
            WriteActionView::Sync,
            WriteActionView::ReplaceTarget,
        ]
    } else {
        seq![WriteActionView::NextChunk, WriteActionView::WriteChunk] + stream_actions(
            (chunks - 1) as nat,
        )
    }
}

proof fn lemma_last_steps(w: LocalWriteView)
    requires
        w.phase is Pulling,
    ensures
        write_run(w, WriteActionView::NextChunk, stream_replies(0)) == (
            stream_actions(0),
            w.ends(Ok(())).0,
            WriteActionView::Finish,
        ),
{
    reveal_with_fuel(write_run, 5);
    let r = stream_replies(0);
    let r1 = r.drop_first();
    let r2 = r1.drop_first();
    let r3 = r2.drop_first();
    let r4 = r3.drop_first();
    assert(r4 =~= Seq::<WriteReplyView>::empty());
    assert(write_run(w, WriteActionView::NextChunk, r).0 =~= stream_actions(0));
}

/// Where everything goes well, a write takes and writes every chunk of the
/// stream in turn, then flushes, syncs, and replaces the target.
pub proof fn law_good_write(w: LocalWriteView, chunks: nat)
    requires
        w.phase is Pulling,
    ensures
        write_run(w, WriteActionView::NextChunk, stream_replies(chunks)) == (
            stream_actions(chunks),
            w.ends(Ok(())).0,
            WriteActionView::Finish,
        ),
    decreases chunks,
{
    if chunks == 0 {
        lemma_last_steps(w);
    } else {
        reveal_with_fuel(write_run, 3);
        let rest = stream_replies((chunks - 1) as nat);
        let all = stream_replies(chunks);
        assert(all.drop_first().drop_first() =~= rest);
        law_good_write(w, (chunks - 1) as nat);
        let next = LocalWriteView { phase: WritePhaseView::Writing, ..w };
        assert(w.stepped(all[0]) == (next, WriteActionView::WriteChunk));
        assert(all.drop_first()[0] == WriteReplyView::Done(Ok(())));
        let back = LocalWriteView { phase: WritePhaseView::Pulling, ..w };
        assert(next.stepped(WriteReplyView::Done(Ok(()))) == (back, WriteActionView::NextChunk));
        assert(back == w);
        assert(write_run(w, WriteActionView::NextChunk, all).0 =~= stream_actions(chunks));
    }
}

} // verus!
