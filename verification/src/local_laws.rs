//! What the provider of local files makes of what the operating system says,
//! and what it asks of it.
use std::path::{Path, PathBuf};
use vstd::prelude::*;
use crate::error::{io_error, ErrorView, IoFailure, IoKind, VfsError};
use crate::ids::{id_text, is_random_uuid, was_drawn};
use crate::ipc_laws::free_of;
use crate::local::{
    change_events, events_at, file_type_from, io_result, is_hidden, ms_from, now_ms, replaced_at,
    shown_size, translate_change, translate_notify_event, ChangeKind, FileMeta, LocalCall,
    LocalProvider,
};
use crate::local_copy::{
    DirAction, DirCopy, DirPhaseView, DirReply, LocalTransfer, TransferAction, TransferPhaseView,
    TransferReply,
};
use crate::local_files::{
    DeleteAction, DeletePhaseView, DeleteReply, LocalDelete, LocalRead, ReadAction, ReadPhaseView,
    ReadReply,
};
use crate::local_list::{ListAction, ListPhaseView, ListReply, LocalListing};
use crate::local_write::{LocalWrite, WriteAction, WriteActionView, WritePhaseView, WriteReply};
use crate::mime::guessed_mime;
use crate::types::{
    event_views, opt_text, DeleteOpts, DirEntry, EventView, FileType, FsEvent, FsEventKind, ListOpts,
    ProviderCaps, Stat, WriteOpts,
};
use crate::uri::{display, UriView, VfsUri};

verus! {

/// The milliseconds of a time in seconds and nanoseconds; of a number that does
/// not fit, the low 64 bits.
pub open spec fn is_millis(time: Option<(u64, u32)>, ms: Option<u64>) -> bool {
    &&& time is None <==> ms is None
    &&& time matches Some((secs, nanos)) ==> {
        let whole = secs * 1000 + nanos / 1_000_000;
        &&& whole <= u64::MAX ==> ms->0 == whole
        &&& whole > u64::MAX ==> ms->0 == whole % 0x1_0000_0000_0000_0000
    }
}

/// Times are told in milliseconds since the epoch, and not at all where they
/// are not known; the present time is then that of the epoch.
pub proof fn law_times_are_in_milliseconds(time: Option<(u64, u32)>, ms: Option<u64>, now: u64)
    ensures
        call_ensures(ms_from, (time,), ms) ==> is_millis(time, ms),
        call_ensures(now_ms, (time,), now) ==> (time is None ==> now == 0) && (time is Some
            ==> is_millis(time, Some(now))),
{
}

/// What a look-up says of a local file is what the operating system says of it:
/// whether it is a directory, its size unless it is one, its times, and whether
/// it is read-only.  A failure is told by its error.
pub proof fn law_stat_says_what_the_system_says(
    p: &LocalProvider,
    uri: &VfsUri,
    meta: Result<FileMeta, IoFailure>,
    r: Result<Stat, VfsError>,
    call: LocalCall,
    q: Result<Stat, VfsError>,
)
    ensures
        call_ensures(LocalProvider::stat, (p, uri, meta), r) ==> {
            &&& r is Ok == meta is Ok
            &&& meta matches Ok(m) ==> tells(m, r->Ok_0)
            &&& meta matches Err(e) ==> r->Err_0@ == io_error(e, uri@)
        },
        call_ensures(LocalCall::stat, (call, meta), q) ==> {
            &&& q is Ok == meta is Ok
            &&& meta matches Ok(m) ==> tells(m, q->Ok_0)
            &&& meta matches Err(e) ==> q->Err_0@ == io_error(e, call@)
        },
{
    if call_ensures(LocalProvider::stat, (p, uri, meta), r) {
        assert(r matches Ok(st) ==> st@.symlink_target == opt_text(st.symlink_target));
    }
    if call_ensures(LocalCall::stat, (call, meta), q) {
        assert(q matches Ok(st) ==> st@.symlink_target == opt_text(st.symlink_target));
    }
}

/// The look-up says of the file what the metadata says.
pub open spec fn tells(m: FileMeta, st: Stat) -> bool {
    &&& st.file_type == if m.is_dir {
        FileType::Directory
    } else {
        FileType::File
    }
    &&& m.is_dir ==> st.size == 0
    &&& !m.is_dir ==> st.size == m.len
    &&& is_millis(m.modified, st.modified_ms)
    &&& is_millis(m.created, st.created_ms)
    &&& st.readonly == m.readonly
    &&& st.symlink_target is None
}

/// Failures of the operating system have the error of their kind, about the uri;
/// one without a kind of its own keeps its message, but for the unix code that
/// says that a directory is not empty.
pub proof fn law_failures_have_their_error(
    e: IoFailure,
    uri: &VfsUri,
    r: VfsError,
    end: Result<(), IoFailure>,
    told: Result<(), VfsError>,
)
    ensures
        call_ensures(VfsError::from_io, (e, uri), r) ==> {
            &&& e.kind == IoKind::NotFound ==> r@ == ErrorView::NotFound(uri@)
            &&& e.kind == IoKind::PermissionDenied ==> r@ == ErrorView::PermissionDenied(uri@)
            &&& e.kind == IoKind::AlreadyExists ==> r@ == ErrorView::AlreadyExists(uri@)
            &&& e.kind == IoKind::DirectoryNotEmpty ==> r@ == ErrorView::DirectoryNotEmpty(uri@)
            &&& e.kind == IoKind::Other && e.unix && e.raw_os_error == Some(39i32) ==> r@
                == ErrorView::DirectoryNotEmpty(uri@)
            &&& e.kind == IoKind::Other && !(e.unix && e.raw_os_error == Some(39i32)) ==> r@ == (
            ErrorView::Io { message: e.message@ })
        },
        call_ensures(io_result, (end, uri), told) ==> {
            &&& told is Ok == end is Ok
            &&& end matches Err(f) ==> told->Err_0@ == io_error(f, uri@)
        },
        io_error(e, uri@).uri() matches Some(u) ==> u == uri@,
        e.kind != IoKind::Other ==> io_error(e, uri@).uri() == Some(uri@),
{
}

/// A single call is on the path of the uri and ends as the operating system
/// says; only a `file` uri has a path.
pub proof fn law_local_calls_are_on_local_uris(
    uri: &VfsUri,
    r: Result<(LocalCall, PathBuf), VfsError>,
    call: LocalCall,
    end: Result<(), IoFailure>,
    told: Result<(), VfsError>,
)
    ensures
        call_ensures(LocalCall::begin, (uri,), r) ==> {
            &&& r is Ok <==> uri@.scheme == "file"@
            &&& r matches Ok((c, _)) ==> c@ == uri@
            &&& r matches Err(e) ==> e@ == ErrorView::InvalidUri(
                "cannot convert non-file uri to a local path: "@ + display(uri@),
            )
        },
        call_ensures(LocalCall::done, (call, end), told) ==> {
            &&& told is Ok == end is Ok
            &&& end matches Err(f) ==> told->Err_0@ == io_error(f, call@)
        },
{
}

/// The provider serves `file`, can do all that a provider can, and tells names
/// apart by case but on Windows and macOS.
pub proof fn law_local_can(p: &LocalProvider, windows: bool, macos: bool, c: ProviderCaps, s: &str)
    ensures
        call_ensures(LocalProvider::caps, (p, windows, macos), c) ==> c.read && c.write && c.watch
            && c.trash && c.copy_within && (c.case_sensitive <==> !windows && !macos),
        call_ensures(LocalProvider::scheme, (p,), s) ==> s@ == "file"@,
{
}

/// The type of an entry is a link where it is one, and else a directory or a
/// file; only directories have no size; an entry is hidden by a dot at the start
/// of its name, or by the mark of the platform.
pub proof fn law_entries_are_described(
    m: &FileMeta,
    t: FileType,
    size: u64,
    name: &str,
    known: Option<&FileMeta>,
    hidden: bool,
)
    ensures
        call_ensures(file_type_from, (m,), t) ==> {
            &&& m.is_symlink ==> t == FileType::Symlink
            &&& !m.is_symlink && m.is_dir ==> t == FileType::Directory
            &&& !m.is_symlink && !m.is_dir ==> t == FileType::File
        },
        call_ensures(shown_size, (m,), size) ==> size == if m.is_dir {
            0
        } else {
            m.len
        },
        call_ensures(is_hidden, (name, known), hidden) ==> hidden == ((name@.len() > 0 && name@[0]
            == '.') || (known matches Some(k) && k.hidden)),
{
}

/// A listing begins with a look at the directory, on its path.
pub proof fn law_listing_begins(
    uri: &VfsUri,
    opts: ListOpts,
    r: Result<(LocalListing, PathBuf, ListAction), VfsError>,
)
    requires
        call_ensures(LocalListing::begin, (uri, opts), r),
    ensures
        r is Ok <==> uri@.scheme == "file"@,
        r matches Ok((l, _, action)) ==> {
            &&& action == ListAction::Examine
            &&& l@.uri == uri@
            &&& l@.opts.include_hidden == opts.include_hidden
            &&& l@.out.len() == 0
            &&& l@.phase is Examining
        },
{
}

/// Only a directory is listed: it is opened and its entries are taken one after
/// the other, until there is none, an error comes, or the listing is cancelled.
/// An entry whose name cannot stand in a uri is left out.
pub proof fn law_listing_takes_the_entries(
    l: &mut LocalListing,
    reply: ListReply,
    cancelled: bool,
    mime: Option<String>,
    action: ListAction,
)
    requires
        call_ensures(LocalListing::step_as, (l, reply, cancelled, mime), action) || call_ensures(
            LocalListing::step,
            (l, reply, cancelled),
            action,
        ),
        !(reply is Described),
    ensures
        ({
            let v = old(l)@;
            let failed = |e: ErrorView|
                final(l)@.phase == ListPhaseView::Failed(e) && action == ListAction::Finish;
            let reads_on = if cancelled {
                failed(ErrorView::Cancelled)
            } else {
                final(l)@.phase is Reading && action == ListAction::NextEntry
            };
            &&& final(l)@.out == v.out
            &&& final(l)@.uri == v.uri
            &&& final(l)@.opts == v.opts
            &&& reply matches ListReply::Meta(Ok(m)) ==> (m.is_dir ==> final(l)@.phase is Opening
                && action == ListAction::Open) && (!m.is_dir ==> failed(
                ErrorView::NotADirectory(v.uri),
            ))
            &&& reply matches ListReply::Meta(Err(e)) ==> failed(io_error(e, v.uri))
            &&& reply matches ListReply::Opened(Ok(())) ==> reads_on
            &&& reply matches ListReply::Opened(Err(e)) ==> failed(io_error(e, v.uri))
            &&& reply matches ListReply::Entry(Err(e)) ==> failed(io_error(e, v.uri))
            &&& reply matches ListReply::Entry(Ok(None)) ==> final(l)@.phase is Listed && action
                == ListAction::Finish
            &&& reply matches ListReply::Entry(Ok(Some(name))) ==> {
                let fits = crate::bulk_laws::joinable(name@);
                &&& !fits ==> reads_on
                &&& fits ==> action == ListAction::Describe && final(l)@.phase
                    == ListPhaseView::Describing(
                    UriView { segments: v.uri.segments.push(name@), ..v.uri },
                    name@,
                )
            }
        }),
{
}

/// An entry that is described is shown with its name, its uri and what the
/// operating system knows of it: its type with links not followed, its size
/// unless it is a directory, its time, whether it is hidden, and of a file the
/// media type that was guessed for its name.  One of which nothing is known counts as a file.
/// A hidden one is shown only where that was asked for.
pub proof fn law_entry_is_shown_as_it_is(
    l: &mut LocalListing,
    meta: Option<FileMeta>,
    cancelled: bool,
    mime: Option<String>,
    action: ListAction,
    u: UriView,
    name: Seq<char>,
)
    requires
        call_ensures(LocalListing::step_as, (l, ListReply::Described(meta), cancelled, mime), action)
            || call_ensures(LocalListing::step, (l, ListReply::Described(meta), cancelled), action),
        old(l)@.phase == ListPhaseView::Describing(u, name),
    ensures
        ({
            let v = old(l)@;
            let e = final(l)@.out.last();
            let hidden = (name.len() > 0 && name[0] == '.') || (meta is Some && meta->0.hidden);
            let is_file = meta is None || (!meta->0.is_symlink && !meta->0.is_dir);
            &&& cancelled ==> final(l)@.phase == ListPhaseView::Failed(ErrorView::Cancelled)
                && action == ListAction::Finish
            &&& !cancelled ==> final(l)@.phase is Reading && action == ListAction::NextEntry
            &&& hidden && !v.opts.include_hidden ==> final(l)@.out == v.out
            &&& !hidden || v.opts.include_hidden ==> {
                &&& final(l)@.out.len() == v.out.len() + 1
                &&& final(l)@.out.drop_last() == v.out
                &&& e.uri == u
                &&& e.name == name
                &&& e.hidden == hidden
                &&& !is_file ==> e.mime is None
                &&& is_file && call_ensures(
                    LocalListing::step_as,
                    (l, ListReply::Described(meta), cancelled, mime),
                    action,
                ) ==> e.mime is Some == mime is Some && (mime is Some ==> e.mime->0 == mime->0@)
                &&& is_file && call_ensures(
                    LocalListing::step,
                    (l, ListReply::Described(meta), cancelled),
                    action,
                ) && free_of(name, '\\') && free_of(name, ':') ==> e.mime == guessed_mime(name)
                &&& is_file ==> e.file_type == FileType::File
                &&& meta matches Some(m) ==> {
                    &&& m.is_symlink ==> e.file_type == FileType::Symlink
                    &&& !m.is_symlink && m.is_dir ==> e.file_type == FileType::Directory
                    &&& m.is_dir ==> e.size == 0
                    &&& !m.is_dir ==> e.size == m.len
                    &&& is_millis(m.modified, e.modified_ms)
                }
                &&& meta is None ==> e.size == 0 && e.modified_ms is None
            }
        }),
{
    if final(l)@.out.len() == old(l)@.out.len() + 1 {
        assert(final(l)@.out.drop_last() =~= old(l)@.out);
    }
}

/// A listing that is over gives the entries that were shown, or its error.
pub proof fn law_listing_gives_what_was_shown(l: LocalListing, r: Result<Vec<DirEntry>, VfsError>)
    requires
        call_ensures(LocalListing::finish, (l,), r),
    ensures
        l@.phase is Listed ==> (r matches Ok(entries) && entries@.len() == l@.out.len()
            && forall|i: int| 0 <= i < entries@.len() ==> (#[trigger] entries@[i])@ == l@.out[i]),
        l@.phase matches ListPhaseView::Failed(e) ==> (r matches Err(f) && f@ == e),
{
    if let Ok(entries) = r {
        assert forall|i: int| 0 <= i < entries@.len() implies (#[trigger] entries@[i])@
            == l@.out[i] by {
            assert(crate::types::entry_views(entries@)[i] == entries@[i]@);
        }
    }
}

/// A read that was cancelled fails so, before its path is looked at; else it
/// begins with a look at the file.
pub proof fn law_read_begins(
    uri: &VfsUri,
    range: Option<(u64, u64)>,
    cancelled: bool,
    r: Result<(LocalRead, PathBuf, ReadAction), VfsError>,
)
    requires
        call_ensures(LocalRead::begin, (uri, range, cancelled), r),
    ensures
        r is Ok <==> !cancelled && uri@.scheme == "file"@,
        cancelled ==> (r matches Err(e) && e@ == ErrorView::Cancelled),
        r matches Ok((read, _, action)) ==> {
            &&& action == ReadAction::Examine
            &&& read@.uri == uri@
            &&& read@.range == range
            &&& read@.phase is Examining
        },
{
}

/// A file is opened unless it is a directory.  The whole file is then handed
/// out; of a range, from its start on, as many bytes as lie between its start
/// and its end, and none where it ends before it starts.  Every failure ends the
/// read with its error.
pub proof fn law_read_hands_out_the_range(
    read: &mut LocalRead,
    reply: ReadReply,
    action: ReadAction,
)
    requires
        call_ensures(LocalRead::step, (read, reply), action),
        old(read)@.awaits(reply),
    ensures
        ({
            let v = old(read)@;
            let failed = |e: ErrorView|
                final(read)@.phase == ReadPhaseView::Failed(e) && action == ReadAction::Fail;
            &&& final(read)@.uri == v.uri
            &&& final(read)@.range == v.range
            &&& reply matches ReadReply::Meta(Err(e)) ==> failed(io_error(e, v.uri))
            &&& reply matches ReadReply::Meta(Ok(m)) ==> (m.is_dir ==> failed(
                ErrorView::IsADirectory(v.uri),
            )) && (!m.is_dir ==> final(read)@.phase is Opening && action == ReadAction::Open)
            &&& reply matches ReadReply::Done(Err(e)) ==> failed(io_error(e, v.uri))
            &&& v.phase is Opening ==> (reply matches ReadReply::Done(Ok(())) ==> {
                &&& v.range is None ==> final(read)@.phase is Streaming && action
                    == ReadAction::Stream(None)
                &&& v.range matches Some((start, end)) ==> final(read)@.phase is Seeking && action
                    == ReadAction::Seek(start)
            })
            &&& v.phase is Seeking ==> (reply matches ReadReply::Done(Ok(())) ==> (
            v.range matches Some((start, end)) ==> final(read)@.phase is Streaming && (
            action matches ReadAction::Stream(Some(n)) && n == if start <= end {
                end - start
            } else {
                0
            })))
        }),
{
}

/// The chunks of a file are handed on as they come, and their failures with
/// their error.
pub proof fn law_chunks_are_handed_on(
    read: &LocalRead,
    chunk: Result<Vec<u8>, IoFailure>,
    r: Result<Vec<u8>, VfsError>,
    over: LocalRead,
    e: VfsError,
)
    ensures
        call_ensures(LocalRead::chunk, (read, chunk), r) ==> {
            &&& r is Ok == chunk is Ok
            &&& chunk matches Ok(bytes) ==> r->Ok_0@ == bytes@
            &&& chunk matches Err(f) ==> r->Err_0@ == io_error(f, read@.uri)
        },
        call_ensures(LocalRead::failure, (over,), e) ==> over@.phase == ReadPhaseView::Failed(e@),
{
}

/// A deletion goes to the trash where the client asked for that, and only
/// there; else it begins with a look at what is to be deleted.
pub proof fn law_trash_is_used_on_demand(
    uri: &VfsUri,
    opts: DeleteOpts,
    r: Result<(LocalDelete, PathBuf, DeleteAction), VfsError>,
)
    requires
        call_ensures(LocalDelete::begin, (uri, opts), r),
    ensures
        r is Ok <==> uri@.scheme == "file"@,
        r matches Ok((d, _, action)) ==> {
            &&& d@.uri == uri@
            &&& d@.recursive == opts.recursive
            &&& opts.use_trash ==> action == DeleteAction::Trash && d@.phase is Trashing
            &&& !opts.use_trash ==> action == DeleteAction::Examine && d@.phase is Examining
        },
{
}

/// A file or link is removed as one; a directory is removed with all that is
/// below it where that was asked for, and else only where it is empty.  The
/// deletion ends as the trash or the operating system says.
pub proof fn law_deletion_removes_what_was_asked(
    d: &mut LocalDelete,
    reply: DeleteReply,
    action: DeleteAction,
)
    requires
        call_ensures(LocalDelete::step, (d, reply), action),
    ensures
        ({
            let v = old(d)@;
            let failed = |e: ErrorView|
                final(d)@.phase == DeletePhaseView::Ended(Err(e)) && action == DeleteAction::Finish;
            let done = (final(d)@.phase matches DeletePhaseView::Ended(r) && r is Ok) && action
                == DeleteAction::Finish;
            &&& final(d)@.uri == v.uri
            &&& final(d)@.recursive == v.recursive
            &&& reply matches DeleteReply::Trashed(Ok(Ok(()))) ==> done
            &&& reply matches DeleteReply::Trashed(Ok(Err(message))) ==> failed(
                ErrorView::Provider { code: "trash"@, message: message@ },
            )
            &&& reply matches DeleteReply::Trashed(Err(message)) ==> failed(
                ErrorView::Io { message: message@ },
            )
            &&& reply matches DeleteReply::Meta(Err(e)) ==> failed(io_error(e, v.uri))
            &&& reply matches DeleteReply::Meta(Ok(m)) ==> {
                &&& final(d)@.phase is Removing
                &&& !m.is_dir ==> action == DeleteAction::RemoveFile
                &&& m.is_dir && v.recursive ==> action == DeleteAction::RemoveTree
                &&& m.is_dir && !v.recursive ==> action == DeleteAction::RemoveDir
            }
            &&& reply matches DeleteReply::Done(Ok(())) ==> done
            &&& reply matches DeleteReply::Done(Err(e)) ==> failed(io_error(e, v.uri))
        }),
{
}

/// A write begins with the directories of its target where that was asked for;
/// else with a look at the target where it must not be overwritten; else with
/// the temporary file.  Without a directory that holds the file there is no
/// place for that.
pub proof fn law_write_begins(
    uri: &VfsUri,
    opts: WriteOpts,
    has_parent: bool,
    temp_id: u128,
    r: (LocalWrite, WriteAction),
)
    requires
        call_ensures(LocalWrite::begin_with, (uri, opts, has_parent, temp_id), r),
        uri@.scheme == "file"@,
    ensures
        ({
            let up = UriView { segments: uri@.segments.drop_last(), ..uri@ };
            let makes = opts.create_parents && uri@.segments.len() > 0;
            &&& r.0@.uri == uri@
            &&& r.0@.opts.overwrite == opts.overwrite
            &&& r.0@.opts.create_parents == opts.create_parents
            &&& r.0@.has_parent == has_parent
            &&& r.0@.temp_id == temp_id
            &&& makes ==> r.1@ == WriteActionView::MakeDirs(up) && r.0@.phase
                == WritePhaseView::MakingDirs(up)
            &&& !makes && !opts.overwrite ==> r.1@ is LookForTarget && r.0@.phase is Looking
            &&& !makes && opts.overwrite && has_parent ==> r.1@ == WriteActionView::CreateTemp(
                ".atomo-tmp-"@ + id_text(temp_id),
            ) && r.0@.phase is Creating
            &&& !makes && opts.overwrite && !has_parent ==> r.1@ is Finish && r.0@.phase
                == WritePhaseView::Ended(
                Err(ErrorView::InvalidUri("uri has no parent directory: "@ + display(uri@))),
            )
        }),
{
}

/// The write of a uri is one of its file, with the options of the client and a
/// number that is drawn at random.
pub proof fn law_write_is_of_its_file(
    uri: &VfsUri,
    opts: WriteOpts,
    r: Result<(LocalWrite, PathBuf, Option<PathBuf>, WriteAction), VfsError>,
)
    requires
        call_ensures(LocalWrite::begin, (uri, opts), r),
    ensures
        r is Ok <==> uri@.scheme == "file"@,
        r matches Ok((w, _, dir, _)) ==> w@.uri == uri@ && w@.opts == opts && w@.has_parent
            == dir is Some && was_drawn(w@.temp_id) && is_random_uuid(w@.temp_id),
{
}

/// How a write goes on.  Before the temporary file is there, a failure ends the
/// write, and a target that is there is not overwritten unless asked for.  Then
/// every chunk is taken and written until the stream is over; the file is
/// flushed, synced, and put in the place of the target.  A failure of any of
/// these, of the stream, and a cancellation between chunks lead to the removal
/// of the temporary file, and the write ends with what failed first.
pub proof fn law_write_goes_on(w: &mut LocalWrite, reply: WriteReply, action: WriteAction)
    requires
        call_ensures(LocalWrite::step, (w, reply), action),
        old(w)@.awaits(reply@),
    ensures
        ({
            let v = old(w)@;
            let after = final(w)@;
            let ended = |e: ErrorView|
                after.phase == WritePhaseView::Ended(Err(e)) && action@ is Finish;
            let gives_up = |e: ErrorView|
                after.phase == WritePhaseView::Removing(e) && action@ is RemoveTemp;
            let creates = if v.has_parent {
                after.phase is Creating && action@ == WriteActionView::CreateTemp(
                    ".atomo-tmp-"@ + id_text(v.temp_id),
                )
            } else {
                ended(ErrorView::InvalidUri("uri has no parent directory: "@ + display(v.uri)))
            };
            let looks = after.phase is Looking && action@ is LookForTarget;
            &&& after.uri == v.uri && after.opts == v.opts && after.has_parent == v.has_parent
                && after.temp_id == v.temp_id
            &&& v.phase matches WritePhaseView::MakingDirs(p) ==> {
                &&& reply matches WriteReply::Done(Err(e)) ==> ended(io_error(e, p))
                &&& reply matches WriteReply::Done(Ok(())) ==> (v.opts.overwrite ==> creates) && (
                !v.opts.overwrite ==> looks)
            }
            &&& v.phase is Looking ==> (reply matches WriteReply::Target(seen) ==> (seen == Some(
                true,
            ) ==> ended(ErrorView::AlreadyExists(v.uri))) && (seen != Some(true) ==> creates))
            &&& v.phase is Creating ==> {
                &&& reply matches WriteReply::Done(Err(e)) ==> ended(io_error(e, v.uri))
                &&& reply matches WriteReply::Done(Ok(())) ==> after.phase is Pulling
                    && action@ is NextChunk
            }
            &&& v.phase is Pulling ==> (reply matches WriteReply::Chunk { chunk, cancelled } ==> {
                &&& chunk is None ==> after.phase is Flushing && action@ is Flush
                &&& chunk is Some && cancelled ==> gives_up(ErrorView::Cancelled)
                &&& !cancelled ==> (chunk matches Some(Err(e)) ==> gives_up(e@))
                &&& !cancelled ==> (chunk matches Some(Ok(())) ==> after.phase is Writing
                    && action@ is WriteChunk)
            })
            &&& v.phase is Writing || v.phase is Flushing || v.phase is Syncing
                || v.phase is Replacing ==> (reply matches WriteReply::Done(Err(e)) ==> gives_up(
                io_error(e, v.uri),
            ))
            &&& reply matches WriteReply::Done(Ok(())) ==> {
                &&& v.phase is Writing ==> after.phase is Pulling && action@ is NextChunk
                &&& v.phase is Flushing ==> after.phase is Syncing && action@ is Sync
                &&& v.phase is Syncing ==> after.phase is Replacing && action@ is ReplaceTarget
                &&& v.phase is Replacing ==> (after.phase matches WritePhaseView::Ended(r)
                    && r is Ok) && action@ is Finish
            }
            &&& v.phase matches WritePhaseView::Removing(e) ==> ended(e)
        }),
{
    if let WriteReply::Chunk { chunk, cancelled } = reply {
        assert(reply@->chunk is None == chunk is None);
    }
}

/// A rename or copy looks at its target first where that must not be
/// overwritten; else a rename is tried, and a copy looks at its source.  Both
/// are of local uris only.
pub proof fn law_transfer_begins(
    from: &VfsUri,
    to: &VfsUri,
    overwrite: bool,
    r: Result<(LocalTransfer, PathBuf, PathBuf, TransferAction), VfsError>,
    q: Result<(LocalTransfer, PathBuf, PathBuf, TransferAction), VfsError>,
)
    ensures
        call_ensures(LocalTransfer::rename, (from, to, overwrite), r) ==> {
            &&& r is Ok <==> from@.scheme == "file"@ && to@.scheme == "file"@
            &&& r matches Ok((t, _, _, action)) ==> {
                &&& t@.from == from@ && t@.to == to@ && !t@.keep_source
                &&& overwrite ==> action == TransferAction::Rename && t@.phase is Renaming
                &&& !overwrite ==> action == TransferAction::LookForTarget && t@.phase is Looking
            }
        },
        call_ensures(LocalTransfer::copy_within, (from, to, overwrite), q) ==> {
            &&& q is Ok <==> from@.scheme == "file"@ && to@.scheme == "file"@
            &&& q matches Ok((t, _, _, action)) ==> {
                &&& t@.from == from@ && t@.to == to@ && t@.keep_source
                &&& overwrite ==> action == TransferAction::Examine && t@.phase is Examining
                &&& !overwrite ==> action == TransferAction::LookForTarget && t@.phase is Looking
            }
        },
{
}

/// How a rename or copy goes on.  A target that is there ends it.  A rename that
/// fails across devices copies a file and then removes its source, and refuses a
/// directory; a copy copies a file, or a directory with all that is below it.
/// Every failure ends it with its error.
pub proof fn law_transfer_goes_on(t: &mut LocalTransfer, reply: TransferReply, action: TransferAction)
    requires
        call_ensures(LocalTransfer::step, (t, reply), action),
        old(t)@.awaits(reply@),
    ensures
        ({
            let v = old(t)@;
            let after = final(t)@;
            let ended = |e: ErrorView|
                after.phase == TransferPhaseView::Ended(Err(e)) && action == TransferAction::Finish;
            let done = (after.phase matches TransferPhaseView::Ended(r) && r is Ok) && action
                == TransferAction::Finish;
            let examines = after.phase is Examining && action == TransferAction::Examine;
            &&& after.from == v.from && after.to == v.to && after.keep_source == v.keep_source
            &&& v.phase is Looking ==> (reply matches TransferReply::Target(seen) ==> {
                &&& seen == Some(true) ==> ended(ErrorView::AlreadyExists(v.to))
                &&& seen != Some(true) && v.keep_source ==> examines
                &&& seen != Some(true) && !v.keep_source ==> after.phase is Renaming && action
                    == TransferAction::Rename
            })
            &&& v.phase is Renaming ==> {
                &&& reply matches TransferReply::Done(Ok(())) ==> done
                &&& reply matches TransferReply::Done(Err(e)) ==> (e.raw_os_error == Some(18i32)
                    ==> examines) && (e.raw_os_error != Some(18i32) ==> ended(io_error(e, v.from)))
            }
            &&& v.phase is Examining ==> {
                &&& reply matches TransferReply::Meta(Err(e)) ==> ended(io_error(e, v.from))
                &&& reply matches TransferReply::Meta(Ok(m)) ==> {
                    &&& !m.is_dir ==> after.phase is CopyingFile && action
                        == TransferAction::CopyFile
                    &&& m.is_dir && v.keep_source ==> after.phase is CopyingDirectory && action
                        == TransferAction::CopyDirectory
                    &&& m.is_dir && !v.keep_source ==> ended(
                        ErrorView::Io {
                            message: "cross-device rename of a directory is not supported for "@
                                + display(v.from),
                        },
                    )
                }
            }
            &&& v.phase is CopyingFile ==> {
                &&& reply matches TransferReply::Done(Err(e)) ==> ended(io_error(e, v.from))
                &&& reply matches TransferReply::Done(Ok(())) ==> (v.keep_source ==> done) && (
                !v.keep_source ==> after.phase is RemovingSource && action
                    == TransferAction::RemoveSource)
            }
            &&& v.phase is RemovingSource ==> {
                &&& reply matches TransferReply::Done(Err(e)) ==> ended(io_error(e, v.from))
                &&& reply matches TransferReply::Done(Ok(())) ==> done
            }
            &&& v.phase is CopyingDirectory ==> {
                &&& reply matches TransferReply::Directory(Ok(())) ==> done
                &&& reply matches TransferReply::Directory(Err(e)) ==> ended(e@)
            }
        }),
{
}

/// The copy of a directory ends with the first failure, with its message, and
/// where it was cancelled when it takes an entry.
pub proof fn law_directory_copy_stops<N>(d: &mut DirCopy<N>, reply: DirReply<N>, action: DirAction)
    requires
        call_ensures(DirCopy::<N>::step, (d, reply), action),
        old(d)@.awaits(reply),
    ensures
        ({
            let ended = |e: ErrorView|
                final(d)@.phase == DirPhaseView::Ended(Err(e)) && action == DirAction::Finish;
            &&& reply matches DirReply::Done(Err(message)) ==> ended(
                ErrorView::Io { message: message@ },
            )
            &&& reply matches DirReply::Class(Err(message)) ==> ended(
                ErrorView::Io { message: message@ },
            )
            &&& reply matches DirReply::Entry { there: Err(message), .. } ==> ended(
                ErrorView::Io { message: message@ },
            )
            &&& reply matches DirReply::Entry { there: Ok(Some(name)), cancelled } ==> (cancelled
                ==> ended(ErrorView::Cancelled)) && (!cancelled ==> action == DirAction::Classify
                && final(d)@.place == old(d)@.place.push(name))
            &&& reply matches DirReply::Entry { there: Ok(None), .. } ==> action
                == DirAction::CloseDir
            &&& reply matches DirReply::Class(Ok(is_dir)) ==> final(d)@.place == old(d)@.place
                && action == if is_dir {
                DirAction::MakeDir
            } else {
                DirAction::CopyFile
            }
        }),
{
}

/// How an operation ended is what it gives.
pub proof fn law_local_operations_end_as_they_ended(
    deletion: LocalDelete,
    a: Result<(), VfsError>,
    write: LocalWrite,
    b: Result<(), VfsError>,
    transfer: LocalTransfer,
    c: Result<(), VfsError>,
)
    ensures
        call_ensures(LocalDelete::finish, (deletion,), a) ==> (deletion@.phase matches DeletePhaseView::Ended(
            r,
        ) ==> a is Ok == r is Ok && (r matches Err(e) ==> a->Err_0@ == e)),
        call_ensures(LocalWrite::finish, (write,), b) ==> (write@.phase matches WritePhaseView::Ended(
            r,
        ) ==> b is Ok == r is Ok && (r matches Err(e) ==> b->Err_0@ == e)),
        call_ensures(LocalTransfer::finish, (transfer,), c) ==> (
        transfer@.phase matches TransferPhaseView::Ended(r) ==> c is Ok == r is Ok && (
        r matches Err(e) ==> c->Err_0@ == e)),
{
}

/// The steps of the copy of a directory that go well: a directory is made,
/// opened, read to its end and closed; a file is copied.  Then the copy is back
/// in the directory above, and it is over when the directory that it is of was
/// closed.
pub proof fn law_directory_copy_goes_on<N>(d: &mut DirCopy<N>, reply: DirReply<N>, action: DirAction)
    requires
        call_ensures(DirCopy::<N>::step, (d, reply), action),
        old(d)@.awaits(reply),
        reply matches DirReply::Done(end) && end is Ok,
    ensures
        ({
            let v = old(d)@;
            let after = final(d)@;
            let rises = action == DirAction::NextEntry && after.phase is Reading && after.place
                == v.place.drop_last();
            &&& v.phase is Making ==> action == DirAction::OpenDir && after.phase is Opening
                && after.place == v.place
            &&& v.phase is Opening ==> action == DirAction::NextEntry && after.phase is Reading
                && after.place == v.place
            &&& v.phase is Copying ==> rises
            &&& v.phase is Closing && v.place.len() > 0 ==> rises
            &&& v.phase is Closing && v.place.len() == 0 ==> action == DirAction::Finish && (
            after.phase matches DirPhaseView::Ended(r) && r is Ok)
        }),
{
}

/// The copy of a directory begins with its target, at its top, and gives how it
/// ended.
pub proof fn law_directory_copy_begins_and_ends<N>(
    begun: (DirCopy<N>, DirAction),
    d: &DirCopy<N>,
    place: &Vec<N>,
    over: DirCopy<N>,
    r: Result<(), VfsError>,
)
    ensures
        call_ensures(DirCopy::<N>::begin, (), begun) ==> begun.1 == DirAction::MakeDir
            && begun.0@.place.len() == 0 && begun.0@.phase is Making,
        call_ensures(DirCopy::<N>::place, (d,), place) ==> place@ == d@.place,
        call_ensures(DirCopy::<N>::finish, (over,), r) ==> (over@.phase matches DirPhaseView::Ended(
            end,
        ) ==> r is Ok == end is Ok && (end matches Err(e) ==> r->Err_0@ == e)),
{
}

/// Every operation is on the path of its uri, and a transfer on those of its
/// source and its target, in this order.
pub proof fn law_local_operations_are_on_their_paths(
    uri: &VfsUri,
    to: &VfsUri,
    path: PathBuf,
    to_path: PathBuf,
    call: Result<(LocalCall, PathBuf), VfsError>,
    read: Result<(LocalRead, PathBuf, ReadAction), VfsError>,
    range: Option<(u64, u64)>,
    deletion: Result<(LocalDelete, PathBuf, DeleteAction), VfsError>,
    delete_opts: DeleteOpts,
    listing: Result<(LocalListing, PathBuf, ListAction), VfsError>,
    list_opts: ListOpts,
    write: Result<(LocalWrite, PathBuf, Option<PathBuf>, WriteAction), VfsError>,
    write_opts: WriteOpts,
    transfer: Result<(LocalTransfer, PathBuf, PathBuf, TransferAction), VfsError>,
    overwrite: bool,
)
    requires
        call_ensures(VfsUri::to_local_path, (uri,), Ok::<PathBuf, VfsError>(path)),
        call_ensures(VfsUri::to_local_path, (to,), Ok::<PathBuf, VfsError>(to_path)),
    ensures
        call_ensures(LocalCall::begin, (uri,), call) ==> (call matches Ok(c) && c.1 == path),
        call_ensures(LocalRead::begin, (uri, range, false), read) ==> (read matches Ok(c) && c.1
            == path),
        call_ensures(LocalDelete::begin, (uri, delete_opts), deletion) ==> (deletion matches Ok(c)
            && c.1 == path),
        call_ensures(LocalListing::begin, (uri, list_opts), listing) ==> (listing matches Ok(c)
            && c.1 == path),
        call_ensures(LocalWrite::begin, (uri, write_opts), write) ==> (write matches Ok(c) && c.1
            == path),
        call_ensures(LocalTransfer::rename, (uri, to, overwrite), transfer) ==> (
        transfer matches Ok(c) && c.1 == path && c.2 == to_path),
        call_ensures(LocalTransfer::copy_within, (uri, to, overwrite), transfer) ==> (
        transfer matches Ok(c) && c.1 == path && c.2 == to_path),
{
}

/// The write of a file begins as one does whose file lies in a directory where
/// its path has one, with the temporary name drawn for it.
pub proof fn law_write_of_a_file_begins(
    uri: &VfsUri,
    opts: WriteOpts,
    r: Result<(LocalWrite, PathBuf, Option<PathBuf>, WriteAction), VfsError>,
    w: (LocalWrite, WriteAction),
)
    requires
        call_ensures(LocalWrite::begin, (uri, opts), r),
        r is Ok,
        call_ensures(
            LocalWrite::begin_with,
            (uri, opts, r->Ok_0.2 is Some, r->Ok_0.0@.temp_id),
            w,
        ),
    ensures
        r->Ok_0.0@ == w.0@,
        r->Ok_0.3@ == w.1@,
{
}

/// A change at paths is one event for each path that has a uri, in their order:
/// of its kind for creations, changes and removals, and none for other changes.
pub proof fn law_changes_are_told_in_order(
    kind: ChangeKind,
    uris: Seq<Option<UriView>>,
    last: Option<UriView>,
)
    requires
        kind != ChangeKind::Rename,
    ensures
        change_events(kind, Seq::empty()).len() == 0,
        kind == ChangeKind::Other || last is None ==> change_events(kind, uris.push(last))
            == change_events(kind, uris),
        kind != ChangeKind::Other ==> (last matches Some(u) ==> change_events(kind, uris.push(last))
            == change_events(kind, uris).push(
            EventView {
                kind: match kind {
                    ChangeKind::Create => FsEventKind::Created,
                    ChangeKind::Modify => FsEventKind::Modified,
                    _ => FsEventKind::Removed,
                },
                uri: u,
                renamed_to: None,
            },
        )),
{
    assert(uris.push(last).drop_last() =~= uris);
}

/// Of a pair of names the first is told as removed and the second as created;
/// of any other number each is told as removed and created.
pub proof fn law_new_names_are_told(old_name: Option<UriView>, new_name: Option<UriView>, u: UriView)
    ensures
        ({
            let removed = |x: UriView|
                EventView { kind: FsEventKind::Removed, uri: x, renamed_to: None };
            let created = |x: UriView|
                EventView { kind: FsEventKind::Created, uri: x, renamed_to: None };
            &&& change_events(ChangeKind::Rename, seq![old_name, new_name]) == (match old_name {
                Some(x) => seq![removed(x)],
                None => Seq::empty(),
            }) + (match new_name {
                Some(x) => seq![created(x)],
                None => Seq::empty(),
            })
            &&& change_events(ChangeKind::Rename, seq![Some(u)]) == seq![removed(u), created(u)]
            &&& change_events(ChangeKind::Rename, seq![None::<UriView>]).len() == 0
        }),
{
    reveal_with_fuel(events_at, 3);
    reveal_with_fuel(replaced_at, 3);
    let pair = seq![old_name, new_name];
    assert(pair.take(1) =~= seq![old_name]);
    assert(pair.skip(1) =~= seq![new_name]);
    assert(seq![old_name].drop_last() =~= Seq::<Option<UriView>>::empty());
    assert(seq![new_name].drop_last() =~= Seq::<Option<UriView>>::empty());
    assert(seq![Some(u)].drop_last() =~= Seq::<Option<UriView>>::empty());
    assert(seq![None::<UriView>].drop_last() =~= Seq::<Option<UriView>>::empty());
    let removed = EventView { kind: FsEventKind::Removed, uri: u, renamed_to: None };
    let created = EventView { kind: FsEventKind::Created, uri: u, renamed_to: None };
    assert(Seq::<EventView>::empty().push(removed).push(created) =~= seq![removed, created]);
    assert(change_events(ChangeKind::Rename, pair) =~= (match old_name {
        Some(x) => seq![EventView { kind: FsEventKind::Removed, uri: x, renamed_to: None }],
        None => Seq::empty(),
    }) + (match new_name {
        Some(x) => seq![EventView { kind: FsEventKind::Created, uri: x, renamed_to: None }],
        None => Seq::empty(),
    }));
}

/// Names of any number but two are told one after the other.
pub proof fn law_many_new_names_are_told(uris: Seq<Option<UriView>>, last: Option<UriView>)
    ensures
        last is None ==> replaced_at(uris.push(last)) == replaced_at(uris),
        last matches Some(u) ==> replaced_at(uris.push(last)) == replaced_at(uris).push(
            EventView { kind: FsEventKind::Removed, uri: u, renamed_to: None },
        ).push(EventView { kind: FsEventKind::Created, uri: u, renamed_to: None }),
        uris.len() != 2 ==> change_events(ChangeKind::Rename, uris) == replaced_at(uris),
{
    assert(uris.push(last).drop_last() =~= uris);
}

/// What is translated are the events of the change at the uris.
pub proof fn law_notices_are_translated(
    kind: ChangeKind,
    uris: &Vec<Option<VfsUri>>,
    r: Vec<FsEvent>,
    paths: &Vec<&Path>,
    q: Vec<FsEvent>,
)
    ensures
        call_ensures(translate_change, (kind, uris), r) ==> event_views(r@) == change_events(
            kind,
            uris@.map_values(|u: Option<VfsUri>| crate::types::opt_uri(u)),
        ),
        call_ensures(translate_notify_event, (kind, paths), q) ==> event_views(q@)
            == change_events(
            kind,
            paths@.map_values(
                |p: &Path|
                    match crate::uri::local_uri(crate::paths::components_of(p)) {
                        Ok(u) => Some(u),
                        Err(_) => None,
                    },
            ),
        ),
{
    if call_ensures(translate_notify_event, (kind, paths), q) {
        assert(paths@.map_values(|p: &Path| crate::local::path_uri(p)) =~= paths@.map_values(
            |p: &Path|
                match crate::uri::local_uri(crate::paths::components_of(p)) {
                    Ok(u) => Some(u),
                    Err(_) => None,
                },
        ));
    }
    if call_ensures(translate_change, (kind, uris), r) {
        assert(crate::local::opt_uris(uris@) =~= uris@.map_values(
            |u: Option<VfsUri>| crate::types::opt_uri(u),
        ));
    }
}

} // verus!
