//! What the values that operations take and give back say, field by field.
use tokio_util::sync::CancellationToken;
use vstd::prelude::*;
use crate::chunks::{flattened, take_chunk, take_chunk_within};
use crate::error::{ErrorView, VfsError};
use crate::ids::{is_random_uuid, temp_name, was_drawn};
use crate::local_write::{WriteAction, WriteActionView};
use crate::ops::{refuse_cancelled, OpCtx, OpRegistry, Tally, THROTTLE_MIN_BYTES, THROTTLE_MIN_MS};
use crate::provider::{
    answers, Action, ActionView, Effect, EffectView, ProviderCall, Reply, ReplyView, Request,
    RequestView,
};
use crate::text::decimal;
use crate::types::{
    is_dot_name, CopyOpts, DeleteOpts, DirEntry, FsEvent, FsEventKind, ListOpts, OpProgress,
    PerSourceResult, ProviderCaps, Stat, WriteOpts,
};
use crate::uri::{display, VfsUri};
use crate::watch::{WatchHandle, WatchSessions};

verus! {

/// Two optional texts are the same.
pub open spec fn same_text_or_none(a: Option<String>, b: Option<Seq<char>>) -> bool {
    &&& a is Some == b is Some
    &&& a matches Some(s) ==> b == Some(s@)
}

/// Two optional uris are the same.
pub open spec fn same_uri_or_none(a: Option<VfsUri>, b: Option<crate::uri::UriView>) -> bool {
    &&& a is Some == b is Some
    &&& a matches Some(u) ==> b == Some(u@)
}

/// Contracts speak of a value by its fields, and of all of them.
pub proof fn law_values_are_their_fields(
    st: Stat,
    e: DirEntry,
    ev: FsEvent,
    o: PerSourceResult,
    p: OpProgress,
)
    ensures
        st@.file_type == st.file_type && st@.size == st.size && st@.modified_ms == st.modified_ms
            && st@.created_ms == st.created_ms && st@.readonly == st.readonly,
        same_text_or_none(st.symlink_target, st@.symlink_target),
        e@.uri == e.uri@ && e@.name == e.name@ && e@.file_type == e.file_type && e@.size == e.size
            && e@.modified_ms == e.modified_ms && e@.hidden == e.hidden,
        same_text_or_none(e.mime, e@.mime),
        ev@.kind == ev.kind && ev@.uri == ev.uri@,
        same_uri_or_none(ev.renamed_to, ev@.renamed_to),
        o@.source == o.source@ && o@.ok == o.ok,
        o@.error is Some == o.error is Some,
        o.error matches Some(x) ==> o@.error == Some(x@),
        p@.op_id == p.op_id && p@.done_bytes == p.done_bytes && p@.total_bytes == p.total_bytes
            && p@.done_files == p.done_files && p@.total_files == p.total_files,
        same_uri_or_none(p.current, p@.current),
{
}

/// A copy of a value says the same.
pub proof fn law_clones_say_the_same(
    st: &Stat,
    st2: Stat,
    e: &DirEntry,
    e2: DirEntry,
    ev: &FsEvent,
    ev2: FsEvent,
    x: &VfsError,
    x2: VfsError,
)
    ensures
        call_ensures(<Stat as Clone>::clone, (st,), st2) ==> st2@ == st@,
        call_ensures(<DirEntry as Clone>::clone, (e,), e2) ==> e2@ == e@,
        call_ensures(<FsEvent as Clone>::clone, (ev,), ev2) ==> ev2@ == ev@,
        call_ensures(<VfsError as Clone>::clone, (x,), x2) ==> x2@ == x@,
{
}

/// An error keeps the uri, the text or the limit that it was made with.
pub proof fn law_errors_hold_what_they_say(u: VfsUri, s: String, t: String, limit: u64)
    ensures
        VfsError::NotFound(u)@ == ErrorView::NotFound(u@),
        VfsError::AlreadyExists(u)@ == ErrorView::AlreadyExists(u@),
        VfsError::PermissionDenied(u)@ == ErrorView::PermissionDenied(u@),
        VfsError::NotADirectory(u)@ == ErrorView::NotADirectory(u@),
        VfsError::IsADirectory(u)@ == ErrorView::IsADirectory(u@),
        VfsError::DirectoryNotEmpty(u)@ == ErrorView::DirectoryNotEmpty(u@),
        VfsError::InvalidUri(s)@ == ErrorView::InvalidUri(s@),
        VfsError::InvalidTarget(s)@ == ErrorView::InvalidTarget(s@),
        VfsError::NoProvider(s)@ == ErrorView::NoProvider(s@),
        (VfsError::NotSupported { capability: s })@ == (ErrorView::NotSupported { capability: s@ }),
        VfsError::Cancelled@ == ErrorView::Cancelled,
        (VfsError::TooLarge { limit })@ == (ErrorView::TooLarge { limit }),
        (VfsError::Io { message: s })@ == (ErrorView::Io { message: s@ }),
        (VfsError::Provider { code: s, message: t })@ == (ErrorView::Provider {
            code: s@,
            message: t@,
        }),
{
}

/// A request asks for what it names, with the options it names.
pub proof fn law_requests_say_what_is_asked(
    u: VfsUri,
    to: VfsUri,
    overwrite: bool,
    list: ListOpts,
    delete: DeleteOpts,
    copy: CopyOpts,
    write: WriteOpts,
)
    ensures
        Request::Caps@ is Caps,
        Request::Stat(u)@ == RequestView::Stat(u@),
        Request::List(u, list)@ == RequestView::List(u@, list),
        Request::Mkdir(u)@ == RequestView::Mkdir(u@),
        Request::Delete(u, delete)@ == RequestView::Delete(u@, delete),
        (Request::Rename { from: u, to, overwrite })@ == (RequestView::Rename {
            from: u@,
            to: to@,
            overwrite,
        }),
        (Request::CopyWithin { from: u, to, opts: copy })@ == (RequestView::CopyWithin {
            from: u@,
            to: to@,
            opts: copy,
        }),
        Request::Read(u)@ == RequestView::Read(u@),
        Request::Write(u, write)@ == RequestView::Write(u@, write),
{
}

/// A call names its provider and its request, and an action its call; an effect
/// is the event or the progress that is told.
pub proof fn law_actions_say_what_is_next(c: ProviderCall, e: FsEvent, t: Tally, u: VfsUri)
    ensures
        c@.provider == c.provider,
        c@.request == c.request@,
        Action::Call(c)@ == ActionView::Call(c@),
        Action::Again@ is Again,
        Action::Done@ is Done,
        Effect::Event(e)@ == EffectView::Event(e@),
        Effect::Progress(t, u)@ == EffectView::Progress(t, u@),
{
}

/// An answer says what the provider gave, or its error.
pub proof fn law_replies_say_what_was_given(
    c: ProviderCaps,
    st: Stat,
    x: VfsError,
    entries: Vec<DirEntry>,
    i: int,
)
    ensures
        Reply::Caps(c)@ == ReplyView::Caps(c),
        Reply::Stat(Ok(st))@ == ReplyView::Stat(Ok(st@)),
        Reply::Stat(Err(x))@ == ReplyView::Stat(Err(x@)),
        Reply::List(Err(x))@ == ReplyView::List(Err(x@)),
        Reply::Unit(Err(x))@ == ReplyView::Unit(Err(x@)),
        Reply::Unit(Ok(()))@ matches ReplyView::Unit(r) && r is Ok,
        Reply::List(Ok(entries))@ matches ReplyView::List(Ok(views)) && views.len() == entries@.len()
            && (0 <= i < views.len() ==> views[i] == entries@[i]@),
{
}

/// Each request has answers of one sort: what a provider can do, a look-up, a
/// listing, and for all that is done only how it ended.
pub proof fn law_answers_fit_their_requests(q: RequestView, r: ReplyView)
    ensures
        q is Caps ==> (answers(r, q) <==> r is Caps),
        q is Stat ==> (answers(r, q) <==> r is Stat),
        q is List ==> (answers(r, q) <==> r is List),
        q is Mkdir || q is Delete || q is Rename || q is CopyWithin || q is Read || q is Write ==> (
        answers(r, q) <==> r is Unit),
{
}

/// The steps of a local write say what they are.
pub proof fn law_write_actions_say_what_is_next(a: WriteAction)
    ensures
        a matches WriteAction::MakeDirs(u) ==> a@ == WriteActionView::MakeDirs(u@),
        a matches WriteAction::CreateTemp(name) ==> a@ == WriteActionView::CreateTemp(name@),
        a is MakeDirs <==> a@ is MakeDirs,
        a is LookForTarget <==> a@ is LookForTarget,
        a is CreateTemp <==> a@ is CreateTemp,
        a is NextChunk <==> a@ is NextChunk,
        a is WriteChunk <==> a@ is WriteChunk,
        a is Flush <==> a@ is Flush,
        a is Sync <==> a@ is Sync,
        a is ReplaceTarget <==> a@ is ReplaceTarget,
        a is RemoveTemp <==> a@ is RemoveTemp,
        a is Finish <==> a@ is Finish,
{
}

/// The codes by which clients tell errors apart.
pub proof fn law_codes_of_errors(x: &VfsError, r: &'static str)
    requires
        call_ensures(VfsError::code, (x,), r),
    ensures
        *x is NotFound ==> r@ == "not_found"@,
        *x is AlreadyExists ==> r@ == "already_exists"@,
        *x is PermissionDenied ==> r@ == "permission_denied"@,
        *x is NotADirectory ==> r@ == "not_a_directory"@,
        *x is IsADirectory ==> r@ == "is_a_directory"@,
        *x is DirectoryNotEmpty ==> r@ == "directory_not_empty"@,
        *x is InvalidUri ==> r@ == "invalid_uri"@,
        *x is InvalidTarget ==> r@ == "invalid_target"@,
        *x is NoProvider ==> r@ == "no_provider"@,
        *x is NotSupported ==> r@ == "not_supported"@,
        *x is Cancelled ==> r@ == "cancelled"@,
        *x is TooLarge ==> r@ == "too_large"@,
        *x is Io ==> r@ == "io"@,
        *x is Provider ==> r@ == "provider"@,
{
}

/// The uri of an error is the one it was made with; the errors that were made
/// without one have none.
pub proof fn law_uris_of_errors(x: &VfsError, r: Option<&VfsUri>)
    requires
        call_ensures(VfsError::uri, (x,), r),
    ensures
        r is Some <==> *x is NotFound || *x is AlreadyExists || *x is PermissionDenied
            || *x is NotADirectory || *x is IsADirectory || *x is DirectoryNotEmpty,
        *x matches VfsError::NotFound(u) ==> r->0@ == u@,
        *x matches VfsError::AlreadyExists(u) ==> r->0@ == u@,
        *x matches VfsError::PermissionDenied(u) ==> r->0@ == u@,
        *x matches VfsError::NotADirectory(u) ==> r->0@ == u@,
        *x matches VfsError::IsADirectory(u) ==> r->0@ == u@,
        *x matches VfsError::DirectoryNotEmpty(u) ==> r->0@ == u@,
{
}

/// The messages of errors name what they are about.
pub proof fn law_messages_of_errors(x: &VfsError, r: String)
    requires
        call_ensures(VfsError::to_string, (x,), r),
    ensures
        *x matches VfsError::NotFound(u) ==> r@ == "not found: "@ + display(u@),
        *x matches VfsError::AlreadyExists(u) ==> r@ == "already exists: "@ + display(u@),
        *x matches VfsError::PermissionDenied(u) ==> r@ == "permission denied: "@ + display(u@),
        *x matches VfsError::NotADirectory(u) ==> r@ == "not a directory: "@ + display(u@),
        *x matches VfsError::IsADirectory(u) ==> r@ == "is a directory: "@ + display(u@),
        *x matches VfsError::DirectoryNotEmpty(u) ==> r@ == "directory not empty: "@ + display(u@),
        *x matches VfsError::InvalidUri(s) ==> r@ == "invalid uri: "@ + s@,
        *x matches VfsError::InvalidTarget(s) ==> r@ == "invalid target: "@ + s@,
        *x matches VfsError::NoProvider(s) ==> r@ == "no provider for scheme: "@ + s@,
        *x matches VfsError::NotSupported { capability } ==> r@ == "not supported: "@ + capability@,
        *x is Cancelled ==> r@ == "cancelled"@,
        *x matches VfsError::TooLarge { limit } ==> r@ == "too large: limit is "@ + decimal(
            limit as nat,
        ) + " bytes"@,
        *x matches VfsError::Io { message } ==> r@ == "io error: "@ + message@,
        *x matches VfsError::Provider { code, message } ==> r@ == "provider error ["@ + code@
            + "]: "@ + message@,
{
}

/// An outcome names its source and is good unless there was an error, which it
/// then holds.
pub proof fn law_outcome_is_of_its_source(
    source: VfsUri,
    result: Result<(), VfsError>,
    r: PerSourceResult,
)
    requires
        call_ensures(PerSourceResult::of, (source, result), r),
    ensures
        r.source@ == source@,
        r.ok == result is Ok,
        r.error is Some == result is Err,
        result matches Err(e) ==> r.error->0@ == e@,
{
    assert(r@.error is Some == r.error is Some);
}

/// An event names its uri, and the new one only where there is one; two events
/// are the same where all of that is.
pub proof fn law_events_name_their_uris(
    kind: FsEventKind,
    uri: &VfsUri,
    to: &VfsUri,
    a: FsEvent,
    b: FsEvent,
    x: &FsEvent,
    y: &FsEvent,
    same: bool,
)
    ensures
        call_ensures(FsEvent::of, (kind, uri), a) ==> a.kind == kind && a.uri@ == uri@
            && a.renamed_to is None,
        call_ensures(FsEvent::renamed, (uri, to), b) ==> b.kind == FsEventKind::Renamed && b.uri@
            == uri@ && (b.renamed_to matches Some(t) && t@ == to@),
        call_ensures(FsEvent::same, (x, y), same) ==> (same <==> x.kind == y.kind && x.uri@
            == y.uri@ && x.renamed_to is Some == y.renamed_to is Some && (x.renamed_to is Some
            ==> x.renamed_to->0@ == y.renamed_to->0@)),
{
    assert(a@.renamed_to is Some == a.renamed_to is Some);
    assert(b@.renamed_to is Some == b.renamed_to is Some);
    assert(x@.renamed_to is Some == x.renamed_to is Some);
    assert(y@.renamed_to is Some == y.renamed_to is Some);
}

/// A name is that of a hidden entry by its first character.
pub proof fn law_dot_names(name: &str, r: bool)
    requires
        call_ensures(is_dot_name, (name,), r),
    ensures
        r <==> name@.len() > 0 && name@[0] == '.',
{
}

/// A chunk goes behind the bytes that are held; where the operation was
/// cancelled, or an error came in place of the chunk, the bytes stay as they
/// are.  A cancellation comes first.
pub proof fn law_chunk_is_taken_in(
    buf: &mut Vec<u8>,
    cancelled: bool,
    chunk: Result<Vec<u8>, VfsError>,
    r: Result<(), VfsError>,
)
    requires
        call_ensures(take_chunk, (buf, cancelled, chunk), r),
    ensures
        r is Ok <==> !cancelled && chunk is Ok,
        r is Ok ==> final(buf)@ == old(buf)@ + chunk->Ok_0@,
        r is Err ==> final(buf)@ == old(buf)@,
        cancelled ==> r->Err_0@ == ErrorView::Cancelled,
        !cancelled && chunk is Err ==> r->Err_0@ == chunk->Err_0@,
{
}

/// A chunk goes behind the bytes that are held as long as they stay within the
/// limit; where they would not, the limit is told and nothing is added.
pub proof fn law_chunk_is_taken_in_within(
    buf: &mut Vec<u8>,
    max_size: u64,
    chunk: Result<Vec<u8>, VfsError>,
    r: Result<(), VfsError>,
)
    requires
        call_ensures(take_chunk_within, (buf, max_size, chunk), r),
    ensures
        r is Ok <==> chunk is Ok && old(buf)@.len() + chunk->Ok_0@.len() <= max_size,
        r is Ok ==> final(buf)@ == old(buf)@ + chunk->Ok_0@,
        r is Err ==> final(buf)@ == old(buf)@,
        chunk matches Err(e) ==> r->Err_0@ == e@,
        chunk is Ok && r is Err ==> r->Err_0@ == (ErrorView::TooLarge { limit: max_size }),
{
}

/// The bytes of a stream are those of its chunks, in their order.
pub proof fn law_chunks_are_put_together(chunks: Seq<Seq<u8>>, last: Seq<u8>)
    ensures
        flattened(Seq::empty()).len() == 0,
        flattened(chunks.push(last)) == flattened(chunks) + last,
{
    assert(chunks.push(last).drop_last() =~= chunks);
}

/// The steps of an operation are refused once it was cancelled, and only then.
pub proof fn law_cancelled_steps_are_refused(
    cancelled: bool,
    r: Result<(), VfsError>,
    ctx: &OpCtx,
    q: Result<(), VfsError>,
    asked: bool,
)
    ensures
        call_ensures(refuse_cancelled, (cancelled,), r) ==> {
            &&& r is Err == cancelled
            &&& r matches Err(e) ==> e@ == ErrorView::Cancelled
        },
        call_ensures(OpCtx::check_cancelled, (ctx,), q) ==> {
            &&& call_ensures(CancellationToken::is_cancelled, (&ctx.ct,), q is Err)
            &&& q matches Err(e) ==> e@ == ErrorView::Cancelled
        },
        call_ensures(OpCtx::is_cancelled, (ctx,), asked) ==> call_ensures(
            CancellationToken::is_cancelled,
            (&ctx.ct,),
            asked,
        ),
{
}

/// An operation begins with nothing reported.
pub proof fn law_operation_begins(id: u128, ct: CancellationToken, r: OpCtx)
    requires
        call_ensures(OpCtx::new, (id, ct), r),
    ensures
        r.id == id,
        r.ct == ct,
        r.last_bytes == 0,
{
}

/// A report is made a tenth of a second after the last, after 64 KiB more, and
/// when all bytes and files are done; it says what it was given, and the bytes
/// count from it on.  At other times nothing is reported and nothing changes.
pub proof fn law_progress_is_reported(
    ctx: &mut OpCtx,
    elapsed_ms: u128,
    done_bytes: u64,
    total_bytes: u64,
    done_files: u64,
    total_files: u64,
    current: Option<VfsUri>,
    r: Option<OpProgress>,
)
    requires
        call_ensures(
            OpCtx::report,
            (ctx, elapsed_ms, done_bytes, total_bytes, done_files, total_files, current),
            r,
        ),
    ensures
        r is Some <==> elapsed_ms >= 100 || done_bytes >= old(ctx).last_bytes + 65536 || (done_bytes
            >= total_bytes && done_files >= total_files),
        r is None ==> final(ctx).last_bytes == old(ctx).last_bytes,
        final(ctx).id == old(ctx).id,
        final(ctx).ct == old(ctx).ct,
        r matches Some(p) ==> {
            &&& final(ctx).last_bytes == done_bytes
            &&& p.op_id == old(ctx).id
            &&& p.done_bytes == done_bytes
            &&& p.total_bytes == total_bytes
            &&& p.done_files == done_files
            &&& p.total_files == total_files
            &&& p.current is Some == current is Some
            &&& current matches Some(u) ==> p.current->0@ == u@
        },
{
    assert(THROTTLE_MIN_MS == 100 && THROTTLE_MIN_BYTES == 65536);
    if let Some(p) = r {
        assert(p@.current is Some == p.current is Some);
        assert(p@.op_id == p.op_id);
    }
}

/// An operation is in flight from its start to its end under its id, and its
/// token is the one that was handed out at its start; the others stay as they
/// are.  To cancel it is to cancel that token.
pub proof fn law_operations_are_registered(
    ops: &mut OpRegistry,
    id: u128,
    ct: CancellationToken,
    other: u128,
    ended: &mut OpRegistry,
)
    ensures
        call_ensures(OpRegistry::start, (ops, id), ct) ==> {
            &&& call_ensures(CancellationToken::new, (), ct)
            &&& final(ops)@.contains_key(id)
            &&& final(ops)@[id] == ct
            &&& other != id ==> (final(ops)@.contains_key(other) == old(ops)@.contains_key(other))
            &&& other != id && old(ops)@.contains_key(other) ==> final(ops)@[other]
                == old(ops)@[other]
        },
        call_ensures(OpRegistry::finish, (ended, id), ()) ==> {
            &&& !final(ended)@.contains_key(id)
            &&& other != id ==> (final(ended)@.contains_key(other) == old(ended)@.contains_key(
                other,
            ))
            &&& other != id && old(ended)@.contains_key(other) ==> final(ended)@[other]
                == old(ended)@[other]
        },
{
}

/// What is asked of the registry is answered by what is in flight.
pub proof fn law_registry_answers(
    ops: &OpRegistry,
    id: u128,
    token: Option<&CancellationToken>,
    cancelled: Option<&CancellationToken>,
    there: bool,
    fresh: OpRegistry,
)
    ensures
        call_ensures(OpRegistry::token, (ops, id), token) ==> {
            &&& token is Some == ops@.contains_key(id)
            &&& token matches Some(ct) ==> *ct == ops@[id]
        },
        call_ensures(OpRegistry::cancel, (ops, id), cancelled) ==> {
            &&& cancelled is Some == ops@.contains_key(id)
            &&& cancelled matches Some(ct) ==> *ct == ops@[id] && call_ensures(
                CancellationToken::cancel,
                (&ops@[id],),
                (),
            )
        },
        call_ensures(OpRegistry::contains, (ops, id), there) ==> there == ops@.contains_key(id),
        call_ensures(OpRegistry::new, (), fresh) ==> !fresh@.contains_key(id),
        call_ensures(<OpRegistry as Default>::default, (), fresh) ==> !fresh@.contains_key(id),
{
}

/// A watch that was started is kept under an id that was free, one drawn at
/// random unless that is in use, with the others as they were; one that failed
/// leaves the sessions as they were, and its error is the result.
pub proof fn law_watch_is_kept<T>(
    sessions: &mut WatchSessions<T>,
    started: Result<WatchHandle<T>, VfsError>,
    r: Result<u128, VfsError>,
    other: u128,
)
    requires
        call_ensures(WatchSessions::<T>::watch, (sessions, started), r),
    ensures
        r is Ok == started is Ok,
        started matches Err(e) ==> r->Err_0 == e && final(sessions)@ == old(sessions)@,
        started matches Ok(handle) ==> {
            &&& !old(sessions)@.contains_key(r->Ok_0)
            &&& final(sessions)@.contains_key(r->Ok_0)
            &&& final(sessions)@[r->Ok_0] == handle
            &&& other != r->Ok_0 ==> final(sessions)@.contains_key(other)
                == old(sessions)@.contains_key(other)
            &&& other != r->Ok_0 && old(sessions)@.contains_key(other) ==> final(sessions)@[other]
                == old(sessions)@[other]
            &&& exists|drawn: u128| #[trigger]
                was_drawn(drawn) && is_random_uuid(drawn) && (!old(sessions)@.contains_key(drawn)
                    ==> r->Ok_0 == drawn)
        },
{
    if started is Ok {
        let used = old(sessions)@.dom();
        let id = r->Ok_0;
        let drawn = choose|drawn: u128|
            was_drawn(drawn) && is_random_uuid(drawn) && #[trigger] crate::watch::first_free(
                used,
                drawn,
                id,
            );
        assert(crate::watch::first_free(used, drawn, id));
        let k = choose|k: nat| crate::watch::free_after(used, drawn, k, id);
        if k > 0 {
            assert(used.contains(crate::watch::id_after(drawn, 0)));
        }
        assert(was_drawn(drawn));
    }
}

/// A watch is kept under the id it is given, or where that is in use under
/// another that is free.
pub proof fn law_watch_is_kept_under_its_id<T>(
    sessions: &mut WatchSessions<T>,
    drawn: u128,
    handle: WatchHandle<T>,
    id: u128,
    kept: &mut WatchSessions<T>,
    other: u128,
)
    ensures
        call_ensures(WatchSessions::<T>::keep_apart, (sessions, drawn, handle), id) ==> {
            &&& !old(sessions)@.contains_key(id)
            &&& !old(sessions)@.contains_key(drawn) ==> id == drawn
            &&& final(sessions)@.contains_key(id) && final(sessions)@[id] == handle
            &&& other != id ==> final(sessions)@.contains_key(other)
                == old(sessions)@.contains_key(other)
        },
        call_ensures(WatchSessions::<T>::keep, (kept, id, handle), ()) ==> {
            &&& final(kept)@.contains_key(id) && final(kept)@[id] == handle
            &&& other != id ==> final(kept)@.contains_key(other) == old(kept)@.contains_key(other)
            &&& other != id && old(kept)@.contains_key(other) ==> final(kept)@[other]
                == old(kept)@[other]
        },
{
    if call_ensures(WatchSessions::<T>::keep_apart, (sessions, drawn, handle), id) {
        let used = old(sessions)@.dom();
        let k = choose|k: nat| crate::watch::free_after(used, drawn, k, id);
        if k > 0 {
            assert(used.contains(crate::watch::id_after(drawn, 0)));
        }
    }
}

/// The end of a watch ends that one, and the end of all ends all.
pub proof fn law_watches_end<T>(
    sessions: &mut WatchSessions<T>,
    id: u128,
    other: u128,
    all: &mut WatchSessions<T>,
    s: &WatchSessions<T>,
    there: bool,
    fresh: WatchSessions<T>,
    inner: T,
    handle: WatchHandle<T>,
)
    ensures
        call_ensures(WatchSessions::<T>::unwatch, (sessions, id), ()) ==> {
            &&& !final(sessions)@.contains_key(id)
            &&& other != id ==> final(sessions)@.contains_key(other)
                == old(sessions)@.contains_key(other)
            &&& other != id && old(sessions)@.contains_key(other) ==> final(sessions)@[other]
                == old(sessions)@[other]
        },
        call_ensures(WatchSessions::<T>::unwatch_all, (all,), ()) ==> !final(all)@.contains_key(
            other,
        ),
        call_ensures(WatchSessions::<T>::contains, (s, id), there) ==> there == s@.contains_key(id),
        call_ensures(WatchSessions::<T>::new, (), fresh) ==> !fresh@.contains_key(id),
        call_ensures(WatchHandle::<T>::new, (inner,), handle) ==> handle.0 == inner,
{
}

/// A temporary file has a hidden name that is its own by the id.
pub proof fn law_temporary_names(id: u128, r: String)
    requires
        call_ensures(temp_name, (id,), r),
    ensures
        r@.len() == 47,
        r@.take(11) == ".atomo-tmp-"@,
        r@[0] == '.',
        forall|i: int|
            11 <= i < 47 ==> ('0' <= #[trigger] r@[i] <= '9' || 'a' <= r@[i] <= 'f' || r@[i] == '-'),
        r@[19] == '-' && r@[24] == '-' && r@[29] == '-' && r@[34] == '-',
{
    reveal_strlit(".atomo-tmp-");
    assert(r@.take(11) =~= ".atomo-tmp-"@);
    assert forall|i: int| 11 <= i < 47 implies ('0' <= #[trigger] r@[i] <= '9' || 'a' <= r@[i]
        <= 'f' || r@[i] == '-') by {
        assert(r@[i] == crate::ids::id_text(id)[i - 11]);
    }
    assert(r@[19] == crate::ids::id_text(id)[8]);
    assert(r@[24] == crate::ids::id_text(id)[13]);
    assert(r@[29] == crate::ids::id_text(id)[18]);
    assert(r@[34] == crate::ids::id_text(id)[23]);
}

} // verus!
