//! The rules of the provider of local files: what is made of the metadata,
//! directory entries and change notices of the operating system.
use std::path::{Path, PathBuf};
use vstd::prelude::*;
use crate::error::{io_error, unit_view, ErrorView, IoFailure, VfsError};
use crate::paths::{components_of, path_of};
use crate::types::{
    dot_name, event, event_views, is_dot_name, opt_uri, stat_view, EntryView, EventView, FileType,
    FsEvent, FsEventKind, ProviderCaps, Stat, StatView,
};
use crate::uri::{local_uri, UriView, VfsUri};

verus! {

/// The provider of local files.
#[derive(Debug)]
pub struct LocalProvider;

impl Default for LocalProvider {
    fn default() -> (r: LocalProvider)
        ensures
            r == LocalProvider,
    {
        LocalProvider::new()
    }
}

/// What the operating system knows of a file or directory.  Times are seconds
/// and nanoseconds since the epoch, where they are known and not before it.
#[derive(Clone, Copy, Debug, PartialEq, Eq)]
pub struct FileMeta {
    pub is_dir: bool,
    pub is_symlink: bool,
    pub len: u64,
    pub modified: Option<(u64, u32)>,
    pub created: Option<(u64, u32)>,
    pub readonly: bool,
    /// The platform marks the file as hidden.
    pub hidden: bool,
}

/// The milliseconds of a time, as far as they fit.
pub open spec fn millis(time: (u64, u32)) -> u64 {
    ((time.0 * 1000 + time.1 / 1_000_000) % 0x1_0000_0000_0000_0000) as u64
}

/// The milliseconds of a time that may not be known.
pub open spec fn opt_millis(time: Option<(u64, u32)>) -> Option<u64> {
    match time {
        Some(t) => Some(millis(t)),
        None => None,
    }
}

/// The type of a file whose links are not followed.
pub open spec fn type_of(meta: FileMeta) -> FileType {
    if meta.is_symlink {
        FileType::Symlink
    } else if meta.is_dir {
        FileType::Directory
    } else {
        FileType::File
    }
}

/// The size that is shown: directories have none.
pub open spec fn size_of(meta: FileMeta) -> u64 {
    if meta.is_dir {
        0
    } else {
        meta.len
    }
}

/// What is known of a file or directory, its links followed.
pub open spec fn meta_stat(meta: FileMeta) -> StatView {
    StatView {
        file_type: if meta.is_dir {
            FileType::Directory
        } else {
            FileType::File
        },
        size: size_of(meta),
        modified_ms: opt_millis(meta.modified),
        created_ms: opt_millis(meta.created),
        readonly: meta.readonly,
        symlink_target: None,
    }
}

/// An entry is hidden by its name, or where the platform says so.
pub open spec fn hidden_entry(name: Seq<char>, meta: Option<FileMeta>) -> bool {
    dot_name(name) || (meta is Some && meta->0.hidden)
}

/// The type of an entry; one of which nothing is known counts as a file.
pub open spec fn entry_type(meta: Option<FileMeta>) -> FileType {
    match meta {
        Some(m) => type_of(m),
        None => FileType::File,
    }
}

/// The listing entry of a name in a directory, with a guessed media type,
/// which only files have.
pub open spec fn found_entry(
    uri: UriView,
    name: Seq<char>,
    meta: Option<FileMeta>,
    mime: Option<Seq<char>>,
) -> EntryView {
    EntryView {
        uri,
        name,
        file_type: entry_type(meta),
        size: match meta {
            Some(m) => size_of(m),
            None => 0,
        },
        modified_ms: match meta {
            Some(m) => opt_millis(m.modified),
            None => None,
        },
        hidden: hidden_entry(name, meta),
        mime: if entry_type(meta) == FileType::File {
            mime
        } else {
            None
        },
    }
}

proof fn lemma_millis_cast(ms: u128)
    ensures
        ms as u64 == ms % 0x1_0000_0000_0000_0000,
{
    assert(ms as u64 == ms % 0x1_0000_0000_0000_0000) by (bit_vector);
}

/// The milliseconds of a time that may not be known.
pub fn ms_from(time: Option<(u64, u32)>) -> (r: Option<u64>)
    ensures
        r == opt_millis(time),
{
    match time {
        Some((secs, nanos)) => {
            let ms: u128 = secs as u128 * 1000 + (nanos / 1_000_000) as u128;
            proof {
                lemma_millis_cast(ms);
            }
            Some(ms as u64)
        },
        None => None,
    }
}

/// The milliseconds of the present time; none where the clock stands before
/// the epoch.
pub fn now_ms(time: Option<(u64, u32)>) -> (r: u64)
    ensures
        r == match opt_millis(time) {
            Some(ms) => ms,
            None => 0,
        },
{
    match ms_from(time) {
        Some(ms) => ms,
        None => 0,
    }
}

/// The type of a file whose links are not followed.
pub fn file_type_from(meta: &FileMeta) -> (r: FileType)
    ensures
        r == type_of(*meta),
{
    if meta.is_symlink {
        FileType::Symlink
    } else if meta.is_dir {
        FileType::Directory
    } else {
        FileType::File
    }
}

/// Whether an entry is hidden.
pub fn is_hidden(name: &str, meta: Option<&FileMeta>) -> (r: bool)
    ensures
        r == hidden_entry(
            name@,
            match meta {
                Some(m) => Some(*m),
                None => None,
            },
        ),
{
    let marked = match meta {
        Some(m) => m.hidden,
        None => false,
    };
    marked || is_dot_name(name)
}

/// The size that is shown.
pub fn shown_size(meta: &FileMeta) -> (r: u64)
    ensures
        r == size_of(*meta),
{
    if meta.is_dir {
        0
    } else {
        meta.len
    }
}

/// The error of an i/o failure, where there was one.
pub open spec fn io_view<T>(r: Result<T, IoFailure>, uri: UriView) -> Result<T, ErrorView> {
    match r {
        Ok(x) => Ok(x),
        Err(e) => Err(io_error(e, uri)),
    }
}

/// How an operation of the operating system on `uri` ended.
pub fn io_result(r: Result<(), IoFailure>, uri: &VfsUri) -> (result: Result<(), VfsError>)
    ensures
        unit_view(result) == io_view(r, uri@),
{
    match r {
        Ok(()) => Ok(()),
        Err(e) => Err(VfsError::from_io(e, uri)),
    }
}

/// One call of the operating system on the file of a uri.
#[derive(Debug)]
pub struct LocalCall {
    uri: VfsUri,
}

impl View for LocalCall {
    type V = UriView;

    closed spec fn view(&self) -> UriView {
        self.uri@
    }
}

impl LocalCall {
    /// The call and the path of the file.
    pub fn begin(uri: &VfsUri) -> (r: Result<(LocalCall, PathBuf), VfsError>)
        ensures
            match r {
                Ok((call, path)) => {
                    &&& uri@.local_pieces() is Ok
                    &&& path == path_of(uri@.local_pieces()->Ok_0)
                    &&& call@ == uri@
                },
                Err(e) => uri@.local_pieces() == Err::<Seq<Seq<char>>, ErrorView>(e@),
            },
    {
        match uri.to_local_path() {
            Err(e) => Err(e),
            Ok(path) => Ok((LocalCall { uri: uri.clone() }, path)),
        }
    }

    /// What is known of the uri, where the call looked up the metadata.
    pub fn stat(self, meta: Result<FileMeta, IoFailure>) -> (r: Result<Stat, VfsError>)
        ensures
            stat_view(r) == match io_view(meta, self@) {
                Ok(m) => Ok::<StatView, ErrorView>(meta_stat(m)),
                Err(e) => Err::<StatView, ErrorView>(e),
            },
    {
        LocalProvider.stat(&self.uri, meta)
    }

    /// How the operation ended, where the call was all of it.
    pub fn done(self, r: Result<(), IoFailure>) -> (result: Result<(), VfsError>)
        ensures
            unit_view(result) == io_view(r, self@),
    {
        io_result(r, &self.uri)
    }
}

impl LocalProvider {
    pub fn new() -> (r: LocalProvider)
        ensures
            r == LocalProvider,
    {
        LocalProvider
    }

    pub fn scheme(&self) -> (r: &str)
        ensures
            r@ == "file"@,
    {
        "file"
    }

    /// What the provider can do; names differ by case but on the platforms
    /// that take them for the same.
    pub fn caps(&self, windows: bool, macos: bool) -> (r: ProviderCaps)
        ensures
            r == (ProviderCaps {
                read: true,
                write: true,
                watch: true,
                trash: true,
                copy_within: true,
                case_sensitive: !windows && !macos,
            }),
    {
        ProviderCaps {
            read: true,
            write: true,
            watch: true,
            trash: true,
            copy_within: true,
            case_sensitive: !(windows || macos),
        }
    }

    /// What is known of a uri by the metadata of its file.
    pub fn stat(&self, uri: &VfsUri, meta: Result<FileMeta, IoFailure>) -> (r: Result<
        Stat,
        VfsError,
    >)
        ensures
            stat_view(r) == match io_view(meta, uri@) {
                Ok(m) => Ok::<StatView, ErrorView>(meta_stat(m)),
                Err(e) => Err::<StatView, ErrorView>(e),
            },
    {
        match meta {
            Err(e) => Err(VfsError::from_io(e, uri)),
            Ok(m) => Ok(
                Stat {
                    file_type: if m.is_dir {
                        FileType::Directory
                    } else {
                        FileType::File
                    },
                    size: shown_size(&m),
                    modified_ms: ms_from(m.modified),
                    created_ms: ms_from(m.created),
                    readonly: m.readonly,
                    symlink_target: None,
                },
            ),
        }
    }
}

/// The kinds of change of which the operating system gives notice.
#[derive(Clone, Copy, Debug, PartialEq, Eq, Structural)]
pub enum ChangeKind {
    Create,
    /// A name changed: of a pair the first is the old one.
    Rename,
    Modify,
    Remove,
    Other,
}

/// An event for each uri that there is.
pub open spec fn events_at(kind: FsEventKind, uris: Seq<Option<UriView>>) -> Seq<EventView>
    decreases uris.len(),
{
    if uris.len() == 0 {
        Seq::empty()
    } else {
        let before = events_at(kind, uris.drop_last());
        match uris.last() {
            Some(u) => before.push(event(kind, u)),
            None => before,
        }
    }
}

/// A removal and a creation for each uri that there is.
pub open spec fn replaced_at(uris: Seq<Option<UriView>>) -> Seq<EventView>
    decreases uris.len(),
{
    if uris.len() == 0 {
        Seq::empty()
    } else {
        let before = replaced_at(uris.drop_last());
        match uris.last() {
            Some(u) => before.push(event(FsEventKind::Removed, u)).push(
                event(FsEventKind::Created, u),
            ),
            None => before,
        }
    }
}

/// The events of a notice, by the uris of its paths.  Which of the paths of a
/// rename is the old one is known of a pair only: of others each is told as
/// removed and created.
pub open spec fn change_events(kind: ChangeKind, uris: Seq<Option<UriView>>) -> Seq<EventView> {
    match kind {
        ChangeKind::Create => events_at(FsEventKind::Created, uris),
        ChangeKind::Rename => if uris.len() == 2 {
            events_at(FsEventKind::Removed, uris.take(1)) + events_at(
                FsEventKind::Created,
                uris.skip(1),
            )
        } else {
            replaced_at(uris)
        },
        ChangeKind::Modify => events_at(FsEventKind::Modified, uris),
        ChangeKind::Remove => events_at(FsEventKind::Removed, uris),
        ChangeKind::Other => Seq::empty(),
    }
}

/// The views of uris that may be missing.
pub open spec fn opt_uris(uris: Seq<Option<VfsUri>>) -> Seq<Option<UriView>> {
    uris.map_values(|u: Option<VfsUri>| opt_uri(u))
}

fn push_events(
    out: &mut Vec<FsEvent>,
    kind: FsEventKind,
    uris: &Vec<Option<VfsUri>>,
    from: usize,
    to: usize,
)
    requires
        from <= to <= uris@.len(),
    ensures
        event_views(final(out)@) == event_views(old(out)@) + events_at(
            kind,
            opt_uris(uris@).subrange(from as int, to as int),
        ),
{
    let ghost start = event_views(out@);
    let ghost all = opt_uris(uris@);
    let mut i: usize = from;
    assert(all.subrange(from as int, from as int) =~= Seq::<Option<UriView>>::empty());
    assert(start + Seq::<EventView>::empty() =~= start);
    while i < to
        invariant
            from <= i <= to <= uris@.len(),
            all == opt_uris(uris@),
            event_views(out@) == start + events_at(kind, all.subrange(from as int, i as int)),
        decreases to - i,
    {
        let ghost so_far = event_views(out@);
        proof {
            let more = all.subrange(from as int, i + 1);
            assert(more.drop_last() =~= all.subrange(from as int, i as int));
            assert(more.last() == opt_uri(uris@[i as int]));
        }
        if let Some(uri) = &uris[i] {
            out.push(FsEvent::of(kind, uri));
            proof {
                let before = events_at(kind, all.subrange(from as int, i as int));
                assert(event_views(out@) =~= so_far.push(event(kind, uri@)));
                assert(so_far.push(event(kind, uri@)) =~= start + before.push(event(kind, uri@)));
            }
        }
        i += 1;
    }
}

/// The events of a notice, by the uris of its paths; paths without a uri are
/// left out.
pub fn translate_change(kind: ChangeKind, uris: &Vec<Option<VfsUri>>) -> (r: Vec<FsEvent>)
    ensures
        event_views(r@) == change_events(kind, opt_uris(uris@)),
{
    let mut out: Vec<FsEvent> = Vec::new();
    let n: usize = uris.len();
    let ghost all = opt_uris(uris@);
    proof {
        assert(event_views(out@) =~= Seq::<EventView>::empty());
        assert(all.subrange(0, n as int) =~= all);
        assert forall|s: Seq<EventView>| Seq::<EventView>::empty() + s == s by {
            assert(Seq::<EventView>::empty() + s =~= s);
        }
    }
    match kind {
        ChangeKind::Create => {
            push_events(&mut out, FsEventKind::Created, uris, 0, n);
        },
        ChangeKind::Rename => {
            if n == 2 {
                proof {
                    assert(all.subrange(0, 1) =~= all.take(1));
                    assert(all.subrange(1, 2) =~= all.skip(1));
                }
                push_events(&mut out, FsEventKind::Removed, uris, 0, 1);
                push_events(&mut out, FsEventKind::Created, uris, 1, 2);
            } else {
                let mut i: usize = 0;
                assert(all.take(0) =~= Seq::<Option<UriView>>::empty());
                while i < n
                    invariant
                        n == uris@.len(),
                        i <= n,
                        all == opt_uris(uris@),
                        event_views(out@) == replaced_at(all.take(i as int)),
                    decreases n - i,
                {
                    let ghost so_far = event_views(out@);
                    proof {
                        assert(all.take(i + 1).drop_last() =~= all.take(i as int));
                        assert(all.take(i + 1).last() == opt_uri(uris@[i as int]));
                    }
                    if let Some(uri) = &uris[i] {
                        out.push(FsEvent::of(FsEventKind::Removed, uri));
                        out.push(FsEvent::of(FsEventKind::Created, uri));
                        assert(event_views(out@) =~= so_far.push(
                            event(FsEventKind::Removed, uri@),
                        ).push(event(FsEventKind::Created, uri@)));
                    }
                    i += 1;
                }
                assert(all.take(n as int) =~= all);
            }
        },
        ChangeKind::Modify => {
            push_events(&mut out, FsEventKind::Modified, uris, 0, n);
        },
        ChangeKind::Remove => {
            push_events(&mut out, FsEventKind::Removed, uris, 0, n);
        },
        ChangeKind::Other => {},
    }
    out
}

/// The uri of a local path, where it has one.
pub open spec fn path_uri(p: &Path) -> Option<UriView> {
    match local_uri(components_of(p)) {
        Ok(u) => Some(u),
        Err(_) => None,
    }
}

/// The events of a notice of the operating system.
pub fn translate_notify_event(kind: ChangeKind, paths: &Vec<&Path>) -> (r: Vec<FsEvent>)
    ensures
        event_views(r@) == change_events(kind, paths@.map_values(|p: &Path| path_uri(p))),
{
    let mut uris: Vec<Option<VfsUri>> = Vec::new();
    let mut i: usize = 0;
    while i < paths.len()
        invariant
            i <= paths@.len(),
            uris@.len() == i,
            forall|j: int| 0 <= j < i ==> opt_uri(#[trigger] uris@[j]) == path_uri(paths@[j]),
        decreases paths.len() - i,
    {
        let uri = match VfsUri::from_local_path(paths[i]) {
            Ok(u) => Some(u),
            Err(_) => None,
        };
        uris.push(uri);
        i += 1;
    }
    assert(opt_uris(uris@) =~= paths@.map_values(|p: &Path| path_uri(p)));
    translate_change(kind, &uris)
}

} // verus!
