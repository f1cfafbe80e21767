//! The values that operations take and give back.
use vstd::prelude::*;
use crate::error::{ErrorView, VfsError};
use crate::uri::{UriView, VfsUri};

verus! {

#[derive(Clone, Copy, Debug, PartialEq, Eq, Structural)]
pub enum FileType {
    File,
    Directory,
    Symlink,
}

/// What is known of a file or directory.
#[derive(Debug, PartialEq, Eq)]
pub struct Stat {
    pub file_type: FileType,
    pub size: u64,
    pub modified_ms: Option<u64>,
    pub created_ms: Option<u64>,
    pub readonly: bool,
    pub symlink_target: Option<String>,
}

/// One entry of a directory listing.
#[derive(Debug, PartialEq, Eq)]
pub struct DirEntry {
    pub uri: VfsUri,
    pub name: String,
    pub file_type: FileType,
    pub size: u64,
    pub modified_ms: Option<u64>,
    pub hidden: bool,
    pub mime: Option<String>,
}

/// What a provider can do.
#[derive(Clone, Copy, Debug, PartialEq, Eq, Structural)]
pub struct ProviderCaps {
    pub read: bool,
    pub write: bool,
    pub watch: bool,
    pub trash: bool,
    pub copy_within: bool,
    pub case_sensitive: bool,
}

#[derive(Clone, Copy, Debug, PartialEq, Eq, Structural)]
pub struct WriteOpts {
    pub overwrite: bool,
    pub create_parents: bool,
}

#[derive(Clone, Copy, Debug, PartialEq, Eq, Structural)]
pub struct DeleteOpts {
    pub recursive: bool,
    pub use_trash: bool,
}

#[derive(Clone, Copy, Debug, PartialEq, Eq, Structural)]
pub struct CopyOpts {
    pub overwrite: bool,
}

#[derive(Clone, Copy, Debug, PartialEq, Eq, Structural)]
pub struct ListOpts {
    pub include_hidden: bool,
}

#[derive(Clone, Copy, Debug, PartialEq, Eq, Structural)]
pub enum FsEventKind {
    Created,
    Modified,
    Removed,
    Renamed,
    Overflow,
}

/// A change in the file system.
#[derive(Debug, PartialEq, Eq)]
pub struct FsEvent {
    pub kind: FsEventKind,
    pub uri: VfsUri,
    pub renamed_to: Option<VfsUri>,
}

/// How a bulk operation ended for one of its sources.
#[derive(Debug)]
pub struct PerSourceResult {
    pub source: VfsUri,
    pub ok: bool,
    pub error: Option<VfsError>,
}

/// How far a bulk operation has come.
#[derive(Debug, PartialEq, Eq)]
pub struct OpProgress {
    pub op_id: u128,
    pub done_bytes: u64,
    pub total_bytes: u64,
    pub done_files: u64,
    pub total_files: u64,
    pub current: Option<VfsUri>,
}

impl Default for WriteOpts {
    fn default() -> (r: WriteOpts)
        ensures
            r == (WriteOpts { overwrite: false, create_parents: false }),
    {
        WriteOpts { overwrite: false, create_parents: false }
    }
}

impl Default for DeleteOpts {
    fn default() -> (r: DeleteOpts)
        ensures
            r == (DeleteOpts { recursive: false, use_trash: false }),
    {
        DeleteOpts { recursive: false, use_trash: false }
    }
}

impl Default for CopyOpts {
    fn default() -> (r: CopyOpts)
        ensures
            r == (CopyOpts { overwrite: false }),
    {
        CopyOpts { overwrite: false }
    }
}

impl Default for ListOpts {
    fn default() -> (r: ListOpts)
        ensures
            r == (ListOpts { include_hidden: false }),
    {
        ListOpts { include_hidden: false }
    }
}

/// The characters of an optional text.
pub open spec fn opt_text(o: Option<String>) -> Option<Seq<char>> {
    match o {
        Some(s) => Some(s@),
        None => None,
    }
}

/// The view of an optional uri.
pub open spec fn opt_uri(o: Option<VfsUri>) -> Option<UriView> {
    match o {
        Some(u) => Some(u@),
        None => None,
    }
}

/// The view of an optional error.
pub open spec fn opt_error(o: Option<VfsError>) -> Option<ErrorView> {
    match o {
        Some(e) => Some(e@),
        None => None,
    }
}

pub struct StatView {
    pub file_type: FileType,
    pub size: u64,
    pub modified_ms: Option<u64>,
    pub created_ms: Option<u64>,
    pub readonly: bool,
    pub symlink_target: Option<Seq<char>>,
}

impl View for Stat {
    type V = StatView;

    open spec fn view(&self) -> StatView {
        StatView {
            file_type: self.file_type,
            size: self.size,
            modified_ms: self.modified_ms,
            created_ms: self.created_ms,
            readonly: self.readonly,
            symlink_target: opt_text(self.symlink_target),
        }
    }
}

pub struct EntryView {
    pub uri: UriView,
    pub name: Seq<char>,
    pub file_type: FileType,
    pub size: u64,
    pub modified_ms: Option<u64>,
    pub hidden: bool,
    pub mime: Option<Seq<char>>,
}

impl View for DirEntry {
    type V = EntryView;

    open spec fn view(&self) -> EntryView {
        EntryView {
            uri: self.uri@,
            name: self.name@,
            file_type: self.file_type,
            size: self.size,
            modified_ms: self.modified_ms,
            hidden: self.hidden,
            mime: opt_text(self.mime),
        }
    }
}

pub struct EventView {
    pub kind: FsEventKind,
    pub uri: UriView,
    pub renamed_to: Option<UriView>,
}

impl View for FsEvent {
    type V = EventView;

    open spec fn view(&self) -> EventView {
        EventView { kind: self.kind, uri: self.uri@, renamed_to: opt_uri(self.renamed_to) }
    }
}

pub struct OutcomeView {
    pub source: UriView,
    pub ok: bool,
    pub error: Option<ErrorView>,
}

impl View for PerSourceResult {
    type V = OutcomeView;

    open spec fn view(&self) -> OutcomeView {
        OutcomeView { source: self.source@, ok: self.ok, error: opt_error(self.error) }
    }
}

pub struct ProgressView {
    pub op_id: u128,
    pub done_bytes: u64,
    pub total_bytes: u64,
    pub done_files: u64,
    pub total_files: u64,
    pub current: Option<UriView>,
}

impl View for OpProgress {
    type V = ProgressView;

    open spec fn view(&self) -> ProgressView {
        ProgressView {
            op_id: self.op_id,
            done_bytes: self.done_bytes,
            total_bytes: self.total_bytes,
            done_files: self.done_files,
            total_files: self.total_files,
            current: opt_uri(self.current),
        }
    }
}

/// An event that names one uri.
pub open spec fn event(kind: FsEventKind, uri: UriView) -> EventView {
    EventView { kind, uri, renamed_to: None }
}

/// The event of a uri that became another.
pub open spec fn renamed(from: UriView, to: UriView) -> EventView {
    EventView { kind: FsEventKind::Renamed, uri: from, renamed_to: Some(to) }
}

/// The outcome of a source, by how its operation ended.
pub open spec fn outcome(source: UriView, result: Result<(), ErrorView>) -> OutcomeView {
    match result {
        Ok(()) => OutcomeView { source, ok: true, error: None },
        Err(e) => OutcomeView { source, ok: false, error: Some(e) },
    }
}

/// The views of a list of events.
pub open spec fn event_views(events: Seq<FsEvent>) -> Seq<EventView> {
    events.map_values(|e: FsEvent| e@)
}

/// The views of a list of outcomes.
pub open spec fn outcome_views(outcomes: Seq<PerSourceResult>) -> Seq<OutcomeView> {
    outcomes.map_values(|o: PerSourceResult| o@)
}

/// The uris of listing entries.
pub open spec fn entry_uris(entries: Seq<EntryView>) -> Seq<UriView> {
    entries.map_values(|e: EntryView| e.uri)
}

/// The views of listing entries.
pub open spec fn entry_views(entries: Seq<DirEntry>) -> Seq<EntryView> {
    entries.map_values(|e: DirEntry| e@)
}

/// The view of what a look-up gave back.
pub open spec fn stat_view(r: Result<Stat, VfsError>) -> Result<StatView, ErrorView> {
    match r {
        Ok(s) => Ok(s@),
        Err(e) => Err(e@),
    }
}

/// The name of a hidden entry starts with a dot.
pub open spec fn dot_name(name: Seq<char>) -> bool {
    name.len() > 0 && name[0] == '.'
}

/// Whether the name starts with a dot.
pub fn is_dot_name(name: &str) -> (r: bool)
    ensures
        r == dot_name(name@),
{
    !name.is_empty() && name.get_char(0) == '.'
}

impl Clone for Stat {
    fn clone(&self) -> (r: Stat)
        ensures
            r@ == self@,
    {
        Stat {
            file_type: self.file_type,
            size: self.size,
            modified_ms: self.modified_ms,
            created_ms: self.created_ms,
            readonly: self.readonly,
            symlink_target: match &self.symlink_target {
                Some(s) => Some(s.clone()),
                None => None,
            },
        }
    }
}

impl Clone for DirEntry {
    fn clone(&self) -> (r: DirEntry)
        ensures
            r@ == self@,
    {
        DirEntry {
            uri: self.uri.clone(),
            name: self.name.clone(),
            file_type: self.file_type,
            size: self.size,
            modified_ms: self.modified_ms,
            hidden: self.hidden,
            mime: match &self.mime {
                Some(s) => Some(s.clone()),
                None => None,
            },
        }
    }
}

impl Clone for FsEvent {
    fn clone(&self) -> (r: FsEvent)
        ensures
            r@ == self@,
    {
        FsEvent {
            kind: self.kind,
            uri: self.uri.clone(),
            renamed_to: match &self.renamed_to {
                Some(u) => Some(u.clone()),
                None => None,
            },
        }
    }
}

impl Clone for PerSourceResult {
    fn clone(&self) -> (r: PerSourceResult)
        ensures
            r@ == self@,
    {
        PerSourceResult {
            source: self.source.clone(),
            ok: self.ok,
            error: match &self.error {
                Some(e) => Some(e.clone()),
                None => None,
            },
        }
    }
}

impl Clone for OpProgress {
    fn clone(&self) -> (r: OpProgress)
        ensures
            r@ == self@,
    {
        OpProgress {
            op_id: self.op_id,
            done_bytes: self.done_bytes,
            total_bytes: self.total_bytes,
            done_files: self.done_files,
            total_files: self.total_files,
            current: match &self.current {
                Some(u) => Some(u.clone()),
                None => None,
            },
        }
    }
}

impl FsEvent {
    /// An event that names one uri.
    pub fn of(kind: FsEventKind, uri: &VfsUri) -> (r: FsEvent)
        ensures
            r@ == event(kind, uri@),
    {
        FsEvent { kind, uri: uri.clone(), renamed_to: None }
    }

    /// The event of a uri that became another.
    pub fn renamed(from: &VfsUri, to: &VfsUri) -> (r: FsEvent)
        ensures
            r@ == renamed(from@, to@),
    {
        FsEvent { kind: FsEventKind::Renamed, uri: from.clone(), renamed_to: Some(to.clone()) }
    }

    /// Whether two events are equal.
    pub fn same(&self, other: &FsEvent) -> (r: bool)
        ensures
            r == (self@ == other@),
    {
        let targets = match (&self.renamed_to, &other.renamed_to) {
            (Some(a), Some(b)) => a.same(b),
            (None, None) => true,
            _ => false,
        };
        self.kind == other.kind && self.uri.same(&other.uri) && targets
    }
}

impl PerSourceResult {
    /// The outcome of a source, by how its operation ended.
    pub fn of(source: VfsUri, result: Result<(), VfsError>) -> (r: PerSourceResult)
        ensures
            r@ == outcome(source@, crate::error::unit_view(result)),
    {
        match result {
            Ok(()) => PerSourceResult { source, ok: true, error: None },
            Err(e) => PerSourceResult { source, ok: false, error: Some(e) },
        }
    }
}

} // verus!
