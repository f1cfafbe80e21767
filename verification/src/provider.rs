//! What is asked of a provider, and what it answers.
use vstd::prelude::*;
use crate::error::{unit_view, ErrorView, VfsError};
use crate::ops::Tally;
use crate::types::{
    entry_views, stat_view, CopyOpts, DeleteOpts, DirEntry, EntryView, EventView, FsEvent, ListOpts,
    ProviderCaps, Stat, StatView, WriteOpts,
};
use crate::uri::{UriView, VfsUri};

verus! {

/// A request to a provider.
#[derive(Debug)]
pub enum Request {
    Caps,
    Stat(VfsUri),
    List(VfsUri, ListOpts),
    Mkdir(VfsUri),
    Delete(VfsUri, DeleteOpts),
    Rename { from: VfsUri, to: VfsUri, overwrite: bool },
    CopyWithin { from: VfsUri, to: VfsUri, opts: CopyOpts },
    /// Open a stream on the whole file and hold it.
    Read(VfsUri),
    /// Write the stream that is held.
    Write(VfsUri, WriteOpts),
}

pub enum RequestView {
    Caps,
    Stat(UriView),
    List(UriView, ListOpts),
    Mkdir(UriView),
    Delete(UriView, DeleteOpts),
    Rename { from: UriView, to: UriView, overwrite: bool },
    CopyWithin { from: UriView, to: UriView, opts: CopyOpts },
    Read(UriView),
    Write(UriView, WriteOpts),
}

impl View for Request {
    type V = RequestView;

    open spec fn view(&self) -> RequestView {
        match self {
            Request::Caps => RequestView::Caps,
            Request::Stat(u) => RequestView::Stat(u@),
            Request::List(u, opts) => RequestView::List(u@, *opts),
            Request::Mkdir(u) => RequestView::Mkdir(u@),
            Request::Delete(u, opts) => RequestView::Delete(u@, *opts),
            Request::Rename { from, to, overwrite } => RequestView::Rename {
                from: from@,
                to: to@,
                overwrite: *overwrite,
            },
            Request::CopyWithin { from, to, opts } => RequestView::CopyWithin {
                from: from@,
                to: to@,
                opts: *opts,
            },
            Request::Read(u) => RequestView::Read(u@),
            Request::Write(u, opts) => RequestView::Write(u@, *opts),
        }
    }
}

/// A request and the provider that it goes to, by its place among the
/// registered ones.
#[derive(Debug)]
pub struct ProviderCall {
    pub provider: usize,
    pub request: Request,
}

pub struct CallView {
    pub provider: usize,
    pub request: RequestView,
}

impl View for ProviderCall {
    type V = CallView;

    open spec fn view(&self) -> CallView {
        CallView { provider: self.provider, request: self.request@ }
    }
}

/// The answer of a provider.
#[derive(Debug)]
pub enum Reply {
    Caps(ProviderCaps),
    Stat(Result<Stat, VfsError>),
    List(Result<Vec<DirEntry>, VfsError>),
    Unit(Result<(), VfsError>),
}

pub enum ReplyView {
    Caps(ProviderCaps),
    Stat(Result<StatView, ErrorView>),
    List(Result<Seq<EntryView>, ErrorView>),
    Unit(Result<(), ErrorView>),
}

/// The view of a listing or the error that came in its place.
pub open spec fn listing_view(r: Result<Vec<DirEntry>, VfsError>) -> Result<
    Seq<EntryView>,
    ErrorView,
> {
    match r {
        Ok(entries) => Ok(entry_views(entries@)),
        Err(e) => Err(e@),
    }
}

impl View for Reply {
    type V = ReplyView;

    open spec fn view(&self) -> ReplyView {
        match self {
            Reply::Caps(c) => ReplyView::Caps(*c),
            Reply::Stat(r) => ReplyView::Stat(stat_view(*r)),
            Reply::List(r) => ReplyView::List(listing_view(*r)),
            Reply::Unit(r) => ReplyView::Unit(unit_view(*r)),
        }
    }
}

/// The answer is one to the request.
pub open spec fn answers(reply: ReplyView, request: RequestView) -> bool {
    match request {
        RequestView::Caps => reply is Caps,
        RequestView::Stat(_) => reply is Stat,
        RequestView::List(_, _) => reply is List,
        _ => reply is Unit,
    }
}

/// What a bulk operation tells on its way.
#[derive(Debug)]
pub enum Effect {
    Event(FsEvent),
    Progress(Tally, VfsUri),
}

pub enum EffectView {
    Event(EventView),
    Progress(Tally, UriView),
}

impl View for Effect {
    type V = EffectView;

    open spec fn view(&self) -> EffectView {
        match self {
            Effect::Event(e) => EffectView::Event(e@),
            Effect::Progress(t, u) => EffectView::Progress(*t, u@),
        }
    }
}

/// The views of a list of effects.
pub open spec fn effect_views(effects: Seq<Effect>) -> Seq<EffectView> {
    effects.map_values(|e: Effect| e@)
}

/// What a bulk operation wants next.
#[derive(Debug)]
pub enum Action {
    /// Make the call and hand in the answer.
    Call(ProviderCall),
    /// Ask again.
    Again,
    /// All is done.
    Done,
}

pub enum ActionView {
    Call(CallView),
    Again,
    Done,
}

impl View for Action {
    type V = ActionView;

    open spec fn view(&self) -> ActionView {
        match self {
            Action::Call(c) => ActionView::Call(c@),
            Action::Again => ActionView::Again,
            Action::Done => ActionView::Done,
        }
    }
}

/// The error of a provider that cannot copy by itself; a copy is then made by
/// reading and writing.
pub open spec fn no_copy_within() -> ErrorView {
    ErrorView::NotSupported { capability: "copyWithin"@ }
}

/// The error of a provider that cannot watch.
pub open spec fn no_watch() -> ErrorView {
    ErrorView::NotSupported { capability: "watch"@ }
}

/// What `copy_within` gives where a provider has no such thing.
pub fn default_copy_within() -> (r: Result<(), VfsError>)
    ensures
        unit_view(r) == Err::<(), ErrorView>(no_copy_within()),
{
    Err(VfsError::NotSupported { capability: "copyWithin".to_owned() })
}

/// What `watch` gives where a provider has no such thing.
pub fn default_watch() -> (r: Result<(), VfsError>)
    ensures
        unit_view(r) == Err::<(), ErrorView>(no_watch()),
{
    Err(VfsError::NotSupported { capability: "watch".to_owned() })
}

} // verus!
