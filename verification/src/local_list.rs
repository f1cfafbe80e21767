//! The listing of a local directory.
use std::path::PathBuf;
use vstd::prelude::*;
use crate::error::{io_error, ErrorView, IoFailure, VfsError};
use crate::local::{
    file_type_from, found_entry, hidden_entry, is_hidden, ms_from, shown_size, FileMeta,
};
use crate::mime::{guess_mime, is_guess};
use crate::paths::path_of;
use crate::types::{entry_views, opt_text, DirEntry, EntryView, FileType, ListOpts};
use crate::uri::{UriView, VfsUri};

verus! {

/// What a listing asks for next.
#[derive(Clone, Copy, Debug, PartialEq, Eq, Structural)]
pub enum ListAction {
    /// Look up the metadata of the directory, its links followed.
    Examine,
    /// Open the directory.
    Open,
    /// Take the next entry of the directory.
    NextEntry,
    /// Look up the metadata of the entry that was taken, its links not
    /// followed.
    Describe,
    /// The listing is over.
    Finish,
}

/// What came of an action.
#[derive(Debug)]
pub enum ListReply {
    /// The metadata of the directory.
    Meta(Result<FileMeta, IoFailure>),
    /// The directory was opened.
    Opened(Result<(), IoFailure>),
    /// The name of an entry, or none where there is no further one.
    Entry(Result<Option<String>, IoFailure>),
    /// The metadata of the entry that was taken, where it is to be had.
    Described(Option<FileMeta>),
}

pub enum ListReplyView {
    Meta(Result<FileMeta, IoFailure>),
    Opened(Result<(), IoFailure>),
    Entry(Result<Option<Seq<char>>, IoFailure>),
    Described(Option<FileMeta>),
}

impl View for ListReply {
    type V = ListReplyView;

    open spec fn view(&self) -> ListReplyView {
        match self {
            ListReply::Meta(r) => ListReplyView::Meta(*r),
            ListReply::Opened(r) => ListReplyView::Opened(*r),
            ListReply::Entry(r) => ListReplyView::Entry(
                match r {
                    Ok(name) => Ok(opt_text(*name)),
                    Err(e) => Err(*e),
                },
            ),
            ListReply::Described(m) => ListReplyView::Described(*m),
        }
    }
}

/// Where a listing stands: what it waits for.
#[derive(Debug)]
pub enum ListPhase {
    Examining,
    Opening,
    Reading,
    /// The metadata of the entry with this uri and name.
    Describing(VfsUri, String),
    Listed,
    Failed(VfsError),
}

pub enum ListPhaseView {
    Examining,
    Opening,
    Reading,
    Describing(UriView, Seq<char>),
    Listed,
    Failed(ErrorView),
}

impl View for ListPhase {
    type V = ListPhaseView;

    open spec fn view(&self) -> ListPhaseView {
        match self {
            ListPhase::Examining => ListPhaseView::Examining,
            ListPhase::Opening => ListPhaseView::Opening,
            ListPhase::Reading => ListPhaseView::Reading,
            ListPhase::Describing(u, name) => ListPhaseView::Describing(u@, name@),
            ListPhase::Listed => ListPhaseView::Listed,
            ListPhase::Failed(e) => ListPhaseView::Failed(e@),
        }
    }
}

/// The listing of a local directory.
#[derive(Debug)]
pub struct LocalListing {
    uri: VfsUri,
    opts: ListOpts,
    phase: ListPhase,
    out: Vec<DirEntry>,
}

#[verifier::ext_equal]
pub struct LocalListingView {
    pub uri: UriView,
    pub opts: ListOpts,
    pub phase: ListPhaseView,
    pub out: Seq<EntryView>,
}

impl View for LocalListing {
    type V = LocalListingView;

    closed spec fn view(&self) -> LocalListingView {
        LocalListingView {
            uri: self.uri@,
            opts: self.opts,
            phase: self.phase@,
            out: entry_views(self.out@),
        }
    }
}

impl LocalListingView {
    /// A listing that is about to begin.
    pub open spec fn start(uri: UriView, opts: ListOpts) -> LocalListingView {
        LocalListingView { uri, opts, phase: ListPhaseView::Examining, out: Seq::empty() }
    }

    pub open spec fn at(self, phase: ListPhaseView, action: ListAction) -> (
        LocalListingView,
        ListAction,
    ) {
        (LocalListingView { phase, ..self }, action)
    }

    pub open spec fn fails(self, e: ErrorView) -> (LocalListingView, ListAction) {
        self.at(ListPhaseView::Failed(e), ListAction::Finish)
    }

    /// Goes on with the next entry, unless the listing was cancelled.
    pub open spec fn reads_on(self, cancelled: bool) -> (LocalListingView, ListAction) {
        if cancelled {
            self.fails(ErrorView::Cancelled)
        } else {
            self.at(ListPhaseView::Reading, ListAction::NextEntry)
        }
    }

    /// The name of the entry that is described.
    pub open spec fn name_in_hand(self) -> Seq<char> {
        match self.phase {
            ListPhaseView::Describing(_, name) => name,
            _ => Seq::empty(),
        }
    }

    /// The listing with the entry that is described: a hidden one is left out
    /// unless asked for.
    pub open spec fn with_entry(
        self,
        uri: UriView,
        name: Seq<char>,
        meta: Option<FileMeta>,
        mime: Option<Seq<char>>,
    ) -> LocalListingView {
        if hidden_entry(name, meta) && !self.opts.include_hidden {
            self
        } else {
            LocalListingView { out: self.out.push(found_entry(uri, name, meta, mime)), ..self }
        }
    }

    /// The reply is one to what the listing waits for.
    pub open spec fn awaits(self, reply: ListReplyView) -> bool {
        match self.phase {
            ListPhaseView::Examining => reply is Meta,
            ListPhaseView::Opening => reply is Opened,
            ListPhaseView::Reading => reply is Entry,
            ListPhaseView::Describing(_, _) => reply is Described,
            _ => false,
        }
    }

    /// What follows from a reply: only a directory is listed, and an entry
    /// whose name has no place in a uri is left out.  `mime` is the media type
    /// guessed for the entry that is described.
    pub open spec fn stepped(
        self,
        reply: ListReplyView,
        cancelled: bool,
        mime: Option<Seq<char>>,
    ) -> (LocalListingView, ListAction) {
        match (self.phase, reply) {
            (_, ListReplyView::Meta(Err(e))) => self.fails(io_error(e, self.uri)),
            (_, ListReplyView::Meta(Ok(m))) => if m.is_dir {
                self.at(ListPhaseView::Opening, ListAction::Open)
            } else {
                self.fails(ErrorView::NotADirectory(self.uri))
            },
            (_, ListReplyView::Opened(Err(e))) => self.fails(io_error(e, self.uri)),
            (_, ListReplyView::Opened(Ok(()))) => self.reads_on(cancelled),
            (_, ListReplyView::Entry(Err(e))) => self.fails(io_error(e, self.uri)),
            (_, ListReplyView::Entry(Ok(None))) => self.at(
                ListPhaseView::Listed,
                ListAction::Finish,
            ),
            (_, ListReplyView::Entry(Ok(Some(name)))) => match self.uri.join(name) {
                Err(_) => self.reads_on(cancelled),
                Ok(u) => self.at(ListPhaseView::Describing(u, name), ListAction::Describe),
            },
            (ListPhaseView::Describing(u, name), ListReplyView::Described(meta)) => self.with_entry(
                u,
                name,
                meta,
                mime,
            ).reads_on(cancelled),
            _ => self.reads_on(cancelled),
        }
    }
}

impl LocalListing {
    /// The listing of the directory of a uri, the path of the directory, and
    /// the first action.
    pub fn begin(uri: &VfsUri, opts: ListOpts) -> (r: Result<
        (LocalListing, PathBuf, ListAction),
        VfsError,
    >)
        ensures
            match r {
                Ok((l, path, action)) => {
                    &&& uri@.local_pieces() is Ok
                    &&& path == path_of(uri@.local_pieces()->Ok_0)
                    &&& l@ == LocalListingView::start(uri@, opts)
                    &&& action == ListAction::Examine
                },
                Err(e) => uri@.local_pieces() == Err::<Seq<Seq<char>>, ErrorView>(e@),
            },
    {
        match uri.to_local_path() {
            Err(e) => Err(e),
            Ok(path) => {
                let l = LocalListing {
                    uri: uri.clone(),
                    opts,
                    phase: ListPhase::Examining,
                    out: Vec::new(),
                };
                assert(l@ =~= LocalListingView::start(uri@, opts));
                Ok((l, path, ListAction::Examine))
            },
        }
    }

    fn fail(&mut self, e: VfsError) -> (r: ListAction)
        ensures
            (final(self)@, r) == old(self)@.fails(e@),
    {
        self.phase = ListPhase::Failed(e);
        ListAction::Finish
    }

    fn fail_io(&mut self, e: IoFailure) -> (r: ListAction)
        ensures
            (final(self)@, r) == old(self)@.fails(io_error(e, old(self)@.uri)),
    {
        let error = VfsError::from_io(e, &self.uri);
        self.fail(error)
    }

    fn read_on(&mut self, cancelled: bool) -> (r: ListAction)
        ensures
            (final(self)@, r) == old(self)@.reads_on(cancelled),
    {
        if cancelled {
            return self.fail(VfsError::Cancelled);
        }
        self.phase = ListPhase::Reading;
        ListAction::NextEntry
    }

    fn add_entry(
        &mut self,
        uri: VfsUri,
        name: String,
        meta: Option<FileMeta>,
        mime: Option<String>,
    )
        ensures
            final(self)@ == old(self)@.with_entry(uri@, name@, meta, opt_text(mime)),
    {
        let hidden = is_hidden(name.as_str(), meta.as_ref());
        if hidden && !self.opts.include_hidden {
            return;
        }
        let (file_type, size, modified_ms) = match &meta {
            Some(m) => (file_type_from(m), shown_size(m), ms_from(m.modified)),
            None => (FileType::File, 0, None),
        };
        let mime = if file_type == FileType::File {
            mime
        } else {
            None
        };
        let ghost so_far = entry_views(self.out@);
        let entry = DirEntry { uri, name, file_type, size, modified_ms, hidden, mime };
        let ghost added = entry@;
        self.out.push(entry);
        assert(entry_views(self.out@) =~= so_far.push(added));
    }

    /// Takes in what came of the last action, with the media type guessed for
    /// the entry that is described, and gives the next action.
    pub fn step_as(&mut self, reply: ListReply, cancelled: bool, mime: Option<String>) -> (r:
        ListAction)
        requires
            old(self)@.awaits(reply@),
        ensures
            (final(self)@, r) == old(self)@.stepped(reply@, cancelled, opt_text(mime)),
    {
        match reply {
            ListReply::Meta(Err(e)) => self.fail_io(e),
            ListReply::Meta(Ok(m)) => {
                if m.is_dir {
                    self.phase = ListPhase::Opening;
                    ListAction::Open
                } else {
                    let uri = self.uri.clone();
                    self.fail(VfsError::NotADirectory(uri))
                }
            },
            ListReply::Opened(Err(e)) => self.fail_io(e),
            ListReply::Opened(Ok(())) => self.read_on(cancelled),
            ListReply::Entry(Err(e)) => self.fail_io(e),
            ListReply::Entry(Ok(None)) => {
                self.phase = ListPhase::Listed;
                ListAction::Finish
            },
            ListReply::Entry(Ok(Some(name))) => match self.uri.join(name.as_str()) {
                Err(_) => self.read_on(cancelled),
                Ok(child) => {
                    self.phase = ListPhase::Describing(child, name);
                    ListAction::Describe
                },
            },
            ListReply::Described(meta) => {
                let mut phase = ListPhase::Reading;
                std::mem::swap(&mut phase, &mut self.phase);
                if let ListPhase::Describing(uri, name) = phase {
                    self.add_entry(uri, name, meta, mime);
                }
                self.read_on(cancelled)
            },
        }
    }

    /// Takes in what came of the last action and gives the next.  The media
    /// type of an entry is guessed from its name.
    pub fn step(&mut self, reply: ListReply, cancelled: bool) -> (r: ListAction)
        requires
            old(self)@.awaits(reply@),
        ensures
            exists|mime: Option<Seq<char>>|
                {
                    &&& old(self)@.phase is Describing ==> is_guess(
                        old(self)@.name_in_hand(),
                        mime,
                    )
                    &&& (final(self)@, r) == #[trigger] old(self)@.stepped(reply@, cancelled, mime)
                },
    {
        let mime = match &self.phase {
            ListPhase::Describing(_, name) => guess_mime(name.as_str()),
            _ => None,
        };
        let ghost guessed = opt_text(mime);
        let ghost answer = reply@;
        let action = self.step_as(reply, cancelled, mime);
        assert((self@, action) == old(self)@.stepped(answer, cancelled, guessed));
        action
    }

    /// The entries of the directory, or why it could not be listed.
    pub fn finish(self) -> (r: Result<Vec<DirEntry>, VfsError>)
        requires
            self@.phase is Listed || self@.phase is Failed,
        ensures
            match r {
                Ok(entries) => self@.phase is Listed && entry_views(entries@) == self@.out,
                Err(e) => self@.phase == ListPhaseView::Failed(e@),
            },
    {
        match self.phase {
            ListPhase::Failed(e) => Err(e),
            _ => Ok(self.out),
        }
    }
}

/// Every entry lies in the directory that is listed, and has the name under
/// which it lies there; without `include_hidden` none is hidden.
pub open spec fn lies_in_directory(l: LocalListingView) -> bool {
    &&& l.phase matches ListPhaseView::Describing(u, name) ==> u == l.uri.child(name)
    &&& forall|i: int|
        0 <= i < l.out.len() ==> {
            let e = #[trigger] l.out[i];
            &&& e.uri == l.uri.child(e.name)
            &&& e.hidden ==> l.opts.include_hidden
        }
}

/// A listing shows only what lies in the directory: this holds when it begins
/// and after every step.
pub proof fn law_listing_stays_in_directory(
    l: LocalListingView,
    reply: ListReplyView,
    cancelled: bool,
    mime: Option<Seq<char>>,
)
    requires
        l.awaits(reply),
    ensures
        l == LocalListingView::start(l.uri, l.opts) ==> lies_in_directory(l),
        lies_in_directory(l) ==> lies_in_directory(l.stepped(reply, cancelled, mime).0),
{
    let after = l.stepped(reply, cancelled, mime).0;
    if lies_in_directory(l) {
        if let (ListPhaseView::Describing(u, name), ListReplyView::Described(meta)) = (
            l.phase,
            reply,
        ) {
            let e = found_entry(u, name, meta, mime);
            assert forall|i: int| 0 <= i < after.out.len() implies {
                let x = #[trigger] after.out[i];
                &&& x.uri == l.uri.child(x.name)
                &&& x.hidden ==> l.opts.include_hidden
            } by {
                if i < l.out.len() {
                    assert(after.out[i] == l.out[i]);
                } else {
                    assert(after.out[i] == e);
                }
            }
        }
    }
}

/// A name that can be joined is shown with what is known of it, also where
/// that is nothing, unless it is hidden and hidden entries are not asked for.
pub proof fn law_no_entry_is_lost(
    l: LocalListingView,
    name: Seq<char>,
    meta: Option<FileMeta>,
    mime: Option<Seq<char>>,
)
    requires
        l.phase is Reading,
        l.uri.join(name) is Ok,
        l.opts.include_hidden || !hidden_entry(name, meta),
    ensures
        ({
            let taken = l.stepped(ListReplyView::Entry(Ok(Some(name))), false, mime).0;
            let shown = taken.stepped(ListReplyView::Described(meta), false, mime).0;
            &&& shown.phase is Reading
            &&& shown.out == l.out.push(found_entry(l.uri.child(name), name, meta, mime))
        }),
{
}

} // verus!
