//! The move of many sources into a directory.
use vstd::prelude::*;
use crate::copy::{bulk_target, target_in, CopySession, CopyView};
use crate::engine::{call_for, Schemes, VfsEngine};
use crate::error::{unit_view, ErrorView, VfsError};
use crate::provider::{
    answers, effect_views, Action, ActionView, Effect, EffectView, Reply, ReplyView, Request,
    RequestView,
};
use crate::types::{
    outcome, outcome_views, renamed, CopyOpts, DeleteOpts, FsEvent, OutcomeView, PerSourceResult,
};
use crate::uri::{uri_views, UriView, VfsUri};

verus! {

/// Where a move of many sources stands.
#[derive(Debug)]
pub enum MoveStage {
    /// The next source is to be moved.
    Next,
    /// A rename within one provider is awaited.
    Renaming(VfsUri),
    /// The source is copied to another provider.
    Copying { dest: VfsUri, copy: CopySession },
    /// The deletion of a source that was copied is awaited.
    Deleting(VfsUri),
}

pub enum MoveStageView {
    Next,
    Renaming(UriView),
    Copying { dest: UriView, copy: CopyView },
    Deleting(UriView),
}

impl View for MoveStage {
    type V = MoveStageView;

    open spec fn view(&self) -> MoveStageView {
        match self {
            MoveStage::Next => MoveStageView::Next,
            MoveStage::Renaming(u) => MoveStageView::Renaming(u@),
            MoveStage::Copying { dest, copy } => MoveStageView::Copying {
                dest: dest@,
                copy: copy@,
            },
            MoveStage::Deleting(u) => MoveStageView::Deleting(u@),
        }
    }
}

/// The move of many sources, one after the other: within a provider by a
/// rename, else by a copy and the deletion of what was copied.
#[derive(Debug)]
pub struct MoveSession {
    sources: Vec<VfsUri>,
    dest_dir: VfsUri,
    opts: CopyOpts,
    out: Vec<PerSourceResult>,
    stage: MoveStage,
}

#[verifier::ext_equal]
pub struct MoveView {
    pub sources: Seq<UriView>,
    pub dest_dir: UriView,
    pub opts: CopyOpts,
    pub out: Seq<OutcomeView>,
    pub stage: MoveStageView,
}

impl View for MoveSession {
    type V = MoveView;

    closed spec fn view(&self) -> MoveView {
        MoveView {
            sources: uri_views(self.sources@),
            dest_dir: self.dest_dir@,
            opts: self.opts,
            out: outcome_views(self.out@),
            stage: self.stage@,
        }
    }
}

/// How the copy of a single source ended.
pub open spec fn copy_result(o: OutcomeView) -> Result<(), ErrorView> {
    if o.ok {
        Ok(())
    } else {
        match o.error {
            Some(e) => Err(e),
            None => Err(ErrorView::Io { message: "copy failed"@ }),
        }
    }
}

/// How a source that was copied is deleted: with all that is below it, and not
/// to the trash.
pub open spec fn moved_away() -> DeleteOpts {
    DeleteOpts { recursive: true, use_trash: false }
}

impl MoveView {
    /// A move that is about to begin.
    pub open spec fn start(sources: Seq<UriView>, dest_dir: UriView, opts: CopyOpts) -> MoveView {
        MoveView { sources, dest_dir, opts, out: Seq::empty(), stage: MoveStageView::Next }
    }

    /// The source in hand.
    pub open spec fn source(self) -> UriView {
        self.sources[self.out.len() as int]
    }

    /// The move is in order: the sources were dealt with in order, each with
    /// its own outcome, and a copy is that of the source in hand alone.
    pub open spec fn wf(self) -> bool {
        &&& self.out.len() <= self.sources.len()
        &&& forall|i: int|
            0 <= i < self.out.len() ==> (#[trigger] self.out[i]).source == self.sources[i]
        &&& !(self.stage is Next) ==> self.out.len() < self.sources.len()
        &&& self.stage matches MoveStageView::Copying { dest, copy } ==> {
            &&& copy.wf()
            &&& copy.sources == seq![self.source()]
            &&& copy.dest_dir == self.dest_dir
            &&& copy.opts == self.opts
            &&& !self.source().same_place(dest)
        }
    }

    /// No answer is awaited.
    pub open spec fn ready(self) -> bool {
        match self.stage {
            MoveStageView::Next => true,
            MoveStageView::Copying { copy, .. } => copy.ready(),
            _ => false,
        }
    }

    /// The request whose answer is awaited.
    pub open spec fn request(self) -> RequestView
        recommends
            !self.ready(),
    {
        match self.stage {
            MoveStageView::Next => RequestView::Caps,
            MoveStageView::Renaming(dest) => RequestView::Rename {
                from: self.source(),
                to: dest,
                overwrite: self.opts.overwrite,
            },
            MoveStageView::Copying { copy, .. } => copy.request(),
            MoveStageView::Deleting(_) => RequestView::Delete(self.source(), moved_away()),
        }
    }

    /// The totals of a copy can take in what the answer brings.
    pub open spec fn admits(self, reply: ReplyView) -> bool {
        self.stage matches MoveStageView::Copying { copy, .. } ==> copy.admits(reply)
    }

    /// The source in hand has the outcome.
    pub open spec fn settled(self, r: Result<(), ErrorView>) -> MoveView {
        MoveView {
            out: self.out.push(outcome(self.source(), r)),
            stage: MoveStageView::Next,
            ..self
        }
    }

    /// The call of a request to the provider of the source in hand, after
    /// which the move stands at the stage.
    pub open spec fn asks(
        self,
        schemes: Schemes,
        request: RequestView,
        stage: MoveStageView,
    ) -> (MoveView, ActionView) {
        match call_for(schemes, self.source(), request) {
            Ok(call) => (MoveView { stage, ..self }, ActionView::Call(call)),
            Err(e) => (self.settled(Err(e)), ActionView::Again),
        }
    }

    /// What follows: a source is renamed within its provider, or copied and,
    /// once its copy went well, deleted.
    pub open spec fn advanced(self, schemes: Schemes, cancelled: bool) -> (MoveView, ActionView) {
        match self.stage {
            MoveStageView::Next => if self.out.len() == self.sources.len() {
                (self, ActionView::Done)
            } else {
                let source = self.source();
                match target_in(self.dest_dir, source, "cannot move "@) {
                    Err(e) => (self.settled(Err(e)), ActionView::Again),
                    Ok(dest) => if source.same_place(dest) {
                        self.asks(
                            schemes,
                            RequestView::Rename {
                                from: source,
                                to: dest,
                                overwrite: self.opts.overwrite,
                            },
                            MoveStageView::Renaming(dest),
                        )
                    } else {
                        (
                            MoveView {
                                stage: MoveStageView::Copying {
                                    dest,
                                    copy: CopyView::start(seq![source], self.dest_dir, self.opts),
                                },
                                ..self
                            },
                            ActionView::Again,
                        )
                    },
                }
            },
            MoveStageView::Copying { dest, copy } => {
                let (next, action) = copy.advanced(schemes, cancelled);
                if action is Done {
                    match copy_result(next.out[0]) {
                        Err(e) => (self.settled(Err(e)), ActionView::Again),
                        Ok(()) => self.asks(
                            schemes,
                            RequestView::Delete(self.source(), moved_away()),
                            MoveStageView::Deleting(dest),
                        ),
                    }
                } else {
                    (
                        MoveView { stage: MoveStageView::Copying { dest, copy: next }, ..self },
                        action,
                    )
                }
            },
            _ => (self, ActionView::Done),
        }
    }

    /// What follows from the end of a rename or of a deletion.
    pub open spec fn moved(self, dest: UriView, r: Result<(), ErrorView>) -> (
        MoveView,
        Seq<EffectView>,
    ) {
        (
            self.settled(r),
            if r is Ok {
                seq![EffectView::Event(renamed(self.source(), dest))]
            } else {
                Seq::empty()
            },
        )
    }

    /// What follows from an answer, and what is told of it.
    pub open spec fn resumed(self, reply: ReplyView) -> (MoveView, Seq<EffectView>) {
        match (self.stage, reply) {
            (MoveStageView::Renaming(dest), ReplyView::Unit(r)) => self.moved(dest, r),
            (MoveStageView::Deleting(dest), ReplyView::Unit(r)) => self.moved(dest, r),
            (MoveStageView::Copying { dest, copy }, _) => {
                let (next, told) = copy.resumed(reply);
                (
                    MoveView { stage: MoveStageView::Copying { dest, copy: next }, ..self },
                    told,
                )
            },
            _ => (self, Seq::empty()),
        }
    }
}

impl<P> VfsEngine<P> {
    /// The move of sources into a directory.
    pub fn move_(&self, sources: Vec<VfsUri>, dest_dir: VfsUri, opts: CopyOpts) -> (r: MoveSession)
        ensures
            r@ == MoveView::start(uri_views(sources@), dest_dir@, opts),
            r@.wf(),
    {
        MoveSession::new(sources, dest_dir, opts)
    }
}

impl MoveSession {
    /// The move of sources into a directory.
    pub fn new(sources: Vec<VfsUri>, dest_dir: VfsUri, opts: CopyOpts) -> (r: MoveSession)
        ensures
            r@ == MoveView::start(uri_views(sources@), dest_dir@, opts),
            r@.wf(),
    {
        let r = MoveSession { sources, dest_dir, opts, out: Vec::new(), stage: MoveStage::Next };
        assert(r@ =~= MoveView::start(uri_views(sources@), dest_dir@, opts));
        r
    }

    fn source(&self) -> (r: VfsUri)
        requires
            self@.out.len() < self@.sources.len(),
        ensures
            r@ == self@.source(),
    {
        self.sources[self.out.len()].clone()
    }

    fn settle(&mut self, result: Result<(), VfsError>)
        requires
            old(self)@.wf(),
            old(self)@.out.len() < old(self)@.sources.len(),
        ensures
            final(self)@.wf(),
            final(self)@ == old(self)@.settled(unit_view(result)),
    {
        let source = self.source();
        self.stage = MoveStage::Next;
        self.out.push(PerSourceResult::of(source, result));
        assert(self@ =~= old(self)@.settled(unit_view(result)));
    }

    fn ask<P>(&mut self, engine: &VfsEngine<P>, request: Request, stage: MoveStage) -> (r: Action)
        requires
            engine.wf(),
            old(self)@.wf(),
            old(self)@.out.len() < old(self)@.sources.len(),
            !(stage is Copying),
        ensures
            final(self)@.wf(),
            (final(self)@, r@) == old(self)@.asks(engine.schemes(), request@, stage@),
    {
        let source = self.source();
        match engine.call(&source, request) {
            Ok(call) => {
                self.stage = stage;
                Action::Call(call)
            },
            Err(e) => {
                self.settle(Err(e));
                Action::Again
            },
        }
    }

    fn begin<P>(&mut self, engine: &VfsEngine<P>) -> (r: Action)
        requires
            engine.wf(),
            old(self)@.wf(),
            old(self)@.stage is Next,
            old(self)@.out.len() < old(self)@.sources.len(),
        ensures
            final(self)@.wf(),
            (final(self)@, r@) == old(self)@.advanced(engine.schemes(), false),
    {
        let source = self.source();
        match bulk_target(&self.dest_dir, &source, "cannot move ") {
            Err(e) => {
                self.settle(Err(e));
                Action::Again
            },
            Ok(dest) => {
                if source.same_place(&dest) {
                    let request = Request::Rename {
                        from: source,
                        to: dest.clone(),
                        overwrite: self.opts.overwrite,
                    };
                    self.ask(engine, request, MoveStage::Renaming(dest))
                } else {
                    let mut single: Vec<VfsUri> = Vec::new();
                    single.push(source);
                    assert(uri_views(single@) =~= seq![self@.source()]);
                    let copy = engine.copy(single, self.dest_dir.clone(), self.opts);
                    self.stage = MoveStage::Copying { dest, copy };
                    Action::Again
                }
            },
        }
    }

    /// What to do next.
    pub fn advance<P>(&mut self, engine: &VfsEngine<P>, cancelled: bool) -> (r: Action)
        requires
            engine.wf(),
            old(self)@.wf(),
            old(self)@.ready(),
        ensures
            final(self)@.wf(),
            (final(self)@, r@) == old(self)@.advanced(engine.schemes(), cancelled),
            r@ is Call ==> !final(self)@.ready() && r@->0.request == final(self)@.request(),
            r@ is Again ==> final(self)@.ready(),
            r@ is Done ==> final(self)@ == old(self)@,
            r@ is Done ==> old(self)@.out.len() == old(self)@.sources.len(),
    {
        let ghost before = self@;
        let mut stage = MoveStage::Next;
        std::mem::swap(&mut stage, &mut self.stage);
        match stage {
            MoveStage::Next => {
                if self.out.len() == self.sources.len() {
                    return Action::Done;
                }
                self.begin(engine)
            },
            MoveStage::Copying { dest, copy } => {
                let mut copy = copy;
                match copy.advance(engine, cancelled) {
                    Action::Done => {
                        let ghost end = copy@;
                        let mut results = copy.finish();
                        assert(outcome_views(results@)[0] == results@[0]@);
                        let first = results.remove(0);
                        assert(first@ == end.out[0]);
                        if first.ok {
                            let source = self.source();
                            let opts = DeleteOpts { recursive: true, use_trash: false };
                            self.ask(
                                engine,
                                Request::Delete(source, opts),
                                MoveStage::Deleting(dest),
                            )
                        } else {
                            let error = match first.error {
                                Some(e) => e,
                                None => VfsError::Io { message: "copy failed".to_owned() },
                            };
                            self.settle(Err(error));
                            Action::Again
                        }
                    },
                    action => {
                        proof {
                            lemma_copy_is_the_same(
                                before.stage->copy,
                                engine.schemes(),
                                cancelled,
                            );
                        }
                        self.stage = MoveStage::Copying { dest, copy };
                        action
                    },
                }
            },
            other => {
                self.stage = other;
                Action::Done
            },
        }
    }

    /// Whether the totals of a copy can take in what the answer brings.
    pub fn can_take(&self, reply: &Reply) -> (r: bool)
        requires
            self@.wf(),
        ensures
            r == self@.admits(reply@),
    {
        match &self.stage {
            MoveStage::Copying { copy, .. } => copy.can_take(reply),
            _ => true,
        }
    }

    fn conclude(&mut self, dest: VfsUri, result: Result<(), VfsError>) -> (r: Vec<Effect>)
        requires
            old(self)@.wf(),
            old(self)@.out.len() < old(self)@.sources.len(),
        ensures
            final(self)@.wf(),
            (final(self)@, effect_views(r@)) == old(self)@.moved(dest@, unit_view(result)),
            final(self)@.ready(),
    {
        let source = self.source();
        let ok = result.is_ok();
        self.settle(result);
        let mut told: Vec<Effect> = Vec::new();
        if ok {
            told.push(Effect::Event(FsEvent::renamed(&source, &dest)));
        }
        assert(effect_views(told@) =~= old(self)@.moved(dest@, unit_view(result)).1);
        told
    }

    /// Takes in the answer to the call that was named, and gives what is to be
    /// told, in order.
    pub fn resume(&mut self, reply: Reply) -> (r: Vec<Effect>)
        requires
            old(self)@.wf(),
            !old(self)@.ready(),
            answers(reply@, old(self)@.request()),
            old(self)@.admits(reply@),
        ensures
            final(self)@.wf(),
            final(self)@.ready(),
            (final(self)@, effect_views(r@)) == old(self)@.resumed(reply@),
    {
        let ghost before = self@;
        let none: Vec<Effect> = Vec::new();
        assert(effect_views(none@) =~= Seq::<EffectView>::empty());
        let mut stage = MoveStage::Next;
        std::mem::swap(&mut stage, &mut self.stage);
        match (stage, reply) {
            (MoveStage::Renaming(dest), Reply::Unit(result)) => self.conclude(dest, result),
            (MoveStage::Deleting(dest), Reply::Unit(result)) => self.conclude(dest, result),
            (MoveStage::Copying { dest, copy }, reply) => {
                let mut copy = copy;
                let told = copy.resume(reply);
                self.stage = MoveStage::Copying { dest, copy };
                told
            },
            (other, _) => {
                self.stage = other;
                none
            },
        }
    }

    /// The outcomes, in the order of the sources.
    pub fn finish(self) -> (r: Vec<PerSourceResult>)
        ensures
            outcome_views(r@) == self@.out,
    {
        self.out
    }
}

/// A step of a copy does not change what is copied, where to, or how.
proof fn lemma_copy_is_the_same(
    v: CopyView,
    schemes: Schemes,
    cancelled: bool,
)
    ensures
        v.advanced(schemes, cancelled).0.sources == v.sources,
        v.advanced(schemes, cancelled).0.dest_dir == v.dest_dir,
        v.advanced(schemes, cancelled).0.opts == v.opts,
{
}

/// A source is deleted only after it was copied in full, and only the source;
/// one whose copy failed stays, with the error of its copy as its outcome.
pub proof fn law_source_is_deleted_only_after_its_copy(
    v: MoveView,
    schemes: Schemes,
    cancelled: bool,
)
    requires
        v.wf(),
        v.ready(),
    ensures
        v.advanced(schemes, cancelled).1 matches ActionView::Call(call) ==> (
        call.request matches RequestView::Delete(u, opts) ==> {
            &&& u == v.source()
            &&& opts == moved_away()
            &&& v.stage is Copying
            &&& v.stage->copy.advanced(schemes, cancelled).1 is Done
            &&& v.stage->copy.out.len() == 1
            &&& v.stage->copy.out[0].ok
        }),
        v.stage is Copying && v.stage->copy.advanced(schemes, cancelled).1 is Done
            && !v.stage->copy.out[0].ok ==> v.advanced(schemes, cancelled) == (
            v.settled(copy_result(v.stage->copy.out[0])),
            ActionView::Again,
        ),
{
    if let MoveStageView::Copying { dest, copy } = v.stage {
        lemma_copy_asks_no_deletion(copy, schemes, cancelled);
        if copy.advanced(schemes, cancelled).1 is Done {
            lemma_done_copy(copy, schemes, cancelled);
        }
    }
}

proof fn lemma_copy_asks_no_deletion(v: CopyView, schemes: Schemes, cancelled: bool)
    ensures
        v.advanced(schemes, cancelled).1 matches ActionView::Call(call) ==> !(
        call.request is Delete) && !(call.request is Rename),
{
}

proof fn lemma_done_copy(v: CopyView, schemes: Schemes, cancelled: bool)
    requires
        v.wf(),
        v.ready(),
        v.advanced(schemes, cancelled).1 is Done,
    ensures
        v.advanced(schemes, cancelled).0 == v,
        v.out.len() == v.sources.len(),
{
}

/// Only within one provider and place is a source renamed.
pub proof fn law_rename_stays_in_place(v: MoveView, schemes: Schemes, cancelled: bool)
    requires
        v.wf(),
        v.ready(),
    ensures
        v.advanced(schemes, cancelled).1 matches ActionView::Call(call) ==> (
        call.request matches RequestView::Rename { from, to, .. } ==> from == v.source()
            && from.same_place(to) && !from.covers(to)),
{
    if let MoveStageView::Copying { dest, copy } = v.stage {
        lemma_copy_asks_no_deletion(copy, schemes, cancelled);
    }
}

/// A move that is done has one outcome for each source, in their order.
pub proof fn law_move_tells_every_source(v: MoveView, schemes: Schemes, cancelled: bool)
    requires
        v.wf(),
        v.ready(),
        v.advanced(schemes, cancelled).1 is Done,
    ensures
        v.out.len() == v.sources.len(),
        forall|i: int| 0 <= i < v.out.len() ==> (#[trigger] v.out[i]).source == v.sources[i],
{
}

} // verus!
