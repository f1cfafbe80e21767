//! What the sessions of the engine do with what the client asked for: which
//! call each step makes, and which outcome and event each answer leads to.
use vstd::prelude::*;
use crate::bulk_laws::joinable;
use crate::copy::{planned_copy, CopySession, StageView};
use crate::copy_one::{bytes_from, OnePhaseView};
use crate::engine::{finish_mkdir, finish_rename, finish_write, DeleteSession, VfsEngine};
use crate::error::{ErrorView, VfsError};
use crate::moves::{MoveSession, MoveStageView};
use crate::ops::Tally;
use crate::provider::{
    default_copy_within, default_watch, effect_views, Action, ActionView, CallView, Effect,
    EffectView, ProviderCall, Reply, RequestView,
};
use crate::types::{
    outcome_views, CopyOpts, DeleteOpts, EventView, FileType, FsEvent, FsEventKind, ListOpts,
    OutcomeView, PerSourceResult, Stat, WriteOpts,
};
use crate::uri::{display, uri_views, UriView, VfsUri};
use crate::walk::{Walk, WalkPhaseView};

verus! {

/// A deletion begins with the uris and the options of the client and no
/// outcome; every step keeps them.
pub proof fn law_deletion_keeps_what_was_asked<P>(
    engine: &VfsEngine<P>,
    uris: Vec<VfsUri>,
    opts: DeleteOpts,
    begun: DeleteSession,
    s: &mut DeleteSession,
    cancelled: bool,
    action: Action,
    t: &mut DeleteSession,
    result: Result<(), VfsError>,
    told: Option<FsEvent>,
)
    ensures
        call_ensures(VfsEngine::<P>::delete_many, (engine, uris, opts), begun) ==> {
            &&& begun@.uris == uri_views(uris@)
            &&& begun@.opts.recursive == opts.recursive
            &&& begun@.opts.use_trash == opts.use_trash
            &&& begun@.out.len() == 0
            &&& !begun@.waiting
        },
        call_ensures(DeleteSession::advance::<P>, (s, engine, cancelled), action) ==> {
            &&& final(s)@.uris == old(s)@.uris
            &&& final(s)@.opts == old(s)@.opts
        },
        call_ensures(DeleteSession::resume, (t, result), told) ==> {
            &&& final(t)@.uris == old(t)@.uris
            &&& final(t)@.opts == old(t)@.opts
        },
{
}

/// Every deletion that is asked for is that of the first uri without an
/// outcome, by the provider of its scheme, and with the options that the client
/// gave: recursive where the client said so, and to the trash where the client
/// said so.  After a cancellation, and where no provider serves the scheme, the
/// uri fails with that and nothing is asked for.
pub proof fn law_deletion_is_the_one_asked_for<P>(
    s: &mut DeleteSession,
    engine: &VfsEngine<P>,
    cancelled: bool,
    action: Action,
)
    requires
        call_ensures(DeleteSession::advance::<P>, (s, engine, cancelled), action),
        old(s)@.out.len() <= old(s)@.uris.len(),
    ensures
        ({
            let n = old(s)@.out.len();
            let uri = old(s)@.uris[n as int];
            let failed = |e: ErrorView|
                final(s)@.out == old(s)@.out.push(
                    OutcomeView { source: uri, ok: false, error: Some(e) },
                ) && action@ is Again;
            &&& n == old(s)@.uris.len() ==> action@ is Done && final(s)@ == old(s)@
            &&& n < old(s)@.uris.len() && cancelled ==> failed(ErrorView::Cancelled)
            &&& n < old(s)@.uris.len() && !cancelled && !engine.schemes().contains_key(uri.scheme)
                ==> failed(ErrorView::NoProvider(uri.scheme))
            &&& n < old(s)@.uris.len() && !cancelled && engine.schemes().contains_key(uri.scheme)
                ==> {
                &&& action@ == ActionView::Call(
                    CallView {
                        provider: engine.schemes()[uri.scheme],
                        request: RequestView::Delete(
                            uri,
                            DeleteOpts {
                                recursive: old(s)@.opts.recursive,
                                use_trash: old(s)@.opts.use_trash,
                            },
                        ),
                    },
                )
                &&& final(s)@.waiting
                &&& final(s)@.out == old(s)@.out
            }
        }),
{
}

/// The first deletion that is asked for after the client has asked for many is
/// that of the first uri with the client's options.
pub proof fn law_first_deletion<P>(
    engine: &VfsEngine<P>,
    uris: Vec<VfsUri>,
    opts: DeleteOpts,
    s: &mut DeleteSession,
    action: Action,
)
    requires
        uris@.len() > 0,
        call_ensures(VfsEngine::<P>::delete_many, (engine, uris, opts), *old(s)),
        call_ensures(DeleteSession::advance::<P>, (s, engine, false), action),
        engine.schemes().contains_key(uris@[0]@.scheme),
    ensures
        action@ matches ActionView::Call(call) && call.provider == engine.schemes()[uris@[0]@.scheme]
            && call.request == RequestView::Delete(uris@[0]@, opts),
{
    assert(uri_views(uris@)[0] == uris@[0]@);
}

/// A uri whose deletion went well has a good outcome, and its removal is told;
/// one whose deletion failed has the error as its outcome, and nothing is told.
pub proof fn law_deletion_has_its_outcome(
    s: &mut DeleteSession,
    result: Result<(), VfsError>,
    told: Option<FsEvent>,
)
    requires
        call_ensures(DeleteSession::resume, (s, result), told),
    ensures
        ({
            let uri = old(s)@.uris[old(s)@.out.len() as int];
            &&& final(s)@.out.len() == old(s)@.out.len() + 1
            &&& final(s)@.out.drop_last() == old(s)@.out
            &&& final(s)@.out.last().source == uri
            &&& final(s)@.out.last().ok == result is Ok
            &&& result is Ok ==> final(s)@.out.last().error is None
            &&& result matches Err(e) ==> final(s)@.out.last().error == Some(e@)
            &&& told is Some == result is Ok
            &&& told matches Some(e) ==> e@ == (EventView {
                kind: FsEventKind::Removed,
                uri,
                renamed_to: None,
            })
        }),
{
}

/// The target of a source is the uri of its name in the directory; a source
/// without a name that can stand there, and one that would go into itself, have
/// none.  The copy goes from the provider of the source's scheme to that of the
/// directory's.
pub proof fn law_copy_is_planned_into_the_directory<P>(
    engine: &VfsEngine<P>,
    source: &VfsUri,
    dest_dir: &VfsUri,
    r: Result<(VfsUri, usize, usize), VfsError>,
)
    requires
        call_ensures(VfsEngine::<P>::plan_copy, (engine, source, dest_dir), r),
    ensures
        ({
            let named = source@.segments.len() > 0 && joinable(source@.segments.last());
            let target = UriView {
                segments: dest_dir@.segments.push(source@.segments.last()),
                ..dest_dir@
            };
            let below = source@.scheme == target.scheme && source@.authority == target.authority
                && source@.segments.len() <= target.segments.len()
                && target.segments.take(source@.segments.len() as int) == source@.segments;
            let served = engine.schemes().contains_key(source@.scheme);
            let taken = engine.schemes().contains_key(dest_dir@.scheme);
            &&& r is Ok <==> named && !below && served && taken
            &&& r matches Ok((dest, from, to)) ==> dest@ == target && from
                == engine.schemes()[source@.scheme] && to == engine.schemes()[dest_dir@.scheme]
            &&& !named ==> (r matches Err(e) && e@ is InvalidUri)
            &&& named && below ==> (r matches Err(e) && e@ == ErrorView::InvalidTarget(
                "cannot copy "@ + display(source@) + " into itself"@,
            ))
            &&& named && !below && !served ==> (r matches Err(e) && e@ == ErrorView::NoProvider(
                source@.scheme,
            ))
            &&& named && !below && served && !taken ==> (r matches Err(e) && e@
                == ErrorView::NoProvider(dest_dir@.scheme))
        }),
{
    lemma_target_in(dest_dir@, source@, "cannot copy "@);
}

proof fn lemma_target_in(dest_dir: UriView, source: UriView, refusal: Seq<char>)
    ensures
        ({
            let named = source.segments.len() > 0 && joinable(source.segments.last());
            let target = UriView {
                segments: dest_dir.segments.push(source.segments.last()),
                ..dest_dir
            };
            let below = source.scheme == target.scheme && source.authority == target.authority
                && source.segments.len() <= target.segments.len()
                && target.segments.take(source.segments.len() as int) == source.segments;
            let r = crate::copy::target_in(dest_dir, source, refusal);
            &&& r is Ok <==> named && !below
            &&& r matches Ok(dest) ==> dest == target
            &&& !named ==> r is Err && r->Err_0 is InvalidUri
            &&& named && below ==> r == Err::<UriView, ErrorView>(
                ErrorView::InvalidTarget(refusal + display(source) + " into itself"@),
            )
        }),
{
    let target = UriView {
        segments: dest_dir.segments.push(source.segments.last()),
        ..dest_dir
    };
    if source.segments.len() == target.segments.len() {
        assert(target.segments.take(source.segments.len() as int) =~= target.segments);
        if target.segments == source.segments && source.scheme == target.scheme && source.authority
            == target.authority {
            assert(source =~= target);
        }
    }
    assert(Seq::<char>::empty().len() == 0);
}

/// A copy of many sources begins with what the client gave; every step keeps
/// it.
pub proof fn law_copy_keeps_what_was_asked<P>(
    engine: &VfsEngine<P>,
    sources: Vec<VfsUri>,
    dest_dir: VfsUri,
    opts: CopyOpts,
    begun: CopySession,
    s: &mut CopySession,
    cancelled: bool,
    action: Action,
    t: &mut CopySession,
    reply: Reply,
    told: Vec<Effect>,
)
    ensures
        call_ensures(VfsEngine::<P>::copy, (engine, sources, dest_dir, opts), begun) ==> {
            &&& begun@.sources == uri_views(sources@)
            &&& begun@.dest_dir == dest_dir@
            &&& begun@.opts.overwrite == opts.overwrite
            &&& begun@.planned == 0 && begun@.plans.len() == 0 && begun@.out.len() == 0
            &&& begun@.stage is Planning
            &&& begun@.tally == (Tally {
                done_bytes: 0,
                total_bytes: 0,
                done_files: 0,
                total_files: 0,
            })
        },
        call_ensures(CopySession::advance::<P>, (s, engine, cancelled), action) ==> {
            &&& final(s)@.sources == old(s)@.sources
            &&& final(s)@.dest_dir == old(s)@.dest_dir
            &&& final(s)@.opts == old(s)@.opts
        },
        call_ensures(CopySession::resume, (t, reply), told) ==> {
            &&& final(t)@.sources == old(t)@.sources
            &&& final(t)@.dest_dir == old(t)@.dest_dir
            &&& final(t)@.opts == old(t)@.opts
            &&& final(t)@.planned == old(t)@.planned
            &&& final(t)@.plans == old(t)@.plans
            &&& final(t)@.out == old(t)@.out
        },
{
}

/// The next source is planned.  One that cannot be planned has the error as its
/// outcome, and the copy goes on with the others; of another the walk begins, at
/// the source and on its provider.
pub proof fn law_next_source_is_planned<P>(
    s: &mut CopySession,
    engine: &VfsEngine<P>,
    cancelled: bool,
    action: Action,
)
    requires
        call_ensures(CopySession::advance::<P>, (s, engine, cancelled), action),
        old(s)@.stage is Planning,
        old(s)@.planned < old(s)@.sources.len(),
    ensures
        ({
            let source = old(s)@.sources[old(s)@.planned as int];
            let plan = planned_copy(engine.schemes(), source, old(s)@.dest_dir);
            &&& action@ is Again
            &&& final(s)@.plans == old(s)@.plans
            &&& final(s)@.tally == old(s)@.tally
            &&& plan matches Err(e) ==> {
                &&& final(s)@.planned == old(s)@.planned + 1
                &&& final(s)@.stage is Planning
                &&& final(s)@.out == old(s)@.out.push(
                    OutcomeView { source, ok: false, error: Some(e) },
                )
            }
            &&& plan matches Ok((dest, from, to)) ==> {
                &&& final(s)@.planned == old(s)@.planned
                &&& final(s)@.out == old(s)@.out
                &&& final(s)@.stage matches StageView::Walking { dest: d, from: f, to: t, walk }
                    && d == dest && f == from && t == to && walk.provider == from && walk.todo
                    == seq![source] && walk.out.len() == 0 && walk.phase is Next && walk.fresh
            }
        }),
{
}

/// A source whose walk ended is planned with all that was found, which counts
/// to the totals, or fails with the error of the walk.
pub proof fn law_walked_source_is_planned<P>(
    s: &mut CopySession,
    engine: &VfsEngine<P>,
    cancelled: bool,
    action: Action,
)
    requires
        call_ensures(CopySession::advance::<P>, (s, engine, cancelled), action),
        old(s)@.stage is Walking,
        old(s)@.wf(),
    ensures
        ({
            let source = old(s)@.sources[old(s)@.planned as int];
            let walk = old(s)@.stage->walk;
            let (next, asked) = walk.advanced(cancelled);
            &&& final(s)@.tally.done_bytes == old(s)@.tally.done_bytes
            &&& final(s)@.tally.done_files == old(s)@.tally.done_files
            &&& next.phase matches WalkPhaseView::Ended(r) ==> {
                &&& action@ is Again
                &&& final(s)@.stage is Planning
                &&& final(s)@.planned == old(s)@.planned + 1
                &&& r is Ok ==> {
                    let plan = final(s)@.plans.last();
                    &&& final(s)@.out == old(s)@.out
                    &&& final(s)@.plans.len() == old(s)@.plans.len() + 1
                    &&& final(s)@.plans.drop_last() == old(s)@.plans
                    &&& plan.source == source
                    &&& plan.dest == old(s)@.stage->dest
                    &&& plan.from == old(s)@.stage->from
                    &&& plan.to == old(s)@.stage->to
                    &&& plan.entries == next.out
                    &&& final(s)@.tally.total_bytes == old(s)@.tally.total_bytes + bytes_from(
                        next.out,
                        0,
                    )
                    &&& final(s)@.tally.total_files == old(s)@.tally.total_files + next.out.len()
                }
                &&& r matches Err(e) ==> {
                    &&& final(s)@.plans == old(s)@.plans
                    &&& final(s)@.tally == old(s)@.tally
                    &&& final(s)@.out == old(s)@.out.push(
                        OutcomeView { source, ok: false, error: Some(e) },
                    )
                }
            }
            &&& !(next.phase is Ended) ==> {
                &&& action@ == asked
                &&& final(s)@.stage == (StageView::Walking {
                    dest: old(s)@.stage->dest,
                    from: old(s)@.stage->from,
                    to: old(s)@.stage->to,
                    walk: next,
                })
                &&& final(s)@.out == old(s)@.out
                &&& final(s)@.plans == old(s)@.plans
            }
        }),
{
    if let WalkPhaseView::Ended(Ok(())) = old(s)@.stage->walk.advanced(cancelled).0.phase {
        assert(final(s)@.plans.drop_last() =~= old(s)@.plans);
    }
}

/// When all sources were planned, the first plan is carried out, with the
/// options of the client and the tally so far; when none is left, all is done.
pub proof fn law_plans_are_carried_out<P>(
    s: &mut CopySession,
    engine: &VfsEngine<P>,
    cancelled: bool,
    action: Action,
)
    requires
        call_ensures(CopySession::advance::<P>, (s, engine, cancelled), action),
        old(s)@.stage is Planning,
        old(s)@.planned >= old(s)@.sources.len(),
    ensures
        old(s)@.plans.len() == 0 ==> action@ is Done && final(s)@ == old(s)@,
        old(s)@.plans.len() > 0 ==> {
            let one = final(s)@.stage->0;
            &&& action@ is Again
            &&& final(s)@.stage is Copying
            &&& final(s)@.plans == old(s)@.plans.drop_first()
            &&& final(s)@.out == old(s)@.out
            &&& one.plan == old(s)@.plans[0]
            &&& one.opts.overwrite == old(s)@.opts.overwrite
            &&& one.tally == old(s)@.tally
            &&& one.next == 0
            &&& one.phase is Start
        },
{
}

/// A source whose copy ended has its end as its outcome, and the copy goes on;
/// else what its copy asks for is asked for.
pub proof fn law_copied_source_has_its_outcome<P>(
    s: &mut CopySession,
    engine: &VfsEngine<P>,
    cancelled: bool,
    action: Action,
)
    requires
        call_ensures(CopySession::advance::<P>, (s, engine, cancelled), action),
        old(s)@.stage is Copying,
    ensures
        ({
            let (next, asked) = old(s)@.stage->0.advanced(cancelled);
            let source = old(s)@.stage->0.plan.source;
            &&& final(s)@.plans == old(s)@.plans
            &&& next.phase matches OnePhaseView::Ended(r) ==> {
                &&& action@ is Again
                &&& final(s)@.stage is Planning
                &&& final(s)@.tally == next.tally
                &&& final(s)@.out.len() == old(s)@.out.len() + 1
                &&& final(s)@.out.drop_last() == old(s)@.out
                &&& final(s)@.out.last().source == source
                &&& final(s)@.out.last().ok == r is Ok
                &&& r is Ok ==> final(s)@.out.last().error is None
                &&& r matches Err(e) ==> final(s)@.out.last().error == Some(e)
            }
            &&& !(next.phase is Ended) ==> action@ == asked && final(s)@.stage
                == StageView::Copying(next) && final(s)@.out == old(s)@.out && final(s)@.tally
                == old(s)@.tally
        }),
{
    if old(s)@.stage->0.advanced(cancelled).0.phase is Ended {
        assert(final(s)@.out.drop_last() =~= old(s)@.out);
    }
}

/// An answer goes to the walk or the copy that asked for it, and what that
/// copy tells is told.
pub proof fn law_copy_hands_answers_on(s: &mut CopySession, reply: Reply, told: Vec<Effect>)
    requires
        call_ensures(CopySession::resume, (s, reply), told),
    ensures
        old(s)@.stage matches StageView::Walking { dest, from, to, walk } ==> told@.len() == 0
            && final(s)@.stage == (StageView::Walking { dest, from, to, walk: walk.resumed(reply@) }),
        old(s)@.stage matches StageView::Copying(one) ==> final(s)@.stage == StageView::Copying(
            one.resumed(reply@).0,
        ) && effect_views(told@) == one.resumed(reply@).1,
{
    assert(effect_views(told@).len() == told@.len());
}

/// A move begins with what the client gave; every step keeps it.
pub proof fn law_move_keeps_what_was_asked<P>(
    engine: &VfsEngine<P>,
    sources: Vec<VfsUri>,
    dest_dir: VfsUri,
    opts: CopyOpts,
    begun: MoveSession,
    s: &mut MoveSession,
    cancelled: bool,
    action: Action,
    t: &mut MoveSession,
    reply: Reply,
    told: Vec<Effect>,
)
    ensures
        call_ensures(VfsEngine::<P>::move_, (engine, sources, dest_dir, opts), begun) ==> {
            &&& begun@.sources == uri_views(sources@)
            &&& begun@.dest_dir == dest_dir@
            &&& begun@.opts.overwrite == opts.overwrite
            &&& begun@.out.len() == 0
            &&& begun@.stage is Next
        },
        call_ensures(MoveSession::advance::<P>, (s, engine, cancelled), action) ==> {
            &&& final(s)@.sources == old(s)@.sources
            &&& final(s)@.dest_dir == old(s)@.dest_dir
            &&& final(s)@.opts == old(s)@.opts
        },
        call_ensures(MoveSession::resume, (t, reply), told) ==> {
            &&& final(t)@.sources == old(t)@.sources
            &&& final(t)@.dest_dir == old(t)@.dest_dir
            &&& final(t)@.opts == old(t)@.opts
        },
{
}

/// How the move of the next source begins.  Within one place it is a rename to
/// its name in the directory, by the provider of its scheme, that overwrites
/// only where the client said so.  Between places it is a copy of this source
/// alone, into the same directory and with the same options.  A source without
/// a target, and one without a provider to rename it, fails.
pub proof fn law_move_begins_as_asked<P>(
    s: &mut MoveSession,
    engine: &VfsEngine<P>,
    cancelled: bool,
    action: Action,
)
    requires
        call_ensures(MoveSession::advance::<P>, (s, engine, cancelled), action),
        old(s)@.stage is Next,
        old(s)@.out.len() <= old(s)@.sources.len(),
    ensures
        ({
            let v = old(s)@;
            let source = v.sources[v.out.len() as int];
            let named = source.segments.len() > 0 && joinable(source.segments.last());
            let target = UriView {
                segments: v.dest_dir.segments.push(source.segments.last()),
                ..v.dest_dir
            };
            let here = source.scheme == target.scheme && source.authority == target.authority;
            let below = here && source.segments.len() <= target.segments.len()
                && target.segments.take(source.segments.len() as int) == source.segments;
            let served = engine.schemes().contains_key(source.scheme);
            let failed = action@ is Again && final(s)@.stage is Next && final(s)@.out.len()
                == v.out.len() + 1 && final(s)@.out.drop_last() == v.out
                && final(s)@.out.last().source == source && !final(s)@.out.last().ok;
            let error = final(s)@.out.last().error;
            let more = v.out.len() < v.sources.len();
            &&& !more ==> action@ is Done && final(s)@ == v
            &&& more && !named ==> failed && error is Some && error->0 is InvalidUri
            &&& more && named && below ==> failed && error == Some(
                ErrorView::InvalidTarget("cannot move "@ + display(source) + " into itself"@),
            )
            &&& more && named && !below && here && !served ==> failed && error == Some(
                ErrorView::NoProvider(source.scheme),
            )
            &&& more && named && !below && here && served ==> {
                &&& action@ == ActionView::Call(
                    CallView {
                        provider: engine.schemes()[source.scheme],
                        request: RequestView::Rename {
                            from: source,
                            to: target,
                            overwrite: v.opts.overwrite,
                        },
                    },
                )
                &&& final(s)@.stage == MoveStageView::Renaming(target)
                &&& final(s)@.out == v.out
            }
            &&& more && named && !here ==> {
                let copy = final(s)@.stage->copy;
                &&& action@ is Again
                &&& final(s)@.out == v.out
                &&& final(s)@.stage is Copying
                &&& final(s)@.stage->dest == target
                &&& copy.sources == seq![source]
                &&& copy.dest_dir == v.dest_dir
                &&& copy.opts.overwrite == v.opts.overwrite
                &&& copy.planned == 0 && copy.out.len() == 0 && copy.plans.len() == 0
                &&& copy.stage is Planning
            }
        }),
{
    let v = old(s)@;
    let source = v.sources[v.out.len() as int];
    lemma_target_in(v.dest_dir, source, "cannot move "@);
    if v.out.len() < v.sources.len() && final(s)@.out.len() == v.out.len() + 1 {
        assert(final(s)@.out.drop_last() =~= v.out);
    }
}

/// Every rename that a move asks for carries the client's choice and goes to
/// the source's name in the directory; every deletion is of the source alone,
/// with all that is below it and not to the trash, after a copy that went well.
pub proof fn law_move_asks_as_told<P>(
    s: &mut MoveSession,
    engine: &VfsEngine<P>,
    cancelled: bool,
    action: Action,
)
    requires
        call_ensures(MoveSession::advance::<P>, (s, engine, cancelled), action),
        old(s)@.wf(),
        old(s)@.ready(),
    ensures
        action@ matches ActionView::Call(call) ==> {
            let source = old(s)@.sources[old(s)@.out.len() as int];
            &&& call.request matches RequestView::Rename { from, to, overwrite } ==> {
                &&& from == source
                &&& overwrite == old(s)@.opts.overwrite
                &&& to.scheme == old(s)@.dest_dir.scheme
                &&& to.authority == old(s)@.dest_dir.authority
                &&& to.segments == old(s)@.dest_dir.segments.push(source.segments.last())
            }
            &&& call.request matches RequestView::Delete(u, opts) ==> {
                &&& u == source
                &&& opts.recursive && !opts.use_trash
                &&& call.provider == engine.schemes()[source.scheme]
                &&& old(s)@.stage is Copying
                &&& old(s)@.stage->copy.out.len() == 1
                &&& old(s)@.stage->copy.out[0].ok
                &&& final(s)@.stage == MoveStageView::Deleting(old(s)@.stage->dest)
            }
        },
{
    if old(s)@.stage is Next {
        if old(s)@.out.len() < old(s)@.sources.len() {
            law_move_begins_as_asked(s, engine, cancelled, action);
        }
    }
}

/// While the copy of a moved source goes on, what it asks for is asked for.
/// When it is done and went well the source is deleted; when it failed, the
/// source stays and has the error of its copy as its outcome.
pub proof fn law_moved_copy_decides<P>(
    s: &mut MoveSession,
    engine: &VfsEngine<P>,
    cancelled: bool,
    action: Action,
)
    requires
        call_ensures(MoveSession::advance::<P>, (s, engine, cancelled), action),
        old(s)@.wf(),
        old(s)@.ready(),
        old(s)@.stage is Copying,
    ensures
        ({
            let v = old(s)@;
            let source = v.sources[v.out.len() as int];
            let (next, asked) = v.stage->copy.advanced(engine.schemes(), cancelled);
            let told = v.stage->copy.out[0];
            let served = engine.schemes().contains_key(source.scheme);
            &&& !(asked is Done) ==> action@ == asked && final(s)@.out == v.out
                && final(s)@.stage == (MoveStageView::Copying { dest: v.stage->dest, copy: next })
            &&& asked is Done && told.ok && served ==> action@ == ActionView::Call(
                CallView {
                    provider: engine.schemes()[source.scheme],
                    request: RequestView::Delete(
                        source,
                        DeleteOpts { recursive: true, use_trash: false },
                    ),
                },
            ) && final(s)@.out == v.out && final(s)@.stage == MoveStageView::Deleting(v.stage->dest)
            &&& asked is Done && !told.ok ==> {
                &&& action@ is Again
                &&& final(s)@.stage is Next
                &&& final(s)@.out.len() == v.out.len() + 1
                &&& final(s)@.out.last().source == source
                &&& !final(s)@.out.last().ok
                &&& told.error is Some ==> final(s)@.out.last().error == told.error
            }
            &&& asked is Done && told.ok && !served ==> {
                &&& action@ is Again
                &&& final(s)@.out.len() == v.out.len() + 1
                &&& final(s)@.out.last() == (OutcomeView {
                    source,
                    ok: false,
                    error: Some(ErrorView::NoProvider(source.scheme)),
                })
            }
        }),
{
}

/// A source that was renamed, or copied and deleted, has a good outcome, and
/// its move is told; one that was not has the error as its outcome.
pub proof fn law_move_has_its_outcome(
    s: &mut MoveSession,
    result: Result<(), VfsError>,
    told: Vec<Effect>,
    dest: UriView,
)
    requires
        call_ensures(MoveSession::resume, (s, Reply::Unit(result)), told),
        old(s)@.stage == MoveStageView::Renaming(dest) || old(s)@.stage == MoveStageView::Deleting(
            dest,
        ),
    ensures
        ({
            let source = old(s)@.sources[old(s)@.out.len() as int];
            &&& final(s)@.stage is Next
            &&& final(s)@.out.len() == old(s)@.out.len() + 1
            &&& final(s)@.out.drop_last() == old(s)@.out
            &&& final(s)@.out.last().source == source
            &&& final(s)@.out.last().ok == result is Ok
            &&& result is Ok ==> final(s)@.out.last().error is None
            &&& result matches Err(e) ==> final(s)@.out.last().error == Some(e@) && told@.len() == 0
            &&& result is Ok ==> told@.len() == 1 && told@[0]@ == EffectView::Event(
                EventView { kind: FsEventKind::Renamed, uri: source, renamed_to: Some(dest) },
            )
        }),
{
    assert(effect_views(told@).len() == told@.len());
    if result is Ok {
        assert(effect_views(told@)[0] == told@[0]@);
    }
    assert(final(s)@.out.drop_last() =~= old(s)@.out);
}

/// An answer for the copy of a moved source goes to that copy, and what it
/// tells is told.
pub proof fn law_move_hands_answers_on(s: &mut MoveSession, reply: Reply, told: Vec<Effect>)
    requires
        call_ensures(MoveSession::resume, (s, reply), told),
    ensures
        old(s)@.stage matches MoveStageView::Copying { dest, copy } ==> final(s)@.stage == (
        MoveStageView::Copying { dest, copy: copy.resumed(reply@).0 }) && effect_views(told@)
            == copy.resumed(reply@).1 && final(s)@.out == old(s)@.out,
{
}

/// A walk begins at its root, on its provider.  It looks up the next uri, and
/// lists every directory with its hidden entries, always on that provider; once
/// cancelled it looks up no further uri but its first.
pub proof fn law_walk_asks_its_provider(
    provider: usize,
    root: &VfsUri,
    begun: Walk,
    w: &mut Walk,
    cancelled: bool,
    action: Action,
)
    ensures
        call_ensures(Walk::new, (provider, root), begun) ==> begun@.provider == provider
            && begun@.todo == seq![root@] && begun@.out.len() == 0 && begun@.phase is Next
            && begun@.fresh,
        call_ensures(Walk::advance, (w, cancelled), action) ==> {
            let v = old(w)@;
            let stops = cancelled && !v.fresh;
            &&& final(w)@.provider == v.provider
            &&& final(w)@.out == v.out
            &&& v.phase is Next && v.todo.len() == 0 ==> action@ is Done && (
            final(w)@.phase matches WalkPhaseView::Ended(r) && r is Ok)
            &&& v.phase is Next && v.todo.len() > 0 && stops ==> action@ is Done && final(w)@.phase
                == WalkPhaseView::Ended(Err(ErrorView::Cancelled))
            &&& v.phase is Next && v.todo.len() > 0 && !stops ==> {
                &&& action@ == ActionView::Call(
                    CallView { provider: v.provider, request: RequestView::Stat(v.todo[0]) },
                )
                &&& final(w)@.phase == WalkPhaseView::Stating(v.todo[0])
                &&& final(w)@.todo == v.todo.drop_first()
                &&& !final(w)@.fresh
            }
            &&& v.phase matches WalkPhaseView::ToList(u) ==> action@ == ActionView::Call(
                CallView {
                    provider: v.provider,
                    request: RequestView::List(u, ListOpts { include_hidden: true }),
                },
            ) && final(w)@.phase == WalkPhaseView::Listing(u) && final(w)@.todo == v.todo
        },
{
}

/// What was looked up is found, with what is known of it; the entries of a
/// directory come next, in the order of its listing.  Every error ends the
/// walk.
pub proof fn law_walk_finds_what_is_there(w: &mut Walk, reply: Reply)
    requires
        call_ensures(Walk::resume, (w, reply), ()),
    ensures
        final(w)@.provider == old(w)@.provider,
        old(w)@.phase matches WalkPhaseView::Stating(u) ==> (reply matches Reply::Stat(r) ==> {
            &&& final(w)@.todo == old(w)@.todo
            &&& r matches Ok(st) ==> {
                &&& final(w)@.out == old(w)@.out.push((u, st@))
                &&& st.file_type == FileType::Directory ==> final(w)@.phase
                    == WalkPhaseView::ToList(u)
                &&& st.file_type != FileType::Directory ==> final(w)@.phase is Next
            }
            &&& r matches Err(e) ==> final(w)@.phase == WalkPhaseView::Ended(Err(e@))
                && final(w)@.out == old(w)@.out
        }),
        old(w)@.phase is Listing ==> (reply matches Reply::List(r) ==> {
            &&& final(w)@.out == old(w)@.out
            &&& r matches Ok(entries) ==> {
                let n = entries@.len();
                &&& final(w)@.phase is Next
                &&& final(w)@.todo.len() == n + old(w)@.todo.len()
                &&& forall|i: int| 0 <= i < n ==> #[trigger] final(w)@.todo[i] == entries@[i].uri@
                &&& final(w)@.todo.skip(n as int) == old(w)@.todo
            }
            &&& r matches Err(e) ==> final(w)@.phase == WalkPhaseView::Ended(Err(e@))
        }),
{
    if old(w)@.phase is Listing {
        if let Reply::List(Ok(entries)) = reply {
            let uris = crate::types::entry_uris(crate::types::entry_views(entries@));
            assert(final(w)@.todo.skip(entries@.len() as int) =~= old(w)@.todo);
            assert forall|i: int| 0 <= i < entries@.len() implies #[trigger] final(w)@.todo[i]
                == entries@[i].uri@ by {
                assert(uris[i] == crate::types::entry_views(entries@)[i].uri);
            }
        }
    }
}

/// A single operation is one call, of the uri that it names and with the options
/// that it was given, to the provider of the uri's scheme; without one it fails.
pub proof fn law_single_operations_are_calls<P>(
    engine: &VfsEngine<P>,
    uri: &VfsUri,
    opts: ListOpts,
    looked: Result<ProviderCall, VfsError>,
    listed: Result<ProviderCall, VfsError>,
    made: Result<ProviderCall, VfsError>,
    served: Result<usize, VfsError>,
)
    ensures
        call_ensures(VfsEngine::<P>::provider_for, (engine, uri), served) ==> {
            &&& served is Ok <==> engine.schemes().contains_key(uri@.scheme)
            &&& served matches Ok(p) ==> p == engine.schemes()[uri@.scheme]
            &&& served matches Err(e) ==> e@ == ErrorView::NoProvider(uri@.scheme)
        },
        call_ensures(VfsEngine::<P>::stat, (engine, uri), looked) ==> {
            &&& looked is Ok <==> engine.schemes().contains_key(uri@.scheme)
            &&& looked matches Ok(c) ==> c.provider == engine.schemes()[uri@.scheme] && c.request@
                == RequestView::Stat(uri@)
            &&& looked matches Err(e) ==> e@ == ErrorView::NoProvider(uri@.scheme)
        },
        call_ensures(VfsEngine::<P>::list, (engine, uri, opts), listed) ==> {
            &&& listed is Ok <==> engine.schemes().contains_key(uri@.scheme)
            &&& listed matches Ok(c) ==> c.provider == engine.schemes()[uri@.scheme] && c.request@
                == RequestView::List(uri@, ListOpts { include_hidden: opts.include_hidden })
            &&& listed matches Err(e) ==> e@ == ErrorView::NoProvider(uri@.scheme)
        },
        call_ensures(VfsEngine::<P>::mkdir, (engine, uri), made) ==> {
            &&& made is Ok <==> engine.schemes().contains_key(uri@.scheme)
            &&& made matches Ok(c) ==> c.provider == engine.schemes()[uri@.scheme] && c.request@
                == RequestView::Mkdir(uri@)
            &&& made matches Err(e) ==> e@ == ErrorView::NoProvider(uri@.scheme)
        },
{
    if call_ensures(VfsEngine::<P>::stat, (engine, uri), looked) {
        assert(looked matches Ok(c) ==> c@.request == c.request@);
    }
    if call_ensures(VfsEngine::<P>::list, (engine, uri, opts), listed) {
        assert(listed matches Ok(c) ==> c@.request == c.request@);
    }
    if call_ensures(VfsEngine::<P>::mkdir, (engine, uri), made) {
        assert(made matches Ok(c) ==> c@.request == c.request@);
    }
}

/// A rename stays within one scheme and authority: there it is one call that
/// overwrites only where that was asked for, and elsewhere it is not supported.
pub proof fn law_rename_is_within_one_place<P>(
    engine: &VfsEngine<P>,
    from: &VfsUri,
    to: &VfsUri,
    overwrite: bool,
    r: Result<ProviderCall, VfsError>,
)
    requires
        call_ensures(VfsEngine::<P>::rename, (engine, from, to, overwrite), r),
    ensures
        ({
            let here = from@.scheme == to@.scheme && from@.authority == to@.authority;
            &&& r is Ok <==> here && engine.schemes().contains_key(from@.scheme)
            &&& r matches Ok(c) ==> c.provider == engine.schemes()[from@.scheme] && c.request@ == (
            RequestView::Rename { from: from@, to: to@, overwrite })
            &&& !here ==> (r matches Err(e) && e@ == (ErrorView::NotSupported {
                capability: "cross-provider rename"@,
            }))
            &&& here && !engine.schemes().contains_key(from@.scheme) ==> (r matches Err(e) && e@
                == ErrorView::NoProvider(from@.scheme))
        }),
{
    assert(r matches Ok(c) ==> c@.request == c.request@);
}

/// A write looks the file up and writes it, both on the provider of the uri's
/// scheme, with the options that it was given.
pub proof fn law_write_looks_first<P>(
    engine: &VfsEngine<P>,
    uri: &VfsUri,
    opts: WriteOpts,
    r: Result<(ProviderCall, ProviderCall), VfsError>,
)
    requires
        call_ensures(VfsEngine::<P>::write_bytes, (engine, uri, opts), r),
    ensures
        r is Ok <==> engine.schemes().contains_key(uri@.scheme),
        r matches Ok((look, write)) ==> {
            &&& look.provider == engine.schemes()[uri@.scheme]
            &&& write.provider == look.provider
            &&& look.request@ == RequestView::Stat(uri@)
            &&& write.request@ == RequestView::Write(
                uri@,
                WriteOpts { overwrite: opts.overwrite, create_parents: opts.create_parents },
            )
        },
        r matches Err(e) ==> e@ == ErrorView::NoProvider(uri@.scheme),
{
    assert(r matches Ok((look, write)) ==> look@.request == look.request@ && write@.request
        == write.request@);
}

/// What went well is told by one event of the right kind; what failed is told
/// by its error.
pub proof fn law_single_operations_are_told(
    uri: &VfsUri,
    to: &VfsUri,
    existed: bool,
    result: Result<(), VfsError>,
    made: Result<FsEvent, VfsError>,
    written: Result<FsEvent, VfsError>,
    moved: Result<FsEvent, VfsError>,
)
    ensures
        call_ensures(finish_mkdir, (uri, result), made) ==> {
            &&& made is Ok == result is Ok
            &&& made matches Ok(e) ==> e.kind == FsEventKind::Created && e.uri@ == uri@
                && e.renamed_to is None
            &&& made matches Err(e) ==> e@ == result->Err_0@
        },
        call_ensures(finish_write, (uri, existed, result), written) ==> {
            &&& written is Ok == result is Ok
            &&& written matches Ok(e) ==> e.uri@ == uri@ && e.renamed_to is None && e.kind == (
            if existed {
                FsEventKind::Modified
            } else {
                FsEventKind::Created
            })
            &&& written matches Err(e) ==> e@ == result->Err_0@
        },
        call_ensures(finish_rename, (uri, to, result), moved) ==> {
            &&& moved is Ok == result is Ok
            &&& moved matches Ok(e) ==> e.kind == FsEventKind::Renamed && e.uri@ == uri@ && (
            e.renamed_to matches Some(t) && t@ == to@)
            &&& moved matches Err(e) ==> e@ == result->Err_0@
        },
{
    if call_ensures(finish_rename, (uri, to, result), moved) {
        assert(moved matches Ok(e) ==> e@.renamed_to == crate::types::opt_uri(e.renamed_to));
    }
    if call_ensures(finish_mkdir, (uri, result), made) {
        assert(made matches Ok(e) ==> e@.renamed_to == crate::types::opt_uri(e.renamed_to));
    }
}

/// A provider that does not copy or watch by itself says that this is not
/// supported.
pub proof fn law_defaults_are_not_supported(copied: Result<(), VfsError>, watched: Result<(), VfsError>)
    ensures
        call_ensures(default_copy_within, (), copied) ==> (copied matches Err(e) && e@ == (
        ErrorView::NotSupported { capability: "copyWithin"@ })),
        call_ensures(default_watch, (), watched) ==> (watched matches Err(e) && e@ == (
        ErrorView::NotSupported { capability: "watch"@ })),
{
}

/// The outcomes that a session hands out are those that it has gathered, in
/// their order.
pub proof fn law_outcomes_are_handed_out(
    deletion: DeleteSession,
    copy: CopySession,
    mv: MoveSession,
    a: Vec<PerSourceResult>,
    b: Vec<PerSourceResult>,
    c: Vec<PerSourceResult>,
)
    ensures
        call_ensures(DeleteSession::finish, (deletion,), a) ==> outcome_views(a@)
            == deletion@.out,
        call_ensures(CopySession::finish, (copy,), b) ==> outcome_views(b@) == copy@.out,
        call_ensures(MoveSession::finish, (mv,), c) ==> outcome_views(c@) == mv@.out,
{
}

/// The totals of a copy can take in every answer, but for a look-up whose bytes
/// or whose file would no longer fit; so can those of the copy of a move.
pub proof fn law_totals_take_in_what_fits(
    s: &CopySession,
    reply: &Reply,
    r: bool,
    m: &MoveSession,
    q: bool,
)
    ensures
        call_ensures(CopySession::can_take, (s, reply), r) ==> {
            &&& !(s@.stage is Walking) || !(*reply matches Reply::Stat(Ok(_))) ==> r
            &&& s@.stage matches StageView::Walking { walk, .. } ==> (
            *reply matches Reply::Stat(Ok(st)) ==> (r <==> s@.tally.total_bytes + bytes_from(
                walk.out,
                0,
            ) + st.size <= u64::MAX && s@.tally.total_files + walk.out.len() < u64::MAX))
        },
        call_ensures(MoveSession::can_take, (m, reply), q) ==> {
            &&& !(m@.stage is Copying) || !(*reply matches Reply::Stat(Ok(_))) ==> q
            &&& m@.stage matches MoveStageView::Copying { copy, .. } ==> (
            copy.stage matches StageView::Walking { walk, .. } ==> (*reply matches Reply::Stat(
                Ok(st),
            ) ==> (q <==> copy.tally.total_bytes + bytes_from(walk.out, 0) + st.size <= u64::MAX
                && copy.tally.total_files + walk.out.len() < u64::MAX)))
        },
{
}

} // verus!
