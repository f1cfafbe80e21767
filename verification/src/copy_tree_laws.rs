//! What a copy does from its beginning to its end: a tree is walked through
//! and made again at its target.
use vstd::prelude::*;
use crate::copy::{planned_copy, CopyView, StageView};
use crate::copy_one::{bytes_from, OnePhaseView, OneView, PlanView};
use crate::copy_one_laws::{
    good_run, lemma_copy_makes_entries, lemma_ended_copy_stays, targets_are_free, told_of_entries,
};
use crate::engine::Schemes;
use crate::error::ErrorView;
use crate::ops::Tally;
use crate::provider::{ActionView, EffectView};
use crate::types::{outcome, CopyOpts, StatView};
use crate::uri::UriView;
use crate::walk::{
    lemma_ended_walk_stays, lemma_walk_gathers, preorder, walk_run, Still, WalkView,
};

verus! {

/// A copy after `n` rounds with the answers of the providers, not cancelled,
/// and what was told on the way.
pub open spec fn copy_run(world: Still, schemes: Schemes, v: CopyView, n: nat) -> (
    CopyView,
    Seq<EffectView>,
)
    decreases n,
{
    if n == 0 {
        (v, Seq::empty())
    } else {
        let (asked, action) = v.advanced(schemes, false);
        let (next, told) = match action {
            ActionView::Call(call) => asked.resumed(world.reply(call.request)),
            _ => (asked, Seq::empty()),
        };
        let (end, more) = copy_run(world, schemes, next, (n - 1) as nat);
        (end, told + more)
    }
}

proof fn lemma_run_on(world: Still, schemes: Schemes, v: CopyView, a: nat, b: nat)
    ensures
        ({
            let (mid, told) = copy_run(world, schemes, v, a);
            let (end, more) = copy_run(world, schemes, mid, b);
            copy_run(world, schemes, v, a + b) == (end, told + more)
        }),
    decreases a,
{
    if a == 0 {
        let (end, more) = copy_run(world, schemes, v, b);
        assert(Seq::<EffectView>::empty() + more =~= more);
    } else {
        let (asked, action) = v.advanced(schemes, false);
        let (next, told) = match action {
            ActionView::Call(call) => asked.resumed(world.reply(call.request)),
            _ => (asked, Seq::empty()),
        };
        lemma_run_on(world, schemes, next, (a - 1) as nat, b);
        let (mid, m1) = copy_run(world, schemes, next, (a - 1) as nat);
        let (end, m2) = copy_run(world, schemes, mid, b);
        assert((a - 1) as nat + b == (a + b - 1) as nat);
        assert(told + (m1 + m2) =~= (told + m1) + m2);
    }
}

/// While a source is walked through, a copy does what the walk does.
proof fn lemma_walking(world: Still, schemes: Schemes, v: CopyView, n: nat)
    requires
        v.stage is Walking,
        v.stage->walk.ready(),
        walk_run(world, v.stage->walk, n).phase is Next,
    ensures
        copy_run(world, schemes, v, n) == (
            CopyView {
                stage: StageView::Walking {
                    dest: v.stage->dest,
                    from: v.stage->from,
                    to: v.stage->to,
                    walk: walk_run(world, v.stage->walk, n),
                },
                ..v
            },
            Seq::<EffectView>::empty(),
        ),
    decreases n,
{
    let walk = v.stage->walk;
    let none = Seq::<EffectView>::empty();
    if n == 0 {
        assert(copy_run(world, schemes, v, 0) == (v, none));
    } else {
        let (asked, action) = walk.advanced(false);
        if asked.phase is Ended {
            lemma_ended_walk_stays(world, asked, (n - 1) as nat);
        }
        let call = action->0;
        let next = asked.resumed(world.reply(call.request));
        if next.phase is Ended {
            lemma_ended_walk_stays(world, next, (n - 1) as nat);
        }
        assert(next.ready());
        let after = CopyView {
            stage: StageView::Walking {
                dest: v.stage->dest,
                from: v.stage->from,
                to: v.stage->to,
                walk: next,
            },
            ..v
        };
        lemma_walking(world, schemes, after, (n - 1) as nat);
        assert(none + none =~= none);
    }
}

/// While a source is copied, a copy does what the copy of the source does.
proof fn lemma_copying(world: Still, schemes: Schemes, v: CopyView, n: nat)
    requires
        v.stage is Copying,
        v.stage->Copying_0.ready(),
        good_run(v.stage->Copying_0, world, n).0.phase is Entry,
    ensures
        copy_run(world, schemes, v, n) == (
            CopyView {
                stage: StageView::Copying(good_run(v.stage->Copying_0, world, n).0),
                ..v
            },
            good_run(v.stage->Copying_0, world, n).1,
        ),
    decreases n,
{
    let one = v.stage->Copying_0;
    if n > 0 {
        let (asked, action) = one.advanced(false);
        if asked.phase is Ended {
            lemma_ended_copy_stays(asked, world, (n - 1) as nat);
        }
        let (next, told) = match action {
            ActionView::Call(call) => asked.resumed(world.reply(call.request)),
            _ => (asked, Seq::empty()),
        };
        if next.phase is Ended {
            lemma_ended_copy_stays(next, world, (n - 1) as nat);
        }
        assert(next.ready());
        let after = CopyView { stage: StageView::Copying(next), ..v };
        lemma_copying(world, schemes, after, (n - 1) as nat);
    }
}

/// The plan of a source whose walk found the entries, and the tally with which
/// its copy begins.
pub open spec fn tree_copy(
    source: UriView,
    dest: UriView,
    from: usize,
    to: usize,
    found: Seq<(UriView, StatView)>,
    opts: CopyOpts,
) -> OneView {
    OneView::start(
        PlanView { source, dest, from, to, entries: found },
        opts,
        Tally {
            done_bytes: 0,
            total_bytes: bytes_from(found, 0) as u64,
            done_files: 0,
            total_files: found.len() as u64,
        },
    )
}

/// On providers whose answers do not change and on which every change goes
/// well, the copy of a source that is not cancelled ends well, and makes at the
/// target all that lies at and below the source, each directory before what
/// lies in it; it tells of each entry that it made.
pub proof fn law_tree_is_copied(
    world: Still,
    schemes: Schemes,
    source: UriView,
    dest_dir: UriView,
    opts: CopyOpts,
    dest: UriView,
    from: usize,
    to: usize,
    depth: nat,
    found: Seq<(UriView, StatView)>,
)
    requires
        planned_copy(schemes, source, dest_dir) == Ok::<(UriView, usize, usize), ErrorView>(
            (dest, from, to),
        ),
        preorder(world, source, depth) == Some(
            Ok::<Seq<(UriView, StatView)>, ErrorView>(found),
        ),
        bytes_from(found, 0) <= u64::MAX,
        found.len() <= u64::MAX,
        !source.same_place(dest) || !world.caps.copy_within,
        targets_are_free(tree_copy(source, dest, from, to, found, opts), world),
    ensures
        exists|n: nat|
            {
                let (end, told) = #[trigger] copy_run(
                    world,
                    schemes,
                    CopyView::start(seq![source], dest_dir, opts),
                    n,
                );
                &&& end.advanced(schemes, false) == (end, ActionView::Done)
                &&& end.out == seq![outcome(source, Ok(()))]
                &&& end.tally.complete()
                &&& told == told_of_entries(
                    tree_copy(source, dest, from, to, found, opts).at(OnePhaseView::Entry),
                )
            },
{
    reveal_with_fuel(copy_run, 2);
    let none = Seq::<EffectView>::empty();
    assert(none + none =~= none);
    let start = CopyView::start(seq![source], dest_dir, opts);
    // The source is planned.
    let walking = CopyView {
        stage: StageView::Walking { dest, from, to, walk: WalkView::start(from, source) },
        ..start
    };
    assert(copy_run(world, schemes, start, 1) == (walking, none));
    // It is walked through.
    let a = lemma_walk_gathers(world, from, source, depth, found);
    lemma_walking(world, schemes, walking, a);
    let walked = copy_run(world, schemes, walking, a).0;
    lemma_run_on(world, schemes, start, 1, a);
    // The plan is added, and its copy begins.
    let one = tree_copy(source, dest, from, to, found, opts);
    let planned = walking.added(dest, from, to, found);
    assert(walked.advanced(schemes, false) == (planned, ActionView::Again));
    assert(planned.plans =~= seq![one.plan]);
    let copying = CopyView {
        plans: Seq::empty(),
        stage: StageView::Copying(one),
        ..planned
    };
    assert(planned.plans.drop_first() =~= Seq::<PlanView>::empty());
    assert(planned.advanced(schemes, false) == (copying, ActionView::Again));
    assert(copy_run(world, schemes, walked, 1) == (planned, none));
    assert(copy_run(world, schemes, planned, 1) == (copying, none));
    lemma_run_on(world, schemes, start, 1 + a, 1);
    lemma_run_on(world, schemes, start, 1 + a + 1, 1);
    // Every entry is made.
    assert(one.wf());
    let b = lemma_copy_makes_entries(one, world);
    lemma_copying(world, schemes, copying, b);
    let (made, told) = copy_run(world, schemes, copying, b);
    lemma_run_on(world, schemes, start, 1 + a + 2, b);
    assert(none + told =~= told);
    // The outcome is told.
    let last = good_run(one, world, b).0;
    let end = made.settled(last.at(OnePhaseView::Ended(Ok(()))), Ok(()));
    assert(made.advanced(schemes, false) == (end, ActionView::Again));
    assert(copy_run(world, schemes, made, 1) == (end, none));
    lemma_run_on(world, schemes, start, 1 + a + 2 + b, 1);
    assert(told + none =~= told);
    assert(end.out =~= seq![outcome(source, Ok(()))]);
    lemma_tally(world, one, b);
    let n = 1 + a + 2 + b + 1;
    assert(copy_run(world, schemes, start, n) == (end, told));
}

/// What is done and what is left make up what there is, on the whole way.
proof fn lemma_tally(world: Still, one: OneView, n: nat)
    requires
        one.wf(),
        one.ready(),
    ensures
        ({
            let end = good_run(one, world, n).0;
            &&& end.tally.total_bytes == one.tally.total_bytes
            &&& end.tally.total_files == one.tally.total_files
            &&& end.tally.done_bytes + end.bytes_left() == one.tally.done_bytes + one.bytes_left()
            &&& end.tally.done_files + end.files_left() == one.tally.done_files + one.files_left()
        }),
    decreases n,
{
    if n > 0 {
        let (asked, action) = one.advanced(false);
        let (next, told) = match action {
            ActionView::Call(call) => asked.resumed(world.reply(call.request)),
            _ => (asked, Seq::empty()),
        };
        assert(asked.wf());
        assert(next.wf() && next.ready() && next.tally.total_bytes == one.tally.total_bytes
            && next.tally.total_files == one.tally.total_files && next.tally.done_bytes
            + next.bytes_left() == one.tally.done_bytes + one.bytes_left() && next.tally.done_files
            + next.files_left() == one.tally.done_files + one.files_left()) by {
            reveal_with_fuel(bytes_from, 2);
        }
        lemma_tally(world, next, (n - 1) as nat);
    }
}

} // verus!
