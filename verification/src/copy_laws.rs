//! What holds of the copy of many sources as a whole.
use vstd::multiset::Multiset;
use vstd::prelude::*;
use crate::copy::{all_ok, planned_copy, CopyView, StageView};
use crate::copy_one::{OnePhaseView, PlanView};
use crate::engine::Schemes;
use crate::error::ErrorView;
use crate::provider::{answers, EffectView, ReplyView};
use crate::types::{outcome, OutcomeView, StatView};
use crate::uri::UriView;
use crate::walk::WalkPhaseView;

verus! {

/// The sources of outcomes.
pub open spec fn outcome_sources(out: Seq<OutcomeView>) -> Seq<UriView> {
    out.map_values(|o: OutcomeView| o.source)
}

/// The sources of plans.
pub open spec fn plan_sources(plans: Seq<PlanView>) -> Seq<UriView> {
    plans.map_values(|p: PlanView| p.source)
}

/// The source that is being copied.
pub open spec fn source_in_hand(v: CopyView) -> Multiset<UriView> {
    match v.stage {
        StageView::Copying(one) => Multiset::singleton(one.plan.source),
        _ => Multiset::empty(),
    }
}

/// Each source that was dealt with so far has its outcome, is being copied, or
/// waits for its copy, as often as it was named.
pub open spec fn accounted(v: CopyView) -> bool {
    v.sources.take(v.planned as int).to_multiset() =~= outcome_sources(
        v.out,
    ).to_multiset().add(plan_sources(v.plans).to_multiset()).add(source_in_hand(v))
}

proof fn lemma_push_source(s: Seq<UriView>, u: UriView)
    ensures
        s.push(u).to_multiset() =~= s.to_multiset().insert(u),
{
    broadcast use vstd::seq_lib::group_to_multiset_ensures;

}

proof fn lemma_take_first(s: Seq<UriView>)
    requires
        s.len() > 0,
    ensures
        s.to_multiset() =~= s.drop_first().to_multiset().insert(s[0]),
{
    broadcast use vstd::seq_lib::group_to_multiset_ensures;

    assert(s =~= seq![s[0]] + s.drop_first());
    vstd::seq_lib::lemma_multiset_commutative(seq![s[0]], s.drop_first());
    assert(seq![s[0]] =~= Seq::<UriView>::empty().push(s[0]));
    lemma_push_source(Seq::empty(), s[0]);
}

proof fn lemma_take_next(sources: Seq<UriView>, n: int)
    requires
        0 <= n < sources.len(),
    ensures
        sources.take(n + 1).to_multiset() =~= sources.take(n).to_multiset().insert(sources[n]),
{
    assert(sources.take(n + 1) =~= sources.take(n).push(sources[n]));
    lemma_push_source(sources.take(n), sources[n]);
}

proof fn lemma_told(out: Seq<OutcomeView>, o: OutcomeView)
    ensures
        outcome_sources(out.push(o)).to_multiset() =~= outcome_sources(out).to_multiset().insert(
            o.source,
        ),
{
    assert(outcome_sources(out.push(o)) =~= outcome_sources(out).push(o.source));
    lemma_push_source(outcome_sources(out), o.source);
}

/// A copy that begins accounts for its sources, and every step keeps the
/// account; at its end each source has one outcome, as often as it was named.
pub proof fn law_every_source_has_one_outcome(
    v: CopyView,
    schemes: Schemes,
    cancelled: bool,
    reply: ReplyView,
)
    requires
        v.wf(),
    ensures
        v.planned == 0 && v.stage is Planning ==> accounted(v),
        accounted(v) && v.ready() ==> accounted(v.advanced(schemes, cancelled).0),
        accounted(v) && !v.ready() && answers(reply, v.request()) ==> accounted(
            v.resumed(reply).0,
        ),
        accounted(v) && v.ready() && v.advanced(schemes, cancelled).1 is Done ==> outcome_sources(
            v.out,
        ).to_multiset() =~= v.sources.to_multiset(),
{
    broadcast use vstd::seq_lib::group_to_multiset_ensures;

    if v.planned == 0 && v.stage is Planning {
        assert(v.sources.take(0) =~= Seq::<UriView>::empty());
        assert(outcome_sources(v.out) =~= Seq::<UriView>::empty());
        assert(plan_sources(v.plans) =~= Seq::<UriView>::empty());
    }
    if accounted(v) && v.ready() {
        let next = v.advanced(schemes, cancelled).0;
        let source = v.sources[v.planned as int];
        match v.stage {
            StageView::Planning => {
                if v.planned < v.sources.len() {
                    if let Err(e) = planned_copy(schemes, source, v.dest_dir) {
                        lemma_take_next(v.sources, v.planned as int);
                        lemma_told(v.out, outcome(source, Err(e)));
                    }
                } else if v.plans.len() > 0 {
                    let all = plan_sources(v.plans);
                    lemma_take_first(all);
                    assert(plan_sources(v.plans.drop_first()) =~= all.drop_first());
                } else {
                    assert(v.sources.take(v.planned as int) =~= v.sources);
                    assert(plan_sources(v.plans) =~= Seq::<UriView>::empty());
                }
            },
            StageView::Walking { dest, from, to, walk } => {
                let w = walk.advanced(cancelled).0;
                match w.phase {
                    WalkPhaseView::Ended(Ok(())) => {
                        let plan = PlanView { source, dest, from, to, entries: w.out };
                        lemma_take_next(v.sources, v.planned as int);
                        assert(plan_sources(v.plans.push(plan)) =~= plan_sources(v.plans).push(
                            source,
                        ));
                        lemma_push_source(plan_sources(v.plans), source);
                    },
                    WalkPhaseView::Ended(Err(e)) => {
                        lemma_take_next(v.sources, v.planned as int);
                        lemma_told(v.out, outcome(source, Err(e)));
                    },
                    _ => {},
                }
            },
            StageView::Copying(one) => {
                let o = one.advanced(cancelled).0;
                assert(o.plan == one.plan);
                if let OnePhaseView::Ended(r) = o.phase {
                    lemma_told(v.out, outcome(one.plan.source, r));
                }
            },
        }
    }
}

/// The sources with the mark, in order.
pub open spec fn marked(sources: Seq<UriView>, marks: Seq<bool>, mark: bool) -> Seq<UriView>
    decreases marks.len(),
{
    if marks.len() == 0 {
        Seq::empty()
    } else {
        let before = marked(sources, marks.drop_last(), mark);
        if marks.last() == mark {
            before.push(sources[marks.len() - 1])
        } else {
            before
        }
    }
}

/// The sources as the copy deals with them: those that were refused in
/// planning, in order, then those that were planned, in order.
pub open spec fn refused_then_planned(sources: Seq<UriView>, marks: Seq<bool>) -> Seq<UriView> {
    marked(sources, marks, false) + marked(sources, marks, true)
}

/// The sources of the outcomes, then that of the copy in hand, then those of
/// the plans that wait.
pub open spec fn in_turn(v: CopyView) -> Seq<UriView> {
    let told = outcome_sources(v.out);
    let waiting = plan_sources(v.plans);
    match v.stage {
        StageView::Copying(one) => told.push(one.plan.source) + waiting,
        _ => told + waiting,
    }
}

/// `marks` says of each source that was dealt with whether it was planned; the
/// copy takes the sources in turn, the refused before the planned, and the
/// outcomes of the refused are failures.
pub open spec fn in_order(v: CopyView, marks: Seq<bool>) -> bool {
    &&& marks.len() == v.planned
    &&& in_turn(v) == refused_then_planned(v.sources, marks)
    &&& marked(v.sources, marks, false).len() <= v.out.len()
    &&& v.planned < v.sources.len() ==> v.out.len() == marked(v.sources, marks, false).len()
    &&& forall|i: int|
        0 <= i < marked(v.sources, marks, false).len() ==> !(#[trigger] v.out[i]).ok
}

/// The marks after a step: one more where the step dealt with a source.
pub open spec fn marks_after(v: CopyView, next: CopyView, marks: Seq<bool>) -> Seq<bool> {
    if next.planned > v.planned {
        marks.push(next.plans.len() > v.plans.len())
    } else {
        marks
    }
}

proof fn lemma_marked_push(sources: Seq<UriView>, marks: Seq<bool>, m: bool)
    ensures
        marked(sources, marks.push(m), m) == marked(sources, marks, m).push(
            sources[marks.len() as int],
        ),
        marked(sources, marks.push(m), !m) == marked(sources, marks, !m),
{
    assert(marks.push(m).drop_last() =~= marks);
}

/// While sources are planned, the outcomes are those of the refused and the
/// plans those of the others.
proof fn lemma_planning(v: CopyView, marks: Seq<bool>)
    requires
        v.wf(),
        in_order(v, marks),
        v.planned < v.sources.len(),
    ensures
        outcome_sources(v.out) == marked(v.sources, marks, false),
        plan_sources(v.plans) == marked(v.sources, marks, true),
{
    let told = outcome_sources(v.out);
    let waiting = plan_sources(v.plans);
    let refused = marked(v.sources, marks, false);
    let planned = marked(v.sources, marks, true);
    assert(told + waiting == refused + planned);
    assert(told =~= (told + waiting).take(told.len() as int));
    assert(refused =~= (refused + planned).take(told.len() as int));
    assert(waiting =~= (told + waiting).skip(told.len() as int));
    assert(planned =~= (refused + planned).skip(told.len() as int));
}

proof fn lemma_refused_in_order(v: CopyView, e: ErrorView, marks: Seq<bool>)
    requires
        v.wf(),
        in_order(v, marks),
        v.planned < v.sources.len(),
    ensures
        in_order(v.refused(e), marks.push(false)),
{
    let source = v.sources[v.planned as int];
    let next = v.refused(e);
    lemma_planning(v, marks);
    lemma_marked_push(v.sources, marks, false);
    assert(outcome_sources(next.out) =~= outcome_sources(v.out).push(source));
    assert forall|i: int|
        0 <= i < marked(v.sources, marks.push(false), false).len() implies !(
    #[trigger] next.out[i]).ok by {
        if i < v.out.len() {
            assert(next.out[i] == v.out[i]);
        }
    }
}

proof fn lemma_added_in_order(
    v: CopyView,
    dest: UriView,
    from: usize,
    to: usize,
    entries: Seq<(UriView, StatView)>,
    marks: Seq<bool>,
)
    requires
        v.wf(),
        in_order(v, marks),
        v.planned < v.sources.len(),
    ensures
        in_order(v.added(dest, from, to, entries), marks.push(true)),
{
    let source = v.sources[v.planned as int];
    let next = v.added(dest, from, to, entries);
    lemma_planning(v, marks);
    lemma_marked_push(v.sources, marks, true);
    assert(plan_sources(next.plans) =~= plan_sources(v.plans).push(source));
    assert(in_turn(next) =~= refused_then_planned(v.sources, marks.push(true)));
}

/// The outcomes keep the order of the sources: first come those of the sources
/// that were refused in planning, in the order of the sources and all of them
/// failures, then those of the sources that were copied, in the order of the
/// sources.  A copy that begins is in this order with no source marked, every
/// step keeps it, and at the end it is that of the outcomes.
pub proof fn law_outcomes_keep_the_order_of_the_sources(
    v: CopyView,
    marks: Seq<bool>,
    schemes: Schemes,
    cancelled: bool,
    reply: ReplyView,
)
    requires
        v.wf(),
    ensures
        v.planned == 0 && v.stage is Planning ==> in_order(v, Seq::empty()),
        in_order(v, marks) && v.ready() ==> in_order(
            v.advanced(schemes, cancelled).0,
            marks_after(v, v.advanced(schemes, cancelled).0, marks),
        ),
        in_order(v, marks) && !v.ready() && answers(reply, v.request()) ==> in_order(
            v.resumed(reply).0,
            marks,
        ),
        in_order(v, marks) && v.ready() && v.advanced(schemes, cancelled).1 is Done
            ==> marks.len() == v.sources.len() && outcome_sources(v.out) == refused_then_planned(
            v.sources,
            marks,
        ),
{
    if v.planned == 0 && v.stage is Planning {
        assert(in_turn(v) =~= Seq::<UriView>::empty());
        assert(refused_then_planned(v.sources, Seq::empty()) =~= Seq::<UriView>::empty());
    }
    if in_order(v, marks) && v.ready() {
        let next = v.advanced(schemes, cancelled).0;
        match v.stage {
            StageView::Planning => {
                if v.planned < v.sources.len() {
                    let source = v.sources[v.planned as int];
                    if let Err(e) = planned_copy(schemes, source, v.dest_dir) {
                        lemma_refused_in_order(v, e, marks);
                    } else {
                        assert(in_turn(next) =~= in_turn(v));
                    }
                } else if v.plans.len() > 0 {
                    assert(plan_sources(v.plans.drop_first()) =~= plan_sources(
                        v.plans,
                    ).drop_first());
                    assert(in_turn(next) =~= in_turn(v));
                } else {
                    assert(plan_sources(v.plans) =~= Seq::<UriView>::empty());
                    assert(in_turn(v) =~= outcome_sources(v.out));
                }
            },
            StageView::Walking { dest, from, to, walk } => {
                let w = walk.advanced(cancelled).0;
                match w.phase {
                    WalkPhaseView::Ended(Ok(())) => {
                        lemma_added_in_order(v, dest, from, to, w.out, marks);
                    },
                    WalkPhaseView::Ended(Err(e)) => {
                        lemma_refused_in_order(v, e, marks);
                    },
                    _ => {
                        assert(in_turn(next) =~= in_turn(v));
                    },
                }
            },
            StageView::Copying(one) => {
                let o = one.advanced(cancelled).0;
                assert(o.plan == one.plan);
                if let OnePhaseView::Ended(r) = o.phase {
                    assert(outcome_sources(next.out) =~= outcome_sources(v.out).push(
                        one.plan.source,
                    ));
                    assert(in_turn(next) =~= in_turn(v));
                    assert forall|i: int|
                        0 <= i < marked(v.sources, marks, false).len() implies !(
                    #[trigger] next.out[i]).ok by {
                        assert(next.out[i] == v.out[i]);
                    }
                } else {
                    assert(in_turn(next) =~= in_turn(v));
                }
            },
        }
    }
    if in_order(v, marks) && !v.ready() && answers(reply, v.request()) {
        assert(in_turn(v.resumed(reply).0) =~= in_turn(v));
    }
}

/// When all went well, everything that there was to copy was counted: the last
/// report of the copy is due.
pub proof fn law_good_copy_is_complete(v: CopyView, schemes: Schemes, cancelled: bool)
    requires
        v.wf(),
        v.advanced(schemes, cancelled).1 is Done,
        v.ready(),
        all_ok(v.out),
    ensures
        v.tally.complete(),
        v.tally.done_bytes == v.tally.total_bytes,
        v.tally.done_files == v.tally.total_files,
{
}

/// No report tells of more than there is to copy.
pub proof fn law_progress_is_within_the_totals(v: CopyView, reply: ReplyView, i: int)
    requires
        v.wf(),
        !v.ready(),
        answers(reply, v.request()),
        0 <= i < v.resumed(reply).1.len(),
    ensures
        v.resumed(reply).1[i] matches EffectView::Progress(tally, _) ==> tally.done_bytes
            <= tally.total_bytes && tally.done_files <= tally.total_files,
{
    reveal_with_fuel(crate::copy_one::bytes_from, 2);
}

} // verus!
