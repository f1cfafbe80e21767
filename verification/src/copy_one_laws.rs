//! What holds of the copy of one source from its beginning to its end.
use vstd::prelude::*;
use crate::copy_one::{made, OnePhaseView, OneView};
use crate::error::ErrorView;
use crate::provider::{ActionView, EffectView, ReplyView};
use crate::types::FileType;
use crate::uri::UriView;
use crate::walk::Still;

verus! {

/// The copy of a source after `n` rounds with the answers of the providers,
/// not cancelled, and what was told on the way.
pub open spec fn good_run(one: OneView, world: Still, n: nat) -> (OneView, Seq<EffectView>)
    decreases n,
{
    if n == 0 {
        (one, Seq::empty())
    } else {
        let (asked, action) = one.advanced(false);
        let (next, told) = match action {
            ActionView::Call(call) => asked.resumed(world.reply(call.request)),
            _ => (asked, Seq::empty()),
        };
        let (end, more) = good_run(next, world, (n - 1) as nat);
        (end, told + more)
    }
}

/// Every entry from the one in hand on has a target, and where targets must not
/// be overwritten none is there.
pub open spec fn targets_are_free(one: OneView, world: Still) -> bool {
    forall|i: int|
        one.next <= i < one.plan.entries.len() ==> {
            &&& (#[trigger] target_of(one, i)) is Ok
            &&& one.opts.overwrite || (world.stat)(target_of(one, i)->Ok_0) is Err
        }
}

/// The target of the `i`th entry.
pub open spec fn target_of(one: OneView, i: int) -> Result<UriView, ErrorView> {
    OneView { next: i as nat, ..one }.target()
}

/// What is told when each entry from the one in hand on is made at its target.
pub open spec fn told_of_entries(one: OneView) -> Seq<EffectView>
    decreases one.plan.entries.len() - one.next,
{
    if one.next >= one.plan.entries.len() {
        Seq::empty()
    } else {
        let u = one.target()->Ok_0;
        seq![made(u), EffectView::Progress(one.counted().tally, u)] + told_of_entries(
            one.counted(),
        )
    }
}

/// Rounds in a row.
pub proof fn lemma_run_on(one: OneView, world: Still, a: nat, b: nat)
    ensures
        ({
            let (mid, told) = good_run(one, world, a);
            let (end, more) = good_run(mid, world, b);
            good_run(one, world, a + b) == (end, told + more)
        }),
    decreases a,
{
    if a == 0 {
        let (end, more) = good_run(one, world, b);
        assert(Seq::<EffectView>::empty() + more =~= more);
    } else {
        let (asked, action) = one.advanced(false);
        let (next, told) = match action {
            ActionView::Call(call) => asked.resumed(world.reply(call.request)),
            _ => (asked, Seq::empty()),
        };
        lemma_run_on(next, world, (a - 1) as nat, b);
        let (mid, m1) = good_run(next, world, (a - 1) as nat);
        let (end, m2) = good_run(mid, world, b);
        assert((a - 1) as nat + b == (a + b - 1) as nat);
        assert(told + (m1 + m2) =~= (told + m1) + m2);
    }
}

/// One entry is made at its target in a few rounds.
proof fn lemma_entry(one: OneView, world: Still) -> (n: nat)
    requires
        one.wf(),
        one.phase is Entry,
        one.next < one.plan.entries.len(),
        one.target() is Ok,
        one.opts.overwrite || (world.stat)(one.target()->Ok_0) is Err,
    ensures
        good_run(one, world, n) == (
            one.counted(),
            seq![
                made(one.target()->Ok_0),
                EffectView::Progress(one.counted().tally, one.target()->Ok_0),
            ],
        ),
{
    reveal_with_fuel(good_run, 4);
    let u = one.target()->Ok_0;
    let told = seq![made(u), EffectView::Progress(one.counted().tally, u)];
    let none = Seq::<EffectView>::empty();
    assert(told + none =~= told);
    assert(none + told =~= told);
    assert(none + (told + none) =~= told);
    assert(none + (none + (told + none)) =~= told);
    if one.entry().1.file_type == FileType::Directory {
        1
    } else if one.opts.overwrite {
        2
    } else {
        3
    }
}

/// The entries are made one after the other; then the copy stands before its
/// end.
pub proof fn lemma_entries(one: OneView, world: Still) -> (n: nat)
    requires
        one.wf(),
        one.phase is Entry,
        targets_are_free(one, world),
    ensures
        good_run(one, world, n).0.phase is Entry,
        good_run(one, world, n).0.wf(),
        good_run(one, world, n).0.next == one.plan.entries.len(),
        good_run(one, world, n).0.plan == one.plan,
        good_run(one, world, n).1 == told_of_entries(one),
    decreases one.plan.entries.len() - one.next,
{
    if one.next >= one.plan.entries.len() {
        0
    } else {
        assert(target_of(one, one.next as int) is Ok);
        assert((OneView { next: one.next, ..one }) == one);
        let a = lemma_entry(one, world);
        let next = one.counted();
        assert(next.wf()) by {
            reveal_with_fuel(crate::copy_one::bytes_from, 2);
        }
        assert forall|i: int| next.next <= i < next.plan.entries.len() implies {
            &&& (#[trigger] target_of(next, i)) is Ok
            &&& next.opts.overwrite || (world.stat)(target_of(next, i)->Ok_0) is Err
        } by {
            assert(target_of(one, i) is Ok);
            assert(target_of(next, i) == target_of(one, i));
        }
        let b = lemma_entries(next, world);
        lemma_run_on(one, world, a, b);
        a + b
    }
}

/// The copy of a source comes to stand before its end with every entry made.
pub proof fn lemma_copy_makes_entries(one: OneView, world: Still) -> (n: nat)
    requires
        one.wf(),
        one.phase is Start,
        !one.plan.source.same_place(one.plan.dest) || !world.caps.copy_within,
        targets_are_free(one, world),
    ensures
        good_run(one, world, n).0.phase is Entry,
        good_run(one, world, n).0.wf(),
        good_run(one, world, n).0.next == one.plan.entries.len(),
        good_run(one, world, n).0.plan == one.plan,
        good_run(one, world, n).1 == told_of_entries(one.at(OnePhaseView::Entry)),
{
    reveal_with_fuel(good_run, 3);
    let entry = one.at(OnePhaseView::Entry);
    assert forall|i: int| entry.next <= i < entry.plan.entries.len() implies {
        &&& (#[trigger] target_of(entry, i)) is Ok
        &&& entry.opts.overwrite || (world.stat)(target_of(entry, i)->Ok_0) is Err
    } by {
        assert(target_of(one, i) is Ok);
        assert(target_of(entry, i) == target_of(one, i));
    }
    let n = lemma_entries(entry, world);
    let none = Seq::<EffectView>::empty();
    assert(none + none =~= none);
    assert(good_run(one, world, 1) == (entry, none));
    lemma_run_on(one, world, 1, n);
    assert(none + told_of_entries(entry) =~= told_of_entries(entry));
    1 + n
}

/// Between two providers on which everything goes well, the copy of a source
/// ends well and makes every entry at its target, in the order of the walk;
/// of each it is told that it was made and how far the copy has come.
pub proof fn law_good_copy_makes_every_entry(one: OneView, world: Still)
    requires
        one.wf(),
        one.phase is Start,
        !one.plan.source.same_place(one.plan.dest) || !world.caps.copy_within,
        targets_are_free(one, world),
    ensures
        exists|n: nat|
            {
                let (end, told) = #[trigger] good_run(one, world, n);
                &&& end.phase matches OnePhaseView::Ended(r) && r is Ok
                &&& end.next == one.plan.entries.len()
                &&& told == told_of_entries(one.at(OnePhaseView::Entry))
            },
{
    reveal_with_fuel(good_run, 2);
    let n = lemma_copy_makes_entries(one, world);
    lemma_run_on(one, world, n, 1);
    let (last, told) = good_run(one, world, n);
    assert(told + (Seq::<EffectView>::empty() + Seq::<EffectView>::empty()) =~= told);
    let (end, all) = good_run(one, world, n + 1);
    assert(end == last.advanced(false).0);
}

/// Where the provider copies by itself, it is asked to once, and the target is
/// told of.
pub proof fn law_copy_within_is_one_call(one: OneView, world: Still)
    requires
        one.wf(),
        one.phase is Start,
        one.plan.source.same_place(one.plan.dest),
        world.caps.copy_within,
    ensures
        good_run(one, world, 2) == (
            one.at(OnePhaseView::CopyingWithin).counted_all(),
            seq![
                EffectView::Progress(one.counted_all().tally, one.plan.dest),
                made(one.plan.dest),
            ],
        ),
{
    reveal_with_fuel(good_run, 3);
    let none = Seq::<EffectView>::empty();
    let told = seq![
        EffectView::Progress(one.counted_all().tally, one.plan.dest),
        made(one.plan.dest),
    ];
    assert(none + (told + none) =~= told);
}

/// Where the provider says that it does not copy by itself after all, the
/// entries are copied one after the other.
pub proof fn law_refused_fast_path_falls_back(one: OneView, capability: Seq<char>)
    requires
        one.phase is CopyingWithin,
    ensures
        one.resumed(ReplyView::Unit(Err(ErrorView::NotSupported { capability }))) == (
            one.at(OnePhaseView::Entry),
            Seq::<EffectView>::empty(),
        ),
{
}

/// A copy that is over stays over, and tells nothing more.
pub proof fn lemma_ended_copy_stays(one: OneView, world: Still, n: nat)
    requires
        one.phase is Ended,
    ensures
        good_run(one, world, n) == (one, Seq::<EffectView>::empty()),
    decreases n,
{
    if n > 0 {
        lemma_ended_copy_stays(one, world, (n - 1) as nat);
        assert(Seq::<EffectView>::empty() + Seq::<EffectView>::empty() =~= Seq::<
            EffectView,
        >::empty());
    }
}

} // verus!
