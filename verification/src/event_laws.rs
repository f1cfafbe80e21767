//! What a client hears of the changes that were sent, call by call.
use vstd::prelude::*;
use crate::events::{
    absorbed, coalesce, coalesced, deepest, firsts, fitted, folded, merged, roots, told_dirs,
    BusAction, BusInput, EventBatch, COALESCE_WINDOW_MS, FULL_BATCH_SIZE, MAX_BATCH_SIZE,
};
use crate::types::{event_views, EventView, FsEvent, FsEventKind};
use crate::uri::UriView;

verus! {

/// The numbers of a batch: how long it waits, how many events a client is told
/// at most, and at how many it is closed before its time.
pub proof fn law_numbers_of_a_batch()
    ensures
        COALESCE_WINDOW_MS == 50,
        MAX_BATCH_SIZE == 500,
        FULL_BATCH_SIZE == 1000,
{
}

/// `i` is the first place that tells of the creation of the uri.
pub open spec fn is_first_creation(told: Seq<EventView>, uri: UriView, i: int) -> bool {
    &&& 0 <= i < told.len()
    &&& told[i].kind == FsEventKind::Created && told[i].uri == uri
    &&& forall|j: int|
        0 <= j < i ==> !((#[trigger] told[j]).kind == FsEventKind::Created && told[j].uri == uri)
}

/// What one more event does to what is told: nothing where it was told already;
/// else it is told last, and where it is a removal the first creation of the
/// same uri is not told any more.
pub proof fn law_one_more_event(
    events: Vec<FsEvent>,
    told: Vec<FsEvent>,
    more: Vec<FsEvent>,
    now: Vec<FsEvent>,
    e: EventView,
    i: int,
)
    requires
        call_ensures(coalesce, (events,), told),
        call_ensures(coalesce, (more,), now),
        events@.len() < 500,
        event_views(more@) == event_views(events@).push(e),
    ensures
        ({
            let before = event_views(told@);
            let after = event_views(now@);
            &&& before.contains(e) ==> after == before
            &&& !before.contains(e) && e.kind != FsEventKind::Removed ==> after == before.push(e)
            &&& !before.contains(e) && e.kind == FsEventKind::Removed && is_first_creation(
                before,
                e.uri,
                i,
            ) ==> after == before.remove(i).push(e)
            &&& !before.contains(e) && e.kind == FsEventKind::Removed && (forall|j: int|
                !is_first_creation(before, e.uri, j)) ==> after == before.push(e)
        }),
{
    let views = event_views(events@);
    assert(views.len() == events@.len());
    assert(views.push(e).drop_last() =~= views);
    let before = merged(views);
    assert(merged(views.push(e)) == absorbed(before, e));
    if is_first_creation(before, e.uri, i) {
        assert(crate::events::first_creation(before, e.uri, i)) by {
            assert forall|j: int| 0 <= j < i implies !crate::events::creates(before[j], e.uri) by {
                assert(!(before[j].kind == FsEventKind::Created && before[j].uri == e.uri));
            }
        }
        crate::events::lemma_first_creation_unique(before, e.uri, i);
    }
    if forall|j: int| !is_first_creation(before, e.uri, j) {
        assert forall|j: int| !crate::events::first_creation(before, e.uri, j) by {
            if crate::events::first_creation(before, e.uri, j) {
                assert forall|k: int| 0 <= k < j implies !((#[trigger] before[k]).kind
                    == FsEventKind::Created && before[k].uri == e.uri) by {
                    assert(!crate::events::creates(before[k], e.uri));
                }
                assert(is_first_creation(before, e.uri, j));
            }
        }
    }
}

/// Of no event, none is told; an event on its own is told as it is.
pub proof fn law_short_batches(events: Vec<FsEvent>, told: Vec<FsEvent>)
    requires
        call_ensures(coalesce, (events,), told),
    ensures
        events@.len() == 0 ==> told@.len() == 0,
        events@.len() == 1 ==> told@.len() == 1 && told@[0]@ == events@[0]@,
        events@.len() > 0 ==> told@.len() > 0 || events@.len() > 500,
        told@.len() <= 500,
{
    let views = event_views(events@);
    let out = event_views(told@);
    assert(out.len() == told@.len());
    assert(views.len() == events@.len());
    if events@.len() == 1 {
        let e = views[0];
        assert(views.drop_last() =~= Seq::<EventView>::empty());
        reveal_with_fuel(merged, 2);
        assert(merged(views.drop_last()) =~= Seq::<EventView>::empty());
        assert(forall|i: int| !crate::events::first_creation(Seq::<EventView>::empty(), e.uri, i));
        assert(out =~= seq![e]);
        assert(out[0] == told@[0]@);
        assert(views[0] == events@[0]@);
    }
    if 0 < events@.len() <= 500 {
        assert(views.contains(views[0]));
        crate::events::law_every_uri_is_told(views, views[0]);
    }
}

/// The directory of an event: the one that holds its uri, or the uri itself
/// where that is a top directory.
pub open spec fn is_directory_of(e: EventView, dir: UriView) -> bool {
    &&& dir.scheme == e.uri.scheme && dir.authority == e.uri.authority
    &&& e.uri.segments.len() == 0 ==> dir.segments == e.uri.segments
    &&& e.uri.segments.len() > 0 ==> dir.segments == e.uri.segments.take(
        e.uri.segments.len() - 1,
    )
}

/// One more event adds its directory behind the others, unless it is among them.
pub proof fn law_directories_in_order(events: Seq<EventView>, e: EventView, dir: UriView)
    requires
        is_directory_of(e, dir),
    ensures
        roots(Seq::empty()).len() == 0,
        roots(events).contains(dir) ==> roots(events.push(e)) == roots(events),
        !roots(events).contains(dir) ==> roots(events.push(e)) == roots(events).push(dir),
{
    assert(events.push(e).drop_last() =~= events);
    let root = crate::events::root_of(e);
    if e.uri.segments.len() > 0 {
        assert(e.uri.segments.drop_last() =~= e.uri.segments.take(e.uri.segments.len() - 1));
    }
    assert(root =~= dir);
}

/// Of more than five hundred events the client is told only in which
/// directories they took place: of all of them, in the order in which something
/// took place first, where they are no more than five hundred.
pub proof fn law_overflow_tells_directories(events: Vec<FsEvent>, told: Vec<FsEvent>, i: int)
    requires
        call_ensures(coalesce, (events,), told),
        events@.len() > 500,
        0 <= i < told@.len(),
    ensures
        told@[i].kind == FsEventKind::Overflow,
        told@[i].renamed_to is None,
        roots(event_views(events@)).len() <= 500 ==> told@.len() == roots(event_views(events@)).len()
            && told@[i].uri@ == roots(event_views(events@))[i],
{
    let views = event_views(events@);
    let out = event_views(told@);
    assert(views.len() == events@.len());
    assert(out.len() == told@.len());
    assert(out[i] == told@[i]@);
    assert(told@[i]@.renamed_to is Some == told@[i].renamed_to is Some);
    assert(out[i].uri == told_dirs(roots(views))[i]);
}

/// Where the directories are more, those that lie deepest are told by the ones
/// above them, down to the depth at which they fit; where not even the tops fit,
/// the first of those are told.
pub proof fn law_deep_directories_are_folded(dirs: Seq<UriView>, depth: nat)
    requires
        dirs.len() > 500,
    ensures
        folded(dirs, deepest(dirs)).len() <= 500 ==> told_dirs(dirs) == folded(dirs, deepest(dirs)),
        folded(dirs, depth).len() <= 500 && depth < deepest(dirs) && (forall|d: nat|
            depth < d <= deepest(dirs) ==> (#[trigger] folded(dirs, d)).len() > 500) ==> told_dirs(
            dirs,
        ) == folded(dirs, depth),
        (forall|d: nat| d <= deepest(dirs) ==> (#[trigger] folded(dirs, d)).len() > 500)
            ==> told_dirs(dirs) == folded(dirs, 0).take(500),
{
    if forall|d: nat| depth < d <= deepest(dirs) ==> (#[trigger] folded(dirs, d)).len() > 500 {
        if depth < deepest(dirs) && folded(dirs, depth).len() <= 500 {
            lemma_fits_at(dirs, deepest(dirs), depth);
        }
    }
    if forall|d: nat| d <= deepest(dirs) ==> (#[trigger] folded(dirs, d)).len() > 500 {
        lemma_never_fits(dirs, deepest(dirs));
    }
}

proof fn lemma_fits_at(dirs: Seq<UriView>, from: nat, depth: nat)
    requires
        depth <= from,
        forall|d: nat| depth < d <= from ==> (#[trigger] folded(dirs, d)).len() > 500,
        folded(dirs, depth).len() <= 500,
    ensures
        fitted(dirs, from) == folded(dirs, depth),
    decreases from,
{
    if from > depth {
        assert(folded(dirs, from).len() > 500);
        lemma_fits_at(dirs, (from - 1) as nat, depth);
    }
}

proof fn lemma_never_fits(dirs: Seq<UriView>, from: nat)
    requires
        forall|d: nat| d <= from ==> (#[trigger] folded(dirs, d)).len() > 500,
    ensures
        fitted(dirs, from) == folded(dirs, 0).take(500),
    decreases from,
{
    assert(folded(dirs, from).len() > 500);
    if from > 0 {
        lemma_never_fits(dirs, (from - 1) as nat);
    }
}

/// The uri with no more than so many of its segments.
pub open spec fn is_cut(u: UriView, depth: nat, c: UriView) -> bool {
    &&& c.scheme == u.scheme && c.authority == u.authority
    &&& u.segments.len() <= depth ==> c.segments == u.segments
    &&& u.segments.len() > depth ==> c.segments == u.segments.take(depth as int)
}

/// One more directory adds its fold behind the others, unless it is among them.
pub proof fn law_folds_in_order(dirs: Seq<UriView>, depth: nat, u: UriView, c: UriView)
    requires
        is_cut(u, depth, c),
    ensures
        folded(Seq::empty(), depth).len() == 0,
        folded(dirs, depth).contains(c) ==> folded(dirs.push(u), depth) == folded(dirs, depth),
        !folded(dirs, depth).contains(c) ==> folded(dirs.push(u), depth) == folded(
            dirs,
            depth,
        ).push(c),
        u.segments.len() <= deepest(dirs) ==> deepest(dirs.push(u)) == deepest(dirs),
        u.segments.len() > deepest(dirs) ==> deepest(dirs.push(u)) == u.segments.len(),
        deepest(Seq::empty()) == 0,
{
    let f = |x: UriView| x.cut(depth);
    assert(u.cut(depth) =~= c);
    assert(dirs.push(u).drop_last() =~= dirs);
    assert(dirs.push(u).map_values(f).drop_last() =~= dirs.map_values(f));
    assert(dirs.push(u).map_values(f).last() == c);
    assert(Seq::<UriView>::empty().map_values(f) =~= Seq::<UriView>::empty());
}

/// The first event of a batch opens its window; those that follow wait with it.
/// When the thousandth comes, when the window is over, and when nobody can send
/// any more, what waits is handed out, coalesced, and nothing waits then.  The
/// bus ends only when nobody can send and nothing waits.
pub proof fn law_bus_goes_on(
    batch: &mut EventBatch,
    input: BusInput,
    action: BusAction,
)
    requires
        call_ensures(EventBatch::step, (batch, input), action),
    ensures
        ({
            let waiting = old(batch)@;
            let hands_out = |all: Seq<EventView>|
                final(batch)@.len() == 0 && (action matches BusAction::Emit(told) && event_views(
                    told@,
                ) == coalesced(all));
            &&& input matches BusInput::Event(e) ==> {
                &&& waiting.len() == 0 ==> action is OpenWindow && final(batch)@ == seq![e@]
                &&& 0 < waiting.len() < 999 ==> action is Wait && final(batch)@ == waiting.push(e@)
                &&& waiting.len() >= 999 ==> hands_out(waiting.push(e@))
            }
            &&& input is Deadline ==> {
                &&& waiting.len() == 0 ==> action is Wait && final(batch)@.len() == 0
                &&& waiting.len() > 0 ==> hands_out(waiting)
            }
            &&& input is Closed ==> {
                &&& waiting.len() == 0 ==> action is Stop && final(batch)@.len() == 0
                &&& waiting.len() > 0 ==> hands_out(waiting)
            }
        }),
{
    assert(action@ is Emit == action is Emit);
    assert(action@ is Wait == action is Wait);
    assert(action@ is Stop == action is Stop);
    assert(action@ is OpenWindow == action is OpenWindow);
}

/// The bus hands out what coalescing the batch gives, and nothing waits at its
/// beginning.
pub proof fn law_bus_hands_out_the_coalesced(
    events: Vec<FsEvent>,
    told: Vec<FsEvent>,
    fresh: EventBatch,
)
    ensures
        call_ensures(coalesce, (events,), told) ==> event_views(told@) == coalesced(
            event_views(events@),
        ),
        call_ensures(EventBatch::new, (), fresh) ==> fresh@.len() == 0,
{
}

/// The uris that are told first stay first, each once.
pub proof fn law_first_occurrences(uris: Seq<UriView>, u: UriView)
    ensures
        firsts(Seq::empty()).len() == 0,
        firsts(uris).contains(u) ==> firsts(uris.push(u)) == firsts(uris),
        !firsts(uris).contains(u) ==> firsts(uris.push(u)) == firsts(uris).push(u),
{
    assert(uris.push(u).drop_last() =~= uris);
}

} // verus!
