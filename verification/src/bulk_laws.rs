//! What the steps of bulk operations do with what the client asked for: which
//! uris, options and providers their calls carry, and what is made of the
//! answers.
use vstd::prelude::*;
use crate::copy_one::{bytes_from, CopyOne, OnePhaseView, Plan};
use crate::error::{ErrorView, VfsError};
use crate::ops::Tally;
use crate::provider::{
    effect_views, Action, ActionView, CallView, Effect, EffectView, Reply, RequestView,
};
use crate::types::{CopyOpts, EventView, FileType, FsEventKind, Stat, StatView, WriteOpts};
use crate::uri::{graft, lemma_graft, suffix_of, UriView, VfsUri};

verus! {

/// The segment can stand in a uri: it is neither empty nor dots and holds no
/// slash.
pub open spec fn joinable(seg: Seq<char>) -> bool {
    seg.len() > 0 && seg != seq!['.'] && seg != seq!['.', '.'] && !seg.contains('/')
}

/// Each of the segments can stand in a uri.
pub open spec fn all_joinable(segments: Seq<Seq<char>>) -> bool {
    forall|i: int| 0 <= i < segments.len() ==> joinable(#[trigger] segments[i])
}

/// The segments of a uri after the first `n`; none where it has no more.
pub open spec fn segments_after(uri: UriView, n: nat) -> Seq<Seq<char>> {
    if n <= uri.segments.len() {
        uri.segments.skip(n as int)
    } else {
        Seq::empty()
    }
}

/// Segments are appended to a uri as they are where each can be joined, and
/// only there.
pub proof fn law_segments_are_appended(to: UriView, suffix: Seq<Seq<char>>)
    ensures
        graft(to, suffix) is Ok <==> all_joinable(suffix),
        graft(to, suffix) matches Ok(u) ==> u.scheme == to.scheme && u.authority == to.authority
            && u.segments == to.segments + suffix,
        graft(to, suffix) matches Err(e) ==> e is InvalidUri,
    decreases suffix.len(),
{
    lemma_graft(to, suffix);
    if suffix.len() > 0 {
        let prev = suffix.drop_last();
        law_segments_are_appended(to, prev);
        if graft(to, suffix) is Ok {
            assert forall|i: int| 0 <= i < suffix.len() implies joinable(#[trigger] suffix[i]) by {
                if i < prev.len() {
                    assert(prev[i] == suffix[i]);
                    assert(joinable(prev[i]));
                }
            }
        } else if graft(to, prev) is Ok {
            assert(!joinable(suffix[suffix.len() - 1]));
        } else {
            let i = choose|i: int| 0 <= i < prev.len() && !joinable(#[trigger] prev[i]);
            assert(suffix[i] == prev[i]);
        }
    }
}

/// The bytes of entries in a row add up, and those of one entry are its size.
pub proof fn law_bytes_add_up(
    a: Seq<(UriView, StatView)>,
    b: Seq<(UriView, StatView)>,
    x: (UriView, StatView),
)
    ensures
        bytes_from(a + b, 0) == bytes_from(a, 0) + bytes_from(b, 0),
        bytes_from(seq![x], 0) == x.1.size,
        bytes_from(Seq::<(UriView, StatView)>::empty(), 0) == 0,
{
    reveal_with_fuel(bytes_from, 2);
    lemma_bytes_of_two(a, b, 0);
}

proof fn lemma_bytes_of_two(a: Seq<(UriView, StatView)>, b: Seq<(UriView, StatView)>, i: nat)
    requires
        i <= a.len(),
    ensures
        bytes_from(a + b, i) == bytes_from(a, i) + bytes_from(b, 0),
    decreases a.len() - i,
{
    if i < a.len() {
        lemma_bytes_of_two(a, b, i + 1);
    } else {
        lemma_bytes_of_tail(a, b, 0);
    }
}

proof fn lemma_bytes_of_tail(a: Seq<(UriView, StatView)>, b: Seq<(UriView, StatView)>, j: nat)
    requires
        j <= b.len(),
    ensures
        bytes_from(a + b, a.len() + j) == bytes_from(b, j),
    decreases b.len() - j,
{
    if j < b.len() {
        lemma_bytes_of_tail(a, b, j + 1);
    }
}

/// A copy of one source begins with what it was given, and every step keeps
/// what is copied and how.
pub proof fn law_copy_keeps_its_plan(
    plan: Plan,
    opts: CopyOpts,
    tally: Tally,
    begun: CopyOne,
    one: &mut CopyOne,
    cancelled: bool,
    action: Action,
    other: &mut CopyOne,
    reply: Reply,
    told: Vec<Effect>,
)
    ensures
        call_ensures(CopyOne::new, (plan, opts, tally), begun) ==> {
            &&& begun@.plan.source == plan.source@
            &&& begun@.plan.dest == plan.dest@
            &&& begun@.plan.from == plan.from
            &&& begun@.plan.to == plan.to
            &&& begun@.plan.entries.len() == plan.entries@.len()
            &&& forall|i: int|
                0 <= i < plan.entries@.len() ==> #[trigger] begun@.plan.entries[i] == (
                    plan.entries@[i].0@,
                    plan.entries@[i].1@,
                )
            &&& begun@.opts.overwrite == opts.overwrite
            &&& begun@.tally == tally
            &&& begun@.next == 0
            &&& begun@.phase is Start
        },
        call_ensures(CopyOne::advance, (one, cancelled), action) ==> {
            &&& final(one)@.plan == old(one)@.plan
            &&& final(one)@.opts.overwrite == old(one)@.opts.overwrite
            &&& final(one)@.tally == old(one)@.tally
            &&& final(one)@.next == old(one)@.next
        },
        call_ensures(CopyOne::resume, (other, reply), told) ==> {
            &&& final(other)@.plan == old(other)@.plan
            &&& final(other)@.opts.overwrite == old(other)@.opts.overwrite
            &&& final(other)@.tally.total_bytes == old(other)@.tally.total_bytes
            &&& final(other)@.tally.total_files == old(other)@.tally.total_files
        },
{
}

/// A copy that was cancelled before it began ends so.  Else, within one place
/// the provider of the source is asked what it can do; between two places the
/// entries are copied one after the other.
pub proof fn law_copy_begins(one: &mut CopyOne, cancelled: bool, action: Action)
    requires
        call_ensures(CopyOne::advance, (one, cancelled), action),
        old(one)@.phase is Start,
    ensures
        ({
            let here = old(one)@.plan.source.scheme == old(one)@.plan.dest.scheme && old(
                one,
            )@.plan.source.authority == old(one)@.plan.dest.authority;
            &&& cancelled ==> action@ is Done && final(one)@.phase == OnePhaseView::Ended(
                Err(ErrorView::Cancelled),
            )
            &&& !cancelled && here ==> action@ == ActionView::Call(
                CallView { provider: old(one)@.plan.from, request: RequestView::Caps },
            ) && final(one)@.phase is AskingCaps
            &&& !cancelled && !here ==> action@ is Again && final(one)@.phase is Entry
        }),
{
}

/// The provider makes the copy itself where it says that it can, and then it is
/// asked to copy the source to the target with the options of the client.
pub proof fn law_provider_copies_where_it_can(
    one: &mut CopyOne,
    reply: Reply,
    told: Vec<Effect>,
    next: &mut CopyOne,
    cancelled: bool,
    action: Action,
)
    ensures
        call_ensures(CopyOne::resume, (one, reply), told) && old(one)@.phase is AskingCaps ==> (
        reply matches Reply::Caps(caps) ==> {
            &&& told@.len() == 0
            &&& caps.copy_within ==> final(one)@.phase is TryWithin
            &&& !caps.copy_within ==> final(one)@.phase is Entry
        }),
        call_ensures(CopyOne::advance, (next, cancelled), action) && old(next)@.phase is TryWithin
            ==> action@ == ActionView::Call(
            CallView {
                provider: old(next)@.plan.from,
                request: RequestView::CopyWithin {
                    from: old(next)@.plan.source,
                    to: old(next)@.plan.dest,
                    opts: CopyOpts { overwrite: old(next)@.opts.overwrite },
                },
            },
        ),
{
    if call_ensures(CopyOne::resume, (one, reply), told) && old(one)@.phase is AskingCaps {
        assert(effect_views(told@).len() == told@.len());
    }
}

/// When the copy that the provider makes fails with any error but that it is
/// not supported, the copy of the source is over with exactly that error:
/// nothing is told or counted, and nothing more is asked for.
pub proof fn law_failed_provider_copy_ends_the_copy(
    one: &mut CopyOne,
    e: VfsError,
    told: Vec<Effect>,
    cancelled: bool,
)
    requires
        call_ensures(CopyOne::resume, (one, Reply::Unit(Err(e))), told),
        old(one)@.phase is CopyingWithin,
    ensures
        told@.len() == 0,
        final(one)@.next == old(one)@.next,
        final(one)@.tally == old(one)@.tally,
        !(e is NotSupported) ==> {
            &&& final(one)@.phase == OnePhaseView::Ended(Err(e@))
            &&& final(one)@.advanced(cancelled).1 is Done
            &&& final(one)@.advanced(cancelled).0 == final(one)@
        },
        e is NotSupported ==> final(one)@.phase is Entry,
{
    assert(effect_views(told@).len() == told@.len());
}

/// When the provider has made the copy, every entry counts as copied, and the
/// target is told of once.
pub proof fn law_provider_copy_is_told(one: &mut CopyOne, told: Vec<Effect>)
    requires
        call_ensures(CopyOne::resume, (one, Reply::Unit(Ok(()))), told),
        old(one)@.phase is CopyingWithin,
        old(one)@.wf(),
    ensures
        final(one)@.phase matches OnePhaseView::Ended(r) && r is Ok,
        final(one)@.next == old(one)@.plan.entries.len(),
        final(one)@.tally.done_bytes == old(one)@.tally.done_bytes + bytes_from(
            old(one)@.plan.entries,
            0,
        ),
        final(one)@.tally.done_files == old(one)@.tally.done_files + old(one)@.plan.entries.len(),
        told@.len() == 2,
        told@[0]@ == EffectView::Progress(final(one)@.tally, old(one)@.plan.dest),
        told@[1]@ == EffectView::Event(
            EventView {
                kind: FsEventKind::Created,
                uri: old(one)@.plan.dest,
                renamed_to: None,
            },
        ),
{
    assert(effect_views(told@).len() == told@.len());
    assert(effect_views(told@)[0] == told@[0]@);
    assert(effect_views(told@)[1] == told@[1]@);
}

/// What is asked for the next entry.  Its target is the target of the copy with
/// the segments that the entry has below the source.  A directory is made
/// there; a file is looked for there first where it must not be overwritten,
/// and else read.  An entry without a target ends the copy, as does its end,
/// and a cancellation.
pub proof fn law_entry_goes_to_its_place(one: &mut CopyOne, cancelled: bool, action: Action)
    requires
        call_ensures(CopyOne::advance, (one, cancelled), action),
        old(one)@.phase is Entry,
        old(one)@.next <= old(one)@.plan.entries.len(),
    ensures
        ({
            let v = old(one)@;
            let (uri, st) = v.plan.entries[v.next as int];
            let n = v.plan.source.segments.len();
            let below = segments_after(uri, n);
            let target = UriView { segments: v.plan.dest.segments + below, ..v.plan.dest };
            let fits = all_joinable(below);
            &&& v.next == v.plan.entries.len() ==> action@ is Done && (
            final(one)@.phase matches OnePhaseView::Ended(r) && r is Ok)
            &&& v.next < v.plan.entries.len() && cancelled ==> action@ is Done
                && final(one)@.phase == OnePhaseView::Ended(Err(ErrorView::Cancelled))
            &&& v.next < v.plan.entries.len() && !cancelled && !fits ==> action@ is Done && (
            final(one)@.phase matches OnePhaseView::Ended(r) && r is Err)
            &&& v.next < v.plan.entries.len() && !cancelled && fits ==> {
                &&& st.file_type == FileType::Directory ==> action@ == ActionView::Call(
                    CallView { provider: v.plan.to, request: RequestView::Mkdir(target) },
                ) && final(one)@.phase == OnePhaseView::MakingDir(target)
                &&& st.file_type != FileType::Directory && !v.opts.overwrite ==> action@
                    == ActionView::Call(
                    CallView { provider: v.plan.to, request: RequestView::Stat(target) },
                ) && final(one)@.phase == OnePhaseView::Probing(target)
                &&& st.file_type != FileType::Directory && v.opts.overwrite ==> action@
                    == ActionView::Call(
                    CallView { provider: v.plan.from, request: RequestView::Read(uri) },
                ) && final(one)@.phase == OnePhaseView::Reading(target)
            }
        }),
{
    let v = old(one)@;
    let uri = v.plan.entries[v.next as int].0;
    let n = v.plan.source.segments.len();
    law_segments_are_appended(v.plan.dest, suffix_of(uri, n));
}

/// A file is read from the provider of the source and written at its target to
/// the provider of the target, overwritten only where the client said so, and
/// with the directories that it needs.
pub proof fn law_file_is_read_and_written(one: &mut CopyOne, cancelled: bool, action: Action)
    requires
        call_ensures(CopyOne::advance, (one, cancelled), action),
    ensures
        old(one)@.phase matches OnePhaseView::ToRead(u) ==> action@ == ActionView::Call(
            CallView {
                provider: old(one)@.plan.from,
                request: RequestView::Read(old(one)@.plan.entries[old(one)@.next as int].0),
            },
        ) && final(one)@.phase == OnePhaseView::Reading(u),
        old(one)@.phase matches OnePhaseView::ToWrite(u) ==> action@ == ActionView::Call(
            CallView {
                provider: old(one)@.plan.to,
                request: RequestView::Write(
                    u,
                    WriteOpts { overwrite: old(one)@.opts.overwrite, create_parents: true },
                ),
            },
        ) && final(one)@.phase == OnePhaseView::Writing(u),
        old(one)@.phase is Ended ==> action@ is Done && final(one)@ == old(one)@,
{
}

/// An entry that was made counts with its size, and is told of; a directory
/// that was there already counts, and only the progress is told.
pub proof fn law_made_entry_counts(one: &mut CopyOne, reply: Reply, told: Vec<Effect>, u: UriView)
    requires
        call_ensures(CopyOne::resume, (one, reply), told),
        old(one)@.wf(),
        old(one)@.phase == OnePhaseView::MakingDir(u) || old(one)@.phase == OnePhaseView::Writing(
            u,
        ),
        reply matches Reply::Unit(r) && (r is Ok || (old(one)@.phase is MakingDir
            && r->Err_0 is AlreadyExists)),
    ensures
        ({
            let size = old(one)@.plan.entries[old(one)@.next as int].1.size;
            let made = reply->Unit_0 is Ok;
            &&& final(one)@.phase is Entry
            &&& final(one)@.next == old(one)@.next + 1
            &&& final(one)@.tally.done_bytes == old(one)@.tally.done_bytes + size
            &&& final(one)@.tally.done_files == old(one)@.tally.done_files + 1
            &&& told@.len() == if made {
                2int
            } else {
                1
            }
            &&& made ==> told@[0]@ == EffectView::Event(
                EventView { kind: FsEventKind::Created, uri: u, renamed_to: None },
            )
            &&& told@[told@.len() - 1]@ == EffectView::Progress(final(one)@.tally, u)
        }),
{
    reveal_with_fuel(bytes_from, 2);
    assert(effect_views(told@).len() == told@.len());
    assert(effect_views(told@)[0] == told@[0]@);
    assert(effect_views(told@)[told@.len() - 1] == told@[told@.len() - 1]@);
    assert(reply@ is Unit);
}

/// A file that is there ends a copy that looked for it, whatever it is; where
/// none was seen the entry is read, and what was read is written.  Every error
/// of making, reading or writing ends the copy with that error.
pub proof fn law_entry_answers_decide(one: &mut CopyOne, reply: Reply, told: Vec<Effect>)
    requires
        call_ensures(CopyOne::resume, (one, reply), told),
    ensures
        old(one)@.phase matches OnePhaseView::Probing(u) ==> (reply matches Reply::Stat(r) ==> {
            &&& told@.len() == 0
            &&& r is Ok ==> final(one)@.phase == OnePhaseView::Ended(
                Err(ErrorView::AlreadyExists(u)),
            )
            &&& r is Err ==> final(one)@.phase == OnePhaseView::ToRead(u)
        }),
        old(one)@.phase matches OnePhaseView::Reading(u) ==> (reply matches Reply::Unit(r) ==> {
            &&& told@.len() == 0
            &&& r is Ok ==> final(one)@.phase == OnePhaseView::ToWrite(u)
            &&& r matches Err(e) ==> final(one)@.phase == OnePhaseView::Ended(Err(e@))
        }),
        old(one)@.phase is Writing ==> (reply matches Reply::Unit(Err(e)) ==> told@.len() == 0
            && final(one)@.phase == OnePhaseView::Ended(Err(e@))),
        old(one)@.phase is MakingDir ==> (reply matches Reply::Unit(Err(e)) ==> (!(
        e is AlreadyExists) ==> told@.len() == 0 && final(one)@.phase == OnePhaseView::Ended(
            Err(e@),
        ))),
{
    assert(effect_views(told@).len() == told@.len());
}

/// What a copy of a source tells of its end is how it ended.
pub proof fn law_copy_ends_as_it_ended(
    one: CopyOne,
    r: (VfsUri, Result<(), VfsError>, Tally),
)
    requires
        call_ensures(CopyOne::finish, (one,), r),
    ensures
        r.0@ == one@.plan.source,
        r.2 == one@.tally,
        one@.phase matches OnePhaseView::Ended(Err(e)) ==> r.1 is Err && r.1->Err_0@ == e,
        one@.phase matches OnePhaseView::Ended(Ok(())) ==> r.1 is Ok,
{
}

} // verus!
