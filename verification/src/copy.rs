//! The copy of many sources into a directory.
use vstd::prelude::*;
use crate::copy_one::{bytes_from, CopyOne, OnePhaseView, OneView, Plan, PlanView};
use crate::engine::{provider_of, Schemes, VfsEngine};
use crate::error::{unit_view, ErrorView, VfsError};
use crate::ops::Tally;
use crate::provider::{
    answers, effect_views, Action, ActionView, Effect, EffectView, Reply, ReplyView, RequestView,
};
use crate::text::concat3;
use crate::types::{
    outcome, outcome_views, CopyOpts, OutcomeView, PerSourceResult, Stat, StatView,
};
use crate::uri::{display, uri_result, uri_views, UriView, VfsUri};
use crate::walk::{found_views, Walk, WalkPhaseView, WalkView};

verus! {

/// The target of a source in a directory.  A source may not go into itself;
/// `refusal` begins the message that says so.
pub open spec fn target_in(
    dest_dir: UriView,
    source: UriView,
    refusal: Seq<char>,
) -> Result<UriView, ErrorView> {
    match dest_dir.join(source.name_or_empty()) {
        Err(e) => Err(e),
        Ok(dest) => if source.covers(dest) {
            Err(ErrorView::InvalidTarget(refusal + display(source) + " into itself"@))
        } else {
            Ok(dest)
        },
    }
}

/// The target of a source and the providers between which it is copied.
pub open spec fn planned_copy(schemes: Schemes, source: UriView, dest_dir: UriView) -> Result<
    (UriView, usize, usize),
    ErrorView,
> {
    match target_in(dest_dir, source, "cannot copy "@) {
        Err(e) => Err(e),
        Ok(dest) => match provider_of(schemes, source) {
            Err(e) => Err(e),
            Ok(from) => match provider_of(schemes, dest) {
                Err(e) => Err(e),
                Ok(to) => Ok((dest, from, to)),
            },
        },
    }
}

/// The target of a source in a directory.
pub fn bulk_target(dest_dir: &VfsUri, source: &VfsUri, refusal: &str) -> (r: Result<
    VfsUri,
    VfsError,
>)
    ensures
        uri_result(r) == target_in(dest_dir@, source@, refusal@),
{
    let joined = match source.name() {
        Some(name) => dest_dir.join(name),
        None => {
            proof {
                reveal_strlit("");
                assert(""@ =~= source@.name_or_empty());
            }
            dest_dir.join("")
        },
    };
    match joined {
        Err(e) => Err(e),
        Ok(dest) => {
            if source.same(&dest) || source.is_ancestor_of(&dest) {
                let text = source.to_string();
                return Err(
                    VfsError::InvalidTarget(concat3(refusal, text.as_str(), " into itself")),
                );
            }
            Ok(dest)
        },
    }
}

impl<P> VfsEngine<P> {
    /// The target of a source and the providers between which it is copied.
    pub fn plan_copy(&self, source: &VfsUri, dest_dir: &VfsUri) -> (r: Result<
        (VfsUri, usize, usize),
        VfsError,
    >)
        requires
            self.wf(),
        ensures
            match r {
                Ok((dest, from, to)) => planned_copy(self.schemes(), source@, dest_dir@) == Ok::<
                    (UriView, usize, usize),
                    ErrorView,
                >((dest@, from, to)),
                Err(e) => planned_copy(self.schemes(), source@, dest_dir@) == Err::<
                    (UriView, usize, usize),
                    ErrorView,
                >(e@),
            },
    {
        let dest = match bulk_target(dest_dir, source, "cannot copy ") {
            Err(e) => {
                return Err(e);
            },
            Ok(dest) => dest,
        };
        let from: usize = match self.provider_for(source) {
            Err(e) => {
                return Err(e);
            },
            Ok(p) => p,
        };
        match self.provider_for(&dest) {
            Err(e) => Err(e),
            Ok(to) => Ok((dest, from, to)),
        }
    }

    /// The copy of sources into a directory.
    pub fn copy(&self, sources: Vec<VfsUri>, dest_dir: VfsUri, opts: CopyOpts) -> (r: CopySession)
        ensures
            r@ == CopyView::start(uri_views(sources@), dest_dir@, opts),
            r@.wf(),
    {
        CopySession::new(sources, dest_dir, opts)
    }
}

/// Where a copy of many sources stands.
#[derive(Debug)]
pub enum Stage {
    /// Between two sources.
    Planning,
    /// A walk through a source.
    Walking { dest: VfsUri, from: usize, to: usize, walk: Walk },
    /// The copy of a source.
    Copying(CopyOne),
}

pub enum StageView {
    Planning,
    Walking { dest: UriView, from: usize, to: usize, walk: WalkView },
    Copying(OneView),
}

impl View for Stage {
    type V = StageView;

    open spec fn view(&self) -> StageView {
        match self {
            Stage::Planning => StageView::Planning,
            Stage::Walking { dest, from, to, walk } => StageView::Walking {
                dest: dest@,
                from: *from,
                to: *to,
                walk: walk@,
            },
            Stage::Copying(one) => StageView::Copying(one@),
        }
    }
}

/// The copy of many sources: first each is walked through, so that it is known
/// how much there is to copy, then those that could be planned are copied.
#[derive(Debug)]
pub struct CopySession {
    sources: Vec<VfsUri>,
    dest_dir: VfsUri,
    opts: CopyOpts,
    planned: usize,
    plans: Vec<Plan>,
    tally: Tally,
    out: Vec<PerSourceResult>,
    stage: Stage,
}

#[verifier::ext_equal]
pub struct CopyView {
    pub sources: Seq<UriView>,
    pub dest_dir: UriView,
    pub opts: CopyOpts,
    /// How many sources were planned or refused.
    pub planned: nat,
    /// The plans that are still to be carried out.
    pub plans: Seq<PlanView>,
    pub tally: Tally,
    pub out: Seq<OutcomeView>,
    pub stage: StageView,
}

/// The views of a list of plans.
pub open spec fn plan_views(plans: Seq<Plan>) -> Seq<PlanView> {
    plans.map_values(|p: Plan| p@)
}

impl View for CopySession {
    type V = CopyView;

    closed spec fn view(&self) -> CopyView {
        CopyView {
            sources: uri_views(self.sources@),
            dest_dir: self.dest_dir@,
            opts: self.opts,
            planned: self.planned as nat,
            plans: plan_views(self.plans@),
            tally: self.tally,
            out: outcome_views(self.out@),
            stage: self.stage@,
        }
    }
}

/// The bytes of plans together.
pub open spec fn plans_bytes(plans: Seq<PlanView>) -> nat
    decreases plans.len(),
{
    if plans.len() == 0 {
        0
    } else {
        bytes_from(plans[0].entries, 0) + plans_bytes(plans.drop_first())
    }
}

/// The entries of plans together.
pub open spec fn plans_files(plans: Seq<PlanView>) -> nat
    decreases plans.len(),
{
    if plans.len() == 0 {
        0
    } else {
        plans[0].entries.len() + plans_files(plans.drop_first())
    }
}

/// The tally has room for so many bytes and files.
pub open spec fn has_room(tally: Tally, bytes: nat, files: int) -> bool {
    &&& tally.done_bytes + bytes <= tally.total_bytes
    &&& tally.done_files + files <= tally.total_files
}

/// Every outcome is a success.
pub open spec fn all_ok(out: Seq<OutcomeView>) -> bool {
    forall|i: int| 0 <= i < out.len() ==> (#[trigger] out[i]).ok
}

/// With so many bytes and files more, everything is done.
pub open spec fn falls_short_by(tally: Tally, bytes: nat, files: int) -> bool {
    &&& tally.done_bytes + bytes == tally.total_bytes
    &&& tally.done_files + files == tally.total_files
}

impl CopyView {
    /// A copy that is about to begin.
    pub open spec fn start(sources: Seq<UriView>, dest_dir: UriView, opts: CopyOpts) -> CopyView {
        CopyView {
            sources,
            dest_dir,
            opts,
            planned: 0,
            plans: Seq::empty(),
            tally: Tally { done_bytes: 0, total_bytes: 0, done_files: 0, total_files: 0 },
            out: Seq::empty(),
            stage: StageView::Planning,
        }
    }

    /// The copy is in order: each source that was planned or refused has an
    /// outcome or waits for its copy, the tally has room for what waits, and it
    /// lacks no more than that where all went well.
    pub open spec fn wf(self) -> bool {
        let bytes = plans_bytes(self.plans);
        let files = plans_files(self.plans) as int;
        &&& self.planned <= self.sources.len()
        &&& self.out.len() + self.plans.len() + (if self.stage is Copying {
            1int
        } else {
            0
        }) == self.planned
        &&& match self.stage {
            StageView::Planning => {
                &&& has_room(self.tally, bytes, files)
                &&& all_ok(self.out) ==> falls_short_by(self.tally, bytes, files)
            },
            StageView::Walking { walk, .. } => {
                &&& self.planned < self.sources.len()
                &&& has_room(self.tally, bytes, files)
                &&& all_ok(self.out) ==> falls_short_by(self.tally, bytes, files)
                &&& self.tally.total_bytes + bytes_from(walk.out, 0) <= u64::MAX
                &&& self.tally.total_files + walk.out.len() <= u64::MAX
            },
            StageView::Copying(one) => {
                &&& self.planned == self.sources.len()
                &&& one.wf()
                &&& one.tally.total_bytes == self.tally.total_bytes
                &&& one.tally.total_files == self.tally.total_files
                &&& has_room(one.tally, one.bytes_left() + bytes, one.files_left() + files)
                &&& all_ok(self.out) ==> falls_short_by(
                    one.tally,
                    one.bytes_left() + bytes,
                    one.files_left() + files,
                )
            },
        }
    }

    /// No answer is awaited.
    pub open spec fn ready(self) -> bool {
        match self.stage {
            StageView::Planning => true,
            StageView::Walking { walk, .. } => walk.ready(),
            StageView::Copying(one) => one.ready(),
        }
    }

    /// The request whose answer is awaited.
    pub open spec fn request(self) -> RequestView
        recommends
            !self.ready(),
    {
        match self.stage {
            StageView::Planning => RequestView::Caps,
            StageView::Walking { walk, .. } => walk.request(),
            StageView::Copying(one) => one.request(),
        }
    }

    /// The totals can take in what the answer brings.
    pub open spec fn admits(self, reply: ReplyView) -> bool {
        match (self.stage, reply) {
            (StageView::Walking { walk, .. }, ReplyView::Stat(Ok(st))) => {
                &&& self.tally.total_bytes + bytes_from(walk.out, 0) + st.size <= u64::MAX
                &&& self.tally.total_files + walk.out.len() + 1 <= u64::MAX
            },
            _ => true,
        }
    }

    /// The source in hand cannot be copied.
    pub open spec fn refused(self, e: ErrorView) -> CopyView {
        CopyView {
            planned: self.planned + 1,
            out: self.out.push(outcome(self.sources[self.planned as int], Err(e))),
            stage: StageView::Planning,
            ..self
        }
    }

    /// The source in hand is planned with what its walk found.
    pub open spec fn added(
        self,
        dest: UriView,
        from: usize,
        to: usize,
        entries: Seq<(UriView, StatView)>,
    ) -> CopyView {
        CopyView {
            planned: self.planned + 1,
            plans: self.plans.push(
                PlanView { source: self.sources[self.planned as int], dest, from, to, entries },
            ),
            tally: Tally {
                total_bytes: (self.tally.total_bytes + bytes_from(entries, 0)) as u64,
                total_files: (self.tally.total_files + entries.len()) as u64,
                ..self.tally
            },
            stage: StageView::Planning,
            ..self
        }
    }

    /// The copy of a source has ended.
    pub open spec fn settled(self, one: OneView, r: Result<(), ErrorView>) -> CopyView {
        CopyView {
            tally: one.tally,
            out: self.out.push(outcome(one.plan.source, r)),
            stage: StageView::Planning,
            ..self
        }
    }

    /// What follows: the next source is planned and walked through; when all
    /// are, the plans are carried out in order.
    pub open spec fn advanced(self, schemes: Schemes, cancelled: bool) -> (CopyView, ActionView) {
        match self.stage {
            StageView::Planning => if self.planned < self.sources.len() {
                let source = self.sources[self.planned as int];
                match planned_copy(schemes, source, self.dest_dir) {
                    Err(e) => (self.refused(e), ActionView::Again),
                    Ok((dest, from, to)) => (
                        CopyView {
                            stage: StageView::Walking {
                                dest,
                                from,
                                to,
                                walk: WalkView::start(from, source),
                            },
                            ..self
                        },
                        ActionView::Again,
                    ),
                }
            } else if self.plans.len() > 0 {
                (
                    CopyView {
                        plans: self.plans.drop_first(),
                        stage: StageView::Copying(
                            OneView::start(self.plans[0], self.opts, self.tally),
                        ),
                        ..self
                    },
                    ActionView::Again,
                )
            } else {
                (self, ActionView::Done)
            },
            StageView::Walking { dest, from, to, walk } => {
                let (next, action) = walk.advanced(cancelled);
                match next.phase {
                    WalkPhaseView::Ended(Ok(())) => (
                        self.added(dest, from, to, next.out),
                        ActionView::Again,
                    ),
                    WalkPhaseView::Ended(Err(e)) => (self.refused(e), ActionView::Again),
                    _ => (
                        CopyView {
                            stage: StageView::Walking { dest, from, to, walk: next },
                            ..self
                        },
                        action,
                    ),
                }
            },
            StageView::Copying(one) => {
                let (next, action) = one.advanced(cancelled);
                match next.phase {
                    OnePhaseView::Ended(r) => (self.settled(next, r), ActionView::Again),
                    _ => (CopyView { stage: StageView::Copying(next), ..self }, action),
                }
            },
        }
    }

    /// What follows from an answer, and what is told of it.
    pub open spec fn resumed(self, reply: ReplyView) -> (CopyView, Seq<EffectView>) {
        match self.stage {
            StageView::Planning => (self, Seq::empty()),
            StageView::Walking { dest, from, to, walk } => (
                CopyView {
                    stage: StageView::Walking { dest, from, to, walk: walk.resumed(reply) },
                    ..self
                },
                Seq::empty(),
            ),
            StageView::Copying(one) => {
                let (next, told) = one.resumed(reply);
                (CopyView { stage: StageView::Copying(next), ..self }, told)
            },
        }
    }
}

proof fn lemma_bytes_push(
    entries: Seq<(UriView, StatView)>,
    x: (UriView, StatView),
    i: nat,
)
    requires
        i <= entries.len(),
    ensures
        bytes_from(entries.push(x), i) == bytes_from(entries, i) + x.1.size,
    decreases entries.len() - i,
{
    reveal_with_fuel(bytes_from, 2);
    if i < entries.len() {
        lemma_bytes_push(entries, x, i + 1);
        assert(entries.push(x)[i as int] == entries[i as int]);
    } else {
        assert(entries.push(x)[i as int] == x);
    }
}

proof fn lemma_plans_push(plans: Seq<PlanView>, p: PlanView)
    ensures
        plans_bytes(plans.push(p)) == plans_bytes(plans) + bytes_from(p.entries, 0),
        plans_files(plans.push(p)) == plans_files(plans) + p.entries.len(),
    decreases plans.len(),
{
    reveal_with_fuel(plans_bytes, 2);
    reveal_with_fuel(plans_files, 2);
    if plans.len() > 0 {
        lemma_plans_push(plans.drop_first(), p);
        assert(plans.push(p).drop_first() =~= plans.drop_first().push(p));
        assert(plans.push(p)[0] == plans[0]);
    } else {
        assert(plans.push(p).drop_first() =~= Seq::<PlanView>::empty());
    }
}

/// A step of the copy of a source moves bytes and files from what is left to
/// what is done.
proof fn lemma_one_keeps_sum(one: OneView, cancelled: bool, reply: ReplyView)
    requires
        one.wf(),
    ensures
        ({
            let next = one.advanced(cancelled).0;
            &&& next.tally == one.tally
            &&& next.next == one.next
            &&& next.plan == one.plan
        }),
        !one.ready() ==> ({
            let next = one.resumed(reply).0;
            &&& next.plan == one.plan
            &&& next.tally.total_bytes == one.tally.total_bytes
            &&& next.tally.total_files == one.tally.total_files
            &&& next.tally.done_bytes + next.bytes_left() == one.tally.done_bytes
                + one.bytes_left()
            &&& next.tally.done_files + next.files_left() == one.tally.done_files
                + one.files_left()
        }),
{
    reveal_with_fuel(bytes_from, 2);
}

proof fn lemma_all_ok_push(out: Seq<OutcomeView>, o: OutcomeView)
    ensures
        all_ok(out.push(o)) ==> all_ok(out) && o.ok,
{
    if all_ok(out.push(o)) {
        assert(out.push(o)[out.len() as int] == o);
        assert forall|i: int| 0 <= i < out.len() implies (#[trigger] out[i]).ok by {
            assert(out.push(o)[i] == out[i]);
        }
    }
}

/// Every step keeps a copy well formed.
pub proof fn law_copy_stays_well_formed(v: CopyView, schemes: Schemes, cancelled: bool, reply: ReplyView)
    requires
        v.wf(),
    ensures
        v.ready() ==> v.advanced(schemes, cancelled).0.wf(),
        !v.ready() && answers(reply, v.request()) && v.admits(reply) ==> v.resumed(reply).0.wf(),
{
    if v.ready() {
        match v.stage {
            StageView::Planning => {
                if v.planned < v.sources.len() {
                    let source = v.sources[v.planned as int];
                    if let Err(e) = planned_copy(schemes, source, v.dest_dir) {
                        lemma_all_ok_push(v.out, outcome(source, Err(e)));
                    }
                } else if v.plans.len() > 0 {
                    assert(plans_bytes(v.plans) == bytes_from(v.plans[0].entries, 0) + plans_bytes(
                        v.plans.drop_first(),
                    ));
                }
            },
            StageView::Walking { dest, from, to, walk } => {
                let source = v.sources[v.planned as int];
                let w = walk.advanced(cancelled).0;
                match w.phase {
                    WalkPhaseView::Ended(Ok(())) => {
                        lemma_plans_push(
                            v.plans,
                            PlanView { source, dest, from, to, entries: w.out },
                        );
                    },
                    WalkPhaseView::Ended(Err(e)) => {
                        lemma_all_ok_push(v.out, outcome(source, Err(e)));
                    },
                    _ => {},
                }
            },
            StageView::Copying(one) => {
                lemma_one_keeps_sum(one, cancelled, reply);
                lemma_one_advanced_wf(one, cancelled);
                let o = one.advanced(cancelled).0;
                if let OnePhaseView::Ended(r) = o.phase {
                    lemma_all_ok_push(v.out, outcome(one.plan.source, r));
                    assert(r is Ok ==> o.bytes_left() == 0);
                }
            },
        }
    } else if answers(reply, v.request()) && v.admits(reply) {
        match v.stage {
            StageView::Walking { walk, .. } => {
                if let (WalkPhaseView::Stating(u), ReplyView::Stat(Ok(st))) = (walk.phase, reply) {
                    lemma_bytes_push(walk.out, (u, st), 0);
                }
            },
            StageView::Copying(one) => {
                lemma_one_keeps_sum(one, false, reply);
                lemma_one_resumed_wf(one, reply);
            },
            _ => {},
        }
    }
}

proof fn lemma_one_advanced_wf(one: OneView, cancelled: bool)
    requires
        one.wf(),
    ensures
        one.advanced(cancelled).0.wf(),
{
}

proof fn lemma_one_resumed_wf(one: OneView, reply: ReplyView)
    requires
        one.wf(),
        !one.ready(),
        answers(reply, one.request()),
    ensures
        one.resumed(reply).0.wf(),
{
    reveal_with_fuel(bytes_from, 2);
}

fn sum_sizes(entries: &Vec<(VfsUri, Stat)>, start: u64) -> (r: u64)
    requires
        start + bytes_from(found_views(entries@), 0) <= u64::MAX,
    ensures
        r == start + bytes_from(found_views(entries@), 0),
{
    let ghost views = found_views(entries@);
    let mut i: usize = 0;
    let mut sum: u64 = start;
    while i < entries.len()
        invariant
            i <= entries@.len(),
            views == found_views(entries@),
            sum + bytes_from(views, i as nat) == start + bytes_from(views, 0),
            start + bytes_from(views, 0) <= u64::MAX,
        decreases entries.len() - i,
    {
        assert(views[i as int].1.size == entries@[i as int].1.size);
        assert(bytes_from(views, i as nat) == views[i as int].1.size + bytes_from(
            views,
            (i + 1) as nat,
        ));
        sum += entries[i].1.size;
        i += 1;
    }
    sum
}

impl CopySession {
    /// The copy of sources into a directory.
    pub fn new(sources: Vec<VfsUri>, dest_dir: VfsUri, opts: CopyOpts) -> (r: CopySession)
        ensures
            r@ == CopyView::start(uri_views(sources@), dest_dir@, opts),
            r@.wf(),
    {
        let r = CopySession {
            sources,
            dest_dir,
            opts,
            planned: 0,
            plans: Vec::new(),
            tally: Tally { done_bytes: 0, total_bytes: 0, done_files: 0, total_files: 0 },
            out: Vec::new(),
            stage: Stage::Planning,
        };
        assert(r@ =~= CopyView::start(uri_views(sources@), dest_dir@, opts));
        r
    }

    fn tell(&mut self, source: VfsUri, result: Result<(), VfsError>)
        ensures
            final(self)@ == (CopyView {
                out: old(self)@.out.push(outcome(source@, unit_view(result))),
                ..old(self)@
            }),
    {
        self.out.push(PerSourceResult::of(source, result));
        assert(self@ =~= CopyView {
            out: old(self)@.out.push(self.out@.last()@),
            ..old(self)@
        });
    }

    /// Refuses the source in hand.
    fn refuse(&mut self, e: VfsError)
        requires
            old(self)@.planned < old(self)@.sources.len(),
            old(self)@.stage is Planning,
        ensures
            final(self)@ == old(self)@.refused(e@),
    {
        let source = self.sources[self.planned].clone();
        assert(self.planned < self.sources.len());
        self.planned = self.planned + 1;
        self.tell(source, Err(e));
    }

    /// Plans the source in hand.
    fn add_plan(&mut self, dest: VfsUri, from: usize, to: usize, entries: Vec<(VfsUri, Stat)>)
        requires
            old(self)@.planned < old(self)@.sources.len(),
            old(self)@.stage is Planning,
            old(self)@.tally.total_bytes + bytes_from(found_views(entries@), 0) <= u64::MAX,
            old(self)@.tally.total_files + entries@.len() <= u64::MAX,
        ensures
            final(self)@ == old(self)@.added(dest@, from, to, found_views(entries@)),
    {
        let source = self.sources[self.planned].clone();
        assert(self.planned < self.sources.len());
        self.planned = self.planned + 1;
        self.tally.total_bytes = sum_sizes(&entries, self.tally.total_bytes);
        self.tally.total_files = self.tally.total_files + entries.len() as u64;
        let plan = Plan { source, dest, from, to, entries };
        let ghost so_far = plan_views(self.plans@);
        let ghost added = plan@;
        self.plans.push(plan);
        assert(plan_views(self.plans@) =~= so_far.push(added));
    }

    /// What to do next.
    pub fn advance<P>(&mut self, engine: &VfsEngine<P>, cancelled: bool) -> (r: Action)
        requires
            engine.wf(),
            old(self)@.wf(),
            old(self)@.ready(),
        ensures
            final(self)@.wf(),
            (final(self)@, r@) == old(self)@.advanced(engine.schemes(), cancelled),
            r@ is Call ==> !final(self)@.ready() && r@->0.request == final(self)@.request(),
            r@ is Again ==> final(self)@.ready(),
            r@ is Done ==> final(self)@ == old(self)@,
            r@ is Done ==> old(self)@.out.len() == old(self)@.sources.len(),
    {
        let ghost before = self@;
        proof {
            law_copy_stays_well_formed(
                before,
                engine.schemes(),
                cancelled,
                ReplyView::Unit(Ok(())),
            );
        }
        let mut stage = Stage::Planning;
        std::mem::swap(&mut stage, &mut self.stage);
        match stage {
            Stage::Planning => {
                if self.planned < self.sources.len() {
                    match engine.plan_copy(&self.sources[self.planned], &self.dest_dir) {
                        Err(e) => {
                            self.refuse(e);
                            Action::Again
                        },
                        Ok((dest, from, to)) => {
                            let walk = Walk::new(from, &self.sources[self.planned]);
                            self.stage = Stage::Walking { dest, from, to, walk };
                            Action::Again
                        },
                    }
                } else if self.plans.len() > 0 {
                    proof {
                        assert(plans_bytes(before.plans) == bytes_from(
                            before.plans[0].entries,
                            0,
                        ) + plans_bytes(before.plans.drop_first()));
                    }
                    let plan = self.plans.remove(0);
                    assert(plan_views(self.plans@) =~= before.plans.drop_first());
                    assert(plan@ == before.plans[0]);
                    self.stage = Stage::Copying(CopyOne::new(plan, self.opts, self.tally));
                    Action::Again
                } else {
                    Action::Done
                }
            },
            Stage::Walking { dest, from, to, walk } => {
                let mut walk = walk;
                match walk.advance(cancelled) {
                    Action::Call(call) => {
                        self.stage = Stage::Walking { dest, from, to, walk };
                        Action::Call(call)
                    },
                    _ => {
                        match walk.finish() {
                            Ok(entries) => {
                                assert(found_views(entries@).len() == entries@.len());
                                self.add_plan(dest, from, to, entries);
                            },
                            Err(e) => {
                                self.refuse(e);
                            },
                        }
                        Action::Again
                    },
                }
            },
            Stage::Copying(one) => {
                let mut one = one;
                match one.advance(cancelled) {
                    Action::Done => {
                        let (source, result, tally) = one.finish();
                        self.tally = tally;
                        self.tell(source, result);
                        Action::Again
                    },
                    action => {
                        self.stage = Stage::Copying(one);
                        action
                    },
                }
            },
        }
    }

    /// Whether the totals can take in what the answer brings.
    pub fn can_take(&self, reply: &Reply) -> (r: bool)
        requires
            self@.wf(),
        ensures
            r == self@.admits(reply@),
    {
        match (&self.stage, reply) {
            (Stage::Walking { walk, .. }, Reply::Stat(Ok(stat))) => {
                let bytes: u128 = walk.bytes();
                let files: usize = walk.found();
                self.tally.total_bytes as u128 + bytes + stat.size as u128 <= u64::MAX as u128
                    && self.tally.total_files as u128 + files as u128 + 1 <= u64::MAX as u128
            },
            _ => true,
        }
    }

    /// Takes in the answer to the call that was named, and gives what is to be
    /// told, in order.
    pub fn resume(&mut self, reply: Reply) -> (r: Vec<Effect>)
        requires
            old(self)@.wf(),
            !old(self)@.ready(),
            answers(reply@, old(self)@.request()),
            old(self)@.admits(reply@),
        ensures
            final(self)@.wf(),
            final(self)@.ready(),
            (final(self)@, effect_views(r@)) == old(self)@.resumed(reply@),
    {
        proof {
            law_copy_stays_well_formed(self@, Map::empty(), false, reply@);
        }
        let none: Vec<Effect> = Vec::new();
        assert(effect_views(none@) =~= Seq::<EffectView>::empty());
        let mut stage = Stage::Planning;
        std::mem::swap(&mut stage, &mut self.stage);
        match stage {
            Stage::Planning => none,
            Stage::Walking { dest, from, to, walk } => {
                let mut walk = walk;
                walk.resume(reply);
                self.stage = Stage::Walking { dest, from, to, walk };
                none
            },
            Stage::Copying(one) => {
                let mut one = one;
                let told = one.resume(reply);
                self.stage = Stage::Copying(one);
                told
            },
        }
    }

    /// The outcomes: of the sources that could not be planned first, then of
    /// those that were copied.
    pub fn finish(self) -> (r: Vec<PerSourceResult>)
        ensures
            outcome_views(r@) == self@.out,
    {
        self.out
    }
}

} // verus!
