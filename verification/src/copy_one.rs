//! The copy of one source: what was found at and below it, to its target.
use vstd::prelude::*;
use crate::error::{unit_view, ErrorView, VfsError};
use crate::ops::Tally;
use crate::provider::{
    answers, effect_views, Action, ActionView, CallView, Effect, EffectView, ProviderCall, Reply,
    ReplyView, Request, RequestView,
};
use crate::types::{
    event, CopyOpts, FileType, FsEvent, FsEventKind, Stat, StatView, WriteOpts,
};
use crate::uri::{relocated, UriView, VfsUri};
use crate::walk::found_views;

verus! {

/// What is to be copied: the uris found at and below the source, in the order
/// of the walk, with what is known of each.
#[derive(Debug)]
pub struct Plan {
    pub source: VfsUri,
    pub dest: VfsUri,
    /// The provider that the source is read from.
    pub from: usize,
    /// The provider that the target is written to.
    pub to: usize,
    pub entries: Vec<(VfsUri, Stat)>,
}

#[verifier::ext_equal]
pub struct PlanView {
    pub source: UriView,
    pub dest: UriView,
    pub from: usize,
    pub to: usize,
    pub entries: Seq<(UriView, StatView)>,
}

impl View for Plan {
    type V = PlanView;

    open spec fn view(&self) -> PlanView {
        PlanView {
            source: self.source@,
            dest: self.dest@,
            from: self.from,
            to: self.to,
            entries: found_views(self.entries@),
        }
    }
}

/// The bytes of the entries from the `i`th on.
pub open spec fn bytes_from(entries: Seq<(UriView, StatView)>, i: nat) -> nat
    decreases entries.len() - i,
{
    if i >= entries.len() {
        0
    } else {
        entries[i as int].1.size as nat + bytes_from(entries, i + 1)
    }
}

/// Where the copy of one source stands.
#[derive(Debug)]
pub enum OnePhase {
    /// Nothing was done yet.
    Start,
    /// It is asked whether the provider copies by itself.
    AskingCaps,
    /// The provider is to copy by itself.
    TryWithin,
    /// The copy that the provider makes is awaited.
    CopyingWithin,
    /// The next entry is to be copied.
    Entry,
    /// The directory is made.
    MakingDir(VfsUri),
    /// It is looked whether the target is there.
    Probing(VfsUri),
    /// The entry is to be read, for the target.
    ToRead(VfsUri),
    /// The entry is opened for reading.
    Reading(VfsUri),
    /// The target is to be written.
    ToWrite(VfsUri),
    /// The target is written.
    Writing(VfsUri),
    /// The copy is over.
    Ended(Result<(), VfsError>),
}

pub enum OnePhaseView {
    Start,
    AskingCaps,
    TryWithin,
    CopyingWithin,
    Entry,
    MakingDir(UriView),
    Probing(UriView),
    ToRead(UriView),
    Reading(UriView),
    ToWrite(UriView),
    Writing(UriView),
    Ended(Result<(), ErrorView>),
}

impl View for OnePhase {
    type V = OnePhaseView;

    open spec fn view(&self) -> OnePhaseView {
        match self {
            OnePhase::Start => OnePhaseView::Start,
            OnePhase::AskingCaps => OnePhaseView::AskingCaps,
            OnePhase::TryWithin => OnePhaseView::TryWithin,
            OnePhase::CopyingWithin => OnePhaseView::CopyingWithin,
            OnePhase::Entry => OnePhaseView::Entry,
            OnePhase::MakingDir(u) => OnePhaseView::MakingDir(u@),
            OnePhase::Probing(u) => OnePhaseView::Probing(u@),
            OnePhase::ToRead(u) => OnePhaseView::ToRead(u@),
            OnePhase::Reading(u) => OnePhaseView::Reading(u@),
            OnePhase::ToWrite(u) => OnePhaseView::ToWrite(u@),
            OnePhase::Writing(u) => OnePhaseView::Writing(u@),
            OnePhase::Ended(r) => OnePhaseView::Ended(unit_view(*r)),
        }
    }
}

/// The copy of one source.
#[derive(Debug)]
pub struct CopyOne {
    plan: Plan,
    opts: CopyOpts,
    next: usize,
    phase: OnePhase,
    tally: Tally,
}

#[verifier::ext_equal]
pub struct OneView {
    pub plan: PlanView,
    pub opts: CopyOpts,
    /// How many entries were dealt with.
    pub next: nat,
    pub phase: OnePhaseView,
    pub tally: Tally,
}

impl View for CopyOne {
    type V = OneView;

    closed spec fn view(&self) -> OneView {
        OneView {
            plan: self.plan@,
            opts: self.opts,
            next: self.next as nat,
            phase: self.phase@,
            tally: self.tally,
        }
    }
}

/// The event of something that was made.
pub open spec fn made(uri: UriView) -> EffectView {
    EffectView::Event(event(FsEventKind::Created, uri))
}

impl OneView {
    /// A copy that is about to begin.
    pub open spec fn start(plan: PlanView, opts: CopyOpts, tally: Tally) -> OneView {
        OneView { plan, opts, next: 0, phase: OnePhaseView::Start, tally }
    }

    /// The entry in hand.
    pub open spec fn entry(self) -> (UriView, StatView) {
        self.plan.entries[self.next as int]
    }

    /// The target of the entry in hand.
    pub open spec fn target(self) -> Result<UriView, ErrorView> {
        relocated(self.entry().0, self.plan.source.segments.len(), self.plan.dest)
    }

    /// The target that the phase speaks of.
    pub open spec fn phase_target(self) -> Option<UriView> {
        match self.phase {
            OnePhaseView::MakingDir(u) => Some(u),
            OnePhaseView::Probing(u) => Some(u),
            OnePhaseView::ToRead(u) => Some(u),
            OnePhaseView::Reading(u) => Some(u),
            OnePhaseView::ToWrite(u) => Some(u),
            OnePhaseView::Writing(u) => Some(u),
            _ => None,
        }
    }

    /// The bytes of the entries that are still to be dealt with.
    pub open spec fn bytes_left(self) -> nat {
        bytes_from(self.plan.entries, self.next)
    }

    pub open spec fn files_left(self) -> int {
        self.plan.entries.len() - self.next
    }

    /// The copy is in order: the tally has room for what is left, the target
    /// in hand is that of the entry in hand, and a copy that went well has
    /// dealt with every entry.
    pub open spec fn wf(self) -> bool {
        &&& self.next <= self.plan.entries.len()
        &&& self.tally.done_bytes + self.bytes_left() <= self.tally.total_bytes
        &&& self.tally.done_files + self.files_left() <= self.tally.total_files
        &&& self.phase_target() matches Some(u) ==> self.next < self.plan.entries.len()
            && self.target() == Ok::<UriView, ErrorView>(u)
        &&& self.phase is Start ==> self.next == 0
        &&& self.phase is AskingCaps || self.phase is TryWithin || self.phase is CopyingWithin
            ==> self.next == 0 && self.plan.source.same_place(self.plan.dest)
        &&& self.phase matches OnePhaseView::Ended(r) ==> (r is Ok ==> self.next
            == self.plan.entries.len())
    }

    /// No answer is awaited.
    pub open spec fn ready(self) -> bool {
        match self.phase {
            OnePhaseView::AskingCaps => false,
            OnePhaseView::CopyingWithin => false,
            OnePhaseView::MakingDir(_) => false,
            OnePhaseView::Probing(_) => false,
            OnePhaseView::Reading(_) => false,
            OnePhaseView::Writing(_) => false,
            _ => true,
        }
    }

    /// How a target is written.
    pub open spec fn write_opts(self) -> WriteOpts {
        WriteOpts { overwrite: self.opts.overwrite, create_parents: true }
    }

    /// The request whose answer is awaited.
    pub open spec fn request(self) -> RequestView
        recommends
            !self.ready(),
    {
        match self.phase {
            OnePhaseView::CopyingWithin => RequestView::CopyWithin {
                from: self.plan.source,
                to: self.plan.dest,
                opts: self.opts,
            },
            OnePhaseView::MakingDir(u) => RequestView::Mkdir(u),
            OnePhaseView::Probing(u) => RequestView::Stat(u),
            OnePhaseView::Reading(_) => RequestView::Read(self.entry().0),
            OnePhaseView::Writing(u) => RequestView::Write(u, self.write_opts()),
            _ => RequestView::Caps,
        }
    }

    /// The provider whose answer is awaited: the target's for what is looked
    /// up and made there, else the source's.
    pub open spec fn asked(self) -> usize {
        match self.phase {
            OnePhaseView::MakingDir(_) => self.plan.to,
            OnePhaseView::Probing(_) => self.plan.to,
            OnePhaseView::Writing(_) => self.plan.to,
            _ => self.plan.from,
        }
    }

    pub open spec fn at(self, phase: OnePhaseView) -> OneView {
        OneView { phase, ..self }
    }

    pub open spec fn fails(self, e: ErrorView) -> OneView {
        self.at(OnePhaseView::Ended(Err(e)))
    }

    /// The call of the phase.
    pub open spec fn asks(self) -> (OneView, ActionView) {
        (
            self,
            ActionView::Call(CallView { provider: self.asked(), request: self.request() }),
        )
    }

    /// The entry in hand was dealt with.
    pub open spec fn counted(self) -> OneView {
        OneView {
            next: self.next + 1,
            phase: OnePhaseView::Entry,
            tally: Tally {
                done_bytes: (self.tally.done_bytes + self.entry().1.size) as u64,
                done_files: (self.tally.done_files + 1) as u64,
                ..self.tally
            },
            ..self
        }
    }

    /// All entries were dealt with at once.
    pub open spec fn counted_all(self) -> OneView {
        OneView {
            next: self.plan.entries.len(),
            phase: OnePhaseView::Ended(Ok(())),
            tally: Tally {
                done_bytes: (self.tally.done_bytes + bytes_from(self.plan.entries, 0)) as u64,
                done_files: (self.tally.done_files + self.plan.entries.len()) as u64,
                ..self.tally
            },
            ..self
        }
    }

    /// What follows for the next entry: a directory is made; a file is looked
    /// for first where it must not be overwritten, and else read.
    pub open spec fn entry_advanced(self, cancelled: bool) -> (OneView, ActionView) {
        if self.next >= self.plan.entries.len() {
            (self.at(OnePhaseView::Ended(Ok(()))), ActionView::Done)
        } else if cancelled {
            (self.fails(ErrorView::Cancelled), ActionView::Done)
        } else {
            match self.target() {
                Err(e) => (self.fails(e), ActionView::Done),
                Ok(u) => if self.entry().1.file_type == FileType::Directory {
                    self.at(OnePhaseView::MakingDir(u)).asks()
                } else if !self.opts.overwrite {
                    self.at(OnePhaseView::Probing(u)).asks()
                } else {
                    self.at(OnePhaseView::Reading(u)).asks()
                },
            }
        }
    }

    /// What follows: within one place the provider is asked to copy by itself,
    /// where it can; else the entries are copied one after the other.
    pub open spec fn advanced(self, cancelled: bool) -> (OneView, ActionView) {
        match self.phase {
            OnePhaseView::Start => if cancelled {
                (self.fails(ErrorView::Cancelled), ActionView::Done)
            } else if self.plan.source.same_place(self.plan.dest) {
                self.at(OnePhaseView::AskingCaps).asks()
            } else {
                (self.at(OnePhaseView::Entry), ActionView::Again)
            },
            OnePhaseView::TryWithin => self.at(OnePhaseView::CopyingWithin).asks(),
            OnePhaseView::Entry => self.entry_advanced(cancelled),
            OnePhaseView::ToRead(u) => self.at(OnePhaseView::Reading(u)).asks(),
            OnePhaseView::ToWrite(u) => self.at(OnePhaseView::Writing(u)).asks(),
            _ => (self, ActionView::Done),
        }
    }

    /// What follows from an answer, and what is told of it.
    pub open spec fn resumed(self, reply: ReplyView) -> (OneView, Seq<EffectView>) {
        match (self.phase, reply) {
            (OnePhaseView::AskingCaps, ReplyView::Caps(caps)) => (
                self.at(
                    if caps.copy_within {
                        OnePhaseView::TryWithin
                    } else {
                        OnePhaseView::Entry
                    },
                ),
                Seq::empty(),
            ),
            (OnePhaseView::CopyingWithin, ReplyView::Unit(Ok(()))) => (
                self.counted_all(),
                seq![
                    EffectView::Progress(self.counted_all().tally, self.plan.dest),
                    made(self.plan.dest),
                ],
            ),
            (
                OnePhaseView::CopyingWithin,
                ReplyView::Unit(Err(ErrorView::NotSupported { .. })),
            ) => (self.at(OnePhaseView::Entry), Seq::empty()),
            (
                OnePhaseView::MakingDir(u),
                ReplyView::Unit(Err(ErrorView::AlreadyExists(_))),
            ) => (self.counted(), seq![EffectView::Progress(self.counted().tally, u)]),
            (OnePhaseView::MakingDir(u), ReplyView::Unit(Ok(()))) => (
                self.counted(),
                seq![made(u), EffectView::Progress(self.counted().tally, u)],
            ),
            (OnePhaseView::Probing(u), ReplyView::Stat(Ok(_))) => (
                self.fails(ErrorView::AlreadyExists(u)),
                Seq::empty(),
            ),
            (OnePhaseView::Probing(u), ReplyView::Stat(Err(_))) => (
                self.at(OnePhaseView::ToRead(u)),
                Seq::empty(),
            ),
            (OnePhaseView::Reading(u), ReplyView::Unit(Ok(()))) => (
                self.at(OnePhaseView::ToWrite(u)),
                Seq::empty(),
            ),
            (OnePhaseView::Writing(u), ReplyView::Unit(Ok(()))) => (
                self.counted(),
                seq![made(u), EffectView::Progress(self.counted().tally, u)],
            ),
            (_, ReplyView::Unit(Err(e))) => (self.fails(e), Seq::empty()),
            _ => (self, Seq::empty()),
        }
    }
}

proof fn lemma_bytes_bound(entries: Seq<(UriView, StatView)>, i: nat)
    requires
        i < entries.len(),
    ensures
        bytes_from(entries, i) == entries[i as int].1.size + bytes_from(entries, i + 1),
{
}

/// The bytes of all entries of a plan.
fn total_size(entries: &Vec<(VfsUri, Stat)>) -> (r: u64)
    requires
        bytes_from(found_views(entries@), 0) <= u64::MAX,
    ensures
        r == bytes_from(found_views(entries@), 0),
{
    let ghost views = found_views(entries@);
    let mut i: usize = entries.len();
    let mut sum: u64 = 0;
    while i > 0
        invariant
            i <= entries@.len(),
            views == found_views(entries@),
            sum == bytes_from(views, i as nat),
            bytes_from(views, 0) <= u64::MAX,
        decreases i,
    {
        i -= 1;
        proof {
            lemma_bytes_bound(views, i as nat);
            lemma_suffix(views, i as nat);
            assert(views[i as int].1.size == entries@[i as int].1.size);
        }
        sum += entries[i].1.size;
    }
    sum
}

proof fn lemma_suffix(entries: Seq<(UriView, StatView)>, i: nat)
    requires
        i <= entries.len(),
    ensures
        bytes_from(entries, i) <= bytes_from(entries, 0),
    decreases i,
{
    if i > 0 {
        lemma_bytes_bound(entries, (i - 1) as nat);
        lemma_suffix(entries, (i - 1) as nat);
    }
}

impl CopyOne {
    /// The copy of a source by its plan, with the tally so far.
    pub fn new(plan: Plan, opts: CopyOpts, tally: Tally) -> (r: CopyOne)
        requires
            OneView::start(plan@, opts, tally).wf(),
        ensures
            r@ == OneView::start(plan@, opts, tally),
            r@.wf(),
    {
        CopyOne { plan, opts, next: 0, phase: OnePhase::Start, tally }
    }

    fn ask(&self, provider: usize, request: Request) -> (r: Action)
        ensures
            r@ == ActionView::Call(CallView { provider, request: request@ }),
    {
        Action::Call(ProviderCall { provider, request })
    }

    fn read_entry(&mut self, target: VfsUri) -> (r: Action)
        requires
            old(self)@.next < old(self)@.plan.entries.len(),
        ensures
            (final(self)@, r@) == old(self)@.at(OnePhaseView::Reading(target@)).asks(),
    {
        let uri = self.plan.entries[self.next].0.clone();
        self.phase = OnePhase::Reading(target);
        self.ask(self.plan.from, Request::Read(uri))
    }

    fn advance_entry(&mut self, cancelled: bool) -> (r: Action)
        requires
            old(self)@.wf(),
            old(self)@.phase is Entry,
        ensures
            (final(self)@, r@) == old(self)@.entry_advanced(cancelled),
    {
        if self.next >= self.plan.entries.len() {
            self.phase = OnePhase::Ended(Ok(()));
            return Action::Done;
        }
        if cancelled {
            self.phase = OnePhase::Ended(Err(VfsError::Cancelled));
            return Action::Done;
        }
        let depth: usize = self.plan.source.depth();
        assert(self@.plan.entries[self.next as int] == (
            self.plan.entries@[self.next as int].0@,
            self.plan.entries@[self.next as int].1@,
        ));
        match self.plan.entries[self.next].0.relocate(depth, &self.plan.dest) {
            Err(e) => {
                self.phase = OnePhase::Ended(Err(e));
                Action::Done
            },
            Ok(target) => {
                if self.plan.entries[self.next].1.file_type == FileType::Directory {
                    self.phase = OnePhase::MakingDir(target.clone());
                    self.ask(self.plan.to, Request::Mkdir(target))
                } else if !self.opts.overwrite {
                    self.phase = OnePhase::Probing(target.clone());
                    self.ask(self.plan.to, Request::Stat(target))
                } else {
                    self.read_entry(target)
                }
            },
        }
    }

    /// What to do next.
    pub fn advance(&mut self, cancelled: bool) -> (r: Action)
        requires
            old(self)@.wf(),
            old(self)@.ready(),
        ensures
            final(self)@.wf(),
            (final(self)@, r@) == old(self)@.advanced(cancelled),
            r@ is Call ==> !final(self)@.ready() && r@->0.request == final(self)@.request(),
            r@ is Again ==> final(self)@.ready(),
            r@ is Done ==> final(self)@.phase is Ended,
    {
        match &self.phase {
            OnePhase::Start => {
                if cancelled {
                    self.phase = OnePhase::Ended(Err(VfsError::Cancelled));
                    return Action::Done;
                }
                if self.plan.source.same_place(&self.plan.dest) {
                    self.phase = OnePhase::AskingCaps;
                    return self.ask(self.plan.from, Request::Caps);
                }
                self.phase = OnePhase::Entry;
                Action::Again
            },
            OnePhase::TryWithin => {
                let from = self.plan.source.clone();
                let to = self.plan.dest.clone();
                self.phase = OnePhase::CopyingWithin;
                self.ask(self.plan.from, Request::CopyWithin { from, to, opts: self.opts })
            },
            OnePhase::Entry => self.advance_entry(cancelled),
            OnePhase::ToRead(target) => {
                let target = target.clone();
                self.read_entry(target)
            },
            OnePhase::ToWrite(target) => {
                let target = target.clone();
                let opts = WriteOpts { overwrite: self.opts.overwrite, create_parents: true };
                self.phase = OnePhase::Writing(target.clone());
                self.ask(self.plan.to, Request::Write(target, opts))
            },
            _ => Action::Done,
        }
    }

    /// Counts the entry in hand as dealt with.
    fn count(&mut self)
        requires
            old(self)@.wf(),
            old(self)@.next < old(self)@.plan.entries.len(),
        ensures
            final(self)@.wf(),
            final(self)@ == old(self)@.counted(),
    {
        proof {
            lemma_bytes_bound(self@.plan.entries, self@.next);
            assert(self@.plan.entries[self.next as int].1.size
                == self.plan.entries@[self.next as int].1.size);
            assert(self.next < self.plan.entries.len());
        }
        self.tally.done_files = self.tally.done_files + 1;
        self.tally.done_bytes = self.tally.done_bytes + self.plan.entries[self.next].1.size;
        self.next = self.next + 1;
        self.phase = OnePhase::Entry;
    }

    /// Counts the entry in hand as dealt with and tells of it.
    fn count_and_tell(&mut self, target: VfsUri, created: bool) -> (r: Vec<Effect>)
        requires
            old(self)@.wf(),
            old(self)@.next < old(self)@.plan.entries.len(),
        ensures
            final(self)@.wf(),
            final(self)@ == old(self)@.counted(),
            effect_views(r@) == if created {
                seq![made(target@), EffectView::Progress(old(self)@.counted().tally, target@)]
            } else {
                seq![EffectView::Progress(old(self)@.counted().tally, target@)]
            },
    {
        self.count();
        let mut told: Vec<Effect> = Vec::new();
        if created {
            told.push(Effect::Event(FsEvent::of(FsEventKind::Created, &target)));
        }
        let ghost uri = target@;
        let progress = Effect::Progress(self.tally, target);
        told.push(progress);
        if created {
            assert(effect_views(told@) =~= seq![
                made(uri),
                EffectView::Progress(self.tally, uri),
            ]);
        } else {
            assert(effect_views(told@) =~= seq![EffectView::Progress(self.tally, uri)]);
        }
        told
    }

    /// Takes in the answer to the call that was named, and gives what is to be
    /// told, in order.
    pub fn resume(&mut self, reply: Reply) -> (r: Vec<Effect>)
        requires
            old(self)@.wf(),
            !old(self)@.ready(),
            answers(reply@, old(self)@.request()),
        ensures
            final(self)@.wf(),
            final(self)@.ready(),
            (final(self)@, effect_views(r@)) == old(self)@.resumed(reply@),
    {
        let none: Vec<Effect> = Vec::new();
        assert(effect_views(none@) =~= Seq::<EffectView>::empty());
        match (&self.phase, reply) {
            (OnePhase::AskingCaps, Reply::Caps(caps)) => {
                self.phase = if caps.copy_within {
                    OnePhase::TryWithin
                } else {
                    OnePhase::Entry
                };
                none
            },
            (OnePhase::CopyingWithin, Reply::Unit(Ok(()))) => {
                let bytes: u64 = total_size(&self.plan.entries);
                self.tally.done_bytes = self.tally.done_bytes + bytes;
                self.tally.done_files = self.tally.done_files + self.plan.entries.len() as u64;
                self.next = self.plan.entries.len();
                self.phase = OnePhase::Ended(Ok(()));
                let mut told: Vec<Effect> = Vec::new();
                told.push(Effect::Progress(self.tally, self.plan.dest.clone()));
                told.push(Effect::Event(FsEvent::of(FsEventKind::Created, &self.plan.dest)));
                proof {
                    assert(effect_views(told@) =~= seq![
                        EffectView::Progress(old(self)@.counted_all().tally, old(self)@.plan.dest),
                        made(old(self)@.plan.dest),
                    ]);
                }
                told
            },
            (OnePhase::CopyingWithin, Reply::Unit(Err(VfsError::NotSupported { .. }))) => {
                self.phase = OnePhase::Entry;
                none
            },
            (OnePhase::MakingDir(target), Reply::Unit(Err(VfsError::AlreadyExists(_)))) => {
                let target = target.clone();
                self.count_and_tell(target, false)
            },
            (OnePhase::MakingDir(target), Reply::Unit(Ok(()))) => {
                let target = target.clone();
                self.count_and_tell(target, true)
            },
            (OnePhase::Probing(target), Reply::Stat(Ok(_))) => {
                let target = target.clone();
                self.phase = OnePhase::Ended(Err(VfsError::AlreadyExists(target)));
                none
            },
            (OnePhase::Probing(target), Reply::Stat(Err(_))) => {
                let target = target.clone();
                self.phase = OnePhase::ToRead(target);
                none
            },
            (OnePhase::Reading(target), Reply::Unit(Ok(()))) => {
                let target = target.clone();
                self.phase = OnePhase::ToWrite(target);
                none
            },
            (OnePhase::Writing(target), Reply::Unit(Ok(()))) => {
                let target = target.clone();
                self.count_and_tell(target, true)
            },
            (_, Reply::Unit(Err(e))) => {
                self.phase = OnePhase::Ended(Err(e));
                none
            },
            _ => none,
        }
    }

    /// The source, how its copy ended, and the tally after it.
    pub fn finish(self) -> (r: (VfsUri, Result<(), VfsError>, Tally))
        requires
            self@.phase is Ended,
        ensures
            r.0@ == self@.plan.source,
            self@.phase == OnePhaseView::Ended(unit_view(r.1)),
            r.2 == self@.tally,
    {
        match self.phase {
            OnePhase::Ended(result) => (self.plan.source, result, self.tally),
            _ => (self.plan.source, Ok(()), self.tally),
        }
    }
}

/// What the copy of a source asks for: of the target's provider only uris at
/// and below the target, of the source's provider only entries of the plan.
pub proof fn law_copy_stays_below_its_target(one: OneView, cancelled: bool)
    requires
        one.wf(),
        one.ready(),
    ensures
        one.advanced(cancelled).1 matches ActionView::Call(call) ==> match call.request {
            RequestView::Mkdir(u) => call.provider == one.plan.to && one.plan.dest.covers(u),
            RequestView::Stat(u) => call.provider == one.plan.to && one.plan.dest.covers(u),
            RequestView::Write(u, opts) => call.provider == one.plan.to && one.plan.dest.covers(u)
                && opts == one.write_opts(),
            RequestView::Read(u) => call.provider == one.plan.from && u == one.entry().0,
            RequestView::CopyWithin { from, to, opts } => call.provider == one.plan.from && from
                == one.plan.source && to == one.plan.dest && opts == one.opts
                && one.plan.source.same_place(one.plan.dest),
            RequestView::Caps => call.provider == one.plan.from,
            _ => false,
        },
{
    let suffix = crate::uri::suffix_of(one.entry().0, one.plan.source.segments.len());
    crate::uri::lemma_graft(one.plan.dest, suffix);
    if let Ok(u) = one.target() {
        let n = one.plan.dest.segments.len() as int;
        assert(u.segments.take(n) =~= one.plan.dest.segments);
        if suffix.len() == 0 {
            assert(u.segments =~= one.plan.dest.segments);
            assert(u =~= one.plan.dest);
        }
    }
}

/// Without `overwrite` a file is written only after it was seen not to be
/// there; one that is there ends the copy.
pub proof fn law_existing_file_is_refused(one: OneView, cancelled: bool, st: StatView)
    requires
        one.wf(),
        one.phase is Entry,
        !one.opts.overwrite,
    ensures
        one.advanced(cancelled).1 matches ActionView::Call(call) ==> {
            ||| call.request is Mkdir
            ||| call.request is Stat && {
                let probing = one.advanced(cancelled).0;
                probing.resumed(ReplyView::Stat(Ok(st))) == (
                    probing.fails(ErrorView::AlreadyExists(one.target()->Ok_0)),
                    Seq::<EffectView>::empty(),
                )
            }
        },
{
}

} // verus!
