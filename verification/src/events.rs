//! Batches of events: what a client hears of many changes in a short time.
use vstd::prelude::*;
use crate::types::{event, event_views, EventView, FsEvent, FsEventKind};
use crate::uri::{uri_views, UriView, VfsUri};

verus! {

/// How long a batch waits for further events, in milliseconds.
pub const COALESCE_WINDOW_MS: u64 = 50;

/// The maximum number of events in a batch.
pub const MAX_BATCH_SIZE: usize = 500;

/// The number of gathered events at which a batch is closed before its time.
pub const FULL_BATCH_SIZE: usize = 1000;

/// The directory in which the event took place.
pub open spec fn root_of(e: EventView) -> UriView {
    match e.uri.parent() {
        Some(p) => p,
        None => e.uri,
    }
}

/// The directories of the events, each once, by first occurrence.
pub open spec fn roots(events: Seq<EventView>) -> Seq<UriView>
    decreases events.len(),
{
    if events.len() == 0 {
        Seq::empty()
    } else {
        let before = roots(events.drop_last());
        let root = root_of(events.last());
        if before.contains(root) {
            before
        } else {
            before.push(root)
        }
    }
}

/// The uris, each once, by first occurrence.
pub open spec fn firsts(uris: Seq<UriView>) -> Seq<UriView>
    decreases uris.len(),
{
    if uris.len() == 0 {
        Seq::empty()
    } else {
        let before = firsts(uris.drop_last());
        if before.contains(uris.last()) {
            before
        } else {
            before.push(uris.last())
        }
    }
}

/// The directories with those that lie deeper than so many segments folded
/// into the ones above them, each once, by first occurrence.
pub open spec fn folded(dirs: Seq<UriView>, depth: nat) -> Seq<UriView> {
    firsts(dirs.map_values(|u: UriView| u.cut(depth)))
}

/// The number of segments of the deepest directory.
pub open spec fn deepest(dirs: Seq<UriView>) -> nat
    decreases dirs.len(),
{
    if dirs.len() == 0 {
        0
    } else {
        let before = deepest(dirs.drop_last());
        let last = dirs.last().segments.len();
        if before < last {
            last
        } else {
            before
        }
    }
}

/// The directories, folded until they fit into a batch: the deepest first, and
/// no further than needed.  Roots that still do not fit are left out from the
/// end.
pub open spec fn fitted(dirs: Seq<UriView>, depth: nat) -> Seq<UriView>
    decreases depth,
{
    let now = folded(dirs, depth);
    if now.len() <= MAX_BATCH_SIZE {
        now
    } else if depth == 0 {
        now.take(MAX_BATCH_SIZE as int)
    } else {
        fitted(dirs, (depth - 1) as nat)
    }
}

/// The directories that a client is told of when a batch overflows.
pub open spec fn told_dirs(dirs: Seq<UriView>) -> Seq<UriView> {
    if dirs.len() <= MAX_BATCH_SIZE {
        dirs
    } else {
        fitted(dirs, deepest(dirs))
    }
}

/// An overflow event for each directory.
pub open spec fn overflows(dirs: Seq<UriView>) -> Seq<EventView> {
    dirs.map_values(|u: UriView| event(FsEventKind::Overflow, u))
}

/// The event tells that the uri was created.
pub open spec fn creates(e: EventView, uri: UriView) -> bool {
    e.kind == FsEventKind::Created && e.uri == uri
}

/// `i` is the first place that tells of the creation of the uri.
pub open spec fn first_creation(out: Seq<EventView>, uri: UriView, i: int) -> bool {
    &&& 0 <= i < out.len()
    &&& creates(out[i], uri)
    &&& forall|j: int| 0 <= j < i ==> !creates(out[j], uri)
}

/// The events without the first that tells of the creation of the uri.
pub open spec fn without_creation(out: Seq<EventView>, uri: UriView) -> Seq<EventView> {
    if exists|i: int| first_creation(out, uri, i) {
        out.remove(choose|i: int| first_creation(out, uri, i))
    } else {
        out
    }
}

/// The events with one more taken in: a repeated one is dropped, and a removal
/// takes the place of a creation.
pub open spec fn absorbed(out: Seq<EventView>, e: EventView) -> Seq<EventView> {
    if out.contains(e) {
        out
    } else if e.kind == FsEventKind::Removed {
        without_creation(out, e.uri).push(e)
    } else {
        out.push(e)
    }
}

/// The events, taken in one after the other.
pub open spec fn merged(events: Seq<EventView>) -> Seq<EventView>
    decreases events.len(),
{
    if events.len() == 0 {
        Seq::empty()
    } else {
        absorbed(merged(events.drop_last()), events.last())
    }
}

/// What a client is told of a batch of events.
pub open spec fn coalesced(events: Seq<EventView>) -> Seq<EventView> {
    if events.len() > MAX_BATCH_SIZE {
        overflows(told_dirs(roots(events)))
    } else {
        merged(events)
    }
}

fn contains_uri(uris: &Vec<VfsUri>, uri: &VfsUri) -> (r: bool)
    ensures
        r == uri_views(uris@).contains(uri@),
{
    let mut i: usize = 0;
    while i < uris.len()
        invariant
            i <= uris@.len(),
            forall|j: int| 0 <= j < i ==> (#[trigger] uris@[j])@ != uri@,
        decreases uris.len() - i,
    {
        if uris[i].same(uri) {
            assert(uri_views(uris@)[i as int] == uri@);
            return true;
        }
        i += 1;
    }
    assert forall|j: int| 0 <= j < uri_views(uris@).len() implies uri_views(uris@)[j] != uri@ by {
        assert(uri_views(uris@)[j] == uris@[j]@);
    }
    false
}

fn contains_event(events: &Vec<FsEvent>, e: &FsEvent) -> (r: bool)
    ensures
        r == event_views(events@).contains(e@),
{
    let mut i: usize = 0;
    while i < events.len()
        invariant
            i <= events@.len(),
            forall|j: int| 0 <= j < i ==> (#[trigger] events@[j])@ != e@,
        decreases events.len() - i,
    {
        if events[i].same(e) {
            assert(event_views(events@)[i as int] == e@);
            return true;
        }
        i += 1;
    }
    assert forall|j: int| 0 <= j < event_views(events@).len() implies event_views(events@)[j]
        != e@ by {
        assert(event_views(events@)[j] == events@[j]@);
    }
    false
}

fn find_creation(events: &Vec<FsEvent>, uri: &VfsUri) -> (r: Option<usize>)
    ensures
        match r {
            Some(i) => first_creation(event_views(events@), uri@, i as int),
            None => forall|i: int| !first_creation(event_views(events@), uri@, i),
        },
{
    let mut i: usize = 0;
    let ghost views = event_views(events@);
    while i < events.len()
        invariant
            i <= events@.len(),
            views == event_views(events@),
            forall|j: int| 0 <= j < i ==> !creates(#[trigger] views[j], uri@),
        decreases events.len() - i,
    {
        assert(views[i as int] == events@[i as int]@);
        if events[i].kind == FsEventKind::Created && events[i].uri.same(uri) {
            return Some(i);
        }
        i += 1;
    }
    None
}

/// There is no more than one first creation.
pub proof fn lemma_first_creation_unique(out: Seq<EventView>, uri: UriView, i: int)
    requires
        first_creation(out, uri, i),
    ensures
        without_creation(out, uri) == out.remove(i),
{
    let c = choose|j: int| first_creation(out, uri, j);
    assert(first_creation(out, uri, c));
    assert(c == i);
}

/// Folds the directories that lie deeper than so many segments into the ones
/// above them.
fn fold_dirs(dirs: &Vec<VfsUri>, depth: usize) -> (r: Vec<VfsUri>)
    ensures
        uri_views(r@) == folded(uri_views(dirs@), depth as nat),
{
    let mut out: Vec<VfsUri> = Vec::new();
    let mut i: usize = 0;
    let ghost cuts = uri_views(dirs@).map_values(|u: UriView| u.cut(depth as nat));
    assert(cuts.take(0) =~= Seq::<UriView>::empty());
    assert(uri_views(out@) =~= Seq::<UriView>::empty());
    while i < dirs.len()
        invariant
            i <= dirs@.len(),
            cuts == uri_views(dirs@).map_values(|u: UriView| u.cut(depth as nat)),
            uri_views(out@) == firsts(cuts.take(i as int)),
        decreases dirs.len() - i,
    {
        let dir = dirs[i].cut(depth);
        proof {
            assert(cuts.take(i + 1).drop_last() =~= cuts.take(i as int));
            assert(cuts.take(i + 1).last() == dir@);
        }
        if !contains_uri(&out, &dir) {
            let ghost so_far = uri_views(out@);
            let ghost added = dir@;
            out.push(dir);
            assert(uri_views(out@) =~= so_far.push(added));
        }
        i += 1;
    }
    assert(cuts.take(cuts.len() as int) =~= cuts);
    out
}

fn deepest_dir(dirs: &Vec<VfsUri>) -> (r: usize)
    ensures
        r == deepest(uri_views(dirs@)),
{
    let mut depth: usize = 0;
    let mut i: usize = 0;
    let ghost views = uri_views(dirs@);
    assert(views.take(0) =~= Seq::<UriView>::empty());
    while i < dirs.len()
        invariant
            i <= dirs@.len(),
            views == uri_views(dirs@),
            depth == deepest(views.take(i as int)),
        decreases dirs.len() - i,
    {
        proof {
            assert(views.take(i + 1).drop_last() =~= views.take(i as int));
            assert(views.take(i + 1).last() == dirs@[i as int]@);
        }
        let here: usize = dirs[i].depth();
        if depth < here {
            depth = here;
        }
        i += 1;
    }
    assert(views.take(views.len() as int) =~= views);
    depth
}

/// Folds directories until they fit into a batch.
fn fit_dirs(dirs: Vec<VfsUri>) -> (r: Vec<VfsUri>)
    ensures
        uri_views(r@) == told_dirs(uri_views(dirs@)),
{
    if dirs.len() <= MAX_BATCH_SIZE {
        return dirs;
    }
    let ghost views = uri_views(dirs@);
    let mut depth: usize = deepest_dir(&dirs);
    let mut now = fold_dirs(&dirs, depth);
    while now.len() > MAX_BATCH_SIZE && depth > 0
        invariant
            views == uri_views(dirs@),
            uri_views(now@) == folded(views, depth as nat),
            fitted(views, depth as nat) == fitted(views, deepest(views)),
        decreases depth,
    {
        depth -= 1;
        now = fold_dirs(&dirs, depth);
    }
    if now.len() > MAX_BATCH_SIZE {
        let ghost before = uri_views(now@);
        now.truncate(MAX_BATCH_SIZE);
        assert(uri_views(now@) =~= before.take(MAX_BATCH_SIZE as int));
    }
    now
}

/// What a client is told of a batch of events.
pub fn coalesce(events: Vec<FsEvent>) -> (r: Vec<FsEvent>)
    ensures
        r@.len() <= MAX_BATCH_SIZE,
        event_views(r@) == coalesced(event_views(events@)),
{
    let ghost views = event_views(events@);
    proof {
        law_batch_is_bounded(views);
    }
    assert(views.take(0) =~= Seq::<EventView>::empty());
    if events.len() > MAX_BATCH_SIZE {
        let mut dirs: Vec<VfsUri> = Vec::new();
        let mut i: usize = 0;
        assert(uri_views(dirs@) =~= Seq::<UriView>::empty());
        while i < events.len()
            invariant
                i <= events@.len(),
                views == event_views(events@),
                uri_views(dirs@) == roots(views.take(i as int)),
            decreases events.len() - i,
        {
            proof {
                assert(views.take(i + 1).drop_last() =~= views.take(i as int));
                assert(views.take(i + 1).last() == events@[i as int]@);
            }
            let root = match events[i].uri.parent() {
                Some(p) => p,
                None => events[i].uri.clone(),
            };
            if !contains_uri(&dirs, &root) {
                let ghost so_far = uri_views(dirs@);
                let ghost added = root@;
                dirs.push(root);
                assert(uri_views(dirs@) =~= so_far.push(added));
            }
            i += 1;
        }
        assert(views.take(views.len() as int) =~= views);
        let dirs = fit_dirs(dirs);
        let mut out: Vec<FsEvent> = Vec::new();
        let mut j: usize = 0;
        let ghost all = uri_views(dirs@);
        while j < dirs.len()
            invariant
                j <= dirs@.len(),
                all == uri_views(dirs@),
                event_views(out@) =~= overflows(all.take(j as int)),
            decreases dirs.len() - j,
        {
            let ghost so_far = event_views(out@);
            out.push(FsEvent::of(FsEventKind::Overflow, &dirs[j]));
            proof {
                assert(event_views(out@) =~= so_far.push(out@.last()@));
                assert(all.take(j + 1) =~= all.take(j as int).push(dirs@[j as int]@));
                assert(overflows(all.take(j + 1)) =~= overflows(all.take(j as int)).push(
                    event(FsEventKind::Overflow, dirs@[j as int]@),
                ));
            }
            j += 1;
        }
        assert(all.take(all.len() as int) =~= all);
        return out;
    }
    let mut out: Vec<FsEvent> = Vec::new();
    let mut i: usize = 0;
    assert(event_views(out@) =~= Seq::<EventView>::empty());
    while i < events.len()
        invariant
            i <= events@.len(),
            views == event_views(events@),
            event_views(out@) == merged(views.take(i as int)),
        decreases events.len() - i,
    {
        let ghost so_far = event_views(out@);
        let ev = &events[i];
        i += 1;
        proof {
            assert(views.take(i as int).drop_last() =~= views.take(i - 1));
            assert(views.take(i as int).last() == ev@);
        }
        if contains_event(&out, ev) {
            continue;
        }
        if ev.kind == FsEventKind::Removed {
            if let Some(pos) = find_creation(&out, &ev.uri) {
                out.remove(pos);
                proof {
                    lemma_first_creation_unique(so_far, ev@.uri, pos as int);
                    assert(event_views(out@) =~= so_far.remove(pos as int));
                }
            }
        }
        let ghost base = event_views(out@);
        out.push(ev.clone());
        assert(event_views(out@) =~= base.push(ev@));
    }
    assert(views.take(views.len() as int) =~= views);
    out
}

/// What reaches the event bus while it runs.
#[derive(Debug)]
pub enum BusInput {
    /// An event was sent.
    Event(FsEvent),
    /// The window of the batch is over.
    Deadline,
    /// Nobody can send any more.
    Closed,
}

/// What the event bus does next.
#[derive(Debug)]
pub enum BusAction {
    /// Open the window of a new batch, and wait for it and for events.
    OpenWindow,
    /// Wait on.
    Wait,
    /// Hand the events to the client; wait for the next event.
    Emit(Vec<FsEvent>),
    /// End.
    Stop,
}

pub enum BusInputView {
    Event(EventView),
    Deadline,
    Closed,
}

pub enum BusActionView {
    OpenWindow,
    Wait,
    Emit(Seq<EventView>),
    Stop,
}

impl View for BusInput {
    type V = BusInputView;

    open spec fn view(&self) -> BusInputView {
        match self {
            BusInput::Event(e) => BusInputView::Event(e@),
            BusInput::Deadline => BusInputView::Deadline,
            BusInput::Closed => BusInputView::Closed,
        }
    }
}

impl View for BusAction {
    type V = BusActionView;

    open spec fn view(&self) -> BusActionView {
        match self {
            BusAction::OpenWindow => BusActionView::OpenWindow,
            BusAction::Wait => BusActionView::Wait,
            BusAction::Emit(events) => BusActionView::Emit(event_views(events@)),
            BusAction::Stop => BusActionView::Stop,
        }
    }
}

/// The batch and the action that follow when `input` reaches the event bus.
pub open spec fn bus_step(batch: Seq<EventView>, input: BusInputView) -> (
    Seq<EventView>,
    BusActionView,
) {
    match input {
        BusInputView::Event(e) => if batch.len() == 0 {
            (seq![e], BusActionView::OpenWindow)
        } else if batch.len() + 1 >= FULL_BATCH_SIZE {
            (Seq::empty(), BusActionView::Emit(coalesced(batch.push(e))))
        } else {
            (batch.push(e), BusActionView::Wait)
        },
        BusInputView::Deadline => if batch.len() == 0 {
            (batch, BusActionView::Wait)
        } else {
            (Seq::empty(), BusActionView::Emit(coalesced(batch)))
        },
        BusInputView::Closed => if batch.len() == 0 {
            (batch, BusActionView::Stop)
        } else {
            (Seq::empty(), BusActionView::Emit(coalesced(batch)))
        },
    }
}

/// The events that wait for the end of their window.
#[derive(Debug)]
pub struct EventBatch {
    events: Vec<FsEvent>,
}

impl View for EventBatch {
    type V = Seq<EventView>;

    closed spec fn view(&self) -> Seq<EventView> {
        event_views(self.events@)
    }
}

impl EventBatch {
    pub fn new() -> (r: EventBatch)
        ensures
            r@ == Seq::<EventView>::empty(),
    {
        let r = EventBatch { events: Vec::new() };
        assert(r@ =~= Seq::<EventView>::empty());
        r
    }

    /// Takes in what reached the event bus and says what to do next.
    pub fn step(&mut self, input: BusInput) -> (action: BusAction)
        ensures
            (final(self)@, action@) == bus_step(old(self)@, input@),
            action matches BusAction::Emit(told) ==> told@.len() <= MAX_BATCH_SIZE,
    {
        let mut events: Vec<FsEvent> = Vec::new();
        std::mem::swap(&mut events, &mut self.events);
        let ghost batch = event_views(events@);
        assert(event_views(self.events@) =~= Seq::<EventView>::empty());
        match input {
            BusInput::Event(e) => {
                let ghost added = e@;
                let first = events.len() == 0;
                events.push(e);
                assert(event_views(events@) =~= batch.push(added));
                assert(first ==> batch.push(added) =~= seq![added]);
                if !first && events.len() >= FULL_BATCH_SIZE {
                    return BusAction::Emit(coalesce(events));
                }
                self.events = events;
                if first {
                    BusAction::OpenWindow
                } else {
                    BusAction::Wait
                }
            },
            BusInput::Deadline => {
                if events.len() == 0 {
                    assert(batch =~= Seq::<EventView>::empty());
                    BusAction::Wait
                } else {
                    BusAction::Emit(coalesce(events))
                }
            },
            BusInput::Closed => {
                if events.len() == 0 {
                    assert(batch =~= Seq::<EventView>::empty());
                    BusAction::Stop
                } else {
                    BusAction::Emit(coalesce(events))
                }
            },
        }
    }
}

/// The batch with the event of the input, if it brings one.
pub open spec fn batch_with(batch: Seq<EventView>, input: BusInputView) -> Seq<EventView> {
    match input {
        BusInputView::Event(e) => batch.push(e),
        _ => batch,
    }
}

/// The batches that the event bus has closed after it took in the inputs, as
/// they were before they were coalesced, and the batch that still waits.
pub open spec fn bus_run(inputs: Seq<BusInputView>) -> (Seq<Seq<EventView>>, Seq<EventView>)
    decreases inputs.len(),
{
    if inputs.len() == 0 {
        (Seq::empty(), Seq::empty())
    } else {
        let (closed, batch) = bus_run(inputs.drop_last());
        let (next, action) = bus_step(batch, inputs.last());
        match action {
            BusActionView::Emit(_) => (closed.push(batch_with(batch, inputs.last())), next),
            _ => (closed, next),
        }
    }
}

/// The events that the inputs bring.
pub open spec fn sent(inputs: Seq<BusInputView>) -> Seq<EventView>
    decreases inputs.len(),
{
    if inputs.len() == 0 {
        Seq::empty()
    } else {
        batch_with(sent(inputs.drop_last()), inputs.last())
    }
}

/// The events of batches in a row.
pub open spec fn in_a_row(batches: Seq<Seq<EventView>>) -> Seq<EventView>
    decreases batches.len(),
{
    if batches.len() == 0 {
        Seq::empty()
    } else {
        in_a_row(batches.drop_last()) + batches.last()
    }
}

proof fn lemma_merged_push(events: Seq<EventView>, e: EventView)
    ensures
        merged(events.push(e)) == absorbed(merged(events), e),
{
    assert(events.push(e).drop_last() =~= events);
}

proof fn lemma_without_creation(out: Seq<EventView>, uri: UriView, x: EventView)
    ensures
        without_creation(out, uri).len() <= out.len(),
        without_creation(out, uri).contains(x) ==> out.contains(x),
        out.contains(x) && !creates(x, uri) ==> without_creation(out, uri).contains(x),
        out.no_duplicates() ==> without_creation(out, uri).no_duplicates(),
{
    if exists|i: int| first_creation(out, uri, i) {
        let c = choose|i: int| first_creation(out, uri, i);
        let rest = out.remove(c);
        if rest.contains(x) {
            let i = choose|i: int| 0 <= i < rest.len() && rest[i] == x;
            let j = if i < c {
                i
            } else {
                i + 1
            };
            assert(out[j] == x);
        }
        if out.contains(x) && !creates(x, uri) {
            let j = choose|j: int| 0 <= j < out.len() && out[j] == x;
            let i = if j < c {
                j
            } else {
                j - 1
            };
            assert(rest[i] == x);
        }
        if out.no_duplicates() {
            assert forall|a: int, b: int|
                0 <= a < rest.len() && 0 <= b < rest.len() && a != b implies rest[a] != rest[b] by {
                let p = if a < c {
                    a
                } else {
                    a + 1
                };
                let q = if b < c {
                    b
                } else {
                    b + 1
                };
                assert(rest[a] == out[p] && rest[b] == out[q]);
            }
        }
    }
}

proof fn lemma_push_has(s: Seq<EventView>, e: EventView, x: EventView)
    ensures
        s.push(e).contains(x) <==> s.contains(x) || x == e,
        s.no_duplicates() && !s.contains(e) ==> s.push(e).no_duplicates(),
{
    let t = s.push(e);
    if t.contains(x) {
        let i = choose|i: int| 0 <= i < t.len() && t[i] == x;
        if i < s.len() {
            assert(s[i] == x);
        }
    }
    if s.contains(x) {
        let i = choose|i: int| 0 <= i < s.len() && s[i] == x;
        assert(t[i] == x);
    }
    assert(t[s.len() as int] == e);
    if s.no_duplicates() && !s.contains(e) {
        assert forall|a: int, b: int| 0 <= a < t.len() && 0 <= b < t.len() && a != b implies t[a]
            != t[b] by {
            if a < s.len() {
                assert(s.contains(s[a]));
            }
            if b < s.len() {
                assert(s.contains(s[b]));
            }
        }
    }
}

/// Events taken in one after the other: none is told twice, each that is told
/// took place, none is lost but for a creation that a removal replaced, and no
/// more are told than took place.
pub proof fn law_merged_events(events: Seq<EventView>, x: EventView)
    ensures
        merged(events).no_duplicates(),
        merged(events).len() <= events.len(),
        merged(events).contains(x) ==> events.contains(x),
        events.contains(x) && x.kind != FsEventKind::Created ==> merged(events).contains(x),
    decreases events.len(),
{
    if events.len() > 0 {
        let prev = events.drop_last();
        let e = events.last();
        let out = merged(prev);
        assert(prev.push(e) =~= events);
        law_merged_events(prev, x);
        law_merged_events(prev, e);
        lemma_push_has(prev, e, x);
        lemma_without_creation(out, e.uri, x);
        lemma_without_creation(out, e.uri, e);
        lemma_push_has(out, e, x);
        lemma_push_has(without_creation(out, e.uri), e, x);
    }
}

/// Whatever happened at a uri, the client is told of something there.
pub proof fn law_every_uri_is_told(events: Seq<EventView>, x: EventView)
    requires
        events.contains(x),
    ensures
        exists|y: EventView| #[trigger] merged(events).contains(y) && y.uri == x.uri,
    decreases events.len(),
{
    let prev = events.drop_last();
    let e = events.last();
    let out = merged(prev);
    assert(prev.push(e) =~= events);
    lemma_push_has(prev, e, x);
    if e.uri == x.uri {
        lemma_push_has(out, e, e);
        lemma_push_has(without_creation(out, e.uri), e, e);
        assert(merged(events).contains(e));
    } else {
        law_every_uri_is_told(prev, x);
        let y = choose|y: EventView| #[trigger] out.contains(y) && y.uri == x.uri;
        lemma_without_creation(out, e.uri, y);
        lemma_push_has(out, e, y);
        lemma_push_has(without_creation(out, e.uri), e, y);
        assert(merged(events).contains(y));
    }
}

/// A creation followed by the first removal of the same uri is told as the
/// removal alone.
pub proof fn law_created_then_removed(events: Seq<EventView>, uri: UriView)
    requires
        events.contains(event(FsEventKind::Created, uri)),
        !events.contains(event(FsEventKind::Removed, uri)),
        forall|x: EventView| #[trigger]
            events.contains(x) && creates(x, uri) ==> x == event(FsEventKind::Created, uri),
    ensures
        ({
            let told = merged(events.push(event(FsEventKind::Removed, uri)));
            &&& told.contains(event(FsEventKind::Removed, uri))
            &&& forall|x: EventView| #[trigger] told.contains(x) ==> !creates(x, uri)
        }),
{
    let gone = event(FsEventKind::Removed, uri);
    let made = event(FsEventKind::Created, uri);
    let out = merged(events);
    lemma_merged_push(events, gone);
    law_merged_events(events, gone);
    law_merged_events(events, made);
    let rest = without_creation(out, uri);
    lemma_push_has(rest, gone, gone);
    assert forall|x: EventView| #[trigger] rest.push(gone).contains(x) implies !creates(
        x,
        uri,
    ) by {
        lemma_push_has(rest, gone, x);
        lemma_without_creation(out, uri, x);
        law_merged_events(events, x);
        if x != gone && creates(x, uri) {
            assert(events.contains(x));
            assert(x == made);
            assert(out.contains(made));
            let j = choose|j: int| 0 <= j < out.len() && out[j] == made;
            assert forall|i: int| 0 <= i < out.len() && creates(#[trigger] out[i], uri) implies i
                == j by {
                assert(out.contains(out[i]));
                law_merged_events(events, out[i]);
            }
            assert(first_creation(out, uri, j));
            lemma_first_creation_unique(out, uri, j);
            assert(rest =~= out.remove(j));
            let k = choose|k: int| 0 <= k < rest.len() && rest[k] == made;
            let p = if k < j {
                k
            } else {
                k + 1
            };
            assert(out[p] == made);
        }
    }
}

/// The directories of a batch are those in which something took place, each
/// once.
pub proof fn law_directories_of_a_batch(events: Seq<EventView>, dir: UriView)
    ensures
        roots(events).no_duplicates(),
        roots(events).len() <= events.len(),
        roots(events).contains(dir) <==> exists|i: int|
            0 <= i < events.len() && root_of(#[trigger] events[i]) == dir,
    decreases events.len(),
{
    if events.len() > 0 {
        let prev = events.drop_last();
        let root = root_of(events.last());
        let before = roots(prev);
        law_directories_of_a_batch(prev, dir);
        law_directories_of_a_batch(prev, root);
        assert(events[events.len() - 1] == events.last());
        if exists|i: int| 0 <= i < prev.len() && root_of(#[trigger] prev[i]) == dir {
            let i = choose|i: int| 0 <= i < prev.len() && root_of(#[trigger] prev[i]) == dir;
            assert(events[i] == prev[i]);
        }
        if exists|i: int| 0 <= i < events.len() && root_of(#[trigger] events[i]) == dir {
            let i = choose|i: int| 0 <= i < events.len() && root_of(#[trigger] events[i]) == dir;
            if i < prev.len() {
                assert(prev[i] == events[i]);
            }
        }
        if !before.contains(root) {
            let now = before.push(root);
            assert(now[before.len() as int] == root);
            assert forall|a: int, b: int|
                0 <= a < now.len() && 0 <= b < now.len() && a != b implies now[a] != now[b] by {
                if a < before.len() {
                    assert(before.contains(before[a]));
                }
                if b < before.len() {
                    assert(before.contains(before[b]));
                }
            }
            if now.contains(dir) {
                let i = choose|i: int| 0 <= i < now.len() && now[i] == dir;
                if i < before.len() {
                    assert(before[i] == dir);
                }
            }
            if before.contains(dir) {
                let i = choose|i: int| 0 <= i < before.len() && before[i] == dir;
                assert(now[i] == dir);
            }
        }
    }
}

proof fn lemma_firsts(uris: Seq<UriView>, u: UriView)
    ensures
        firsts(uris).no_duplicates(),
        firsts(uris).len() <= uris.len(),
        firsts(uris).contains(u) <==> uris.contains(u),
    decreases uris.len(),
{
    if uris.len() > 0 {
        let prev = uris.drop_last();
        let e = uris.last();
        let before = firsts(prev);
        lemma_firsts(prev, u);
        lemma_firsts(prev, e);
        assert(uris =~= prev.push(e));
        lemma_uri_push_has(prev, e, u);
        lemma_uri_push_has(before, e, u);
    }
}

proof fn lemma_uri_push_has(s: Seq<UriView>, e: UriView, x: UriView)
    ensures
        s.push(e).contains(x) <==> s.contains(x) || x == e,
        s.no_duplicates() && !s.contains(e) ==> s.push(e).no_duplicates(),
{
    let t = s.push(e);
    if t.contains(x) {
        let i = choose|i: int| 0 <= i < t.len() && t[i] == x;
        if i < s.len() {
            assert(s[i] == x);
        }
    }
    if s.contains(x) {
        let i = choose|i: int| 0 <= i < s.len() && s[i] == x;
        assert(t[i] == x);
    }
    assert(t[s.len() as int] == e);
    if s.no_duplicates() && !s.contains(e) {
        assert forall|a: int, b: int| 0 <= a < t.len() && 0 <= b < t.len() && a != b implies t[a]
            != t[b] by {
            if a < s.len() {
                assert(s.contains(s[a]));
            }
            if b < s.len() {
                assert(s.contains(s[b]));
            }
        }
    }
}

proof fn lemma_cut_covers(u: UriView, depth: nat)
    ensures
        u.cut(depth).covers(u),
{
}

/// Each directory is covered by one of the folded, and each of the folded
/// covers a directory.
proof fn lemma_folded(dirs: Seq<UriView>, depth: nat)
    ensures
        folded(dirs, depth).no_duplicates(),
        forall|i: int|
            0 <= i < dirs.len() ==> folded(dirs, depth).contains(#[trigger] dirs[i].cut(depth)),
        forall|u: UriView| #[trigger]
            folded(dirs, depth).contains(u) ==> exists|i: int|
                0 <= i < dirs.len() && u.covers(#[trigger] dirs[i]),
{
    let cuts = dirs.map_values(|u: UriView| u.cut(depth));
    assert forall|i: int| 0 <= i < dirs.len() implies folded(dirs, depth).contains(
        #[trigger] dirs[i].cut(depth),
    ) by {
        assert(cuts[i] == dirs[i].cut(depth));
        lemma_firsts(cuts, dirs[i].cut(depth));
    }
    assert forall|u: UriView| #[trigger] folded(dirs, depth).contains(u) implies exists|i: int|
        0 <= i < dirs.len() && u.covers(#[trigger] dirs[i]) by {
        lemma_firsts(cuts, u);
        let i = choose|i: int| 0 <= i < cuts.len() && cuts[i] == u;
        lemma_cut_covers(dirs[i], depth);
        assert(u.covers(dirs[i]));
    }
    lemma_firsts(cuts, vstd::pervasive::arbitrary());
}

/// The directories fit when they are folded so far, and would not fit if those
/// one segment deeper were told.
pub open spec fn just_fits(dirs: Seq<UriView>, depth: nat) -> bool {
    &&& folded(dirs, depth).len() <= MAX_BATCH_SIZE
    &&& folded(dirs, depth + 1).len() > MAX_BATCH_SIZE
}

proof fn lemma_fitted(dirs: Seq<UriView>, depth: nat)
    ensures
        fitted(dirs, depth).len() <= MAX_BATCH_SIZE,
        fitted(dirs, depth).no_duplicates(),
        forall|u: UriView| #[trigger]
            fitted(dirs, depth).contains(u) ==> exists|i: int|
                0 <= i < dirs.len() && u.covers(#[trigger] dirs[i]),
        folded(dirs, depth).len() > MAX_BATCH_SIZE && folded(dirs, 0).len() <= MAX_BATCH_SIZE ==> exists|
            d: nat,
        | #[trigger]
            just_fits(dirs, d) && fitted(dirs, depth) == folded(dirs, d),
    decreases depth,
{
    lemma_folded(dirs, depth);
    let now = folded(dirs, depth);
    if now.len() > MAX_BATCH_SIZE {
        if depth == 0 {
            let cut = now.take(MAX_BATCH_SIZE as int);
            assert forall|u: UriView| #[trigger] cut.contains(u) implies exists|i: int|
                0 <= i < dirs.len() && u.covers(#[trigger] dirs[i]) by {
                let i = choose|i: int| 0 <= i < cut.len() && cut[i] == u;
                assert(now[i] == u);
                assert(now.contains(u));
            }
        } else {
            let above = (depth - 1) as nat;
            lemma_fitted(dirs, above);
            if folded(dirs, above).len() <= MAX_BATCH_SIZE {
                assert(just_fits(dirs, above));
            }
        }
    }
}

proof fn lemma_deepest(dirs: Seq<UriView>, i: int)
    requires
        0 <= i < dirs.len(),
    ensures
        dirs[i].segments.len() <= deepest(dirs),
    decreases dirs.len(),
{
    if i < dirs.len() - 1 {
        lemma_deepest(dirs.drop_last(), i);
    }
}

/// Directories that are each there once are all there when nothing is folded.
proof fn lemma_folded_at_the_deepest(dirs: Seq<UriView>)
    requires
        dirs.no_duplicates(),
    ensures
        folded(dirs, deepest(dirs)) == dirs,
{
    let cuts = dirs.map_values(|u: UriView| u.cut(deepest(dirs)));
    assert forall|i: int| 0 <= i < dirs.len() implies cuts[i] == dirs[i] by {
        lemma_deepest(dirs, i);
    }
    assert(cuts =~= dirs);
    lemma_firsts_of_distinct(dirs);
}

proof fn lemma_firsts_of_distinct(uris: Seq<UriView>)
    requires
        uris.no_duplicates(),
    ensures
        firsts(uris) == uris,
    decreases uris.len(),
{
    if uris.len() > 0 {
        let prev = uris.drop_last();
        lemma_firsts_of_distinct(prev);
        if prev.contains(uris.last()) {
            let i = choose|i: int| 0 <= i < prev.len() && prev[i] == uris.last();
            assert(uris[i] == uris[uris.len() - 1]);
        }
        assert(prev.push(uris.last()) =~= uris);
    }
}

/// A client is never told more events than a batch may hold.
pub proof fn law_batch_is_bounded(events: Seq<EventView>)
    ensures
        coalesced(events).len() <= MAX_BATCH_SIZE,
{
    let dirs = roots(events);
    lemma_fitted(dirs, deepest(dirs));
    law_merged_events(events, vstd::pervasive::arbitrary());
}

/// Directories that fit into a batch are all told as they are.  Those that do
/// not are folded into the ones above them, the deepest first and no further
/// than needed, as long as their roots fit.
pub proof fn law_directories_are_folded_as_needed(events: Seq<EventView>)
    ensures
        ({
            let dirs = roots(events);
            &&& dirs.len() <= MAX_BATCH_SIZE ==> told_dirs(dirs) == dirs
            &&& dirs.len() > MAX_BATCH_SIZE && folded(dirs, 0).len() <= MAX_BATCH_SIZE
                ==> exists|depth: nat| #[trigger]
                just_fits(dirs, depth) && told_dirs(dirs) == folded(dirs, depth)
        }),
{
    let dirs = roots(events);
    law_directories_of_a_batch(events, vstd::pervasive::arbitrary());
    lemma_folded_at_the_deepest(dirs);
    lemma_fitted(dirs, deepest(dirs));
}

/// Wherever something took place in an overflowing batch, the client is told
/// of the directory or of one above it, as long as the roots fit into a batch;
/// and each that is told, once, is one in or below which something took place.
pub proof fn law_overflow_covers_the_batch(events: Seq<EventView>, i: int)
    requires
        events.len() > MAX_BATCH_SIZE,
    ensures
        coalesced(events).no_duplicates(),
        forall|j: int|
            0 <= j < coalesced(events).len() ==> {
                &&& (#[trigger] coalesced(events)[j]).kind == FsEventKind::Overflow
                &&& exists|k: int|
                    0 <= k < events.len() && coalesced(events)[j].uri.covers(
                        root_of(#[trigger] events[k]),
                    )
            },
        0 <= i < events.len() && folded(roots(events), 0).len() <= MAX_BATCH_SIZE ==> exists|j: int|
            0 <= j < coalesced(events).len() && (#[trigger] coalesced(events)[j]).uri.covers(
                root_of(events[i]),
            ),
{
    let dirs = roots(events);
    let told = told_dirs(dirs);
    let out = coalesced(events);
    law_directories_of_a_batch(events, vstd::pervasive::arbitrary());
    lemma_fitted(dirs, deepest(dirs));
    assert(told.no_duplicates());
    assert forall|a: int, b: int| 0 <= a < out.len() && 0 <= b < out.len() && a != b implies out[a]
        != out[b] by {
        assert(out[a].uri == told[a] && out[b].uri == told[b]);
    }
    assert forall|j: int| 0 <= j < out.len() implies (#[trigger] out[j]).kind
        == FsEventKind::Overflow && exists|k: int|
        0 <= k < events.len() && out[j].uri.covers(root_of(#[trigger] events[k])) by {
        assert(out[j].uri == told[j]);
        assert(told.contains(told[j]));
        let dir = if dirs.len() <= MAX_BATCH_SIZE {
            told[j]
        } else {
            dirs[choose|n: int| 0 <= n < dirs.len() && told[j].covers(#[trigger] dirs[n])]
        };
        assert(dirs.contains(dir) && told[j].covers(dir));
        law_directories_of_a_batch(events, dir);
        let k = choose|k: int| 0 <= k < events.len() && root_of(#[trigger] events[k]) == dir;
        assert(out[j].uri.covers(root_of(events[k])));
    }
    if 0 <= i < events.len() && folded(dirs, 0).len() <= MAX_BATCH_SIZE {
        let dir = root_of(events[i]);
        law_directories_of_a_batch(events, dir);
        assert(dirs.contains(dir));
        let n = choose|n: int| 0 <= n < dirs.len() && dirs[n] == dir;
        let j = if dirs.len() <= MAX_BATCH_SIZE {
            n
        } else {
            law_directories_are_folded_as_needed(events);
            let depth = choose|depth: nat| #[trigger]
                just_fits(dirs, depth) && told == folded(dirs, depth);
            lemma_folded(dirs, depth);
            assert(told.contains(dirs[n].cut(depth)));
            lemma_cut_covers(dir, depth);
            choose|j: int| 0 <= j < told.len() && told[j] == dirs[n].cut(depth)
        };
        assert(out[j].uri == told[j]);
        assert(out[j].uri.covers(dir));
    }
}

/// No removal comes after a creation of the same uri.
spec fn removals_first(s: Seq<EventView>) -> bool {
    forall|j: int, i: int|
        0 <= j < i < s.len() && (#[trigger] s[i]).kind == FsEventKind::Removed ==> !creates(
            #[trigger] s[j],
            s[i].uri,
        )
}

/// Events of which none is repeated, and with no removal after a creation, are
/// merged already.
proof fn lemma_merged_already(s: Seq<EventView>)
    requires
        s.no_duplicates(),
        removals_first(s),
    ensures
        merged(s) == s,
    decreases s.len(),
{
    if s.len() > 0 {
        let prev = s.drop_last();
        let e = s.last();
        assert forall|j: int, i: int|
            0 <= j < i < prev.len() && (#[trigger] prev[i]).kind
                == FsEventKind::Removed implies !creates(#[trigger] prev[j], prev[i].uri) by {
            assert(s[i] == prev[i] && s[j] == prev[j]);
        }
        lemma_merged_already(prev);
        if prev.contains(e) {
            let i = choose|i: int| 0 <= i < prev.len() && prev[i] == e;
            assert(s[i] == s[s.len() - 1]);
        }
        if e.kind == FsEventKind::Removed && exists|i: int| first_creation(prev, e.uri, i) {
            let i = choose|i: int| first_creation(prev, e.uri, i);
            assert(s[i] == prev[i]);
            assert(s[s.len() - 1].kind == FsEventKind::Removed);
            assert(creates(s[i], e.uri));
        }
        assert(prev.push(e) =~= s);
    }
}

/// The creations of a uri are told in one way.
pub open spec fn plain_creations(events: Seq<EventView>) -> bool {
    forall|i: int|
        0 <= i < events.len() && (#[trigger] events[i]).kind == FsEventKind::Created ==> events[i]
            == event(FsEventKind::Created, events[i].uri)
}

proof fn lemma_removals_first(events: Seq<EventView>)
    requires
        plain_creations(events),
    ensures
        removals_first(merged(events)),
    decreases events.len(),
{
    if events.len() > 0 {
        let prev = events.drop_last();
        let e = events.last();
        let out = merged(prev);
        let now = merged(events);
        assert forall|i: int|
            0 <= i < prev.len() && (#[trigger] prev[i]).kind == FsEventKind::Created implies prev[i]
            == event(FsEventKind::Created, prev[i].uri) by {
            assert(events[i] == prev[i]);
        }
        lemma_removals_first(prev);
        law_merged_events(prev, e);
        if !out.contains(e) {
            let base = if e.kind == FsEventKind::Removed {
                without_creation(out, e.uri)
            } else {
                out
            };
            assert(removals_first(base)) by {
                if e.kind == FsEventKind::Removed && exists|i: int|
                    first_creation(out, e.uri, i) {
                    let c = choose|i: int| first_creation(out, e.uri, i);
                    assert forall|j: int, i: int|
                        0 <= j < i < base.len() && (#[trigger] base[i]).kind
                            == FsEventKind::Removed implies !creates(
                        #[trigger] base[j],
                        base[i].uri,
                    ) by {
                        let p = if j < c { j } else { j + 1 };
                        let q = if i < c { i } else { i + 1 };
                        assert(base[j] == out[p] && base[i] == out[q]);
                    }
                }
            }
            if e.kind == FsEventKind::Removed {
                assert forall|j: int| 0 <= j < base.len() implies !creates(
                    #[trigger] base[j],
                    e.uri,
                ) by {
                    if creates(base[j], e.uri) {
                        lemma_one_creation(prev, e.uri, j);
                    }
                }
            }
            assert(now == base.push(e));
        }
    }
}

/// Without its creation, a batch holds none of the uri any more.
proof fn lemma_one_creation(events: Seq<EventView>, uri: UriView, j: int)
    requires
        plain_creations(events),
        0 <= j < without_creation(merged(events), uri).len(),
    ensures
        !creates(without_creation(merged(events), uri)[j], uri),
{
    let out = merged(events);
    let rest = without_creation(out, uri);
    let made = event(FsEventKind::Created, uri);
    if creates(rest[j], uri) {
        assert(rest.contains(rest[j]));
        lemma_without_creation(out, uri, rest[j]);
        lemma_creation_is_plain(events, uri, rest[j]);
        let k = choose|k: int| 0 <= k < out.len() && out[k] == made;
        law_merged_events(events, made);
        assert forall|i: int| 0 <= i < k implies !creates(out[i], uri) by {
            if creates(out[i], uri) {
                assert(out.contains(out[i]));
                lemma_creation_is_plain(events, uri, out[i]);
            }
        }
        assert(first_creation(out, uri, k));
        lemma_first_creation_unique(out, uri, k);
        let p = if j < k { j } else { j + 1 };
        assert(rest[j] == out[p]);
    }
}

proof fn lemma_creation_is_plain(events: Seq<EventView>, uri: UriView, x: EventView)
    requires
        plain_creations(events),
        merged(events).contains(x),
        creates(x, uri),
    ensures
        x == event(FsEventKind::Created, uri),
{
    law_merged_events(events, x);
    let i = choose|i: int| 0 <= i < events.len() && events[i] == x;
    assert(events[i].kind == FsEventKind::Created);
}

/// To coalesce what was coalesced changes nothing, where the creations of a uri
/// are told in one way.
pub proof fn law_coalescing_is_idempotent(events: Seq<EventView>)
    requires
        plain_creations(events),
    ensures
        coalesced(coalesced(events)) == coalesced(events),
{
    let told = coalesced(events);
    law_batch_is_bounded(events);
    if events.len() > MAX_BATCH_SIZE {
        law_overflow_covers_the_batch(events, 0);
    } else {
        law_merged_events(events, vstd::pervasive::arbitrary());
        lemma_removals_first(events);
    }
    assert(removals_first(told));
    lemma_merged_already(told);
}

/// A batch that waits is never full.
pub proof fn law_waiting_batch_is_bounded(inputs: Seq<BusInputView>)
    ensures
        bus_run(inputs).1.len() < FULL_BATCH_SIZE,
    decreases inputs.len(),
{
    if inputs.len() > 0 {
        law_waiting_batch_is_bounded(inputs.drop_last());
    }
}

/// Every event that was sent is in one batch, in the order of sending, and
/// what is handed out of a batch is the batch coalesced, which is never more
/// than a batch may hold.
pub proof fn law_batches_hold_what_was_sent(inputs: Seq<BusInputView>, next: BusInputView)
    ensures
        in_a_row(bus_run(inputs).0) + bus_run(inputs).1 == sent(inputs),
        bus_step(bus_run(inputs).1, next).1 matches BusActionView::Emit(told) ==> told == coalesced(
            batch_with(bus_run(inputs).1, next),
        ) && told.len() <= MAX_BATCH_SIZE,
    decreases inputs.len(),
{
    law_batch_is_bounded(batch_with(bus_run(inputs).1, next));
    if inputs.len() > 0 {
        let prev = inputs.drop_last();
        law_batches_hold_what_was_sent(prev, next);
        let (closed, batch) = bus_run(prev);
        let whole = batch_with(batch, inputs.last());
        assert(in_a_row(closed) + whole =~= sent(inputs));
        assert(closed.push(whole).drop_last() =~= closed);
        if let BusInputView::Event(e) = inputs.last() {
            if batch.len() == 0 {
                assert(batch.push(e) =~= seq![e]);
            }
        }
        assert(in_a_row(bus_run(inputs).0) + bus_run(inputs).1 =~= sent(inputs));
    }
}

/// When the senders are gone, nothing that was sent still waits.
pub proof fn law_close_flushes(inputs: Seq<BusInputView>)
    requires
        inputs.len() > 0,
        inputs.last() == BusInputView::Closed,
    ensures
        bus_run(inputs).1.len() == 0,
{
}

} // verus!
