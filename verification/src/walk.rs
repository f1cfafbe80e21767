//! A walk through a directory and everything below it.
use vstd::prelude::*;
use crate::copy_one::bytes_from;
use crate::error::{unit_view, ErrorView, VfsError};
use crate::provider::{
    answers, Action, ActionView, CallView, ProviderCall, Reply, ReplyView, Request, RequestView,
};
use crate::types::{
    entry_uris, entry_views, DirEntry, EntryView, FileType, ListOpts, ProviderCaps, Stat, StatView,
};
use crate::uri::{uri_views, UriView, VfsUri};

verus! {

/// Where a walk stands.
#[derive(Debug)]
pub enum WalkPhase {
    /// The next uri is to be looked up.
    Next,
    /// The look-up of a uri is awaited.
    Stating(VfsUri),
    /// A directory is to be listed.
    ToList(VfsUri),
    /// The listing of a directory is awaited.
    Listing(VfsUri),
    /// The walk is over.
    Ended(Result<(), VfsError>),
}

pub enum WalkPhaseView {
    Next,
    Stating(UriView),
    ToList(UriView),
    Listing(UriView),
    Ended(Result<(), ErrorView>),
}

impl View for WalkPhase {
    type V = WalkPhaseView;

    open spec fn view(&self) -> WalkPhaseView {
        match self {
            WalkPhase::Next => WalkPhaseView::Next,
            WalkPhase::Stating(u) => WalkPhaseView::Stating(u@),
            WalkPhase::ToList(u) => WalkPhaseView::ToList(u@),
            WalkPhase::Listing(u) => WalkPhaseView::Listing(u@),
            WalkPhase::Ended(r) => WalkPhaseView::Ended(unit_view(*r)),
        }
    }
}

/// A walk: what was found, in the order of the walk, and what is still to be
/// looked up, the next one last.
#[derive(Debug)]
pub struct Walk {
    provider: usize,
    phase: WalkPhase,
    fresh: bool,
    todo: Vec<VfsUri>,
    out: Vec<(VfsUri, Stat)>,
}

#[verifier::ext_equal]
pub struct WalkView {
    pub provider: usize,
    pub phase: WalkPhaseView,
    /// No uri was looked up yet.
    pub fresh: bool,
    /// What is still to be looked up, the next one first.
    pub todo: Seq<UriView>,
    /// What was found.
    pub out: Seq<(UriView, StatView)>,
}

/// The views of what a walk found.
pub open spec fn found_views(out: Seq<(VfsUri, Stat)>) -> Seq<(UriView, StatView)> {
    out.map_values(|p: (VfsUri, Stat)| (p.0@, p.1@))
}

spec fn stack_view(todo: Seq<VfsUri>) -> Seq<UriView> {
    uri_views(todo).reverse()
}

impl View for Walk {
    type V = WalkView;

    closed spec fn view(&self) -> WalkView {
        WalkView {
            provider: self.provider,
            phase: self.phase@,
            fresh: self.fresh,
            todo: stack_view(self.todo@),
            out: found_views(self.out@),
        }
    }
}

/// The listing that a walk asks for: hidden entries are part of it.
pub open spec fn walk_listing() -> ListOpts {
    ListOpts { include_hidden: true }
}

impl WalkView {
    /// A walk that is about to begin.
    pub open spec fn start(provider: usize, root: UriView) -> WalkView {
        WalkView {
            provider,
            phase: WalkPhaseView::Next,
            fresh: true,
            todo: seq![root],
            out: Seq::empty(),
        }
    }

    /// No answer is awaited.
    pub open spec fn ready(self) -> bool {
        !(self.phase is Stating || self.phase is Listing)
    }

    /// The request whose answer is awaited.
    pub open spec fn request(self) -> RequestView
        recommends
            !self.ready(),
    {
        match self.phase {
            WalkPhaseView::Stating(u) => RequestView::Stat(u),
            WalkPhaseView::Listing(u) => RequestView::List(u, walk_listing()),
            _ => RequestView::Caps,
        }
    }

    pub open spec fn ended(self, r: Result<(), ErrorView>) -> WalkView {
        WalkView { phase: WalkPhaseView::Ended(r), ..self }
    }

    /// What follows: the walk asks for the next uri, or ends.  Before every
    /// uri but the first it is seen whether the walk was cancelled.
    pub open spec fn advanced(self, cancelled: bool) -> (WalkView, ActionView) {
        match self.phase {
            WalkPhaseView::Next => if self.todo.len() == 0 {
                (self.ended(Ok(())), ActionView::Done)
            } else if cancelled && !self.fresh {
                (self.ended(Err(ErrorView::Cancelled)), ActionView::Done)
            } else {
                let u = self.todo[0];
                (
                    WalkView {
                        phase: WalkPhaseView::Stating(u),
                        fresh: false,
                        todo: self.todo.drop_first(),
                        ..self
                    },
                    ActionView::Call(
                        CallView { provider: self.provider, request: RequestView::Stat(u) },
                    ),
                )
            },
            WalkPhaseView::ToList(u) => (
                WalkView { phase: WalkPhaseView::Listing(u), ..self },
                ActionView::Call(
                    CallView {
                        provider: self.provider,
                        request: RequestView::List(u, walk_listing()),
                    },
                ),
            ),
            _ => (self, ActionView::Done),
        }
    }

    /// What follows from an answer: a uri was found, and of a directory the
    /// entries come next, before all that is still to be looked up.
    pub open spec fn resumed(self, reply: ReplyView) -> WalkView {
        match (self.phase, reply) {
            (WalkPhaseView::Stating(u), ReplyView::Stat(Ok(st))) => WalkView {
                phase: if st.file_type == FileType::Directory {
                    WalkPhaseView::ToList(u)
                } else {
                    WalkPhaseView::Next
                },
                out: self.out.push((u, st)),
                ..self
            },
            (WalkPhaseView::Stating(_), ReplyView::Stat(Err(e))) => self.ended(Err(e)),
            (WalkPhaseView::Listing(_), ReplyView::List(Ok(entries))) => WalkView {
                phase: WalkPhaseView::Next,
                todo: entry_uris(entries) + self.todo,
                ..self
            },
            (WalkPhaseView::Listing(_), ReplyView::List(Err(e))) => self.ended(Err(e)),
            _ => self,
        }
    }
}

impl Walk {
    /// A walk from `root`.
    pub fn new(provider: usize, root: &VfsUri) -> (r: Walk)
        ensures
            r@ == WalkView::start(provider, root@),
    {
        let mut todo: Vec<VfsUri> = Vec::new();
        todo.push(root.clone());
        let r = Walk { provider, phase: WalkPhase::Next, fresh: true, todo, out: Vec::new() };
        assert(r@ =~= WalkView::start(provider, root@));
        r
    }

    /// What to do next.
    pub fn advance(&mut self, cancelled: bool) -> (r: Action)
        requires
            old(self)@.ready(),
        ensures
            (final(self)@, r@) == old(self)@.advanced(cancelled),
            r@ is Call ==> !final(self)@.ready() && r@->0.request == final(self)@.request(),
            !(r@ is Call) ==> final(self)@.phase is Ended,
    {
        match &self.phase {
            WalkPhase::Next => {
                if self.todo.len() == 0 {
                    assert(self@.todo =~= Seq::<UriView>::empty());
                    self.phase = WalkPhase::Ended(Ok(()));
                    return Action::Done;
                }
                if cancelled && !self.fresh {
                    self.phase = WalkPhase::Ended(Err(VfsError::Cancelled));
                    return Action::Done;
                }
                let ghost before = self.todo@;
                let last: usize = self.todo.len() - 1;
                let uri = self.todo[last].clone();
                self.todo.pop();
                proof {
                    assert(uri@ == stack_view(before)[0]);
                    assert(stack_view(self.todo@) =~= stack_view(before).drop_first());
                }
                let again = uri.clone();
                self.phase = WalkPhase::Stating(again);
                self.fresh = false;
                Action::Call(ProviderCall { provider: self.provider, request: Request::Stat(uri) })
            },
            WalkPhase::ToList(uri) => {
                let uri = uri.clone();
                let again = uri.clone();
                self.phase = WalkPhase::Listing(again);
                Action::Call(
                    ProviderCall {
                        provider: self.provider,
                        request: Request::List(uri, ListOpts { include_hidden: true }),
                    },
                )
            },
            _ => Action::Done,
        }
    }

    fn push_children(&mut self, entries: &Vec<DirEntry>)
        ensures
            final(self)@ == (WalkView {
                todo: entry_uris(entry_views(entries@)) + old(self)@.todo,
                ..old(self)@
            }),
    {
        let ghost start = self@;
        let ghost children = entry_uris(entry_views(entries@));
        let mut i: usize = entries.len();
        assert(children.skip(i as int) + start.todo =~= start.todo);
        while i > 0
            invariant
                i <= entries@.len(),
                children == entry_uris(entry_views(entries@)),
                children.len() == entries@.len(),
                self@ == (WalkView { todo: children.skip(i as int) + start.todo, ..start }),
            decreases i,
        {
            let ghost before = self.todo@;
            i -= 1;
            self.todo.push(entries[i].uri.clone());
            proof {
                let u = self.todo@.last()@;
                assert(u == children[i as int]);
                assert(stack_view(self.todo@) =~= seq![u] + stack_view(before));
                assert(children.skip(i as int) =~= seq![u] + children.skip(i + 1));
                assert(self@ =~= WalkView {
                    todo: children.skip(i as int) + start.todo,
                    ..start
                });
            }
        }
        assert(children.skip(0) =~= children);
    }

    /// Takes in the answer to the call that was named.
    pub fn resume(&mut self, reply: Reply)
        requires
            !old(self)@.ready(),
            answers(reply@, old(self)@.request()),
        ensures
            final(self)@ == old(self)@.resumed(reply@),
            final(self)@.ready(),
    {
        match (&self.phase, reply) {
            (WalkPhase::Stating(uri), Reply::Stat(Ok(stat))) => {
                let ghost so_far = found_views(self.out@);
                let uri = uri.clone();
                let ghost found = (uri@, stat@);
                let is_dir = stat.file_type == FileType::Directory;
                self.out.push((uri.clone(), stat));
                assert(found_views(self.out@) =~= so_far.push(found));
                self.phase = if is_dir {
                    WalkPhase::ToList(uri)
                } else {
                    WalkPhase::Next
                };
            },
            (WalkPhase::Stating(_), Reply::Stat(Err(e))) => {
                self.phase = WalkPhase::Ended(Err(e));
            },
            (WalkPhase::Listing(_), Reply::List(Ok(entries))) => {
                self.push_children(&entries);
                self.phase = WalkPhase::Next;
            },
            (WalkPhase::Listing(_), Reply::List(Err(e))) => {
                self.phase = WalkPhase::Ended(Err(e));
            },
            _ => {},
        }
    }

    /// How many uris the walk has found so far.
    pub fn found(&self) -> (r: usize)
        ensures
            r == self@.out.len(),
    {
        self.out.len()
    }

    /// The bytes that the walk has found so far.
    pub fn bytes(&self) -> (r: u128)
        requires
            bytes_from(self@.out, 0) <= u64::MAX,
        ensures
            r == bytes_from(self@.out, 0),
    {
        let ghost views = found_views(self.out@);
        let mut i: usize = 0;
        let mut sum: u128 = 0;
        while i < self.out.len()
            invariant
                i <= self.out@.len(),
                views == found_views(self.out@),
                sum + bytes_from(views, i as nat) == bytes_from(views, 0),
                bytes_from(views, 0) <= u64::MAX,
            decreases self.out.len() - i,
        {
            assert(views[i as int].1.size == self.out@[i as int].1.size);
            assert(bytes_from(views, i as nat) == views[i as int].1.size + bytes_from(
                views,
                (i + 1) as nat,
            ));
            sum += self.out[i].1.size as u128;
            i += 1;
        }
        sum
    }

    /// What the walk found, or why it failed.
    pub fn finish(self) -> (r: Result<Vec<(VfsUri, Stat)>, VfsError>)
        requires
            self@.phase is Ended,
        ensures
            match r {
                Ok(found) => self@.phase == WalkPhaseView::Ended(Ok(())) && found_views(found@)
                    == self@.out,
                Err(e) => self@.phase == WalkPhaseView::Ended(Err(e@)),
            },
    {
        match self.phase {
            WalkPhase::Ended(Err(e)) => Err(e),
            _ => Ok(self.out),
        }
    }
}

/// Providers whose answers do not change, and on which every change goes well.
pub struct Still {
    pub stat: spec_fn(UriView) -> Result<StatView, ErrorView>,
    pub list: spec_fn(UriView) -> Result<Seq<EntryView>, ErrorView>,
    pub caps: ProviderCaps,
}

impl Still {
    pub open spec fn reply(self, request: RequestView) -> ReplyView {
        match request {
            RequestView::Stat(u) => ReplyView::Stat((self.stat)(u)),
            RequestView::List(u, _) => ReplyView::List((self.list)(u)),
            RequestView::Caps => ReplyView::Caps(self.caps),
            _ => ReplyView::Unit(Ok(())),
        }
    }
}

/// A uri and everything below it, each directory before its entries and these
/// in the order of its listing; the first error ends it.  `None` where the
/// tree is deeper than `depth`.
pub open spec fn preorder(world: Still, uri: UriView, depth: nat) -> Option<
    Result<Seq<(UriView, StatView)>, ErrorView>,
>
    decreases depth, 0nat,
{
    if depth == 0 {
        None
    } else {
        match (world.stat)(uri) {
            Err(e) => Some(Err(e)),
            Ok(st) => if st.file_type != FileType::Directory {
                Some(Ok(seq![(uri, st)]))
            } else {
                match (world.list)(uri) {
                    Err(e) => Some(Err(e)),
                    Ok(entries) => match preorder_all(
                        world,
                        entry_uris(entries),
                        (depth - 1) as nat,
                    ) {
                        Some(Ok(below)) => Some(Ok(seq![(uri, st)] + below)),
                        other => other,
                    },
                }
            },
        }
    }
}

/// The same for uris in a row.
pub open spec fn preorder_all(world: Still, uris: Seq<UriView>, depth: nat) -> Option<
    Result<Seq<(UriView, StatView)>, ErrorView>,
>
    decreases depth, uris.len() + 1,
{
    if uris.len() == 0 {
        Some(Ok(Seq::empty()))
    } else {
        match preorder(world, uris[0], depth) {
            Some(Ok(first)) => match preorder_all(world, uris.drop_first(), depth) {
                Some(Ok(rest)) => Some(Ok(first + rest)),
                other => other,
            },
            other => other,
        }
    }
}

/// A walk after `n` rounds with the answers of the provider, not cancelled.
pub open spec fn walk_run(world: Still, w: WalkView, n: nat) -> WalkView
    decreases n,
{
    if n == 0 {
        w
    } else {
        let (asked, action) = w.advanced(false);
        let next = match action {
            ActionView::Call(call) => asked.resumed(world.reply(call.request)),
            _ => asked,
        };
        walk_run(world, next, (n - 1) as nat)
    }
}

/// Rounds in a row.
pub proof fn lemma_run_on(world: Still, w: WalkView, a: nat, b: nat)
    ensures
        walk_run(world, w, a + b) == walk_run(world, walk_run(world, w, a), b),
    decreases a,
{
    if a > 0 {
        let (asked, action) = w.advanced(false);
        let next = match action {
            ActionView::Call(call) => asked.resumed(world.reply(call.request)),
            _ => asked,
        };
        lemma_run_on(world, next, (a - 1) as nat, b);
        assert((a - 1) as nat + b == (a + b - 1) as nat);
    }
}

/// How a walk goes on over uris in a row.
spec fn walks_over(
    world: Still,
    w: WalkView,
    rest: Seq<UriView>,
    found: Result<Seq<(UriView, StatView)>, ErrorView>,
    n: nat,
) -> bool {
    match found {
        Ok(seen) => walk_run(world, w, n) == (WalkView {
            phase: WalkPhaseView::Next,
            fresh: walk_run(world, w, n).fresh,
            todo: rest,
            out: w.out + seen,
            ..w
        }),
        Err(e) => walk_run(world, w, n).phase == WalkPhaseView::Ended(Err(e)),
    }
}

proof fn lemma_walk_one(world: Still, w: WalkView, uri: UriView, rest: Seq<UriView>, depth: nat) -> (n:
    nat)
    requires
        w.phase is Next,
        w.todo == seq![uri] + rest,
        preorder(world, uri, depth) is Some,
    ensures
        walks_over(world, w, rest, preorder(world, uri, depth)->0, n),
    decreases depth, 0nat,
{
    reveal_with_fuel(walk_run, 3);
    let asked = w.advanced(false).0;
    assert(w.todo.drop_first() =~= rest);
    assert(w.todo[0] == uri);
    match (world.stat)(uri) {
        Err(e) => 1,
        Ok(st) => {
            let seen = w.out.push((uri, st));
            assert(seen =~= w.out + seq![(uri, st)]);
            if st.file_type != FileType::Directory {
                let end = walk_run(world, w, 1);
                assert(end =~= WalkView {
                    phase: WalkPhaseView::Next,
                    fresh: false,
                    todo: rest,
                    out: w.out + seq![(uri, st)],
                    ..w
                });
                1
            } else {
                match (world.list)(uri) {
                    Err(e) => 2,
                    Ok(entries) => {
                        let w2 = walk_run(world, w, 2);
                        let uris = entry_uris(entries);
                        assert(w2 =~= WalkView {
                            phase: WalkPhaseView::Next,
                            fresh: false,
                            todo: uris + rest,
                            out: seen,
                            ..w
                        });
                        let m = lemma_walk_all(world, w2, uris, rest, (depth - 1) as nat);
                        lemma_run_on(world, w, 2, m);
                        if let Some(Ok(below)) = preorder_all(world, uris, (depth - 1) as nat) {
                            assert(seen + below =~= w.out + (seq![(uri, st)] + below));
                        }
                        2 + m
                    },
                }
            }
        },
    }
}

proof fn lemma_walk_all(
    world: Still,
    w: WalkView,
    uris: Seq<UriView>,
    rest: Seq<UriView>,
    depth: nat,
) -> (n: nat)
    requires
        w.phase is Next,
        w.todo == uris + rest,
        preorder_all(world, uris, depth) is Some,
    ensures
        walks_over(world, w, rest, preorder_all(world, uris, depth)->0, n),
    decreases depth, uris.len() + 1,
{
    if uris.len() == 0 {
        assert(w.todo =~= rest);
        assert(w.out + Seq::<(UriView, StatView)>::empty() =~= w.out);
        0
    } else {
        let tail = uris.drop_first() + rest;
        assert(uris + rest =~= seq![uris[0]] + tail);
        let a = lemma_walk_one(world, w, uris[0], tail, depth);
        match preorder(world, uris[0], depth)->0 {
            Err(e) => a,
            Ok(first) => {
                let w1 = walk_run(world, w, a);
                let b = lemma_walk_all(world, w1, uris.drop_first(), rest, depth);
                lemma_run_on(world, w, a, b);
                if let Some(Ok(more)) = preorder_all(world, uris.drop_first(), depth) {
                    assert((w.out + first) + more =~= w.out + (first + more));
                }
                a + b
            },
        }
    }
}

/// A walk that is over stays over.
pub proof fn lemma_ended_walk_stays(world: Still, w: WalkView, n: nat)
    requires
        w.phase is Ended,
    ensures
        walk_run(world, w, n) == w,
    decreases n,
{
    if n > 0 {
        lemma_ended_walk_stays(world, w, (n - 1) as nat);
    }
}

/// A walk that meets no error comes to stand before its end with all that it
/// was to find.
pub proof fn lemma_walk_gathers(
    world: Still,
    provider: usize,
    root: UriView,
    depth: nat,
    found: Seq<(UriView, StatView)>,
) -> (n: nat)
    requires
        preorder(world, root, depth) == Some(
            Ok::<Seq<(UriView, StatView)>, ErrorView>(found),
        ),
    ensures
        ({
            let last = walk_run(world, WalkView::start(provider, root), n);
            last.phase is Next && last.todo.len() == 0 && last.out == found
        }),
{
    let w = WalkView::start(provider, root);
    assert(seq![root] + Seq::<UriView>::empty() =~= seq![root]);
    let n = lemma_walk_one(world, w, root, Seq::empty(), depth);
    assert(w.out + found =~= found);
    n
}

/// On a provider whose answers do not change, a walk that is not cancelled
/// ends, and finds the uri and everything below it in preorder, or fails with
/// the first error on that way.
pub proof fn law_walk_is_preorder(world: Still, provider: usize, root: UriView, depth: nat)
    requires
        preorder(world, root, depth) is Some,
    ensures
        exists|n: nat|
            match preorder(world, root, depth)->0 {
                Ok(found) => {
                    let end = #[trigger] walk_run(world, WalkView::start(provider, root), n);
                    end.phase == WalkPhaseView::Ended(Ok(())) && end.out == found
                },
                Err(e) => walk_run(world, WalkView::start(provider, root), n).phase
                    == WalkPhaseView::Ended(Err(e)),
            },
{
    let w = WalkView::start(provider, root);
    match preorder(world, root, depth)->0 {
        Ok(found) => {
            let n = lemma_walk_gathers(world, provider, root, depth, found);
            let last = walk_run(world, w, n);
            reveal_with_fuel(walk_run, 2);
            lemma_run_on(world, w, n, 1);
            let end = walk_run(world, w, n + 1);
            assert(end == last.advanced(false).0);
        },
        Err(e) => {
            assert(seq![root] + Seq::<UriView>::empty() =~= seq![root]);
            let n = lemma_walk_one(world, w, root, Seq::empty(), depth);
            assert(walk_run(world, w, n).phase == WalkPhaseView::Ended(Err(e)));
        },
    }
}

/// A cancelled walk looks up no further uri.
pub proof fn law_cancelled_walk_stops(w: WalkView)
    requires
        w.phase is Next,
        !w.fresh,
    ensures
        w.advanced(true).1 == ActionView::Done,
        w.todo.len() > 0 ==> w.advanced(true).0.phase == WalkPhaseView::Ended(
            Err(ErrorView::Cancelled),
        ),
{
}

} // verus!
