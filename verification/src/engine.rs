//! The engine: it finds the provider of a uri and carries out operations over
//! many uris.
use tokio_util::sync::CancellationToken;
use vstd::prelude::*;
use crate::error::{unit_view, ErrorView, VfsError};
use crate::ops::OpRegistry;
use crate::provider::{Action, ActionView, CallView, ProviderCall, Request, RequestView};
use crate::types::{
    event, outcome, outcome_views, renamed, DeleteOpts, EventView, FsEvent, FsEventKind, ListOpts,
    OutcomeView, PerSourceResult, WriteOpts,
};
use crate::uri::{uri_views, UriView, VfsUri};

verus! {

/// The engine: the registered providers, and the operations in flight.
///
/// A provider has a place of its own, which is not given to another one.  When
/// another one takes over its scheme, it is dropped and its place is empty.
pub struct VfsEngine<P> {
    providers: Vec<Option<P>>,
    schemes: Vec<(String, usize)>,
    pub ops: OpRegistry,
}

/// Which provider serves a scheme.
pub type Schemes = Map<Seq<char>, usize>;

spec fn listed(schemes: Seq<(String, usize)>, s: Seq<char>) -> bool {
    exists|i: int| 0 <= i < schemes.len() && (#[trigger] schemes[i]).0@ == s
}

spec fn place(schemes: Seq<(String, usize)>, s: Seq<char>) -> int {
    choose|i: int| 0 <= i < schemes.len() && (#[trigger] schemes[i]).0@ == s
}

spec fn placed(schemes: Seq<(String, usize)>, p: int) -> bool {
    exists|i: int| 0 <= i < schemes.len() && (#[trigger] schemes[i]).1 == p
}

spec fn scheme_map(schemes: Seq<(String, usize)>) -> Schemes {
    Map::new(|s: Seq<char>| listed(schemes, s), |s: Seq<char>| schemes[place(schemes, s)].1)
}

spec fn distinct(schemes: Seq<(String, usize)>) -> bool {
    forall|i: int, j: int|
        0 <= i < schemes.len() && 0 <= j < schemes.len() && i != j ==> (#[trigger] schemes[i]).0@
            != (#[trigger] schemes[j]).0@
}

proof fn lemma_at(schemes: Seq<(String, usize)>, i: int)
    requires
        distinct(schemes),
        0 <= i < schemes.len(),
    ensures
        listed(schemes, schemes[i].0@),
        scheme_map(schemes)[schemes[i].0@] == schemes[i].1,
{
    let s = schemes[i].0@;
    assert(listed(schemes, s));
    let p = place(schemes, s);
    assert(schemes[p].0@ == s);
}

/// Some scheme is served by the provider at the place.
pub open spec fn serves(schemes: Schemes, place: usize) -> bool {
    exists|s: Seq<char>| #[trigger] schemes.contains_key(s) && schemes[s] == place
}

/// The places of the providers when the one of a scheme, if there is one, was
/// dropped.
pub open spec fn vacated<P>(
    providers: Seq<Option<P>>,
    schemes: Schemes,
    scheme: Seq<char>,
) -> Seq<Option<P>> {
    if schemes.contains_key(scheme) {
        providers.update(schemes[scheme] as int, None)
    } else {
        providers
    }
}

/// The provider of a uri, where its scheme has one.
pub open spec fn provider_of(schemes: Schemes, uri: UriView) -> Result<usize, ErrorView> {
    if schemes.contains_key(uri.scheme) {
        Ok(schemes[uri.scheme])
    } else {
        Err(ErrorView::NoProvider(uri.scheme))
    }
}

/// The call of a request to the provider of a uri.
pub open spec fn call_for(schemes: Schemes, uri: UriView, request: RequestView) -> Result<
    CallView,
    ErrorView,
> {
    match provider_of(schemes, uri) {
        Ok(provider) => Ok(CallView { provider, request }),
        Err(e) => Err(e),
    }
}

/// The call by which a rename is made: within one provider only.
pub open spec fn rename_call(
    schemes: Schemes,
    from: UriView,
    to: UriView,
    overwrite: bool,
) -> Result<CallView, ErrorView> {
    if !from.same_place(to) {
        Err(ErrorView::NotSupported { capability: "cross-provider rename"@ })
    } else {
        call_for(schemes, from, RequestView::Rename { from, to, overwrite })
    }
}

/// The view of a call or the error that came in its place.
pub open spec fn call_view(r: Result<ProviderCall, VfsError>) -> Result<CallView, ErrorView> {
    match r {
        Ok(c) => Ok(c@),
        Err(e) => Err(e@),
    }
}

/// The view of an event or the error that came in its place.
pub open spec fn event_view(r: Result<FsEvent, VfsError>) -> Result<EventView, ErrorView> {
    match r {
        Ok(e) => Ok(e@),
        Err(e) => Err(e@),
    }
}

/// The event, where the operation succeeded.
pub open spec fn event_if_ok(result: Result<(), ErrorView>, e: EventView) -> Result<
    EventView,
    ErrorView,
> {
    match result {
        Ok(()) => Ok(e),
        Err(err) => Err(err),
    }
}

/// The event of a file that was written.
pub open spec fn write_event(uri: UriView, existed: bool) -> EventView {
    event(
        if existed {
            FsEventKind::Modified
        } else {
            FsEventKind::Created
        },
        uri,
    )
}

impl<P> VfsEngine<P> {
    /// The provider that serves each scheme.
    pub closed spec fn schemes(self) -> Schemes {
        scheme_map(self.schemes@)
    }

    /// The registered providers, by their places.
    pub closed spec fn providers(self) -> Seq<Option<P>> {
        self.providers@
    }

    /// The operations in flight.
    pub closed spec fn in_flight(self) -> Map<u128, CancellationToken> {
        self.ops@
    }

    /// Each scheme is served by one provider, which serves no other, and no
    /// provider is kept that serves none.
    pub closed spec fn wf(self) -> bool {
        &&& distinct(self.schemes@)
        &&& forall|i: int, j: int|
            0 <= i < self.schemes@.len() && 0 <= j < self.schemes@.len() && i != j ==> (
            #[trigger] self.schemes@[i]).1 != (#[trigger] self.schemes@[j]).1
        &&& forall|i: int|
            0 <= i < self.schemes@.len() ==> (#[trigger] self.schemes@[i]).1 < self.providers@.len()
                && self.providers@[self.schemes@[i].1 as int] is Some
        &&& forall|p: int|
            0 <= p < self.providers@.len() && (#[trigger] self.providers@[p]) is Some ==> placed(
                self.schemes@,
                p,
            )
    }

    pub fn new() -> (r: VfsEngine<P>)
        ensures
            r.wf(),
            r.schemes() == Schemes::empty(),
            r.providers() == Seq::<Option<P>>::empty(),
            r.in_flight() == Map::<u128, CancellationToken>::empty(),
    {
        let r = VfsEngine { providers: Vec::new(), schemes: Vec::new(), ops: OpRegistry::new() };
        assert(r.schemes() =~= Schemes::empty());
        r
    }

    fn find(&self, scheme: &str) -> (r: Option<usize>)
        ensures
            match r {
                Some(i) => i < self.schemes@.len() && self.schemes@[i as int].0@ == scheme@,
                None => !listed(self.schemes@, scheme@),
            },
    {
        let mut i: usize = 0;
        while i < self.schemes.len()
            invariant
                i <= self.schemes@.len(),
                forall|j: int| 0 <= j < i ==> (#[trigger] self.schemes@[j]).0@ != scheme@,
            decreases self.schemes.len() - i,
        {
            if crate::text::same_text(self.schemes[i].0.as_str(), scheme) {
                return Some(i);
            }
            i += 1;
        }
        None
    }

    /// Registers a provider for its scheme and gives its place; one registered
    /// before for the same scheme is dropped.
    pub fn register_provider(&mut self, scheme: &str, provider: P) -> (place: usize)
        requires
            old(self).wf(),
        ensures
            final(self).wf(),
            final(self).providers() == vacated(
                old(self).providers(),
                old(self).schemes(),
                scheme@,
            ).push(Some(provider)),
            place == old(self).providers().len(),
            final(self).schemes() == old(self).schemes().insert(scheme@, place),
            final(self).in_flight() == old(self).in_flight(),
    {
        let ghost before = self.schemes@;
        let ghost held = self.providers@;
        let slot: usize = self.providers.len();
        match self.find(scheme) {
            Some(i) => {
                let name = scheme.to_owned();
                let last: usize = self.schemes[i].1;
                self.providers[last] = None;
                self.providers.push(Some(provider));
                self.schemes[i] = (name, slot);
                proof {
                    let after = self.schemes@;
                    lemma_at(before, i as int);
                    assert(after =~= before.update(i as int, (name, slot)));
                    lemma_update(before, i as int, name, slot);
                    assert(self.providers@ =~= held.update(last as int, None).push(Some(provider)));
                    assert forall|p: int|
                        0 <= p < self.providers@.len() && (
                        #[trigger] self.providers@[p]) is Some implies placed(after, p) by {
                        if p == slot {
                            assert(after[i as int].1 == p);
                        } else {
                            assert(held[p] is Some);
                            assert(placed(before, p));
                            let k = choose|k: int|
                                0 <= k < before.len() && (#[trigger] before[k]).1 == p;
                            assert(k != i);
                            assert(after[k] == before[k]);
                        }
                    }
                }
            },
            None => {
                let name = scheme.to_owned();
                self.providers.push(Some(provider));
                self.schemes.push((name, slot));
                proof {
                    let after = self.schemes@;
                    lemma_push(before, name, slot);
                    assert forall|p: int|
                        0 <= p < self.providers@.len() && (
                        #[trigger] self.providers@[p]) is Some implies placed(after, p) by {
                        if p == slot {
                            assert(after[before.len() as int].1 == p);
                        } else {
                            assert(held[p] is Some);
                            assert(placed(before, p));
                            let k = choose|k: int|
                                0 <= k < before.len() && (#[trigger] before[k]).1 == p;
                            assert(after[k] == before[k]);
                        }
                    }
                }
            },
        }
        slot
    }

    /// The place of the provider of a uri.
    pub fn provider_for(&self, uri: &VfsUri) -> (r: Result<usize, VfsError>)
        requires
            self.wf(),
        ensures
            match r {
                Ok(p) => provider_of(self.schemes(), uri@) == Ok::<usize, ErrorView>(p) && p
                    < self.providers().len() && self.providers()[p as int] is Some,
                Err(e) => provider_of(self.schemes(), uri@) == Err::<usize, ErrorView>(e@),
            },
    {
        match self.find(uri.scheme()) {
            Some(i) => {
                proof {
                    lemma_at(self.schemes@, i as int);
                }
                Ok(self.schemes[i].1)
            },
            None => Err(VfsError::NoProvider(uri.scheme().to_owned())),
        }
    }

    /// How many places were given to providers.
    pub fn places(&self) -> (r: usize)
        ensures
            r == self.providers().len(),
    {
        self.providers.len()
    }

    /// The provider at a place, unless it was dropped.
    pub fn provider(&self, place: usize) -> (r: Option<&P>)
        ensures
            match r {
                Some(p) => place < self.providers().len() && self.providers()[place as int]
                    == Some(*p),
                None => place < self.providers().len() ==> self.providers()[place as int] is None,
            },
    {
        if place < self.providers.len() {
            self.providers[place].as_ref()
        } else {
            None
        }
    }

    /// The call of a request to the provider of a uri.
    pub fn call(&self, uri: &VfsUri, request: Request) -> (r: Result<ProviderCall, VfsError>)
        requires
            self.wf(),
        ensures
            call_view(r) == call_for(self.schemes(), uri@, request@),
    {
        match self.provider_for(uri) {
            Ok(provider) => Ok(ProviderCall { provider, request }),
            Err(e) => Err(e),
        }
    }

    /// The call that looks a uri up.
    pub fn stat(&self, uri: &VfsUri) -> (r: Result<ProviderCall, VfsError>)
        requires
            self.wf(),
        ensures
            call_view(r) == call_for(self.schemes(), uri@, RequestView::Stat(uri@)),
    {
        self.call(uri, Request::Stat(uri.clone()))
    }

    /// The call that lists a directory.
    pub fn list(&self, uri: &VfsUri, opts: ListOpts) -> (r: Result<ProviderCall, VfsError>)
        requires
            self.wf(),
        ensures
            call_view(r) == call_for(self.schemes(), uri@, RequestView::List(uri@, opts)),
    {
        self.call(uri, Request::List(uri.clone(), opts))
    }

    /// The call that makes a directory.
    pub fn mkdir(&self, uri: &VfsUri) -> (r: Result<ProviderCall, VfsError>)
        requires
            self.wf(),
        ensures
            call_view(r) == call_for(self.schemes(), uri@, RequestView::Mkdir(uri@)),
    {
        self.call(uri, Request::Mkdir(uri.clone()))
    }

    /// The call that renames within one provider.
    pub fn rename(&self, from: &VfsUri, to: &VfsUri, overwrite: bool) -> (r: Result<
        ProviderCall,
        VfsError,
    >)
        requires
            self.wf(),
        ensures
            call_view(r) == rename_call(self.schemes(), from@, to@, overwrite),
    {
        if !from.same_place(to) {
            return Err(
                VfsError::NotSupported { capability: "cross-provider rename".to_owned() },
            );
        }
        self.call(from, Request::Rename { from: from.clone(), to: to.clone(), overwrite })
    }

    /// The deletion of many uris.
    pub fn delete_many(&self, uris: Vec<VfsUri>, opts: DeleteOpts) -> (r: DeleteSession)
        ensures
            r@.wf(),
            r@ == DeleteView::start(uri_views(uris@), opts),
    {
        DeleteSession::new(uris, opts)
    }

    /// The calls that write a file: the first looks whether it is there.
    pub fn write_bytes(&self, uri: &VfsUri, opts: WriteOpts) -> (r: Result<
        (ProviderCall, ProviderCall),
        VfsError,
    >)
        requires
            self.wf(),
        ensures
            match r {
                Ok((look, write)) => {
                    &&& call_for(self.schemes(), uri@, RequestView::Stat(uri@)) == Ok::<
                        CallView,
                        ErrorView,
                    >(look@)
                    &&& call_for(self.schemes(), uri@, RequestView::Write(uri@, opts)) == Ok::<
                        CallView,
                        ErrorView,
                    >(write@)
                },
                Err(e) => provider_of(self.schemes(), uri@) == Err::<usize, ErrorView>(e@),
            },
    {
        match self.provider_for(uri) {
            Ok(provider) => Ok(
                (
                    ProviderCall { provider, request: Request::Stat(uri.clone()) },
                    ProviderCall { provider, request: Request::Write(uri.clone(), opts) },
                ),
            ),
            Err(e) => Err(e),
        }
    }
}

/// A uri is served by the provider that was registered last for its scheme,
/// whatever was registered for others.
pub proof fn law_last_registration_serves(
    schemes: Schemes,
    scheme: Seq<char>,
    place: usize,
    uri: UriView,
)
    ensures
        provider_of(schemes.insert(scheme, place), uri) == if uri.scheme == scheme {
            Ok::<usize, ErrorView>(place)
        } else {
            provider_of(schemes, uri)
        },
{
}

/// The engine keeps the providers that serve a scheme, and no others.
pub proof fn law_only_serving_providers_are_kept<P>(engine: VfsEngine<P>, place: usize)
    requires
        engine.wf(),
    ensures
        place < engine.providers().len() && engine.providers()[place as int] is Some <==> serves(
            engine.schemes(),
            place,
        ),
{
    let schemes = engine.schemes@;
    if place < engine.providers().len() && engine.providers()[place as int] is Some {
        assert(placed(schemes, place as int));
        let i = choose|i: int| 0 <= i < schemes.len() && (#[trigger] schemes[i]).1 == place;
        lemma_at(schemes, i);
        assert(engine.schemes().contains_key(schemes[i].0@));
    }
    if serves(engine.schemes(), place) {
        let s = choose|s: Seq<char>| #[trigger]
            engine.schemes().contains_key(s) && engine.schemes()[s] == place;
        assert(listed(schemes, s));
        let i = crate::engine::place(schemes, s);
        assert(schemes[i].0@ == s);
    }
}

/// What is told of a directory that was made.
pub fn finish_mkdir(uri: &VfsUri, result: Result<(), VfsError>) -> (r: Result<FsEvent, VfsError>)
    ensures
        event_view(r) == event_if_ok(unit_view(result), event(FsEventKind::Created, uri@)),
{
    match result {
        Ok(()) => Ok(FsEvent::of(FsEventKind::Created, uri)),
        Err(e) => Err(e),
    }
}

/// What is told of a file that was written, which was there before or not.
pub fn finish_write(uri: &VfsUri, existed: bool, result: Result<(), VfsError>) -> (r: Result<
    FsEvent,
    VfsError,
>)
    ensures
        event_view(r) == event_if_ok(unit_view(result), write_event(uri@, existed)),
{
    let kind = if existed {
        FsEventKind::Modified
    } else {
        FsEventKind::Created
    };
    match result {
        Ok(()) => Ok(FsEvent::of(kind, uri)),
        Err(e) => Err(e),
    }
}

/// What is told of a rename.
pub fn finish_rename(from: &VfsUri, to: &VfsUri, result: Result<(), VfsError>) -> (r: Result<
    FsEvent,
    VfsError,
>)
    ensures
        event_view(r) == event_if_ok(unit_view(result), renamed(from@, to@)),
{
    match result {
        Ok(()) => Ok(FsEvent::renamed(from, to)),
        Err(e) => Err(e),
    }
}

proof fn lemma_update(before: Seq<(String, usize)>, i: int, name: String, slot: usize)
    requires
        distinct(before),
        0 <= i < before.len(),
        before[i].0@ == name@,
    ensures
        ({
            let after = before.update(i, (name, slot));
            distinct(after) && scheme_map(after) == scheme_map(before).insert(name@, slot)
        }),
{
    let after = before.update(i, (name, slot));
    assert forall|a: int, b: int|
        0 <= a < after.len() && 0 <= b < after.len() && a != b implies (#[trigger] after[a]).0@ != (
    #[trigger] after[b]).0@ by {
        assert(after[a].0@ == before[a].0@ && after[b].0@ == before[b].0@);
    }
    assert forall|s: Seq<char>| listed(after, s) == listed(before, s) by {
        if listed(after, s) {
            let p = place(after, s);
            assert(before[p].0@ == s);
        }
        if listed(before, s) {
            let p = place(before, s);
            assert(after[p].0@ == s);
        }
    }
    lemma_at(after, i);
    assert(after[i].0@ == name@);
    assert forall|s: Seq<char>| listed(after, s) && s != name@ implies scheme_map(after)[s]
        == scheme_map(before)[s] by {
        let p = place(after, s);
        assert(after[p].0@ == s);
        assert(p != i);
        assert(after[p] == before[p]);
        lemma_at(before, p);
        lemma_at(after, p);
    }
    assert(scheme_map(after) =~= scheme_map(before).insert(name@, slot));
}

proof fn lemma_push(before: Seq<(String, usize)>, name: String, slot: usize)
    requires
        distinct(before),
        !listed(before, name@),
    ensures
        ({
            let after = before.push((name, slot));
            distinct(after) && scheme_map(after) == scheme_map(before).insert(name@, slot)
        }),
{
    let after = before.push((name, slot));
    let n = before.len() as int;
    assert forall|a: int, b: int|
        0 <= a < after.len() && 0 <= b < after.len() && a != b implies (#[trigger] after[a]).0@ != (
    #[trigger] after[b]).0@ by {
        if a == n {
            assert(after[b] == before[b]);
        } else if b == n {
            assert(after[a] == before[a]);
        } else {
            assert(after[a] == before[a] && after[b] == before[b]);
        }
    }
    assert(after[n].0@ == name@);
    lemma_at(after, n);
    assert forall|s: Seq<char>| listed(after, s) == (listed(before, s) || s == name@) by {
        if listed(after, s) && s != name@ {
            let p = place(after, s);
            assert(after[p].0@ == s);
            assert(before[p].0@ == s);
        }
        if listed(before, s) {
            let p = place(before, s);
            assert(before[p].0@ == s);
            assert(after[p].0@ == s);
        }
    }
    assert forall|s: Seq<char>| listed(before, s) implies scheme_map(after)[s] == scheme_map(
        before,
    )[s] by {
        let p = place(before, s);
        assert(before[p].0@ == s);
        assert(after[p] == before[p]);
        lemma_at(after, p);
    }
    assert(scheme_map(after) =~= scheme_map(before).insert(name@, slot));
}

/// The deletion of many uris, one after the other.
///
/// Each is asked for with `advance`; where that names a call, its answer is
/// handed to `resume`.
pub struct DeleteSession {
    uris: Vec<VfsUri>,
    opts: DeleteOpts,
    out: Vec<PerSourceResult>,
    waiting: bool,
}

#[verifier::ext_equal]
pub struct DeleteView {
    pub uris: Seq<UriView>,
    pub opts: DeleteOpts,
    pub out: Seq<OutcomeView>,
    /// The deletion of the next uri was asked for, and its answer is awaited.
    pub waiting: bool,
}

impl View for DeleteSession {
    type V = DeleteView;

    closed spec fn view(&self) -> DeleteView {
        DeleteView {
            uris: uri_views(self.uris@),
            opts: self.opts,
            out: outcome_views(self.out@),
            waiting: self.waiting,
        }
    }
}

impl DeleteView {
    /// A deletion that is about to begin.
    pub open spec fn start(uris: Seq<UriView>, opts: DeleteOpts) -> DeleteView {
        DeleteView { uris, opts, out: Seq::empty(), waiting: false }
    }

    /// The uris were dealt with in order: each has its own outcome, and an
    /// answer is awaited only for one that has none.
    pub open spec fn wf(self) -> bool {
        &&& self.out.len() <= self.uris.len()
        &&& self.waiting ==> self.out.len() < self.uris.len()
        &&& forall|i: int|
            0 <= i < self.out.len() ==> (#[trigger] self.out[i]).source == self.uris[i]
    }

    /// The next uri has the outcome.
    pub open spec fn settled(self, result: Result<(), ErrorView>) -> DeleteView {
        DeleteView {
            out: self.out.push(outcome(self.uris[self.out.len() as int], result)),
            waiting: false,
            ..self
        }
    }

    /// What follows for the next uri: once cancelled, none is deleted any more.
    pub open spec fn advanced(self, schemes: Schemes, cancelled: bool) -> (DeleteView, ActionView) {
        if self.out.len() == self.uris.len() {
            (self, ActionView::Done)
        } else if cancelled {
            (self.settled(Err(ErrorView::Cancelled)), ActionView::Again)
        } else {
            let uri = self.uris[self.out.len() as int];
            match call_for(schemes, uri, RequestView::Delete(uri, self.opts)) {
                Ok(call) => (DeleteView { waiting: true, ..self }, ActionView::Call(call)),
                Err(e) => (self.settled(Err(e)), ActionView::Again),
            }
        }
    }
}

impl DeleteSession {
    pub fn new(uris: Vec<VfsUri>, opts: DeleteOpts) -> (r: DeleteSession)
        ensures
            r@.wf(),
            r@ == DeleteView::start(uri_views(uris@), opts),
    {
        let r = DeleteSession { uris, opts, out: Vec::new(), waiting: false };
        assert(r@.out =~= Seq::<OutcomeView>::empty());
        r
    }

    fn settle(&mut self, result: Result<(), VfsError>)
        requires
            old(self)@.out.len() < old(self)@.uris.len(),
            old(self)@.wf(),
        ensures
            final(self)@.wf(),
            final(self)@ == old(self)@.settled(unit_view(result)),
    {
        let uri = self.uris[self.out.len()].clone();
        self.out.push(PerSourceResult::of(uri, result));
        self.waiting = false;
        assert(self@ =~= old(self)@.settled(unit_view(result)));
    }

    /// What to do next.
    pub fn advance<P>(&mut self, engine: &VfsEngine<P>, cancelled: bool) -> (r: Action)
        requires
            engine.wf(),
            old(self)@.wf(),
            !old(self)@.waiting,
        ensures
            final(self)@.wf(),
            (final(self)@, r@) == old(self)@.advanced(engine.schemes(), cancelled),
            r@ is Call <==> final(self)@.waiting,
    {
        if self.out.len() == self.uris.len() {
            return Action::Done;
        }
        if cancelled {
            self.settle(Err(VfsError::Cancelled));
            return Action::Again;
        }
        let uri = self.uris[self.out.len()].clone();
        match engine.call(&uri, Request::Delete(uri.clone(), self.opts)) {
            Ok(call) => {
                self.waiting = true;
                Action::Call(call)
            },
            Err(e) => {
                self.settle(Err(e));
                Action::Again
            },
        }
    }

    /// Takes in how the deletion of the uri in hand ended, and gives the event
    /// to tell of.
    pub fn resume(&mut self, result: Result<(), VfsError>) -> (r: Option<FsEvent>)
        requires
            old(self)@.wf(),
            old(self)@.waiting,
        ensures
            final(self)@.wf(),
            !final(self)@.waiting,
            final(self)@ == old(self)@.settled(unit_view(result)),
            r is Some == result is Ok,
            r matches Some(e) ==> e@ == event(
                FsEventKind::Removed,
                old(self)@.uris[old(self)@.out.len() as int],
            ),
    {
        let ok = result.is_ok();
        let uri = self.uris[self.out.len()].clone();
        self.settle(result);
        if ok {
            Some(FsEvent::of(FsEventKind::Removed, &uri))
        } else {
            None
        }
    }

    /// The outcomes, in the order of the uris.
    pub fn finish(self) -> (r: Vec<PerSourceResult>)
        ensures
            outcome_views(r@) == self@.out,
    {
        self.out
    }
}

/// A deletion that is done has one outcome for each uri, in their order; once it
/// was cancelled it asks for nothing more.
pub proof fn law_deletion_tells_every_uri(v: DeleteView, schemes: Schemes, cancelled: bool)
    requires
        v.wf(),
        !v.waiting,
    ensures
        v.advanced(schemes, cancelled).1 is Done ==> v.out.len() == v.uris.len() && forall|i: int|
            0 <= i < v.out.len() ==> (#[trigger] v.out[i]).source == v.uris[i],
        !(v.advanced(schemes, true).1 is Call),
        v.out.len() < v.uris.len() ==> v.advanced(schemes, true).0 == v.settled(
            Err(ErrorView::Cancelled),
        ),
{
}

} // verus!
